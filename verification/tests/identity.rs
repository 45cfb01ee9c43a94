use camjongun::codec::{deserialize_device, serialize_device};
use camjongun::{
    make_device_path, make_platform_identity, DeviceId, DeviceInfo, HostPlatform, ProducerPolicy,
    VideoDesc,
};

fn all_platforms() -> Vec<HostPlatform> {
    vec![
        HostPlatform::Windows,
        HostPlatform::Macos,
        HostPlatform::Linux,
        HostPlatform::Unsupported,
    ]
}

#[test]
fn device_round_trip_preserves_identity() {
    let id = DeviceId::from_str_lossy("cju-test");
    let device = DeviceInfo {
        id,
        display_name: "Cam\tOne".to_string(),
        owner_app: "test".to_string(),
        platform_identity: make_platform_identity(&id),
        device_path: make_device_path(&id, HostPlatform::Linux),
        preferred_video: VideoDesc::default(),
        producer_policy: ProducerPolicy::RejectSecond,
        enabled: true,
        installed: false,
        visible_to_os: false,
        streaming: false,
        last_frame_time_ns: 7,
        last_error: "none".to_string(),
    };
    let line = serialize_device(&device);
    let parsed = deserialize_device(&line).unwrap();
    assert_eq!(parsed.id, id);
    assert_eq!(parsed.display_name, "Cam\tOne");
    assert!(parsed
        .platform_identity
        .starts_with("camjongun.virtual-camera."));
}

#[test]
fn generated_device_never_uses_obs_identity() {
    let id = DeviceId::from_str_lossy("cju-clean");
    assert!(!make_platform_identity(&id).contains("obs"));
    for platform in all_platforms() {
        assert!(!make_device_path(&id, platform).contains("obs"));
    }
}

#[test]
fn generated_camjongun_identities_do_not_reuse_obs_names() {
    let id = DeviceId::from_str_lossy("cju-contract");
    let platform_identity = make_platform_identity(&id);
    assert!(platform_identity.starts_with("camjongun.virtual-camera."));
    assert!(!platform_identity.to_lowercase().contains("obs"));
    for platform in all_platforms() {
        let device_path = make_device_path(&id, platform);
        assert!(!device_path.to_lowercase().contains("obs"));
    }
}

#[test]
fn device_paths_use_each_platforms_scheme() {
    let id = DeviceId::from_str_lossy("cju-compat");
    assert_eq!(make_device_path(&id, HostPlatform::Windows), "directshow:cju-compat");
    assert_eq!(make_device_path(&id, HostPlatform::Macos), "cmio:cju-compat");
    assert_eq!(make_device_path(&id, HostPlatform::Linux), "v4l2loopback:cju-compat");
    assert_eq!(make_device_path(&id, HostPlatform::Unsupported), "v4l2loopback:cju-compat");
    assert_eq!(make_platform_identity(&id), "camjongun.virtual-camera.cju-compat");
}

#[test]
fn device_id_keeps_at_most_63_bytes() {
    let long = "x".repeat(100);
    let id = DeviceId::from_str_lossy(&long);
    assert_eq!(id.as_str().len(), 63);
    assert_eq!(id.0[63], 0);
    assert!(!id.is_empty());
    assert!(DeviceId::from_str_lossy("").is_empty());
    assert_eq!(DeviceId::from_str_lossy("").as_str(), "");
}

#[test]
fn device_id_text_round_trips() {
    for text in ["cju-test", "Kamera é", "日本語カメラ"] {
        let id = DeviceId::from_str_lossy(text);
        assert_eq!(id.as_str(), text);
        assert_eq!(id.to_string(), text);
    }
}

#[test]
fn device_id_cut_inside_a_character_reads_as_empty() {
    // 62 ASCII bytes then a two-byte character: only its first byte fits.
    let text = format!("{}é", "a".repeat(62));
    let id = DeviceId::from_str_lossy(&text);
    assert_eq!(id.as_str(), "");
}

#[test]
fn generated_ids_are_hex_stamped_and_avoid_obs() {
    let id = DeviceId::generated(0x1234_abcd, 0xbeef);
    assert_eq!(
        id.as_str(),
        "cju-0000000000000000000000001234abcd-0000beef"
    );
    let id = DeviceId::generated(u128::MAX, u32::MAX);
    assert_eq!(
        id.as_str(),
        "cju-ffffffffffffffffffffffffffffffff-ffffffff"
    );
    for platform in all_platforms() {
        assert!(!make_device_path(&id, platform).to_lowercase().contains("obs"));
    }
    assert!(!make_platform_identity(&id).to_lowercase().contains("obs"));
}

#[test]
fn device_ids_compare_by_bytes() {
    assert_eq!(DeviceId::from_str_lossy("a"), DeviceId::from_str_lossy("a"));
    assert_ne!(DeviceId::from_str_lossy("a"), DeviceId::from_str_lossy("b"));
    let c = camjongun::CjuDeviceId::from_device_id(DeviceId::from_str_lossy("cju-x"));
    assert_eq!(c.to_device_id().as_str(), "cju-x");
}
