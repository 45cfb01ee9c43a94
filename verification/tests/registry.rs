use camjongun::codec::{deserialize_device, serialize_device};
use camjongun::{
    DeviceId, DeviceInfo, PixelFormat, ProducerPolicy, Registry, ResultCode, VideoDesc,
};

fn device(id: &str, name: &str) -> DeviceInfo {
    let id = DeviceId::from_str_lossy(id);
    DeviceInfo {
        id,
        display_name: name.to_string(),
        owner_app: "contract-test".to_string(),
        platform_identity: format!("camjongun.virtual-camera.{}", id.as_str()),
        device_path: format!("v4l2loopback:{}", id.as_str()),
        preferred_video: VideoDesc {
            width: 640,
            height: 480,
            fps_num: 30,
            fps_den: 1,
            format: PixelFormat::Yuy2,
        },
        producer_policy: ProducerPolicy::Takeover,
        enabled: true,
        installed: true,
        visible_to_os: false,
        streaming: true,
        last_frame_time_ns: 123,
        last_error: "tab\there".to_string(),
    }
}

#[test]
fn registry_ignores_malformed_lines_and_keeps_valid_rows() {
    let valid_id = "cju-compat";
    let valid_row = [
        valid_id,
        "Compat Camera",
        "contract-test",
        "camjongun.virtual-camera.cju-compat",
        "directshow:cju-compat",
        "640",
        "480",
        "30",
        "1",
        "0",
        "0",
        "1",
        "0",
        "0",
        "0",
        "123",
        "",
        "future-extra-field",
    ]
    .join("\t");
    let text = format!("bad row\n{valid_row}\n");
    let registry = Registry::from_text("registry.tsv".to_string(), &text);
    let devices = registry.load();
    assert_eq!(devices.len(), 1);
    assert_eq!(devices[0].id, DeviceId::from_str_lossy(valid_id));
    assert_eq!(devices[0].last_frame_time_ns, 123);
}

#[test]
fn registry_text_round_trip_keeps_every_field() {
    let mut registry = Registry::new("registry.tsv".to_string());
    registry.upsert(&device("cju-a", "First\nCam"));
    registry.upsert(&device("cju-b", "Second \\ Cam"));
    let text = registry.to_text();
    let back = Registry::from_text("registry.tsv".to_string(), &text).load();
    let before = registry.load();
    assert_eq!(back.len(), 2);
    for (a, b) in before.iter().zip(back.iter()) {
        assert_eq!(serialize_device(a), serialize_device(b));
        assert_eq!(a.id, b.id);
        assert_eq!(a.display_name, b.display_name);
        assert_eq!(a.last_error, b.last_error);
        assert_eq!(a.preferred_video, b.preferred_video);
        assert_eq!(a.producer_policy, b.producer_policy);
        assert_eq!(a.streaming, b.streaming);
    }
}

#[test]
fn serialized_line_has_seventeen_fields() {
    let line = serialize_device(&device("cju-a", "Cam\tOne"));
    assert_eq!(line.split('\t').count(), 17);
    assert!(line.starts_with("cju-a\tCam\\tOne\tcontract-test\t"));
    assert!(line.ends_with("\t640\t480\t30\t1\t1\t1\t1\t1\t0\t1\t123\ttab\\there"));
}

#[test]
fn malformed_numbers_reject_the_line() {
    let good = serialize_device(&device("cju-a", "Cam"));
    assert!(deserialize_device(&good).is_some());
    let bad = good.replacen("\t640\t", "\tsix\t", 1);
    assert!(deserialize_device(&bad).is_none());
    let short: String = good.split('\t').take(16).collect::<Vec<_>>().join("\t");
    assert!(deserialize_device(&short).is_none());
}

#[test]
fn upsert_replaces_and_get_finds() {
    let mut registry = Registry::new("r".to_string());
    registry.upsert(&device("cju-a", "One"));
    registry.upsert(&device("cju-a", "Renamed"));
    assert_eq!(registry.load().len(), 1);
    let found = registry.get(DeviceId::from_str_lossy("cju-a")).unwrap();
    assert_eq!(found.display_name, "Renamed");
    let missing = registry.get(DeviceId::from_str_lossy("cju-z")).unwrap_err();
    assert_eq!(missing.code, ResultCode::NotFound);
    assert_eq!(missing.detail, "cju-z");
}

#[test]
fn delete_removes_or_reports_not_found() {
    let mut registry = Registry::new("r".to_string());
    registry.upsert(&device("cju-a", "One"));
    registry.upsert(&device("cju-b", "Two"));
    assert!(registry.delete(DeviceId::from_str_lossy("cju-a")).is_ok());
    assert_eq!(registry.load().len(), 1);
    let err = registry.delete(DeviceId::from_str_lossy("cju-a")).unwrap_err();
    assert_eq!(err.code, ResultCode::NotFound);
    assert_eq!(registry.load().len(), 1);
    assert_eq!(registry.path(), "r");
}
