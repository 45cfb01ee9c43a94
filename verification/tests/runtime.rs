use std::sync::atomic::{AtomicUsize, Ordering as AtomicOrdering};
use std::sync::Arc;

use camjongun::platform::{artifact_specs, artifact_status, linux, macos, windows, BuiltinBackend};
use camjongun::{
    default_backend, platform_report, ArtifactProbe, ArtifactStatus, CjuResult, Controls, DeviceCreateDesc,
    DeviceId, DeviceInfo, Error, Frame, HostInfo, HostPlatform, PixelFormat, PlatformBackend,
    PlatformStream, ProducerPolicy, Registry, ResultCode, Runtime, RuntimeOptions, VideoDesc,
};

fn probes(platform: HostPlatform, present: bool) -> Vec<ArtifactProbe> {
    artifact_specs(platform)
        .iter()
        .map(|spec| ArtifactProbe {
            path: format!("/opt/camjongun/{}", spec.relative_path),
            found: present,
        })
        .collect()
}

fn host(platform: HostPlatform, present: bool) -> HostInfo {
    HostInfo {
        platform,
        report: platform_report(platform, probes(platform, present)),
        v4l2loopback_available: present,
    }
}

fn options(app: &str) -> RuntimeOptions {
    RuntimeOptions {
        app_name: app.to_string(),
        registry_path: Some("registry.tsv".to_string()),
        auto_install_helper: false,
    }
}

fn desc(name: &str) -> DeviceCreateDesc {
    DeviceCreateDesc {
        display_name: name.to_string(),
        owner_app: None,
        preferred_video: VideoDesc::default(),
        producer_policy: ProducerPolicy::RejectSecond,
    }
}

fn linux_runtime() -> Runtime {
    Runtime::new(
        options("contract-test"),
        Registry::new("registry.tsv".to_string()),
        host(HostPlatform::Linux, false),
    )
    .expect("runtime should initialize")
}

/// A backend whose answers the test chooses.
struct ScriptedBackend {
    install: Option<ResultCode>,
    uninstall: Option<ResultCode>,
    open: bool,
    frames: Arc<AtomicUsize>,
    asked: Arc<AtomicUsize>,
}

struct ScriptedStream {
    frames: Arc<AtomicUsize>,
    close_fails: bool,
}

fn answer(code: Option<ResultCode>) -> CjuResult<()> {
    match code {
        None => Ok(()),
        Some(code) => Err(Error::new(code, "scripted")),
    }
}

impl PlatformBackend for ScriptedBackend {
    fn device_install(&self, _device: &DeviceInfo) -> CjuResult<()> {
        self.asked.fetch_add(1, AtomicOrdering::SeqCst);
        answer(self.install)
    }

    fn device_uninstall(&self, _device: &DeviceInfo) -> CjuResult<()> {
        self.asked.fetch_add(1, AtomicOrdering::SeqCst);
        answer(self.uninstall)
    }

    fn stream_open(
        &self,
        _device: &DeviceInfo,
        _video: VideoDesc,
    ) -> CjuResult<Box<dyn PlatformStream>> {
        self.asked.fetch_add(1, AtomicOrdering::SeqCst);
        if self.open {
            Ok(Box::new(ScriptedStream { frames: self.frames.clone(), close_fails: false }))
        } else {
            Err(Error::new(ResultCode::PlatformUnavailable, "scripted"))
        }
    }
}

impl PlatformStream for ScriptedStream {
    fn push_frame(&mut self, _frame: &Frame) -> CjuResult<()> {
        self.frames.fetch_add(1, AtomicOrdering::SeqCst);
        Ok(())
    }

    fn update_controls(&mut self, _controls: &Controls) -> CjuResult<()> {
        Ok(())
    }

    fn close(&mut self) -> CjuResult<()> {
        if self.close_fails {
            Err(Error::new(ResultCode::BackendError, "scripted"))
        } else {
            Ok(())
        }
    }
}

fn counted_runtime(
    install: Option<ResultCode>,
    uninstall: Option<ResultCode>,
    open: bool,
) -> (Runtime, Arc<AtomicUsize>, Arc<AtomicUsize>) {
    let frames = Arc::new(AtomicUsize::new(0));
    let asked = Arc::new(AtomicUsize::new(0));
    let backend = ScriptedBackend { install, uninstall, open, frames: frames.clone(), asked: asked.clone() };
    let runtime = Runtime::with_backend(
        options("scripted"),
        Registry::new("registry.tsv".to_string()),
        host(HostPlatform::Windows, true),
        Box::new(backend),
    )
    .unwrap();
    (runtime, frames, asked)
}

fn scripted_runtime(install: Option<ResultCode>, uninstall: Option<ResultCode>, open: bool) -> (Runtime, Arc<AtomicUsize>) {
    let (runtime, frames, _) = counted_runtime(install, uninstall, open);
    (runtime, frames)
}

fn frame(ts: u64) -> Frame<'static> {
    Frame { planes: [&[], &[], &[], &[]], linesize: [0; 4], timestamp_ns: ts }
}

#[test]
fn default_runtime_uses_platform_report() {
    let runtime = Runtime::new(
        RuntimeOptions::default(),
        Registry::new("devices.tsv".to_string()),
        host(HostPlatform::Linux, false),
    )
    .unwrap();
    let report = runtime.platform_report();
    assert!(!report.platform.is_empty());
    assert!(!report.summary.contains("OBS"));
}

#[test]
fn platform_reports_use_camjongun_artifact_names() {
    let names = |platform: HostPlatform| {
        platform_report(platform, probes(platform, true))
            .artifacts
            .iter()
            .map(|artifact| artifact.name)
            .collect::<Vec<_>>()
            .join("\n")
    };
    let win = names(HostPlatform::Windows);
    assert!(win.contains("camjongun-virtualcam-module64.dll"));
    assert!(win.contains("camjongun-virtualcam-module32.dll"));
    assert!(!win.contains("obs-virtualcam-module"));
    let mac = names(HostPlatform::Macos);
    assert!(mac.contains("com.camjongun.virtual-camera.systemextension"));
    assert!(mac.contains("camjongun-mac-virtualcam.plugin"));
    assert!(!mac.contains("com.obsproject"));
    let report = platform_report(HostPlatform::Linux, probes(HostPlatform::Linux, true));
    assert!(report.summary.contains("v4l2loopback"));
    assert!(names(HostPlatform::Linux).contains("camjongun-installer-helper"));
    assert!(platform_report(HostPlatform::Unsupported, Vec::new()).artifacts.is_empty());
}

#[test]
fn registry_create_list_get_delete_round_trip_is_stable() {
    let mut runtime = linux_runtime();
    let id = runtime
        .create_device(
            DeviceCreateDesc {
                display_name: "Contract Camera".to_string(),
                owner_app: Some("contract-test".to_string()),
                preferred_video: VideoDesc {
                    width: 1280,
                    height: 720,
                    fps_num: 60,
                    fps_den: 1,
                    format: PixelFormat::Nv12,
                },
                producer_policy: ProducerPolicy::RejectSecond,
            },
            42,
            7,
        )
        .expect("device should be created");

    let listed = runtime.list_devices().expect("registry should list devices");
    assert_eq!(listed.len(), 1);
    assert_eq!(listed[0].id, id);
    assert_eq!(listed[0].display_name, "Contract Camera");
    assert!(listed[0].platform_identity.starts_with("camjongun.virtual-camera."));

    let fetched = runtime.get_device(id).expect("created device should be fetchable");
    assert_eq!(fetched.preferred_video.width, 1280);
    assert_eq!(fetched.preferred_video.height, 720);

    runtime.delete_device(id).expect("device should delete");
    assert!(runtime.list_devices().expect("registry should list after delete").is_empty());
}

#[test]
fn create_rejects_blank_names_and_fills_defaults() {
    let mut runtime = linux_runtime();
    let err = runtime.create_device(desc(" \t\u{3000}"), 1, 1).unwrap_err();
    assert_eq!(err.code, ResultCode::InvalidArgument);
    assert_eq!(err.detail, "display name is required");
    assert!(runtime.list_devices().unwrap().is_empty());

    let mut d = desc("Cam");
    d.preferred_video = VideoDesc { width: 0, height: 0, fps_num: 0, fps_den: 0, format: PixelFormat::Bgra };
    let id = runtime.create_device(d, 2, 2).unwrap();
    let dev = runtime.get_device(id).unwrap();
    assert_eq!(dev.owner_app, "contract-test");
    assert_eq!(
        dev.preferred_video,
        VideoDesc { width: 1920, height: 1080, fps_num: 30, fps_den: 1, format: PixelFormat::Bgra }
    );
    assert_eq!(dev.device_path, format!("v4l2loopback:{}", id.as_str()));
    assert!(dev.enabled && !dev.installed && !dev.visible_to_os && !dev.streaming);
    assert_eq!(dev.last_error, "");
}

#[test]
fn builtin_backends_never_report_install_success() {
    let mut runtime = linux_runtime();
    let id = runtime.create_device(desc("Cam"), 3, 3).unwrap();
    let err = runtime.install_device(id).unwrap_err();
    assert_eq!(err.code, ResultCode::PermissionRequired);
    let dev = runtime.get_device(id).unwrap();
    assert!(!dev.installed);
    assert_eq!(dev.last_error, format!("{}: {}", ResultCode::PermissionRequired.message(), err.detail));
    assert!(err.detail.starts_with("v4l2loopback is not available"));

    for platform in [HostPlatform::Windows, HostPlatform::Macos, HostPlatform::Linux, HostPlatform::Unsupported] {
        for present in [false, true] {
            let backend: BuiltinBackend = default_backend(host(platform, present));
            let device = runtime.get_device(id).unwrap();
            assert!(backend.device_install(&device).is_err());
            assert!(backend.device_uninstall(&device).is_err());
            assert!(backend.stream_open(&device, VideoDesc::default()).is_err());
        }
    }
}

#[test]
fn missing_artifacts_are_named_in_the_error() {
    let backend = windows::WindowsBackend::new(platform_report(
        HostPlatform::Windows,
        probes(HostPlatform::Windows, false),
    ));
    let mut runtime = linux_runtime();
    let id = runtime.create_device(desc("Cam"), 4, 4).unwrap();
    let device = runtime.get_device(id).unwrap();
    let err = backend.device_install(&device).unwrap_err();
    assert_eq!(err.code, ResultCode::BackendError);
    assert_eq!(
        err.detail,
        "missing CamJongUn platform artifacts: camjongun-virtualcam-module64.dll, camjongun-virtualcam-module32.dll, camjongun-installer-helper.exe"
    );
    let present = windows::WindowsBackend::new(platform_report(
        HostPlatform::Windows,
        probes(HostPlatform::Windows, true),
    ));
    let err = present.device_install(&device).unwrap_err();
    assert_eq!(err.code, ResultCode::PermissionRequired);
    assert_eq!(
        err.detail,
        "DirectShow registration for 'Cam' requires the packaged CamJongUn module installer helper"
    );
    let mac = macos::MacosBackend::new(platform_report(HostPlatform::Macos, probes(HostPlatform::Macos, true)));
    assert_eq!(
        mac.device_install(&device).unwrap_err().detail,
        "Camera Extension activation for 'Cam' requires macOS user approval"
    );
    let lin = linux::LinuxBackend::new(true);
    assert_eq!(
        lin.device_uninstall(&device).unwrap_err().detail,
        "removing CamJongUn-managed v4l2loopback device 'Cam' requires the installer helper"
    );
}

#[test]
fn install_and_uninstall_follow_the_backend() {
    let (mut runtime, _) = scripted_runtime(None, Some(ResultCode::PlatformUnavailable), true);
    let id = runtime.create_device(desc("Cam"), 5, 5).unwrap();
    runtime.install_device(id).unwrap();
    let dev = runtime.get_device(id).unwrap();
    assert!(dev.installed && dev.visible_to_os);
    // An unavailable platform still counts as uninstalled.
    runtime.uninstall_device(id).unwrap();
    let dev = runtime.get_device(id).unwrap();
    assert!(!dev.installed && !dev.visible_to_os && !dev.streaming);

    let (mut runtime, _) = scripted_runtime(None, Some(ResultCode::PermissionRequired), true);
    let id = runtime.create_device(desc("Cam"), 6, 6).unwrap();
    runtime.install_device(id).unwrap();
    let err = runtime.uninstall_device(id).unwrap_err();
    assert_eq!(err.code, ResultCode::PermissionRequired);
    let dev = runtime.get_device(id).unwrap();
    assert!(dev.installed);
    assert_eq!(dev.last_error, "permission or user approval is required: scripted");
    // Deleting an installed device still removes it when uninstall is refused.
    runtime.delete_device(id).unwrap();
    assert_eq!(runtime.get_device(id).unwrap_err().code, ResultCode::NotFound);
    assert_eq!(runtime.delete_device(id).unwrap_err().code, ResultCode::NotFound);
}

#[test]
fn streams_admit_one_producer_and_record_frames() {
    let (mut runtime, frames) = scripted_runtime(None, None, true);
    let id = runtime.create_device(desc("Cam"), 7, 7).unwrap();
    let mut stream = runtime
        .open_stream(id, VideoDesc { width: 640, height: 0, fps_num: 0, fps_den: 0, format: PixelFormat::Nv12 })
        .unwrap();
    assert!(stream.is_open());
    assert_eq!(stream.device_id(), id);
    let dev = runtime.get_device(id).unwrap();
    assert!(dev.streaming);
    assert_eq!(dev.preferred_video.width, 640);
    assert_eq!(dev.preferred_video.height, 1080);

    let second = runtime.open_stream(id, VideoDesc::default()).err().unwrap();
    assert_eq!(second.code, ResultCode::AlreadyRunning);
    assert_eq!(second.detail, "device already has an active producer");

    stream.push_frame(&mut runtime, &frame(99)).unwrap();
    assert_eq!(frames.load(AtomicOrdering::SeqCst), 1);
    assert_eq!(runtime.get_device(id).unwrap().last_frame_time_ns, 99);
    stream.update_controls(&Controls::default()).unwrap();

    stream.close_inner(&mut runtime).unwrap();
    assert!(!stream.is_open());
    assert!(!runtime.get_device(id).unwrap().streaming);
    assert_eq!(stream.push_frame(&mut runtime, &frame(100)).unwrap_err().code, ResultCode::NotRunning);
    assert_eq!(stream.update_controls(&Controls::default()).unwrap_err().code, ResultCode::NotRunning);
    stream.close_inner(&mut runtime).unwrap();
    stream.close(&mut runtime).unwrap();
    assert_eq!(runtime.get_device(id).unwrap().last_frame_time_ns, 99);
}

#[test]
fn takeover_allows_a_second_producer() {
    let (mut runtime, _) = scripted_runtime(None, None, true);
    let mut d = desc("Cam");
    d.producer_policy = ProducerPolicy::Takeover;
    let id = runtime.create_device(d, 8, 8).unwrap();
    let _first = runtime.open_stream(id, VideoDesc::default()).unwrap();
    assert!(runtime.open_stream(id, VideoDesc::default()).is_ok());
}

#[test]
fn refused_streams_change_nothing() {
    let (mut runtime, _) = scripted_runtime(None, None, false);
    let id = runtime.create_device(desc("Cam"), 9, 9).unwrap();
    let err = runtime.open_stream(id, VideoDesc::default()).err().unwrap();
    assert_eq!(err.code, ResultCode::PlatformUnavailable);
    assert!(!runtime.get_device(id).unwrap().streaming);
    let missing = runtime.open_stream(DeviceId::from_str_lossy("nope"), VideoDesc::default()).err().unwrap();
    assert_eq!(missing.code, ResultCode::NotFound);
}

#[test]
fn error_text_and_codes() {
    assert_eq!(Error::new(ResultCode::NotFound, "").to_string(), "device not found");
    assert_eq!(Error::new(ResultCode::NotFound, "cju-x").to_string(), "device not found: cju-x");
    for n in 0..12 {
        assert_eq!(ResultCode::from_number(n).number(), n);
    }
    assert_eq!(ResultCode::from_number(99), ResultCode::BackendError);
    assert_eq!(ResultCode::Success.message(), "ok");
}

#[test]
fn disabled_devices_refuse_streams() {
    let row = [
        "cju-off", "Off Camera", "contract-test", "camjongun.virtual-camera.cju-off",
        "v4l2loopback:cju-off", "640", "480", "30", "1", "0", "0", "0", "0", "0", "0", "0", "",
    ]
    .join("\t");
    let registry = Registry::from_text("registry.tsv".to_string(), &format!("{row}\n"));
    let frames = Arc::new(AtomicUsize::new(0));
    let asked = Arc::new(AtomicUsize::new(0));
    let backend = ScriptedBackend { install: None, uninstall: None, open: true, frames, asked: asked.clone() };
    let mut runtime = Runtime::with_backend(
        options("scripted"),
        registry,
        host(HostPlatform::Linux, true),
        Box::new(backend),
    )
    .unwrap();
    let err = runtime.open_stream(DeviceId::from_str_lossy("cju-off"), VideoDesc::default()).err().unwrap();
    assert_eq!(err.code, ResultCode::Unsupported);
    assert_eq!(err.detail, "device is disabled");
    assert_eq!(asked.load(AtomicOrdering::SeqCst), 0);
}

/// A backend whose streams refuse to close.
struct FailingClose;

impl PlatformBackend for FailingClose {
    fn device_install(&self, _d: &DeviceInfo) -> CjuResult<()> {
        Ok(())
    }

    fn device_uninstall(&self, _d: &DeviceInfo) -> CjuResult<()> {
        Ok(())
    }

    fn stream_open(&self, _d: &DeviceInfo, _v: VideoDesc) -> CjuResult<Box<dyn PlatformStream>> {
        Ok(Box::new(ScriptedStream { frames: Arc::new(AtomicUsize::new(0)), close_fails: true }))
    }
}

#[test]
fn failed_close_keeps_the_stream_open() {
    let mut registry = Registry::new("registry.tsv".to_string());
    registry.save(&[]);
    let mut runtime = Runtime::with_backend(
        options("scripted"),
        registry,
        host(HostPlatform::Linux, true),
        Box::new(FailingClose),
    )
    .unwrap();
    let id = runtime.create_device(desc("Cam"), 10, 10).unwrap();
    assert_eq!(id, DeviceId::generated(10, 10));
    let mut stream = runtime.open_stream(id, VideoDesc::default()).unwrap();
    let err = stream.close_inner(&mut runtime).unwrap_err();
    assert_eq!(err.code, ResultCode::BackendError);
    assert!(stream.is_open());
    assert!(runtime.get_device(id).unwrap().streaming);
}

#[test]
fn normalizing_twice_changes_nothing() {
    let mut video = VideoDesc { width: 0, height: 720, fps_num: 0, fps_den: 2, format: PixelFormat::Yuy2 };
    camjongun::normalize_video(&mut video);
    let once = video;
    camjongun::normalize_video(&mut video);
    assert_eq!(video, once);
    assert_eq!(once, VideoDesc { width: 1920, height: 720, fps_num: 30, fps_den: 2, format: PixelFormat::Yuy2 });
}

#[test]
fn reports_never_mention_obs() {
    for platform in [HostPlatform::Windows, HostPlatform::Macos, HostPlatform::Linux, HostPlatform::Unsupported] {
        let report = platform_report(platform, probes(platform, false));
        assert!(!report.platform.to_lowercase().contains("obs"));
        assert!(!report.summary.to_lowercase().contains("obs"));
        for artifact in &report.artifacts {
            assert!(!artifact.name.to_lowercase().contains("obs"));
            assert!(matches!(artifact.status, ArtifactStatus::Missing(_)));
        }
    }
}

#[test]
fn missing_devices_ask_the_platform_nothing() {
    let (mut runtime, _, asked) = counted_runtime(None, None, true);
    let id = DeviceId::from_str_lossy("cju-missing");
    for err in [
        runtime.install_device(id).unwrap_err(),
        runtime.uninstall_device(id).unwrap_err(),
        runtime.open_stream(id, VideoDesc::default()).err().unwrap(),
        runtime.delete_device(id).unwrap_err(),
    ] {
        assert_eq!(err.code, ResultCode::NotFound);
        assert_eq!(err.detail, "cju-missing");
    }
    assert_eq!(asked.load(AtomicOrdering::SeqCst), 0);
    assert!(runtime.list_devices().unwrap().is_empty());
}

#[test]
fn the_platform_answer_is_what_the_runtime_returns() {
    let (mut runtime, _, asked) = counted_runtime(Some(ResultCode::BackendError), Some(ResultCode::AlreadyExists), false);
    let id = runtime.create_device(desc("Cam"), 11, 11).unwrap();
    assert_eq!(asked.load(AtomicOrdering::SeqCst), 0);
    let err = runtime.install_device(id).unwrap_err();
    assert_eq!((err.code, err.detail.as_str()), (ResultCode::BackendError, "scripted"));
    assert_eq!(runtime.get_device(id).unwrap().last_error, "backend error: scripted");
    assert!(!runtime.get_device(id).unwrap().installed);
    let err = runtime.uninstall_device(id).unwrap_err();
    assert_eq!(err.code, ResultCode::AlreadyExists);
    assert_eq!(runtime.get_device(id).unwrap().last_error, "device already exists: scripted");
    let err = runtime.open_stream(id, VideoDesc::default()).err().unwrap();
    assert_eq!((err.code, err.detail.as_str()), (ResultCode::PlatformUnavailable, "scripted"));
    assert_eq!(asked.load(AtomicOrdering::SeqCst), 3);
}

#[test]
fn deleting_asks_to_uninstall_only_installed_devices() {
    let (mut runtime, _, asked) = counted_runtime(None, Some(ResultCode::PermissionRequired), true);
    let plain = runtime.create_device(desc("Plain"), 12, 12).unwrap();
    runtime.delete_device(plain).unwrap();
    assert_eq!(asked.load(AtomicOrdering::SeqCst), 0);
    let installed = runtime.create_device(desc("Installed"), 13, 13).unwrap();
    runtime.install_device(installed).unwrap();
    assert_eq!(asked.load(AtomicOrdering::SeqCst), 1);
    runtime.delete_device(installed).unwrap();
    assert_eq!(asked.load(AtomicOrdering::SeqCst), 2);
    assert!(runtime.list_devices().unwrap().is_empty());
}

#[test]
fn takeover_opens_again_and_records_the_new_video() {
    let (mut runtime, _, asked) = counted_runtime(None, None, true);
    let mut d = desc("Cam");
    d.producer_policy = ProducerPolicy::Takeover;
    let id = runtime.create_device(d, 14, 14).unwrap();
    let _first = runtime.open_stream(id, VideoDesc::default()).unwrap();
    let video = VideoDesc { width: 320, height: 240, fps_num: 15, fps_den: 1, format: PixelFormat::Yuy2 };
    let second = runtime.open_stream(id, video).unwrap();
    assert!(second.is_open());
    assert_eq!(asked.load(AtomicOrdering::SeqCst), 2);
    let dev = runtime.get_device(id).unwrap();
    assert!(dev.streaming);
    assert_eq!(dev.preferred_video, video);
    assert_eq!(dev.last_error, "");
}

#[test]
fn a_stream_on_a_deleted_device_is_not_found() {
    let (mut runtime, frames) = scripted_runtime(None, None, true);
    let id = runtime.create_device(desc("Cam"), 15, 15).unwrap();
    let mut stream = runtime.open_stream(id, VideoDesc::default()).unwrap();
    runtime.delete_device(id).unwrap();
    let err = stream.push_frame(&mut runtime, &frame(5)).unwrap_err();
    assert_eq!(err.code, ResultCode::NotFound);
    assert_eq!(frames.load(AtomicOrdering::SeqCst), 1);
    let err = stream.close_inner(&mut runtime).unwrap_err();
    assert_eq!(err.code, ResultCode::NotFound);
    assert!(stream.is_open());
    assert!(runtime.list_devices().unwrap().is_empty());
}

#[test]
fn refreshing_the_host_probes_again() {
    let mut runtime = Runtime::new(
        options("refresh"),
        Registry::new("registry.tsv".to_string()),
        host(HostPlatform::Windows, false),
    )
    .unwrap();
    let id = runtime.create_device(desc("Cam"), 16, 16).unwrap();
    assert_eq!(runtime.install_device(id).unwrap_err().code, ResultCode::BackendError);
    runtime.refresh_host(host(HostPlatform::Windows, true));
    let err = runtime.install_device(id).unwrap_err();
    assert_eq!(err.code, ResultCode::PermissionRequired);
    assert_eq!(
        err.detail,
        "DirectShow registration for 'Cam' requires the packaged CamJongUn module installer helper"
    );
    assert!(runtime
        .platform_report()
        .artifacts
        .iter()
        .all(|a| matches!(a.status, ArtifactStatus::Present(_))));

    // A backend of the application's stays.
    let (mut scripted, _) = scripted_runtime(None, None, true);
    let id = scripted.create_device(desc("Cam"), 17, 17).unwrap();
    scripted.refresh_host(host(HostPlatform::Linux, false));
    scripted.install_device(id).unwrap();
    assert_eq!(scripted.platform_report().platform, "linux");
}

#[test]
fn looking_for_an_artifact_gives_present_or_missing() {
    let found = artifact_status(ArtifactProbe { path: "/opt/a".to_string(), found: true });
    assert!(matches!(found, ArtifactStatus::Present(ref p) if p == "/opt/a"));
    let lost = artifact_status(ArtifactProbe { path: "/opt/b".to_string(), found: false });
    assert!(matches!(lost, ArtifactStatus::Missing(ref p) if p == "/opt/b"));
    let report = platform_report(HostPlatform::Linux, probes(HostPlatform::Linux, true));
    assert_eq!(report.artifacts.len(), 1);
    assert!(matches!(
        report.artifacts[0].status,
        ArtifactStatus::Present(ref p) if p == "/opt/camjongun/camjongun-installer-helper"
    ));
}

#[test]
fn regsvr32_is_run_quietly_and_names_the_module_on_failure() {
    assert_eq!(windows::regsvr32_args("C:\\cam.dll", false), vec!["/s", "/i", "C:\\cam.dll"]);
    assert_eq!(windows::regsvr32_args("C:\\cam.dll", true), vec!["/s", "/u", "C:\\cam.dll"]);
    assert!(windows::regsvr32_outcome("C:\\cam.dll", true).is_ok());
    let err = windows::regsvr32_outcome("C:\\cam.dll", false).unwrap_err();
    assert_eq!(err.code, ResultCode::BackendError);
    assert_eq!(err.detail, "regsvr32 failed for C:\\cam.dll");
}

#[test]
fn created_devices_get_the_generated_identifier() {
    let mut runtime = linux_runtime();
    let id = runtime.create_device(desc("Cam"), 0x1234, 0xab).unwrap();
    assert_eq!(id, DeviceId::generated(0x1234, 0xab));
    let dev = runtime.get_device(id).unwrap();
    assert_eq!(dev.platform_identity, format!("camjongun.virtual-camera.{}", id.to_string()));
    assert!(!dev.device_path.to_lowercase().contains("obs"));
}
