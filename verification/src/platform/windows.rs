//! Windows: DirectShow filter modules registered by the installer helper.
use vstd::prelude::*;

use super::{
    any_missing, artifacts_match, build_artifacts, missing_artifacts_error, missing_detail, named_error,
    named_message, not_wired_detail, packaged_path, refused_with, streaming_not_wired, ArtifactProbe, ArtifactSpec,
    PlatformArtifact, PlatformReport,
};
use crate::model::{DeviceInfo, DeviceRecord, VideoDesc};
use crate::result::{CjuResult, Error, ResultCode};
use crate::text::push_str;
use crate::runtime::{PlatformBackend, PlatformStream};

verus! {

/// The artifacts Windows needs.
pub open spec fn spec_artifacts() -> Seq<ArtifactSpec> {
    seq![
        ArtifactSpec {
            name: "camjongun-virtualcam-module64.dll",
            purpose: "64-bit DirectShow virtual camera filter",
            relative_path: "windows/camjongun-virtualcam-module64.dll",
        },
        ArtifactSpec {
            name: "camjongun-virtualcam-module32.dll",
            purpose: "32-bit DirectShow virtual camera filter for 32-bit clients",
            relative_path: "windows/camjongun-virtualcam-module32.dll",
        },
        ArtifactSpec {
            name: "camjongun-installer-helper.exe",
            purpose: "privileged helper that registers/unregisters CamJongUn filters only",
            relative_path: "camjongun-installer-helper.exe",
        },
    ]
}

/// The Windows artifacts lie where the packaging contract puts them: the
/// installer helper at the artifact root, the DirectShow modules under
/// `windows/`.
pub proof fn lemma_packaged_layout()
    ensures
        spec_artifacts().len() == 3,
        spec_artifacts()[2].name@ == "camjongun-installer-helper.exe"@,
        forall|i: int|
            0 <= i < 3 ==> (#[trigger] spec_artifacts()[i]).relative_path@ == packaged_path(
                spec_artifacts()[i].name@,
                "windows/"@,
                "camjongun-installer-helper.exe"@,
            ),
{
    reveal_strlit("windows/");
    reveal_strlit("camjongun-installer-helper.exe");
    reveal_strlit("camjongun-virtualcam-module64.dll");
    reveal_strlit("camjongun-virtualcam-module32.dll");
    reveal_strlit("windows/camjongun-virtualcam-module64.dll");
    reveal_strlit("windows/camjongun-virtualcam-module32.dll");
    let a = spec_artifacts();
    assert(a[0].name@.len() != "camjongun-installer-helper.exe"@.len());
    assert(a[0].name@ != "camjongun-installer-helper.exe"@);
    assert(a[1].name@.len() != "camjongun-installer-helper.exe"@.len());
    assert(a[1].name@ != "camjongun-installer-helper.exe"@);
    assert(a[0].relative_path@ =~= "windows/"@ + a[0].name@);
    assert(a[1].relative_path@ =~= "windows/"@ + a[1].name@);
}

pub fn artifact_specs() -> (specs: Vec<ArtifactSpec>)
    ensures
        specs@ == spec_artifacts(),
{
    let mut specs: Vec<ArtifactSpec> = Vec::new();
    specs.push(
        ArtifactSpec {
            name: "camjongun-virtualcam-module64.dll",
            purpose: "64-bit DirectShow virtual camera filter",
            relative_path: "windows/camjongun-virtualcam-module64.dll",
        },
    );
    specs.push(
        ArtifactSpec {
            name: "camjongun-virtualcam-module32.dll",
            purpose: "32-bit DirectShow virtual camera filter for 32-bit clients",
            relative_path: "windows/camjongun-virtualcam-module32.dll",
        },
    );
    specs.push(
        ArtifactSpec {
            name: "camjongun-installer-helper.exe",
            purpose: "privileged helper that registers/unregisters CamJongUn filters only",
            relative_path: "camjongun-installer-helper.exe",
        },
    );
    assert(specs@ =~= spec_artifacts());
    specs
}

/// `report` is the Windows report for what was found of its artifacts.
pub open spec fn is_report(report: PlatformReport, probes: Seq<ArtifactProbe>) -> bool {
    &&& report.platform@ == "windows"@
    &&& report.summary@
        == "CamJongUn must ship 32-bit and 64-bit DirectShow modules with CamJongUn CLSIDs and names."@
    &&& artifacts_match(report.artifacts@, spec_artifacts(), probes)
}

/// The Windows report, given what was found of each artifact.
pub fn report(probes: Vec<ArtifactProbe>) -> (r: PlatformReport)
    requires
        probes.len() == spec_artifacts().len(),
    ensures
        is_report(r, probes@),
{
    let specs = artifact_specs();
    PlatformReport {
        platform: "windows",
        summary: "CamJongUn must ship 32-bit and 64-bit DirectShow modules with CamJongUn CLSIDs and names.",
        artifacts: build_artifacts(&specs, probes),
    }
}

/// The error an install is refused with: a missing artifact first, otherwise the installer helper is needed.
pub open spec fn install_refusal(artifacts: Seq<PlatformArtifact>, name: Seq<char>) -> (ResultCode, Seq<char>) {
    if any_missing(artifacts) {
        (ResultCode::BackendError, missing_detail(artifacts))
    } else {
        (ResultCode::PermissionRequired, named_message("DirectShow registration for '"@, name, "' requires the packaged CamJongUn module installer helper"@))
    }
}

/// The error an uninstall is refused with: a missing artifact first, otherwise the installer helper is needed.
pub open spec fn uninstall_refusal(artifacts: Seq<PlatformArtifact>, name: Seq<char>) -> (ResultCode, Seq<char>) {
    if any_missing(artifacts) {
        (ResultCode::BackendError, missing_detail(artifacts))
    } else {
        (ResultCode::PermissionRequired, named_message("DirectShow unregistration for '"@, name, "' requires the packaged CamJongUn module installer helper"@))
    }
}

/// The arguments `regsvr32` is run with for a module: quietly, to unregister
/// it or to install it, then the module's path.
pub fn regsvr32_args(module: &str, unregister: bool) -> (args: Vec<String>)
    ensures
        args@.len() == 3,
        args@[0]@ == "/s"@,
        args@[1]@ == (if unregister {
            "/u"@
        } else {
            "/i"@
        }),
        args@[2]@ == module@,
{
    let mut quiet = String::new();
    push_str(&mut quiet, "/s");
    let mut action = String::new();
    push_str(&mut action, if unregister { "/u" } else { "/i" });
    let mut path = String::new();
    push_str(&mut path, module);
    let mut args: Vec<String> = Vec::new();
    args.push(quiet);
    args.push(action);
    args.push(path);
    args
}

/// What a `regsvr32` run on a module gives, once it exited: done when it
/// succeeded, otherwise a backend error naming the module.
pub fn regsvr32_outcome(module: &str, success: bool) -> (r: CjuResult<()>)
    ensures
        success ==> r is Ok,
        !success ==> (r matches Err(e) && e.code == ResultCode::BackendError && e.detail@
            == "regsvr32 failed for "@ + module@),
{
    if success {
        Ok(())
    } else {
        let mut detail = String::new();
        push_str(&mut detail, "regsvr32 failed for ");
        push_str(&mut detail, module);
        Err(Error { code: ResultCode::BackendError, detail })
    }
}

/// The Windows backend, with the artifact report found when it was made.
#[derive(Debug)]
pub struct WindowsBackend {
    pub report: PlatformReport,
}

impl WindowsBackend {
    pub fn new(report: PlatformReport) -> (b: WindowsBackend)
        ensures
            b.report == report,
    {
        WindowsBackend { report }
    }
}

impl PlatformBackend for WindowsBackend {
    /// Refused: a missing artifact is reported first, otherwise registration
    /// needs the installer helper.
    open spec fn install_answer(&self, device: DeviceRecord, answer: CjuResult<()>) -> bool {
        refused_with(answer, install_refusal(self.report.artifacts@, device.display_name))
    }

    /// Refused: a missing artifact is reported first, otherwise removal needs
    /// the installer helper.
    open spec fn uninstall_answer(&self, device: DeviceRecord, answer: CjuResult<()>) -> bool {
        refused_with(answer, uninstall_refusal(self.report.artifacts@, device.display_name))
    }

    /// Refused: streaming is not wired yet.
    open spec fn open_answer(&self, device: DeviceRecord, video: VideoDesc, answer: CjuResult<()>) -> bool {
        refused_with(answer, (ResultCode::PlatformUnavailable, not_wired_detail()))
    }

    /// Never succeeds yet: a missing artifact is reported first, otherwise
    /// registration needs the installer helper.
    fn device_install(&self, device: &DeviceInfo) -> (r: CjuResult<()>) {
        if let Some(err) = missing_artifacts_error(&self.report) {
            return Err(err);
        }
        Err(
            named_error(
                ResultCode::PermissionRequired,
                "DirectShow registration for '",
                device.display_name.as_str(),
                "' requires the packaged CamJongUn module installer helper",
            ),
        )
    }

    fn device_uninstall(&self, device: &DeviceInfo) -> (r: CjuResult<()>) {
        if let Some(err) = missing_artifacts_error(&self.report) {
            return Err(err);
        }
        Err(
            named_error(
                ResultCode::PermissionRequired,
                "DirectShow unregistration for '",
                device.display_name.as_str(),
                "' requires the packaged CamJongUn module installer helper",
            ),
        )
    }

    fn stream_open(&self, device: &DeviceInfo, video: VideoDesc) -> (r: CjuResult<Box<dyn PlatformStream>>) {
        streaming_not_wired(device, video)
    }
}

} // verus!
