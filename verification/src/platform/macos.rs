//! macOS: a Camera Extension and a legacy DAL plugin, activated with user approval.
use vstd::prelude::*;

use super::{
    any_missing, artifacts_match, build_artifacts, missing_artifacts_error, missing_detail, named_error,
    named_message, not_wired_detail, packaged_path, refused_with, streaming_not_wired, ArtifactProbe, ArtifactSpec,
    PlatformArtifact, PlatformReport,
};
use crate::model::{DeviceInfo, DeviceRecord, VideoDesc};
use crate::result::{CjuResult, ResultCode};
use crate::runtime::{PlatformBackend, PlatformStream};

verus! {

/// The artifacts macOS needs.
pub open spec fn spec_artifacts() -> Seq<ArtifactSpec> {
    seq![
        ArtifactSpec {
            name: "com.camjongun.virtual-camera.systemextension",
            purpose: "macOS 13+ Camera Extension bundle",
            relative_path: "macos/com.camjongun.virtual-camera.systemextension",
        },
        ArtifactSpec {
            name: "camjongun-mac-virtualcam.plugin",
            purpose: "legacy DAL plugin bundle for older supported macOS versions",
            relative_path: "macos/camjongun-mac-virtualcam.plugin",
        },
        ArtifactSpec {
            name: "camjongun-installer-helper",
            purpose: "helper that activates/deactivates CamJongUn camera components only",
            relative_path: "camjongun-installer-helper",
        },
    ]
}

/// The macOS artifacts lie where the packaging contract puts them: the
/// installer helper at the artifact root, the camera bundles under `macos/`.
pub proof fn lemma_packaged_layout()
    ensures
        spec_artifacts().len() == 3,
        spec_artifacts()[2].name@ == "camjongun-installer-helper"@,
        forall|i: int|
            0 <= i < 3 ==> (#[trigger] spec_artifacts()[i]).relative_path@ == packaged_path(
                spec_artifacts()[i].name@,
                "macos/"@,
                "camjongun-installer-helper"@,
            ),
{
    reveal_strlit("macos/");
    reveal_strlit("camjongun-installer-helper");
    reveal_strlit("com.camjongun.virtual-camera.systemextension");
    reveal_strlit("camjongun-mac-virtualcam.plugin");
    reveal_strlit("macos/com.camjongun.virtual-camera.systemextension");
    reveal_strlit("macos/camjongun-mac-virtualcam.plugin");
    let a = spec_artifacts();
    assert(a[0].name@.len() != "camjongun-installer-helper"@.len());
    assert(a[0].name@ != "camjongun-installer-helper"@);
    assert(a[1].name@.len() != "camjongun-installer-helper"@.len());
    assert(a[1].name@ != "camjongun-installer-helper"@);
    assert(a[0].relative_path@ =~= "macos/"@ + a[0].name@);
    assert(a[1].relative_path@ =~= "macos/"@ + a[1].name@);
}

pub fn artifact_specs() -> (specs: Vec<ArtifactSpec>)
    ensures
        specs@ == spec_artifacts(),
{
    let mut specs: Vec<ArtifactSpec> = Vec::new();
    specs.push(
        ArtifactSpec {
            name: "com.camjongun.virtual-camera.systemextension",
            purpose: "macOS 13+ Camera Extension bundle",
            relative_path: "macos/com.camjongun.virtual-camera.systemextension",
        },
    );
    specs.push(
        ArtifactSpec {
            name: "camjongun-mac-virtualcam.plugin",
            purpose: "legacy DAL plugin bundle for older supported macOS versions",
            relative_path: "macos/camjongun-mac-virtualcam.plugin",
        },
    );
    specs.push(
        ArtifactSpec {
            name: "camjongun-installer-helper",
            purpose: "helper that activates/deactivates CamJongUn camera components only",
            relative_path: "camjongun-installer-helper",
        },
    );
    assert(specs@ =~= spec_artifacts());
    specs
}

/// `report` is the macOS report for what was found of its artifacts.
pub open spec fn is_report(report: PlatformReport, probes: Seq<ArtifactProbe>) -> bool {
    &&& report.platform@ == "macos"@
    &&& report.summary@
        == "CamJongUn must ship signed Camera Extension/DAL bundles with CamJongUn bundle IDs and UUIDs."@
    &&& artifacts_match(report.artifacts@, spec_artifacts(), probes)
}

/// The macOS report, given what was found of each artifact.
pub fn report(probes: Vec<ArtifactProbe>) -> (r: PlatformReport)
    requires
        probes.len() == spec_artifacts().len(),
    ensures
        is_report(r, probes@),
{
    let specs = artifact_specs();
    PlatformReport {
        platform: "macos",
        summary: "CamJongUn must ship signed Camera Extension/DAL bundles with CamJongUn bundle IDs and UUIDs.",
        artifacts: build_artifacts(&specs, probes),
    }
}

/// The error an install is refused with: a missing artifact first, otherwise user approval is needed.
pub open spec fn install_refusal(artifacts: Seq<PlatformArtifact>, name: Seq<char>) -> (ResultCode, Seq<char>) {
    if any_missing(artifacts) {
        (ResultCode::BackendError, missing_detail(artifacts))
    } else {
        (ResultCode::PermissionRequired, named_message("Camera Extension activation for '"@, name, "' requires macOS user approval"@))
    }
}

/// The error an uninstall is refused with: a missing artifact first, otherwise the packaged helper is needed.
pub open spec fn uninstall_refusal(artifacts: Seq<PlatformArtifact>, name: Seq<char>) -> (ResultCode, Seq<char>) {
    if any_missing(artifacts) {
        (ResultCode::BackendError, missing_detail(artifacts))
    } else {
        (ResultCode::PermissionRequired, named_message("Camera Extension removal for '"@, name, "' requires the packaged CamJongUn helper"@))
    }
}

/// The macOS backend, with the artifact report found when it was made.
#[derive(Debug)]
pub struct MacosBackend {
    pub report: PlatformReport,
}

impl MacosBackend {
    pub fn new(report: PlatformReport) -> (b: MacosBackend)
        ensures
            b.report == report,
    {
        MacosBackend { report }
    }
}

impl PlatformBackend for MacosBackend {
    /// Refused: a missing artifact is reported first, otherwise activation
    /// needs the user's approval.
    open spec fn install_answer(&self, device: DeviceRecord, answer: CjuResult<()>) -> bool {
        refused_with(answer, install_refusal(self.report.artifacts@, device.display_name))
    }

    /// Refused: a missing artifact is reported first, otherwise removal needs
    /// the packaged helper.
    open spec fn uninstall_answer(&self, device: DeviceRecord, answer: CjuResult<()>) -> bool {
        refused_with(answer, uninstall_refusal(self.report.artifacts@, device.display_name))
    }

    /// Refused: streaming is not wired yet.
    open spec fn open_answer(&self, device: DeviceRecord, video: VideoDesc, answer: CjuResult<()>) -> bool {
        refused_with(answer, (ResultCode::PlatformUnavailable, not_wired_detail()))
    }

    /// Never succeeds yet: a missing artifact is reported first, otherwise
    /// registration needs the installer helper.
    fn device_install(&self, device: &DeviceInfo) -> (r: CjuResult<()>) {
        if let Some(err) = missing_artifacts_error(&self.report) {
            return Err(err);
        }
        Err(
            named_error(
                ResultCode::PermissionRequired,
                "Camera Extension activation for '",
                device.display_name.as_str(),
                "' requires macOS user approval",
            ),
        )
    }

    fn device_uninstall(&self, device: &DeviceInfo) -> (r: CjuResult<()>) {
        if let Some(err) = missing_artifacts_error(&self.report) {
            return Err(err);
        }
        Err(
            named_error(
                ResultCode::PermissionRequired,
                "Camera Extension removal for '",
                device.display_name.as_str(),
                "' requires the packaged CamJongUn helper",
            ),
        )
    }

    fn stream_open(&self, device: &DeviceInfo, video: VideoDesc) -> (r: CjuResult<Box<dyn PlatformStream>>) {
        streaming_not_wired(device, video)
    }
}

} // verus!
