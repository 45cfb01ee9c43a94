//! Linux: v4l2loopback devices, configured by the installer helper.
use vstd::prelude::*;

use super::{
    artifacts_match, build_artifacts, named_error, named_message, not_wired_detail,
    packaged_path, refused_with, streaming_not_wired, ArtifactProbe, ArtifactSpec, PlatformReport,
};
use crate::model::{DeviceInfo, DeviceRecord, VideoDesc};
use crate::result::{CjuResult, Error, ResultCode};
use crate::runtime::{PlatformBackend, PlatformStream};

verus! {

/// The artifacts Linux needs.
pub open spec fn spec_artifacts() -> Seq<ArtifactSpec> {
    seq![
        ArtifactSpec {
            name: "camjongun-installer-helper",
            purpose: "helper that loads/configures v4l2loopback for CamJongUn-managed devices",
            relative_path: "camjongun-installer-helper",
        },
    ]
}

/// The Linux artifact lies where the packaging contract puts it: the
/// installer helper at the artifact root.
pub proof fn lemma_packaged_layout()
    ensures
        spec_artifacts().len() == 1,
        spec_artifacts()[0].name@ == "camjongun-installer-helper"@,
        spec_artifacts()[0].relative_path@ == packaged_path(
            spec_artifacts()[0].name@,
            "linux/"@,
            "camjongun-installer-helper"@,
        ),
{
}

pub fn artifact_specs() -> (specs: Vec<ArtifactSpec>)
    ensures
        specs@ == spec_artifacts(),
{
    let mut specs: Vec<ArtifactSpec> = Vec::new();
    specs.push(
        ArtifactSpec {
            name: "camjongun-installer-helper",
            purpose: "helper that loads/configures v4l2loopback for CamJongUn-managed devices",
            relative_path: "camjongun-installer-helper",
        },
    );
    assert(specs@ =~= spec_artifacts());
    specs
}

/// `report` is the Linux report for what was found of its artifacts.
pub open spec fn is_report(report: PlatformReport, probes: Seq<ArtifactProbe>) -> bool {
    &&& report.platform@ == "linux"@
    &&& report.summary@
        == "CamJongUn uses v4l2loopback devices labeled and tracked through the CamJongUn registry."@
    &&& artifacts_match(report.artifacts@, spec_artifacts(), probes)
}

/// The Linux report, given what was found of each artifact.
pub fn report(probes: Vec<ArtifactProbe>) -> (r: PlatformReport)
    requires
        probes.len() == spec_artifacts().len(),
    ensures
        is_report(r, probes@),
{
    let specs = artifact_specs();
    PlatformReport {
        platform: "linux",
        summary: "CamJongUn uses v4l2loopback devices labeled and tracked through the CamJongUn registry.",
        artifacts: build_artifacts(&specs, probes),
    }
}

/// The error an install is refused with: the module is asked for when it is
/// missing, otherwise the installer helper is needed.
pub open spec fn install_refusal(available: bool, name: Seq<char>) -> (ResultCode, Seq<char>) {
    if available {
        (
            ResultCode::PermissionRequired,
            named_message(
                "loading/configuring v4l2loopback for '"@,
                name,
                "' requires the packaged installer helper"@,
            ),
        )
    } else {
        (
            ResultCode::PermissionRequired,
            "v4l2loopback is not available; install the distro package or let the installer helper request elevation"@,
        )
    }
}

/// The error an uninstall is refused with.
pub open spec fn uninstall_refusal(name: Seq<char>) -> (ResultCode, Seq<char>) {
    (
        ResultCode::PermissionRequired,
        named_message(
            "removing CamJongUn-managed v4l2loopback device '"@,
            name,
            "' requires the installer helper"@,
        ),
    )
}

/// The Linux backend, with whether the v4l2loopback module was found when it
/// was made.
#[derive(Debug, Clone, Copy)]
pub struct LinuxBackend {
    pub v4l2loopback_available: bool,
}

impl LinuxBackend {
    pub fn new(v4l2loopback_available: bool) -> (b: LinuxBackend)
        ensures
            b.v4l2loopback_available == v4l2loopback_available,
    {
        LinuxBackend { v4l2loopback_available }
    }
}

impl PlatformBackend for LinuxBackend {
    /// Refused: the module is asked for when it is missing, otherwise
    /// configuring it needs the installer helper.
    open spec fn install_answer(&self, device: DeviceRecord, answer: CjuResult<()>) -> bool {
        refused_with(answer, install_refusal(self.v4l2loopback_available, device.display_name))
    }

    /// Refused: removal needs the installer helper.
    open spec fn uninstall_answer(&self, device: DeviceRecord, answer: CjuResult<()>) -> bool {
        refused_with(answer, uninstall_refusal(device.display_name))
    }

    /// Refused: streaming is not wired yet.
    open spec fn open_answer(&self, device: DeviceRecord, video: VideoDesc, answer: CjuResult<()>) -> bool {
        refused_with(answer, (ResultCode::PlatformUnavailable, not_wired_detail()))
    }

    /// Never succeeds yet: without the module the package is asked for,
    /// otherwise configuring it needs the installer helper.
    fn device_install(&self, device: &DeviceInfo) -> (r: CjuResult<()>) {
        if !self.v4l2loopback_available {
            return Err(
                Error::new(
                    ResultCode::PermissionRequired,
                    "v4l2loopback is not available; install the distro package or let the installer helper request elevation",
                ),
            );
        }
        Err(
            named_error(
                ResultCode::PermissionRequired,
                "loading/configuring v4l2loopback for '",
                device.display_name.as_str(),
                "' requires the packaged installer helper",
            ),
        )
    }

    fn device_uninstall(&self, device: &DeviceInfo) -> (r: CjuResult<()>) {
        Err(
            named_error(
                ResultCode::PermissionRequired,
                "removing CamJongUn-managed v4l2loopback device '",
                device.display_name.as_str(),
                "' requires the installer helper",
            ),
        )
    }

    fn stream_open(&self, device: &DeviceInfo, video: VideoDesc) -> (r: CjuResult<Box<dyn PlatformStream>>) {
        streaming_not_wired(device, video)
    }
}

} // verus!
