//! Platforms without a CamJongUn backend.
use vstd::prelude::*;

use super::{refused_with, PlatformReport};
use crate::model::{DeviceInfo, DeviceRecord, VideoDesc};
use crate::result::{CjuResult, Error, ResultCode};
use crate::runtime::{PlatformBackend, PlatformStream};

verus! {

/// `report` is the report of a platform without a backend.
pub open spec fn is_report(report: PlatformReport) -> bool {
    &&& report.platform@ == "unsupported"@
    &&& report.summary@ == "This platform does not have a CamJongUn backend."@
    &&& report.artifacts@.len() == 0
}

pub fn report() -> (r: PlatformReport)
    ensures
        is_report(r),
{
    PlatformReport {
        platform: "unsupported",
        summary: "This platform does not have a CamJongUn backend.",
        artifacts: Vec::new(),
    }
}

/// The backend of a platform without support: every request is refused.
#[derive(Debug, Clone, Copy, Default)]
pub struct UnsupportedBackend;

/// The error every request is refused with here.
pub open spec fn unsupported_refusal() -> (ResultCode, Seq<char>) {
    (ResultCode::PlatformUnavailable, "unsupported platform"@)
}

fn unsupported_platform() -> (e: Error)
    ensures
        (e.code, e.detail@) == unsupported_refusal(),
{
    Error::new(ResultCode::PlatformUnavailable, "unsupported platform")
}

impl PlatformBackend for UnsupportedBackend {
    /// Refused: there is no backend here.
    open spec fn install_answer(&self, device: DeviceRecord, answer: CjuResult<()>) -> bool {
        refused_with(answer, unsupported_refusal())
    }

    /// Refused: there is no backend here.
    open spec fn uninstall_answer(&self, device: DeviceRecord, answer: CjuResult<()>) -> bool {
        refused_with(answer, unsupported_refusal())
    }

    /// Refused: there is no backend here.
    open spec fn open_answer(&self, device: DeviceRecord, video: VideoDesc, answer: CjuResult<()>) -> bool {
        refused_with(answer, unsupported_refusal())
    }

    fn device_install(&self, device: &DeviceInfo) -> (r: CjuResult<()>) {
        Err(unsupported_platform())
    }

    fn device_uninstall(&self, device: &DeviceInfo) -> (r: CjuResult<()>) {
        Err(unsupported_platform())
    }

    fn stream_open(&self, device: &DeviceInfo, video: VideoDesc) -> (r: CjuResult<Box<dyn PlatformStream>>) {
        Err(unsupported_platform())
    }
}

} // verus!
