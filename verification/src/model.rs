//! The SDK's data model: video descriptions, controls, frames, runtime options
//! and the persisted device record.
use vstd::prelude::*;

use crate::device_id::DeviceId;

verus! {

#[derive(Debug, Clone, Copy, PartialEq, Eq, Structural)]
pub enum PixelFormat {
    Nv12,
    Yuy2,
    Bgra,
}

impl Default for PixelFormat {
    fn default() -> (f: PixelFormat)
        ensures
            f == PixelFormat::Nv12,
    {
        PixelFormat::Nv12
    }
}

/// The number a pixel format is stored as.
pub open spec fn pixel_format_number(f: PixelFormat) -> u64 {
    match f {
        PixelFormat::Nv12 => 0,
        PixelFormat::Yuy2 => 1,
        PixelFormat::Bgra => 2,
    }
}

impl PixelFormat {
    pub fn number(self) -> (n: u64)
        ensures
            n == pixel_format_number(self),
    {
        match self {
            PixelFormat::Nv12 => 0,
            PixelFormat::Yuy2 => 1,
            PixelFormat::Bgra => 2,
        }
    }
}

#[derive(Debug, Clone, Copy, PartialEq, Eq, Structural)]
pub enum FitMode {
    Fit,
    Fill,
    Stretch,
}

impl Default for FitMode {
    fn default() -> (m: FitMode)
        ensures
            m == FitMode::Fit,
    {
        FitMode::Fit
    }
}

#[derive(Debug, Clone, Copy, PartialEq, Eq, Structural)]
pub enum Rotation {
    R0,
    R90,
    R180,
    R270,
}

impl Default for Rotation {
    fn default() -> (r: Rotation)
        ensures
            r == Rotation::R0,
    {
        Rotation::R0
    }
}

impl Rotation {
    /// The rotation in degrees.
    pub fn degrees(self) -> (d: u32)
        ensures
            self == Rotation::R0 ==> d == 0,
            self == Rotation::R90 ==> d == 90,
            self == Rotation::R180 ==> d == 180,
            self == Rotation::R270 ==> d == 270,
    {
        match self {
            Rotation::R0 => 0,
            Rotation::R90 => 90,
            Rotation::R180 => 180,
            Rotation::R270 => 270,
        }
    }
}

/// What happens when a second producer opens a stream on a busy device.
#[derive(Debug, Clone, Copy, PartialEq, Eq, Structural)]
pub enum ProducerPolicy {
    RejectSecond,
    Takeover,
}

impl Default for ProducerPolicy {
    fn default() -> (p: ProducerPolicy)
        ensures
            p == ProducerPolicy::RejectSecond,
    {
        ProducerPolicy::RejectSecond
    }
}

/// The number a producer policy is stored as.
pub open spec fn producer_policy_number(p: ProducerPolicy) -> u64 {
    match p {
        ProducerPolicy::RejectSecond => 0,
        ProducerPolicy::Takeover => 1,
    }
}

impl ProducerPolicy {
    pub fn number(self) -> (n: u64)
        ensures
            n == producer_policy_number(self),
    {
        match self {
            ProducerPolicy::RejectSecond => 0,
            ProducerPolicy::Takeover => 1,
        }
    }
}

#[derive(Debug, Clone, Copy, PartialEq, Eq, Structural)]
pub struct VideoDesc {
    pub width: u32,
    pub height: u32,
    pub fps_num: u32,
    pub fps_den: u32,
    pub format: PixelFormat,
}

/// The video used when nothing else is asked for: 1920x1080 at 30/1 fps, NV12.
pub open spec fn default_video() -> VideoDesc {
    VideoDesc { width: 1920, height: 1080, fps_num: 30, fps_den: 1, format: PixelFormat::Nv12 }
}

impl Default for VideoDesc {
    fn default() -> (v: VideoDesc)
        ensures
            v == default_video(),
    {
        VideoDesc { width: 1920, height: 1080, fps_num: 30, fps_den: 1, format: PixelFormat::Nv12 }
    }
}

/// Each zero field replaced by the default video's value.
pub open spec fn normalized(v: VideoDesc) -> VideoDesc {
    VideoDesc {
        width: if v.width == 0 {
            1920
        } else {
            v.width
        },
        height: if v.height == 0 {
            1080
        } else {
            v.height
        },
        fps_num: if v.fps_num == 0 {
            30
        } else {
            v.fps_num
        },
        fps_den: if v.fps_den == 0 {
            1
        } else {
            v.fps_den
        },
        format: v.format,
    }
}

/// Replaces each zero dimension or frame-rate term by its default.
pub fn normalize_video(video: &mut VideoDesc)
    ensures
        *final(video) == normalized(*old(video)),
{
    if video.width == 0 {
        video.width = 1920;
    }
    if video.height == 0 {
        video.height = 1080;
    }
    if video.fps_num == 0 {
        video.fps_num = 30;
    }
    if video.fps_den == 0 {
        video.fps_den = 1;
    }
}

/// A normalized video has no zero field, and normalizing it again changes nothing.
pub proof fn lemma_normalized_idempotent(v: VideoDesc)
    ensures
        normalized(v).width != 0,
        normalized(v).height != 0,
        normalized(v).fps_num != 0,
        normalized(v).fps_den != 0,
        normalized(normalized(v)) == normalized(v),
{
}

/// Picture controls a producer can change while streaming.
#[derive(Debug, Clone)]
pub struct Controls {
    pub enabled: bool,
    pub mirror: bool,
    pub flip: bool,
    pub rotation: Rotation,
    pub fit_mode: FitMode,
    pub background_rgba: u32,
    pub placeholder_frame: Option<Vec<u8>>,
}

impl Default for Controls {
    fn default() -> (c: Controls)
        ensures
            c.enabled,
            !c.mirror,
            !c.flip,
            c.rotation == Rotation::R0,
            c.fit_mode == FitMode::Fit,
            c.background_rgba == 0x000000ff,
            c.placeholder_frame is None,
    {
        Controls {
            enabled: true,
            mirror: false,
            flip: false,
            rotation: Rotation::R0,
            fit_mode: FitMode::Fit,
            background_rgba: 0x000000ff,
            placeholder_frame: None,
        }
    }
}

/// One video frame: up to four planes with their line sizes.
#[derive(Debug, Clone)]
pub struct Frame<'a> {
    pub planes: [&'a [u8]; 4],
    pub linesize: [u32; 4],
    pub timestamp_ns: u64,
}

/// The value of a `Frame`: its planes' bytes, line sizes and timestamp.
pub struct FrameRecord {
    pub planes: Seq<Seq<u8>>,
    pub linesize: Seq<u32>,
    pub timestamp_ns: u64,
}

impl<'a> View for Frame<'a> {
    type V = FrameRecord;

    open spec fn view(&self) -> FrameRecord {
        FrameRecord {
            planes: Seq::new(4, |i: int| self.planes@[i]@),
            linesize: self.linesize@,
            timestamp_ns: self.timestamp_ns,
        }
    }
}

/// How a runtime is set up.
#[derive(Debug, Clone)]
pub struct RuntimeOptions {
    pub app_name: String,
    /// Where the registry lives; the platform's default location when `None`.
    pub registry_path: Option<String>,
    pub auto_install_helper: bool,
}

impl Default for RuntimeOptions {
    fn default() -> (o: RuntimeOptions)
        ensures
            o.app_name@ == "CamJongUn"@,
            o.registry_path is None,
            !o.auto_install_helper,
    {
        RuntimeOptions {
            app_name: "CamJongUn".to_owned(),
            registry_path: None,
            auto_install_helper: false,
        }
    }
}

impl RuntimeOptions {
    /// The registry location: the one asked for, or `default_path`.
    pub fn registry_path_or(&self, default_path: &str) -> (path: String)
        ensures
            path@ == match self.registry_path {
                Some(p) => p@,
                None => default_path@,
            },
    {
        match &self.registry_path {
            Some(p) => p.clone(),
            None => default_path.to_owned(),
        }
    }
}

/// What a caller asks for when creating a device.
#[derive(Debug, Clone)]
pub struct DeviceCreateDesc {
    pub display_name: String,
    pub owner_app: Option<String>,
    pub preferred_video: VideoDesc,
    pub producer_policy: ProducerPolicy,
}

/// A device as the registry keeps it.
#[derive(Debug)]
pub struct DeviceInfo {
    pub id: DeviceId,
    pub display_name: String,
    pub owner_app: String,
    pub platform_identity: String,
    pub device_path: String,
    pub preferred_video: VideoDesc,
    pub producer_policy: ProducerPolicy,
    pub enabled: bool,
    pub installed: bool,
    pub visible_to_os: bool,
    pub streaming: bool,
    pub last_frame_time_ns: u64,
    pub last_error: String,
}

/// The value of a `DeviceInfo`, with its texts as character sequences.
pub struct DeviceRecord {
    pub id: Seq<u8>,
    pub display_name: Seq<char>,
    pub owner_app: Seq<char>,
    pub platform_identity: Seq<char>,
    pub device_path: Seq<char>,
    pub preferred_video: VideoDesc,
    pub producer_policy: ProducerPolicy,
    pub enabled: bool,
    pub installed: bool,
    pub visible_to_os: bool,
    pub streaming: bool,
    pub last_frame_time_ns: u64,
    pub last_error: Seq<char>,
}

impl View for DeviceInfo {
    type V = DeviceRecord;

    open spec fn view(&self) -> DeviceRecord {
        DeviceRecord {
            id: self.id@,
            display_name: self.display_name@,
            owner_app: self.owner_app@,
            platform_identity: self.platform_identity@,
            device_path: self.device_path@,
            preferred_video: self.preferred_video,
            producer_policy: self.producer_policy,
            enabled: self.enabled,
            installed: self.installed,
            visible_to_os: self.visible_to_os,
            streaming: self.streaming,
            last_frame_time_ns: self.last_frame_time_ns,
            last_error: self.last_error@,
        }
    }
}

impl Clone for DeviceInfo {
    fn clone(&self) -> (d: DeviceInfo)
        ensures
            d@ == self@,
    {
        DeviceInfo {
            id: self.id,
            display_name: self.display_name.clone(),
            owner_app: self.owner_app.clone(),
            platform_identity: self.platform_identity.clone(),
            device_path: self.device_path.clone(),
            preferred_video: self.preferred_video,
            producer_policy: self.producer_policy,
            enabled: self.enabled,
            installed: self.installed,
            visible_to_os: self.visible_to_os,
            streaming: self.streaming,
            last_frame_time_ns: self.last_frame_time_ns,
            last_error: self.last_error.clone(),
        }
    }
}

/// The records held by a list of devices.
pub open spec fn records(devices: Seq<DeviceInfo>) -> Seq<DeviceRecord> {
    Seq::new(devices.len(), |i: int| devices[i]@)
}

} // verus!
