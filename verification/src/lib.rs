//! CamJongUn: the device registry, identities and runtime rules of a virtual
//! camera SDK, with their contracts.
pub mod codec;
pub mod device_id;
pub mod identity;
pub mod model;
pub mod platform;
pub mod registry;
pub mod result;
pub mod runtime;
pub mod text;

pub use codec::{deserialize_device, serialize_device};
pub use device_id::{CjuDeviceId, DeviceId, ID_MAX, NAME_MAX, PATH_MAX};
pub use identity::{make_device_path, make_platform_identity};
pub use model::{
    normalize_video, Controls, DeviceCreateDesc, DeviceInfo, FitMode, Frame, PixelFormat,
    ProducerPolicy, Rotation, RuntimeOptions, VideoDesc,
};
pub use platform::{
    default_backend, platform_report, ArtifactProbe, ArtifactStatus, BuiltinBackend, HostInfo, HostPlatform,
    LinuxBackend, MacosBackend, PlatformArtifact, PlatformReport, UnsupportedBackend,
    WindowsBackend,
};
pub use registry::Registry;
pub use result::{CjuResult, Error, ResultCode};
pub use runtime::{PlatformBackend, PlatformStream, Runtime, Stream};
