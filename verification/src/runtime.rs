//! The runtime: creating, installing and deleting devices, and streaming to
//! them, over the registry and a platform backend.
use vstd::prelude::*;
use vstd::utf8::encode_utf8;

use crate::codec::storable;
use crate::device_id::{generated_id_text, id_text, lemma_generated_id, lossy_id_bytes, DeviceId};
use crate::identity::{
    device_path_text, lemma_generated_names_avoid_obs, make_device_path, make_platform_identity,
    mentions_obs, platform_identity_text,
};
use crate::model::{
    normalize_video, normalized, Controls, DeviceCreateDesc, DeviceInfo, DeviceRecord, Frame,
    FrameRecord, ProducerPolicy, RuntimeOptions, VideoDesc,
};
use crate::platform::{
    builtin_backend_for, default_backend, BuiltinBackend, HostInfo, HostPlatform, PlatformReport,
};
use crate::registry::{
    has_device, lemma_first_index, lemma_lookup_upserted, lemma_removed, lemma_removed_upserted,
    lookup, removed, upserted, Registry,
};
use crate::result::{error_text, CjuResult, Error, ResultCode};
use crate::text::chars_of;

verus! {

/// Whether a request succeeded, and with which error it failed.
pub open spec fn status_of<T>(r: CjuResult<T>) -> CjuResult<()> {
    match r {
        Ok(_) => Ok(()),
        Err(e) => Err(e),
    }
}

/// What a platform does when asked to install a device, remove it, or open a
/// stream to it. The SDK has one for each platform; an application may
/// supply its own. Each request's answer is one that the backend's answer
/// relation admits; a backend that does not define a relation admits every
/// answer.
pub trait PlatformBackend: Send + Sync {
    /// `answer` may be given to a request to install `device`.
    open spec fn install_answer(&self, device: DeviceRecord, answer: CjuResult<()>) -> bool {
        true
    }

    /// `answer` may be given to a request to remove `device`.
    open spec fn uninstall_answer(&self, device: DeviceRecord, answer: CjuResult<()>) -> bool {
        true
    }

    /// `answer` (success, or the error) may be given to a request to open a
    /// stream on `device` with `video`.
    open spec fn open_answer(&self, device: DeviceRecord, video: VideoDesc, answer: CjuResult<()>) -> bool {
        true
    }

    fn device_install(&self, device: &DeviceInfo) -> (r: CjuResult<()>)
        ensures
            self.install_answer(device@, r),
    ;

    fn device_uninstall(&self, device: &DeviceInfo) -> (r: CjuResult<()>)
        ensures
            self.uninstall_answer(device@, r),
    ;

    fn stream_open(&self, device: &DeviceInfo, video: VideoDesc) -> (r: CjuResult<Box<dyn PlatformStream>>)
        ensures
            self.open_answer(device@, video, status_of(r)),
    ;
}

/// An open producer stream on a platform. Each request's answer is one that
/// the stream's answer relation admits in the state it was asked in; a
/// stream that does not define a relation admits every answer.
pub trait PlatformStream: Send {
    /// `answer` may be given to a request to deliver `frame`.
    open spec fn push_answer(&self, frame: FrameRecord, answer: CjuResult<()>) -> bool {
        true
    }

    /// `answer` may be given to a request to apply `controls`.
    open spec fn controls_answer(&self, controls: Controls, answer: CjuResult<()>) -> bool {
        true
    }

    /// `answer` may be given to a request to close.
    open spec fn close_answer(&self, answer: CjuResult<()>) -> bool {
        true
    }

    fn push_frame(&mut self, frame: &Frame) -> (r: CjuResult<()>)
        ensures
            old(self).push_answer(frame@, r),
    ;

    fn update_controls(&mut self, controls: &Controls) -> (r: CjuResult<()>)
        ensures
            old(self).controls_answer(*controls, r),
    ;

    fn close(&mut self) -> (r: CjuResult<()>)
        ensures
            old(self).close_answer(r),
    ;
}

// ---------------------------------------------------------------------------
// Display names
// ---------------------------------------------------------------------------

/// A character with the Unicode `White_Space` property.
pub open spec fn is_white_space(c: char) -> bool {
    ||| '\t' <= c <= '\r'
    ||| c == ' '
    ||| c == '\u{85}'
    ||| c == '\u{a0}'
    ||| c == '\u{1680}'
    ||| '\u{2000}' <= c <= '\u{200a}'
    ||| c == '\u{2028}'
    ||| c == '\u{2029}'
    ||| c == '\u{202f}'
    ||| c == '\u{205f}'
    ||| c == '\u{3000}'
}

/// Nothing but white space: what trims to the empty string.
pub open spec fn is_blank(s: Seq<char>) -> bool {
    forall|i: int| 0 <= i < s.len() ==> is_white_space(#[trigger] s[i])
}

pub fn is_white_space_char(c: char) -> (w: bool)
    ensures
        w == is_white_space(c),
{
    ('\t' <= c && c <= '\r') || c == ' ' || c == '\u{85}' || c == '\u{a0}' || c == '\u{1680}' || (
    '\u{2000}' <= c && c <= '\u{200a}') || c == '\u{2028}' || c == '\u{2029}' || c == '\u{202f}'
        || c == '\u{205f}' || c == '\u{3000}'
}

/// True when `s` trims to nothing.
pub fn is_blank_str(s: &str) -> (blank: bool)
    ensures
        blank == is_blank(s@),
{
    let v = chars_of(s);
    let mut i: usize = 0;
    while i < v.len()
        invariant
            i <= v.len(),
            v@ == s@,
            forall|j: int| 0 <= j < i ==> is_white_space(#[trigger] v@[j]),
        decreases v.len() - i,
    {
        if !is_white_space_char(v[i]) {
            return false;
        }
        i = i + 1;
    }
    true
}

// ---------------------------------------------------------------------------
// How the runtime changes a device
// ---------------------------------------------------------------------------

/// The device recorded by a successful create.
pub open spec fn created_record(
    id: Seq<u8>,
    display_name: Seq<char>,
    owner_app: Seq<char>,
    platform: HostPlatform,
    video: VideoDesc,
    policy: ProducerPolicy,
) -> DeviceRecord {
    DeviceRecord {
        id,
        display_name,
        owner_app,
        platform_identity: platform_identity_text(id),
        device_path: device_path_text(platform, id),
        preferred_video: normalized(video),
        producer_policy: policy,
        enabled: true,
        installed: false,
        visible_to_os: false,
        streaming: false,
        last_frame_time_ns: 0,
        last_error: seq![],
    }
}

/// A device created under a generated identifier is one the registry file
/// gives back unchanged.
pub proof fn lemma_created_generated_is_storable(
    nanos: u128,
    process: u32,
    display_name: Seq<char>,
    owner_app: Seq<char>,
    platform: HostPlatform,
    video: VideoDesc,
    policy: ProducerPolicy,
)
    ensures
        storable(
            created_record(
                lossy_id_bytes(encode_utf8(generated_id_text(nanos, process))),
                display_name,
                owner_app,
                platform,
                video,
                policy,
            ),
        ),
{
    lemma_generated_id(nanos, process);
}

/// `d` after a successful install.
pub open spec fn installed_record(d: DeviceRecord) -> DeviceRecord {
    DeviceRecord { installed: true, visible_to_os: true, last_error: seq![], ..d }
}

/// `d` after an uninstall that succeeded or found no platform backend.
pub open spec fn uninstalled_record(d: DeviceRecord) -> DeviceRecord {
    DeviceRecord { installed: false, visible_to_os: false, streaming: false, ..d }
}

/// `d` after a platform refused a request with `e`.
pub open spec fn failed_record(d: DeviceRecord, e: Error) -> DeviceRecord {
    DeviceRecord { last_error: error_text(e.code, e.detail@), ..d }
}

/// `d` once a producer stream was opened with `video`.
pub open spec fn streaming_record(d: DeviceRecord, video: VideoDesc) -> DeviceRecord {
    DeviceRecord { streaming: true, preferred_video: video, last_error: seq![], ..d }
}

/// `d` after a frame stamped `timestamp_ns` was delivered.
pub open spec fn framed_record(d: DeviceRecord, timestamp_ns: u64) -> DeviceRecord {
    DeviceRecord { last_frame_time_ns: timestamp_ns, ..d }
}

/// `d` once its producer stream was closed.
pub open spec fn closed_record(d: DeviceRecord) -> DeviceRecord {
    DeviceRecord { streaming: false, ..d }
}

/// `d` after the platform answered a request to install it with `answer`.
pub open spec fn install_outcome(d: DeviceRecord, answer: CjuResult<()>) -> DeviceRecord {
    match answer {
        Ok(_) => installed_record(d),
        Err(e) => failed_record(d, e),
    }
}

/// What an uninstall returns when the platform answered `answer`: done when
/// the platform removed the device or has no backend at all, otherwise the
/// platform's error.
pub open spec fn uninstall_status(answer: CjuResult<()>) -> CjuResult<()> {
    match answer {
        Ok(_) => Ok(()),
        Err(e) => if e.code == ResultCode::PlatformUnavailable {
            Ok(())
        } else {
            Err(e)
        },
    }
}

/// `d` after the platform answered a request to remove it with `answer`.
pub open spec fn uninstall_outcome(d: DeviceRecord, answer: CjuResult<()>) -> DeviceRecord {
    match uninstall_status(answer) {
        Ok(_) => uninstalled_record(d),
        Err(e) => failed_record(d, e),
    }
}

/// `r` and the devices `after` are what delivering a frame stamped
/// `timestamp_ns` to device `id` gives, when the platform answered `answer`:
/// its refusal, unchanged; otherwise the timestamp recorded, or `NotFound`
/// once the device is gone.
pub open spec fn frame_outcome(
    answer: CjuResult<()>,
    id: Seq<u8>,
    timestamp_ns: u64,
    before: Seq<DeviceRecord>,
    r: CjuResult<()>,
    after: Seq<DeviceRecord>,
) -> bool {
    match answer {
        Err(e) => r == Err::<(), Error>(e) && after == before,
        Ok(_) => match lookup(before, id) {
            Some(d) => r is Ok && after == upserted(before, framed_record(d, timestamp_ns)),
            None => r matches Err(e) && e.code == ResultCode::NotFound && e.detail@ == id_text(id)
                && after == before,
        },
    }
}

/// `r` and the devices `after` are what closing the stream to device `id`
/// gives, when the platform answered `answer`: its refusal, unchanged;
/// otherwise the device recorded as not streaming, or `NotFound` once it is
/// gone.
pub open spec fn close_outcome(
    answer: CjuResult<()>,
    id: Seq<u8>,
    before: Seq<DeviceRecord>,
    r: CjuResult<()>,
    after: Seq<DeviceRecord>,
) -> bool {
    match answer {
        Err(e) => r == Err::<(), Error>(e) && after == before,
        Ok(_) => match lookup(before, id) {
            Some(d) => r is Ok && after == upserted(before, closed_record(d)),
            None => r matches Err(e) && e.code == ResultCode::NotFound && e.detail@ == id_text(id)
                && after == before,
        },
    }
}

/// A created device carries the CamJongUn platform identity and the device
/// path of the runtime's platform: `directshow:` on Windows, `cmio:` on
/// macOS, `v4l2loopback:` elsewhere, each followed by the id's text. It is
/// enabled, not installed, not visible, not streaming, has no frame and no
/// error, and prefers the normalized video.
pub proof fn lemma_created_record(
    id: Seq<u8>,
    display_name: Seq<char>,
    owner_app: Seq<char>,
    platform: HostPlatform,
    video: VideoDesc,
    policy: ProducerPolicy,
)
    ensures
        ({
            let r = created_record(id, display_name, owner_app, platform, video, policy);
            &&& r.id == id && r.display_name == display_name && r.owner_app == owner_app
            &&& r.platform_identity == "camjongun.virtual-camera."@ + id_text(id)
            &&& platform == HostPlatform::Windows ==> r.device_path == "directshow:"@ + id_text(id)
            &&& platform == HostPlatform::Macos ==> r.device_path == "cmio:"@ + id_text(id)
            &&& platform == HostPlatform::Linux ==> r.device_path == "v4l2loopback:"@ + id_text(id)
            &&& platform == HostPlatform::Unsupported ==> r.device_path == "v4l2loopback:"@ + id_text(id)
            &&& r.preferred_video == normalized(video) && r.producer_policy == policy
            &&& r.enabled && !r.installed && !r.visible_to_os && !r.streaming
            &&& r.last_frame_time_ns == 0 && r.last_error.len() == 0
        }),
{
}

/// An install the platform accepted records the device as installed and
/// visible with no error; a refusal changes nothing but the last error,
/// which becomes the refusal's text.
pub proof fn lemma_install_outcome(d: DeviceRecord, answer: CjuResult<()>)
    ensures
        answer is Ok ==> install_outcome(d, answer) == (DeviceRecord {
            installed: true,
            visible_to_os: true,
            last_error: Seq::empty(),
            ..d
        }),
        answer is Err ==> install_outcome(d, answer) == (DeviceRecord {
            last_error: error_text(answer->Err_0.code, answer->Err_0.detail@),
            ..d
        }),
{
}

/// An uninstall succeeds exactly when the platform removed the device or has
/// no backend at all (`PlatformUnavailable`); then the device is recorded as
/// not installed, not visible and not streaming. Any other refusal is
/// returned unchanged, and changes nothing but the device's last error.
pub proof fn lemma_uninstall_outcome(d: DeviceRecord, answer: CjuResult<()>)
    ensures
        uninstall_status(answer) is Ok <==> (answer is Ok || answer->Err_0.code
            == ResultCode::PlatformUnavailable),
        uninstall_status(answer) is Ok ==> uninstall_outcome(d, answer) == (DeviceRecord {
            installed: false,
            visible_to_os: false,
            streaming: false,
            ..d
        }),
        answer is Err && answer->Err_0.code != ResultCode::PlatformUnavailable ==> uninstall_status(
            answer,
        ) == answer && uninstall_outcome(d, answer) == (DeviceRecord {
            last_error: error_text(answer->Err_0.code, answer->Err_0.detail@),
            ..d
        }),
{
}

/// A frame the platform refused is refused with the platform's error and
/// records nothing; a frame it took records its timestamp on the device and
/// nothing else, or is `NotFound` when the device is gone. The registry
/// changes only once the platform took the frame.
pub proof fn lemma_frame_outcome(
    answer: CjuResult<()>,
    id: Seq<u8>,
    timestamp_ns: u64,
    before: Seq<DeviceRecord>,
    r: CjuResult<()>,
    after: Seq<DeviceRecord>,
)
    requires
        frame_outcome(answer, id, timestamp_ns, before, r, after),
    ensures
        answer is Err ==> r == answer && after == before,
        answer is Ok && lookup(before, id) is Some ==> r is Ok && after == upserted(
            before,
            DeviceRecord { last_frame_time_ns: timestamp_ns, ..lookup(before, id)->0 },
        ),
        answer is Ok && lookup(before, id) is None ==> (r matches Err(e) && e.code
            == ResultCode::NotFound && after == before),
        after != before ==> answer is Ok && r is Ok,
{
}

/// A close the platform refused is refused with the platform's error and
/// records nothing; a close it accepted records the device as not streaming
/// and nothing else, or is `NotFound` when the device is gone.
pub proof fn lemma_close_outcome(
    answer: CjuResult<()>,
    id: Seq<u8>,
    before: Seq<DeviceRecord>,
    r: CjuResult<()>,
    after: Seq<DeviceRecord>,
)
    requires
        close_outcome(answer, id, before, r, after),
    ensures
        answer is Err ==> r == answer && after == before,
        answer is Ok && lookup(before, id) is Some ==> r is Ok && after == upserted(
            before,
            DeviceRecord { streaming: false, ..lookup(before, id)->0 },
        ),
        answer is Ok && lookup(before, id) is None ==> (r matches Err(e) && e.code
            == ResultCode::NotFound && after == before),
        after != before ==> answer is Ok && r is Ok,
{
}

/// A request the runtime made of its platform backend, with the answer.
pub enum PlatformRequest {
    Install { device: DeviceRecord, answer: CjuResult<()> },
    Uninstall { device: DeviceRecord, answer: CjuResult<()> },
    Open { device: DeviceRecord, video: VideoDesc, answer: CjuResult<()> },
}

/// A request a stream made of its platform stream, with the answer.
pub enum StreamRequest {
    Push { frame: FrameRecord, answer: CjuResult<()> },
    Update { controls: Controls, answer: CjuResult<()> },
    Close { answer: CjuResult<()> },
}

/// The backend a runtime asks: the host's built-in one, or one the
/// application supplied.
pub enum RuntimeBackend {
    Builtin(BuiltinBackend),
    Custom(Box<dyn PlatformBackend>),
}

impl PlatformBackend for RuntimeBackend {
    open spec fn install_answer(&self, device: DeviceRecord, answer: CjuResult<()>) -> bool {
        match self {
            RuntimeBackend::Builtin(b) => b.install_answer(device, answer),
            RuntimeBackend::Custom(b) => b.install_answer(device, answer),
        }
    }

    open spec fn uninstall_answer(&self, device: DeviceRecord, answer: CjuResult<()>) -> bool {
        match self {
            RuntimeBackend::Builtin(b) => b.uninstall_answer(device, answer),
            RuntimeBackend::Custom(b) => b.uninstall_answer(device, answer),
        }
    }

    open spec fn open_answer(&self, device: DeviceRecord, video: VideoDesc, answer: CjuResult<()>) -> bool {
        match self {
            RuntimeBackend::Builtin(b) => b.open_answer(device, video, answer),
            RuntimeBackend::Custom(b) => b.open_answer(device, video, answer),
        }
    }

    fn device_install(&self, device: &DeviceInfo) -> (r: CjuResult<()>) {
        match self {
            RuntimeBackend::Builtin(b) => b.device_install(device),
            RuntimeBackend::Custom(b) => b.device_install(device),
        }
    }

    fn device_uninstall(&self, device: &DeviceInfo) -> (r: CjuResult<()>) {
        match self {
            RuntimeBackend::Builtin(b) => b.device_uninstall(device),
            RuntimeBackend::Custom(b) => b.device_uninstall(device),
        }
    }

    fn stream_open(&self, device: &DeviceInfo, video: VideoDesc) -> (r: CjuResult<Box<dyn PlatformStream>>) {
        match self {
            RuntimeBackend::Builtin(b) => b.stream_open(device, video),
            RuntimeBackend::Custom(b) => b.stream_open(device, video),
        }
    }
}

/// The runtime's state: the application name, the host platform, the
/// backend, the registry (its location and devices), and the requests made
/// of the backend so far, oldest first.
pub struct RuntimeView {
    pub app_name: Seq<char>,
    pub platform: HostPlatform,
    pub backend: RuntimeBackend,
    pub registry: (Seq<char>, Seq<DeviceRecord>),
    pub requests: Seq<PlatformRequest>,
}

impl RuntimeView {
    /// Runs for the same application, on the same platform and backend, with
    /// the registry in the same place, as `before`.
    pub open spec fn same_setup(self, before: RuntimeView) -> bool {
        &&& self.app_name == before.app_name
        &&& self.platform == before.platform
        &&& self.backend == before.backend
        &&& self.registry.0 == before.registry.0
    }
}

/// The SDK runtime.
pub struct Runtime {
    app_name: String,
    platform: HostPlatform,
    registry: Registry,
    backend: RuntimeBackend,
    report: PlatformReport,
    requests: Ghost<Seq<PlatformRequest>>,
}

impl View for Runtime {
    type V = RuntimeView;

    closed spec fn view(&self) -> RuntimeView {
        RuntimeView {
            app_name: self.app_name@,
            platform: self.platform,
            backend: self.backend,
            registry: self.registry@,
            requests: self.requests@,
        }
    }
}

impl Runtime {
    /// The platform report the runtime holds.
    pub closed spec fn report_spec(&self) -> PlatformReport {
        self.report
    }

    /// A runtime on the host's built-in backend.
    pub fn new(options: RuntimeOptions, registry: Registry, host: HostInfo) -> (r: CjuResult<Runtime>)
        ensures
            r matches Ok(rt) && rt@ == (RuntimeView {
                app_name: options.app_name@,
                platform: host.platform,
                backend: RuntimeBackend::Builtin(builtin_backend_for(host)),
                registry: registry@,
                requests: Seq::empty(),
            }) && rt.report_spec().platform == host.report.platform
                && rt.report_spec().summary == host.report.summary
                && rt.report_spec().artifacts@ == host.report.artifacts@,
    {
        let platform = host.platform;
        let report = host.report.clone();
        let backend = default_backend(host);
        Ok(
            Runtime {
                app_name: options.app_name,
                platform,
                registry,
                backend: RuntimeBackend::Builtin(backend),
                report,
                requests: Ghost(Seq::empty()),
            },
        )
    }

    /// A runtime on a backend of the caller's.
    pub fn with_backend(
        options: RuntimeOptions,
        registry: Registry,
        host: HostInfo,
        backend: Box<dyn PlatformBackend>,
    ) -> (r: CjuResult<Runtime>)
        ensures
            r matches Ok(rt) && rt@ == (RuntimeView {
                app_name: options.app_name@,
                platform: host.platform,
                backend: RuntimeBackend::Custom(backend),
                registry: registry@,
                requests: Seq::empty(),
            }) && rt.report_spec().platform == host.report.platform
                && rt.report_spec().summary == host.report.summary
                && rt.report_spec().artifacts@ == host.report.artifacts@,
    {
        Ok(
            Runtime {
                app_name: options.app_name,
                platform: host.platform,
                registry,
                backend: RuntimeBackend::Custom(backend),
                report: host.report,
                requests: Ghost(Seq::empty()),
            },
        )
    }

    /// Takes in what the host offers now: its platform and report and, when
    /// the runtime runs on the built-in backend, the built-in backend for
    /// them. A backend of the application's stays.
    pub fn refresh_host(&mut self, host: HostInfo)
        ensures
            old(self)@.backend is Builtin ==> final(self)@ == (RuntimeView {
                platform: host.platform,
                backend: RuntimeBackend::Builtin(builtin_backend_for(host)),
                ..old(self)@
            }),
            old(self)@.backend is Custom ==> final(self)@ == (RuntimeView {
                platform: host.platform,
                ..old(self)@
            }),
            final(self).report_spec().platform == host.report.platform,
            final(self).report_spec().summary == host.report.summary,
            final(self).report_spec().artifacts@ == host.report.artifacts@,
    {
        self.platform = host.platform;
        self.report = host.report.clone();
        let builtin = match &self.backend {
            RuntimeBackend::Builtin(_) => true,
            RuntimeBackend::Custom(_) => false,
        };
        if builtin {
            self.backend = RuntimeBackend::Builtin(default_backend(host));
        }
    }

    /// The registry, for persisting it.
    pub fn registry(&self) -> (r: &Registry)
        ensures
            r@ == self@.registry,
    {
        &self.registry
    }

    /// Replaces the registry, as after reading its file again.
    pub fn replace_registry(&mut self, registry: Registry)
        ensures
            final(self)@ == (RuntimeView { registry: registry@, ..old(self)@ }),
            final(self).report_spec() == old(self).report_spec(),
    {
        self.registry = registry;
    }

    /// Creates a device under the identifier generated from the clock reading
    /// `nanos` and the process id `process`: refused with `InvalidArgument`
    /// when the display name is blank; otherwise recorded as enabled, not
    /// installed, not streaming, owned by the desc's application or the
    /// runtime's, with the id's platform identity and device path and the
    /// normalized video. The record reads back unchanged from the registry
    /// file, and its names never mention OBS. The backend is not asked.
    pub fn create_device(&mut self, desc: DeviceCreateDesc, nanos: u128, process: u32) -> (r: CjuResult<DeviceId>)
        ensures
            final(self)@.same_setup(old(self)@),
            final(self)@.requests == old(self)@.requests,
            final(self).report_spec() == old(self).report_spec(),
            is_blank(desc.display_name@) ==> (r matches Err(e) && e.code
                == ResultCode::InvalidArgument && e.detail@ == "display name is required"@
                && final(self)@.registry == old(self)@.registry),
            !is_blank(desc.display_name@) ==> {
                let record = created_record(
                    lossy_id_bytes(encode_utf8(generated_id_text(nanos, process))),
                    desc.display_name@,
                    match desc.owner_app {
                        Some(o) => o@,
                        None => old(self)@.app_name,
                    },
                    old(self)@.platform,
                    desc.preferred_video,
                    desc.producer_policy,
                );
                &&& r matches Ok(id) && id@ == record.id
                &&& final(self)@.registry.1 == upserted(old(self)@.registry.1, record)
                &&& storable(record)
                &&& !mentions_obs(record.platform_identity)
                &&& !mentions_obs(record.device_path)
            },
    {
        if is_blank_str(desc.display_name.as_str()) {
            return Err(Error::new(ResultCode::InvalidArgument, "display name is required"));
        }
        let id = DeviceId::generated(nanos, process);
        let ghost owner: Seq<char> = if desc.owner_app is Some {
            desc.owner_app->0@
        } else {
            self@.app_name
        };
        proof {
            lemma_created_generated_is_storable(
                nanos,
                process,
                desc.display_name@,
                owner,
                self@.platform,
                desc.preferred_video,
                desc.producer_policy,
            );
            lemma_generated_names_avoid_obs(nanos, process, self@.platform);
        }
        let owner_app = match desc.owner_app {
            Some(o) => o,
            None => self.app_name.clone(),
        };
        let mut device = DeviceInfo {
            id,
            display_name: desc.display_name,
            owner_app,
            platform_identity: make_platform_identity(&id),
            device_path: make_device_path(&id, self.platform),
            preferred_video: desc.preferred_video,
            producer_policy: desc.producer_policy,
            enabled: true,
            installed: false,
            visible_to_os: false,
            streaming: false,
            last_frame_time_ns: 0,
            last_error: String::new(),
        };
        normalize_video(&mut device.preferred_video);
        self.registry.upsert(&device);
        Ok(id)
    }

    /// Deletes every device with id `id`, first asking the platform to remove
    /// it when it is installed (whatever the platform answers); `NotFound`,
    /// with nothing changed and nothing asked, when there is none.
    pub fn delete_device(&mut self, id: DeviceId) -> (r: CjuResult<()>)
        ensures
            final(self)@.same_setup(old(self)@),
            final(self).report_spec() == old(self).report_spec(),
            final(self)@.registry.1 == removed(old(self)@.registry.1, id@),
            r is Ok <==> has_device(old(self)@.registry.1, id@),
            r matches Err(e) ==> e.code == ResultCode::NotFound && e.detail@ == id_text(id@),
            match lookup(old(self)@.registry.1, id@) {
                Some(d) => if d.installed {
                    final(self)@.requests == old(self)@.requests.push(final(self)@.requests.last())
                        && (final(self)@.requests.last() matches PlatformRequest::Uninstall {
                        device,
                        answer,
                    } && device == d && old(self)@.backend.uninstall_answer(d, answer))
                } else {
                    final(self)@.requests == old(self)@.requests
                },
                None => final(self)@.requests == old(self)@.requests,
            },
    {
        proof {
            lemma_first_index(self@.registry.1, id@);
            lemma_removed(self@.registry.1, id@);
        }
        let ghost before = self@.registry.1;
        let device = match self.registry.get(id) {
            Ok(d) => d,
            Err(e) => {
                return Err(e);
            },
        };
        if device.installed {
            let _ = self.uninstall_device(id);
            proof {
                let d = lookup(before, id@)->0;
                let answer = self@.requests.last()->Uninstall_answer;
                lemma_removed_upserted(before, uninstall_outcome(d, answer));
                lemma_lookup_upserted(before, uninstall_outcome(d, answer));
                lemma_first_index(self@.registry.1, id@);
            }
        }
        self.registry.delete(id)
    }

    /// The recorded devices.
    pub fn list_devices(&self) -> (r: CjuResult<Vec<DeviceInfo>>)
        ensures
            r matches Ok(v) && crate::model::records(v@) == self@.registry.1,
    {
        Ok(self.registry.load())
    }

    /// The platform report the runtime holds.
    pub fn platform_report(&self) -> (report: PlatformReport)
        ensures
            report.platform == self.report_spec().platform,
            report.summary == self.report_spec().summary,
            report.artifacts@ == self.report_spec().artifacts@,
    {
        self.report.clone()
    }

    /// The first recorded device with id `id`.
    pub fn get_device(&self, id: DeviceId) -> (r: CjuResult<DeviceInfo>)
        ensures
            match r {
                Ok(d) => lookup(self@.registry.1, id@) == Some(d@),
                Err(e) => lookup(self@.registry.1, id@) is None && e.code == ResultCode::NotFound
                    && e.detail@ == id_text(id@),
            },
    {
        self.registry.get(id)
    }

    /// Asks the platform to install the device and returns its answer: on
    /// success the device is recorded as installed and visible with no error;
    /// on refusal the error is recorded as its last error. `NotFound`, with
    /// nothing asked, when there is no such device.
    pub fn install_device(&mut self, id: DeviceId) -> (r: CjuResult<()>)
        ensures
            final(self)@.same_setup(old(self)@),
            final(self).report_spec() == old(self).report_spec(),
            match lookup(old(self)@.registry.1, id@) {
                None => r matches Err(e) && e.code == ResultCode::NotFound && e.detail@ == id_text(id@)
                    && final(self)@.registry == old(self)@.registry && final(self)@.requests == old(
                    self,
                )@.requests,
                Some(d) => old(self)@.backend.install_answer(d, r) && final(self)@.requests == old(
                    self,
                )@.requests.push(PlatformRequest::Install { device: d, answer: r })
                    && final(self)@.registry.1 == upserted(
                    old(self)@.registry.1,
                    install_outcome(d, r),
                ),
            },
    {
        let mut device = self.registry.get(id)?;
        let answer = self.backend.device_install(&device);
        self.requests = Ghost(
            self.requests@.push(PlatformRequest::Install { device: device@, answer }),
        );
        match &answer {
            Ok(_) => {
                device.installed = true;
                device.visible_to_os = true;
                device.last_error = String::new();
                assert(device@ == installed_record(lookup(old(self)@.registry.1, id@)->0));
            },
            Err(err) => {
                device.last_error = err.to_string();
            },
        }
        self.registry.upsert(&device);
        answer
    }

    /// Asks the platform to remove the device. Its success, or its having no
    /// backend at all, records the device as not installed, not visible and
    /// not streaming; another refusal is recorded as the device's last error
    /// and returned. `NotFound`, with nothing asked, when there is no such
    /// device.
    pub fn uninstall_device(&mut self, id: DeviceId) -> (r: CjuResult<()>)
        ensures
            final(self)@.same_setup(old(self)@),
            final(self).report_spec() == old(self).report_spec(),
            match lookup(old(self)@.registry.1, id@) {
                None => r matches Err(e) && e.code == ResultCode::NotFound && e.detail@ == id_text(id@)
                    && final(self)@.registry == old(self)@.registry && final(self)@.requests == old(
                    self,
                )@.requests,
                Some(d) => final(self)@.requests == old(self)@.requests.push(
                    final(self)@.requests.last(),
                ) && (final(self)@.requests.last() matches PlatformRequest::Uninstall {
                    device,
                    answer,
                } && device == d && old(self)@.backend.uninstall_answer(d, answer) && r
                    == uninstall_status(answer) && final(self)@.registry.1 == upserted(
                    old(self)@.registry.1,
                    uninstall_outcome(d, answer),
                )),
            },
    {
        let mut device = self.registry.get(id)?;
        let answer = self.backend.device_uninstall(&device);
        self.requests = Ghost(
            self.requests@.push(PlatformRequest::Uninstall { device: device@, answer }),
        );
        let accepted = match &answer {
            Ok(()) => true,
            Err(e) => e.code == ResultCode::PlatformUnavailable,
        };
        if accepted {
            device.installed = false;
            device.visible_to_os = false;
            device.streaming = false;
            self.registry.upsert(&device);
            Ok(())
        } else {
            if let Err(err) = &answer {
                device.last_error = err.to_string();
            }
            self.registry.upsert(&device);
            answer
        }
    }

    /// Opens a producer stream: refused when the device is disabled, or is
    /// already streaming under the reject-second policy, with nothing asked;
    /// otherwise the platform is asked with the normalized video, its refusal
    /// is returned unchanged, and when it opens the stream the device is
    /// recorded as streaming with that video and no error.
    pub fn open_stream(&mut self, id: DeviceId, video: VideoDesc) -> (r: CjuResult<Stream>)
        ensures
            final(self)@.same_setup(old(self)@),
            final(self).report_spec() == old(self).report_spec(),
            match lookup(old(self)@.registry.1, id@) {
                None => r matches Err(e) && e.code == ResultCode::NotFound && e.detail@ == id_text(id@)
                    && final(self)@.registry == old(self)@.registry && final(self)@.requests == old(
                    self,
                )@.requests,
                Some(d) => if !d.enabled {
                    r matches Err(e) && e.code == ResultCode::Unsupported && e.detail@
                        == "device is disabled"@ && final(self)@.registry == old(self)@.registry
                        && final(self)@.requests == old(self)@.requests
                } else if d.streaming && d.producer_policy == ProducerPolicy::RejectSecond {
                    r matches Err(e) && e.code == ResultCode::AlreadyRunning && e.detail@
                        == "device already has an active producer"@ && final(self)@.registry
                        == old(self)@.registry && final(self)@.requests == old(self)@.requests
                } else {
                    &&& old(self)@.backend.open_answer(d, normalized(video), status_of(r))
                    &&& final(self)@.requests == old(self)@.requests.push(
                        PlatformRequest::Open {
                            device: d,
                            video: normalized(video),
                            answer: status_of(r),
                        },
                    )
                    &&& match r {
                        Ok(s) => s@.device == id@ && s@.open && s@.requests
                            == Seq::<StreamRequest>::empty() && final(self)@.registry.1 == upserted(
                            old(self)@.registry.1,
                            streaming_record(d, normalized(video)),
                        ),
                        Err(_) => final(self)@.registry == old(self)@.registry,
                    }
                },
            },
    {
        let mut video = video;
        normalize_video(&mut video);
        let mut device = self.registry.get(id)?;
        if !device.enabled {
            return Err(Error::new(ResultCode::Unsupported, "device is disabled"));
        }
        if device.streaming && device.producer_policy == ProducerPolicy::RejectSecond {
            return Err(
                Error::new(ResultCode::AlreadyRunning, "device already has an active producer"),
            );
        }
        let answer = self.backend.stream_open(&device, video);
        self.requests = Ghost(
            self.requests@.push(
                PlatformRequest::Open { device: device@, video, answer: status_of(answer) },
            ),
        );
        let platform = answer?;
        device.streaming = true;
        device.preferred_video = video;
        device.last_error = String::new();
        self.registry.upsert(&device);
        Ok(Stream { device_id: id, platform, open: true, requests: Ghost(Seq::empty()) })
    }
}

/// A stream's state: its device's id, whether it is open, and the requests
/// made of its platform stream so far, oldest first. What the platform
/// stream answers is told by `push_answer`, `controls_answer` and
/// `close_answer`.
pub struct StreamView {
    pub device: Seq<u8>,
    pub open: bool,
    pub requests: Seq<StreamRequest>,
}

/// A producer stream to one device. Dropping a stream neither closes it nor
/// clears its device's streaming mark: call `close` when done.
pub struct Stream {
    device_id: DeviceId,
    platform: Box<dyn PlatformStream>,
    open: bool,
    requests: Ghost<Seq<StreamRequest>>,
}

impl View for Stream {
    type V = StreamView;

    closed spec fn view(&self) -> StreamView {
        StreamView { device: self.device_id@, open: self.open, requests: self.requests@ }
    }
}

fn stream_closed() -> (e: Error)
    ensures
        e.code == ResultCode::NotRunning,
        e.detail@ == "stream is closed"@,
{
    Error::new(ResultCode::NotRunning, "stream is closed")
}

impl Stream {
    /// `answer` may be given by the platform stream, as it now is, to a
    /// request to deliver `frame`.
    pub closed spec fn push_answer(&self, frame: FrameRecord, answer: CjuResult<()>) -> bool {
        self.platform.push_answer(frame, answer)
    }

    /// `answer` may be given by the platform stream, as it now is, to a
    /// request to apply `controls`.
    pub closed spec fn controls_answer(&self, controls: Controls, answer: CjuResult<()>) -> bool {
        self.platform.controls_answer(controls, answer)
    }

    /// `answer` may be given by the platform stream, as it now is, to a
    /// request to close.
    pub closed spec fn close_answer(&self, answer: CjuResult<()>) -> bool {
        self.platform.close_answer(answer)
    }

    pub fn device_id(&self) -> (id: DeviceId)
        ensures
            id@ == self@.device,
    {
        self.device_id
    }

    pub fn is_open(&self) -> (open: bool)
        ensures
            open == self@.open,
    {
        self.open
    }

    /// Delivers a frame: refused with `NotRunning`, with nothing asked, once
    /// closed; otherwise the platform's refusal is returned unchanged, and
    /// after the platform takes the frame its timestamp is recorded on the
    /// device.
    pub fn push_frame(&mut self, runtime: &mut Runtime, frame: &Frame) -> (r: CjuResult<()>)
        ensures
            final(self)@.device == old(self)@.device,
            final(self)@.open == old(self)@.open,
            final(runtime)@.same_setup(old(runtime)@),
            final(runtime)@.requests == old(runtime)@.requests,
            final(runtime).report_spec() == old(runtime).report_spec(),
            !old(self)@.open ==> (r matches Err(e) && e.code == ResultCode::NotRunning && e.detail@
                == "stream is closed"@ && final(runtime)@.registry == old(runtime)@.registry
                && final(self)@.requests == old(self)@.requests),
            old(self)@.open ==> final(self)@.requests == old(self)@.requests.push(
                final(self)@.requests.last(),
            ) && (final(self)@.requests.last() matches StreamRequest::Push { frame: f, answer }
                && f == frame@ && old(self).push_answer(frame@, answer) && frame_outcome(
                answer,
                old(self)@.device,
                frame.timestamp_ns,
                old(runtime)@.registry.1,
                r,
                final(runtime)@.registry.1,
            )),
    {
        if !self.open {
            return Err(stream_closed());
        }
        let answer = self.platform.push_frame(frame);
        self.requests = Ghost(self.requests@.push(StreamRequest::Push { frame: frame@, answer }));
        answer?;
        let mut device = runtime.registry.get(self.device_id)?;
        device.last_frame_time_ns = frame.timestamp_ns;
        runtime.registry.upsert(&device);
        Ok(())
    }

    /// Hands new controls to the platform and returns its answer; refused
    /// with `NotRunning`, with nothing asked, once closed.
    pub fn update_controls(&mut self, controls: &Controls) -> (r: CjuResult<()>)
        ensures
            final(self)@.device == old(self)@.device,
            final(self)@.open == old(self)@.open,
            !old(self)@.open ==> (r matches Err(e) && e.code == ResultCode::NotRunning && e.detail@
                == "stream is closed"@ && final(self)@.requests == old(self)@.requests),
            old(self)@.open ==> old(self).controls_answer(*controls, r) && final(self)@.requests
                == old(self)@.requests.push(StreamRequest::Update { controls: *controls, answer: r }),
    {
        if !self.open {
            return Err(stream_closed());
        }
        let answer = self.platform.update_controls(controls);
        self.requests = Ghost(
            self.requests@.push(StreamRequest::Update { controls: *controls, answer }),
        );
        answer
    }

    /// Closes the stream (see `close_inner`).
    pub fn close(self, runtime: &mut Runtime) -> (r: CjuResult<()>)
        ensures
            final(runtime)@.same_setup(old(runtime)@),
            final(runtime)@.requests == old(runtime)@.requests,
            final(runtime).report_spec() == old(runtime).report_spec(),
            !self@.open ==> r is Ok && final(runtime)@.registry == old(runtime)@.registry,
            self@.open ==> exists|answer: CjuResult<()>|
                #![trigger self.close_answer(answer)]
                self.close_answer(answer) && close_outcome(
                    answer,
                    self@.device,
                    old(runtime)@.registry.1,
                    r,
                    final(runtime)@.registry.1,
                ),
    {
        let mut stream = self;
        let r = stream.close_inner(runtime);
        proof {
            if self@.open {
                let answer = stream@.requests.last()->Close_answer;
                assert(self.close_answer(answer));
            }
        }
        r
    }

    /// Closes the stream. Closing a closed stream does nothing and asks
    /// nothing. Otherwise the platform is asked; once it closes the stream,
    /// the device is recorded as not streaming and the stream is closed; if
    /// the platform refuses, or the device is gone, the stream stays open and
    /// the registry is unchanged.
    pub fn close_inner(&mut self, runtime: &mut Runtime) -> (r: CjuResult<()>)
        ensures
            final(self)@.device == old(self)@.device,
            final(self)@.open <==> r is Err,
            final(runtime)@.same_setup(old(runtime)@),
            final(runtime)@.requests == old(runtime)@.requests,
            final(runtime).report_spec() == old(runtime).report_spec(),
            !old(self)@.open ==> r is Ok && final(runtime)@.registry == old(runtime)@.registry
                && final(self)@.requests == old(self)@.requests,
            old(self)@.open ==> final(self)@.requests == old(self)@.requests.push(
                final(self)@.requests.last(),
            ) && (final(self)@.requests.last() matches StreamRequest::Close { answer }
                && old(self).close_answer(answer) && close_outcome(
                answer,
                old(self)@.device,
                old(runtime)@.registry.1,
                r,
                final(runtime)@.registry.1,
            )),
    {
        if !self.open {
            return Ok(());
        }
        let answer = self.platform.close();
        self.requests = Ghost(self.requests@.push(StreamRequest::Close { answer }));
        if answer.is_ok() {
            let mut device = runtime.registry.get(self.device_id)?;
            device.streaming = false;
            runtime.registry.upsert(&device);
            self.open = false;
        }
        answer
    }
}

} // verus!
