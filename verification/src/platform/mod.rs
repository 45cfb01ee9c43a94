//! Platform adapters: the artifacts each platform needs, the reports built
//! from what was found of them, and the built-in backends.
use vstd::prelude::*;

use crate::model::{DeviceInfo, DeviceRecord, VideoDesc};
use crate::result::{CjuResult, Error, ResultCode};
use crate::runtime::{PlatformBackend, PlatformStream};
use crate::identity::{ascii_lower, lemma_text_avoids_obs, mentions_obs};
use crate::text::push_str;

pub mod linux;
pub mod macos;
pub mod unsupported;
pub mod windows;

pub use linux::LinuxBackend;
pub use macos::MacosBackend;
pub use unsupported::UnsupportedBackend;
pub use windows::WindowsBackend;

verus! {

/// The operating system family the SDK runs on.
#[derive(Debug, Clone, Copy, PartialEq, Eq, Structural)]
pub enum HostPlatform {
    Windows,
    Macos,
    Linux,
    Unsupported,
}

/// Whether a required artifact was found, and where it was looked for.
#[derive(Debug)]
pub enum ArtifactStatus {
    Present(String),
    Missing(String),
    NotApplicable,
}

impl Clone for ArtifactStatus {
    fn clone(&self) -> (s: ArtifactStatus)
        ensures
            s == *self,
    {
        match self {
            ArtifactStatus::Present(p) => ArtifactStatus::Present(p.clone()),
            ArtifactStatus::Missing(p) => ArtifactStatus::Missing(p.clone()),
            ArtifactStatus::NotApplicable => ArtifactStatus::NotApplicable,
        }
    }
}

/// An artifact a platform needs: its name, what it is for, and where it lies
/// below the artifact root.
#[derive(Debug, Clone, Copy)]
pub struct ArtifactSpec {
    pub name: &'static str,
    pub purpose: &'static str,
    pub relative_path: &'static str,
}

/// An artifact a platform needs, with what was found of it.
#[derive(Debug)]
pub struct PlatformArtifact {
    pub name: &'static str,
    pub purpose: &'static str,
    pub status: ArtifactStatus,
}

impl Clone for PlatformArtifact {
    fn clone(&self) -> (a: PlatformArtifact)
        ensures
            a == *self,
    {
        PlatformArtifact { name: self.name, purpose: self.purpose, status: self.status.clone() }
    }
}

/// What a platform needs and what was found of it.
#[derive(Debug)]
pub struct PlatformReport {
    pub platform: &'static str,
    pub summary: &'static str,
    pub artifacts: Vec<PlatformArtifact>,
}

impl Clone for PlatformReport {
    fn clone(&self) -> (r: PlatformReport)
        ensures
            r.platform == self.platform,
            r.summary == self.summary,
            r.artifacts@ == self.artifacts@,
    {
        let mut artifacts: Vec<PlatformArtifact> = Vec::new();
        let mut i: usize = 0;
        while i < self.artifacts.len()
            invariant
                i <= self.artifacts.len(),
                artifacts@ == self.artifacts@.take(i as int),
            decreases self.artifacts.len() - i,
        {
            let a = self.artifacts[i].clone();
            artifacts.push(a);
            assert(artifacts@ =~= self.artifacts@.take(i + 1));
            i = i + 1;
        }
        assert(self.artifacts@.take(self.artifacts.len() as int) =~= self.artifacts@);
        PlatformReport { platform: self.platform, summary: self.summary, artifacts }
    }
}

/// What looking for an artifact found: where it was looked for, and whether
/// it is there.
#[derive(Debug)]
pub struct ArtifactProbe {
    pub path: String,
    pub found: bool,
}

impl Clone for ArtifactProbe {
    fn clone(&self) -> (p: ArtifactProbe)
        ensures
            p == *self,
    {
        ArtifactProbe { path: self.path.clone(), found: self.found }
    }
}

/// The status looking for an artifact gives it: present at the path where it
/// was found, otherwise missing there.
pub open spec fn probed_status(probe: ArtifactProbe) -> ArtifactStatus {
    if probe.found {
        ArtifactStatus::Present(probe.path)
    } else {
        ArtifactStatus::Missing(probe.path)
    }
}

/// The status looking for an artifact gives it.
pub fn artifact_status(probe: ArtifactProbe) -> (s: ArtifactStatus)
    ensures
        s == probed_status(probe),
{
    if probe.found {
        ArtifactStatus::Present(probe.path)
    } else {
        ArtifactStatus::Missing(probe.path)
    }
}

/// The artifact `spec` with what looking for it found.
pub fn artifact(spec: &ArtifactSpec, probe: ArtifactProbe) -> (a: PlatformArtifact)
    ensures
        a.name == spec.name,
        a.purpose == spec.purpose,
        a.status == probed_status(probe),
{
    PlatformArtifact { name: spec.name, purpose: spec.purpose, status: artifact_status(probe) }
}

/// Where the packaging contract puts an artifact below the artifact root:
/// the installer helper at the root itself, every other artifact in the
/// platform's directory `dir` (which ends in `/`).
pub open spec fn packaged_path(name: Seq<char>, dir: Seq<char>, helper: Seq<char>) -> Seq<char> {
    if name == helper {
        name
    } else {
        dir + name
    }
}

/// The artifacts' names, in order.
pub open spec fn spec_names(specs: Seq<ArtifactSpec>) -> Seq<Seq<char>> {
    Seq::new(specs.len(), |i: int| specs[i].name@)
}

/// The artifacts built from `specs` with what looking for them found, in order.
pub open spec fn artifacts_match(
    artifacts: Seq<PlatformArtifact>,
    specs: Seq<ArtifactSpec>,
    probes: Seq<ArtifactProbe>,
) -> bool {
    &&& artifacts.len() == specs.len()
    &&& probes.len() == specs.len()
    &&& forall|i: int|
        0 <= i < specs.len() ==> (#[trigger] artifacts[i]).name == specs[i].name
            && artifacts[i].purpose == specs[i].purpose && artifacts[i].status == probed_status(probes[i])
}

/// Pairs each artifact spec with what looking for it found.
pub fn build_artifacts(specs: &Vec<ArtifactSpec>, probes: Vec<ArtifactProbe>) -> (artifacts: Vec<
    PlatformArtifact,
>)
    requires
        probes.len() == specs.len(),
    ensures
        artifacts_match(artifacts@, specs@, probes@),
{
    let mut artifacts: Vec<PlatformArtifact> = Vec::new();
    let mut i: usize = 0;
    while i < specs.len()
        invariant
            i <= specs.len(),
            probes.len() == specs.len(),
            artifacts.len() == i,
            forall|k: int|
                0 <= k < i ==> (#[trigger] artifacts@[k]).name == specs@[k].name
                    && artifacts@[k].purpose == specs@[k].purpose && artifacts@[k].status
                    == probed_status(probes@[k]),
        decreases specs.len() - i,
    {
        let a = artifact(&specs[i], probes[i].clone());
        artifacts.push(a);
        i = i + 1;
    }
    artifacts
}

/// The artifacts each platform needs, in report order.
pub fn artifact_specs(platform: HostPlatform) -> (specs: Vec<ArtifactSpec>)
    ensures
        platform == HostPlatform::Windows ==> specs@ == windows::spec_artifacts(),
        platform == HostPlatform::Macos ==> specs@ == macos::spec_artifacts(),
        platform == HostPlatform::Linux ==> specs@ == linux::spec_artifacts(),
        platform == HostPlatform::Unsupported ==> specs@.len() == 0,
{
    match platform {
        HostPlatform::Windows => windows::artifact_specs(),
        HostPlatform::Macos => macos::artifact_specs(),
        HostPlatform::Linux => linux::artifact_specs(),
        HostPlatform::Unsupported => Vec::new(),
    }
}

/// The number of artifacts a platform needs.
pub open spec fn artifact_count(platform: HostPlatform) -> nat {
    match platform {
        HostPlatform::Windows => windows::spec_artifacts().len(),
        HostPlatform::Macos => macos::spec_artifacts().len(),
        HostPlatform::Linux => linux::spec_artifacts().len(),
        HostPlatform::Unsupported => 0,
    }
}

/// The report for `platform`, given what looking for each artifact it needs found.
pub fn platform_report(platform: HostPlatform, probes: Vec<ArtifactProbe>) -> (report:
    PlatformReport)
    requires
        probes.len() == artifact_count(platform),
    ensures
        platform == HostPlatform::Windows ==> windows::is_report(report, probes@),
        platform == HostPlatform::Macos ==> macos::is_report(report, probes@),
        platform == HostPlatform::Linux ==> linux::is_report(report, probes@),
        platform == HostPlatform::Unsupported ==> unsupported::is_report(report),
{
    match platform {
        HostPlatform::Windows => windows::report(probes),
        HostPlatform::Macos => macos::report(probes),
        HostPlatform::Linux => linux::report(probes),
        HostPlatform::Unsupported => unsupported::report(),
    }
}

/// Some artifact was looked for and not found.
pub open spec fn any_missing(artifacts: Seq<PlatformArtifact>) -> bool {
    exists|i: int| 0 <= i < artifacts.len() && (#[trigger] artifacts[i]).status is Missing
}

/// The names of the artifacts that were looked for and not found, in order.
pub open spec fn missing_names(artifacts: Seq<PlatformArtifact>) -> Seq<Seq<char>>
    decreases artifacts.len(),
{
    if artifacts.len() == 0 {
        seq![]
    } else {
        let before = missing_names(artifacts.drop_last());
        if artifacts.last().status is Missing {
            before.push(artifacts.last().name@)
        } else {
            before
        }
    }
}

/// The pieces with `sep` between them.
pub open spec fn join_list(pieces: Seq<Seq<char>>, sep: Seq<char>) -> Seq<char>
    decreases pieces.len(),
{
    if pieces.len() == 0 {
        seq![]
    } else if pieces.len() == 1 {
        pieces[0]
    } else {
        join_list(pieces.drop_last(), sep) + sep + pieces.last()
    }
}

/// The error that names the missing artifacts.
pub open spec fn missing_detail(artifacts: Seq<PlatformArtifact>) -> Seq<char> {
    "missing CamJongUn platform artifacts: "@ + join_list(missing_names(artifacts), ", "@)
}

proof fn lemma_missing_names_empty(artifacts: Seq<PlatformArtifact>)
    ensures
        missing_names(artifacts).len() == 0 <==> forall|i: int|
            0 <= i < artifacts.len() ==> !((#[trigger] artifacts[i]).status is Missing),
    decreases artifacts.len(),
{
    if artifacts.len() > 0 {
        let front = artifacts.drop_last();
        lemma_missing_names_empty(front);
        if !(artifacts.last().status is Missing) && missing_names(front).len() == 0 {
            assert forall|i: int| 0 <= i < artifacts.len() implies !((#[trigger] artifacts[i]).status is Missing) by {
                if i < front.len() {
                    assert(artifacts[i] == front[i]);
                }
            }
        }
        if missing_names(front).len() > 0 {
            let k = choose|k: int| 0 <= k < front.len() && ((#[trigger] front[k]).status is Missing);
            assert(artifacts[k] == front[k]);
        }
    }
}

/// `BackendError` naming every missing artifact, or `None` when none is missing.
pub fn missing_artifacts_error(report: &PlatformReport) -> (err: Option<Error>)
    ensures
        err is None <==> forall|i: int|
            0 <= i < report.artifacts.len() ==> !((#[trigger] report.artifacts@[i]).status is Missing),
        err matches Some(e) ==> e.code == ResultCode::BackendError && e.detail@ == missing_detail(
            report.artifacts@,
        ),
{
    let ghost arts = report.artifacts@;
    let mut names = String::new();
    let mut count: usize = 0;
    let mut i: usize = 0;
    proof {
        assert(arts.take(0) =~= Seq::<PlatformArtifact>::empty());
    }
    while i < report.artifacts.len()
        invariant
            i <= report.artifacts.len(),
            arts == report.artifacts@,
            count == missing_names(arts.take(i as int)).len(),
            count <= i,
            names@ == join_list(missing_names(arts.take(i as int)), ", "@),
        decreases report.artifacts.len() - i,
    {
        let a = &report.artifacts[i];
        proof {
            assert(arts.take(i + 1).drop_last() =~= arts.take(i as int));
            assert(arts.take(i + 1).last() == arts[i as int]);
        }
        match &a.status {
            ArtifactStatus::Missing(_) => {
                let ghost prev = missing_names(arts.take(i as int));
                if count > 0 {
                    push_str(&mut names, ", ");
                }
                push_str(&mut names, a.name);
                proof {
                    let now = prev.push(a.name@);
                    assert(now.drop_last() =~= prev);
                    if count == 0 {
                        assert(names@ =~= join_list(now, ", "@));
                    } else {
                        assert(names@ =~= join_list(now, ", "@));
                    }
                }
                count = count + 1;
            },
            _ => {},
        }
        i = i + 1;
    }
    proof {
        assert(arts.take(report.artifacts.len() as int) =~= arts);
        lemma_missing_names_empty(arts);
    }
    if count == 0 {
        None
    } else {
        let mut detail = String::new();
        push_str(&mut detail, "missing CamJongUn platform artifacts: ");
        push_str(&mut detail, names.as_str());
        Some(Error { code: ResultCode::BackendError, detail })
    }
}

/// `answer` is a refusal with exactly this code and detail.
pub open spec fn refused_with(answer: CjuResult<()>, refusal: (ResultCode, Seq<char>)) -> bool {
    answer matches Err(e) && (e.code, e.detail@) == refusal
}

/// The text of a platform message about a named device: `before`, the name, `after`.
pub open spec fn named_message(before: Seq<char>, name: Seq<char>, after: Seq<char>) -> Seq<char> {
    before + name + after
}

/// An error whose detail is `before`, the device name, then `after`.
pub fn named_error(code: ResultCode, before: &str, name: &str, after: &str) -> (e: Error)
    ensures
        e.code == code,
        e.detail@ == named_message(before@, name@, after@),
{
    let mut detail = String::new();
    push_str(&mut detail, before);
    push_str(&mut detail, name);
    push_str(&mut detail, after);
    Error { code, detail }
}

/// The detail given while frame streaming is not wired to a native backend.
pub open spec fn not_wired_detail() -> Seq<char> {
    "platform install artifacts can be validated, but frame streaming is not wired yet"@
}

/// Streaming is not wired yet: always `PlatformUnavailable`.
pub fn streaming_not_wired(device: &DeviceInfo, video: VideoDesc) -> (r: CjuResult<
    Box<dyn PlatformStream>,
>)
    ensures
        r matches Err(e) && e.code == ResultCode::PlatformUnavailable && e.detail@
            == not_wired_detail(),
{
    Err(
        Error::new(
            ResultCode::PlatformUnavailable,
            "platform install artifacts can be validated, but frame streaming is not wired yet",
        ),
    )
}

/// What the host was found to offer: its platform, its artifact report, and
/// (on Linux) whether the v4l2loopback module is available.
#[derive(Debug, Clone)]
pub struct HostInfo {
    pub platform: HostPlatform,
    pub report: PlatformReport,
    pub v4l2loopback_available: bool,
}

/// The backend built in for each platform.
#[derive(Debug)]
pub enum BuiltinBackend {
    Windows(WindowsBackend),
    Macos(MacosBackend),
    Linux(LinuxBackend),
    Unsupported(UnsupportedBackend),
}

/// The built-in backend for what the host offers.
pub open spec fn builtin_backend_for(host: HostInfo) -> BuiltinBackend {
    match host.platform {
        HostPlatform::Windows => BuiltinBackend::Windows(WindowsBackend { report: host.report }),
        HostPlatform::Macos => BuiltinBackend::Macos(MacosBackend { report: host.report }),
        HostPlatform::Linux => BuiltinBackend::Linux(
            LinuxBackend { v4l2loopback_available: host.v4l2loopback_available },
        ),
        HostPlatform::Unsupported => BuiltinBackend::Unsupported(UnsupportedBackend),
    }
}

/// The built-in backend for the host.
pub fn default_backend(host: HostInfo) -> (b: BuiltinBackend)
    ensures
        b == builtin_backend_for(host),
{
    match host.platform {
        HostPlatform::Windows => BuiltinBackend::Windows(WindowsBackend::new(host.report)),
        HostPlatform::Macos => BuiltinBackend::Macos(MacosBackend::new(host.report)),
        HostPlatform::Linux => BuiltinBackend::Linux(LinuxBackend::new(host.v4l2loopback_available)),
        HostPlatform::Unsupported => BuiltinBackend::Unsupported(UnsupportedBackend),
    }
}

impl PlatformBackend for BuiltinBackend {
    /// The host's backend's answer.
    open spec fn install_answer(&self, device: DeviceRecord, answer: CjuResult<()>) -> bool {
        match self {
            BuiltinBackend::Windows(b) => b.install_answer(device, answer),
            BuiltinBackend::Macos(b) => b.install_answer(device, answer),
            BuiltinBackend::Linux(b) => b.install_answer(device, answer),
            BuiltinBackend::Unsupported(b) => b.install_answer(device, answer),
        }
    }

    /// The host's backend's answer.
    open spec fn uninstall_answer(&self, device: DeviceRecord, answer: CjuResult<()>) -> bool {
        match self {
            BuiltinBackend::Windows(b) => b.uninstall_answer(device, answer),
            BuiltinBackend::Macos(b) => b.uninstall_answer(device, answer),
            BuiltinBackend::Linux(b) => b.uninstall_answer(device, answer),
            BuiltinBackend::Unsupported(b) => b.uninstall_answer(device, answer),
        }
    }

    /// The host's backend's answer.
    open spec fn open_answer(&self, device: DeviceRecord, video: VideoDesc, answer: CjuResult<()>) -> bool {
        match self {
            BuiltinBackend::Windows(b) => b.open_answer(device, video, answer),
            BuiltinBackend::Macos(b) => b.open_answer(device, video, answer),
            BuiltinBackend::Linux(b) => b.open_answer(device, video, answer),
            BuiltinBackend::Unsupported(b) => b.open_answer(device, video, answer),
        }
    }

    fn device_install(&self, device: &DeviceInfo) -> (r: CjuResult<()>) {
        match self {
            BuiltinBackend::Windows(b) => b.device_install(device),
            BuiltinBackend::Macos(b) => b.device_install(device),
            BuiltinBackend::Linux(b) => b.device_install(device),
            BuiltinBackend::Unsupported(b) => b.device_install(device),
        }
    }

    fn device_uninstall(&self, device: &DeviceInfo) -> (r: CjuResult<()>) {
        match self {
            BuiltinBackend::Windows(b) => b.device_uninstall(device),
            BuiltinBackend::Macos(b) => b.device_uninstall(device),
            BuiltinBackend::Linux(b) => b.device_uninstall(device),
            BuiltinBackend::Unsupported(b) => b.device_uninstall(device),
        }
    }

    fn stream_open(&self, device: &DeviceInfo, video: VideoDesc) -> (r: CjuResult<Box<dyn PlatformStream>>) {
        match self {
            BuiltinBackend::Windows(b) => b.stream_open(device, video),
            BuiltinBackend::Macos(b) => b.stream_open(device, video),
            BuiltinBackend::Linux(b) => b.stream_open(device, video),
            BuiltinBackend::Unsupported(b) => b.stream_open(device, video),
        }
    }
}

/// Nothing in the report mentions `obs`, in any letter case.
pub open spec fn report_avoids_obs(report: PlatformReport) -> bool {
    &&& !mentions_obs(report.platform@)
    &&& !mentions_obs(report.summary@)
    &&& forall|i: int|
        0 <= i < report.artifacts@.len() ==> !mentions_obs((#[trigger] report.artifacts@[i]).name@)
}

/// No platform report names OBS: not its platform, its summary, nor any
/// artifact it needs.
pub proof fn lemma_reports_avoid_obs(report: PlatformReport, probes: Seq<ArtifactProbe>)
    ensures
        windows::is_report(report, probes) ==> report_avoids_obs(report),
        macos::is_report(report, probes) ==> report_avoids_obs(report),
        linux::is_report(report, probes) ==> report_avoids_obs(report),
        unsupported::is_report(report) ==> report_avoids_obs(report),
{
    name_avoids_obs("camjongun-virtualcam-module64.dll");
    name_avoids_obs("camjongun-virtualcam-module32.dll");
    name_avoids_obs("camjongun-installer-helper.exe");
    name_avoids_obs("com.camjongun.virtual-camera.systemextension");
    name_avoids_obs("camjongun-mac-virtualcam.plugin");
    name_avoids_obs("camjongun-installer-helper");
    name_avoids_obs("windows");
    name_avoids_obs("macos");
    name_avoids_obs("linux");
    name_avoids_obs("unsupported");
    name_avoids_obs(
        "CamJongUn must ship 32-bit and 64-bit DirectShow modules with CamJongUn CLSIDs and names.",
    );
    name_avoids_obs(
        "CamJongUn must ship signed Camera Extension/DAL bundles with CamJongUn bundle IDs and UUIDs.",
    );
    name_avoids_obs(
        "CamJongUn uses v4l2loopback devices labeled and tracked through the CamJongUn registry.",
    );
    name_avoids_obs("This platform does not have a CamJongUn backend.");
    if windows::is_report(report, probes) {
        assert forall|i: int| 0 <= i < report.artifacts@.len() implies !mentions_obs(
            (#[trigger] report.artifacts@[i]).name@,
        ) by {
            assert(report.artifacts@[i].name == windows::spec_artifacts()[i].name);
        }
    }
    if macos::is_report(report, probes) {
        assert forall|i: int| 0 <= i < report.artifacts@.len() implies !mentions_obs(
            (#[trigger] report.artifacts@[i]).name@,
        ) by {
            assert(report.artifacts@[i].name == macos::spec_artifacts()[i].name);
        }
    }
    if linux::is_report(report, probes) {
        assert forall|i: int| 0 <= i < report.artifacts@.len() implies !mentions_obs(
            (#[trigger] report.artifacts@[i]).name@,
        ) by {
            assert(report.artifacts@[i].name == linux::spec_artifacts()[i].name);
        }
    }
}

/// Each text the reports are built from avoids `obs`.
proof fn name_avoids_obs(name: &'static str)
    requires
        name == "camjongun-virtualcam-module64.dll" || name == "camjongun-virtualcam-module32.dll"
            || name == "camjongun-installer-helper.exe" || name
            == "com.camjongun.virtual-camera.systemextension" || name
            == "camjongun-mac-virtualcam.plugin" || name == "camjongun-installer-helper" || name
            == "windows" || name == "macos" || name == "linux" || name == "unsupported" || name
            == "CamJongUn must ship 32-bit and 64-bit DirectShow modules with CamJongUn CLSIDs and names."
            || name
            == "CamJongUn must ship signed Camera Extension/DAL bundles with CamJongUn bundle IDs and UUIDs."
            || name
            == "CamJongUn uses v4l2loopback devices labeled and tracked through the CamJongUn registry."
            || name == "This platform does not have a CamJongUn backend.",
    ensures
        !mentions_obs(name@),
{
    reveal_strlit("camjongun-virtualcam-module64.dll");
    reveal_strlit("camjongun-virtualcam-module32.dll");
    reveal_strlit("camjongun-installer-helper.exe");
    reveal_strlit("com.camjongun.virtual-camera.systemextension");
    reveal_strlit("camjongun-mac-virtualcam.plugin");
    reveal_strlit("camjongun-installer-helper");
    reveal_strlit("windows");
    reveal_strlit("macos");
    reveal_strlit("linux");
    reveal_strlit("unsupported");
    reveal_strlit(
        "CamJongUn must ship 32-bit and 64-bit DirectShow modules with CamJongUn CLSIDs and names.",
    );
    reveal_strlit(
        "CamJongUn must ship signed Camera Extension/DAL bundles with CamJongUn bundle IDs and UUIDs.",
    );
    reveal_strlit(
        "CamJongUn uses v4l2loopback devices labeled and tracked through the CamJongUn registry.",
    );
    reveal_strlit("This platform does not have a CamJongUn backend.");
    let s = name@;
    assert forall|i: int| 0 <= i < s.len() - 1 && ascii_lower(#[trigger] s[i]) == 'o' implies ascii_lower(
        s[i + 1],
    ) != 'b' by {}
    lemma_text_avoids_obs(s);
}

} // verus!
