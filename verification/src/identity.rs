//! The names a device is known by outside the registry.
use vstd::prelude::*;
use vstd::utf8::encode_utf8;

use crate::device_id::{
    generated_id_text, id_text, is_generated_char, lemma_generated_id, lemma_generated_text,
    lossy_id_bytes, DeviceId,
};
use crate::platform::HostPlatform;
use crate::text::push_str;

verus! {

/// The namespace every CamJongUn platform identity starts with.
pub open spec fn identity_prefix() -> Seq<char> {
    "camjongun.virtual-camera."@
}

/// The platform identity of a device: the namespace, then the id's text.
pub open spec fn platform_identity_text(id: Seq<u8>) -> Seq<char> {
    identity_prefix() + id_text(id)
}

/// The scheme of a device path on each platform.
pub open spec fn device_path_prefix(platform: HostPlatform) -> Seq<char> {
    match platform {
        HostPlatform::Windows => "directshow:"@,
        HostPlatform::Macos => "cmio:"@,
        _ => "v4l2loopback:"@,
    }
}

/// The device path of a device: the platform's scheme, then the id's text.
pub open spec fn device_path_text(platform: HostPlatform, id: Seq<u8>) -> Seq<char> {
    device_path_prefix(platform) + id_text(id)
}

pub fn make_platform_identity(id: &DeviceId) -> (identity: String)
    ensures
        identity@ == platform_identity_text(id@),
{
    let mut out = String::new();
    push_str(&mut out, "camjongun.virtual-camera.");
    push_str(&mut out, id.as_str());
    assert(out@ =~= platform_identity_text(id@));
    out
}

pub fn make_device_path(id: &DeviceId, platform: HostPlatform) -> (path: String)
    ensures
        path@ == device_path_text(platform, id@),
{
    let mut out = String::new();
    let prefix = match platform {
        HostPlatform::Windows => "directshow:",
        HostPlatform::Macos => "cmio:",
        _ => "v4l2loopback:",
    };
    push_str(&mut out, prefix);
    push_str(&mut out, id.as_str());
    assert(out@ =~= device_path_text(platform, id@));
    out
}

/// A character in lower case, for ASCII letters.
pub open spec fn ascii_lower(c: char) -> char {
    if 'A' <= c && c <= 'Z' {
        ((c as u32) + 32) as char
    } else {
        c
    }
}

/// The text holds `obs` in any ASCII letter case.
pub open spec fn mentions_obs(s: Seq<char>) -> bool {
    exists|i: int|
        0 <= i && i + 2 < s.len() && ascii_lower(#[trigger] s[i]) == 'o' && ascii_lower(s[i + 1])
            == 'b' && ascii_lower(s[i + 2]) == 's'
}

/// No `o` of `prefix` starts `ob`, its last character is no `o`, and no
/// character of `tail` reads as `o`: then `prefix + tail` never mentions `obs`.
pub proof fn lemma_no_obs(prefix: Seq<char>, tail: Seq<char>)
    requires
        prefix.len() > 0,
        forall|i: int|
            0 <= i < prefix.len() - 1 && ascii_lower(#[trigger] prefix[i]) == 'o' ==> ascii_lower(
                prefix[i + 1],
            ) != 'b',
        ascii_lower(prefix.last()) != 'o',
        forall|i: int| 0 <= i < tail.len() ==> ascii_lower(#[trigger] tail[i]) != 'o',
    ensures
        !mentions_obs(prefix + tail),
{
    let s = prefix + tail;
    if mentions_obs(s) {
        let i = choose|i: int|
            0 <= i && i + 2 < s.len() && ascii_lower(#[trigger] s[i]) == 'o' && ascii_lower(
                s[i + 1],
            ) == 'b' && ascii_lower(s[i + 2]) == 's';
        if i < prefix.len() - 1 {
            assert(s[i] == prefix[i]);
            assert(s[i + 1] == prefix[i + 1]);
        } else if i == prefix.len() - 1 {
            assert(s[i] == prefix.last());
        } else {
            assert(s[i] == tail[i - prefix.len()]);
        }
    }
}

proof fn lemma_generated_has_no_o(nanos: u128, process: u32)
    ensures
        forall|i: int|
            0 <= i < generated_id_text(nanos, process).len() ==> ascii_lower(
                #[trigger] generated_id_text(nanos, process)[i],
            ) != 'o',
{
    lemma_generated_text(nanos, process);
    let t = generated_id_text(nanos, process);
    assert forall|i: int| 0 <= i < t.len() implies ascii_lower(#[trigger] t[i]) != 'o' by {
        assert(is_generated_char(t[i]));
    }
}

/// The platform identity and device path of a generated identifier never
/// mention `obs`, in any letter case: CamJongUn never reuses OBS names.
pub proof fn lemma_generated_names_avoid_obs(nanos: u128, process: u32, platform: HostPlatform)
    ensures
        !mentions_obs(
            platform_identity_text(lossy_id_bytes(encode_utf8(generated_id_text(nanos, process)))),
        ),
        !mentions_obs(
            device_path_text(platform, lossy_id_bytes(encode_utf8(generated_id_text(nanos, process)))),
        ),
{
    lemma_generated_id(nanos, process);
    lemma_generated_has_no_o(nanos, process);
    let t = generated_id_text(nanos, process);
    reveal_strlit("camjongun.virtual-camera.");
    reveal_strlit("directshow:");
    reveal_strlit("cmio:");
    reveal_strlit("v4l2loopback:");
    let p = identity_prefix();
    assert forall|i: int| 0 <= i < p.len() - 1 && ascii_lower(#[trigger] p[i]) == 'o' implies ascii_lower(
        p[i + 1],
    ) != 'b' by {
        assert(i == 4);
    }
    lemma_no_obs(p, t);
    let q = device_path_prefix(platform);
    assert forall|i: int| 0 <= i < q.len() - 1 && ascii_lower(#[trigger] q[i]) == 'o' implies ascii_lower(
        q[i + 1],
    ) != 'b' by {
    }
    lemma_no_obs(q, t);
}

/// A text whose every `o` (in any case) is followed by something other than
/// `b`, and which does not end in `o`, never mentions `obs`.
pub proof fn lemma_text_avoids_obs(s: Seq<char>)
    requires
        s.len() > 0,
        forall|i: int|
            0 <= i < s.len() - 1 && ascii_lower(#[trigger] s[i]) == 'o' ==> ascii_lower(s[i + 1])
                != 'b',
        ascii_lower(s.last()) != 'o',
    ensures
        !mentions_obs(s),
{
    lemma_no_obs(s, seq![]);
    assert(s + Seq::<char>::empty() =~= s);
}

} // verus!
