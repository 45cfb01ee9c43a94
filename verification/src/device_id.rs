//! Device identifiers: fixed 64-byte, NUL-padded UTF-8 text.
use vstd::prelude::*;
use vstd::utf8::{
    decode_utf8, encode_scalar, encode_utf8, has_width_1_encoding, has_width_2_encoding,
    has_width_3_encoding, valid_utf8,
};

use crate::text::push_str;

verus! {

broadcast use {
    vstd::array::group_array_axioms,
    vstd::utf8::encode_utf8_valid_utf8,
    vstd::utf8::encode_utf8_decode_utf8,
    vstd::utf8::decode_utf8_encode_utf8,
};

/// Size in bytes of a device identifier, its terminating NUL included.
pub const ID_MAX: usize = 64;

/// Longest display name the C ABI accepts, in bytes.
pub const NAME_MAX: usize = 128;

/// Longest path the C ABI accepts, in bytes.
pub const PATH_MAX: usize = 512;

/// A device identifier: text bytes followed by NUL padding.
#[derive(Debug, Clone, Copy, Hash)]
pub struct DeviceId(pub [u8; ID_MAX]);

impl View for DeviceId {
    type V = Seq<u8>;

    open spec fn view(&self) -> Seq<u8> {
        self.0@
    }
}

impl PartialEq for DeviceId {
    fn eq(&self, other: &Self) -> (same: bool) {
        let mut i: usize = 0;
        while i < ID_MAX
            invariant
                i <= ID_MAX,
                forall|j: int| 0 <= j < i ==> self.0@[j] == other.0@[j],
            decreases ID_MAX - i,
        {
            if self.0[i] != other.0[i] {
                return false;
            }
            i = i + 1;
        }
        assert(self.0@ =~= other.0@);
        true
    }
}

impl vstd::std_specs::cmp::PartialEqSpecImpl for DeviceId {
    open spec fn obeys_eq_spec() -> bool {
        true
    }

    open spec fn eq_spec(&self, other: &Self) -> bool {
        self@ == other@
    }
}

impl Eq for DeviceId {}

/// The identifier bytes made from the UTF-8 bytes of a text: at most 63 of
/// them, then NUL bytes up to 64.
pub open spec fn lossy_id_bytes(text: Seq<u8>) -> Seq<u8> {
    let n = if text.len() < 63 {
        text.len() as int
    } else {
        63
    };
    Seq::new(64, |i: int| if i < n { text[i] } else { 0u8 })
}

/// The number of bytes before the first NUL (all of them when there is none).
pub open spec fn nul_end(b: Seq<u8>) -> nat
    decreases b.len(),
{
    if b.len() == 0 || b[0] == 0 {
        0
    } else {
        1 + nul_end(b.drop_first())
    }
}

/// `e` is where the text of `b` ends: no NUL before it, a NUL or the end at it.
pub open spec fn is_nul_end(b: Seq<u8>, e: int) -> bool {
    &&& 0 <= e <= b.len()
    &&& forall|j: int| 0 <= j < e ==> b[j] != 0
    &&& e < b.len() ==> b[e] == 0
}

pub proof fn lemma_nul_end(b: Seq<u8>)
    ensures
        is_nul_end(b, nul_end(b) as int),
        forall|e: int| is_nul_end(b, e) ==> e == nul_end(b),
    decreases b.len(),
{
    if b.len() > 0 && b[0] != 0 {
        lemma_nul_end(b.drop_first());
        let r = b.drop_first();
        assert forall|j: int| 0 <= j < nul_end(b) implies b[j] != 0 by {
            if j > 0 {
                assert(b[j] == r[j - 1]);
            }
        }
        assert forall|e: int| is_nul_end(b, e) implies e == nul_end(b) by {
            if e == 0 {
            } else {
                assert(is_nul_end(r, e - 1)) by {
                    assert forall|j: int| 0 <= j < e - 1 implies r[j] != 0 by {
                        assert(r[j] == b[j + 1]);
                    }
                }
            }
        }
    } else {
        assert forall|e: int| is_nul_end(b, e) implies e == nul_end(b) by {
            if e > 0 {
                assert(b[0] != 0);
            }
        }
    }
}

/// The text bytes of an identifier: everything before the first NUL.
pub open spec fn id_text_bytes(b: Seq<u8>) -> Seq<u8> {
    b.take(nul_end(b) as int)
}

/// The text of an identifier: its text bytes read as UTF-8, or empty when
/// they are not UTF-8.
pub open spec fn id_text(b: Seq<u8>) -> Seq<char> {
    if valid_utf8(id_text_bytes(b)) {
        decode_utf8(id_text_bytes(b))
    } else {
        seq![]
    }
}

/// Reads UTF-8 bytes as text; `None` when they are not UTF-8.
///
/// Calls `std::str::from_utf8`. Trusted: it succeeds exactly on valid UTF-8
/// and then holds the characters those bytes encode.
#[verifier::external_body]
fn str_from_utf8(bytes: &[u8]) -> (text: Option<&str>)
    ensures
        text is Some <==> valid_utf8(bytes@),
        text matches Some(t) ==> t@ == decode_utf8(bytes@),
{
    std::str::from_utf8(bytes).ok()
}

/// Hexadecimal digit `d` (lower case).
pub open spec fn hex_char(d: nat) -> char {
    if d < 10 {
        (d + 48) as char
    } else {
        (d + 87) as char
    }
}

/// The last `width` hexadecimal digits of `v`, zero-padded.
pub open spec fn hex_digits(v: nat, width: nat) -> Seq<char>
    decreases width,
{
    if width == 0 {
        seq![]
    } else {
        hex_digits(v / 16, (width - 1) as nat).push(hex_char(v % 16))
    }
}

/// The text of a generated identifier: `cju-`, 32 hex digits of the
/// timestamp, `-`, 8 hex digits of the process id.
pub open spec fn generated_id_text(nanos: u128, process: u32) -> Seq<char> {
    "cju-"@ + hex_digits(nanos as nat, 32) + "-"@ + hex_digits(process as nat, 8)
}

fn push_hex(out: &mut String, v: u128, width: u32)
    ensures
        final(out)@ == old(out)@ + hex_digits(v as nat, width as nat),
    decreases width,
{
    if width == 0 {
        assert(old(out)@ + hex_digits(v as nat, 0) =~= old(out)@);
        return ;
    }
    push_hex(out, v / 16, width - 1);
    let d: u8 = (v % 16) as u8;
    let c = if d < 10 {
        (d + 48) as char
    } else {
        (d + 87) as char
    };
    out.push(c);
    assert(old(out)@ + hex_digits((v / 16) as nat, (width - 1) as nat) + seq![c] =~= old(out)@
        + hex_digits(v as nat, width as nat));
}

impl DeviceId {
    /// The identifier made from the first 63 UTF-8 bytes of `value`.
    pub fn from_str_lossy(value: &str) -> (id: DeviceId)
        ensures
            id@ == lossy_id_bytes(encode_utf8(value@)),
    {
        let bytes = value.as_bytes();
        let count: usize = if bytes.len() < ID_MAX - 1 {
            bytes.len()
        } else {
            ID_MAX - 1
        };
        let mut id = [0u8; ID_MAX];
        proof {
            assert forall|j: int| 0 <= j < 64 implies id@[j] == 0u8 by {}
        }
        let mut i: usize = 0;
        while i < count
            invariant
                count <= bytes@.len(),
                count < 64,
                i <= count,
                forall|j: int| 0 <= j < i ==> id@[j] == bytes@[j],
                forall|j: int| i <= j < 64 ==> id@[j] == 0u8,
            decreases count - i,
        {
            id[i] = bytes[i];
            i = i + 1;
        }
        let result = DeviceId(id);
        assert(result@ =~= lossy_id_bytes(encode_utf8(value@)));
        result
    }

    /// The identifier's text (see `id_text`).
    pub fn as_str(&self) -> (text: &str)
        ensures
            text@ == id_text(self@),
    {
        let mut end: usize = 0;
        while end < ID_MAX && self.0[end] != 0
            invariant
                end <= ID_MAX,
                forall|j: int| 0 <= j < end ==> self@[j] != 0,
            decreases ID_MAX - end,
        {
            end = end + 1;
        }
        proof {
            lemma_nul_end(self@);
            assert(is_nul_end(self@, end as int));
        }
        let all: &[u8] = self.0.as_slice();
        let prefix: &[u8] = &all[0..end];
        assert(prefix@ =~= id_text_bytes(self@));
        match str_from_utf8(prefix) {
            Some(text) => text,
            None => {
                proof {
                    reveal_strlit("");
                }
                ""
            },
        }
    }

    /// True when the identifier's text is empty.
    pub fn is_empty(&self) -> (empty: bool)
        ensures
            empty == (self@[0] == 0),
    {
        self.0[0] == 0
    }

    /// The identifier's text as an owned string.
    pub fn to_string(&self) -> (text: String)
        ensures
            text@ == id_text(self@),
    {
        self.as_str().to_owned()
    }

    /// The identifier generated from a timestamp in nanoseconds and a process id.
    pub fn generated(nanos: u128, process: u32) -> (id: DeviceId)
        ensures
            id@ == lossy_id_bytes(encode_utf8(generated_id_text(nanos, process))),
    {
        let mut text = String::new();
        push_str(&mut text, "cju-");
        push_hex(&mut text, nanos, 32);
        push_str(&mut text, "-");
        push_hex(&mut text, process as u128, 8);
        assert(text@ =~= generated_id_text(nanos, process));
        DeviceId::from_str_lossy(text.as_str())
    }
}

/// A device identifier as the C ABI passes it.
#[derive(Debug, Clone, Copy)]
pub struct CjuDeviceId {
    pub value: [u8; ID_MAX],
}

impl CjuDeviceId {
    pub fn from_device_id(id: DeviceId) -> (c: CjuDeviceId)
        ensures
            c.value@ == id@,
    {
        CjuDeviceId { value: id.0 }
    }

    pub fn to_device_id(&self) -> (id: DeviceId)
        ensures
            id@ == self.value@,
    {
        DeviceId(self.value)
    }
}

// ---------------------------------------------------------------------------
// Texts that survive a round trip through an identifier
// ---------------------------------------------------------------------------

/// An identifier that its own text gives back: at most 63 text bytes, valid
/// UTF-8, NUL after the text.
pub open spec fn canonical_id(b: Seq<u8>) -> bool {
    &&& b.len() == 64
    &&& nul_end(b) <= 63
    &&& valid_utf8(id_text_bytes(b))
    &&& forall|j: int| nul_end(b) <= j < 64 ==> b[j] == 0
}

/// A canonical identifier is what its text makes.
pub proof fn lemma_canonical_id_round_trip(b: Seq<u8>)
    requires
        canonical_id(b),
    ensures
        lossy_id_bytes(encode_utf8(id_text(b))) == b,
{
    lemma_nul_end(b);
    let prefix = id_text_bytes(b);
    assert(encode_utf8(id_text(b)) == prefix);
    assert(lossy_id_bytes(prefix) =~= b);
}

/// The UTF-8 encoding of a character other than NUL holds no zero byte.
proof fn lemma_encode_scalar_nonzero(c: char)
    requires
        c != '\0',
    ensures
        forall|i: int| 0 <= i < encode_scalar(c as u32).len() ==> #[trigger] encode_scalar(c as u32)[i] != 0,
{
    let v = c as u32;
    assert(v != 0);
    assert forall|x: u8| (0x80u8 | x) != 0 by {
        assert((0x80u8 | x) != 0) by (bit_vector);
    }
    assert forall|x: u8| (0xC0u8 | x) != 0 by {
        assert((0xC0u8 | x) != 0) by (bit_vector);
    }
    assert forall|x: u8| (0xE0u8 | x) != 0 by {
        assert((0xE0u8 | x) != 0) by (bit_vector);
    }
    assert forall|x: u8| (0xF0u8 | x) != 0 by {
        assert((0xF0u8 | x) != 0) by (bit_vector);
    }
    if has_width_1_encoding(v) {
        assert(((v & 0x7F) as u8) != 0) by (bit_vector)
            requires
                v <= 0x7F && v != 0,
        ;
    }
}

/// Text without NUL encodes to bytes without zero.
pub proof fn lemma_encode_utf8_nonzero(s: Seq<char>)
    requires
        !s.contains('\0'),
    ensures
        forall|i: int| 0 <= i < encode_utf8(s).len() ==> #[trigger] encode_utf8(s)[i] != 0,
    decreases s.len(),
{
    if s.len() > 0 {
        let rest = s.drop_first();
        assert(!rest.contains('\0')) by {
            if rest.contains('\0') {
                let k = choose|k: int| 0 <= k < rest.len() && rest[k] == '\0';
                assert(s[k + 1] == '\0');
            }
        }
        assert(s[0] != '\0');
        lemma_encode_utf8_nonzero(rest);
        lemma_encode_scalar_nonzero(s[0]);
        let a = encode_scalar(s[0] as u32);
        let b = encode_utf8(rest);
        assert(encode_utf8(s) == a + b);
        assert forall|i: int| 0 <= i < encode_utf8(s).len() implies encode_utf8(s)[i] != 0 by {
            if i < a.len() {
                assert(encode_utf8(s)[i] == a[i]);
            } else {
                assert(encode_utf8(s)[i] == b[i - a.len()]);
            }
        }
    }
}

/// A text without NUL whose UTF-8 takes at most 63 bytes is what the
/// identifier made from it reads back, and that identifier is canonical.
pub proof fn lemma_id_text_round_trip(s: Seq<char>)
    requires
        !s.contains('\0'),
        encode_utf8(s).len() <= 63,
    ensures
        id_text(lossy_id_bytes(encode_utf8(s))) == s,
        canonical_id(lossy_id_bytes(encode_utf8(s))),
{
    let e = encode_utf8(s);
    let b = lossy_id_bytes(e);
    lemma_encode_utf8_nonzero(s);
    lemma_nul_end(b);
    assert(is_nul_end(b, e.len() as int));
    assert(nul_end(b) == e.len());
    assert(id_text_bytes(b) =~= e);
}

/// The characters a generated identifier's text is made of.
pub open spec fn is_generated_char(c: char) -> bool {
    ('0' <= c && c <= '9') || ('a' <= c && c <= 'f') || c == 'c' || c == 'j' || c == 'u' || c == '-'
}

proof fn lemma_hex_digits(v: nat, width: nat)
    ensures
        hex_digits(v, width).len() == width,
        forall|i: int| 0 <= i < width ==> is_generated_char(#[trigger] hex_digits(v, width)[i]),
    decreases width,
{
    if width > 0 {
        lemma_hex_digits(v / 16, (width - 1) as nat);
        let d = v % 16;
        assert(is_generated_char(hex_char(d)));
        let h = hex_digits(v, width);
        assert forall|i: int| 0 <= i < width implies is_generated_char(#[trigger] h[i]) by {
            if i < width - 1 {
                assert(h[i] == hex_digits(v / 16, (width - 1) as nat)[i]);
            }
        }
    }
}

/// A generated identifier's text: 45 characters, each a hex digit, `c`, `j`,
/// `u` or `-`.
pub proof fn lemma_generated_text(nanos: u128, process: u32)
    ensures
        generated_id_text(nanos, process).len() == 45,
        forall|i: int|
            0 <= i < 45 ==> is_generated_char(#[trigger] generated_id_text(nanos, process)[i]),
{
    reveal_strlit("cju-");
    reveal_strlit("-");
    lemma_hex_digits(nanos as nat, 32);
    lemma_hex_digits(process as nat, 8);
    let a = "cju-"@;
    let h1 = hex_digits(nanos as nat, 32);
    let h2 = hex_digits(process as nat, 8);
    let t = generated_id_text(nanos, process);
    assert(t == a + h1 + "-"@ + h2);
    assert forall|i: int| 0 <= i < 45 implies is_generated_char(#[trigger] t[i]) by {
        if i < 4 {
            assert(t[i] == a[i]);
        } else if i < 36 {
            assert(t[i] == h1[i - 4]);
        } else if i == 36 {
            assert(t[i] == '-');
        } else {
            assert(t[i] == h2[i - 37]);
        }
    }
}

/// A generated identifier is canonical and reads back as its generated text.
pub proof fn lemma_generated_id(nanos: u128, process: u32)
    ensures
        canonical_id(lossy_id_bytes(encode_utf8(generated_id_text(nanos, process)))),
        id_text(lossy_id_bytes(encode_utf8(generated_id_text(nanos, process)))) == generated_id_text(
            nanos,
            process,
        ),
        !generated_id_text(nanos, process).contains('\t'),
        !generated_id_text(nanos, process).contains('\n'),
{
    broadcast use vstd::utf8::is_ascii_chars_encode_utf8;

    let t = generated_id_text(nanos, process);
    lemma_generated_text(nanos, process);
    assert(vstd::utf8::is_ascii_chars(t)) by {
        assert forall|i: int| 0 <= i < t.len() implies '\0' <= #[trigger] t[i] <= '\u{7f}' by {
            assert(is_generated_char(t[i]));
        }
    }
    assert(encode_utf8(t).len() == 45);
    assert(!t.contains('\0')) by {
        if t.contains('\0') {
            let k = choose|k: int| 0 <= k < t.len() && t[k] == '\0';
            assert(is_generated_char(t[k]));
        }
    }
    assert(!t.contains('\t')) by {
        if t.contains('\t') {
            let k = choose|k: int| 0 <= k < t.len() && t[k] == '\t';
            assert(is_generated_char(t[k]));
        }
    }
    assert(!t.contains('\n')) by {
        if t.contains('\n') {
            let k = choose|k: int| 0 <= k < t.len() && t[k] == '\n';
            assert(is_generated_char(t[k]));
        }
    }
    lemma_id_text_round_trip(t);
}

} // verus!
