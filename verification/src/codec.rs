//! The registry's file format: one device per line, seventeen tab-separated
//! fields, free text escaped.
use vstd::prelude::*;
use vstd::utf8::encode_utf8;

use crate::device_id::{
    canonical_id, id_text, lemma_canonical_id_round_trip, lossy_id_bytes, DeviceId,
};
use crate::model::{
    pixel_format_number, producer_policy_number, records, DeviceInfo, DeviceRecord, PixelFormat,
    ProducerPolicy, VideoDesc,
};
use crate::text::{
    all_digits, chars_of, decimal, decimal_string, digit_char, escape, escape_text, is_digit,
    join_with, lemma_decimal_digits, lemma_escape_ends_with_cr, lemma_escape_has_no_separators,
    lemma_lines_append, lemma_parse_decimal, lemma_split_join, lemma_unescape_escape, lines_of,
    parse_decimal, parse_unsigned, push_str, rows, scan, split_chars, split_on, string_of,
    text_lines, unescape_chars, unescape_text,
};

verus! {

/// How a flag is written.
pub open spec fn bool_text(b: bool) -> Seq<char> {
    if b {
        seq!['1']
    } else {
        seq!['0']
    }
}

/// A field that reads as a set flag: exactly `1`.
pub open spec fn is_one(f: Seq<char>) -> bool {
    f.len() == 1 && f[0] == '1'
}

/// A stored pixel format: `1` and `2` name YUY2 and BGRA, anything else NV12.
pub open spec fn pixel_format_of(f: Seq<char>) -> PixelFormat {
    if f.len() == 1 && f[0] == '1' {
        PixelFormat::Yuy2
    } else if f.len() == 1 && f[0] == '2' {
        PixelFormat::Bgra
    } else {
        PixelFormat::Nv12
    }
}

/// A stored producer policy: `1` is takeover, anything else reject-second.
pub open spec fn producer_policy_of(f: Seq<char>) -> ProducerPolicy {
    if f.len() == 1 && f[0] == '1' {
        ProducerPolicy::Takeover
    } else {
        ProducerPolicy::RejectSecond
    }
}

/// The seventeen fields a device is written as.
pub open spec fn device_fields(d: DeviceRecord) -> Seq<Seq<char>> {
    seq![
        id_text(d.id),
        escape_text(d.display_name),
        escape_text(d.owner_app),
        escape_text(d.platform_identity),
        escape_text(d.device_path),
        decimal(d.preferred_video.width as nat),
        decimal(d.preferred_video.height as nat),
        decimal(d.preferred_video.fps_num as nat),
        decimal(d.preferred_video.fps_den as nat),
        decimal(pixel_format_number(d.preferred_video.format) as nat),
        decimal(producer_policy_number(d.producer_policy) as nat),
        bool_text(d.enabled),
        bool_text(d.installed),
        bool_text(d.visible_to_os),
        bool_text(d.streaming),
        decimal(d.last_frame_time_ns as nat),
        escape_text(d.last_error),
    ]
}

/// The line a device is written as.
pub open spec fn device_line(d: DeviceRecord) -> Seq<char> {
    join_with(device_fields(d), '\t')
}

/// The device a line describes: `None` when it has fewer than seventeen
/// fields or a numeric field does not read as a number of its type. Fields
/// after the seventeenth are ignored.
pub open spec fn decode_device(line: Seq<char>) -> Option<DeviceRecord> {
    let f = split_on(line, '\t');
    if f.len() < 17 {
        None
    } else {
        let w = parse_unsigned(f[5], u32::MAX as nat);
        let h = parse_unsigned(f[6], u32::MAX as nat);
        let n = parse_unsigned(f[7], u32::MAX as nat);
        let d = parse_unsigned(f[8], u32::MAX as nat);
        let t = parse_unsigned(f[15], u64::MAX as nat);
        if w is Some && h is Some && n is Some && d is Some && t is Some {
            Some(
                DeviceRecord {
                    id: lossy_id_bytes(encode_utf8(f[0])),
                    display_name: unescape_text(f[1]),
                    owner_app: unescape_text(f[2]),
                    platform_identity: unescape_text(f[3]),
                    device_path: unescape_text(f[4]),
                    preferred_video: VideoDesc {
                        width: w->0 as u32,
                        height: h->0 as u32,
                        fps_num: n->0 as u32,
                        fps_den: d->0 as u32,
                        format: pixel_format_of(f[9]),
                    },
                    producer_policy: producer_policy_of(f[10]),
                    enabled: is_one(f[11]),
                    installed: is_one(f[12]),
                    visible_to_os: is_one(f[13]),
                    streaming: is_one(f[14]),
                    last_frame_time_ns: t->0 as u64,
                    last_error: unescape_text(f[16]),
                },
            )
        } else {
            None
        }
    }
}

/// The devices a run of lines describes, lines that describe none skipped.
pub open spec fn decode_lines(lines: Seq<Seq<char>>) -> Seq<DeviceRecord>
    decreases lines.len(),
{
    if lines.len() == 0 {
        seq![]
    } else {
        let before = decode_lines(lines.drop_last());
        match decode_device(lines.last()) {
            Some(d) => before.push(d),
            None => before,
        }
    }
}

/// The devices a registry file's text describes.
pub open spec fn parse_registry(text: Seq<char>) -> Seq<DeviceRecord> {
    decode_lines(text_lines(text))
}

/// The text a registry file holds for a list of devices: one line each, each
/// ended by a line break.
pub open spec fn render_registry(devices: Seq<DeviceRecord>) -> Seq<char>
    decreases devices.len(),
{
    if devices.len() == 0 {
        seq![]
    } else {
        render_registry(devices.drop_last()) + device_line(devices.last()) + seq!['\n']
    }
}

/// The character sequences held by a list of strings.
pub open spec fn string_texts(v: Seq<String>) -> Seq<Seq<char>> {
    Seq::new(v.len(), |i: int| v[i]@)
}

/// The fields joined with `sep` between them.
pub fn join_fields(fields: &Vec<String>, sep: char) -> (out: String)
    ensures
        out@ == join_with(string_texts(fields@), sep),
{
    let ghost t = string_texts(fields@);
    if fields.len() == 0 {
        return String::new();
    }
    let mut out = fields[0].clone();
    proof {
        assert(t.take(1) =~= seq![t[0]]);
    }
    let mut i: usize = 1;
    while i < fields.len()
        invariant
            1 <= i <= fields.len(),
            t == string_texts(fields@),
            out@ == join_with(t.take(i as int), sep),
        decreases fields.len() - i,
    {
        out.push(sep);
        push_str(&mut out, fields[i].as_str());
        proof {
            let next = t.take(i + 1);
            assert(next.drop_last() =~= t.take(i as int));
            assert(next.last() == fields@[i as int]@);
        }
        i = i + 1;
    }
    proof {
        assert(t.take(fields.len() as int) =~= t);
    }
    out
}

fn bool_field(value: bool) -> (s: String)
    ensures
        s@ == bool_text(value),
{
    let mut s = String::new();
    if value {
        s.push('1');
    } else {
        s.push('0');
    }
    assert(s@ =~= bool_text(value));
    s
}

/// The line a device is written as.
pub fn serialize_device(device: &DeviceInfo) -> (line: String)
    ensures
        line@ == device_line(device@),
{
    let mut fields: Vec<String> = Vec::new();
    fields.push(device.id.to_string());
    fields.push(escape(device.display_name.as_str()));
    fields.push(escape(device.owner_app.as_str()));
    fields.push(escape(device.platform_identity.as_str()));
    fields.push(escape(device.device_path.as_str()));
    fields.push(decimal_string(device.preferred_video.width as u64));
    fields.push(decimal_string(device.preferred_video.height as u64));
    fields.push(decimal_string(device.preferred_video.fps_num as u64));
    fields.push(decimal_string(device.preferred_video.fps_den as u64));
    fields.push(decimal_string(device.preferred_video.format.number()));
    fields.push(decimal_string(device.producer_policy.number()));
    fields.push(bool_field(device.enabled));
    fields.push(bool_field(device.installed));
    fields.push(bool_field(device.visible_to_os));
    fields.push(bool_field(device.streaming));
    fields.push(decimal_string(device.last_frame_time_ns));
    fields.push(escape(device.last_error.as_str()));
    assert(string_texts(fields@) =~= device_fields(device@));
    join_fields(&fields, '\t')
}

fn is_one_field(f: &Vec<char>) -> (one: bool)
    ensures
        one == is_one(f@),
{
    f.len() == 1 && f[0] == '1'
}

pub fn parse_pixel_format(value: &str) -> (f: PixelFormat)
    ensures
        f == pixel_format_of(value@),
{
    let value = chars_of(value);
    if value.len() == 1 && value[0] == '1' {
        PixelFormat::Yuy2
    } else if value.len() == 1 && value[0] == '2' {
        PixelFormat::Bgra
    } else {
        PixelFormat::Nv12
    }
}

pub fn parse_producer_policy(value: &str) -> (p: ProducerPolicy)
    ensures
        p == producer_policy_of(value@),
{
    let value = chars_of(value);
    if value.len() == 1 && value[0] == '1' {
        ProducerPolicy::Takeover
    } else {
        ProducerPolicy::RejectSecond
    }
}

/// The device a line (given as characters) describes.
pub fn deserialize_chars(line: &[char]) -> (device: Option<DeviceInfo>)
    ensures
        match device {
            Some(d) => decode_device(line@) == Some(d@),
            None => decode_device(line@) is None,
        },
{
    let fields = split_chars(line, '\t');
    let ghost f = split_on(line@, '\t');
    assert(rows(fields@) == f);
    if fields.len() < 17 {
        return None;
    }
    proof {
        assert forall|i: int| 0 <= i < 17 implies fields@[i]@ == f[i] by {
            assert(rows(fields@)[i] == fields@[i]@);
        }
    }
    let w = parse_decimal(fields[5].as_slice(), u32::MAX as u64);
    let h = parse_decimal(fields[6].as_slice(), u32::MAX as u64);
    let n = parse_decimal(fields[7].as_slice(), u32::MAX as u64);
    let d = parse_decimal(fields[8].as_slice(), u32::MAX as u64);
    let t = parse_decimal(fields[15].as_slice(), u64::MAX);
    match (w, h, n, d, t) {
        (Some(w), Some(h), Some(n), Some(d), Some(t)) => {
            let id_text = string_of(fields[0].as_slice());
            let info = DeviceInfo {
                id: DeviceId::from_str_lossy(id_text.as_str()),
                display_name: unescape_chars(fields[1].as_slice()),
                owner_app: unescape_chars(fields[2].as_slice()),
                platform_identity: unescape_chars(fields[3].as_slice()),
                device_path: unescape_chars(fields[4].as_slice()),
                preferred_video: VideoDesc {
                    width: w as u32,
                    height: h as u32,
                    fps_num: n as u32,
                    fps_den: d as u32,
                    format: parse_pixel_format(string_of(fields[9].as_slice()).as_str()),
                },
                producer_policy: parse_producer_policy(string_of(fields[10].as_slice()).as_str()),
                enabled: is_one_field(&fields[11]),
                installed: is_one_field(&fields[12]),
                visible_to_os: is_one_field(&fields[13]),
                streaming: is_one_field(&fields[14]),
                last_frame_time_ns: t,
                last_error: unescape_chars(fields[16].as_slice()),
            };
            Some(info)
        },
        _ => None,
    }
}

/// The device a registry line describes, or `None` for a malformed line.
pub fn deserialize_device(line: &str) -> (device: Option<DeviceInfo>)
    ensures
        match device {
            Some(d) => decode_device(line@) == Some(d@),
            None => decode_device(line@) is None,
        },
{
    let v = chars_of(line);
    deserialize_chars(v.as_slice())
}

/// The devices described by a registry file's text; malformed lines are skipped.
pub fn parse_registry_text(text: &str) -> (devices: Vec<DeviceInfo>)
    ensures
        records(devices@) == parse_registry(text@),
{
    let v = chars_of(text);
    let lines = lines_of(v.as_slice());
    let ghost ls = text_lines(text@);
    let mut devices: Vec<DeviceInfo> = Vec::new();
    let mut i: usize = 0;
    proof {
        assert(ls.take(0) =~= Seq::<Seq<char>>::empty());
        assert(records(devices@) =~= Seq::<DeviceRecord>::empty());
    }
    while i < lines.len()
        invariant
            i <= lines.len(),
            rows(lines@) == ls,
            records(devices@) == decode_lines(ls.take(i as int)),
        decreases lines.len() - i,
    {
        let ghost before = devices@;
        proof {
            assert(rows(lines@)[i as int] == lines@[i as int]@);
            assert(ls.take(i + 1).drop_last() =~= ls.take(i as int));
            assert(ls.take(i + 1).last() == lines@[i as int]@);
        }
        match deserialize_chars(lines[i].as_slice()) {
            Some(d) => {
                devices.push(d);
                proof {
                    assert(records(devices@) =~= records(before).push(devices@[before.len() as int]@));
                }
            },
            None => {},
        }
        i = i + 1;
    }
    proof {
        assert(ls.take(lines.len() as int) =~= ls);
    }
    devices
}

/// The registry file's text for a list of devices.
pub fn render_registry_text(devices: &[DeviceInfo]) -> (text: String)
    ensures
        text@ == render_registry(records(devices@)),
{
    let mut out = String::new();
    let ghost recs = records(devices@);
    let mut i: usize = 0;
    proof {
        assert(recs.take(0) =~= Seq::<DeviceRecord>::empty());
    }
    while i < devices.len()
        invariant
            i <= devices.len(),
            recs == records(devices@),
            out@ == render_registry(recs.take(i as int)),
        decreases devices.len() - i,
    {
        let line = serialize_device(&devices[i]);
        push_str(&mut out, line.as_str());
        out.push('\n');
        proof {
            assert(recs.take(i + 1).drop_last() =~= recs.take(i as int));
            assert(recs.take(i + 1).last() == devices@[i as int]@);
        }
        i = i + 1;
    }
    proof {
        assert(recs.take(devices.len() as int) =~= recs);
    }
    out
}

// ---------------------------------------------------------------------------
// Reading back what was written
// ---------------------------------------------------------------------------

/// A device whose line reads back as the device: a canonical id whose text
/// holds no tab.
pub open spec fn line_storable(d: DeviceRecord) -> bool {
    &&& canonical_id(d.id)
    &&& !id_text(d.id).contains('\t')
}

/// A device that the registry file gives back unchanged: its line reads back
/// as the device, its id's text holds no line break, and its last error does
/// not end in a carriage return (a reader of lines would drop it).
pub open spec fn storable(d: DeviceRecord) -> bool {
    &&& line_storable(d)
    &&& !id_text(d.id).contains('\n')
    &&& !(d.last_error.len() > 0 && d.last_error.last() == '\r')
}

proof fn lemma_digits_free_of(s: Seq<char>, c: char)
    requires
        all_digits(s),
        !is_digit(c),
    ensures
        !s.contains(c),
{
    if s.contains(c) {
        let k = choose|k: int| 0 <= k < s.len() && s[k] == c;
        assert(is_digit(s[k]));
    }
}

proof fn lemma_decimal_free_of(n: nat, c: char)
    requires
        !is_digit(c),
    ensures
        !decimal(n).contains(c),
{
    lemma_decimal_digits(n);
    lemma_digits_free_of(decimal(n), c);
}

/// No field of a device holds a tab or a line break that its id's text
/// does not hold.
proof fn lemma_fields_free_of(d: DeviceRecord, c: char)
    requires
        !id_text(d.id).contains(c),
        c == '\t' || c == '\n',
    ensures
        forall|i: int| 0 <= i < 17 ==> !(#[trigger] device_fields(d)[i]).contains(c),
        device_fields(d).len() == 17,
{
    let f = device_fields(d);
    lemma_escape_has_no_separators(d.display_name);
    lemma_escape_has_no_separators(d.owner_app);
    lemma_escape_has_no_separators(d.platform_identity);
    lemma_escape_has_no_separators(d.device_path);
    lemma_escape_has_no_separators(d.last_error);
    lemma_decimal_free_of(d.preferred_video.width as nat, c);
    lemma_decimal_free_of(d.preferred_video.height as nat, c);
    lemma_decimal_free_of(d.preferred_video.fps_num as nat, c);
    lemma_decimal_free_of(d.preferred_video.fps_den as nat, c);
    lemma_decimal_free_of(pixel_format_number(d.preferred_video.format) as nat, c);
    lemma_decimal_free_of(producer_policy_number(d.producer_policy) as nat, c);
    lemma_decimal_free_of(d.last_frame_time_ns as nat, c);
    assert(!bool_text(d.enabled).contains(c));
    assert(!bool_text(d.installed).contains(c));
    assert(!bool_text(d.visible_to_os).contains(c));
    assert(!bool_text(d.streaming).contains(c));
}

proof fn lemma_small_decimal(n: nat)
    requires
        n < 10,
    ensures
        decimal(n) == seq![digit_char(n)],
{
}

/// Each column of a device's line holds one field, in the registry file's
/// order: id, display name, owner application, platform identity, device
/// path, width, height, frame-rate numerator and denominator, pixel format,
/// producer policy, enabled, installed, visible, streaming, last frame time,
/// last error; texts escaped, numbers in decimal, flags as `1` or `0`.
pub proof fn lemma_device_line_columns(d: DeviceRecord)
    requires
        !id_text(d.id).contains('\t'),
    ensures
        ({
            let f = split_on(device_line(d), '\t');
            &&& f.len() == 17
            &&& f[0] == id_text(d.id)
            &&& f[1] == escape_text(d.display_name)
            &&& f[2] == escape_text(d.owner_app)
            &&& f[3] == escape_text(d.platform_identity)
            &&& f[4] == escape_text(d.device_path)
            &&& f[5] == decimal(d.preferred_video.width as nat)
            &&& f[6] == decimal(d.preferred_video.height as nat)
            &&& f[7] == decimal(d.preferred_video.fps_num as nat)
            &&& f[8] == decimal(d.preferred_video.fps_den as nat)
            &&& f[9] == decimal(pixel_format_number(d.preferred_video.format) as nat)
            &&& f[10] == decimal(producer_policy_number(d.producer_policy) as nat)
            &&& f[11] == (if d.enabled { seq!['1'] } else { seq!['0'] })
            &&& f[12] == (if d.installed { seq!['1'] } else { seq!['0'] })
            &&& f[13] == (if d.visible_to_os { seq!['1'] } else { seq!['0'] })
            &&& f[14] == (if d.streaming { seq!['1'] } else { seq!['0'] })
            &&& f[15] == decimal(d.last_frame_time_ns as nat)
            &&& f[16] == escape_text(d.last_error)
        }),
{
    lemma_fields_free_of(d, '\t');
    lemma_split_join(device_fields(d), '\t');
    assert(bool_text(true) =~= seq!['1']);
    assert(bool_text(false) =~= seq!['0']);
}

/// A line that describes a device is read column by column in the registry
/// file's order: the texts unescaped from columns 1 to 4 and 16 (display
/// name, owner application, platform identity, device path, last error),
/// the numbers read from columns 5 to 8 and 15, the flags from 11 to 14.
pub proof fn lemma_decode_columns(line: Seq<char>)
    requires
        decode_device(line) is Some,
    ensures
        ({
            let f = split_on(line, '\t');
            let d = decode_device(line)->0;
            &&& f.len() >= 17
            &&& d.id == lossy_id_bytes(encode_utf8(f[0]))
            &&& d.display_name == unescape_text(f[1])
            &&& d.owner_app == unescape_text(f[2])
            &&& d.platform_identity == unescape_text(f[3])
            &&& d.device_path == unescape_text(f[4])
            &&& parse_unsigned(f[5], u32::MAX as nat) == Some(d.preferred_video.width as nat)
            &&& parse_unsigned(f[6], u32::MAX as nat) == Some(d.preferred_video.height as nat)
            &&& parse_unsigned(f[7], u32::MAX as nat) == Some(d.preferred_video.fps_num as nat)
            &&& parse_unsigned(f[8], u32::MAX as nat) == Some(d.preferred_video.fps_den as nat)
            &&& d.enabled == (f[11] =~= seq!['1'])
            &&& d.installed == (f[12] =~= seq!['1'])
            &&& d.visible_to_os == (f[13] =~= seq!['1'])
            &&& d.streaming == (f[14] =~= seq!['1'])
            &&& parse_unsigned(f[15], u64::MAX as nat) == Some(d.last_frame_time_ns as nat)
            &&& d.last_error == unescape_text(f[16])
        }),
{
    let f = split_on(line, '\t');
    assert(is_one(f[11]) == (f[11] =~= seq!['1']));
    assert(is_one(f[12]) == (f[12] =~= seq!['1']));
    assert(is_one(f[13]) == (f[13] =~= seq!['1']));
    assert(is_one(f[14]) == (f[14] =~= seq!['1']));
}

/// A device's line reads back as the device, whenever its id is canonical
/// and its text holds no tab.
pub proof fn lemma_decode_device_line(d: DeviceRecord)
    requires
        line_storable(d),
    ensures
        decode_device(device_line(d)) == Some(d),
{
    let fs = device_fields(d);
    lemma_fields_free_of(d, '\t');
    lemma_split_join(fs, '\t');
    let f = split_on(device_line(d), '\t');
    assert(f == fs);
    lemma_parse_decimal(d.preferred_video.width as nat, u32::MAX as nat);
    lemma_parse_decimal(d.preferred_video.height as nat, u32::MAX as nat);
    lemma_parse_decimal(d.preferred_video.fps_num as nat, u32::MAX as nat);
    lemma_parse_decimal(d.preferred_video.fps_den as nat, u32::MAX as nat);
    lemma_parse_decimal(d.last_frame_time_ns as nat, u64::MAX as nat);
    lemma_unescape_escape(d.display_name);
    lemma_unescape_escape(d.owner_app);
    lemma_unescape_escape(d.platform_identity);
    lemma_unescape_escape(d.device_path);
    lemma_unescape_escape(d.last_error);
    lemma_canonical_id_round_trip(d.id);
    lemma_small_decimal(pixel_format_number(d.preferred_video.format) as nat);
    lemma_small_decimal(producer_policy_number(d.producer_policy) as nat);
    assert(digit_char(0) == '0');
    assert(digit_char(1) == '1');
    assert(digit_char(2) == '2');
    assert(pixel_format_of(f[9]) == d.preferred_video.format);
    assert(producer_policy_of(f[10]) == d.producer_policy);
    assert(is_one(f[11]) == d.enabled);
    assert(is_one(f[12]) == d.installed);
    assert(is_one(f[13]) == d.visible_to_os);
    assert(is_one(f[14]) == d.streaming);
    let r = decode_device(device_line(d))->0;
    assert(r.preferred_video == d.preferred_video);
}

proof fn lemma_join_free_of(pieces: Seq<Seq<char>>, sep: char, c: char)
    requires
        sep != c,
        forall|i: int| 0 <= i < pieces.len() ==> !(#[trigger] pieces[i]).contains(c),
    ensures
        !join_with(pieces, sep).contains(c),
    decreases pieces.len(),
{
    if pieces.len() == 1 {
        assert(!pieces[0].contains(c));
    } else if pieces.len() > 1 {
        let front = pieces.drop_last();
        assert forall|i: int| 0 <= i < front.len() implies !(#[trigger] front[i]).contains(c) by {
            assert(front[i] == pieces[i]);
        }
        lemma_join_free_of(front, sep, c);
        let a = join_with(front, sep);
        let l = pieces.last();
        assert(!l.contains(c)) by {
            assert(l == pieces[pieces.len() - 1]);
        }
        let j = a + seq![sep] + l;
        assert(join_with(pieces, sep) == j);
        if j.contains(c) {
            let k = choose|k: int| 0 <= k < j.len() && j[k] == c;
            if k < a.len() {
                assert(a[k] == c);
            } else if k == a.len() {
            } else {
                assert(l[k - a.len() - 1] == c);
            }
        }
    }
}

proof fn lemma_join_last(pieces: Seq<Seq<char>>, sep: char)
    requires
        pieces.len() > 1,
    ensures
        join_with(pieces, sep).len() > 0,
        pieces.last().len() > 0 ==> join_with(pieces, sep).last() == pieces.last().last(),
        pieces.last().len() == 0 ==> join_with(pieces, sep).last() == sep,
{
    let a = join_with(pieces.drop_last(), sep);
    let l = pieces.last();
    let j = a + seq![sep] + l;
    assert(join_with(pieces, sep) == j);
    if l.len() > 0 {
        assert(j.last() == l[l.len() - 1]);
    } else {
        assert(j.last() == sep);
    }
}

/// A storable device's line holds no line break and does not end in a
/// carriage return.
pub proof fn lemma_device_line_is_one_line(d: DeviceRecord)
    requires
        storable(d),
    ensures
        !device_line(d).contains('\n'),
        !(device_line(d).len() > 0 && device_line(d).last() == '\r'),
{
    lemma_fields_free_of(d, '\n');
    lemma_join_free_of(device_fields(d), '\t', '\n');
    lemma_join_last(device_fields(d), '\t');
    lemma_escape_ends_with_cr(d.last_error);
}

/// The lines written for a list of devices.
pub open spec fn device_lines(devices: Seq<DeviceRecord>) -> Seq<Seq<char>> {
    Seq::new(devices.len(), |i: int| device_line(devices[i]))
}

proof fn lemma_render_scan(devices: Seq<DeviceRecord>)
    requires
        forall|i: int| 0 <= i < devices.len() ==> storable(#[trigger] devices[i]),
    ensures
        scan(render_registry(devices), '\n', true) == (device_lines(devices), Seq::<char>::empty()),
    decreases devices.len(),
{
    if devices.len() == 0 {
        assert(device_lines(devices) =~= Seq::<Seq<char>>::empty());
    } else {
        let front = devices.drop_last();
        assert forall|i: int| 0 <= i < front.len() implies storable(#[trigger] front[i]) by {
            assert(front[i] == devices[i]);
        }
        lemma_render_scan(front);
        let last = devices.last();
        assert(storable(last)) by {
            assert(last == devices[devices.len() - 1]);
        }
        lemma_device_line_is_one_line(last);
        lemma_lines_append(render_registry(front), device_line(last));
        assert(device_lines(front).push(device_line(last)) =~= device_lines(devices));
    }
}

proof fn lemma_decode_device_lines(devices: Seq<DeviceRecord>)
    requires
        forall|i: int| 0 <= i < devices.len() ==> storable(#[trigger] devices[i]),
    ensures
        decode_lines(device_lines(devices)) == devices,
    decreases devices.len(),
{
    if devices.len() == 0 {
        assert(device_lines(devices) =~= Seq::<Seq<char>>::empty());
        assert(devices =~= Seq::<DeviceRecord>::empty());
    } else {
        let front = devices.drop_last();
        assert forall|i: int| 0 <= i < front.len() implies storable(#[trigger] front[i]) by {
            assert(front[i] == devices[i]);
        }
        lemma_decode_device_lines(front);
        let last = devices.last();
        assert(storable(last)) by {
            assert(last == devices[devices.len() - 1]);
        }
        lemma_decode_device_line(last);
        let ls = device_lines(devices);
        assert(ls.drop_last() =~= device_lines(front));
        assert(ls.last() == device_line(last));
        assert(front.push(last) =~= devices);
    }
}

/// What the registry writes, it reads back: the devices parsed from the text
/// rendered for storable devices are those devices, in order.
pub proof fn lemma_registry_text_round_trip(devices: Seq<DeviceRecord>)
    requires
        forall|i: int| 0 <= i < devices.len() ==> storable(#[trigger] devices[i]),
    ensures
        parse_registry(render_registry(devices)) == devices,
{
    lemma_render_scan(devices);
    lemma_decode_device_lines(devices);
}

} // verus!
