//! Character-level helpers for the registry's line format: copying between
//! `str` and character vectors, the backslash escaping of free-text fields,
//! splitting on a separator, and decimal numbers.
use vstd::prelude::*;
use vstd::std_specs::iter::IteratorSpec;
use vstd::string::next_post;

verus! {

broadcast use vstd::string::group_string_axioms;

pub assume_specification[ String::push ](string: &mut String, ch: char)
    ensures
        final(string)@ == old(string)@.push(ch),
;

// ---------------------------------------------------------------------------
// Copying between strings and character vectors
// ---------------------------------------------------------------------------

/// The characters of `s`, in order.
pub fn chars_of(s: &str) -> (out: Vec<char>)
    ensures
        out@ == s@,
{
    let mut out: Vec<char> = Vec::new();
    let mut it = s.chars();
    let ghost all = s@;
    let ghost mut i: int = 0;
    loop
        invariant
            it.remaining() == all.skip(i),
            out@ == all.take(i),
            0 <= i <= all.len(),
            it.obeys_prophetic_iter_laws(),
        ensures
            out@ == all,
        decreases all.len() - i,
    {
        let ghost before = it;
        let r = it.next();
        proof {
            assert(next_post(&before, &it, r));
        }
        match r {
            Some(c) => {
                proof {
                    assert(before.remaining().len() > 0);
                    assert(before.remaining()[0] == all.skip(i)[0]);
                    assert(all.take(i + 1) =~= all.take(i).push(c));
                    assert(it.remaining() =~= all.skip(i + 1));
                    i = i + 1;
                }
                out.push(c);
            },
            None => {
                proof {
                    assert(before.remaining().len() == 0);
                    assert(all.take(i) =~= all);
                }
                break ;
            },
        }
    }
    out
}

/// A `String` holding exactly the characters of `v`.
pub fn string_of(v: &[char]) -> (out: String)
    ensures
        out@ == v@,
{
    let mut out = String::new();
    let mut i: usize = 0;
    while i < v.len()
        invariant
            i <= v.len(),
            out@ == v@.take(i as int),
        decreases v.len() - i,
    {
        proof {
            assert(v@.take(i + 1) =~= v@.take(i as int).push(v@[i as int]));
        }
        out.push(v[i]);
        i = i + 1;
    }
    proof {
        assert(v@.take(v.len() as int) =~= v@);
    }
    out
}

/// Appends the characters of `v` to `out`.
pub fn push_chars(out: &mut String, v: &[char])
    ensures
        final(out)@ == old(out)@ + v@,
{
    let mut i: usize = 0;
    while i < v.len()
        invariant
            i <= v.len(),
            out@ == old(out)@ + v@.take(i as int),
        decreases v.len() - i,
    {
        proof {
            assert(v@.take(i + 1) =~= v@.take(i as int).push(v@[i as int]));
        }
        out.push(v[i]);
        i = i + 1;
    }
    proof {
        assert(v@.take(v.len() as int) =~= v@);
    }
}

/// Appends the characters of `s` to `out`.
pub fn push_str(out: &mut String, s: &str)
    ensures
        final(out)@ == old(out)@ + s@,
{
    let v = chars_of(s);
    push_chars(out, v.as_slice());
}

// ---------------------------------------------------------------------------
// Escaping of free-text fields
// ---------------------------------------------------------------------------

/// How one character is written in an escaped field.
pub open spec fn escape_char(c: char) -> Seq<char> {
    if c == '\\' {
        seq!['\\', '\\']
    } else if c == '\t' {
        seq!['\\', 't']
    } else if c == '\n' {
        seq!['\\', 'n']
    } else {
        seq![c]
    }
}

/// A free-text field with backslash, tab and newline written as `\\`, `\t`, `\n`.
pub open spec fn escape_text(s: Seq<char>) -> Seq<char>
    decreases s.len(),
{
    if s.len() == 0 {
        seq![]
    } else {
        escape_char(s[0]) + escape_text(s.drop_first())
    }
}

/// What an escape sequence `\c` stands for; an unknown one is kept as written.
pub open spec fn unescape_pair(c: char) -> Seq<char> {
    if c == 't' {
        seq!['\t']
    } else if c == 'n' {
        seq!['\n']
    } else if c == '\\' {
        seq!['\\']
    } else {
        seq!['\\', c]
    }
}

/// Reading an escaped field back, left to right; a trailing lone backslash is kept.
pub open spec fn unescape_text(s: Seq<char>) -> Seq<char>
    decreases s.len(),
{
    if s.len() == 0 {
        seq![]
    } else if s[0] != '\\' {
        seq![s[0]] + unescape_text(s.drop_first())
    } else if s.len() == 1 {
        seq!['\\']
    } else {
        unescape_pair(s[1]) + unescape_text(s.skip(2))
    }
}

pub fn escape_chars(v: &[char]) -> (out: String)
    ensures
        out@ == escape_text(v@),
{
    let mut out = String::new();
    let mut i: usize = 0;
    proof {
        assert(v@.skip(0) =~= v@);
        assert(out@ + escape_text(v@) =~= escape_text(v@));
    }
    while i < v.len()
        invariant
            i <= v.len(),
            escape_text(v@) == out@ + escape_text(v@.skip(i as int)),
        decreases v.len() - i,
    {
        let c = v[i];
        proof {
            assert(v@.skip(i as int).drop_first() =~= v@.skip(i + 1));
        }
        if c == '\\' {
            out.push('\\');
            out.push('\\');
        } else if c == '\t' {
            out.push('\\');
            out.push('t');
        } else if c == '\n' {
            out.push('\\');
            out.push('n');
        } else {
            out.push(c);
        }
        i = i + 1;
    }
    proof {
        assert(v@.skip(v.len() as int) =~= Seq::<char>::empty());
        assert(out@ + Seq::<char>::empty() =~= out@);
    }
    out
}

pub fn unescape_chars(v: &[char]) -> (out: String)
    ensures
        out@ == unescape_text(v@),
{
    let mut out = String::new();
    let mut i: usize = 0;
    proof {
        assert(v@.skip(0) =~= v@);
        assert(out@ + unescape_text(v@) =~= unescape_text(v@));
    }
    while i < v.len()
        invariant
            i <= v.len(),
            unescape_text(v@) == out@ + unescape_text(v@.skip(i as int)),
        decreases v.len() - i,
    {
        let c = v[i];
        let ghost rest = v@.skip(i as int);
        if c != '\\' {
            proof {
                assert(rest.drop_first() =~= v@.skip(i + 1));
            }
            out.push(c);
            i = i + 1;
        } else if i + 1 == v.len() {
            proof {
                assert(rest.len() == 1);
                assert(v@.skip(i + 1) =~= Seq::<char>::empty());
            }
            out.push('\\');
            i = i + 1;
        } else {
            let d = v[i + 1];
            proof {
                assert(rest.skip(2) =~= v@.skip(i + 2));
                assert(rest[1] == d);
            }
            if d == 't' {
                out.push('\t');
            } else if d == 'n' {
                out.push('\n');
            } else if d == '\\' {
                out.push('\\');
            } else {
                out.push('\\');
                out.push(d);
            }
            i = i + 2;
        }
    }
    proof {
        assert(v@.skip(v.len() as int) =~= Seq::<char>::empty());
        assert(out@ + Seq::<char>::empty() =~= out@);
    }
    out
}

/// Writes a free-text field so that it holds no tab and no newline.
pub fn escape(value: &str) -> (out: String)
    ensures
        out@ == escape_text(value@),
{
    let v = chars_of(value);
    escape_chars(v.as_slice())
}

/// Reads back a field written by `escape`.
pub fn unescape(value: &str) -> (out: String)
    ensures
        out@ == unescape_text(value@),
{
    let v = chars_of(value);
    unescape_chars(v.as_slice())
}

/// Reading back what was escaped gives the original text.
pub proof fn lemma_unescape_escape(s: Seq<char>)
    ensures
        unescape_text(escape_text(s)) == s,
    decreases s.len(),
{
    if s.len() > 0 {
        let c = s[0];
        let rest = escape_text(s.drop_first());
        lemma_unescape_escape(s.drop_first());
        let e = escape_char(c) + rest;
        assert(escape_text(s) == e);
        if c == '\\' || c == '\t' || c == '\n' {
            assert(e[0] == '\\');
            assert(e.skip(2) =~= rest);
        } else {
            assert(e.drop_first() =~= rest);
        }
        assert(s =~= seq![c] + s.drop_first());
    }
}

/// An escaped field holds no tab and no newline.
pub proof fn lemma_escape_has_no_separators(s: Seq<char>)
    ensures
        !escape_text(s).contains('\t'),
        !escape_text(s).contains('\n'),
    decreases s.len(),
{
    if s.len() > 0 {
        lemma_escape_has_no_separators(s.drop_first());
        let e = escape_text(s);
        let a = escape_char(s[0]);
        let b = escape_text(s.drop_first());
        assert(e == a + b);
        assert forall|k: int| 0 <= k < e.len() implies e[k] != '\t' && e[k] != '\n' by {
            if k < a.len() {
            } else {
                assert(e[k] == b[k - a.len()]);
            }
        }
    }
}

/// Escaping keeps the last character unless it is backslash, tab or newline.
pub proof fn lemma_escape_last(s: Seq<char>)
    requires
        s.len() > 0,
        s.last() != '\\',
        s.last() != '\t',
        s.last() != '\n',
    ensures
        escape_text(s).len() > 0,
        escape_text(s).last() == s.last(),
    decreases s.len(),
{
    if s.len() == 1 {
        assert(s.drop_first() =~= Seq::<char>::empty());
        assert(escape_text(s.drop_first()) =~= Seq::<char>::empty());
        assert(escape_text(s) =~= seq![s[0]]);
    } else {
        lemma_escape_last(s.drop_first());
        assert(s.drop_first().last() == s.last());
    }
}

/// An escaped field ends with a backslash or `t`/`n` only where the text ends
/// with one of the escaped characters; in particular it ends with a carriage
/// return exactly when the text does.
pub proof fn lemma_escape_ends_with_cr(s: Seq<char>)
    ensures
        (escape_text(s).len() > 0 && escape_text(s).last() == '\r') <==> (s.len() > 0
            && s.last() == '\r'),
    decreases s.len(),
{
    if s.len() > 0 {
        if s.last() != '\\' && s.last() != '\t' && s.last() != '\n' {
            lemma_escape_last(s);
        } else {
            lemma_escape_tail(s);
        }
    }
}

/// The last character of an escaped field whose text ends in an escaped
/// character is that escape's second character.
pub proof fn lemma_escape_tail(s: Seq<char>)
    requires
        s.len() > 0,
    ensures
        escape_text(s).len() >= escape_char(s.last()).len(),
        escape_text(s).last() == escape_char(s.last()).last(),
    decreases s.len(),
{
    if s.len() == 1 {
        assert(s.drop_first() =~= Seq::<char>::empty());
        assert(escape_text(s.drop_first()) =~= Seq::<char>::empty());
        assert(escape_char(s[0]) + Seq::<char>::empty() =~= escape_char(s[0]));
        assert(escape_text(s) =~= escape_char(s[0]));
    } else {
        lemma_escape_tail(s.drop_first());
        assert(s.drop_first().last() == s.last());
    }
}

// ---------------------------------------------------------------------------
// Splitting on a separator
// ---------------------------------------------------------------------------

/// Drops one trailing carriage return.
pub open spec fn strip_cr(s: Seq<char>) -> Seq<char> {
    if s.len() > 0 && s.last() == '\r' {
        s.drop_last()
    } else {
        s
    }
}

/// One step of a left-to-right scan: the pieces closed so far and the open one.
pub open spec fn scan_step(
    st: (Seq<Seq<char>>, Seq<char>),
    c: char,
    sep: char,
    strip: bool,
) -> (Seq<Seq<char>>, Seq<char>) {
    if c == sep {
        (st.0.push(if strip { strip_cr(st.1) } else { st.1 }), seq![])
    } else {
        (st.0, st.1.push(c))
    }
}

/// The scan of `s` from state `st`.
pub open spec fn scan_from(
    st: (Seq<Seq<char>>, Seq<char>),
    s: Seq<char>,
    sep: char,
    strip: bool,
) -> (Seq<Seq<char>>, Seq<char>)
    decreases s.len(),
{
    if s.len() == 0 {
        st
    } else {
        scan_step(scan_from(st, s.drop_last(), sep, strip), s.last(), sep, strip)
    }
}

pub open spec fn scan(s: Seq<char>, sep: char, strip: bool) -> (Seq<Seq<char>>, Seq<char>) {
    scan_from((seq![], seq![]), s, sep, strip)
}

/// The pieces of `s` between separators `sep`: one more than there are separators.
pub open spec fn split_on(s: Seq<char>, sep: char) -> Seq<Seq<char>> {
    let st = scan(s, sep, false);
    st.0.push(st.1)
}

/// The lines of a text: split at `\n`, a `\r` before a `\n` dropped, and no
/// empty last line after a final line break.
pub open spec fn text_lines(s: Seq<char>) -> Seq<Seq<char>> {
    let st = scan(s, '\n', true);
    if st.1.len() == 0 {
        st.0
    } else {
        st.0.push(st.1)
    }
}

/// The pieces joined with `sep` between them.
pub open spec fn join_with(pieces: Seq<Seq<char>>, sep: char) -> Seq<char>
    decreases pieces.len(),
{
    if pieces.len() == 0 {
        seq![]
    } else if pieces.len() == 1 {
        pieces[0]
    } else {
        join_with(pieces.drop_last(), sep) + seq![sep] + pieces.last()
    }
}

pub proof fn lemma_scan_from_concat(
    st: (Seq<Seq<char>>, Seq<char>),
    x: Seq<char>,
    y: Seq<char>,
    sep: char,
    strip: bool,
)
    ensures
        scan_from(st, x + y, sep, strip) == scan_from(scan_from(st, x, sep, strip), y, sep, strip),
    decreases y.len(),
{
    if y.len() == 0 {
        assert(x + y =~= x);
    } else {
        lemma_scan_from_concat(st, x, y.drop_last(), sep, strip);
        assert((x + y).drop_last() =~= x + y.drop_last());
        assert((x + y).last() == y.last());
    }
}

/// Scanning text without a separator only extends the open piece.
pub proof fn lemma_scan_no_sep(st: (Seq<Seq<char>>, Seq<char>), y: Seq<char>, sep: char, strip: bool)
    requires
        !y.contains(sep),
    ensures
        scan_from(st, y, sep, strip) == (st.0, st.1 + y),
    decreases y.len(),
{
    if y.len() == 0 {
        assert(st.1 + y =~= st.1);
    } else {
        assert(!y.drop_last().contains(sep)) by {
            if y.drop_last().contains(sep) {
                let k = choose|k: int| 0 <= k < y.drop_last().len() && y.drop_last()[k] == sep;
                assert(y[k] == sep);
            }
        }
        lemma_scan_no_sep(st, y.drop_last(), sep, strip);
        assert(y[y.len() - 1] != sep);
        assert(st.1 + y =~= (st.1 + y.drop_last()).push(y.last()));
    }
}

/// Splitting joined pieces gives the pieces back, when none holds the separator.
pub proof fn lemma_split_join(pieces: Seq<Seq<char>>, sep: char)
    requires
        pieces.len() > 0,
        forall|i: int| 0 <= i < pieces.len() ==> !(#[trigger] pieces[i]).contains(sep),
    ensures
        split_on(join_with(pieces, sep), sep) == pieces,
        scan(join_with(pieces, sep), sep, false) == (pieces.drop_last(), pieces.last()),
    decreases pieces.len(),
{
    let init: (Seq<Seq<char>>, Seq<char>) = (seq![], seq![]);
    let last = pieces.last();
    assert(!last.contains(sep)) by {
        assert(last == pieces[pieces.len() - 1]);
    }
    if pieces.len() == 1 {
        lemma_scan_no_sep(init, last, sep, false);
        let st = scan(join_with(pieces, sep), sep, false);
        assert(join_with(pieces, sep) == last);
        assert(st.0 =~= pieces.drop_last());
        assert(st.1 =~= last);
        assert(st.0.push(st.1) =~= pieces);
    } else {
        let front = pieces.drop_last();
        assert forall|i: int| 0 <= i < front.len() implies !(#[trigger] front[i]).contains(sep) by {
            assert(front[i] == pieces[i]);
        }
        lemma_split_join(front, sep);
        let j = join_with(front, sep);
        assert(join_with(pieces, sep) == j + seq![sep] + last);
        let st1 = scan(j, sep, false);
        assert(st1.0 == front.drop_last() && st1.1 == front.last());
        lemma_scan_from_concat(init, j, seq![sep], sep, false);
        lemma_scan_single(st1, sep, sep, false);
        let st2 = scan(j + seq![sep], sep, false);
        assert(st2.0 =~= front);
        assert(st2.1 =~= Seq::<char>::empty());
        lemma_scan_from_concat(init, j + seq![sep], last, sep, false);
        lemma_scan_no_sep(st2, last, sep, false);
        let st3 = scan(j + seq![sep] + last, sep, false);
        assert(st3.0 =~= front);
        assert(st3.1 =~= last);
        assert(st3.0.push(st3.1) =~= pieces);
    }
}

proof fn lemma_scan_single(st: (Seq<Seq<char>>, Seq<char>), c: char, sep: char, strip: bool)
    ensures
        scan_from(st, seq![c], sep, strip) == scan_step(st, c, sep, strip),
{
    assert(seq![c].drop_last() =~= Seq::<char>::empty());
    assert(scan_from(st, seq![c].drop_last(), sep, strip) == st);
    assert(seq![c].last() == c);
}

/// The lines of `prefix` followed by one more line and a line break are the
/// lines of `prefix` and that line, when `prefix` ends at a line boundary.
pub proof fn lemma_lines_append(prefix: Seq<char>, line: Seq<char>)
    requires
        scan(prefix, '\n', true).1.len() == 0,
        !line.contains('\n'),
        !(line.len() > 0 && line.last() == '\r'),
    ensures
        scan(prefix + line + seq!['\n'], '\n', true) == (scan(prefix, '\n', true).0.push(line), Seq::<char>::empty()),
{
    let init: (Seq<Seq<char>>, Seq<char>) = (seq![], seq![]);
    let st = scan(prefix, '\n', true);
    lemma_scan_from_concat(init, prefix + line, seq!['\n'], '\n', true);
    lemma_scan_from_concat(init, prefix, line, '\n', true);
    lemma_scan_no_sep(st, line, '\n', true);
    assert(st.1 + line =~= line);
    let mid = scan_from(init, prefix + line, '\n', true);
    assert(mid == (st.0, line));
    lemma_scan_single(mid, '\n', '\n', true);
    assert(strip_cr(line) == line);
}

/// The character sequences held by a vector of character vectors.
pub open spec fn rows(v: Seq<Vec<char>>) -> Seq<Seq<char>> {
    Seq::new(v.len(), |i: int| v[i]@)
}

/// Splits `v` at every `sep`; with `strip`, a carriage return before a
/// separator is dropped from the piece it closes.
pub fn scan_chars(v: &[char], sep: char, strip: bool) -> (res: (Vec<Vec<char>>, Vec<char>))
    ensures
        (rows(res.0@), res.1@) == scan(v@, sep, strip),
{
    let mut done: Vec<Vec<char>> = Vec::new();
    let mut cur: Vec<char> = Vec::new();
    let mut i: usize = 0;
    proof {
        assert(v@.take(0) =~= Seq::<char>::empty());
        assert(rows(done@) =~= Seq::<Seq<char>>::empty());
    }
    while i < v.len()
        invariant
            i <= v.len(),
            (rows(done@), cur@) == scan(v@.take(i as int), sep, strip),
        decreases v.len() - i,
    {
        let c = v[i];
        proof {
            assert(v@.take(i + 1).drop_last() =~= v@.take(i as int));
            assert(v@.take(i + 1).last() == c);
        }
        if c == sep {
            let ghost old_done = rows(done@);
            let ghost old_cur = cur@;
            if strip && cur.len() > 0 && cur[cur.len() - 1] == '\r' {
                cur.pop();
                assert(cur@ =~= strip_cr(old_cur));
            }
            let piece = cur;
            done.push(piece);
            cur = Vec::new();
            proof {
                assert(rows(done@) =~= old_done.push(
                    if strip { strip_cr(old_cur) } else { old_cur },
                ));
                assert(cur@ =~= Seq::<char>::empty());
            }
        } else {
            cur.push(c);
        }
        i = i + 1;
    }
    proof {
        assert(v@.take(v.len() as int) =~= v@);
    }
    (done, cur)
}

/// The pieces of `v` between separators `sep`.
pub fn split_chars(v: &[char], sep: char) -> (res: Vec<Vec<char>>)
    ensures
        rows(res@) == split_on(v@, sep),
{
    let (mut done, cur) = scan_chars(v, sep, false);
    let ghost d = rows(done@);
    let ghost c = cur@;
    done.push(cur);
    proof {
        assert(rows(done@) =~= d.push(c));
    }
    done
}

/// The lines of `v`, as `str::lines` reads them.
pub fn lines_of(v: &[char]) -> (res: Vec<Vec<char>>)
    ensures
        rows(res@) == text_lines(v@),
{
    let (mut done, cur) = scan_chars(v, '\n', true);
    if cur.len() > 0 {
        let ghost d = rows(done@);
        let ghost c = cur@;
        done.push(cur);
        proof {
            assert(rows(done@) =~= d.push(c));
        }
    }
    done
}

// ---------------------------------------------------------------------------
// Decimal numbers
// ---------------------------------------------------------------------------

pub open spec fn digit_char(d: nat) -> char {
    (d + 48) as char
}

pub open spec fn is_digit(c: char) -> bool {
    '0' <= c && c <= '9'
}

pub open spec fn digit_value(c: char) -> nat {
    (c as int - 48) as nat
}

/// The decimal digits of `n`, most significant first, without leading zeros.
pub open spec fn decimal(n: nat) -> Seq<char>
    decreases n,
{
    if n < 10 {
        seq![digit_char(n)]
    } else {
        decimal(n / 10).push(digit_char(n % 10))
    }
}

/// The number that a run of decimal digits denotes.
pub open spec fn digits_value(s: Seq<char>) -> nat
    decreases s.len(),
{
    if s.len() == 0 {
        0
    } else {
        digits_value(s.drop_last()) * 10 + digit_value(s.last())
    }
}

pub open spec fn all_digits(s: Seq<char>) -> bool {
    forall|i: int| 0 <= i < s.len() ==> is_digit(#[trigger] s[i])
}

/// The digits after an optional leading `+`.
pub open spec fn unsigned_digits(s: Seq<char>) -> Seq<char> {
    if s.len() > 0 && s[0] == '+' {
        s.drop_first()
    } else {
        s
    }
}

/// An unsigned integer of at most `max` as `str::parse` reads it: an optional
/// `+`, then one or more decimal digits and nothing else.
pub open spec fn parse_unsigned(s: Seq<char>, max: nat) -> Option<nat> {
    let d = unsigned_digits(s);
    if d.len() > 0 && all_digits(d) && digits_value(d) <= max {
        Some(digits_value(d))
    } else {
        None
    }
}

proof fn lemma_digits_value_prefix(s: Seq<char>, k: int)
    requires
        0 <= k <= s.len(),
    ensures
        digits_value(s.take(k)) <= digits_value(s),
    decreases s.len(),
{
    if k < s.len() {
        lemma_digits_value_prefix(s.drop_last(), k);
        assert(s.drop_last().take(k) =~= s.take(k));
    } else {
        assert(s.take(k) =~= s);
    }
}

/// Appends the decimal digits of `v` to `out`.
pub fn push_decimal(out: &mut String, v: u64)
    ensures
        final(out)@ == old(out)@ + decimal(v as nat),
    decreases v,
{
    if v >= 10 {
        push_decimal(out, v / 10);
    }
    let d: u8 = (v % 10) as u8;
    let c = (d + 48) as char;
    out.push(c);
    proof {
        if v >= 10 {
            assert(old(out)@ + decimal((v / 10) as nat) + seq![c] =~= old(out)@ + decimal(v as nat));
        } else {
            assert(old(out)@.push(c) =~= old(out)@ + decimal(v as nat));
        }
    }
}

/// The decimal text of `v`.
pub fn decimal_string(v: u64) -> (out: String)
    ensures
        out@ == decimal(v as nat),
{
    let mut out = String::new();
    push_decimal(&mut out, v);
    assert(Seq::<char>::empty() + decimal(v as nat) =~= decimal(v as nat));
    out
}

/// Reads an unsigned integer of at most `max`, as `str::parse` does.
pub fn parse_decimal(v: &[char], max: u64) -> (res: Option<u64>)
    ensures
        match res {
            Some(n) => parse_unsigned(v@, max as nat) == Some(n as nat),
            None => parse_unsigned(v@, max as nat) is None,
        },
{
    let start: usize = if v.len() > 0 && v[0] == '+' {
        1
    } else {
        0
    };
    let ghost d = unsigned_digits(v@);
    proof {
        assert(d =~= v@.skip(start as int));
    }
    if start == v.len() {
        proof {
            assert(d.len() == 0);
        }
        return None;
    }
    let mut acc: u64 = 0;
    let mut i: usize = start;
    while i < v.len()
        invariant
            start <= i <= v.len(),
            start < v.len(),
            d == v@.skip(start as int),
            d == unsigned_digits(v@),
            all_digits(d.take(i - start)),
            acc as nat == digits_value(d.take(i - start)),
            acc <= max,
        decreases v.len() - i,
    {
        let c = v[i];
        let ghost k: int = i - start;
        proof {
            assert(d[k] == c);
            assert(d.take(k + 1).drop_last() =~= d.take(k));
            assert(d.take(k + 1).last() == c);
        }
        if c < '0' || c > '9' {
            proof {
                assert(!is_digit(d[k]));
                assert(!all_digits(d));
                assert(parse_unsigned(v@, max as nat) is None);
            }
            return None;
        }
        let digit: u64 = (c as u32 - 48) as u64;
        assert(digit == digit_value(c));
        if digit > max || acc > (max - digit) / 10 {
            proof {
                if digit <= max {
                    assert(acc * 10 + digit > max) by (nonlinear_arith)
                        requires
                            acc > (max - digit) / 10,
                            digit <= max,
                    ;
                }
                if all_digits(d) {
                    lemma_digits_value_prefix(d, k + 1);
                    assert(digits_value(d.take(k + 1)) == digits_value(d.take(k)) * 10 + digit_value(c));
                }
                assert(parse_unsigned(v@, max as nat) is None);
            }
            return None;
        }
        proof {
            assert(acc * 10 + digit <= max) by (nonlinear_arith)
                requires
                    acc <= (max - digit) / 10,
                    digit <= max,
            ;
            assert(all_digits(d.take(k + 1))) by {
                assert forall|j: int| 0 <= j < k + 1 implies is_digit(#[trigger] d.take(k + 1)[j]) by {
                    if j < k {
                        assert(d.take(k + 1)[j] == d.take(k)[j]);
                    }
                }
            }
        }
        acc = acc * 10 + digit;
        i = i + 1;
    }
    proof {
        assert(d.take(i - start) =~= d);
    }
    Some(acc)
}

/// A decimal number reads back as itself.
pub proof fn lemma_parse_decimal(n: nat, max: nat)
    requires
        n <= max,
    ensures
        parse_unsigned(decimal(n), max) == Some(n),
{
    lemma_decimal_digits(n);
    assert(decimal(n)[0] != '+');
}

/// The decimal text of `n` is a nonempty run of digits denoting `n`.
pub proof fn lemma_decimal_digits(n: nat)
    ensures
        decimal(n).len() > 0,
        all_digits(decimal(n)),
        digits_value(decimal(n)) == n,
        is_digit(decimal(n)[0]),
    decreases n,
{
    assert(digit_value(digit_char(n % 10)) == n % 10);
    if n >= 10 {
        lemma_decimal_digits(n / 10);
        let s = decimal(n);
        assert(s.last() == digit_char(n % 10));
        assert(s.drop_last() =~= decimal(n / 10));
        assert(digits_value(s) == digits_value(decimal(n / 10)) * 10 + n % 10);
        assert(n == (n / 10) * 10 + n % 10);
        assert(s.drop_last() =~= decimal(n / 10));
        assert forall|i: int| 0 <= i < s.len() implies is_digit(#[trigger] s[i]) by {
            if i < s.len() - 1 {
                assert(s[i] == decimal(n / 10)[i]);
            }
        }
        assert(s[0] == decimal(n / 10)[0]);
    } else {
        let s = decimal(n);
        assert(s.drop_last() =~= Seq::<char>::empty());
        assert(digits_value(s.drop_last()) == 0);
        assert(s.last() == digit_char(n));
        assert(n % 10 == n);
    }
}

} // verus!
