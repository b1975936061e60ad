//! Lyrics: synced LRC text and plain text, line by line.
use vstd::prelude::*;

use crate::text::{
    chars_of, decimal, find_char, find_in_range, is_digit, lemma_decimal_digits, lemma_find_first,
    lemma_find_from_range, lemma_parse_decimal, line_bounds, lines_spec, parse_u64_range, parse_u64_spec,
    pieces, string_from_range, trim_bounds, trim_spec,
};
use crate::catalog::CatalogError;
use crate::types::MonoEvent;

verus! {

/// `a * b` wrapping around at 2^64, as release builds compute it.
pub open spec fn wmul(a: u64, b: u64) -> u64 {
    vstd::wrapping::u64_specs::wrapping_mul(a, b)
}

/// `a + b` wrapping around at 2^64, as release builds compute it.
pub open spec fn wadd(a: u64, b: u64) -> u64 {
    vstd::wrapping::u64_specs::wrapping_add(a, b)
}

/// A timestamp `MM:SS.cc` in milliseconds: minutes before the first `:`,
/// seconds up to the first `.` after it, and centiseconds after that dot (a
/// missing or unreadable centisecond part counts as 0). No value unless the
/// minutes and seconds parse.
pub open spec fn lrc_timestamp_spec(s: Seq<char>) -> Option<u64> {
    match find_char(s, ':') {
        None => None,
        Some(c) => match parse_u64_spec(s.take(c)) {
            None => None,
            Some(mm) => {
                let rest = s.skip(c + 1);
                let (ss_s, cc_s) = match find_char(rest, '.') {
                    Some(d) => (rest.take(d), rest.skip(d + 1)),
                    None => (rest, seq!['0']),
                };
                match parse_u64_spec(ss_s) {
                    None => None,
                    Some(ss) => {
                        let cc = match parse_u64_spec(cc_s) {
                            Some(x) => x,
                            None => 0,
                        };
                        Some(wadd(wadd(wmul(mm, 60000), wmul(ss, 1000)), wmul(cc, 10)))
                    },
                }
            },
        },
    }
}

/// What one LRC line becomes once trimmed: a `[timestamp] text` line gives
/// the parsed timestamp and the trimmed text after `]` (no line when `]` is
/// missing); any other non-empty line is unsynced text; empty lines give nothing.
pub open spec fn lrc_line_spec(line: Seq<char>) -> Option<(Option<u64>, Seq<char>)> {
    let t = trim_spec(line);
    if t.len() > 0 && t[0] == '[' {
        match find_char(t, ']') {
            None => None,
            Some(close) => Some((lrc_timestamp_spec(t.subrange(1, close)), trim_spec(t.skip(close + 1)))),
        }
    } else if t.len() > 0 {
        Some((None, t))
    } else {
        None
    }
}

/// The lyric lines of an LRC text, in order.
pub open spec fn parse_lrc_spec(text: Seq<char>) -> Seq<(Option<u64>, Seq<char>)> {
    lines_spec(text).filter_map(|l: Seq<char>| lrc_line_spec(l))
}

/// Whether `e` is the lyric line `(timestamp, text)`.
pub open spec fn is_lyric(e: MonoEvent, line: (Option<u64>, Seq<char>)) -> bool {
    match e {
        MonoEvent::LyricLine { timestamp_ms, text } => timestamp_ms == line.0 && text@ == line.1,
        _ => false,
    }
}

/// Parse the timestamp in `v[from..to]` (see `lrc_timestamp_spec`).
pub fn parse_lrc_timestamp_range(v: &Vec<char>, from: usize, to: usize) -> (r: Option<u64>)
    requires
        from <= to <= v.len(),
    ensures
        r == lrc_timestamp_spec(v@.subrange(from as int, to as int)),
{
    let ghost s = v@.subrange(from as int, to as int);
    let colon = match find_in_range(v, from, to, ':') {
        Some(c) => c,
        None => {
            return None;
        },
    };
    proof {
        crate::text::lemma_find_from_range(s, ':', 0);
        assert(s.take(colon as int) == v@.subrange(from as int, from + colon));
    }
    let mm = match parse_u64_range(v, from, from + colon) {
        Some(x) => x,
        None => {
            return None;
        },
    };
    let rest_from = from + colon + 1;
    let ghost rest = s.skip(colon + 1);
    assert(rest == v@.subrange(rest_from as int, to as int));
    let (ss, cc) = match find_in_range(v, rest_from, to, '.') {
        Some(d) => {
            proof {
                crate::text::lemma_find_from_range(rest, '.', 0);
                assert(rest.take(d as int) == v@.subrange(rest_from as int, rest_from + d));
                assert(rest.skip(d + 1) == v@.subrange(rest_from + d + 1, to as int));
            }
            (parse_u64_range(v, rest_from, rest_from + d), parse_u64_range(v, rest_from + d + 1, to))
        },
        None => {
            let zero = chars_of("0");
            proof {
                reveal_strlit("0");
                assert(zero@.subrange(0, 1) == seq!['0']);
            }
            (parse_u64_range(v, rest_from, to), parse_u64_range(&zero, 0, 1))
        },
    };
    let ss = match ss {
        Some(x) => x,
        None => {
            return None;
        },
    };
    let cc = match cc {
        Some(x) => x,
        None => 0,
    };
    Some(mm.wrapping_mul(60000).wrapping_add(ss.wrapping_mul(1000)).wrapping_add(cc.wrapping_mul(10)))
}

/// Parse "MM:SS.cc" into milliseconds (see `lrc_timestamp_spec`).
pub fn parse_lrc_timestamp(s: &str) -> (r: Option<u64>)
    ensures
        r == lrc_timestamp_spec(s@),
{
    let v = chars_of(s);
    assert(v@.subrange(0, v@.len() as int) == v@);
    parse_lrc_timestamp_range(&v, 0, v.len())
}

/// The lyric line of `v[from..to]` (see `lrc_line_spec`).
fn lrc_line(v: &Vec<char>, from: usize, to: usize) -> (r: Option<MonoEvent>)
    requires
        from <= to <= v.len(),
    ensures
        match lrc_line_spec(v@.subrange(from as int, to as int)) {
            Some(l) => r matches Some(e) && is_lyric(e, l),
            None => r is None,
        },
{
    let (a, b) = trim_bounds(v, from, to);
    let ghost t = v@.subrange(a as int, b as int);
    if a < b && v[a] == '[' {
        match find_in_range(v, a, b, ']') {
            None => None,
            Some(close) => {
                proof {
                    crate::text::lemma_find_from_range(t, ']', 0);
                    assert(t.subrange(1, close as int) == v@.subrange(a + 1, a + close));
                    assert(t.skip(close + 1) == v@.subrange(a + close + 1, b as int));
                }
                let ts = parse_lrc_timestamp_range(v, a + 1, a + close);
                let (ta, tb) = trim_bounds(v, a + close + 1, b);
                let text = string_from_range(v, ta, tb);
                Some(MonoEvent::LyricLine { timestamp_ms: ts, text })
            },
        }
    } else if a < b {
        Some(MonoEvent::LyricLine { timestamp_ms: None, text: string_from_range(v, a, b) })
    } else {
        None
    }
}

/// Parse LRC lyrics (`[MM:SS.cc] text` per line) into lyric line events
/// (see `parse_lrc_spec`).
pub fn parse_lrc(lrc: &str) -> (r: Vec<MonoEvent>)
    ensures
        r@.len() == parse_lrc_spec(lrc@).len(),
        forall|k: int| 0 <= k < r@.len() ==> is_lyric(#[trigger] r@[k], parse_lrc_spec(lrc@)[k]),
{
    let v = chars_of(lrc);
    let bounds = line_bounds(&v);
    let ghost lines = lines_spec(v@);
    let ghost f = |l: Seq<char>| lrc_line_spec(l);
    let mut out: Vec<MonoEvent> = Vec::new();
    let mut i: usize = 0;
    while i < bounds.len()
        invariant
            i <= bounds@.len(),
            v@ == lrc@,
            pieces(v@, bounds@) == lines,
            lines == lines_spec(v@),
            f == (|l: Seq<char>| lrc_line_spec(l)),
            forall|k: int| 0 <= k < bounds@.len() ==> (#[trigger] bounds@[k]).0 <= bounds@[k].1 <= v@.len(),
            out@.len() == lines.take(i as int).filter_map(f).len(),
            forall|k: int| 0 <= k < out@.len() ==> is_lyric(#[trigger] out@[k], lines.take(i as int).filter_map(f)[k]),
        decreases bounds@.len() - i,
    {
        let (from, to) = bounds[i];
        let e = lrc_line(&v, from, to);
        proof {
            assert(lines[i as int] == v@.subrange(from as int, to as int));
            lines.lemma_filter_map_take_succ(f, i as int);
        }
        match e {
            Some(ev) => {
                out.push(ev);
            },
            None => {},
        }
        i = i + 1;
    }
    proof {
        assert(lines.take(i as int) == lines);
    }
    out
}

/// Plain (unsynced) lyrics: one line event per line of the text, without timestamps.
pub fn plain_lyrics(text: &str) -> (r: Vec<MonoEvent>)
    ensures
        r@.len() == lines_spec(text@).len(),
        forall|k: int| 0 <= k < r@.len() ==> is_lyric(#[trigger] r@[k], (None, lines_spec(text@)[k])),
{
    let v = chars_of(text);
    let bounds = line_bounds(&v);
    let mut out: Vec<MonoEvent> = Vec::new();
    let mut i: usize = 0;
    while i < bounds.len()
        invariant
            i <= bounds@.len(),
            v@ == text@,
            pieces(v@, bounds@) == lines_spec(v@),
            forall|k: int| 0 <= k < bounds@.len() ==> (#[trigger] bounds@[k]).0 <= bounds@[k].1 <= v@.len(),
            out@.len() == i,
            forall|k: int| 0 <= k < i ==> is_lyric(#[trigger] out@[k], (None, lines_spec(text@)[k])),
        decreases bounds@.len() - i,
    {
        let (from, to) = bounds[i];
        proof {
            assert(lines_spec(v@)[i as int] == v@.subrange(from as int, to as int));
        }
        out.push(MonoEvent::LyricLine { timestamp_ms: None, text: string_from_range(&v, from, to) });
        i = i + 1;
    }
    out
}


/// The lyric fields of a lyrics response.
pub struct RawLyrics {
    /// Synced lyrics in LRC format.
    pub subtitles: Option<String>,
    /// Plain lyrics text.
    pub plain: Option<String>,
}

/// A lyrics response: synced lyrics when present (see `parse_lrc`), else the
/// plain text line by line (see `plain_lyrics`); fails when neither is present.
pub fn lyrics(raw: &RawLyrics) -> (r: Result<Vec<MonoEvent>, CatalogError>)
    ensures
        match (raw.subtitles, raw.plain) {
            (Some(lrc), _) => r matches Ok(v) && v@.len() == parse_lrc_spec(lrc@).len()
                && forall|k: int| 0 <= k < v@.len() ==> is_lyric(#[trigger] v@[k], parse_lrc_spec(lrc@)[k]),
            (None, Some(text)) => r matches Ok(v) && v@.len() == lines_spec(text@).len()
                && forall|k: int| 0 <= k < v@.len() ==> is_lyric(#[trigger] v@[k], (None, lines_spec(text@)[k])),
            (None, None) => r matches Err(CatalogError::NoLyrics),
        },
{
    match &raw.subtitles {
        Some(lrc) => Ok(parse_lrc(lrc.as_str())),
        None => match &raw.plain {
            Some(text) => Ok(plain_lyrics(text.as_str())),
            None => Err(CatalogError::NoLyrics),
        },
    }
}

/// Wrapping arithmetic is exact where nothing overflows.
proof fn lemma_exact_ms(mm: u64, ss: u64, cc: u64)
    requires
        mm * 60000 + ss * 1000 + cc * 10 <= u64::MAX,
    ensures
        wadd(wadd(wmul(mm, 60000), wmul(ss, 1000)), wmul(cc, 10)) == (mm * 60000 + ss * 1000 + cc * 10) as u64,
{
    let m: nat = 0x1_0000_0000_0000_0000;
    vstd::arithmetic::div_mod::lemma_small_mod((mm as nat * 60000) as nat, m);
    vstd::arithmetic::div_mod::lemma_small_mod((ss as nat * 1000) as nat, m);
    vstd::arithmetic::div_mod::lemma_small_mod((cc as nat * 10) as nat, m);
}

/// A run of digits holds no `c` that is not a digit.
proof fn lemma_digits_lack(d: Seq<char>, c: char)
    requires
        forall|i: int| 0 <= i < d.len() ==> is_digit(#[trigger] d[i]),
        !is_digit(c),
    ensures
        find_char(d, c) is None,
        forall|i: int| 0 <= i < d.len() ==> d[i] != c,
{
    lemma_find_from_range(d, c, 0);
    if find_char(d, c) is Some {
        let i = find_char(d, c)->0;
        assert(is_digit(d[i]));
    }
}

/// A timestamp written `MM:SS.cc` reads back as `MM` minutes, `SS` seconds and
/// `cc` hundredths of a second, in milliseconds; written `MM:SS` it reads back
/// as whole seconds (wherever the total fits in 64 bits).
pub proof fn law_timestamp_reads_back(mm: u64, ss: u64, cc: u64)
    requires
        mm * 60000 + ss * 1000 + cc * 10 <= u64::MAX,
    ensures
        lrc_timestamp_spec(decimal(mm as nat) + seq![':'] + decimal(ss as nat) + seq!['.'] + decimal(cc as nat))
            == Some((mm * 60000 + ss * 1000 + cc * 10) as u64),
        lrc_timestamp_spec(decimal(mm as nat) + seq![':'] + decimal(ss as nat)) == Some(
            (mm * 60000 + ss * 1000) as u64,
        ),
{
    let a = decimal(mm as nat);
    let b = decimal(ss as nat);
    let c = decimal(cc as nat);
    lemma_decimal_digits(mm as nat);
    lemma_decimal_digits(ss as nat);
    lemma_decimal_digits(cc as nat);
    lemma_parse_decimal(mm);
    lemma_parse_decimal(ss);
    lemma_parse_decimal(cc);
    lemma_parse_decimal(0);
    lemma_exact_ms(mm, ss, cc);
    lemma_exact_ms(mm, ss, 0);
    lemma_digits_lack(a, ':');
    lemma_digits_lack(b, '.');
    assert(decimal(0) == seq!['0']);

    let s = a + seq![':'] + b + seq!['.'] + c;
    assert forall|k: int| 0 <= k < a.len() implies s[k] != ':' by {
        assert(s[k] == a[k]);
    }
    lemma_find_first(s, ':', a.len() as int);
    assert(s.take(a.len() as int) == a);
    let rest = s.skip(a.len() as int + 1);
    assert(rest == b + seq!['.'] + c);
    assert forall|k: int| 0 <= k < b.len() implies rest[k] != '.' by {
        assert(rest[k] == b[k]);
    }
    lemma_find_first(rest, '.', b.len() as int);
    assert(rest.take(b.len() as int) == b);
    assert(rest.skip(b.len() as int + 1) == c);

    let s2 = a + seq![':'] + b;
    assert forall|k: int| 0 <= k < a.len() implies s2[k] != ':' by {
        assert(s2[k] == a[k]);
    }
    lemma_find_first(s2, ':', a.len() as int);
    assert(s2.take(a.len() as int) == a);
    assert(s2.skip(a.len() as int + 1) == b);
}

/// Whether an LRC line gives a lyric line: once trimmed it is not empty,
/// and when it opens with `[` it also holds a `]`.
pub open spec fn lrc_keeps(line: Seq<char>) -> bool {
    let t = trim_spec(line);
    t.len() > 0 && (t[0] != '[' || t.contains(']'))
}

/// Every LRC line of the form `[timestamp] text` gives exactly one lyric
/// line, with the timestamp read between `[` and the first `]` and the
/// trimmed text after it, also when that text is empty (a timed gap); a line
/// that does not open with `[` gives itself, trimmed, without a timestamp;
/// a blank line, or one that opens with `[` but has no `]`, gives nothing.
pub proof fn law_lrc_line(line: Seq<char>)
    ensures
        lrc_line_spec(line) is Some <==> lrc_keeps(line),
        forall|c: int|
            0 < c < trim_spec(line).len() && trim_spec(line)[0] == '[' && #[trigger] trim_spec(line)[c] == ']'
                && (forall|k: int| 0 <= k < c ==> trim_spec(line)[k] != ']') ==> lrc_line_spec(line) == Some(
                (
                    lrc_timestamp_spec(trim_spec(line).subrange(1, c)),
                    trim_spec(trim_spec(line).skip(c + 1)),
                ),
            ),
        trim_spec(line).len() > 0 && trim_spec(line)[0] != '[' ==> lrc_line_spec(line) == Some(
            (None::<u64>, trim_spec(line)),
        ),
{
    let t = trim_spec(line);
    lemma_find_from_range(t, ']', 0);
    if t.contains(']') {
        let j = choose|j: int| 0 <= j < t.len() && t[j] == ']';
        assert(t[j] == ']');
    }
    assert forall|c: int|
        0 < c < t.len() && t[0] == '[' && #[trigger] t[c] == ']' && (forall|k: int| 0 <= k < c ==> t[k] != ']')
        implies lrc_line_spec(line) == Some((lrc_timestamp_spec(t.subrange(1, c)), trim_spec(t.skip(c + 1)))) by {
        lemma_find_first(t, ']', c);
    }
}

/// Mapping lines with `f` keeps as many as filtering them with `p`, where `p`
/// holds exactly when `f` gives something.
proof fn lemma_filter_map_count(
    s: Seq<Seq<char>>,
    f: spec_fn(Seq<char>) -> Option<(Option<u64>, Seq<char>)>,
    p: spec_fn(Seq<char>) -> bool,
)
    requires
        forall|x: Seq<char>| #[trigger] p(x) == (f(x) is Some),
    ensures
        s.filter_map(f).len() == s.filter(p).len(),
    decreases s.len(),
{
    if s.len() > 0 {
        lemma_filter_map_count(s.drop_last(), f, p);
        reveal(Seq::filter);
        assert(p(s.last()) == (f(s.last()) is Some));
        match f(s.last()) {
            Some(y) => {
                assert(s.filter_map(f) == s.drop_last().filter_map(f) + seq![y]);
            },
            None => {
                assert(s.filter_map(f) == s.drop_last().filter_map(f));
            },
        }
    }
}

/// An LRC text gives one lyric line for each of its lines that keeps one
/// (see `lrc_keeps`): no timestamped line is dropped for an empty text.
pub proof fn law_lrc_line_count(text: Seq<char>)
    ensures
        parse_lrc_spec(text).len() == lines_spec(text).filter(|l: Seq<char>| lrc_keeps(l)).len(),
{
    let f = |l: Seq<char>| lrc_line_spec(l);
    let p = |l: Seq<char>| lrc_keeps(l);
    assert forall|x: Seq<char>| #[trigger] p(x) == (f(x) is Some) by {
        law_lrc_line(x);
    }
    lemma_filter_map_count(lines_spec(text), f, p);
}

} // verus!
