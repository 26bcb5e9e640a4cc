//! Reading the media probe's JSON report. Only the first `"duration"`,
//! `"width"` and `"height"` fields are read, and any that is missing or
//! unreadable takes its default: 0 ms, 1920 by 1080; the rate is always 30.
use vstd::prelude::*;
use crate::text::{chars_of, digit_value, is_ascii_digit, string_of};
use crate::video::VideoInfo;

verus! {

/// Whether `pat` occurs in `s` at position `i`.
pub open spec fn match_at(s: Seq<char>, pat: Seq<char>, i: int) -> bool {
    0 <= i && i + pat.len() <= s.len() && s.subrange(i, i + pat.len()) == pat
}

/// The first position at or after `i` where `pat` occurs in `s`.
pub open spec fn find_from(s: Seq<char>, pat: Seq<char>, i: int) -> Option<int>
    decreases s.len() - i,
{
    if i < 0 || i >= s.len() || i + pat.len() > s.len() {
        None
    } else if match_at(s, pat, i) {
        Some(i)
    } else {
        find_from(s, pat, i + 1)
    }
}

/// Unicode white space, as `char::is_whitespace` defines it.
pub open spec fn is_ws(c: char) -> bool {
    ('\t' <= c && c <= '\r') || c == ' ' || c == '\u{85}' || c == '\u{a0}' || c == '\u{1680}'
        || ('\u{2000}' <= c && c <= '\u{200a}') || c == '\u{2028}' || c == '\u{2029}'
        || c == '\u{202f}' || c == '\u{205f}' || c == '\u{3000}'
}

/// The end of the run of white space (and, when `quotes`, `"`) starting at `i`.
pub open spec fn skip_end(s: Seq<char>, i: int, quotes: bool) -> int
    decreases s.len() - i,
{
    if 0 <= i < s.len() && (is_ws(s[i]) || (quotes && s[i] == '"')) {
        skip_end(s, i + 1, quotes)
    } else {
        i
    }
}

/// The end of the run of digits (and, when `dots`, `.`) starting at `i`.
pub open spec fn num_end(s: Seq<char>, i: int, dots: bool) -> int
    decreases s.len() - i,
{
    if 0 <= i < s.len() && (is_ascii_digit(s[i]) || (dots && s[i] == '.')) {
        num_end(s, i + 1, dots)
    } else {
        i
    }
}

/// The numeric text after the first occurrence of `key`, past white space (and
/// quotes when `quotes`); none when `key` does not occur.
pub open spec fn field_text(s: Seq<char>, key: Seq<char>, quotes: bool, dots: bool) -> Option<Seq<char>> {
    match find_from(s, key, 0) {
        Some(i) => {
            let a = skip_end(s, i + key.len(), quotes);
            Some(s.subrange(a, num_end(s, a, dots)))
        },
        None => None,
    }
}

/// The value of a string of ASCII digits.
pub open spec fn nat_of(t: Seq<char>) -> nat
    decreases t.len(),
{
    if t.len() == 0 { 0 } else { nat_of(t.drop_last()) * 10 + digit_value(t.last()) }
}

/// A dimension field: its digits' value when there are some and it fits in
/// `u32`, else `dflt`.
pub open spec fn dimension_of(t: Option<Seq<char>>, dflt: nat) -> nat {
    match t {
        Some(t) => if t.len() > 0 && nat_of(t) <= u32::MAX { nat_of(t) } else { dflt },
        None => dflt,
    }
}

/// Position of the first `.` of `t` at or after `i`, or its length.
pub open spec fn dot_from(t: Seq<char>, i: int) -> int
    decreases t.len() - i,
{
    if i < 0 || i >= t.len() { t.len() as int }
    else if t[i] == '.' { i }
    else { dot_from(t, i + 1) }
}

/// Position of the first `.` of `t`, or its length.
pub open spec fn dot_pos(t: Seq<char>) -> int {
    dot_from(t, 0)
}

pub open spec fn int_part(t: Seq<char>) -> Seq<char> {
    t.subrange(0, dot_pos(t))
}

pub open spec fn frac_part(t: Seq<char>) -> Seq<char> {
    if dot_pos(t) < t.len() { t.subrange(dot_pos(t) + 1, t.len() as int) } else { Seq::empty() }
}

/// Text of digits with at most one `.` and at least one digit: a number of seconds.
pub open spec fn is_decimal_text(t: Seq<char>) -> bool {
    &&& int_part(t).len() + frac_part(t).len() > 0
    &&& dot_pos(frac_part(t)) == frac_part(t).len()
}

/// The milliseconds that the first three fraction digits give.
pub open spec fn frac_ms(f: Seq<char>) -> nat {
    if f.len() >= 3 { nat_of(f.subrange(0, 3)) }
    else if f.len() == 2 { nat_of(f) * 10 }
    else if f.len() == 1 { nat_of(f) * 100 }
    else { 0 }
}

/// A duration field in whole milliseconds (fractions below a millisecond are
/// dropped, and the value saturates at `u64::MAX`); 0 when absent or unreadable.
pub open spec fn duration_ms_of(t: Option<Seq<char>>) -> nat {
    match t {
        Some(t) => if is_decimal_text(t) {
            let v = nat_of(int_part(t)) * 1000 + frac_ms(frac_part(t));
            if v > u64::MAX { u64::MAX as nat } else { v }
        } else {
            0
        },
        None => 0,
    }
}

pub open spec fn duration_key() -> Seq<char> {
    "\"duration\":"@
}

pub open spec fn width_key() -> Seq<char> {
    "\"width\":"@
}

pub open spec fn height_key() -> Seq<char> {
    "\"height\":"@
}

/// The video facts that a probe report gives.
pub open spec fn probe_facts(json: Seq<char>) -> (nat, nat, nat) {
    (
        duration_ms_of(field_text(json, duration_key(), true, true)),
        dimension_of(field_text(json, width_key(), false, false), 1920),
        dimension_of(field_text(json, height_key(), false, false), 1080),
    )
}


/// Values at or above this are not told apart while parsing.
pub const PARSE_CAP: u64 = 0x1000_0000_0000_0000;

fn match_at_exec(s: &Vec<char>, pat: &Vec<char>, i: usize) -> (r: bool)
    requires
        i <= s@.len(),
    ensures
        r == match_at(s@, pat@, i as int),
{
    if pat.len() > s.len() - i {
        return false;
    }
    let mut k: usize = 0;
    while k < pat.len()
        invariant
            i + pat@.len() <= s@.len(),
            s@.len() <= usize::MAX,
            k <= pat@.len(),
            forall|j: int| 0 <= j < k ==> s@[i + j] == pat@[j],
        decreases pat@.len() - k,
    {
        if s[i + k] != pat[k] {
            proof {
                assert(s@.subrange(i as int, i + pat@.len())[k as int] == s@[i + k]);
            }
            return false;
        }
        k = k + 1;
    }
    assert(s@.subrange(i as int, i + pat@.len()) =~= pat@);
    true
}

fn find_exec(s: &Vec<char>, pat: &Vec<char>) -> (r: Option<usize>)
    ensures
        match r {
            Some(i) => find_from(s@, pat@, 0) == Some(i as int),
            None => find_from(s@, pat@, 0) is None,
        },
{
    let mut i: usize = 0;
    while i < s.len()
        invariant
            i <= s@.len(),
            find_from(s@, pat@, i as int) == find_from(s@, pat@, 0),
        decreases s@.len() - i,
    {
        if pat.len() > s.len() - i {
            return None;
        }
        if match_at_exec(s, pat, i) {
            return Some(i);
        }
        i = i + 1;
    }
    None
}

pub fn is_ws_exec(c: char) -> (r: bool)
    ensures
        r == is_ws(c),
{
    ('\t' <= c && c <= '\r') || c == ' ' || c == '\u{85}' || c == '\u{a0}' || c == '\u{1680}'
        || ('\u{2000}' <= c && c <= '\u{200a}') || c == '\u{2028}' || c == '\u{2029}'
        || c == '\u{202f}' || c == '\u{205f}' || c == '\u{3000}'
}

fn skip_end_exec(s: &Vec<char>, i: usize, quotes: bool) -> (r: usize)
    requires
        i <= s@.len(),
    ensures
        r as int == skip_end(s@, i as int, quotes),
        i <= r <= s@.len(),
{
    let mut j: usize = i;
    while j < s.len() && (is_ws_exec(s[j]) || (quotes && s[j] == '"'))
        invariant
            i <= j <= s@.len(),
            skip_end(s@, j as int, quotes) == skip_end(s@, i as int, quotes),
        decreases s@.len() - j,
    {
        j = j + 1;
    }
    j
}

fn num_end_exec(s: &Vec<char>, i: usize, dots: bool) -> (r: usize)
    requires
        i <= s@.len(),
    ensures
        r as int == num_end(s@, i as int, dots),
        i <= r <= s@.len(),
        forall|k: int| i <= k < r ==> is_ascii_digit(#[trigger] s@[k]) || (dots && s@[k] == '.'),
{
    let mut j: usize = i;
    while j < s.len() && (('0' <= s[j] && s[j] <= '9') || (dots && s[j] == '.'))
        invariant
            i <= j <= s@.len(),
            num_end(s@, j as int, dots) == num_end(s@, i as int, dots),
            forall|k: int| i <= k < j ==> is_ascii_digit(#[trigger] s@[k]) || (dots && s@[k] == '.'),
        decreases s@.len() - j,
    {
        j = j + 1;
    }
    j
}

/// The numeric text after `key` (see `field_text`).
fn field_text_exec(s: &Vec<char>, key: &Vec<char>, quotes: bool, dots: bool) -> (r: Option<Vec<char>>)
    ensures
        match r {
            Some(t) => field_text(s@, key@, quotes, dots) == Some(t@)
                && forall|k: int| 0 <= k < t@.len() ==> is_ascii_digit(#[trigger] t@[k]) || (dots && t@[k] == '.'),
            None => field_text(s@, key@, quotes, dots) is None,
        },
{
    match find_exec(s, key) {
        Some(i) => {
            assert(match_at(s@, key@, i as int)) by {
                assert(find_from(s@, key@, 0) == Some(i as int));
                lemma_find_from_matches(s@, key@, 0);
            }
            let sl = s.len();
            let kl = key.len();
            assert(i as int + kl as int <= sl as int);
            let a = skip_end_exec(s, i + kl, quotes);
            let b = num_end_exec(s, a, dots);
            let t = crate::paths::copy_range(s, a, b);
            assert forall|k: int| 0 <= k < t@.len() implies is_ascii_digit(#[trigger] t@[k]) || (dots && t@[k] == '.') by {
                assert(t@[k] == s@[a + k]);
            }
            Some(t)
        },
        None => None,
    }
}

proof fn lemma_find_from_matches(s: Seq<char>, pat: Seq<char>, i: int)
    ensures
        find_from(s, pat, i) matches Some(j) ==> match_at(s, pat, j) && j >= i,
    decreases s.len() - i,
{
    if !(i < 0 || i >= s.len() || i + pat.len() > s.len()) && !match_at(s, pat, i) {
        lemma_find_from_matches(s, pat, i + 1);
    }
}

fn digit_exec(c: char) -> (r: u64)
    requires
        is_ascii_digit(c),
    ensures
        r == digit_value(c),
        r <= 9,
{
    (c as u32 - '0' as u32) as u64
}

/// `min(nat_of(t[from..to]), PARSE_CAP)`.
fn parse_capped(t: &Vec<char>, from: usize, to: usize) -> (r: u64)
    requires
        from <= to <= t@.len(),
        forall|k: int| from <= k < to ==> is_ascii_digit(#[trigger] t@[k]),
    ensures
        r as nat == if nat_of(t@.subrange(from as int, to as int)) < PARSE_CAP {
            nat_of(t@.subrange(from as int, to as int))
        } else {
            PARSE_CAP as nat
        },
{
    let mut acc: u64 = 0;
    let mut i: usize = from;
    assert(t@.subrange(from as int, from as int) =~= Seq::<char>::empty());
    while i < to
        invariant
            from <= i <= to,
            to <= t@.len(),
            forall|k: int| from <= k < to ==> is_ascii_digit(#[trigger] t@[k]),
            acc as nat == if nat_of(t@.subrange(from as int, i as int)) < PARSE_CAP {
                nat_of(t@.subrange(from as int, i as int))
            } else {
                PARSE_CAP as nat
            },
        decreases to - i,
    {
        let d = digit_exec(t[i]);
        let ghost prev = nat_of(t@.subrange(from as int, i as int));
        assert(t@.subrange(from as int, i + 1).drop_last() =~= t@.subrange(from as int, i as int));
        assert(nat_of(t@.subrange(from as int, i + 1)) == prev * 10 + d);
        if acc < PARSE_CAP {
            let v: u128 = acc as u128 * 10 + d as u128;
            if v < PARSE_CAP as u128 {
                acc = v as u64;
            } else {
                acc = PARSE_CAP;
            }
        } else {
            assert(prev * 10 + d >= PARSE_CAP) by (nonlinear_arith)
                requires prev >= PARSE_CAP;
        }
        i = i + 1;
    }
    acc
}

fn dot_exec(t: &Vec<char>) -> (r: usize)
    ensures
        r as int == dot_pos(t@),
        r <= t@.len(),
        forall|k: int| 0 <= k < r ==> #[trigger] t@[k] != '.',
{
    let mut i: usize = 0;
    while i < t.len() && t[i] != '.'
        invariant
            i <= t@.len(),
            dot_from(t@, i as int) == dot_from(t@, 0),
            forall|k: int| 0 <= k < i ==> #[trigger] t@[k] != '.',
        decreases t@.len() - i,
    {
        i = i + 1;
    }
    i
}

/// A dimension field (see `dimension_of`).
fn dimension_exec(t: &Option<Vec<char>>, dflt: u32) -> (r: u32)
    requires
        t matches Some(v) ==> forall|k: int| 0 <= k < v@.len() ==> is_ascii_digit(#[trigger] v@[k]),
    ensures
        r as nat == dimension_of(
            match t {
                Some(v) => Some(v@),
                None => None,
            },
            dflt as nat,
        ),
{
    match t {
        Some(v) => {
            let n = parse_capped(v, 0, v.len());
            assert(v@.subrange(0, v@.len() as int) =~= v@);
            if v.len() > 0 && n <= u32::MAX as u64 {
                n as u32
            } else {
                dflt
            }
        },
        None => dflt,
    }
}

/// A duration field (see `duration_ms_of`).
fn duration_exec(t: &Option<Vec<char>>) -> (r: u64)
    requires
        t matches Some(v) ==> forall|k: int| 0 <= k < v@.len() ==> is_ascii_digit(#[trigger] v@[k]) || v@[k] == '.',
    ensures
        r as nat == duration_ms_of(
            match t {
                Some(v) => Some(v@),
                None => None,
            },
        ),
{
    match t {
        Some(v) => {
            let d = dot_exec(v);
            let f = if d < v.len() {
                crate::paths::copy_range(v, d + 1, v.len())
            } else {
                Vec::new()
            };
            assert(f@ == frac_part(v@));
            let fd = dot_exec(&f);
            if d + f.len() == 0 || fd != f.len() {
                return 0;
            }
            assert forall|k: int| 0 <= k < f@.len() implies is_ascii_digit(#[trigger] f@[k]) by {
                assert(f@[k] == v@[d + 1 + k]);
            }
            let ip = parse_capped(v, 0, d);
            let fl: usize = if f.len() >= 3 { 3 } else { f.len() };
            let fp = parse_capped(&f, 0, fl);
            proof {
                if f@.len() < 3 {
                    assert(f@.subrange(0, fl as int) =~= f@);
                }
                assert(fp < 1000) by {
                    lemma_nat_of_bound(f@.subrange(0, fl as int));
                }
            }
            let scale: u64 = if f.len() >= 3 { 1 } else if f.len() == 2 { 10 } else if f.len() == 1 { 100 } else { 0 };
            assert(fp as int * scale as int <= 100000) by (nonlinear_arith)
                requires fp < 1000, scale <= 100;
            let fms = fp * scale;
            assert(fms as nat == frac_ms(frac_part(v@))) by {
                assert(f@ == frac_part(v@));
                if f@.len() >= 3 {
                    assert(fp as nat == nat_of(f@.subrange(0, 3)));
                } else {
                    assert(fp as nat == nat_of(f@));
                }
            }
            assert(ip as nat == if nat_of(int_part(v@)) < PARSE_CAP { nat_of(int_part(v@)) } else { PARSE_CAP as nat });
            assert(is_decimal_text(v@));
            if ip >= PARSE_CAP {
                assert(nat_of(int_part(v@)) * 1000 + frac_ms(frac_part(v@)) > u64::MAX) by (nonlinear_arith)
                    requires nat_of(int_part(v@)) >= PARSE_CAP;
                u64::MAX
            } else {
                let total: u128 = ip as u128 * 1000 + fms as u128;
                if total > u64::MAX as u128 { u64::MAX } else { total as u64 }
            }
        },
        None => 0,
    }
}

proof fn lemma_nat_of_bound(t: Seq<char>)
    requires
        forall|k: int| 0 <= k < t.len() ==> is_ascii_digit(#[trigger] t[k]),
        t.len() <= 3,
    ensures
        nat_of(t) < 1000,
        t.len() <= 2 ==> nat_of(t) < 100,
        t.len() <= 1 ==> nat_of(t) < 10,
    decreases t.len(),
{
    if t.len() > 0 {
        assert forall|k: int| 0 <= k < t.drop_last().len() implies is_ascii_digit(#[trigger] t.drop_last()[k]) by {
            assert(t.drop_last()[k] == t[k]);
        }
        lemma_nat_of_bound(t.drop_last());
        assert(is_ascii_digit(t[t.len() - 1]));
    }
}

/// Reads duration, width and height out of the probe's JSON report `json` for
/// the file at `path`.
pub fn parse_ffprobe_output(json: &str, path: &str) -> (r: VideoInfo)
    ensures
        r.path@ == path@,
        (r.duration_ms as nat, r.width as nat, r.height as nat) == probe_facts(json@),
        r.fps == 30,
{
    let s = chars_of(json);
    let dk = chars_of("\"duration\":");
    let wk = chars_of("\"width\":");
    let hk = chars_of("\"height\":");
    let dt = field_text_exec(&s, &dk, true, true);
    let wt = field_text_exec(&s, &wk, false, false);
    let ht = field_text_exec(&s, &hk, false, false);
    let duration = duration_exec(&dt);
    let width = dimension_exec(&wt, 1920);
    let height = dimension_exec(&ht, 1080);
    VideoInfo { path: string_of(&chars_of(path)), duration_ms: duration, width, height, fps: 30 }
}

} // verus!
