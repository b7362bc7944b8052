//! The beatmap file parser and playback state. The format is
//! line-oriented: a line starting with `[` opens a named section; inside
//! `[HitObjects]` each line is a comma-separated timed spawn event, and
//! inside any other section each `key:value` line (split at the first
//! colon, surrounding spaces stripped) feeds a string-keyed map. Parsing
//! happens once at load time and any malformed numeric field is fatal.

use vstd::prelude::*;

verus! {

use crate::mathx::spec_abs;
use crate::timer::Timer;
use crate::{BEATMAP_INITIAL_WAIT_MS, BEATMAP_MUSIC_OFFSET_MS, HIT_COORD_LIMIT,
    HIT_COORD_UNIT_LIMIT};

/// The position of the first `b` in `s`, or `s.len()` when `s` has none.
pub open spec fn spec_find(s: Seq<u8>, b: u8) -> int
    decreases s.len(),
{
    if s.len() == 0 {
        0
    } else if s[0] == b {
        0
    } else {
        1 + spec_find(s.drop_first(), b)
    }
}

/// `spec_find` is the unique index bounded by the length, preceded by
/// non-matches, and either at the end or on a match.
pub proof fn lemma_find_characterizes(s: Seq<u8>, b: u8, i: int)
    requires
        0 <= i <= s.len(),
        forall|j: int| 0 <= j < i ==> s[j] != b,
        i == s.len() || s[i] == b,
    ensures
        spec_find(s, b) == i,
    decreases s.len(),
{
    if s.len() > 0 {
        if i == 0 {
            if s[0] != b {
                assert(i < s.len() && s[i] == b);
            }
        } else {
            assert(s[0] != b);
            let t = s.drop_first();
            assert forall|j: int| 0 <= j < i - 1 implies t[j] != b by {
                assert(t[j] == s[j + 1]);
            }
            assert(i - 1 == t.len() || t[i - 1] == b);
            lemma_find_characterizes(t, b, i - 1);
        }
    }
}

/// The basic bounds of `spec_find`.
pub proof fn lemma_find_bounds(s: Seq<u8>, b: u8)
    ensures
        0 <= spec_find(s, b) <= s.len(),
        spec_find(s, b) < s.len() ==> s[spec_find(s, b)] == b,
        forall|j: int| 0 <= j < spec_find(s, b) ==> s[j] != b,
    decreases s.len(),
{
    if s.len() > 0 && s[0] != b {
        let t = s.drop_first();
        lemma_find_bounds(t, b);
        assert forall|j: int| 0 <= j < spec_find(s, b) implies s[j] != b by {
            if j > 0 {
                assert(t[j - 1] == s[j]);
            }
        }
    }
}

/// Find the first `b` in `s` at or after `from`; `s.len()` when absent.
fn find_byte(s: &[u8], from: usize, b: u8) -> (r: usize)
    requires
        from <= s@.len(),
    ensures
        from <= r <= s@.len(),
        r - from == spec_find(s@.skip(from as int), b),
        r < s@.len() ==> s@[r as int] == b,
        forall|j: int| from <= j < r ==> s@[j] != b,
{
    let mut i: usize = from;
    while i < s.len()
        invariant
            from <= i <= s@.len(),
            forall|j: int| from <= j < i ==> s@[j] != b,
        decreases s@.len() - i,
    {
        if s[i] == b {
            proof {
                let t = s@.skip(from as int);
                assert forall|j: int| 0 <= j < i - from implies t[j] != b by {
                    assert(t[j] == s@[j + from]);
                }
                assert(t[i - from] == s@[i as int]);
                lemma_find_characterizes(t, b, i - from);
            }
            return i;
        }
        i = i + 1;
    }
    proof {
        let t = s@.skip(from as int);
        assert forall|j: int| 0 <= j < s@.len() - from implies t[j] != b by {
            assert(t[j] == s@[j + from]);
        }
        lemma_find_characterizes(t, b, s@.len() - from);
    }
    s.len()
}

/// Copy `s[from..to]` into a fresh vector.
fn bytes_subrange(s: &[u8], from: usize, to: usize) -> (r: Vec<u8>)
    requires
        from <= to <= s@.len(),
    ensures
        r@ == s@.subrange(from as int, to as int),
{
    let mut r: Vec<u8> = Vec::new();
    let mut i: usize = from;
    while i < to
        invariant
            from <= i <= to <= s@.len(),
            r@ == s@.subrange(from as int, i as int),
        decreases to - i,
    {
        r.push(s[i]);
        proof {
            assert(r@ =~= s@.subrange(from as int, i + 1));
        }
        i = i + 1;
    }
    r
}

/// Whether two byte strings hold the same bytes.
fn bytes_eq(a: &[u8], b: &[u8]) -> (r: bool)
    ensures
        r == (a@ == b@),
{
    if a.len() != b.len() {
        proof {
            assert(a@ != b@);
        }
        return false;
    }
    let mut i: usize = 0;
    while i < a.len()
        invariant
            i <= a@.len(),
            a@.len() == b@.len(),
            forall|j: int| 0 <= j < i ==> a@[j] == b@[j],
        decreases a@.len() - i,
    {
        if a[i] != b[i] {
            proof {
                assert(a@[i as int] != b@[i as int]);
            }
            return false;
        }
        i = i + 1;
    }
    proof {
        assert(a@ =~= b@);
    }
    true
}

/// The ASCII space byte.
pub open spec fn spec_is_space(b: u8) -> bool {
    b == 32
}

/// `s` with its leading spaces removed.
pub open spec fn spec_trim_front(s: Seq<u8>) -> Seq<u8>
    decreases s.len(),
{
    if s.len() > 0 && spec_is_space(s[0]) {
        spec_trim_front(s.drop_first())
    } else {
        s
    }
}

/// `s` with its trailing spaces removed.
pub open spec fn spec_trim_back(s: Seq<u8>) -> Seq<u8>
    decreases s.len(),
{
    if s.len() > 0 && spec_is_space(s[s.len() - 1]) {
        spec_trim_back(s.drop_last())
    } else {
        s
    }
}

/// `s` with surrounding spaces stripped.
pub open spec fn spec_trim(s: Seq<u8>) -> Seq<u8> {
    spec_trim_back(spec_trim_front(s))
}

/// Copy `s[from..to]` with surrounding spaces stripped.
fn trim_subrange(s: &[u8], from: usize, to: usize) -> (r: Vec<u8>)
    requires
        from <= to <= s@.len(),
    ensures
        r@ == spec_trim(s@.subrange(from as int, to as int)),
{
    let ghost whole = s@.subrange(from as int, to as int);
    let mut a: usize = from;
    while a < to && s[a] == 32
        invariant
            from <= a <= to <= s@.len(),
            spec_trim_front(whole) == spec_trim_front(s@.subrange(a as int, to as int)),
            whole == s@.subrange(from as int, to as int),
        decreases to - a,
    {
        proof {
            let cur = s@.subrange(a as int, to as int);
            assert(cur[0] == s@[a as int]);
            assert(cur.drop_first() =~= s@.subrange(a + 1, to as int));
        }
        a = a + 1;
    }
    proof {
        let cur = s@.subrange(a as int, to as int);
        if a < to {
            assert(cur[0] == s@[a as int]);
        }
        assert(spec_trim_front(cur) == cur);
    }
    let mut b: usize = to;
    while b > a && s[b - 1] == 32
        invariant
            from <= a <= b <= to <= s@.len(),
            spec_trim_back(s@.subrange(a as int, to as int)) == spec_trim_back(
                s@.subrange(a as int, b as int),
            ),
        decreases b,
    {
        proof {
            let cur = s@.subrange(a as int, b as int);
            assert(cur[cur.len() - 1] == s@[b - 1]);
            assert(cur.drop_last() =~= s@.subrange(a as int, b - 1));
        }
        b = b - 1;
    }
    proof {
        let cur = s@.subrange(a as int, b as int);
        if b > a {
            assert(cur[cur.len() - 1] == s@[b - 1]);
        }
        assert(spec_trim_back(cur) == cur);
    }
    bytes_subrange(s, a, b)
}

/// An ASCII decimal digit.
pub open spec fn spec_is_digit(b: u8) -> bool {
    48 <= b <= 57
}

/// Every byte of `s` is a digit.
pub open spec fn spec_all_digits(s: Seq<u8>) -> bool {
    forall|i: int| 0 <= i < s.len() ==> spec_is_digit(#[trigger] s[i])
}

/// The value of a digit string read in base ten.
pub open spec fn spec_digits_val(s: Seq<u8>) -> int
    decreases s.len(),
{
    if s.len() == 0 {
        0
    } else {
        spec_digits_val(s.drop_last()) * 10 + (s[s.len() - 1] - 48)
    }
}

/// Parse an unsigned decimal integer of value at most `cap`. `None`
/// exactly when `s` is empty, holds a non-digit, or its value exceeds
/// the cap.
fn parse_uint_capped(s: &[u8], cap: u64) -> (r: Option<u64>)
    requires
        cap <= 0xffff_ffff,
    ensures
        r is Some <==> (s@.len() > 0 && spec_all_digits(s@) && spec_digits_val(s@) <= cap),
        r matches Some(v) ==> v == spec_digits_val(s@),
{
    if s.len() == 0 {
        return None;
    }
    let mut val: u64 = 0;
    let mut i: usize = 0;
    while i < s.len()
        invariant
            i <= s@.len(),
            cap <= 0xffff_ffff,
            spec_all_digits(s@.take(i as int)),
            spec_digits_val(s@.take(i as int)) <= cap ==> val == spec_digits_val(
                s@.take(i as int),
            ),
            spec_digits_val(s@.take(i as int)) > cap ==> val == cap + 1,
            val <= cap + 1,
        decreases s@.len() - i,
    {
        let c = s[i];
        if c < 48 || c > 57 {
            return None;
        }
        let d: u64 = (c - 48) as u64;
        proof {
            assert(s@.take(i + 1).drop_last() =~= s@.take(i as int));
            assert(s@.take(i + 1).last() == s@[i as int]);
            assert(spec_digits_val(s@.take(i + 1)) == spec_digits_val(s@.take(i as int)) * 10 + d);
            lemma_digits_val_nonneg(s@.take(i as int));
        }
        // Saturate one past the cap: beyond it the exact value no longer
        // matters, only that it is too large.
        let mut next: u64 = val * 10 + d;
        if next > cap {
            next = cap + 1;
        }
        val = next;
        i = i + 1;
    }
    proof {
        assert(s@.take(s@.len() as int) =~= s@);
    }
    if val <= cap {
        Some(val)
    } else {
        None
    }
}

/// The digits of `s` after an optional leading minus sign.
pub open spec fn spec_unsigned_part(s: Seq<u8>) -> Seq<u8> {
    if s.len() > 0 && s[0] == 45 {
        s.drop_first()
    } else {
        s
    }
}

/// A coordinate field is an optional minus sign, a non-empty integer
/// part within the coordinate limit, and optionally a dot followed by a
/// non-empty run of fractional digits.
pub open spec fn spec_scaled_valid(s: Seq<u8>) -> bool {
    let u = spec_unsigned_part(s);
    let dot = spec_find(u, 46);
    let ip = u.take(dot);
    &&& ip.len() > 0
    &&& spec_all_digits(ip)
    &&& spec_digits_val(ip) <= HIT_COORD_UNIT_LIMIT
    &&& (dot < u.len() ==> {
        let fp = u.skip(dot + 1);
        fp.len() > 0 && spec_all_digits(fp)
    })
}

/// The milli-unit value of a fractional part: its first three digits,
/// padded with zeros on the right; digits past the third are ignored.
pub open spec fn spec_frac_milli(fp: Seq<u8>) -> int {
    if fp.len() >= 3 {
        spec_digits_val(fp.take(3))
    } else if fp.len() == 2 {
        spec_digits_val(fp) * 10
    } else if fp.len() == 1 {
        spec_digits_val(fp) * 100
    } else {
        0
    }
}

/// The milli-unit value of a valid coordinate field.
pub open spec fn spec_scaled_val(s: Seq<u8>) -> int {
    let u = spec_unsigned_part(s);
    let dot = spec_find(u, 46);
    let ip = u.take(dot);
    let magnitude = spec_digits_val(ip) * 1000 + (if dot < u.len() {
        spec_frac_milli(u.skip(dot + 1))
    } else {
        0
    });
    if s.len() > 0 && s[0] == 45 {
        -magnitude
    } else {
        magnitude
    }
}

/// Parse a decimal coordinate field into milli-units. `None` exactly on
/// a field outside the accepted grammar or the coordinate limit.
fn parse_scaled(s: &[u8]) -> (r: Option<i64>)
    ensures
        r is Some <==> spec_scaled_valid(s@),
        r matches Some(v) ==> v == spec_scaled_val(s@),
        r matches Some(v) ==> spec_abs(v as int) <= HIT_COORD_LIMIT,
{
    let negative = s.len() > 0 && s[0] == 45;
    let from: usize = if negative {
        1
    } else {
        0
    };
    proof {
        assert(spec_unsigned_part(s@) =~= s@.skip(from as int));
    }
    let dot = find_byte(s, from, 46);
    proof {
        let u = s@.skip(from as int);
        assert(u.take(dot - from) =~= s@.subrange(from as int, dot as int));
        if dot < s@.len() {
            assert(u.skip(dot - from + 1) =~= s@.subrange(dot + 1, s@.len() as int));
        }
    }
    let ip = bytes_subrange(s, from, dot);
    let int_val = match parse_uint_capped(ip.as_slice(), HIT_COORD_UNIT_LIMIT) {
        Some(v) => v,
        None => {
            return None;
        },
    };
    let mut frac_val: u64 = 0;
    if dot < s.len() {
        let fp = bytes_subrange(s, dot + 1, s.len());
        if fp.len() == 0 {
            return None;
        }
        // Every fractional digit must be a digit, however many there are.
        if !all_digits(fp.as_slice()) {
            return None;
        }
        // The value keeps the first three digits, padded to milli.
        if fp.len() >= 3 {
            let head = bytes_subrange(fp.as_slice(), 0, 3);
            proof {
                assert(head@ =~= fp@.take(3));
                assert(spec_all_digits(head@));
                lemma_digits_val_bounded(head@);
            }
            let v = match parse_uint_capped(head.as_slice(), 999) {
                Some(v) => v,
                None => {
                    return None;
                },
            };
            frac_val = v;
        } else {
            proof {
                lemma_digits_val_bounded(fp@);
            }
            let v = match parse_uint_capped(fp.as_slice(), 99) {
                Some(v) => v,
                None => {
                    return None;
                },
            };
            frac_val = if fp.len() == 2 {
                v * 10
            } else {
                v * 100
            };
        }
    }
    let magnitude: i64 = (int_val as i64) * 1000 + (frac_val as i64);
    if negative {
        Some(-magnitude)
    } else {
        Some(magnitude)
    }
}

/// Whether every byte of `s` is a decimal digit.
fn all_digits(s: &[u8]) -> (r: bool)
    ensures
        r == spec_all_digits(s@),
{
    let mut i: usize = 0;
    while i < s.len()
        invariant
            i <= s@.len(),
            forall|j: int| 0 <= j < i ==> spec_is_digit(#[trigger] s@[j]),
        decreases s@.len() - i,
    {
        let c = s[i];
        if c < 48 || c > 57 {
            return false;
        }
        i = i + 1;
    }
    true
}

/// A digit string's value is bounded by repeated tens: short strings
/// stay small.
pub proof fn lemma_digits_val_bounded(s: Seq<u8>)
    requires
        spec_all_digits(s),
        s.len() <= 3,
    ensures
        spec_digits_val(s) <= if s.len() == 3 {
            999int
        } else if s.len() == 2 {
            99int
        } else {
            9int
        },
    decreases s.len(),
{
    if s.len() > 0 {
        assert(spec_all_digits(s.drop_last()));
        lemma_digits_val_bounded(s.drop_last());
    }
}

/// A digit string's value is never negative.
pub proof fn lemma_digits_val_nonneg(s: Seq<u8>)
    requires
        spec_all_digits(s),
    ensures
        spec_digits_val(s) >= 0,
    decreases s.len(),
{
    if s.len() > 0 {
        assert(spec_all_digits(s.drop_last()));
        lemma_digits_val_nonneg(s.drop_last());
        assert(spec_digits_val(s.drop_last()) * 10 >= 0) by (nonlinear_arith)
            requires
                spec_digits_val(s.drop_last()) >= 0,
        ;
    }
}

/// Skipping `a` then `b` elements is skipping `a + b` at once.
pub proof fn lemma_skip_skip(s: Seq<u8>, a: int, b: int)
    requires
        0 <= a,
        0 <= b,
        a + b <= s.len(),
    ensures
        s.skip(a).skip(b) =~= s.skip(a + b),
{
    assert forall|i: int| 0 <= i < s.len() - a - b implies s.skip(a).skip(b)[i] == s.skip(a + b)[i]
    by {
        assert(s.skip(a).skip(b)[i] == s.skip(a)[i + b]);
        assert(s.skip(a)[i + b] == s[i + b + a]);
    }
}

/// What a `key:value` line yields: split at the first colon, both sides
/// stripped of surrounding spaces; nothing on a line without a colon.
pub open spec fn spec_key_value(s: Seq<u8>) -> Option<(Seq<u8>, Seq<u8>)> {
    let c = spec_find(s, 58);
    if c == s.len() {
        None
    } else {
        Some((spec_trim(s.take(c)), spec_trim(s.skip(c + 1))))
    }
}

/// Read a `key:value` line. Lines without a colon yield nothing and are
/// ignored by the caller; otherwise the line splits at its first colon
/// and both sides lose their surrounding spaces.
pub fn json_like_key_value_get(line: &[u8]) -> (r: Option<(Vec<u8>, Vec<u8>)>)
    ensures
        r is Some <==> spec_key_value(line@) is Some,
        r matches Some(kv) ==> Some((kv.0@, kv.1@)) == spec_key_value(line@),
{
    proof {
        assert(line@.skip(0) =~= line@);
    }
    let c = find_byte(line, 0, 58);
    if c == line.len() {
        return None;
    }
    proof {
        assert(line@.subrange(0, c as int) =~= line@.take(c as int));
        assert(line@.subrange(c + 1, line@.len() as int) =~= line@.skip(c + 1));
    }
    let key = trim_subrange(line, 0, c);
    let value = trim_subrange(line, c + 1, line.len());
    Some((key, value))
}

/// One timed spawn event from the `[HitObjects]` section: the authored
/// position in milli-units and the time offset in milliseconds.
#[derive(Clone, Copy, PartialEq, Eq, Structural, Debug)]
pub struct HitObject {
    pub hit_type: usize,
    pub time: u32,
    pub x: i64,
    pub y: i64,
}

impl HitObject {
    pub open spec fn wf(self) -> bool {
        spec_abs(self.x as int) <= HIT_COORD_LIMIT && spec_abs(self.y as int) <= HIT_COORD_LIMIT
    }
}

/// Why a beatmap failed to load. Any of these is fatal at load time; no
/// partial beatmap is ever played.
#[derive(Clone, Copy, PartialEq, Eq, Structural, Debug)]
pub enum BeatmapError {
    /// A `[HitObjects]` line held fewer than four comma-separated fields.
    TooFewHitObjectFields,
    /// A numeric field of a `[HitObjects]` line is not a number the
    /// format accepts.
    MalformedNumber,
    /// A section the simulation requires is absent.
    MissingSection,
}

/// A `[HitObjects]` line holds at least four comma-separated fields.
pub open spec fn spec_hit_line_has_fields(s: Seq<u8>) -> bool {
    let c0 = spec_find(s, 44);
    c0 < s.len() && {
        let r1 = s.skip(c0 + 1);
        let c1 = spec_find(r1, 44);
        c1 < r1.len() && {
            let r2 = r1.skip(c1 + 1);
            spec_find(r2, 44) < r2.len()
        }
    }
}

/// What a `[HitObjects]` line parses to: the first four comma-separated
/// fields are position x, position y, time and hit type; any further
/// fields are ignored.
pub open spec fn spec_parse_hit_object(s: Seq<u8>) -> Option<HitObject> {
    if !spec_hit_line_has_fields(s) {
        None
    } else {
        let c0 = spec_find(s, 44);
        let f0 = s.take(c0);
        let r1 = s.skip(c0 + 1);
        let c1 = spec_find(r1, 44);
        let f1 = r1.take(c1);
        let r2 = r1.skip(c1 + 1);
        let c2 = spec_find(r2, 44);
        let f2 = r2.take(c2);
        let r3 = r2.skip(c2 + 1);
        let f3 = r3.take(spec_find(r3, 44));
        if spec_scaled_valid(f0) && spec_scaled_valid(f1) && f2.len() > 0 && spec_all_digits(f2)
            && spec_digits_val(f2) <= u32::MAX && f3.len() > 0 && spec_all_digits(f3)
            && spec_digits_val(f3) <= u32::MAX {
            Some(
                HitObject {
                    x: spec_scaled_val(f0) as i64,
                    y: spec_scaled_val(f1) as i64,
                    time: spec_digits_val(f2) as u32,
                    hit_type: spec_digits_val(f3) as usize,
                },
            )
        } else {
            None
        }
    }
}

/// Parse one `[HitObjects]` line. The result is exactly the spec-level
/// parse; the error tells whether the line was short of fields or held
/// a malformed number.
#[verifier::rlimit(50)]
pub fn hitobject_processing(line: &[u8]) -> (r: Result<HitObject, BeatmapError>)
    ensures
        r is Ok <==> spec_parse_hit_object(line@) is Some,
        r matches Ok(h) ==> spec_parse_hit_object(line@) == Some(h) && h.wf(),
        r == Err::<HitObject, BeatmapError>(BeatmapError::TooFewHitObjectFields) <==> !spec_hit_line_has_fields(line@),
        r == Err::<HitObject, BeatmapError>(BeatmapError::MalformedNumber) <==> (spec_hit_line_has_fields(line@)
            && spec_parse_hit_object(line@) is None),
{
    proof {
        assert(line@.skip(0) =~= line@);
    }
    let c0 = find_byte(line, 0, 44);
    if c0 == line.len() {
        return Err(BeatmapError::TooFewHitObjectFields);
    }
    let c1 = find_byte(line, c0 + 1, 44);
    if c1 == line.len() {
        return Err(BeatmapError::TooFewHitObjectFields);
    }
    proof {
        lemma_skip_skip(line@, c0 + 1, c1 - c0);
    }
    let c2 = find_byte(line, c1 + 1, 44);
    if c2 == line.len() {
        return Err(BeatmapError::TooFewHitObjectFields);
    }
    proof {
        lemma_skip_skip(line@, c1 + 1, c2 - c1);
    }
    let c3 = find_byte(line, c2 + 1, 44);
    proof {
        let r1 = line@.skip(c0 + 1);
        let r2 = line@.skip(c1 + 1);
        let r3 = line@.skip(c2 + 1);
        assert(line@.take(c0 as int) =~= line@.subrange(0, c0 as int));
        assert(r1.take(c1 - c0 - 1) =~= line@.subrange(c0 + 1, c1 as int));
        assert(r2.take(c2 - c1 - 1) =~= line@.subrange(c1 + 1, c2 as int));
        assert(r3.take(c3 - c2 - 1) =~= line@.subrange(c2 + 1, c3 as int));
    }
    let f0 = bytes_subrange(line, 0, c0);
    let f1 = bytes_subrange(line, c0 + 1, c1);
    let f2 = bytes_subrange(line, c1 + 1, c2);
    let f3 = bytes_subrange(line, c2 + 1, c3);
    let x = match parse_scaled(f0.as_slice()) {
        Some(v) => v,
        None => {
            return Err(BeatmapError::MalformedNumber);
        },
    };
    let y = match parse_scaled(f1.as_slice()) {
        Some(v) => v,
        None => {
            return Err(BeatmapError::MalformedNumber);
        },
    };
    let time = match parse_uint_capped(f2.as_slice(), 0xffff_ffff) {
        Some(v) => v as u32,
        None => {
            return Err(BeatmapError::MalformedNumber);
        },
    };
    let hit_type = match parse_uint_capped(f3.as_slice(), 0xffff_ffff) {
        Some(v) => v as usize,
        None => {
            return Err(BeatmapError::MalformedNumber);
        },
    };
    Ok(HitObject { hit_type, time, x, y })
}

/// The spec-level image of a section's contents.
pub enum SpecSectionData {
    KeyValueMap(Seq<(Seq<u8>, Seq<u8>)>),
    HitObjects(Seq<HitObject>),
}

/// The spec-level image of one named section.
pub struct SpecSection {
    pub name: Seq<u8>,
    pub data: SpecSectionData,
}

/// One section's parsed contents: a string-keyed map for ordinary
/// sections, an ordered event list for `[HitObjects]`.
#[derive(Clone, Debug)]
pub enum OsuFileSection {
    KeyValueMap(Vec<(Vec<u8>, Vec<u8>)>),
    HitObjects(Vec<HitObject>),
}

impl View for OsuFileSection {
    type V = SpecSectionData;

    open spec fn view(&self) -> SpecSectionData {
        match self {
            OsuFileSection::KeyValueMap(m) => SpecSectionData::KeyValueMap(
                m@.map_values(|kv: (Vec<u8>, Vec<u8>)| (kv.0@, kv.1@)),
            ),
            OsuFileSection::HitObjects(h) => SpecSectionData::HitObjects(h@),
        }
    }
}

/// One named section of a beatmap file, header brackets included.
#[derive(Clone, Debug)]
pub struct Section {
    pub name: Vec<u8>,
    pub data: OsuFileSection,
}

impl View for Section {
    type V = SpecSection;

    open spec fn view(&self) -> SpecSection {
        SpecSection { name: self.name@, data: self.data@ }
    }
}

/// A parsed beatmap: its sections in the order their headers first
/// appeared.
#[derive(Clone, Debug)]
pub struct Beatmap(pub Vec<Section>);

impl View for Beatmap {
    type V = Seq<SpecSection>;

    open spec fn view(&self) -> Seq<SpecSection> {
        self.0@.map_values(|s: Section| s@)
    }
}

/// The name of the hit-object section, brackets included.
pub open spec fn spec_hit_objects_name() -> Seq<u8> {
    seq![91u8, 72u8, 105u8, 116u8, 79u8, 98u8, 106u8, 101u8, 99u8, 116u8, 115u8, 93u8]
}

/// The byte string `[HitObjects]`.
pub fn hit_objects_name() -> (r: Vec<u8>)
    ensures
        r@ == spec_hit_objects_name(),
{
    let mut r: Vec<u8> = Vec::new();
    r.push(91);
    r.push(72);
    r.push(105);
    r.push(116);
    r.push(79);
    r.push(98);
    r.push(106);
    r.push(101);
    r.push(99);
    r.push(116);
    r.push(115);
    r.push(93);
    proof {
        assert(r@ =~= spec_hit_objects_name());
    }
    r
}

/// The first section with the given name, or the section count when the
/// name is new.
pub open spec fn spec_section_index(sections: Seq<SpecSection>, name: Seq<u8>) -> int
    decreases sections.len(),
{
    if sections.len() == 0 {
        0
    } else if sections[0].name == name {
        0
    } else {
        1 + spec_section_index(sections.drop_first(), name)
    }
}

/// `spec_section_index` is the unique first match, like `spec_find`.
pub proof fn lemma_section_index_characterizes(
    sections: Seq<SpecSection>,
    name: Seq<u8>,
    i: int,
)
    requires
        0 <= i <= sections.len(),
        forall|j: int| 0 <= j < i ==> (#[trigger] sections[j]).name != name,
        i == sections.len() || sections[i].name == name,
    ensures
        spec_section_index(sections, name) == i,
    decreases sections.len(),
{
    if sections.len() > 0 {
        if i == 0 {
            if sections[0].name != name {
                assert(i < sections.len() && sections[i].name == name);
            }
        } else {
            assert(sections[0].name != name);
            let t = sections.drop_first();
            assert forall|j: int| 0 <= j < i - 1 implies (#[trigger] t[j]).name != name by {
                assert(t[j] == sections[j + 1]);
            }
            assert(i - 1 == t.len() || t[i - 1].name == name);
            lemma_section_index_characterizes(t, name, i - 1);
        }
    }
}

/// The first entry of `m` with key `k`, or the entry count.
pub open spec fn spec_kv_index(m: Seq<(Seq<u8>, Seq<u8>)>, k: Seq<u8>) -> int
    decreases m.len(),
{
    if m.len() == 0 {
        0
    } else if m[0].0 == k {
        0
    } else {
        1 + spec_kv_index(m.drop_first(), k)
    }
}

/// `spec_kv_index` is the unique first match, like `spec_find`.
pub proof fn lemma_kv_index_characterizes(m: Seq<(Seq<u8>, Seq<u8>)>, k: Seq<u8>, i: int)
    requires
        0 <= i <= m.len(),
        forall|j: int| 0 <= j < i ==> (#[trigger] m[j]).0 != k,
        i == m.len() || m[i].0 == k,
    ensures
        spec_kv_index(m, k) == i,
    decreases m.len(),
{
    if m.len() > 0 {
        if i == 0 {
            if m[0].0 != k {
                assert(i < m.len() && m[i].0 == k);
            }
        } else {
            assert(m[0].0 != k);
            let t = m.drop_first();
            assert forall|j: int| 0 <= j < i - 1 implies (#[trigger] t[j]).0 != k by {
                assert(t[j] == m[j + 1]);
            }
            assert(i - 1 == t.len() || t[i - 1].0 == k);
            lemma_kv_index_characterizes(t, k, i - 1);
        }
    }
}

/// Inserting into a string-keyed map replaces the value of the first
/// entry with that key, or appends a new entry.
pub open spec fn spec_kv_insert(
    m: Seq<(Seq<u8>, Seq<u8>)>,
    k: Seq<u8>,
    v: Seq<u8>,
) -> Seq<(Seq<u8>, Seq<u8>)> {
    let i = spec_kv_index(m, k);
    if i < m.len() {
        m.update(i, (k, v))
    } else {
        m.push((k, v))
    }
}

/// The parser's running state: the sections seen so far and which of
/// them data lines currently belong to. Lines before the first header
/// belong to no section and are ignored.
pub struct SpecParseState {
    pub sections: Seq<SpecSection>,
    pub current: Option<int>,
}

impl SpecParseState {
    pub open spec fn wf(self) -> bool {
        match self.current {
            None => true,
            Some(c) => 0 <= c < self.sections.len(),
        }
    }
}

/// How one line advances the parser: empty lines vanish; a `[` line
/// selects the section of that exact name, creating it (as an event
/// list only for `[HitObjects]`) when new; a data line feeds the
/// selected section — a failed hit-object line is fatal, a data line
/// without a colon in a key-value section is ignored.
pub open spec fn spec_osu_step(st: SpecParseState, line: Seq<u8>) -> Option<SpecParseState> {
    if line.len() == 0 {
        Some(st)
    } else if line[0] == 91 {
        let i = spec_section_index(st.sections, line);
        if i < st.sections.len() {
            Some(SpecParseState { sections: st.sections, current: Some(i) })
        } else {
            let data = if line == spec_hit_objects_name() {
                SpecSectionData::HitObjects(Seq::empty())
            } else {
                SpecSectionData::KeyValueMap(Seq::empty())
            };
            Some(
                SpecParseState {
                    sections: st.sections.push(SpecSection { name: line, data }),
                    current: Some(st.sections.len() as int),
                },
            )
        }
    } else {
        match st.current {
            None => Some(st),
            Some(c) => match st.sections[c].data {
                SpecSectionData::HitObjects(hs) => match spec_parse_hit_object(line) {
                    None => None,
                    Some(h) => Some(
                        SpecParseState {
                            sections: st.sections.update(
                                c,
                                SpecSection {
                                    data: SpecSectionData::HitObjects(hs.push(h)),
                                    ..st.sections[c]
                                },
                            ),
                            ..st
                        },
                    ),
                },
                SpecSectionData::KeyValueMap(m) => match spec_key_value(line) {
                    None => Some(st),
                    Some(kv) => Some(
                        SpecParseState {
                            sections: st.sections.update(
                                c,
                                SpecSection {
                                    data: SpecSectionData::KeyValueMap(
                                        spec_kv_insert(m, kv.0, kv.1),
                                    ),
                                    ..st.sections[c]
                                },
                            ),
                            ..st
                        },
                    ),
                },
            },
        }
    }
}

/// The parser state after the first `n` lines, starting from no
/// sections; nothing once a line has failed.
pub open spec fn spec_osu_fold(lines: Seq<Seq<u8>>, n: int) -> Option<SpecParseState>
    decreases n,
{
    if n <= 0 {
        Some(SpecParseState { sections: Seq::empty(), current: None })
    } else {
        match spec_osu_fold(lines, n - 1) {
            None => None,
            Some(st) => spec_osu_step(st, lines[n - 1]),
        }
    }
}

/// The source with every carriage return removed.
pub open spec fn spec_clean(src: Seq<u8>) -> Seq<u8> {
    src.filter(|b: u8| b != 13)
}

/// The source split at every newline; a trailing newline yields a final
/// empty line, as splitting does.
pub open spec fn spec_lines(s: Seq<u8>) -> Seq<Seq<u8>>
    decreases s.len(),
{
    let nl = spec_find(s, 10);
    if nl < 0 || nl >= s.len() {
        seq![s]
    } else {
        seq![s.take(nl)] + spec_lines(s.skip(nl + 1))
    }
}

/// What a whole beatmap source parses to: carriage returns stripped,
/// the lines folded through the parser; nothing when any hit-object
/// line is malformed.
pub open spec fn spec_parse_osu(src: Seq<u8>) -> Option<Seq<SpecSection>> {
    let lines = spec_lines(spec_clean(src));
    match spec_osu_fold(lines, lines.len() as int) {
        None => None,
        Some(st) => Some(st.sections),
    }
}

/// Every hit object of every section is within the coordinate limits.
pub open spec fn spec_section_wf(s: SpecSection) -> bool {
    match s.data {
        SpecSectionData::HitObjects(hs) => forall|j: int|
            0 <= j < hs.len() ==> (#[trigger] hs[j]).wf(),
        SpecSectionData::KeyValueMap(_) => true,
    }
}

pub open spec fn spec_sections_wf(sections: Seq<SpecSection>) -> bool {
    forall|i: int| 0 <= i < sections.len() ==> spec_section_wf(#[trigger] sections[i])
}

impl Beatmap {
    pub open spec fn wf(self) -> bool {
        spec_sections_wf(self@)
    }
}

/// A hit object produced by the line parser respects the coordinate
/// limits.
pub proof fn lemma_parsed_hit_object_wf(s: Seq<u8>, h: HitObject)
    requires
        spec_parse_hit_object(s) == Some(h),
    ensures
        h.wf(),
{
    let c0 = spec_find(s, 44);
    let f0 = s.take(c0);
    let r1 = s.skip(c0 + 1);
    let c1 = spec_find(r1, 44);
    let f1 = r1.take(c1);
    lemma_scaled_val_bounded(f0);
    lemma_scaled_val_bounded(f1);
}

/// A valid coordinate field's milli value stays within the limit.
pub proof fn lemma_scaled_val_bounded(s: Seq<u8>)
    requires
        spec_scaled_valid(s),
    ensures
        spec_abs(spec_scaled_val(s)) <= HIT_COORD_LIMIT,
{
    let u = spec_unsigned_part(s);
    let dot = spec_find(u, 46);
    let ip = u.take(dot);
    lemma_digits_val_nonneg(ip);
    if dot < u.len() {
        let fp = u.skip(dot + 1);
        if fp.len() >= 3 {
            assert(spec_all_digits(fp.take(3))) by {
                assert forall|j: int| 0 <= j < 3 implies spec_is_digit(#[trigger] fp.take(3)[j])
                by {
                    assert(fp.take(3)[j] == fp[j]);
                }
            }
            lemma_digits_val_bounded(fp.take(3));
            lemma_digits_val_nonneg(fp.take(3));
        } else {
            lemma_digits_val_bounded(fp);
            lemma_digits_val_nonneg(fp);
        }
    }
}

/// One parser step keeps every section well formed.
pub proof fn lemma_step_preserves_wf(st: SpecParseState, line: Seq<u8>, nxt: SpecParseState)
    requires
        st.wf(),
        spec_sections_wf(st.sections),
        spec_osu_step(st, line) == Some(nxt),
    ensures
        nxt.wf(),
        spec_sections_wf(nxt.sections),
{
    if line.len() == 0 {
    } else if line[0] == 91 {
        let i = spec_section_index(st.sections, line);
        if i < st.sections.len() {
            lemma_section_index_bounds(st.sections, line);
        } else {
            assert forall|k: int| 0 <= k < nxt.sections.len() implies spec_section_wf(
                #[trigger] nxt.sections[k],
            ) by {
                if k < st.sections.len() {
                    assert(nxt.sections[k] == st.sections[k]);
                } else {
                    assert(nxt.sections[k] == nxt.sections.last());
                }
            }
        }
    } else {
        match st.current {
            None => {},
            Some(c) => {
                match st.sections[c].data {
                    SpecSectionData::HitObjects(hs) => {
                        match spec_parse_hit_object(line) {
                            None => {},
                            Some(h) => {
                                lemma_parsed_hit_object_wf(line, h);
                                assert(spec_section_wf(st.sections[c]));
                                assert forall|k: int|
                                    0 <= k < nxt.sections.len() implies spec_section_wf(
                                    #[trigger] nxt.sections[k],
                                ) by {
                                    if k != c {
                                        assert(nxt.sections[k] == st.sections[k]);
                                    } else {
                                        let nhs = hs.push(h);
                                        assert forall|j: int|
                                            0 <= j < nhs.len() implies (#[trigger] nhs[j]).wf()
                                        by {
                                            if j < hs.len() {
                                                assert(nhs[j] == hs[j]);
                                            } else {
                                                assert(nhs[j] == h);
                                            }
                                        }
                                    }
                                }
                            },
                        }
                    },
                    SpecSectionData::KeyValueMap(_) => {
                        match spec_key_value(line) {
                            None => {},
                            Some(kv) => {
                                assert forall|k: int|
                                    0 <= k < nxt.sections.len() implies spec_section_wf(
                                    #[trigger] nxt.sections[k],
                                ) by {
                                    if k != c {
                                        assert(nxt.sections[k] == st.sections[k]);
                                    }
                                }
                            },
                        }
                    },
                }
            },
        }
    }
}

/// A first-match section index never passes the section count.
pub proof fn lemma_section_index_bounds(sections: Seq<SpecSection>, name: Seq<u8>)
    ensures
        0 <= spec_section_index(sections, name) <= sections.len(),
        spec_section_index(sections, name) < sections.len() ==> sections[spec_section_index(
            sections,
            name,
        )].name == name,
    decreases sections.len(),
{
    if sections.len() > 0 && sections[0].name != name {
        lemma_section_index_bounds(sections.drop_first(), name);
    }
}

/// Strip every carriage return from the source.
fn clean_source(src: &[u8]) -> (r: Vec<u8>)
    ensures
        r@ == spec_clean(src@),
{
    let mut r: Vec<u8> = Vec::new();
    let mut i: usize = 0;
    proof {
        assert(src@.take(0).filter(|b: u8| b != 13) =~= Seq::empty());
    }
    while i < src.len()
        invariant
            i <= src@.len(),
            r@ == src@.take(i as int).filter(|b: u8| b != 13),
        decreases src@.len() - i,
    {
        let c = src[i];
        proof {
            assert(src@.take(i + 1).drop_last() =~= src@.take(i as int));
            assert(src@.take(i + 1).last() == src@[i as int]);
            reveal(Seq::filter);
        }
        if c != 13 {
            r.push(c);
        }
        i = i + 1;
    }
    proof {
        assert(src@.take(src@.len() as int) =~= src@);
    }
    r
}

/// Split the cleaned source at every newline.
fn split_lines(s: &[u8]) -> (r: Vec<Vec<u8>>)
    requires
        s@.len() < usize::MAX,
    ensures
        r@.map_values(|l: Vec<u8>| l@) == spec_lines(s@),
{
    let mut lines: Vec<Vec<u8>> = Vec::new();
    let mut pos: usize = 0;
    proof {
        assert(s@.skip(0) =~= s@);
        assert(lines@.map_values(|l: Vec<u8>| l@) =~= Seq::<Seq<u8>>::empty());
        assert(Seq::<Seq<u8>>::empty() + spec_lines(s@) =~= spec_lines(s@));
    }
    while pos <= s.len()
        invariant
            s@.len() < usize::MAX,
            pos <= s@.len() + 1,
            pos <= s@.len() ==> spec_lines(s@) == lines@.map_values(|l: Vec<u8>| l@) + spec_lines(
                s@.skip(pos as int),
            ),
            pos == s@.len() + 1 ==> spec_lines(s@) == lines@.map_values(|l: Vec<u8>| l@),
        decreases s@.len() + 1 - pos,
    {
        let nl = find_byte(s, pos, 10);
        let piece = bytes_subrange(s, pos, nl);
        proof {
            let tail = s@.skip(pos as int);
            let prefix = lines@.map_values(|l: Vec<u8>| l@);
            if nl == s@.len() {
                assert(spec_find(tail, 10) == tail.len());
                assert(spec_lines(tail) =~= seq![tail]);
                assert(piece@ =~= tail);
                assert(lines@.push(piece).map_values(|l: Vec<u8>| l@) =~= prefix.push(piece@));
                assert(prefix.push(piece@) =~= prefix + seq![tail]);
            } else {
                assert(spec_find(tail, 10) == nl - pos);
                assert(tail.take(nl - pos) =~= piece@);
                lemma_skip_skip(s@, pos as int, nl - pos + 1);
                assert(spec_lines(tail) == seq![piece@] + spec_lines(s@.skip(nl + 1)));
                assert(lines@.push(piece).map_values(|l: Vec<u8>| l@) =~= prefix.push(piece@));
                assert(prefix + (seq![piece@] + spec_lines(s@.skip(nl + 1))) =~= prefix.push(
                    piece@,
                ) + spec_lines(s@.skip(nl + 1)));
            }
        }
        lines.push(piece);
        pos = nl + 1;
    }
    lines
}

/// The first section of that exact name, or the section count.
fn find_section(sections: &Vec<Section>, name: &[u8]) -> (r: usize)
    ensures
        r as int == spec_section_index(sections@.map_values(|s: Section| s@), name@),
        r <= sections@.len(),
{
    let ghost v = sections@.map_values(|s: Section| s@);
    let mut i: usize = 0;
    while i < sections.len()
        invariant
            i <= sections@.len(),
            v == sections@.map_values(|s: Section| s@),
            forall|j: int| 0 <= j < i ==> (#[trigger] v[j]).name != name@,
        decreases sections@.len() - i,
    {
        if bytes_eq(sections[i].name.as_slice(), name) {
            proof {
                assert(v[i as int].name == name@);
                lemma_section_index_characterizes(v, name@, i as int);
            }
            return i;
        }
        proof {
            assert(v[i as int].name == sections@[i as int].name@);
        }
        i = i + 1;
    }
    proof {
        lemma_section_index_characterizes(v, name@, sections@.len() as int);
    }
    sections.len()
}

/// Insert into a string-keyed map: replace the first entry with this
/// key, or append a new one.
fn kv_insert(m: &mut Vec<(Vec<u8>, Vec<u8>)>, k: Vec<u8>, v: Vec<u8>)
    ensures
        final(m)@.map_values(|kv: (Vec<u8>, Vec<u8>)| (kv.0@, kv.1@)) == spec_kv_insert(
            old(m)@.map_values(|kv: (Vec<u8>, Vec<u8>)| (kv.0@, kv.1@)),
            k@,
            v@,
        ),
{
    let ghost mv = m@.map_values(|kv: (Vec<u8>, Vec<u8>)| (kv.0@, kv.1@));
    let mut i: usize = 0;
    while i < m.len()
        invariant
            i <= m@.len(),
            m@.map_values(|kv: (Vec<u8>, Vec<u8>)| (kv.0@, kv.1@)) == mv,
            mv == old(m)@.map_values(|kv: (Vec<u8>, Vec<u8>)| (kv.0@, kv.1@)),
            forall|j: int| 0 <= j < i ==> (#[trigger] mv[j]).0 != k@,
        decreases m@.len() - i,
    {
        let found = bytes_eq(m[i].0.as_slice(), k.as_slice());
        if found {
            proof {
                assert(mv[i as int].0 == k@);
                lemma_kv_index_characterizes(mv, k@, i as int);
            }
            m.set(i, (k, v));
            proof {
                assert(m@.map_values(|kv: (Vec<u8>, Vec<u8>)| (kv.0@, kv.1@)) =~= mv.update(
                    i as int,
                    (k@, v@),
                ));
            }
            return ;
        }
        proof {
            assert(mv[i as int].0 == m@[i as int].0@);
        }
        i = i + 1;
    }
    proof {
        lemma_kv_index_characterizes(mv, k@, m@.len() as int);
    }
    m.push((k, v));
    proof {
        assert(m@.map_values(|kv: (Vec<u8>, Vec<u8>)| (kv.0@, kv.1@)) =~= mv.push((k@, v@)));
    }
}

/// Parse a whole beatmap source. The sections come out exactly as the
/// spec-level parse describes; the first malformed hit-object line
/// aborts the load with its own error, as a beatmap load failure is
/// fatal.
pub fn parse_osu(source: &[u8]) -> (r: Result<Beatmap, BeatmapError>)
    requires
        source@.len() < usize::MAX,
    ensures
        r is Ok <==> spec_parse_osu(source@) is Some,
        r matches Ok(b) ==> Some(b@) == spec_parse_osu(source@) && b.wf(),
{
    let cleaned = clean_source(source);
    proof {
        source@.lemma_filter_len(|b: u8| b != 13);
    }
    let lines = split_lines(cleaned.as_slice());
    let ghost lv = lines@.map_values(|l: Vec<u8>| l@);
    let mut sections: Vec<Section> = Vec::new();
    let mut current: Option<usize> = None;
    let mut i: usize = 0;
    proof {
        source@.lemma_filter_len(|b: u8| b != 13);
        assert(lv =~= spec_lines(spec_clean(source@)));
        assert(sections@.map_values(|s: Section| s@) =~= Seq::<SpecSection>::empty());
    }
    while i < lines.len()
        invariant
            i <= lines@.len(),
            lv == lines@.map_values(|l: Vec<u8>| l@),
            lv == spec_lines(spec_clean(source@)),
            spec_osu_fold(lv, i as int) == Some(
                SpecParseState {
                    sections: sections@.map_values(|s: Section| s@),
                    current: match current {
                        None => None::<int>,
                        Some(c) => Some(c as int),
                    },
                },
            ),
            current matches Some(c) ==> c < sections@.len(),
        decreases lines@.len() - i,
    {
        let ghost st = SpecParseState {
            sections: sections@.map_values(|s: Section| s@),
            current: match current {
                None => None::<int>,
                Some(c) => Some(c as int),
            },
        };
        let line = &lines[i];
        proof {
            assert(lv[i as int] == line@);
        }
        if line.len() == 0 {
            // An empty line carries nothing.
        } else if line[0] == 91 {
            let name_template = hit_objects_name();
            let idx = find_section(&sections, line.as_slice());
            if idx < sections.len() {
                current = Some(idx);
            } else {
                let data = if bytes_eq(line.as_slice(), name_template.as_slice()) {
                    OsuFileSection::HitObjects(Vec::new())
                } else {
                    OsuFileSection::KeyValueMap(Vec::new())
                };
                let named = bytes_subrange(line.as_slice(), 0, line.len());
                current = Some(sections.len());
                let section = Section { name: named, data };
                proof {
                    assert(section@.name =~= line@);
                    match section@.data {
                        SpecSectionData::HitObjects(hs) => {
                            assert(hs =~= Seq::<HitObject>::empty());
                        },
                        SpecSectionData::KeyValueMap(m) => {
                            assert(m =~= Seq::<(Seq<u8>, Seq<u8>)>::empty());
                        },
                    }
                }
                sections.push(section);
                proof {
                    assert(sections@.map_values(|s: Section| s@) =~= st.sections.push(
                        sections@.last()@,
                    ));
                }
            }
        } else {
            match current {
                None => {
                    // Data before the first section header is ignored.
                },
                Some(ci) => {
                    let section = &mut sections[ci];
                    match &mut section.data {
                        OsuFileSection::HitObjects(hs) => {
                            match hitobject_processing(line.as_slice()) {
                                Ok(h) => {
                                    hs.push(h);
                                },
                                Err(e) => {
                                    proof {
                                        assert(st.sections[ci as int].data is HitObjects);
                                        assert(spec_osu_step(st, lv[i as int]) is None);
                                        assert(spec_osu_fold(lv, i + 1) is None);
                                        lemma_fold_none_propagates(lv, i + 1, lv.len() as int);
                                    }
                                    return Err(e);
                                },
                            }
                        },
                        OsuFileSection::KeyValueMap(m) => {
                            match json_like_key_value_get(line.as_slice()) {
                                Some(kv) => {
                                    kv_insert(m, kv.0, kv.1);
                                },
                                None => {
                                    // A data line without a colon is skipped.
                                },
                            }
                        },
                    }
                },
            }
            proof {
                assert(sections@.map_values(|s: Section| s@) =~= spec_osu_step(
                    st,
                    lv[i as int],
                ).unwrap().sections);
            }
        }
        i = i + 1;
    }
    proof {
        assert(i as int == lv.len());
        let st = spec_osu_fold(lv, lv.len() as int).unwrap();
        lemma_fold_wf(lv, lv.len() as int);
    }
    Ok(Beatmap(sections))
}

/// A failed fold never recovers: every longer prefix fails too.
pub proof fn lemma_fold_none_propagates(lines: Seq<Seq<u8>>, a: int, b: int)
    requires
        0 <= a <= b,
        spec_osu_fold(lines, a) is None,
    ensures
        spec_osu_fold(lines, b) is None,
    decreases b - a,
{
    if b > a {
        lemma_fold_none_propagates(lines, a, b - 1);
    }
}

impl Beatmap {
    /// The first section with this exact name, header brackets included.
    pub fn get<'a>(&'a self, name: &[u8]) -> (r: Option<&'a OsuFileSection>)
        ensures
            ({
                let i = spec_section_index(self@, name@);
                match r {
                    Some(data) => i < self@.len() && data@ == self@[i].data,
                    None => i == self@.len(),
                }
            }),
    {
        let i = find_section(&self.0, name);
        if i < self.0.len() {
            Some(&self.0[i].data)
        } else {
            None
        }
    }

    /// The value stored under `key` in the section of that name, if the
    /// section exists, is a key-value section, and holds the key.
    pub fn section_value(&self, name: &[u8], key: &[u8]) -> (r: Option<Vec<u8>>)
        ensures
            ({
                let i = spec_section_index(self@, name@);
                if i < self@.len() {
                    match self@[i].data {
                        SpecSectionData::KeyValueMap(m) => {
                            let k = spec_kv_index(m, key@);
                            match r {
                                Some(v) => k < m.len() && v@ == m[k].1,
                                None => k == m.len(),
                            }
                        },
                        SpecSectionData::HitObjects(_) => r is None,
                    }
                } else {
                    r is None
                }
            }),
    {
        let section = match self.get(name) {
            Some(s) => s,
            None => {
                return None;
            },
        };
        let m = match section {
            OsuFileSection::KeyValueMap(m) => m,
            OsuFileSection::HitObjects(_) => {
                return None;
            },
        };
        let ghost mv = m@.map_values(|kv: (Vec<u8>, Vec<u8>)| (kv.0@, kv.1@));
        let ghost si = spec_section_index(self@, name@);
        proof {
            lemma_section_index_bounds(self@, name@);
        }
        let mut j: usize = 0;
        while j < m.len()
            invariant
                j <= m@.len(),
                mv == m@.map_values(|kv: (Vec<u8>, Vec<u8>)| (kv.0@, kv.1@)),
                si == spec_section_index(self@, name@),
                0 <= si < self@.len(),
                self@[si].data == SpecSectionData::KeyValueMap(mv),
                forall|q: int| 0 <= q < j ==> (#[trigger] mv[q]).0 != key@,
            decreases m@.len() - j,
        {
            if bytes_eq(m[j].0.as_slice(), key) {
                proof {
                    assert(mv[j as int].0 == key@);
                    lemma_kv_index_characterizes(mv, key@, j as int);
                }
                let v = bytes_subrange(m[j].1.as_slice(), 0, m[j].1.len());
                proof {
                    assert(v@ =~= mv[j as int].1);
                }
                return Some(v);
            }
            proof {
                assert(mv[j as int].0 == m@[j as int].0@);
            }
            j = j + 1;
        }
        proof {
            lemma_kv_index_characterizes(mv, key@, m@.len() as int);
        }
        None
    }

    /// The hit-object list, when a `[HitObjects]` section exists.
    pub fn hit_objects<'a>(&'a self) -> (r: Option<&'a Vec<HitObject>>)
        ensures
            spec_beatmap_hit_objects(self@) is Some <==> r is Some,
            r matches Some(hs) ==> Some(hs@) == spec_beatmap_hit_objects(self@),
    {
        let name = hit_objects_name();
        match self.get(name.as_slice()) {
            Some(OsuFileSection::HitObjects(hs)) => Some(hs),
            _ => None,
        }
    }
}

/// The hit objects of a beatmap, when a section named `[HitObjects]`
/// exists and holds an event list.
pub open spec fn spec_beatmap_hit_objects(bm: Seq<SpecSection>) -> Option<Seq<HitObject>> {
    let i = spec_section_index(bm, spec_hit_objects_name());
    if i < bm.len() {
        match bm[i].data {
            SpecSectionData::HitObjects(hs) => Some(hs),
            SpecSectionData::KeyValueMap(_) => None,
        }
    } else {
        None
    }
}

/// The playback cursor over a beatmap: one timer gates when fruits begin
/// to spawn, a second, longer one gates when the music begins (so the
/// music lags the first fruits by a fixed offset), and the play timer
/// measures elapsed track time while the cursor walks the hit objects.
#[derive(Clone, Copy, PartialEq, Eq, Structural, Debug)]
pub struct BeatmapPlayback {
    pub start_timer: Timer,
    pub play_timer: Timer,
    pub music_offset_timer: Timer,
    pub beatmap_started: bool,
    pub current_hit_object_id: usize,
}

impl BeatmapPlayback {
    pub open spec fn wf(self) -> bool {
        self.start_timer.wf() && self.play_timer.wf() && self.music_offset_timer.wf()
    }
}

impl Default for BeatmapPlayback {
    fn default() -> (r: BeatmapPlayback)
        ensures
            r == (BeatmapPlayback {
                start_timer: Timer { duration_ms: 0, elapsed_ms: 0, paused: false, just_finished: false },
                play_timer: Timer { duration_ms: 0, elapsed_ms: 0, paused: false, just_finished: false },
                music_offset_timer: Timer { duration_ms: 0, elapsed_ms: 0, paused: false, just_finished: false },
                beatmap_started: false,
                current_hit_object_id: 0,
            }),
            r.wf(),
    {
        BeatmapPlayback {
            start_timer: Timer::new(0),
            play_timer: Timer::new(0),
            music_offset_timer: Timer::new(0),
            beatmap_started: false,
            current_hit_object_id: 0,
        }
    }
}

/// The track length a playback runs for: the time of the last hit
/// object, or zero on an empty list.
pub open spec fn spec_track_ms(hs: Seq<HitObject>) -> int {
    if hs.len() == 0 {
        0
    } else {
        hs.last().time as int
    }
}

/// Build the playback state for a loaded beatmap: the play timer spans
/// the track up to its last hit object, the spawn gate waits the initial
/// delay, and the music gate waits its own, longer offset. A beatmap
/// without a `[HitObjects]` section is a fatal load error.
pub fn init_system(beatmap: &Beatmap) -> (r: Result<BeatmapPlayback, BeatmapError>)
    ensures
        r is Ok <==> spec_beatmap_hit_objects(beatmap@) is Some,
        r is Err ==> r == Err::<BeatmapPlayback, BeatmapError>(BeatmapError::MissingSection),
        r matches Ok(pb) ==> {
            &&& pb == (BeatmapPlayback {
                start_timer: Timer {
                    duration_ms: BEATMAP_INITIAL_WAIT_MS,
                    elapsed_ms: 0,
                    paused: false,
                    just_finished: false,
                },
                play_timer: Timer {
                    duration_ms: spec_track_ms(spec_beatmap_hit_objects(beatmap@).unwrap()) as u64,
                    elapsed_ms: 0,
                    paused: false,
                    just_finished: false,
                },
                music_offset_timer: Timer {
                    duration_ms: BEATMAP_MUSIC_OFFSET_MS,
                    elapsed_ms: 0,
                    paused: false,
                    just_finished: false,
                },
                beatmap_started: false,
                current_hit_object_id: 0,
            })
            &&& pb.wf()
        },
{
    let hit_objects = match beatmap.hit_objects() {
        Some(hs) => hs,
        None => {
            return Err(BeatmapError::MissingSection);
        },
    };
    let track_ms: u64 = if hit_objects.len() == 0 {
        0
    } else {
        hit_objects[hit_objects.len() - 1].time as u64
    };
    Ok(
        BeatmapPlayback {
            start_timer: Timer::new(BEATMAP_INITIAL_WAIT_MS),
            play_timer: Timer::new(track_ms),
            music_offset_timer: Timer::new(BEATMAP_MUSIC_OFFSET_MS),
            beatmap_started: false,
            current_hit_object_id: 0,
        },
    )
}

/// Advance the two gating timers by one tick. The instant the spawn
/// gate finishes, fruit spawning is switched on and both the play clock
/// and the music gate start running; the instant the music gate
/// finishes, the caller is told to start the audio track.
pub fn beatmap_start_system(playback: &mut BeatmapPlayback, dt_ms: u64) -> (start_music: bool)
    requires
        old(playback).wf(),
    ensures
        ({
            let started_gate = old(playback).start_timer.spec_tick(dt_ms);
            let play_mid = if started_gate.just_finished {
                Timer { paused: false, ..old(playback).play_timer }
            } else {
                old(playback).play_timer
            };
            let music_mid = if started_gate.just_finished {
                Timer { paused: false, ..old(playback).music_offset_timer }
            } else {
                old(playback).music_offset_timer
            };
            let music_after = music_mid.spec_tick(dt_ms);
            &&& *final(playback) == (BeatmapPlayback {
                start_timer: started_gate,
                play_timer: play_mid,
                music_offset_timer: music_after,
                beatmap_started: old(playback).beatmap_started || started_gate.just_finished,
                current_hit_object_id: old(playback).current_hit_object_id,
            })
            &&& start_music == music_after.just_finished
        }),
        final(playback).wf(),
{
    playback.start_timer.tick(dt_ms);
    if playback.start_timer.just_finished {
        playback.beatmap_started = true;
        playback.play_timer.unpause();
        playback.music_offset_timer.unpause();
    }
    playback.music_offset_timer.tick(dt_ms);
    playback.music_offset_timer.just_finished
}

/// The suffix `.mp3`.
pub open spec fn spec_mp3_suffix() -> Seq<u8> {
    seq![46u8, 109u8, 112u8, 51u8]
}

/// The suffix `.ogg`.
pub open spec fn spec_ogg_suffix() -> Seq<u8> {
    seq![46u8, 111u8, 103u8, 103u8]
}

/// Swap a trailing `.mp3` extension for `.ogg`; any other name passes
/// through unchanged. The audio subsystem only decodes the ogg variant
/// of a track named by the beatmap.
pub fn audio_file_with_ogg_extension(name: &[u8]) -> (r: Vec<u8>)
    ensures
        name@.len() >= 4 && name@.skip(name@.len() - 4) == spec_mp3_suffix() ==> r@ == name@.take(
            name@.len() - 4,
        ) + spec_ogg_suffix(),
        !(name@.len() >= 4 && name@.skip(name@.len() - 4) == spec_mp3_suffix()) ==> r@ == name@,
{
    if name.len() >= 4 {
        let tail = bytes_subrange(name, name.len() - 4, name.len());
        proof {
            assert(tail@ =~= name@.skip(name@.len() - 4));
        }
        let mut mp3: Vec<u8> = Vec::new();
        mp3.push(46);
        mp3.push(109);
        mp3.push(112);
        mp3.push(51);
        proof {
            assert(mp3@ =~= spec_mp3_suffix());
        }
        if bytes_eq(tail.as_slice(), mp3.as_slice()) {
            let mut r = bytes_subrange(name, 0, name.len() - 4);
            r.push(46);
            r.push(111);
            r.push(103);
            r.push(103);
            proof {
                assert(r@ =~= name@.take(name@.len() - 4) + spec_ogg_suffix());
            }
            return r;
        }
    }
    let copy = bytes_subrange(name, 0, name.len());
    proof {
        assert(copy@ =~= name@);
    }
    copy
}

/// Every state the fold reaches keeps its sections well formed.
pub proof fn lemma_fold_wf(lines: Seq<Seq<u8>>, n: int)
    requires
        spec_osu_fold(lines, n) is Some,
    ensures
        spec_sections_wf(spec_osu_fold(lines, n).unwrap().sections),
        spec_osu_fold(lines, n).unwrap().wf(),
    decreases n,
{
    if n > 0 {
        lemma_fold_wf(lines, n - 1);
        lemma_step_preserves_wf(
            spec_osu_fold(lines, n - 1).unwrap(),
            lines[n - 1],
            spec_osu_fold(lines, n).unwrap(),
        );
    }
}

} // verus!
