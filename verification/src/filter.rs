//! Size and time constraints given on the command line (`--size`,
//! `--changed-within`, `--changed-before`).

use vstd::prelude::*;
use crate::text::{self, chars_of, digits_value, split_on};

verus! {

// ---------------------------------------------------------------------------
// Size
// ---------------------------------------------------------------------------

/// A `--size` constraint in bytes.
#[derive(Debug, Clone, Copy, PartialEq, Eq, Structural)]
pub enum SizeFilter {
    /// `-<n><unit>`: at most this many bytes.
    Max(u64),
    /// `+<n><unit>`: at least this many bytes.
    Min(u64),
    /// `<n><unit>`: exactly this many bytes.
    Equals(u64),
}

pub open spec fn is_ascii_digit(c: char) -> bool {
    '0' <= c <= '9'
}

/// Case folding used for size units: ASCII upper case, and the Kelvin sign
/// (which folds to `k`), become lower case.
pub open spec fn fold_char(c: char) -> char {
    if 'A' <= c <= 'Z' {
        ((c as u32) + 32) as char
    } else if c == '\u{212A}' {
        'k'
    } else {
        c
    }
}

pub open spec fn fold_seq(s: Seq<char>) -> Seq<char> {
    s.map_values(|c: char| fold_char(c))
}

/// Bytes per unit: `b`; `k`/`kb`, `m`/`mb`, `g`/`gb`, `t`/`tb` (powers of
/// 1000); `ki`/`kib` ... `ti`/`tib` (powers of 1024), in any case.
pub open spec fn unit_multiplier(u: Seq<char>) -> Option<u64> {
    let l = fold_seq(u);
    if l == seq!['b'] {
        Some(1u64)
    } else if l == seq!['k'] || l == seq!['k', 'b'] {
        Some(1000u64)
    } else if l == seq!['k', 'i'] || l == seq!['k', 'i', 'b'] {
        Some(1024u64)
    } else if l == seq!['m'] || l == seq!['m', 'b'] {
        Some(1_000_000u64)
    } else if l == seq!['m', 'i'] || l == seq!['m', 'i', 'b'] {
        Some(1_048_576u64)
    } else if l == seq!['g'] || l == seq!['g', 'b'] {
        Some(1_000_000_000u64)
    } else if l == seq!['g', 'i'] || l == seq!['g', 'i', 'b'] {
        Some(1_073_741_824u64)
    } else if l == seq!['t'] || l == seq!['t', 'b'] {
        Some(1_000_000_000_000u64)
    } else if l == seq!['t', 'i'] || l == seq!['t', 'i', 'b'] {
        Some(1_099_511_627_776u64)
    } else {
        None
    }
}

/// Length of the run of ASCII digits of `s` starting at `i`.
pub open spec fn digit_run(s: Seq<char>, i: int) -> nat
    decreases s.len() - i,
{
    if i < 0 || i >= s.len() || !is_ascii_digit(s[i]) {
        0
    } else {
        1 + digit_run(s, i + 1)
    }
}

/// `[+-]?<digits><unit>`: `+` gives `Min`, `-` gives `Max`, no sign gives
/// `Equals`. `None` when the text does not have that form, or when the
/// count or the byte total does not fit in 64 bits.
pub open spec fn parse_size(s: Seq<char>) -> Option<SizeFilter> {
    let sign_len: int = if s.len() > 0 && (s[0] == '+' || s[0] == '-') { 1 } else { 0 };
    let d = digit_run(s, sign_len);
    let unit = s.skip(sign_len + d);
    if d == 0 {
        None
    } else {
        match unit_multiplier(unit) {
            None => None,
            Some(m) => {
                let q = digits_value(s.subrange(sign_len, sign_len + d));
                if q * m > u64::MAX {
                    None
                } else if sign_len == 0 {
                    Some(SizeFilter::Equals((q * m) as u64))
                } else if s[0] == '+' {
                    Some(SizeFilter::Min((q * m) as u64))
                } else {
                    Some(SizeFilter::Max((q * m) as u64))
                }
            },
        }
    }
}

pub open spec fn size_within(f: SizeFilter, size: u64) -> bool {
    match f {
        SizeFilter::Max(limit) => size <= limit,
        SizeFilter::Min(limit) => size >= limit,
        SizeFilter::Equals(limit) => size == limit,
    }
}

fn fold(c: char) -> (r: char)
    ensures
        r == fold_char(c),
{
    if 'A' <= c && c <= 'Z' {
        let code: u32 = c as u32;
        proof {
            vstd::utf8::char_is_scalar(c);
        }
        let low: u32 = code + 32;
        assert(0x61 <= low <= 0x7A);
        char_from_ascii(low)
    } else if c == '\u{212A}' {
        'k'
    } else {
        c
    }
}

fn char_from_ascii(v: u32) -> (c: char)
    requires
        v < 128,
    ensures
        c as u32 == v,
{
    let b: u8 = v as u8;
    b as char
}

fn unit_of(chars: &Vec<char>, from: usize) -> (r: Option<u64>)
    requires
        from <= chars.len(),
    ensures
        r == unit_multiplier(chars@.skip(from as int)),
{
    let n = chars.len() - from;
    let ghost u = chars@.skip(from as int);
    let ghost l = fold_seq(u);
    if n == 0 || n > 3 {
        proof {
            assert(l.len() == n);
        }
        return None;
    }
    let c0 = fold(chars[from]);
    let c1 = if n >= 2 { fold(chars[from + 1]) } else { ' ' };
    let c2 = if n >= 3 { fold(chars[from + 2]) } else { ' ' };
    assert(l.len() == n);
    assert(l[0] == c0);
    assert(n >= 2 ==> l[1] == c1);
    assert(n >= 3 ==> l[2] == c2);
    let base: u64 = if c0 == 'b' {
        1
    } else if c0 == 'k' {
        1000
    } else if c0 == 'm' {
        1_000_000
    } else if c0 == 'g' {
        1_000_000_000
    } else if c0 == 't' {
        1_000_000_000_000
    } else {
        0
    };
    let binary: u64 = if c0 == 'k' {
        1024
    } else if c0 == 'm' {
        1_048_576
    } else if c0 == 'g' {
        1_073_741_824
    } else if c0 == 't' {
        1_099_511_627_776
    } else {
        0
    };
    let r = if base == 0 {
        None
    } else if c0 == 'b' {
        if n == 1 { Some(1u64) } else { None }
    } else if n == 1 {
        Some(base)
    } else if n == 2 && c1 == 'b' {
        Some(base)
    } else if n == 2 && c1 == 'i' {
        Some(binary)
    } else if n == 3 && c1 == 'i' && c2 == 'b' {
        Some(binary)
    } else {
        None
    };
    proof {
        if n == 1 {
            assert(l =~= seq![c0]);
        } else if n == 2 {
            assert(l =~= seq![c0, c1]);
        } else {
            assert(l =~= seq![c0, c1, c2]);
        }
    }
    r
}

impl SizeFilter {
    /// Parse `[+-]?<digits><unit>`.
    pub fn from_string(s: &str) -> (r: Option<SizeFilter>)
        ensures
            r == parse_size(s@),
    {
        let cs = chars_of(s);
        let sign_len: usize = if cs.len() > 0 && (cs[0] == '+' || cs[0] == '-') { 1 } else { 0 };
        let mut i: usize = sign_len;
        let mut q: u64 = 0;
        let mut overflow = false;
        while i < cs.len() && '0' <= cs[i] && cs[i] <= '9'
            invariant
                sign_len <= i <= cs.len(),
                cs@ == s@,
                sign_len == (if s@.len() > 0 && (s@[0] == '+' || s@[0] == '-') { 1int } else { 0int }),
                forall|j: int| sign_len <= j < i ==> is_ascii_digit(cs@[j]),
                digit_run(cs@, sign_len as int) == (i - sign_len) + digit_run(cs@, i as int),
                !overflow ==> q == digits_value(cs@.subrange(sign_len as int, i as int)),
                overflow ==> digits_value(cs@.subrange(sign_len as int, i as int)) > u64::MAX,
            decreases cs.len() - i,
        {
            let d: u64 = ((cs[i] as u32) - 48) as u64;
            let ghost prev = cs@.subrange(sign_len as int, i as int);
            assert(cs@.subrange(sign_len as int, i + 1).drop_last() =~= prev);
            assert(digits_value(cs@.subrange(sign_len as int, i + 1)) == digits_value(prev) * 10 + d);
            if !overflow {
                match q.checked_mul(10) {
                    Some(t) => match t.checked_add(d) {
                        Some(v) => { q = v; },
                        None => { overflow = true; },
                    },
                    None => {
                        overflow = true;
                        assert(digits_value(prev) * 10 + d > u64::MAX) by (nonlinear_arith)
                            requires digits_value(prev) * 10 > u64::MAX, d >= 0;
                    },
                }
            } else {
                assert(digits_value(prev) * 10 + d > u64::MAX) by (nonlinear_arith)
                    requires digits_value(prev) > u64::MAX, d >= 0;
            }
            i += 1;
        }
        let d = i - sign_len;
        assert(digit_run(cs@, i as int) == 0);
        if d == 0 {
            return None;
        }
        let m = match unit_of(&cs, i) {
            None => {
                return None;
            },
            Some(m) => m,
        };
        if overflow {
            assert(digits_value(cs@.subrange(sign_len as int, i as int)) * m > u64::MAX) by (nonlinear_arith)
                requires digits_value(cs@.subrange(sign_len as int, i as int)) > u64::MAX, m >= 1;
            return None;
        }
        let size = match q.checked_mul(m) {
            None => {
                return None;
            },
            Some(v) => v,
        };
        if sign_len == 0 {
            Some(SizeFilter::Equals(size))
        } else if cs[0] == '+' {
            Some(SizeFilter::Min(size))
        } else {
            Some(SizeFilter::Max(size))
        }
    }

    /// Whether a file of `size` bytes satisfies the constraint.
    pub fn is_within(&self, size: u64) -> (r: bool)
        ensures
            r == size_within(*self, size),
    {
        match *self {
            SizeFilter::Max(limit) => size <= limit,
            SizeFilter::Min(limit) => size >= limit,
            SizeFilter::Equals(limit) => size == limit,
        }
    }
}

// ---------------------------------------------------------------------------
// Time
// ---------------------------------------------------------------------------

/// A point in time as its distance from the UNIX epoch: `secs` seconds and
/// `nanos` nanoseconds, after the epoch, or before it when `before_epoch`.
#[derive(Debug, Clone, Copy, PartialEq, Eq, Structural)]
pub struct UnixTime {
    pub before_epoch: bool,
    pub secs: u64,
    pub nanos: u32,
}

/// Signed nanoseconds since the UNIX epoch.
pub open spec fn unix_nanos(t: UnixTime) -> int {
    let d = t.secs as int * 1_000_000_000 + t.nanos as int;
    if t.before_epoch { -d } else { d }
}

/// The UNIX epoch itself.
pub open spec fn unix_epoch() -> UnixTime {
    UnixTime { before_epoch: false, secs: 0, nanos: 0 }
}

impl UnixTime {
    pub fn epoch() -> (r: UnixTime)
        ensures
            r == unix_epoch(),
    {
        UnixTime { before_epoch: false, secs: 0, nanos: 0 }
    }

    /// Signed nanoseconds since the epoch.
    pub fn as_nanos(&self) -> (r: i128)
        ensures
            r == unix_nanos(*self),
    {
        let d: i128 = (self.secs as i128) * 1_000_000_000 + (self.nanos as i128);
        if self.before_epoch { -d } else { d }
    }
}

/// A `--changed-before` / `--changed-within` limit.
#[derive(Debug, Clone, Copy, PartialEq, Eq, Structural)]
pub enum TimeFilter {
    /// Modified strictly before the limit.
    Before(UnixTime),
    /// Modified strictly after the limit.
    After(UnixTime),
}

pub open spec fn time_applies(f: TimeFilter, t: UnixTime) -> bool {
    match f {
        TimeFilter::Before(limit) => unix_nanos(t) < unix_nanos(limit),
        TimeFilter::After(limit) => unix_nanos(t) > unix_nanos(limit),
    }
}

impl TimeFilter {
    /// Whether a modification time `t` satisfies the limit.
    pub fn applies_to(&self, t: &UnixTime) -> (r: bool)
        ensures
            r == time_applies(*self, *t),
    {
        match self {
            TimeFilter::Before(limit) => t.as_nanos() < limit.as_nanos(),
            TimeFilter::After(limit) => t.as_nanos() > limit.as_nanos(),
        }
    }
}

/// FILETIME ticks (100 ns) between 1601-01-01 and 1970-01-01.
pub const FILETIME_TO_UNIX_EPOCH_100NS: i64 = 116_444_736_000_000_000;

/// The time a FILETIME stands for; a FILETIME at or before the UNIX epoch
/// reads as the epoch itself.
pub open spec fn filetime_time(ft: i64) -> UnixTime {
    let u = ft as int - FILETIME_TO_UNIX_EPOCH_100NS as int;
    if u <= 0 {
        unix_epoch()
    } else {
        UnixTime { before_epoch: false, secs: (u / 10_000_000) as u64, nanos: ((u % 10_000_000) * 100) as u32 }
    }
}

/// Convert a FILETIME into a time relative to the UNIX epoch.
pub fn filetime_to_systemtime(filetime: i64) -> (r: UnixTime)
    ensures
        r == filetime_time(filetime),
{
    if filetime <= FILETIME_TO_UNIX_EPOCH_100NS {
        return UnixTime::epoch();
    }
    let u: u64 = (filetime - FILETIME_TO_UNIX_EPOCH_100NS) as u64;
    let secs = u / 10_000_000;
    let sub = u % 10_000_000;
    let nanos: u32 = (sub * 100) as u32;
    UnixTime { before_epoch: false, secs, nanos }
}

/// Seconds between 1601-01-01 and 1970-01-01.
pub const UNIX_TO_FILETIME_SECONDS: i64 = 11_644_473_600;

/// `i64::saturating_mul`, exactly.
pub open spec fn saturating_mul_spec(a: int, b: int) -> int {
    if a * b > i64::MAX {
        i64::MAX as int
    } else if a * b < i64::MIN {
        i64::MIN as int
    } else {
        a * b
    }
}

fn saturating_mul_i64(a: i64, b: i64) -> (r: i64)
    ensures
        r == saturating_mul_spec(a as int, b as int),
{
    match a.checked_mul(b) {
        Some(v) => v,
        None => {
            if (a < 0) != (b < 0) {
                assert(a as int * b as int <= 0) by (nonlinear_arith)
                    requires (a < 0) != (b < 0);
                i64::MIN
            } else {
                assert(a as int * b as int >= 0) by (nonlinear_arith)
                    requires (a < 0) == (b < 0);
                i64::MAX
            }
        },
    }
}

/// The whole seconds as the conversion reads them: the `u64` count cast to
/// `i64`, which wraps for counts of 2^63 and more.
pub open spec fn wrapped_secs(t: UnixTime) -> int {
    (t.secs as i64) as int
}

/// Whole seconds of the time as counted from 1601 (signed).
pub open spec fn filetime_seconds(t: UnixTime) -> int {
    if t.before_epoch {
        UNIX_TO_FILETIME_SECONDS as int - wrapped_secs(t)
    } else {
        wrapped_secs(t) + UNIX_TO_FILETIME_SECONDS as int
    }
}

/// FILETIME of `t`: seconds from 1601 scaled to 100 ns ticks (saturating),
/// then the sub-second part added (after the epoch) or taken away (before
/// it), truncated to whole ticks.
pub open spec fn time_filetime(t: UnixTime) -> int {
    let m = saturating_mul_spec(filetime_seconds(t), 10_000_000);
    if t.before_epoch {
        m - (t.nanos as int / 100)
    } else {
        m + (t.nanos as int / 100)
    }
}

/// The times that `system_time_to_filetime` converts without overflowing
/// 64-bit arithmetic: neither the seconds from 1601 nor the final tick
/// count leaves the `i64` range.
pub open spec fn filetime_fits_spec(t: UnixTime) -> bool {
    &&& filetime_seconds(t) <= i64::MAX
    &&& i64::MIN <= time_filetime(t) <= i64::MAX
}

/// Whether `t` can be converted into FILETIME ticks.
pub fn filetime_fits(t: UnixTime) -> (b: bool)
    ensures
        b == filetime_fits_spec(t),
{
    let sub: i64 = (t.nanos as i64) / 100;
    let w: i64 = t.secs as i64;
    if t.before_epoch {
        if w < -9_223_372_025_210_302_207i64 {
            return false;
        }
        let secs: i64 = UNIX_TO_FILETIME_SECONDS - w;
        let m = saturating_mul_i64(secs, 10_000_000);
        m >= i64::MIN + sub
    } else {
        if w > 9_223_372_025_210_302_207i64 {
            return false;
        }
        let secs: i64 = w + UNIX_TO_FILETIME_SECONDS;
        let m = saturating_mul_i64(secs, 10_000_000);
        m <= i64::MAX - sub
    }
}

/// Convert a time into FILETIME ticks. The seconds are read as `i64`
/// (wrapping from 2^63 on); the inputs left out are those on which the
/// conversion overflows 64-bit arithmetic.
pub fn system_time_to_filetime(t: UnixTime) -> (r: i64)
    requires
        filetime_fits_spec(t),
    ensures
        r == time_filetime(t),
{
    let w: i64 = t.secs as i64;
    if t.before_epoch {
        let secs: i64 = UNIX_TO_FILETIME_SECONDS - w;
        let m = saturating_mul_i64(secs, 10_000_000);
        m - ((t.nanos as i64) / 100)
    } else {
        let secs: i64 = w + UNIX_TO_FILETIME_SECONDS;
        let m = saturating_mul_i64(secs, 10_000_000);
        m + ((t.nanos as i64) / 100)
    }
}

// ---------------------------------------------------------------------------
// Time limits given as text
// ---------------------------------------------------------------------------

pub const NANOS_PER_SEC: u128 = 1_000_000_000;

/// Nanoseconds per duration unit.
pub open spec fn duration_unit_nanos(u: Seq<char>) -> Option<nat> {
    if u == "nsec"@ || u == "ns"@ {
        Some(1)
    } else if u == "usec"@ || u == "us"@ {
        Some(1_000)
    } else if u == "msec"@ || u == "ms"@ {
        Some(1_000_000)
    } else if u == "seconds"@ || u == "second"@ || u == "sec"@ || u == "s"@ {
        Some(1_000_000_000)
    } else if u == "minutes"@ || u == "minute"@ || u == "min"@ || u == "m"@ {
        Some(60_000_000_000)
    } else if u == "hours"@ || u == "hour"@ || u == "hr"@ || u == "h"@ {
        Some(3_600_000_000_000)
    } else if u == "days"@ || u == "day"@ || u == "d"@ {
        Some(86_400_000_000_000)
    } else if u == "weeks"@ || u == "week"@ || u == "w"@ {
        Some(604_800_000_000_000)
    } else if u == "months"@ || u == "month"@ || u == "M"@ {
        Some(2_630_016_000_000_000)
    } else if u == "years"@ || u == "year"@ || u == "y"@ {
        Some(31_557_600_000_000_000)
    } else {
        None
    }
}

fn unit_nanos(u: &str) -> (r: Option<u128>)
    ensures
        match duration_unit_nanos(u@) {
            Some(n) => r == Some(n as u128),
            None => r is None,
        },
{
    if text::same_text(u, "nsec") || text::same_text(u, "ns") {
        Some(1)
    } else if text::same_text(u, "usec") || text::same_text(u, "us") {
        Some(1_000)
    } else if text::same_text(u, "msec") || text::same_text(u, "ms") {
        Some(1_000_000)
    } else if text::same_text(u, "seconds") || text::same_text(u, "second") || text::same_text(u, "sec") || text::same_text(u, "s") {
        Some(1_000_000_000)
    } else if text::same_text(u, "minutes") || text::same_text(u, "minute") || text::same_text(u, "min") || text::same_text(u, "m") {
        Some(60_000_000_000)
    } else if text::same_text(u, "hours") || text::same_text(u, "hour") || text::same_text(u, "hr") || text::same_text(u, "h") {
        Some(3_600_000_000_000)
    } else if text::same_text(u, "days") || text::same_text(u, "day") || text::same_text(u, "d") {
        Some(86_400_000_000_000)
    } else if text::same_text(u, "weeks") || text::same_text(u, "week") || text::same_text(u, "w") {
        Some(604_800_000_000_000)
    } else if text::same_text(u, "months") || text::same_text(u, "month") || text::same_text(u, "M") {
        Some(2_630_016_000_000_000)
    } else if text::same_text(u, "years") || text::same_text(u, "year") || text::same_text(u, "y") {
        Some(31_557_600_000_000_000)
    } else {
        None
    }
}

/// Nanoseconds of one item `<digits><unit>`.
pub open spec fn item_nanos(item: Seq<char>) -> Option<nat> {
    let k = digit_run(item, 0);
    if k == 0 {
        None
    } else {
        match duration_unit_nanos(item.skip(k as int)) {
            Some(u) => Some(digits_value(item.take(k as int)) * u),
            None => None,
        }
    }
}

/// The sum over the non-empty items, `None` if one is malformed.
pub open spec fn items_nanos(items: Seq<Seq<char>>) -> Option<nat>
    decreases items.len(),
{
    if items.len() == 0 {
        Some(0)
    } else {
        match items_nanos(items.drop_last()) {
            None => None,
            Some(a) => if items.last().len() == 0 {
                Some(a)
            } else {
                match item_nanos(items.last()) {
                    Some(b) => Some(a + b),
                    None => None,
                }
            },
        }
    }
}

/// A duration: space-separated items such as `1h 30min`, at least one.
pub open spec fn duration_nanos(s: Seq<char>) -> Option<nat> {
    let items = split_on(s, ' ');
    if !(exists|i: int| 0 <= i < items.len() && (#[trigger] items[i]).len() > 0) {
        None
    } else {
        items_nanos(items)
    }
}

proof fn lemma_items_nanos_grow(items: Seq<Seq<char>>, k: int)
    requires
        0 <= k <= items.len(),
        items_nanos(items) is Some,
    ensures
        items_nanos(items.take(k)) is Some,
        items_nanos(items.take(k)).unwrap() <= items_nanos(items).unwrap(),
    decreases items.len() - k,
{
    if k < items.len() {
        assert(items.take(k + 1).drop_last() =~= items.take(k));
        lemma_items_nanos_grow(items, k + 1);
    } else {
        assert(items.take(k) =~= items);
    }
}

/// The value of `digits`, where it fits in `u128`.
fn digits_u128(v: &Vec<char>, k: usize) -> (r: Option<u128>)
    requires
        k <= v.len(),
        forall|j: int| 0 <= j < k ==> is_ascii_digit(#[trigger] v@[j]),
    ensures
        match r {
            Some(n) => n == digits_value(v@.take(k as int)),
            None => digits_value(v@.take(k as int)) > u128::MAX,
        },
{
    let mut acc: u128 = 0;
    let mut i: usize = 0;
    assert(v@.take(0) =~= Seq::<char>::empty());
    while i < k
        invariant
            i <= k <= v.len(),
            forall|j: int| 0 <= j < k ==> is_ascii_digit(#[trigger] v@[j]),
            acc == digits_value(v@.take(i as int)),
        decreases k - i,
    {
        assert(v@.take(i + 1).drop_last() =~= v@.take(i as int));
        assert(is_ascii_digit(v@[i as int]));
        let d: u128 = (v[i] as u32 - 48) as u128;
        if acc > (u128::MAX - d) / 10 {
            assert(acc * 10 + d > u128::MAX) by (nonlinear_arith)
                requires acc > (u128::MAX - d) / 10, d <= 9;
            proof {
                lemma_digits_value_monotone(v@.take(k as int), i + 1);
                assert(v@.take(k as int).take(i + 1) =~= v@.take(i + 1));
            }
            return None;
        }
        assert(acc * 10 + d <= u128::MAX) by (nonlinear_arith)
            requires acc <= (u128::MAX - d) / 10, d <= 9;
        acc = acc * 10 + d;
        i += 1;
    }
    Some(acc)
}

/// A longer run of digits is worth at least as much as its prefix.
proof fn lemma_digits_value_monotone(s: Seq<char>, k: int)
    requires
        0 <= k <= s.len(),
    ensures
        digits_value(s.take(k)) <= digits_value(s),
    decreases s.len() - k,
{
    if k < s.len() {
        lemma_digits_value_monotone(s, k + 1);
        assert(s.take(k + 1).drop_last() =~= s.take(k));
        assert(digits_value(s.take(k + 1)) >= digits_value(s.take(k))) by (nonlinear_arith)
            requires digits_value(s.take(k + 1)) == digits_value(s.take(k)) * 10 + ((s.take(k + 1).last() as u32) - 48) as nat;
    } else {
        assert(s.take(k) =~= s);
    }
}

/// The nanoseconds of a duration text, where they fit in `u128`.
pub fn parse_duration(s: &str) -> (r: Option<u128>)
    ensures
        match duration_nanos(s@) {
            Some(n) => if n <= u128::MAX { r == Some(n as u128) } else { r is None },
            None => r is None,
        },
{
    let cs = chars_of(s);
    let items = text::split_chars(&cs, ' ');
    let ghost iv = text::pieces_view(items@);
    let mut total: u128 = 0;
    let mut seen = false;
    let mut i: usize = 0;
    assert(iv.take(0) =~= Seq::<Seq<char>>::empty());
    while i < items.len()
        invariant
            iv == text::pieces_view(items@),
            iv == split_on(s@, ' '),
            i <= items.len(),
            items_nanos(iv.take(i as int)) == Some(total as nat),
            seen == exists|j: int| 0 <= j < i && (#[trigger] iv[j]).len() > 0,
        decreases items.len() - i,
    {
        let item = &items[i];
        assert(iv[i as int] == item@);
        assert(iv.take(i + 1).drop_last() =~= iv.take(i as int));
        assert(iv.take(i + 1).last() == item@);
        if item.len() > 0 {
            seen = true;
            let mut k: usize = 0;
            while k < item.len() && '0' <= item[k] && item[k] <= '9'
                invariant
                    k <= item.len(),
                    forall|j: int| 0 <= j < k ==> is_ascii_digit(#[trigger] item@[j]),
                    digit_run(item@, 0) == k + digit_run(item@, k as int),
                decreases item.len() - k,
            {
                k += 1;
            }
            assert(digit_run(item@, k as int) == 0);
            if k == 0 {
                proof {
                    lemma_items_none_persists(iv, i + 1);
                }
                return None;
            }
            let unit = text::string_of_range(item, k, item.len());
            assert(unit@ =~= item@.skip(k as int));
            let per = match unit_nanos(unit.as_str()) {
                Some(p) => p,
                None => {
                    proof {
                        lemma_items_none_persists(iv, i + 1);
                    }
                    return None;
                },
            };
            let value = match digits_u128(item, k) {
                Some(v) => v,
                None => {
                    proof {
                        let dv = digits_value(item@.take(k as int));
                        assert(per >= 1);
                        assert(dv * per as nat >= dv) by (nonlinear_arith)
                            requires per >= 1;
                        lemma_too_big(iv, i as int, dv * per as nat);
                    }
                    return None;
                },
            };
            match value.checked_mul(per) {
                None => {
                    proof {
                        lemma_too_big(iv, i as int, value as nat * per as nat);
                    }
                    return None;
                },
                Some(prod) => match total.checked_add(prod) {
                    None => {
                        proof {
                            lemma_too_big(iv, i as int, total as nat + prod as nat);
                        }
                        return None;
                    },
                    Some(t) => {
                        total = t;
                    },
                },
            }
        }
        i += 1;
    }
    assert(iv.take(i as int) =~= iv);
    if !seen {
        return None;
    }
    Some(total)
}

/// Once a prefix of the items is malformed, so is the whole.
proof fn lemma_items_none_persists(items: Seq<Seq<char>>, k: int)
    requires
        0 <= k <= items.len(),
        items_nanos(items.take(k)) is None,
    ensures
        items_nanos(items) is None,
    decreases items.len() - k,
{
    if k < items.len() {
        assert(items.take(k + 1).drop_last() =~= items.take(k));
        lemma_items_none_persists(items, k + 1);
    } else {
        assert(items.take(k) =~= items);
    }
}

/// When the items up to `i` (included) already add up past `u128::MAX`,
/// the whole does too, or is malformed.
proof fn lemma_too_big(items: Seq<Seq<char>>, i: int, partial: nat)
    requires
        0 <= i < items.len(),
        partial > u128::MAX,
        items_nanos(items.take(i + 1)) is Some ==> items_nanos(items.take(i + 1)).unwrap() >= partial,
        items_nanos(items.take(i + 1)) is Some || items_nanos(items.take(i + 1)) is None,
    ensures
        match items_nanos(items) {
            Some(n) => n > u128::MAX,
            None => true,
        },
{
    if items_nanos(items) is Some {
        lemma_items_nanos_grow(items, i + 1);
    }
}

/// The time `n` nanoseconds from the epoch, where its seconds fit.
pub open spec fn time_of_nanos(n: int) -> Option<UnixTime> {
    let a = if n < 0 { -n } else { n };
    if a / 1_000_000_000 > u64::MAX {
        None
    } else {
        Some(UnixTime { before_epoch: n < 0, secs: (a / 1_000_000_000) as u64, nanos: (a % 1_000_000_000) as u32 })
    }
}

/// The limit a `--changed-*` text gives at time `now`: `@<seconds>` is that
/// many seconds after the epoch; a duration is that long before `now`.
pub open spec fn time_from_str_spec(now: UnixTime, s: Seq<char>) -> Option<UnixTime> {
    if s.len() > 0 && s[0] == '@' {
        match text::parse_unsigned_spec(s.drop_first()) {
            Some(v) => if v <= u64::MAX { Some(UnixTime { before_epoch: false, secs: v as u64, nanos: 0 }) } else { None },
            None => None,
        }
    } else {
        match duration_nanos(s) {
            Some(d) => if d <= u128::MAX { time_of_nanos(unix_nanos(now) - d) } else { None },
            None => None,
        }
    }
}

/// The limit that `s` gives at time `now`, where it is one.
pub fn time_from_str(now: UnixTime, s: &str) -> (r: Option<UnixTime>)
    requires
        now.nanos < 1_000_000_000,
    ensures
        r == time_from_str_spec(now, s@),
{
    let cs = chars_of(s);
    if cs.len() > 0 && cs[0] == '@' {
        let rest = text::string_of_range(&cs, 1, cs.len());
        assert(rest@ =~= s@.drop_first());
        return match text::parse_u64(rest.as_str()) {
            Some(v) => Some(UnixTime { before_epoch: false, secs: v, nanos: 0 }),
            None => None,
        };
    }
    let d = match parse_duration(s) {
        Some(d) => d,
        None => {
            return None;
        },
    };
    let now_ns: i128 = now.as_nanos();
    assert(-40_000_000_000_000_000_000_000_000_000i128 < now_ns < 40_000_000_000_000_000_000_000_000_000i128) by (nonlinear_arith)
        requires now_ns == unix_nanos(now), now.secs <= u64::MAX, now.nanos < 1_000_000_000;
    if d > 100_000_000_000_000_000_000_000_000_000u128 {
        assert(time_of_nanos(unix_nanos(now) - d as int) is None) by (nonlinear_arith)
            requires unix_nanos(now) == now_ns, -40_000_000_000_000_000_000_000_000_000 < now_ns < 40_000_000_000_000_000_000_000_000_000,
                d as int > 100_000_000_000_000_000_000_000_000_000;
        return None;
    }
    let n: i128 = now_ns - (d as i128);
    let a: u128 = if n < 0 { (-n) as u128 } else { n as u128 };
    let secs = a / NANOS_PER_SEC;
    if secs > u64::MAX as u128 {
        return None;
    }
    Some(UnixTime { before_epoch: n < 0, secs: secs as u64, nanos: (a % NANOS_PER_SEC) as u32 })
}

/// The current time, from the system clock. Nothing is claimed of it but
/// that its sub-second part is below one second.
#[verifier::external_body]
fn system_now() -> (t: UnixTime)
    ensures
        t.nanos < 1_000_000_000,
{
    match std::time::SystemTime::now().duration_since(std::time::UNIX_EPOCH) {
        Ok(d) => UnixTime { before_epoch: false, secs: d.as_secs(), nanos: d.subsec_nanos() },
        Err(e) => UnixTime { before_epoch: true, secs: e.duration().as_secs(), nanos: e.duration().subsec_nanos() },
    }
}

impl TimeFilter {
    /// `--changed-before`: entries modified before the limit `s` gives,
    /// read against the current time.
    pub fn before(s: &str) -> (r: Option<TimeFilter>)
        ensures
            r matches Some(f) ==> f is Before && exists|now: UnixTime| time_from_str_spec(now, s@) == Some(f->Before_0),
            s@.len() > 0 && s@[0] == '@' ==> r == match time_from_str_spec(unix_epoch(), s@) {
                Some(t) => Some(TimeFilter::Before(t)),
                None => None,
            },
            (forall|now: UnixTime| #[trigger] time_from_str_spec(now, s@) is None) ==> r is None,
    {
        let now = system_now();
        match time_from_str(now, s) {
            Some(t) => Some(TimeFilter::Before(t)),
            None => None,
        }
    }

    /// `--changed-within`: entries modified after the limit `s` gives,
    /// read against the current time.
    pub fn after(s: &str) -> (r: Option<TimeFilter>)
        ensures
            r matches Some(f) ==> f is After && exists|now: UnixTime| time_from_str_spec(now, s@) == Some(f->After_0),
            s@.len() > 0 && s@[0] == '@' ==> r == match time_from_str_spec(unix_epoch(), s@) {
                Some(t) => Some(TimeFilter::After(t)),
                None => None,
            },
            (forall|now: UnixTime| #[trigger] time_from_str_spec(now, s@) is None) ==> r is None,
    {
        let now = system_now();
        match time_from_str(now, s) {
            Some(t) => Some(TimeFilter::After(t)),
            None => None,
        }
    }
}

} // verus!
