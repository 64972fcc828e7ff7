//! Plain-value helpers at the edge of the Everything SDK: the UTF-16 query
//! buffer, the Win32 `BOOL`, and FILETIME packing.

use vstd::prelude::*;

pub mod sys;

verus! {

/// UTF-16 code units of one char.
pub open spec fn utf16_units(c: char) -> Seq<u16> {
    let v = (c as u32) as int;
    if v < 0x10000 {
        seq![v as u16]
    } else {
        seq![(0xD800 + (v - 0x10000) / 1024) as u16, (0xDC00 + (v - 0x10000) % 1024) as u16]
    }
}

/// UTF-16 code units of a char sequence.
pub open spec fn utf16_of(s: Seq<char>) -> Seq<u16>
    decreases s.len(),
{
    if s.len() == 0 {
        Seq::empty()
    } else {
        utf16_of(s.drop_last()) + utf16_units(s.last())
    }
}

/// A text with no NUL char has no `0` code unit: in the buffer that
/// `to_utf16_nul` builds, the one `0` is the terminator.
pub proof fn lemma_utf16_has_no_nul(s: Seq<char>)
    requires
        forall|i: int| 0 <= i < s.len() ==> (#[trigger] s[i] as u32) != 0,
    ensures
        forall|k: int| 0 <= k < utf16_of(s).len() ==> #[trigger] utf16_of(s)[k] != 0u16,
    decreases s.len(),
{
    if s.len() > 0 {
        let pre = s.drop_last();
        assert forall|i: int| 0 <= i < pre.len() implies (#[trigger] pre[i] as u32) != 0 by {
            assert(pre[i] == s[i]);
        }
        lemma_utf16_has_no_nul(pre);
        let c = s.last();
        assert(s[s.len() - 1] == c);
        let u = utf16_units(c);
        vstd::utf8::char_is_scalar(c);
        let v = (c as u32) as int;
        assert(v != 0);
        if v < 0x10000 {
            assert(u[0] == v as u16);
            assert(u[0] != 0u16);
        } else {
            let w = v - 0x10000;
            assert(0 <= w / 1024 < 0x400) by (nonlinear_arith)
                requires 0 <= w < 0x100000;
            assert(0 <= w % 1024 < 1024) by (nonlinear_arith)
                requires 0 <= w;
            assert(u[0] != 0u16);
            assert(u[1] != 0u16);
        }
        assert(forall|k: int| 0 <= k < u.len() ==> #[trigger] u[k] != 0u16);
        let all = utf16_of(s);
        assert(all == utf16_of(pre) + u);
        assert forall|k: int| 0 <= k < all.len() implies #[trigger] all[k] != 0u16 by {
            if k < utf16_of(pre).len() {
                assert(all[k] == utf16_of(pre)[k]);
            } else {
                assert(all[k] == u[k - utf16_of(pre).len()]);
            }
        }
    }
}

/// NUL-terminated UTF-16 buffer holding `s`: its code units, then one `0`.
pub fn to_utf16_nul(s: &str) -> (v: Vec<u16>)
    ensures
        v@ == utf16_of(s@).push(0u16),
{
    let cs = crate::text::chars_of(s);
    let mut v: Vec<u16> = Vec::new();
    let mut i: usize = 0;
    while i < cs.len()
        invariant
            cs@ == s@,
            i <= cs.len(),
            v@ == utf16_of(cs@.take(i as int)),
        decreases cs.len() - i,
    {
        let c = cs[i];
        let code: u32 = c as u32;
        proof { vstd::utf8::char_is_scalar(c); }
        assert(cs@.take(i + 1).drop_last() =~= cs@.take(i as int));
        assert(cs@.take(i + 1).last() == c);
        assert(utf16_of(cs@.take(i + 1)) == utf16_of(cs@.take(i as int)) + utf16_units(c));
        if code < 0x10000 {
            v.push(code as u16);
            assert(v@ =~= utf16_of(cs@.take(i + 1)));
        } else {
            let w: u32 = code - 0x10000;
            assert(w < 0x100000);
            v.push((0xD800 + w / 1024) as u16);
            v.push((0xDC00 + w % 1024) as u16);
            assert(v@ =~= utf16_of(cs@.take(i + 1)));
        }
        i += 1;
    }
    assert(cs@.take(i as int) =~= cs@);
    v.push(0u16);
    v
}

/// A Rust `bool` as a Win32 `BOOL`: 1 or 0.
pub fn bool_to_win(b: bool) -> (r: sys::BOOL)
    ensures
        r == (if b { 1i32 } else { 0i32 }),
{
    if b { 1 } else { 0 }
}

/// The two FILETIME halves packed into one signed 64-bit tick count.
pub open spec fn filetime_ticks(high: u32, low: u32) -> i64 {
    (high as int * 0x1_0000_0000 + low as int) as i64
}

/// Pack a FILETIME into a single `i64` of 100 ns ticks.
pub fn filetime_to_i64(ft: &sys::FILETIME) -> (r: i64)
    ensures
        r == filetime_ticks(ft.dwHighDateTime, ft.dwLowDateTime),
{
    let high = ft.dwHighDateTime;
    let low = ft.dwLowDateTime;
    let r = ((high as i64) << 32) | (low as i64);
    assert(r == ((high as int * 0x1_0000_0000 + low as int) as i64)) by (bit_vector)
        requires
            r == ((high as i64) << 32) | (low as i64),
    ;
    r
}

} // verus!
