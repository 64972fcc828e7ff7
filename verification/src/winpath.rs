//! Windows path text.
//!
//! Paths are kept as plain strings. Both `\` and `/` separate components; a
//! piece between separators that is empty or a lone `.` carries no component.
//! Comparisons, prefix tests and stripping work component by component, as
//! `std::path` does on Windows, while the text that is handed back keeps the
//! separators exactly as the input spelled them. The model is coarser than
//! `std::path` in three ways: a leading root separator is not a component of
//! its own (`\a` and `a` have the same components), a leading `.` is dropped
//! like any other, and a drive prefix is only split off where a separator
//! follows it (`C:a` is one component). On two paths that both open with a
//! drive and a root separator, such as the index's hits and the roots they
//! were found under, the two agree.

use vstd::prelude::*;
use vstd::string::StrSliceExecFns;
use crate::text::{chars_of, owned, push_char, push_str, string_of_range};

verus! {

/// Whether `c` separates path components.
pub open spec fn is_sep(c: char) -> bool {
    c == '\\' || c == '/'
}

/// Whether the piece `s[a..b]` carries no component (empty or `.`).
pub open spec fn is_noise(s: Seq<char>, a: int, b: int) -> bool {
    b <= a || (b == a + 1 && s[a] == '.')
}

pub open spec fn flush_span(s: Seq<char>, a: int, b: int) -> Seq<(int, int)> {
    if is_noise(s, a, b) {
        Seq::empty()
    } else {
        seq![(a, b)]
    }
}

/// Spans of the components of `s` at or after `i`, where the piece being
/// read started at `start`.
pub open spec fn spans_from(s: Seq<char>, i: int, start: int) -> Seq<(int, int)>
    decreases s.len() - i,
{
    if i >= s.len() {
        flush_span(s, start, s.len() as int)
    } else if is_sep(s[i]) {
        flush_span(s, start, i) + spans_from(s, i + 1, i + 1)
    } else {
        spans_from(s, i + 1, start)
    }
}

/// `(start, end)` char positions of each component of `s`, in order.
pub open spec fn comp_spans(s: Seq<char>) -> Seq<(int, int)> {
    spans_from(s, 0, 0)
}

/// The components of `s`, in order.
pub open spec fn comps(s: Seq<char>) -> Seq<Seq<char>> {
    comp_spans(s).map_values(|p: (int, int)| s.subrange(p.0, p.1))
}

/// Component-wise prefix test (`Path::starts_with`).
pub open spec fn starts_with(p: Seq<char>, base: Seq<char>) -> bool {
    comps(base).len() <= comps(p).len() && comps(p).take(comps(base).len() as int) == comps(base)
}

/// The text of `p` from its `k`-th component to the end of its last
/// component; empty when `p` has no more than `k` components.
pub open spec fn rest_after(p: Seq<char>, k: int) -> Seq<char> {
    let sp = comp_spans(p);
    if 0 <= k < sp.len() {
        p.subrange(sp[k].0, sp[sp.len() - 1].1)
    } else {
        Seq::empty()
    }
}

/// `Path::strip_prefix`: what is left of `p` below `base`.
pub open spec fn strip_prefix(p: Seq<char>, base: Seq<char>) -> Option<Seq<char>> {
    if starts_with(p, base) {
        Some(rest_after(p, comps(base).len() as int))
    } else {
        None
    }
}

/// Whether a component counts as a name (it is not `..`).
pub open spec fn is_named(c: Seq<char>) -> bool {
    c != seq!['.', '.']
}

/// Number of named components of `s`.
pub open spec fn named_count(cs: Seq<Seq<char>>) -> nat
    decreases cs.len(),
{
    if cs.len() == 0 {
        0
    } else {
        named_count(cs.drop_last()) + if is_named(cs.last()) { 1nat } else { 0nat }
    }
}

/// `Path::join`: `rel` glued below `base` with a `\` unless `base` is empty
/// or already ends with a separator.
pub open spec fn join(base: Seq<char>, rel: Seq<char>) -> Seq<char> {
    if base.len() == 0 || is_sep(base.last()) {
        base + rel
    } else {
        base + seq!['\\'] + rel
    }
}

/// `Path::parent`: the text before the last component, without the
/// separators that led to it; `None` when there is no component.
pub open spec fn parent(p: Seq<char>) -> Option<Seq<char>> {
    let sp = comp_spans(p);
    if sp.len() == 0 {
        None
    } else if sp.len() == 1 {
        Some(p.subrange(0, sp[0].0))
    } else {
        Some(p.subrange(0, sp[sp.len() - 2].1))
    }
}

/// Whether the only component of `p` is its drive prefix (`C:`, `C:\`).
pub open spec fn only_drive(p: Seq<char>) -> bool {
    &&& comp_spans(p).len() == 1
    &&& has_drive(p)
    &&& comp_spans(p)[0] == (0int, 2int)
}

/// `Path::file_name`: the last component, unless it is `..` or a bare
/// drive prefix.
pub open spec fn file_name(p: Seq<char>) -> Option<Seq<char>> {
    let cs = comps(p);
    if cs.len() == 0 || !is_named(cs.last()) || only_drive(p) {
        None
    } else {
        Some(cs.last())
    }
}

/// Position of the last `.` in `s`, if any.
pub open spec fn last_dot(s: Seq<char>) -> Option<int>
    decreases s.len(),
{
    if s.len() == 0 {
        None
    } else if s.last() == '.' {
        Some(s.len() - 1)
    } else {
        last_dot(s.drop_last())
    }
}

/// `Path::extension`: the text after the last `.` of the file name, unless
/// that dot opens the name.
pub open spec fn extension(p: Seq<char>) -> Option<Seq<char>> {
    match file_name(p) {
        None => None,
        Some(name) => match last_dot(name) {
            None => None,
            Some(d) => if d == 0 {
                None
            } else {
                Some(name.subrange(d + 1, name.len() as int))
            },
        },
    }
}

/// Whether the path opens with a `.` component (`./x`, `.`).
pub open spec fn begins_with_cur_dir(p: Seq<char>) -> bool {
    p.len() >= 1 && p[0] == '.' && (p.len() == 1 || is_sep(p[1]))
}

/// Whether the text starts with `-`.
pub open spec fn starts_with_dash_spec(p: Seq<char>) -> bool {
    p.len() > 0 && p[0] == '-'
}

/// `./x` becomes `x`; other paths stay. A path whose stripped form would
/// start with `-` keeps its `./`, so that it cannot be read as an option.
pub open spec fn strip_current_dir_spec(p: Seq<char>) -> Seq<char> {
    if begins_with_cur_dir(p) && !starts_with_dash_spec(rest_after(p, 0)) {
        rest_after(p, 0)
    } else {
        p
    }
}

// ---------------------------------------------------------------------------
// Facts about the spans
// ---------------------------------------------------------------------------

/// Spans lie inside `[lo, s.len()]`, are non-empty and come in order.
pub open spec fn spans_ok(s: Seq<char>, sp: Seq<(int, int)>, lo: int) -> bool {
    &&& forall|x: int| 0 <= x < sp.len() ==> lo <= #[trigger] sp[x].0 < sp[x].1 <= s.len()
    &&& forall|x: int, y: int| 0 <= x < y < sp.len() ==> #[trigger] sp[x].1 < #[trigger] sp[y].0
}

pub proof fn lemma_spans_from_ok(s: Seq<char>, i: int, start: int)
    requires
        0 <= start <= i <= s.len(),
    ensures
        spans_ok(s, spans_from(s, i, start), start),
    decreases s.len() - i,
{
    if i >= s.len() {
    } else if is_sep(s[i]) {
        lemma_spans_from_ok(s, i + 1, i + 1);
        let f = flush_span(s, start, i);
        let r = spans_from(s, i + 1, i + 1);
        assert(spans_from(s, i, start) == f + r);
        assert forall|x: int, y: int|
            0 <= x < y < (f + r).len() implies #[trigger] (f + r)[x].1 < #[trigger] (f + r)[y].0 by {
            if x < f.len() {
                assert(r[y - f.len()].0 >= i + 1);
            }
        }
    } else {
        lemma_spans_from_ok(s, i + 1, start);
    }
}

pub proof fn lemma_comp_spans_ok(s: Seq<char>)
    ensures
        spans_ok(s, comp_spans(s), 0),
        comps(s).len() == comp_spans(s).len(),
        forall|x: int| 0 <= x < comps(s).len() ==> #[trigger] comps(s)[x] == s.subrange(comp_spans(s)[x].0, comp_spans(s)[x].1),
{
    lemma_spans_from_ok(s, 0, 0);
}

// ---------------------------------------------------------------------------
// Executable side
// ---------------------------------------------------------------------------

/// A path split into chars and component spans.
pub struct Parts {
    pub chars: Vec<char>,
    pub spans: Vec<(usize, usize)>,
}

pub open spec fn spans_view(sp: Seq<(usize, usize)>) -> Seq<(int, int)> {
    sp.map_values(|p: (usize, usize)| (p.0 as int, p.1 as int))
}

impl Parts {
    pub open spec fn wf(&self) -> bool {
        spans_view(self.spans@) == comp_spans(self.chars@)
    }
}

fn push_span(chars: &Vec<char>, out: &mut Vec<(usize, usize)>, a: usize, b: usize)
    requires
        a <= b <= chars.len(),
    ensures
        spans_view(final(out)@) == spans_view(old(out)@) + flush_span(chars@, a as int, b as int),
{
    if b > a && !(b == a + 1 && chars[a] == '.') {
        out.push((a, b));
        assert(spans_view(out@) =~= spans_view(old(out)@) + seq![(a as int, b as int)]);
    } else {
        assert(spans_view(out@) =~= spans_view(old(out)@) + flush_span(chars@, a as int, b as int));
    }
}

/// Split `p` into chars and component spans.
pub fn parts_of(p: &str) -> (r: Parts)
    ensures
        r.chars@ == p@,
        r.wf(),
{
    let chars = chars_of(p);
    let mut spans: Vec<(usize, usize)> = Vec::new();
    let mut i: usize = 0;
    let mut start: usize = 0;
    while i < chars.len()
        invariant
            chars@ == p@,
            start <= i <= chars.len(),
            spans_view(spans@) + spans_from(chars@, i as int, start as int) == comp_spans(chars@),
        decreases chars.len() - i,
    {
        if chars[i] == '\\' || chars[i] == '/' {
            let ghost before = spans_view(spans@);
            push_span(&chars, &mut spans, start, i);
            assert(spans_from(chars@, i as int, start as int) == flush_span(chars@, start as int, i as int) + spans_from(chars@, i + 1, i + 1));
            assert(spans_view(spans@) + spans_from(chars@, i + 1, i + 1) =~= before + spans_from(chars@, i as int, start as int));
            i += 1;
            start = i;
        } else {
            i += 1;
        }
    }
    let ghost before = spans_view(spans@);
    push_span(&chars, &mut spans, start, i);
    assert(spans_view(spans@) =~= before + spans_from(chars@, i as int, start as int));
    Parts { chars, spans }
}

/// Whether `a[ai..aj]` and `b[bi..bj]` hold the same chars.
fn range_eq(a: &Vec<char>, ai: usize, aj: usize, b: &Vec<char>, bi: usize, bj: usize) -> (r: bool)
    requires
        ai <= aj <= a.len(),
        bi <= bj <= b.len(),
    ensures
        r == (a@.subrange(ai as int, aj as int) == b@.subrange(bi as int, bj as int)),
{
    if aj - ai != bj - bi {
        assert(a@.subrange(ai as int, aj as int).len() != b@.subrange(bi as int, bj as int).len());
        return false;
    }
    let n = aj - ai;
    let mut k: usize = 0;
    while k < n
        invariant
            ai <= aj <= a.len(),
            bi <= bj <= b.len(),
            n == aj - ai,
            n == bj - bi,
            k <= n,
            forall|x: int| 0 <= x < k ==> a@.subrange(ai as int, aj as int)[x] == #[trigger] b@.subrange(bi as int, bj as int)[x],
        decreases n - k,
    {
        if a[ai + k] != b[bi + k] {
            assert(a@.subrange(ai as int, aj as int)[k as int] != b@.subrange(bi as int, bj as int)[k as int]);
            return false;
        }
        k += 1;
    }
    assert(a@.subrange(ai as int, aj as int) =~= b@.subrange(bi as int, bj as int));
    true
}

/// Whether the components of `base` open the components of `p`.
pub fn parts_start_with(p: &Parts, base: &Parts) -> (r: bool)
    requires
        p.wf(),
        base.wf(),
    ensures
        r == starts_with(p.chars@, base.chars@),
{
    proof {
        lemma_comp_spans_ok(p.chars@);
        lemma_comp_spans_ok(base.chars@);
    }
    let ghost pc = comps(p.chars@);
    let ghost bc = comps(base.chars@);
    if base.spans.len() > p.spans.len() {
        return false;
    }
    let mut k: usize = 0;
    while k < base.spans.len()
        invariant
            p.wf(),
            base.wf(),
            pc == comps(p.chars@),
            bc == comps(base.chars@),
            pc.len() == p.spans.len(),
            bc.len() == base.spans.len(),
            spans_ok(p.chars@, comp_spans(p.chars@), 0),
            spans_ok(base.chars@, comp_spans(base.chars@), 0),
            base.spans.len() <= p.spans.len(),
            k <= base.spans.len(),
            forall|x: int| 0 <= x < k ==> pc[x] == bc[x],
        decreases base.spans.len() - k,
    {
        let (pa, pb) = p.spans[k];
        let (ba, bb) = base.spans[k];
        assert(spans_view(p.spans@)[k as int] == (pa as int, pb as int));
        assert(spans_view(base.spans@)[k as int] == (ba as int, bb as int));
        assert(comp_spans(p.chars@)[k as int] == (pa as int, pb as int));
        assert(comp_spans(base.chars@)[k as int] == (ba as int, bb as int));
        if !range_eq(&p.chars, pa, pb, &base.chars, ba, bb) {
            assert(pc.take(bc.len() as int)[k as int] != bc[k as int]);
            return false;
        }
        k += 1;
    }
    assert(pc.take(bc.len() as int) =~= bc);
    true
}

/// `Path::starts_with` on path text.
pub fn path_starts_with(p: &str, base: &str) -> (r: bool)
    ensures
        r == starts_with(p@, base@),
{
    let pp = parts_of(p);
    let bp = parts_of(base);
    parts_start_with(&pp, &bp)
}

/// The text of `p` from its `k`-th component on.
pub fn parts_rest_after(p: &Parts, k: usize) -> (r: String)
    requires
        p.wf(),
    ensures
        r@ == rest_after(p.chars@, k as int),
{
    proof {
        lemma_comp_spans_ok(p.chars@);
    }
    if k < p.spans.len() {
        let n = p.spans.len();
        let (a, _) = p.spans[k];
        let (_, b) = p.spans[n - 1];
        assert(spans_view(p.spans@)[k as int] == (a as int, p.spans@[k as int].1 as int));
        assert(spans_view(p.spans@)[n - 1] == (p.spans@[n - 1].0 as int, b as int));
        assert(comp_spans(p.chars@)[k as int].0 == a);
        assert(comp_spans(p.chars@)[n - 1].1 == b);
        if k < n - 1 {
            assert(comp_spans(p.chars@)[k as int].1 < comp_spans(p.chars@)[n - 1].0);
        }
        string_of_range(&p.chars, a, b)
    } else {
        String::new()
    }
}

/// `Path::strip_prefix` on path text.
pub fn strip_path_prefix(p: &str, base: &str) -> (r: Option<String>)
    ensures
        match r {
            Some(rest) => strip_prefix(p@, base@) == Some(rest@),
            None => strip_prefix(p@, base@).is_none(),
        },
{
    let pp = parts_of(p);
    let bp = parts_of(base);
    if parts_start_with(&pp, &bp) {
        proof {
            lemma_comp_spans_ok(base@);
        }
        Some(parts_rest_after(&pp, bp.spans.len()))
    } else {
        None
    }
}

/// Number of named components in `p` (every component but `..`).
pub fn named_component_count(p: &str) -> (n: usize)
    ensures
        n == named_count(comps(p@)),
{
    let pp = parts_of(p);
    proof {
        lemma_comp_spans_ok(p@);
    }
    let ghost cs = comps(p@);
    let mut n: usize = 0;
    let mut k: usize = 0;
    while k < pp.spans.len()
        invariant
            pp.wf(),
            pp.chars@ == p@,
            cs == comps(p@),
            cs.len() == pp.spans.len(),
            spans_ok(p@, comp_spans(p@), 0),
            k <= pp.spans.len(),
            n <= k,
            n == named_count(cs.take(k as int)),
        decreases pp.spans.len() - k,
    {
        let (a, b) = pp.spans[k];
        assert(spans_view(pp.spans@)[k as int] == (a as int, b as int));
        assert(cs[k as int] == p@.subrange(a as int, b as int));
        assert(cs.take(k + 1).drop_last() =~= cs.take(k as int));
        let dotdot = b - a == 2 && pp.chars[a] == '.' && pp.chars[a + 1] == '.';
        assert(dotdot == !is_named(cs[k as int])) by {
            assert(cs[k as int].len() == b - a);
            if cs[k as int] == seq!['.', '.'] {
                assert(cs[k as int][0] == p@[a as int]);
                assert(cs[k as int][1] == p@[a + 1]);
            }
            if dotdot {
                assert(cs[k as int] =~= seq!['.', '.']);
            }
        }
        if !dotdot {
            n += 1;
        }
        k += 1;
    }
    assert(cs.take(k as int) =~= cs);
    n
}

/// `Path::join` on path text. `rel` is a relative tail.
pub fn path_join(base: &str, rel: &str) -> (r: String)
    ensures
        r@ == join(base@, rel@),
{
    let bc = chars_of(base);
    let mut out = string_of_range(&bc, 0, bc.len());
    assert(bc@.subrange(0, bc@.len() as int) =~= bc@);
    if bc.len() > 0 && !(bc[bc.len() - 1] == '\\' || bc[bc.len() - 1] == '/') {
        push_char(&mut out, '\\');
    }
    push_str(&mut out, rel);
    out
}

/// `Path::parent` on path text.
pub fn path_parent(p: &str) -> (r: Option<String>)
    ensures
        match r {
            Some(q) => parent(p@) == Some(q@),
            None => parent(p@).is_none(),
        },
{
    let pp = parts_of(p);
    proof {
        lemma_comp_spans_ok(p@);
    }
    let n = pp.spans.len();
    if n == 0 {
        None
    } else if n == 1 {
        let (a, _) = pp.spans[0];
        assert(spans_view(pp.spans@)[0] == (a as int, pp.spans@[0].1 as int));
        Some(string_of_range(&pp.chars, 0, a))
    } else {
        let (_, b) = pp.spans[n - 2];
        assert(spans_view(pp.spans@)[n - 2] == (pp.spans@[n - 2].0 as int, b as int));
        Some(string_of_range(&pp.chars, 0, b))
    }
}

/// The number of separators in a row in `p` from position `i` on.
pub open spec fn sep_run(p: Seq<char>, i: int) -> nat
    decreases p.len() - i,
{
    if 0 <= i < p.len() && is_sep(p[i]) {
        1 + sep_run(p, i + 1)
    } else {
        0
    }
}

/// Where a path is cut for display: after its parent and the separators
/// that follow the parent; at 0 when it has no parent.
pub open spec fn display_split_point(p: Seq<char>) -> int {
    match parent(p) {
        Some(q) => (q.len() + sep_run(p, q.len() as int)) as int,
        None => 0,
    }
}

/// Cut `p` into the directory part and the name part, as colored output
/// paints them apart.
pub fn path_display_split(p: &str) -> (r: (String, String))
    ensures
        0 <= display_split_point(p@) <= p@.len(),
        r.0@ == p@.take(display_split_point(p@)),
        r.1@ == p@.skip(display_split_point(p@)),
{
    let pp = parts_of(p);
    proof {
        lemma_comp_spans_ok(p@);
    }
    let n = pp.spans.len();
    let len = pp.chars.len();
    let start: usize = if n == 0 {
        0
    } else if n == 1 {
        let (a, _) = pp.spans[0];
        assert(spans_view(pp.spans@)[0] == (a as int, pp.spans@[0].1 as int));
        a
    } else {
        let (_, b) = pp.spans[n - 2];
        assert(spans_view(pp.spans@)[n - 2] == (pp.spans@[n - 2].0 as int, b as int));
        b
    };
    assert(start <= len);
    assert(n > 0 ==> parent(p@) == Some(p@.subrange(0, start as int)));
    let mut k: usize = start;
    if n > 0 {
        while k < len && (pp.chars[k] == '\\' || pp.chars[k] == '/')
            invariant
                pp.chars@ == p@,
                len == pp.chars.len(),
                start <= k <= len,
                sep_run(p@, start as int) == (k - start) + sep_run(p@, k as int),
            decreases len - k,
        {
            k += 1;
        }
    }
    let head = string_of_range(&pp.chars, 0, k);
    let tail = string_of_range(&pp.chars, k, len);
    (head, tail)
}

/// `Path::file_name` on path text.
pub fn path_file_name(p: &str) -> (r: Option<String>)
    ensures
        match r {
            Some(q) => file_name(p@) == Some(q@),
            None => file_name(p@).is_none(),
        },
{
    let pp = parts_of(p);
    proof {
        lemma_comp_spans_ok(p@);
    }
    let n = pp.spans.len();
    if n == 0 {
        return None;
    }
    let (a, b) = pp.spans[n - 1];
    assert(spans_view(pp.spans@)[n - 1] == (a as int, b as int));
    let ghost cs = comps(p@);
    assert(cs.last() == p@.subrange(a as int, b as int));
    if n == 1 && a == 0 && b == 2 && has_drive_exec(&pp.chars) {
        assert(only_drive(p@));
        return None;
    }
    assert(!only_drive(p@));
    if b - a == 2 && pp.chars[a] == '.' && pp.chars[a + 1] == '.' {
        assert(cs.last() =~= seq!['.', '.']);
        None
    } else {
        assert(is_named(cs.last())) by {
            if cs.last() == seq!['.', '.'] {
                assert(cs.last().len() == 2);
                assert(cs.last()[0] == p@[a as int]);
                assert(cs.last()[1] == p@[a + 1]);
            }
        }
        Some(string_of_range(&pp.chars, a, b))
    }
}

/// `Path::extension` on path text.
pub fn path_extension(p: &str) -> (r: Option<String>)
    ensures
        match r {
            Some(q) => extension(p@) == Some(q@),
            None => extension(p@).is_none(),
        },
{
    let name = match path_file_name(p) {
        None => return None,
        Some(n) => n,
    };
    let nc = chars_of(name.as_str());
    let mut i: usize = nc.len();
    assert(nc@.take(nc.len() as int) =~= nc@);
    while i > 0
        invariant
            nc@ == name@,
            file_name(p@) == Some(name@),
            i <= nc.len(),
            last_dot(nc@) == last_dot(nc@.take(i as int)),
        decreases i,
    {
        if nc[i - 1] == '.' {
            assert(nc@.take(i as int).last() == '.');
            assert(last_dot(nc@.take(i as int)) == Some(i - 1));
            if i - 1 == 0 {
                return None;
            }
            return Some(string_of_range(&nc, i, nc.len()));
        }
        assert(nc@.take(i as int).drop_last() =~= nc@.take(i - 1));
        i -= 1;
    }
    assert(nc@.take(0) =~= Seq::<char>::empty());
    None
}

/// `./x` becomes `x`, unless the result would start with `-`.
pub fn strip_current_dir(p: &str) -> (r: String)
    ensures
        r@ == strip_current_dir_spec(p@),
{
    let pp = parts_of(p);
    let n = pp.chars.len();
    let cur = n >= 1 && pp.chars[0] == '.' && (n == 1 || pp.chars[1] == '\\' || pp.chars[1] == '/');
    let rest = parts_rest_after(&pp, 0);
    let rc = chars_of(rest.as_str());
    if cur && !(rc.len() > 0 && rc[0] == '-') {
        rest
    } else {
        string_of_range(&pp.chars, 0, n)
    }
}

/// Whether the text of `p` starts with `-`.
pub fn starts_with_dash(p: &str) -> (r: bool)
    ensures
        r == starts_with_dash_spec(p@),
{
    let c = chars_of(p);
    c.len() > 0 && c[0] == '-'
}

/// `./x` becomes `x` (unless that would start with `-`), as a slice of `p`.
pub fn strip_current_dir_str<'a>(p: &'a str) -> (r: &'a str)
    ensures
        r@ == strip_current_dir_spec(p@),
{
    let pp = parts_of(p);
    proof {
        lemma_comp_spans_ok(p@);
    }
    let n = pp.chars.len();
    let cur = n >= 1 && pp.chars[0] == '.' && (n == 1 || pp.chars[1] == '\\' || pp.chars[1] == '/');
    if !cur {
        return p;
    }
    let k = pp.spans.len();
    if k == 0 {
        let e = p.substring_char(0, 0);
        assert(rest_after(p@, 0) =~= Seq::<char>::empty());
        assert(e@ =~= Seq::<char>::empty());
        return e;
    }
    let (a, _) = pp.spans[0];
    let (_, b) = pp.spans[k - 1];
    assert(spans_view(pp.spans@)[0] == (a as int, pp.spans@[0].1 as int));
    assert(spans_view(pp.spans@)[k - 1] == (pp.spans@[k - 1].0 as int, b as int));
    if k > 1 {
        assert(comp_spans(p@)[0].1 < comp_spans(p@)[k - 1].0);
    }
    assert(rest_after(p@, 0) == p@.subrange(a as int, b as int));
    if pp.chars[a] == '-' {
        return p;
    }
    p.substring_char(a, b)
}

/// Whether two paths have the same components (`Path` equality).
pub fn path_same(a: &str, b: &str) -> (r: bool)
    ensures
        r == (comps(a@) == comps(b@)),
{
    let x = path_starts_with(a, b);
    let y = path_starts_with(b, a);
    proof {
        if x && y {
            assert(comps(a@).len() == comps(b@).len());
            assert(comps(a@).take(comps(b@).len() as int) =~= comps(a@));
        }
        if comps(a@) == comps(b@) {
            assert(comps(a@).take(comps(b@).len() as int) =~= comps(b@));
        }
    }
    x && y
}

// ---------------------------------------------------------------------------
// Prefixes, roots and `PathBuf::push`
// ---------------------------------------------------------------------------

pub open spec fn ascii_alpha(c: char) -> bool {
    ('a' <= c <= 'z') || ('A' <= c <= 'Z')
}

/// The path opens with a drive prefix `X:`.
pub open spec fn has_drive(p: Seq<char>) -> bool {
    p.len() >= 2 && ascii_alpha(p[0]) && p[1] == ':'
}

/// The path opens with two separators (UNC, device or verbatim form).
pub open spec fn double_sep(p: Seq<char>) -> bool {
    p.len() >= 2 && is_sep(p[0]) && is_sep(p[1])
}

/// `Path::is_absolute` on Windows: a drive prefix followed by a root, or a
/// UNC / device / verbatim path.
pub open spec fn is_absolute(p: Seq<char>) -> bool {
    (has_drive(p) && p.len() >= 3 && is_sep(p[2])) || double_sep(p)
}

/// A root without a prefix (`\x`).
pub open spec fn rooted_without_prefix(p: Seq<char>) -> bool {
    p.len() >= 1 && is_sep(p[0]) && !double_sep(p)
}

/// `PathBuf::push` on Windows: an absolute `rel`, or one with a drive of
/// its own, replaces `base`; a `rel` with a root but no prefix keeps only
/// the drive of `base`; any other `rel` is joined below `base`. (A UNC
/// prefix of `base` is not kept for a rooted `rel`.)
pub open spec fn push_spec(base: Seq<char>, rel: Seq<char>) -> Seq<char> {
    if is_absolute(rel) || has_drive(rel) {
        rel
    } else if rooted_without_prefix(rel) {
        (if has_drive(base) { base.take(2) } else { Seq::empty() }) + rel
    } else {
        join(base, rel)
    }
}

fn is_sep_char(c: char) -> (b: bool)
    ensures
        b == is_sep(c),
{
    c == '\\' || c == '/'
}

fn has_drive_exec(v: &Vec<char>) -> (b: bool)
    ensures
        b == has_drive(v@),
{
    v.len() >= 2 && (('a' <= v[0] && v[0] <= 'z') || ('A' <= v[0] && v[0] <= 'Z')) && v[1] == ':'
}

/// `Path::is_absolute` on path text.
pub fn path_is_absolute(p: &str) -> (b: bool)
    ensures
        b == is_absolute(p@),
{
    let v = chars_of(p);
    (has_drive_exec(&v) && v.len() >= 3 && is_sep_char(v[2])) || (v.len() >= 2 && is_sep_char(v[0]) && is_sep_char(v[1]))
}

/// `PathBuf::push` on path text.
pub fn path_push(base: &str, rel: &str) -> (r: String)
    ensures
        r@ == push_spec(base@, rel@),
{
    let rv = chars_of(rel);
    if path_is_absolute(rel) || has_drive_exec(&rv) {
        let r = string_of_range(&rv, 0, rv.len());
        assert(rv@.subrange(0, rv@.len() as int) =~= rv@);
        return r;
    }
    if rv.len() >= 1 && is_sep_char(rv[0]) && !(rv.len() >= 2 && is_sep_char(rv[1])) {
        let bv = chars_of(base);
        let mut out = if has_drive_exec(&bv) {
            string_of_range(&bv, 0, 2)
        } else {
            String::new()
        };
        assert(has_drive(base@) ==> bv@.subrange(0, 2) =~= base@.take(2));
        push_str(&mut out, rel);
        return out;
    }
    path_join(base, rel)
}

/// An absolute form of a walked path: an absolute path as it is; any other
/// path, without a leading `.` component, below `cwd`.
pub open spec fn absolute_under(p: Seq<char>, cwd: Seq<char>) -> Seq<char> {
    if is_absolute(p) {
        p
    } else {
        let rel = if begins_with_cur_dir(p) { rest_after(p, 0) } else { p };
        push_spec(cwd, rel)
    }
}

/// The absolute path of an entry the walker reports relative to `cwd`.
pub fn make_absolute(p: &str, cwd: &str) -> (r: String)
    ensures
        r@ == absolute_under(p@, cwd@),
{
    if path_is_absolute(p) {
        return owned(p);
    }
    let parts = parts_of(p);
    let n = parts.chars.len();
    let cur = n >= 1 && parts.chars[0] == '.' && (n == 1 || is_sep_char(parts.chars[1]));
    let rel = if cur { parts_rest_after(&parts, 0) } else { owned(p) };
    path_push(cwd, rel.as_str())
}

} // verus!
