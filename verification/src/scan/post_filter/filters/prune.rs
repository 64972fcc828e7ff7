//! `--prune`: a directory hit that survives every upstream filter is kept,
//! and every hit below it is suppressed. Hits arrive in no particular order,
//! so every survivor is held back, sorted by path (parents before children),
//! and the pruning happens on drain.

use vstd::prelude::*;
use crate::scan::backend::{RawHit, RawHitView, hits_view};
use crate::scan::post_filter::{Filter, Verdict};
use crate::scan::post_filter::filters::symlink_filter::{below_any, strictly_below};
use crate::winpath;

verus! {

// ---------------------------------------------------------------------------
// Path order: component by component, each component char by char
// ---------------------------------------------------------------------------

pub open spec fn seg_less(a: Seq<char>, b: Seq<char>) -> bool
    decreases a.len(),
{
    if a.len() == 0 {
        b.len() > 0
    } else if b.len() == 0 {
        false
    } else if a[0] != b[0] {
        (a[0] as u32) < (b[0] as u32)
    } else {
        seg_less(a.drop_first(), b.drop_first())
    }
}

pub open spec fn comps_less(a: Seq<Seq<char>>, b: Seq<Seq<char>>) -> bool
    decreases a.len(),
{
    if a.len() == 0 {
        b.len() > 0
    } else if b.len() == 0 {
        false
    } else if a[0] != b[0] {
        seg_less(a[0], b[0])
    } else {
        comps_less(a.drop_first(), b.drop_first())
    }
}

/// `Path` order: parents sort before their descendants.
pub open spec fn path_less(p: Seq<char>, q: Seq<char>) -> bool {
    comps_less(winpath::comps(p), winpath::comps(q))
}

pub proof fn lemma_seg_less_irrefl_total(a: Seq<char>, b: Seq<char>)
    ensures
        seg_less(a, b) ==> a != b,
        a != b ==> (seg_less(a, b) || seg_less(b, a)),
    decreases a.len(),
{
    if a.len() > 0 && b.len() > 0 && a[0] == b[0] {
        lemma_seg_less_irrefl_total(a.drop_first(), b.drop_first());
        if a != b {
            assert(a.drop_first() != b.drop_first()) by {
                if a.drop_first() == b.drop_first() {
                    assert(a =~= seq![a[0]] + a.drop_first());
                    assert(b =~= seq![b[0]] + b.drop_first());
                }
            }
        }
    }
    if a.len() == 0 && b.len() == 0 {
        assert(a =~= b);
    }
    if a.len() > 0 && b.len() > 0 && a[0] != b[0] {
        vstd::utf8::char_u32_cast(a[0], a[0] as u32);
        vstd::utf8::char_u32_cast(b[0], b[0] as u32);
    }
}

pub proof fn lemma_seg_less_asym(a: Seq<char>, b: Seq<char>)
    ensures
        seg_less(a, b) ==> !seg_less(b, a),
    decreases a.len(),
{
    if a.len() > 0 && b.len() > 0 && a[0] == b[0] {
        lemma_seg_less_asym(a.drop_first(), b.drop_first());
    }
}

pub proof fn lemma_comps_less_asym(a: Seq<Seq<char>>, b: Seq<Seq<char>>)
    ensures
        comps_less(a, b) ==> !comps_less(b, a),
    decreases a.len(),
{
    if a.len() > 0 && b.len() > 0 {
        if a[0] == b[0] {
            lemma_comps_less_asym(a.drop_first(), b.drop_first());
        } else {
            lemma_seg_less_asym(a[0], b[0]);
        }
    }
}

pub proof fn lemma_comps_less_irrefl_total(a: Seq<Seq<char>>, b: Seq<Seq<char>>)
    ensures
        comps_less(a, b) ==> a != b,
        a != b ==> (comps_less(a, b) || comps_less(b, a)),
    decreases a.len(),
{
    if a.len() > 0 && b.len() > 0 {
        if a[0] == b[0] {
            lemma_comps_less_irrefl_total(a.drop_first(), b.drop_first());
            if a != b {
                assert(a.drop_first() != b.drop_first()) by {
                    if a.drop_first() == b.drop_first() {
                        assert(a =~= seq![a[0]] + a.drop_first());
                        assert(b =~= seq![b[0]] + b.drop_first());
                    }
                }
            }
        } else {
            lemma_seg_less_irrefl_total(a[0], b[0]);
        }
    }
    if a.len() == 0 && b.len() == 0 {
        assert(a =~= b);
    }
}

pub proof fn lemma_seg_less_trans(a: Seq<char>, b: Seq<char>, c: Seq<char>)
    requires
        seg_less(a, b),
        seg_less(b, c),
    ensures
        seg_less(a, c),
    decreases a.len(),
{
    if a.len() > 0 {
        if a[0] == b[0] && b[0] == c[0] {
            lemma_seg_less_trans(a.drop_first(), b.drop_first(), c.drop_first());
        } else {
            vstd::utf8::char_u32_cast(a[0], a[0] as u32);
            vstd::utf8::char_u32_cast(b[0], b[0] as u32);
            vstd::utf8::char_u32_cast(c[0], c[0] as u32);
        }
    }
}

pub proof fn lemma_comps_less_trans(a: Seq<Seq<char>>, b: Seq<Seq<char>>, c: Seq<Seq<char>>)
    requires
        comps_less(a, b),
        comps_less(b, c),
    ensures
        comps_less(a, c),
    decreases a.len(),
{
    if a.len() > 0 {
        if a[0] == b[0] && b[0] == c[0] {
            lemma_comps_less_trans(a.drop_first(), b.drop_first(), c.drop_first());
        } else if a[0] != b[0] && b[0] != c[0] {
            lemma_seg_less_trans(a[0], b[0], c[0]);
            lemma_seg_less_irrefl_total(a[0], c[0]);
        }
    }
}

/// Hits in strictly increasing path order.
pub open spec fn sorted_by_path(s: Seq<RawHitView>) -> bool {
    forall|i: int, j: int| 0 <= i < j < s.len() ==> path_less(#[trigger] s[i].path, #[trigger] s[j].path)
}

/// A path below every hit of `buf` and below `h` stays below every hit
/// after `h` is taken in.
proof fn lemma_insert_lower(buf: Seq<RawHitView>, h: RawHitView, q: Seq<Seq<char>>)
    requires
        comps_less(q, winpath::comps(h.path)),
        forall|j: int| 0 <= j < buf.len() ==> comps_less(q, winpath::comps(#[trigger] buf[j].path)),
    ensures
        forall|k: int| 0 <= k < insert_hit(buf, h).len() ==> comps_less(q, winpath::comps(#[trigger] insert_hit(buf, h)[k].path)),
    decreases buf.len(),
{
    let ins = insert_hit(buf, h);
    if buf.len() > 0 && !(winpath::comps(buf[0].path) == winpath::comps(h.path)) && !path_less(h.path, buf[0].path) {
        let rest = buf.drop_first();
        assert(forall|j: int| 0 <= j < rest.len() ==> rest[j] == buf[j + 1]);
        lemma_insert_lower(rest, h, q);
        assert forall|k: int| 0 <= k < ins.len() implies comps_less(q, winpath::comps(#[trigger] ins[k].path)) by {
            if k > 0 {
                assert(ins[k] == insert_hit(rest, h)[k - 1]);
            }
        }
    } else if buf.len() > 0 {
        assert forall|k: int| 0 <= k < ins.len() implies comps_less(q, winpath::comps(#[trigger] ins[k].path)) by {
            if k > 0 {
                if winpath::comps(buf[0].path) == winpath::comps(h.path) {
                    assert(ins[k] == buf[k]);
                } else {
                    assert(ins[k] == buf[k - 1]);
                }
            }
        }
    }
}

/// Taking a hit in keeps the buffer in strictly increasing path order.
pub proof fn lemma_insert_keeps_sorted(buf: Seq<RawHitView>, h: RawHitView)
    requires
        sorted_by_path(buf),
    ensures
        sorted_by_path(insert_hit(buf, h)),
    decreases buf.len(),
{
    let ins = insert_hit(buf, h);
    if buf.len() == 0 {
        return;
    }
    let rest = buf.drop_first();
    assert(forall|j: int| 0 <= j < rest.len() ==> rest[j] == buf[j + 1]);
    if winpath::comps(buf[0].path) == winpath::comps(h.path) {
        assert forall|i: int, j: int| 0 <= i < j < ins.len() implies path_less(#[trigger] ins[i].path, #[trigger] ins[j].path) by {
            assert(ins[j] == buf[j]);
            if i > 0 {
                assert(ins[i] == buf[i]);
            } else {
                assert(path_less(buf[0].path, buf[j].path));
            }
        }
    } else if path_less(h.path, buf[0].path) {
        assert forall|i: int, j: int| 0 <= i < j < ins.len() implies path_less(#[trigger] ins[i].path, #[trigger] ins[j].path) by {
            assert(ins[j] == buf[j - 1]);
            if i > 0 {
                assert(ins[i] == buf[i - 1]);
            } else if j > 1 {
                assert(path_less(buf[0].path, buf[j - 1].path));
                lemma_comps_less_trans(winpath::comps(h.path), winpath::comps(buf[0].path), winpath::comps(buf[j - 1].path));
            }
        }
    } else {
        lemma_comps_less_irrefl_total(winpath::comps(buf[0].path), winpath::comps(h.path));
        lemma_insert_keeps_sorted(rest, h);
        assert forall|j: int| 0 <= j < rest.len() implies comps_less(winpath::comps(buf[0].path), winpath::comps(#[trigger] rest[j].path)) by {
            assert(path_less(buf[0].path, buf[j + 1].path));
        }
        lemma_insert_lower(rest, h, winpath::comps(buf[0].path));
        let tail = insert_hit(rest, h);
        assert forall|i: int, j: int| 0 <= i < j < ins.len() implies path_less(#[trigger] ins[i].path, #[trigger] ins[j].path) by {
            assert(ins[j] == tail[j - 1]);
            if i > 0 {
                assert(ins[i] == tail[i - 1]);
            }
        }
    }
}

// ---------------------------------------------------------------------------
// Buffer and drain
// ---------------------------------------------------------------------------

/// The buffer after taking in `h`: a hit with the same path is replaced,
/// otherwise `h` goes before the first hit that sorts after it.
pub open spec fn insert_hit(buf: Seq<RawHitView>, h: RawHitView) -> Seq<RawHitView>
    decreases buf.len(),
{
    if buf.len() == 0 {
        seq![h]
    } else if winpath::comps(buf[0].path) == winpath::comps(h.path) {
        seq![h] + buf.drop_first()
    } else if path_less(h.path, buf[0].path) {
        seq![h] + buf
    } else {
        seq![buf[0]] + insert_hit(buf.drop_first(), h)
    }
}

/// The drained hits: in buffer order, skipping every hit strictly below a
/// directory already emitted (or listed in `dirs`).
pub open spec fn prune_from(hits: Seq<RawHitView>, dirs: Seq<Seq<char>>) -> Seq<RawHitView>
    decreases hits.len(),
{
    if hits.len() == 0 {
        Seq::empty()
    } else if below_any(dirs, hits[0].path) {
        prune_from(hits.drop_first(), dirs)
    } else {
        seq![hits[0]] + prune_from(hits.drop_first(), if hits[0].is_dir { dirs.push(hits[0].path) } else { dirs })
    }
}

pub open spec fn prune_output(hits: Seq<RawHitView>) -> Seq<RawHitView> {
    prune_from(hits, Seq::empty())
}

/// Holds the hits back in path order until the drain.
pub struct PruneFilter {
    buffer: Vec<RawHit>,
}

impl PruneFilter {
    /// The held-back hits are always in path order.
    #[verifier::type_invariant]
    closed spec fn in_path_order(self) -> bool {
        sorted_by_path(hits_view(self.buffer@))
    }

    pub fn new() -> (f: Self)
        ensures
            f.buffered() == Seq::<RawHitView>::empty(),
            sorted_by_path(f.buffered()),
            forall|h: RawHitView, v: Verdict| #[trigger] f.allows(h, v) == (v == Verdict::Drop),
            f.pending() == Seq::<RawHitView>::empty(),
    {
        let buffer: Vec<RawHit> = Vec::new();
        assert(hits_view(buffer@) =~= Seq::<RawHitView>::empty());
        PruneFilter { buffer }
    }

    /// The held-back hits, in path order.
    pub closed spec fn buffered(&self) -> Seq<RawHitView> {
        hits_view(self.buffer@)
    }
}

impl Default for PruneFilter {
    fn default() -> (f: Self)
        ensures
            f.buffered() == Seq::<RawHitView>::empty(),
    {
        PruneFilter::new()
    }
}

/// Whether `a[ai..aj]` sorts before `b[bi..bj]`, char by char.
fn range_less(a: &Vec<char>, ai: usize, aj: usize, b: &Vec<char>, bi: usize, bj: usize) -> (r: bool)
    requires
        ai <= aj <= a.len(),
        bi <= bj <= b.len(),
    ensures
        r == seg_less(a@.subrange(ai as int, aj as int), b@.subrange(bi as int, bj as int)),
    decreases aj - ai,
{
    let ghost x = a@.subrange(ai as int, aj as int);
    let ghost y = b@.subrange(bi as int, bj as int);
    if ai == aj {
        return bi < bj;
    }
    if bi == bj {
        return false;
    }
    if a[ai] != b[bi] {
        assert(x[0] == a@[ai as int] && y[0] == b@[bi as int]);
        return (a[ai] as u32) < (b[bi] as u32);
    }
    assert(x.drop_first() =~= a@.subrange(ai + 1, aj as int));
    assert(y.drop_first() =~= b@.subrange(bi + 1, bj as int));
    range_less(a, ai + 1, aj, b, bi + 1, bj)
}

fn parts_less(p: &winpath::Parts, q: &winpath::Parts, k: usize) -> (r: bool)
    requires
        p.wf(),
        q.wf(),
        k <= p.spans.len(),
        k <= q.spans.len(),
    ensures
        r == comps_less(winpath::comps(p.chars@).skip(k as int), winpath::comps(q.chars@).skip(k as int)),
    decreases p.spans.len() - k,
{
    proof {
        winpath::lemma_comp_spans_ok(p.chars@);
        winpath::lemma_comp_spans_ok(q.chars@);
    }
    let ghost pc = winpath::comps(p.chars@);
    let ghost qc = winpath::comps(q.chars@);
    assert(pc.len() == p.spans.len() && qc.len() == q.spans.len()) by {
        assert(winpath::spans_view(p.spans@).len() == p.spans@.len());
        assert(winpath::spans_view(q.spans@).len() == q.spans@.len());
    }
    if k >= p.spans.len() {
        assert(pc.skip(k as int) =~= Seq::<Seq<char>>::empty());
        assert(k < q.spans.len() ==> qc.skip(k as int).len() > 0);
        assert(k >= q.spans.len() ==> qc.skip(k as int) =~= Seq::<Seq<char>>::empty());
        return k < q.spans.len();
    }
    if k >= q.spans.len() {
        assert(qc.skip(k as int) =~= Seq::<Seq<char>>::empty());
        return false;
    }
    let (pa, pb) = p.spans[k];
    let (qa, qb) = q.spans[k];
    assert(winpath::spans_view(p.spans@)[k as int] == (pa as int, pb as int));
    assert(winpath::spans_view(q.spans@)[k as int] == (qa as int, qb as int));
    assert(pc.skip(k as int)[0] == p.chars@.subrange(pa as int, pb as int));
    assert(qc.skip(k as int)[0] == q.chars@.subrange(qa as int, qb as int));
    assert(pc.skip(k as int).drop_first() =~= pc.skip(k + 1));
    assert(qc.skip(k as int).drop_first() =~= qc.skip(k + 1));
    let same = pb - pa == qb - qa && !range_less(&p.chars, pa, pb, &q.chars, qa, qb) && !range_less(&q.chars, qa, qb, &p.chars, pa, pb);
    proof {
        lemma_seg_less_irrefl_total(p.chars@.subrange(pa as int, pb as int), q.chars@.subrange(qa as int, qb as int));
    }
    if !same {
        if range_less(&p.chars, pa, pb, &q.chars, qa, qb) {
            return true;
        }
        if range_less(&q.chars, qa, qb, &p.chars, pa, pb) {
            return false;
        }
        assert(false);
        return false;
    }
    parts_less(p, q, k + 1)
}

/// `Path` order on path text.
pub fn path_less_exec(p: &str, q: &str) -> (r: bool)
    ensures
        r == path_less(p@, q@),
{
    let pp = winpath::parts_of(p);
    let qp = winpath::parts_of(q);
    assert(winpath::comps(p@).skip(0) =~= winpath::comps(p@));
    assert(winpath::comps(q@).skip(0) =~= winpath::comps(q@));
    parts_less(&pp, &qp, 0)
}

impl Filter for PruneFilter {
    /// Every hit is held back: the answer is always `Drop` for now, and the
    /// hit comes out again on drain.
    closed spec fn allows(&self, hit: RawHitView, v: Verdict) -> bool {
        v == Verdict::Drop
    }

    closed spec fn pending(&self) -> Seq<RawHitView> {
        prune_output(hits_view(self.buffer@))
    }

    fn evaluate(&mut self, hit: &RawHit) -> (v: Verdict)
        ensures
            v == Verdict::Drop,
            final(self).buffered() == insert_hit(old(self).buffered(), hit@),
            sorted_by_path(final(self).buffered()),
    {
        proof {
            use_type_invariant(&*self);
        }
        let mut buffer: Vec<RawHit> = Vec::new();
        std::mem::swap(&mut buffer, &mut self.buffer);
        let ghost buf = hits_view(buffer@);
        proof {
            lemma_insert_keeps_sorted(buf, hit@);
        }
        let mut i: usize = 0;
        assert(buf.skip(0) =~= buf);
        assert(buf.take(0) =~= Seq::<RawHitView>::empty());
        while i < buffer.len() && path_less_exec(buffer[i].path.as_str(), hit.path.as_str())
            invariant
                buf == hits_view(buffer@),
                i <= buffer.len(),
                insert_hit(buf, hit@) == buf.take(i as int) + insert_hit(buf.skip(i as int), hit@),
            decreases buffer.len() - i,
        {
            proof {
                let rest = buf.skip(i as int);
                lemma_comps_less_irrefl_total(winpath::comps(rest[0].path), winpath::comps(hit@.path));
                lemma_comps_less_asym(winpath::comps(rest[0].path), winpath::comps(hit@.path));
                assert(rest[0] == buf[i as int]);
                assert(rest.drop_first() =~= buf.skip(i + 1));
                assert(insert_hit(rest, hit@) == seq![rest[0]] + insert_hit(buf.skip(i + 1), hit@));
                assert(buf.take(i + 1) =~= buf.take(i as int).push(buf[i as int]));
                assert(buf.take(i as int) + (seq![buf[i as int]] + insert_hit(buf.skip(i + 1), hit@)) =~= buf.take(i + 1) + insert_hit(buf.skip(i + 1), hit@));
            }
            i += 1;
        }
        let h = hit.clone();
        if i < buffer.len() && winpath::path_same(buffer[i].path.as_str(), hit.path.as_str()) {
            proof {
                let rest = buf.skip(i as int);
                assert(rest[0] == buf[i as int]);
                assert(rest.drop_first() =~= buf.skip(i + 1));
            }
            buffer.set(i, h);
            proof {
                assert(hits_view(buffer@) =~= buf.take(i as int) + (seq![hit@] + buf.skip(i as int).drop_first()));
            }
        } else {
            proof {
                let rest = buf.skip(i as int);
                if i < buf.len() {
                    assert(rest[0] == buf[i as int]);
                    lemma_comps_less_irrefl_total(winpath::comps(rest[0].path), winpath::comps(hit@.path));
                    assert(insert_hit(rest, hit@) == seq![hit@] + rest);
                } else {
                    assert(rest =~= Seq::<RawHitView>::empty());
                }
            }
            buffer.insert(i, h);
            proof {
                assert(hits_view(buffer@) =~= buf.take(i as int) + (seq![hit@] + buf.skip(i as int)));
            }
        }
        self.buffer = buffer;
        Verdict::Drop
    }

    /// Hands out the held hits in path order, less those that a held
    /// directory lies strictly above, and holds nothing afterwards.
    fn drain(&mut self) -> (r: Vec<RawHit>)
        ensures
            hits_view(r@) == undominated(old(self).buffered(), old(self).buffered()),
            final(self).buffered() == Seq::<RawHitView>::empty(),
    {
        proof {
            use_type_invariant(&*self);
            lemma_prune_keeps_exactly_undominated(hits_view(self.buffer@));
        }
        let mut buffer: Vec<RawHit> = Vec::new();
        std::mem::swap(&mut buffer, &mut self.buffer);
        let ghost all = hits_view(buffer@);
        let mut emitted_dirs: Vec<String> = Vec::new();
        let mut out: Vec<RawHit> = Vec::new();
        let mut i: usize = 0;
        assert(all.skip(0) =~= all);
        assert(emitted_dirs@.map_values(|d: String| d@) =~= Seq::<Seq<char>>::empty());
        assert(hits_view(out@) =~= Seq::<RawHitView>::empty());
        while i < buffer.len()
            invariant
                all == hits_view(buffer@),
                all == old(self).buffered(),
                i <= buffer.len(),
                prune_output(all) == hits_view(out@) + prune_from(all.skip(i as int), emitted_dirs@.map_values(|d: String| d@)),
            decreases buffer.len() - i,
        {
            let ghost ds = emitted_dirs@.map_values(|d: String| d@);
            let ghost rest = all.skip(i as int);
            assert(rest[0] == buffer@[i as int]@);
            assert(rest.drop_first() =~= all.skip(i + 1));
            let path = buffer[i].path.as_str();
            let mut below = false;
            let mut k: usize = 0;
            while k < emitted_dirs.len()
                invariant
                    ds == emitted_dirs@.map_values(|d: String| d@),
                    k <= emitted_dirs.len(),
                    i < buffer.len(),
                    path@ == buffer@[i as int].path@,
                    below == exists|j: int| 0 <= j < k && strictly_below(path@, #[trigger] ds[j]),
                decreases emitted_dirs.len() - k,
            {
                let d = emitted_dirs[k].as_str();
                assert(ds[k as int] == d@);
                if winpath::path_starts_with(path, d) && !winpath::path_same(path, d) {
                    below = true;
                }
                k += 1;
            }
            assert(below == below_any(ds, rest[0].path));
            if !below {
                if buffer[i].is_dir {
                    emitted_dirs.push(buffer[i].path.clone());
                    assert(emitted_dirs@.map_values(|d: String| d@) =~= ds.push(rest[0].path));
                }
                let ghost prev = hits_view(out@);
                out.push(buffer[i].clone());
                assert(hits_view(out@) =~= prev + seq![rest[0]]);
            }
            i += 1;
        }
        assert(all.skip(i as int) =~= Seq::<RawHitView>::empty());
        out
    }
}

/// `--prune` law: no drained hit lies strictly below a drained directory
/// that comes before it.
pub proof fn lemma_prune_keeps_no_descendant(hits: Seq<RawHitView>)
    ensures
        forall|i: int, j: int| 0 <= i < j < prune_output(hits).len() && (#[trigger] prune_output(hits)[i]).is_dir
            ==> !strictly_below((#[trigger] prune_output(hits)[j]).path, prune_output(hits)[i].path),
{
    lemma_prune_from_shape(hits, Seq::empty());
}

proof fn lemma_prune_from_shape(hits: Seq<RawHitView>, dirs: Seq<Seq<char>>)
    ensures
        forall|j: int| 0 <= j < prune_from(hits, dirs).len() ==> !below_any(dirs, (#[trigger] prune_from(hits, dirs)[j]).path),
        forall|i: int, j: int| 0 <= i < j < prune_from(hits, dirs).len() && (#[trigger] prune_from(hits, dirs)[i]).is_dir
            ==> !strictly_below((#[trigger] prune_from(hits, dirs)[j]).path, prune_from(hits, dirs)[i].path),
    decreases hits.len(),
{
    if hits.len() > 0 {
        let h = hits[0];
        if below_any(dirs, h.path) {
            lemma_prune_from_shape(hits.drop_first(), dirs);
            assert(prune_from(hits, dirs) == prune_from(hits.drop_first(), dirs));
        } else {
            let nd = if h.is_dir { dirs.push(h.path) } else { dirs };
            lemma_prune_from_shape(hits.drop_first(), nd);
            let tail = prune_from(hits.drop_first(), nd);
            let out = prune_from(hits, dirs);
            assert(out == seq![h] + tail);
            assert(out[0] == h);
            assert forall|j: int| 0 <= j < out.len() implies !below_any(dirs, (#[trigger] out[j]).path) by {
                if j > 0 {
                    assert(out[j] == tail[j - 1]);
                    if below_any(dirs, out[j].path) {
                        let k = choose|k: int| 0 <= k < dirs.len() && strictly_below(out[j].path, #[trigger] dirs[k]);
                        assert(nd[k] == dirs[k]);
                        assert(below_any(nd, tail[j - 1].path));
                    }
                }
            }
            assert forall|i: int, j: int| 0 <= i < j < out.len() && (#[trigger] out[i]).is_dir
                implies !strictly_below((#[trigger] out[j]).path, out[i].path) by {
                assert(out[j] == tail[j - 1]);
                if i == 0 {
                    assert(nd[dirs.len() as int] == h.path);
                    if strictly_below(out[j].path, h.path) {
                        assert(below_any(nd, tail[j - 1].path));
                    }
                } else {
                    assert(out[i] == tail[i - 1]);
                }
            }
        }
    }
}

/// Some directory hit of `all` lies strictly above `h`.
pub open spec fn dominated(all: Seq<RawHitView>, h: RawHitView) -> bool {
    exists|j: int| 0 <= j < all.len() && (#[trigger] all[j]).is_dir && strictly_below(h.path, all[j].path)
}

/// The hits of `s`, in order, that no directory hit of `all` lies
/// strictly above.
pub open spec fn undominated(all: Seq<RawHitView>, s: Seq<RawHitView>) -> Seq<RawHitView>
    decreases s.len(),
{
    if s.len() == 0 {
        Seq::empty()
    } else {
        (if dominated(all, s[0]) { Seq::empty() } else { seq![s[0]] }) + undominated(all, s.drop_first())
    }
}

/// `--prune` law: drained from a buffer in path order, the hits kept are
/// exactly those that no buffered directory lies strictly above, in buffer
/// order.
pub proof fn lemma_prune_keeps_exactly_undominated(all: Seq<RawHitView>)
    requires
        sorted_by_path(all),
    ensures
        prune_output(all) == undominated(all, all),
{
    assert(all.skip(0) =~= all);
    lemma_prune_from_undominated(all, 0, Seq::empty());
}

/// A proper prefix sorts first.
proof fn lemma_proper_prefix_less(a: Seq<Seq<char>>, b: Seq<Seq<char>>)
    requires
        a.len() < b.len(),
        b.take(a.len() as int) == a,
    ensures
        comps_less(a, b),
    decreases a.len(),
{
    if a.len() > 0 {
        assert(b.take(a.len() as int)[0] == b[0]);
        let a1 = a.drop_first();
        let b1 = b.drop_first();
        assert forall|k: int| 0 <= k < a1.len() implies #[trigger] b1.take(a1.len() as int)[k] == a1[k] by {
            assert(b.take(a.len() as int)[k + 1] == b[k + 1]);
        }
        assert(b1.take(a1.len() as int) =~= a1);
        lemma_proper_prefix_less(a1, b1);
    }
}

/// Strictly below, in components: a proper prefix.
proof fn lemma_strictly_below_prefix(p: Seq<char>, d: Seq<char>)
    requires
        strictly_below(p, d),
    ensures
        winpath::comps(d).len() < winpath::comps(p).len(),
        winpath::comps(p).take(winpath::comps(d).len() as int) == winpath::comps(d),
        comps_less(winpath::comps(d), winpath::comps(p)),
{
    let cp = winpath::comps(p);
    let cd = winpath::comps(d);
    if cd.len() == cp.len() {
        assert(cp.take(cd.len() as int) =~= cp);
    }
    lemma_proper_prefix_less(cd, cp);
}

/// Below a path that is below `c` is below `c`.
proof fn lemma_strictly_below_trans(a: Seq<char>, b: Seq<char>, c: Seq<char>)
    requires
        strictly_below(a, b),
        strictly_below(b, c),
    ensures
        strictly_below(a, c),
{
    lemma_strictly_below_prefix(a, b);
    lemma_strictly_below_prefix(b, c);
    let ca = winpath::comps(a);
    let cb = winpath::comps(b);
    let cc = winpath::comps(c);
    assert(ca.take(cc.len() as int) =~= cb.take(cc.len() as int));
    assert(ca != cc);
}

/// In a buffer in path order, a directory above a hit comes before it.
proof fn lemma_dominator_first(all: Seq<RawHitView>, i: int, j: int)
    requires
        sorted_by_path(all),
        0 <= i < all.len(),
        0 <= j < all.len(),
        strictly_below(all[i].path, all[j].path),
    ensures
        j < i,
{
    lemma_strictly_below_prefix(all[i].path, all[j].path);
    if i < j {
        assert(path_less(all[i].path, all[j].path));
        lemma_comps_less_asym(winpath::comps(all[i].path), winpath::comps(all[j].path));
    }
}

/// `dirs` stands for the directory hits before position `n`: a later hit is
/// below one of `dirs` exactly when a directory hit before `n` lies
/// strictly above it.
pub open spec fn dirs_cover(all: Seq<RawHitView>, n: int, dirs: Seq<Seq<char>>) -> bool {
    forall|i: int| n <= i < all.len() ==> (below_any(dirs, (#[trigger] all[i]).path)
        <==> exists|j: int| 0 <= j < n && (#[trigger] all[j]).is_dir && strictly_below(all[i].path, all[j].path))
}

proof fn lemma_prune_from_undominated(all: Seq<RawHitView>, n: int, dirs: Seq<Seq<char>>)
    requires
        sorted_by_path(all),
        0 <= n <= all.len(),
        dirs_cover(all, n, dirs),
    ensures
        prune_from(all.skip(n), dirs) == undominated(all, all.skip(n)),
    decreases all.len() - n,
{
    let s = all.skip(n);
    if n < all.len() {
        let h = all[n];
        assert(s[0] == h);
        assert(s.drop_first() =~= all.skip(n + 1));
        // `h` is dominated exactly when a directory before it lies above it.
        assert(dominated(all, h) <==> below_any(dirs, h.path)) by {
            if dominated(all, h) {
                let j = choose|j: int| 0 <= j < all.len() && (#[trigger] all[j]).is_dir && strictly_below(h.path, all[j].path);
                lemma_dominator_first(all, n, j);
            }
        }
        let nd = if !below_any(dirs, h.path) && h.is_dir { dirs.push(h.path) } else { dirs };
        assert(dirs_cover(all, n + 1, nd)) by {
            assert forall|i: int| n + 1 <= i < all.len() implies (below_any(nd, (#[trigger] all[i]).path)
                <==> exists|j: int| 0 <= j < n + 1 && (#[trigger] all[j]).is_dir && strictly_below(all[i].path, all[j].path)) by {
                let p = all[i].path;
                if below_any(nd, p) {
                    let k = choose|k: int| 0 <= k < nd.len() && strictly_below(p, #[trigger] nd[k]);
                    if k < dirs.len() {
                        assert(nd[k] == dirs[k]);
                        assert(below_any(dirs, p));
                        let j = choose|j: int| 0 <= j < n && (#[trigger] all[j]).is_dir && strictly_below(p, all[j].path);
                        assert(0 <= j < n + 1 && all[j].is_dir && strictly_below(p, all[j].path));
                    } else {
                        assert(nd[k] == h.path);
                        assert(0 <= n < n + 1 && all[n].is_dir && strictly_below(p, all[n].path));
                    }
                }
                if exists|j: int| 0 <= j < n + 1 && (#[trigger] all[j]).is_dir && strictly_below(p, all[j].path) {
                    let j = choose|j: int| 0 <= j < n + 1 && (#[trigger] all[j]).is_dir && strictly_below(p, all[j].path);
                    if j < n {
                        assert(below_any(dirs, p));
                        let k = choose|k: int| 0 <= k < dirs.len() && strictly_below(p, #[trigger] dirs[k]);
                        if nd.len() > dirs.len() {
                            assert(nd[k] == dirs[k]);
                        }
                        assert(strictly_below(p, nd[k]));
                    } else if below_any(dirs, h.path) {
                        let k = choose|k: int| 0 <= k < dirs.len() && strictly_below(h.path, #[trigger] dirs[k]);
                        lemma_strictly_below_trans(p, h.path, dirs[k]);
                        assert(strictly_below(p, nd[k]));
                    } else {
                        assert(nd[dirs.len() as int] == h.path);
                        assert(strictly_below(p, nd[dirs.len() as int]));
                    }
                }
            }
        }
        lemma_prune_from_undominated(all, n + 1, nd);
    } else {
        assert(s =~= Seq::<RawHitView>::empty());
    }
}

/// What a prune filter answers in any state: it drops every hit for now and
/// holds the drain of its buffer.
pub proof fn lemma_prune_answers(f: PruneFilter)
    ensures
        forall|h: RawHitView, v: Verdict| #[trigger] f.allows(h, v) == (v == Verdict::Drop),
        f.pending() == prune_output(f.buffered()),
{
}

} // verus!
