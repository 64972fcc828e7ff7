//! Output projection: a hit carries its canonical absolute path; the user
//! sees it relative to the search root as the user spelled that root (for
//! example `./src\main.rs` instead of `C:\repo\src\main.rs`).

use vstd::prelude::*;
use vstd::string::StrSliceExecFns;
use crate::winpath;

verus! {

/// A search root in two forms: the canonical absolute path that hits are
/// matched against, and the form the user gave, which output is glued onto.
#[derive(Debug)]
pub struct SearchRoot {
    pub canonical: String,
    pub display: String,
}

pub struct RootView {
    pub canonical: Seq<char>,
    pub display: Seq<char>,
}

impl View for SearchRoot {
    type V = RootView;

    open spec fn view(&self) -> RootView {
        RootView { canonical: self.canonical@, display: self.display@ }
    }
}

impl Clone for SearchRoot {
    fn clone(&self) -> (r: Self)
        ensures
            r@ == self@,
    {
        SearchRoot { canonical: self.canonical.clone(), display: self.display.clone() }
    }
}

pub open spec fn roots_view(v: Seq<SearchRoot>) -> Seq<RootView> {
    v.map_values(|r: SearchRoot| r@)
}

/// Sort key: byte length of the canonical path (as `str::len` reports it).
pub open spec fn root_key(r: RootView) -> nat {
    (vstd::utf8::encode_utf8(r.canonical).len() as usize) as nat
}

/// Insert `r` after every trailing element whose key is at least its own.
pub open spec fn insert_desc(sorted: Seq<RootView>, r: RootView) -> Seq<RootView>
    decreases sorted.len(),
{
    if sorted.len() == 0 {
        seq![r]
    } else if root_key(sorted.last()) >= root_key(r) {
        sorted.push(r)
    } else {
        insert_desc(sorted.drop_last(), r).push(sorted.last())
    }
}

/// Stable sort, longest canonical path first.
pub open spec fn sort_roots(s: Seq<RootView>) -> Seq<RootView>
    decreases s.len(),
{
    if s.len() == 0 {
        Seq::empty()
    } else {
        insert_desc(sort_roots(s.drop_last()), s.last())
    }
}

/// Index of the first root (from `i` on) whose canonical path is a
/// component-wise prefix of `raw`.
pub open spec fn first_root_from(roots: Seq<RootView>, raw: Seq<char>, i: int) -> Option<int>
    decreases roots.len() - i,
{
    if i < 0 || i >= roots.len() {
        None
    } else if winpath::starts_with(raw, roots[i].canonical) {
        Some(i)
    } else {
        first_root_from(roots, raw, i + 1)
    }
}

pub open spec fn find_root_spec(roots: Seq<RootView>, raw: Seq<char>) -> Option<int> {
    first_root_from(roots, raw, 0)
}

/// What `project_for_output` prints for `raw`, and whether that text is a
/// slice of `raw` itself (no allocation).
pub open spec fn project_spec(roots: Seq<RootView>, absolute_paths: bool, strip_cwd_prefix: bool, raw: Seq<char>) -> (Seq<char>, bool) {
    if absolute_paths {
        (raw, true)
    } else {
        match find_root_spec(roots, raw) {
            None => (raw, true),
            Some(k) => {
                let root = roots[k];
                let rel = match winpath::strip_prefix(raw, root.canonical) {
                    Some(r) => r,
                    None => Seq::empty(),
                };
                if root.display == root.canonical {
                    if strip_cwd_prefix {
                        (winpath::strip_current_dir_spec(raw), true)
                    } else {
                        (raw, true)
                    }
                } else {
                    let joined = winpath::join(root.display, rel);
                    if strip_cwd_prefix {
                        (winpath::strip_current_dir_spec(joined), false)
                    } else {
                        (joined, false)
                    }
                }
            },
        }
    }
}

/// A projected path: either a slice of the raw path, or a new string.
#[derive(Debug)]
pub enum ProjectedPath<'p> {
    Borrowed(&'p str),
    Owned(String),
}

impl<'p> ProjectedPath<'p> {
    pub open spec fn text(&self) -> Seq<char> {
        match self {
            ProjectedPath::Borrowed(s) => s@,
            ProjectedPath::Owned(s) => s@,
        }
    }

    /// The projected text.
    pub fn as_str(&self) -> (r: &str)
        ensures
            r@ == self.text(),
    {
        match self {
            ProjectedPath::Borrowed(s) => s,
            ProjectedPath::Owned(s) => s.as_str(),
        }
    }
}

/// Projects canonical hit paths into the form the user expects.
#[derive(Debug, Clone)]
pub struct PathProjector {
    /// Longest canonical path first, so that the most specific root wins.
    roots: Vec<SearchRoot>,
    /// `--absolute-path`: the raw path is printed as it is.
    absolute_paths: bool,
    /// `--strip-cwd-prefix`: a leading `./` is dropped.
    strip_cwd_prefix: bool,
}

fn insert_sorted(out: &mut Vec<SearchRoot>, r: SearchRoot)
    ensures
        roots_view(final(out)@) == insert_desc(roots_view(old(out)@), r@),
{
    let key = r.canonical.as_str().len();
    let ghost s = roots_view(out@);
    let mut j: usize = out.len();
    proof {
        assert(s.take(j as int) =~= s);
        assert(s.skip(j as int) =~= Seq::<RootView>::empty());
    }
    while j > 0 && out[j - 1].canonical.as_str().len() < key
        invariant
            s == roots_view(out@),
            j <= out.len(),
            key == root_key(r@),
            insert_desc(s, r@) == insert_desc(s.take(j as int), r@) + s.skip(j as int),
        decreases j,
    {
        proof {
            let t = s.take(j as int);
            assert(root_key(t.last()) < root_key(r@));
            assert(t.drop_last() =~= s.take(j - 1));
            assert(insert_desc(t, r@) == insert_desc(s.take(j - 1), r@).push(t.last()));
            assert(seq![t.last()] + s.skip(j as int) =~= s.skip(j - 1));
            assert(insert_desc(s.take(j - 1), r@).push(t.last()) + s.skip(j as int) =~= insert_desc(s.take(j - 1), r@) + s.skip(j - 1));
        }
        j -= 1;
    }
    proof {
        let t = s.take(j as int);
        if j > 0 {
            assert(insert_desc(t, r@) == t.push(r@));
        } else {
            assert(t =~= Seq::<RootView>::empty());
        }
    }
    let ghost rv = r@;
    out.insert(j, r);
    assert(roots_view(out@) =~= s.take(j as int).push(rv) + s.skip(j as int));
}

fn sorted_roots(roots: &[SearchRoot]) -> (r: Vec<SearchRoot>)
    ensures
        roots_view(r@) == sort_roots(roots_view(roots@)),
{
    let mut out: Vec<SearchRoot> = Vec::new();
    let ghost all = roots_view(roots@);
    let mut i: usize = 0;
    while i < roots.len()
        invariant
            all == roots_view(roots@),
            i <= roots.len(),
            roots_view(out@) == sort_roots(all.take(i as int)),
        decreases roots.len() - i,
    {
        assert(all.take(i + 1).drop_last() =~= all.take(i as int));
        let r = roots[i].clone();
        insert_sorted(&mut out, r);
        i += 1;
    }
    assert(all.take(i as int) =~= all);
    out
}

impl PathProjector {
    pub closed spec fn roots(&self) -> Seq<RootView> {
        roots_view(self.roots@)
    }

    pub closed spec fn absolute(&self) -> bool {
        self.absolute_paths
    }

    pub closed spec fn strips_cwd(&self) -> bool {
        self.strip_cwd_prefix
    }

    /// Build a projector over the given roots (copied, sorted longest first).
    pub fn new(roots: &[SearchRoot], absolute_paths: bool, strip_cwd_prefix: bool) -> (p: Self)
        ensures
            p.roots() == sort_roots(roots_view(roots@)),
            p.absolute() == absolute_paths,
            p.strips_cwd() == strip_cwd_prefix,
    {
        PathProjector { roots: sorted_roots(roots), absolute_paths, strip_cwd_prefix }
    }

    /// Build a projector that takes the roots over.
    pub fn owned(roots: Vec<SearchRoot>, absolute_paths: bool, strip_cwd_prefix: bool) -> (p: Self)
        ensures
            p.roots() == sort_roots(roots_view(roots@)),
            p.absolute() == absolute_paths,
            p.strips_cwd() == strip_cwd_prefix,
    {
        PathProjector { roots: sorted_roots(roots.as_slice()), absolute_paths, strip_cwd_prefix }
    }

    /// The most specific root that `raw` lies under.
    fn find_root(&self, raw: &str) -> (r: Option<usize>)
        ensures
            match r {
                Some(k) => find_root_spec(self.roots(), raw@) == Some(k as int) && k < self.roots().len(),
                None => find_root_spec(self.roots(), raw@).is_none(),
            },
    {
        let ghost rs = self.roots();
        let mut i: usize = 0;
        while i < self.roots.len()
            invariant
                rs == self.roots(),
                i <= self.roots.len(),
                find_root_spec(rs, raw@) == first_root_from(rs, raw@, i as int),
            decreases self.roots.len() - i,
        {
            if winpath::path_starts_with(raw, self.roots[i].canonical.as_str()) {
                return Some(i);
            }
            i += 1;
        }
        None
    }

    /// The form fd prints for the canonical hit path `raw`.
    pub fn project_for_output<'p>(&self, raw: &'p str) -> (r: ProjectedPath<'p>)
        ensures
            r.text() == project_spec(self.roots(), self.absolute(), self.strips_cwd(), raw@).0,
            (r is Borrowed) == project_spec(self.roots(), self.absolute(), self.strips_cwd(), raw@).1,
    {
        if self.absolute_paths {
            return ProjectedPath::Borrowed(raw);
        }
        let k = match self.find_root(raw) {
            None => {
                return ProjectedPath::Borrowed(raw);
            },
            Some(k) => k,
        };
        let root = &self.roots[k];
        let rel = match winpath::strip_path_prefix(raw, root.canonical.as_str()) {
            Some(r) => r,
            None => String::new(),
        };
        if crate::text::same_text(root.display.as_str(), root.canonical.as_str()) {
            if self.strip_cwd_prefix {
                return ProjectedPath::Borrowed(winpath::strip_current_dir_str(raw));
            }
            return ProjectedPath::Borrowed(raw);
        }
        let joined = winpath::path_join(root.display.as_str(), rel.as_str());
        if self.strip_cwd_prefix {
            ProjectedPath::Owned(winpath::strip_current_dir(joined.as_str()))
        } else {
            ProjectedPath::Owned(joined)
        }
    }
}

// ---------------------------------------------------------------------------
// Laws of the projection
// ---------------------------------------------------------------------------

pub open spec fn sorted_desc(s: Seq<RootView>) -> bool {
    forall|i: int, j: int| 0 <= i < j < s.len() ==> root_key(#[trigger] s[i]) >= root_key(#[trigger] s[j])
}

proof fn lemma_insert_desc(sorted: Seq<RootView>, r: RootView)
    requires
        sorted_desc(sorted),
    ensures
        sorted_desc(insert_desc(sorted, r)),
        insert_desc(sorted, r).to_multiset() == sorted.to_multiset().insert(r),
        insert_desc(sorted, r).len() == sorted.len() + 1,
        forall|x: RootView| insert_desc(sorted, r).contains(x) ==> x == r || sorted.contains(x),
    decreases sorted.len(),
{
    broadcast use vstd::seq_lib::to_multiset_build;
    if sorted.len() == 0 {
        assert(insert_desc(sorted, r) =~= seq![r]);
        assert(sorted =~= Seq::<RootView>::empty());
        assert(seq![r] =~= Seq::<RootView>::empty().push(r));
    } else if root_key(sorted.last()) >= root_key(r) {
        let res = sorted.push(r);
        assert forall|i: int, j: int| 0 <= i < j < res.len() implies root_key(#[trigger] res[i]) >= root_key(#[trigger] res[j]) by {
            if j == sorted.len() {
                assert(root_key(sorted[i]) >= root_key(sorted.last()));
            }
        }
        assert forall|x: RootView| res.contains(x) implies x == r || sorted.contains(x) by {
            let k = choose|k: int| 0 <= k < res.len() && res[k] == x;
            if k < sorted.len() {
                assert(sorted[k] == x);
            }
        }
    } else {
        let init = sorted.drop_last();
        assert(sorted_desc(init));
        lemma_insert_desc(init, r);
        let mid = insert_desc(init, r);
        let res = mid.push(sorted.last());
        assert(sorted =~= init.push(sorted.last()));
        assert forall|x: RootView| mid.contains(x) implies root_key(x) >= root_key(sorted.last()) by {
            if x == r {
            } else {
                assert(init.contains(x));
                let k = choose|k: int| 0 <= k < init.len() && init[k] == x;
                assert(init[k] == sorted[k]);
            }
        }
        assert forall|i: int, j: int| 0 <= i < j < res.len() implies root_key(#[trigger] res[i]) >= root_key(#[trigger] res[j]) by {
            if j == mid.len() {
                assert(mid.contains(mid[i]));
            }
        }
        assert forall|x: RootView| res.contains(x) implies x == r || sorted.contains(x) by {
            let k = choose|k: int| 0 <= k < res.len() && res[k] == x;
            if k < mid.len() {
                assert(mid.contains(x));
                if x != r {
                    assert(init.contains(x));
                    let m = choose|m: int| 0 <= m < init.len() && init[m] == x;
                    assert(sorted[m] == x);
                }
            } else {
                assert(sorted[sorted.len() - 1] == x);
            }
        }
        assert(res.to_multiset() =~= mid.to_multiset().insert(sorted.last()));
        assert(sorted.to_multiset() =~= init.to_multiset().insert(sorted.last()));
        assert(res.to_multiset() =~= sorted.to_multiset().insert(r));
    }
}

/// The projector's root order: longest canonical path first, and the same
/// roots that were given.
pub proof fn lemma_sort_roots(s: Seq<RootView>)
    ensures
        sorted_desc(sort_roots(s)),
        sort_roots(s).to_multiset() == s.to_multiset(),
        sort_roots(s).len() == s.len(),
    decreases s.len(),
{
    broadcast use vstd::seq_lib::to_multiset_build;
    if s.len() == 0 {
        assert(sort_roots(s) =~= Seq::<RootView>::empty());
        assert(s =~= Seq::<RootView>::empty());
    } else {
        lemma_sort_roots(s.drop_last());
        lemma_insert_desc(sort_roots(s.drop_last()), s.last());
        assert(s =~= s.drop_last().push(s.last()));
    }
}

proof fn lemma_first_root_from(roots: Seq<RootView>, raw: Seq<char>, i: int)
    requires
        0 <= i <= roots.len(),
    ensures
        match first_root_from(roots, raw, i) {
            Some(k) => i <= k < roots.len() && winpath::starts_with(raw, roots[k].canonical)
                && forall|j: int| i <= j < k ==> !winpath::starts_with(raw, #[trigger] roots[j].canonical),
            None => forall|j: int| i <= j < roots.len() ==> !winpath::starts_with(raw, #[trigger] roots[j].canonical),
        },
    decreases roots.len() - i,
{
    if i < roots.len() && !winpath::starts_with(raw, roots[i].canonical) {
        lemma_first_root_from(roots, raw, i + 1);
    }
}

/// `--absolute-path` prints the raw path itself, without a copy.
pub proof fn lemma_absolute_paths_borrow_raw(roots: Seq<RootView>, strip_cwd_prefix: bool, raw: Seq<char>)
    ensures
        project_spec(roots, true, strip_cwd_prefix, raw) == (raw, true),
{
}

/// A path under none of the roots is printed as it is, without a copy.
pub proof fn lemma_outside_roots_falls_back_to_raw(roots: Seq<RootView>, absolute_paths: bool, strip_cwd_prefix: bool, raw: Seq<char>)
    requires
        forall|j: int| 0 <= j < roots.len() ==> !winpath::starts_with(raw, #[trigger] roots[j].canonical),
    ensures
        project_spec(roots, absolute_paths, strip_cwd_prefix, raw) == (raw, true),
{
    lemma_first_root_from(roots, raw, 0);
    if first_root_from(roots, raw, 0) is Some {
        let k = first_root_from(roots, raw, 0).unwrap();
        assert(!winpath::starts_with(raw, roots[k].canonical));
    }
}

/// Among the given roots that a path lies under, the projector uses one
/// with the longest canonical path.
pub proof fn lemma_longest_root_wins(given: Seq<RootView>, raw: Seq<char>)
    ensures
        match find_root_spec(sort_roots(given), raw) {
            Some(k) => {
                &&& 0 <= k < given.len()
                &&& given.contains(sort_roots(given)[k])
                &&& winpath::starts_with(raw, sort_roots(given)[k].canonical)
                &&& forall|j: int| 0 <= j < given.len() && winpath::starts_with(raw, #[trigger] given[j].canonical)
                    ==> root_key(sort_roots(given)[k]) >= root_key(given[j])
            },
            None => forall|j: int| 0 <= j < given.len() ==> !winpath::starts_with(raw, #[trigger] given[j].canonical),
        },
{
    let sorted = sort_roots(given);
    lemma_sort_roots(given);
    lemma_first_root_from(sorted, raw, 0);
    assert forall|j: int| 0 <= j < given.len() implies #[trigger] sorted.to_multiset().count(given[j]) > 0 by {
        vstd::seq_lib::to_multiset_contains(given, given[j]);
        assert(given.contains(given[j]));
    }
    assert forall|x: RootView| sorted.contains(x) implies given.contains(x) by {
        vstd::seq_lib::to_multiset_contains(sorted, x);
        vstd::seq_lib::to_multiset_contains(given, x);
    }
    match find_root_spec(sorted, raw) {
        Some(k) => {
            assert(sorted.contains(sorted[k]));
            assert forall|j: int| 0 <= j < given.len() && winpath::starts_with(raw, #[trigger] given[j].canonical)
                implies root_key(sorted[k]) >= root_key(given[j]) by {
                vstd::seq_lib::to_multiset_contains(sorted, given[j]);
                let m = choose|m: int| 0 <= m < sorted.len() && sorted[m] == given[j];
                if m < k {
                    assert(!winpath::starts_with(raw, sorted[m].canonical));
                }
            }
        },
        None => {
            assert forall|j: int| 0 <= j < given.len() implies !winpath::starts_with(raw, #[trigger] given[j].canonical) by {
                vstd::seq_lib::to_multiset_contains(sorted, given[j]);
                let m = choose|m: int| 0 <= m < sorted.len() && sorted[m] == given[j];
                assert(!winpath::starts_with(raw, sorted[m].canonical));
            }
        },
    }
}

} // verus!
