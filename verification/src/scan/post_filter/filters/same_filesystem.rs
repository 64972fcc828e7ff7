//! `--one-file-system`: drops a hit whose volume differs from the volume of
//! the search root it came from. Volume lookups go through a provider and
//! are cached per root and per parent directory. A failed lookup (`None`)
//! keeps the hit.

use vstd::prelude::*;
use crate::scan::backend::{RawHit, RawHitView, hits_view};
use crate::scan::post_filter::{Filter, Verdict};
use crate::winpath;

verus! {

/// Resolves a path to its volume id; `None` when the lookup failed.
pub trait VolumeIdProvider: Send {
    /// Whether `volume_id` may answer `r` for `path`. A provider that
    /// states nothing of its answers allows every one.
    closed spec fn resolves(&self, path: Seq<char>, r: Option<u64>) -> bool {
        true
    }

    fn volume_id(&self, path: &str) -> (r: Option<u64>)
        ensures
            self.resolves(path@, r);
}

/// A provider whose lookups always fail, so that the filter keeps every hit.
pub struct NoopVolumeIdProvider;

impl VolumeIdProvider for NoopVolumeIdProvider {
    closed spec fn resolves(&self, path: Seq<char>, r: Option<u64>) -> bool {
        r is None
    }

    fn volume_id(&self, _path: &str) -> (r: Option<u64>)
        ensures
            r is None,
    {
        None
    }
}

pub struct SameFilesystemFilter {
    provider: Box<dyn VolumeIdProvider>,
    /// Volume per search root (by root text).
    root_volume: Vec<(String, Option<u64>)>,
    /// Volume per parent directory (by path components).
    path_volume: Vec<(String, Option<u64>)>,
}

pub open spec fn cache_view(c: Seq<(String, Option<u64>)>) -> Seq<(Seq<char>, Option<u64>)> {
    c.map_values(|e: (String, Option<u64>)| (e.0@, e.1))
}

/// First cached value for a key equal to `key` under `same`.
pub open spec fn cached_text(c: Seq<(Seq<char>, Option<u64>)>, key: Seq<char>) -> Option<Option<u64>>
    decreases c.len(),
{
    if c.len() == 0 {
        None
    } else {
        match cached_text(c.drop_last(), key) {
            Some(v) => Some(v),
            None => if c.last().0 == key { Some(c.last().1) } else { None },
        }
    }
}

pub open spec fn cached_comps(c: Seq<(Seq<char>, Option<u64>)>, key: Seq<char>) -> Option<Option<u64>>
    decreases c.len(),
{
    if c.len() == 0 {
        None
    } else {
        match cached_comps(c.drop_last(), key) {
            Some(v) => Some(v),
            None => if winpath::comps(c.last().0) == winpath::comps(key) { Some(c.last().1) } else { None },
        }
    }
}

/// The directory whose volume stands for the hit's.
pub open spec fn hit_dir(path: Seq<char>) -> Seq<char> {
    match winpath::parent(path) {
        Some(p) => p,
        None => path,
    }
}

/// A lookup answer `ans` is possible given the cache entry `c`.
pub open spec fn consistent(c: Option<Option<u64>>, ans: Option<u64>) -> bool {
    c matches Some(v) ==> v == ans
}

impl SameFilesystemFilter {
    pub fn new(provider: Box<dyn VolumeIdProvider>) -> (f: Self)
        ensures
            f.roots_cache() == Seq::<(Seq<char>, Option<u64>)>::empty(),
            f.dirs_cache() == Seq::<(Seq<char>, Option<u64>)>::empty(),
            forall|h: RawHitView, v: Verdict| #[trigger] f.allows(h, v) == (v == Verdict::Keep || v == Verdict::Drop),
            f.pending() == Seq::<RawHitView>::empty(),
    {
        let f = SameFilesystemFilter { provider, root_volume: Vec::new(), path_volume: Vec::new() };
        assert(cache_view(f.root_volume@) =~= Seq::<(Seq<char>, Option<u64>)>::empty());
        assert(cache_view(f.path_volume@) =~= Seq::<(Seq<char>, Option<u64>)>::empty());
        assert forall|h: RawHitView, v: Verdict| #[trigger] f.allows(h, v) == (v == Verdict::Keep || v == Verdict::Drop) by {
            let rv: u64 = 0;
            let hv: u64 = 1;
            assert(consistent(cached_text(f.roots_cache(), h.search_root), Some(rv)));
            assert(consistent(cached_comps(f.dirs_cache(), hit_dir(h.path)), Some(hv)));
        }
        f
    }

    /// Whether the provider may answer `r` when asked for `path`.
    pub closed spec fn provider_resolves(&self, path: Seq<char>, r: Option<u64>) -> bool {
        self.provider.resolves(path, r)
    }

    pub closed spec fn roots_cache(&self) -> Seq<(Seq<char>, Option<u64>)> {
        cache_view(self.root_volume@)
    }

    pub closed spec fn dirs_cache(&self) -> Seq<(Seq<char>, Option<u64>)> {
        cache_view(self.path_volume@)
    }

    /// The volume of a search root: the cached answer if the root was seen
    /// before, else a fresh lookup (which is then cached).
    pub fn root_volume_id(&mut self, root: &str) -> (r: Option<u64>)
        ensures
            consistent(cached_text(old(self).roots_cache(), root@), r),
            cached_text(final(self).roots_cache(), root@) == Some(r),
            forall|key: Seq<char>| #[trigger] cached_text(old(self).roots_cache(), key) is Some
                ==> cached_text(final(self).roots_cache(), key) == cached_text(old(self).roots_cache(), key),
            final(self).dirs_cache() == old(self).dirs_cache(),
            cached_text(old(self).roots_cache(), root@) is None ==> old(self).provider_resolves(root@, r),
            forall|p: Seq<char>, a: Option<u64>| #[trigger] final(self).provider_resolves(p, a) == old(self).provider_resolves(p, a),
    {
        let ghost c = self.roots_cache();
        let mut k: usize = 0;
        while k < self.root_volume.len()
            invariant
                c == self.roots_cache(),
                k <= self.root_volume.len(),
                cached_text(c.take(k as int), root@) is None,
            decreases self.root_volume.len() - k,
        {
            assert(c.take(k + 1).drop_last() =~= c.take(k as int));
            assert(c.take(k + 1).last() == c[k as int]);
            if crate::text::same_text(self.root_volume[k].0.as_str(), root) {
                let v = self.root_volume[k].1;
                proof {
                    lemma_cached_text_prefix(c, k as int, root@);
                }
                return v;
            }
            k += 1;
        }
        assert(c.take(k as int) =~= c);
        let v = self.provider.volume_id(root);
        self.root_volume.push((crate::text::owned(root), v));
        proof {
            assert(self.roots_cache() =~= c.push((root@, v)));
            assert(self.roots_cache().drop_last() =~= c);
            assert forall|key: Seq<char>| #[trigger] cached_text(c, key) is Some
                implies cached_text(self.roots_cache(), key) == cached_text(c, key) by {
                assert(self.roots_cache().drop_last() =~= c);
            }
        }
        v
    }

    /// The volume of a hit: looked up (and cached) by the hit's parent
    /// directory.
    pub fn hit_volume_id(&mut self, hit_path: &str) -> (r: Option<u64>)
        ensures
            consistent(cached_comps(old(self).dirs_cache(), hit_dir(hit_path@)), r),
            cached_comps(final(self).dirs_cache(), hit_dir(hit_path@)) == Some(r),
            forall|key: Seq<char>| #[trigger] cached_comps(old(self).dirs_cache(), key) is Some
                ==> cached_comps(final(self).dirs_cache(), key) == cached_comps(old(self).dirs_cache(), key),
            final(self).roots_cache() == old(self).roots_cache(),
            cached_comps(old(self).dirs_cache(), hit_dir(hit_path@)) is None ==> old(self).provider_resolves(hit_dir(hit_path@), r),
            forall|p: Seq<char>, a: Option<u64>| #[trigger] final(self).provider_resolves(p, a) == old(self).provider_resolves(p, a),
    {
        let parent = match winpath::path_parent(hit_path) {
            Some(p) => p,
            None => crate::text::owned(hit_path),
        };
        let ghost c = self.dirs_cache();
        let mut k: usize = 0;
        while k < self.path_volume.len()
            invariant
                c == self.dirs_cache(),
                parent@ == hit_dir(hit_path@),
                k <= self.path_volume.len(),
                cached_comps(c.take(k as int), parent@) is None,
            decreases self.path_volume.len() - k,
        {
            assert(c.take(k + 1).drop_last() =~= c.take(k as int));
            assert(c.take(k + 1).last() == c[k as int]);
            if winpath::path_same(self.path_volume[k].0.as_str(), parent.as_str()) {
                let v = self.path_volume[k].1;
                proof {
                    lemma_cached_comps_prefix(c, k as int, parent@);
                }
                return v;
            }
            k += 1;
        }
        assert(c.take(k as int) =~= c);
        let v = self.provider.volume_id(parent.as_str());
        let ghost pv = parent@;
        self.path_volume.push((parent, v));
        proof {
            assert(self.dirs_cache() =~= c.push((pv, v)));
            assert(self.dirs_cache().drop_last() =~= c);
            assert forall|key: Seq<char>| #[trigger] cached_comps(c, key) is Some
                implies cached_comps(self.dirs_cache(), key) == cached_comps(c, key) by {
                assert(self.dirs_cache().drop_last() =~= c);
            }
        }
        v
    }
}

proof fn lemma_cached_text_prefix(c: Seq<(Seq<char>, Option<u64>)>, k: int, key: Seq<char>)
    requires
        0 <= k < c.len(),
        cached_text(c.take(k), key) is None,
        c[k].0 == key,
    ensures
        cached_text(c, key) == Some(c[k].1),
    decreases c.len() - k,
{
    if k + 1 < c.len() {
        assert(c.drop_last().take(k) =~= c.take(k));
        assert(c.drop_last()[k] == c[k]);
        lemma_cached_text_prefix(c.drop_last(), k, key);
    } else {
        assert(c.drop_last() =~= c.take(k));
    }
}

proof fn lemma_cached_comps_prefix(c: Seq<(Seq<char>, Option<u64>)>, k: int, key: Seq<char>)
    requires
        0 <= k < c.len(),
        cached_comps(c.take(k), key) is None,
        winpath::comps(c[k].0) == winpath::comps(key),
    ensures
        cached_comps(c, key) == Some(c[k].1),
    decreases c.len() - k,
{
    if k + 1 < c.len() {
        assert(c.drop_last().take(k) =~= c.take(k));
        assert(c.drop_last()[k] == c[k]);
        lemma_cached_comps_prefix(c.drop_last(), k, key);
    } else {
        assert(c.drop_last() =~= c.take(k));
    }
}

/// The verdict the cached volumes give for `hit`: drop exactly when the
/// root's volume and the hit's directory's volume are both known and
/// differ.
pub open spec fn volume_verdict(roots: Seq<(Seq<char>, Option<u64>)>, dirs: Seq<(Seq<char>, Option<u64>)>, hit: RawHitView) -> Verdict {
    match cached_text(roots, hit.search_root) {
        Some(Some(rv)) => match cached_comps(dirs, hit_dir(hit.path)) {
            Some(Some(hv)) => if rv != hv { Verdict::Drop } else { Verdict::Keep },
            _ => Verdict::Keep,
        },
        _ => Verdict::Keep,
    }
}

impl Filter for SameFilesystemFilter {
    /// The hit may be dropped only when the root's volume and the hit's
    /// volume are both known (cached or freshly looked up) and differ;
    /// otherwise it is kept.
    closed spec fn allows(&self, hit: RawHitView, v: Verdict) -> bool {
        v == Verdict::Keep || (v == Verdict::Drop && exists|rv: u64, hv: u64| rv != hv
            && consistent(cached_text(self.roots_cache(), hit.search_root), Some(rv))
            && consistent(cached_comps(self.dirs_cache(), hit_dir(hit.path)), Some(hv)))
    }

    closed spec fn pending(&self) -> Seq<RawHitView> {
        Seq::empty()
    }

    /// Looks the root's volume up (cached per root) and, when it is known,
    /// the hit's (cached per parent directory); drops the hit exactly when
    /// both are known and differ. Cached answers are reused and kept.
    fn evaluate(&mut self, hit: &RawHit) -> (v: Verdict)
        ensures
            cached_text(final(self).roots_cache(), hit.search_root@) is Some,
            consistent(cached_text(old(self).roots_cache(), hit.search_root@),
                cached_text(final(self).roots_cache(), hit.search_root@).unwrap()),
            cached_text(final(self).roots_cache(), hit.search_root@).unwrap() is Some ==> {
                &&& cached_comps(final(self).dirs_cache(), hit_dir(hit.path@)) is Some
                &&& consistent(cached_comps(old(self).dirs_cache(), hit_dir(hit.path@)),
                    cached_comps(final(self).dirs_cache(), hit_dir(hit.path@)).unwrap())
            },
            forall|key: Seq<char>| #[trigger] cached_text(old(self).roots_cache(), key) is Some
                ==> cached_text(final(self).roots_cache(), key) == cached_text(old(self).roots_cache(), key),
            forall|key: Seq<char>| #[trigger] cached_comps(old(self).dirs_cache(), key) is Some
                ==> cached_comps(final(self).dirs_cache(), key) == cached_comps(old(self).dirs_cache(), key),
            v == volume_verdict(final(self).roots_cache(), final(self).dirs_cache(), hit@),
            cached_text(old(self).roots_cache(), hit.search_root@) is None ==> old(self).provider_resolves(hit.search_root@,
                cached_text(final(self).roots_cache(), hit.search_root@).unwrap()),
            cached_text(final(self).roots_cache(), hit.search_root@).unwrap() is Some
                && cached_comps(old(self).dirs_cache(), hit_dir(hit.path@)) is None
                ==> old(self).provider_resolves(hit_dir(hit.path@), cached_comps(final(self).dirs_cache(), hit_dir(hit.path@)).unwrap()),
            forall|p: Seq<char>, a: Option<u64>| #[trigger] final(self).provider_resolves(p, a) == old(self).provider_resolves(p, a),
    {
        let root_vol = match self.root_volume_id(hit.search_root.as_str()) {
            Some(v) => v,
            None => {
                return Verdict::Keep;
            },
        };
        let hit_vol = self.hit_volume_id(hit.path.as_str());
        match hit_vol {
            Some(v) => {
                if v != root_vol {
                    assert(root_vol != v);
                    return Verdict::Drop;
                }
                Verdict::Keep
            },
            None => Verdict::Keep,
        }
    }

    fn drain(&mut self) -> (r: Vec<RawHit>) {
        let r: Vec<RawHit> = Vec::new();
        assert(hits_view(r@) =~= Seq::<RawHitView>::empty());
        r
    }
}

} // verus!
