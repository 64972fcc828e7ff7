//! Ignore-file semantics for the flat hit stream: which matcher kinds exist,
//! in which order they are asked, which of them stop at a repository
//! boundary, and the flags that switch them on.

use vstd::prelude::*;
use crate::winpath;

pub mod gitconfig;
pub mod parallel;
pub mod pushdown;

verus! {

/// Outcome of one ignore query.
#[derive(Debug, Clone, Copy, PartialEq, Eq, Structural)]
pub enum Decision {
    /// No rule applies, or a `!` rule un-ignored the path: emit the hit.
    Show,
    /// An ignore rule fires on the path or one of its ancestors.
    Hide,
}

/// Source of an ignore matcher. Kinds are asked in declaration order:
/// an earlier kind takes precedence over a later one.
#[derive(Debug, Clone, Copy, PartialEq, Eq, Hash, PartialOrd, Ord, Structural)]
pub enum MatcherKind {
    /// `--ignore-file <path>`.
    Custom,
    /// `.ignore`.
    DotIgnore,
    /// `.fdignore`.
    Fdignore,
    /// `.gitignore` (stops at the nearest repository root).
    Gitignore,
    /// `<git_root>/.git/info/exclude` (stops at the nearest repository root).
    GitInfoExclude,
    /// git `core.excludesFile`.
    GitGlobal,
    /// The user's global fd ignore file.
    FdGlobal,
}

/// The position of a kind in the precedence order, from 0.
pub open spec fn kind_rank(k: MatcherKind) -> nat {
    match k {
        MatcherKind::Custom => 0,
        MatcherKind::DotIgnore => 1,
        MatcherKind::Fdignore => 2,
        MatcherKind::Gitignore => 3,
        MatcherKind::GitInfoExclude => 4,
        MatcherKind::GitGlobal => 5,
        MatcherKind::FdGlobal => 6,
    }
}

impl MatcherKind {
    /// Number of kinds.
    pub const COUNT: usize = 7;

    /// Kinds looked up along a hit's directory chain, in precedence order.
    pub fn per_dir_kinds() -> (r: [MatcherKind; 5])
        ensures
            r@ == seq![MatcherKind::Custom, MatcherKind::DotIgnore, MatcherKind::Fdignore, MatcherKind::Gitignore, MatcherKind::GitInfoExclude],
    {
        let r = [MatcherKind::Custom, MatcherKind::DotIgnore, MatcherKind::Fdignore, MatcherKind::Gitignore, MatcherKind::GitInfoExclude];
        assert(r@ =~= seq![MatcherKind::Custom, MatcherKind::DotIgnore, MatcherKind::Fdignore, MatcherKind::Gitignore, MatcherKind::GitInfoExclude]);
        r
    }

    /// Kinds with a single global matcher, asked after the per-directory
    /// ones, in precedence order.
    pub fn global_kinds() -> (r: [MatcherKind; 3])
        ensures
            r@ == seq![MatcherKind::Custom, MatcherKind::GitGlobal, MatcherKind::FdGlobal],
    {
        let r = [MatcherKind::Custom, MatcherKind::GitGlobal, MatcherKind::FdGlobal];
        assert(r@ =~= seq![MatcherKind::Custom, MatcherKind::GitGlobal, MatcherKind::FdGlobal]);
        r
    }

    /// Whether matchers of this kind stop climbing at a `.git` boundary:
    /// only `.gitignore` and `.git/info/exclude` do.
    pub fn truncates_at_git_root(self) -> (b: bool)
        ensures
            b == (self == MatcherKind::Gitignore || self == MatcherKind::GitInfoExclude),
    {
        match self {
            MatcherKind::Gitignore | MatcherKind::GitInfoExclude => true,
            _ => false,
        }
    }
}

/// The switches that decide which ignore files count.
#[derive(Debug, Clone, Copy)]
pub struct IgnoreFlags {
    /// Read `.fdignore` and `.ignore` (off with `--no-ignore`).
    pub read_fdignore: bool,
    /// Read `.gitignore` and `.git/info/exclude` (off with `--no-ignore`
    /// or `--no-ignore-vcs`).
    pub read_vcsignore: bool,
    /// Git rules only apply inside a tree with a `.git` (off with
    /// `--no-require-git`).
    pub require_git: bool,
    /// Climb past the search root for ignore files (off with
    /// `--no-ignore-parent`).
    pub read_parent_ignore: bool,
    /// Read the global ignore files (off with `--no-global-ignore-file`).
    pub read_global_ignore: bool,
    /// Match ignore rules without regard to case (the default here).
    pub case_insensitive: bool,
}

impl Default for IgnoreFlags {
    fn default() -> (f: Self)
        ensures
            f.read_fdignore && f.read_vcsignore && f.require_git && f.read_parent_ignore
                && f.read_global_ignore && f.case_insensitive,
    {
        IgnoreFlags {
            read_fdignore: true,
            read_vcsignore: true,
            require_git: true,
            read_parent_ignore: true,
            read_global_ignore: true,
            case_insensitive: true,
        }
    }
}

impl IgnoreFlags {
    /// Whether any ignore file is read at all; when not, the ignore filter
    /// need not be built.
    pub fn any_enabled(self) -> (b: bool)
        ensures
            b == (self.read_fdignore || self.read_vcsignore),
    {
        self.read_fdignore || self.read_vcsignore
    }
}

/// The search root that produced a hit, the ceiling for
/// `--no-ignore-parent`.
#[derive(Debug, Clone)]
pub struct SearchRootContext {
    pub root: String,
}

// ---------------------------------------------------------------------------
// The decision for one hit
// ---------------------------------------------------------------------------

/// Index of `.gitignore` among the per-directory kinds.
pub const GITIGNORE_SLOT: usize = 3;

/// Whether the per-directory kind at `slot` (in `per_dir_kinds` order)
/// stops at a repository root.
pub open spec fn slot_truncates(slot: int) -> bool {
    slot == 3 || slot == 4
}

/// Whether the per-directory kind at `slot` is switched on.
pub open spec fn slot_enabled(flags: IgnoreFlags, slot: int) -> bool {
    if slot == 0 {
        true
    } else if slot == 1 || slot == 2 {
        flags.read_fdignore
    } else {
        flags.read_vcsignore
    }
}

/// Whether the global kind at `slot` (in `global_kinds` order) is
/// switched on.
pub open spec fn global_slot_enabled(flags: IgnoreFlags, slot: int) -> bool {
    if slot == 0 {
        true
    } else if slot == 1 {
        flags.read_vcsignore && flags.read_global_ignore
    } else {
        flags.read_fdignore && flags.read_global_ignore
    }
}

/// Whether a kind is switched on by the flags.
pub open spec fn kind_enabled_spec(flags: IgnoreFlags, kind: MatcherKind) -> bool {
    match kind {
        MatcherKind::Custom => true,
        MatcherKind::DotIgnore => flags.read_fdignore,
        MatcherKind::Fdignore => flags.read_fdignore,
        MatcherKind::Gitignore => flags.read_vcsignore,
        MatcherKind::GitInfoExclude => flags.read_vcsignore,
        MatcherKind::GitGlobal => flags.read_vcsignore && flags.read_global_ignore,
        MatcherKind::FdGlobal => flags.read_fdignore && flags.read_global_ignore,
    }
}

/// Whether matchers of `kind` are consulted under `flags`.
pub fn kind_enabled(flags: IgnoreFlags, kind: MatcherKind) -> (b: bool)
    ensures
        b == kind_enabled_spec(flags, kind),
{
    match kind {
        MatcherKind::Custom => true,
        MatcherKind::DotIgnore => flags.read_fdignore,
        MatcherKind::Fdignore => flags.read_fdignore,
        MatcherKind::Gitignore => flags.read_vcsignore,
        MatcherKind::GitInfoExclude => flags.read_vcsignore,
        MatcherKind::GitGlobal => flags.read_vcsignore && flags.read_global_ignore,
        MatcherKind::FdGlobal => flags.read_fdignore && flags.read_global_ignore,
    }
}

/// What the ignore files of one directory of a hit's parent chain say.
#[derive(Debug, Clone, Copy)]
pub struct DirFacts {
    /// The directory holds a `.git` (a directory, or a worktree file).
    pub has_git: bool,
    /// For each per-directory kind, in `per_dir_kinds` order: what this
    /// directory's matcher of that kind says about the hit, `None` where
    /// there is no such matcher or no rule of it fires.
    pub verdicts: [Option<Decision>; 5],
}

/// The verdict of the per-directory kind at `slot`, climbing `chain`
/// leaf first: the first directory with an opinion decides. A kind that
/// stops at repository roots stops after a directory holding `.git`; with
/// `require_git` and `--no-ignore-parent`, `.gitignore` also stops after
/// a directory without one.
pub open spec fn climb(flags: IgnoreFlags, slot: int, chain: Seq<DirFacts>) -> Option<Decision>
    decreases chain.len(),
{
    if chain.len() == 0 {
        None
    } else {
        let d = chain[0];
        if d.verdicts@[slot] is Some {
            d.verdicts@[slot]
        } else if slot_truncates(slot) && d.has_git {
            None
        } else if slot == 3 && flags.require_git && !d.has_git && !flags.read_parent_ignore {
            None
        } else {
            climb(flags, slot, chain.drop_first())
        }
    }
}

pub open spec fn chain_has_git(chain: Seq<DirFacts>) -> bool {
    exists|i: int| 0 <= i < chain.len() && (#[trigger] chain[i]).has_git
}

/// The first per-directory kind, from `slot` on, that is enabled, may
/// apply, and has an opinion along the chain.
pub open spec fn per_dir_from(flags: IgnoreFlags, chain: Seq<DirFacts>, slot: int) -> Option<Decision>
    decreases 5 - slot,
{
    if slot >= 5 {
        None
    } else if slot_enabled(flags, slot)
        && !(slot_truncates(slot) && flags.require_git && !chain_has_git(chain))
        && climb(flags, slot, chain) is Some
    {
        climb(flags, slot, chain)
    } else {
        per_dir_from(flags, chain, slot + 1)
    }
}

/// The first enabled global kind, from `slot` on, with an opinion.
pub open spec fn global_from(flags: IgnoreFlags, globals: Seq<Option<Decision>>, slot: int) -> Option<Decision>
    decreases 3 - slot,
{
    if slot >= 3 {
        None
    } else if global_slot_enabled(flags, slot) && globals[slot] is Some {
        globals[slot]
    } else {
        global_from(flags, globals, slot + 1)
    }
}

/// The decision for a hit: shown when no ignore file is read or the hit
/// has no parent directory; otherwise the per-directory kinds in
/// precedence order, each climbing the chain leaf first, then the global
/// kinds; shown when nothing has an opinion.
pub open spec fn decision_spec(flags: IgnoreFlags, has_parent: bool, chain: Seq<DirFacts>, globals: Seq<Option<Decision>>) -> Decision {
    if !(flags.read_fdignore || flags.read_vcsignore) || !has_parent {
        Decision::Show
    } else {
        match per_dir_from(flags, chain, 0) {
            Some(d) => d,
            None => match global_from(flags, globals, 0) {
                Some(d) => d,
                None => Decision::Show,
            },
        }
    }
}

fn chain_has_git_exec(chain: &[DirFacts]) -> (b: bool)
    ensures
        b == chain_has_git(chain@),
{
    let mut i: usize = 0;
    while i < chain.len()
        invariant
            i <= chain.len(),
            forall|j: int| 0 <= j < i ==> !(#[trigger] chain@[j]).has_git,
        decreases chain.len() - i,
    {
        if chain[i].has_git {
            assert(chain@[i as int].has_git);
            return true;
        }
        i += 1;
    }
    false
}

fn climb_exec(flags: IgnoreFlags, slot: usize, chain: &[DirFacts]) -> (r: Option<Decision>)
    requires
        slot < 5,
    ensures
        r == climb(flags, slot as int, chain@),
{
    let mut i: usize = 0;
    assert(chain@.skip(0) =~= chain@);
    while i < chain.len()
        invariant
            slot < 5,
            i <= chain.len(),
            climb(flags, slot as int, chain@) == climb(flags, slot as int, chain@.skip(i as int)),
        decreases chain.len() - i,
    {
        let d = chain[i];
        let ghost rest = chain@.skip(i as int);
        assert(rest[0] == d);
        assert(rest.drop_first() =~= chain@.skip(i + 1));
        if d.verdicts[slot].is_some() {
            return d.verdicts[slot];
        }
        if (slot == 3 || slot == 4) && d.has_git {
            return None;
        }
        if slot == GITIGNORE_SLOT && flags.require_git && !d.has_git && !flags.read_parent_ignore {
            return None;
        }
        i += 1;
    }
    None
}

/// The ignore decision for one hit, given what the ignore files along its
/// parent chain (`chain`, leaf directory first, up to the ceiling or the
/// volume root) and the global ignore files (`globals`, in `global_kinds`
/// order) say about it. `has_parent` is false for a path with no parent
/// directory.
pub fn decide(flags: IgnoreFlags, has_parent: bool, chain: &[DirFacts], globals: [Option<Decision>; 3]) -> (r: Decision)
    ensures
        r == decision_spec(flags, has_parent, chain@, globals@),
{
    if !flags.any_enabled() || !has_parent {
        return Decision::Show;
    }
    let has_git = chain_has_git_exec(chain);
    let mut slot: usize = 0;
    while slot < 5
        invariant
            slot <= 5,
            has_parent,
            flags.read_fdignore || flags.read_vcsignore,
            has_git == chain_has_git(chain@),
            per_dir_from(flags, chain@, 0) == per_dir_from(flags, chain@, slot as int),
        decreases 5 - slot,
    {
        let enabled = if slot == 0 {
            true
        } else if slot == 1 || slot == 2 {
            flags.read_fdignore
        } else {
            flags.read_vcsignore
        };
        if enabled && !((slot == 3 || slot == 4) && flags.require_git && !has_git) {
            let v = climb_exec(flags, slot, chain);
            if v.is_some() {
                return v.unwrap();
            }
        }
        slot += 1;
    }
    let mut g: usize = 0;
    while g < 3
        invariant
            g <= 3,
            has_parent,
            flags.read_fdignore || flags.read_vcsignore,
            per_dir_from(flags, chain@, 0) is None,
            global_from(flags, globals@, 0) == global_from(flags, globals@, g as int),
        decreases 3 - g,
    {
        let enabled = if g == 0 {
            true
        } else if g == 1 {
            flags.read_vcsignore && flags.read_global_ignore
        } else {
            flags.read_fdignore && flags.read_global_ignore
        };
        if enabled && globals[g].is_some() {
            return globals[g].unwrap();
        }
        g += 1;
    }
    Decision::Show
}

/// A kind that stops at repository roots never looks past the first
/// directory of the chain that holds `.git`: what lies above it cannot
/// change that kind's verdict.
pub proof fn lemma_truncating_kind_stops_at_git_root(flags: IgnoreFlags, slot: int, chain: Seq<DirFacts>, i: int)
    requires
        slot_truncates(slot),
        0 <= i < chain.len(),
        chain[i].has_git,
    ensures
        climb(flags, slot, chain) == climb(flags, slot, chain.take(i + 1)),
    decreases i,
{
    let t = chain.take(i + 1);
    assert(t[0] == chain[0]);
    if i > 0 {
        assert(t.drop_first() =~= chain.drop_first().take(i));
        lemma_truncating_kind_stops_at_git_root(flags, slot, chain.drop_first(), i - 1);
    }
}

/// An earlier kind wins: when an enabled, applicable per-directory kind
/// has an opinion along the chain, no later kind (and no global kind)
/// changes the decision.
pub proof fn lemma_earlier_kind_wins(flags: IgnoreFlags, chain: Seq<DirFacts>, globals: Seq<Option<Decision>>, slot: int)
    requires
        0 <= slot < 5,
        flags.read_fdignore || flags.read_vcsignore,
        slot_enabled(flags, slot),
        !(slot_truncates(slot) && flags.require_git && !chain_has_git(chain)),
        climb(flags, slot, chain) is Some,
        forall|s: int| 0 <= s < slot ==> !(slot_enabled(flags, s)
            && !(slot_truncates(s) && flags.require_git && !chain_has_git(chain))
            && #[trigger] climb(flags, s, chain) is Some),
    ensures
        decision_spec(flags, true, chain, globals) == climb(flags, slot, chain).unwrap(),
{
    lemma_per_dir_skip(flags, chain, 0, slot);
}

proof fn lemma_per_dir_skip(flags: IgnoreFlags, chain: Seq<DirFacts>, from: int, slot: int)
    requires
        0 <= from <= slot < 5,
        forall|s: int| from <= s < slot ==> !(slot_enabled(flags, s)
            && !(slot_truncates(s) && flags.require_git && !chain_has_git(chain))
            && #[trigger] climb(flags, s, chain) is Some),
    ensures
        per_dir_from(flags, chain, from) == per_dir_from(flags, chain, slot),
    decreases slot - from,
{
    if from < slot {
        assert(!(slot_enabled(flags, from)
            && !(slot_truncates(from) && flags.require_git && !chain_has_git(chain))
            && climb(flags, from, chain) is Some));
        lemma_per_dir_skip(flags, chain, from + 1, slot);
    }
}

/// `--no-ignore-parent`: the ceiling for a hit from `root` is the first
/// configured ceiling that `root` lies at or below.
pub open spec fn first_ceiling(ceilings: Seq<Seq<char>>, root: Seq<char>) -> Option<Seq<char>>
    decreases ceilings.len(),
{
    if ceilings.len() == 0 {
        None
    } else if winpath::starts_with(root, ceilings[0]) {
        Some(ceilings[0])
    } else {
        first_ceiling(ceilings.drop_first(), root)
    }
}

pub open spec fn ceiling_for(flags: IgnoreFlags, ceilings: Seq<Seq<char>>, root: Seq<char>) -> Option<Seq<char>> {
    if flags.read_parent_ignore { None } else { first_ceiling(ceilings, root) }
}

/// Where the climb for a hit from `root` stops: nowhere while parent
/// ignore files are read; otherwise at the first ceiling that `root` lies
/// at or below.
pub fn parent_ceiling_for(flags: IgnoreFlags, ceilings: &[String], root: &str) -> (r: Option<String>)
    ensures
        match r {
            Some(c) => ceiling_for(flags, ceilings@.map_values(|s: String| s@), root@) == Some(c@),
            None => ceiling_for(flags, ceilings@.map_values(|s: String| s@), root@).is_none(),
        },
{
    if flags.read_parent_ignore {
        return None;
    }
    let ghost cv = ceilings@.map_values(|s: String| s@);
    let mut i: usize = 0;
    assert(cv.skip(0) =~= cv);
    while i < ceilings.len()
        invariant
            cv == ceilings@.map_values(|s: String| s@),
            !flags.read_parent_ignore,
            i <= ceilings.len(),
            first_ceiling(cv, root@) == first_ceiling(cv.skip(i as int), root@),
        decreases ceilings.len() - i,
    {
        let ghost rest = cv.skip(i as int);
        assert(rest[0] == ceilings@[i as int]@);
        assert(rest.drop_first() =~= cv.skip(i + 1));
        if winpath::path_starts_with(root, ceilings[i].as_str()) {
            let c = ceilings[i].clone();
            assert(c@ == ceilings@[i as int]@);
            return Some(c);
        }
        i += 1;
    }
    assert(cv.skip(i as int) =~= Seq::<Seq<char>>::empty());
    None
}

} // verus!
