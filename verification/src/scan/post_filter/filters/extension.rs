//! `--extension`: keeps a hit whose file name one of the configured
//! patterns matches. The pattern set is compiled once by the caller, with
//! the "ends with `.<ext>`" anchoring already built in, and is asked about
//! the file name (not the full path), so that a directory called `foo.rs`
//! does not make its children match.

use vstd::prelude::*;
use regex::bytes::RegexSet;
use crate::scan::backend::{RawHit, RawHitView};
use crate::scan::post_filter::{Filter, Verdict};
use crate::winpath;

verus! {

#[verifier::external_type_specification]
#[verifier::external_body]
pub struct ExRegexSet(RegexSet);

/// Whether `regex::bytes::RegexSet::new` compiles `patterns`.
pub uninterp spec fn set_compiles(patterns: Seq<Seq<char>>) -> bool;

/// What `regex::bytes::RegexSet::is_match` answers for the set compiled
/// from `patterns` on the UTF-8 bytes of `text`: whether some pattern
/// matches them.
pub uninterp spec fn set_match(patterns: Seq<Seq<char>>, text: Seq<char>) -> bool;

/// A compiled pattern set together with the patterns it was compiled from.
/// Only `compile_set` makes one.
pub struct PatternSet {
    set: RegexSet,
    patterns: Ghost<Seq<Seq<char>>>,
}

/// The patterns as text.
pub open spec fn patterns_text(patterns: Seq<String>) -> Seq<Seq<char>> {
    patterns.map_values(|p: String| p@)
}

/// `regex::bytes::RegexSet::new`: the set compiled from `patterns`, exactly
/// when `set_compiles` says so; otherwise the error's text.
#[verifier::external_body]
fn compile_set(patterns: &[String]) -> (r: Result<PatternSet, String>)
    ensures
        r is Ok <==> set_compiles(patterns_text(patterns@)),
        r matches Ok(s) ==> s.patterns() == patterns_text(patterns@),
{
    match RegexSet::new(patterns) {
        Ok(set) => Ok(PatternSet { set, patterns: Ghost(patterns_text(patterns@)) }),
        Err(e) => Err(e.to_string()),
    }
}

/// `regex::bytes::RegexSet::is_match` on the UTF-8 bytes of `name`.
#[verifier::external_body]
pub(crate) fn set_is_match(set: &PatternSet, name: &str) -> (b: bool)
    ensures
        b == set_match(set.patterns(), name@),
{
    set.set.is_match(name.as_bytes())
}

/// `RegexSet::clone`: a set of the same patterns.
#[verifier::external_body]
fn clone_set(set: &PatternSet) -> (r: PatternSet)
    ensures
        r.patterns() == set.patterns(),
{
    PatternSet { set: set.set.clone(), patterns: Ghost(set.patterns@) }
}

impl PatternSet {
    /// Compile `patterns` (each one whole regular expression) into one set.
    pub fn new(patterns: &[String]) -> (r: Result<PatternSet, String>)
        ensures
            r is Ok <==> set_compiles(patterns_text(patterns@)),
            r matches Ok(s) ==> s.patterns() == patterns_text(patterns@),
    {
        compile_set(patterns)
    }

    /// The patterns the set was compiled from.
    pub closed spec fn patterns(&self) -> Seq<Seq<char>> {
        self.patterns@
    }

    /// Whether some pattern matches the UTF-8 bytes of `text`.
    pub fn is_match(&self, text: &str) -> (b: bool)
        ensures
            b == set_match(self.patterns(), text@),
    {
        set_is_match(self, text)
    }

    /// A set of the same patterns.
    pub fn duplicate(&self) -> (r: PatternSet)
        ensures
            r.patterns() == self.patterns(),
    {
        clone_set(self)
    }
}

pub struct ExtensionFilter {
    set: PatternSet,
}

impl ExtensionFilter {
    pub fn new(set: PatternSet) -> (f: Self)
        ensures
            f.patterns() == set.patterns(),
            forall|h: RawHitView, v: Verdict| #[trigger] f.allows(h, v) == (v == extension_verdict(set.patterns(), h)),
            f.pending() == Seq::<RawHitView>::empty(),
    {
        ExtensionFilter { set }
    }

    /// The extension patterns the filter asks.
    pub closed spec fn patterns(&self) -> Seq<Seq<char>> {
        self.set.patterns()
    }
}

/// A hit without a file name is dropped; any other hit is kept exactly
/// when some extension pattern matches its file name.
pub open spec fn extension_verdict(patterns: Seq<Seq<char>>, hit: RawHitView) -> Verdict {
    match winpath::file_name(hit.path) {
        None => Verdict::Drop,
        Some(n) => if set_match(patterns, n) { Verdict::Keep } else { Verdict::Drop },
    }
}

impl Filter for ExtensionFilter {
    closed spec fn allows(&self, hit: RawHitView, v: Verdict) -> bool {
        v == extension_verdict(self.patterns(), hit)
    }

    closed spec fn pending(&self) -> Seq<RawHitView> {
        Seq::empty()
    }

    fn evaluate(&mut self, hit: &RawHit) -> (v: Verdict)
        ensures
            v == extension_verdict(old(self).patterns(), hit@),
            *final(self) == *old(self),
    {
        let name = match winpath::path_file_name(hit.path.as_str()) {
            None => return Verdict::Drop,
            Some(n) => n,
        };
        if set_is_match(&self.set, name.as_str()) {
            Verdict::Keep
        } else {
            Verdict::Drop
        }
    }

    fn drain(&mut self) -> (r: Vec<RawHit>) {
        Vec::new()
    }
}

} // verus!
