//! The Everything backend: the search string for one root, the request
//! flags, and the conversion of one SDK result record into a `RawHit`.
//!
//! The SDK itself is driven by the application layer; this module decides
//! what is asked and what each answer becomes.

use vstd::prelude::*;
use super::ffi::{self, sys};
use super::probe::probe_root_text;
use crate::scan::backend::{BackendQuery, CaseModifier, PatternScope, PatternView, RawHit, TranslatedPattern, patterns_view};
use crate::text::{push_char, push_str, chars_of};
use crate::winpath;

verus! {

/// Everything index backend. Stateless: every run takes the SDK lock anew.
#[derive(Debug, Default, Clone, Copy)]
pub struct EverythingBackend;

impl EverythingBackend {
    pub fn new() -> Self {
        EverythingBackend
    }
}

/// Request flags asked once per query: everything the post-filter reads off
/// a hit, so that no hit needs a file-system call.
pub const REQUEST_FLAGS: u32 = 0x0000_0004 | 0x0000_0100 | 0x0000_0010 | 0x0000_0040 | 0x0000_0020 | 0x0000_0008;

/// Win32 `FILE_ATTRIBUTE_REPARSE_POINT`.
pub const FILE_ATTRIBUTE_REPARSE_POINT: u32 = 0x0000_0400;

pub open spec fn case_text(c: CaseModifier) -> Seq<char> {
    match c {
        CaseModifier::Case => "case:"@,
        CaseModifier::Nocase => "nocase:"@,
    }
}

pub open spec fn scope_text(s: PatternScope) -> Seq<char> {
    match s {
        PatternScope::Basename => "nopath:"@,
        PatternScope::FullPath => "path:"@,
    }
}

/// One pattern term: its scope modifier, then its query fragment.
pub open spec fn pattern_term(p: PatternView) -> Seq<char> {
    scope_text(p.scope) + p.query
}

/// Each `--and` term, preceded by a space, in order.
pub open spec fn and_terms(ps: Seq<PatternView>) -> Seq<char>
    decreases ps.len(),
{
    if ps.len() == 0 {
        Seq::empty()
    } else {
        and_terms(ps.drop_last()) + seq![' '] + pattern_term(ps.last())
    }
}

/// `root` in phrase quotes, with inner quotes dropped and `/` turned into
/// `\` (the index's `path:` filter knows only backslashes), exactly as the
/// coverage probe quotes it, so that both scope the same root.
pub open spec fn quoted_path(root: Seq<char>) -> Seq<char> {
    seq!['"'] + probe_root_text(root) + seq!['"']
}

/// `[case:|nocase:][nopath:|path:]<pattern>[ <and-term>...] path:"<root>"`.
pub open spec fn search_string(pattern: PatternView, ands: Seq<PatternView>, root: Seq<char>) -> Seq<char> {
    case_text(pattern.case_modifier) + pattern_term(pattern) + and_terms(ands) + seq![' '] + "path:"@ + quoted_path(root)
}

pub open spec fn query_search_string(q: BackendQuery, root: Seq<char>) -> Seq<char> {
    search_string(q.pattern@, patterns_view(q.and_patterns@), root)
}

fn push_pattern_term(s: &mut String, pat: &TranslatedPattern)
    ensures
        final(s)@ == old(s)@ + pattern_term(pat@),
{
    match pat.scope {
        PatternScope::Basename => push_str(s, "nopath:"),
        PatternScope::FullPath => push_str(s, "path:"),
    }
    push_str(s, pat.everything_query.as_str());
}

fn push_quoted_path(s: &mut String, root: &str)
    ensures
        final(s)@ == old(s)@ + quoted_path(root@),
{
    let cs = chars_of(root);
    push_char(s, '"');
    let ghost start = s@;
    let mut i: usize = 0;
    while i < cs.len()
        invariant
            cs@ == root@,
            i <= cs.len(),
            s@ == start + probe_root_text(cs@.take(i as int)),
        decreases cs.len() - i,
    {
        assert(cs@.take(i + 1).drop_last() =~= cs@.take(i as int));
        if cs[i] == '"' {
        } else if cs[i] == '/' {
            push_char(s, '\\');
        } else {
            push_char(s, cs[i]);
        }
        assert(s@ =~= start + probe_root_text(cs@.take(i + 1)));
        i += 1;
    }
    assert(cs@.take(i as int) =~= cs@);
    push_char(s, '"');
    assert(final(s)@ =~= old(s)@ + quoted_path(root@));
}

/// The search string for `query` scoped to `root`. It always opens with an
/// explicit case modifier and ends with `path:"<root>"`.
pub fn build_search_string(query: &BackendQuery, root: &str) -> (s: String)
    ensures
        s@ == query_search_string(*query, root@),
{
    let mut s = String::new();
    match query.pattern.case_modifier {
        CaseModifier::Case => push_str(&mut s, "case:"),
        CaseModifier::Nocase => push_str(&mut s, "nocase:"),
    }
    push_pattern_term(&mut s, &query.pattern);
    let ghost head = s@;
    let mut i: usize = 0;
    while i < query.and_patterns.len()
        invariant
            i <= query.and_patterns.len(),
            s@ == head + and_terms(patterns_view(query.and_patterns@).take(i as int)),
        decreases query.and_patterns.len() - i,
    {
        push_char(&mut s, ' ');
        push_pattern_term(&mut s, &query.and_patterns[i]);
        let ghost ps = patterns_view(query.and_patterns@);
        assert(ps.take(i + 1).drop_last() =~= ps.take(i as int));
        assert(s@ =~= head + and_terms(ps.take(i + 1)));
        i += 1;
    }
    assert(patterns_view(query.and_patterns@).take(i as int) =~= patterns_view(query.and_patterns@));
    push_char(&mut s, ' ');
    push_str(&mut s, "path:");
    push_quoted_path(&mut s, root);
    assert(s@ =~= query_search_string(*query, root@));
    s
}

/// Whether a result is a plain directory: the SDK says folder and the entry
/// is not a reparse point (directory links and junctions are not plain
/// directories).
pub fn classify_is_dir(is_folder_result: bool, attributes: u32) -> (r: bool)
    ensures
        r == (is_folder_result && attributes & FILE_ATTRIBUTE_REPARSE_POINT == 0),
{
    let is_reparse = attributes & FILE_ATTRIBUTE_REPARSE_POINT != 0;
    is_folder_result && !is_reparse
}

/// Depth of a hit below its root: the number of named components left after
/// stripping the root, or 0 when the hit is not below the root.
pub open spec fn depth_spec(hit: Seq<char>, root: Seq<char>) -> nat {
    match winpath::strip_prefix(hit, root) {
        Some(rel) => winpath::named_count(winpath::comps(rel)),
        None => 0,
    }
}

pub fn depth_under_root(hit: &str, root: &str) -> (d: usize)
    ensures
        d == depth_spec(hit@, root@),
{
    match winpath::strip_path_prefix(hit, root) {
        Some(rel) => winpath::named_component_count(rel.as_str()),
        None => 0,
    }
}

/// One record of the SDK result list, as read through the SDK accessors.
pub struct SdkRecord {
    /// Full path, or `None` when the SDK could not give it.
    pub full_path: Option<String>,
    pub is_folder: bool,
    pub attributes: u32,
    pub size: Option<u64>,
    pub date_modified: Option<i64>,
    pub date_created: Option<i64>,
    pub extension: String,
}

/// The hit that a record becomes under `root`: `None` when the path could
/// not be read; missing size and dates read as 0.
pub open spec fn raw_hit_of(rec: SdkRecord, root: Seq<char>) -> Option<crate::scan::backend::RawHitView> {
    match rec.full_path {
        None => None,
        Some(p) => Some(crate::scan::backend::RawHitView {
            path: p@,
            is_dir: rec.is_folder && rec.attributes & FILE_ATTRIBUTE_REPARSE_POINT == 0,
            size: match rec.size { Some(v) => v, None => 0 },
            mtime: match rec.date_modified { Some(v) => v, None => 0 },
            ctime: match rec.date_created { Some(v) => v, None => 0 },
            attributes: rec.attributes,
            extension: rec.extension@,
            depth: depth_spec(p@, root) as usize,
            search_root: root,
        }),
    }
}

/// Build the hit for one SDK record.
pub fn build_raw_hit(rec: SdkRecord, root: &str) -> (r: Option<RawHit>)
    ensures
        match r {
            Some(h) => raw_hit_of(rec, root@) == Some(h@),
            None => raw_hit_of(rec, root@).is_none(),
        },
{
    let path = match rec.full_path {
        Some(p) => p,
        None => return None,
    };
    let is_dir = classify_is_dir(rec.is_folder, rec.attributes);
    let size = match rec.size { Some(v) => v, None => 0 };
    let mtime = match rec.date_modified { Some(v) => v, None => 0 };
    let ctime = match rec.date_created { Some(v) => v, None => 0 };
    let depth = depth_under_root(path.as_str(), root);
    Some(RawHit {
        path,
        is_dir,
        size,
        mtime,
        ctime,
        attributes: rec.attributes,
        extension: rec.extension,
        depth,
        search_root: crate::text::owned(root),
    })
}

/// What the backend does with the record at the current result index.
pub enum HitStep {
    /// The run was cancelled: stop with `Cancelled`.
    Stop,
    /// Nothing to send: the path was unreadable, or the hit is the root itself.
    Skip,
    /// Send this hit on.
    Forward(RawHit),
}

/// Decide the fate of one result record: stop when cancelled; skip records
/// without a path and the root itself (depth 0); forward everything else.
pub fn root_hit_step(cancelled: bool, rec: SdkRecord, root: &str) -> (r: HitStep)
    ensures
        cancelled ==> r is Stop,
        !cancelled ==> match raw_hit_of(rec, root@) {
            None => r is Skip,
            Some(h) => if h.depth == 0 { r is Skip } else { r matches HitStep::Forward(x) && x@ == h },
        },
{
    if cancelled {
        return HitStep::Stop;
    }
    match build_raw_hit(rec, root) {
        None => HitStep::Skip,
        Some(h) => if h.depth == 0 { HitStep::Skip } else { HitStep::Forward(h) },
    }
}

/// What one root's query asks of the SDK: the NUL-terminated search string
/// and the result cap (set only when the `--max-results` value fits in 32
/// bits; 0 would mean "no cap" to the SDK).
pub struct RootQueryPlan {
    pub search_utf16: Vec<u16>,
    pub max: Option<u32>,
    pub request_flags: u32,
}

pub fn plan_root_query(query: &BackendQuery, root: &str) -> (r: RootQueryPlan)
    ensures
        r.search_utf16@ == ffi::utf16_of(query_search_string(*query, root@)).push(0u16),
        r.request_flags == REQUEST_FLAGS,
        r.max == match query.max_results {
            Some(m) => if m <= u32::MAX { Some(m as u32) } else { None },
            None => None,
        },
{
    let search = build_search_string(query, root);
    let search_utf16 = ffi::to_utf16_nul(search.as_str());
    let max = match query.max_results {
        Some(m) => if m <= 0xFFFF_FFFFusize { Some(m as u32) } else { None },
        None => None,
    };
    RootQueryPlan { search_utf16, max, request_flags: REQUEST_FLAGS }
}

/// An SDK failure seen by the backend, as a backend error that keeps the
/// structured SDK error.
pub fn everything_to_backend_err(e: super::error::EverythingError) -> (r: crate::scan::backend::BackendError)
    ensures
        r == crate::scan::backend::BackendError::Everything(e),
{
    crate::scan::backend::BackendError::Everything(e)
}

/// Every search string opens with an explicit case modifier, so that the
/// index's own "match case" setting cannot change a result, and ends with
/// `path:"<root>"`, which scopes it to the root.
pub proof fn lemma_search_string_pins_case_and_root(pattern: PatternView, ands: Seq<PatternView>, root: Seq<char>)
    ensures
        ({
            let s = search_string(pattern, ands, root);
            let c = case_text(pattern.case_modifier);
            let tail = "path:"@ + quoted_path(root);
            &&& s.len() >= c.len() + tail.len()
            &&& s.take(c.len() as int) == c
            &&& s.skip(s.len() - tail.len()) == tail
        }),
{
    let c = case_text(pattern.case_modifier);
    let mid = pattern_term(pattern) + and_terms(ands) + seq![' '];
    let tail = "path:"@ + quoted_path(root);
    let s = search_string(pattern, ands, root);
    assert(s =~= c + mid + tail);
    assert((c + mid + tail).take(c.len() as int) =~= c);
    assert((c + mid + tail).skip((c + mid + tail).len() - tail.len()) =~= tail);
}

/// How the `--and` patterns enter the search string. With none, the string
/// is the case modifier, the pattern's scope and fragment, one space and the
/// root filter. Each further `--and` pattern adds exactly one space and its
/// own scope and fragment just before that root filter, and nothing else:
/// the terms stand side by side, which the index reads as "all of them".
pub proof fn lemma_and_pattern_adds_one_spaced_term(pattern: PatternView, ands: Seq<PatternView>, a: PatternView, root: Seq<char>)
    ensures
        search_string(pattern, Seq::empty(), root)
            == case_text(pattern.case_modifier) + scope_text(pattern.scope) + pattern.query + " path:"@ + quoted_path(root),
        ({
            let tail = " path:"@ + quoted_path(root);
            let before = search_string(pattern, ands, root);
            let after = search_string(pattern, ands.push(a), root);
            &&& before.len() >= tail.len()
            &&& after == before.take(before.len() - tail.len()) + " "@ + scope_text(a.scope) + a.query + tail
        }),
{
    reveal_strlit(" path:");
    reveal_strlit("path:");
    reveal_strlit(" ");
    let tail = " path:"@ + quoted_path(root);
    assert(" path:"@ =~= seq![' '] + "path:"@);
    assert(" "@ =~= seq![' ']);
    let head = case_text(pattern.case_modifier) + pattern_term(pattern);
    assert(and_terms(Seq::<PatternView>::empty()) =~= Seq::<char>::empty());
    assert(search_string(pattern, Seq::empty(), root) =~= head + tail);
    assert(ands.push(a).drop_last() =~= ands);
    let before = search_string(pattern, ands, root);
    assert(before =~= (head + and_terms(ands)) + tail);
    assert(before.take(before.len() - tail.len()) =~= head + and_terms(ands));
    assert(search_string(pattern, ands.push(a), root) =~= head + and_terms(ands) + " "@ + scope_text(a.scope) + a.query + tail);
}

/// The search string opens with the pattern's case and scope written out:
/// `case:` or `nocase:`, then `path:` for a full-path pattern or `nopath:`
/// for a name pattern, then the pattern's fragment.
pub proof fn lemma_search_string_opens_with_modifiers(pattern: PatternView, ands: Seq<PatternView>, root: Seq<char>)
    ensures
        ({
            let head = (if pattern.case_modifier == CaseModifier::Case { "case:"@ } else { "nocase:"@ })
                + (if pattern.scope == PatternScope::FullPath { "path:"@ } else { "nopath:"@ }) + pattern.query;
            let s = search_string(pattern, ands, root);
            s.len() >= head.len() && s.take(head.len() as int) == head
        }),
{
    let head = (if pattern.case_modifier == CaseModifier::Case { "case:"@ } else { "nocase:"@ })
        + (if pattern.scope == PatternScope::FullPath { "path:"@ } else { "nopath:"@ }) + pattern.query;
    let s = search_string(pattern, ands, root);
    assert(head == case_text(pattern.case_modifier) + pattern_term(pattern));
    assert(s =~= head + (and_terms(ands) + seq![' '] + "path:"@ + quoted_path(root)));
    assert(s.take(head.len() as int) =~= head);
}

} // verus!
