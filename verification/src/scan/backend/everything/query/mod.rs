//! Translation of the command-line pattern and filters into a query for the
//! index. Any single dimension that the index query cannot express faithfully
//! gives up the whole translation, so that the caller can fall back to
//! walking the file system.

use vstd::prelude::*;
use crate::filetypes::FileTypes;
use crate::filter::{SizeFilter, TimeFilter, UnixTime, filetime_fits, filetime_fits_spec, system_time_to_filetime, time_filetime};
use crate::scan::backend::{BackendQuery, CaseModifier, EntryTypeHint, PatternScope, PatternView, SizeRange, TimeRange, TranslatedPattern, patterns_view};
use crate::text::{push_char, push_str, chars_of};

pub mod glob;
pub mod literal;
pub mod unsupported;

pub use unsupported::{check_regex_pattern, RejectReason};

verus! {

/// The translation gave up on some dimension.
#[derive(Debug, Clone, Copy, PartialEq, Eq, Structural)]
pub struct TranslationGiveUp {
    pub reason: GiveUpReason,
}

/// Why the translation gave up.
#[derive(Debug, Clone, Copy, PartialEq, Eq, Structural)]
pub enum GiveUpReason {
    /// The regex holds a construct the index engine treats differently.
    Regex(RejectReason),
    /// A `--fixed-strings` / `--exact` literal holds `"`, `\`, `*` or `?`.
    Literal,
    /// A `--glob` pattern is negated, has a non-ASCII class, or braces that
    /// cannot be expanded in one level.
    Glob,
}

/// The command-line state the translation reads.
pub struct TranslationInput<'a> {
    pub pattern: &'a str,
    pub glob: bool,
    pub fixed_strings: bool,
    pub exact: bool,
    pub and_patterns: &'a [String],
    pub full_path: bool,
    pub case_sensitive: bool,
    pub file_types: Option<&'a FileTypes>,
    pub extensions: &'a [String],
    pub size_filters: &'a [SizeFilter],
    pub time_filters: &'a [TimeFilter],
    pub max_depth: Option<usize>,
    pub max_results: Option<usize>,
}

pub open spec fn is_regex_meta(c: char) -> bool {
    c == '.' || c == '+' || c == '*' || c == '?' || c == '(' || c == ')' || c == '|' || c == '['
        || c == ']' || c == '{' || c == '}' || c == '^' || c == '$' || c == '\\'
}

/// Every regex metacharacter of `s` preceded by a backslash.
pub open spec fn escape_regex_meta_spec(s: Seq<char>) -> Seq<char>
    decreases s.len(),
{
    if s.len() == 0 {
        Seq::empty()
    } else {
        escape_regex_meta_spec(s.drop_last()) + if is_regex_meta(s.last()) {
            seq!['\\', s.last()]
        } else {
            seq![s.last()]
        }
    }
}

/// The query fragment for one raw pattern under the glob / fixed-string /
/// exact flags, or the reason to give up.
pub open spec fn fragment_spec(raw: Seq<char>, glob: bool, fixed: bool, exact: bool) -> Result<Seq<char>, GiveUpReason> {
    if glob {
        match glob::translate_glob_spec(raw) {
            Some(f) => Ok("wildcards:"@ + f),
            None => Err(GiveUpReason::Glob),
        }
    } else if fixed {
        match literal::translate_fixed_string_spec(raw) {
            Some(t) => Ok(t),
            None => Err(GiveUpReason::Literal),
        }
    } else if exact {
        match literal::translate_fixed_string_spec(raw) {
            None => Err(GiveUpReason::Literal),
            Some(_) => if raw.len() == 0 {
                Ok(Seq::empty())
            } else {
                Ok("regex:\"^"@ + escape_regex_meta_spec(raw) + "$\""@)
            },
        }
    } else {
        match unsupported::regex_verdict(raw) {
            Some(reason) => Err(GiveUpReason::Regex(reason)),
            None => if raw.len() == 0 {
                Ok(Seq::empty())
            } else {
                Ok("regex:\""@ + raw + "\""@)
            },
        }
    }
}

pub open spec fn input_case(input: TranslationInput) -> CaseModifier {
    if input.case_sensitive { CaseModifier::Case } else { CaseModifier::Nocase }
}

pub open spec fn input_scope(input: TranslationInput) -> PatternScope {
    if input.full_path { PatternScope::FullPath } else { PatternScope::Basename }
}

pub open spec fn input_fragment(input: TranslationInput, raw: Seq<char>) -> Result<Seq<char>, GiveUpReason> {
    fragment_spec(raw, input.glob, input.fixed_strings, input.exact)
}

/// The `--and` patterns translated in order; the first one that gives up
/// decides.
pub open spec fn and_fragments(input: TranslationInput, raws: Seq<Seq<char>>) -> Result<Seq<PatternView>, GiveUpReason>
    decreases raws.len(),
{
    if raws.len() == 0 {
        Ok(Seq::empty())
    } else {
        match and_fragments(input, raws.drop_last()) {
            Err(e) => Err(e),
            Ok(prev) => match input_fragment(input, raws.last()) {
                Err(e) => Err(e),
                Ok(f) => Ok(prev.push(PatternView { query: f, scope: input_scope(input), case_modifier: input_case(input) })),
            },
        }
    }
}

pub open spec fn strings_view(v: Seq<String>) -> Seq<Seq<char>> {
    v.map_values(|x: String| x@)
}

/// File-or-directory hint: only a pure `--type f` or pure `--type d` is
/// pushed down.
pub open spec fn type_hint_spec(t: Option<FileTypes>) -> Option<EntryTypeHint> {
    match t {
        None => None,
        Some(t) => if t.executables_only || t.empty_only || t.symlinks || t.block_devices || t.char_devices || t.sockets || t.pipes {
            None
        } else if t.files && !t.directories {
            Some(EntryTypeHint::File)
        } else if !t.files && t.directories {
            Some(EntryTypeHint::Directory)
        } else {
            None
        },
    }
}

pub open spec fn raise_opt(cur: Option<u64>, v: u64) -> Option<u64> {
    match cur {
        None => Some(v),
        Some(c) => Some(if c >= v { c } else { v }),
    }
}

pub open spec fn lower_opt(cur: Option<u64>, v: u64) -> Option<u64> {
    match cur {
        None => Some(v),
        Some(c) => Some(if c <= v { c } else { v }),
    }
}

/// Tightest size bounds: the largest lower bound and the smallest upper
/// bound; an exact size bounds both sides.
pub open spec fn size_bounds(fs: Seq<SizeFilter>) -> (Option<u64>, Option<u64>)
    decreases fs.len(),
{
    if fs.len() == 0 {
        (None, None)
    } else {
        let (mn, mx) = size_bounds(fs.drop_last());
        match fs.last() {
            SizeFilter::Min(v) => (raise_opt(mn, v), mx),
            SizeFilter::Max(v) => (mn, lower_opt(mx, v)),
            SizeFilter::Equals(v) => (raise_opt(mn, v), lower_opt(mx, v)),
        }
    }
}

pub open spec fn size_hint_spec(fs: Seq<SizeFilter>) -> Option<SizeRange> {
    if fs.len() == 0 {
        None
    } else {
        Some(SizeRange { min_bytes: size_bounds(fs).0, max_bytes: size_bounds(fs).1 })
    }
}

pub open spec fn raise_i(cur: Option<i64>, v: i64) -> Option<i64> {
    match cur {
        None => Some(v),
        Some(c) => Some(if c >= v { c } else { v }),
    }
}

pub open spec fn lower_i(cur: Option<i64>, v: i64) -> Option<i64> {
    match cur {
        None => Some(v),
        Some(c) => Some(if c <= v { c } else { v }),
    }
}

/// Whether a time converts to FILETIME without overflowing.
pub open spec fn filetime_convertible(t: UnixTime) -> bool {
    filetime_fits_spec(t)
}

pub open spec fn time_filter_convertible(f: TimeFilter) -> bool {
    match f {
        TimeFilter::After(t) => filetime_convertible(t),
        TimeFilter::Before(t) => filetime_convertible(t),
    }
}

/// FILETIME bounds: the latest `After` limit and the earliest `Before` one.
pub open spec fn time_bounds(fs: Seq<TimeFilter>) -> (Option<i64>, Option<i64>)
    decreases fs.len(),
{
    if fs.len() == 0 {
        (None, None)
    } else {
        let (mn, mx) = time_bounds(fs.drop_last());
        match fs.last() {
            TimeFilter::After(t) => (raise_i(mn, time_filetime(t) as i64), mx),
            TimeFilter::Before(t) => (mn, lower_i(mx, time_filetime(t) as i64)),
        }
    }
}

pub open spec fn time_hint_spec(fs: Seq<TimeFilter>) -> Option<TimeRange> {
    if fs.len() == 0 {
        None
    } else {
        Some(TimeRange { min_filetime: time_bounds(fs).0, max_filetime: time_bounds(fs).1 })
    }
}

// ---------------------------------------------------------------------------

/// Backslash before every regex metacharacter, so that the literal can sit
/// inside `regex:"^...$"`.
pub(crate) fn escape_regex_meta(s: &str) -> (r: String)
    ensures
        r@ == escape_regex_meta_spec(s@),
{
    let cs = chars_of(s);
    let mut out = String::new();
    let mut i: usize = 0;
    while i < cs.len()
        invariant
            cs@ == s@,
            i <= cs.len(),
            out@ == escape_regex_meta_spec(cs@.take(i as int)),
        decreases cs.len() - i,
    {
        let ch = cs[i];
        assert(cs@.take(i + 1).drop_last() =~= cs@.take(i as int));
        if ch == '.' || ch == '+' || ch == '*' || ch == '?' || ch == '(' || ch == ')' || ch == '|' || ch == '['
            || ch == ']' || ch == '{' || ch == '}' || ch == '^' || ch == '$' || ch == '\\'
        {
            push_char(&mut out, '\\');
            push_char(&mut out, ch);
        } else {
            push_char(&mut out, ch);
        }
        assert(out@ =~= escape_regex_meta_spec(cs@.take(i + 1)));
        i += 1;
    }
    assert(cs@.take(i as int) =~= cs@);
    out
}

/// Translate one raw pattern (the primary or an `--and` clause). An empty
/// pattern gives the empty fragment, except as a glob.
pub fn translate_one(raw: &str, input: &TranslationInput, scope: PatternScope, case_modifier: CaseModifier) -> (r: Result<TranslatedPattern, TranslationGiveUp>)
    ensures
        raw@.len() == 0 && !input.glob ==> (r matches Ok(p) && p.everything_query@ == Seq::<char>::empty()
            && p.scope == scope && p.case_modifier == case_modifier),
        match r {
            Ok(p) => input_fragment(*input, raw@) == Ok::<Seq<char>, GiveUpReason>(p.everything_query@)
                && p.scope == scope && p.case_modifier == case_modifier,
            Err(g) => input_fragment(*input, raw@) == Err::<Seq<char>, GiveUpReason>(g.reason),
        },
{
    let fragment: String = if input.glob {
        match glob::translate_glob(raw) {
            glob::GlobResult::Fragment(f) => {
                let mut s = String::from_str("wildcards:");
                push_str(&mut s, f.as_str());
                s
            },
            glob::GlobResult::GiveUp => {
                return Err(TranslationGiveUp { reason: GiveUpReason::Glob });
            },
        }
    } else if input.fixed_strings {
        match literal::translate_fixed_string(raw) {
            literal::LiteralResult::Term(t) => t,
            literal::LiteralResult::GiveUp => {
                return Err(TranslationGiveUp { reason: GiveUpReason::Literal });
            },
        }
    } else if input.exact {
        match literal::translate_fixed_string(raw) {
            literal::LiteralResult::Term(_) => {
                if raw.is_empty() {
                    String::new()
                } else {
                    let mut s = String::from_str("regex:\"^");
                    let e = escape_regex_meta(raw);
                    push_str(&mut s, e.as_str());
                    push_str(&mut s, "$\"");
                    s
                }
            },
            literal::LiteralResult::GiveUp => {
                return Err(TranslationGiveUp { reason: GiveUpReason::Literal });
            },
        }
    } else {
        match check_regex_pattern(raw) {
            Err(reason) => {
                return Err(TranslationGiveUp { reason: GiveUpReason::Regex(reason) });
            },
            Ok(_) => {
                if raw.is_empty() {
                    String::new()
                } else {
                    let mut s = String::from_str("regex:\"");
                    push_str(&mut s, raw);
                    push_char(&mut s, '"');
                    assert(s@ =~= "regex:\""@ + raw@ + "\""@) by {
                        reveal_strlit("\"");
                    }
                    s
                }
            },
        }
    };
    Ok(TranslatedPattern { everything_query: fragment, scope, case_modifier })
}

fn derive_type_hint(types: Option<&FileTypes>) -> (r: Option<EntryTypeHint>)
    ensures
        r == type_hint_spec(match types { Some(t) => Some(*t), None => None }),
{
    let t = match types {
        None => {
            return None;
        },
        Some(t) => t,
    };
    if t.executables_only || t.empty_only {
        return None;
    }
    if t.symlinks || t.block_devices || t.char_devices || t.sockets || t.pipes {
        return None;
    }
    if t.files && !t.directories {
        Some(EntryTypeHint::File)
    } else if !t.files && t.directories {
        Some(EntryTypeHint::Directory)
    } else {
        None
    }
}

fn derive_size_hint(filters: &[SizeFilter]) -> (r: Option<SizeRange>)
    ensures
        r == size_hint_spec(filters@),
{
    if filters.len() == 0 {
        return None;
    }
    let mut min: Option<u64> = None;
    let mut max: Option<u64> = None;
    let mut i: usize = 0;
    while i < filters.len()
        invariant
            i <= filters.len(),
            (min, max) == size_bounds(filters@.take(i as int)),
        decreases filters.len() - i,
    {
        assert(filters@.take(i + 1).drop_last() =~= filters@.take(i as int));
        match filters[i] {
            SizeFilter::Min(v) => {
                min = Some(match min { None => v, Some(c) => if c >= v { c } else { v } });
            },
            SizeFilter::Max(v) => {
                max = Some(match max { None => v, Some(c) => if c <= v { c } else { v } });
            },
            SizeFilter::Equals(v) => {
                min = Some(match min { None => v, Some(c) => if c >= v { c } else { v } });
                max = Some(match max { None => v, Some(c) => if c <= v { c } else { v } });
            },
        }
        i += 1;
    }
    assert(filters@.take(i as int) =~= filters@);
    Some(SizeRange { min_bytes: min, max_bytes: max })
}

fn derive_time_hint(filters: &[TimeFilter]) -> (r: Option<TimeRange>)
    requires
        forall|k: int| 0 <= k < filters@.len() ==> time_filter_convertible(#[trigger] filters@[k]),
    ensures
        r == time_hint_spec(filters@),
{
    if filters.len() == 0 {
        return None;
    }
    let mut min_ft: Option<i64> = None;
    let mut max_ft: Option<i64> = None;
    let mut i: usize = 0;
    while i < filters.len()
        invariant
            i <= filters.len(),
            forall|k: int| 0 <= k < filters@.len() ==> time_filter_convertible(#[trigger] filters@[k]),
            (min_ft, max_ft) == time_bounds(filters@.take(i as int)),
        decreases filters.len() - i,
    {
        assert(filters@.take(i + 1).drop_last() =~= filters@.take(i as int));
        assert(time_filter_convertible(filters@[i as int]));
        match filters[i] {
            TimeFilter::After(t) => {
                let ft = system_time_to_filetime(t);
                min_ft = Some(match min_ft { None => ft, Some(c) => if c >= ft { c } else { ft } });
            },
            TimeFilter::Before(t) => {
                let ft = system_time_to_filetime(t);
                max_ft = Some(match max_ft { None => ft, Some(c) => if c <= ft { c } else { ft } });
            },
        }
        i += 1;
    }
    assert(filters@.take(i as int) =~= filters@);
    Some(TimeRange { min_filetime: min_ft, max_filetime: max_ft })
}

/// Whether every time limit of the input converts to FILETIME without
/// overflowing 64-bit arithmetic.
pub open spec fn input_times_convertible(input: TranslationInput) -> bool {
    forall|k: int| 0 <= k < input.time_filters@.len() ==> time_filter_convertible(#[trigger] input.time_filters@[k])
}

/// Whether every time limit of the input converts to FILETIME; the input
/// can be translated only then.
pub fn input_times_fit(input: &TranslationInput) -> (b: bool)
    ensures
        b == input_times_convertible(*input),
{
    let fs = input.time_filters;
    let mut i: usize = 0;
    while i < fs.len()
        invariant
            fs@ == input.time_filters@,
            i <= fs.len(),
            forall|k: int| 0 <= k < i ==> time_filter_convertible(#[trigger] fs@[k]),
        decreases fs.len() - i,
    {
        let t = match fs[i] {
            TimeFilter::After(t) => t,
            TimeFilter::Before(t) => t,
        };
        if !filetime_fits(t) {
            assert(!time_filter_convertible(fs@[i as int]));
            return false;
        }
        i += 1;
    }
    true
}

/// `q` is the query that `input` translates to over the roots `paths`.
pub open spec fn query_matches(input: TranslationInput, paths: Seq<Seq<char>>, q: BackendQuery) -> bool {
    &&& input_fragment(input, input.pattern@) == Ok::<Seq<char>, GiveUpReason>(q.pattern.everything_query@)
    &&& q.pattern.scope == input_scope(input)
    &&& q.pattern.case_modifier == input_case(input)
    &&& and_fragments(input, strings_view(input.and_patterns@)) == Ok::<Seq<PatternView>, GiveUpReason>(patterns_view(q.and_patterns@))
    &&& strings_view(q.paths@) == paths
    &&& q.type_hint == type_hint_spec(match input.file_types { Some(t) => Some(*t), None => None })
    &&& q.size_hint == size_hint_spec(input.size_filters@)
    &&& q.time_hint == time_hint_spec(input.time_filters@)
    &&& q.max_depth == input.max_depth
    &&& q.max_results == input.max_results
}

/// `g` is the give-up of `input`: the primary pattern's reason if it gives
/// up, else the first `--and` pattern's.
pub open spec fn giveup_matches(input: TranslationInput, g: TranslationGiveUp) -> bool {
    match input_fragment(input, input.pattern@) {
        Err(reason) => g.reason == reason,
        Ok(_) => and_fragments(input, strings_view(input.and_patterns@)) == Err::<Seq<PatternView>, GiveUpReason>(g.reason),
    }
}

/// What a translation answers, pattern by pattern: it gives up exactly when
/// the primary pattern or one of the `--and` patterns does, with the reason
/// of the first that does, the primary first; otherwise the query keeps the
/// `--and` patterns' number and order, and every pattern of it carries the
/// input's scope and case.
pub proof fn lemma_translate_outcome(input: TranslationInput, paths: Seq<Seq<char>>, r: Result<BackendQuery, TranslationGiveUp>)
    requires
        match r {
            Ok(q) => query_matches(input, paths, q),
            Err(g) => giveup_matches(input, g),
        },
    ensures
        r is Err <==> input_fragment(input, input.pattern@) is Err
            || exists|i: int| 0 <= i < input.and_patterns@.len()
                && (#[trigger] input_fragment(input, input.and_patterns@[i]@)) is Err,
        r matches Err(g) ==> match input_fragment(input, input.pattern@) {
            Err(e) => g.reason == e,
            Ok(_) => exists|i: int| 0 <= i < input.and_patterns@.len()
                && #[trigger] input_fragment(input, input.and_patterns@[i]@) == Err::<Seq<char>, GiveUpReason>(g.reason)
                && forall|j: int| 0 <= j < i ==> (#[trigger] input_fragment(input, input.and_patterns@[j]@)) is Ok,
        },
        r matches Ok(q) ==> {
            &&& q.and_patterns@.len() == input.and_patterns@.len()
            &&& q.pattern.scope == input_scope(input)
            &&& q.pattern.case_modifier == input_case(input)
            &&& forall|i: int| 0 <= i < q.and_patterns@.len() ==> {
                &&& (#[trigger] q.and_patterns@[i]).scope == input_scope(input)
                &&& q.and_patterns@[i].case_modifier == input_case(input)
            }
        },
{
    let raws = strings_view(input.and_patterns@);
    lemma_and_fragments_first_failure(input, raws);
    assert(raws.len() == input.and_patterns@.len());
    assert(forall|i: int| 0 <= i < raws.len() ==> #[trigger] raws[i] == input.and_patterns@[i]@);
    match r {
        Ok(q) => {
            let ps = patterns_view(q.and_patterns@);
            assert(and_fragments(input, raws) == Ok::<Seq<PatternView>, GiveUpReason>(ps));
            assert(ps.len() == q.and_patterns@.len());
            assert forall|i: int| 0 <= i < q.and_patterns@.len() implies {
                &&& (#[trigger] q.and_patterns@[i]).scope == input_scope(input)
                &&& q.and_patterns@[i].case_modifier == input_case(input)
            } by {
                assert(ps[i] == q.and_patterns@[i]@);
                assert(input_fragment(input, raws[i]) == Ok::<Seq<char>, GiveUpReason>(ps[i].query));
            }
            assert forall|i: int| 0 <= i < input.and_patterns@.len()
                implies !((#[trigger] input_fragment(input, input.and_patterns@[i]@)) is Err) by {
                assert(raws[i] == input.and_patterns@[i]@);
            }
        },
        Err(g) => {
            match input_fragment(input, input.pattern@) {
                Err(e) => {},
                Ok(_) => {
                    let i = choose|i: int| 0 <= i < raws.len()
                        && #[trigger] input_fragment(input, raws[i]) == Err::<Seq<char>, GiveUpReason>(g.reason)
                        && forall|j: int| 0 <= j < i ==> (#[trigger] input_fragment(input, raws[j])) is Ok;
                    assert(raws[i] == input.and_patterns@[i]@);
                    assert forall|j: int| 0 <= j < i implies (#[trigger] input_fragment(input, input.and_patterns@[j]@)) is Ok by {
                        assert(raws[j] == input.and_patterns@[j]@);
                    }
                },
            }
        },
    }
}

/// The `--and` patterns translate one by one, in order: they all succeed,
/// giving one fragment each with the query's scope and case, or the first
/// one that gives up decides the reason.
pub proof fn lemma_and_fragments_first_failure(input: TranslationInput, raws: Seq<Seq<char>>)
    ensures
        match and_fragments(input, raws) {
            Ok(ps) => ps.len() == raws.len() && forall|i: int| 0 <= i < raws.len() ==> {
                &&& #[trigger] input_fragment(input, raws[i]) == Ok::<Seq<char>, GiveUpReason>(ps[i].query)
                &&& ps[i].scope == input_scope(input)
                &&& ps[i].case_modifier == input_case(input)
            },
            Err(e) => exists|i: int| 0 <= i < raws.len()
                && #[trigger] input_fragment(input, raws[i]) == Err::<Seq<char>, GiveUpReason>(e)
                && forall|j: int| 0 <= j < i ==> (#[trigger] input_fragment(input, raws[j])) is Ok,
        },
    decreases raws.len(),
{
    if raws.len() > 0 {
        let pre = raws.drop_last();
        lemma_and_fragments_first_failure(input, pre);
        assert(forall|j: int| 0 <= j < pre.len() ==> pre[j] == raws[j]);
        match and_fragments(input, pre) {
            Err(e) => {
                let i = choose|i: int| 0 <= i < pre.len()
                    && #[trigger] input_fragment(input, pre[i]) == Err::<Seq<char>, GiveUpReason>(e)
                    && forall|j: int| 0 <= j < i ==> (#[trigger] input_fragment(input, pre[j])) is Ok;
                assert(input_fragment(input, raws[i]) == Err::<Seq<char>, GiveUpReason>(e));
                assert forall|j: int| 0 <= j < i implies (#[trigger] input_fragment(input, raws[j])) is Ok by {
                    assert(pre[j] == raws[j]);
                }
            },
            Ok(prev) => {
                let k = raws.len() - 1;
                assert(raws.last() == raws[k]);
                match input_fragment(input, raws.last()) {
                    Err(e) => {
                        assert forall|j: int| 0 <= j < k implies (#[trigger] input_fragment(input, raws[j])) is Ok by {
                            assert(pre[j] == raws[j]);
                            assert(input_fragment(input, pre[j]) == Ok::<Seq<char>, GiveUpReason>(prev[j].query));
                        }
                    },
                    Ok(f) => {
                        let ps = prev.push(PatternView { query: f, scope: input_scope(input), case_modifier: input_case(input) });
                        assert forall|i: int| 0 <= i < raws.len() implies {
                            &&& #[trigger] input_fragment(input, raws[i]) == Ok::<Seq<char>, GiveUpReason>(ps[i].query)
                            &&& ps[i].scope == input_scope(input)
                            &&& ps[i].case_modifier == input_case(input)
                        } by {
                            if i < k {
                                assert(pre[i] == raws[i]);
                                assert(ps[i] == prev[i]);
                            }
                        }
                    },
                }
            },
        }
    }
}

/// Build the backend query for `paths` from the command-line state, or give
/// up when the primary pattern or any `--and` pattern cannot be expressed.
pub fn translate(input: &TranslationInput, paths: Vec<String>) -> (r: Result<BackendQuery, TranslationGiveUp>)
    requires
        input_times_convertible(*input),
    ensures
        match r {
            Ok(q) => query_matches(*input, strings_view(paths@), q),
            Err(g) => giveup_matches(*input, g),
        },
{
    let case_modifier = if input.case_sensitive { CaseModifier::Case } else { CaseModifier::Nocase };
    let scope = if input.full_path { PatternScope::FullPath } else { PatternScope::Basename };
    let pattern = match translate_one(input.pattern, input, scope, case_modifier) {
        Ok(p) => p,
        Err(g) => {
            return Err(g);
        },
    };
    let mut and_patterns: Vec<TranslatedPattern> = Vec::new();
    let ghost raws = strings_view(input.and_patterns@);
    let mut i: usize = 0;
    assert(raws.take(0) =~= Seq::<Seq<char>>::empty());
    assert(patterns_view(and_patterns@) =~= Seq::<PatternView>::empty());
    while i < input.and_patterns.len()
        invariant
            raws == strings_view(input.and_patterns@),
            input_fragment(*input, input.pattern@) == Ok::<Seq<char>, GiveUpReason>(pattern.everything_query@),
            scope == input_scope(*input),
            case_modifier == input_case(*input),
            i <= input.and_patterns.len(),
            and_fragments(*input, raws.take(i as int)) == Ok::<Seq<PatternView>, GiveUpReason>(patterns_view(and_patterns@)),
        decreases input.and_patterns.len() - i,
    {
        assert(raws.take(i + 1).drop_last() =~= raws.take(i as int));
        assert(raws.take(i + 1).last() == input.and_patterns@[i as int]@);
        match translate_one(input.and_patterns[i].as_str(), input, scope, case_modifier) {
            Ok(p) => {
                let ghost prev = patterns_view(and_patterns@);
                let ghost pv = p@;
                and_patterns.push(p);
                assert(patterns_view(and_patterns@) =~= prev.push(pv));
                assert(and_fragments(*input, raws.take(i + 1)) == Ok::<Seq<PatternView>, GiveUpReason>(prev.push(pv)));
            },
            Err(g) => {
                proof {
                    lemma_and_fragments_prefix_err(*input, raws, i as int);
                }
                return Err(g);
            },
        }
        i += 1;
    }
    assert(raws.take(i as int) =~= raws);
    Ok(BackendQuery {
        paths,
        pattern,
        and_patterns,
        type_hint: derive_type_hint(input.file_types),
        size_hint: derive_size_hint(input.size_filters),
        time_hint: derive_time_hint(input.time_filters),
        max_depth: input.max_depth,
        max_results: input.max_results,
    })
}

proof fn lemma_and_fragments_prefix_err(input: TranslationInput, raws: Seq<Seq<char>>, k: int)
    requires
        0 <= k < raws.len(),
        and_fragments(input, raws.take(k + 1)) is Err,
    ensures
        and_fragments(input, raws) == and_fragments(input, raws.take(k + 1)),
    decreases raws.len() - k,
{
    if k + 1 < raws.len() {
        assert(raws.drop_last().take(k + 1) =~= raws.take(k + 1));
        lemma_and_fragments_prefix_err(input, raws.drop_last(), k);
    } else {
        assert(raws.take(k + 1) =~= raws);
    }
}

/// The size hint is the tightest range the `--size` filters allow: its
/// lower end is the largest of their lower bounds, its upper end the
/// smallest of their upper bounds (`Equals` counting as both).
pub proof fn lemma_size_bounds_tightest(fs: Seq<SizeFilter>)
    ensures
        forall|i: int| 0 <= i < fs.len() ==> match #[trigger] fs[i] {
            SizeFilter::Min(v) => size_bounds(fs).0 matches Some(m) && m >= v,
            SizeFilter::Max(v) => size_bounds(fs).1 matches Some(m) && m <= v,
            SizeFilter::Equals(v) => (size_bounds(fs).0 matches Some(m) && m >= v) && (size_bounds(fs).1 matches Some(m) && m <= v),
        },
        size_bounds(fs).0 matches Some(m) ==> exists|i: int| 0 <= i < fs.len()
            && (#[trigger] fs[i] == SizeFilter::Min(m) || fs[i] == SizeFilter::Equals(m)),
        size_bounds(fs).1 matches Some(m) ==> exists|i: int| 0 <= i < fs.len()
            && (#[trigger] fs[i] == SizeFilter::Max(m) || fs[i] == SizeFilter::Equals(m)),
    decreases fs.len(),
{
    if fs.len() > 0 {
        let init = fs.drop_last();
        lemma_size_bounds_tightest(init);
        let (mn, mx) = size_bounds(init);
        assert forall|i: int| 0 <= i < fs.len() implies match #[trigger] fs[i] {
            SizeFilter::Min(v) => size_bounds(fs).0 matches Some(m) && m >= v,
            SizeFilter::Max(v) => size_bounds(fs).1 matches Some(m) && m <= v,
            SizeFilter::Equals(v) => (size_bounds(fs).0 matches Some(m) && m >= v) && (size_bounds(fs).1 matches Some(m) && m <= v),
        } by {
            if i < fs.len() - 1 {
                assert(fs[i] == init[i]);
            }
        }
        if size_bounds(fs).0 is Some {
            let m = size_bounds(fs).0.unwrap();
            if mn == size_bounds(fs).0 {
                let i = choose|i: int| 0 <= i < init.len() && (#[trigger] init[i] == SizeFilter::Min(m) || init[i] == SizeFilter::Equals(m));
                assert(fs[i] == init[i]);
            } else {
                assert(fs[fs.len() - 1] == fs.last());
            }
        }
        if size_bounds(fs).1 is Some {
            let m = size_bounds(fs).1.unwrap();
            if mx == size_bounds(fs).1 {
                let i = choose|i: int| 0 <= i < init.len() && (#[trigger] init[i] == SizeFilter::Max(m) || init[i] == SizeFilter::Equals(m));
                assert(fs[i] == init[i]);
            } else {
                assert(fs[fs.len() - 1] == fs.last());
            }
        }
    }
}

/// The characters a regex reads as syntax rather than as themselves.
pub open spec fn regex_syntax_char(c: char) -> bool {
    c == '.' || c == '+' || c == '*' || c == '?' || c == '(' || c == ')' || c == '|' || c == '['
        || c == ']' || c == '{' || c == '}' || c == '^' || c == '$' || c == '\\'
}

/// `e` read left to right as a run of literal atoms: a backslash with a
/// syntax character after it (which makes it literal), or a character that
/// is no regex syntax.
pub open spec fn literal_atoms(e: Seq<char>) -> bool
    decreases e.len(),
{
    if e.len() == 0 {
        true
    } else if e[0] == '\\' {
        e.len() >= 2 && regex_syntax_char(e[1]) && literal_atoms(e.skip(2))
    } else {
        !regex_syntax_char(e[0]) && literal_atoms(e.skip(1))
    }
}

/// The text a run of literal atoms matches: each atom's character.
pub open spec fn atoms_text(e: Seq<char>) -> Seq<char>
    decreases e.len(),
{
    if e.len() == 0 {
        Seq::empty()
    } else if e[0] == '\\' && e.len() >= 2 {
        seq![e[1]] + atoms_text(e.skip(2))
    } else {
        seq![e[0]] + atoms_text(e.skip(1))
    }
}

proof fn lemma_atoms_append(x: Seq<char>, u: Seq<char>)
    requires
        literal_atoms(x),
        literal_atoms(u),
    ensures
        literal_atoms(x + u),
        atoms_text(x + u) == atoms_text(x) + atoms_text(u),
    decreases x.len(),
{
    if x.len() == 0 {
        assert(x + u =~= u);
    } else if x[0] == '\\' {
        lemma_atoms_append(x.skip(2), u);
        assert((x + u).skip(2) =~= x.skip(2) + u);
        assert((x + u)[0] == x[0] && (x + u)[1] == x[1]);
    } else {
        lemma_atoms_append(x.skip(1), u);
        assert((x + u).skip(1) =~= x.skip(1) + u);
        assert((x + u)[0] == x[0]);
    }
}

/// What `--exact` puts between `^` and `$` is a run of literal atoms that
/// matches exactly the given text: every character that a regex would read
/// as syntax (brackets, parentheses, braces, `|`, `.`, `+`, `*`, `?`, `^`,
/// `$` and the backslash) comes escaped, and reading the atoms back gives
/// the text itself.
pub proof fn lemma_exact_escape_matches_only_the_text(s: Seq<char>)
    ensures
        literal_atoms(escape_regex_meta_spec(s)),
        atoms_text(escape_regex_meta_spec(s)) == s,
    decreases s.len(),
{
    if s.len() > 0 {
        let pre = s.drop_last();
        lemma_exact_escape_matches_only_the_text(pre);
        let c = s.last();
        let u: Seq<char> = if is_regex_meta(c) { seq!['\\', c] } else { seq![c] };
        if is_regex_meta(c) {
            assert(u.skip(2) =~= Seq::<char>::empty());
            assert(literal_atoms(u.skip(2)));
            assert(atoms_text(u.skip(2)) =~= Seq::<char>::empty());
            assert(atoms_text(u) =~= seq![c]);
        } else {
            assert(c != '\\');
            assert(u.skip(1) =~= Seq::<char>::empty());
            assert(literal_atoms(u.skip(1)));
            assert(atoms_text(u.skip(1)) =~= Seq::<char>::empty());
            assert(atoms_text(u) =~= seq![c]);
        }
        lemma_atoms_append(escape_regex_meta_spec(pre), u);
        assert(escape_regex_meta_spec(s) == escape_regex_meta_spec(pre) + u);
        assert(pre.push(c) =~= s);
    }
}

/// An `--exact` pattern becomes an anchored regex whose body matches
/// exactly the pattern's text: `regex:"^` + atoms + `$"`, where the atoms
/// are literal and read back to the text, so `report (1).pdf` matches that
/// name and no other.
pub proof fn lemma_exact_pattern_is_anchored_literal(raw: Seq<char>)
    requires
        raw.len() > 0,
        fragment_spec(raw, false, false, true) is Ok,
    ensures
        exists|e: Seq<char>| #[trigger] literal_atoms(e) && atoms_text(e) == raw
            && fragment_spec(raw, false, false, true) == Ok::<Seq<char>, GiveUpReason>("regex:\"^"@ + e + "$\""@),
{
    lemma_exact_escape_matches_only_the_text(raw);
    let e = escape_regex_meta_spec(raw);
    assert(literal_atoms(e) && atoms_text(e) == raw);
}

} // verus!
