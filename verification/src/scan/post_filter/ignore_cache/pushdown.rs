//! Static ignore-rule pushdown: a safe subset of root-level ignore rules
//! (`<dirname>/` and `/<dirname>/`) becomes index-query exclusions, so that
//! big ignored subtrees are never streamed to the post-filter.
//!
//! A rule qualifies only if it is not a negation, names one directory
//! level, and its name uses only `[A-Za-z0-9._+-]`. A name that some `!`
//! rule whitelists is left out. A case-sensitive query gets no pushdown at
//! all: the index's case switch is global to the query.

use vstd::prelude::*;
use crate::scan::backend::CaseModifier;
use crate::scan::backend::everything::query::{escape_regex_meta, escape_regex_meta_spec};
use crate::text;

verus! {

/// Shape of a rule that can be pushed down.
#[derive(Debug, Clone, PartialEq, Eq)]
pub enum RuleShape {
    /// `<dirname>/`: a directory of this name at any depth under the root.
    AnyDepth(String),
    /// `/<dirname>/`: a directory of this name directly under the root.
    RootOnly(String),
}

/// One pushdownable rule.
#[derive(Debug, Clone)]
pub struct GitignoreRule {
    pub shape: RuleShape,
}

/// A rule as contracts see it: whether it is anchored at the root, and the
/// directory name.
pub open spec fn rule_view(r: GitignoreRule) -> (bool, Seq<char>) {
    match r.shape {
        RuleShape::AnyDepth(s) => (false, s@),
        RuleShape::RootOnly(s) => (true, s@),
    }
}

pub open spec fn rules_view(rs: Seq<GitignoreRule>) -> Seq<(bool, Seq<char>)> {
    rs.map_values(|r: GitignoreRule| rule_view(r))
}

impl GitignoreRule {
    /// The directory name of the rule.
    fn dirname(&self) -> (r: &str)
        ensures
            r@ == rule_view(*self).1,
    {
        match &self.shape {
            RuleShape::AnyDepth(s) => s.as_str(),
            RuleShape::RootOnly(s) => s.as_str(),
        }
    }
}

/// Unicode `White_Space` (`char::is_whitespace`).
pub open spec fn is_white(c: char) -> bool {
    ||| '\u{9}' <= c <= '\u{d}'
    ||| c == ' ' || c == '\u{85}' || c == '\u{a0}' || c == '\u{1680}'
    ||| '\u{2000}' <= c <= '\u{200a}'
    ||| c == '\u{2028}' || c == '\u{2029}' || c == '\u{202f}' || c == '\u{205f}' || c == '\u{3000}'
}

pub open spec fn trim_start_spec(s: Seq<char>) -> Seq<char>
    decreases s.len(),
{
    if s.len() > 0 && is_white(s[0]) { trim_start_spec(s.drop_first()) } else { s }
}

pub open spec fn trim_end_spec(s: Seq<char>) -> Seq<char>
    decreases s.len(),
{
    if s.len() > 0 && is_white(s.last()) { trim_end_spec(s.drop_last()) } else { s }
}

/// `str::trim`.
pub open spec fn trim_spec(s: Seq<char>) -> Seq<char> {
    trim_end_spec(trim_start_spec(s))
}

/// A char allowed in a pushed-down directory name.
pub open spec fn rule_char(c: char) -> bool {
    ||| 'a' <= c <= 'z'
    ||| 'A' <= c <= 'Z'
    ||| '0' <= c <= '9'
    ||| c == '.' || c == '_' || c == '+' || c == '-'
}

/// A non-empty single-level directory name made of safe chars only.
pub open spec fn safe_dirname(dir: Seq<char>) -> bool {
    dir.len() > 0 && !dir.contains('/') && forall|i: int| 0 <= i < dir.len() ==> rule_char(#[trigger] dir[i])
}

/// The rule a raw ignore line gives, if it can be pushed down: anchored or
/// not, and the directory name.
pub open spec fn parse_rule_spec(raw: Seq<char>) -> Option<(bool, Seq<char>)> {
    let line = trim_spec(raw);
    if line.len() == 0 || line[0] == '#' || line[0] == '!' {
        None
    } else {
        let anchored = line[0] == '/';
        let body = if anchored { line.drop_first() } else { line };
        if body.len() == 0 || body.last() != '/' {
            None
        } else {
            let dir = body.drop_last();
            if !safe_dirname(dir) {
                None
            } else {
                Some((anchored, dir))
            }
        }
    }
}

fn is_white_exec(c: char) -> (b: bool)
    ensures
        b == is_white(c),
{
    ('\u{9}' <= c && c <= '\u{d}') || c == ' ' || c == '\u{85}' || c == '\u{a0}' || c == '\u{1680}'
        || ('\u{2000}' <= c && c <= '\u{200a}') || c == '\u{2028}' || c == '\u{2029}' || c == '\u{202f}'
        || c == '\u{205f}' || c == '\u{3000}'
}

/// Bounds `a..b` of `str::trim` of `s`.
pub(crate) fn trim_bounds(s: &Vec<char>) -> (r: (usize, usize))
    ensures
        r.0 <= r.1 <= s.len(),
        s@.subrange(r.0 as int, r.1 as int) == trim_spec(s@),
{
    let mut a: usize = 0;
    assert(s@.skip(0) =~= s@);
    while a < s.len() && is_white_exec(s[a])
        invariant
            a <= s.len(),
            trim_start_spec(s@) == trim_start_spec(s@.skip(a as int)),
        decreases s.len() - a,
    {
        assert(s@.skip(a as int).drop_first() =~= s@.skip(a + 1));
        a += 1;
    }
    let ghost st = s@.skip(a as int);
    assert(trim_start_spec(s@) == st);
    let mut b: usize = s.len();
    assert(st.take((b - a) as int) =~= st);
    while b > a && is_white_exec(s[b - 1])
        invariant
            a <= b <= s.len(),
            st == s@.skip(a as int),
            trim_end_spec(st) == trim_end_spec(st.take((b - a) as int)),
        decreases b,
    {
        assert(st.take((b - a) as int).drop_last() =~= st.take((b - a - 1) as int));
        assert(st.take((b - a) as int).last() == s@[b - 1]);
        b -= 1;
    }
    assert(s@.subrange(a as int, b as int) =~= st.take((b - a) as int));
    (a, b)
}

/// The pushdownable rule of one raw ignore line, or `None` where the line
/// is blank, a comment, a negation, or anything but a single safe directory
/// name followed by `/`.
pub fn parse_rule(raw: &str) -> (r: Option<GitignoreRule>)
    ensures
        match r {
            Some(rule) => parse_rule_spec(raw@) == Some(rule_view(rule)),
            None => parse_rule_spec(raw@).is_none(),
        },
{
    let cs = text::chars_of(raw);
    let (a, b) = trim_bounds(&cs);
    let ghost line = trim_spec(raw@);
    if a == b || cs[a] == '#' || cs[a] == '!' {
        assert(a < b ==> line[0] == cs@[a as int]);
        return None;
    }
    assert(line[0] == cs@[a as int]);
    let anchored = cs[a] == '/';
    let start: usize = if anchored { a + 1 } else { a };
    let ghost body = if anchored { line.drop_first() } else { line };
    assert(body =~= cs@.subrange(start as int, b as int));
    if start == b || cs[b - 1] != '/' {
        return None;
    }
    let end: usize = b - 1;
    let ghost dir = body.drop_last();
    assert(dir =~= cs@.subrange(start as int, end as int));
    if start == end {
        return None;
    }
    let ghost expect = if !safe_dirname(dir) {
        None::<(bool, Seq<char>)>
    } else {
        Some((anchored, dir))
    };
    assert(line.len() > 0 && line[0] != '#' && line[0] != '!');
    assert(anchored == (line[0] == '/'));
    assert(body.len() > 0 && body.last() == '/');
    assert(parse_rule_spec(raw@) == expect);
    let mut i: usize = start;
    while i < end
        invariant
            parse_rule_spec(raw@) == expect,
            expect == if !safe_dirname(dir) {
                None::<(bool, Seq<char>)>
            } else {
                Some((anchored, dir))
            },
            start <= i <= end,
            end < cs.len(),
            dir =~= cs@.subrange(start as int, end as int),
            forall|j: int| 0 <= j < i - start ==> rule_char(#[trigger] dir[j]),
        decreases end - i,
    {
        let c = cs[i];
        assert(dir[i - start] == c);
        if !(('a' <= c && c <= 'z') || ('A' <= c && c <= 'Z') || ('0' <= c && c <= '9') || c == '.' || c == '_'
            || c == '+' || c == '-')
        {
            assert(!rule_char(dir[i - start]));
            return None;
        }
        i += 1;
    }
    assert(!dir.contains('/')) by {
        if dir.contains('/') {
            let j = choose|j: int| 0 <= j < dir.len() && dir[j] == '/';
            assert(rule_char(dir[j]));
        }
    }
    let name = text::string_of_range(&cs, start, end);
    let shape = if anchored { RuleShape::RootOnly(name) } else { RuleShape::AnyDepth(name) };
    Some(GitignoreRule { shape })
}

/// ASCII case folding of one char.
pub open spec fn ascii_lower(c: char) -> char {
    if 'A' <= c <= 'Z' { ((c as u32) + 32) as char } else { c }
}

/// `str::eq_ignore_ascii_case`.
pub open spec fn eq_ignore_case_spec(a: Seq<char>, b: Seq<char>) -> bool {
    a.len() == b.len() && forall|i: int| 0 <= i < a.len() ==> ascii_lower(#[trigger] a[i]) == ascii_lower(b[i])
}

fn ascii_lower_exec(c: char) -> (r: char)
    ensures
        r == ascii_lower(c),
{
    if 'A' <= c && c <= 'Z' {
        let n: u32 = c as u32;
        assert(65 <= n <= 90);
        let b: u8 = (n + 32) as u8;
        let r = b as char;
        assert(r == ((c as u32) + 32) as char);
        r
    } else {
        c
    }
}

pub(crate) fn eq_ignore_case(a: &str, b: &str) -> (r: bool)
    ensures
        r == eq_ignore_case_spec(a@, b@),
{
    let x = text::chars_of(a);
    let y = text::chars_of(b);
    if x.len() != y.len() {
        return false;
    }
    let mut i: usize = 0;
    while i < x.len()
        invariant
            x@ == a@,
            y@ == b@,
            x.len() == y.len(),
            i <= x.len(),
            forall|j: int| 0 <= j < i ==> ascii_lower(#[trigger] x@[j]) == ascii_lower(y@[j]),
        decreases x.len() - i,
    {
        if ascii_lower_exec(x[i]) != ascii_lower_exec(y[i]) {
            return false;
        }
        i += 1;
    }
    true
}

/// Backslash before every regex metacharacter.
fn regex_escape_literal(s: &str) -> (r: String)
    ensures
        r@ == escape_regex_meta_spec(s@),
{
    escape_regex_meta(s)
}

/// The query fragment that excludes one rule's subtrees under `root`.
pub open spec fn pushdown_fragment(root: Seq<char>, rule: (bool, Seq<char>)) -> Seq<char> {
    let r = escape_regex_meta_spec(root);
    let d = escape_regex_meta_spec(rule.1);
    if rule.0 {
        "!regex:^"@ + r + "[\\\\/]"@ + d + "(?:[\\\\/]|$)"@
    } else {
        "!regex:^"@ + r + "([\\\\/].*)?[\\\\/]"@ + d + "(?:[\\\\/]|$)"@
    }
}

/// Whether some whitelisted name equals `name` up to ASCII case.
pub open spec fn whitelisted(wl: Seq<Seq<char>>, name: Seq<char>) -> bool {
    exists|k: int| 0 <= k < wl.len() && eq_ignore_case_spec(#[trigger] wl[k], name)
}

/// The fragments of `rules` in order, leaving out whitelisted names.
pub open spec fn pushdown_fragments(root: Seq<char>, rules: Seq<(bool, Seq<char>)>, wl: Seq<Seq<char>>) -> Seq<Seq<char>>
    decreases rules.len(),
{
    if rules.len() == 0 {
        Seq::empty()
    } else {
        let prev = pushdown_fragments(root, rules.drop_last(), wl);
        if whitelisted(wl, rules.last().1) { prev } else { prev.push(pushdown_fragment(root, rules.last())) }
    }
}

pub open spec fn strings_view(v: Seq<String>) -> Seq<Seq<char>> {
    v.map_values(|s: String| s@)
}

/// Index-query exclusions for `rules`, anchored at `repo_root`: none for a
/// case-sensitive query, otherwise one per rule whose name no whitelist
/// entry matches (ignoring ASCII case), in rule order.
pub fn compile_static_ignore_pushdown(
    repo_root: &str,
    rules: &[GitignoreRule],
    whitelisted_dirnames: &[String],
    case_modifier: CaseModifier,
) -> (r: Vec<String>)
    ensures
        case_modifier == CaseModifier::Case ==> r@.len() == 0,
        case_modifier == CaseModifier::Nocase ==> strings_view(r@) == pushdown_fragments(
            repo_root@,
            rules_view(rules@),
            strings_view(whitelisted_dirnames@),
        ),
{
    let mut out: Vec<String> = Vec::new();
    if case_modifier == CaseModifier::Case {
        return out;
    }
    let ghost rv = rules_view(rules@);
    let ghost wl = strings_view(whitelisted_dirnames@);
    if rules.len() == 0 {
        assert(rv =~= Seq::<(bool, Seq<char>)>::empty());
        assert(strings_view(out@) =~= Seq::<Seq<char>>::empty());
        return out;
    }
    let root_regex = regex_escape_literal(repo_root);
    let mut i: usize = 0;
    assert(rv.take(0) =~= Seq::<(bool, Seq<char>)>::empty());
    assert(strings_view(out@) =~= Seq::<Seq<char>>::empty());
    while i < rules.len()
        invariant
            rv == rules_view(rules@),
            wl == strings_view(whitelisted_dirnames@),
            i <= rules.len(),
            root_regex@ == escape_regex_meta_spec(repo_root@),
            strings_view(out@) == pushdown_fragments(repo_root@, rv.take(i as int), wl),
        decreases rules.len() - i,
    {
        let rule = &rules[i];
        let name = rule.dirname();
        assert(rv.take(i + 1).drop_last() =~= rv.take(i as int));
        assert(rv.take(i + 1).last() == rule_view(*rule));
        let mut skip = false;
        let mut k: usize = 0;
        while k < whitelisted_dirnames.len()
            invariant
                wl == strings_view(whitelisted_dirnames@),
                k <= whitelisted_dirnames.len(),
                skip == exists|j: int| 0 <= j < k && eq_ignore_case_spec(#[trigger] wl[j], name@),
            decreases whitelisted_dirnames.len() - k,
        {
            assert(wl[k as int] == whitelisted_dirnames@[k as int]@);
            if eq_ignore_case(whitelisted_dirnames[k].as_str(), name) {
                skip = true;
            }
            k += 1;
        }
        if !skip {
            let dir_re = regex_escape_literal(name);
            let mut frag = String::new();
            text::push_str(&mut frag, "!regex:^");
            text::push_str(&mut frag, root_regex.as_str());
            match &rule.shape {
                RuleShape::AnyDepth(_) => {
                    text::push_str(&mut frag, "([\\\\/].*)?[\\\\/]");
                },
                RuleShape::RootOnly(_) => {
                    text::push_str(&mut frag, "[\\\\/]");
                },
            }
            text::push_str(&mut frag, dir_re.as_str());
            text::push_str(&mut frag, "(?:[\\\\/]|$)");
            assert(frag@ =~= pushdown_fragment(repo_root@, rule_view(*rule)));
            let ghost prev = strings_view(out@);
            out.push(frag);
            assert(strings_view(out@) =~= prev.push(pushdown_fragment(repo_root@, rule_view(*rule))));
        }
        i += 1;
    }
    assert(rv.take(rules.len() as int) =~= rv);
    out
}

/// Every pushed-down fragment is anchored at the repository root, so that
/// rules of one repository cannot exclude paths of another.
pub proof fn lemma_fragments_anchor_at_root(root: Seq<char>, rules: Seq<(bool, Seq<char>)>, wl: Seq<Seq<char>>)
    ensures
        forall|i: int| 0 <= i < pushdown_fragments(root, rules, wl).len() ==> {
            let f = #[trigger] pushdown_fragments(root, rules, wl)[i];
            let head = "!regex:^"@ + escape_regex_meta_spec(root);
            f.len() >= head.len() && f.take(head.len() as int) == head
        },
    decreases rules.len(),
{
    if rules.len() > 0 {
        lemma_fragments_anchor_at_root(root, rules.drop_last(), wl);
        let prev = pushdown_fragments(root, rules.drop_last(), wl);
        let head = "!regex:^"@ + escape_regex_meta_spec(root);
        let f = pushdown_fragment(root, rules.last());
        let d = escape_regex_meta_spec(rules.last().1);
        if rules.last().0 {
            assert(f =~= head + ("[\\\\/]"@ + d + "(?:[\\\\/]|$)"@));
        } else {
            assert(f =~= head + ("([\\\\/].*)?[\\\\/]"@ + d + "(?:[\\\\/]|$)"@));
        }
        assert(f.take(head.len() as int) =~= head);
        let all = pushdown_fragments(root, rules, wl);
        assert forall|i: int| 0 <= i < all.len() implies {
            let g = #[trigger] all[i];
            g.len() >= head.len() && g.take(head.len() as int) == head
        } by {
            if i < prev.len() {
                assert(all[i] == prev[i]);
            }
        }
    }
}

/// Each rule gives one fragment unless its name is whitelisted: with no
/// name whitelisted there is one fragment per rule, and with every name
/// whitelisted there is none.
pub proof fn lemma_whitelist_drops_rules(root: Seq<char>, rules: Seq<(bool, Seq<char>)>, wl: Seq<Seq<char>>)
    ensures
        pushdown_fragments(root, rules, wl).len() <= rules.len(),
        (forall|i: int| 0 <= i < rules.len() ==> !whitelisted(wl, (#[trigger] rules[i]).1))
            ==> pushdown_fragments(root, rules, wl).len() == rules.len(),
        (forall|i: int| 0 <= i < rules.len() ==> whitelisted(wl, (#[trigger] rules[i]).1))
            ==> pushdown_fragments(root, rules, wl).len() == 0,
    decreases rules.len(),
{
    if rules.len() > 0 {
        let pre = rules.drop_last();
        lemma_whitelist_drops_rules(root, pre, wl);
        assert(forall|i: int| 0 <= i < pre.len() ==> pre[i] == rules[i]);
        assert(rules.last() == rules[rules.len() - 1]);
    }
}

} // verus!
