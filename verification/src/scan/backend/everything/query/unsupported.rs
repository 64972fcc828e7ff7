//! Decide whether a regex can be handed to the index's `regex:` engine, or
//! whether the query must fall back to walking the file system.
//!
//! The pattern is parsed by `regex-syntax`; its syntax tree is read through
//! the `RegexNode` shape below and scanned for constructs the index engine
//! evaluates differently. A pattern that `regex-syntax` cannot parse is
//! accepted, so that the index engine reports the error itself.

use vstd::prelude::*;
use regex_syntax::ast::{AssertionKind, Ast, ClassSet, ClassSetItem, Flag, Flags, FlagsItemKind, GroupKind};

verus! {

/// Deepest syntax-tree nesting handed to the index engine.
pub const MAX_AST_DEPTH: usize = 16;

/// One named incompatibility.
#[derive(Debug, Clone, Copy, PartialEq, Eq, Structural)]
pub enum RejectReason {
    /// The pattern holds `"`, which cannot sit inside the quoted `regex:"..."` term.
    QueryQuote,
    /// `\p{...}` / `\P{...}` Unicode property class.
    UnicodeProperty,
    /// `\b` `\B` `\w` `\W` `\d` `\D` `\s` `\S` (Unicode-aware).
    UnicodeAwarePerlClassOrBoundary,
    /// `\A`, `\z` and other anchors besides `^` and `$`.
    UnsupportedAnchor,
    /// A global `(?m)`, `(?s)`, `(?x)`, `(?u)`, `(?U)` or `(?R)` flag.
    UnsupportedFlag,
    /// A scoped flag group such as `(?i:...)`.
    ScopedCaseFlag,
    /// Nesting deeper than `MAX_AST_DEPTH`.
    NestingTooDeep,
    /// A backreference.
    Backreference,
    /// A lookaround.
    Lookaround,
}

// ---------------------------------------------------------------------------
// The syntax tree, as this module reads it
// ---------------------------------------------------------------------------

#[derive(Debug, Clone, Copy, PartialEq, Eq, Structural)]
pub enum RegexFlag {
    CaseInsensitive,
    MultiLine,
    DotMatchesNewLine,
    SwapGreed,
    Unicode,
    CRLF,
    IgnoreWhitespace,
}

#[derive(Debug, Clone, Copy, PartialEq, Eq, Structural)]
pub enum FlagItem {
    Negation,
    Flag(RegexFlag),
}

#[derive(Debug, Clone, Copy, PartialEq, Eq, Structural)]
pub enum AssertionShape {
    StartLine,
    EndLine,
    StartText,
    EndText,
    WordBoundary,
    NotWordBoundary,
    /// Any other assertion kind (half or angle word boundaries).
    Other,
}

#[derive(Debug)]
pub enum GroupShape {
    /// A capturing group, by index or by name.
    Capture,
    /// `(?flags:...)`.
    NonCapturing(Vec<FlagItem>),
}

#[derive(Debug)]
pub enum ClassItemNode {
    Empty,
    Literal,
    Range,
    Ascii,
    Unicode,
    Perl,
    Bracketed(Box<ClassSetNode>),
    Union(Vec<ClassItemNode>),
}

#[derive(Debug)]
pub enum ClassSetNode {
    Item(ClassItemNode),
    BinaryOp(Box<ClassSetNode>, Box<ClassSetNode>),
}

#[derive(Debug)]
pub enum RegexNode {
    Empty,
    Literal,
    Dot,
    Assertion(AssertionShape),
    ClassUnicode,
    ClassPerl,
    ClassBracketed(ClassSetNode),
    Repetition(Box<RegexNode>),
    Group(GroupShape, Box<RegexNode>),
    Alternation(Vec<RegexNode>),
    Concat(Vec<RegexNode>),
    Flags(Vec<FlagItem>),
}

/// The syntax tree `regex-syntax` parses `pattern` into, or `None` when it
/// reports a parse error.
pub uninterp spec fn regex_syntax_parse(pattern: Seq<char>) -> Option<RegexNode>;

// ---------------------------------------------------------------------------
// The scan, as a specification
// ---------------------------------------------------------------------------

/// The assertion check: `^` and `$` pass; `\A`/`\z` and unknown anchors are
/// unsupported; word boundaries are Unicode-aware.
pub open spec fn assertion_verdict(a: AssertionShape) -> Option<RejectReason> {
    match a {
        AssertionShape::StartLine | AssertionShape::EndLine => None,
        AssertionShape::WordBoundary | AssertionShape::NotWordBoundary => Some(RejectReason::UnicodeAwarePerlClassOrBoundary),
        _ => Some(RejectReason::UnsupportedAnchor),
    }
}

/// A global flag set: any flag but case-insensitivity is unsupported.
pub open spec fn global_flags_verdict(items: Seq<FlagItem>) -> Option<RejectReason> {
    if exists|k: int| 0 <= k < items.len() && (#[trigger] items[k] matches FlagItem::Flag(f) && f != RegexFlag::CaseInsensitive) {
        Some(RejectReason::UnsupportedFlag)
    } else {
        None
    }
}

/// A scoped flag group: any flag at all is unsupported.
pub open spec fn scoped_flags_problematic(items: Seq<FlagItem>) -> bool {
    exists|k: int| 0 <= k < items.len() && #[trigger] items[k] is Flag
}

pub open spec fn scan_node(n: RegexNode, depth: int) -> Option<RejectReason>
    decreases MAX_AST_DEPTH + 1 - depth, 1int, 0int,
{
    if depth > MAX_AST_DEPTH {
        Some(RejectReason::NestingTooDeep)
    } else {
        match n {
            RegexNode::Empty | RegexNode::Literal | RegexNode::Dot => None,
            RegexNode::Assertion(a) => assertion_verdict(a),
            RegexNode::ClassPerl => Some(RejectReason::UnicodeAwarePerlClassOrBoundary),
            RegexNode::ClassUnicode => Some(RejectReason::UnicodeProperty),
            RegexNode::ClassBracketed(set) => scan_set(set, depth + 1),
            RegexNode::Repetition(inner) => scan_node(*inner, depth + 1),
            RegexNode::Concat(v) => scan_nodes(v@, depth),
            RegexNode::Alternation(v) => scan_nodes(v@, depth),
            RegexNode::Group(shape, inner) => match shape {
                GroupShape::NonCapturing(flags) => if scoped_flags_problematic(flags@) {
                    Some(RejectReason::ScopedCaseFlag)
                } else {
                    scan_node(*inner, depth + 1)
                },
                GroupShape::Capture => scan_node(*inner, depth + 1),
            },
            RegexNode::Flags(items) => global_flags_verdict(items@),
        }
    }
}

/// The children of a concatenation or alternation, in order, each one level
/// deeper; the first rejection wins.
pub open spec fn scan_nodes(ns: Seq<RegexNode>, depth: int) -> Option<RejectReason>
    decreases MAX_AST_DEPTH + 1 - depth, 0int, ns.len(),
{
    if ns.len() == 0 || depth > MAX_AST_DEPTH {
        None
    } else {
        match scan_nodes(ns.drop_last(), depth) {
            Some(e) => Some(e),
            None => scan_node(ns.last(), depth + 1),
        }
    }
}

pub open spec fn scan_set(s: ClassSetNode, depth: int) -> Option<RejectReason>
    decreases MAX_AST_DEPTH + 1 - depth, 1int, 0int,
{
    if depth > MAX_AST_DEPTH {
        Some(RejectReason::NestingTooDeep)
    } else {
        match s {
            ClassSetNode::Item(item) => scan_item(item, depth + 1),
            ClassSetNode::BinaryOp(lhs, rhs) => match scan_set(*lhs, depth + 1) {
                Some(e) => Some(e),
                None => scan_set(*rhs, depth + 1),
            },
        }
    }
}

pub open spec fn scan_item(item: ClassItemNode, depth: int) -> Option<RejectReason>
    decreases MAX_AST_DEPTH + 1 - depth, 1int, 0int,
{
    if depth > MAX_AST_DEPTH {
        Some(RejectReason::NestingTooDeep)
    } else {
        match item {
            ClassItemNode::Empty | ClassItemNode::Literal | ClassItemNode::Range | ClassItemNode::Ascii => None,
            ClassItemNode::Unicode => Some(RejectReason::UnicodeProperty),
            ClassItemNode::Perl => Some(RejectReason::UnicodeAwarePerlClassOrBoundary),
            ClassItemNode::Bracketed(set) => scan_set(*set, depth + 1),
            ClassItemNode::Union(items) => scan_items(items@, depth),
        }
    }
}

pub open spec fn scan_items(items: Seq<ClassItemNode>, depth: int) -> Option<RejectReason>
    decreases MAX_AST_DEPTH + 1 - depth, 0int, items.len(),
{
    if items.len() == 0 || depth > MAX_AST_DEPTH {
        None
    } else {
        match scan_items(items.drop_last(), depth) {
            Some(e) => Some(e),
            None => scan_item(items.last(), depth + 1),
        }
    }
}

/// The verdict on a raw pattern: a `"` rejects it outright; otherwise the
/// parsed tree is scanned, and an unparseable pattern passes.
pub open spec fn regex_verdict(pattern: Seq<char>) -> Option<RejectReason> {
    if pattern.contains('"') {
        Some(RejectReason::QueryQuote)
    } else {
        match regex_syntax_parse(pattern) {
            None => None,
            Some(ast) => scan_node(ast, 0),
        }
    }
}

// ---------------------------------------------------------------------------
// Reading the `regex-syntax` tree
// ---------------------------------------------------------------------------

#[verifier::external_type_specification]
#[verifier::external_body]
pub struct ExAst(Ast);

#[verifier::external_type_specification]
#[verifier::external_body]
pub struct ExClassSet(ClassSet);

#[verifier::external_type_specification]
#[verifier::external_body]
pub struct ExClassSetItem(ClassSetItem);

#[verifier::external_type_specification]
#[verifier::external_body]
pub struct ExFlags(Flags);

#[verifier::external_type_specification]
#[verifier::external_body]
pub struct ExFlagsItemKind(FlagsItemKind);

#[verifier::external_type_specification]
#[verifier::external_body]
pub struct ExAssertionKind(AssertionKind);

#[verifier::external_type_specification]
#[verifier::external_body]
pub struct ExFlag(Flag);

#[verifier::external_type_specification]
#[verifier::external_body]
pub struct ExGroupKind(GroupKind);

/// `regex_syntax::ast::parse::Parser::parse`: claims that the tree handed
/// back is `regex_syntax_parse(pattern)`, the tree `regex-syntax` parses the
/// pattern into (read through `RegexNode`), and `None` exactly when it
/// reports a parse error; the empty pattern parses to the empty node.
#[verifier::external_body]
fn parse_regex(pattern: &str) -> (r: Option<RegexNode>)
    ensures
        r == regex_syntax_parse(pattern@),
        pattern@.len() == 0 ==> r == Some(RegexNode::Empty),
{
    match regex_syntax::ast::parse::Parser::new().parse(pattern) {
        Ok(ast) => Some(node_of(&ast)),
        Err(_) => None,
    }
}

/// One `regex_syntax::ast::Ast` node as a `RegexNode`, variant for variant:
/// the nodes with children here, the others in `leaf_node_of`.
#[verifier::external_body]
fn node_of(ast: &Ast) -> RegexNode {
    match ast {
        Ast::Repetition(r) => RegexNode::Repetition(boxed_node_of(&r.ast)),
        Ast::Group(g) => RegexNode::Group(group_of(&g.kind), boxed_node_of(&g.ast)),
        Ast::Alternation(a) => RegexNode::Alternation(nodes_of(&a.asts)),
        Ast::Concat(c) => RegexNode::Concat(nodes_of(&c.asts)),
        _ => leaf_node_of(ast),
    }
}

/// A `regex_syntax::ast::Ast` node without child nodes as a `RegexNode`;
/// the other variants go back to `node_of`.
#[verifier::external_body]
fn leaf_node_of(ast: &Ast) -> RegexNode {
    match ast {
        Ast::Empty(_) => RegexNode::Empty,
        Ast::Flags(f) => RegexNode::Flags(flag_items_of(&f.flags)),
        Ast::Literal(_) => RegexNode::Literal,
        Ast::Dot(_) => RegexNode::Dot,
        Ast::Assertion(a) => RegexNode::Assertion(assertion_of(&a.kind)),
        Ast::ClassUnicode(_) => RegexNode::ClassUnicode,
        Ast::ClassPerl(_) => RegexNode::ClassPerl,
        Ast::ClassBracketed(b) => RegexNode::ClassBracketed(class_set_of(&b.kind)),
        _ => node_of(ast),
    }
}

/// A boxed `regex_syntax::ast::Ast` child as a boxed `RegexNode`.
#[verifier::external_body]
fn boxed_node_of(ast: &Ast) -> Box<RegexNode> {
    Box::new(node_of(ast))
}

/// A list of `regex_syntax::ast::Ast` children as `RegexNode`s, in order.
#[verifier::external_body]
fn nodes_of(asts: &[Ast]) -> Vec<RegexNode> {
    asts.iter().map(node_of).collect()
}

/// A `regex_syntax::ast::AssertionKind` as an `AssertionShape`.
#[verifier::external_body]
fn assertion_of(k: &AssertionKind) -> AssertionShape {
    match k {
        AssertionKind::StartLine => AssertionShape::StartLine,
        AssertionKind::EndLine => AssertionShape::EndLine,
        AssertionKind::StartText => AssertionShape::StartText,
        AssertionKind::EndText => AssertionShape::EndText,
        AssertionKind::WordBoundary => AssertionShape::WordBoundary,
        AssertionKind::NotWordBoundary => AssertionShape::NotWordBoundary,
        _ => AssertionShape::Other,
    }
}

/// A `regex_syntax::ast::GroupKind` as a `GroupShape`.
#[verifier::external_body]
fn group_of(k: &GroupKind) -> GroupShape {
    match k {
        GroupKind::CaptureIndex(_) => GroupShape::Capture,
        GroupKind::CaptureName { .. } => GroupShape::Capture,
        GroupKind::NonCapturing(f) => GroupShape::NonCapturing(flag_items_of(f)),
    }
}

/// The items of a `regex_syntax::ast::Flags`, in order.
#[verifier::external_body]
fn flag_items_of(f: &Flags) -> Vec<FlagItem> {
    f.items.iter().map(|i| flag_item_of(&i.kind)).collect()
}

/// A `regex_syntax::ast::FlagsItemKind` as a `FlagItem`.
#[verifier::external_body]
fn flag_item_of(k: &FlagsItemKind) -> FlagItem {
    match k {
        FlagsItemKind::Negation => FlagItem::Negation,
        FlagsItemKind::Flag(f) => FlagItem::Flag(flag_of(f)),
    }
}

/// A `regex_syntax::ast::Flag` as a `RegexFlag`.
#[verifier::external_body]
fn flag_of(f: &Flag) -> RegexFlag {
    match f {
        Flag::CaseInsensitive => RegexFlag::CaseInsensitive,
        Flag::MultiLine => RegexFlag::MultiLine,
        Flag::DotMatchesNewLine => RegexFlag::DotMatchesNewLine,
        Flag::SwapGreed => RegexFlag::SwapGreed,
        Flag::Unicode => RegexFlag::Unicode,
        Flag::CRLF => RegexFlag::CRLF,
        Flag::IgnoreWhitespace => RegexFlag::IgnoreWhitespace,
    }
}

/// A `regex_syntax::ast::ClassSet` as a `ClassSetNode`.
#[verifier::external_body]
fn class_set_of(s: &ClassSet) -> ClassSetNode {
    match s {
        ClassSet::Item(i) => ClassSetNode::Item(class_item_of(i)),
        ClassSet::BinaryOp(op) => ClassSetNode::BinaryOp(Box::new(class_set_of(&op.lhs)), Box::new(class_set_of(&op.rhs))),
    }
}

/// A `regex_syntax::ast::ClassSetItem` as a `ClassItemNode`.
#[verifier::external_body]
fn class_item_of(i: &ClassSetItem) -> ClassItemNode {
    match i {
        ClassSetItem::Empty(_) => ClassItemNode::Empty,
        ClassSetItem::Literal(_) => ClassItemNode::Literal,
        ClassSetItem::Range(_) => ClassItemNode::Range,
        ClassSetItem::Ascii(_) => ClassItemNode::Ascii,
        ClassSetItem::Unicode(_) => ClassItemNode::Unicode,
        ClassSetItem::Perl(_) => ClassItemNode::Perl,
        ClassSetItem::Bracketed(b) => ClassItemNode::Bracketed(Box::new(class_set_of(&b.kind))),
        ClassSetItem::Union(u) => ClassItemNode::Union(u.items.iter().map(class_item_of).collect()),
    }
}

// ---------------------------------------------------------------------------
// The scan
// ---------------------------------------------------------------------------

/// An executable verdict agrees with a specified one: `Ok` for `None`,
/// `Err(e)` for `Some(e)`.
pub open spec fn verdict_matches(r: Result<(), RejectReason>, v: Option<RejectReason>) -> bool {
    match r {
        Ok(_) => v is None,
        Err(e) => v == Some(e),
    }
}

fn classify_assertion(a: AssertionShape) -> (r: Result<(), RejectReason>)
    ensures
        verdict_matches(r, assertion_verdict(a)),
{
    match a {
        AssertionShape::StartLine | AssertionShape::EndLine => Ok(()),
        AssertionShape::WordBoundary | AssertionShape::NotWordBoundary => Err(RejectReason::UnicodeAwarePerlClassOrBoundary),
        _ => Err(RejectReason::UnsupportedAnchor),
    }
}

fn flags_set_contains_problematic(items: &Vec<FlagItem>) -> (r: bool)
    ensures
        r == scoped_flags_problematic(items@),
{
    let mut k: usize = 0;
    while k < items.len()
        invariant
            k <= items.len(),
            forall|j: int| 0 <= j < k ==> !(#[trigger] items@[j] is Flag),
        decreases items.len() - k,
    {
        if let FlagItem::Flag(_) = items[k] {
            return true;
        }
        k += 1;
    }
    false
}

fn global_flags(items: &Vec<FlagItem>) -> (r: Result<(), RejectReason>)
    ensures
        verdict_matches(r, global_flags_verdict(items@)),
{
    let mut k: usize = 0;
    while k < items.len()
        invariant
            k <= items.len(),
            forall|j: int| 0 <= j < k ==> !(#[trigger] items@[j] matches FlagItem::Flag(f) && f != RegexFlag::CaseInsensitive),
        decreases items.len() - k,
    {
        match items[k] {
            FlagItem::Flag(f) => {
                if f != RegexFlag::CaseInsensitive {
                    return Err(RejectReason::UnsupportedFlag);
                }
            },
            FlagItem::Negation => {},
        }
        k += 1;
    }
    Ok(())
}

/// The first construct of the parsed pattern `n` that the index cannot run,
/// reading `n` as standing `depth` levels below the top; `NestingTooDeep`
/// once the nesting passes the limit.
pub fn scan_ast(n: &RegexNode, depth: usize) -> (r: Result<(), RejectReason>)
    ensures
        verdict_matches(r, scan_node(*n, depth as int)),
{
    if depth > MAX_AST_DEPTH {
        return Err(RejectReason::NestingTooDeep);
    }
    scan_within(n, depth)
}

fn scan_within(n: &RegexNode, depth: usize) -> (r: Result<(), RejectReason>)
    requires
        depth <= MAX_AST_DEPTH + 1,
    ensures
        verdict_matches(r, scan_node(*n, depth as int)),
    decreases MAX_AST_DEPTH + 1 - depth, 1int, 0int,
{
    if depth > MAX_AST_DEPTH {
        return Err(RejectReason::NestingTooDeep);
    }
    match n {
        RegexNode::Empty | RegexNode::Literal | RegexNode::Dot => Ok(()),
        RegexNode::Assertion(a) => classify_assertion(*a),
        RegexNode::ClassPerl => Err(RejectReason::UnicodeAwarePerlClassOrBoundary),
        RegexNode::ClassUnicode => Err(RejectReason::UnicodeProperty),
        RegexNode::ClassBracketed(set) => scan_class_set(set, depth + 1),
        RegexNode::Repetition(inner) => scan_within(inner, depth + 1),
        RegexNode::Concat(v) => scan_list(v, depth),
        RegexNode::Alternation(v) => scan_list(v, depth),
        RegexNode::Group(shape, inner) => match shape {
            GroupShape::NonCapturing(flags) => {
                if flags_set_contains_problematic(flags) {
                    Err(RejectReason::ScopedCaseFlag)
                } else {
                    scan_within(inner, depth + 1)
                }
            },
            GroupShape::Capture => scan_within(inner, depth + 1),
        },
        RegexNode::Flags(items) => global_flags(items),
    }
}

fn scan_list(v: &Vec<RegexNode>, depth: usize) -> (r: Result<(), RejectReason>)
    requires
        depth <= MAX_AST_DEPTH,
    ensures
        verdict_matches(r, scan_nodes(v@, depth as int)),
    decreases MAX_AST_DEPTH + 1 - depth, 0int, v@.len(),
{
    let mut k: usize = 0;
    while k < v.len()
        invariant
            depth <= MAX_AST_DEPTH,
            k <= v.len(),
            scan_nodes(v@.take(k as int), depth as int) is None,
        decreases v.len() - k,
    {
        assert(v@.take(k + 1).drop_last() =~= v@.take(k as int));
        assert(v@.take(k + 1).last() == v@[k as int]);
        let r = scan_within(&v[k], depth + 1);
        assert(verdict_matches(r, scan_node(v@[k as int], depth + 1)));
        if let Err(e) = r {
            proof {
                lemma_scan_nodes_prefix_err(v@, k as int, depth as int);
            }
            return Err(e);
        }
        assert(scan_nodes(v@.take(k + 1), depth as int) is None);
        k += 1;
    }
    assert(v@.take(k as int) =~= v@);
    Ok(())
}

proof fn lemma_scan_nodes_prefix_err(v: Seq<RegexNode>, k: int, depth: int)
    requires
        0 <= k < v.len(),
        depth <= MAX_AST_DEPTH,
        scan_nodes(v.take(k + 1), depth) is Some,
    ensures
        scan_nodes(v, depth) == scan_nodes(v.take(k + 1), depth),
    decreases v.len() - k,
{
    if k + 1 < v.len() {
        assert(v.drop_last().take(k + 1) =~= v.take(k + 1));
        lemma_scan_nodes_prefix_err(v.drop_last(), k, depth);
    } else {
        assert(v.take(k + 1) =~= v);
    }
}

proof fn lemma_scan_items_prefix_err(v: Seq<ClassItemNode>, k: int, depth: int)
    requires
        0 <= k < v.len(),
        depth <= MAX_AST_DEPTH,
        scan_items(v.take(k + 1), depth) is Some,
    ensures
        scan_items(v, depth) == scan_items(v.take(k + 1), depth),
    decreases v.len() - k,
{
    if k + 1 < v.len() {
        assert(v.drop_last().take(k + 1) =~= v.take(k + 1));
        lemma_scan_items_prefix_err(v.drop_last(), k, depth);
    } else {
        assert(v.take(k + 1) =~= v);
    }
}

fn scan_class_set(s: &ClassSetNode, depth: usize) -> (r: Result<(), RejectReason>)
    requires
        depth <= MAX_AST_DEPTH + 1,
    ensures
        verdict_matches(r, scan_set(*s, depth as int)),
    decreases MAX_AST_DEPTH + 1 - depth, 1int, 0int,
{
    if depth > MAX_AST_DEPTH {
        return Err(RejectReason::NestingTooDeep);
    }
    match s {
        ClassSetNode::Item(item) => scan_class_item(item, depth + 1),
        ClassSetNode::BinaryOp(lhs, rhs) => {
            let l = scan_class_set(lhs, depth + 1);
            if let Err(e) = l {
                return Err(e);
            }
            scan_class_set(rhs, depth + 1)
        },
    }
}

fn scan_class_item(item: &ClassItemNode, depth: usize) -> (r: Result<(), RejectReason>)
    requires
        depth <= MAX_AST_DEPTH + 1,
    ensures
        verdict_matches(r, scan_item(*item, depth as int)),
    decreases MAX_AST_DEPTH + 1 - depth, 1int, 0int,
{
    if depth > MAX_AST_DEPTH {
        return Err(RejectReason::NestingTooDeep);
    }
    match item {
        ClassItemNode::Empty | ClassItemNode::Literal | ClassItemNode::Range | ClassItemNode::Ascii => Ok(()),
        ClassItemNode::Unicode => Err(RejectReason::UnicodeProperty),
        ClassItemNode::Perl => Err(RejectReason::UnicodeAwarePerlClassOrBoundary),
        ClassItemNode::Bracketed(set) => scan_class_set(set, depth + 1),
        ClassItemNode::Union(items) => scan_class_items(items, depth),
    }
}

fn scan_class_items(v: &Vec<ClassItemNode>, depth: usize) -> (r: Result<(), RejectReason>)
    requires
        depth <= MAX_AST_DEPTH,
    ensures
        verdict_matches(r, scan_items(v@, depth as int)),
    decreases MAX_AST_DEPTH + 1 - depth, 0int, v@.len(),
{
    let mut k: usize = 0;
    while k < v.len()
        invariant
            depth <= MAX_AST_DEPTH,
            k <= v.len(),
            scan_items(v@.take(k as int), depth as int) is None,
        decreases v.len() - k,
    {
        assert(v@.take(k + 1).drop_last() =~= v@.take(k as int));
        assert(v@.take(k + 1).last() == v@[k as int]);
        let r = scan_class_item(&v[k], depth + 1);
        assert(verdict_matches(r, scan_item(v@[k as int], depth + 1)));
        if let Err(e) = r {
            proof {
                lemma_scan_items_prefix_err(v@, k as int, depth as int);
            }
            return Err(e);
        }
        assert(scan_items(v@.take(k + 1), depth as int) is None);
        k += 1;
    }
    assert(v@.take(k as int) =~= v@);
    Ok(())
}

/// Whether the index engine can evaluate `pattern` faithfully; otherwise
/// the first reason found. A pattern `regex-syntax` cannot parse passes.
pub fn check_regex_pattern(pattern: &str) -> (r: Result<(), RejectReason>)
    ensures
        verdict_matches(r, regex_verdict(pattern@)),
        pattern@.len() == 0 ==> r is Ok,
{
    if crate::text::contains_char(pattern, '"') {
        return Err(RejectReason::QueryQuote);
    }
    match parse_regex(pattern) {
        None => Ok(()),
        Some(ast) => scan_ast(&ast, 0),
    }
}

} // verus!
