//! `--fixed-strings` / `--exact` translation. The literal is phrase-quoted;
//! a literal holding `"`, `\`, `*` or `?` cannot be expressed faithfully in
//! the index query language and gives up instead.

use vstd::prelude::*;
use crate::text::{contains_char, push_char, push_str};

verus! {

/// Result of literal translation.
pub enum LiteralResult {
    /// The query fragment, quoting included.
    Term(String),
    /// The literal holds a char that cannot be expressed.
    GiveUp,
}

/// Whether the literal holds a char the index query cannot carry verbatim.
pub open spec fn literal_unsafe(s: Seq<char>) -> bool {
    s.contains('"') || s.contains('\\') || s.contains('*') || s.contains('?')
}

/// What `translate_fixed_string` gives: `None` for giving up.
pub open spec fn translate_fixed_string_spec(s: Seq<char>) -> Option<Seq<char>> {
    if s.len() == 0 {
        Some(Seq::empty())
    } else if literal_unsafe(s) {
        None
    } else {
        Some(seq!['"'] + s + seq!['"'])
    }
}

pub open spec fn literal_result_view(r: LiteralResult) -> Option<Seq<char>> {
    match r {
        LiteralResult::Term(t) => Some(t@),
        LiteralResult::GiveUp => None,
    }
}

/// Translate a raw user literal. The empty literal matches everything and
/// maps to the empty term.
pub fn translate_fixed_string(s: &str) -> (r: LiteralResult)
    ensures
        literal_result_view(r) == translate_fixed_string_spec(s@),
{
    if s.is_empty() {
        return LiteralResult::Term(String::new());
    }
    if contains_char(s, '"') || contains_char(s, '\\') || contains_char(s, '*') || contains_char(s, '?') {
        return LiteralResult::GiveUp;
    }
    let mut out = String::new();
    push_char(&mut out, '"');
    push_str(&mut out, s);
    push_char(&mut out, '"');
    assert(out@ =~= seq!['"'] + s@ + seq!['"']);
    LiteralResult::Term(out)
}

} // verus!
