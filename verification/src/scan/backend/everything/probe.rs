//! Whether a search root is covered by the index: a count-only
//! `path:"<root>"` query. More than zero results means indexed; zero results
//! or any SDK error means the root is walked instead.

use vstd::prelude::*;
use super::error::EverythingError;
use crate::text::{chars_of, push_char, push_str};

verus! {

/// Index-coverage probe backed by a count-only index query.
#[derive(Debug, Clone, Copy, Default)]
pub struct EverythingVolumeIndexProbe;

/// The root with quotes dropped and `/` turned into `\`.
pub open spec fn probe_root_text(s: Seq<char>) -> Seq<char>
    decreases s.len(),
{
    if s.len() == 0 {
        Seq::empty()
    } else {
        probe_root_text(s.drop_last()) + if s.last() == '"' {
            Seq::empty()
        } else if s.last() == '/' {
            seq!['\\']
        } else {
            seq![s.last()]
        }
    }
}

/// `path:"<root>"`, quoting as the real search does.
pub open spec fn probe_query_text(root: Seq<char>) -> Seq<char> {
    "path:\""@ + probe_root_text(root) + seq!['"']
}

/// The count-only probe query for `root`.
pub fn build_probe_query(root: &str) -> (s: String)
    ensures
        s@ == probe_query_text(root@),
{
    let cs = chars_of(root);
    let mut s = String::from_str("path:\"");
    let ghost head = s@;
    let mut i: usize = 0;
    while i < cs.len()
        invariant
            cs@ == root@,
            i <= cs.len(),
            s@ == head + probe_root_text(cs@.take(i as int)),
        decreases cs.len() - i,
    {
        let ch = cs[i];
        assert(cs@.take(i + 1).drop_last() =~= cs@.take(i as int));
        if ch == '"' {
        } else if ch == '/' {
            push_char(&mut s, '\\');
        } else {
            push_char(&mut s, ch);
        }
        assert(s@ =~= head + probe_root_text(cs@.take(i + 1)));
        i += 1;
    }
    assert(cs@.take(i as int) =~= cs@);
    push_char(&mut s, '"');
    s
}

impl EverythingVolumeIndexProbe {
    /// The probe's answer for a query outcome: indexed exactly when the
    /// query succeeded with at least one result.
    pub fn answer(&self, outcome: Result<u32, EverythingError>) -> (r: bool)
        ensures
            r == (outcome matches Ok(n) && n > 0),
    {
        match outcome {
            Ok(n) => n > 0,
            Err(_) => false,
        }
    }
}

/// The root text that goes between the quotes holds no quote and no `/`,
/// and is as long as the root less its quotes: each `/` became one `\`
/// and every other character stays.
pub proof fn lemma_root_text_has_no_quote_or_slash(s: Seq<char>)
    ensures
        forall|j: int| 0 <= j < probe_root_text(s).len() ==> #[trigger] probe_root_text(s)[j] != '"'
            && probe_root_text(s)[j] != '/',
        !s.contains('"') ==> probe_root_text(s).len() == s.len(),
        !s.contains('"') && !s.contains('/') ==> probe_root_text(s) == s,
    decreases s.len(),
{
    if s.len() > 0 {
        let pre = s.drop_last();
        lemma_root_text_has_no_quote_or_slash(pre);
        let t = probe_root_text(s);
        let tp = probe_root_text(pre);
        assert forall|j: int| 0 <= j < t.len() implies #[trigger] t[j] != '"' && t[j] != '/' by {
            if j < tp.len() {
                assert(t[j] == tp[j]);
            }
        }
        if !s.contains('"') {
            assert(s[s.len() - 1] == s.last());
            assert(!pre.contains('"')) by {
                if pre.contains('"') {
                    let j = choose|j: int| 0 <= j < pre.len() && pre[j] == '"';
                    assert(s[j] == pre[j]);
                }
            }
            if !s.contains('/') {
                assert(!pre.contains('/')) by {
                    if pre.contains('/') {
                        let j = choose|j: int| 0 <= j < pre.len() && pre[j] == '/';
                        assert(s[j] == pre[j]);
                    }
                }
                assert(pre.push(s.last()) =~= s);
            }
        }
    }
}

} // verus!
