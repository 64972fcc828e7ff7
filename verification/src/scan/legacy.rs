//! The checks the file-system walker applies to each entry it visits, in
//! the order it applies them. Each check is decided here from facts the
//! walker gathered; the walker gathers a fact (a `stat`, a pattern match)
//! only once the checks before it have passed.

use vstd::prelude::*;
use regex::bytes::Regex;
use crate::filetypes::FileTypes;
use crate::filter::{SizeFilter, TimeFilter, UnixTime, size_within, time_applies};
use crate::scan::post_filter::filters::extension::{set_is_match, set_match, PatternSet};

verus! {

#[verifier::external_type_specification]
#[verifier::external_body]
pub struct ExRegex(Regex);

/// Whether `regex::bytes::Regex::new` compiles `pattern`.
pub uninterp spec fn regex_compiles(pattern: Seq<char>) -> bool;

/// What `regex::bytes::Regex::is_match` answers for the regex compiled from
/// `pattern` on the UTF-8 bytes of `text`: whether it matches somewhere in
/// them.
pub uninterp spec fn regex_match(pattern: Seq<char>, text: Seq<char>) -> bool;

/// A compiled search pattern together with its source text. Only
/// `compile_regex` makes one.
pub struct SearchPattern {
    re: Regex,
    source: Ghost<Seq<char>>,
}

/// `regex::bytes::Regex::new`: the regex compiled from `pattern`, exactly
/// when `regex_compiles` says so; otherwise the error's text.
#[verifier::external_body]
fn compile_regex(pattern: &str) -> (r: Result<SearchPattern, String>)
    ensures
        r is Ok <==> regex_compiles(pattern@),
        r matches Ok(p) ==> p.source() == pattern@,
{
    match Regex::new(pattern) {
        Ok(re) => Ok(SearchPattern { re, source: Ghost(pattern@) }),
        Err(e) => Err(e.to_string()),
    }
}

/// `regex::bytes::Regex::is_match` on the UTF-8 bytes of `text`.
#[verifier::external_body]
fn regex_is_match(p: &SearchPattern, text: &str) -> (b: bool)
    ensures
        b == regex_match(p.source(), text@),
{
    p.re.is_match(text.as_bytes())
}

impl SearchPattern {
    /// Compile one search pattern (a whole regular expression; flags such
    /// as case-insensitivity are written inline).
    pub fn new(pattern: &str) -> (r: Result<SearchPattern, String>)
        ensures
            r is Ok <==> regex_compiles(pattern@),
            r matches Ok(p) ==> p.source() == pattern@,
    {
        compile_regex(pattern)
    }

    /// The text the pattern was compiled from.
    pub closed spec fn source(&self) -> Seq<char> {
        self.source@
    }

    /// Whether the pattern matches somewhere in the UTF-8 bytes of `text`.
    pub fn is_match(&self, text: &str) -> (b: bool)
        ensures
            b == regex_match(self.source(), text@),
    {
        regex_is_match(self, text)
    }
}

/// The name checks: an entry is left out when some search pattern does not
/// match its search text, or, with `--extension`, when it has no file name
/// or no extension pattern matches that name.
pub open spec fn name_rejects(patterns: Seq<SearchPattern>, search: Seq<char>, extensions: Option<PatternSet>, file_name: Option<Seq<char>>) -> bool {
    ||| exists|i: int| 0 <= i < patterns.len() && !regex_match(#[trigger] patterns[i].source(), search)
    ||| match extensions {
        Some(s) => match file_name {
            None => true,
            Some(n) => !set_match(s.patterns(), n),
        },
        None => false,
    }
}

/// The name checks, asked in order: the patterns first, the extension set
/// only once they all matched; an entry without a file name fails
/// `--extension` without asking.
pub fn name_rejected(
    patterns: &[SearchPattern],
    search_str: &str,
    extensions: Option<&PatternSet>,
    file_name: Option<&str>,
) -> (b: bool)
    ensures
        b == name_rejects(patterns@, search_str@, match extensions { Some(s) => Some(*s), None => None },
            match file_name { Some(n) => Some(n@), None => None }),
{
    let mut i: usize = 0;
    while i < patterns.len()
        invariant
            i <= patterns.len(),
            forall|j: int| 0 <= j < i ==> regex_match(#[trigger] patterns@[j].source(), search_str@),
        decreases patterns.len() - i,
    {
        if !regex_is_match(&patterns[i], search_str) {
            return true;
        }
        i += 1;
    }
    match extensions {
        None => false,
        Some(set) => match file_name {
            None => true,
            Some(name) => !set_is_match(set, name),
        },
    }
}

/// What the walker does after an entry.
#[derive(Debug, Clone, Copy, PartialEq, Eq, Structural)]
pub enum WalkAction {
    /// Go on with the walk.
    Continue,
    /// Do not descend into this directory.
    Skip,
    /// Stop the walk.
    Quit,
}

/// The kind of a file-system entry.
#[derive(Debug, Clone, Copy, PartialEq, Eq, Structural)]
pub enum EntryKind {
    File,
    Directory,
    Symlink,
    BlockDevice,
    CharDevice,
    Socket,
    Pipe,
    Other,
}

/// Whether an entry below the root is left out for being shallower than
/// `--min-depth`; an entry without a depth counts as too shallow.
pub fn below_min_depth(min_depth: Option<usize>, depth: Option<usize>) -> (b: bool)
    ensures
        b == match min_depth {
            None => false,
            Some(m) => match depth {
                None => true,
                Some(d) => d < m,
            },
        },
{
    match min_depth {
        None => false,
        Some(m) => match depth {
            None => true,
            Some(d) => d < m,
        },
    }
}

/// `--type`: whether an entry of kind `kind` (`None` when it is unknown)
/// is left out. An entry of a kind that was not asked for, of an unknown
/// kind, or failing `--type executable` / `--type empty`, is left out.
/// `executable` and `empty` are read only when those types are asked for.
pub open spec fn type_rejects(t: FileTypes, kind: Option<EntryKind>, executable: bool, empty: bool) -> bool {
    match kind {
        None => true,
        Some(k) => {
            ||| !t.files && k == EntryKind::File
            ||| !t.directories && k == EntryKind::Directory
            ||| !t.symlinks && k == EntryKind::Symlink
            ||| !t.block_devices && k == EntryKind::BlockDevice
            ||| !t.char_devices && k == EntryKind::CharDevice
            ||| !t.sockets && k == EntryKind::Socket
            ||| !t.pipes && k == EntryKind::Pipe
            ||| t.executables_only && !executable
            ||| t.empty_only && !empty
            ||| k == EntryKind::Other
        },
    }
}

pub fn type_rejected(t: &FileTypes, kind: Option<EntryKind>, executable: bool, empty: bool) -> (b: bool)
    ensures
        b == type_rejects(*t, kind, executable, empty),
{
    match kind {
        None => true,
        Some(k) => {
            (!t.files && k == EntryKind::File) || (!t.directories && k == EntryKind::Directory) || (!t.symlinks
                && k == EntryKind::Symlink) || (!t.block_devices && k == EntryKind::BlockDevice) || (!t.char_devices
                && k == EntryKind::CharDevice) || (!t.sockets && k == EntryKind::Socket) || (!t.pipes && k
                == EntryKind::Pipe) || (t.executables_only && !executable) || (t.empty_only && !empty) || k
                == EntryKind::Other
        },
    }
}

/// `--size`: with constraints given, an entry is kept only if it is a
/// regular file whose size is known and within every constraint.
pub open spec fn size_rejects(constraints: Seq<SizeFilter>, is_file: bool, size: Option<u64>) -> bool {
    constraints.len() > 0 && match size {
        None => true,
        Some(n) => !is_file || exists|i: int| 0 <= i < constraints.len() && !size_within(#[trigger] constraints[i], n),
    }
}

pub fn size_rejected(constraints: &[SizeFilter], is_file: bool, size: Option<u64>) -> (b: bool)
    ensures
        b == size_rejects(constraints@, is_file, size),
{
    if constraints.len() == 0 {
        return false;
    }
    let n = match size {
        None => return true,
        Some(n) => n,
    };
    if !is_file {
        return true;
    }
    let mut i: usize = 0;
    while i < constraints.len()
        invariant
            i <= constraints.len(),
            constraints@.len() > 0,
            size == Some(n),
            is_file,
            forall|j: int| 0 <= j < i ==> size_within(#[trigger] constraints@[j], n),
        decreases constraints.len() - i,
    {
        if !constraints[i].is_within(n) {
            assert(!size_within(constraints@[i as int], n));
            return true;
        }
        i += 1;
    }
    false
}

/// `--changed-*`: with constraints given, an entry is kept only if its
/// modification time is known and meets every constraint.
pub open spec fn time_rejects(constraints: Seq<TimeFilter>, modified: Option<UnixTime>) -> bool {
    constraints.len() > 0 && match modified {
        None => true,
        Some(t) => exists|i: int| 0 <= i < constraints.len() && !time_applies(#[trigger] constraints[i], t),
    }
}

pub fn time_rejected(constraints: &[TimeFilter], modified: Option<UnixTime>) -> (b: bool)
    ensures
        b == time_rejects(constraints@, modified),
{
    if constraints.len() == 0 {
        return false;
    }
    let t = match modified {
        None => return true,
        Some(t) => t,
    };
    let mut i: usize = 0;
    while i < constraints.len()
        invariant
            i <= constraints.len(),
            constraints@.len() > 0,
            modified == Some(t),
            forall|j: int| 0 <= j < i ==> time_applies(#[trigger] constraints@[j], t),
        decreases constraints.len() - i,
    {
        if !constraints[i].applies_to(&t) {
            assert(!time_applies(constraints@[i as int], t));
            return true;
        }
        i += 1;
    }
    false
}

/// After an entry was handed on: a receiver that stopped listening ends the
/// walk; `--prune` does not descend into a matching directory.
pub fn after_send(sent: bool, prune: bool) -> (a: WalkAction)
    ensures
        a == if !sent { WalkAction::Quit } else if prune { WalkAction::Skip } else { WalkAction::Continue },
{
    if !sent {
        WalkAction::Quit
    } else if prune {
        WalkAction::Skip
    } else {
        WalkAction::Continue
    }
}

} // verus!
