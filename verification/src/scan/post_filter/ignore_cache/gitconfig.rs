//! Reading git's `core.excludesFile` setting out of the text of a
//! `.gitconfig`: the first `excludesfile = <path>` line inside a `[core]`
//! section.

use vstd::prelude::*;
use crate::text::{self, lines_of};
use super::pushdown::{trim_spec, eq_ignore_case_spec, trim_bounds, eq_ignore_case};

verus! {

/// Where the excludes file lies.
#[derive(Debug, PartialEq, Eq)]
pub enum ExcludesFile {
    /// `~/<rest>`: below the home directory.
    InHome(String),
    /// Any other path, as written.
    Path(String),
}

/// The text before and after the first `c`, if any.
pub open spec fn split_once_spec(s: Seq<char>, c: char) -> Option<(Seq<char>, Seq<char>)>
    decreases s.len(),
{
    if s.len() == 0 {
        None
    } else if s[0] == c {
        Some((Seq::empty(), s.drop_first()))
    } else {
        match split_once_spec(s.drop_first(), c) {
            Some((a, b)) => Some((seq![s[0]] + a, b)),
            None => None,
        }
    }
}

pub open spec fn trim_quotes_start(s: Seq<char>) -> Seq<char>
    decreases s.len(),
{
    if s.len() > 0 && s[0] == '"' { trim_quotes_start(s.drop_first()) } else { s }
}

pub open spec fn trim_quotes_end(s: Seq<char>) -> Seq<char>
    decreases s.len(),
{
    if s.len() > 0 && s.last() == '"' { trim_quotes_end(s.drop_last()) } else { s }
}

/// `str::trim_matches('"')`.
pub open spec fn trim_quotes(s: Seq<char>) -> Seq<char> {
    trim_quotes_end(trim_quotes_start(s))
}

/// The setting's value among `lines`, reading with `in_core` telling
/// whether the current section is `[core]`. Blank lines and `#` / `;`
/// comments are skipped; a `[...]` line opens a section.
pub open spec fn scan_config(lines: Seq<Seq<char>>, in_core: bool) -> Option<Seq<char>>
    decreases lines.len(),
{
    if lines.len() == 0 {
        None
    } else {
        let line = trim_spec(lines[0]);
        let rest = lines.drop_first();
        if line.len() == 0 || line[0] == '#' || line[0] == ';' {
            scan_config(rest, in_core)
        } else if line[0] == '[' {
            scan_config(rest, eq_ignore_case_spec(line, "[core]"@))
        } else if !in_core {
            scan_config(rest, in_core)
        } else {
            match split_once_spec(line, '=') {
                Some((k, v)) => if eq_ignore_case_spec(trim_spec(k), "excludesfile"@) {
                    Some(trim_quotes(trim_spec(v)))
                } else {
                    scan_config(rest, in_core)
                },
                None => scan_config(rest, in_core),
            }
        }
    }
}

pub open spec fn excludes_view(e: ExcludesFile) -> (bool, Seq<char>) {
    match e {
        ExcludesFile::InHome(r) => (true, r@),
        ExcludesFile::Path(p) => (false, p@),
    }
}

/// Where the value says the file lies: `~/x` below home, anything else
/// as written.
pub open spec fn excludes_place(v: Seq<char>) -> (bool, Seq<char>) {
    if v.len() >= 2 && v[0] == '~' && v[1] == '/' { (true, v.skip(2)) } else { (false, v) }
}

fn split_index(v: &Vec<char>, from: usize, to: usize, c: char) -> (r: Option<usize>)
    requires
        from <= to <= v.len(),
    ensures
        match split_once_spec(v@.subrange(from as int, to as int), c) {
            Some((a, b)) => r matches Some(k) && from <= k < to && a == v@.subrange(from as int, k as int)
                && b == v@.subrange(k + 1, to as int),
            None => r is None,
        },
    decreases to - from,
{
    let ghost s = v@.subrange(from as int, to as int);
    if from == to {
        return None;
    }
    assert(s[0] == v@[from as int]);
    assert(s.drop_first() =~= v@.subrange(from + 1, to as int));
    if v[from] == c {
        assert(v@.subrange(from as int, from as int) =~= Seq::<char>::empty());
        return Some(from);
    }
    let r = split_index(v, from + 1, to, c);
    match r {
        Some(k) => {
            assert(seq![s[0]] + v@.subrange(from + 1, k as int) =~= v@.subrange(from as int, k as int));
        },
        None => {},
    }
    r
}

/// Bounds of `trim_quotes` of `v[a..b]`.
fn quote_bounds(v: &Vec<char>, a: usize, b: usize) -> (r: (usize, usize))
    requires
        a <= b <= v.len(),
    ensures
        a <= r.0 <= r.1 <= b,
        v@.subrange(r.0 as int, r.1 as int) == trim_quotes(v@.subrange(a as int, b as int)),
{
    let mut x = a;
    assert(v@.subrange(a as int, b as int) =~= v@.subrange(x as int, b as int));
    while x < b && v[x] == '"'
        invariant
            a <= x <= b <= v.len(),
            trim_quotes_start(v@.subrange(a as int, b as int)) == trim_quotes_start(v@.subrange(x as int, b as int)),
        decreases b - x,
    {
        assert(v@.subrange(x as int, b as int).drop_first() =~= v@.subrange(x + 1, b as int));
        x += 1;
    }
    let ghost st = v@.subrange(x as int, b as int);
    let mut y = b;
    assert(st =~= v@.subrange(x as int, y as int));
    while y > x && v[y - 1] == '"'
        invariant
            a <= x <= y <= b <= v.len(),
            st == v@.subrange(x as int, b as int),
            trim_quotes_end(st) == trim_quotes_end(v@.subrange(x as int, y as int)),
        decreases y,
    {
        assert(v@.subrange(x as int, y as int).drop_last() =~= v@.subrange(x as int, y - 1));
        y -= 1;
    }
    (x, y)
}

/// The `core.excludesFile` setting of a `.gitconfig` text, if it has one.
pub fn core_excludes_file(contents: &str) -> (r: Option<ExcludesFile>)
    ensures
        match scan_config(lines_of(contents@), false) {
            Some(v) => r matches Some(e) && excludes_view(e) == excludes_place(v),
            None => r is None,
        },
{
    let chars = text::chars_of(contents);
    let lines = text::lines_chars(&chars);
    let ghost ls = text::pieces_view(lines@);
    let mut in_core = false;
    let mut i: usize = 0;
    assert(ls.skip(0) =~= ls);
    while i < lines.len()
        invariant
            ls == text::pieces_view(lines@),
            ls == lines_of(contents@),
            i <= lines.len(),
            scan_config(ls, false) == scan_config(ls.skip(i as int), in_core),
        decreases lines.len() - i,
    {
        let raw = &lines[i];
        let ghost rest = ls.skip(i as int);
        assert(rest[0] == raw@);
        assert(rest.drop_first() =~= ls.skip(i + 1));
        let (a, b) = trim_bounds(raw);
        let ghost line = trim_spec(raw@);
        assert(a < b ==> line[0] == raw@[a as int]);
        if a == b || raw[a] == '#' || raw[a] == ';' {
            i += 1;
            continue;
        }
        if raw[a] == '[' {
            let header = text::string_of_range(raw, a, b);
            in_core = eq_ignore_case(header.as_str(), "[core]");
            i += 1;
            continue;
        }
        if !in_core {
            i += 1;
            continue;
        }
        match split_index(raw, a, b, '=') {
            None => {
                i += 1;
                continue;
            },
            Some(k) => {
                let key_text = text::string_of_range(raw, a, k);
                let key_chars = text::chars_of(key_text.as_str());
                let (ka, kb) = trim_bounds(&key_chars);
                let key = text::string_of_range(&key_chars, ka, kb);
                if eq_ignore_case(key.as_str(), "excludesfile") {
                    let val_text = text::string_of_range(raw, k + 1, b);
                    let val_chars = text::chars_of(val_text.as_str());
                    let (va, vb) = trim_bounds(&val_chars);
                    let (qa, qb) = quote_bounds(&val_chars, va, vb);
                    let ghost value = val_chars@.subrange(qa as int, qb as int);
                    assert(value == trim_quotes(trim_spec(raw@.subrange(k + 1, b as int))));
                    if qb - qa >= 2 && val_chars[qa] == '~' && val_chars[qa + 1] == '/' {
                        let r = text::string_of_range(&val_chars, qa + 2, qb);
                        assert(r@ =~= value.skip(2));
                        return Some(ExcludesFile::InHome(r));
                    }
                    let r = text::string_of_range(&val_chars, qa, qb);
                    return Some(ExcludesFile::Path(r));
                }
                i += 1;
            },
        }
    }
    None
}

/// `gitdir:`, the key of a worktree's `.git` file.
pub open spec fn gitdir_key() -> Seq<char> {
    seq!['g', 'i', 't', 'd', 'i', 'r', ':']
}

/// The target named by a worktree's `.git` file: the first line that
/// starts with `gitdir:`, with the rest of that line trimmed.
pub open spec fn gitdir_line(lines: Seq<Seq<char>>) -> Option<Seq<char>>
    decreases lines.len(),
{
    if lines.len() == 0 {
        None
    } else if lines[0].len() >= 7 && lines[0].take(7) == gitdir_key() {
        Some(trim_spec(lines[0].skip(7)))
    } else {
        gitdir_line(lines.drop_first())
    }
}

/// The git directory that a `.git` file (as in a worktree or submodule)
/// points to, if it names one.
pub fn worktree_gitdir(contents: &str) -> (r: Option<String>)
    ensures
        match gitdir_line(lines_of(contents@)) {
            Some(v) => r matches Some(s) && s@ == v,
            None => r is None,
        },
{
    let chars = text::chars_of(contents);
    let lines = text::lines_chars(&chars);
    let ghost ls = text::pieces_view(lines@);
    let mut i: usize = 0;
    assert(ls.skip(0) =~= ls);
    while i < lines.len()
        invariant
            ls == text::pieces_view(lines@),
            ls == lines_of(contents@),
            i <= lines.len(),
            gitdir_line(ls) == gitdir_line(ls.skip(i as int)),
        decreases lines.len() - i,
    {
        let raw = &lines[i];
        let ghost rest = ls.skip(i as int);
        assert(rest[0] == raw@);
        assert(rest.drop_first() =~= ls.skip(i + 1));
        let n = raw.len();
        if n >= 7 && raw[0] == 'g' && raw[1] == 'i' && raw[2] == 't' && raw[3] == 'd' && raw[4] == 'i'
            && raw[5] == 'r' && raw[6] == ':' {
            assert(raw@.take(7) =~= gitdir_key());
            let tail = text::string_of_range(raw, 7, n);
            let tc = text::chars_of(tail.as_str());
            let (a, b) = trim_bounds(&tc);
            assert(tc@ =~= raw@.skip(7));
            return Some(text::string_of_range(&tc, a, b));
        }
        assert(!(raw@.len() >= 7 && raw@.take(7) == gitdir_key())) by {
            if raw@.len() >= 7 && raw@.take(7) == gitdir_key() {
                assert(raw@.take(7)[0] == 'g');
                assert(raw@.take(7)[1] == 'i');
                assert(raw@.take(7)[2] == 't');
                assert(raw@.take(7)[3] == 'd');
                assert(raw@.take(7)[4] == 'i');
                assert(raw@.take(7)[5] == 'r');
                assert(raw@.take(7)[6] == ':');
            }
        }
        i += 1;
    }
    None
}

} // verus!
