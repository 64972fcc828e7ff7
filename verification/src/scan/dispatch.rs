//! The decisions a scan takes per search root: which root the index is
//! asked about, whether hits are moved back onto the typed root, how a
//! backend run ended, and how many hits travel per batch.

use vstd::prelude::*;
use crate::scan::backend::BackendError;
use crate::scan::backend::everything::error::{message_text, unavailable};
use crate::scan::path_projection::{ProjectedPath, SearchRoot};
use crate::text::{chars_of, push_str, string_of_range};
use crate::winpath;

verus! {

/// What resolving a search root's reparse point gave.
#[derive(Debug)]
pub enum ReparseResolution {
    /// The root is no reparse point: it is queried as it is.
    NotReparse,
    /// The root is a reparse point to this target.
    Target(String),
    /// The root could not be examined.
    Failed,
}

/// Where one search root goes.
#[derive(Debug)]
pub enum RootRoute {
    /// Walk it on the file system.
    Legacy,
    /// Query the index at `query_root`; when `rebase_to` is set, every hit
    /// is moved from `query_root` back onto that root.
    Backend { query_root: String, rebase_to: Option<String> },
}

/// The root the user meant for the `idx`-th path: its canonical search
/// root where there is one, the path itself otherwise.
pub fn logical_root(search_roots: &[SearchRoot], idx: usize, path: &str) -> (r: String)
    ensures
        idx < search_roots@.len() ==> r@ == search_roots@[idx as int].canonical@,
        idx >= search_roots@.len() ==> r@ == path@,
{
    if idx < search_roots.len() {
        let c = search_roots[idx].canonical.clone();
        assert(c@ == search_roots@[idx as int].canonical@);
        c
    } else {
        crate::text::owned(path)
    }
}

/// The route of a root, given its reparse resolution. A reparse root is
/// queried at its target and its hits moved back, except under
/// `--full-path`, where the pattern would see the target's spelling: such a
/// root, and one that could not be examined, is walked.
pub fn route_root(logical_root: String, resolution: ReparseResolution, full_path: bool) -> (r: RootRoute)
    ensures
        match resolution {
            ReparseResolution::Failed => r is Legacy,
            ReparseResolution::Target(q) => if full_path {
                r is Legacy
            } else {
                &&& r matches RootRoute::Backend { query_root, rebase_to }
                &&& query_root@ == q@
                &&& rebase_to matches Some(l)
                &&& l@ == logical_root@
            },
            ReparseResolution::NotReparse => {
                &&& r matches RootRoute::Backend { query_root, rebase_to }
                &&& query_root@ == logical_root@
                &&& rebase_to is None
            },
        },
{
    match resolution {
        ReparseResolution::Failed => RootRoute::Legacy,
        ReparseResolution::Target(q) => {
            if full_path {
                RootRoute::Legacy
            } else {
                RootRoute::Backend { query_root: q, rebase_to: Some(logical_root) }
            }
        },
        ReparseResolution::NotReparse => RootRoute::Backend { query_root: logical_root, rebase_to: None },
    }
}

/// Whether the real index probe is used: only with `--probe`, and never
/// while a replayed hit list stands in for the index.
pub fn use_real_probe(mock_active: bool, probe_flag: bool) -> (b: bool)
    ensures
        b == (!mock_active && probe_flag),
{
    !mock_active && probe_flag
}

/// Hits per batch: one at a time for per-result `--exec` on several
/// threads, so that jobs start as hits arrive; 256 otherwise.
pub fn batch_limit(per_result_exec: bool, threads: usize) -> (n: usize)
    ensures
        n == if per_result_exec && threads > 1 { 1usize } else { 0x100usize },
{
    if per_result_exec && threads > 1 { 1 } else { 0x100 }
}

/// How one backend run on one root ended.
#[derive(Debug)]
pub enum RunOutcome {
    /// The run completed, or was cancelled (which is fine).
    Done,
    /// The index service is unavailable: walk this root instead.
    Fallback,
    /// Any other failure, with its message.
    HardError(String),
}

/// Whether the held-back hits are still delivered after a run: after a
/// clean or cancelled run, not after a failure.
pub fn should_finalize(result: &Result<(), BackendError>) -> (b: bool)
    ensures
        b == (result is Ok || result matches Err(BackendError::Cancelled)),
{
    match result {
        Ok(()) => true,
        Err(BackendError::Cancelled) => true,
        Err(_) => false,
    }
}

/// The outcome of a run: an unavailable index service falls back to the
/// walker, any other failure is reported with its message.
pub fn run_outcome(result: Result<(), BackendError>) -> (r: RunOutcome)
    ensures
        match result {
            Ok(()) => r is Done,
            Err(BackendError::Cancelled) => r is Done,
            Err(BackendError::Everything(e)) => if unavailable(e) {
                r is Fallback
            } else {
                r matches RunOutcome::HardError(m) && m@ == message_text(e)
            },
            Err(BackendError::Other(m)) => r matches RunOutcome::HardError(t) && t@ == m@,
        },
{
    match result {
        Ok(()) => RunOutcome::Done,
        Err(BackendError::Cancelled) => RunOutcome::Done,
        Err(BackendError::Everything(e)) => {
            if e.is_unavailable() {
                RunOutcome::Fallback
            } else {
                RunOutcome::HardError(e.message())
            }
        },
        Err(BackendError::Other(m)) => RunOutcome::HardError(m),
    }
}

/// `\\?\UNC\server\share` becomes `\\server\share`, `\\?\C:\x` becomes
/// `C:\x`; other paths stay.
pub open spec fn strip_verbatim_spec(p: Seq<char>) -> Seq<char> {
    let unc = seq!['\\', '\\', '?', '\\', 'U', 'N', 'C', '\\'];
    let verbatim = seq!['\\', '\\', '?', '\\'];
    if p.len() >= 8 && p.take(8) == unc {
        seq!['\\', '\\'] + p.skip(8)
    } else if p.len() >= 4 && p.take(4) == verbatim {
        p.skip(4)
    } else {
        p
    }
}

/// The path without a verbatim `\\?\` prefix.
pub fn strip_verbatim_prefix(path: &str) -> (r: String)
    ensures
        r@ == strip_verbatim_spec(path@),
{
    let v = chars_of(path);
    let n = v.len();
    let ghost unc = seq!['\\', '\\', '?', '\\', 'U', 'N', 'C', '\\'];
    let ghost verbatim = seq!['\\', '\\', '?', '\\'];
    let is_verbatim = n >= 4 && v[0] == '\\' && v[1] == '\\' && v[2] == '?' && v[3] == '\\';
    assert(is_verbatim == (n >= 4 && v@.take(4) == verbatim)) by {
        if n >= 4 && v@.take(4) == verbatim {
            assert(v@.take(4)[0] == v@[0] && v@.take(4)[1] == v@[1] && v@.take(4)[2] == v@[2] && v@.take(4)[3] == v@[3]);
        }
        if is_verbatim {
            assert(v@.take(4) =~= verbatim);
        }
    }
    let is_unc = is_verbatim && n >= 8 && v[4] == 'U' && v[5] == 'N' && v[6] == 'C' && v[7] == '\\';
    assert(is_unc == (n >= 8 && v@.take(8) == unc)) by {
        if n >= 8 && v@.take(8) == unc {
            assert(v@.take(8)[0] == v@[0] && v@.take(8)[1] == v@[1] && v@.take(8)[2] == v@[2] && v@.take(8)[3] == v@[3]);
            assert(v@.take(8)[4] == v@[4] && v@.take(8)[5] == v@[5] && v@.take(8)[6] == v@[6] && v@.take(8)[7] == v@[7]);
            assert(v@.take(4) =~= verbatim);
        }
        if is_unc {
            assert(v@.take(8) =~= unc);
        }
    }
    if is_unc {
        let mut r = String::new();
        push_str(&mut r, "\\\\");
        let rest = string_of_range(&v, 8, n);
        push_str(&mut r, rest.as_str());
        proof {
            reveal_strlit("\\\\");
            assert(r@ =~= seq!['\\', '\\'] + v@.skip(8));
        }
        r
    } else if is_verbatim {
        let r = string_of_range(&v, 4, n);
        assert(r@ =~= v@.skip(4));
        r
    } else {
        let r = string_of_range(&v, 0, n);
        assert(r@ =~= v@);
        r
    }
}

/// The text a pattern is matched against for an entry: under
/// `--full-path`, the entry made absolute against `full_path_base` (a
/// leading `.` dropped first); otherwise its file name.
pub open spec fn search_str_spec(entry: Seq<char>, full_path_base: Option<Seq<char>>) -> Seq<char> {
    match full_path_base {
        Some(cwd) => if winpath::is_absolute(entry) {
            entry
        } else {
            let rel = if winpath::begins_with_cur_dir(entry) { winpath::rest_after(entry, 0) } else { entry };
            winpath::push_spec(cwd, rel)
        },
        None => winpath::file_name(entry).unwrap(),
    }
}

/// The text a pattern is matched against for `entry`. An entry without a
/// file name (such as `..`) never comes out of a traversal, and is left out
/// when no base is given.
pub fn search_str_for_entry<'a>(entry: &'a str, full_path_base: Option<&str>) -> (r: ProjectedPath<'a>)
    requires
        full_path_base is None ==> winpath::file_name(entry@) is Some,
    ensures
        r.text() == search_str_spec(entry@, match full_path_base { Some(b) => Some(b@), None => None }),
{
    match full_path_base {
        Some(cwd) => {
            if winpath::path_is_absolute(entry) {
                return ProjectedPath::Borrowed(entry);
            }
            let parts = winpath::parts_of(entry);
            let n = parts.chars.len();
            let cur = n >= 1 && parts.chars[0] == '.' && (n == 1 || parts.chars[1] == '\\' || parts.chars[1] == '/');
            let rel = if cur { winpath::parts_rest_after(&parts, 0) } else { crate::text::owned(entry) };
            assert(rel@ == (if winpath::begins_with_cur_dir(entry@) { winpath::rest_after(entry@, 0) } else { entry@ }));
            let out = winpath::path_push(cwd, rel.as_str());
            assert(out@ == search_str_spec(entry@, Some(cwd@)));
            ProjectedPath::Owned(out)
        },
        None => {
            let name = winpath::path_file_name(entry);
            match name {
                Some(n) => ProjectedPath::Owned(n),
                None => ProjectedPath::Owned(String::new()),
            }
        },
    }
}

} // verus!
