//! A search backend that replays a hit list read from a small text file,
//! used in place of the index backend when a test fixture is configured.
//!
//! ## File format
//!
//! - One hit per line; a line ends at `'\n'`, trailing `'\r'`s are dropped.
//! - Blank lines and lines starting with `#` are ignored.
//! - Each hit line: `<absolute_path>` or `<absolute_path>\t<dir|file>`.
//!   A missing or empty kind means `file`; any other kind is an error.
//!   Fields after the kind are ignored.
//! - Size, times and attributes are zero; the depth is 1; the search root
//!   is the query's first path.

use vstd::prelude::*;
use crate::scan::backend::{offer_checked, replayed, BackendError, BackendQuery, BackendSink, CancellationToken, RawHit, RawHitView, SearchBackend};
use crate::text::{self, lines_of, split_on, trim_cr, pieces_view};
use crate::winpath;

verus! {

/// One parsed hit: its path and whether it is a directory.
#[derive(Debug, Clone)]
pub struct MockHit {
    pub path: String,
    pub is_dir: bool,
}

/// What one line of the file says.
pub enum LineOutcome {
    Skip,
    Hit(Seq<char>, bool),
    Bad(Seq<char>),
}

pub open spec fn line_outcome(raw: Seq<char>) -> LineOutcome {
    let line = trim_cr(raw);
    if line.len() == 0 || line[0] == '#' {
        LineOutcome::Skip
    } else {
        let f = split_on(line, '\t');
        if f.len() < 2 || f[1].len() == 0 || f[1] == "file"@ {
            LineOutcome::Hit(f[0], false)
        } else if f[1] == "dir"@ {
            LineOutcome::Hit(f[0], true)
        } else {
            LineOutcome::Bad(f[1])
        }
    }
}

/// The hits of the given lines, or the index and kind token of the first
/// line whose kind is neither `dir` nor `file`.
pub open spec fn parse_lines(lines: Seq<Seq<char>>) -> Result<Seq<(Seq<char>, bool)>, (int, Seq<char>)>
    decreases lines.len(),
{
    if lines.len() == 0 {
        Ok(Seq::empty())
    } else {
        match parse_lines(lines.drop_last()) {
            Err(e) => Err(e),
            Ok(hits) => match line_outcome(lines.last()) {
                LineOutcome::Skip => Ok(hits),
                LineOutcome::Hit(p, d) => Ok(hits.push((p, d))),
                LineOutcome::Bad(t) => Err(((lines.len() - 1) as int, t)),
            },
        }
    }
}

/// The message for a bad kind `token` on line `line` (counted from 1).
pub open spec fn bad_kind_message(source: Seq<char>, line: nat, token: Seq<char>) -> Seq<char> {
    "unknown kind \""@ + token + "\" at "@ + source + ":"@ + text::decimal_spec(line) + "; expected `dir` or `file`"@
}

pub open spec fn mock_hits_view(v: Seq<MockHit>) -> Seq<(Seq<char>, bool)> {
    v.map_values(|h: MockHit| (h.path@, h.is_dir))
}

/// A backend that replays a parsed hit list.
#[derive(Debug)]
pub struct MockHitFileBackend {
    pub hits: Vec<MockHit>,
    pub source: String,
}

/// The extension text of a path, empty where it has none.
pub open spec fn extension_text(p: Seq<char>) -> Seq<char> {
    match winpath::extension(p) {
        Some(e) => e,
        None => Seq::empty(),
    }
}

/// The hit that a run streams for a parsed hit, under search root `root`.
pub open spec fn stamped(h: (Seq<char>, bool), root: Seq<char>) -> RawHitView {
    RawHitView {
        path: h.0,
        is_dir: h.1,
        size: 0,
        mtime: 0,
        ctime: 0,
        attributes: 0,
        extension: extension_text(h.0),
        depth: 1,
        search_root: root,
    }
}

impl MockHitFileBackend {
    /// The search root stamped on every hit of a run of `query`.
    pub open spec fn root_for(&self, query: &BackendQuery) -> Seq<char> {
        if query.paths.len() > 0 {
            query.paths@[0]@
        } else {
            self.source@
        }
    }

    /// What a complete run of `query` streams, in order.
    pub open spec fn replay(&self, query: &BackendQuery) -> Seq<RawHitView> {
        mock_hits_view(self.hits@).map_values(|h: (Seq<char>, bool)| stamped(h, self.root_for(query)))
    }

    /// Parse the hit list in `body`, read from `source`.
    pub fn from_text(source: String, body: &str) -> (r: Result<Self, String>)
        ensures
            match parse_lines(lines_of(body@)) {
                Ok(hits) => r matches Ok(b) && mock_hits_view(b.hits@) == hits && b.source@ == source@,
                Err((i, t)) => r matches Err(m) && m@ == bad_kind_message(source@, (i + 1) as nat, t),
            },
    {
        let chars = text::chars_of(body);
        let lines = text::lines_chars(&chars);
        let ghost ls = pieces_view(lines@);
        let mut hits: Vec<MockHit> = Vec::new();
        let mut i: usize = 0;
        assert(ls.take(0) =~= Seq::<Seq<char>>::empty());
        assert(mock_hits_view(hits@) =~= Seq::<(Seq<char>, bool)>::empty());
        while i < lines.len()
            invariant
                ls == pieces_view(lines@),
                ls == lines_of(body@),
                i <= lines.len(),
                parse_lines(ls.take(i as int)) == Ok::<Seq<(Seq<char>, bool)>, (int, Seq<char>)>(mock_hits_view(hits@)),
            decreases lines.len() - i,
        {
            let raw = &lines[i];
            assert(ls.take(i + 1).drop_last() =~= ls.take(i as int));
            assert(ls.take(i + 1).last() == raw@);
            let n = text::trimmed_len(raw);
            if n == 0 || raw[0] == '#' {
                assert(trim_cr(raw@).len() == n);
                assert(n > 0 ==> trim_cr(raw@)[0] == raw@[0]);
                i += 1;
                continue;
            }
            let line = text::string_of_range(raw, 0, n);
            let line_chars = text::chars_of(line.as_str());
            assert(line_chars@ == trim_cr(raw@)) by {
                assert(raw@.subrange(0, n as int) =~= raw@.take(n as int));
            }
            let fields = text::split_chars(&line_chars, '\t');
            proof {
                text::lemma_split_on_nonempty(line_chars@, '\t');
                assert(pieces_view(fields@)[0] == fields@[0]@);
            }
            let path = text::string_of(&fields[0]);
            let mut is_dir = false;
            if fields.len() >= 2 {
                assert(pieces_view(fields@)[1] == fields@[1]@);
                let kind = text::string_of(&fields[1]);
                if fields[1].len() == 0 || text::same_text(kind.as_str(), "file") {
                    is_dir = false;
                } else if text::same_text(kind.as_str(), "dir") {
                    is_dir = true;
                } else {
                    let mut m = String::new();
                    text::push_str(&mut m, "unknown kind \"");
                    text::push_str(&mut m, kind.as_str());
                    text::push_str(&mut m, "\" at ");
                    text::push_str(&mut m, source.as_str());
                    text::push_str(&mut m, ":");
                    let num = text::decimal((i + 1) as u64);
                    text::push_str(&mut m, num.as_str());
                    text::push_str(&mut m, "; expected `dir` or `file`");
                    proof {
                        assert(parse_lines(ls.take(i + 1)) == Err::<Seq<(Seq<char>, bool)>, (int, Seq<char>)>((i as int, kind@)));
                        lemma_parse_error_persists(ls, (i + 1) as int);
                        assert(ls.take(ls.len() as int) =~= ls);
                        assert(m@ =~= bad_kind_message(source@, (i + 1) as nat, kind@));
                    }
                    return Err(m);
                }
            }
            let ghost prev = mock_hits_view(hits@);
            hits.push(MockHit { path, is_dir });
            assert(mock_hits_view(hits@) =~= prev.push((fields@[0]@, is_dir)));
            i += 1;
        }
        assert(ls.take(lines.len() as int) =~= ls);
        Ok(MockHitFileBackend { hits, source })
    }
}

/// Once a prefix fails to parse, every longer prefix fails the same way.
proof fn lemma_parse_error_persists(ls: Seq<Seq<char>>, k: int)
    requires
        0 <= k <= ls.len(),
        parse_lines(ls.take(k)) is Err,
    ensures
        parse_lines(ls.take(ls.len() as int)) == parse_lines(ls.take(k)),
    decreases ls.len() - k,
{
    if k < ls.len() {
        assert(ls.take(k + 1).drop_last() =~= ls.take(k));
        lemma_parse_error_persists(ls, k + 1);
    }
}

impl SearchBackend for MockHitFileBackend {
    /// Stream every parsed hit into `sink`, stamped with the query's first
    /// path as search root (the source path where the query has none),
    /// each through `offer_checked` with the token's answer read just
    /// before it; the run stops at the first error.
    fn run(&self, query: &BackendQuery, sink: &mut dyn BackendSink, cancel: &CancellationToken) -> (r: Result<(), BackendError>)
        ensures
            exists|k: int| #[trigger] replayed(self.replay(query), old(sink).offered(), final(sink).offered(), k, r),
    {
        let root: String = if query.paths.len() > 0 {
            query.paths[0].clone()
        } else {
            self.source.clone()
        };
        let ghost all = self.replay(query);
        let mut i: usize = 0;
        assert(all.take(0) =~= Seq::<RawHitView>::empty());
        while i < self.hits.len()
            invariant
                i <= self.hits.len(),
                all == self.replay(query),
                all.len() == self.hits.len(),
                root@ == self.root_for(query),
                sink.offered() == old(sink).offered() + all.take(i as int),
            decreases self.hits.len() - i,
        {
            let cancelled = cancel.is_cancelled();
            let hit = &self.hits[i];
            let extension = match winpath::path_extension(hit.path.as_str()) {
                Some(e) => e,
                None => String::new(),
            };
            let raw = RawHit {
                path: hit.path.clone(),
                is_dir: hit.is_dir,
                size: 0,
                mtime: 0,
                ctime: 0,
                attributes: 0,
                extension,
                depth: 1,
                search_root: root.clone(),
            };
            assert(raw@ == all[i as int]);
            let res = offer_checked(sink, raw, cancelled);
            if cancelled {
                assert(replayed(all, old(sink).offered(), sink.offered(), i as int, res));
                return res;
            }
            assert(all.take(i + 1) =~= all.take(i as int).push(all[i as int]));
            assert(sink.offered() =~= old(sink).offered() + all.take(i + 1));
            i += 1;
            if res.is_err() {
                assert(replayed(all, old(sink).offered(), sink.offered(), i as int, res));
                return res;
            }
        }
        assert(all.take(i as int) =~= all);
        assert(replayed(all, old(sink).offered(), sink.offered(), i as int, Ok(())));
        Ok(())
    }
}

} // verus!
