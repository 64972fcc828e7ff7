//! `--glob` translation to the index's `wildcards:` modifier.
//!
//! * `**/` segments are dropped: index wildcards already span path segments.
//! * One level of `{a,b}` expands to alternatives joined with `|`; nested
//!   braces, braces after the group, or an unclosed brace give up.
//! * A leading `!` (negation) gives up.
//! * A non-ASCII char inside `[...]` gives up.

use vstd::prelude::*;
use crate::text::{chars_of, push_char, string_of_range};

verus! {

/// Outcome of glob translation.
pub enum GlobResult {
    /// Wildcard fragment(s) joined with `|`, to be pasted after `wildcards:`.
    Fragment(String),
    GiveUp,
}

/// `str::split` on one char: the pieces between occurrences of `sep`,
/// empty pieces included.
pub open spec fn split_acc(s: Seq<char>, i: int, cur: Seq<char>, sep: char) -> Seq<Seq<char>>
    decreases s.len() - i,
{
    if i >= s.len() {
        seq![cur]
    } else if s[i] == sep {
        seq![cur] + split_acc(s, i + 1, Seq::empty(), sep)
    } else {
        split_acc(s, i + 1, cur.push(s[i]), sep)
    }
}

pub open spec fn split_on(s: Seq<char>, sep: char) -> Seq<Seq<char>> {
    split_acc(s, 0, Seq::empty(), sep)
}

/// The pieces joined with `sep` between them.
pub open spec fn join_with(parts: Seq<Seq<char>>, sep: char) -> Seq<char>
    decreases parts.len(),
{
    if parts.len() == 0 {
        Seq::empty()
    } else if parts.len() == 1 {
        parts[0]
    } else {
        join_with(parts.drop_last(), sep) + seq![sep] + parts.last()
    }
}

/// The pieces other than `**`, in order.
pub open spec fn drop_globstar(parts: Seq<Seq<char>>) -> Seq<Seq<char>>
    decreases parts.len(),
{
    if parts.len() == 0 {
        Seq::empty()
    } else {
        drop_globstar(parts.drop_last()) + if parts.last() == seq!['*', '*'] { Seq::empty() } else { seq![parts.last()] }
    }
}

/// The pattern with every bare `**` segment removed.
pub open spec fn strip_recursive_marker_spec(p: Seq<char>) -> Seq<char> {
    join_with(drop_globstar(split_on(p, '/')), '/')
}

/// Position of the first `c` in `s`.
pub open spec fn first_index(s: Seq<char>, c: char) -> Option<int>
    decreases s.len(),
{
    if s.len() == 0 {
        None
    } else if s[0] == c {
        Some(0)
    } else {
        match first_index(s.drop_first(), c) {
            Some(k) => Some(k + 1),
            None => None,
        }
    }
}

pub proof fn lemma_first_index(s: Seq<char>, c: char)
    ensures
        match first_index(s, c) {
            Some(k) => 0 <= k < s.len() && s[k] == c && forall|j: int| 0 <= j < k ==> s[j] != c,
            None => forall|j: int| 0 <= j < s.len() ==> s[j] != c,
        },
    decreases s.len(),
{
    if s.len() > 0 && s[0] != c {
        lemma_first_index(s.drop_first(), c);
        assert forall|j: int| 0 < j < s.len() implies s[j] == s.drop_first()[j - 1] by {}
    }
}

pub open spec fn has_brace(s: Seq<char>) -> bool {
    s.contains('{') || s.contains('}')
}

/// One level of brace expansion; `None` when the braces are unclosed,
/// nested, or followed by more braces.
pub open spec fn expand_braces_spec(p: Seq<char>) -> Option<Seq<Seq<char>>> {
    match first_index(p, '{') {
        None => Some(seq![p]),
        Some(o) => {
            let rest = p.skip(o + 1);
            match first_index(rest, '}') {
                None => None,
                Some(c) => {
                    let group = rest.take(c);
                    let suffix = rest.skip(c + 1);
                    if has_brace(group) || has_brace(suffix) {
                        None
                    } else {
                        Some(split_on(group, ',').map_values(|alt: Seq<char>| p.take(o) + alt + suffix))
                    }
                }
            }
        }
    }
}

/// Whether some `[...]` class (from position `i` on) holds a non-ASCII char.
pub open spec fn class_range_from(s: Seq<char>, i: int) -> bool
    decreases s.len() - i,
{
    if i >= s.len() || i < 0 {
        false
    } else if s[i] == '[' {
        match first_index(s.skip(i + 1), ']') {
            None => false,
            Some(k) => {
                let close = i + 1 + k;
                proof {
                    lemma_first_index(s.skip(i + 1), ']');
                }
                if exists|j: int| i < j < close && (s[j] as u32) >= 0x80 {
                    true
                } else {
                    class_range_from(s, close + 1)
                }
            }
        }
    } else {
        class_range_from(s, i + 1)
    }
}

pub open spec fn has_unicode_class_range_spec(s: Seq<char>) -> bool {
    class_range_from(s, 0)
}

/// What `translate_glob` gives for `p`: `None` for giving up.
pub open spec fn translate_glob_spec(p: Seq<char>) -> Option<Seq<char>> {
    if p.len() > 0 && p[0] == '!' {
        None
    } else {
        match expand_braces_spec(strip_recursive_marker_spec(p)) {
            None => None,
            Some(alts) => if exists|k: int| 0 <= k < alts.len() && has_unicode_class_range_spec(#[trigger] alts[k]) {
                None
            } else {
                Some(join_with(alts, '|'))
            },
        }
    }
}

pub open spec fn glob_result_view(r: GlobResult) -> Option<Seq<char>> {
    match r {
        GlobResult::Fragment(f) => Some(f@),
        GlobResult::GiveUp => None,
    }
}

// ---------------------------------------------------------------------------

/// Split `v` on `sep`, as `str::split` does.
fn split_chars(v: &Vec<char>, sep: char) -> (r: Vec<Vec<char>>)
    ensures
        r@.map_values(|x: Vec<char>| x@) == split_on(v@, sep),
{
    let mut out: Vec<Vec<char>> = Vec::new();
    let mut cur: Vec<char> = Vec::new();
    let mut i: usize = 0;
    while i < v.len()
        invariant
            i <= v.len(),
            out@.map_values(|x: Vec<char>| x@) + split_acc(v@, i as int, cur@, sep) == split_on(v@, sep),
        decreases v.len() - i,
    {
        let ghost before = out@.map_values(|x: Vec<char>| x@);
        if v[i] == sep {
            let done = cur;
            cur = Vec::new();
            out.push(done);
            assert(out@.map_values(|x: Vec<char>| x@) =~= before.push(done@));
            assert(split_acc(v@, i as int, done@, sep) == seq![done@] + split_acc(v@, i + 1, Seq::empty(), sep));
            assert(out@.map_values(|x: Vec<char>| x@) + split_acc(v@, i + 1, cur@, sep) =~= before + split_acc(v@, i as int, done@, sep));
        } else {
            let ghost old_cur = cur@;
            cur.push(v[i]);
            assert(split_acc(v@, i as int, old_cur, sep) == split_acc(v@, i + 1, cur@, sep));
        }
        i += 1;
    }
    let ghost before = out@.map_values(|x: Vec<char>| x@);
    let last = cur;
    out.push(last);
    assert(out@.map_values(|x: Vec<char>| x@) =~= before + split_acc(v@, i as int, last@, sep));
    out
}

/// Chars of `parts` joined with `sep`.
fn join_chars(parts: &Vec<Vec<char>>, sep: char) -> (r: Vec<char>)
    ensures
        r@ == join_with(parts@.map_values(|x: Vec<char>| x@), sep),
{
    let ghost pv = parts@.map_values(|x: Vec<char>| x@);
    let mut out: Vec<char> = Vec::new();
    let mut k: usize = 0;
    while k < parts.len()
        invariant
            pv == parts@.map_values(|x: Vec<char>| x@),
            k <= parts.len(),
            out@ == join_with(pv.take(k as int), sep),
        decreases parts.len() - k,
    {
        let ghost before = out@;
        if k > 0 {
            out.push(sep);
        }
        let mut j: usize = 0;
        while j < parts[k].len()
            invariant
                pv == parts@.map_values(|x: Vec<char>| x@),
                k < parts.len(),
                j <= parts[k as int].len(),
                out@ == before + (if k > 0 { seq![sep] } else { Seq::<char>::empty() }) + parts[k as int]@.take(j as int),
            decreases parts[k as int]@.len() - j,
        {
            out.push(parts[k][j]);
            assert(parts[k as int]@.take(j + 1) =~= parts[k as int]@.take(j as int).push(parts[k as int]@[j as int]));
            j += 1;
        }
        assert(parts[k as int]@.take(j as int) =~= parts[k as int]@);
        assert(pv.take(k + 1).drop_last() =~= pv.take(k as int));
        assert(pv.take(k + 1).last() == pv[k as int]);
        if k == 0 {
            assert(pv.take(1) =~= seq![pv[0]]);
        }
        assert(out@ =~= join_with(pv.take(k + 1), sep));
        k += 1;
    }
    assert(pv.take(k as int) =~= pv);
    out
}

/// Drop every bare `**` segment of `pat`.
pub fn strip_recursive_marker(pat: &str) -> (r: String)
    ensures
        r@ == strip_recursive_marker_spec(pat@),
{
    let cs = chars_of(pat);
    let segs = split_chars(&cs, '/');
    let ghost sv = segs@.map_values(|x: Vec<char>| x@);
    let mut kept: Vec<Vec<char>> = Vec::new();
    let mut k: usize = 0;
    while k < segs.len()
        invariant
            sv == segs@.map_values(|x: Vec<char>| x@),
            k <= segs.len(),
            kept@.map_values(|x: Vec<char>| x@) == drop_globstar(sv.take(k as int)),
        decreases segs.len() - k,
    {
        let seg = &segs[k];
        let is_star2 = seg.len() == 2 && seg[0] == '*' && seg[1] == '*';
        assert(sv[k as int] == seg@);
        assert(is_star2 == (seg@ == seq!['*', '*'])) by {
            if seg@ == seq!['*', '*'] {
                assert(seg@[0] == '*' && seg@[1] == '*');
            }
            if is_star2 {
                assert(seg@ =~= seq!['*', '*']);
            }
        }
        assert(sv.take(k + 1).drop_last() =~= sv.take(k as int));
        let ghost before = kept@.map_values(|x: Vec<char>| x@);
        if !is_star2 {
            kept.push(clone_chars(seg));
            assert(kept@.map_values(|x: Vec<char>| x@) =~= before.push(sv[k as int]));
        }
        assert(kept@.map_values(|x: Vec<char>| x@) =~= drop_globstar(sv.take(k + 1)));
        k += 1;
    }
    assert(sv.take(k as int) =~= sv);
    let joined = join_chars(&kept, '/');
    string_of_range(&joined, 0, joined.len())
}

fn clone_chars(v: &Vec<char>) -> (r: Vec<char>)
    ensures
        r@ == v@,
{
    let mut out: Vec<char> = Vec::new();
    let mut i: usize = 0;
    while i < v.len()
        invariant
            i <= v.len(),
            out@ == v@.take(i as int),
        decreases v.len() - i,
    {
        out.push(v[i]);
        assert(v@.take(i + 1) =~= v@.take(i as int).push(v@[i as int]));
        i += 1;
    }
    assert(v@.take(i as int) =~= v@);
    out
}

/// Position of the first `c` in `v[from..]`, counted from the start of `v`.
fn find_char(v: &Vec<char>, from: usize, c: char) -> (r: Option<usize>)
    requires
        from <= v.len(),
    ensures
        match r {
            Some(j) => from <= j < v.len() && first_index(v@.skip(from as int), c) == Some(j - from),
            None => first_index(v@.skip(from as int), c).is_none(),
        },
{
    proof {
        lemma_first_index(v@.skip(from as int), c);
    }
    let mut i: usize = from;
    while i < v.len()
        invariant
            from <= i <= v.len(),
            forall|j: int| from <= j < i ==> v@[j] != c,
        decreases v.len() - i,
    {
        if v[i] == c {
            proof {
                let t = v@.skip(from as int);
                lemma_first_index(t, c);
                assert(t[i - from] == c);
                match first_index(t, c) {
                    Some(k) => {
                        if k < i - from {
                            assert(t[k] == v@[from + k]);
                        }
                        if k > i - from {
                            assert(t[i - from] != c);
                        }
                    },
                    None => {
                        assert(t[i - from] != c);
                    },
                }
            }
            return Some(i);
        }
        i += 1;
    }
    proof {
        let t = v@.skip(from as int);
        lemma_first_index(t, c);
        match first_index(t, c) {
            Some(k) => {
                assert(t[k] == v@[from + k]);
            },
            None => {},
        }
    }
    None
}

/// Whether `c` occurs in `v[a..b]`.
fn range_has_char(v: &Vec<char>, a: usize, b: usize, c: char) -> (r: bool)
    requires
        a <= b <= v.len(),
    ensures
        r == v@.subrange(a as int, b as int).contains(c),
{
    let mut i: usize = a;
    while i < b
        invariant
            a <= i <= b <= v.len(),
            forall|j: int| a <= j < i ==> v@[j] != c,
        decreases b - i,
    {
        if v[i] == c {
            assert(v@.subrange(a as int, b as int)[i - a] == c);
            return true;
        }
        i += 1;
    }
    assert forall|j: int| 0 <= j < b - a implies v@.subrange(a as int, b as int)[j] != c by {
        assert(v@.subrange(a as int, b as int)[j] == v@[a + j]);
    }
    false
}

fn copy_range(v: &Vec<char>, a: usize, b: usize) -> (r: Vec<char>)
    requires
        a <= b <= v.len(),
    ensures
        r@ == v@.subrange(a as int, b as int),
{
    let mut out: Vec<char> = Vec::new();
    let mut i: usize = a;
    while i < b
        invariant
            a <= i <= b <= v.len(),
            out@ == v@.subrange(a as int, i as int),
        decreases b - i,
    {
        out.push(v[i]);
        assert(v@.subrange(a as int, i + 1) =~= v@.subrange(a as int, i as int).push(v@[i as int]));
        i += 1;
    }
    out
}

pub open spec fn chars_views(v: Seq<Vec<char>>) -> Seq<Seq<char>> {
    v.map_values(|x: Vec<char>| x@)
}

/// One level of `{a,b,c}` expansion.
fn expand_braces(pat: &Vec<char>) -> (r: Option<Vec<Vec<char>>>)
    ensures
        match r {
            Some(alts) => expand_braces_spec(pat@) == Some(chars_views(alts@)),
            None => expand_braces_spec(pat@).is_none(),
        },
{
    let n = pat.len();
    assert(pat@.skip(0) =~= pat@);
    let open = match find_char(pat, 0, '{') {
        None => {
            let mut out: Vec<Vec<char>> = Vec::new();
            out.push(clone_chars(pat));
            assert(chars_views(out@) =~= seq![pat@]);
            return Some(out);
        },
        Some(o) => o,
    };
    let close = match find_char(pat, open + 1, '}') {
        None => {
            return None;
        },
        Some(c) => c,
    };
    let ghost rest = pat@.skip(open + 1);
    let ghost k = close - (open + 1);
    assert(pat@.skip(open + 1).skip(0) =~= pat@.skip(open + 1));
    assert(rest.take(k) =~= pat@.subrange(open + 1, close as int));
    assert(rest.skip(k + 1) =~= pat@.subrange(close + 1, n as int));
    if range_has_char(pat, open + 1, close, '{') || range_has_char(pat, open + 1, close, '}')
        || range_has_char(pat, close + 1, n, '{') || range_has_char(pat, close + 1, n, '}')
    {
        return None;
    }
    let group = copy_range(pat, open + 1, close);
    let alts = split_chars(&group, ',');
    let mut out: Vec<Vec<char>> = Vec::new();
    let mut a: usize = 0;
    let ghost prefix = pat@.take(open as int);
    let ghost suffix = pat@.subrange(close + 1, n as int);
    while a < alts.len()
        invariant
            n == pat.len(),
            open < close < n,
            prefix == pat@.take(open as int),
            suffix == pat@.subrange(close + 1, n as int),
            a <= alts.len(),
            chars_views(alts@) == split_on(group@, ','),
            chars_views(out@) == chars_views(alts@).take(a as int).map_values(|alt: Seq<char>| prefix + alt + suffix),
        decreases alts.len() - a,
    {
        let mut item = copy_range(pat, 0, open);
        assert(pat@.subrange(0, open as int) =~= prefix);
        let mut j: usize = 0;
        while j < alts[a].len()
            invariant
                a < alts.len(),
                j <= alts[a as int]@.len(),
                item@ == prefix + alts[a as int]@.take(j as int),
            decreases alts[a as int]@.len() - j,
        {
            item.push(alts[a][j]);
            assert(alts[a as int]@.take(j + 1) =~= alts[a as int]@.take(j as int).push(alts[a as int]@[j as int]));
            j += 1;
        }
        assert(alts[a as int]@.take(j as int) =~= alts[a as int]@);
        let mut t: usize = close + 1;
        while t < n
            invariant
                n == pat.len(),
                a < alts.len(),
                close + 1 <= t <= n,
                item@ == prefix + alts[a as int]@ + pat@.subrange(close + 1, t as int),
            decreases n - t,
        {
            item.push(pat[t]);
            assert(pat@.subrange(close + 1, t + 1) =~= pat@.subrange(close + 1, t as int).push(pat@[t as int]));
            t += 1;
        }
        assert(item@ == prefix + alts[a as int]@ + suffix);
        let ghost before = chars_views(out@);
        out.push(item);
        assert(chars_views(out@) =~= before.push(prefix + alts[a as int]@ + suffix));
        assert(chars_views(alts@).take(a + 1) =~= chars_views(alts@).take(a as int).push(alts[a as int]@));
        assert(chars_views(out@) =~= chars_views(alts@).take(a + 1).map_values(|alt: Seq<char>| prefix + alt + suffix));
        a += 1;
    }
    assert(chars_views(alts@).take(a as int) =~= chars_views(alts@));
    Some(out)
}

/// Whether some `[...]` class of `v` holds a non-ASCII char.
fn has_unicode_class_range(v: &Vec<char>) -> (r: bool)
    ensures
        r == has_unicode_class_range_spec(v@),
{
    let n = v.len();
    let mut i: usize = 0;
    while i < n
        invariant
            n == v.len(),
            i <= n,
            class_range_from(v@, 0) == class_range_from(v@, i as int),
        decreases n - i,
    {
        if v[i] == '[' {
            let close = match find_char(v, i + 1, ']') {
                None => {
                    return false;
                },
                Some(c) => c,
            };
            let mut j: usize = i + 1;
            while j < close
                invariant
                    i < j <= close < n,
                    n == v.len(),
                    v@[i as int] == '[',
                    first_index(v@.skip(i + 1), ']') == Some(close - (i + 1)),
                    class_range_from(v@, 0) == class_range_from(v@, i as int),
                    forall|x: int| i < x < j ==> (v@[x] as u32) < 0x80,
                decreases close - j,
            {
                if (v[j] as u32) >= 0x80 {
                    assert(i < j < close && (v@[j as int] as u32) >= 0x80);
                    assert(class_range_from(v@, i as int));
                    return true;
                }
                j += 1;
            }
            i = close + 1;
        } else {
            i += 1;
        }
    }
    false
}

/// Translate one `--glob` pattern into a `wildcards:` fragment, or give up.
pub fn translate_glob(pat: &str) -> (r: GlobResult)
    ensures
        glob_result_view(r) == translate_glob_spec(pat@),
{
    let cs = chars_of(pat);
    if cs.len() > 0 && cs[0] == '!' {
        return GlobResult::GiveUp;
    }
    let stripped = strip_recursive_marker(pat);
    let sc = chars_of(stripped.as_str());
    let alts = match expand_braces(&sc) {
        None => {
            return GlobResult::GiveUp;
        },
        Some(a) => a,
    };
    let mut k: usize = 0;
    while k < alts.len()
        invariant
            k <= alts.len(),
            !(pat@.len() > 0 && pat@[0] == '!'),
            expand_braces_spec(strip_recursive_marker_spec(pat@)) == Some(chars_views(alts@)),
            forall|x: int| 0 <= x < k ==> !has_unicode_class_range_spec(#[trigger] chars_views(alts@)[x]),
        decreases alts.len() - k,
    {
        if has_unicode_class_range(&alts[k]) {
            assert(has_unicode_class_range_spec(chars_views(alts@)[k as int]));
            return GlobResult::GiveUp;
        }
        k += 1;
    }
    let joined = join_chars(&alts, '|');
    GlobResult::Fragment(string_of_range(&joined, 0, joined.len()))
}

/// The first `c` of `a + seq![c] + b`, when `a` holds none, is right after `a`.
proof fn lemma_first_index_after(a: Seq<char>, b: Seq<char>, c: char)
    requires
        !a.contains(c),
    ensures
        first_index(a + seq![c] + b, c) == Some(a.len() as int),
{
    let s = a + seq![c] + b;
    lemma_first_index(s, c);
    assert(s[a.len() as int] == c);
    match first_index(s, c) {
        Some(k) => {
            if k < a.len() {
                assert(s[k] == a[k]);
            }
        },
        None => {},
    }
}

/// One level of brace expansion keeps what stands around the braces: for
/// `prefix{group}suffix` with no other brace, the alternatives are, in
/// order, `prefix`, one comma-separated piece of `group`, and `suffix`, so
/// `{lib,main}.rs` stands for `lib.rs` and `main.rs`.
pub proof fn lemma_braces_keep_prefix_and_suffix(prefix: Seq<char>, group: Seq<char>, suffix: Seq<char>)
    requires
        !has_brace(prefix),
        !has_brace(group),
        !has_brace(suffix),
    ensures
        expand_braces_spec(prefix + seq!['{'] + group + seq!['}'] + suffix) matches Some(alts)
            && alts.len() == split_on(group, ',').len()
            && forall|k: int| 0 <= k < alts.len() ==> #[trigger] alts[k] == prefix + split_on(group, ',')[k] + suffix,
{
    let p = prefix + seq!['{'] + group + seq!['}'] + suffix;
    let rest_tail = group + seq!['}'] + suffix;
    assert(p =~= prefix + seq!['{'] + rest_tail);
    lemma_first_index_after(prefix, rest_tail, '{');
    let o = prefix.len() as int;
    let rest = p.skip(o + 1);
    assert(rest =~= group + seq!['}'] + suffix);
    lemma_first_index_after(group, suffix, '}');
    let c = group.len() as int;
    assert(rest.take(c) =~= group);
    assert(rest.skip(c + 1) =~= suffix);
    assert(p.take(o) =~= prefix);
}

proof fn lemma_split_acc_lacks(s: Seq<char>, i: int, cur: Seq<char>, sep: char, x: char)
    requires
        0 <= i <= s.len(),
        !cur.contains(x),
        forall|j: int| i <= j < s.len() ==> s[j] != x,
    ensures
        forall|k: int| 0 <= k < split_acc(s, i, cur, sep).len() ==> !(#[trigger] split_acc(s, i, cur, sep)[k]).contains(x),
    decreases s.len() - i,
{
    if i >= s.len() {
        assert(split_acc(s, i, cur, sep) == seq![cur]);
        assert forall|k: int| 0 <= k < seq![cur].len() implies !(#[trigger] seq![cur][k]).contains(x) by {
            assert(seq![cur][k] == cur);
        }
    } else {
        if s[i] == sep {
            lemma_split_acc_lacks(s, i + 1, Seq::empty(), sep, x);
            let r = split_acc(s, i + 1, Seq::empty(), sep);
            assert(split_acc(s, i, cur, sep) == seq![cur] + r);
            assert forall|k: int| 0 <= k < (seq![cur] + r).len() implies !(#[trigger] (seq![cur] + r)[k]).contains(x) by {
                if k > 0 {
                    assert((seq![cur] + r)[k] == r[k - 1]);
                }
            }
        } else {
            assert forall|j: int| 0 <= j < cur.push(s[i]).len() implies cur.push(s[i])[j] != x by {
                if j < cur.len() {
                    assert(cur.push(s[i])[j] == cur[j]);
                    assert(!cur.contains(x));
                } else {
                    assert(cur.push(s[i])[j] == s[i]);
                }
            }
            assert(!cur.push(s[i]).contains(x));
            lemma_split_acc_lacks(s, i + 1, cur.push(s[i]), sep, x);
            assert(split_acc(s, i, cur, sep) == split_acc(s, i + 1, cur.push(s[i]), sep));
        }
    }
}

proof fn lemma_split_acc_no_sep(s: Seq<char>, i: int, cur: Seq<char>, sep: char)
    requires
        0 <= i <= s.len(),
        forall|j: int| i <= j < s.len() ==> s[j] != sep,
    ensures
        split_acc(s, i, cur, sep) == seq![cur + s.skip(i)],
    decreases s.len() - i,
{
    if i < s.len() {
        lemma_split_acc_no_sep(s, i + 1, cur.push(s[i]), sep);
        assert(cur.push(s[i]) + s.skip(i + 1) =~= cur + s.skip(i));
    } else {
        assert(cur + s.skip(i) =~= cur);
    }
}

proof fn lemma_no_class_without_bracket(s: Seq<char>, i: int)
    requires
        !s.contains('['),
    ensures
        !class_range_from(s, i),
    decreases s.len() - i,
{
    if 0 <= i < s.len() {
        assert(s[i] != '[');
        lemma_no_class_without_bracket(s, i + 1);
    }
}

/// A glob with one brace group and no `/`, `[` or leading `!` becomes the
/// wildcard alternatives `prefix + piece + suffix`, one per comma-separated
/// piece of the group, joined with `|`: `{lib,main}.rs` becomes
/// `lib.rs|main.rs`.
pub proof fn lemma_glob_braces_become_alternatives(prefix: Seq<char>, group: Seq<char>, suffix: Seq<char>)
    requires
        !has_brace(prefix),
        !has_brace(group),
        !has_brace(suffix),
        !prefix.contains('/') && !group.contains('/') && !suffix.contains('/'),
        !prefix.contains('[') && !group.contains('[') && !suffix.contains('['),
        prefix.len() == 0 || prefix[0] != '!',
    ensures
        translate_glob_spec(prefix + seq!['{'] + group + seq!['}'] + suffix)
            == Some(join_with(split_on(group, ',').map_values(|piece: Seq<char>| prefix + piece + suffix), '|')),
{
    let p = prefix + seq!['{'] + group + seq!['}'] + suffix;
    assert forall|j: int| 0 <= j < p.len() implies p[j] != '/' && p[j] != '[' by {
        if j < prefix.len() {
            assert(p[j] == prefix[j]);
        } else if j == prefix.len() {
        } else if j < prefix.len() + 1 + group.len() {
            assert(p[j] == group[j - prefix.len() - 1]);
        } else if j == prefix.len() + 1 + group.len() {
        } else {
            assert(p[j] == suffix[j - prefix.len() - 2 - group.len()]);
        }
    }
    lemma_split_acc_no_sep(p, 0, Seq::empty(), '/');
    assert(p.skip(0) =~= p);
    assert(Seq::<char>::empty() + p =~= p);
    assert(split_on(p, '/') == seq![p]);
    assert(p[prefix.len() as int] == '{');
    assert(p != seq!['*', '*']) by {
        if p.len() == 2 {
            assert(p[prefix.len() as int] == '{');
        }
    }
    assert(seq![p].drop_last() =~= Seq::<Seq<char>>::empty());
    assert(seq![p].last() == p);
    assert(drop_globstar(Seq::<Seq<char>>::empty()) =~= Seq::<Seq<char>>::empty());
    assert(drop_globstar(seq![p]) =~= seq![p]);
    assert(strip_recursive_marker_spec(p) == p);
    if prefix.len() > 0 {
        assert(p[0] == prefix[0]);
    }
    lemma_braces_keep_prefix_and_suffix(prefix, group, suffix);
    let pieces = split_on(group, ',');
    let alts = pieces.map_values(|piece: Seq<char>| prefix + piece + suffix);
    assert(expand_braces_spec(p) == Some(alts)) by {
        let e = expand_braces_spec(p)->0;
        assert(e =~= alts);
    }
    lemma_split_acc_lacks(group, 0, Seq::empty(), ',', '[');
    assert forall|k: int| 0 <= k < alts.len() implies !has_unicode_class_range_spec(#[trigger] alts[k]) by {
        let a = alts[k];
        assert(a == prefix + pieces[k] + suffix);
        assert(!pieces[k].contains('['));
        assert(!a.contains('[')) by {
            if a.contains('[') {
                let j = choose|j: int| 0 <= j < a.len() && a[j] == '[';
                if j < prefix.len() {
                    assert(a[j] == prefix[j]);
                } else if j < prefix.len() + pieces[k].len() {
                    assert(a[j] == pieces[k][j - prefix.len()]);
                } else {
                    assert(a[j] == suffix[j - prefix.len() - pieces[k].len()]);
                }
            }
        }
        lemma_no_class_without_bracket(a, 0);
    }
}

} // verus!
