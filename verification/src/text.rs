//! Small string helpers shared by the rest of the library: moving between
//! `String` and a vector of chars, and building strings piece by piece.

use vstd::prelude::*;

verus! {

/// `String::push`: appends one char at the end of the string.
#[verifier::external_body]
pub(crate) fn push_char(s: &mut String, c: char)
    ensures
        final(s)@ == old(s)@.push(c),
{
    s.push(c)
}

/// `String::push_str`: appends the text of `t` at the end of the string.
#[verifier::external_body]
pub(crate) fn push_str(s: &mut String, t: &str)
    ensures
        final(s)@ == old(s)@ + t@,
{
    s.push_str(t)
}

/// The chars of `s`, in order.
pub fn chars_of(s: &str) -> (v: Vec<char>)
    ensures
        v@ == s@,
{
    let mut v: Vec<char> = Vec::new();
    for c in it: s.chars()
        invariant
            v@ == it.seq().take(it.index() as int),
            it.seq() == s@,
    {
        v.push(c);
    }
    v
}

/// A string made of the chars of `v[from..to]`.
pub fn string_of_range(v: &Vec<char>, from: usize, to: usize) -> (s: String)
    requires
        from <= to <= v.len(),
    ensures
        s@ == v@.subrange(from as int, to as int),
{
    let mut s = String::new();
    let mut i: usize = from;
    while i < to
        invariant
            from <= i <= to <= v.len(),
            s@ == v@.subrange(from as int, i as int),
        decreases to - i,
    {
        push_char(&mut s, v[i]);
        assert(v@.subrange(from as int, i + 1) =~= v@.subrange(from as int, i as int).push(v@[i as int]));
        i += 1;
    }
    s
}

/// A string made of all the chars of `v`.
pub fn string_of(v: &Vec<char>) -> (s: String)
    ensures
        s@ == v@,
{
    let s = string_of_range(v, 0, v.len());
    assert(v@.subrange(0, v@.len() as int) =~= v@);
    s
}

/// A fresh copy of `s`.
pub fn owned(s: &str) -> (r: String)
    ensures
        r@ == s@,
{
    let mut r = String::new();
    push_str(&mut r, s);
    assert(Seq::<char>::empty() + s@ =~= s@);
    r
}

/// Whether `c` occurs in `s`.
pub fn contains_char(s: &str, c: char) -> (b: bool)
    ensures
        b == s@.contains(c),
{
    let v = chars_of(s);
    let mut i: usize = 0;
    while i < v.len()
        invariant
            v@ == s@,
            i <= v.len(),
            forall|j: int| 0 <= j < i ==> v@[j] != c,
        decreases v.len() - i,
    {
        if v[i] == c {
            assert(s@[i as int] == c);
            return true;
        }
        i += 1;
    }
    false
}

/// Whether the char sequences of two strings are equal.
pub fn same_text(a: &str, b: &str) -> (r: bool)
    ensures
        r == (a@ == b@),
{
    let x = chars_of(a);
    let y = chars_of(b);
    if x.len() != y.len() {
        return false;
    }
    let mut i: usize = 0;
    while i < x.len()
        invariant
            x@ == a@,
            y@ == b@,
            x.len() == y.len(),
            i <= x.len(),
            forall|j: int| 0 <= j < i ==> x@[j] == y@[j],
        decreases x.len() - i,
    {
        if x[i] != y[i] {
            return false;
        }
        i += 1;
    }
    assert(x@ =~= y@);
    true
}

/// The char of a decimal digit.
pub open spec fn digit_char(d: nat) -> char {
    (48 + d) as char
}

/// Decimal notation of `n`, without leading zeros.
pub open spec fn decimal_spec(n: nat) -> Seq<char>
    decreases n,
{
    if n < 10 {
        seq![digit_char(n)]
    } else {
        decimal_spec(n / 10).push(digit_char(n % 10))
    }
}

fn digit(d: u64) -> (c: char)
    requires
        d < 10,
    ensures
        c == digit_char(d as nat),
{
    let b: u8 = 48u8 + d as u8;
    b as char
}

fn decimal_into(n: u64, out: &mut String)
    ensures
        final(out)@ == old(out)@ + decimal_spec(n as nat),
    decreases n,
{
    if n >= 10 {
        decimal_into(n / 10, out);
    }
    push_char(out, digit(n % 10));
    proof {
        if n >= 10 {
            assert(old(out)@ + decimal_spec(n as nat) =~= old(out)@ + decimal_spec((n / 10) as nat) + seq![digit_char((n % 10) as nat)]);
        } else {
            assert(old(out)@ + decimal_spec(n as nat) =~= old(out)@.push(digit_char((n % 10) as nat)));
        }
    }
}

/// Decimal notation of `n`.
pub fn decimal(n: u64) -> (s: String)
    ensures
        s@ == decimal_spec(n as nat),
{
    let mut s = String::new();
    decimal_into(n, &mut s);
    assert(Seq::<char>::empty() + decimal_spec(n as nat) =~= decimal_spec(n as nat));
    s
}

/// The pieces of `s` between occurrences of `sep` (`str::split`): there is
/// always at least one piece, and `k` separators give `k + 1` pieces.
pub open spec fn split_on(s: Seq<char>, sep: char) -> Seq<Seq<char>>
    decreases s.len(),
{
    if s.len() == 0 {
        seq![Seq::<char>::empty()]
    } else {
        let prev = split_on(s.drop_last(), sep);
        if s.last() == sep {
            prev.push(Seq::<char>::empty())
        } else {
            prev.update(prev.len() - 1, prev.last().push(s.last()))
        }
    }
}

pub proof fn lemma_split_on_nonempty(s: Seq<char>, sep: char)
    ensures
        split_on(s, sep).len() >= 1,
    decreases s.len(),
{
    if s.len() > 0 {
        lemma_split_on_nonempty(s.drop_last(), sep);
    }
}

pub open spec fn pieces_view(v: Seq<Vec<char>>) -> Seq<Seq<char>> {
    v.map_values(|p: Vec<char>| p@)
}

/// `s` cut at every `sep`, as `str::split` does.
pub fn split_chars(s: &Vec<char>, sep: char) -> (r: Vec<Vec<char>>)
    ensures
        pieces_view(r@) == split_on(s@, sep),
{
    let mut pieces: Vec<Vec<char>> = Vec::new();
    let mut cur: Vec<char> = Vec::new();
    let mut i: usize = 0;
    assert(s@.take(0) =~= Seq::<char>::empty());
    assert(pieces_view(pieces@).push(cur@) =~= seq![Seq::<char>::empty()]);
    while i < s.len()
        invariant
            i <= s.len(),
            split_on(s@.take(i as int), sep) == pieces_view(pieces@).push(cur@),
        decreases s.len() - i,
    {
        let c = s[i];
        let ghost before = pieces_view(pieces@).push(cur@);
        assert(s@.take(i + 1).drop_last() =~= s@.take(i as int));
        assert(s@.take(i + 1).last() == c);
        if c == sep {
            let mut done: Vec<char> = Vec::new();
            std::mem::swap(&mut done, &mut cur);
            pieces.push(done);
            assert(pieces_view(pieces@).push(cur@) =~= before.push(Seq::<char>::empty()));
        } else {
            let ghost old_cur = cur@;
            cur.push(c);
            assert(pieces_view(pieces@).push(cur@) =~= before.update(before.len() - 1, before.last().push(c)));
        }
        i += 1;
    }
    assert(s@.take(s.len() as int) =~= s@);
    let ghost before = pieces_view(pieces@).push(cur@);
    pieces.push(cur);
    assert(pieces_view(pieces@) =~= before);
    pieces
}

/// The lines of a text (`str::lines`): cut at each `'\n'`, with no empty
/// last line after a final newline.
pub open spec fn lines_of(body: Seq<char>) -> Seq<Seq<char>> {
    if body.len() == 0 {
        Seq::empty()
    } else if body.last() == '\n' {
        split_on(body, '\n').drop_last()
    } else {
        split_on(body, '\n')
    }
}

/// `line` without its trailing `'\r'`s.
pub open spec fn trim_cr(line: Seq<char>) -> Seq<char>
    decreases line.len(),
{
    if line.len() > 0 && line.last() == '\r' {
        trim_cr(line.drop_last())
    } else {
        line
    }
}

/// The lines of `body`, as `str::lines` gives them.
pub fn lines_chars(body: &Vec<char>) -> (r: Vec<Vec<char>>)
    ensures
        pieces_view(r@) == lines_of(body@),
{
    if body.len() == 0 {
        let r: Vec<Vec<char>> = Vec::new();
        assert(pieces_view(r@) =~= Seq::<Seq<char>>::empty());
        return r;
    }
    let mut parts = split_chars(body, '\n');
    if body[body.len() - 1] == '\n' {
        proof {
            lemma_split_on_nonempty(body@, '\n');
        }
        let ghost before = pieces_view(parts@);
        parts.pop();
        assert(pieces_view(parts@) =~= before.drop_last());
    }
    parts
}

/// The length of `line` without its trailing `'\r'`s.
pub fn trimmed_len(line: &Vec<char>) -> (n: usize)
    ensures
        n <= line.len(),
        line@.take(n as int) == trim_cr(line@),
{
    let mut end: usize = line.len();
    assert(line@.take(end as int) =~= line@);
    while end > 0 && line[end - 1] == '\r'
        invariant
            end <= line.len(),
            trim_cr(line@) == trim_cr(line@.take(end as int)),
        decreases end,
    {
        assert(line@.take(end as int).drop_last() =~= line@.take(end - 1));
        end -= 1;
    }
    end
}

/// The value of a run of ASCII digits.
pub open spec fn digits_value(s: Seq<char>) -> nat
    decreases s.len(),
{
    if s.len() == 0 {
        0
    } else {
        digits_value(s.drop_last()) * 10 + ((s.last() as u32) - 48) as nat
    }
}

pub open spec fn all_digits(s: Seq<char>) -> bool {
    forall|i: int| 0 <= i < s.len() ==> '0' <= #[trigger] s[i] <= '9'
}

/// The number `str::parse` reads for an unsigned integer type: an optional
/// `+`, then one or more ASCII digits and nothing else.
pub open spec fn parse_unsigned_spec(s: Seq<char>) -> Option<nat> {
    let body = if s.len() > 0 && s[0] == '+' { s.drop_first() } else { s };
    if body.len() > 0 && all_digits(body) { Some(digits_value(body)) } else { None }
}

/// `str::parse::<u64>`: the number, or `None` when the text is not one or
/// it does not fit.
pub fn parse_u64(s: &str) -> (r: Option<u64>)
    ensures
        match parse_unsigned_spec(s@) {
            Some(n) => if n <= u64::MAX { r == Some(n as u64) } else { r is None },
            None => r is None,
        },
{
    let v = chars_of(s);
    let start: usize = if v.len() > 0 && v[0] == '+' { 1 } else { 0 };
    let ghost body = if s@.len() > 0 && s@[0] == '+' { s@.drop_first() } else { s@ };
    assert(body =~= v@.skip(start as int));
    if start == v.len() {
        return None;
    }
    let mut acc: u64 = 0;
    let mut overflow = false;
    let mut i: usize = start;
    assert(body.take(0) =~= Seq::<char>::empty());
    while i < v.len()
        invariant
            start <= i <= v.len(),
            v@ == s@,
            body == (if s@.len() > 0 && s@[0] == '+' { s@.drop_first() } else { s@ }),
            body =~= v@.skip(start as int),
            all_digits(body.take(i - start)),
            !overflow ==> acc == digits_value(body.take(i - start)),
            overflow ==> digits_value(body.take(i - start)) > u64::MAX,
        decreases v.len() - i,
    {
        let c = v[i];
        assert(body.take(i - start + 1).drop_last() =~= body.take(i - start));
        assert(body.take(i - start + 1).last() == c);
        if !('0' <= c && c <= '9') {
            assert(!all_digits(body)) by {
                assert(body[i - start] == c);
            }
            return None;
        }
        let d: u64 = (c as u32 - 48) as u64;
        assert(all_digits(body.take(i - start + 1))) by {
            assert forall|j: int| 0 <= j < i - start + 1 implies '0' <= #[trigger] body.take(i - start + 1)[j] <= '9' by {
                if j < i - start {
                    assert(body.take(i - start + 1)[j] == body.take(i - start)[j]);
                }
            }
        }
        if overflow {
            assert(digits_value(body.take(i - start + 1)) >= digits_value(body.take(i - start))) by (nonlinear_arith)
                requires digits_value(body.take(i - start + 1)) == digits_value(body.take(i - start)) * 10 + d;
        } else if acc > (u64::MAX - d) / 10 {
            overflow = true;
            assert(acc * 10 + d > u64::MAX) by (nonlinear_arith)
                requires acc > (u64::MAX - d) / 10, d <= 9;
        } else {
            assert(acc * 10 + d <= u64::MAX) by (nonlinear_arith)
                requires acc <= (u64::MAX - d) / 10, d <= 9;
            acc = acc * 10 + d;
        }
        i += 1;
    }
    assert(body.take(i - start) =~= body);
    if overflow { None } else { Some(acc) }
}

} // verus!
