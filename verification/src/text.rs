//! Verified text building blocks: decimal rendering, padding, substring
//! search, occurrence counting, replacement, and line handling. All
//! contracts are stated over `Seq<char>` views.

use vstd::prelude::*;

verus! {

/// The character for a single decimal digit.
pub open spec fn spec_digit(d: nat) -> char {
    if d == 0 {
        '0'
    } else if d == 1 {
        '1'
    } else if d == 2 {
        '2'
    } else if d == 3 {
        '3'
    } else if d == 4 {
        '4'
    } else if d == 5 {
        '5'
    } else if d == 6 {
        '6'
    } else if d == 7 {
        '7'
    } else if d == 8 {
        '8'
    } else {
        '9'
    }
}

/// Decimal digits of `n`, most significant first.
pub open spec fn spec_dec(n: nat) -> Seq<char>
    decreases n,
{
    if n < 10 {
        seq![spec_digit(n)]
    } else {
        spec_dec(n / 10) + seq![spec_digit(n % 10)]
    }
}

/// Decimal rendering of a possibly negative number.
pub open spec fn spec_dec_int(n: int) -> Seq<char> {
    if n < 0 {
        seq!['-'] + spec_dec((-n) as nat)
    } else {
        spec_dec(n as nat)
    }
}

fn digit_str(d: u64) -> (r: &'static str)
    requires
        d < 10,
    ensures
        r@ == seq![spec_digit(d as nat)],
{
    let r: &'static str = match d {
        0 => "0",
        1 => "1",
        2 => "2",
        3 => "3",
        4 => "4",
        5 => "5",
        6 => "6",
        7 => "7",
        8 => "8",
        _ => "9",
    };
    proof {
        reveal_strlit("0");
        reveal_strlit("1");
        reveal_strlit("2");
        reveal_strlit("3");
        reveal_strlit("4");
        reveal_strlit("5");
        reveal_strlit("6");
        reveal_strlit("7");
        reveal_strlit("8");
        reveal_strlit("9");
        assert(r@ =~= seq![spec_digit(d as nat)]);
    }
    r
}

/// Render an unsigned number in decimal.
pub fn u64_to_dec(n: u64) -> (r: String)
    ensures
        r@ == spec_dec(n as nat),
    decreases n,
{
    if n < 10 {
        String::from_str(digit_str(n))
    } else {
        let mut s = u64_to_dec(n / 10);
        s.append(digit_str(n % 10));
        s
    }
}

/// Render a signed number in decimal, with a leading minus sign if negative.
pub fn i64_to_dec(n: i64) -> (r: String)
    ensures
        r@ == spec_dec_int(n as int),
    {
    if n >= 0 {
        u64_to_dec(n as u64)
    } else {
        let m: u64 = if n == i64::MIN {
            9223372036854775808u64
        } else {
            (-n) as u64
        };
        assert(m == -(n as int));
        let mut s = String::from_str("-");
        proof {
            reveal_strlit("-");
            assert(s@ =~= seq!['-']);
        }
        s.append(u64_to_dec(m).as_str());
        s
    }
}

/// A run of `n` spaces.
pub open spec fn spec_spaces(n: nat) -> Seq<char>
    decreases n,
{
    if n == 0 {
        Seq::<char>::empty()
    } else {
        spec_spaces((n - 1) as nat) + seq![' ']
    }
}

/// `s` padded on the left with spaces up to width `w`.
pub open spec fn spec_pad_left(s: Seq<char>, w: nat) -> Seq<char> {
    if s.len() >= w {
        s
    } else {
        spec_spaces((w - s.len()) as nat) + s
    }
}

/// Pad `s` on the left with spaces to at least `w` characters.
pub fn pad_left(s: &str, w: usize) -> (r: String)
    ensures
        r@ == spec_pad_left(s@, w as nat),
{
    let n = s.unicode_len();
    if n >= w {
        let r = String::from_str(s);
        assert(r@ =~= spec_pad_left(s@, w as nat));
        r
    } else {
        let mut out = String::new();
        let mut k: usize = 0;
        while k < w - n
            invariant
                n == s@.len(),
                n < w,
                k <= w - n,
                out@ == spec_spaces(k as nat),
            decreases w - n - k,
        {
            out.append(" ");
            proof {
                reveal_strlit(" ");
                assert(out@ =~= spec_spaces((k + 1) as nat));
            }
            k += 1;
        }
        out.append(s);
        out
    }
}

/// The pattern `p` occurs in `t` at position `i`.
pub open spec fn is_match_at(t: Seq<char>, p: Seq<char>, i: int) -> bool {
    &&& 0 <= i
    &&& i + p.len() <= t.len()
    &&& t.subrange(i, i + p.len() as int) == p
}

/// Whether `p` occurs in `t` starting at position `i`.
pub fn match_at(text: &str, pat: &str, i: usize) -> (b: bool)
    ensures
        b == is_match_at(text@, pat@, i as int),
{
    let n = text.unicode_len();
    let m = pat.unicode_len();
    if i > n || m > n - i {
        return false;
    }
    let mut j: usize = 0;
    while j < m
        invariant
            j <= m,
            i + m <= n,
            n == text@.len(),
            m == pat@.len(),
            forall|k: int| 0 <= k < j ==> text@[i + k] == pat@[k],
        decreases m - j,
    {
        let tc = text.get_char(i + j);
        let pc = pat.get_char(j);
        if tc != pc {
            proof {
                if is_match_at(text@, pat@, i as int) {
                    assert(text@.subrange(i as int, i + m as int)[j as int] == text@[i + j]);
                }
            }
            return false;
        }
        j += 1;
    }
    proof {
        assert(text@.subrange(i as int, i + m as int) =~= pat@);
    }
    true
}

/// Whether two strings hold the same characters.
pub fn str_eq(a: &str, b: &str) -> (r: bool)
    ensures
        r == (a@ == b@),
{
    let na = a.unicode_len();
    let nb = b.unicode_len();
    if na != nb {
        return false;
    }
    let m = match_at(a, b, 0);
    proof {
        assert(a@.subrange(0, nb as int) =~= a@);
    }
    m
}

/// Count of non-overlapping occurrences of `p` in `t`, scanning from the
/// left, as string search reports them. An empty pattern matches once at
/// every position, including the end.
pub open spec fn spec_count(t: Seq<char>, p: Seq<char>) -> nat
    decreases t.len(),
{
    if p.len() == 0 {
        t.len() + 1
    } else if t.len() < p.len() {
        0
    } else if t.subrange(0, p.len() as int) == p {
        1 + spec_count(t.skip(p.len() as int), p)
    } else {
        spec_count(t.skip(1), p)
    }
}

proof fn lemma_skip_match(t: Seq<char>, p: Seq<char>, i: int)
    requires
        0 <= i <= t.len(),
        p.len() > 0,
    ensures
        is_match_at(t, p, i) <==> (t.skip(i).len() >= p.len() && t.skip(i).subrange(
            0,
            p.len() as int,
        ) == p),
{
    if i + p.len() <= t.len() {
        assert(t.skip(i).subrange(0, p.len() as int) =~= t.subrange(i, i + p.len() as int));
    }
}

proof fn lemma_skip_skip(t: Seq<char>, i: int, k: int)
    requires
        0 <= i,
        0 <= k,
        i + k <= t.len(),
    ensures
        t.skip(i).skip(k) == t.skip(i + k),
{
    assert(t.skip(i).skip(k) =~= t.skip(i + k));
}

/// Count non-overlapping occurrences of `pat` in `text`.
pub fn count_occurrences(text: &str, pat: &str) -> (c: usize)
    requires
        text@.len() < usize::MAX,
    ensures
        c == spec_count(text@, pat@),
{
    let n = text.unicode_len();
    let m = pat.unicode_len();
    if m == 0 {
        assert(pat@.len() == 0);
        return n + 1;
    }
    let mut i: usize = 0;
    let mut c: usize = 0;
    proof {
        assert(text@.skip(0) =~= text@);
    }
    while i < n
        invariant
            i <= n,
            c <= i,
            n == text@.len(),
            m == pat@.len(),
            m > 0,
            spec_count(text@, pat@) == c + spec_count(text@.skip(i as int), pat@),
        decreases n - i,
    {
        if match_at(text, pat, i) {
            proof {
                lemma_skip_match(text@, pat@, i as int);
                lemma_skip_skip(text@, i as int, pat@.len() as int);
            }
            c += 1;
            i += m;
        } else {
            proof {
                lemma_skip_match(text@, pat@, i as int);
                lemma_skip_skip(text@, i as int, 1);
            }
            i += 1;
        }
    }
    assert(text@.skip(n as int).len() == 0);
    assert(spec_count(text@.skip(n as int), pat@) == 0);
    c
}

/// `t` with every non-overlapping occurrence of `p` (scanning from the
/// left) replaced by `r`. With an empty pattern, `r` is inserted at every
/// position.
pub open spec fn spec_replace(t: Seq<char>, p: Seq<char>, r: Seq<char>) -> Seq<char>
    decreases t.len(),
{
    if p.len() == 0 {
        if t.len() == 0 {
            r
        } else {
            r + seq![t[0]] + spec_replace(t.skip(1), p, r)
        }
    } else if t.len() < p.len() {
        t
    } else if t.subrange(0, p.len() as int) == p {
        r + spec_replace(t.skip(p.len() as int), p, r)
    } else {
        seq![t[0]] + spec_replace(t.skip(1), p, r)
    }
}

/// `t` with only the first occurrence of `p` replaced by `r`.
pub open spec fn spec_replace_first(t: Seq<char>, p: Seq<char>, r: Seq<char>) -> Seq<char>
    decreases t.len(),
{
    if p.len() == 0 {
        r + t
    } else if t.len() < p.len() {
        t
    } else if t.subrange(0, p.len() as int) == p {
        r + t.skip(p.len() as int)
    } else {
        seq![t[0]] + spec_replace_first(t.skip(1), p, r)
    }
}

proof fn lemma_replace_empty_push(t: Seq<char>, p: Seq<char>, r: Seq<char>, c: char)
    requires
        p.len() == 0,
    ensures
        spec_replace(t.push(c), p, r) == spec_replace(t, p, r) + seq![c] + r,
    decreases t.len(),
{
    assert(t.push(c).len() == t.len() + 1);
    assert(spec_replace(t.push(c), p, r) == r + seq![t.push(c)[0]] + spec_replace(
        t.push(c).skip(1),
        p,
        r,
    ));
    if t.len() == 0 {
        assert(t.push(c)[0] == c);
        assert(t.push(c).skip(1) =~= Seq::<char>::empty());
        assert(spec_replace(Seq::<char>::empty(), p, r) == r);
        assert(spec_replace(t, p, r) == r);
        assert(spec_replace(t.push(c), p, r) =~= spec_replace(t, p, r) + seq![c] + r);
    } else {
        assert(t.push(c)[0] == t[0]);
        assert(t.push(c).skip(1) =~= t.skip(1).push(c));
        lemma_replace_empty_push(t.skip(1), p, r, c);
        assert(spec_replace(t, p, r) == r + seq![t[0]] + spec_replace(t.skip(1), p, r));
        assert(spec_replace(t.push(c), p, r) =~= spec_replace(t, p, r) + seq![c] + r);
    }
}

/// Replace every non-overlapping occurrence of `pat` in `text` by `rep`.
pub fn replace_all(text: &str, pat: &str, rep: &str) -> (out: String)
    ensures
        out@ == spec_replace(text@, pat@, rep@),
{
    let n = text.unicode_len();
    let m = pat.unicode_len();
    let mut out = String::new();
    let mut i: usize = 0;
    if m == 0 {
        out.append(rep);
        proof {
            assert(text@.take(0) =~= Seq::<char>::empty());
            assert(out@ =~= spec_replace(text@.take(0), pat@, rep@));
        }
        while i < n
            invariant
                i <= n,
                n == text@.len(),
                pat@.len() == 0,
                out@ == spec_replace(text@.take(i as int), pat@, rep@),
            decreases n - i,
        {
            let piece = text.substring_char(i, i + 1);
            assert(piece@ =~= seq![text@[i as int]]);
            out.append(piece);
            out.append(rep);
            proof {
                lemma_replace_empty_push(text@.take(i as int), pat@, rep@, text@[i as int]);
                assert(text@.take(i + 1) =~= text@.take(i as int).push(text@[i as int]));
            }
            i += 1;
        }
        assert(text@.take(n as int) =~= text@);
        return out;
    }
    proof {
        assert(text@.skip(0) =~= text@);
        assert(out@ + spec_replace(text@, pat@, rep@) =~= spec_replace(text@, pat@, rep@));
    }
    while i < n
        invariant
            i <= n,
            n == text@.len(),
            m == pat@.len(),
            m > 0,
            spec_replace(text@, pat@, rep@) == out@ + spec_replace(
                text@.skip(i as int),
                pat@,
                rep@,
            ),
        decreases n - i,
    {
        if match_at(text, pat, i) {
            proof {
                lemma_skip_match(text@, pat@, i as int);
                lemma_skip_skip(text@, i as int, pat@.len() as int);
            }
            out.append(rep);
            i += m;
        } else {
            proof {
                lemma_skip_match(text@, pat@, i as int);
                assert(text@.skip(i as int)[0] == text@[i as int]);
                lemma_skip_skip(text@, i as int, 1);
            }
            let piece = text.substring_char(i, i + 1);
            assert(piece@ =~= seq![text@[i as int]]);
            out.append(piece);
            i += 1;
        }
    }
    proof {
        assert(text@.skip(n as int) =~= Seq::<char>::empty());
        assert(out@ + spec_replace(text@.skip(n as int), pat@, rep@) =~= out@);
    }
    out
}

/// Replace only the first occurrence of `pat` in `text` by `rep`.
pub fn replace_first(text: &str, pat: &str, rep: &str) -> (out: String)
    ensures
        out@ == spec_replace_first(text@, pat@, rep@),
{
    let n = text.unicode_len();
    let m = pat.unicode_len();
    let mut out = String::new();
    if m == 0 {
        out.append(rep);
        out.append(text);
        return out;
    }
    let mut i: usize = 0;
    proof {
        assert(text@.skip(0) =~= text@);
        assert(out@ + spec_replace_first(text@, pat@, rep@) =~= spec_replace_first(
            text@,
            pat@,
            rep@,
        ));
    }
    while i < n
        invariant
            i <= n,
            n == text@.len(),
            m == pat@.len(),
            m > 0,
            spec_replace_first(text@, pat@, rep@) == out@ + spec_replace_first(
                text@.skip(i as int),
                pat@,
                rep@,
            ),
            out@.len() == i,
        decreases n - i,
    {
        if match_at(text, pat, i) {
            proof {
                lemma_skip_match(text@, pat@, i as int);
                lemma_skip_skip(text@, i as int, pat@.len() as int);
            }
            out.append(rep);
            let rest = text.substring_char(i + m, n);
            proof {
                assert(rest@ =~= text@.skip(i as int).skip(m as int));
            }
            out.append(rest);
            return out;
        } else {
            proof {
                lemma_skip_match(text@, pat@, i as int);
                assert(text@.skip(i as int)[0] == text@[i as int]);
                lemma_skip_skip(text@, i as int, 1);
            }
            let piece = text.substring_char(i, i + 1);
            assert(piece@ =~= seq![text@[i as int]]);
            out.append(piece);
            i += 1;
        }
    }
    proof {
        assert(text@.skip(n as int) =~= Seq::<char>::empty());
        assert(out@ + spec_replace_first(text@.skip(n as int), pat@, rep@) =~= out@);
    }
    out
}

/// Position of the first newline in `t`, or `t.len()` if there is none.
pub open spec fn first_nl(t: Seq<char>) -> nat
    decreases t.len(),
{
    if t.len() == 0 {
        0
    } else if t[0] == '\n' {
        0
    } else {
        1 + first_nl(t.skip(1))
    }
}

/// A line with one trailing carriage return removed.
pub open spec fn strip_cr(s: Seq<char>) -> Seq<char> {
    if s.len() > 0 && s.last() == '\r' {
        s.drop_last()
    } else {
        s
    }
}

/// The lines of `t`: split at each newline, a carriage return before a
/// newline removed, and a final empty segment dropped. A last segment with
/// no newline after it is kept as it stands.
pub open spec fn spec_lines(t: Seq<char>) -> Seq<Seq<char>>
    decreases t.len(),
{
    if t.len() == 0 {
        Seq::<Seq<char>>::empty()
    } else {
        let i = first_nl(t);
        if i >= t.len() {
            seq![t]
        } else {
            seq![strip_cr(t.take(i as int))] + spec_lines(t.skip(i as int + 1))
        }
    }
}

proof fn lemma_first_nl_at(s: Seq<char>, k: int)
    requires
        0 <= k <= s.len(),
        forall|j: int| 0 <= j < k ==> s[j] != '\n',
        k < s.len() ==> s[k] == '\n',
    ensures
        first_nl(s) == k,
    decreases k,
{
    if k == 0 {
    } else {
        assert(s[0] != '\n');
        lemma_first_nl_at(s.skip(1), k - 1);
    }
}

/// Split `s` into its lines.
pub fn split_lines(s: &str) -> (out: Vec<String>)
    ensures
        out.deep_view() == spec_lines(s@),
{
    let n = s.unicode_len();
    let mut out: Vec<String> = Vec::new();
    let mut seg: usize = 0;
    let mut i: usize = 0;
    proof {
        assert(s@.skip(0) =~= s@);
        assert(out.deep_view() + spec_lines(s@) =~= spec_lines(s@));
    }
    while i < n
        invariant
            seg <= i <= n,
            n == s@.len(),
            spec_lines(s@) == out.deep_view() + spec_lines(s@.skip(seg as int)),
            forall|j: int| seg <= j < i ==> s@[j] != '\n',
        decreases n - i,
    {
        let c = s.get_char(i);
        if c == '\n' {
            let ghost suf = s@.skip(seg as int);
            proof {
                assert forall|j: int| 0 <= j < i - seg implies suf[j] != '\n' by {
                    assert(suf[j] == s@[seg + j]);
                }
                assert(suf[i - seg] == s@[i as int]);
                lemma_first_nl_at(suf, i - seg);
            }
            let line = if i > seg && s.get_char(i - 1) == '\r' {
                let l = String::from_str(s.substring_char(seg, i - 1));
                proof {
                    assert(suf.take(i - seg).last() == s@[i - 1]);
                    assert(strip_cr(suf.take(i - seg)) =~= suf.take(i - seg).drop_last());
                    assert(l@ =~= strip_cr(suf.take(i - seg)));
                }
                l
            } else {
                let l = String::from_str(s.substring_char(seg, i));
                proof {
                    if i > seg {
                        assert(suf.take(i - seg).last() == s@[i - 1]);
                    }
                    assert(l@ =~= strip_cr(suf.take(i - seg)));
                }
                l
            };
            let ghost old_dv = out.deep_view();
            out.push(line);
            proof {
                assert(out.deep_view() =~= old_dv + seq![line@]);
                assert(suf.skip(i - seg + 1) =~= s@.skip(i + 1));
                assert(spec_lines(suf) == seq![strip_cr(suf.take(i - seg))] + spec_lines(
                    suf.skip(i - seg + 1),
                ));
                assert(spec_lines(s@) =~= out.deep_view() + spec_lines(s@.skip(i + 1)));
            }
            seg = i + 1;
            i += 1;
        } else {
            i += 1;
        }
    }
    if seg < n {
        let ghost suf = s@.skip(seg as int);
        proof {
            assert forall|j: int| 0 <= j < suf.len() implies suf[j] != '\n' by {
                assert(suf[j] == s@[seg + j]);
            }
            lemma_first_nl_at(suf, suf.len() as int);
        }
        let line = String::from_str(s.substring_char(seg, n));
        let ghost old_dv = out.deep_view();
        out.push(line);
        proof {
            assert(line@ =~= suf);
            assert(out.deep_view() =~= old_dv + seq![line@]);
            assert(spec_lines(suf) == seq![suf]);
            assert(spec_lines(s@) =~= out.deep_view());
        }
    } else {
        proof {
            assert(s@.skip(seg as int) =~= Seq::<char>::empty());
            assert(spec_lines(s@) =~= out.deep_view());
        }
    }
    out
}

/// The elements of `v` joined by newlines.
pub open spec fn spec_join_nl(v: Seq<Seq<char>>) -> Seq<char>
    decreases v.len(),
{
    if v.len() == 0 {
        Seq::<char>::empty()
    } else if v.len() == 1 {
        v[0]
    } else {
        spec_join_nl(v.drop_last()) + seq!['\n'] + v.last()
    }
}

/// Join the elements of `v` with newlines between them.
pub fn join_nl(v: &Vec<String>) -> (out: String)
    ensures
        out@ == spec_join_nl(v.deep_view()),
{
    let mut out = String::new();
    let mut k: usize = 0;
    let n = v.len();
    proof {
        assert(v.deep_view().take(0) =~= Seq::<Seq<char>>::empty());
    }
    while k < n
        invariant
            k <= n,
            n == v@.len(),
            out@ == spec_join_nl(v.deep_view().take(k as int)),
        decreases n - k,
    {
        if k > 0 {
            out.append("\n");
            proof {
                reveal_strlit("\n");
                assert(out@ =~= spec_join_nl(v.deep_view().take(k as int)) + seq!['\n']);
            }
        }
        out.append(v[k].as_str());
        proof {
            let dv = v.deep_view();
            assert(dv.take(k + 1).last() == dv[k as int]);
            assert(dv[k as int] == v@[k as int]@);
            assert(dv.take(k + 1).drop_last() =~= dv.take(k as int));
            if k == 0 {
                assert(out@ =~= dv.take(k + 1)[0]);
                assert(dv.take(k + 1).len() == 1);
            }
            assert(out@ =~= spec_join_nl(dv.take(k + 1)));
        }
        k += 1;
    }
    proof {
        assert(v.deep_view().take(n as int) =~= v.deep_view());
    }
    out
}

} // verus!
