//! Text operations on character sequences, each stated as a recursive spec
//! function and computed by a loop proved against it.

use vstd::prelude::*;
use vstd::string::*;

verus! {

/// The Unicode `White_Space` property.
pub open spec fn is_white_space(c: char) -> bool {
    let u = c as u32;
    ||| 0x09 <= u <= 0x0d
    ||| u == 0x20
    ||| u == 0x85
    ||| u == 0xa0
    ||| u == 0x1680
    ||| 0x2000 <= u <= 0x200a
    ||| u == 0x2028
    ||| u == 0x2029
    ||| u == 0x202f
    ||| u == 0x205f
    ||| u == 0x3000
}

/// Relies on `char::is_whitespace`, which tests the Unicode `White_Space`
/// property.
#[verifier::external_body]
fn is_whitespace(c: char) -> (r: bool)
    ensures
        r == is_white_space(c),
{
    c.is_whitespace()
}

/// The views of a sequence of strings.
pub open spec fn views(v: Seq<String>) -> Seq<Seq<char>> {
    v.map_values(|x: String| x@)
}

/// The views of a sequence grow by the view of the pushed string.
pub proof fn lemma_views_push(v: Seq<String>, x: String)
    ensures
        views(v.push(x)) == views(v).push(x@),
{
    assert(views(v.push(x)) =~= views(v).push(x@));
}

/// `s` without its trailing white space.
pub open spec fn trim_end(s: Seq<char>) -> Seq<char>
    decreases s.len(),
{
    if s.len() > 0 && is_white_space(s.last()) {
        trim_end(s.drop_last())
    } else {
        s
    }
}

/// Whether `c` belongs to the framing of a comment line: a space, a slash or
/// an asterisk.
pub open spec fn is_frame_char(c: char) -> bool {
    c == ' ' || c == '/' || c == '*'
}

/// `s` without its leading framing characters.
pub open spec fn trim_frame(s: Seq<char>) -> Seq<char>
    decreases s.len(),
{
    if s.len() > 0 && is_frame_char(s[0]) {
        trim_frame(s.drop_first())
    } else {
        s
    }
}

/// `s` without every leading repetition of the non-empty `pre`.
pub open spec fn strip_all(s: Seq<char>, pre: Seq<char>) -> Seq<char>
    decreases s.len(),
{
    if pre.len() > 0 && pre.is_prefix_of(s) {
        strip_all(s.skip(pre.len() as int), pre)
    } else {
        s
    }
}

/// The first position `k >= i` at which `pat` occurs in `s`.
pub open spec fn find_from(s: Seq<char>, pat: Seq<char>, i: int) -> Option<int>
    decreases s.len() - i,
{
    if i < 0 || pat.len() == 0 || i + pat.len() > s.len() {
        None
    } else if pat.is_prefix_of(s.skip(i)) {
        Some(i)
    } else {
        find_from(s, pat, i + 1)
    }
}

/// The pieces of `s` from `start` on, split at each occurrence of `sep`
/// from left to right (an empty `sep` occurs nowhere).
pub open spec fn split_from(s: Seq<char>, sep: Seq<char>, start: int) -> Seq<Seq<char>>
    decreases s.len() - start,
{
    match find_from(s, sep, start) {
        Some(k) => if k + sep.len() > start && start >= 0 && k + sep.len() <= s.len() {
            seq![s.subrange(start, k)] + split_from(s, sep, k + sep.len())
        } else {
            seq![]
        },
        None => seq![s.subrange(start, s.len() as int)],
    }
}

/// `s` from `start` on, with every occurrence of `pat` removed from left to
/// right.
pub open spec fn remove_from(s: Seq<char>, pat: Seq<char>, start: int) -> Seq<char>
    decreases s.len() - start,
{
    match find_from(s, pat, start) {
        Some(k) => if k + pat.len() > start && start >= 0 && k + pat.len() <= s.len() {
            s.subrange(start, k) + remove_from(s, pat, k + pat.len())
        } else {
            seq![]
        },
        None => s.subrange(start, s.len() as int),
    }
}

/// A line without the `'\r'` of a CRLF ending.
pub open spec fn strip_cr(l: Seq<char>) -> Seq<char> {
    if l.len() > 0 && l.last() == '\r' {
        l.drop_last()
    } else {
        l
    }
}

/// The lines of `s` from `start` on: pieces ended by `'\n'` (or by a CRLF
/// pair); a final line needs no ending, and an empty text has no lines.
pub open spec fn lines_from(s: Seq<char>, start: int) -> Seq<Seq<char>>
    decreases s.len() - start,
{
    if start < 0 || start >= s.len() {
        seq![]
    } else {
        match find_from(s, seq!['\n'], start) {
            Some(k) => if start <= k < s.len() {
                seq![strip_cr(s.subrange(start, k))] + lines_from(s, k + 1)
            } else {
                seq![]
            },
            None => seq![s.subrange(start, s.len() as int)],
        }
    }
}

/// The lines of `s`.
pub open spec fn lines(s: Seq<char>) -> Seq<Seq<char>> {
    lines_from(s, 0)
}

/// The pieces of `s`, split at each occurrence of `sep`.
pub open spec fn split(s: Seq<char>, sep: Seq<char>) -> Seq<Seq<char>> {
    split_from(s, sep, 0)
}

/// `s` with every occurrence of `pat` removed.
pub open spec fn remove_all(s: Seq<char>, pat: Seq<char>) -> Seq<char> {
    remove_from(s, pat, 0)
}

/// The lines of `ls` joined, with a `'\n'` between each two.
pub open spec fn join_lines(ls: Seq<Seq<char>>) -> Seq<char>
    decreases ls.len(),
{
    if ls.len() == 0 {
        seq![]
    } else if ls.len() == 1 {
        ls[0]
    } else {
        join_lines(ls.drop_last()) + seq!['\n'] + ls.last()
    }
}

/// Whether `pat` occurs in `s` at position `i`.
pub fn occurs_at(s: &str, pat: &str, i: usize) -> (r: bool)
    requires
        i <= s@.len(),
    ensures
        r == pat@.is_prefix_of(s@.skip(i as int)),
{
    let n = s.unicode_len();
    let m = pat.unicode_len();
    if m > n - i {
        return false;
    }
    let mut k: usize = 0;
    while k < m
        invariant
            n == s@.len(),
            m == pat@.len(),
            i + m <= n,
            k <= m,
            forall|t: int| 0 <= t < k ==> pat@[t] == s@[i + t],
        decreases m - k,
    {
        if pat.get_char(k) != s.get_char(i + k) {
            assert(pat@[k as int] != s@.skip(i as int)[k as int]);
            return false;
        }
        k = k + 1;
    }
    assert(pat@ =~= s@.skip(i as int).subrange(0, m as int));
    true
}

/// Whether `a` and `b` hold the same characters.
pub fn same_text(a: &str, b: &str) -> (r: bool)
    ensures
        r == (a@ == b@),
{
    if a.unicode_len() != b.unicode_len() {
        return false;
    }
    let r = occurs_at(a, b, 0);
    assert(a@.skip(0) =~= a@);
    proof {
        if r {
            assert(b@ =~= a@);
        }
    }
    r
}

/// Whether `s` starts with `pre`.
pub fn starts_with(s: &str, pre: &str) -> (r: bool)
    ensures
        r == pre@.is_prefix_of(s@),
{
    let r = occurs_at(s, pre, 0);
    assert(s@.skip(0) =~= s@);
    r
}

/// The first position from `i` on at which `pat` occurs in `s`.
pub fn find(s: &str, pat: &str, i: usize) -> (r: Option<usize>)
    requires
        i <= s@.len(),
    ensures
        r matches Some(k) ==> find_from(s@, pat@, i as int) == Some(k as int),
        r is None ==> find_from(s@, pat@, i as int) is None,
        r matches Some(k) ==> i <= k && k + pat@.len() <= s@.len(),
{
    let n = s.unicode_len();
    let m = pat.unicode_len();
    if m == 0 || m > n {
        return None;
    }
    let mut k: usize = i;
    while k <= n - m
        invariant
            n == s@.len(),
            m == pat@.len(),
            0 < m <= n,
            i <= k <= n,
            find_from(s@, pat@, i as int) == find_from(s@, pat@, k as int),
        decreases n - k,
    {
        if occurs_at(s, pat, k) {
            return Some(k);
        }
        k = k + 1;
    }
    None
}

/// The characters of `s` from `a` to `b`, as a new string.
pub fn slice(s: &str, a: usize, b: usize) -> (r: String)
    requires
        a <= b <= s@.len(),
    ensures
        r@ == s@.subrange(a as int, b as int),
{
    String::from_str(s.substring_char(a, b))
}

/// `s` without its trailing white space.
pub fn trim_end_of(s: &str) -> (r: String)
    ensures
        r@ == trim_end(s@),
{
    let mut e = s.unicode_len();
    assert(s@.subrange(0, e as int) =~= s@);
    while e > 0 && is_whitespace(s.get_char(e - 1))
        invariant
            e <= s@.len(),
            trim_end(s@) == trim_end(s@.subrange(0, e as int)),
        decreases e,
    {
        assert(s@.subrange(0, e as int).drop_last() =~= s@.subrange(0, e as int - 1));
        e = e - 1;
    }
    slice(s, 0, e)
}

/// `s` without its leading framing characters.
pub fn trim_frame_of(s: &str) -> (r: String)
    ensures
        r@ == trim_frame(s@),
{
    let n = s.unicode_len();
    let mut b: usize = 0;
    assert(s@.skip(0) =~= s@);
    while b < n && (s.get_char(b) == ' ' || s.get_char(b) == '/' || s.get_char(b) == '*')
        invariant
            n == s@.len(),
            b <= n,
            trim_frame(s@) == trim_frame(s@.skip(b as int)),
        decreases n - b,
    {
        assert(s@.skip(b as int).drop_first() =~= s@.skip(b as int + 1));
        b = b + 1;
    }
    assert(s@.skip(b as int) =~= s@.subrange(b as int, n as int));
    slice(s, b, n)
}

/// `s` without every leading repetition of `pre`.
pub fn strip_all_of(s: &str, pre: &str) -> (r: String)
    ensures
        r@ == strip_all(s@, pre@),
{
    let n = s.unicode_len();
    let m = pre.unicode_len();
    let mut b: usize = 0;
    assert(s@.skip(0) =~= s@);
    while m > 0 && b <= n && occurs_at(s, pre, b)
        invariant
            n == s@.len(),
            m == pre@.len(),
            b <= n,
            strip_all(s@, pre@) == strip_all(s@.skip(b as int), pre@),
        decreases n - b,
    {
        assert(s@.skip(b as int).skip(m as int) =~= s@.skip(b as int + m as int));
        b = b + m;
    }
    assert(s@.skip(b as int) =~= s@.subrange(b as int, n as int));
    slice(s, b, n)
}

/// The pieces of `s`, split at each occurrence of `sep`.
pub fn split_at_each(s: &str, sep: &str) -> (r: Vec<String>)
    ensures
        views(r@) == split(s@, sep@),
{
    let n = s.unicode_len();
    let mut out: Vec<String> = Vec::new();
    let mut start: usize = 0;
    loop
        invariant
            n == s@.len(),
            start <= n,
            split(s@, sep@) == views(out@) + split_from(s@, sep@, start as int),
        decreases n - start,
    {
        match find(s, sep, start) {
            Some(k) => {
                let piece = slice(s, start, k);
                proof {
                    assert(views(out@.push(piece)) =~= views(out@).push(piece@));
                    assert(views(out@) + split_from(s@, sep@, start as int) =~= views(
                        out@.push(piece),
                    ) + split_from(s@, sep@, k + sep@.len()));
                }
                out.push(piece);
                start = k + sep.unicode_len();
            },
            None => {
                let piece = slice(s, start, n);
                proof {
                    assert(views(out@.push(piece)) =~= views(out@) + seq![piece@]);
                }
                out.push(piece);
                return out;
            },
        }
    }
}

/// `s` with every occurrence of `pat` removed.
pub fn remove_each(s: &str, pat: &str) -> (r: String)
    ensures
        r@ == remove_all(s@, pat@),
{
    let n = s.unicode_len();
    let mut out = String::new();
    let mut start: usize = 0;
    loop
        invariant
            n == s@.len(),
            start <= n,
            remove_all(s@, pat@) == out@ + remove_from(s@, pat@, start as int),
        decreases n - start,
    {
        match find(s, pat, start) {
            Some(k) => {
                let ghost before = out@;
                out.append(s.substring_char(start, k));
                proof {
                    assert(before + remove_from(s@, pat@, start as int) =~= out@ + remove_from(
                        s@,
                        pat@,
                        k + pat@.len(),
                    ));
                }
                start = k + pat.unicode_len();
            },
            None => {
                out.append(s.substring_char(start, n));
                return out;
            },
        }
    }
}

/// The lines of `s`.
pub fn lines_of(s: &str) -> (r: Vec<String>)
    ensures
        views(r@) == lines(s@),
{
    let n = s.unicode_len();
    let mut out: Vec<String> = Vec::new();
    let mut start: usize = 0;
    while start < n
        invariant
            n == s@.len(),
            start <= n,
            lines(s@) == views(out@) + lines_from(s@, start as int),
        decreases n - start,
    {
        match find(s, "\n", start) {
            Some(k) => {
                proof {
                    reveal_strlit("\n");
                    assert("\n"@ =~= seq!['\n']);
                }
                let mut e = k;
                if e > start && s.get_char(e - 1) == '\r' {
                    e = e - 1;
                }
                let piece = slice(s, start, e);
                proof {
                    assert(piece@ =~= strip_cr(s@.subrange(start as int, k as int)));
                    assert(views(out@.push(piece)) =~= views(out@).push(piece@));
                    assert(views(out@) + lines_from(s@, start as int) =~= views(out@.push(piece))
                        + lines_from(s@, k + 1));
                }
                out.push(piece);
                start = k + 1;
            },
            None => {
                proof {
                    reveal_strlit("\n");
                    assert("\n"@ =~= seq!['\n']);
                }
                let piece = slice(s, start, n);
                proof {
                    assert(views(out@.push(piece)) =~= views(out@) + seq![piece@]);
                }
                out.push(piece);
                return out;
            },
        }
    }
    assert(views(out@) + lines_from(s@, start as int) =~= views(out@));
    out
}

/// The strings of `ls` joined, with a `'\n'` between each two.
pub fn join_with_newlines(ls: &Vec<String>) -> (r: String)
    ensures
        r@ == join_lines(views(ls@)),
{
    let mut out = String::new();
    let mut i: usize = 0;
    while i < ls.len()
        invariant
            i <= ls@.len(),
            out@ == join_lines(views(ls@).take(i as int)),
        decreases ls@.len() - i,
    {
        proof {
            reveal_strlit("\n");
            assert(views(ls@).take(i as int + 1).drop_last() =~= views(ls@).take(i as int));
        }
        if i > 0 {
            out.append("\n");
        }
        out.append(ls[i].as_str());
        proof {
            if i == 0 {
                assert(out@ =~= views(ls@).take(1)[0]);
            } else {
                assert(out@ =~= join_lines(views(ls@).take(i as int)) + seq!['\n'] + ls@[i as int]@);
            }
        }
        i = i + 1;
    }
    assert(views(ls@).take(ls@.len() as int) =~= views(ls@));
    out
}

} // verus!
