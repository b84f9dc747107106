//! Character-level helpers over `str`: whitespace trimming, line splitting
//! and bounded previews.

use vstd::prelude::*;

verus! {

/// The Unicode `White_Space` code points.
pub open spec fn is_space(c: char) -> bool {
    let u = c as u32;
    (0x9 <= u && u <= 0xd) || u == 0x20 || u == 0x85 || u == 0xa0 || u == 0x1680 || (0x2000 <= u
        && u <= 0x200a) || u == 0x2028 || u == 0x2029 || u == 0x202f || u == 0x205f || u == 0x3000
}

/// `s` without its leading and trailing white space.
pub open spec fn trim(s: Seq<char>) -> Seq<char>
    decreases s.len(),
{
    if s.len() == 0 {
        s
    } else if is_space(s[0]) {
        trim(s.drop_first())
    } else if is_space(s.last()) {
        trim(s.drop_last())
    } else {
        s
    }
}

/// Index of the first line feed in `s`, or its length when it holds none.
pub open spec fn newline_at(s: Seq<char>) -> nat
    decreases s.len(),
{
    if s.len() == 0 || s[0] == '\n' {
        0
    } else {
        1 + newline_at(s.drop_first())
    }
}

/// A line without the carriage return of a `\r\n` ending.
pub open spec fn strip_cr(line: Seq<char>) -> Seq<char> {
    if line.len() > 0 && line.last() == '\r' {
        line.drop_last()
    } else {
        line
    }
}

/// The lines of `s`: split at `\n` or `\r\n`; a final line ending adds no
/// empty line, and an empty text has no lines.
pub open spec fn lines(s: Seq<char>) -> Seq<Seq<char>>
    decreases s.len(),
{
    if s.len() == 0 {
        seq![]
    } else {
        let k = newline_at(s);
        if k >= s.len() {
            seq![s]
        } else {
            seq![strip_cr(s.take(k as int))] + lines(s.skip(k + 1 as int))
        }
    }
}

/// The lines joined with `\n` between each two.
pub open spec fn join_lines(ls: Seq<Seq<char>>) -> Seq<char>
    decreases ls.len(),
{
    if ls.len() == 0 {
        seq![]
    } else if ls.len() == 1 {
        ls[0]
    } else {
        join_lines(ls.drop_last()) + seq!['\n'] + ls.last()
    }
}

/// The first `max_chars` characters of `s`, with an ellipsis when some were cut.
pub open spec fn preview(s: Seq<char>, max_chars: nat) -> Seq<char> {
    if s.len() > max_chars {
        s.take(max_chars as int) + seq!['\u{2026}']
    } else {
        s
    }
}

pub fn is_space_char(c: char) -> (r: bool)
    ensures
        r == is_space(c),
{
    let u = c as u32;
    (0x9 <= u && u <= 0xd) || u == 0x20 || u == 0x85 || u == 0xa0 || u == 0x1680 || (0x2000 <= u
        && u <= 0x200a) || u == 0x2028 || u == 0x2029 || u == 0x202f || u == 0x205f || u == 0x3000
}

/// The characters of `s`, one per element.
pub fn chars_of(s: &str) -> (v: Vec<char>)
    ensures
        v@ == s@,
{
    let n = s.unicode_len();
    let mut v: Vec<char> = Vec::new();
    let mut i: usize = 0;
    while i < n
        invariant
            n == s@.len(),
            i <= n,
            v@ == s@.take(i as int),
        decreases n - i,
    {
        v.push(s.get_char(i));
        i = i + 1;
        assert(v@ =~= s@.take(i as int));
    }
    assert(v@ =~= s@);
    v
}

/// Bounds `(a, b)` such that `v[a..b]` is `v[lo..hi]` trimmed.
pub fn trim_bounds(v: &Vec<char>, lo: usize, hi: usize) -> (r: (usize, usize))
    requires
        lo <= hi <= v@.len(),
    ensures
        lo <= r.0 <= r.1 <= hi,
        v@.subrange(r.0 as int, r.1 as int) == trim(v@.subrange(lo as int, hi as int)),
{
    let mut i = lo;
    while i < hi && is_space_char(v[i])
        invariant
            lo <= i <= hi <= v@.len(),
            trim(v@.subrange(lo as int, hi as int)) == trim(v@.subrange(i as int, hi as int)),
        decreases hi - i,
    {
        assert(v@.subrange(i as int, hi as int).drop_first() =~= v@.subrange(i + 1, hi as int));
        i = i + 1;
    }
    let mut j = hi;
    while j > i && is_space_char(v[j - 1])
        invariant
            lo <= i <= j <= hi <= v@.len(),
            i < j ==> !is_space(v@[i as int]),
            trim(v@.subrange(lo as int, hi as int)) == trim(v@.subrange(i as int, j as int)),
        decreases j - i,
    {
        assert(v@.subrange(i as int, j as int).drop_last() =~= v@.subrange(i as int, j - 1));
        j = j - 1;
    }
    (i, j)
}

/// Proves that `k` is where `newline_at` stops in `s`.
pub proof fn lemma_newline_at(s: Seq<char>, k: nat)
    requires
        k <= s.len(),
        forall|i: int| 0 <= i < k ==> s[i] != '\n',
        k < s.len() ==> s[k as int] == '\n',
    ensures
        newline_at(s) == k,
    decreases k,
{
    if k > 0 {
        lemma_newline_at(s.drop_first(), (k - 1) as nat);
    }
}

/// Index of the first `\n` in `v` at or after `p`, or the length of `v`.
pub fn find_newline(v: &Vec<char>, p: usize) -> (k: usize)
    requires
        p <= v@.len(),
    ensures
        p <= k <= v@.len(),
        newline_at(v@.subrange(p as int, v@.len() as int)) == k - p,
        k < v@.len() ==> v@[k as int] == '\n',
{
    let mut k = p;
    while k < v.len() && v[k] != '\n'
        invariant
            p <= k <= v@.len(),
            forall|i: int| p <= i < k ==> v@[i] != '\n',
        decreases v@.len() - k,
    {
        k = k + 1;
    }
    proof {
        lemma_newline_at(v@.subrange(p as int, v@.len() as int), (k - p) as nat);
    }
    k
}

/// The first `max_chars` characters of `content`, followed by an ellipsis
/// when the text is longer than that.
pub fn truncate_preview(content: &str, max_chars: usize) -> (r: String)
    ensures
        r@ == preview(content@, max_chars as nat),
{
    let n = content.unicode_len();
    if n > max_chars {
        let mut r = String::from_str(content.substring_char(0, max_chars));
        let ellipsis = "\u{2026}";
        proof {
            reveal_strlit("\u{2026}");
        }
        r.append(ellipsis);
        r
    } else {
        String::from_str(content)
    }
}

} // verus!
