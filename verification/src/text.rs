//! Character-sequence helpers: whitespace, trimming, searching, lines.

use vstd::prelude::*;

verus! {

/// The characters that count as white space (the Unicode `White_Space` set).
pub open spec fn is_space(c: char) -> bool {
    let n = c as u32;
    ||| 0x09 <= n <= 0x0d
    ||| n == 0x20
    ||| n == 0x85
    ||| n == 0xa0
    ||| n == 0x1680
    ||| 0x2000 <= n <= 0x200a
    ||| n == 0x2028
    ||| n == 0x2029
    ||| n == 0x202f
    ||| n == 0x205f
    ||| n == 0x3000
}

/// Tells whether `c` is white space.
pub fn is_whitespace(c: char) -> (b: bool)
    ensures
        b == is_space(c),
{
    let n: u32 = c as u32;
    (0x09 <= n && n <= 0x0d) || n == 0x20 || n == 0x85 || n == 0xa0 || n == 0x1680 || (0x2000 <= n
        && n <= 0x200a) || n == 0x2028 || n == 0x2029 || n == 0x202f || n == 0x205f || n == 0x3000
}

/// Appends one character to a string, as `String::push` does.
#[verifier::external_body]
fn push_char(s: &mut String, c: char)
    ensures
        final(s)@ == old(s)@.push(c),
{
    s.push(c)
}

/// The characters of `s`, in order.
pub fn chars_of(s: &str) -> (v: Vec<char>)
    ensures
        v@ == s@,
{
    let mut v: Vec<char> = Vec::new();
    for c in iter: s.chars()
        invariant
            iter.seq() == s@,
            v@ == iter.history(),
    {
        v.push(c);
    }
    v
}

/// The string made of the characters of `v`, in order.
pub fn string_of(v: &Vec<char>) -> (s: String)
    ensures
        s@ == v@,
{
    let mut s = String::new();
    let mut i: usize = 0;
    while i < v.len()
        invariant
            i <= v.len(),
            s@ == v@.take(i as int),
        decreases v.len() - i,
    {
        push_char(&mut s, v[i]);
        i += 1;
        assert(v@.take(i as int) == v@.take(i - 1).push(v@[i - 1]));
    }
    assert(v@.take(v.len() as int) == v@);
    s
}


/// Every character of `s` is white space (so also: `s` is empty).
pub open spec fn all_space(s: Seq<char>) -> bool {
    forall|i: int| 0 <= i < s.len() ==> is_space(#[trigger] s[i])
}

/// `s` without its trailing white space.
pub open spec fn trim_end(s: Seq<char>) -> Seq<char>
    decreases s.len(),
{
    if s.len() > 0 && is_space(s.last()) {
        trim_end(s.drop_last())
    } else {
        s
    }
}

/// `s` without its leading white space.
pub open spec fn trim_start(s: Seq<char>) -> Seq<char>
    decreases s.len(),
{
    if s.len() > 0 && is_space(s.first()) {
        trim_start(s.drop_first())
    } else {
        s
    }
}

/// `s` without its leading and trailing white space.
pub open spec fn trim(s: Seq<char>) -> Seq<char> {
    trim_end(trim_start(s))
}

/// A line-comment marker (`//`) starts at index `i` of `s`.
pub open spec fn comment_at(s: Seq<char>, i: int) -> bool {
    0 <= i && i + 1 < s.len() && s[i] == '/' && s[i + 1] == '/'
}

/// The index of the first line-comment marker of `s` at or after `from`, or
/// `s.len()` where there is none.
pub open spec fn find_comment(s: Seq<char>, from: int) -> int
    decreases s.len() - from,
{
    if from < 0 || from + 1 >= s.len() {
        s.len() as int
    } else if comment_at(s, from) {
        from
    } else {
        find_comment(s, from + 1)
    }
}

/// `s` holds a line-comment marker.
pub open spec fn has_comment(s: Seq<char>) -> bool {
    find_comment(s, 0) < s.len()
}

/// What stands before the first line-comment marker of `s`; all of `s` where
/// it holds none.
pub open spec fn before_comment(s: Seq<char>) -> Seq<char> {
    s.take(find_comment(s, 0))
}

/// What stands after the first line-comment marker of `s`; empty where it
/// holds none.
pub open spec fn after_comment(s: Seq<char>) -> Seq<char> {
    if has_comment(s) {
        s.skip(find_comment(s, 0) + 2)
    } else {
        Seq::empty()
    }
}

/// `p` is a prefix of `s`.
pub open spec fn has_prefix(s: Seq<char>, p: Seq<char>) -> bool {
    p.len() <= s.len() && s.take(p.len() as int) == p
}

/// `p` is a suffix of `s`.
pub open spec fn has_suffix(s: Seq<char>, p: Seq<char>) -> bool {
    p.len() <= s.len() && s.skip(s.len() - p.len()) == p
}

/// What `find_comment` finds is the first comment marker at or after
/// `from`: a marker stands there, and none stands between `from` and it.
pub(crate) proof fn lemma_find_comment_bounds(s: Seq<char>, from: int)
    requires
        0 <= from,
    ensures
        from <= find_comment(s, from) || find_comment(s, from) == s.len(),
        find_comment(s, from) <= s.len(),
        find_comment(s, from) < s.len() ==> comment_at(s, find_comment(s, from)),
        forall|j: int| from <= j < find_comment(s, from) ==> !comment_at(s, j),
    decreases s.len() - from,
{
    if from + 1 >= s.len() {
    } else if comment_at(s, from) {
    } else {
        lemma_find_comment_bounds(s, from + 1);
    }
}

/// Tells whether every character of `v` is white space.
pub fn is_blank(v: &Vec<char>) -> (b: bool)
    ensures
        b == all_space(v@),
{
    assert(v@.take(v.len() as int) == v@);
    blank_prefix(v, v.len())
}

/// Tells whether the first `n` characters of `v` are all white space.
pub(crate) fn blank_prefix(v: &Vec<char>, n: usize) -> (b: bool)
    requires
        n <= v.len(),
    ensures
        b == all_space(v@.take(n as int)),
{
    let mut i: usize = 0;
    while i < n
        invariant
            i <= n <= v.len(),
            all_space(v@.take(i as int)),
        decreases n - i,
    {
        if !is_whitespace(v[i]) {
            assert(v@.take(n as int)[i as int] == v@[i as int]);
            return false;
        }
        i += 1;
    }
    true
}

/// The index of the first line-comment marker of `v`, or `v.len()`.
pub fn comment_index(v: &Vec<char>) -> (k: usize)
    ensures
        k == find_comment(v@, 0),
        k <= v.len(),
{
    let mut i: usize = 0;
    while i < v.len() && i + 1 < v.len()
        invariant
            find_comment(v@, 0) == find_comment(v@, i as int),
        decreases v.len() - i,
    {
        if v[i] == '/' && v[i + 1] == '/' {
            return i;
        }
        i += 1;
    }
    v.len()
}

/// A copy of the characters of `v` from index `from` up to `to`.
pub(crate) fn slice_of(v: &Vec<char>, from: usize, to: usize) -> (r: Vec<char>)
    requires
        from <= to <= v.len(),
    ensures
        r@ == v@.subrange(from as int, to as int),
{
    let mut r: Vec<char> = Vec::new();
    let mut i: usize = from;
    while i < to
        invariant
            from <= i <= to <= v.len(),
            r@ == v@.subrange(from as int, i as int),
        decreases to - i,
    {
        r.push(v[i]);
        i += 1;
        assert(v@.subrange(from as int, i as int) == v@.subrange(from as int, i - 1).push(
            v@[i - 1],
        ));
    }
    r
}

/// Appends the characters of `src` to `dst`.
pub fn append_chars(dst: &mut Vec<char>, src: &Vec<char>)
    ensures
        final(dst)@ == old(dst)@ + src@,
{
    let mut i: usize = 0;
    while i < src.len()
        invariant
            i <= src.len(),
            dst@ == old(dst)@ + src@.take(i as int),
        decreases src.len() - i,
    {
        dst.push(src[i]);
        i += 1;
        assert(src@.take(i as int) == src@.take(i - 1).push(src@[i - 1]));
    }
    assert(src@.take(src.len() as int) == src@);
}

/// Appends the characters of the string `src` to `dst`.
pub fn append_str(dst: &mut Vec<char>, src: &str)
    ensures
        final(dst)@ == old(dst)@ + src@,
{
    let chars = chars_of(src);
    append_chars(dst, &chars);
}

/// The length of `v` once its trailing white space is cut off.
pub fn trim_end_len(v: &Vec<char>) -> (n: usize)
    ensures
        n <= v.len(),
        trim_end(v@) == v@.take(n as int),
{
    let mut n: usize = v.len();
    assert(v@.take(n as int) == v@);
    while n > 0 && is_whitespace(v[n - 1])
        invariant
            n <= v.len(),
            trim_end(v@) == trim_end(v@.take(n as int)),
        decreases n,
    {
        assert(v@.take(n as int).drop_last() == v@.take(n - 1));
        n -= 1;
    }
    n
}

/// The number of white-space characters at the start of `v`.
pub fn trim_start_len(v: &Vec<char>) -> (n: usize)
    ensures
        n <= v.len(),
        trim_start(v@) == v@.skip(n as int),
{
    let mut n: usize = 0;
    assert(v@.skip(0) == v@);
    while n < v.len() && is_whitespace(v[n])
        invariant
            n <= v.len(),
            trim_start(v@) == trim_start(v@.skip(n as int)),
        decreases v.len() - n,
    {
        assert(v@.skip(n as int).drop_first() == v@.skip(n + 1));
        n += 1;
    }
    n
}

/// `v` without its trailing white space.
pub fn trimmed_end(v: &Vec<char>) -> (r: Vec<char>)
    ensures
        r@ == trim_end(v@),
{
    let n = trim_end_len(v);
    let r = slice_of(v, 0, n);
    assert(v@.subrange(0, n as int) == v@.take(n as int));
    r
}

/// `v` without its leading and trailing white space.
pub fn trimmed(v: &Vec<char>) -> (r: Vec<char>)
    ensures
        r@ == trim(v@),
{
    let a = trim_start_len(v);
    let rest = slice_of(v, a, v.len());
    assert(v@.subrange(a as int, v.len() as int) == v@.skip(a as int));
    trimmed_end(&rest)
}

/// Tells whether `v` begins with `p`.
pub fn starts_with(v: &Vec<char>, p: &Vec<char>) -> (b: bool)
    ensures
        b == has_prefix(v@, p@),
{
    if p.len() > v.len() {
        return false;
    }
    let mut i: usize = 0;
    while i < p.len()
        invariant
            i <= p.len() <= v.len(),
            v@.take(i as int) == p@.take(i as int),
        decreases p.len() - i,
    {
        if v[i] != p[i] {
            assert(v@.take(p.len() as int)[i as int] != p@[i as int]);
            return false;
        }
        i += 1;
        assert(v@.take(i as int) == v@.take(i - 1).push(v@[i - 1]));
        assert(p@.take(i as int) == p@.take(i - 1).push(p@[i - 1]));
    }
    assert(p@.take(p.len() as int) == p@);
    true
}

/// Tells whether `a` and `b` hold the same characters.
pub fn same_chars(a: &Vec<char>, b: &Vec<char>) -> (r: bool)
    ensures
        r == (a@ == b@),
{
    if a.len() != b.len() {
        return false;
    }
    let r = starts_with(a, b);
    assert(a@.take(a.len() as int) == a@);
    r
}


/// The index of the first line feed of `s` at or after `from`, or `s.len()`
/// where there is none.
pub open spec fn newline_from(s: Seq<char>, from: int) -> int
    decreases s.len() - from,
{
    if from < 0 || from >= s.len() {
        s.len() as int
    } else if s[from] == '\n' {
        from
    } else {
        newline_from(s, from + 1)
    }
}

/// `line` without the carriage return at its end, if it has one.
pub open spec fn strip_cr(line: Seq<char>) -> Seq<char> {
    if line.len() > 0 && line.last() == '\r' {
        line.drop_last()
    } else {
        line
    }
}

/// The lines of `s` from index `from` on. A line ends with a line feed, or
/// a carriage return and a line feed, which are not part of it; the last
/// line may end with the text.
pub open spec fn lines_from(s: Seq<char>, from: int) -> Seq<Seq<char>>
    decreases s.len() - from,
{
    if from < 0 || from >= s.len() {
        Seq::empty()
    } else {
        let end = newline_from(s, from);
        if from <= end < s.len() {
            seq![strip_cr(s.subrange(from, end))] + lines_from(s, end + 1)
        } else {
            seq![s.skip(from)]
        }
    }
}

/// The lines of `s`.
pub open spec fn lines(s: Seq<char>) -> Seq<Seq<char>> {
    lines_from(s, 0)
}

/// The lines `rows`, with a line feed between each two.
pub open spec fn join(rows: Seq<Seq<char>>) -> Seq<char>
    decreases rows.len(),
{
    if rows.len() == 0 {
        Seq::empty()
    } else if rows.len() == 1 {
        rows[0]
    } else {
        join(rows.drop_last()) + seq!['\n'] + rows.last()
    }
}

/// The character sequences that the vectors of `v` hold.
pub open spec fn rows(v: Seq<Vec<char>>) -> Seq<Seq<char>> {
    Seq::new(v.len(), |i: int| v[i]@)
}

/// The character sequences that the strings of `v` hold.
pub open spec fn texts(v: Seq<String>) -> Seq<Seq<char>> {
    Seq::new(v.len(), |i: int| v[i]@)
}

/// The index of the first line feed of `v` at or after `from`, or `v.len()`.
pub(crate) fn newline_index(v: &Vec<char>, from: usize) -> (k: usize)
    requires
        from <= v.len(),
    ensures
        k == newline_from(v@, from as int),
        from <= k <= v.len(),
{
    let mut i: usize = from;
    while i < v.len()
        invariant
            from <= i <= v.len(),
            newline_from(v@, from as int) == newline_from(v@, i as int),
        decreases v.len() - i,
    {
        if v[i] == '\n' {
            return i;
        }
        i += 1;
    }
    i
}

/// The lines of `v`.
pub fn split_lines(v: &Vec<char>) -> (r: Vec<Vec<char>>)
    ensures
        rows(r@) == lines(v@),
{
    let mut r: Vec<Vec<char>> = Vec::new();
    let mut pos: usize = 0;
    assert(rows(r@) + lines_from(v@, 0) == lines(v@));
    while pos < v.len()
        invariant
            pos <= v.len(),
            rows(r@) + lines_from(v@, pos as int) == lines(v@),
        decreases v.len() - pos,
    {
        let end = newline_index(v, pos);
        let ghost before = rows(r@);
        if end < v.len() {
            let cut = if end > pos && v[end - 1] == '\r' {
                end - 1
            } else {
                end
            };
            let line = slice_of(v, pos, cut);
            proof {
                let whole = v@.subrange(pos as int, end as int);
                if end > pos && v[end - 1] == '\r' {
                    assert(whole.last() == '\r');
                    assert(whole.drop_last() == v@.subrange(pos as int, cut as int));
                } else {
                    assert(strip_cr(whole) == whole);
                }
                assert(line@ == strip_cr(whole));
            }
            r.push(line);
            assert(rows(r@) == before + seq![line@]);
            assert(before + (seq![line@] + lines_from(v@, end + 1)) == (before + seq![line@])
                + lines_from(v@, end + 1));
            pos = end + 1;
        } else {
            let line = slice_of(v, pos, end);
            assert(v@.subrange(pos as int, end as int) == v@.skip(pos as int));
            r.push(line);
            assert(rows(r@) == before + seq![line@]);
            pos = end;
            assert(lines_from(v@, pos as int) == Seq::<Seq<char>>::empty());
            assert(rows(r@) + lines_from(v@, pos as int) == rows(r@));
        }
    }
    assert(lines_from(v@, pos as int) == Seq::<Seq<char>>::empty());
    assert(rows(r@) + lines_from(v@, pos as int) == rows(r@));
    r
}


/// `n` spaces.
pub open spec fn spaces(n: nat) -> Seq<char> {
    Seq::new(n, |i: int| ' ')
}

/// Tells whether `row` is made of `levels` times four spaces and `tail`
/// behind them.
pub fn is_padded(row: &Vec<char>, levels: usize, tail: &Vec<char>) -> (b: bool)
    ensures
        b == (row@ == spaces(4 * levels as nat) + tail@),
{
    if row.len() < tail.len() {
        return false;
    }
    let pad = row.len() - tail.len();
    if pad % 4 != 0 || pad / 4 != levels {
        return false;
    }
    let mut i: usize = 0;
    while i < pad
        invariant
            i <= pad,
            pad == 4 * levels,
            row.len() == pad + tail.len(),
            forall|j: int| 0 <= j < i ==> row@[j] == ' ',
        decreases pad - i,
    {
        if row[i] != ' ' {
            assert((spaces(4 * levels as nat) + tail@)[i as int] == ' ');
            return false;
        }
        i += 1;
    }
    let rest = slice_of(row, pad, row.len());
    let same = same_chars(&rest, tail);
    proof {
        let wanted = spaces(4 * levels as nat) + tail@;
        if same {
            assert(row@ =~= wanted);
        } else {
            assert(wanted.subrange(pad as int, wanted.len() as int) =~= tail@);
        }
    }
    same
}

} // verus!
