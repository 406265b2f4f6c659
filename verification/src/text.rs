//! Character-level helpers shared by the parsers: lines, token search and
//! trimming, each specified over `Seq<char>`.

use vstd::prelude::*;

verus! {

/// The position of the first line break in `s`, or `s.len()` if there is none.
pub open spec fn first_break(s: Seq<char>) -> int
    decreases s.len(),
{
    if s.len() == 0 || s[0] == '\n' {
        0
    } else {
        1 + first_break(s.drop_first())
    }
}

/// `s` cut at every line break. The breaks themselves are dropped, so a text
/// that ends in a break has an empty last line, and the empty text has one
/// empty line.
pub open spec fn lines(s: Seq<char>) -> Seq<Seq<char>>
    decreases s.len(),
{
    let k = first_break(s);
    if 0 <= k < s.len() {
        seq![s.take(k)] + lines(s.skip(k + 1))
    } else {
        seq![s]
    }
}

/// Whether `token` occurs in `s` as a contiguous run of characters.
pub open spec fn contains(s: Seq<char>, token: Seq<char>) -> bool {
    exists|i: int| occurs_at(s, token, i)
}

/// Whether `token` occurs in `s` starting at position `i`.
pub open spec fn occurs_at(s: Seq<char>, token: Seq<char>, i: int) -> bool {
    0 <= i && i + token.len() <= s.len() && s.subrange(i, i + token.len()) == token
}

/// The characters with the Unicode property `White_Space`.
pub open spec fn is_space(c: char) -> bool {
    let n = c as u32;
    ||| 0x09 <= n <= 0x0D
    ||| n == 0x20
    ||| n == 0x85
    ||| n == 0xA0
    ||| n == 0x1680
    ||| 0x2000 <= n <= 0x200A
    ||| n == 0x2028
    ||| n == 0x2029
    ||| n == 0x202F
    ||| n == 0x205F
    ||| n == 0x3000
}

/// `s` without its leading white space.
pub open spec fn trim_start(s: Seq<char>) -> Seq<char>
    decreases s.len(),
{
    if s.len() > 0 && is_space(s[0]) {
        trim_start(s.drop_first())
    } else {
        s
    }
}

/// `s` without its trailing white space.
pub open spec fn trim_end(s: Seq<char>) -> Seq<char>
    decreases s.len(),
{
    if s.len() > 0 && is_space(s.last()) {
        trim_end(s.drop_last())
    } else {
        s
    }
}

/// `s` without its leading and trailing white space.
pub open spec fn trim(s: Seq<char>) -> Seq<char> {
    trim_end(trim_start(s))
}

/// `first_break` is the one position that holds a break and has none before it.
pub proof fn lemma_first_break(s: Seq<char>, k: int)
    requires
        0 <= k <= s.len(),
        forall|j: int| 0 <= j < k ==> s[j] != '\n',
        k < s.len() ==> s[k] == '\n',
    ensures
        first_break(s) == k,
    decreases k,
{
    if k > 0 {
        let rest = s.drop_first();
        assert forall|j: int| 0 <= j < k - 1 implies rest[j] != '\n' by {
            assert(rest[j] == s[j + 1]);
        }
        lemma_first_break(rest, k - 1);
    }
}

/// Dropping `k` leading white-space characters does not change `trim_start`.
pub proof fn lemma_trim_start(s: Seq<char>, k: int)
    requires
        0 <= k <= s.len(),
        forall|j: int| 0 <= j < k ==> is_space(s[j]),
        k < s.len() ==> !is_space(s[k]),
    ensures
        trim_start(s) == s.skip(k),
    decreases k,
{
    if k > 0 {
        let rest = s.drop_first();
        assert forall|j: int| 0 <= j < k - 1 implies is_space(rest[j]) by {
            assert(rest[j] == s[j + 1]);
        }
        lemma_trim_start(rest, k - 1);
        assert(rest.skip(k - 1) == s.skip(k));
    } else {
        assert(s.skip(0) == s);
    }
}

/// Dropping trailing white-space characters down to length `k` does not change
/// `trim_end`.
pub proof fn lemma_trim_end(s: Seq<char>, k: int)
    requires
        0 <= k <= s.len(),
        forall|j: int| k <= j < s.len() ==> is_space(s[j]),
        k > 0 ==> !is_space(s[k - 1]),
    ensures
        trim_end(s) == s.take(k),
    decreases s.len() - k,
{
    if k < s.len() {
        let rest = s.drop_last();
        lemma_trim_end(rest, k);
        assert(rest.take(k) == s.take(k));
    } else {
        assert(s.take(k) == s);
    }
}

/// The characters of `s`, in order.
pub fn chars_of(s: &str) -> (out: Vec<char>)
    ensures
        out@ == s@,
{
    let mut out: Vec<char> = Vec::new();
    for c in it: s.chars()
        invariant
            out@ == it.seq().take(it.index() as int),
            it.seq() == s@,
    {
        out.push(c);
    }
    out
}

/// Whether `c` is white space.
pub fn is_whitespace(c: char) -> (b: bool)
    ensures
        b == is_space(c),
{
    let n: u32 = c as u32;
    (0x09 <= n && n <= 0x0D) || n == 0x20 || n == 0x85 || n == 0xA0 || n == 0x1680 || (0x2000 <= n
        && n <= 0x200A) || n == 0x2028 || n == 0x2029 || n == 0x202F || n == 0x205F || n == 0x3000
}

/// The end of the line that starts at `start`: the position of the next line
/// break, or the end of the text.
pub fn line_end(chars: &Vec<char>, start: usize) -> (end: usize)
    requires
        start <= chars.len(),
    ensures
        start <= end <= chars.len(),
        end == start + first_break(chars@.skip(start as int)),
{
    let mut end: usize = start;
    while end < chars.len() && chars[end] != '\n'
        invariant
            start <= end <= chars.len(),
            forall|j: int| start <= j < end ==> chars@[j] != '\n',
        decreases chars.len() - end,
    {
        end += 1;
    }
    proof {
        lemma_first_break(chars@.skip(start as int), end - start);
    }
    end
}

/// Whether `token` occurs in `chars[start..end]`.
pub fn range_contains(
    chars: &Vec<char>,
    start: usize,
    end: usize,
    token: &Vec<char>,
) -> (found: bool)
    requires
        start <= end <= chars.len(),
    ensures
        found == contains(chars@.subrange(start as int, end as int), token@),
{
    let ghost s = chars@.subrange(start as int, end as int);
    let m: usize = token.len();
    if m > end - start {
        assert(!contains(s, token@));
        return false;
    }
    let last: usize = end - m;
    let mut i: usize = start;
    while i <= last
        invariant
            start <= i <= last + 1,
            last + m == end,
            end <= chars.len(),
            m == token.len(),
            s == chars@.subrange(start as int, end as int),
            forall|p: int| 0 <= p < i - start ==> !occurs_at(s, token@, p),
        decreases last + 1 - i,
    {
        let mut j: usize = 0;
        while j < m && chars[i + j] == token[j]
            invariant
                j <= m,
                i + m <= end,
                end <= chars.len(),
                m == token.len(),
                forall|q: int| 0 <= q < j ==> chars@[i + q] == token@[q],
            decreases m - j,
        {
            j += 1;
        }
        if j == m {
            assert(s.subrange(i - start, i - start + m) =~= token@);
            assert(occurs_at(s, token@, i - start));
            return true;
        }
        assert(!occurs_at(s, token@, i - start)) by {
            if occurs_at(s, token@, i - start) {
                assert(s.subrange(i - start, i - start + m)[j as int] == token@[j as int]);
            }
        }
        i += 1;
    }
    assert(!contains(s, token@));
    false
}

/// The bounds of `chars[start..end]` without its leading and trailing white
/// space.
pub fn trim_range(chars: &Vec<char>, start: usize, end: usize) -> (bounds: (usize, usize))
    requires
        start <= end <= chars.len(),
    ensures
        start <= bounds.0 <= bounds.1 <= end,
        chars@.subrange(bounds.0 as int, bounds.1 as int) == trim(
            chars@.subrange(start as int, end as int),
        ),
{
    let ghost s = chars@.subrange(start as int, end as int);
    let mut a: usize = start;
    while a < end && is_whitespace(chars[a])
        invariant
            start <= a <= end,
            end <= chars.len(),
            forall|j: int| start <= j < a ==> is_space(chars@[j]),
        decreases end - a,
    {
        a += 1;
    }
    let mut b: usize = end;
    while b > a && is_whitespace(chars[b - 1])
        invariant
            a <= b <= end,
            end <= chars.len(),
            forall|j: int| b <= j < end ==> is_space(chars@[j]),
        decreases b,
    {
        b -= 1;
    }
    proof {
        lemma_trim_start(s, a - start);
        let t = s.skip(a - start);
        assert(t == chars@.subrange(a as int, end as int));
        lemma_trim_end(t, b - a);
        assert(t.take(b - a) == chars@.subrange(a as int, b as int));
    }
    (a, b)
}

/// Every text has at least one line, and a text without a break is its own
/// only line.
pub proof fn lemma_lines(s: Seq<char>)
    ensures
        lines(s).len() >= 1,
        lines(s)[0] == s.take(first_break(s)),
        0 <= first_break(s) <= s.len(),
        first_break(s) == s.len() ==> lines(s) == seq![s],
    decreases s.len(),
{
    lemma_break_bounds(s);
    let k = first_break(s);
    if 0 <= k < s.len() {
        lemma_lines(s.skip(k + 1));
    } else {
        assert(s.take(k) == s);
    }
}

/// `first_break` lies within the text, at a break or at the end, with no break
/// before it.
pub proof fn lemma_break_bounds(s: Seq<char>)
    ensures
        0 <= first_break(s) <= s.len(),
        first_break(s) < s.len() ==> s[first_break(s)] == '\n',
        forall|j: int| 0 <= j < first_break(s) ==> s[j] != '\n',
    decreases s.len(),
{
    if s.len() == 0 || s[0] == '\n' {
    } else {
        let rest = s.drop_first();
        lemma_break_bounds(rest);
        assert forall|j: int| 0 <= j < first_break(s) implies s[j] != '\n' by {
            if j > 0 {
                assert(s[j] == rest[j - 1]);
            }
        }
    }
}

/// The smaller of two numbers.
pub open spec fn least(a: int, b: int) -> int {
    if a <= b {
        a
    } else {
        b
    }
}

/// The first `limit` lines of `text`, or all of them if it has fewer.
pub fn first_lines(text: &str, limit: usize) -> (out: Vec<String>)
    ensures
        out@.len() == least(lines(text@).len() as int, limit as int),
        forall|i: int| 0 <= i < out@.len() ==> (#[trigger] out@[i])@ == lines(text@)[i],
{
    let chars = chars_of(text);
    let mut out: Vec<String> = Vec::new();
    let mut start: usize = 0;
    let mut more: bool = true;
    proof {
        assert(chars@.skip(0) == chars@);
        lemma_lines(text@);
    }
    while more && out.len() < limit
        invariant
            chars@ == text@,
            start <= chars.len(),
            out@.len() <= limit,
            more ==> lines(text@) =~= Seq::new(out@.len(), |i: int| out@[i]@) + lines(
                chars@.skip(start as int),
            ),
            !more ==> lines(text@) =~= Seq::new(out@.len(), |i: int| out@[i]@),
        decreases (if more { 1int } else { 0int }), chars.len() - start,
    {
        let ghost done = Seq::new(out@.len(), |i: int| out@[i]@);
        let ghost rest = chars@.skip(start as int);
        let end = line_end(&chars, start);
        let line = text.substring_char(start, end).to_owned();
        proof {
            lemma_lines(rest);
            assert(rest.take(end - start) == chars@.subrange(start as int, end as int));
        }
        out.push(line);
        let ghost grown = Seq::new(out@.len(), |i: int| out@[i]@);
        proof {
            assert(grown =~= done.push(line@));
        }
        if end < chars.len() {
            proof {
                assert(rest.skip(end - start + 1) == chars@.skip(end + 1));
                assert(lines(rest) == seq![line@] + lines(chars@.skip(end + 1)));
                assert(done + (seq![line@] + lines(chars@.skip(end + 1))) =~= grown + lines(
                    chars@.skip(end + 1),
                ));
            }
            start = end + 1;
        } else {
            proof {
                assert(lines(rest) == seq![line@]);
                assert(done + seq![line@] =~= grown);
            }
            more = false;
        }
    }
    proof {
        let done = Seq::new(out@.len(), |i: int| out@[i]@);
        if more {
            lemma_lines(chars@.skip(start as int));
            assert(lines(text@).len() > out@.len());
        }
        assert forall|i: int| 0 <= i < out@.len() implies (#[trigger] out@[i])@ == lines(
            text@,
        )[i] by {
            assert(done[i] == out@[i]@);
        }
    }
    out
}

/// Whether two texts hold the same characters.
pub fn same_text(a: &str, b: &str) -> (same: bool)
    ensures
        same == (a@ == b@),
{
    let x = chars_of(a);
    let y = chars_of(b);
    if x.len() != y.len() {
        return false;
    }
    let mut i: usize = 0;
    while i < x.len()
        invariant
            i <= x.len(),
            x.len() == y.len(),
            x@ == a@,
            y@ == b@,
            forall|j: int| 0 <= j < i ==> x@[j] == y@[j],
        decreases x.len() - i,
    {
        if x[i] != y[i] {
            return false;
        }
        i += 1;
    }
    assert(x@ =~= y@);
    true
}

} // verus!
