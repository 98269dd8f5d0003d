//! Text as a sequence of characters: the vocabulary that the parsers, the
//! renderers and their contracts share.

use vstd::prelude::*;
use vstd::string::*;

verus! {

/// The characters with the Unicode `White_Space` property.
pub open spec fn is_space(c: char) -> bool {
    ||| '\u{9}' <= c <= '\u{d}'
    ||| c == ' '
    ||| c == '\u{85}'
    ||| c == '\u{a0}'
    ||| c == '\u{1680}'
    ||| '\u{2000}' <= c <= '\u{200a}'
    ||| c == '\u{2028}'
    ||| c == '\u{2029}'
    ||| c == '\u{202f}'
    ||| c == '\u{205f}'
    ||| c == '\u{3000}'
}

/// `s` without its leading white space.
pub open spec fn trim_start(s: Seq<char>) -> Seq<char>
    decreases s.len(),
{
    if s.len() > 0 && is_space(s[0]) {
        trim_start(s.skip(1))
    } else {
        s
    }
}

/// `s` without its trailing white space.
pub open spec fn trim_end(s: Seq<char>) -> Seq<char>
    decreases s.len(),
{
    if s.len() > 0 && is_space(s.last()) {
        trim_end(s.drop_last())
    } else {
        s
    }
}

/// `s` without white space at either end.
pub open spec fn trim(s: Seq<char>) -> Seq<char> {
    trim_end(trim_start(s))
}

/// The texts that a vector of strings holds.
pub open spec fn views(v: Seq<String>) -> Seq<Seq<char>> {
    v.map_values(|s: String| s@)
}

/// The text that an optional string holds.
pub open spec fn opt_view(o: Option<String>) -> Option<Seq<char>> {
    match o {
        Some(s) => Some(s@),
        None => None,
    }
}

/// The text that an optional string slice holds.
pub open spec fn opt_str(s: Option<&str>) -> Option<Seq<char>> {
    match s {
        Some(s) => Some(s@),
        None => None,
    }
}

/// Where `c` first stands in `s`; the length of `s` where it does not.
pub open spec fn char_at(s: Seq<char>, c: char) -> nat
    decreases s.len(),
{
    if s.len() == 0 || s[0] == c {
        0
    } else {
        1 + char_at(s.skip(1), c)
    }
}

/// A line without the carriage return that a line feed followed.
pub open spec fn without_cr(line: Seq<char>) -> Seq<char> {
    if line.len() > 0 && line.last() == '\r' {
        line.drop_last()
    } else {
        line
    }
}

/// The lines of `s`. A line ends in a line feed or in a carriage return and a
/// line feed, which are no part of it; the last line needs no ending.
pub open spec fn lines(s: Seq<char>) -> Seq<Seq<char>>
    decreases s.len(),
{
    let end = char_at(s, '\n') as int;
    if s.len() == 0 {
        Seq::empty()
    } else if end >= s.len() {
        seq![s]
    } else {
        seq![without_cr(s.take(end))] + lines(s.skip(end + 1))
    }
}

/// `p` stands in `s` at `i`.
pub open spec fn occurs_at(s: Seq<char>, p: Seq<char>, i: int) -> bool {
    0 <= i && i + p.len() <= s.len() && s.subrange(i, i + p.len()) == p
}

/// `p` stands somewhere in `s`.
pub open spec fn contains(s: Seq<char>, p: Seq<char>) -> bool {
    exists|i: int| occurs_at(s, p, i)
}

/// How often `p` stands in `s`, counted from the left without overlap.
pub open spec fn occurrences(s: Seq<char>, p: Seq<char>) -> nat
    decreases s.len(),
{
    if p.len() == 0 || s.len() < p.len() {
        0
    } else if occurs_at(s, p, 0) {
        1 + occurrences(s.skip(p.len() as int), p)
    } else {
        occurrences(s.skip(1), p)
    }
}

pub proof fn lemma_char_at(s: Seq<char>, c: char)
    ensures
        char_at(s, c) <= s.len(),
        char_at(s, c) < s.len() ==> s[char_at(s, c) as int] == c,
        forall|k: int| 0 <= k < char_at(s, c) ==> s[k] != c,
    decreases s.len(),
{
    if s.len() > 0 && s[0] != c {
        lemma_char_at(s.skip(1), c);
        assert forall|k: int| 0 <= k < char_at(s, c) implies s[k] != c by {
            if k > 0 {
                assert(s.skip(1)[k - 1] == s[k]);
            }
        }
    }
}

/// The first place of `c` is the one with no `c` before it.
pub proof fn lemma_char_at_is(s: Seq<char>, c: char, i: int)
    requires
        0 <= i <= s.len(),
        i < s.len() ==> s[i] == c,
        forall|k: int| 0 <= k < i ==> s[k] != c,
    ensures
        char_at(s, c) == i,
{
    lemma_char_at(s, c);
}

/// What Rust's `{:?}` prints for a string: the text in double quotes, with
/// quotes, backslashes and unprintable characters escaped.
pub uninterp spec fn debug_quoted(s: Seq<char>) -> Seq<char>;

/// Calls the `Debug` rendering of `str` through `format!`. The result is named
/// by `debug_quoted`: it is a function of the text alone. Which characters are
/// escaped, and how, is left unsaid.
#[verifier::external_body]
pub(crate) fn debug_text(s: &str) -> (r: String)
    ensures
        r@ == debug_quoted(s@),
{
    format!("{:?}", s)
}

pub fn is_whitespace(c: char) -> (r: bool)
    ensures
        r == is_space(c),
{
    ('\u{9}' <= c && c <= '\u{d}') || c == ' ' || c == '\u{85}' || c == '\u{a0}' || c == '\u{1680}'
        || ('\u{2000}' <= c && c <= '\u{200a}') || c == '\u{2028}' || c == '\u{2029}' || c
        == '\u{202f}' || c == '\u{205f}' || c == '\u{3000}'
}

/// The characters of `s`, by index.
pub fn chars_of(s: &str) -> (r: Vec<char>)
    ensures
        r@ == s@,
{
    let mut r: Vec<char> = Vec::new();
    for c in it: s.chars()
        invariant
            r@ == s@.take(it.index()),
            it.seq() == s@,
    {
        r.push(c);
    }
    r
}

/// The concatenation of two texts.
pub fn joined(a: &str, b: &str) -> (r: String)
    ensures
        r@ == a@ + b@,
{
    let mut r = a.to_owned();
    r.append(b);
    r
}

pub fn same_text(a: &str, b: &str) -> (r: bool)
    ensures
        r == (a@ == b@),
{
    a.to_owned() == b.to_owned()
}

/// `s` without white space at either end.
pub fn trim_text(s: &str) -> (r: String)
    ensures
        r@ == trim(s@),
{
    let chars = chars_of(s);
    let mut i: usize = 0;
    assert(s@.skip(0) =~= s@);
    while i < chars.len() && is_whitespace(chars[i])
        invariant
            chars@ == s@,
            i <= chars.len(),
            trim_start(s@.skip(i as int)) == trim_start(s@),
        decreases chars.len() - i,
    {
        proof {
            let rest = s@.skip(i as int);
            assert(rest.skip(1) =~= s@.skip(i + 1));
        }
        i += 1;
    }
    let ghost rest = s@.skip(i as int);
    proof {
        assert(trim_start(rest) == rest);
    }
    let mut j: usize = chars.len();
    assert(s@.subrange(i as int, j as int) =~= rest);
    while i < j && is_whitespace(chars[j - 1])
        invariant
            chars@ == s@,
            i <= j <= chars.len(),
            trim_end(s@.subrange(i as int, j as int)) == trim_end(rest),
        decreases j,
    {
        proof {
            let cur = s@.subrange(i as int, j as int);
            assert(cur.drop_last() =~= s@.subrange(i as int, j - 1));
        }
        j -= 1;
    }
    proof {
        let cur = s@.subrange(i as int, j as int);
        assert(trim_end(cur) == cur);
    }
    s.substring_char(i, j).to_owned()
}

/// Where `c` first stands in `chars` from `start` on.
pub fn find_char(chars: &Vec<char>, start: usize, c: char) -> (r: usize)
    requires
        start <= chars.len(),
    ensures
        start <= r <= chars.len(),
        r - start == char_at(chars@.skip(start as int), c),
        r < chars.len() ==> chars[r as int] == c,
        forall|k: int| start <= k < r ==> chars[k] != c,
{
    let mut i: usize = start;
    while i < chars.len() && chars[i] != c
        invariant
            start <= i <= chars.len(),
            forall|k: int| start <= k < i ==> chars[k] != c,
        decreases chars.len() - i,
    {
        i += 1;
    }
    proof {
        lemma_char_at_is(chars@.skip(start as int), c, i - start);
    }
    i
}

/// The lines of `s`.
pub fn lines_of(s: &str) -> (r: Vec<String>)
    ensures
        views(r@) == lines(s@),
{
    let chars = chars_of(s);
    let mut out: Vec<String> = Vec::new();
    let mut start: usize = 0;
    assert(views(out@) =~= Seq::empty());
    assert(s@.skip(0) =~= s@);
    while start < chars.len()
        invariant
            chars@ == s@,
            start <= chars.len(),
            views(out@) + lines(s@.skip(start as int)) == lines(s@),
        decreases chars.len() - start,
    {
        let ghost rest = s@.skip(start as int);
        let ghost before = out@;
        let end = find_char(&chars, start, '\n');
        if end >= chars.len() {
            let line = s.substring_char(start, end).to_owned();
            assert(line@ =~= rest);
            out.push(line);
            start = end;
            proof {
                assert(views(out@) =~= views(before) + seq![rest]);
                assert(s@.skip(start as int) =~= Seq::empty());
                assert(views(out@) + lines(s@.skip(start as int)) =~= views(before) + lines(rest));
            }
        } else {
            let line = if end > start && chars[end - 1] == '\r' {
                s.substring_char(start, end - 1).to_owned()
            } else {
                s.substring_char(start, end).to_owned()
            };
            proof {
                let n = (end - start) as int;
                assert(rest.take(n) =~= s@.subrange(start as int, end as int));
                assert(line@ =~= without_cr(rest.take(n)));
                assert(rest.skip(n + 1) =~= s@.skip(end + 1));
            }
            let ghost head = line@;
            out.push(line);
            start = end + 1;
            proof {
                assert(views(out@) =~= views(before) + seq![head]);
                assert(views(out@) + lines(s@.skip(start as int)) =~= views(before) + (seq![head]
                    + lines(s@.skip(start as int))));
            }
        }
    }
    proof {
        assert(s@.skip(start as int) =~= Seq::empty());
        assert(views(out@) + lines(s@.skip(start as int)) =~= views(out@));
    }
    out
}

/// Whether `pattern` stands in `chars` at `i`.
pub fn stands_at(chars: &Vec<char>, pattern: &Vec<char>, i: usize) -> (r: bool)
    requires
        i <= chars.len(),
    ensures
        r == occurs_at(chars@, pattern@, i as int),
{
    if pattern.len() > chars.len() - i {
        return false;
    }
    let mut k: usize = 0;
    while k < pattern.len()
        invariant
            i + pattern.len() <= chars.len(),
            k <= pattern.len(),
            forall|m: int| 0 <= m < k ==> chars[i + m] == pattern[m],
        decreases pattern.len() - k,
    {
        if chars[i + k] != pattern[k] {
            assert(chars@.subrange(i as int, i + pattern.len())[k as int] != pattern@[k as int]);
            return false;
        }
        k += 1;
    }
    assert(chars@.subrange(i as int, i + pattern.len()) =~= pattern@);
    true
}

/// Whether a text starts with a prefix.
pub fn starts_with(s: &str, prefix: &str) -> (r: bool)
    ensures
        r == occurs_at(s@, prefix@, 0),
{
    stands_at(&chars_of(s), &chars_of(prefix), 0)
}

/// What follows a prefix, if the text starts with it.
pub open spec fn behind(s: Seq<char>, prefix: Seq<char>) -> Option<Seq<char>> {
    if occurs_at(s, prefix, 0) {
        Some(s.skip(prefix.len() as int))
    } else {
        None
    }
}

/// What follows a prefix, if the text starts with it.
pub fn strip_prefix(s: &str, prefix: &str) -> (r: Option<String>)
    ensures
        opt_view(r) == behind(s@, prefix@),
{
    let chars = chars_of(s);
    let head = chars_of(prefix);
    if stands_at(&chars, &head, 0) {
        let rest = s.substring_char(head.len(), chars.len()).to_owned();
        assert(rest@ =~= s@.skip(prefix@.len() as int));
        Some(rest)
    } else {
        None
    }
}

/// Whether `pattern` stands somewhere in `s`.
pub fn contains_text(s: &str, pattern: &str) -> (r: bool)
    ensures
        r == contains(s@, pattern@),
{
    let chars = chars_of(s);
    let wanted = chars_of(pattern);
    let mut i: usize = 0;
    while i < chars.len()
        invariant
            chars@ == s@,
            wanted@ == pattern@,
            i <= chars.len(),
            forall|k: int| 0 <= k < i ==> !occurs_at(chars@, wanted@, k),
        decreases chars.len() - i,
    {
        if stands_at(&chars, &wanted, i) {
            return true;
        }
        i += 1;
    }
    stands_at(&chars, &wanted, i)
}

/// How often `pattern` stands in `s`, counted from the left without overlap.
pub fn count_text(s: &str, pattern: &str) -> (r: usize)
    requires
        pattern@.len() > 0,
    ensures
        r == occurrences(s@, pattern@),
{
    let chars = chars_of(s);
    let wanted = chars_of(pattern);
    let mut i: usize = 0;
    let mut n: usize = 0;
    assert(s@.skip(0) =~= s@);
    while i < chars.len()
        invariant
            chars@ == s@,
            wanted@ == pattern@,
            wanted.len() > 0,
            n <= i <= chars.len(),
            n + occurrences(s@.skip(i as int), pattern@) == occurrences(s@, pattern@),
        decreases chars.len() - i,
    {
        let ghost rest = s@.skip(i as int);
        proof {
            assert(rest.skip(1) =~= s@.skip(i + 1));
        }
        if stands_at(&chars, &wanted, i) {
            assert(occurs_at(rest, pattern@, 0)) by {
                assert(rest.subrange(0, pattern@.len() as int) =~= s@.subrange(
                    i as int,
                    i + pattern@.len(),
                ));
            }
            assert(rest.skip(pattern@.len() as int) =~= s@.skip(i + pattern@.len()));
            n += 1;
            i += wanted.len();
        } else {
            proof {
                if rest.len() >= pattern@.len() {
                    assert(rest.subrange(0, pattern@.len() as int) =~= s@.subrange(
                        i as int,
                        i + pattern@.len(),
                    ));
                } else {
                    assert(rest.skip(1).len() < pattern@.len());
                }
            }
            i += 1;
        }
    }
    n
}

} // verus!
