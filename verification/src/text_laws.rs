//! How searching, trimming and splitting act on text that is put together from
//! pieces.

use vstd::prelude::*;

use crate::text::{
    char_at, contains, is_space, lemma_char_at, lemma_char_at_is, lines, occurrences, occurs_at, trim,
    trim_end, trim_start, without_cr,
};

verus! {

/// `s` holds no line feed.
pub open spec fn one_line(s: Seq<char>) -> bool {
    forall|i: int| 0 <= i < s.len() ==> s[i] != '\n'
}

/// The text with a line feed between two pieces.
pub open spec fn stacked(a: Seq<char>, b: Seq<char>) -> Seq<char> {
    a + seq!['\n'] + b
}

proof fn lemma_occurs_stacked(a: Seq<char>, b: Seq<char>, p: Seq<char>)
    requires
        p.len() > 0,
        one_line(p),
    ensures
        occurs_at(stacked(a, b), p, 0) == occurs_at(a, p, 0),
{
    let s = stacked(a, b);
    if p.len() <= a.len() {
        assert(s.subrange(0, p.len() as int) =~= a.subrange(0, p.len() as int));
    } else if occurs_at(s, p, 0) {
        assert(s[a.len() as int] == '\n');
        assert(p[a.len() as int] == s.subrange(0, p.len() as int)[a.len() as int]);
    }
}

/// A one-line pattern stands in two stacked pieces as often as in each of them.
pub proof fn occurrences_of_stacked(a: Seq<char>, b: Seq<char>, p: Seq<char>)
    requires
        p.len() > 0,
        one_line(p),
    ensures
        occurrences(stacked(a, b), p) == occurrences(a, p) + occurrences(b, p),
    decreases a.len(),
{
    let s = stacked(a, b);
    lemma_occurs_stacked(a, b, p);
    if a.len() == 0 {
        assert(s.skip(1) =~= b);
    } else if occurs_at(a, p, 0) {
        occurrences_of_stacked(a.skip(p.len() as int), b, p);
        assert(s.skip(p.len() as int) =~= stacked(a.skip(p.len() as int), b));
    } else {
        occurrences_of_stacked(a.skip(1), b, p);
        assert(s.skip(1) =~= stacked(a.skip(1), b));
        if s.len() < p.len() {
            lemma_short(s.skip(1), p);
        }
        if a.len() < p.len() {
            lemma_short(a.skip(1), p);
        }
    }
}

proof fn lemma_short(s: Seq<char>, p: Seq<char>)
    requires
        s.len() < p.len(),
    ensures
        occurrences(s, p) == 0,
{
}

/// A pattern that stands in a text is counted, and one that is counted stands
/// there.
pub proof fn counted_iff_contained(s: Seq<char>, p: Seq<char>)
    requires
        p.len() > 0,
    ensures
        occurrences(s, p) > 0 <==> contains(s, p),
    decreases s.len(),
{
    if s.len() >= p.len() {
        if occurs_at(s, p, 0) {
        } else {
            counted_iff_contained(s.skip(1), p);
            if contains(s.skip(1), p) {
                let i = choose|i: int| occurs_at(s.skip(1), p, i);
                assert(s.skip(1).subrange(i, i + p.len()) =~= s.subrange(i + 1, i + 1 + p.len()));
                assert(occurs_at(s, p, i + 1));
            }
            if contains(s, p) {
                let i = choose|i: int| occurs_at(s, p, i);
                assert(s.skip(1).subrange(i - 1, i - 1 + p.len()) =~= s.subrange(i, i + p.len()));
                assert(occurs_at(s.skip(1), p, i - 1));
            }
        }
    } else if contains(s, p) {
        let i = choose|i: int| occurs_at(s, p, i);
        assert(occurs_at(s, p, i));
    }
}

pub proof fn lemma_trim_start_part(s: Seq<char>)
    ensures
        exists|i: int| 0 <= i <= s.len() && trim_start(s) == #[trigger] s.skip(i),
        trim_start(s).len() > 0 ==> !is_space(trim_start(s)[0]),
        trim_start(s).len() > 0 ==> trim_start(s).last() == s.last(),
    decreases s.len(),
{
    if s.len() > 0 && is_space(s[0]) {
        lemma_trim_start_part(s.skip(1));
        let i = choose|i: int|
            0 <= i <= s.skip(1).len() && trim_start(s.skip(1)) == #[trigger] s.skip(1).skip(i);
        assert(s.skip(1).skip(i) =~= s.skip(i + 1));
    } else {
        assert(s.skip(0) =~= s);
    }
}

pub proof fn lemma_trim_end_part(s: Seq<char>)
    ensures
        exists|j: int| 0 <= j <= s.len() && trim_end(s) == #[trigger] s.take(j),
        trim_end(s).len() > 0 ==> !is_space(trim_end(s).last()),
    decreases s.len(),
{
    if s.len() > 0 && is_space(s.last()) {
        lemma_trim_end_part(s.drop_last());
        let j = choose|j: int|
            0 <= j <= s.drop_last().len() && trim_end(s.drop_last()) == #[trigger] s.drop_last().take(
                j,
            );
        assert(s.drop_last().take(j) =~= s.take(j));
    } else {
        assert(s.take(s.len() as int) =~= s);
    }
}

/// Trimming cuts one piece out of a text, which neither starts nor ends in white
/// space.
pub proof fn trimmed_is_part(s: Seq<char>)
    ensures
        exists|i: int, j: int| 0 <= i <= j <= s.len() && trim(s) == #[trigger] s.subrange(i, j),
        trim(s).len() > 0 ==> !is_space(trim(s)[0]) && !is_space(trim(s).last()),
{
    lemma_trim_start_part(s);
    let t = trim_start(s);
    lemma_trim_end_part(t);
    let i = choose|i: int| 0 <= i <= s.len() && t == #[trigger] s.skip(i);
    let j = choose|j: int| 0 <= j <= t.len() && trim_end(t) == #[trigger] t.take(j);
    assert(t.take(j) =~= s.subrange(i, i + j));
}

/// A text that neither starts nor ends in white space is its own trim.
pub proof fn trimmed_is_fixed(s: Seq<char>)
    requires
        s.len() > 0 ==> !is_space(s[0]) && !is_space(s.last()),
    ensures
        trim(s) == s,
{
}

proof fn lemma_trim_start_push(s: Seq<char>, c: char)
    requires
        is_space(c),
    ensures
        trim_start(s.push(c)) == if trim_start(s).len() == 0 {
            Seq::empty()
        } else {
            trim_start(s).push(c)
        },
    decreases s.len(),
{
    if s.len() == 0 {
        assert(s.push(c).skip(1) =~= Seq::empty());
        assert(trim_start(Seq::<char>::empty()) == Seq::<char>::empty());
    } else if is_space(s[0]) {
        lemma_trim_start_push(s.skip(1), c);
        assert(s.push(c).skip(1) =~= s.skip(1).push(c));
    }
}

/// White space at the end of a text does not change its trim.
pub proof fn trim_ignores_last_space(s: Seq<char>, c: char)
    requires
        is_space(c),
    ensures
        trim(s.push(c)) == trim(s),
{
    lemma_trim_start_push(s, c);
    let t = trim_start(s);
    assert(t.push(c).drop_last() =~= t);
}

proof fn lemma_trim_without_cr(s: Seq<char>)
    ensures
        trim(without_cr(s)) == trim(s),
{
    if s.len() > 0 && s.last() == '\r' {
        assert(s =~= s.drop_last().push('\r'));
        trim_ignores_last_space(s.drop_last(), '\r');
    }
}

proof fn lemma_lines_stacked(a: Seq<char>, b: Seq<char>)
    ensures
        lines(stacked(a, b)) == lines(a + seq!['\n']) + lines(b),
    decreases a.len(),
{
    let s = stacked(a, b);
    let e = a + seq!['\n'];
    let n = char_at(a, '\n') as int;
    lemma_char_at(a, '\n');
    if n >= a.len() {
        lemma_char_at_is(s, '\n', a.len() as int);
        lemma_char_at_is(e, '\n', a.len() as int);
        assert(s.take(n) =~= a);
        assert(e.take(n) =~= a);
        assert(s.skip(n + 1) =~= b);
        assert(e.skip(n + 1) =~= Seq::empty());
        assert(lines(Seq::<char>::empty()) =~= Seq::<Seq<char>>::empty());
        assert(lines(e) =~= seq![without_cr(a)]);
    } else {
        lemma_char_at_is(s, '\n', n);
        lemma_char_at_is(e, '\n', n);
        assert(s.take(n) =~= a.take(n));
        assert(e.take(n) =~= a.take(n));
        assert(s.skip(n + 1) =~= stacked(a.skip(n + 1), b));
        assert(e.skip(n + 1) =~= a.skip(n + 1) + seq!['\n']);
        lemma_lines_stacked(a.skip(n + 1), b);
        let head = seq![without_cr(a.take(n))];
        let x = lines(a.skip(n + 1) + seq!['\n']);
        assert(head + (x + lines(b)) =~= (head + x) + lines(b));
    }
}

/// The trims of the lines of a text, without the empty ones.
pub open spec fn full_lines(ls: Seq<Seq<char>>) -> Seq<Seq<char>>
    decreases ls.len(),
{
    if ls.len() == 0 {
        Seq::empty()
    } else if trim(ls.last()).len() == 0 {
        full_lines(ls.drop_last())
    } else {
        full_lines(ls.drop_last()).push(trim(ls.last()))
    }
}

pub proof fn lemma_full_lines_add(a: Seq<Seq<char>>, b: Seq<Seq<char>>)
    ensures
        full_lines(a + b) == full_lines(a) + full_lines(b),
    decreases b.len(),
{
    if b.len() == 0 {
        assert(a + b =~= a);
        assert(full_lines(a) + full_lines(b) =~= full_lines(a));
    } else {
        lemma_full_lines_add(a, b.drop_last());
        assert((a + b).drop_last() =~= a + b.drop_last());
        assert(full_lines(a + b) =~= full_lines(a) + full_lines(b));
    }
}

proof fn lemma_ended(a: Seq<char>)
    ensures
        full_lines(lines(a + seq!['\n'])) == full_lines(lines(a)),
    decreases a.len(),
{
    let e = a + seq!['\n'];
    let n = char_at(a, '\n') as int;
    lemma_char_at(a, '\n');
    reveal_with_fuel(lines, 2);
    reveal_with_fuel(full_lines, 2);
    if n >= a.len() {
        lemma_char_at_is(e, '\n', a.len() as int);
        assert(e.take(n) =~= a);
        assert(e.skip(n + 1) =~= Seq::empty());
        let one = seq![without_cr(a)];
        assert(lines(e) =~= one);
        lemma_trim_without_cr(a);
        assert(one.drop_last() =~= Seq::empty());
        if a.len() > 0 {
            assert(lines(a) =~= seq![a]);
            assert(seq![a].drop_last() =~= Seq::empty());
        } else {
            assert(trim(a) =~= Seq::empty());
            assert(lines(a) =~= Seq::empty());
        }
    } else {
        lemma_char_at_is(e, '\n', n);
        assert(e.take(n) =~= a.take(n));
        assert(e.skip(n + 1) =~= a.skip(n + 1) + seq!['\n']);
        lemma_ended(a.skip(n + 1));
        let head = seq![without_cr(a.take(n))];
        lemma_full_lines_add(head, lines(a.skip(n + 1)));
        lemma_full_lines_add(head, lines(a.skip(n + 1) + seq!['\n']));
    }
}

/// The full lines of two stacked pieces are those of the first and then those of
/// the second.
pub proof fn full_lines_of_stacked(a: Seq<char>, b: Seq<char>)
    ensures
        full_lines(lines(stacked(a, b))) == full_lines(lines(a)) + full_lines(lines(b)),
{
    lemma_lines_stacked(a, b);
    lemma_full_lines_add(lines(a + seq!['\n']), lines(b));
    lemma_ended(a);
}

/// The full lines of a one-line text: its trim, if there is any.
pub proof fn full_lines_of_one(a: Seq<char>)
    requires
        one_line(a),
    ensures
        full_lines(lines(a)) == if trim(a).len() == 0 {
            Seq::<Seq<char>>::empty()
        } else {
            seq![trim(a)]
        },
{
    lemma_char_at(a, '\n');
    reveal_with_fuel(full_lines, 2);
    if a.len() > 0 {
        assert(char_at(a, '\n') == a.len());
        assert(lines(a) =~= seq![a]);
        assert(seq![a].drop_last() =~= Seq::empty());
        if trim(a).len() > 0 {
            assert(full_lines(lines(a)) =~= seq![trim(a)]);
        }
    } else {
        assert(trim(a) =~= Seq::empty());
    }
}

/// White space is what Unicode calls so: the characters with these numbers.
pub proof fn white_space_is_unicodes(c: char)
    ensures
        is_space(c) <==> {
            let n = c as u32;
            ||| 9 <= n <= 13
            ||| n == 32
            ||| n == 133
            ||| n == 160
            ||| n == 5760
            ||| 8192 <= n <= 8202
            ||| n == 8232
            ||| n == 8233
            ||| n == 8239
            ||| n == 8287
            ||| n == 12288
        },
{
}

proof fn lemma_trim_start_pad(a: Seq<char>, t: Seq<char>)
    requires
        forall|i: int| 0 <= i < a.len() ==> is_space(#[trigger] a[i]),
        t.len() > 0,
        !is_space(t[0]),
    ensures
        trim_start(a + t) == t,
    decreases a.len(),
{
    if a.len() == 0 {
        assert(a + t =~= t);
    } else {
        assert(is_space(a[0]));
        assert((a + t)[0] == a[0]);
        assert((a + t).skip(1) =~= a.skip(1) + t);
        assert forall|i: int| 0 <= i < a.skip(1).len() implies is_space(#[trigger] a.skip(1)[i]) by {
            assert(is_space(a[i + 1]));
        }
        lemma_trim_start_pad(a.skip(1), t);
    }
}

/// Trimming takes off the white space around a text and nothing else.
pub proof fn trimming_takes_off_the_padding(a: Seq<char>, t: Seq<char>, b: Seq<char>)
    requires
        forall|i: int| 0 <= i < a.len() ==> is_space(#[trigger] a[i]),
        forall|i: int| 0 <= i < b.len() ==> is_space(#[trigger] b[i]),
        t.len() > 0,
        !is_space(t[0]),
        !is_space(t.last()),
    ensures
        trim(a + t + b) == t,
    decreases b.len(),
{
    if b.len() == 0 {
        assert(a + t + b =~= a + t);
        lemma_trim_start_pad(a, t);
    } else {
        let c = b.drop_last();
        assert(is_space(b[b.len() - 1]));
        assert forall|i: int| 0 <= i < c.len() implies is_space(#[trigger] c[i]) by {
            assert(is_space(b[i]));
        }
        trimming_takes_off_the_padding(a, t, c);
        assert(a + t + b =~= (a + t + c).push(b.last()));
        trim_ignores_last_space(a + t + c, b.last());
    }
}

proof fn lemma_filled_end(s: Seq<char>)
    requires
        s.len() > 0,
        !is_space(s.last()),
    ensures
        trim_start(s).len() > 0,
        trim_start(s).last() == s.last(),
    decreases s.len(),
{
    if is_space(s[0]) {
        assert(s.len() > 1);
        assert(s.skip(1).last() == s.last());
        lemma_filled_end(s.skip(1));
    }
}

/// A text is blank, with nothing left when it is trimmed, exactly where it is all
/// white space.
pub proof fn blank_is_all_space(s: Seq<char>)
    ensures
        trim(s).len() == 0 <==> forall|i: int| 0 <= i < s.len() ==> is_space(#[trigger] s[i]),
    decreases s.len(),
{
    if s.len() > 0 {
        let init = s.drop_last();
        blank_is_all_space(init);
        assert(init.push(s.last()) =~= s);
        if is_space(s.last()) {
            trim_ignores_last_space(init, s.last());
            if trim(s).len() == 0 {
                assert forall|i: int| 0 <= i < s.len() implies is_space(#[trigger] s[i]) by {
                    if i < init.len() {
                        assert(is_space(init[i]));
                    }
                }
            }
            if forall|i: int| 0 <= i < s.len() ==> is_space(#[trigger] s[i]) {
                assert forall|i: int| 0 <= i < init.len() implies is_space(#[trigger] init[i]) by {
                    assert(is_space(s[i]));
                }
            }
        } else {
            lemma_filled_end(s);
            assert(!is_space(s[s.len() - 1]));
        }
    }
}

/// A text that starts with `p` holds it once more than what follows does.
pub proof fn a_copy_in_front_counts(p: Seq<char>, rest: Seq<char>)
    requires
        p.len() > 0,
    ensures
        occurrences(p + rest, p) == 1 + occurrences(rest, p),
{
    let s = p + rest;
    assert(s.subrange(0, p.len() as int) =~= p);
    assert(s.skip(p.len() as int) =~= rest);
}

/// A text is split into lines at its line feeds, a carriage return before one going
/// with it. What follows the last one is a line only where it is something.
pub proof fn lines_end_at_line_feeds(a: Seq<char>, b: Seq<char>)
    requires
        one_line(a),
    ensures
        a.len() > 0 && a.last() == '\r' ==> lines(stacked(a, b)) == seq![a.drop_last()] + lines(b),
        a.len() == 0 || a.last() != '\r' ==> lines(stacked(a, b)) == seq![a] + lines(b),
        a.len() > 0 ==> lines(a) == seq![a],
        lines(Seq::<char>::empty()).len() == 0,
{
    let s = stacked(a, b);
    lemma_char_at_is(s, '\n', a.len() as int);
    lemma_char_at_is(a, '\n', a.len() as int);
    assert(s.take(a.len() as int) =~= a);
    assert(s.skip(a.len() as int + 1) =~= b);
}

/// A text that does not start with `p` holds it as often as what follows its first
/// character does.
pub proof fn other_characters_do_not_count(s: Seq<char>, p: Seq<char>)
    requires
        p.len() > 0,
        s.len() > 0,
        !p.is_prefix_of(s),
    ensures
        occurrences(s, p) == occurrences(s.skip(1), p),
{
    if occurs_at(s, p, 0) {
        assert(s.subrange(0, p.len() as int) == p);
        assert(p.is_prefix_of(s));
    }
    if s.len() < p.len() {
        assert(occurrences(s.skip(1), p) == 0);
    }
}

} // verus!
