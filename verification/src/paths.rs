//! Paths as text, with `/` between their components.

use vstd::prelude::*;
use vstd::string::*;

use crate::text::{
    char_at, chars_of, find_char, joined, lemma_char_at, lemma_char_at_is, same_text, views,
};

verus! {

/// The path of the entry `name` in the directory `base`, for a relative `name`.
pub open spec fn path_in(base: Seq<char>, name: Seq<char>) -> Seq<char> {
    if base.len() == 0 || base.last() == '/' {
        base + name
    } else {
        base + "/"@ + name
    }
}

/// The path of the entry `name` in the directory `base`, for a relative `name`.
pub fn join_path(base: &str, name: &str) -> (r: String)
    ensures
        r@ == path_in(base@, name@),
{
    let chars = chars_of(base);
    if chars.len() == 0 || chars[chars.len() - 1] == '/' {
        joined(base, name)
    } else {
        joined(joined(base, "/").as_str(), name)
    }
}

/// The components that a path names, from the left: what stands between its
/// slashes, without what is empty and without single dots.
pub open spec fn components(s: Seq<char>) -> Seq<Seq<char>>
    decreases s.len(),
{
    let end = char_at(s, '/') as int;
    let part = s.take(end);
    let rest = if end < s.len() {
        components(s.skip(end + 1))
    } else {
        Seq::empty()
    };
    if part.len() == 0 || part == seq!['.'] {
        rest
    } else {
        seq![part] + rest
    }
}

/// The path starts at the root.
pub open spec fn from_root(s: Seq<char>) -> bool {
    s.len() > 0 && s[0] == '/'
}

/// The path starts with a single dot.
pub open spec fn from_dot(s: Seq<char>) -> bool {
    s.len() > 0 && s[0] == '.' && (s.len() == 1 || s[1] == '/')
}

/// Two texts are the same path: they start alike and name the same components.
pub open spec fn same_path(a: Seq<char>, b: Seq<char>) -> bool {
    from_root(a) == from_root(b) && from_dot(a) == from_dot(b) && components(a) == components(b)
}

/// A path with a slash between two parts names the components of both.
pub proof fn components_of_joined(a: Seq<char>, b: Seq<char>)
    ensures
        components(a + seq!['/'] + b) == components(a) + components(b),
    decreases a.len(),
{
    let s = a + seq!['/'] + b;
    let end = char_at(a, '/') as int;
    lemma_char_at(a, '/');
    if end < a.len() {
        let rest = a.skip(end + 1);
        assert forall|k: int| 0 <= k < end implies s[k] != '/' by {
            assert(s[k] == a[k]);
        }
        assert(s[end] == a[end]);
        lemma_char_at_is(s, '/', end);
        assert(s.take(end) =~= a.take(end));
        assert(s.skip(end + 1) =~= rest + seq!['/'] + b);
        components_of_joined(rest, b);
        let part = seq![a.take(end)];
        assert(part + (components(rest) + components(b)) =~= (part + components(rest))
            + components(b));
    } else {
        assert forall|k: int| 0 <= k < end implies s[k] != '/' by {
            assert(s[k] == a[k]);
        }
        assert(s[end] == '/');
        lemma_char_at_is(s, '/', end);
        assert(s.take(end) =~= a.take(end));
        assert(s.skip(end + 1) =~= b);
        let part = seq![a.take(end)];
        assert(part + Seq::<Seq<char>>::empty() =~= part);
        assert(Seq::<Seq<char>>::empty() + components(b) =~= components(b));
    }
}

/// A slash or a dot at the end does not make another path.
pub proof fn endings_make_no_difference(s: Seq<char>)
    requires
        s.len() > 0,
    ensures
        same_path(s, s + seq!['/']),
        same_path(s, s + seq!['/', '.']),
        same_path(s, s + seq!['/', '.', '/']),
{
    let none = Seq::<char>::empty();
    let dot = seq!['.'];
    let dot_slash = seq!['.', '/'];
    components_of_joined(s, none);
    components_of_joined(s, dot);
    components_of_joined(s, dot_slash);
    components_of_joined(dot, none);
    assert(dot + seq!['/'] + none =~= dot_slash);
    assert(s + seq!['/'] + none =~= s + seq!['/']);
    assert(s + seq!['/'] + dot =~= s + seq!['/', '.']);
    assert(s + seq!['/'] + dot_slash =~= s + seq!['/', '.', '/']);
    lemma_char_at_is(none, '/', 0);
    lemma_char_at_is(dot, '/', 1);
    assert(dot.take(1) =~= dot);
    assert(components(none) =~= Seq::empty());
    assert(components(dot) =~= Seq::empty());
    assert(components(s) + Seq::<Seq<char>>::empty() =~= components(s));
    assert(components(none) + components(none) =~= Seq::empty());
}

fn components_of(s: &str) -> (r: Vec<String>)
    ensures
        views(r@) == components(s@),
{
    let chars = chars_of(s);
    let mut out: Vec<String> = Vec::new();
    let mut start: usize = 0;
    proof {
        assert(s@.skip(0) =~= s@);
        assert(views(out@) + components(s@) =~= components(s@));
    }
    while start < chars.len()
        invariant
            chars@ == s@,
            start <= chars.len(),
            views(out@) + components(s@.skip(start as int)) == components(s@),
        decreases chars.len() - start,
    {
        let ghost tail = s@.skip(start as int);
        let end: usize = find_char(&chars, start, '/');
        let part = s.substring_char(start, end);
        assert(part@ =~= tail.take(end - start));
        let ghost before = views(out@);
        let ghost rest = if end < chars.len() {
            components(tail.skip(end - start + 1))
        } else {
            Seq::empty()
        };
        assert(components(tail) == if part@.len() == 0 || part@ == seq!['.'] {
            rest
        } else {
            seq![part@] + rest
        });
        proof {
            reveal_strlit(".");
            assert("."@ =~= seq!['.']);
        }
        if !part.is_empty() && !same_text(part, ".") {
            out.push(part.to_owned());
            assert(views(out@) =~= before.push(part@));
            assert(before.push(part@) + rest =~= before + (seq![part@] + rest));
        }
        if end < chars.len() {
            assert(tail.skip(end - start + 1) =~= s@.skip(end + 1));
            start = end + 1;
        } else {
            assert(s@.skip(end as int) =~= Seq::empty());
            assert(components(Seq::<char>::empty()) =~= Seq::empty());
            start = end;
        }
    }
    proof {
        assert(s@.skip(start as int) =~= Seq::empty());
        assert(components(Seq::<char>::empty()) =~= Seq::empty());
        assert(views(out@) + Seq::<Seq<char>>::empty() =~= views(out@));
    }
    out
}

fn starts_at_root(s: &str) -> (r: bool)
    ensures
        r == from_root(s@),
{
    let chars = chars_of(s);
    chars.len() > 0 && chars[0] == '/'
}

fn starts_with_dot(s: &str) -> (r: bool)
    ensures
        r == from_dot(s@),
{
    let chars = chars_of(s);
    chars.len() > 0 && chars[0] == '.' && (chars.len() == 1 || chars[1] == '/')
}

/// Whether two texts are the same path. Slashes at the end, repeated slashes and
/// single dots behind the start make no difference.
pub fn is_same_path(a: &str, b: &str) -> (r: bool)
    ensures
        r == same_path(a@, b@),
{
    if starts_at_root(a) != starts_at_root(b) || starts_with_dot(a) != starts_with_dot(b) {
        return false;
    }
    let left = components_of(a);
    let right = components_of(b);
    if left.len() != right.len() {
        assert(views(left@).len() != views(right@).len());
        return false;
    }
    let mut i: usize = 0;
    while i < left.len()
        invariant
            i <= left.len(),
            left.len() == right.len(),
            views(left@) == components(a@),
            views(right@) == components(b@),
            forall|k: int| 0 <= k < i ==> views(left@)[k] == views(right@)[k],
        decreases left.len() - i,
    {
        assert(views(left@)[i as int] == left[i as int]@);
        assert(views(right@)[i as int] == right[i as int]@);
        if !same_text(left[i].as_str(), right[i].as_str()) {
            return false;
        }
        i += 1;
    }
    assert(views(left@) =~= views(right@));
    true
}

/// What follows a path's first component names no other: it is made of slashes and
/// of single dots between them.
pub open spec fn adds_nothing(s: Seq<char>) -> bool {
    forall|i: int|
        0 <= i < s.len() ==> #[trigger] s[i] == '/' || (s[i] == '.' && (i == 0 || s[i - 1] != '.'))
}

/// A relative path with one component, which is a name and neither `.` nor `..`.
pub open spec fn single_component(s: Seq<char>) -> bool {
    let end = char_at(s, '/') as int;
    let name = s.take(end);
    &&& name.len() > 0
    &&& name != seq!['.']
    &&& name != seq!['.', '.']
    &&& adds_nothing(s.skip(end))
}

/// Whether a path is a single name.
pub fn is_single_component(s: &str) -> (r: bool)
    ensures
        r == single_component(s@),
{
    let chars = chars_of(s);
    assert(s@.skip(0) =~= s@);
    let first: usize = find_char(&chars, 0, '/');
    let ghost name = s@.take(first as int);
    if first == 0 {
        return false;
    }
    if first == 1 && chars[0] == '.' {
        assert(name =~= seq!['.']);
        return false;
    }
    if first == 2 && chars[0] == '.' && chars[1] == '.' {
        assert(name =~= seq!['.', '.']);
        return false;
    }
    proof {
        assert(name[0] == s@[0]);
        if first >= 2 {
            assert(name[1] == s@[1]);
        }
    }
    let ghost rest = s@.skip(first as int);
    let mut i: usize = first;
    while i < chars.len()
        invariant
            chars@ == s@,
            first == char_at(s@, '/'),
            rest == s@.skip(first as int),
            first <= i <= chars.len(),
            forall|k: int|
                0 <= k < i - first ==> #[trigger] rest[k] == '/' || (rest[k] == '.' && (k == 0
                    || rest[k - 1] != '.')),
        decreases chars.len() - i,
    {
        let c = chars[i];
        assert(rest[i - first] == c);
        if i > first {
            assert(rest[i - first - 1] == s@[i - 1]);
        }
        if !(c == '/' || (c == '.' && (i == first || chars[i - 1] != '.'))) {
            return false;
        }
        i += 1;
    }
    true
}

} // verus!
