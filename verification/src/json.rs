//! JSON text.

use vstd::prelude::*;
use vstd::string::*;

use crate::digest::hex_digit;
use crate::text::opt_view;
use crate::text_map::{distinct_keys, map_of};

verus! {

/// A character as it stands in a JSON string.
pub open spec fn json_char(c: char) -> Seq<char> {
    if c == '"' {
        seq!['\\', '"']
    } else if c == '\\' {
        seq!['\\', '\\']
    } else if c == '\u{8}' {
        seq!['\\', 'b']
    } else if c == '\u{9}' {
        seq!['\\', 't']
    } else if c == '\u{a}' {
        seq!['\\', 'n']
    } else if c == '\u{c}' {
        seq!['\\', 'f']
    } else if c == '\u{d}' {
        seq!['\\', 'r']
    } else if c <= '\u{1f}' {
        seq!['\\', 'u', '0', '0', hex_digit(c as int / 16), hex_digit(c as int % 16)]
    } else {
        seq![c]
    }
}

/// The characters of a text as they stand in a JSON string.
pub open spec fn json_chars(s: Seq<char>) -> Seq<char>
    decreases s.len(),
{
    if s.len() == 0 {
        Seq::empty()
    } else {
        json_char(s[0]) + json_chars(s.skip(1))
    }
}

/// A text as a JSON string.
pub open spec fn json_string(s: Seq<char>) -> Seq<char> {
    seq!['"'] + json_chars(s) + seq!['"']
}

/// The compact text of the JSON value that a text denotes, the keys of its
/// objects in order; nothing where the text is no JSON.
pub uninterp spec fn canonical_json(text: Seq<char>) -> Option<Seq<char>>;

/// Calls `serde_json::to_string` on a `str`, which writes the text between double
/// quotes with `"`, `\` and the control characters below U+0020 escaped and every
/// other character as it is.
#[verifier::external_body]
pub(crate) fn json_string_text(s: &str) -> (r: String)
    ensures
        r@ == json_string(s@),
{
    serde_json::to_string(s).unwrap()
}

/// Appends a name and a text as a JSON string.
pub fn append_string(out: &mut String, name: &str, value: &str)
    ensures
        final(out)@ == old(out)@ + name@ + json_string(value@),
{
    out.append(name);
    out.append(json_string_text(value).as_str());
}

/// Calls `serde_json::to_string` on the `serde_json::Value` that
/// `serde_json::from_str` reads. The result is named by `canonical_json`; it is
/// JSON itself. That it stands for itself is left unsaid: a number with a fraction
/// can read back as a neighbouring one.
#[verifier::external_body]
pub(crate) fn canonical_json_text(text: &str) -> (r: Option<String>)
    ensures
        opt_view(r) == canonical_json(text@),
        r is Some ==> canonical_json(r->0@) is Some,
{
    let value = serde_json::from_str::<serde_json::Value>(text).ok()?;
    serde_json::to_string(&value).ok()
}

/// The map that a JSON object of strings denotes; nothing where the text is no such
/// object.
pub uninterp spec fn json_string_map(text: Seq<char>) -> Option<Map<Seq<char>, Seq<char>>>;

/// The indented JSON object of a map of strings, its keys in order.
pub uninterp spec fn json_string_map_text(m: Map<Seq<char>, Seq<char>>) -> Seq<char>;

/// Calls `serde_json::from_str` for a map of strings. The result is named by
/// `json_string_map`; no key stands twice in it.
#[verifier::external_body]
pub(crate) fn parse_string_map(text: &str) -> (r: Option<Vec<(String, String)>>)
    ensures
        match r {
            Some(entries) => distinct_keys(entries@) && json_string_map(text@) == Some(
                map_of(entries@),
            ),
            None => json_string_map(text@) is None,
        },
{
    let map = serde_json::from_str::<std::collections::BTreeMap<String, String>>(text).ok()?;
    Some(map.into_iter().collect())
}

/// Calls `serde_json::to_string_pretty` on a map of strings. The text is named by
/// `json_string_map_text`, and `serde_json` reads the same map back from it.
#[verifier::external_body]
pub(crate) fn render_string_map(entries: &Vec<(String, String)>) -> (r: String)
    requires
        distinct_keys(entries@),
    ensures
        r@ == json_string_map_text(map_of(entries@)),
        json_string_map(r@) == Some(map_of(entries@)),
{
    let map: std::collections::BTreeMap<&String, &String> = entries.iter().map(|e| (&e.0, &e.1)).collect();
    serde_json::to_string_pretty(&map).unwrap()
}

proof fn lemma_json_char(x: char, y: char, u: Seq<char>, v: Seq<char>)
    requires
        json_char(x) + u == json_char(y) + v,
    ensures
        x == y,
        u == v,
{
    let s = json_char(x) + u;
    assert(s == json_char(y) + v);
    assert(s[0] == json_char(x)[0]);
    assert(s[0] == json_char(y)[0]);
    assert(json_char(x).len() > 1 ==> s[1] == json_char(x)[1]);
    assert(json_char(y).len() > 1 ==> s[1] == json_char(y)[1]);
    if json_char(x).len() == 6 && json_char(y).len() == 6 {
        assert(s[4] == json_char(x)[4]);
        assert(s[4] == json_char(y)[4]);
        assert(s[5] == json_char(x)[5]);
        assert(s[5] == json_char(y)[5]);
        assert(x as int / 16 <= 1 && y as int / 16 <= 1);
        assert(x as int / 16 == y as int / 16);
        assert(x as int % 16 == y as int % 16);
    }
    assert(x == y);
    let n = json_char(x).len() as int;
    assert(u =~= s.skip(n));
    assert(v =~= s.skip(n));
}

proof fn lemma_json_chars(x: Seq<char>, y: Seq<char>, u: Seq<char>, v: Seq<char>)
    requires
        json_chars(x) + seq!['"'] + u == json_chars(y) + seq!['"'] + v,
    ensures
        x == y,
        u == v,
    decreases x.len(),
{
    let a = json_chars(x) + seq!['"'] + u;
    let b = json_chars(y) + seq!['"'] + v;
    if x.len() == 0 || y.len() == 0 {
        if x.len() > 0 {
            assert(a[0] == json_char(x[0])[0]);
            assert(b[0] == '"');
        }
        if y.len() > 0 {
            assert(b[0] == json_char(y[0])[0]);
            assert(a[0] == '"');
        }
        assert(u =~= a.skip(1));
        assert(v =~= b.skip(1));
        assert(x =~= y);
    } else {
        let a1 = json_chars(x.skip(1)) + seq!['"'] + u;
        let b1 = json_chars(y.skip(1)) + seq!['"'] + v;
        assert(a =~= json_char(x[0]) + a1);
        assert(b =~= json_char(y[0]) + b1);
        lemma_json_char(x[0], y[0], a1, b1);
        lemma_json_chars(x.skip(1), y.skip(1), u, v);
        assert(x =~= seq![x[0]] + x.skip(1));
        assert(y =~= seq![y[0]] + y.skip(1));
    }
}

/// A JSON string shows where it ends and which text it holds.
pub proof fn json_string_is_read_back(x: Seq<char>, y: Seq<char>, u: Seq<char>, v: Seq<char>)
    requires
        json_string(x) + u == json_string(y) + v,
    ensures
        x == y,
        u == v,
{
    let a = json_string(x) + u;
    let b = json_string(y) + v;
    assert(a.skip(1) =~= json_chars(x) + seq!['"'] + u);
    assert(b.skip(1) =~= json_chars(y) + seq!['"'] + v);
    lemma_json_chars(x, y, u, v);
}

} // verus!
