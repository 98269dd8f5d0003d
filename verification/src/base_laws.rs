//! What texts, numbers, digests, times and paths are written as, stated over their
//! characters.

use vstd::prelude::*;

use crate::clock::{parse_timestamp, timestamp, Timestamp};
use crate::decimal::{decimal, decimal_text, digit, is_digit, number, parse_u64_text, parsed_u64, unsigned_digits};
use crate::digest::{hex, hex_digit, hex_text};
use crate::paths::{components, is_same_path, join_path};
use crate::redact::{id_len, redact_session_ids, redacted, uuid_at, uuid_char};
use crate::text::{
    contains, contains_text, count_text, lemma_char_at_is, occurrences, occurs_at, same_text,
    starts_with, strip_prefix,
};

verus! {

/// A digit of a number, by its character's number.
pub open spec fn digit_value(c: char) -> int {
    c as u32 - 48
}

/// A character is a decimal digit.
pub open spec fn numeral(c: char) -> bool {
    48 <= c as u32 <= 57
}

/// A text is made of numerals.
pub open spec fn numerals(s: Seq<char>) -> bool {
    s.len() > 0 && forall|i: int| 0 <= i < s.len() ==> numeral(#[trigger] s[i])
}

/// The number that numerals denote, the last counting for ones.
pub open spec fn value(s: Seq<char>) -> int
    decreases s.len(),
{
    if s.len() == 0 {
        0
    } else {
        value(s.drop_last()) * 10 + digit_value(s.last())
    }
}

proof fn lemma_digit(d: nat)
    requires
        d < 10,
    ensures
        numeral(digit(d)),
        digit_value(digit(d)) == d,
{
}

proof fn lemma_numeral(c: char)
    ensures
        numeral(c) == is_digit(c),
{
}

proof fn lemma_value(s: Seq<char>)
    requires
        forall|i: int| 0 <= i < s.len() ==> numeral(#[trigger] s[i]),
    ensures
        value(s) == number(s),
        value(s) >= 0,
    decreases s.len(),
{
    if s.len() > 0 {
        let init = s.drop_last();
        assert forall|i: int| 0 <= i < init.len() implies numeral(#[trigger] init[i]) by {
            assert(numeral(s[i]));
        }
        lemma_value(init);
        assert(numeral(s[s.len() - 1]));
    }
}

/// A number is written in numerals that denote it, without a zero in front of
/// others.
pub proof fn numbers_are_written_in_numerals(n: u64, r: String)
    requires
        call_ensures(decimal_text, (n,), r),
    ensures
        r@.len() > 0,
        forall|i: int| 0 <= i < r@.len() ==> numeral(#[trigger] r@[i]),
        value(r@) == n,
        r@.len() > 1 ==> r@[0] != '0',
{
    lemma_decimal(n as nat);
}

proof fn lemma_decimal(n: nat)
    ensures
        decimal(n).len() > 0,
        forall|i: int| 0 <= i < decimal(n).len() ==> numeral(#[trigger] decimal(n)[i]),
        value(decimal(n)) == n,
        n > 0 ==> decimal(n)[0] != '0',
        n < 10 ==> decimal(n).len() == 1,
        decimal(n).len() > 1 ==> n >= 10,
    decreases n,
{
    if n < 10 {
        lemma_digit(n);
        assert(decimal(n).drop_last() =~= Seq::<char>::empty());
        assert(value(Seq::<char>::empty()) == 0);
    } else {
        lemma_decimal(n / 10);
        lemma_digit(n % 10);
        assert(decimal(n).drop_last() =~= decimal(n / 10));
        assert forall|i: int| 0 <= i < decimal(n).len() implies numeral(#[trigger] decimal(n)[i]) by {
            if i < decimal(n / 10).len() {
                assert(decimal(n)[i] == decimal(n / 10)[i]);
            }
        }
        assert(decimal(n)[0] == decimal(n / 10)[0]);
    }
}

/// A text is read as a number exactly where it is numerals, behind a plus sign or
/// not, that denote one below 2^64; and as that number.
pub proof fn numerals_are_read_as_what_they_denote(text: &str, r: Option<u64>)
    requires
        call_ensures(parse_u64_text, (text,), r),
    ensures
        ({
            let d = if text@.len() > 0 && text@[0] == '+' {
                text@.skip(1)
            } else {
                text@
            };
            &&& r is Some <==> numerals(d) && value(d) < 0x1_0000_0000_0000_0000
            &&& r is Some ==> r->0 == value(d)
        }),
{
    let d = unsigned_digits(text@);
    if numerals(d) {
        assert forall|i: int| 0 <= i < d.len() implies is_digit(#[trigger] d[i]) by {
            assert(numeral(d[i]));
            lemma_numeral(d[i]);
        }
        lemma_value(d);
    }
    if parsed_u64(text@) is Some {
        assert forall|i: int| 0 <= i < d.len() implies numeral(#[trigger] d[i]) by {
            assert(is_digit(d[i]));
            lemma_numeral(d[i]);
        }
        assert(numerals(d));
        lemma_value(d);
    }
}

/// The character of a hexadecimal digit, by its number: `0` to `9`, then `a` to `f`.
pub open spec fn hexadecimal(d: int) -> int {
    if d < 10 {
        48 + d
    } else {
        87 + d
    }
}

proof fn lemma_hex_at(bytes: Seq<u8>, i: int)
    requires
        0 <= i < bytes.len(),
    ensures
        hex(bytes).len() == 2 * bytes.len(),
        hex(bytes)[2 * i] == hex_digit(bytes[i] as int / 16),
        hex(bytes)[2 * i + 1] == hex_digit(bytes[i] as int % 16),
    decreases bytes.len(),
{
    let init = bytes.drop_last();
    lemma_hex_len(init);
    if i < init.len() {
        lemma_hex_at(init, i);
        assert(hex(bytes)[2 * i] == hex(init)[2 * i]);
        assert(hex(bytes)[2 * i + 1] == hex(init)[2 * i + 1]);
        assert(init[i] == bytes[i]);
    }
}

proof fn lemma_hex_len(bytes: Seq<u8>)
    ensures
        hex(bytes).len() == 2 * bytes.len(),
    decreases bytes.len(),
{
    if bytes.len() > 0 {
        lemma_hex_len(bytes.drop_last());
    }
}

/// Each byte is written as two hexadecimal digits, the higher first, in the order of
/// the bytes.
pub proof fn bytes_are_written_as_two_digits(bytes: &Vec<u8>, r: String, i: int)
    requires
        call_ensures(hex_text, (bytes,), r),
    ensures
        r@.len() == 2 * bytes@.len(),
        0 <= i < bytes@.len() ==> {
            &&& r@[2 * i] as u32 == hexadecimal(bytes@[i] as int / 16)
            &&& r@[2 * i + 1] as u32 == hexadecimal(bytes@[i] as int % 16)
        },
{
    lemma_hex_len(bytes@);
    if 0 <= i < bytes@.len() {
        lemma_hex_at(bytes@, i);
    }
}

/// A point in time is one exactly where it lies within the calendar, from the year
/// -262143 to the year 262142, and goes beyond a full second only as a leap second.
pub proof fn times_lie_within_the_calendar(secs: i64, nanos: u32, r: Option<Timestamp>)
    requires
        call_ensures(Timestamp::new, (secs, nanos), r),
    ensures
        r is Some <==> -8334601228800 <= secs <= 8210266876799 && (nanos < 1000000000 || (nanos
            < 2000000000 && secs % 60 == 59)),
        r is Some ==> r->0.secs == secs && r->0.nanos == nanos,
{
}

/// A point in time between the years 0 and 9999 is read back from its text, to the
/// microsecond.
pub proof fn times_are_read_back(t: Timestamp, text: String, same: &str, r: Option<Timestamp>)
    requires
        call_ensures(timestamp, (t,), text),
        same@ == text@,
        call_ensures(parse_timestamp, (same,), r),
        -62167219200 <= t.secs <= 253402300799,
    ensures
        r is Some,
        r->0.secs == t.secs,
        r->0.nanos == t.nanos - t.nanos % 1000,
{
}

/// A UUID in its 36 characters: hexadecimal digits, of either case, with four dashes
/// between them.
pub open spec fn spelled_uuid(u: Seq<char>) -> bool {
    u.len() == 36 && forall|k: int|
        0 <= k < 36 ==> {
            let n = #[trigger] u[k] as u32;
            if k == 8 || k == 13 || k == 18 || k == 23 {
                n == 45
            } else {
                48 <= n <= 57 || 65 <= n <= 70 || 97 <= n <= 102
            }
        }
}

/// A text starts with a session id: `acp_` or `sess_`, and a UUID.
pub open spec fn starts_with_id(s: Seq<char>) -> bool {
    ||| "acp_"@.is_prefix_of(s) && s.len() >= 40 && spelled_uuid(s.subrange(4, 40))
    ||| "sess_"@.is_prefix_of(s) && s.len() >= 41 && spelled_uuid(s.subrange(5, 41))
}

proof fn lemma_uuid_char(k: int, c: char)
    ensures
        uuid_char(k, c) <==> {
            let n = c as u32;
            if k == 8 || k == 13 || k == 18 || k == 23 {
                n == 45
            } else {
                48 <= n <= 57 || 65 <= n <= 70 || 97 <= n <= 102
            }
        },
{
}

proof fn lemma_spelled_uuid(s: Seq<char>, i: int)
    requires
        0 <= i,
        i + 36 <= s.len(),
    ensures
        spelled_uuid(s.subrange(i, i + 36)) <==> uuid_at(s, i),
{
    let u = s.subrange(i, i + 36);
    if spelled_uuid(u) {
        assert forall|k: int| 0 <= k < 36 implies uuid_char(k, #[trigger] s[i + k]) by {
            assert(u[k] == s[i + k]);
            lemma_uuid_char(k, u[k]);
        }
    }
    if uuid_at(s, i) {
        assert forall|k: int| 0 <= k < 36 implies {
            let n = #[trigger] u[k] as u32;
            if k == 8 || k == 13 || k == 18 || k == 23 {
                n == 45
            } else {
                48 <= n <= 57 || 65 <= n <= 70 || 97 <= n <= 102
            }
        } by {
            assert(uuid_char(k, s[i + k]));
            lemma_uuid_char(k, u[k]);
        }
    }
}

proof fn lemma_starts_with_id(s: Seq<char>)
    ensures
        starts_with_id(s) <==> id_len(s) > 0,
        "acp_"@.is_prefix_of(s) && starts_with_id(s) ==> id_len(s) == 40,
        "sess_"@.is_prefix_of(s) && starts_with_id(s) ==> id_len(s) == 41,
        id_len(s) <= s.len(),
{
    reveal_strlit("acp_");
    reveal_strlit("sess_");
    let a = "acp_"@;
    let b = "sess_"@;
    if occurs_at(s, a, 0) {
        assert(s.subrange(0, 4) == a);
        assert(a.is_prefix_of(s));
    }
    if a.is_prefix_of(s) {
        assert(s.subrange(0, 4) =~= a);
        assert(a[0] == 'a');
        assert(s.subrange(0, 4)[0] == s[0]);
    }
    if occurs_at(s, b, 0) {
        assert(s.subrange(0, 5) == b);
        assert(b.is_prefix_of(s));
    }
    if b.is_prefix_of(s) {
        assert(s.subrange(0, 5) =~= b);
        assert(b[0] == 's');
        assert(s.subrange(0, 5)[0] == s[0]);
    }
    if s.len() >= 40 {
        lemma_spelled_uuid(s, 4);
    }
    if s.len() >= 41 {
        lemma_spelled_uuid(s, 5);
    }
}

/// Where a text starts with a session id, one tag stands in its place and the rest is
/// redacted likewise; where it does not, its first character stays as it is.
pub proof fn ids_are_hidden_and_nothing_else(
    text: &str,
    r: String,
    id: Seq<char>,
    rest: Seq<char>,
    c: char,
)
    requires
        call_ensures(redact_session_ids, (text,), r),
    ensures
        text@.len() == 0 ==> r@.len() == 0,
        text@ == "acp_"@ + id + rest && spelled_uuid(id) ==> r@ == seq!['#'] + redacted(rest),
        text@ == "sess_"@ + id + rest && spelled_uuid(id) ==> r@ == seq!['#'] + redacted(rest),
        text@ == seq![c] + rest && !starts_with_id(text@) ==> r@ == seq![c] + redacted(rest),
{
    let s = text@;
    lemma_starts_with_id(s);
    reveal_strlit("acp_");
    reveal_strlit("sess_");
    if s == "acp_"@ + id + rest && spelled_uuid(id) {
        assert(s.subrange(4, 40) =~= id);
        assert(s.skip(40) =~= rest);
    }
    if s == "sess_"@ + id + rest && spelled_uuid(id) {
        assert(s.subrange(5, 41) =~= id);
        assert(s.skip(41) =~= rest);
    }
    if s == seq![c] + rest && !starts_with_id(s) {
        assert(s.skip(1) =~= rest);
        assert(s[0] == c);
    }
}

/// A name is joined to a directory with one slash between them, and a directory that
/// ends in a slash, or is empty, needs none.
pub proof fn paths_are_joined_by_one_slash(base: &str, name: &str, r: String)
    requires
        call_ensures(join_path, (base, name), r),
    ensures
        base@.len() == 0 ==> r@ == name@,
        base@.len() > 0 && base@.last() == '/' ==> r@ == base@ + name@,
        base@.len() > 0 && base@.last() != '/' ==> r@ == base@ + seq!['/'] + name@,
{
    reveal_strlit("/");
    assert("/"@ =~= seq!['/']);
    if base@.len() == 0 {
        assert(base@ + name@ =~= name@);
    }
}

/// A name without a slash is one component of a path, unless it is a single dot; the
/// empty text and a single dot are none.
pub proof fn names_are_components(name: Seq<char>)
    requires
        forall|i: int| 0 <= i < name.len() ==> name[i] != '/',
    ensures
        name.len() > 0 && name != seq!['.'] ==> components(name) == seq![name],
        name.len() == 0 || name == seq!['.'] ==> components(name).len() == 0,
{
    lemma_char_at_is(name, '/', name.len() as int);
    assert(name.take(name.len() as int) =~= name);
    assert(seq![name] + Seq::<Seq<char>>::empty() =~= seq![name]);
}

/// Two texts are the same path exactly where both or neither start at the root, both
/// or neither with a single dot, and they name the same components.
pub proof fn paths_are_the_same_by_their_components(a: &str, b: &str, r: bool)
    requires
        call_ensures(is_same_path, (a, b), r),
    ensures
        ({
            let root = |s: Seq<char>| s.len() > 0 && s[0] == '/';
            let dot = |s: Seq<char>| s == seq!['.'] || (s.len() > 1 && s[0] == '.' && s[1] == '/');
            r <==> root(a@) == root(b@) && dot(a@) == dot(b@) && components(a@) == components(b@)
        }),
{
    if a@.len() == 1 && a@[0] == '.' {
        assert(a@ =~= seq!['.']);
    }
    if b@.len() == 1 && b@[0] == '.' {
        assert(b@ =~= seq!['.']);
    }
}

/// What the functions on text say is what stands in the texts.
pub proof fn texts_are_compared_and_searched(
    a: &str,
    b: &str,
    same: bool,
    start: bool,
    within: bool,
    n: usize,
    rest: Option<String>,
)
    requires
        call_ensures(same_text, (a, b), same),
        call_ensures(starts_with, (a, b), start),
        call_ensures(contains_text, (a, b), within),
        call_ensures(count_text, (a, b), n),
        call_ensures(strip_prefix, (a, b), rest),
    ensures
        same <==> a@ == b@,
        start <==> b@.is_prefix_of(a@),
        within <==> exists|i: int|
            0 <= i <= a@.len() - b@.len() && #[trigger] a@.subrange(i, i + b@.len()) == b@,
        n == occurrences(a@, b@),
        rest is Some <==> b@.is_prefix_of(a@),
        rest is Some ==> a@ == b@ + rest->0@,
{
    let p = b@.len() as int;
    if occurs_at(a@, b@, 0) {
        assert(a@.subrange(0, p) == b@);
        assert(b@.is_prefix_of(a@));
        assert(a@ =~= b@ + a@.skip(p));
    }
    if b@.is_prefix_of(a@) {
        assert(a@.subrange(0, p) =~= b@);
    }
    if contains(a@, b@) {
        let i = choose|i: int| occurs_at(a@, b@, i);
        assert(a@.subrange(i, i + b@.len()) == b@);
    }
    if exists|i: int|
        0 <= i <= a@.len() - b@.len() && #[trigger] a@.subrange(i, i + b@.len()) == b@ {
        let i = choose|i: int|
            0 <= i <= a@.len() - b@.len() && #[trigger] a@.subrange(i, i + b@.len()) == b@;
        assert(occurs_at(a@, b@, i));
    }
}

} // verus!
