//! Session ids in text that is logged or shown.
//!
//! An id resumes its session, so it is a credential: it never leaves the broker.

use vstd::prelude::*;
use vstd::string::*;

use crate::text::{chars_of, occurs_at, stands_at};

verus! {

pub open spec fn is_hex(c: char) -> bool {
    '0' <= c <= '9' || 'a' <= c <= 'f' || 'A' <= c <= 'F'
}

/// The character fits place `k` of a UUID in its 36 character form.
pub open spec fn uuid_char(k: int, c: char) -> bool {
    if k == 8 || k == 13 || k == 18 || k == 23 {
        c == '-'
    } else {
        is_hex(c)
    }
}

/// A UUID stands in `s` at `i`.
pub open spec fn uuid_at(s: Seq<char>, i: int) -> bool {
    i + 36 <= s.len() && forall|k: int| 0 <= k < 36 ==> uuid_char(k, #[trigger] s[i + k])
}

/// The length of the session id with which `s` starts; 0 where it starts with none.
pub open spec fn id_len(s: Seq<char>) -> int {
    if occurs_at(s, "acp_"@, 0) && uuid_at(s, 4) {
        40
    } else if occurs_at(s, "sess_"@, 0) && uuid_at(s, 5) {
        41
    } else {
        0
    }
}

/// `s` with a tag in place of each session id.
pub open spec fn redacted(s: Seq<char>) -> Seq<char>
    decreases s.len(),
{
    if s.len() == 0 {
        Seq::empty()
    } else if id_len(s) > 0 && id_len(s) <= s.len() {
        seq!['#'] + redacted(s.skip(id_len(s)))
    } else {
        seq![s[0]] + redacted(s.skip(1))
    }
}

fn fits_uuid(k: usize, c: char) -> (r: bool)
    ensures
        r == uuid_char(k as int, c),
{
    if k == 8 || k == 13 || k == 18 || k == 23 {
        c == '-'
    } else {
        ('0' <= c && c <= '9') || ('a' <= c && c <= 'f') || ('A' <= c && c <= 'F')
    }
}

fn has_uuid(chars: &Vec<char>, i: usize) -> (r: bool)
    requires
        i <= chars.len(),
    ensures
        r == uuid_at(chars@, i as int),
{
    if chars.len() - i < 36 {
        return false;
    }
    let mut k: usize = 0;
    while k < 36
        invariant
            i + 36 <= chars.len(),
            k <= 36,
            forall|j: int| 0 <= j < k ==> uuid_char(j, #[trigger] chars@[i + j]),
        decreases 36 - k,
    {
        if !fits_uuid(k, chars[i + k]) {
            assert(!uuid_char(k as int, chars@[i + k]));
            return false;
        }
        k += 1;
    }
    true
}

proof fn lemma_shift(s: Seq<char>, i: int, p: Seq<char>)
    requires
        0 <= i <= s.len(),
    ensures
        occurs_at(s, p, i) == occurs_at(s.skip(i), p, 0),
        uuid_at(s.skip(i), p.len() as int) == (uuid_at(s, i + p.len())),
{
    let t = s.skip(i);
    if i + p.len() <= s.len() {
        assert(t.subrange(0, p.len() as int) =~= s.subrange(i, i + p.len()));
    }
    if i + p.len() + 36 <= s.len() {
        assert forall|k: int| 0 <= k < 36 implies t[p.len() + k] == #[trigger] s[i + p.len() + k] by {}
        if uuid_at(t, p.len() as int) {
            assert forall|k: int| 0 <= k < 36 implies uuid_char(k, #[trigger] s[i + p.len() + k]) by {
                assert(uuid_char(k, t[p.len() + k]));
            }
        }
        if uuid_at(s, i + p.len()) {
            assert forall|k: int| 0 <= k < 36 implies uuid_char(k, #[trigger] t[p.len() + k]) by {
                assert(uuid_char(k, s[i + p.len() + k]));
            }
        }
    }
}

fn id_len_at(chars: &Vec<char>, acp: &Vec<char>, sess: &Vec<char>, i: usize) -> (r: usize)
    requires
        i < chars.len(),
        acp@ == "acp_"@,
        sess@ == "sess_"@,
    ensures
        r == id_len(chars@.skip(i as int)),
        i + r <= chars.len(),
{
    proof {
        reveal_strlit("acp_");
        reveal_strlit("sess_");
        lemma_shift(chars@, i as int, "acp_"@);
        lemma_shift(chars@, i as int, "sess_"@);
    }
    if stands_at(chars, acp, i) && has_uuid(chars, i + 4) {
        return 40;
    }
    if stands_at(chars, sess, i) && has_uuid(chars, i + 5) {
        return 41;
    }
    0
}

/// A text with a tag in place of each session id.
pub fn redact_session_ids(text: &str) -> (r: String)
    ensures
        r@ == redacted(text@),
{
    let chars = chars_of(text);
    let acp = chars_of("acp_");
    let sess = chars_of("sess_");
    let mut out = String::new();
    let mut run: usize = 0;
    let mut i: usize = 0;
    proof {
        reveal_strlit("#");
        assert("#"@ =~= seq!['#']);
        assert(text@.skip(0) =~= text@);
        assert(text@.subrange(0, 0) =~= Seq::<char>::empty());
        assert(out@ + text@.subrange(0, 0) + redacted(text@) =~= redacted(text@));
    }
    while i < chars.len()
        invariant
            chars@ == text@,
            acp@ == "acp_"@,
            sess@ == "sess_"@,
            "#"@ == seq!['#'],
            run <= i <= chars.len(),
            out@ + text@.subrange(run as int, i as int) + redacted(text@.skip(i as int)) == redacted(
                text@,
            ),
        decreases chars.len() - i,
    {
        let n: usize = id_len_at(&chars, &acp, &sess, i);
        let ghost rest = text@.skip(i as int);
        if n > 0 {
            let ghost before = out@;
            out.append(text.substring_char(run, i));
            out.append("#");
            proof {
                assert(rest.skip(n as int) =~= text@.skip(i + n));
                let r = text@.subrange(run as int, i as int);
                let t = redacted(text@.skip(i + n));
                assert(before + r + (seq!['#'] + t) =~= before + r + seq!['#'] + t);
                assert(text@.subrange(i + n, i + n) =~= Seq::<char>::empty());
                assert(out@ + text@.subrange(i + n, i + n) + t =~= out@ + t);
            }
            i += n;
            run = i;
        } else {
            proof {
                assert(rest.skip(1) =~= text@.skip(i + 1));
                let r = text@.subrange(run as int, i as int);
                let t = redacted(text@.skip(i + 1));
                assert(text@.subrange(run as int, i + 1) =~= r + seq![rest[0]]);
                assert(out@ + r + (seq![rest[0]] + t) =~= out@ + text@.subrange(run as int, i + 1)
                    + t);
            }
            i += 1;
        }
    }
    out.append(text.substring_char(run, i));
    proof {
        assert(text@.skip(i as int) =~= Seq::<char>::empty());
        assert(out@ + Seq::<char>::empty() =~= out@);
    }
    out
}

/// A text without a session id passes unchanged.
pub proof fn text_without_ids_is_unchanged(s: Seq<char>)
    requires
        forall|i: int| 0 <= i < s.len() ==> id_len(#[trigger] s.skip(i)) == 0,
    ensures
        redacted(s) == s,
    decreases s.len(),
{
    if s.len() > 0 {
        let t = s.skip(1);
        assert(s.skip(0) =~= s);
        assert(id_len(s.skip(0)) == 0);
        assert forall|i: int| 0 <= i < t.len() implies id_len(#[trigger] t.skip(i)) == 0 by {
            assert(t.skip(i) =~= s.skip(i + 1));
        }
        text_without_ids_is_unchanged(t);
        assert(redacted(s) =~= s);
    }
}

proof fn lemma_untagged_prefix(s: Seq<char>, m: int)
    requires
        0 <= m <= redacted(s).len(),
        forall|k: int| 0 <= k < m ==> #[trigger] redacted(s)[k] != '#',
    ensures
        m <= s.len(),
        forall|k: int| 0 <= k < m ==> #[trigger] redacted(s)[k] == s[k],
    decreases s.len(),
{
    if m > 0 {
        if id_len(s) > 0 && id_len(s) <= s.len() {
            assert(redacted(s)[0] == '#');
        } else {
            let t = s.skip(1);
            assert forall|k: int| 0 <= k < m - 1 implies #[trigger] redacted(t)[k] != '#' by {
                assert(redacted(t)[k] == redacted(s)[k + 1]);
            }
            lemma_untagged_prefix(t, m - 1);
            assert forall|k: int| 0 <= k < m implies #[trigger] redacted(s)[k] == s[k] by {
                if k > 0 {
                    assert(redacted(s)[k] == redacted(t)[k - 1]);
                    assert(t[k - 1] == s[k]);
                }
            }
        }
    }
}

proof fn lemma_id_chars(s: Seq<char>)
    ensures
        0 <= id_len(s) <= s.len(),
        forall|k: int| 0 <= k < id_len(s) ==> #[trigger] s[k] != '#',
{
    reveal_strlit("acp_");
    reveal_strlit("sess_");
    assert forall|k: int| 0 <= k < id_len(s) implies #[trigger] s[k] != '#' by {
        if id_len(s) == 40 {
            if k < 4 {
                assert(s.subrange(0, 4)[k] == s[k]);
            } else {
                assert(uuid_char(k - 4, s[4 + (k - 4)]));
            }
        } else if id_len(s) == 41 {
            if k < 5 {
                assert(s.subrange(0, 5)[k] == s[k]);
            } else {
                assert(uuid_char(k - 5, s[5 + (k - 5)]));
            }
        }
    }
}

proof fn lemma_same_start(a: Seq<char>, b: Seq<char>)
    requires
        id_len(a) > 0,
        id_len(a) <= b.len(),
        forall|k: int| 0 <= k < id_len(a) ==> #[trigger] a[k] == b[k],
    ensures
        id_len(b) > 0,
{
    reveal_strlit("acp_");
    reveal_strlit("sess_");
    lemma_id_chars(a);
    if id_len(a) == 40 {
        assert(b.subrange(0, 4) =~= a.subrange(0, 4));
        assert forall|k: int| 0 <= k < 36 implies uuid_char(k, #[trigger] b[4 + k]) by {
            assert(uuid_char(k, a[4 + k]));
        }
    } else {
        assert(b.subrange(0, 5) =~= a.subrange(0, 5));
        assert forall|k: int| 0 <= k < 36 implies uuid_char(k, #[trigger] b[5 + k]) by {
            assert(uuid_char(k, a[5 + k]));
        }
    }
}

/// No session id stands anywhere in a redacted text.
pub proof fn redacted_text_holds_no_id(s: Seq<char>, j: int)
    requires
        0 <= j <= redacted(s).len(),
    ensures
        id_len(redacted(s).skip(j)) == 0,
    decreases s.len(),
{
    let out = redacted(s);
    lemma_id_chars(s);
    lemma_id_chars(out.skip(j));
    if s.len() == 0 {
        assert(out.skip(j).len() == 0);
    } else if id_len(s) > 0 {
        let t = s.skip(id_len(s));
        if j == 0 {
            if id_len(out.skip(0)) > 0 {
                assert(out.skip(0)[0] == '#');
            }
        } else {
            redacted_text_holds_no_id(t, j - 1);
            assert(out.skip(j) =~= redacted(t).skip(j - 1));
        }
    } else {
        let t = s.skip(1);
        if j == 0 {
            assert(out.skip(0) =~= out);
            if id_len(out) > 0 {
                lemma_untagged_prefix(s, id_len(out));
                lemma_same_start(out, s);
            }
        } else {
            redacted_text_holds_no_id(t, j - 1);
            assert(out.skip(j) =~= redacted(t).skip(j - 1));
        }
    }
}

} // verus!
