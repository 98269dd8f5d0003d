//! What holds of every reply and every claim.

use vstd::prelude::*;

use crate::admission::NativeWorkflowMetadata;
use crate::role_completion_block::{
    block_outcome, claim_fault, claimed, closed_blocks, field_fault, fields_of, find, first_fault,
    is_field, is_result, is_role, marker_lines, parse_outcome, with_line, ClaimText,
    ParseText, CLOSING_MARKER, OPENING_MARKER,
};
use crate::text::{
    char_at, contains, is_space, lemma_char_at_is, lines, occurrences, occurs_at, opt_view, trim,
};
use crate::text_laws::{
    counted_iff_contained, full_lines, full_lines_of_one, full_lines_of_stacked, occurrences_of_stacked,
    one_line, stacked, trimmed_is_fixed, trimmed_is_part,
};

verus! {

proof fn lemma_markers()
    ensures
        OPENING_MARKER@.len() == 17,
        CLOSING_MARKER@.len() == 18,
        one_line(OPENING_MARKER@),
        one_line(CLOSING_MARKER@),
        OPENING_MARKER@[0] == '<',
        CLOSING_MARKER@[0] == '<',
        OPENING_MARKER@[1] == 'r',
        CLOSING_MARKER@[1] == '/',
        OPENING_MARKER@.last() == '>',
        CLOSING_MARKER@.last() == '>',
{
    reveal_strlit("<role_completion>");
    reveal_strlit("</role_completion>");
}

proof fn lemma_find(s: Seq<char>, p: Seq<char>)
    requires
        p.len() > 0,
    ensures
        match find(s, p) {
            Some(i) => occurs_at(s, p, i),
            None => !contains(s, p),
        },
    decreases s.len(),
{
    if s.len() >= p.len() && !occurs_at(s, p, 0) {
        lemma_find(s.skip(1), p);
        match find(s.skip(1), p) {
            Some(i) => {
                assert(s.skip(1).subrange(i, i + p.len()) =~= s.subrange(i + 1, i + 1 + p.len()));
            },
            None => {
                if contains(s, p) {
                    let i = choose|i: int| occurs_at(s, p, i);
                    assert(s.skip(1).subrange(i - 1, i - 1 + p.len()) =~= s.subrange(
                        i,
                        i + p.len(),
                    ));
                    assert(occurs_at(s.skip(1), p, i - 1));
                }
            },
        }
    } else if s.len() < p.len() && contains(s, p) {
        let i = choose|i: int| occurs_at(s, p, i);
        assert(occurs_at(s, p, i));
    }
}

proof fn lemma_find_stacked(a: Seq<char>, b: Seq<char>, p: Seq<char>)
    requires
        p.len() > 0,
        one_line(p),
    ensures
        find(stacked(a, b), p) == match find(a, p) {
            Some(i) => Some(i),
            None => match find(b, p) {
                Some(i) => Some(i + a.len() + 1),
                None => None::<int>,
            },
        },
    decreases a.len(),
{
    let s = stacked(a, b);
    if p.len() <= a.len() {
        assert(s.subrange(0, p.len() as int) =~= a.subrange(0, p.len() as int));
    } else if occurs_at(s, p, 0) {
        assert(s[a.len() as int] == '\n');
        assert(p[a.len() as int] == s.subrange(0, p.len() as int)[a.len() as int]);
    }
    if a.len() == 0 {
        assert(s.skip(1) =~= b);
        assert(find(a, p) is None);
    } else if !occurs_at(s, p, 0) {
        lemma_find_stacked(a.skip(1), b, p);
        assert(s.skip(1) =~= stacked(a.skip(1), b));
        if a.len() < p.len() {
            assert(find(a, p) is None);
            assert(find(a.skip(1), p) is None);
        }
        if s.len() < p.len() {
            assert(find(s.skip(1), p) is None);
        }
    }
}

proof fn lemma_blocks_behind(a: Seq<char>, b: Seq<char>, o: Seq<char>, c: Seq<char>)
    requires
        o.len() > 0,
        c.len() > 0,
        one_line(o),
        !contains(a, o),
    ensures
        closed_blocks(stacked(a, b), o, c) == closed_blocks(b, o, c),
{
    let s = stacked(a, b);
    lemma_find(a, o);
    if find(a, o) is Some {
        assert(occurs_at(a, o, find(a, o)->0));
    }
    lemma_find_stacked(a, b, o);
    lemma_find(b, o);
    match find(b, o) {
        None => {},
        Some(i) => {
            let rest = b.skip(i + o.len());
            assert(s.skip(i + a.len() + 1 + o.len()) =~= rest);
            lemma_find(rest, c);
        },
    }
}

proof fn lemma_blocks_before(a: Seq<char>, b: Seq<char>, o: Seq<char>, c: Seq<char>)
    requires
        o.len() > 0,
        c.len() > 0,
        one_line(o),
        one_line(c),
        !contains(b, o),
        !contains(b, c),
    ensures
        closed_blocks(stacked(a, b), o, c) == closed_blocks(a, o, c),
    decreases a.len(),
{
    let s = stacked(a, b);
    lemma_find(b, o);
    lemma_find(b, c);
    lemma_find(a, o);
    if find(b, o) is Some {
        assert(occurs_at(b, o, find(b, o)->0));
    }
    if find(b, c) is Some {
        assert(occurs_at(b, c, find(b, c)->0));
    }
    lemma_find_stacked(a, b, o);
    match find(a, o) {
        None => {},
        Some(i) => {
            let rest = a.skip(i + o.len());
            assert(s.skip(i + o.len()) =~= stacked(rest, b));
            lemma_find_stacked(rest, b, c);
            lemma_find(rest, c);
            match find(rest, c) {
                None => {},
                Some(j) => {
                    let behind = rest.skip(j + c.len());
                    assert(stacked(rest, b).take(j) =~= rest.take(j));
                    assert(stacked(rest, b).skip(j + c.len()) =~= stacked(behind, b));
                    lemma_blocks_before(behind, b, o, c);
                },
            }
        },
    }
}

/// How often a text stands in a list.
spec fn times(ls: Seq<Seq<char>>, m: Seq<char>) -> nat
    decreases ls.len(),
{
    if ls.len() == 0 {
        0
    } else {
        times(ls.drop_last(), m) + if ls.last() == m {
            1nat
        } else {
            0nat
        }
    }
}

proof fn lemma_times_add(a: Seq<Seq<char>>, b: Seq<Seq<char>>, m: Seq<char>)
    ensures
        times(a + b, m) == times(a, m) + times(b, m),
    decreases b.len(),
{
    if b.len() == 0 {
        assert(a + b =~= a);
    } else {
        lemma_times_add(a, b.drop_last(), m);
        assert((a + b).drop_last() =~= a + b.drop_last());
    }
}

proof fn lemma_marker_lines(ls: Seq<Seq<char>>, m: Seq<char>)
    requires
        m.len() > 0,
    ensures
        marker_lines(ls, m) == times(full_lines(ls), m),
    decreases ls.len(),
{
    if ls.len() > 0 {
        lemma_marker_lines(ls.drop_last(), m);
        let f = full_lines(ls.drop_last());
        assert(f.push(trim(ls.last())).drop_last() =~= f);
    }
}

proof fn lemma_marker_lines_stacked(a: Seq<char>, b: Seq<char>, m: Seq<char>)
    requires
        m.len() > 0,
    ensures
        marker_lines(lines(stacked(a, b)), m) == marker_lines(lines(a), m) + marker_lines(
            lines(b),
            m,
        ),
{
    full_lines_of_stacked(a, b);
    lemma_marker_lines(lines(stacked(a, b)), m);
    lemma_marker_lines(lines(a), m);
    lemma_marker_lines(lines(b), m);
    lemma_times_add(full_lines(lines(a)), full_lines(lines(b)), m);
}

proof fn lemma_part_contains(s: Seq<char>, i: int, j: int, p: Seq<char>)
    requires
        0 <= i <= j <= s.len(),
        contains(s.subrange(i, j), p),
    ensures
        contains(s, p),
{
    let part = s.subrange(i, j);
    let k = choose|k: int| occurs_at(part, p, k);
    assert(s.subrange(i + k, i + k + p.len()) =~= part.subrange(k, k + p.len()));
    assert(occurs_at(s, p, i + k));
}

/// A marker has a line of its own at most as often as it stands in the text.
pub proof fn marker_lines_are_markers(s: Seq<char>, m: Seq<char>)
    requires
        m.len() > 0,
        one_line(m),
    ensures
        marker_lines(lines(s), m) <= occurrences(s, m),
    decreases s.len(),
{
    let n = char_at(s, '\n') as int;
    crate::text::lemma_char_at(s, '\n');
    reveal_with_fuel(times, 2);
    let line = s.take(n);
    full_lines_of_one(line);
    if trim(line) == m {
        trimmed_is_part(line);
        let (i, j) = choose|i: int, j: int|
            0 <= i <= j <= line.len() && trim(line) == #[trigger] line.subrange(i, j);
        assert(m.subrange(0, m.len() as int) =~= m);
        assert(occurs_at(m, m, 0));
        lemma_part_contains(line, i, j, m);
        counted_iff_contained(line, m);
    }
    lemma_marker_lines(lines(line), m);
    assert(seq![trim(line)].drop_last() =~= Seq::<Seq<char>>::empty());
    if n >= s.len() {
        assert(line =~= s);
    } else {
        let b = s.skip(n + 1);
        assert(s =~= stacked(line, b));
        lemma_marker_lines_stacked(line, b, m);
        occurrences_of_stacked(line, b, m);
        marker_lines_are_markers(b, m);
    }
}

/// Text above a reply, on lines of its own and without a marker, changes nothing
/// in what the reply claims.
pub proof fn text_above_is_ignored(above: Seq<char>, reply: Seq<char>)
    requires
        !contains(above, OPENING_MARKER@),
        !contains(above, CLOSING_MARKER@),
    ensures
        parse_outcome(stacked(above, reply)) == parse_outcome(reply),
{
    let o = OPENING_MARKER@;
    let c = CLOSING_MARKER@;
    lemma_markers();
    counted_iff_contained(above, o);
    counted_iff_contained(above, c);
    occurrences_of_stacked(above, reply, o);
    occurrences_of_stacked(above, reply, c);
    marker_lines_are_markers(above, o);
    marker_lines_are_markers(above, c);
    lemma_marker_lines_stacked(above, reply, o);
    lemma_marker_lines_stacked(above, reply, c);
    lemma_blocks_behind(above, reply, o, c);
}

/// Text below a reply, on lines of its own and without a marker, changes nothing
/// in what the reply claims.
pub proof fn text_below_is_ignored(reply: Seq<char>, below: Seq<char>)
    requires
        !contains(below, OPENING_MARKER@),
        !contains(below, CLOSING_MARKER@),
    ensures
        parse_outcome(stacked(reply, below)) == parse_outcome(reply),
{
    let o = OPENING_MARKER@;
    let c = CLOSING_MARKER@;
    lemma_markers();
    counted_iff_contained(below, o);
    counted_iff_contained(below, c);
    occurrences_of_stacked(reply, below, o);
    occurrences_of_stacked(reply, below, c);
    marker_lines_are_markers(below, o);
    marker_lines_are_markers(below, c);
    lemma_marker_lines_stacked(reply, below, o);
    lemma_marker_lines_stacked(reply, below, c);
    lemma_blocks_before(reply, below, o, c);
}

/// A reply claims nothing exactly where no marker stands in it, whatever else it
/// says.
pub proof fn no_marker_no_claim(text: Seq<char>)
    ensures
        parse_outcome(text) is NoClaim <==> !contains(text, OPENING_MARKER@) && !contains(
            text,
            CLOSING_MARKER@,
        ),
{
    lemma_markers();
    counted_iff_contained(text, OPENING_MARKER@);
    counted_iff_contained(text, CLOSING_MARKER@);
    if occurrences(text, OPENING_MARKER@) != 0 || occurrences(text, CLOSING_MARKER@) != 0 {
        let blocks = closed_blocks(text, OPENING_MARKER@, CLOSING_MARKER@);
        match fields_of(lines(blocks[0])) {
            Err(_) => {},
            Ok(_) => {},
        }
    }
}

/// More than one block makes a reply ambiguous, well-formed or not, whatever stands
/// around their markers.
pub proof fn several_blocks_are_ambiguous(text: Seq<char>)
    requires
        closed_blocks(text, OPENING_MARKER@, CLOSING_MARKER@).len() > 1,
    ensures
        parse_outcome(text) is Ambiguous,
{
    lemma_markers();
    lemma_find(text, OPENING_MARKER@);
    counted_iff_contained(text, OPENING_MARKER@);
    assert(find(text, OPENING_MARKER@) is Some);
    assert(occurs_at(text, OPENING_MARKER@, find(text, OPENING_MARKER@)->0));
}

proof fn lemma_fields_trimmed(ls: Seq<Seq<char>>)
    ensures
        fields_of(ls) is Ok ==> forall|k: Seq<char>| #[trigger]
            fields_of(ls)->Ok_0.contains_key(k) ==> is_field(k) && trim(fields_of(ls)->Ok_0[k])
                == fields_of(ls)->Ok_0[k],
    decreases ls.len(),
{
    if ls.len() > 0 {
        lemma_fields_trimmed(ls.drop_last());
        let line = trim(ls.last());
        let value = line.skip(char_at(line, ':') as int + 1);
        trimmed_is_part(value);
        trimmed_is_fixed(trim(value));
    }
}

/// A claim holds canonical spellings of its role and result, all five fields are
/// filled, none has white space at an end, and the reply holds each marker
/// exactly once.
pub proof fn claims_are_canonical(text: Seq<char>)
    ensures
        match parse_outcome(text) {
            ParseText::Claim(c) => {
                &&& c.role == "PRIMARY"@ || c.role == "VERIFIER"@ || c.role == "FINAL_REVIEWER"@
                &&& c.result == "COMPLETE"@ || c.result == "PASS"@ || c.result == "FAIL"@
                &&& c.workflow_id.len() > 0 && trim(c.workflow_id) == c.workflow_id
                &&& c.project_id.len() > 0 && trim(c.project_id) == c.project_id
                &&& c.project_root.len() > 0 && trim(c.project_root) == c.project_root
                &&& occurrences(text, OPENING_MARKER@) == 1
                &&& occurrences(text, CLOSING_MARKER@) == 1
            },
            _ => true,
        },
{
    let blocks = closed_blocks(text, OPENING_MARKER@, CLOSING_MARKER@);
    lemma_fields_trimmed(lines(blocks[0]));
}

/// A claim is accepted exactly where it agrees with its dispatch on every point:
/// the role, a result that the role may report, the workflow, and a project and
/// root that the dispatch holds and that are not blank.
pub proof fn accepted_iff_agreed(claim: ClaimText, metadata: NativeWorkflowMetadata)
    ensures
        claim_fault(claim, metadata) is None <==> {
            &&& claim.role == metadata.role@
            &&& {
                ||| claim.role == "PRIMARY"@ && claim.result == "COMPLETE"@
                ||| claim.role == "VERIFIER"@ && claim.result == "PASS"@
                ||| claim.role == "VERIFIER"@ && claim.result == "FAIL"@
                ||| claim.role == "FINAL_REVIEWER"@ && claim.result == "PASS"@
            }
            &&& claim.workflow_id == metadata.workflow_run_id@
            &&& opt_view(metadata.project_id) == Some(claim.project_id)
            &&& trim(claim.project_id).len() > 0
            &&& opt_view(metadata.project_root) == Some(claim.project_root)
            &&& trim(claim.project_root).len() > 0
        },
{
}

/// `FAIL` from the role `FINAL_REVIEWER` is never accepted, whatever the dispatch says.
pub proof fn final_reviewer_never_fails(claim: ClaimText, metadata: NativeWorkflowMetadata)
    requires
        claim.role == "FINAL_REVIEWER"@,
        claim.result == "FAIL"@,
    ensures
        claim_fault(claim, metadata) is Some,
{
    reveal_strlit("FINAL_REVIEWER");
    reveal_strlit("PRIMARY");
    reveal_strlit("VERIFIER");
    reveal_strlit("PASS");
    reveal_strlit("FAIL");
    reveal_strlit("COMPLETE");
    assert("FINAL_REVIEWER"@[0] != "PRIMARY"@[0]);
    assert("FINAL_REVIEWER"@[0] != "VERIFIER"@[0]);
    assert("FAIL"@[0] != "PASS"@[0]);
}

/// The line `key: value`.
pub open spec fn field_line(key: Seq<char>, value: Seq<char>) -> Seq<char> {
    key + ": "@ + value
}

/// The block that states a claim, each field on a line of its own.
pub open spec fn block_text(c: ClaimText) -> Seq<char> {
    stacked(
        OPENING_MARKER@,
        stacked(
            field_line("role"@, c.role),
            stacked(
                field_line("result"@, c.result),
                stacked(
                    field_line("workflow_id"@, c.workflow_id),
                    stacked(
                        field_line("project_id"@, c.project_id),
                        stacked(field_line("project_root"@, c.project_root), CLOSING_MARKER@),
                    ),
                ),
            ),
        ),
    )
}

/// A value that a field can hold: one line, filled, without white space at an
/// end and without a marker.
pub open spec fn field_value(v: Seq<char>) -> bool {
    &&& v.len() > 0
    &&& trim(v) == v
    &&& one_line(v)
    &&& !contains(v, OPENING_MARKER@)
    &&& !contains(v, CLOSING_MARKER@)
}

proof fn lemma_key(k: Seq<char>)
    requires
        is_field(k),
    ensures
        k.len() > 0,
        forall|i: int|
            0 <= i < k.len() ==> k[i] != ':' && k[i] != '<' && k[i] != '\n' && !is_space(
                #[trigger] k[i],
            ),
        ": "@ == seq![':', ' '],
{
    reveal_strlit(": ");
    reveal_strlit("role");
    reveal_strlit("result");
    reveal_strlit("workflow_id");
    reveal_strlit("project_id");
    reveal_strlit("project_root");
    assert(": "@ =~= seq![':', ' ']);
}

proof fn lemma_no_angle(v: Seq<char>)
    requires
        forall|i: int| 0 <= i < v.len() ==> v[i] != '<',
    ensures
        !contains(v, OPENING_MARKER@),
        !contains(v, CLOSING_MARKER@),
{
    lemma_markers();
    if contains(v, OPENING_MARKER@) {
        let i = choose|i: int| occurs_at(v, OPENING_MARKER@, i);
        assert(v.subrange(i, i + OPENING_MARKER@.len())[0] == v[i]);
    }
    if contains(v, CLOSING_MARKER@) {
        let i = choose|i: int| occurs_at(v, CLOSING_MARKER@, i);
        assert(v.subrange(i, i + CLOSING_MARKER@.len())[0] == v[i]);
    }
}

proof fn lemma_spelling(v: Seq<char>)
    requires
        is_role(v) || is_result(v),
    ensures
        field_value(v),
{
    reveal_strlit("FINAL_REVIEWER");
    reveal_strlit("PRIMARY");
    reveal_strlit("VERIFIER");
    reveal_strlit("PASS");
    reveal_strlit("FAIL");
    reveal_strlit("COMPLETE");
    trimmed_is_fixed(v);
    lemma_no_angle(v);
}

proof fn lemma_line_contains(k: Seq<char>, v: Seq<char>, p: Seq<char>)
    requires
        is_field(k),
        !contains(v, p),
        p.len() > 0,
        p[0] == '<',
    ensures
        !contains(field_line(k, v), p),
{
    lemma_key(k);
    let l = field_line(k, v);
    if contains(l, p) {
        let i = choose|i: int| occurs_at(l, p, i);
        assert(l.subrange(i, i + p.len())[0] == l[i]);
        let at = k.len() + 2;
        assert(i >= at);
        assert(v.subrange(i - at, i - at + p.len()) =~= l.subrange(i, i + p.len()));
        assert(occurs_at(v, p, i - at));
    }
}

/// What the keys of a block have in common.
spec fn key_like(k: Seq<char>) -> bool {
    k.len() > 0 && forall|i: int|
        0 <= i < k.len() ==> k[i] != ':' && k[i] != '<' && k[i] != '\n' && !is_space(
            #[trigger] k[i],
        )
}

proof fn lemma_line_is_one(k: Seq<char>, v: Seq<char>)
    requires
        key_like(k),
        one_line(v),
        ": "@ == seq![':', ' '],
    ensures
        one_line(field_line(k, v)),
{
    let l = field_line(k, v);
    assert forall|i: int| 0 <= i < l.len() implies l[i] != '\n' by {
        if i < k.len() {
            assert(!is_space(k[i]));
        } else if i >= k.len() + 2 {
            assert(l[i] == v[i - k.len() - 2]);
        }
    }
}

proof fn lemma_line_is_trimmed(k: Seq<char>, v: Seq<char>)
    requires
        key_like(k),
        v.len() > 0,
        trim(v) == v,
    ensures
        trim(field_line(k, v)) == field_line(k, v),
        field_line(k, v).len() > 0,
{
    let l = field_line(k, v);
    assert(!is_space(v.last())) by {
        trimmed_is_part(v);
    }
    assert(l.last() == v.last());
    assert(!is_space(k[0]));
    assert(l[0] == k[0]);
    trimmed_is_fixed(l);
}

proof fn lemma_field_line_shape(k: Seq<char>, v: Seq<char>)
    requires
        is_field(k),
        field_value(v),
    ensures
        one_line(field_line(k, v)),
        trim(field_line(k, v)) == field_line(k, v),
        !contains(field_line(k, v), OPENING_MARKER@),
        !contains(field_line(k, v), CLOSING_MARKER@),
        field_line(k, v).len() > 0,
{
    lemma_key(k);
    lemma_markers();
    assert(key_like(k));
    lemma_line_is_one(k, v);
    lemma_line_is_trimmed(k, v);
    lemma_line_contains(k, v, OPENING_MARKER@);
    lemma_line_contains(k, v, CLOSING_MARKER@);
}

proof fn lemma_field_line(k: Seq<char>, v: Seq<char>, fields: Map<Seq<char>, Seq<char>>)
    requires
        is_field(k),
        field_value(v),
        !fields.contains_key(k),
    ensures
        with_line(fields, field_line(k, v)) == Ok::<Map<Seq<char>, Seq<char>>, Seq<char>>(
            fields.insert(k, v),
        ),
{
    let l = field_line(k, v);
    lemma_field_line_shape(k, v);
    lemma_key(k);
    assert(l[k.len() as int] == ':');
    assert forall|i: int| 0 <= i < k.len() implies l[i] != ':' by {
        assert(l[i] == k[i]);
        assert(!is_space(k[i]));
    }
    lemma_char_at_is(l, ':', k.len() as int);
    assert(l.take(k.len() as int) =~= k);
    let tail = l.skip(k.len() as int + 1);
    assert(tail[0] == ' ');
    assert(tail.skip(1) =~= v);
    assert(crate::text::trim_start(tail) == crate::text::trim_start(v));
    assert(trim(tail) == v);
}

proof fn lemma_fields_full(ls: Seq<Seq<char>>)
    requires
        fields_of(full_lines(ls)) is Ok,
    ensures
        fields_of(ls) == fields_of(full_lines(ls)),
    decreases ls.len(),
{
    if ls.len() > 0 {
        let f = full_lines(ls.drop_last());
        let t = trim(ls.last());
        trimmed_is_part(ls.last());
        trimmed_is_fixed(t);
        if t.len() > 0 {
            assert(f.push(t).drop_last() =~= f);
        }
        lemma_fields_full(ls.drop_last());
    }
}

proof fn lemma_closing_step(l: Seq<char>, t: Seq<char>, u: Seq<char>, p: Seq<char>)
    requires
        p.len() > 0,
        one_line(p),
        t == u + p,
        find(t, p) == Some(u.len() as int),
        !contains(l, p),
    ensures
        stacked(l, t) == stacked(l, u) + p,
        find(stacked(l, t), p) == Some(stacked(l, u).len() as int),
{
    assert(stacked(l, t) =~= stacked(l, u) + p);
    lemma_find(l, p);
    if find(l, p) is Some {
        assert(occurs_at(l, p, find(l, p)->0));
    }
    lemma_find_stacked(l, t, p);
}

proof fn lemma_counts_step(l: Seq<char>, t: Seq<char>, p: Seq<char>)
    requires
        p.len() > 0,
        one_line(p),
        !contains(l, p),
    ensures
        occurrences(stacked(l, t), p) == occurrences(t, p),
        marker_lines(lines(stacked(l, t)), p) == marker_lines(lines(t), p),
{
    occurrences_of_stacked(l, t, p);
    counted_iff_contained(l, p);
    marker_lines_are_markers(l, p);
    lemma_marker_lines_stacked(l, t, p);
}

proof fn lemma_marker_alone(p: Seq<char>)
    requires
        p == OPENING_MARKER@ || p == CLOSING_MARKER@,
    ensures
        occurrences(p, p) == 1,
        marker_lines(lines(p), p) == 1,
        find(p, p) == Some(0int),
{
    lemma_markers();
    assert(p.subrange(0, p.len() as int) =~= p);
    assert(occurs_at(p, p, 0));
    reveal_with_fuel(occurrences, 2);
    reveal_with_fuel(times, 2);
    assert(p.skip(p.len() as int) =~= Seq::empty());
    trimmed_is_fixed(p);
    full_lines_of_one(p);
    lemma_marker_lines(lines(p), p);
    assert(seq![p].drop_last() =~= Seq::<Seq<char>>::empty());
}

proof fn lemma_markers_apart()
    ensures
        !contains(OPENING_MARKER@, CLOSING_MARKER@),
        !contains(CLOSING_MARKER@, OPENING_MARKER@),
{
    let o = OPENING_MARKER@;
    let c = CLOSING_MARKER@;
    lemma_markers();
    if contains(o, c) {
        let i = choose|i: int| occurs_at(o, c, i);
        assert(occurs_at(o, c, i));
    }
    if contains(c, o) {
        let i = choose|i: int| occurs_at(c, o, i);
        assert(c.subrange(i, i + o.len())[0] == c[i]);
        assert(c.subrange(i, i + o.len())[1] == c[i + 1]);
        reveal_strlit("</role_completion>");
        assert(i == 0 || i == 1);
    }
}

proof fn lemma_five_fields(c: ClaimText)
    requires
        field_value(c.role),
        field_value(c.result),
        field_value(c.workflow_id),
        field_value(c.project_id),
        field_value(c.project_root),
        is_role(c.role),
        is_result(c.result),
    ensures
        ({
            let ls = seq![
                field_line("role"@, c.role),
                field_line("result"@, c.result),
                field_line("workflow_id"@, c.workflow_id),
                field_line("project_id"@, c.project_id),
                field_line("project_root"@, c.project_root),
            ];
            &&& fields_of(ls) is Ok
            &&& claimed(fields_of(ls)->Ok_0) == ParseText::Claim(c)
        }),
{
    reveal_strlit("role");
    reveal_strlit("result");
    reveal_strlit("workflow_id");
    reveal_strlit("project_id");
    reveal_strlit("project_root");
    let m0 = Map::<Seq<char>, Seq<char>>::empty();
    let m1 = m0.insert("role"@, c.role);
    let m2 = m1.insert("result"@, c.result);
    let m3 = m2.insert("workflow_id"@, c.workflow_id);
    let m4 = m3.insert("project_id"@, c.project_id);
    let m5 = m4.insert("project_root"@, c.project_root);
    let l1 = field_line("role"@, c.role);
    let l2 = field_line("result"@, c.result);
    let l3 = field_line("workflow_id"@, c.workflow_id);
    let l4 = field_line("project_id"@, c.project_id);
    let l5 = field_line("project_root"@, c.project_root);
    lemma_field_line("role"@, c.role, m0);
    lemma_field_line("result"@, c.result, m1);
    lemma_field_line("workflow_id"@, c.workflow_id, m2);
    lemma_field_line("project_id"@, c.project_id, m3);
    lemma_field_line("project_root"@, c.project_root, m4);
    assert(fields_of(Seq::<Seq<char>>::empty()) == Ok::<Map<Seq<char>, Seq<char>>, Seq<char>>(m0));
    assert(seq![l1].drop_last() =~= Seq::<Seq<char>>::empty());
    assert(fields_of(seq![l1]) == Ok::<Map<Seq<char>, Seq<char>>, Seq<char>>(m1));
    assert(seq![l1, l2].drop_last() =~= seq![l1]);
    assert(fields_of(seq![l1, l2]) == Ok::<Map<Seq<char>, Seq<char>>, Seq<char>>(m2));
    assert(seq![l1, l2, l3].drop_last() =~= seq![l1, l2]);
    assert(fields_of(seq![l1, l2, l3]) == Ok::<Map<Seq<char>, Seq<char>>, Seq<char>>(m3));
    assert(seq![l1, l2, l3, l4].drop_last() =~= seq![l1, l2, l3]);
    assert(fields_of(seq![l1, l2, l3, l4]) == Ok::<Map<Seq<char>, Seq<char>>, Seq<char>>(m4));
    assert(seq![l1, l2, l3, l4, l5].drop_last() =~= seq![l1, l2, l3, l4]);
    assert(fields_of(seq![l1, l2, l3, l4, l5]) == Ok::<Map<Seq<char>, Seq<char>>, Seq<char>>(m5));
    assert(field_fault(m5, "role"@) is None);
    assert(field_fault(m5, "result"@) is None);
    assert(field_fault(m5, "workflow_id"@) is None);
    assert(field_fault(m5, "project_id"@) is None);
    assert(first_fault(m5) is None);
}

proof fn lemma_body_lines(c: ClaimText)
    requires
        field_value(c.role),
        field_value(c.result),
        field_value(c.workflow_id),
        field_value(c.project_id),
        field_value(c.project_root),
    ensures
        ({
            let l1 = field_line("role"@, c.role);
            let l2 = field_line("result"@, c.result);
            let l3 = field_line("workflow_id"@, c.workflow_id);
            let l4 = field_line("project_id"@, c.project_id);
            let l5 = field_line("project_root"@, c.project_root);
            let none = Seq::<char>::empty();
            full_lines(
                lines(
                    stacked(
                        none,
                        stacked(l1, stacked(l2, stacked(l3, stacked(l4, stacked(l5, none))))),
                    ),
                ),
            ) == seq![l1, l2, l3, l4, l5]
        }),
{
    let none = Seq::<char>::empty();
    let l1 = field_line("role"@, c.role);
    let l2 = field_line("result"@, c.result);
    let l3 = field_line("workflow_id"@, c.workflow_id);
    let l4 = field_line("project_id"@, c.project_id);
    let l5 = field_line("project_root"@, c.project_root);
    lemma_field_line_shape("role"@, c.role);
    lemma_field_line_shape("result"@, c.result);
    lemma_field_line_shape("workflow_id"@, c.workflow_id);
    lemma_field_line_shape("project_id"@, c.project_id);
    lemma_field_line_shape("project_root"@, c.project_root);
    full_lines_of_one(none);
    full_lines_of_one(l1);
    full_lines_of_one(l2);
    full_lines_of_one(l3);
    full_lines_of_one(l4);
    full_lines_of_one(l5);
    trimmed_is_fixed(none);
    let u5 = stacked(l5, none);
    let u4 = stacked(l4, u5);
    let u3 = stacked(l3, u4);
    let u2 = stacked(l2, u3);
    let u1 = stacked(l1, u2);
    full_lines_of_stacked(l5, none);
    full_lines_of_stacked(l4, u5);
    full_lines_of_stacked(l3, u4);
    full_lines_of_stacked(l2, u3);
    full_lines_of_stacked(l1, u2);
    full_lines_of_stacked(none, u1);
    assert(full_lines(lines(u5)) =~= seq![l5]);
    assert(full_lines(lines(u4)) =~= seq![l4, l5]);
    assert(full_lines(lines(u3)) =~= seq![l3, l4, l5]);
    assert(full_lines(lines(u2)) =~= seq![l2, l3, l4, l5]);
    assert(full_lines(lines(u1)) =~= seq![l1, l2, l3, l4, l5]);
    assert(full_lines(lines(stacked(none, u1))) =~= seq![l1, l2, l3, l4, l5]);
}

/// A block that states a canonical claim is parsed as that claim.
pub proof fn stated_claim_is_parsed(c: ClaimText)
    requires
        c.role == "PRIMARY"@ || c.role == "VERIFIER"@ || c.role == "FINAL_REVIEWER"@,
        c.result == "COMPLETE"@ || c.result == "PASS"@ || c.result == "FAIL"@,
        field_value(c.workflow_id),
        field_value(c.project_id),
        field_value(c.project_root),
    ensures
        parse_outcome(block_text(c)) == ParseText::Claim(c),
{
    let o = OPENING_MARKER@;
    let p = CLOSING_MARKER@;
    let none = Seq::<char>::empty();
    lemma_markers();
    lemma_markers_apart();
    lemma_spelling(c.role);
    lemma_spelling(c.result);
    let l1 = field_line("role"@, c.role);
    let l2 = field_line("result"@, c.result);
    let l3 = field_line("workflow_id"@, c.workflow_id);
    let l4 = field_line("project_id"@, c.project_id);
    let l5 = field_line("project_root"@, c.project_root);
    lemma_field_line_shape("role"@, c.role);
    lemma_field_line_shape("result"@, c.result);
    lemma_field_line_shape("workflow_id"@, c.workflow_id);
    lemma_field_line_shape("project_id"@, c.project_id);
    lemma_field_line_shape("project_root"@, c.project_root);
    let u5 = stacked(l5, none);
    let u4 = stacked(l4, u5);
    let u3 = stacked(l3, u4);
    let u2 = stacked(l2, u3);
    let u1 = stacked(l1, u2);
    let t5 = stacked(l5, p);
    let t4 = stacked(l4, t5);
    let t3 = stacked(l3, t4);
    let t2 = stacked(l2, t3);
    let t1 = stacked(l1, t2);
    let body = stacked(none, u1);
    let text = block_text(c);
    assert(text == stacked(o, t1));
    lemma_no_angle(none);
    lemma_marker_alone(o);
    lemma_marker_alone(p);
    assert(p =~= none + p);
    lemma_closing_step(l5, p, none, p);
    lemma_closing_step(l4, t5, u5, p);
    lemma_closing_step(l3, t4, u4, p);
    lemma_closing_step(l2, t3, u3, p);
    lemma_closing_step(l1, t2, u2, p);
    lemma_closing_step(none, t1, u1, p);
    assert(occurrences(p, o) == 0 && marker_lines(lines(p), o) == 0) by {
        counted_iff_contained(p, o);
        marker_lines_are_markers(p, o);
    }
    lemma_counts_step(l5, p, o);
    lemma_counts_step(l4, t5, o);
    lemma_counts_step(l3, t4, o);
    lemma_counts_step(l2, t3, o);
    lemma_counts_step(l1, t2, o);
    lemma_counts_step(l5, p, p);
    lemma_counts_step(l4, t5, p);
    lemma_counts_step(l3, t4, p);
    lemma_counts_step(l2, t3, p);
    lemma_counts_step(l1, t2, p);
    lemma_counts_step(o, t1, p);
    occurrences_of_stacked(o, t1, o);
    lemma_marker_lines_stacked(o, t1, o);
    lemma_find_stacked(o, t1, o);
    let rest = text.skip(o.len() as int);
    assert(rest =~= stacked(none, t1));
    assert(rest =~= body + p);
    assert(rest.take(body.len() as int) =~= body);
    let behind = rest.skip((body.len() + p.len()) as int);
    assert(behind =~= none);
    assert(find(none, o) is None);
    assert(closed_blocks(none, o, p) =~= Seq::empty());
    assert(closed_blocks(text, o, p) =~= seq![body]);
    lemma_body_lines(c);
    lemma_five_fields(c);
    lemma_fields_full(lines(body));
    assert(block_outcome(body) == ParseText::Claim(c));
}

} // verus!
