//! What the parser and the check answer, in terms of what they are given.

use vstd::prelude::*;

use crate::admission::NativeWorkflowMetadata;
use crate::decimal::decimal;
use crate::role_completion_block::{
    block_outcome, check_aap_native_claim_against_metadata, claimed, closed_blocks, fields_of,
    is_canonical_result, is_canonical_role, marker_lines, parse_outcome, parse_role_completion_block,
    parse_single_block, with_line, ClaimText, ParseText, RoleCompletionClaim, RoleCompletionParse,
};
use crate::role_completion_laws::{
    block_text, field_value, stated_claim_is_parsed, text_above_is_ignored, text_below_is_ignored,
};
use crate::text::{
    contains, debug_quoted, is_space, lemma_char_at_is, lines, occurrences, trim,
};
use crate::text_laws::{blank_is_all_space, stacked};

verus! {

/// One of the spellings of a role.
pub open spec fn spelled_role(s: Seq<char>) -> bool {
    s == "PRIMARY"@ || s == "VERIFIER"@ || s == "FINAL_REVIEWER"@
}

/// One of the spellings of a result.
pub open spec fn spelled_result(s: Seq<char>) -> bool {
    s == "COMPLETE"@ || s == "PASS"@ || s == "FAIL"@
}

/// The pairs of a role and a result that an agent may report.
pub open spec fn reportable(role: Seq<char>, result: Seq<char>) -> bool {
    ||| (role, result) == ("PRIMARY"@, "COMPLETE"@)
    ||| (role, result) == ("VERIFIER"@, "PASS"@)
    ||| (role, result) == ("VERIFIER"@, "FAIL"@)
    ||| (role, result) == ("FINAL_REVIEWER"@, "PASS"@)
}

/// The claim holds these texts.
pub open spec fn holds(claim: RoleCompletionClaim, c: ClaimText) -> bool {
    &&& claim.role@ == c.role
    &&& claim.result@ == c.result
    &&& claim.workflow_id@ == c.workflow_id
    &&& claim.project_id@ == c.project_id
    &&& claim.project_root@ == c.project_root
}

/// A reply that states a claim in a block, with whatever text above and below that
/// holds no marker, is parsed as that claim: for each of the three roles and each of
/// the three results, and any filled identifiers.
pub proof fn a_spelled_claim_is_parsed(
    above: Seq<char>,
    c: ClaimText,
    below: Seq<char>,
    reply: &str,
    alone: &str,
    r: RoleCompletionParse,
    s: RoleCompletionParse,
)
    requires
        spelled_role(c.role),
        spelled_result(c.result),
        field_value(c.workflow_id),
        field_value(c.project_id),
        field_value(c.project_root),
        !contains(above, "<role_completion>"@),
        !contains(above, "</role_completion>"@),
        !contains(below, "<role_completion>"@),
        !contains(below, "</role_completion>"@),
        reply@ == stacked(stacked(above, block_text(c)), below),
        alone@ == block_text(c),
        call_ensures(parse_role_completion_block, (reply,), r),
        call_ensures(parse_role_completion_block, (alone,), s),
    ensures
        r is Claim,
        holds(r->Claim_0, c),
        s is Claim,
        holds(s->Claim_0, c),
{
    stated_claim_is_parsed(c);
    text_above_is_ignored(above, block_text(c));
    text_below_is_ignored(stacked(above, block_text(c)), below);
}

/// Only the spellings of roles and results are canonical.
pub proof fn canonical_is_spelled(s: &str, role: bool, result: bool)
    requires
        call_ensures(is_canonical_role, (s,), role),
        call_ensures(is_canonical_result, (s,), result),
    ensures
        role <==> spelled_role(s@),
        result <==> spelled_result(s@),
{
}

/// A claim is accepted exactly where its role is the dispatched one, the pair of
/// role and result is one that may be reported, its workflow is the dispatched one,
/// and the dispatch holds a project and a root that are not blank and are those of
/// the claim.
pub proof fn accepted_exactly_where_reportable_and_agreed(
    claim: RoleCompletionClaim,
    metadata: NativeWorkflowMetadata,
    r: Result<(), String>,
)
    requires
        call_ensures(check_aap_native_claim_against_metadata, (&claim, &metadata), r),
    ensures
        r is Ok <==> {
            &&& claim.role@ == metadata.role@
            &&& reportable(claim.role@, claim.result@)
            &&& claim.workflow_id@ == metadata.workflow_run_id@
            &&& metadata.project_id is Some && claim.project_id@ == metadata.project_id->0@
            &&& exists|i: int|
                0 <= i < claim.project_id@.len() && !is_space(#[trigger] claim.project_id@[i])
            &&& metadata.project_root is Some && claim.project_root@ == metadata.project_root->0@
            &&& exists|i: int|
                0 <= i < claim.project_root@.len() && !is_space(#[trigger] claim.project_root@[i])
        },
{
    blank_is_all_space(claim.project_id@);
    blank_is_all_space(claim.project_root@);
}

/// What a disagreement is reported as.
pub open spec fn disagrees(name: Seq<char>, claimed: Seq<char>, dispatched: Seq<char>) -> Seq<char> {
    name + " mismatch: block claims "@ + debug_quoted(claimed) + " but dispatch is "@
        + debug_quoted(dispatched)
}

/// A refused claim is told the first point on which it fails, in this order: the
/// role, the pair of role and result, the workflow, the project and the root.
pub proof fn refused_claims_are_told_why(
    claim: RoleCompletionClaim,
    metadata: NativeWorkflowMetadata,
    r: Result<(), String>,
)
    requires
        call_ensures(check_aap_native_claim_against_metadata, (&claim, &metadata), r),
    ensures
        claim.role@ != metadata.role@ ==> r is Err && r->Err_0@ == disagrees(
            "role"@,
            claim.role@,
            metadata.role@,
        ),
        claim.role@ == metadata.role@ && !reportable(claim.role@, claim.result@) ==> r is Err
            && r->Err_0@ == "role-result combination not allowed for AAP-native completion: "@
            + claim.role@ + "+"@ + claim.result@,
        claim.role@ == metadata.role@ && reportable(claim.role@, claim.result@) ==> {
            &&& claim.workflow_id@ != metadata.workflow_run_id@ ==> r is Err && r->Err_0@
                == disagrees("workflow_id"@, claim.workflow_id@, metadata.workflow_run_id@)
            &&& claim.workflow_id@ == metadata.workflow_run_id@ ==> {
                &&& metadata.project_id is None || trim(metadata.project_id->0@).len() == 0 ==> r is Err && r->Err_0@
                    == "trusted "@ + "project_id"@ + " missing or blank"@
                &&& metadata.project_id is Some && claim.project_id@ != metadata.project_id->0@
                    && trim(metadata.project_id->0@).len() > 0 ==> r is Err && r->Err_0@
                    == disagrees("project_id"@, claim.project_id@, metadata.project_id->0@)
                &&& metadata.project_id is Some && claim.project_id@ == metadata.project_id->0@
                    && trim(claim.project_id@).len() > 0 ==> {
                    &&& metadata.project_root is None || trim(metadata.project_root->0@).len() == 0 ==> r is Err && r->Err_0@
                        == "trusted "@ + "project_root"@ + " missing or blank"@
                    &&& metadata.project_root is Some && claim.project_root@
                        != metadata.project_root->0@ && trim(metadata.project_root->0@).len() > 0
                        ==> r is Err && r->Err_0@ == disagrees(
                        "project_root"@,
                        claim.project_root@,
                        metadata.project_root->0@,
                    )
                }
            }
        },
{
}

/// The names of the fields, in the order in which they are asked for.
pub open spec fn names() -> Seq<Seq<char>> {
    seq!["role"@, "result"@, "workflow_id"@, "project_id"@, "project_root"@]
}

/// A field is there and filled.
pub open spec fn filled(fields: Map<Seq<char>, Seq<char>>, i: int) -> bool {
    fields.contains_key(names()[i]) && fields[names()[i]].len() > 0
}

/// Five filled fields with spelled role and result make the claim that they state.
pub proof fn five_fields_make_a_claim(fields: Map<Seq<char>, Seq<char>>)
    requires
        forall|i: int| 0 <= i < 5 ==> #[trigger] filled(fields, i),
        spelled_role(fields["role"@]),
        spelled_result(fields["result"@]),
    ensures
        claimed(fields) is Claim,
        claimed(fields)->Claim_0.role == fields["role"@],
        claimed(fields)->Claim_0.result == fields["result"@],
        claimed(fields)->Claim_0.workflow_id == fields["workflow_id"@],
        claimed(fields)->Claim_0.project_id == fields["project_id"@],
        claimed(fields)->Claim_0.project_root == fields["project_root"@],
{
    assert(filled(fields, 0) && filled(fields, 1) && filled(fields, 2) && filled(fields, 3)
        && filled(fields, 4));
}

/// Whatever is missing first, in the order of the names, is what a malformed block
/// is told; then an unknown role; then an unknown result.
pub proof fn incomplete_blocks_are_told_why(fields: Map<Seq<char>, Seq<char>>, i: int)
    requires
        0 <= i < 5,
        forall|j: int| 0 <= j < i ==> #[trigger] filled(fields, j),
    ensures
        !fields.contains_key(names()[i]) ==> claimed(fields) == ParseText::Malformed(
            "missing required field "@ + debug_quoted(names()[i]),
        ),
        fields.contains_key(names()[i]) && fields[names()[i]].len() == 0 ==> claimed(fields)
            == ParseText::Malformed(
            "required field "@ + debug_quoted(names()[i]) + " is empty"@,
        ),
        (forall|j: int| 0 <= j < 5 ==> #[trigger] filled(fields, j)) ==> {
            &&& !spelled_role(fields["role"@]) ==> claimed(fields) == ParseText::Malformed(
                "invalid role "@ + debug_quoted(fields["role"@]),
            )
            &&& spelled_role(fields["role"@]) && !spelled_result(fields["result"@]) ==> claimed(
                fields,
            ) == ParseText::Malformed("invalid result "@ + debug_quoted(fields["result"@]))
        },
{
    let f = fields;
    assert(i > 0 ==> filled(f, 0));
    assert(i > 1 ==> filled(f, 1));
    assert(i > 2 ==> filled(f, 2));
    assert(i > 3 ==> filled(f, 3));
    if forall|j: int| 0 <= j < 5 ==> #[trigger] filled(fields, j) {
        assert(filled(f, 0) && filled(f, 1) && filled(f, 2) && filled(f, 3) && filled(f, 4));
    }
}

proof fn lemma_names_have_no_colon(k: Seq<char>)
    requires
        names().contains(k),
    ensures
        k.len() > 0,
        forall|i: int| 0 <= i < k.len() ==> #[trigger] k[i] != ':' && !is_space(k[i]),
{
    reveal_strlit("role");
    reveal_strlit("result");
    reveal_strlit("workflow_id");
    reveal_strlit("project_id");
    reveal_strlit("project_root");
}

/// A line whose trimmed text is one of the five names, a colon and a value adds that
/// value, trimmed, to the fields before it, whatever their order; a blank line adds
/// nothing; and a name that is there already is a fault.
pub proof fn lines_add_fields(
    fields: Map<Seq<char>, Seq<char>>,
    raw: Seq<char>,
    k: Seq<char>,
    v: Seq<char>,
)
    requires
        names().contains(k),
    ensures
        trim(raw) == k + seq![':'] + v && !fields.contains_key(k) ==> with_line(fields, raw)
            == Ok::<Map<Seq<char>, Seq<char>>, Seq<char>>(fields.insert(k, trim(v))),
        trim(raw) == k + seq![':'] + v && fields.contains_key(k) ==> with_line(fields, raw)
            == Err::<Map<Seq<char>, Seq<char>>, Seq<char>>("duplicate key "@ + debug_quoted(k)),
        trim(raw).len() == 0 ==> with_line(fields, raw) == Ok::<
            Map<Seq<char>, Seq<char>>,
            Seq<char>,
        >(fields),
{
    if trim(raw) == k + seq![':'] + v {
        lemma_names_have_no_colon(k);
        let line = k + seq![':'] + v;
        assert(line[k.len() as int] == ':');
        assert forall|i: int| 0 <= i < k.len() implies line[i] != ':' by {
            assert(line[i] == k[i]);
        }
        lemma_char_at_is(line, ':', k.len() as int);
        assert(line.take(k.len() as int) =~= k);
        assert(line.skip(k.len() as int + 1) =~= v);
    }
}

/// A line that is not blank and declares none of the five names is a fault: one
/// without a colon, one with white space before the colon, one with nothing before
/// it, and one with another name.
pub proof fn other_lines_are_faults(
    fields: Map<Seq<char>, Seq<char>>,
    raw: Seq<char>,
    k: Seq<char>,
    v: Seq<char>,
)
    requires
        forall|i: int| 0 <= i < k.len() ==> k[i] != ':',
        trim(raw) == k + seq![':'] + v || trim(raw) == k,
        trim(raw).len() > 0,
        !names().contains(k) || trim(raw) == k,
    ensures
        with_line(fields, raw) is Err,
        trim(raw) == k ==> with_line(fields, raw)->Err_0 == "invalid line "@ + debug_quoted(k),
        trim(raw) == k + seq![':'] + v ==> {
            let spaced = exists|i: int| 0 <= i < k.len() && is_space(#[trigger] k[i]);
            &&& spaced ==> with_line(fields, raw)->Err_0 == "whitespace in key "@ + debug_quoted(k)
            &&& k.len() == 0 ==> with_line(fields, raw)->Err_0 == "empty key in line "@
                + debug_quoted(raw)
            &&& !spaced && k.len() > 0 ==> with_line(fields, raw)->Err_0 == "unknown field "@
                + debug_quoted(k)
        },
{
    let line = trim(raw);
    if line == k {
        lemma_char_at_is(line, ':', k.len() as int);
        assert(k.len() != (k + seq![':'] + v).len());
    } else {
        assert(line[k.len() as int] == ':');
        assert forall|i: int| 0 <= i < k.len() implies line[i] != ':' by {
            assert(line[i] == k[i]);
        }
        lemma_char_at_is(line, ':', k.len() as int);
        assert(line.take(k.len() as int) =~= k);
        assert(names()[0] == "role"@ && names()[1] == "result"@ && names()[2] == "workflow_id"@
            && names()[3] == "project_id"@ && names()[4] == "project_root"@);
    }
}

/// The fields of some lines are those of all but the last, with what the last adds;
/// the first fault is the fault of all.
pub proof fn fields_are_gathered_line_by_line(ls: Seq<Seq<char>>, l: Seq<char>, body: &str)
    ensures
        fields_of(Seq::<Seq<char>>::empty()) == Ok::<Map<Seq<char>, Seq<char>>, Seq<char>>(
            Map::empty(),
        ),
        fields_of(ls) is Err ==> fields_of(ls.push(l)) == fields_of(ls),
        fields_of(ls) is Ok ==> fields_of(ls.push(l)) == with_line(fields_of(ls)->Ok_0, l),
        forall|r: RoleCompletionParse| #[trigger]
            call_ensures(parse_single_block, (body,), r) ==> match fields_of(lines(body@)) {
                Ok(m) => r@ == claimed(m),
                Err(e) => r is Malformed && r->reason@ == e,
            },
{
    assert(ls.push(l).drop_last() =~= ls);
}

/// Each marker stands once, and alone on its line.
pub open spec fn well_marked(text: Seq<char>) -> bool {
    &&& occurrences(text, "<role_completion>"@) == 1
    &&& occurrences(text, "</role_completion>"@) == 1
    &&& marker_lines(lines(text), "<role_completion>"@) == 1
    &&& marker_lines(lines(text), "</role_completion>"@) == 1
}

/// A reply with one block is parsed as what stands between its markers, where each
/// marker stands once and alone on its line. A reply that holds a marker but is not
/// so, and holds no second block, is malformed, and told how often each marker
/// stands and on how many lines alone; unless both stand several times, as often as
/// each other and always alone, which is ambiguous.
pub proof fn markers_decide(text: Seq<char>)
    ensures
        ({
            let opened = occurrences(text, "<role_completion>"@);
            let closed = occurrences(text, "</role_completion>"@);
            let opened_alone = marker_lines(lines(text), "<role_completion>"@);
            let closed_alone = marker_lines(lines(text), "</role_completion>"@);
            let blocks = closed_blocks(text, "<role_completion>"@, "</role_completion>"@);
            &&& well_marked(text) && blocks.len() == 1 ==> parse_outcome(text) == block_outcome(
                blocks[0],
            )
            &&& well_marked(text) && blocks.len() == 0 ==> parse_outcome(text)
                == ParseText::Malformed(
                "role_completion markers could not form one closed block"@,
            )
            &&& opened + closed > 0 && blocks.len() <= 1 && !well_marked(text) ==> {
                if opened > 1 && opened == closed && opened_alone == opened && closed_alone
                    == closed {
                    parse_outcome(text) is Ambiguous
                } else {
                    parse_outcome(text) == ParseText::Malformed(
                        "invalid role_completion marker structure: opening="@ + decimal(opened)
                            + " closing="@ + decimal(closed) + " opening_lines="@ + decimal(
                            opened_alone,
                        ) + " closing_lines="@ + decimal(closed_alone),
                    )
                }
            }
            &&& parse_outcome(text) is Claim ==> well_marked(text) && blocks.len() == 1
        }),
{
}

/// A line counts for a marker exactly where it is that marker with nothing but
/// white space around it.
pub proof fn marker_lines_are_counted(ls: Seq<Seq<char>>, l: Seq<char>, marker: Seq<char>)
    ensures
        marker_lines(Seq::<Seq<char>>::empty(), marker) == 0,
        trim(l) == marker ==> marker_lines(ls.push(l), marker) == marker_lines(ls, marker) + 1,
        trim(l) != marker ==> marker_lines(ls.push(l), marker) == marker_lines(ls, marker),
{
    assert(ls.push(l).drop_last() =~= ls);
}

} // verus!
