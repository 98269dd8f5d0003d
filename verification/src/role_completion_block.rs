//! The `<role_completion>` block with which an agent claims that its part of a
//! workflow is done.
//!
//! Agent text is untrusted. Only one block, with each marker on a line of its
//! own and exactly the five canonical fields inside, is a claim; narrative text
//! such as `VERIFIER_PASS` or `HANDOFF` is none. A claim acquires authority only
//! where it agrees with the metadata of the dispatch that it answers.

use vstd::prelude::*;
use vstd::string::*;

use crate::admission::NativeWorkflowMetadata;
use crate::decimal::{decimal, decimal_text};
use crate::role_completion_laws::several_blocks_are_ambiguous;
use crate::text::{
    char_at, chars_of, count_text, debug_quoted, debug_text, find_char, is_space, is_whitespace, joined,
    lines, lines_of, occurrences, occurs_at, opt_view, same_text, trim, trim_text, views,
};
use crate::text_map::TextMap;

verus! {

pub const OPENING_MARKER: &'static str = "<role_completion>";

pub const CLOSING_MARKER: &'static str = "</role_completion>";

/// One well-formed completion claim.
#[derive(Debug, Clone, PartialEq, Eq)]
pub struct RoleCompletionClaim {
    pub role: String,
    pub result: String,
    pub workflow_id: String,
    pub project_id: String,
    pub project_root: String,
}

/// What a reply holds by way of completion claims.
#[derive(Debug, Clone, PartialEq, Eq)]
pub enum RoleCompletionParse {
    /// No marker anywhere.
    NoClaim,
    /// Exactly one well-formed block.
    Claim(RoleCompletionClaim),
    /// More than one block, well-formed or not.
    Ambiguous,
    /// Markers that form no single well-formed block, with the first fault found.
    Malformed { reason: String },
}

/// The texts of a claim.
pub struct ClaimText {
    pub role: Seq<char>,
    pub result: Seq<char>,
    pub workflow_id: Seq<char>,
    pub project_id: Seq<char>,
    pub project_root: Seq<char>,
}

/// The outcome of a parse, over texts.
pub enum ParseText {
    NoClaim,
    Claim(ClaimText),
    Ambiguous,
    Malformed(Seq<char>),
}

impl View for RoleCompletionClaim {
    type V = ClaimText;

    open spec fn view(&self) -> ClaimText {
        ClaimText {
            role: self.role@,
            result: self.result@,
            workflow_id: self.workflow_id@,
            project_id: self.project_id@,
            project_root: self.project_root@,
        }
    }
}

impl View for RoleCompletionParse {
    type V = ParseText;

    open spec fn view(&self) -> ParseText {
        match self {
            RoleCompletionParse::NoClaim => ParseText::NoClaim,
            RoleCompletionParse::Claim(c) => ParseText::Claim(c@),
            RoleCompletionParse::Ambiguous => ParseText::Ambiguous,
            RoleCompletionParse::Malformed { reason } => ParseText::Malformed(reason@),
        }
    }
}

pub open spec fn is_field(k: Seq<char>) -> bool {
    k == "role"@ || k == "result"@ || k == "workflow_id"@ || k == "project_id"@ || k
        == "project_root"@
}

pub open spec fn is_role(s: Seq<char>) -> bool {
    s == "PRIMARY"@ || s == "VERIFIER"@ || s == "FINAL_REVIEWER"@
}

pub open spec fn is_result(s: Seq<char>) -> bool {
    s == "COMPLETE"@ || s == "PASS"@ || s == "FAIL"@
}

/// The field that a line adds to those before it, or why it adds none. A blank
/// line adds nothing.
pub open spec fn with_line(
    fields: Map<Seq<char>, Seq<char>>,
    raw: Seq<char>,
) -> Result<Map<Seq<char>, Seq<char>>, Seq<char>> {
    let line = trim(raw);
    let colon = char_at(line, ':') as int;
    let key = line.take(colon);
    if line.len() == 0 {
        Ok(fields)
    } else if colon >= line.len() {
        Err("invalid line "@ + debug_quoted(line))
    } else if exists|i: int| 0 <= i < key.len() && is_space(#[trigger] key[i]) {
        Err("whitespace in key "@ + debug_quoted(key))
    } else if key.len() == 0 {
        Err("empty key in line "@ + debug_quoted(raw))
    } else if !is_field(key) {
        Err("unknown field "@ + debug_quoted(key))
    } else if fields.contains_key(key) {
        Err("duplicate key "@ + debug_quoted(key))
    } else {
        Ok(fields.insert(key, trim(line.skip(colon + 1))))
    }
}

/// The fields of a block's lines, or the first fault among them.
pub open spec fn fields_of(ls: Seq<Seq<char>>) -> Result<Map<Seq<char>, Seq<char>>, Seq<char>>
    decreases ls.len(),
{
    if ls.len() == 0 {
        Ok(Map::empty())
    } else {
        match fields_of(ls.drop_last()) {
            Err(e) => Err(e),
            Ok(fields) => with_line(fields, ls.last()),
        }
    }
}

/// What is wrong with one required field.
pub open spec fn field_fault(fields: Map<Seq<char>, Seq<char>>, name: Seq<char>) -> Option<
    Seq<char>,
> {
    if !fields.contains_key(name) {
        Some("missing required field "@ + debug_quoted(name))
    } else if fields[name].len() == 0 {
        Some("required field "@ + debug_quoted(name) + " is empty"@)
    } else {
        None
    }
}

/// The first fault among the required fields, in their canonical order.
pub open spec fn first_fault(fields: Map<Seq<char>, Seq<char>>) -> Option<Seq<char>> {
    if field_fault(fields, "role"@) is Some {
        field_fault(fields, "role"@)
    } else if field_fault(fields, "result"@) is Some {
        field_fault(fields, "result"@)
    } else if field_fault(fields, "workflow_id"@) is Some {
        field_fault(fields, "workflow_id"@)
    } else if field_fault(fields, "project_id"@) is Some {
        field_fault(fields, "project_id"@)
    } else {
        field_fault(fields, "project_root"@)
    }
}

/// What the fields of a block claim.
pub open spec fn claimed(fields: Map<Seq<char>, Seq<char>>) -> ParseText {
    if first_fault(fields) is Some {
        ParseText::Malformed(first_fault(fields)->0)
    } else if !is_role(fields["role"@]) {
        ParseText::Malformed("invalid role "@ + debug_quoted(fields["role"@]))
    } else if !is_result(fields["result"@]) {
        ParseText::Malformed("invalid result "@ + debug_quoted(fields["result"@]))
    } else {
        ParseText::Claim(
            ClaimText {
                role: fields["role"@],
                result: fields["result"@],
                workflow_id: fields["workflow_id"@],
                project_id: fields["project_id"@],
                project_root: fields["project_root"@],
            },
        )
    }
}

/// What the text between the markers claims.
pub open spec fn block_outcome(body: Seq<char>) -> ParseText {
    match fields_of(lines(body)) {
        Err(reason) => ParseText::Malformed(reason),
        Ok(fields) => claimed(fields),
    }
}

/// How many of the lines hold the marker and nothing else but white space.
pub open spec fn marker_lines(ls: Seq<Seq<char>>, marker: Seq<char>) -> nat
    decreases ls.len(),
{
    if ls.len() == 0 {
        0
    } else {
        marker_lines(ls.drop_last(), marker) + if trim(ls.last()) == marker {
            1nat
        } else {
            0nat
        }
    }
}

/// Where `p` first stands in `s`.
pub open spec fn find(s: Seq<char>, p: Seq<char>) -> Option<int>
    decreases s.len(),
{
    if s.len() < p.len() {
        None
    } else if occurs_at(s, p, 0) {
        Some(0)
    } else if s.len() == 0 {
        None
    } else {
        match find(s.skip(1), p) {
            Some(i) => Some(i + 1),
            None => None,
        }
    }
}

/// What stands between each opening marker and the first closing marker behind
/// it, from the left, each search starting behind the block before.
pub open spec fn closed_blocks(s: Seq<char>, opening: Seq<char>, closing: Seq<char>) -> Seq<
    Seq<char>,
>
    decreases s.len(),
{
    match find(s, opening) {
        None => Seq::empty(),
        Some(i) => {
            let rest = s.skip(i + opening.len());
            match find(rest, closing) {
                None => Seq::empty(),
                Some(j) => {
                    let behind = rest.skip(j + closing.len());
                    if behind.len() < s.len() {
                        seq![rest.take(j)] + closed_blocks(behind, opening, closing)
                    } else {
                        Seq::empty()
                    }
                },
            }
        },
    }
}

/// What a reply claims.
pub open spec fn parse_outcome(text: Seq<char>) -> ParseText {
    let openings = occurrences(text, OPENING_MARKER@);
    let closings = occurrences(text, CLOSING_MARKER@);
    let opening_lines = marker_lines(lines(text), OPENING_MARKER@);
    let closing_lines = marker_lines(lines(text), CLOSING_MARKER@);
    let blocks = closed_blocks(text, OPENING_MARKER@, CLOSING_MARKER@);
    if openings == 0 && closings == 0 {
        ParseText::NoClaim
    } else if blocks.len() > 1 {
        ParseText::Ambiguous
    } else if openings == 1 && closings == 1 && opening_lines == 1 && closing_lines == 1 {
        if blocks.len() == 1 {
            block_outcome(blocks[0])
        } else {
            ParseText::Malformed("role_completion markers could not form one closed block"@)
        }
    } else if openings > 1 && closings == openings && opening_lines == openings && closing_lines
        == closings {
        ParseText::Ambiguous
    } else {
        ParseText::Malformed(
            "invalid role_completion marker structure: opening="@ + decimal(openings)
                + " closing="@ + decimal(closings) + " opening_lines="@ + decimal(opening_lines)
                + " closing_lines="@ + decimal(closing_lines),
        )
    }
}

/// A text that a regular expression matches literally, short enough to compile.
pub open spec fn literal_pattern(s: Seq<char>) -> bool {
    0 < s.len() <= 64 && forall|i: int|
        0 <= i < s.len() ==> ('a' <= #[trigger] s[i] <= 'z' || s[i] == '_' || s[i] == '<' || s[i]
            == '>' || s[i] == '/')
}

/// Calls `regex::Regex::new` on the pattern `(?s)opening(.*?)closing`, whose
/// markers stand for themselves, and `captures_iter` on `text`. Successive
/// matches start at the leftmost opening marker behind the match before and end
/// at the first closing marker behind that, so the first groups are
/// `closed_blocks`.
#[verifier::external_body]
fn captured_between(opening: &str, closing: &str, text: &str) -> (r: Vec<String>)
    requires
        literal_pattern(opening@),
        literal_pattern(closing@),
    ensures
        views(r@) == closed_blocks(text@, opening@, closing@),
{
    let pattern = format!("(?s){}(.*?){}", opening, closing);
    let re = regex::Regex::new(&pattern).unwrap();
    re.captures_iter(text).map(|c| c[1].to_string()).collect()
}

fn count_marker_lines(ls: &Vec<String>, marker: &str) -> (r: usize)
    ensures
        r == marker_lines(views(ls@), marker@),
{
    let mut n: usize = 0;
    let mut i: usize = 0;
    assert(views(ls@).take(0) =~= Seq::empty());
    while i < ls.len()
        invariant
            n <= i <= ls.len(),
            n == marker_lines(views(ls@).take(i as int), marker@),
        decreases ls.len() - i,
    {
        assert(views(ls@).take(i + 1).drop_last() =~= views(ls@).take(i as int));
        assert(views(ls@).take(i + 1).last() == ls[i as int]@);
        if same_text(trim_text(ls[i].as_str()).as_str(), marker) {
            n += 1;
        }
        i += 1;
    }
    assert(views(ls@).take(ls.len() as int) =~= views(ls@));
    n
}

fn is_canonical_field(k: &str) -> (r: bool)
    ensures
        r == is_field(k@),
{
    same_text(k, "role") || same_text(k, "result") || same_text(k, "workflow_id") || same_text(
        k,
        "project_id",
    ) || same_text(k, "project_root")
}

/// Whether `role` is one of the canonical role spellings.
pub fn is_canonical_role(role: &str) -> (r: bool)
    ensures
        r == is_role(role@),
{
    same_text(role, "PRIMARY") || same_text(role, "VERIFIER") || same_text(role, "FINAL_REVIEWER")
}

/// Whether `result` is one of the canonical result spellings.
pub fn is_canonical_result(result: &str) -> (r: bool)
    ensures
        r == is_result(result@),
{
    same_text(result, "COMPLETE") || same_text(result, "PASS") || same_text(result, "FAIL")
}

fn has_whitespace(s: &str) -> (r: bool)
    ensures
        r == exists|i: int| 0 <= i < s@.len() && is_space(#[trigger] s@[i]),
{
    let chars = chars_of(s);
    let mut i: usize = 0;
    while i < chars.len()
        invariant
            chars@ == s@,
            i <= chars.len(),
            forall|k: int| 0 <= k < i ==> !is_space(#[trigger] s@[k]),
        decreases chars.len() - i,
    {
        if is_whitespace(chars[i]) {
            assert(is_space(s@[i as int]));
            return true;
        }
        i += 1;
    }
    false
}

/// Adds the field of one line, or says why it is none.
fn add_line(fields: &mut TextMap<String>, raw: &str) -> (r: Result<(), String>)
    requires
        old(fields).wf(),
    ensures
        final(fields).wf(),
        match with_line(old(fields)@, raw@) {
            Ok(m) => r is Ok && final(fields)@ == m,
            Err(e) => r is Err && r->Err_0@ == e,
        },
{
    let line = trim_text(raw);
    let chars = chars_of(line.as_str());
    if chars.len() == 0 {
        return Ok(());
    }
    assert(chars@.skip(0) =~= chars@);
    let colon: usize = find_char(&chars, 0, ':');
    if colon >= chars.len() {
        return Err(joined("invalid line ", debug_text(line.as_str()).as_str()));
    }
    let key = line.as_str().substring_char(0, colon);
    assert(key@ =~= line@.take(colon as int));
    if has_whitespace(key) {
        return Err(joined("whitespace in key ", debug_text(key).as_str()));
    }
    if colon == 0 {
        return Err(joined("empty key in line ", debug_text(raw).as_str()));
    }
    if !is_canonical_field(key) {
        return Err(joined("unknown field ", debug_text(key).as_str()));
    }
    if fields.contains(key) {
        return Err(joined("duplicate key ", debug_text(key).as_str()));
    }
    let value = line.as_str().substring_char(colon + 1, chars.len());
    assert(value@ =~= line@.skip(colon + 1));
    fields.insert(key.to_owned(), trim_text(value));
    Ok(())
}

/// The `key: value` lines of a block. Blank lines are skipped; a line without a
/// colon, a key with white space in it, an unknown key and a repeated key are
/// faults.
fn parse_block_fields(body: &str) -> (r: Result<TextMap<String>, String>)
    ensures
        match fields_of(lines(body@)) {
            Ok(m) => r is Ok && r->Ok_0.wf() && r->Ok_0@ == m,
            Err(e) => r is Err && r->Err_0@ == e,
        },
{
    let ls = lines_of(body);
    let mut fields: TextMap<String> = TextMap::new();
    let mut i: usize = 0;
    let ghost all = views(ls@);
    assert(all.take(0) =~= Seq::empty());
    while i < ls.len()
        invariant
            all == views(ls@),
            all == lines(body@),
            i <= ls.len(),
            fields.wf(),
            fields_of(all.take(i as int)) == Ok::<Map<Seq<char>, Seq<char>>, Seq<char>>(fields@),
        decreases ls.len() - i,
    {
        assert(all.take(i + 1).drop_last() =~= all.take(i as int));
        assert(all.take(i + 1).last() == ls[i as int]@);
        match add_line(&mut fields, ls[i].as_str()) {
            Ok(_) => {},
            Err(e) => {
                proof {
                    lemma_fields_fail(all, i + 1);
                }
                return Err(e);
            },
        }
        i += 1;
    }
    assert(all.take(ls.len() as int) =~= all);
    Ok(fields)
}

proof fn lemma_fields_fail(ls: Seq<Seq<char>>, n: int)
    requires
        0 <= n <= ls.len(),
        fields_of(ls.take(n)) is Err,
    ensures
        fields_of(ls) == fields_of(ls.take(n)),
    decreases ls.len() - n,
{
    if n < ls.len() {
        assert(ls.take(n + 1).drop_last() =~= ls.take(n));
        lemma_fields_fail(ls, n + 1);
    } else {
        assert(ls.take(n) =~= ls);
    }
}

fn required_fault(fields: &TextMap<String>, name: &str) -> (r: Option<String>)
    requires
        fields.wf(),
    ensures
        opt_view(r) == field_fault(fields@, name@),
{
    match fields.get(name) {
        None => Some(joined("missing required field ", debug_text(name).as_str())),
        Some(v) => {
            if v.as_str().is_empty() {
                let mut reason = joined("required field ", debug_text(name).as_str());
                reason.append(" is empty");
                Some(reason)
            } else {
                None
            }
        },
    }
}

fn first_required_fault(fields: &TextMap<String>) -> (r: Option<String>)
    requires
        fields.wf(),
    ensures
        opt_view(r) == first_fault(fields@),
{
    let role = required_fault(fields, "role");
    if role.is_some() {
        return role;
    }
    let result = required_fault(fields, "result");
    if result.is_some() {
        return result;
    }
    let workflow_id = required_fault(fields, "workflow_id");
    if workflow_id.is_some() {
        return workflow_id;
    }
    let project_id = required_fault(fields, "project_id");
    if project_id.is_some() {
        return project_id;
    }
    required_fault(fields, "project_root")
}

fn field(fields: &TextMap<String>, name: &str) -> (r: String)
    requires
        fields.wf(),
        fields@.contains_key(name@),
    ensures
        r@ == fields@[name@],
{
    match fields.get(name) {
        Some(v) => v.clone(),
        None => String::new(),
    }
}

/// What the text between one opening and one closing marker claims.
pub fn parse_single_block(body: &str) -> (r: RoleCompletionParse)
    ensures
        r@ == block_outcome(body@),
{
    let fields = match parse_block_fields(body) {
        Ok(f) => f,
        Err(reason) => {
            return RoleCompletionParse::Malformed { reason };
        },
    };
    match first_required_fault(&fields) {
        Some(reason) => {
            return RoleCompletionParse::Malformed { reason };
        },
        None => {},
    }
    let role = field(&fields, "role");
    if !is_canonical_role(role.as_str()) {
        return RoleCompletionParse::Malformed {
            reason: joined("invalid role ", debug_text(role.as_str()).as_str()),
        };
    }
    let result = field(&fields, "result");
    if !is_canonical_result(result.as_str()) {
        return RoleCompletionParse::Malformed {
            reason: joined("invalid result ", debug_text(result.as_str()).as_str()),
        };
    }
    RoleCompletionParse::Claim(
        RoleCompletionClaim {
            role,
            result,
            workflow_id: field(&fields, "workflow_id"),
            project_id: field(&fields, "project_id"),
            project_root: field(&fields, "project_root"),
        },
    )
}

proof fn lemma_markers_literal()
    ensures
        literal_pattern(OPENING_MARKER@),
        literal_pattern(CLOSING_MARKER@),
{
    reveal_strlit("<role_completion>");
    reveal_strlit("</role_completion>");
}

/// What an assistant reply claims: nothing where no marker stands in it; one
/// claim where each marker stands exactly once, alone on its line, around a
/// well-formed block; ambiguity where more than one block stands, whatever is in
/// them and wherever their markers are, or where several markers of both kinds
/// stand alone on as many lines; a fault otherwise.
pub fn parse_role_completion_block(text: &str) -> (r: RoleCompletionParse)
    ensures
        r@ == parse_outcome(text@),
        closed_blocks(text@, OPENING_MARKER@, CLOSING_MARKER@).len() > 1 ==> r is Ambiguous,
{
    proof {
        lemma_markers_literal();
        if closed_blocks(text@, OPENING_MARKER@, CLOSING_MARKER@).len() > 1 {
            several_blocks_are_ambiguous(text@);
        }
    }
    let openings: usize = count_text(text, OPENING_MARKER);
    let closings: usize = count_text(text, CLOSING_MARKER);
    let ls = lines_of(text);
    let opening_lines: usize = count_marker_lines(&ls, OPENING_MARKER);
    let closing_lines: usize = count_marker_lines(&ls, CLOSING_MARKER);
    if openings == 0 && closings == 0 {
        return RoleCompletionParse::NoClaim;
    }
    let captures = captured_between(OPENING_MARKER, CLOSING_MARKER, text);
    assert(captures.len() == views(captures@).len());
    if captures.len() > 1 {
        return RoleCompletionParse::Ambiguous;
    }
    if openings != 1 || closings != 1 || opening_lines != 1 || closing_lines != 1 {
        if openings > 1 && closings > 1 && openings == closings && opening_lines == openings
            && closing_lines == closings {
            return RoleCompletionParse::Ambiguous;
        }
        let mut reason = joined(
            "invalid role_completion marker structure: opening=",
            decimal_text(openings as u64).as_str(),
        );
        reason.append(" closing=");
        reason.append(decimal_text(closings as u64).as_str());
        reason.append(" opening_lines=");
        reason.append(decimal_text(opening_lines as u64).as_str());
        reason.append(" closing_lines=");
        reason.append(decimal_text(closing_lines as u64).as_str());
        return RoleCompletionParse::Malformed { reason };
    }
    if captures.len() == 1 {
        assert(views(captures@)[0] == captures[0]@);
        parse_single_block(captures[0].as_str())
    } else {
        RoleCompletionParse::Malformed {
            reason: "role_completion markers could not form one closed block".to_owned(),
        }
    }
}

/// The results that each role may report.
pub open spec fn role_may_report(role: Seq<char>, result: Seq<char>) -> bool {
    ||| role == "PRIMARY"@ && result == "COMPLETE"@
    ||| role == "VERIFIER"@ && (result == "PASS"@ || result == "FAIL"@)
    ||| role == "FINAL_REVIEWER"@ && result == "PASS"@
}

/// `field mismatch: block claims "a" but dispatch is "b"`.
pub open spec fn mismatch(field: Seq<char>, claims: Seq<char>, dispatched: Seq<char>) -> Seq<
    char,
> {
    field + " mismatch: block claims "@ + debug_quoted(claims) + " but dispatch is "@
        + debug_quoted(dispatched)
}

/// What is wrong with a claimed part of the project identity. The trusted value
/// has to be there and hold more than white space.
pub open spec fn identity_fault(
    field: Seq<char>,
    claims: Seq<char>,
    trusted: Option<Seq<char>>,
) -> Option<Seq<char>> {
    if trusted is None || trim(trusted->0).len() == 0 {
        Some("trusted "@ + field + " missing or blank"@)
    } else if claims != trusted->0 {
        Some(mismatch(field, claims, trusted->0))
    } else {
        None
    }
}

/// The first point on which a claim disagrees with the dispatch that it answers.
pub open spec fn claim_fault(claim: ClaimText, metadata: NativeWorkflowMetadata) -> Option<
    Seq<char>,
> {
    if claim.role != metadata.role@ {
        Some(mismatch("role"@, claim.role, metadata.role@))
    } else if !role_may_report(claim.role, claim.result) {
        Some(
            "role-result combination not allowed for AAP-native completion: "@ + claim.role + "+"@
                + claim.result,
        )
    } else if claim.workflow_id != metadata.workflow_run_id@ {
        Some(mismatch("workflow_id"@, claim.workflow_id, metadata.workflow_run_id@))
    } else if identity_fault("project_id"@, claim.project_id, opt_view(metadata.project_id))
        is Some {
        identity_fault("project_id"@, claim.project_id, opt_view(metadata.project_id))
    } else {
        identity_fault("project_root"@, claim.project_root, opt_view(metadata.project_root))
    }
}

fn mismatch_text(field: &str, claims: &str, dispatched: &str) -> (r: String)
    ensures
        r@ == mismatch(field@, claims@, dispatched@),
{
    let mut r = joined(field, " mismatch: block claims ");
    r.append(debug_text(claims).as_str());
    r.append(" but dispatch is ");
    r.append(debug_text(dispatched).as_str());
    r
}

fn check_identity(field: &str, claims: &str, trusted: &Option<String>) -> (r: Option<String>)
    ensures
        opt_view(r) == identity_fault(field@, claims@, opt_view(*trusted)),
{
    match trusted {
        Some(t) => {
            if trim_text(t.as_str()).as_str().is_empty() {
                Some(joined(joined("trusted ", field).as_str(), " missing or blank"))
            } else if !same_text(claims, t.as_str()) {
                Some(mismatch_text(field, claims, t.as_str()))
            } else {
                None
            }
        },
        None => Some(joined(joined("trusted ", field).as_str(), " missing or blank")),
    }
}

fn may_report(role: &str, result: &str) -> (r: bool)
    ensures
        r == role_may_report(role@, result@),
{
    (same_text(role, "PRIMARY") && same_text(result, "COMPLETE")) || (same_text(role, "VERIFIER")
        && (same_text(result, "PASS") || same_text(result, "FAIL"))) || (same_text(
        role,
        "FINAL_REVIEWER",
    ) && same_text(result, "PASS"))
}

/// Whether a claim may stand for the dispatch that it answers: its role is the
/// dispatched one and may report that result, and its workflow, project and
/// project root are the trusted ones. The first disagreement is the error.
pub fn check_aap_native_claim_against_metadata(
    claim: &RoleCompletionClaim,
    metadata: &NativeWorkflowMetadata,
) -> (r: Result<(), String>)
    ensures
        match claim_fault(claim@, *metadata) {
            None => r is Ok,
            Some(reason) => r is Err && r->Err_0@ == reason,
        },
{
    if !same_text(claim.role.as_str(), metadata.role.as_str()) {
        return Err(mismatch_text("role", claim.role.as_str(), metadata.role.as_str()));
    }
    if !may_report(claim.role.as_str(), claim.result.as_str()) {
        let mut reason = joined(
            "role-result combination not allowed for AAP-native completion: ",
            claim.role.as_str(),
        );
        reason.append("+");
        reason.append(claim.result.as_str());
        return Err(reason);
    }
    if !same_text(claim.workflow_id.as_str(), metadata.workflow_run_id.as_str()) {
        return Err(
            mismatch_text(
                "workflow_id",
                claim.workflow_id.as_str(),
                metadata.workflow_run_id.as_str(),
            ),
        );
    }
    match check_identity("project_id", claim.project_id.as_str(), &metadata.project_id) {
        Some(reason) => {
            return Err(reason);
        },
        None => {},
    }
    match check_identity("project_root", claim.project_root.as_str(), &metadata.project_root) {
        Some(reason) => Err(reason),
        None => Ok(()),
    }
}

} // verus!
