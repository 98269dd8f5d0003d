//! What each function answers, in terms of what it is given.

use vstd::prelude::*;

use crate::config::AutonomousIngressConfig;
use crate::decimal::decimal;
use crate::dispatch::{attachment_views, TextAttachment};
use crate::json::json_string;
use crate::json_laws::{members, object, object_begins, object_grows};
use crate::log::{field_views, LogEntry};
use crate::text::{is_space, lemma_char_at_is, opt_view, trim, without_cr};
use crate::text_laws::{one_line, stacked, trim_ignores_last_space};

use super::laws::only_the_first_line_declares;
use super::objective::{
    all_space, assemble_user_objective, canonical_title, declared_title, objective,
    resolve_current_human_prompt_authority,
};
use super::outcome::{
    check_status, project_error, project_response, AutonomousIngressError, AutonomousIngressResponse,
    AutonomousRouteDisposition,
};
use super::request::{
    destination_json, destination_member, encode_request, json_bool, json_or_null, metadata_json,
    optional_member, request_json, AutonomousIngressDeliveryDestination, AutonomousIngressMetadata,
    AutonomousIngressRequest,
};
use super::routing::{
    build_candidate, build_production_client, log_accepted, log_candidate, log_failure,
    should_route_to_aap, without_end_slashes, AutonomousIngressCandidate, HttpAutonomousIngressClient,
};

verus! {

/// Two optional texts are both there and the same, or both not there.
pub open spec fn same_optional(a: Option<String>, b: Option<String>) -> bool {
    &&& a is Some <==> b is Some
    &&& a is Some ==> a->0@ == b->0@
}

/// The text that an optional one stands for: itself, or else a given one.
pub open spec fn given_or(o: Option<String>, otherwise: Seq<char>, s: Seq<char>) -> bool {
    &&& o is Some ==> s == o->0@
    &&& o is None ==> s == otherwise
}

proof fn lemma_dispositions()
    ensures
        "ACCEPTED"@ != "REJECTED"@,
{
    reveal_strlit("ACCEPTED");
    reveal_strlit("REJECTED");
    assert("ACCEPTED"@[0] != "REJECTED"@[0]);
}

/// An answer that accepts the turn hands on the task, the workflow run, the binding
/// and the conversation that it names. A conversation that it does not name is the
/// one that was asked for; anything else that it does not name is empty.
pub proof fn acceptance_hands_on_what_it_names(
    response: AutonomousIngressResponse,
    fallback: &str,
    r: AutonomousRouteDisposition,
)
    requires
        call_ensures(project_response, (response, fallback), r),
        response.disposition@ == "ACCEPTED"@,
    ensures
        r is Accepted,
        given_or(response.task_id, Seq::empty(), r->Accepted_task_id@),
        given_or(response.workflow_run_id, Seq::empty(), r->Accepted_workflow_run_id@),
        given_or(response.binding_id, Seq::empty(), r->Accepted_binding_id@),
        given_or(response.conversation_key, fallback@, r->Accepted_conversation_key@),
{
}

/// A refusal may be retried exactly where the answer says so. Its code and its
/// detail are those of the answer; a refusal without a code has a general one.
pub proof fn refusal_is_as_the_runtime_says(
    response: AutonomousIngressResponse,
    fallback: &str,
    r: AutonomousRouteDisposition,
)
    requires
        call_ensures(project_response, (response, fallback), r),
        response.disposition@ == "REJECTED"@,
    ensures
        r is Rejected,
        r->Rejected_retryable <==> response.retryable == Some(true),
        given_or(response.error_code, "AAP_REJECTED"@, r->Rejected_error_code@),
        same_optional(r->Rejected_detail, response.detail),
{
    lemma_dispositions();
}

/// An answer that is not understood is a refusal for good, which names what was
/// answered.
pub proof fn unknown_answer_is_a_final_refusal(
    response: AutonomousIngressResponse,
    fallback: &str,
    r: AutonomousRouteDisposition,
)
    requires
        call_ensures(project_response, (response, fallback), r),
        response.disposition@ != "ACCEPTED"@,
        response.disposition@ != "REJECTED"@,
    ensures
        r is Rejected,
        !r->Rejected_retryable,
        r->Rejected_error_code@ == "AAP_UNKNOWN_DISPOSITION:"@ + response.disposition@,
        same_optional(r->Rejected_detail, response.detail),
{
}

/// A request that got no answer may be repeated where the runtime was not reached,
/// did not answer in time, or failed on its side; not where the credential is
/// missing, the request was refused, or the answer made no sense.
pub proof fn failures_that_may_pass_are_retried(e: AutonomousIngressError, r: bool)
    requires
        call_ensures(AutonomousIngressError::retryable, (&e,), r),
    ensures
        r <==> match e {
            AutonomousIngressError::Unreachable(_) => true,
            AutonomousIngressError::Timeout => true,
            AutonomousIngressError::AuthMissing => false,
            AutonomousIngressError::Http { status, body_snippet: _ } => 500 <= status,
            AutonomousIngressError::Malformed(_) => false,
        },
{
}

/// Every way to fail has a name of its own and a text that says what is known of it.
pub proof fn failures_are_told_apart(
    e: AutonomousIngressError,
    code: &'static str,
    message: String,
)
    requires
        call_ensures(AutonomousIngressError::code, (&e,), code),
        call_ensures(AutonomousIngressError::message, (&e,), message),
    ensures
        match e {
            AutonomousIngressError::Unreachable(m) => code@ == "AAP_UNREACHABLE"@ && message@
                == "AAP unreachable: "@ + m@,
            AutonomousIngressError::Timeout => code@ == "AAP_TIMEOUT"@ && message@
                == "AAP timeout"@,
            AutonomousIngressError::AuthMissing => code@ == "AAP_AUTH_MISSING"@ && message@
                == "AAP auth credential missing"@,
            AutonomousIngressError::Http { status, body_snippet } => code@ == "AAP_HTTP_ERROR"@
                && message@ == "AAP HTTP "@ + decimal(status as nat) + ": "@ + body_snippet@,
            AutonomousIngressError::Malformed(m) => code@ == "AAP_RESPONSE_MALFORMED"@ && message@
                == "AAP response malformed: "@ + m@,
        },
{
}

/// A turn whose request failed is unavailable, under the failure's name, and may be
/// retried exactly where the request may.
pub proof fn failure_makes_a_turn_unavailable(
    e: AutonomousIngressError,
    r: AutonomousRouteDisposition,
    code: &'static str,
    retryable: bool,
)
    requires
        call_ensures(project_error, (e,), r),
        call_ensures(AutonomousIngressError::code, (&e,), code),
        call_ensures(AutonomousIngressError::retryable, (&e,), retryable),
    ensures
        r is Unavailable,
        r->Unavailable_error_code@ == code@,
        r->Unavailable_retryable == retryable,
{
}

/// Only a status from 200 to 299 carries an answer. Any other is reported with the
/// first 200 characters of what came with it, or all of it where it is shorter.
pub proof fn statuses_are_reported(
    status: u16,
    body: &str,
    r: Result<(), AutonomousIngressError>,
)
    requires
        call_ensures(check_status, (status, body), r),
    ensures
        r is Ok <==> 200 <= status <= 299,
        r is Err ==> {
            &&& r->Err_0 is Http
            &&& r->Err_0->status == status
            &&& r->Err_0->body_snippet@.is_prefix_of(body@)
            &&& r->Err_0->body_snippet@.len() == if body@.len() < 200 {
                body@.len()
            } else {
                200
            }
        },
{
}

proof fn lemma_header_line(tail: Seq<char>)
    requires
        one_line(tail),
    ensures
        ({
            let line = "Canonical title:"@ + tail;
            &&& one_line(line)
            &&& !all_space(without_cr(line))
            &&& declared_title(without_cr(line)) == if trim(tail).len() == 0 {
                None
            } else {
                Some(trim(tail))
            }
        }),
{
    reveal_strlit("Canonical title:");
    let h = "Canonical title:"@;
    let line = h + tail;
    assert forall|i: int| 0 <= i < line.len() implies line[i] != '\n' by {
        if i < 16 {
            assert(line[i] == h[i]);
        } else {
            assert(line[i] == tail[i - 16]);
        }
    }
    assert(line[0] == 'C');
    let cut = without_cr(line);
    assert(cut[0] == 'C');
    assert(!is_space(cut[0]));
    assert(cut.subrange(0, 16) =~= h);
    if line.last() == '\r' {
        assert(tail.len() > 0 && tail.last() == '\r');
        assert(cut.skip(16) =~= tail.drop_last());
        trim_ignores_last_space(tail.drop_last(), '\r');
        assert(tail.drop_last().push('\r') =~= tail);
    } else {
        assert(cut.skip(16) =~= tail);
    }
}

/// The title of a prompt is what follows `Canonical title:` at the very start of
/// its first line, without the white space around it; a header with nothing behind
/// it declares none.
pub proof fn header_declares_the_title(tail: Seq<char>, rest: Seq<char>)
    requires
        one_line(tail),
    ensures
        trim(tail).len() > 0 ==> canonical_title(stacked("Canonical title:"@ + tail, rest)) == Some(
            trim(tail),
        ),
        trim(tail).len() == 0 ==> canonical_title(stacked("Canonical title:"@ + tail, rest)) is None,
        trim(tail).len() > 0 ==> canonical_title("Canonical title:"@ + tail) == Some(trim(tail)),
        trim(tail).len() == 0 ==> canonical_title("Canonical title:"@ + tail) is None,
{
    let line = "Canonical title:"@ + tail;
    lemma_header_line(tail);
    only_the_first_line_declares(line, rest);
    lemma_char_at_is(line, '\n', line.len() as int);
    assert(line.take(line.len() as int) =~= line);
}

/// A first line that is not blank and does not start with the header leaves the
/// prompt without a title, whatever follows.
pub proof fn no_header_no_title(line: Seq<char>, rest: Seq<char>, i: int)
    requires
        one_line(line),
        0 <= i < line.len(),
        !is_space(line[i]),
        !"Canonical title:"@.is_prefix_of(line),
    ensures
        canonical_title(stacked(line, rest)) is None,
        canonical_title(line) is None,
{
    reveal_strlit("Canonical title:");
    let h = "Canonical title:"@;
    let cut = without_cr(line);
    assert(line[i] != '\r') by {
        assert(is_space('\r'));
    }
    assert(cut[i] == line[i]);
    if cut.len() >= 16 && cut.subrange(0, 16) == h {
        assert forall|k: int| 0 <= k < 16 implies h[k] == line[k] by {
            assert(cut.subrange(0, 16)[k] == cut[k]);
            assert(cut[k] == line[k]);
        }
        assert(h =~= line.subrange(0, 16));
        assert(h.is_prefix_of(line));
    }
    only_the_first_line_declares(line, rest);
    lemma_char_at_is(line, '\n', line.len() as int);
    assert(line.take(line.len() as int) =~= line);
}

/// The part of an objective that stands for some attachments, from the first on.
pub open spec fn sections(attachments: Seq<TextAttachment>) -> Seq<char>
    decreases attachments.len(),
{
    if attachments.len() == 0 {
        Seq::empty()
    } else {
        "\n\n[Attached text file: "@ + attachments[0].filename@ + "]\n"@ + attachments[0].body@
            + sections(attachments.skip(1))
    }
}

proof fn lemma_sections(prompt: Seq<char>, attachments: Seq<TextAttachment>, n: int)
    requires
        0 <= n <= attachments.len(),
    ensures
        objective(prompt, attachment_views(attachments).take(n)) + sections(attachments.skip(n))
            == objective(prompt, attachment_views(attachments)),
    decreases attachments.len() - n,
{
    let all = attachment_views(attachments);
    if n == attachments.len() {
        assert(all.take(n) =~= all);
        assert(objective(prompt, all) + Seq::<char>::empty() =~= objective(prompt, all));
    } else {
        lemma_sections(prompt, attachments, n + 1);
        assert(all.take(n + 1).drop_last() =~= all.take(n));
        assert(all.take(n + 1).last() == attachments[n]@);
        assert(attachments.skip(n).skip(1) =~= attachments.skip(n + 1));
        assert(attachments.skip(n)[0] == attachments[n]);
        let a = objective(prompt, all.take(n));
        let rest = sections(attachments.skip(n + 1));
        assert(a + ("\n\n[Attached text file: "@ + attachments[n].filename@ + "]\n"@
            + attachments[n].body@ + rest) =~= (a + "\n\n[Attached text file: "@
            + attachments[n].filename@ + "]\n"@ + attachments[n].body@) + rest);
    }
}

/// An objective is the prompt as it is, and then, for each attachment in its order,
/// a heading with the file's name and the file's text as it is.
pub proof fn objective_lists_every_attachment(
    prompt: &str,
    attachments: &[TextAttachment],
    r: String,
)
    requires
        call_ensures(assemble_user_objective, (prompt, attachments), r),
    ensures
        r@ == prompt@ + sections(attachments@),
{
    lemma_sections(prompt@, attachments@, 0);
    assert(attachment_views(attachments@).take(0) =~= Seq::empty());
    assert(attachments@.skip(0) =~= attachments@);
}

/// A visible prompt is the human's own text. Without one, the text of a single
/// attachment named `message.txt` is, where a human sent it; and nothing else is.
pub proof fn own_text_is_the_prompt_or_the_paste(
    prompt: &str,
    sender_is_bot: bool,
    attachments: &[TextAttachment],
    r: String,
)
    requires
        call_ensures(
            resolve_current_human_prompt_authority,
            (prompt, sender_is_bot, attachments),
            r,
        ),
    ensures
        prompt@.len() > 0 ==> r@ == prompt@,
        prompt@.len() == 0 && !sender_is_bot && attachments@.len() == 1
            && attachments@[0].filename@ == "message.txt"@ ==> r@ == attachments@[0].body@,
        prompt@.len() == 0 && (sender_is_bot || attachments@.len() != 1
            || attachments@[0].filename@ != "message.txt"@) ==> r@.len() == 0,
{
    if attachments@.len() == 1 {
        assert(attachment_views(attachments@)[0] == attachments@[0]@);
    }
}

/// A turn is handed over exactly where there is a configuration that lists the
/// agent, and it covers every human or the sender is authorised.
pub proof fn listed_agents_hand_over(
    config: Option<&AutonomousIngressConfig>,
    agent: &str,
    authorized: bool,
    r: bool,
)
    requires
        call_ensures(should_route_to_aap, (config, agent, authorized), r),
    ensures
        r <==> {
            &&& config is Some
            &&& exists|i: int|
                0 <= i < config->0.aap_agents@.len() && (#[trigger] config->0.aap_agents@[i])@
                    == agent@
            &&& config->0.aap_universal_humans || authorized
        },
{
    if config is Some {
        let agents = config->0.aap_agents@;
        let texts = crate::text::views(agents);
        if texts.contains(agent@) {
            let i = choose|i: int| 0 <= i < texts.len() && texts[i] == agent@;
            assert(agents[i]@ == agent@);
        }
        if exists|i: int| 0 <= i < agents.len() && (#[trigger] agents[i])@ == agent@ {
            let i = choose|i: int| 0 <= i < agents.len() && (#[trigger] agents[i])@ == agent@;
            assert(texts[i] == agent@);
        }
    }
}

proof fn lemma_end_slashes(url: Seq<char>)
    ensures
        ({
            let base = without_end_slashes(url);
            &&& base.is_prefix_of(url)
            &&& base.len() > 0 ==> base.last() != '/'
            &&& forall|i: int| base.len() <= i < url.len() ==> url[i] == '/'
        }),
    decreases url.len(),
{
    if url.len() > 0 && url.last() == '/' {
        let rest = url.drop_last();
        lemma_end_slashes(rest);
        let base = without_end_slashes(url);
        assert forall|i: int| base.len() <= i < url.len() implies url[i] == '/' by {
            if i < rest.len() {
                assert(rest[i] == url[i]);
            }
        }
    }
}

/// Where `base` stands at the start of `url` and nothing but slashes follows.
pub open spec fn base_of(base: Seq<char>, url: Seq<char>) -> bool {
    &&& base.is_prefix_of(url)
    &&& base.len() > 0 ==> base.last() != '/'
    &&& forall|i: int| base.len() <= i < url.len() ==> url[i] == '/'
}

/// A client posts to the configured runtime, whose address may end in slashes,
/// under the credential that was found, and waits as long as configured. Without a
/// credential there is no client.
pub proof fn client_reaches_the_configured_runtime(
    config: &AutonomousIngressConfig,
    credential: Option<String>,
    r: Result<HttpAutonomousIngressClient, AutonomousIngressError>,
    endpoint: String,
    shown: &str,
    timeout: u64,
)
    requires
        call_ensures(HttpAutonomousIngressClient::new, (config, credential), r)
            || call_ensures(build_production_client, (config, credential), r),
        r is Ok ==> {
            &&& call_ensures(HttpAutonomousIngressClient::endpoint, (&r->Ok_0,), endpoint)
            &&& call_ensures(HttpAutonomousIngressClient::credential, (&r->Ok_0,), shown)
            &&& call_ensures(HttpAutonomousIngressClient::timeout_seconds, (&r->Ok_0,), timeout)
        },
    ensures
        r is Ok <==> credential is Some,
        r is Err ==> r->Err_0 is AuthMissing,
        r is Ok ==> {
            &&& exists|base: Seq<char>| #[trigger]
                base_of(base, config.aap_runtime_url@) && endpoint@ == base
                    + "/v1/integrations/openab/autonomous_ingress"@
            &&& shown@ == credential->0@
            &&& timeout == config.request_timeout_seconds
        },
{
    lemma_end_slashes(config.aap_runtime_url@);
    assert(base_of(without_end_slashes(config.aap_runtime_url@), config.aap_runtime_url@));
}

/// A field of a log entry has this name and this text.
pub open spec fn says(entry: LogEntry, i: int, name: Seq<char>, text: Seq<char>) -> bool {
    0 <= i < entry.fields@.len() && entry.fields@[i].0@ == name && entry.fields@[i].1@ == text
}

proof fn lemma_says(entry: LogEntry, i: int)
    requires
        0 <= i < entry.fields@.len(),
    ensures
        field_views(entry.fields@)[i] == (entry.fields@[i].0@, entry.fields@[i].1@),
        field_views(entry.fields@).len() == entry.fields@.len(),
{
}

/// A candidate carries the agent, the conversation and the message that it was
/// built from; its entry reports each of them under its name.
pub proof fn candidates_are_reported(
    agent: &str,
    conversation: &str,
    message: &str,
    c: AutonomousIngressCandidate,
    entry: LogEntry,
)
    requires
        call_ensures(build_candidate, (agent, conversation, message), c),
        call_ensures(log_candidate, (&c,), entry),
    ensures
        c.source@ == "discord"@,
        c.agent@ == agent@,
        c.conversation_key@ == conversation@,
        c.message_id@ == message@,
        c.routing_contract@ == "config_autonomous_ingress"@,
        entry.level is Info,
        entry.fields@.len() == 6,
        says(entry, 0, "event"@, "autonomous workflow candidate"@),
        says(entry, 1, "source"@, "discord"@),
        says(entry, 2, "agent"@, agent@),
        says(entry, 3, "conversation_key"@, conversation@),
        says(entry, 4, "message_id"@, message@),
        says(entry, 5, "routing_contract"@, "config_autonomous_ingress"@),
{
    let n = field_views(entry.fields@).len();
    assert(n == 6);
    lemma_says(entry, 0);
    lemma_says(entry, 1);
    lemma_says(entry, 2);
    lemma_says(entry, 3);
    lemma_says(entry, 4);
    lemma_says(entry, 5);
}

/// An accepted turn is reported with the task, the run, the binding and the
/// conversation; no other turn is reported as accepted.
pub proof fn acceptance_is_reported(
    c: AutonomousIngressCandidate,
    d: AutonomousRouteDisposition,
    r: Option<LogEntry>,
)
    requires
        call_ensures(log_accepted, (&c, &d), r),
    ensures
        r is Some <==> d is Accepted,
        r is Some ==> {
            &&& r->0.level is Info
            &&& r->0.fields@.len() == 9
            &&& says(r->0, 0, "event"@, "autonomous workflow accepted by runtime"@)
            &&& says(r->0, 1, "source"@, c.source@)
            &&& says(r->0, 2, "agent"@, c.agent@)
            &&& says(r->0, 3, "task_id"@, d->Accepted_task_id@)
            &&& says(r->0, 4, "workflow_run_id"@, d->Accepted_workflow_run_id@)
            &&& says(r->0, 5, "binding_id"@, d->Accepted_binding_id@)
            &&& says(r->0, 6, "conversation_key"@, d->Accepted_conversation_key@)
            &&& says(r->0, 7, "disposition"@, "ACCEPTED"@)
            &&& says(r->0, 8, "consumed"@, "true"@)
        },
{
    if r is Some {
        let n = field_views(r->0.fields@).len();
        assert(n == 9);
        lemma_says(r->0, 0);
        lemma_says(r->0, 1);
        lemma_says(r->0, 2);
        lemma_says(r->0, 3);
        lemma_says(r->0, 4);
        lemma_says(r->0, 5);
        lemma_says(r->0, 6);
        lemma_says(r->0, 7);
        lemma_says(r->0, 8);
    }
}

/// A refused or unavailable turn is reported as a warning, with its code and whether
/// it may be retried; a refusal with its detail too. No other turn is.
pub proof fn failure_is_reported(
    c: AutonomousIngressCandidate,
    d: AutonomousRouteDisposition,
    r: Option<LogEntry>,
)
    requires
        call_ensures(log_failure, (&c, &d), r),
    ensures
        r is Some <==> d is Rejected || d is Unavailable,
        r is Some ==> {
            let code = if d is Rejected {
                d->Rejected_error_code@
            } else {
                d->Unavailable_error_code@
            };
            let retryable = if d is Rejected {
                d->Rejected_retryable
            } else {
                d->Unavailable_retryable
            };
            &&& r->0.level is Warn
            &&& says(r->0, 0, "event"@, "autonomous workflow ingress failed"@)
            &&& says(r->0, 1, "source"@, c.source@)
            &&& says(r->0, 2, "agent"@, c.agent@)
            &&& says(r->0, 3, "error_code"@, code)
            &&& retryable ==> says(r->0, 4, "retryable"@, "true"@)
            &&& !retryable ==> says(r->0, 4, "retryable"@, "false"@)
            &&& says(r->0, 5, "consumed"@, "true"@)
            &&& d is Unavailable ==> r->0.fields@.len() == 6
            &&& d is Rejected ==> r->0.fields@.len() == 7
            &&& d is Rejected && d->Rejected_detail is Some ==> says(
                r->0,
                6,
                "detail"@,
                d->Rejected_detail->0@,
            )
            &&& d is Rejected && d->Rejected_detail is None ==> says(
                r->0,
                6,
                "detail"@,
                Seq::empty(),
            )
        },
{
    if r is Some {
        let n = field_views(r->0.fields@).len();
        assert(n == if d is Rejected { 7int } else { 6int });
        lemma_says(r->0, 0);
        lemma_says(r->0, 1);
        lemma_says(r->0, 2);
        lemma_says(r->0, 3);
        lemma_says(r->0, 4);
        lemma_says(r->0, 5);
        if d is Rejected {
            lemma_says(r->0, 6);
        }
    }
}

/// A member that is a text.
pub open spec fn text(name: Seq<char>, s: Seq<char>) -> (Seq<char>, Seq<char>) {
    (name, json_string(s))
}

/// A member that is a text where there is one, and left out otherwise.
pub open spec fn text_if_any(name: Seq<char>, o: Option<String>) -> Seq<(Seq<char>, Seq<char>)> {
    match o {
        Some(s) => seq![text(name, s@)],
        None => Seq::empty(),
    }
}

/// A member that is a text where there is one, and `null` otherwise.
pub open spec fn text_or_null(name: Seq<char>, o: Option<String>) -> (Seq<char>, Seq<char>) {
    match o {
        Some(s) => text(name, s@),
        None => (name, "null"@),
    }
}

/// The members of a destination.
pub open spec fn destination_members(d: AutonomousIngressDeliveryDestination) -> Seq<
    (Seq<char>, Seq<char>),
> {
    seq![text("platform"@, d.platform@), text("channel_id"@, d.channel_id@)] + text_if_any(
        "thread_id"@,
        d.thread_id,
    ) + text_if_any("parent_id"@, d.parent_id) + text_if_any("origin_event_id"@, d.origin_event_id)
}

/// The destination as a member, where there is one.
pub open spec fn destination_if_any(d: Option<AutonomousIngressDeliveryDestination>) -> Seq<
    (Seq<char>, Seq<char>),
> {
    match d {
        Some(d) => seq![("delivery_destination"@, object(destination_members(d)))],
        None => Seq::empty(),
    }
}

/// The members of where a turn came from.
pub open spec fn metadata_members(m: AutonomousIngressMetadata) -> Seq<(Seq<char>, Seq<char>)> {
    seq![
        text_or_null("discord_message_id"@, m.discord_message_id),
        text_or_null("discord_channel_id"@, m.discord_channel_id),
        text_or_null("discord_thread_id"@, m.discord_thread_id),
        text_or_null("discord_user_id"@, m.discord_user_id),
        (
            "discord_sender_is_bot"@,
            if m.discord_sender_is_bot {
                "true"@
            } else {
                "false"@
            },
        ),
    ] + destination_if_any(m.delivery_destination)
}

/// The members of a request.
pub open spec fn request_members(q: AutonomousIngressRequest) -> Seq<(Seq<char>, Seq<char>)> {
    seq![
        text("protocol"@, q.protocol@),
        text("project_id"@, q.project_id@),
        text("transport"@, q.transport@),
        text("conversation_key"@, q.conversation_key@),
        text("original_human_prompt"@, q.original_human_prompt@),
        text("user_objective"@, q.user_objective@),
    ] + text_if_any("title"@, q.title) + seq![
        text("trace_id"@, q.trace_id@),
        text_or_null("task_id"@, q.task_id),
        text("primary_agent"@, q.primary_agent@),
    ] + text_if_any("language"@, q.language) + seq![
        ("metadata"@, object(metadata_members(q.metadata))),
    ] + destination_if_any(q.delivery_destination)
}

proof fn lemma_if_any(
    begun: Seq<char>,
    ms: Seq<(Seq<char>, Seq<char>)>,
    lead: Seq<char>,
    name: Seq<char>,
    o: Option<String>,
)
    requires
        ms.len() > 0,
        begun == seq!['{'] + members(ms),
        lead == seq![',', '"'] + name + seq!['"', ':'],
    ensures
        begun + optional_member(lead, opt_view(o)) == seq!['{'] + members(ms + text_if_any(name, o)),
{
    match o {
        Some(s) => {
            object_grows(begun, ms, lead, name, json_string(s@));
            assert(ms + text_if_any(name, o) =~= ms.push((name, json_string(s@))));
        },
        None => {
            assert(ms + text_if_any(name, o) =~= ms);
            assert(begun + Seq::<char>::empty() =~= begun);
        },
    }
}

proof fn lemma_destination(d: AutonomousIngressDeliveryDestination)
    ensures
        destination_json(d) == object(destination_members(d)),
{
    reveal_strlit("}");
    assert("}"@ =~= seq!['}']);
    reveal_strlit("{\"platform\":");
    reveal_strlit("platform");
    assert("{\"platform\":"@ =~= seq!['{', '"'] + "platform"@ + seq!['"', ':']);
    object_begins("{\"platform\":"@, "platform"@, json_string(d.platform@));
    let b1 = "{\"platform\":"@ + json_string(d.platform@);
    let m1 = seq![text("platform"@, d.platform@)];
    reveal_strlit(",\"channel_id\":");
    reveal_strlit("channel_id");
    assert(",\"channel_id\":"@ =~= seq![',', '"'] + "channel_id"@ + seq!['"', ':']);
    object_grows(b1, m1, ",\"channel_id\":"@, "channel_id"@, json_string(d.channel_id@));
    let b2 = b1 + ",\"channel_id\":"@ + json_string(d.channel_id@);
    let m2 = m1.push(text("channel_id"@, d.channel_id@));
    reveal_strlit(",\"thread_id\":");
    reveal_strlit("thread_id");
    assert(",\"thread_id\":"@ =~= seq![',', '"'] + "thread_id"@ + seq!['"', ':']);
    lemma_if_any(b2, m2, ",\"thread_id\":"@, "thread_id"@, d.thread_id);
    let b3 = b2 + optional_member(",\"thread_id\":"@, opt_view(d.thread_id));
    let m3 = m2 + text_if_any("thread_id"@, d.thread_id);
    reveal_strlit(",\"parent_id\":");
    reveal_strlit("parent_id");
    assert(",\"parent_id\":"@ =~= seq![',', '"'] + "parent_id"@ + seq!['"', ':']);
    lemma_if_any(b3, m3, ",\"parent_id\":"@, "parent_id"@, d.parent_id);
    let b4 = b3 + optional_member(",\"parent_id\":"@, opt_view(d.parent_id));
    let m4 = m3 + text_if_any("parent_id"@, d.parent_id);
    reveal_strlit(",\"origin_event_id\":");
    reveal_strlit("origin_event_id");
    assert(",\"origin_event_id\":"@ =~= seq![',', '"'] + "origin_event_id"@ + seq!['"', ':']);
    lemma_if_any(b4, m4, ",\"origin_event_id\":"@, "origin_event_id"@, d.origin_event_id);
    let b5 = b4 + optional_member(",\"origin_event_id\":"@, opt_view(d.origin_event_id));
    let m5 = m4 + text_if_any("origin_event_id"@, d.origin_event_id);
    assert(m5 =~= destination_members(d));
    assert(destination_json(d) == b5 + "}"@);
}

proof fn lemma_destination_if_any(
    begun: Seq<char>,
    ms: Seq<(Seq<char>, Seq<char>)>,
    d: Option<AutonomousIngressDeliveryDestination>,
)
    requires
        ms.len() > 0,
        begun == seq!['{'] + members(ms),
    ensures
        begun + destination_member(d) == seq!['{'] + members(ms + destination_if_any(d)),
{
    reveal_strlit(",\"delivery_destination\":");
    reveal_strlit("delivery_destination");
    assert(",\"delivery_destination\":"@ =~= seq![',', '"'] + "delivery_destination"@ + seq!['"', ':']);
    match d {
        Some(d) => {
            lemma_destination(d);
            object_grows(
                begun,
                ms,
                ",\"delivery_destination\":"@,
                "delivery_destination"@,
                destination_json(d),
            );
            assert(ms + destination_if_any(Some(d)) =~= ms.push(
                ("delivery_destination"@, destination_json(d)),
            ));
        },
        None => {
            assert(ms + destination_if_any(d) =~= ms);
            assert(begun + Seq::<char>::empty() =~= begun);
        },
    }
}

proof fn lemma_metadata(m: AutonomousIngressMetadata)
    ensures
        metadata_json(m) == object(metadata_members(m)),
{
    reveal_strlit("}");
    assert("}"@ =~= seq!['}']);
    let v1 = json_or_null(opt_view(m.discord_message_id));
    reveal_strlit("{\"discord_message_id\":");
    reveal_strlit("discord_message_id");
    assert("{\"discord_message_id\":"@ =~= seq!['{', '"'] + "discord_message_id"@ + seq!['"', ':']);
    object_begins("{\"discord_message_id\":"@, "discord_message_id"@, v1);
    let b1 = "{\"discord_message_id\":"@ + v1;
    let m1 = seq![("discord_message_id"@, v1)];
    let v2 = json_or_null(opt_view(m.discord_channel_id));
    reveal_strlit(",\"discord_channel_id\":");
    reveal_strlit("discord_channel_id");
    assert(",\"discord_channel_id\":"@ =~= seq![',', '"'] + "discord_channel_id"@ + seq!['"', ':']);
    object_grows(b1, m1, ",\"discord_channel_id\":"@, "discord_channel_id"@, v2);
    let b2 = b1 + ",\"discord_channel_id\":"@ + v2;
    let m2 = m1.push(("discord_channel_id"@, v2));
    let v3 = json_or_null(opt_view(m.discord_thread_id));
    reveal_strlit(",\"discord_thread_id\":");
    reveal_strlit("discord_thread_id");
    assert(",\"discord_thread_id\":"@ =~= seq![',', '"'] + "discord_thread_id"@ + seq!['"', ':']);
    object_grows(b2, m2, ",\"discord_thread_id\":"@, "discord_thread_id"@, v3);
    let b3 = b2 + ",\"discord_thread_id\":"@ + v3;
    let m3 = m2.push(("discord_thread_id"@, v3));
    let v4 = json_or_null(opt_view(m.discord_user_id));
    reveal_strlit(",\"discord_user_id\":");
    reveal_strlit("discord_user_id");
    assert(",\"discord_user_id\":"@ =~= seq![',', '"'] + "discord_user_id"@ + seq!['"', ':']);
    object_grows(b3, m3, ",\"discord_user_id\":"@, "discord_user_id"@, v4);
    let b4 = b3 + ",\"discord_user_id\":"@ + v4;
    let m4 = m3.push(("discord_user_id"@, v4));
    let v5 = json_bool(m.discord_sender_is_bot);
    reveal_strlit(",\"discord_sender_is_bot\":");
    reveal_strlit("discord_sender_is_bot");
    assert(",\"discord_sender_is_bot\":"@ =~= seq![',', '"'] + "discord_sender_is_bot"@ + seq!['"', ':']);
    object_grows(b4, m4, ",\"discord_sender_is_bot\":"@, "discord_sender_is_bot"@, v5);
    let b5 = b4 + ",\"discord_sender_is_bot\":"@ + v5;
    let m5 = m4.push(("discord_sender_is_bot"@, v5));
    lemma_destination_if_any(b5, m5, m.delivery_destination);
    let b6 = b5 + destination_member(m.delivery_destination);
    assert(m5 + destination_if_any(m.delivery_destination) =~= metadata_members(m));
    assert(metadata_json(m) == b6 + "}"@);
}

proof fn lead_project_id()
    ensures
        ",\"project_id\":"@ == seq![',', '"'] + "project_id"@ + seq!['"', ':'],
{
    reveal_strlit(",\"project_id\":");
    reveal_strlit("project_id");
    assert(",\"project_id\":"@ =~= seq![',', '"'] + "project_id"@ + seq!['"', ':']);
}

proof fn lead_transport()
    ensures
        ",\"transport\":"@ == seq![',', '"'] + "transport"@ + seq!['"', ':'],
{
    reveal_strlit(",\"transport\":");
    reveal_strlit("transport");
    assert(",\"transport\":"@ =~= seq![',', '"'] + "transport"@ + seq!['"', ':']);
}

proof fn lead_conversation_key()
    ensures
        ",\"conversation_key\":"@ == seq![',', '"'] + "conversation_key"@ + seq!['"', ':'],
{
    reveal_strlit(",\"conversation_key\":");
    reveal_strlit("conversation_key");
    assert(",\"conversation_key\":"@ =~= seq![',', '"'] + "conversation_key"@ + seq!['"', ':']);
}

proof fn lead_original_human_prompt()
    ensures
        ",\"original_human_prompt\":"@ == seq![',', '"'] + "original_human_prompt"@ + seq!['"', ':'],
{
    reveal_strlit(",\"original_human_prompt\":");
    reveal_strlit("original_human_prompt");
    assert(",\"original_human_prompt\":"@ =~= seq![',', '"'] + "original_human_prompt"@ + seq!['"', ':']);
}

proof fn lead_user_objective()
    ensures
        ",\"user_objective\":"@ == seq![',', '"'] + "user_objective"@ + seq!['"', ':'],
{
    reveal_strlit(",\"user_objective\":");
    reveal_strlit("user_objective");
    assert(",\"user_objective\":"@ =~= seq![',', '"'] + "user_objective"@ + seq!['"', ':']);
}

proof fn lead_title()
    ensures
        ",\"title\":"@ == seq![',', '"'] + "title"@ + seq!['"', ':'],
{
    reveal_strlit(",\"title\":");
    reveal_strlit("title");
    assert(",\"title\":"@ =~= seq![',', '"'] + "title"@ + seq!['"', ':']);
}

proof fn lead_trace_id()
    ensures
        ",\"trace_id\":"@ == seq![',', '"'] + "trace_id"@ + seq!['"', ':'],
{
    reveal_strlit(",\"trace_id\":");
    reveal_strlit("trace_id");
    assert(",\"trace_id\":"@ =~= seq![',', '"'] + "trace_id"@ + seq!['"', ':']);
}

proof fn lead_task_id()
    ensures
        ",\"task_id\":"@ == seq![',', '"'] + "task_id"@ + seq!['"', ':'],
{
    reveal_strlit(",\"task_id\":");
    reveal_strlit("task_id");
    assert(",\"task_id\":"@ =~= seq![',', '"'] + "task_id"@ + seq!['"', ':']);
}

proof fn lead_primary_agent()
    ensures
        ",\"primary_agent\":"@ == seq![',', '"'] + "primary_agent"@ + seq!['"', ':'],
{
    reveal_strlit(",\"primary_agent\":");
    reveal_strlit("primary_agent");
    assert(",\"primary_agent\":"@ =~= seq![',', '"'] + "primary_agent"@ + seq!['"', ':']);
}

proof fn lead_language()
    ensures
        ",\"language\":"@ == seq![',', '"'] + "language"@ + seq!['"', ':'],
{
    reveal_strlit(",\"language\":");
    reveal_strlit("language");
    assert(",\"language\":"@ =~= seq![',', '"'] + "language"@ + seq!['"', ':']);
}

proof fn lead_metadata()
    ensures
        ",\"metadata\":"@ == seq![',', '"'] + "metadata"@ + seq!['"', ':'],
{
    reveal_strlit(",\"metadata\":");
    reveal_strlit("metadata");
    assert(",\"metadata\":"@ =~= seq![',', '"'] + "metadata"@ + seq!['"', ':']);
}

/// What a request starts with.
spec fn request_start(q: AutonomousIngressRequest) -> Seq<char> {
    "{\"protocol\":"@ + json_string(q.protocol@) + ",\"project_id\":"@ + json_string(
        q.project_id@,
    ) + ",\"transport\":"@ + json_string(
        q.transport@,
    ) + ",\"conversation_key\":"@ + json_string(
        q.conversation_key@,
    ) + ",\"original_human_prompt\":"@ + json_string(
        q.original_human_prompt@,
    ) + ",\"user_objective\":"@ + json_string(
        q.user_objective@,
    )
}

spec fn start_members(q: AutonomousIngressRequest) -> Seq<(Seq<char>, Seq<char>)> {
    seq![
        text("protocol"@, q.protocol@),
        text("project_id"@, q.project_id@),
        text("transport"@, q.transport@),
        text("conversation_key"@, q.conversation_key@),
        text("original_human_prompt"@, q.original_human_prompt@),
        text("user_objective"@, q.user_objective@),
    ]
}

proof fn lemma_request_start(q: AutonomousIngressRequest)
    ensures
        request_start(q) == seq!['{'] + members(start_members(q)),
{
    reveal_strlit("{\"protocol\":");
    reveal_strlit("protocol");
    assert("{\"protocol\":"@ =~= seq!['{', '"'] + "protocol"@ + seq!['"', ':']);
    object_begins("{\"protocol\":"@, "protocol"@, json_string(q.protocol@));
    let b1 = "{\"protocol\":"@ + json_string(q.protocol@);
    let m1 = seq![text("protocol"@, q.protocol@)];
    lead_project_id();
    object_grows(b1, m1, ",\"project_id\":"@, "project_id"@, json_string(q.project_id@));
    let b2 = b1 + ",\"project_id\":"@ + json_string(q.project_id@);
    let m2 = m1.push(("project_id"@, json_string(q.project_id@)));
    lead_transport();
    object_grows(b2, m2, ",\"transport\":"@, "transport"@, json_string(q.transport@));
    let b3 = b2 + ",\"transport\":"@ + json_string(q.transport@);
    let m3 = m2.push(("transport"@, json_string(q.transport@)));
    lead_conversation_key();
    object_grows(b3, m3, ",\"conversation_key\":"@, "conversation_key"@, json_string(q.conversation_key@));
    let b4 = b3 + ",\"conversation_key\":"@ + json_string(q.conversation_key@);
    let m4 = m3.push(("conversation_key"@, json_string(q.conversation_key@)));
    lead_original_human_prompt();
    object_grows(b4, m4, ",\"original_human_prompt\":"@, "original_human_prompt"@, json_string(q.original_human_prompt@));
    let b5 = b4 + ",\"original_human_prompt\":"@ + json_string(q.original_human_prompt@);
    let m5 = m4.push(("original_human_prompt"@, json_string(q.original_human_prompt@)));
    lead_user_objective();
    object_grows(b5, m5, ",\"user_objective\":"@, "user_objective"@, json_string(q.user_objective@));
    let b6 = b5 + ",\"user_objective\":"@ + json_string(q.user_objective@);
    let m6 = m5.push(("user_objective"@, json_string(q.user_objective@)));
    assert(m6 =~= start_members(q));
    assert(b6 == request_start(q));
}

/// What a request starts with, up to its language.
spec fn request_middle(q: AutonomousIngressRequest) -> Seq<char> {
    request_start(q) + optional_member(",\"title\":"@, opt_view(q.title)) + ",\"trace_id\":"@
        + json_string(q.trace_id@) + ",\"task_id\":"@ + json_or_null(opt_view(q.task_id))
        + ",\"primary_agent\":"@ + json_string(q.primary_agent@) + optional_member(
        ",\"language\":"@,
        opt_view(q.language),
    )
}

spec fn middle_members(q: AutonomousIngressRequest) -> Seq<(Seq<char>, Seq<char>)> {
    start_members(q) + text_if_any("title"@, q.title) + seq![
        text("trace_id"@, q.trace_id@),
        text_or_null("task_id"@, q.task_id),
        text("primary_agent"@, q.primary_agent@),
    ] + text_if_any("language"@, q.language)
}

proof fn lemma_request_middle(q: AutonomousIngressRequest)
    ensures
        request_middle(q) == seq!['{'] + members(middle_members(q)),
        middle_members(q).len() > 0,
{
    lemma_request_start(q);
    let b6 = request_start(q);
    let m6 = start_members(q);
    lead_title();
    lemma_if_any(b6, m6, ",\"title\":"@, "title"@, q.title);
    let b7 = b6 + optional_member(",\"title\":"@, opt_view(q.title));
    let m7 = m6 + text_if_any("title"@, q.title);
    lead_trace_id();
    object_grows(b7, m7, ",\"trace_id\":"@, "trace_id"@, json_string(q.trace_id@));
    let b8 = b7 + ",\"trace_id\":"@ + json_string(q.trace_id@);
    let m8 = m7.push(("trace_id"@, json_string(q.trace_id@)));
    lead_task_id();
    object_grows(b8, m8, ",\"task_id\":"@, "task_id"@, json_or_null(opt_view(q.task_id)));
    let b9 = b8 + ",\"task_id\":"@ + json_or_null(opt_view(q.task_id));
    let m9 = m8.push(("task_id"@, json_or_null(opt_view(q.task_id))));
    lead_primary_agent();
    object_grows(b9, m9, ",\"primary_agent\":"@, "primary_agent"@, json_string(q.primary_agent@));
    let b10 = b9 + ",\"primary_agent\":"@ + json_string(q.primary_agent@);
    let m10 = m9.push(("primary_agent"@, json_string(q.primary_agent@)));
    lead_language();
    lemma_if_any(b10, m10, ",\"language\":"@, "language"@, q.language);
    let b11 = b10 + optional_member(",\"language\":"@, opt_view(q.language));
    let m11 = m10 + text_if_any("language"@, q.language);
    assert(m11 =~= middle_members(q));
    assert(b11 == request_middle(q));
}

/// A request is sent as one JSON object that holds each of its parts under its own
/// name. A title, a language or a destination that it has not is left out; a task
/// or an origin that it has not is `null`.
pub proof fn requests_hold_each_part_under_its_name(q: AutonomousIngressRequest, r: String)
    requires
        call_ensures(encode_request, (&q,), r),
    ensures
        r@ == object(request_members(q)),
{
    reveal_strlit("}");
    assert("}"@ =~= seq!['}']);
    lemma_request_middle(q);
    let b11 = request_middle(q);
    let m11 = middle_members(q);
    lemma_metadata(q.metadata);
    lead_metadata();
    object_grows(b11, m11, ",\"metadata\":"@, "metadata"@, metadata_json(q.metadata));
    let b12 = b11 + ",\"metadata\":"@ + metadata_json(q.metadata);
    let m12 = m11.push(("metadata"@, metadata_json(q.metadata)));
    lemma_destination_if_any(b12, m12, q.delivery_destination);
    let b13 = b12 + destination_member(q.delivery_destination);
    assert(m12 + destination_if_any(q.delivery_destination) =~= request_members(q));
    assert(request_json(q) == b13 + "}"@);
}

/// What is there by default names nothing.
pub proof fn the_defaults_name_nothing(
    d: AutonomousIngressDeliveryDestination,
    m: AutonomousIngressMetadata,
)
    requires
        call_ensures(<AutonomousIngressDeliveryDestination as Default>::default, (), d),
        call_ensures(<AutonomousIngressMetadata as Default>::default, (), m),
    ensures
        d.platform@.len() == 0 && d.channel_id@.len() == 0,
        d.thread_id is None && d.parent_id is None && d.origin_event_id is None,
        m.discord_message_id is None && m.discord_channel_id is None,
        m.discord_thread_id is None && m.discord_user_id is None,
        !m.discord_sender_is_bot && m.delivery_destination is None,
{
}

} // verus!
