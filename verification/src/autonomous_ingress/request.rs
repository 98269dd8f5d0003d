//! The request to the runtime, and its JSON.

use vstd::prelude::*;
use vstd::string::*;

use crate::json::{append_string, json_string, json_string_text};
use crate::text::{joined, opt_view};

verus! {

/// Where an answer is to be delivered.
#[derive(Debug, Clone, PartialEq, Eq)]
pub struct AutonomousIngressDeliveryDestination {
    pub platform: String,
    pub channel_id: String,
    pub thread_id: Option<String>,
    pub parent_id: Option<String>,
    pub origin_event_id: Option<String>,
}

/// Where a turn came from. None of this carries authority.
#[derive(Debug, Clone, PartialEq, Eq)]
pub struct AutonomousIngressMetadata {
    pub discord_message_id: Option<String>,
    pub discord_channel_id: Option<String>,
    pub discord_thread_id: Option<String>,
    pub discord_user_id: Option<String>,
    pub discord_sender_is_bot: bool,
    pub delivery_destination: Option<AutonomousIngressDeliveryDestination>,
}

/// A human turn that is handed over.
#[derive(Debug, Clone, PartialEq, Eq)]
pub struct AutonomousIngressRequest {
    pub protocol: &'static str,
    pub project_id: String,
    pub transport: &'static str,
    pub conversation_key: String,
    /// The human's own text.
    pub original_human_prompt: String,
    pub user_objective: String,
    /// The declared title; left out where there is none.
    pub title: Option<String>,
    pub trace_id: String,
    pub task_id: Option<String>,
    pub primary_agent: String,
    /// Left out where the runtime is to find the language.
    pub language: Option<String>,
    pub metadata: AutonomousIngressMetadata,
    /// Left out where the runtime's own destination applies.
    pub delivery_destination: Option<AutonomousIngressDeliveryDestination>,
}

impl Default for AutonomousIngressDeliveryDestination {
    fn default() -> (r: AutonomousIngressDeliveryDestination)
        ensures
            r.platform@ == Seq::<char>::empty(),
            r.channel_id@ == Seq::<char>::empty(),
            r.thread_id is None && r.parent_id is None && r.origin_event_id is None,
    {
        AutonomousIngressDeliveryDestination {
            platform: String::new(),
            channel_id: String::new(),
            thread_id: None,
            parent_id: None,
            origin_event_id: None,
        }
    }
}

impl Default for AutonomousIngressMetadata {
    fn default() -> (r: AutonomousIngressMetadata)
        ensures
            r.discord_message_id is None && r.discord_channel_id is None,
            r.discord_thread_id is None && r.discord_user_id is None,
            !r.discord_sender_is_bot && r.delivery_destination is None,
    {
        AutonomousIngressMetadata {
            discord_message_id: None,
            discord_channel_id: None,
            discord_thread_id: None,
            discord_user_id: None,
            discord_sender_is_bot: false,
            delivery_destination: None,
        }
    }
}

/// An optional text in JSON, `null` where there is none.
pub open spec fn json_or_null(o: Option<Seq<char>>) -> Seq<char> {
    match o {
        Some(s) => json_string(s),
        None => "null"@,
    }
}

/// A member of an object that is left out where it has no value.
pub open spec fn optional_member(name: Seq<char>, o: Option<Seq<char>>) -> Seq<char> {
    match o {
        Some(s) => name + json_string(s),
        None => Seq::empty(),
    }
}

pub open spec fn json_bool(b: bool) -> Seq<char> {
    if b {
        "true"@
    } else {
        "false"@
    }
}

pub open spec fn destination_json(d: AutonomousIngressDeliveryDestination) -> Seq<char> {
    "{\"platform\":"@ + json_string(d.platform@) + ",\"channel_id\":"@ + json_string(d.channel_id@)
        + optional_member(",\"thread_id\":"@, opt_view(d.thread_id)) + optional_member(
        ",\"parent_id\":"@,
        opt_view(d.parent_id),
    ) + optional_member(",\"origin_event_id\":"@, opt_view(d.origin_event_id)) + "}"@
}

/// The destination as a member that is left out where there is none.
pub open spec fn destination_member(d: Option<AutonomousIngressDeliveryDestination>) -> Seq<char> {
    match d {
        Some(d) => ",\"delivery_destination\":"@ + destination_json(d),
        None => Seq::empty(),
    }
}

pub open spec fn metadata_json(m: AutonomousIngressMetadata) -> Seq<char> {
    "{\"discord_message_id\":"@ + json_or_null(opt_view(m.discord_message_id))
        + ",\"discord_channel_id\":"@ + json_or_null(opt_view(m.discord_channel_id))
        + ",\"discord_thread_id\":"@ + json_or_null(opt_view(m.discord_thread_id))
        + ",\"discord_user_id\":"@ + json_or_null(opt_view(m.discord_user_id))
        + ",\"discord_sender_is_bot\":"@ + json_bool(m.discord_sender_is_bot) + destination_member(
        m.delivery_destination,
    ) + "}"@
}

/// The JSON of a request, its members in the order of the fields.
pub open spec fn request_json(r: AutonomousIngressRequest) -> Seq<char> {
    "{\"protocol\":"@ + json_string(r.protocol@) + ",\"project_id\":"@ + json_string(r.project_id@)
        + ",\"transport\":"@ + json_string(r.transport@) + ",\"conversation_key\":"@ + json_string(
        r.conversation_key@,
    ) + ",\"original_human_prompt\":"@ + json_string(r.original_human_prompt@)
        + ",\"user_objective\":"@ + json_string(r.user_objective@) + optional_member(
        ",\"title\":"@,
        opt_view(r.title),
    ) + ",\"trace_id\":"@ + json_string(r.trace_id@) + ",\"task_id\":"@ + json_or_null(
        opt_view(r.task_id),
    ) + ",\"primary_agent\":"@ + json_string(r.primary_agent@) + optional_member(
        ",\"language\":"@,
        opt_view(r.language),
    ) + ",\"metadata\":"@ + metadata_json(r.metadata) + destination_member(r.delivery_destination)
        + "}"@
}

fn append_or_null(out: &mut String, name: &str, value: &Option<String>)
    ensures
        final(out)@ == old(out)@ + name@ + json_or_null(opt_view(*value)),
{
    out.append(name);
    match value {
        Some(s) => out.append(json_string_text(s.as_str()).as_str()),
        None => out.append("null"),
    }
}

fn append_optional(out: &mut String, name: &str, value: &Option<String>)
    ensures
        final(out)@ == old(out)@ + optional_member(name@, opt_view(*value)),
{
    match value {
        Some(s) => {
            let member = joined(name, json_string_text(s.as_str()).as_str());
            out.append(member.as_str());
        },
        None => {
            assert(out@ =~= out@ + Seq::<char>::empty());
        },
    }
}

fn destination_text(d: &AutonomousIngressDeliveryDestination) -> (r: String)
    ensures
        r@ == destination_json(*d),
{
    let mut out = joined("{\"platform\":", json_string_text(d.platform.as_str()).as_str());
    append_string(&mut out, ",\"channel_id\":", d.channel_id.as_str());
    append_optional(&mut out, ",\"thread_id\":", &d.thread_id);
    append_optional(&mut out, ",\"parent_id\":", &d.parent_id);
    append_optional(&mut out, ",\"origin_event_id\":", &d.origin_event_id);
    out.append("}");
    out
}

fn append_destination(out: &mut String, d: &Option<AutonomousIngressDeliveryDestination>)
    ensures
        final(out)@ == old(out)@ + destination_member(*d),
{
    match d {
        Some(d) => {
            let member = joined(",\"delivery_destination\":", destination_text(d).as_str());
            out.append(member.as_str());
        },
        None => {
            assert(out@ =~= out@ + Seq::<char>::empty());
        },
    }
}

fn metadata_text(m: &AutonomousIngressMetadata) -> (r: String)
    ensures
        r@ == metadata_json(*m),
{
    let mut out = String::new();
    append_or_null(&mut out, "{\"discord_message_id\":", &m.discord_message_id);
    assert(out@ =~= "{\"discord_message_id\":"@ + json_or_null(opt_view(m.discord_message_id)));
    append_or_null(&mut out, ",\"discord_channel_id\":", &m.discord_channel_id);
    append_or_null(&mut out, ",\"discord_thread_id\":", &m.discord_thread_id);
    append_or_null(&mut out, ",\"discord_user_id\":", &m.discord_user_id);
    out.append(",\"discord_sender_is_bot\":");
    if m.discord_sender_is_bot {
        out.append("true");
    } else {
        out.append("false");
    }
    append_destination(&mut out, &m.delivery_destination);
    out.append("}");
    out
}

/// The JSON of a request. A title, a language or a destination that is not there
/// is left out; a missing task id is `null`.
pub fn encode_request(request: &AutonomousIngressRequest) -> (r: String)
    ensures
        r@ == request_json(*request),
{
    let mut out = joined("{\"protocol\":", json_string_text(request.protocol).as_str());
    append_string(&mut out, ",\"project_id\":", request.project_id.as_str());
    append_string(&mut out, ",\"transport\":", request.transport);
    append_string(&mut out, ",\"conversation_key\":", request.conversation_key.as_str());
    append_string(
        &mut out,
        ",\"original_human_prompt\":",
        request.original_human_prompt.as_str(),
    );
    append_string(&mut out, ",\"user_objective\":", request.user_objective.as_str());
    append_optional(&mut out, ",\"title\":", &request.title);
    append_string(&mut out, ",\"trace_id\":", request.trace_id.as_str());
    append_or_null(&mut out, ",\"task_id\":", &request.task_id);
    append_string(&mut out, ",\"primary_agent\":", request.primary_agent.as_str());
    append_optional(&mut out, ",\"language\":", &request.language);
    out.append(",\"metadata\":");
    out.append(metadata_text(&request.metadata).as_str());
    append_destination(&mut out, &request.delivery_destination);
    out.append("}");
    out
}

} // verus!
