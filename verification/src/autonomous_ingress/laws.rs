//! What holds of every human turn.

use vstd::prelude::*;

use crate::config::AutonomousIngressConfig;
use crate::dispatch::AttachmentText;
use crate::text::{char_at, is_space, lemma_char_at_is, trim, trim_start, without_cr};
use crate::text_laws::{one_line, stacked, trimmed_is_fixed, trimmed_is_part};

use super::objective::{
    all_space, canonical_title, declared_title, objective, prompt_authority, CANONICAL_TITLE_HEADER,
    DISCORD_PASTE_FILENAME,
};
use super::outcome::{projected, ResponseText};
use super::routing::{routes, without_end_slashes};

verus! {

/// A title is never empty, and has no white space at an end.
pub proof fn titles_are_filled(prompt: Seq<char>)
    ensures
        canonical_title(prompt) is Some ==> canonical_title(prompt)->0.len() > 0 && trim(
            canonical_title(prompt)->0,
        ) == canonical_title(prompt)->0,
    decreases prompt.len(),
{
    let end = char_at(prompt, '\n') as int;
    let line = without_cr(prompt.take(end));
    if !all_space(line) {
        let rest = line.skip(CANONICAL_TITLE_HEADER@.len() as int);
        trimmed_is_part(rest);
        trimmed_is_fixed(trim(rest));
    } else if end < prompt.len() {
        titles_are_filled(prompt.skip(end + 1));
    }
}

/// Blank lines before a prompt change nothing in its title.
pub proof fn leading_blank_lines_are_ignored(blank: Seq<char>, prompt: Seq<char>)
    requires
        one_line(blank),
        all_space(blank),
    ensures
        canonical_title(stacked(blank, prompt)) == canonical_title(prompt),
{
    let s = stacked(blank, prompt);
    lemma_char_at_is(s, '\n', blank.len() as int);
    assert(s.take(blank.len() as int) =~= blank);
    let line = without_cr(blank);
    assert(all_space(line)) by {
        assert forall|i: int| 0 <= i < line.len() implies is_space(#[trigger] line[i]) by {
            assert(line[i] == blank[i]);
        }
    }
    assert(s.skip(blank.len() as int + 1) =~= prompt);
}

/// What follows the first line of a prompt that is not blank has no part in its
/// title.
pub proof fn only_the_first_line_declares(line: Seq<char>, rest: Seq<char>)
    requires
        one_line(line),
        !all_space(without_cr(line)),
    ensures
        canonical_title(stacked(line, rest)) == declared_title(without_cr(line)),
{
    let s = stacked(line, rest);
    lemma_char_at_is(s, '\n', line.len() as int);
    assert(s.take(line.len() as int) =~= line);
}

/// The line that declares a title.
pub open spec fn title_line(value: Seq<char>) -> Seq<char> {
    CANONICAL_TITLE_HEADER@ + " "@ + value
}

proof fn lemma_header()
    ensures
        CANONICAL_TITLE_HEADER@.len() == 16,
        CANONICAL_TITLE_HEADER@[0] == 'C',
        one_line(CANONICAL_TITLE_HEADER@),
        " "@ == seq![' '],
{
    reveal_strlit("Canonical title:");
    reveal_strlit(" ");
    assert(" "@ =~= seq![' ']);
}

proof fn lemma_title_line(value: Seq<char>)
    requires
        one_line(value),
        value.len() > 0,
        !is_space(value.last()),
    ensures
        one_line(title_line(value)),
        without_cr(title_line(value)) == title_line(value),
        !all_space(title_line(value)),
{
    lemma_header();
    let line = title_line(value);
    let h = CANONICAL_TITLE_HEADER@;
    assert forall|i: int| 0 <= i < line.len() implies line[i] != '\n' by {
        if i < 16 {
            assert(line[i] == h[i]);
        } else if i > 16 {
            assert(line[i] == value[i - 17]);
        }
    }
    assert(line.last() == value.last());
    assert(line[0] == 'C');
    assert(!is_space(line[0]));
}

proof fn lemma_title_value(value: Seq<char>)
    requires
        value.len() > 0,
        trim(value) == value,
    ensures
        declared_title(title_line(value)) == Some(value),
{
    lemma_header();
    let line = title_line(value);
    let h = CANONICAL_TITLE_HEADER@;
    assert(line.subrange(0, 16) =~= h);
    let tail = line.skip(16);
    assert(tail[0] == ' ');
    assert(tail.skip(1) =~= value);
    assert(trim_start(tail) == trim_start(value));
    assert(trim(tail) == value);
}

/// A prompt that opens with the header and a filled value has that value as its
/// title.
pub proof fn declared_title_is_extracted(value: Seq<char>, rest: Seq<char>)
    requires
        one_line(value),
        trim(value) == value,
        value.len() > 0,
    ensures
        canonical_title(stacked(title_line(value), rest)) == Some(value),
{
    assert(!is_space(value.last())) by {
        trimmed_is_part(value);
    }
    lemma_title_line(value);
    lemma_title_value(value);
    only_the_first_line_declares(title_line(value), rest);
}

/// An objective starts with the prompt as it was written, and is just that where
/// nothing is attached.
pub proof fn objective_starts_with_the_prompt(prompt: Seq<char>, attachments: Seq<AttachmentText>)
    ensures
        prompt.is_prefix_of(objective(prompt, attachments)),
        attachments.len() == 0 ==> objective(prompt, attachments) == prompt,
    decreases attachments.len(),
{
    if attachments.len() > 0 {
        objective_starts_with_the_prompt(prompt, attachments.drop_last());
    }
}

/// The text that counts as the human's own is the visible prompt wherever there is
/// one; a bot without one has none; and an attachment can stand in for it only as
/// the single file of a human's paste.
pub proof fn authority_is_the_humans(
    prompt: Seq<char>,
    sender_is_bot: bool,
    attachments: Seq<AttachmentText>,
)
    ensures
        prompt.len() > 0 ==> prompt_authority(prompt, sender_is_bot, attachments) == prompt,
        prompt.len() == 0 && sender_is_bot ==> prompt_authority(prompt, sender_is_bot, attachments)
            == Seq::<char>::empty(),
        prompt.len() == 0 && prompt_authority(prompt, sender_is_bot, attachments).len() > 0 ==> {
            &&& !sender_is_bot
            &&& attachments.len() == 1
            &&& attachments[0].filename == DISCORD_PASTE_FILENAME@
            &&& prompt_authority(prompt, sender_is_bot, attachments) == attachments[0].body
        },
{
}

/// Nothing is handed over without a configuration, nor by an agent that it does not
/// declare, whoever sent it; and where everyone is authorised, the sender makes no
/// difference.
pub proof fn routing_is_by_contract(
    config: Option<&AutonomousIngressConfig>,
    agent: Seq<char>,
    authorized: bool,
)
    ensures
        config is None ==> !routes(config, agent, authorized),
        config is Some && !config->0.declares(agent) ==> !routes(config, agent, authorized),
        config is Some && config->0.aap_universal_humans ==> routes(config, agent, true) == routes(
            config,
            agent,
            false,
        ),
        config is Some && !config->0.aap_universal_humans ==> !routes(config, agent, false),
{
}

/// Every answer settles the turn: it is accepted exactly where the runtime says so,
/// and refused otherwise. None leaves the turn to an ordinary session.
pub proof fn answers_are_final(r: ResponseText, fallback: Seq<char>)
    ensures
        projected(r, fallback) is Accepted <==> r.disposition == "ACCEPTED"@,
        projected(r, fallback) is Rejected <==> r.disposition != "ACCEPTED"@,
        r.disposition != "ACCEPTED"@ && r.disposition != "REJECTED"@ ==> !projected(
            r,
            fallback,
        )->Rejected_retryable,
{
}

/// A base URL has no slash at its end, so that the endpoint has one slash where the
/// path starts.
pub proof fn base_url_ends_without_slash(url: Seq<char>)
    ensures
        without_end_slashes(url).len() > 0 ==> without_end_slashes(url).last() != '/',
        without_end_slashes(url).is_prefix_of(url),
    decreases url.len(),
{
    if url.len() > 0 && url.last() == '/' {
        base_url_ends_without_slash(url.drop_last());
    }
}

} // verus!
