//! What a human turn asks for: its title, its objective, and the text that counts
//! as the human's own.

use vstd::prelude::*;
use vstd::string::*;

use crate::dispatch::{attachment_views, AttachmentText, TextAttachment};
use crate::text::{
    behind, char_at, chars_of, find_char, is_space, is_whitespace, opt_view, same_text, strip_prefix, trim,
    trim_text, without_cr,
};

verus! {

/// What opens the line that declares a title.
pub const CANONICAL_TITLE_HEADER: &'static str = "Canonical title:";

/// The name of the file into which a long paste is turned.
pub const DISCORD_PASTE_FILENAME: &'static str = "message.txt";

pub open spec fn all_space(s: Seq<char>) -> bool {
    forall|i: int| 0 <= i < s.len() ==> is_space(#[trigger] s[i])
}

/// The title that one line declares: what follows the header, trimmed, unless that
/// is nothing.
pub open spec fn declared_title(line: Seq<char>) -> Option<Seq<char>> {
    match behind(line, CANONICAL_TITLE_HEADER@) {
        Some(rest) => if trim(rest).len() == 0 {
            None
        } else {
            Some(trim(rest))
        },
        None => None,
    }
}

/// The title of a prompt: the one that its first line that is not blank declares.
pub open spec fn canonical_title(prompt: Seq<char>) -> Option<Seq<char>>
    decreases prompt.len(),
{
    let end = char_at(prompt, '\n') as int;
    let line = without_cr(prompt.take(end));
    if !all_space(line) {
        declared_title(line)
    } else if end < prompt.len() {
        canonical_title(prompt.skip(end + 1))
    } else {
        None
    }
}

/// The objective: the prompt, and then each attachment under its name.
pub open spec fn objective(prompt: Seq<char>, attachments: Seq<AttachmentText>) -> Seq<char>
    decreases attachments.len(),
{
    if attachments.len() == 0 {
        prompt
    } else {
        objective(prompt, attachments.drop_last()) + "\n\n[Attached text file: "@
            + attachments.last().filename + "]\n"@ + attachments.last().body
    }
}

/// The text that counts as the human's own: the visible prompt; or, for a human
/// who sent none, a paste that was turned into the only attachment.
pub open spec fn prompt_authority(
    prompt: Seq<char>,
    sender_is_bot: bool,
    attachments: Seq<AttachmentText>,
) -> Seq<char> {
    if prompt.len() > 0 {
        prompt
    } else if !sender_is_bot && attachments.len() == 1 && attachments[0].filename
        == DISCORD_PASTE_FILENAME@ {
        attachments[0].body
    } else {
        Seq::empty()
    }
}

fn is_all_space(s: &str) -> (r: bool)
    ensures
        r == all_space(s@),
{
    let chars = chars_of(s);
    let mut i: usize = 0;
    while i < chars.len()
        invariant
            chars@ == s@,
            i <= chars.len(),
            forall|k: int| 0 <= k < i ==> is_space(#[trigger] s@[k]),
        decreases chars.len() - i,
    {
        if !is_whitespace(chars[i]) {
            assert(!is_space(s@[i as int]));
            return false;
        }
        i += 1;
    }
    true
}

fn title_of_line(line: &str) -> (r: Option<String>)
    ensures
        opt_view(r) == declared_title(line@),
{
    match strip_prefix(line, CANONICAL_TITLE_HEADER) {
        Some(rest) => {
            let title = trim_text(rest.as_str());
            if title.as_str().is_empty() {
                None
            } else {
                Some(title)
            }
        },
        None => None,
    }
}

/// The title that a prompt declares in its first line that is not blank. No other
/// shape of prompt has a title.
pub fn extract_canonical_title(prompt: &str) -> (r: Option<String>)
    ensures
        opt_view(r) == canonical_title(prompt@),
{
    let chars = chars_of(prompt);
    let mut start: usize = 0;
    assert(prompt@.skip(0) =~= prompt@);
    loop
        invariant
            chars@ == prompt@,
            start <= chars.len(),
            canonical_title(prompt@.skip(start as int)) == canonical_title(prompt@),
        decreases chars.len() - start,
    {
        let ghost rest = prompt@.skip(start as int);
        let end: usize = find_char(&chars, start, '\n');
        let stop: usize = if end > start && chars[end - 1] == '\r' {
            end - 1
        } else {
            end
        };
        let line = prompt.substring_char(start, stop);
        proof {
            assert(rest.take(end - start) =~= prompt@.subrange(start as int, end as int));
            assert(line@ =~= without_cr(rest.take(end - start)));
        }
        if !is_all_space(line) {
            return title_of_line(line);
        }
        if end >= chars.len() {
            return None;
        }
        assert(rest.skip(end - start + 1) =~= prompt@.skip(end + 1));
        start = end + 1;
    }
}

/// The objective of a turn: the prompt as it is, and then the text attachments in
/// the order of their arrival.
pub fn assemble_user_objective(prompt: &str, text_attachments: &[TextAttachment]) -> (r: String)
    ensures
        r@ == objective(prompt@, attachment_views(text_attachments@)),
{
    let mut out = prompt.to_owned();
    let mut i: usize = 0;
    let ghost all = attachment_views(text_attachments@);
    assert(all.take(0) =~= Seq::<AttachmentText>::empty());
    while i < text_attachments.len()
        invariant
            all == attachment_views(text_attachments@),
            i <= text_attachments.len(),
            out@ == objective(prompt@, all.take(i as int)),
        decreases text_attachments.len() - i,
    {
        assert(all.take(i + 1).drop_last() =~= all.take(i as int));
        assert(all.take(i + 1).last() == text_attachments[i as int]@);
        out.append("\n\n[Attached text file: ");
        out.append(text_attachments[i].filename.as_str());
        out.append("]\n");
        out.append(text_attachments[i].body.as_str());
        i += 1;
    }
    assert(all.take(all.len() as int) =~= all);
    out
}

/// The text that counts as the human's own. A bot's attachment never does.
pub fn resolve_current_human_prompt_authority(
    prompt: &str,
    sender_is_bot: bool,
    text_attachments: &[TextAttachment],
) -> (r: String)
    ensures
        r@ == prompt_authority(prompt@, sender_is_bot, attachment_views(text_attachments@)),
{
    if !prompt.is_empty() {
        return prompt.to_owned();
    }
    if sender_is_bot {
        return String::new();
    }
    if text_attachments.len() != 1 {
        return String::new();
    }
    assert(attachment_views(text_attachments@)[0] == text_attachments[0]@);
    if !same_text(text_attachments[0].filename.as_str(), DISCORD_PASTE_FILENAME) {
        return String::new();
    }
    text_attachments[0].body.clone()
}

} // verus!
