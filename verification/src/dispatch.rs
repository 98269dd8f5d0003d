//! What arrives with a message.

use vstd::prelude::*;

verus! {

/// A text file that was attached to a message.
#[derive(Debug, Clone, PartialEq, Eq)]
pub struct TextAttachment {
    pub filename: String,
    pub body: String,
}

/// An attachment, over texts.
pub struct AttachmentText {
    pub filename: Seq<char>,
    pub body: Seq<char>,
}

impl View for TextAttachment {
    type V = AttachmentText;

    open spec fn view(&self) -> AttachmentText {
        AttachmentText { filename: self.filename@, body: self.body@ }
    }
}

pub open spec fn attachment_views(s: Seq<TextAttachment>) -> Seq<AttachmentText> {
    s.map_values(|a: TextAttachment| a@)
}

} // verus!
