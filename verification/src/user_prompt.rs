//! A user's submission: text plus optional images.

use vstd::prelude::*;
use crate::events::EventPayload;
use crate::llm::{LlmContent, LlmMessage, LlmRole};
use crate::text::{decimal, is_blank, is_blank_str, join, join_strings, push_str, to_string, trim, trim_string, usize_to_decimal, views};

verus! {

/// An image attached to a user prompt.
#[derive(Debug, Clone, PartialEq, Eq)]
pub struct UserImagePart {
    pub filename: String,
    pub media_type: String,
    pub base64: String,
}

/// One complete user submission.
#[derive(Debug, Clone, PartialEq, Eq)]
pub struct UserPromptParts {
    pub text: String,
    pub images: Vec<UserImagePart>,
}

impl UserImagePart {
    /// A field-by-field copy.
    pub fn duplicate(&self) -> (r: Self)
        ensures
            r == *self,
    {
        UserImagePart {
            filename: self.filename.clone(),
            media_type: self.media_type.clone(),
            base64: self.base64.clone(),
        }
    }
}

/// A copy of a list of images.
pub fn duplicate_images(images: &Vec<UserImagePart>) -> (r: Vec<UserImagePart>)
    ensures
        r@ == images@,
{
    let mut r: Vec<UserImagePart> = Vec::new();
    let mut i: usize = 0;
    while i < images.len()
        invariant
            0 <= i <= images.len(),
            r@ == images@.take(i as int),
        decreases images.len() - i,
    {
        r.push(images[i].duplicate());
        proof {
            assert(images@.take(i + 1) =~= images@.take(i as int).push(images@[i as int]));
        }
        i = i + 1;
    }
    proof {
        assert(images@.take(i as int) =~= images@);
    }
    r
}

/// `[Image {index}]`, or `[Image {index}: {filename}]` when the file name is
/// not blank.
pub open spec fn image_label_spec(index: nat, filename: Seq<char>) -> Seq<char> {
    if is_blank(filename) {
        "[Image "@ + decimal(index) + "]"@
    } else {
        "[Image "@ + decimal(index) + ": "@ + filename + "]"@
    }
}

/// Display label of the `index`-th (1-based) attached image.
pub fn image_label(index: usize, filename: &str) -> (r: String)
    ensures
        r@ == image_label_spec(index as nat, filename@),
{
    let mut r = to_string("[Image ");
    let n = usize_to_decimal(index);
    push_str(&mut r, n.as_str());
    if is_blank_str(filename) {
        push_str(&mut r, "]");
    } else {
        push_str(&mut r, ": ");
        push_str(&mut r, filename);
        push_str(&mut r, "]");
    }
    r
}

/// The lines of a prompt's display text: the trimmed text (when not blank)
/// followed by one label per image.
pub open spec fn display_parts(text: Seq<char>, images: Seq<UserImagePart>) -> Seq<Seq<char>> {
    (if is_blank(text) { seq![] } else { seq![trim(text)] }) + Seq::new(
        images.len(),
        |i: int| image_label_spec((i + 1) as nat, images[i].filename@),
    )
}

/// The content blocks sent to the model: the text (when not blank), then
/// each image.
pub open spec fn content_is_prompt(content: Seq<LlmContent>, text: Seq<char>, images: Seq<UserImagePart>) -> bool {
    let k: int = if is_blank(text) { 0 } else { 1 };
    &&& content.len() == k + images.len()
    &&& !is_blank(text) ==> (content[0] matches LlmContent::Text { text: t } && t@ == text)
    &&& forall|i: int| 0 <= i < images.len() ==> (#[trigger] content[k + i] matches LlmContent::Image { base64: b, media_type: m } && b@ == images[i].base64@ && m@ == images[i].media_type@)
}

impl UserPromptParts {
    /// A prompt with only text.
    pub fn text_only(text: String) -> (r: Self)
        ensures
            r.text == text,
            r.images@.len() == 0,
    {
        UserPromptParts { text, images: Vec::new() }
    }

    /// True when there is something to send: non-blank text or an image.
    pub open spec fn submittable(&self) -> bool {
        !is_blank(self.text@) || self.images@.len() > 0
    }

    /// Whether the prompt has non-blank text or at least one image.
    pub fn is_submittable(&self) -> (r: bool)
        ensures
            r == self.submittable(),
    {
        !is_blank_str(self.text.as_str()) || self.images.len() > 0
    }

    /// The user message the model sees; an empty prompt becomes a user
    /// message with empty text.
    pub fn to_llm_message(&self) -> (r: LlmMessage)
        ensures
            self.submittable() ==> r.role == LlmRole::User && r.name is None
                && r.reasoning_content is None && content_is_prompt(
                r.content@,
                self.text@,
                self.images@,
            ),
            !self.submittable() ==> r.is_text_message(LlmRole::User, Seq::empty()),
    {
        let mut content: Vec<LlmContent> = Vec::new();
        let blank = is_blank_str(self.text.as_str());
        if !blank {
            content.push(LlmContent::Text { text: self.text.clone() });
        }
        let k: usize = if blank { 0 } else { 1 };
        let mut i: usize = 0;
        while i < self.images.len()
            invariant
                0 <= i <= self.images.len(),
                k == (if is_blank(self.text@) { 0int } else { 1int }),
                content@.len() == k + i,
                !is_blank(self.text@) ==> (content@[0] matches LlmContent::Text { text: t } && t@
                    == self.text@),
                forall|j: int| 0 <= j < i ==> (#[trigger] content@[k + j] matches LlmContent::Image {
                    base64: b,
                    media_type: m,
                } && b@ == self.images@[j].base64@ && m@ == self.images@[j].media_type@),
            decreases self.images.len() - i,
        {
            let image = &self.images[i];
            content.push(
                LlmContent::Image { base64: image.base64.clone(), media_type: image.media_type.clone() },
            );
            i = i + 1;
        }
        if content.len() == 0 {
            proof {
                reveal_strlit("");
                assert(""@ =~= Seq::<char>::empty());
            }
            return LlmMessage::user("");
        }
        LlmMessage { role: LlmRole::User, content, name: None, reasoning_content: None }
    }

    /// Lossy text shown in titles, the TUI and lifecycle hooks: the trimmed
    /// text and one `[Image n: name]` label per image, one per line.
    pub fn display_text(&self) -> (r: String)
        ensures
            r@ == join(display_parts(self.text@, self.images@), "\n"@),
    {
        let mut parts: Vec<String> = Vec::new();
        let blank = is_blank_str(self.text.as_str());
        if !blank {
            parts.push(trim_string(self.text.as_str()));
        }
        let ghost head: Seq<Seq<char>> = if is_blank(self.text@) { seq![] } else { seq![trim(self.text@)] };
        let mut i: usize = 0;
        while i < self.images.len()
            invariant
                0 <= i <= self.images.len(),
                views(parts@) == head + Seq::new(
                    i as nat,
                    |j: int| image_label_spec((j + 1) as nat, self.images@[j].filename@),
                ),
                head == (if is_blank(self.text@) { seq![] } else { seq![trim(self.text@)] }),
            decreases self.images.len() - i,
        {
            let label = image_label(i + 1, self.images[i].filename.as_str());
            let ghost before = views(parts@);
            parts.push(label);
            proof {
                assert(views(parts@) =~= before.push(label@));
                assert(head + Seq::new(
                    (i + 1) as nat,
                    |j: int| image_label_spec((j + 1) as nat, self.images@[j].filename@),
                ) =~= (head + Seq::new(
                    i as nat,
                    |j: int| image_label_spec((j + 1) as nat, self.images@[j].filename@),
                )).push(label@));
            }
            i = i + 1;
        }
        proof {
            assert(Seq::new(
                i as nat,
                |j: int| image_label_spec((j + 1) as nat, self.images@[j].filename@),
            ) =~= Seq::new(
                self.images@.len(),
                |j: int| image_label_spec((j + 1) as nat, self.images@[j].filename@),
            ));
        }
        join_strings(&parts, "\n")
    }

    /// The durable `UserMessage` event recording this prompt.
    pub fn user_message_event(&self, message_id: String) -> (r: EventPayload)
        ensures
            r matches EventPayload::UserMessage { message_id: m, text: t, images: i } && m
                == message_id && t == self.text && i@ == self.images@,
    {
        EventPayload::UserMessage {
            message_id,
            text: self.text.clone(),
            images: duplicate_images(&self.images),
        }
    }
}

} // verus!
