//! What is said to a model and what it says back.

use crate::text;
use vstd::prelude::*;

verus! {

#[derive(Clone, Copy, PartialEq, Eq, Debug, Structural)]
pub enum Role {
    User,
    Assistant,
}

/// One piece of a message. Only text is read here; everything else is carried
/// along in the form in which it is stored.
#[derive(Debug)]
pub enum ContentBlock {
    Text { text: String },
    Other { raw: String },
}

#[derive(Debug)]
pub struct Message {
    pub role: Role,
    pub content: Vec<ContentBlock>,
}

/// The texts among the blocks, in their order.
pub open spec fn texts_of(blocks: Seq<ContentBlock>) -> Seq<Seq<char>>
    decreases blocks.len(),
{
    if blocks.len() == 0 {
        Seq::empty()
    } else {
        let earlier = texts_of(blocks.drop_last());
        match blocks.last() {
            ContentBlock::Text { text } => earlier.push(text@),
            ContentBlock::Other { .. } => earlier,
        }
    }
}

/// The messages are the user's, and each holds one of these texts and nothing else.
pub open spec fn said_by_user(messages: Seq<Message>, texts: Seq<Seq<char>>) -> bool {
    &&& messages.len() == texts.len()
    &&& forall|i: int|
        0 <= i < messages.len() ==> {
            &&& (#[trigger] messages[i]).role == Role::User
            &&& messages[i].content@.len() == 1
            &&& messages[i].content@[0] matches ContentBlock::Text { text } && text@ == texts[i]
            &&& messages[i].texts() == seq![texts[i]]
        }
}

impl Default for Message {
    fn default() -> (message: Self)
        ensures
            message.role == Role::User,
            message.content@.len() == 0,
    {
        Message { role: Role::User, content: Vec::new() }
    }
}

impl Message {
    pub open spec fn texts(self) -> Seq<Seq<char>> {
        texts_of(self.content@)
    }

    /// A message of the user's that holds one text.
    pub fn user(text: String) -> (message: Message)
        ensures
            message.role == Role::User,
            message.content@ == seq![ContentBlock::Text { text }],
            message.texts() == seq![text@],
    {
        let mut content: Vec<ContentBlock> = Vec::new();
        content.push(ContentBlock::Text { text });
        proof {
            reveal_with_fuel(texts_of, 2);
            assert(content@.drop_last() =~= Seq::empty());
            assert(texts_of(content@) =~= seq![text@]);
        }
        Message { role: Role::User, content }
    }

    /// The texts of the message, in their order.
    pub fn text_blocks(&self) -> (texts: Vec<String>)
        ensures
            text::views(texts@) == self.texts(),
    {
        let mut texts: Vec<String> = Vec::new();
        let mut i: usize = 0;
        assert(text::views(texts@) =~= texts_of(self.content@.take(0)));
        while i < self.content.len()
            invariant
                i <= self.content@.len(),
                text::views(texts@) == texts_of(self.content@.take(i as int)),
            decreases self.content@.len() - i,
        {
            let ghost had = texts@;
            assert(self.content@.take(i + 1).drop_last() =~= self.content@.take(i as int));
            match &self.content[i] {
                ContentBlock::Text { text } => {
                    texts.push(text.clone());
                    assert(text::views(texts@) =~= text::views(had).push(text@));
                },
                ContentBlock::Other { .. } => {},
            }
            i += 1;
        }
        assert(self.content@.take(i as int) =~= self.content@);
        texts
    }
}

}
