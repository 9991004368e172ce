//! The box that prompts are typed into.

use crate::text;
use crate::text_buffer::{TextBuffer, TextState};
use vstd::prelude::*;

verus! {

pub struct InputBox {
    pub buffer: TextBuffer,
    /// A completion shown behind the cursor, not part of the text yet.
    pub ghost_text: Option<String>,
}

/// What the input box holds.
pub struct InputState {
    pub draft: TextState,
    pub ghost_text: Option<Seq<char>>,
}

impl View for InputBox {
    type V = InputState;

    open spec fn view(&self) -> InputState {
        InputState { draft: self.buffer@, ghost_text: text::option_view(self.ghost_text) }
    }
}

impl InputState {
    pub open spec fn cursor_at_end(self) -> bool {
        self.draft == self.draft.at_end()
    }
}

impl InputBox {
    pub fn new() -> (input: InputBox)
        ensures
            input@.draft == TextState::holding(Seq::empty()),
            input@.draft.valid(),
            input@.ghost_text is None,
    {
        InputBox { buffer: TextBuffer::new(String::new()), ghost_text: None }
    }

    pub fn has_ghost(&self) -> (r: bool)
        ensures
            r == (self@.ghost_text is Some),
    {
        self.ghost_text.is_some()
    }

    pub fn set_ghost(&mut self, completion: Option<String>)
        ensures
            final(self)@ == (InputState {
                ghost_text: text::option_view(completion),
                ..old(self)@
            }),
    {
        self.ghost_text = completion;
    }

    pub fn clear_ghost(&mut self)
        ensures
            final(self)@ == (InputState { ghost_text: None, ..old(self)@ }),
    {
        self.ghost_text = None;
    }

    /// Whether the cursor stands after all of the text.
    pub fn cursor_at_end(&self) -> (r: bool)
        requires
            self@.draft.valid(),
        ensures
            r == self@.cursor_at_end(),
    {
        let last: usize = self.buffer.line_count() - 1;
        self.buffer.y() == last && self.buffer.x() == self.buffer.line(last).len()
    }
}

}
