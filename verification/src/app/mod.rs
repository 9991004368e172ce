//! The part of the application that decides when to ask the suggest model and
//! what to make of its answers.

pub mod complete;
pub mod completion_laws;
pub mod draft_laws;
pub mod reply;
pub mod rewrite;
pub mod rewrite_laws;
pub mod suggest;
pub mod suggest_laws;

use crate::app::complete::Completion;
use crate::app::rewrite::Rewrite;
use crate::app::suggest::Suggestions;
use crate::components::prompt_editor::{EditorState, PromptEditor};
use crate::input_box::{InputBox, InputState};
use crate::text;
use crate::time::Instant;
use vstd::prelude::*;

verus! {

/// Something for the event loop to do.
#[derive(Debug)]
pub enum Action {
    /// Ask how this draft goes on.
    Complete(String),
}

pub struct App {
    pub input_box: InputBox,
    pub prompt_editor: PromptEditor,
    /// The message in the status line, if any.
    pub flashed: Option<String>,
    /// The turn that is running or ran last.
    pub run_id: u64,
    pub completion_enabled: bool,
    pub completion_rx: Option<flume::Receiver<Completion>>,
    /// The draft as the last tick saw it.
    pub completion_input: String,
    /// When that draft was first seen.
    pub completion_since: Option<Instant>,
    /// Every draft that was asked about.
    pub completion_asked: Vec<String>,
    /// The keys that take a completion were explained.
    pub completion_hinted: bool,
    /// Which session of the prompt editor this is.
    pub rewrite_seq: u64,
    pub rewrite_rx: Option<flume::Receiver<Rewrite>>,
    pub suggestions: Vec<String>,
    pub suggestions_hidden: bool,
    pub suggest_rx: Option<flume::Receiver<Suggestions>>,
}

/// What the application is in the middle of.
pub struct AppState {
    pub input: InputState,
    pub editor: EditorState,
    pub flashed: Option<Seq<char>>,
    pub run_id: u64,
    pub completion: CompletionState,
    pub rewrite_seq: u64,
    /// Where the rewrite that is waited for arrives, if one is.
    pub rewrite_rx: Option<flume::Receiver<Rewrite>>,
    pub suggestions: Seq<Seq<char>>,
    pub suggestions_hidden: bool,
    /// Where the suggestions that are waited for arrive, if any are.
    pub suggest_rx: Option<flume::Receiver<Suggestions>>,
}

/// Where completing the draft stands.
pub struct CompletionState {
    pub enabled: bool,
    /// Where the completion that is waited for arrives, if one is.
    pub rx: Option<flume::Receiver<Completion>>,
    /// The draft as the last tick saw it.
    pub draft: Seq<char>,
    pub since: Option<Instant>,
    /// Every draft that was asked about.
    pub asked: Seq<Seq<char>>,
    pub hinted: bool,
}

impl View for App {
    type V = AppState;

    open spec fn view(&self) -> AppState {
        AppState {
            input: self.input_box@,
            editor: self.prompt_editor@,
            flashed: text::option_view(self.flashed),
            run_id: self.run_id,
            completion: CompletionState {
                enabled: self.completion_enabled,
                rx: self.completion_rx,
                draft: self.completion_input@,
                since: self.completion_since,
                asked: text::views(self.completion_asked@),
                hinted: self.completion_hinted,
            },
            rewrite_seq: self.rewrite_seq,
            rewrite_rx: self.rewrite_rx,
            suggestions: text::views(self.suggestions@),
            suggestions_hidden: self.suggestions_hidden,
            suggest_rx: self.suggest_rx,
        }
    }
}

impl AppState {
    pub open spec fn valid(self) -> bool {
        self.input.draft.valid() && self.editor.valid()
    }

    /// An application in which nothing happened yet.
    pub open spec fn fresh(input: InputState) -> AppState {
        AppState {
            input,
            editor: EditorState::fresh(),
            flashed: None,
            run_id: 0,
            completion: CompletionState {
                enabled: true,
                rx: None,
                draft: Seq::empty(),
                since: None,
                asked: Seq::empty(),
                hinted: false,
            },
            rewrite_seq: 0,
            rewrite_rx: None,
            suggestions: Seq::empty(),
            suggestions_hidden: false,
            suggest_rx: None,
        }
    }
}

impl App {
    pub fn new() -> (app: App)
        ensures
            app@.valid(),
            app@ == AppState::fresh(app@.input),
            app@.input.draft.text().len() == 0,
            app@.input.ghost_text is None,
    {
        let app: App = App {
            input_box: InputBox::new(),
            prompt_editor: PromptEditor::new(),
            flashed: None,
            run_id: 0,
            completion_enabled: true,
            completion_rx: None,
            completion_input: String::new(),
            completion_since: None,
            completion_asked: Vec::new(),
            completion_hinted: false,
            rewrite_seq: 0,
            rewrite_rx: None,
            suggestions: Vec::new(),
            suggestions_hidden: false,
            suggest_rx: None,
        };
        proof {
            assert(app.completion_input@ =~= Seq::empty());
            assert(text::views(app.completion_asked@) =~= Seq::empty());
            assert(text::views(app.suggestions@) =~= Seq::empty());
            reveal_with_fuel(text::split, 2);
            reveal_with_fuel(text::joined, 2);
            assert(app@.input.draft.lines =~= seq![Seq::empty()]);
        }
        app
    }

    /// Says something in the status line.
    pub fn flash(&mut self, message: String)
        ensures
            final(self)@ == (AppState { flashed: Some(message@), ..old(self)@ }),
    {
        self.flashed = Some(message);
    }
}

}
