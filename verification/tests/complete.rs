use maki::app::complete::{
    completable, finish_complete, parse_completion, Completion, COMPLETE_INSTRUCTION, HINT,
    MAX_COMPLETION_CHARS, OFF_MSG, ON_MSG,
};
use maki::app::{Action, App};
use maki::key::{KeyCode, KeyEvent};
use maki::message::{ContentBlock, Message, Role};
use maki::time::{Duration, Instant};

fn text_message(body: &str) -> Message {
    Message {
        content: vec![ContentBlock::Text {
            text: body.to_string(),
        }],
        ..Default::default()
    }
}

fn at(millis: u64) -> Instant {
    Instant {
        since_start: Duration::from_millis(millis),
    }
}

fn type_in(app: &mut App, text: &str) {
    for c in text.chars() {
        app.input_box
            .buffer
            .handle_key(KeyEvent::plain(KeyCode::Char(c)));
    }
}

fn asked(actions: Vec<Action>) -> Vec<String> {
    actions
        .into_iter()
        .map(|action| match action {
            Action::Complete(draft) => draft,
        })
        .collect()
}

#[test]
fn the_tail_is_what_the_user_has_not_typed() {
    let msg = text_message("add auth to the login page");
    assert_eq!(
        parse_completion(&msg, "add auth"),
        Some(" to the login page".into())
    );
}

#[test]
fn a_completion_can_land_mid_word() {
    let msg = text_message("add authentication");
    assert_eq!(
        parse_completion(&msg, "add auth"),
        Some("entication".into())
    );
}

#[test]
fn a_reply_that_does_not_start_with_the_draft_is_dropped_changed_case() {
    assert_eq!(
        parse_completion(&text_message("Add auth to login"), "add auth"),
        None
    );
}

#[test]
fn a_reply_that_does_not_start_with_the_draft_is_dropped_prepended() {
    assert_eq!(
        parse_completion(&text_message("please add auth to it"), "add auth"),
        None
    );
}

#[test]
fn a_reply_that_does_not_start_with_the_draft_is_dropped_rewrote_it() {
    assert_eq!(
        parse_completion(&text_message("write the login page"), "add auth"),
        None
    );
}

#[test]
fn a_fenced_reply_is_unwrapped_before_matching() {
    let msg = text_message("```\nadd auth to the login page\n```");
    assert_eq!(
        parse_completion(&msg, "add auth"),
        Some(" to the login page".into())
    );
}

#[test]
fn only_the_first_line_is_offered() {
    let msg = text_message("add auth to login\nand also add tests");
    assert_eq!(parse_completion(&msg, "add auth"), Some(" to login".into()));
}

#[test]
fn a_reply_that_adds_nothing_is_dropped() {
    assert_eq!(
        parse_completion(&text_message("add auth"), "add auth"),
        None
    );
}

#[test]
fn an_overlong_completion_is_dropped() {
    let long = "x".repeat(MAX_COMPLETION_CHARS + 1);
    let msg = text_message(&format!("add auth{long}"));
    assert_eq!(parse_completion(&msg, "add auth"), None);
}

#[test]
fn the_longest_completion_is_kept() {
    let longest = "x".repeat(MAX_COMPLETION_CHARS);
    let msg = text_message(&format!("add auth{longest}"));
    assert_eq!(parse_completion(&msg, "add auth"), Some(longest));
}

#[test]
fn texts_of_a_reply_are_joined_and_the_rest_is_skipped() {
    let msg = Message {
        role: Role::Assistant,
        content: vec![
            ContentBlock::Text {
                text: "add ".to_string(),
            },
            ContentBlock::Other {
                raw: "{}".to_string(),
            },
            ContentBlock::Text {
                text: "auth now".to_string(),
            },
        ],
    };
    assert_eq!(parse_completion(&msg, "add auth"), Some(" now".into()));
}

#[test]
fn only_prose_is_worth_completing_ordinary_prose() {
    assert!(completable("add auth"));
}

#[test]
fn only_prose_is_worth_completing_slash_command() {
    assert!(!completable("/model"));
}

#[test]
fn only_prose_is_worth_completing_indented_slash_command() {
    assert!(!completable("  /model"));
}

#[test]
fn only_prose_is_worth_completing_shell() {
    assert!(!completable("!ls -la"));
}

#[test]
fn only_prose_is_worth_completing_too_short() {
    assert!(!completable("fix"));
}

#[test]
fn only_prose_is_worth_completing_whitespace() {
    assert!(!completable("       "));
}

#[test]
fn a_pause_is_answered_with_one_request() {
    let mut app = App::new();
    type_in(&mut app, "add auth");
    assert!(asked(app.tick_completion(at(1_000), false)).is_empty());
    assert!(asked(app.tick_completion(at(1_449), false)).is_empty());
    assert_eq!(asked(app.tick_completion(at(1_450), false)), ["add auth"]);
    // The same draft is asked about once, whatever comes of it.
    assert!(asked(app.tick_completion(at(9_000), false)).is_empty());
}

#[test]
fn typing_starts_the_wait_anew() {
    let mut app = App::new();
    type_in(&mut app, "add auth");
    app.tick_completion(at(1_000), false);
    type_in(&mut app, "!");
    assert!(asked(app.tick_completion(at(1_500), false)).is_empty());
    assert!(asked(app.tick_completion(at(1_900), false)).is_empty());
    assert_eq!(asked(app.tick_completion(at(1_950), false)), ["add auth!"]);
}

#[test]
fn nothing_is_asked_while_covered_or_off_or_away_from_the_end() {
    let mut app = App::new();
    type_in(&mut app, "add auth");
    app.tick_completion(at(0), false);
    assert!(asked(app.tick_completion(at(1_000), true)).is_empty());
    app.toggle_completion();
    assert!(asked(app.tick_completion(at(1_000), false)).is_empty());
    app.toggle_completion();
    app.input_box
        .buffer
        .handle_key(KeyEvent::plain(KeyCode::Left));
    assert!(asked(app.tick_completion(at(1_000), false)).is_empty());
    app.input_box
        .buffer
        .handle_key(KeyEvent::plain(KeyCode::Right));
    assert_eq!(asked(app.tick_completion(at(1_000), false)), ["add auth"]);
}

#[test]
fn the_request_holds_the_draft_and_the_instruction() {
    let mut app = App::new();
    let request = app.start_completion("add auth".to_string());
    assert_eq!(request.prefix, "add auth");
    assert_eq!(request.messages.len(), 2);
    assert_eq!(request.messages[0].text_blocks(), ["add auth"]);
    assert_eq!(request.messages[1].text_blocks(), [COMPLETE_INSTRUCTION]);
    assert!(request.messages.iter().all(|m| m.role == Role::User));
    assert!(request.messages.iter().all(|m| m.content.len() == 1));
}

#[test]
fn an_answer_arrives_over_the_channel() {
    let mut app = App::new();
    type_in(&mut app, "add auth");
    let request = app.start_completion("add auth".to_string());
    app.poll_completion();
    assert!(app.completion_rx.is_some(), "nothing has arrived yet");
    request
        .tx
        .send(Completion {
            prefix: "add auth".to_string(),
            tail: " now".to_string(),
        })
        .unwrap();
    app.poll_completion();
    assert!(app.completion_rx.is_none());
    assert_eq!(app.input_box.ghost_text.as_deref(), Some(" now"));
    assert_eq!(app.flashed.as_deref(), Some(HINT));
    assert_eq!(app.input_box.buffer.value(), "add auth");
}

#[test]
fn an_answer_about_an_older_draft_is_dropped() {
    let mut app = App::new();
    type_in(&mut app, "add auth");
    app.start_completion("add auth".to_string());
    type_in(&mut app, "!");
    app.settle_completion(Some(Completion {
        prefix: "add auth".to_string(),
        tail: " now".to_string(),
    }));
    assert!(app.input_box.ghost_text.is_none());
    assert!(app.flashed.is_none());
    assert!(app.completion_rx.is_none());
}

#[test]
fn the_hint_is_said_once() {
    let mut app = App::new();
    type_in(&mut app, "add auth");
    for _ in 0..2 {
        app.start_completion("add auth".to_string());
        app.settle_completion(Some(Completion {
            prefix: "add auth".to_string(),
            tail: " now".to_string(),
        }));
        if app.flashed.as_deref() == Some(HINT) {
            app.flash("something else".to_string());
        }
    }
    assert_eq!(app.flashed.as_deref(), Some("something else"));
}

#[test]
fn toggling_off_drops_what_is_on_screen() {
    let mut app = App::new();
    type_in(&mut app, "add auth");
    app.start_completion("add auth".to_string());
    app.input_box.set_ghost(Some(" now".to_string()));
    app.toggle_completion();
    assert!(app.input_box.ghost_text.is_none());
    assert!(app.completion_rx.is_none());
    assert_eq!(app.flashed.as_deref(), Some(OFF_MSG));
    app.toggle_completion();
    assert_eq!(app.flashed.as_deref(), Some(ON_MSG));
}

#[test]
fn a_finished_completion_is_tagged_with_its_draft() {
    let done = finish_complete("add auth".to_string(), Some(text_message("add auth now")));
    let done = done.expect("the reply continues the draft");
    assert_eq!(done.prefix, "add auth");
    assert_eq!(done.tail, " now");
    assert!(finish_complete("add auth".to_string(), Some(text_message("no"))).is_none());
    assert!(finish_complete("add auth".to_string(), None).is_none());
}

#[test]
fn white_space_is_what_the_standard_library_calls_so() {
    for code in 0..=0x10FFFFu32 {
        if let Some(c) = char::from_u32(code) {
            assert_eq!(maki::text::is_white_space(c), c.is_whitespace(), "{code:x}");
        }
    }
}

/// Going back to a draft that was asked about asks nothing, though another one was
/// asked about in between.
#[test]
fn every_draft_is_asked_about_once() {
    let mut app = App::new();
    type_in(&mut app, "add auth");
    app.tick_completion(at(0), false);
    assert_eq!(asked(app.tick_completion(at(450), false)), ["add auth"]);
    type_in(&mut app, "!");
    app.tick_completion(at(3_000), false);
    assert_eq!(asked(app.tick_completion(at(3_450), false)), ["add auth!"]);
    app.input_box
        .buffer
        .handle_key(KeyEvent::plain(KeyCode::Backspace));
    app.tick_completion(at(4_000), false);
    assert!(asked(app.tick_completion(at(4_450), false)).is_empty());
    assert!(asked(app.tick_completion(at(9_000), false)).is_empty());
    type_in(&mut app, "?");
    app.tick_completion(at(10_000), false);
    assert_eq!(asked(app.tick_completion(at(10_450), false)), ["add auth?"]);
}

/// What is sent into the sender of a request arrives at the application that made it,
/// and at no other.
#[test]
fn answers_arrive_where_they_were_asked_for() {
    let mut one = App::new();
    let mut other = App::new();
    type_in(&mut one, "add auth");
    type_in(&mut other, "add auth");
    let request = one.start_completion("add auth".to_string());
    let _pending = other.start_completion("add auth".to_string());
    request
        .tx
        .send(Completion {
            prefix: "add auth".to_string(),
            tail: " now".to_string(),
        })
        .unwrap();
    other.poll_completion();
    assert!(other.input_box.ghost_text.is_none());
    one.poll_completion();
    assert_eq!(one.input_box.ghost_text.as_deref(), Some(" now"));
}

#[test]
fn nothing_is_asked_while_an_answer_is_waited_for() {
    let mut app = App::new();
    type_in(&mut app, "add auth");
    app.tick_completion(at(0), false);
    app.start_completion("add auth".to_string());
    assert!(asked(app.tick_completion(at(1_000), false)).is_empty());
}
