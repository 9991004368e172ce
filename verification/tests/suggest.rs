use maki::app::suggest::{
    finish_suggest, parse_suggestions, strip_decoration, Suggestions, MAX_SUGGESTION_CHARS,
    SUGGEST_INSTRUCTION,
};
use maki::app::App;
use maki::message::{ContentBlock, Message};

fn text_message(body: &str) -> Message {
    Message {
        content: vec![ContentBlock::Text {
            text: body.to_string(),
        }],
        ..Default::default()
    }
}

fn prompts(texts: &[&str]) -> Vec<String> {
    texts.iter().map(|t| t.to_string()).collect()
}

#[test]
fn decoration_is_stripped_dash_bullet() {
    assert_eq!(strip_decoration("- run the tests"), "run the tests");
}

#[test]
fn decoration_is_stripped_numbered() {
    assert_eq!(strip_decoration("2. run the tests"), "run the tests");
}

#[test]
fn decoration_is_stripped_unicode_bullet() {
    assert_eq!(strip_decoration("• run the tests"), "run the tests");
}

#[test]
fn decoration_is_stripped_quoted() {
    assert_eq!(strip_decoration("\"run the tests\""), "run the tests");
}

#[test]
fn decoration_is_stripped_padded() {
    assert_eq!(strip_decoration("  run the tests  "), "run the tests");
}

#[test]
fn decoration_is_stripped_already_clean() {
    assert_eq!(strip_decoration("run the tests"), "run the tests");
}

#[test]
fn takes_at_most_three_non_empty_lines() {
    let msg = text_message("one\n\ntwo\nthree\nfour");
    assert_eq!(parse_suggestions(&msg), vec!["one", "two", "three"]);
}

#[test]
fn overlong_lines_are_dropped() {
    let long = "x".repeat(MAX_SUGGESTION_CHARS + 1);
    let msg = text_message(&format!("keep this\n{long}"));
    assert_eq!(parse_suggestions(&msg), vec!["keep this"]);
}

#[test]
fn nothing_useful_yields_nothing() {
    assert!(parse_suggestions(&text_message("   \n\n  ")).is_empty());
}

#[test]
fn carriage_returns_end_with_their_lines() {
    let msg = text_message("one\r\ntwo\r\n");
    assert_eq!(parse_suggestions(&msg), vec!["one", "two"]);
}

#[test]
fn nothing_is_asked_without_a_conversation() {
    let mut app = App::new();
    assert!(app.start_suggestions(None).is_none());
    assert!(app.start_suggestions(Some(Vec::new())).is_none());
    assert!(app.suggest_rx.is_none());
}

#[test]
fn the_conversation_is_followed_by_the_instruction() {
    let mut app = App::new();
    app.run_id = 7;
    let request = app
        .start_suggestions(Some(vec![text_message("hello")]))
        .expect("there is a conversation");
    assert_eq!(request.run_id, 7);
    assert_eq!(request.messages.len(), 2);
    assert_eq!(request.messages[0].text_blocks(), ["hello"]);
    assert_eq!(request.messages[1].text_blocks(), [SUGGEST_INSTRUCTION]);
}

#[test]
fn suggestions_arrive_over_the_channel() {
    let mut app = App::new();
    let request = app
        .start_suggestions(Some(vec![text_message("hello")]))
        .unwrap();
    app.poll_suggestions();
    assert!(!app.showing_suggestions());
    request
        .tx
        .send(Suggestions {
            run_id: 0,
            prompts: prompts(&["run the tests"]),
        })
        .unwrap();
    app.poll_suggestions();
    assert!(app.showing_suggestions());
    assert_eq!(app.shown_suggestions(), ["run the tests"]);
}

#[test]
fn suggestions_for_another_run_are_dropped() {
    let mut app = App::new();
    app.start_suggestions(Some(vec![text_message("hello")]));
    app.run_id = 1;
    app.settle_suggestions(Some(Suggestions {
        run_id: 0,
        prompts: prompts(&["too late"]),
    }));
    assert!(!app.showing_suggestions());
    assert!(app.suggest_rx.is_none());
}

#[test]
fn hiding_keeps_the_set_and_clearing_does_not() {
    let mut app = App::new();
    app.start_suggestions(Some(vec![text_message("hello")]));
    app.settle_suggestions(Some(Suggestions {
        run_id: 0,
        prompts: prompts(&["one", "two"]),
    }));
    app.hide_suggestions();
    assert!(!app.showing_suggestions());
    assert!(app.shown_suggestions().is_empty());
    app.suggestions_hidden = false;
    assert_eq!(app.shown_suggestions(), ["one", "two"]);
    app.clear_suggestions();
    assert!(app.shown_suggestions().is_empty());
    assert!(app.suggestions.is_empty());
}

#[test]
fn an_answer_without_prompts_is_not_sent() {
    assert!(finish_suggest(1, None).is_none());
    assert!(finish_suggest(1, Some(text_message("  "))).is_none());
    let sent = finish_suggest(1, Some(text_message("- one"))).unwrap();
    assert_eq!(sent.run_id, 1);
    assert_eq!(sent.prompts, ["one"]);
}
