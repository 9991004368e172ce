use maki::app::rewrite::{clean_rewrite, finish_rewrite, Rewrite, REWRITE_INSTRUCTION};
use maki::app::App;
use maki::message::{ContentBlock, Message};

fn text_message(body: &str) -> Message {
    Message {
        content: vec![ContentBlock::Text {
            text: body.to_string(),
        }],
        ..Default::default()
    }
}

#[test]
fn wrappers_are_stripped_already_clean() {
    assert_eq!(clean_rewrite(&text_message("add auth")), "add auth");
}

#[test]
fn wrappers_are_stripped_padded() {
    assert_eq!(clean_rewrite(&text_message("  add auth  ")), "add auth");
}

#[test]
fn wrappers_are_stripped_quoted() {
    assert_eq!(clean_rewrite(&text_message("\"add auth\"")), "add auth");
}

#[test]
fn wrappers_are_stripped_single_quoted() {
    assert_eq!(clean_rewrite(&text_message("'add auth'")), "add auth");
}

#[test]
fn wrappers_are_stripped_bare_fence() {
    assert_eq!(clean_rewrite(&text_message("```\nadd auth\n```")), "add auth");
}

#[test]
fn wrappers_are_stripped_tagged_fence() {
    assert_eq!(
        clean_rewrite(&text_message("```text\nadd auth\n```")),
        "add auth"
    );
}

#[test]
fn inner_quotes_survive() {
    let raw = "rename \"foo\" to \"bar\"";
    assert_eq!(clean_rewrite(&text_message(raw)), raw);
}

#[test]
fn multi_line_prompts_keep_their_shape() {
    let raw = "do this:\n\n- one\n- two";
    assert_eq!(clean_rewrite(&text_message(raw)), raw);
}

#[test]
fn an_unterminated_fence_is_left_alone() {
    let raw = "```\nadd auth";
    assert_eq!(clean_rewrite(&text_message(raw)), raw);
}

#[test]
fn empty_content_is_empty() {
    assert!(clean_rewrite(&text_message("   \n  ")).is_empty());
}

#[test]
fn a_lone_quote_is_no_pair() {
    assert_eq!(clean_rewrite(&text_message("\"")), "\"");
    assert_eq!(clean_rewrite(&text_message("\"\"")), "");
}

#[test]
fn the_question_wraps_the_draft_and_the_instruction() {
    let mut app = App::new();
    app.open_prompt_editor("add auth");
    let request = app.start_rewrite("add auth".to_string(), "shorter".to_string());
    assert_eq!(request.seq, 1);
    assert_eq!(
        request.messages[0].text_blocks(),
        ["<prompt>\nadd auth\n</prompt>\n\n<instruction>\nshorter\n</instruction>"]
    );
    assert_eq!(request.messages[1].text_blocks(), [REWRITE_INSTRUCTION]);
    assert_eq!(request.messages.len(), 2);
}

#[test]
fn a_rewrite_becomes_a_version() {
    let mut app = App::new();
    app.open_prompt_editor("add auth");
    let request = app.start_rewrite("add auth".to_string(), "shorter".to_string());
    request
        .tx
        .send(Rewrite {
            seq: request.seq,
            text: Ok("auth".to_string()),
        })
        .unwrap();
    app.poll_rewrite();
    assert_eq!(app.prompt_editor.draft(), "auth");
    assert_eq!(app.prompt_editor.version_count(), 1);
    assert!(app.rewrite_rx.is_none());
}

#[test]
fn an_answer_to_an_earlier_session_is_dropped() {
    let mut app = App::new();
    app.open_prompt_editor("first");
    let stale = app
        .start_rewrite("first".to_string(), "shorter".to_string())
        .seq;
    app.open_prompt_editor("second");
    app.start_rewrite("second".to_string(), "longer".to_string());
    app.settle_rewrite(Some(Rewrite {
        seq: stale,
        text: Ok("wrong".to_string()),
    }));
    assert_eq!(app.prompt_editor.draft(), "second");
    assert_eq!(app.prompt_editor.version_count(), 0);
}

#[test]
fn an_answer_to_a_closed_editor_is_dropped() {
    let mut app = App::new();
    app.open_prompt_editor("first");
    let seq = app
        .start_rewrite("first".to_string(), "shorter".to_string())
        .seq;
    app.prompt_editor.close();
    app.settle_rewrite(Some(Rewrite {
        seq,
        text: Ok("late".to_string()),
    }));
    assert!(!app.prompt_editor.is_open());
    assert_eq!(app.prompt_editor.draft(), "first");
}

#[test]
fn failures_are_reported_in_the_editor() {
    let mut app = App::new();
    app.open_prompt_editor("first");
    let seq = app
        .start_rewrite("first".to_string(), "shorter".to_string())
        .seq;
    app.settle_rewrite(Some(Rewrite {
        seq,
        text: Err("rewrite failed: offline".to_string()),
    }));
    let lines = app.prompt_editor.render_lines(100).expect("open");
    assert!(lines
        .iter()
        .any(|l| l.spans.iter().any(|s| s.text == "rewrite failed: offline")));
    app.fail_rewrite("no model".to_string());
    let lines = app.prompt_editor.render_lines(100).expect("open");
    assert!(lines
        .iter()
        .any(|l| l.spans.iter().any(|s| s.text == "no model")));
}

#[test]
fn an_empty_answer_and_an_error_are_failures() {
    let empty = finish_rewrite(3, Ok(text_message("  ")));
    assert_eq!(empty.seq, 3);
    assert_eq!(empty.text, Err("the model returned nothing".to_string()));
    let failed = finish_rewrite(4, Err("offline".to_string()));
    assert_eq!(failed.text, Err("rewrite failed: offline".to_string()));
    let done = finish_rewrite(5, Ok(text_message("\"add auth\"")));
    assert_eq!(done.text, Ok("add auth".to_string()));
}
