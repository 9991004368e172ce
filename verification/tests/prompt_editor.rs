use maki::components::hints::pack_hints;
use maki::components::prompt_editor::{PromptEditor, PromptEditorAction};
use maki::components::wrap::{buffer_rows, clamp_scroll, cursor_row};
use maki::key::{KeyCode, KeyEvent};
use maki::text_buffer::TextBuffer;

const DRAFT_LABEL: &str = "prompt";
const INSTRUCTION_LABEL: &str = "how should this change?";
const WORKING: &str = "rewriting…";

fn plain(code: KeyCode) -> KeyEvent {
    KeyEvent::plain(code)
}

fn ctrl(c: char) -> KeyEvent {
    KeyEvent::with_control(KeyCode::Char(c))
}

fn typed(editor: &mut PromptEditor, text: &str) {
    for c in text.chars() {
        editor.handle_key(plain(KeyCode::Char(c)));
    }
}

fn opened(draft: &str) -> PromptEditor {
    let mut editor = PromptEditor::new();
    editor.open(draft);
    editor
}

fn render(editor: &mut PromptEditor, width: u16) -> String {
    match editor.render_lines(width) {
        Some(lines) => lines
            .iter()
            .map(|line| {
                line.spans
                    .iter()
                    .map(|span| span.text.as_str())
                    .collect::<String>()
            })
            .collect::<Vec<_>>()
            .join("\n"),
        None => String::new(),
    }
}

#[test]
fn typing_lands_in_the_instruction_box_first() {
    let mut editor = opened("add auth");
    typed(&mut editor, "shorter");
    assert_eq!(editor.instruction(), "shorter");
    assert_eq!(editor.draft(), "add auth");
}

#[test]
fn tab_moves_typing_to_the_draft() {
    let mut editor = opened("add auth");
    editor.handle_key(plain(KeyCode::Tab));
    typed(&mut editor, "!");
    assert_eq!(editor.draft(), "add auth!");
    assert_eq!(editor.instruction(), "");
}

#[test]
fn tab_toggles_back() {
    let mut editor = opened("draft");
    editor.handle_key(plain(KeyCode::Tab));
    editor.handle_key(plain(KeyCode::Tab));
    typed(&mut editor, "x");
    assert_eq!(editor.instruction(), "x");
}

#[test]
fn enter_in_the_draft_adds_a_line_rather_than_submitting() {
    let mut editor = opened("one");
    editor.handle_key(plain(KeyCode::Tab));
    editor.handle_key(plain(KeyCode::Enter));
    typed(&mut editor, "two");
    assert_eq!(editor.draft(), "one\ntwo");
    assert!(editor.is_open());
}

#[test]
fn enter_with_an_instruction_asks_for_a_rewrite() {
    let mut editor = opened("add auth");
    typed(&mut editor, "be specific");
    match editor.handle_key(plain(KeyCode::Enter)) {
        PromptEditorAction::Rewrite { draft, instruction } => {
            assert_eq!(draft, "add auth");
            assert_eq!(instruction, "be specific");
        }
        _ => panic!("expected a rewrite"),
    }
    assert!(editor.is_pending());
}

#[test]
fn enter_on_an_empty_instruction_accepts() {
    let mut editor = opened("add auth");
    match editor.handle_key(plain(KeyCode::Enter)) {
        PromptEditorAction::Accept(text) => assert_eq!(text, "add auth"),
        _ => panic!("expected accept"),
    }
    assert!(!editor.is_open());
}

#[test]
fn ctrl_s_accepts_from_the_draft_pane() {
    let mut editor = opened("add auth");
    editor.handle_key(plain(KeyCode::Tab));
    typed(&mut editor, "!");
    match editor.handle_key(ctrl('s')) {
        PromptEditorAction::Accept(text) => assert_eq!(text, "add auth!"),
        _ => panic!("expected accept"),
    }
}

#[test]
fn esc_discards_without_yielding_text() {
    let mut editor = opened("add auth");
    assert!(matches!(
        editor.handle_key(plain(KeyCode::Esc)),
        PromptEditorAction::Close
    ));
    assert!(!editor.is_open());
}

#[test]
fn an_empty_draft_cannot_be_accepted() {
    let mut editor = opened("   ");
    assert!(matches!(
        editor.handle_key(ctrl('s')),
        PromptEditorAction::Consumed
    ));
    assert!(editor.is_open());
}

#[test]
fn a_second_rewrite_is_refused_while_one_is_in_flight() {
    let mut editor = opened("add auth");
    typed(&mut editor, "shorter");
    editor.handle_key(plain(KeyCode::Enter));
    typed(&mut editor, "again");
    assert!(matches!(
        editor.handle_key(plain(KeyCode::Enter)),
        PromptEditorAction::Consumed
    ));
}

#[test]
fn a_version_replaces_the_draft_and_clears_the_instruction() {
    let mut editor = opened("add auth");
    typed(&mut editor, "be specific");
    editor.handle_key(plain(KeyCode::Enter));
    editor.apply_version("add token-based auth to the login page");

    assert_eq!(editor.draft(), "add token-based auth to the login page");
    assert_eq!(editor.instruction(), "");
    assert!(!editor.is_pending());
    assert_eq!(editor.version_count(), 1);
}

#[test]
fn undo_walks_back_out_of_a_rewrite() {
    let mut editor = opened("add auth");
    editor.apply_version("add token-based auth");
    editor.handle_key(ctrl('u'));
    assert_eq!(editor.draft(), "add auth");
    assert_eq!(editor.version_count(), 0);
}

#[test]
fn undo_with_no_versions_is_harmless() {
    let mut editor = opened("add auth");
    editor.handle_key(ctrl('u'));
    assert_eq!(editor.draft(), "add auth");
}

#[test]
fn hand_edits_do_not_become_versions() {
    let mut editor = opened("add auth");
    editor.handle_key(plain(KeyCode::Tab));
    typed(&mut editor, " now");
    assert_eq!(editor.version_count(), 0);
}

#[test]
fn a_rewrite_that_changes_nothing_is_no_version() {
    let mut editor = opened("add auth");
    editor.apply_version("add auth");
    assert_eq!(editor.version_count(), 0);
}

#[test]
fn a_failed_rewrite_keeps_the_instruction_for_a_retry() {
    let mut editor = opened("add auth");
    typed(&mut editor, "shorter");
    editor.handle_key(plain(KeyCode::Enter));
    editor.fail("model unavailable".into());

    assert!(!editor.is_pending());
    assert_eq!(editor.instruction(), "shorter");
    assert_eq!(editor.draft(), "add auth");
}

#[test]
fn reopening_drops_the_previous_session() {
    let mut editor = opened("first");
    editor.apply_version("second");
    editor.open("third");
    assert_eq!(editor.draft(), "third");
    assert_eq!(editor.version_count(), 0);
}

#[test]
fn cursor_row_follows_a_wrapped_line() {
    let buffer = TextBuffer::new("abcdef".to_string());
    assert_eq!(cursor_row(&buffer, 3), 0);
    let mut buffer = TextBuffer::new("abcdef".to_string());
    buffer.move_to_end();
    assert_eq!(cursor_row(&buffer, 3), 1);
}

#[test]
fn rows_are_as_wide_as_they_may_be() {
    let buffer = TextBuffer::new("abcdefg\n\nxy".to_string());
    assert_eq!(
        buffer_rows(&buffer, 3),
        [(0, 0), (0, 3), (0, 6), (1, 0), (2, 0)]
    );
}

#[test]
fn scroll_follows_the_cursor_in_both_directions() {
    assert_eq!(clamp_scroll(0, 15, 12, 20), 4);
    assert_eq!(clamp_scroll(8, 2, 12, 20), 2);
    assert_eq!(clamp_scroll(0, 3, 12, 20), 0);
}

#[test]
fn both_panes_are_labelled_on_screen() {
    let mut editor = opened("add auth");
    let screen = render(&mut editor, 80);
    assert!(screen.contains("add auth"), "{screen}");
    assert!(screen.contains(DRAFT_LABEL), "{screen}");
    assert!(screen.contains(INSTRUCTION_LABEL), "{screen}");
}

#[test]
fn a_pending_rewrite_says_so() {
    let mut editor = opened("add auth");
    typed(&mut editor, "shorter");
    editor.handle_key(plain(KeyCode::Enter));
    assert!(render(&mut editor, 80).contains(WORKING));
}

#[test]
fn a_failure_is_shown_in_the_modal() {
    let mut editor = opened("add auth");
    editor.fail("model unavailable".into());
    assert!(render(&mut editor, 80).contains("model unavailable"));
}

#[test]
fn the_undo_hint_appears_with_the_first_version() {
    let mut editor = opened("add auth");
    assert!(!render(&mut editor, 120).contains("undo"));
    editor.apply_version("add token auth");
    assert!(render(&mut editor, 120).contains("undo"));
}

#[test]
fn hints_wrap_instead_of_being_cut_off() {
    let pairs = [("tab", "switch pane"), ("esc", "discard")];
    assert_eq!(pack_hints(&pairs, 80).len(), 1);
    assert_eq!(pack_hints(&pairs, 20).len(), 2);
}

#[test]
fn every_hint_survives_a_narrow_modal() {
    let mut editor = opened("add auth");
    editor.apply_version("add token auth");
    let screen = render(&mut editor, 80);
    for hint in ["tab", "ctrl+s", "ctrl+u", "esc"] {
        assert!(screen.contains(hint), "{hint} missing from\n{screen}");
    }
}

#[test]
fn awkward_sizes_render_without_panicking() {
    for w in [20u16, 200, 30, 0, 1, u16::MAX] {
        let mut editor = opened(&"long draft text ".repeat(40));
        editor.handle_key(plain(KeyCode::Tab));
        assert!(!render(&mut editor, w).is_empty());
        let mut empty = opened("");
        assert!(!render(&mut empty, w).is_empty());
    }
}

#[test]
fn a_closed_editor_has_nothing_to_draw() {
    let mut editor = PromptEditor::new();
    assert!(editor.render_lines(80).is_none());
}

#[test]
fn every_key_edits_where_the_cursor_is() {
    let mut buffer = TextBuffer::new("ab\ncd".to_string());
    buffer.move_to_end();
    buffer.handle_key(plain(KeyCode::Up));
    buffer.handle_key(plain(KeyCode::Home));
    buffer.handle_key(plain(KeyCode::Delete));
    assert_eq!(buffer.value(), "b\ncd");
    buffer.handle_key(plain(KeyCode::End));
    buffer.handle_key(plain(KeyCode::Delete));
    assert_eq!(buffer.value(), "bcd");
    buffer.handle_key(plain(KeyCode::Left));
    buffer.handle_key(plain(KeyCode::Backspace));
    assert_eq!(buffer.value(), "bcd");
    buffer.handle_key(KeyEvent::with_shift(KeyCode::Enter));
    assert_eq!(buffer.value(), "\nbcd");
    buffer.handle_key(plain(KeyCode::Backspace));
    buffer.handle_key(plain(KeyCode::Right));
    buffer.handle_key(plain(KeyCode::Char('x')));
    assert_eq!(buffer.value(), "bxcd");
    assert_eq!((buffer.x(), buffer.y()), (2, 0));
}

#[test]
fn backspace_takes_back_what_was_typed() {
    let mut buffer = TextBuffer::new("ab".to_string());
    buffer.handle_key(plain(KeyCode::Right));
    for key in [
        plain(KeyCode::Char('x')),
        KeyEvent::with_shift(KeyCode::Enter),
    ] {
        buffer.handle_key(key);
        assert_ne!(buffer.value(), "ab");
        buffer.handle_key(plain(KeyCode::Backspace));
        assert_eq!(buffer.value(), "ab");
        assert_eq!((buffer.x(), buffer.y()), (1, 0));
    }
}

#[test]
fn several_rewrites_are_undone_one_by_one() {
    let mut editor = opened("one");
    editor.apply_version("two");
    editor.apply_version("two");
    editor.apply_version("three");
    assert_eq!(editor.version_count(), 2);
    editor.handle_key(ctrl('u'));
    assert_eq!(editor.draft(), "two");
    editor.handle_key(ctrl('u'));
    assert_eq!(editor.draft(), "one");
}

#[test]
fn the_same_key_asks_again_after_a_failure() {
    let mut editor = opened("add auth");
    typed(&mut editor, "shorter");
    editor.handle_key(plain(KeyCode::Enter));
    editor.fail("offline".into());
    assert!(matches!(
        editor.handle_key(plain(KeyCode::Enter)),
        PromptEditorAction::Rewrite { ref draft, ref instruction }
            if draft == "add auth" && instruction == "shorter"
    ));
}

#[test]
fn undo_walks_through_the_drafts_and_stops_at_the_first() {
    let drafts = ["one", "two", "three", "two"];
    for undos in 0..7 {
        let mut editor = opened(drafts[0]);
        for draft in &drafts[1..] {
            editor.apply_version(draft);
        }
        typed(&mut editor, "shorter");
        for _ in 0..undos {
            editor.undo();
        }
        let left = 3usize.saturating_sub(undos);
        assert_eq!(editor.draft(), drafts[left]);
        assert_eq!(editor.version_count(), left);
        assert_eq!(editor.instruction(), "shorter");
        assert!(editor.is_open() && !editor.is_pending());
    }
}
