use maki::components::suggest_panel::{height, panel_lines, truncate};
use maki::styled::Tone;

#[test]
fn height_grows_with_the_list_empty_takes_no_room() {
    assert_eq!(height(0), 0);
}

#[test]
fn height_grows_with_the_list_one() {
    assert_eq!(height(1), 3);
}

#[test]
fn height_grows_with_the_list_three() {
    assert_eq!(height(3), 5);
}

#[test]
fn heights_wrap_where_screens_end() {
    assert_eq!(height(65_536), 2);
}

#[test]
fn long_prompts_are_truncated_not_wrapped() {
    let out = truncate("a very long suggestion indeed", 10);
    assert_eq!(out.chars().count(), 10);
    assert!(out.ends_with("…"));
}

#[test]
fn newlines_are_flattened() {
    assert_eq!(truncate("two\nlines", 20), "two lines");
}

#[test]
fn without_room_only_the_ellipsis_is_left() {
    assert_eq!(truncate("text", 0), "…");
    assert_eq!(truncate("text", 1), "…");
    assert_eq!(truncate("", 0), "");
}

#[test]
fn rows_show_their_key_and_their_prompt() {
    let prompts = vec!["run the tests".to_string(), "a longer prompt".to_string()];
    let lines = panel_lines(&prompts, 20, 4).expect("something to draw");
    assert_eq!(lines.len(), 2);
    assert_eq!(lines[0].spans[0].text, " ctrl+1 ");
    assert_eq!(lines[0].spans[0].tone, Tone::Key);
    assert_eq!(lines[0].spans[1].text, "run the t…");
    assert_eq!(lines[1].spans[0].text, " ctrl+2 ");
    assert_eq!(lines[1].spans[1].text, "a longer …");
    assert_eq!(lines[1].spans[1].tone, Tone::Dim);
}

#[test]
fn there_is_nothing_to_draw_without_prompts_or_rows() {
    assert!(panel_lines(&[], 20, 4).is_none());
    assert!(panel_lines(&["x".to_string()], 20, 0).is_none());
}
