use maki::components::list_picker::PickerItem;
use maki::components::thinking_picker::{
    build_entries, Model, ThinkingEntry, ThinkingPicker, ThinkingPickerAction,
};
use maki::key::{KeyCode, KeyEvent};
use maki::models::{Effort, EffortOptions, ThinkingConfig};

const OFF_LABEL: &str = "off";
const ADAPTIVE_LABEL: &str = "adaptive";
const BUDGET_HINT: &str = "type /thinking <tokens> for a budget";

fn key(code: KeyCode) -> KeyEvent {
    KeyEvent::plain(code)
}

fn effort_model() -> Model {
    Model {
        provider: "openai".to_string(),
        id: "thinking-picker-probe".to_string(),
        options: Some(EffortOptions {
            supported: vec![Effort::Minimal, Effort::Low, Effort::Medium, Effort::High],
            default: Some(Effort::Medium),
        }),
        pinned: None,
        adaptive: Some(Effort::Medium),
    }
}

fn budget_model() -> Model {
    Model {
        provider: "google".to_string(),
        id: "thinking-picker-probe".to_string(),
        options: None,
        pinned: None,
        adaptive: None,
    }
}

fn labels(entries: &[ThinkingEntry]) -> Vec<&str> {
    entries.iter().map(|e| e.label.as_str()).collect()
}

fn marked(current: ThinkingConfig) -> Vec<String> {
    build_entries(&effort_model(), current)
        .into_iter()
        .filter(|e| e.current)
        .map(|e| e.label)
        .collect()
}

#[test]
fn lists_only_levels_the_model_accepts() {
    let entries = build_entries(&effort_model(), ThinkingConfig::Adaptive);
    assert_eq!(
        labels(&entries),
        vec![
            OFF_LABEL,
            ADAPTIVE_LABEL,
            "minimal",
            "low",
            "medium",
            "high"
        ]
    );
}

#[test]
fn budget_providers_get_no_effort_rows() {
    let entries = build_entries(&budget_model(), ThinkingConfig::Adaptive);
    assert_eq!(labels(&entries), vec![OFF_LABEL, ADAPTIVE_LABEL]);
    assert!(entries[1].detail.contains(BUDGET_HINT));
    assert_eq!(
        entries[1].detail,
        "let the model decide, type /thinking <tokens> for a budget"
    );
}

#[test]
fn opens_on_the_current_setting_off() {
    assert_eq!(marked(ThinkingConfig::Off), vec![OFF_LABEL]);
}

#[test]
fn opens_on_the_current_setting_adaptive() {
    assert_eq!(marked(ThinkingConfig::Adaptive), vec![ADAPTIVE_LABEL]);
}

#[test]
fn opens_on_the_current_setting_effort() {
    assert_eq!(marked(ThinkingConfig::Effort(Effort::Low)), vec!["low"]);
}

#[test]
fn budget_setting_marks_nothing_current() {
    let entries = build_entries(&effort_model(), ThinkingConfig::Budget(8192));
    assert!(entries.iter().all(|e| !e.current));
}

#[test]
fn details_say_what_is_current_and_what_is_the_default() {
    let entries = build_entries(&effort_model(), ThinkingConfig::Effort(Effort::Medium));
    assert_eq!(entries[0].detail(), Some("no reasoning"));
    assert_eq!(entries[1].detail(), Some("let the model decide (medium)"));
    assert_eq!(entries[2].detail(), None);
    assert_eq!(entries[4].detail(), Some("current, model default"));
    let entries = build_entries(&effort_model(), ThinkingConfig::Effort(Effort::Low));
    assert_eq!(entries[3].detail(), Some("current"));
    assert_eq!(entries[4].detail(), Some("model default"));
    assert_eq!(entries[3].section(), Some("Effort"));
    assert_eq!(entries[0].section(), Some("Mode"));
}

#[test]
fn a_pinned_level_is_named() {
    let mut model = effort_model();
    model.pinned = Some(Effort::XHigh);
    let entries = build_entries(&model, ThinkingConfig::Off);
    assert_eq!(
        entries[2].section,
        "Effort (this model is pinned to xhigh by /effort)"
    );
}

#[test]
fn enter_selects_the_config() {
    let mut p = ThinkingPicker::new();
    p.open(&effort_model(), ThinkingConfig::Off);
    let action = p.handle_key(key(KeyCode::Enter));
    assert!(matches!(
        action,
        ThinkingPickerAction::Select(ThinkingConfig::Off)
    ));
}

#[test]
fn enter_keeps_the_current_setting() {
    for current in [
        ThinkingConfig::Adaptive,
        ThinkingConfig::Effort(Effort::Low),
        ThinkingConfig::Effort(Effort::High),
    ] {
        let mut p = ThinkingPicker::new();
        p.open(&effort_model(), current);
        match p.handle_key(key(KeyCode::Enter)) {
            ThinkingPickerAction::Select(config) => assert_eq!(config, current),
            _ => panic!("expected a selection"),
        }
        assert!(!p.is_open());
    }
}

#[test]
fn esc_closes_without_selecting() {
    let mut p = ThinkingPicker::new();
    p.open(&effort_model(), ThinkingConfig::Off);
    assert!(matches!(
        p.handle_key(key(KeyCode::Esc)),
        ThinkingPickerAction::Close
    ));
    assert!(!p.is_open());
}

#[test]
fn typing_and_pasting_narrow_the_list() {
    let mut p = ThinkingPicker::new();
    assert!(!p.handle_paste("hig"));
    p.open(&effort_model(), ThinkingConfig::Off);
    assert_eq!(p.list().visible_len(), 6);
    assert!(p.handle_paste("HI"));
    p.handle_key(key(KeyCode::Char('g')));
    assert_eq!(p.list().visible_len(), 1);
    p.handle_key(key(KeyCode::Char('z')));
    assert!(matches!(
        p.handle_key(key(KeyCode::Enter)),
        ThinkingPickerAction::Consumed
    ));
    p.handle_key(key(KeyCode::Backspace));
    assert!(matches!(
        p.handle_key(key(KeyCode::Enter)),
        ThinkingPickerAction::Select(ThinkingConfig::Effort(Effort::High))
    ));
}

#[test]
fn closing_puts_the_list_away() {
    let mut p = ThinkingPicker::new();
    p.open(&effort_model(), ThinkingConfig::Off);
    assert_eq!(p.list().title(), " Thinking ");
    assert_eq!(p.list().max_visible(), Some(12));
    p.close();
    assert!(!p.is_open());
    assert_eq!(p.list().visible_len(), 0);
}
