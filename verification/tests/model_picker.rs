use std::sync::Arc;

use maki::components::list_picker::{matches_query, Area, PickerItem};
use maki::components::model_picker::{
    footer_line, help_lines, next_effort, tier_for_shortcut, ModelPicker, ModelPickerAction,
    SharedModels,
};
use maki::components::model_rows::{load_entries, parse_model_entry, role_entries, role_row};
use maki::key::{KeyCode, KeyEvent};
use maki::models::{Effort, ModelTier};
use maki::registry::{ModelFacts, ProviderNames, Registry, RoleHolder};

const ROLE_SECTION: &str = "Roles";
const UNSET_DETAIL: &str = "unset";
const SONNET: &str = "anthropic/model-sonnet-4-20250514";
const OPUS: &str = "anthropic/model-opus-4-6-20260101";
const GLM: &str = "zai/glm-5";

fn key(code: KeyCode) -> KeyEvent {
    KeyEvent::plain(code)
}

fn provider(provider: &str, kind: Option<&str>) -> ProviderNames {
    ProviderNames {
        provider: provider.to_string(),
        kind: kind.map(str::to_string),
        dynamic: None,
        catalog: None,
        builtin: None,
        configured: None,
    }
}

fn facts(spec: &str, tier: ModelTier) -> ModelFacts {
    ModelFacts {
        spec: spec.to_string(),
        overrides: Vec::new(),
        override_label: None,
        tier: Some(tier),
        effort: None,
        supported_efforts: vec![Effort::Low, Effort::Medium, Effort::High],
        price: None,
    }
}

fn registry() -> Registry {
    Registry {
        providers: vec![
            provider("anthropic", Some("Anthropic")),
            provider("zai", Some("Z.AI")),
        ],
        models: vec![
            facts(SONNET, ModelTier::Medium),
            facts(OPUS, ModelTier::Strong),
            facts(GLM, ModelTier::Weak),
        ],
        roles: Vec::new(),
    }
}

fn specs(list: &[&str]) -> Vec<String> {
    list.iter().map(|s| s.to_string()).collect()
}

fn test_models() -> SharedModels {
    let models = SharedModels::empty();
    models.store(specs(&[SONNET, OPUS, GLM]));
    models
}

fn press(p: &mut ModelPicker, text: &str) {
    for c in text.chars() {
        p.handle_key(key(KeyCode::Char(c)));
    }
}

/// Moves off the role rows.
fn to_first_model(p: &mut ModelPicker) {
    p.scroll(i32::MIN);
    while p.list().selected_item().expect("a row").is_role {
        p.handle_key(key(KeyCode::Down));
    }
}

#[test]
fn close_keys_esc_closes() {
    let mut p = ModelPicker::new(test_models());
    p.open("", &registry());
    let action = p.handle_key(key(KeyCode::Esc));
    assert!(matches!(action, ModelPickerAction::Close));
    assert!(!p.is_open());
}

#[test]
fn close_keys_ctrl_c_closes() {
    let mut p = ModelPicker::new(test_models());
    p.open("", &registry());
    let action = p.handle_key(KeyEvent::with_control(KeyCode::Char('c')));
    assert!(matches!(action, ModelPickerAction::Close));
    assert!(!p.is_open());
}

#[test]
fn refresh_updates_items_and_preserves_search() {
    let models = SharedModels::empty();
    models.store(specs(&[SONNET]));
    let mut p = ModelPicker::new(models.share());
    p.open("", &registry());

    p.handle_key(key(KeyCode::Char('o')));
    p.handle_key(key(KeyCode::Char('p')));

    models.store(specs(&[SONNET, OPUS]));
    p.try_refresh(&registry());

    let action = p.handle_key(key(KeyCode::Enter));
    assert!(
        matches!(action, ModelPickerAction::Select(ref s) if s.contains("opus")),
        "after refresh, 'op' filter should match opus"
    );
}

#[test]
fn open_preselects_current_model() {
    let mut p = ModelPicker::new(test_models());
    p.open(OPUS, &registry());
    let action = p.handle_key(key(KeyCode::Enter));
    assert!(matches!(action, ModelPickerAction::Select(ref s) if s == OPUS));
}

#[test]
fn parse_model_entry_valid() {
    let entry = parse_model_entry(&registry(), SONNET).unwrap();
    assert_eq!(entry.id, "model-sonnet-4-20250514");
    assert_eq!(entry.provider_display, "Anthropic");
    assert!(!entry.detail.is_empty());
    assert_eq!(entry.detail, "medium");
}

#[test]
fn parse_model_entry_no_slash() {
    assert!(parse_model_entry(&registry(), "no-slash").is_none());
}

#[test]
fn parse_model_entry_unknown_provider() {
    assert!(parse_model_entry(&registry(), "nobody/model").is_none());
}

#[test]
fn the_first_place_that_knows_a_provider_names_it() {
    let mut names = provider("acme", None);
    names.configured = Some("Configured".to_string());
    let mut registry = registry();
    registry.providers.push(names);
    let display = |registry: &Registry| {
        parse_model_entry(registry, "acme/a/b")
            .unwrap()
            .provider_display
    };
    assert_eq!(display(&registry), "Configured");
    registry.providers[2].builtin = Some("Builtin".to_string());
    assert_eq!(display(&registry), "Builtin");
    registry.providers[2].catalog = Some("Catalog".to_string());
    assert_eq!(display(&registry), "Catalog");
    registry.providers[2].dynamic = Some("Dynamic".to_string());
    assert_eq!(display(&registry), "Dynamic");
    registry.providers[2].kind = Some("Kind".to_string());
    assert_eq!(display(&registry), "Kind");
    assert_eq!(parse_model_entry(&registry, "acme/a/b").unwrap().id, "a/b");
    assert_eq!(parse_model_entry(&registry, "acme/a/b").unwrap().detail, "");
}

#[test]
fn the_level_stands_behind_the_role() {
    let mut registry = registry();
    registry.models[0].effort = Some(Effort::High);
    assert_eq!(
        parse_model_entry(&registry, SONNET).unwrap().detail,
        "medium · high"
    );
    registry.models[0].override_label = Some("strong, weak".to_string());
    assert_eq!(
        parse_model_entry(&registry, SONNET).unwrap().detail,
        "strong, weak · high"
    );
}

#[test]
fn role_rows_cover_every_tier_and_lead_the_list() {
    let entries = role_entries(&registry());
    let labels: Vec<&str> = entries.iter().map(|e| e.id.as_str()).collect();
    assert_eq!(
        labels,
        vec!["strong", "medium", "weak", "compaction", "suggest"]
    );
    assert!(entries.iter().all(|e| e.is_role));
    assert!(entries.iter().all(|e| e.provider_display == ROLE_SECTION));
}

#[test]
fn role_rows_say_who_holds_the_role() {
    let mut registry = registry();
    registry.roles = vec![
        RoleHolder {
            tier: ModelTier::Strong,
            spec: OPUS.to_string(),
        },
        RoleHolder {
            tier: ModelTier::Weak,
            spec: "bare".to_string(),
        },
    ];
    registry.models[1].overrides = vec![ModelTier::Strong];
    registry.models[1].price = Some("$5.00/$25.00".to_string());
    let entries = role_entries(&registry);
    assert_eq!(entries[0].spec, OPUS);
    assert_eq!(entries[0].suffix(), Some("model-opus-4-6-20260101"));
    assert_eq!(entries[0].detail, "pinned · $5.00/$25.00");
    assert_eq!(entries[2].suffix(), Some("bare"));
    assert_eq!(entries[2].detail, "auto");
    assert_eq!(entries[1].detail, UNSET_DETAIL);
    assert_eq!(entries[1].spec, "");
}

#[test]
fn unset_role_row_is_inert() {
    let row = role_row(ModelTier::Weak, String::new(), None, UNSET_DETAIL.into());
    assert!(row.spec.is_empty());
    assert!(row.supported_efforts.is_empty());
    assert_eq!(row.detail, UNSET_DETAIL);
}

#[test]
fn nothing_happens_on_an_unset_role() {
    let mut p = ModelPicker::new(test_models());
    p.open("", &registry());
    assert!(p.list().selected_item().unwrap().is_role);
    assert!(matches!(
        p.handle_key(KeyEvent::with_control(KeyCode::Char('e'))),
        ModelPickerAction::Consumed
    ));
    assert!(matches!(
        p.handle_key(key(KeyCode::Enter)),
        ModelPickerAction::Consumed
    ));
}

#[test]
fn role_rows_drop_out_of_search_results() {
    let mut p = ModelPicker::new(test_models());
    p.open("", &registry());
    p.handle_key(key(KeyCode::Char('o')));
    p.handle_key(key(KeyCode::Char('p')));

    let action = p.handle_key(key(KeyCode::Enter));
    assert!(
        matches!(action, ModelPickerAction::Select(ref s) if s.contains("opus")),
        "search must reach opus, not a role row",
    );
}

#[test]
fn plain_letters_reach_the_search_box_the_effort_key() {
    let mut p = ModelPicker::new(test_models());
    p.open("", &registry());
    let before = p.list().visible_len();
    p.handle_key(key(KeyCode::Char('e')));
    assert!(p.list().visible_len() < before);
    assert_eq!(p.list().query(), "e");
}

#[test]
fn plain_letters_reach_the_search_box_an_ordinary_letter() {
    let mut p = ModelPicker::new(test_models());
    p.open("", &registry());
    let before = p.list().visible_len();
    p.handle_key(key(KeyCode::Char('s')));
    assert!(p.list().visible_len() < before);
}

#[test]
fn ctrl_e_still_cycles_effort() {
    let mut p = ModelPicker::new(test_models());
    p.open("", &registry());
    // Land on a real model row that has effort levels to cycle.
    to_first_model(&mut p);

    let action = p.handle_key(KeyEvent::with_control(KeyCode::Char('e')));
    assert!(matches!(
        action,
        ModelPickerAction::SetEffort(..) | ModelPickerAction::ClearEffort(..)
    ));
    assert!(
        matches!(action, ModelPickerAction::SetEffort(ref s, Effort::Low) if s == OPUS),
        "the first level of the first model"
    );
}

#[test]
fn levels_are_walked_and_then_cleared() {
    let levels = vec![Effort::Low, Effort::High];
    assert_eq!(next_effort(None, &levels), Some(Effort::Low));
    assert_eq!(next_effort(Some(Effort::Low), &levels), Some(Effort::High));
    assert_eq!(next_effort(Some(Effort::High), &levels), None);
    assert_eq!(next_effort(Some(Effort::Max), &levels), None);
    assert_eq!(next_effort(None, &Vec::new()), None);

    let mut registry = registry();
    registry.models[0].effort = Some(Effort::High);
    let mut p = ModelPicker::new(test_models());
    p.open(SONNET, &registry);
    assert!(matches!(
        p.handle_key(KeyEvent::with_control(KeyCode::Char('e'))),
        ModelPickerAction::ClearEffort(ref s) if s == SONNET
    ));
}

#[test]
fn role_rows_never_steal_the_current_model_cursor() {
    let mut registry = registry();
    registry.roles = vec![RoleHolder {
        tier: ModelTier::Weak,
        spec: GLM.to_string(),
    }];
    let mut p = ModelPicker::new(test_models());
    p.open(GLM, &registry);
    let selected = p.list().selected_item().expect("a row is selected");
    assert!(!selected.is_role);
    assert_eq!(selected.spec, GLM);
}

fn assigns(k: KeyEvent, want: ModelTier) {
    let mut p = ModelPicker::new(test_models());
    p.open(SONNET, &registry());
    let action = p.handle_key(k);
    assert!(
        matches!(&action, ModelPickerAction::AssignTier(s, t) if s == SONNET && *t == want),
        "expected AssignTier(model-sonnet, {want:?}), got something else",
    );
    assert!(p.is_open());
}

#[test]
fn tier_shortcut_assigns_and_keeps_picker_open_legacy_bang_strong() {
    assigns(key(KeyCode::Char('!')), ModelTier::Strong);
}

#[test]
fn tier_shortcut_assigns_and_keeps_picker_open_legacy_dollar_compaction() {
    assigns(key(KeyCode::Char('$')), ModelTier::Compaction);
}

#[test]
fn tier_shortcut_assigns_and_keeps_picker_open_legacy_euro_compaction() {
    assigns(key(KeyCode::Char('€')), ModelTier::Compaction);
}

#[test]
fn tier_shortcut_assigns_and_keeps_picker_open_kitty_shift_1_strong() {
    assigns(KeyEvent::with_shift(KeyCode::Char('1')), ModelTier::Strong);
}

#[test]
fn tier_shortcut_assigns_and_keeps_picker_open_kitty_shift_4_compaction() {
    assigns(
        KeyEvent::with_shift(KeyCode::Char('4')),
        ModelTier::Compaction,
    );
}

#[test]
fn every_shortcut_stands_for_its_role() {
    let by_char = [
        ("!¡", ModelTier::Strong),
        ("@\"™", ModelTier::Medium),
        ("#§£", ModelTier::Weak),
        ("$€¤", ModelTier::Compaction),
        ("%°", ModelTier::Suggest),
    ];
    for (chars, tier) in by_char {
        for c in chars.chars() {
            assert_eq!(tier_for_shortcut(key(KeyCode::Char(c))), Some(tier));
        }
    }
    let by_digit = [
        ('1', ModelTier::Strong),
        ('2', ModelTier::Medium),
        ('3', ModelTier::Weak),
        ('4', ModelTier::Compaction),
        ('5', ModelTier::Suggest),
    ];
    for (c, tier) in by_digit {
        assert_eq!(
            tier_for_shortcut(KeyEvent::with_shift(KeyCode::Char(c))),
            Some(tier)
        );
        assert_eq!(tier_for_shortcut(key(KeyCode::Char(c))), None);
    }
    assert_eq!(
        tier_for_shortcut(KeyEvent::with_shift(KeyCode::Char('6'))),
        None
    );
    assert_eq!(tier_for_shortcut(key(KeyCode::Enter)), None);
}

#[test]
fn the_same_key_again_unassigns() {
    let mut registry = registry();
    for (c, tier) in [('!', ModelTier::Strong), ('%', ModelTier::Suggest)] {
        registry.models[0].overrides = vec![tier];
        let mut p = ModelPicker::new(test_models());
        p.open(SONNET, &registry);
        assert!(matches!(
            p.handle_key(key(KeyCode::Char(c))),
            ModelPickerAction::UnassignTier(ref s, t) if s == SONNET && t == tier
        ));
        assert!(p.list().selected_item().unwrap().is_highlighted());
    }
}

#[test]
fn refresh_preserves_selection_for_current_model() {
    let models = SharedModels::empty();
    let mut p = ModelPicker::new(models.share());
    p.open(OPUS, &registry());

    models.store(specs(&[SONNET, OPUS, GLM]));
    p.try_refresh(&registry());

    let action = p.handle_key(key(KeyCode::Enter));
    assert!(
        matches!(action, ModelPickerAction::Select(ref s) if s == OPUS),
        "after async model arrival, current model should still be selected"
    );
}

#[test]
fn recents_include_current_model_preselected() {
    let mut p = ModelPicker::new(test_models());
    p.set_recents(specs(&[GLM, SONNET]));
    p.open(OPUS, &registry());

    // Role rows lead the list, so the first real entry is the one that matters
    // here.
    to_first_model(&mut p);
    let action = p.handle_key(key(KeyCode::Enter));
    assert!(
        matches!(action, ModelPickerAction::Select(ref s) if s == GLM),
        "first entry should be the most recent model",
    );

    p.set_recents(specs(&[GLM, SONNET]));
    p.open(GLM, &registry());
    let action = p.handle_key(key(KeyCode::Enter));
    assert!(
        matches!(action, ModelPickerAction::Select(ref s) if s == GLM),
        "current model should be preselected within Recent",
    );
}

#[test]
fn recents_show_their_provider_behind_their_name() {
    let (entries, at) = load_entries(&registry(), &specs(&[GLM, "bad"]), &specs(&[GLM]), GLM);
    assert_eq!(entries.len(), 7);
    assert_eq!(entries[5].provider_display, "Recent");
    assert_eq!(entries[5].suffix.as_deref(), Some("Z.AI"));
    assert_eq!(entries[6].provider_display, "Z.AI");
    assert_eq!(entries[6].suffix, None);
    assert_eq!(at, 5);
}

#[test]
fn models_are_ordered_by_provider_and_name() {
    let (entries, at) = load_entries(
        &registry(),
        &Vec::new(),
        &specs(&[GLM, SONNET, "nobody/x", OPUS]),
        "none",
    );
    let listed: Vec<&str> = entries[5..].iter().map(|e| e.spec.as_str()).collect();
    assert_eq!(listed, [OPUS, SONNET, GLM]);
    assert_eq!(at, 0);
}

#[test]
fn refreshing_goes_by_the_count_and_by_what_changed() {
    let mut p = ModelPicker::new(SharedModels::empty());
    p.open_with("", &registry(), Some(Arc::new(specs(&[SONNET]))));
    assert_eq!(p.list().visible_len(), 6);
    // As many as before: nothing is built anew.
    p.refresh_with(&registry(), Some(Arc::new(specs(&[OPUS]))));
    p.handle_key(key(KeyCode::Down));
    assert_eq!(p.list().selected_row(), 1);
    p.refresh_with(&registry(), Some(Arc::new(specs(&[OPUS]))));
    assert_eq!(p.list().selected_row(), 1);
    p.refresh_with(&registry(), Some(Arc::new(specs(&[OPUS, GLM]))));
    assert_eq!(p.list().visible_len(), 7);
    assert_eq!(p.list().selected_row(), 0);
    p.set_recents(specs(&[GLM]));
    p.refresh_with(&registry(), Some(Arc::new(specs(&[OPUS, GLM]))));
    assert_eq!(p.list().visible_len(), 8);
    p.refresh_with(&registry(), None);
    assert_eq!(p.list().visible_len(), 6);
    p.close();
    p.refresh_with(&registry(), Some(Arc::new(specs(&[OPUS, GLM]))));
    assert_eq!(p.list().visible_len(), 0);
}

#[test]
fn help_swallows_the_next_key() {
    let mut p = ModelPicker::new(test_models());
    p.open(OPUS, &registry());
    p.handle_key(key(KeyCode::Char('?')));
    assert!(p.shows_help());
    assert!(matches!(
        p.handle_key(key(KeyCode::Enter)),
        ModelPickerAction::Consumed
    ));
    assert!(!p.shows_help());
    assert!(p.is_open());
}

#[test]
fn scrolling_stops_at_the_ends() {
    let mut p = ModelPicker::new(test_models());
    p.open("", &registry());
    p.scroll(3);
    assert_eq!(p.list().selected_row(), 3);
    p.scroll(-1);
    assert_eq!(p.list().selected_row(), 2);
    p.scroll(i32::MAX);
    assert_eq!(p.list().selected_row(), 7);
    p.scroll(i32::MIN);
    assert_eq!(p.list().selected_row(), 0);
}

#[test]
fn pasting_searches() {
    let mut p = ModelPicker::new(test_models());
    assert!(!p.handle_paste("glm"));
    p.open("", &registry());
    assert!(p.handle_paste("GLM"));
    press(&mut p, "-");
    assert_eq!(p.list().visible_len(), 1);
    assert_eq!(p.list().selected_item().unwrap().spec, GLM);
}

#[test]
fn the_area_is_that_of_the_last_drawing() {
    let mut p = ModelPicker::new(test_models());
    assert!(!p.contains(0, 0));
    p.set_area(Area {
        x: 2,
        y: 3,
        width: 4,
        height: 1,
    });
    assert!(p.contains(2, 3));
    assert!(p.contains(5, 3));
    assert!(!p.contains(6, 3));
    assert!(!p.contains(5, 4));
    assert!(!p.contains(1, 3));
}

#[test]
fn the_help_is_in_columns() {
    let lines = help_lines();
    assert_eq!(lines.len(), 10);
    assert_eq!(lines[0].spans[0].text, "  Roles   ");
    assert_eq!(lines[0].spans[1].text, "           ");
    assert_eq!(lines[2].spans[1].text, "! @ # $ %  ");
    assert_eq!(lines[6].spans[1].text, "ctrl+e     ");
    assert_eq!(lines[9].spans[2].text, "Use this model for the session.");
}

#[test]
fn the_footer_names_the_keys() {
    let text: String = footer_line()
        .spans
        .iter()
        .map(|s| s.text.as_str())
        .collect();
    assert_eq!(
        text,
        "  Enter select  ! strong  @ medium  # weak  $ compaction  % suggest  ctrl+e effort  ? help"
    );
}

#[test]
fn rows_that_agree_keep_their_order() {
    let mut registry = registry();
    registry.providers.push(provider("b", Some("Same")));
    registry.providers.push(provider("a", Some("Same")));
    let (entries, _) = load_entries(
        &registry,
        &Vec::new(),
        &specs(&["b/x", "a/y", "a/x", "b/a"]),
        "",
    );
    let listed: Vec<&str> = entries[5..].iter().map(|e| e.spec.as_str()).collect();
    assert_eq!(listed, ["b/a", "b/x", "a/x", "a/y"]);
}

#[test]
fn a_label_is_found_by_its_letters_in_their_order() {
    let found = |query: &str, label: &str| {
        matches_query(&query.chars().collect::<Vec<_>>(), label)
    };
    assert!(found("op", "compaction"));
    assert!(found("OP", "opus-4"));
    assert!(found("", ""));
    assert!(found("o4", "opus-4"));
    assert!(!found("4o", "opus-4"));
    assert!(!found("oo", "opus-4"));
}
