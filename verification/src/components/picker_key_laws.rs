//! What each key does in the model picker.

use super::list_picker::PickerState;
use super::model_picker;
use super::model_picker::{ModelChoice, ModelPickerState};
use super::model_rows;
use super::model_rows::ModelEntry;
use crate::key::{KeyCode, KeyEvent};
use crate::models::{Effort, ModelTier};
use crate::registry::Registry;
use crate::styled::{Piece, Tone};
use std::sync::Arc;
use vstd::prelude::*;

verus! {

/// The digit on the key of a role.
pub open spec fn role_digit(tier: ModelTier) -> char {
    match tier {
        ModelTier::Strong => '1',
        ModelTier::Medium => '2',
        ModelTier::Weak => '3',
        ModelTier::Compaction => '4',
        ModelTier::Suggest => '5',
    }
}

/// What shift and that key type on one keyboard or another.
pub open spec fn role_signs(tier: ModelTier) -> Seq<char> {
    match tier {
        ModelTier::Strong => seq!['!', '¡'],
        ModelTier::Medium => seq!['@', '"', '™'],
        ModelTier::Weak => seq!['#', '§', '£'],
        ModelTier::Compaction => seq!['$', '€', '¤'],
        ModelTier::Suggest => seq!['%', '°'],
    }
}

/// The key stands for the role.
pub open spec fn is_role_key(key: KeyEvent, tier: ModelTier) -> bool {
    key.code matches KeyCode::Char(c) && if key.modifiers.shift {
        c == role_digit(tier)
    } else {
        role_signs(tier).contains(c)
    }
}

/// The keys of the roles: shift with one of the first five digits, or what that types.
pub proof fn law_each_role_has_its_keys(key: KeyEvent, tier: ModelTier)
    ensures
        model_picker::shortcut(key) == Some(tier) <==> is_role_key(key, tier),
{
    lemma_signs(key, ModelTier::Strong);
    lemma_signs(key, ModelTier::Medium);
    lemma_signs(key, ModelTier::Weak);
    lemma_signs(key, ModelTier::Compaction);
    lemma_signs(key, ModelTier::Suggest);
}

proof fn lemma_signs(key: KeyEvent, tier: ModelTier)
    ensures
        model_picker::shortcut(key) == Some(tier) <==> is_role_key(key, tier),
{
    let signs = role_signs(tier);
    if let KeyCode::Char(c) = key.code {
        assert(signs.len() == 2 ==> (signs.contains(c) <==> c == signs[0] || c == signs[1]));
        assert(signs.len() == 3 ==> (signs.contains(c) <==> c == signs[0] || c == signs[1] || c
            == signs[2]));
    }
}

/// The key of a role takes that very role away from a model that the user gave it, and
/// gives it to a model that does not have it, whatever other roles the model has.
pub proof fn law_a_role_key_toggles_its_own_role(
    s: ModelPickerState,
    key: KeyEvent,
    entry: ModelEntry,
    tier: ModelTier,
)
    requires
        !s.help,
        s.list.choice() == Some(entry),
        entry.spec@.len() > 0,
        is_role_key(key, tier),
    ensures
        entry.override_tiers@.contains(tier) ==> s.pressed(key).1 == ModelChoice::UnassignTier(
            entry.spec@,
            tier,
        ),
        !entry.override_tiers@.contains(tier) ==> s.pressed(key).1 == ModelChoice::AssignTier(
            entry.spec@,
            tier,
        ),
        s.pressed(key).0 == (ModelPickerState { dirty: true, ..s }),
{
    law_each_role_has_its_keys(key, tier);
    let signs = role_signs(tier);
    assert(!signs.contains('?') && !signs.contains('e')) by {
        assert(forall|i: int| 0 <= i < signs.len() ==> #[trigger] signs[i] != '?' && signs[i] != 'e');
    }
}

/// Pressed twice on a model whose row was brought up to date in between, the key of a
/// role undoes what it did.
pub proof fn law_a_role_key_undoes_itself(
    s: ModelPickerState,
    t: ModelPickerState,
    key: KeyEvent,
    before: ModelEntry,
    after: ModelEntry,
    tier: ModelTier,
)
    requires
        !s.help && !t.help,
        s.list.choice() == Some(before),
        t.list.choice() == Some(after),
        before.spec@ == after.spec@,
        before.spec@.len() > 0,
        before.override_tiers@.contains(tier) != after.override_tiers@.contains(tier),
        is_role_key(key, tier),
    ensures
        s.pressed(key).1 is AssignTier && t.pressed(key).1 == ModelChoice::UnassignTier(
            before.spec@,
            tier,
        ) || s.pressed(key).1 is UnassignTier && t.pressed(key).1 == ModelChoice::AssignTier(
            before.spec@,
            tier,
        ),
{
    law_a_role_key_toggles_its_own_role(s, key, before, tier);
    law_a_role_key_toggles_its_own_role(t, key, after, tier);
}

/// After a level comes the one behind it in the model's list, none after the last, and
/// the first when none is chosen.
pub proof fn law_the_next_level_is_the_one_behind(supported: Seq<Effort>, at: int)
    ensures
        supported.len() > 0 ==> model_picker::effort_after(None, supported) == Some(supported[0]),
        supported.len() == 0 ==> model_picker::effort_after(None, supported) is None,
        0 <= at < supported.len() && !supported.take(at).contains(supported[at]) ==> {
            &&& at + 1 < supported.len() ==> model_picker::effort_after(
                Some(supported[at]),
                supported,
            ) == Some(supported[at + 1])
            &&& at + 1 == supported.len() ==> model_picker::effort_after(
                Some(supported[at]),
                supported,
            ) is None
        },
{
    if 0 <= at < supported.len() && !supported.take(at).contains(supported[at]) {
        let level = supported[at];
        supported.index_of_first_ensures(level);
        assert(supported.contains(level));
        let first = supported.index_of_first(level)->0;
        if first < at {
            assert(supported.take(at)[first] == level);
        }
        if at < first {
            assert(supported[at] != level);
        }
    }
}

/// `ctrl+e` on a model with levels of its own moves it to the next of them, and back to
/// following the session after the last.
pub proof fn law_the_effort_key_moves_the_level(
    s: ModelPickerState,
    key: KeyEvent,
    entry: ModelEntry,
)
    requires
        !s.help,
        key.code == KeyCode::Char('e'),
        key.modifiers.control,
        s.list.choice() == Some(entry),
        entry.spec@.len() > 0,
        entry.supported_efforts@.len() > 0,
    ensures
        s.pressed(key).0 == (ModelPickerState { dirty: true, ..s }),
        model_picker::effort_after(entry.effort, entry.supported_efforts@) matches Some(level)
            ==> s.pressed(key).1 == ModelChoice::SetEffort(entry.spec@, level),
        model_picker::effort_after(entry.effort, entry.supported_efforts@) is None
            ==> s.pressed(key).1 == ModelChoice::ClearEffort(entry.spec@),
{
}

/// On a model without levels `ctrl+e` is no key of the picker's own.
pub proof fn law_no_levels_no_effort_key(s: ModelPickerState, key: KeyEvent, entry: ModelEntry)
    requires
        !s.help,
        key.code == KeyCode::Char('e'),
        key.modifiers.control,
        s.list.choice() == Some(entry),
        entry.supported_efforts@.len() == 0,
    ensures
        s.pressed(key).0 == (ModelPickerState { list: s.list.pressed(key).0, ..s }),
        s.pressed(key).1 == ModelChoice::Consumed,
{
}

/// A line of the help has its heading in a column of eight, its key in one as wide as the
/// widest, and then what it says.
pub proof fn law_help_stands_in_columns(
    row: (Seq<char>, Seq<char>, Seq<char>),
    key_width: int,
)
    ensures
        ({
            let shown = model_picker::help_pieces(row, key_width);
            &&& shown.len() == 3
            &&& shown[0] == (Piece {
                text: seq![' ', ' '] + model_picker::padded(row.0, 8),
                tone: Tone::KeySection,
            })
            &&& shown[1] == (Piece {
                text: model_picker::padded(row.1, key_width) + seq![' ', ' '],
                tone: Tone::Key,
            })
            &&& shown[2] == (Piece { text: row.2, tone: Tone::KeyDescription })
        }),
{
    reveal_strlit("  ");
    assert("  "@ =~= seq![' ', ' ']);
}

/// Enter picks the model of the selected row and shuts the list; on a row without a
/// model it only shuts it, and without a row it does nothing.
pub proof fn law_enter_picks_the_selected_model(s: ModelPickerState, key: KeyEvent)
    requires
        !s.help,
        s.list.open,
        key.code == KeyCode::Enter,
    ensures
        s.list.choice() matches Some(entry) ==> {
            &&& s.pressed(key).0 == (ModelPickerState { list: PickerState::shut(), ..s })
            &&& entry.spec@.len() > 0 ==> s.pressed(key).1 == ModelChoice::Select(entry.spec@)
            &&& entry.spec@.len() == 0 ==> s.pressed(key).1 == ModelChoice::Consumed
        },
        s.list.choice() is None ==> s.pressed(key) == (s, ModelChoice::Consumed),
{
}

/// `esc` and `ctrl+c` shut an open list and pick nothing.
pub proof fn law_esc_picks_nothing(s: ModelPickerState, key: KeyEvent)
    requires
        !s.help,
        s.list.open,
        key.code == KeyCode::Esc || (key.code == KeyCode::Char('c') && key.modifiers.control
            && !key.modifiers.shift),
    ensures
        s.pressed(key) == (
            ModelPickerState { list: PickerState::shut(), ..s },
            ModelChoice::Close,
        ),
{
}

/// `?` shows the help, and any key takes it away again and does nothing else.
pub proof fn law_help_comes_and_goes(s: ModelPickerState, key: KeyEvent)
    ensures
        s.help ==> s.pressed(key) == (ModelPickerState { help: false, ..s }, ModelChoice::Consumed),
        !s.help && key.code == KeyCode::Char('?') && !key.modifiers.control ==> s.pressed(key) == (
            ModelPickerState { help: true, ..s },
            ModelChoice::Consumed,
        ),
{
}

/// Whatever is no key of the picker's own goes to the list, and nothing else of the
/// picker changes.
pub proof fn law_other_keys_go_to_the_list(s: ModelPickerState, key: KeyEvent)
    requires
        !s.help,
        !(key.code == KeyCode::Char('?') && !key.modifiers.control),
        !(key.code == KeyCode::Char('e') && key.modifiers.control),
        forall|tier: ModelTier| !#[trigger] is_role_key(key, tier),
    ensures
        s.pressed(key).0 == (ModelPickerState { list: s.list.pressed(key).0, ..s }),
        s.list.pressed(key).1 is Consumed ==> s.pressed(key).1 == ModelChoice::Consumed,
        s.list.pressed(key).1 is Close ==> s.pressed(key).1 == ModelChoice::Close,
{
    if let Some(tier) = model_picker::shortcut(key) {
        law_each_role_has_its_keys(key, tier);
        assert(is_role_key(key, tier));
    }
}

/// Without a model under the cursor the keys for roles and effort reach the list.
pub proof fn law_keys_without_a_model_go_to_the_list(s: ModelPickerState, key: KeyEvent)
    requires
        !s.help,
        !(key.code == KeyCode::Char('?') && !key.modifiers.control),
        s.list.choice() is None || s.list.choice()->0.spec@.len() == 0,
    ensures
        s.pressed(key).0 == (ModelPickerState { list: s.list.pressed(key).0, ..s }),
{
}

/// What is published is the list; nothing published is an empty one.
pub proof fn law_nothing_published_is_an_empty_list(specs: Arc<Vec<String>>, i: int)
    ensures
        model_picker::published(None).len() == 0,
        model_picker::published(Some(specs)).len() == specs@.len(),
        0 <= i < specs@.len() ==> model_picker::published(Some(specs))[i] == specs@[i]@,
{
}

/// An open list is built anew exactly when another number of models is published than
/// it was built from, or when something about them changed.
pub proof fn law_what_makes_a_list_stale(s: ModelPickerState, specs: Seq<Seq<char>>)
    ensures
        s.stale(specs) <==> s.list.open && (s.dirty || s.count != specs.len()),
{
}

/// A list that was opened shows all rows, searched for nothing, and remembers what it
/// was built from.
pub proof fn law_an_opened_list_shows_all_rows(
    s: ModelPickerState,
    before: ModelPickerState,
    current: Seq<char>,
    registry: Registry,
    specs: Seq<Seq<char>>,
)
    requires
        s.opened_from(before, current, registry, specs),
    ensures
        s.list.open,
        s.list.query.len() == 0,
        model_rows::row_views(s.list.items) == model_rows::all_rows(
            registry,
            before.recents,
            specs,
        ),
        s.current == current,
        s.count == specs.len(),
        s == (ModelPickerState { list: s.list, current, count: s.count, ..before }),
        s.list.selected == super::list_picker::place_of(
            s.list.listing(),
            model_rows::home(model_rows::row_views(s.list.items), current),
        ),
{
}

/// A list that is brought up to date shows the rows of now under what was typed, with
/// the cursor on the current model, and is up to date; one that already is stays.
pub proof fn law_a_refreshed_list_keeps_the_search(
    s: ModelPickerState,
    before: ModelPickerState,
    registry: Registry,
    specs: Seq<Seq<char>>,
)
    requires
        s.refreshed_from(before, registry, specs),
    ensures
        before.list.open && (before.dirty || before.count != specs.len()) ==> {
            &&& s.list.open
            &&& s.list.query == before.list.query
            &&& model_rows::row_views(s.list.items) == model_rows::all_rows(
                registry,
                before.recents,
                specs,
            )
            &&& s.list.selected == super::list_picker::place_of(
                s.list.listing(),
                model_rows::home(model_rows::row_views(s.list.items), before.current),
            )
            &&& s == (ModelPickerState {
                list: s.list,
                count: specs.len(),
                dirty: false,
                ..before
            })
            &&& !s.stale(specs)
        },
        !(before.list.open && (before.dirty || before.count != specs.len())) ==> s == before,
{
}

/// Padding adds blanks behind a text until it is as wide as asked for, and none to one
/// that is.
pub proof fn law_padding_fills_up_with_blanks(s: Seq<char>, width: int)
    ensures
        width <= s.len() ==> model_picker::padded(s, width) == s,
        width > s.len() ==> {
            &&& model_picker::padded(s, width).len() == width
            &&& model_picker::padded(s, width).take(s.len() as int) == s
            &&& forall|i: int|
                s.len() <= i < width ==> #[trigger] model_picker::padded(s, width)[i] == ' '
        },
{
    let p = model_picker::padded(s, width);
    assert(p.take(s.len() as int) =~= s);
    if width <= s.len() {
        assert(p =~= s);
    }
}

/// No key is wider than the widest, and one is as wide unless there are none.
pub proof fn law_the_widest_key_bounds_the_others(rows: Seq<(Seq<char>, Seq<char>, Seq<char>)>)
    ensures
        forall|i: int|
            0 <= i < rows.len() ==> (#[trigger] rows[i]).1.len() <= model_picker::widest_key(rows),
        rows.len() == 0 ==> model_picker::widest_key(rows) == 0,
        rows.len() > 0 ==> exists|i: int|
            0 <= i < rows.len() && (#[trigger] rows[i]).1.len() == model_picker::widest_key(rows),
    decreases rows.len(),
{
    if rows.len() > 0 {
        let earlier = rows.drop_last();
        law_the_widest_key_bounds_the_others(earlier);
        assert forall|i: int| 0 <= i < rows.len() implies (#[trigger] rows[i]).1.len()
            <= model_picker::widest_key(rows) by {
            if i < earlier.len() {
                assert(rows[i] == earlier[i]);
            }
        }
        if rows.last().1.len() > model_picker::widest_key(earlier) || earlier.len() == 0 {
            assert(rows[rows.len() - 1].1.len() == model_picker::widest_key(rows));
        } else {
            let i = choose|i: int|
                0 <= i < earlier.len() && (#[trigger] earlier[i]).1.len()
                    == model_picker::widest_key(earlier);
            assert(rows[i].1.len() == model_picker::widest_key(rows));
        }
    }
}

}
