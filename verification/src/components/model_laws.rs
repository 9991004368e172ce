//! What holds of the rows of the model picker, whatever the models.

use super::model_picker;
use super::model_picker::{ModelChoice, ModelPickerState};
use super::model_rows;
use super::model_rows::ModelRow;
use crate::key::{KeyCode, KeyEvent};
use crate::models::{Effort, ModelTier};
use crate::registry::Registry;
use crate::text;
use vstd::prelude::*;

verus! {

proof fn lemma_before_is_one_way(a: ModelRow, b: ModelRow)
    requires
        model_rows::comes_before(a, b),
    ensures
        !model_rows::comes_before(b, a),
{
    if a.provider_display == b.provider_display {
        if text::in_order(b.id, a.id) {
            text::lemma_in_order_antisymmetric(a.id, b.id);
        }
    } else if text::in_order(b.provider_display, a.provider_display) {
        text::lemma_in_order_antisymmetric(a.provider_display, b.provider_display);
    }
}

/// What does not come after a row does not come after those that follow it.
proof fn lemma_not_after(a: ModelRow, b: ModelRow, c: ModelRow)
    requires
        !model_rows::comes_before(b, a),
        !model_rows::comes_before(c, b),
    ensures
        !model_rows::comes_before(c, a),
{
    let (pa, pb, pc) = (a.provider_display, b.provider_display, c.provider_display);
    text::lemma_in_order_total(pa, pb);
    text::lemma_in_order_total(pb, pc);
    text::lemma_in_order_total(a.id, b.id);
    text::lemma_in_order_total(b.id, c.id);
    if pa == pb && pb == pc {
        text::lemma_in_order_transitive(a.id, b.id, c.id);
        if text::in_order(c.id, a.id) {
            text::lemma_in_order_antisymmetric(c.id, a.id);
        }
    } else {
        text::lemma_in_order_transitive(pa, pb, pc);
        if text::in_order(pc, pa) {
            text::lemma_in_order_antisymmetric(pc, pa);
            if pa == pc {
                text::lemma_in_order_antisymmetric(pa, pb);
            }
        }
    }
}

/// No row comes before one that stands above it.
pub open spec fn sorted(rows: Seq<ModelRow>) -> bool {
    forall|i: int, j: int|
        0 <= i < j < rows.len() ==> !model_rows::comes_before(#[trigger] rows[j], #[trigger] rows[i])
}

proof fn lemma_placed_has(rows: Seq<ModelRow>, row: ModelRow, i: int)
    requires
        0 <= i < model_rows::placed(rows, row).len(),
    ensures
        model_rows::placed(rows, row)[i] == row || rows.contains(model_rows::placed(rows, row)[i]),
    decreases rows.len(),
{
    if rows.len() > 0 && model_rows::comes_before(row, rows.last()) {
        let inner = model_rows::placed(rows.drop_last(), row);
        if i < inner.len() {
            lemma_placed_has(rows.drop_last(), row, i);
            if inner[i] != row {
                let k = rows.drop_last().index_of(inner[i]);
                assert(rows[k] == inner[i]);
            }
        } else {
            assert(rows[rows.len() - 1] == rows.last());
        }
    } else if i < rows.len() {
        assert(rows[i] == rows.push(row)[i]);
    }
}

proof fn lemma_placed_sorted(rows: Seq<ModelRow>, row: ModelRow)
    requires
        sorted(rows),
    ensures
        sorted(model_rows::placed(rows, row)),
    decreases rows.len(),
{
    let all = model_rows::placed(rows, row);
    if rows.len() > 0 && model_rows::comes_before(row, rows.last()) {
        let rest = rows.drop_last();
        let inner = model_rows::placed(rest, row);
        lemma_placed_sorted(rest, row);
        lemma_before_is_one_way(row, rows.last());
        assert forall|i: int, j: int| 0 <= i < j < all.len() implies !model_rows::comes_before(
            #[trigger] all[j],
            #[trigger] all[i],
        ) by {
            assert(all[i] == inner[i]);
            if j < inner.len() {
                assert(all[j] == inner[j]);
            } else {
                lemma_placed_has(rest, row, i);
                if inner[i] != row {
                    let k = rest.index_of(inner[i]);
                    assert(rows[k] == inner[i] && rows[rows.len() - 1] == all[j]);
                }
            }
        }
    } else {
        assert forall|i: int, j: int| 0 <= i < j < all.len() implies !model_rows::comes_before(
            #[trigger] all[j],
            #[trigger] all[i],
        ) by {
            assert(all[i] == rows[i]);
            if j < rows.len() {
                assert(all[j] == rows[j]);
            } else if i < rows.len() - 1 {
                assert(!model_rows::comes_before(rows[rows.len() - 1], rows[i]));
                lemma_not_after(rows[i], rows.last(), row);
            }
        }
    }
}

/// The models stand in the order of their providers and, under one provider, in
/// that of their names; none is lost and none is added.
pub proof fn law_models_are_ordered(rows: Seq<ModelRow>)
    ensures
        sorted(model_rows::ordered(rows)),
        model_rows::ordered(rows).to_multiset() == rows.to_multiset(),
    decreases rows.len(),
{
    model_rows::lemma_ordered_keeps(rows);
    if rows.len() > 0 {
        law_models_are_ordered(rows.drop_last());
        lemma_placed_sorted(model_rows::ordered(rows.drop_last()), rows.last());
    }
}

/// The rows of one model of one provider, in their order.
pub open spec fn rows_named(rows: Seq<ModelRow>, provider: Seq<char>, id: Seq<char>) -> Seq<ModelRow>
    decreases rows.len(),
{
    if rows.len() == 0 {
        Seq::empty()
    } else {
        let earlier = rows_named(rows.drop_last(), provider, id);
        if rows.last().provider_display == provider && rows.last().id == id {
            earlier.push(rows.last())
        } else {
            earlier
        }
    }
}

proof fn lemma_placed_named(rows: Seq<ModelRow>, row: ModelRow, provider: Seq<char>, id: Seq<char>)
    ensures
        rows_named(model_rows::placed(rows, row), provider, id) == if row.provider_display
            == provider && row.id == id {
            rows_named(rows, provider, id).push(row)
        } else {
            rows_named(rows, provider, id)
        },
    decreases rows.len(),
{
    if rows.len() > 0 && model_rows::comes_before(row, rows.last()) {
        let inner = model_rows::placed(rows.drop_last(), row);
        lemma_placed_named(rows.drop_last(), row, provider, id);
        assert(inner.push(rows.last()).drop_last() =~= inner);
    } else {
        assert(rows.push(row).drop_last() =~= rows);
    }
}

/// Rows that agree in provider and name keep the order in which they came.
pub proof fn law_equal_rows_keep_their_order(
    rows: Seq<ModelRow>,
    provider: Seq<char>,
    id: Seq<char>,
)
    ensures
        rows_named(model_rows::ordered(rows), provider, id) == rows_named(rows, provider, id),
    decreases rows.len(),
{
    if rows.len() > 0 {
        law_equal_rows_keep_their_order(rows.drop_last(), provider, id);
        lemma_placed_named(model_rows::ordered(rows.drop_last()), rows.last(), provider, id);
    }
}

proof fn lemma_home(rows: Seq<ModelRow>, current: Seq<char>, from: int, at: int)
    requires
        0 <= from <= at < rows.len(),
        !rows[at].is_role && rows[at].spec == current,
    ensures
        from <= model_rows::home_from(rows, current, from) <= at,
        !rows[model_rows::home_from(rows, current, from)].is_role,
        rows[model_rows::home_from(rows, current, from)].spec == current,
    decreases at - from,
{
    if rows[from].is_role || rows[from].spec != current {
        lemma_home(rows, current, from + 1, at);
    }
}

/// A role row never takes the cursor from the current model: when the model has a
/// row of its own, the cursor starts on the first of them.
pub proof fn law_role_rows_leave_the_cursor_alone(rows: Seq<ModelRow>, current: Seq<char>, at: int)
    requires
        0 <= at < rows.len(),
        !rows[at].is_role && rows[at].spec == current,
    ensures
        0 <= model_rows::home(rows, current) <= at,
        !rows[model_rows::home(rows, current)].is_role,
        rows[model_rows::home(rows, current)].spec == current,
{
    lemma_home(rows, current, 0, at);
}

proof fn lemma_tiers_among(tiers: Seq<ModelTier>, held: Seq<ModelTier>, tier: ModelTier)
    ensures
        model_rows::tiers_among(tiers, held).contains(tier) <==> tiers.contains(tier)
            && held.contains(tier),
    decreases tiers.len(),
{
    if tiers.len() > 0 {
        let rest = tiers.drop_last();
        let before = model_rows::tiers_among(rest, held);
        let all = model_rows::tiers_among(tiers, held);
        lemma_tiers_among(rest, held, tier);
        if rest.contains(tier) {
            assert(tiers[rest.index_of(tier)] == tier);
        }
        if before.contains(tier) {
            assert(all[before.index_of(tier)] == tier);
        }
        if tiers.last() == tier && held.contains(tier) {
            assert(all[all.len() - 1] == tier);
            assert(tiers[tiers.len() - 1] == tier);
        }
        if all.contains(tier) && !before.contains(tier) {
            let k = all.index_of(tier);
            if k < before.len() {
                assert(before[k] == tier);
            }
            assert(tiers[tiers.len() - 1] == tier);
        }
        if tiers.contains(tier) && !rest.contains(tier) {
            let k = tiers.index_of(tier);
            if k < rest.len() {
                assert(rest[k] == tier);
            }
        }
    }
}

/// The row of a model knows every role that the user gave the model, so that the
/// key that gave a role takes it away again.
pub proof fn law_rows_know_their_roles(registry: Registry, spec: Seq<char>, tier: ModelTier)
    requires
        model_rows::parsed(registry, spec) is Some,
    ensures
        model_rows::parsed(registry, spec)->0.override_tiers.contains(tier) <==> registry.overrides(
            spec,
            tier,
        ),
{
    let tiers = model_rows::role_tiers();
    assert(tiers[0] == ModelTier::Strong && tiers[1] == ModelTier::Medium && tiers[2]
        == ModelTier::Weak && tiers[3] == ModelTier::Compaction && tiers[4] == ModelTier::Suggest);
    if let Some(facts) = registry.facts(spec) {
        lemma_tiers_among(tiers, facts.overrides@, tier);
    }
}

/// The level after so many presses of the key, starting from none.
pub open spec fn level_after(supported: Seq<Effort>, presses: nat) -> Option<Effort>
    decreases presses,
{
    if presses == 0 {
        None
    } else {
        model_picker::effort_after(level_after(supported, (presses - 1) as nat), supported)
    }
}

/// Pressing the key again and again walks through every level that the model
/// accepts, in their order, and then comes back to none.
pub proof fn law_effort_cycles(supported: Seq<Effort>, presses: nat)
    requires
        supported.no_duplicates(),
        presses <= supported.len() + 1,
    ensures
        level_after(supported, presses) == if presses == 0 || presses == supported.len() + 1 {
            None
        } else {
            Some(supported[presses - 1])
        },
    decreases presses,
{
    if presses > 0 {
        law_effort_cycles(supported, (presses - 1) as nat);
        if presses > 1 {
            supported.index_of_first_ensures(supported[presses - 2]);
        }
    }
}

/// A level that the model does not accept gives way to none.
pub proof fn law_stale_levels_are_dropped(supported: Seq<Effort>, level: Effort)
    requires
        !supported.contains(level),
    ensures
        model_picker::effort_after(Some(level), supported) is None,
{
    supported.index_of_first_ensures(level);
}

/// No action is ever taken on a row without a model behind it.
pub proof fn law_rows_without_a_model_are_inert(s: ModelPickerState, key: KeyEvent)
    ensures
        match s.pressed(key).1 {
            ModelChoice::Select(spec) => spec.len() > 0,
            ModelChoice::AssignTier(spec, _) => spec.len() > 0,
            ModelChoice::UnassignTier(spec, _) => spec.len() > 0,
            ModelChoice::SetEffort(spec, _) => spec.len() > 0,
            ModelChoice::ClearEffort(spec) => spec.len() > 0,
            _ => true,
        },
{
}

/// A key that types a character reaches the search box, unless it asks for help
/// or stands for a role.
pub proof fn law_plain_letters_reach_the_search_box(s: ModelPickerState, key: KeyEvent, c: char)
    requires
        s.list.open,
        !s.help,
        key.types() == Some(c),
        c != '?',
        model_picker::shortcut(key) is None,
    ensures
        s.pressed(key).0 == (ModelPickerState { list: s.list.searching(s.list.query.push(c)), ..s }),
        s.pressed(key).1 is Consumed,
{
}

/// Help is shown until the next key, which does nothing else.
pub proof fn law_help_swallows_the_next_key(s: ModelPickerState, question: KeyEvent, key: KeyEvent)
    requires
        !s.help,
        question.code == KeyCode::Char('?'),
        !question.modifiers.control,
    ensures
        s.pressed(question).0.help,
        s.pressed(question).0.pressed(key) == (s, ModelChoice::Consumed),
{
}

/// The keys for roles and effort leave the list as it is, open and where it was,
/// and have it brought up to date.
pub proof fn law_assigning_keeps_the_picker_open(s: ModelPickerState, key: KeyEvent)
    ensures
        match s.pressed(key).1 {
            ModelChoice::AssignTier(..)
            | ModelChoice::UnassignTier(..)
            | ModelChoice::SetEffort(..)
            | ModelChoice::ClearEffort(_) => s.pressed(key).0 == (ModelPickerState {
                dirty: true,
                ..s
            }),
            _ => true,
        },
{
}

}
