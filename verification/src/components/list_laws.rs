//! How a list is searched and walked.

use super::list_picker;
use super::list_picker::{Area, PickerAction, PickerItem, PickerState};
use crate::key::{KeyCode, KeyEvent};
use vstd::prelude::*;

verus! {

/// The places in the label at which the characters of a query stand, one after the
/// other, in either case.
pub open spec fn found_at(query: Seq<char>, label: Seq<char>, at: Seq<int>) -> bool {
    &&& at.len() == query.len()
    &&& forall|i: int|
        0 <= i < at.len() ==> 0 <= #[trigger] at[i] < label.len() && list_picker::folded(query[i])
            == list_picker::folded(label[at[i]])
    &&& forall|i: int, j: int| 0 <= i < j < at.len() ==> #[trigger] at[i] < #[trigger] at[j]
}

/// A letter from `A` to `Z` counts as the one from `a` to `z`, and every other
/// character as itself.
pub proof fn law_letters_match_in_either_case(c: char)
    ensures
        65 <= c as int <= 90 ==> list_picker::folded(c) as int == c as int + 32,
        !(65 <= c as int <= 90) ==> list_picker::folded(c) == c,
{
}

proof fn lemma_found_is_fuzzy(query: Seq<char>, label: Seq<char>, at: Seq<int>)
    requires
        found_at(query, label, at),
    ensures
        list_picker::fuzzy(query, label),
    decreases label.len(),
{
    if query.len() > 0 {
        assert(0 <= at[0] < label.len());
        if list_picker::folded(query[0]) == list_picker::folded(label[0]) {
            let rest = Seq::new((at.len() - 1) as nat, |i: int| at[i + 1] - 1);
            assert forall|i: int| 0 <= i < rest.len() implies 0 <= #[trigger] rest[i] < label.skip(
                1,
            ).len() && list_picker::folded(query.skip(1)[i]) == list_picker::folded(
                label.skip(1)[rest[i]],
            ) by {
                assert(at[0] < at[i + 1]);
            }
            assert forall|i: int, j: int| 0 <= i < j < rest.len() implies #[trigger] rest[i]
                < #[trigger] rest[j] by {
                assert(at[i + 1] < at[j + 1]);
            }
            lemma_found_is_fuzzy(query.skip(1), label.skip(1), rest);
        } else {
            let rest = Seq::new(at.len(), |i: int| at[i] - 1);
            assert(at[0] != 0);
            assert forall|i: int| 0 <= i < rest.len() implies 0 <= #[trigger] rest[i] < label.skip(
                1,
            ).len() && list_picker::folded(query[i]) == list_picker::folded(
                label.skip(1)[rest[i]],
            ) by {
                assert(0 <= at[i] < label.len());
                if i > 0 {
                    assert(at[0] < at[i]);
                }
            }
            assert forall|i: int, j: int| 0 <= i < j < rest.len() implies #[trigger] rest[i]
                < #[trigger] rest[j] by {
                assert(at[i] < at[j]);
            }
            lemma_found_is_fuzzy(query, label.skip(1), rest);
        }
    }
}

proof fn lemma_fuzzy_is_found(query: Seq<char>, label: Seq<char>) -> (at: Seq<int>)
    requires
        list_picker::fuzzy(query, label),
    ensures
        found_at(query, label, at),
    decreases label.len(),
{
    if query.len() == 0 {
        Seq::empty()
    } else if list_picker::folded(query[0]) == list_picker::folded(label[0]) {
        let rest = lemma_fuzzy_is_found(query.skip(1), label.skip(1));
        let at = Seq::new(
            query.len(),
            |i: int|
                if i == 0 {
                    0int
                } else {
                    rest[i - 1] + 1
                },
        );
        assert forall|i: int| 0 <= i < at.len() implies 0 <= #[trigger] at[i] < label.len()
            && list_picker::folded(query[i]) == list_picker::folded(label[at[i]]) by {
            if i > 0 {
                assert(0 <= rest[i - 1] < label.skip(1).len());
                assert(query.skip(1)[i - 1] == query[i]);
                assert(label.skip(1)[rest[i - 1]] == label[at[i]]);
            }
        }
        assert forall|i: int, j: int| 0 <= i < j < at.len() implies #[trigger] at[i]
            < #[trigger] at[j] by {
            assert(0 <= rest[j - 1]);
            if i > 0 {
                assert(rest[i - 1] < rest[j - 1]);
            }
        }
        at
    } else {
        let rest = lemma_fuzzy_is_found(query, label.skip(1));
        let at = Seq::new(query.len(), |i: int| rest[i] + 1);
        assert forall|i: int| 0 <= i < at.len() implies 0 <= #[trigger] at[i] < label.len()
            && list_picker::folded(query[i]) == list_picker::folded(label[at[i]]) by {
            assert(0 <= rest[i] < label.skip(1).len());
            assert(label.skip(1)[rest[i]] == label[at[i]]);
        }
        assert forall|i: int, j: int| 0 <= i < j < at.len() implies #[trigger] at[i]
            < #[trigger] at[j] by {
            assert(rest[i] < rest[j]);
        }
        at
    }
}

/// A query finds a label exactly when its characters stand somewhere in it, in their
/// order.
pub proof fn law_a_query_finds_what_it_is_spread_over(query: Seq<char>, label: Seq<char>)
    ensures
        list_picker::fuzzy(query, label) <==> exists|at: Seq<int>| found_at(query, label, at),
{
    if list_picker::fuzzy(query, label) {
        let at = lemma_fuzzy_is_found(query, label);
        assert(found_at(query, label, at));
    }
    if exists|at: Seq<int>| found_at(query, label, at) {
        let at = choose|at: Seq<int>| found_at(query, label, at);
        lemma_found_is_fuzzy(query, label, at);
    }
}

/// A listing goes through the items in their order and holds each that matches once;
/// while nothing is typed it holds all of them.
pub proof fn law_a_listing_keeps_the_order<T: PickerItem>(s: PickerState<T>, k: int)
    ensures
        forall|i: int, j: int|
            0 <= i < j < s.listing().len() ==> (#[trigger] s.listing()[i])
                < (#[trigger] s.listing()[j]),
        s.listing().contains(k) ==> 0 <= k < s.items.len(),
        s.query.len() == 0 ==> (s.listing().contains(k) <==> 0 <= k < s.items.len()),
        s.query.len() > 0 && 0 <= k < s.items.len() ==> (s.listing().contains(k)
            <==> !s.items[k].summary() && list_picker::fuzzy(s.query, s.items[k].called())),
{
    list_picker::lemma_listing(s.items, s.query);
    if s.listing().contains(k) {
        let i = s.listing().index_of(k);
        assert(s.listing()[i] == k);
        assert(list_picker::listed(s.items[k], s.query));
    }
    if s.query.len() == 0 && 0 <= k < s.items.len() {
        assert(list_picker::listed(s.items[k], s.query));
    }
    if s.query.len() > 0 && 0 <= k < s.items.len() {
        list_picker::law_search_finds_exactly_the_matches(s, k);
    }
}

/// The selected item is the one in the selected place of the listing.
pub proof fn law_the_choice_is_the_selected_item<T: PickerItem>(s: PickerState<T>)
    ensures
        0 <= s.selected < s.listing().len() ==> s.choice() == Some(
            s.items[s.listing()[s.selected]],
        ),
        s.selected >= s.listing().len() ==> s.choice() is None,
{
}

/// Selecting an item that is listed selects its place in the listing, and one that is
/// not selects the first; nothing else changes.
pub proof fn law_selecting_goes_to_the_item<T: PickerItem>(s: PickerState<T>, k: int, place: int)
    ensures
        0 <= place < s.listing().len() && s.listing()[place] == k ==> s.selecting(k).selected
            == place,
        !s.listing().contains(k) ==> s.selecting(k).selected == 0,
        s.selecting(k) == (PickerState { selected: s.selecting(k).selected, ..s }),
{
    list_picker::lemma_listing(s.items, s.query);
    if 0 <= place < s.listing().len() && s.listing()[place] == k {
        assert(s.listing().contains(k));
        let at = s.listing().index_of(k);
        assert(s.listing()[at] == k);
        if at < place {
            assert(s.listing()[at] < s.listing()[place]);
        } else if place < at {
            assert(s.listing()[place] < s.listing()[at]);
        }
    }
}

/// Scrolling goes as far as it is told to, or to the end of the listing when that is
/// nearer; nothing else changes.
pub proof fn law_scrolling_stops_at_the_ends<T: PickerItem>(s: PickerState<T>, delta: int)
    requires
        s.valid(),
    ensures
        ({
            let last = s.listing().len() - 1;
            let to = s.selected + delta;
            &&& 0 <= to <= last ==> s.moved(delta).selected == to
            &&& to < 0 ==> s.moved(delta).selected == 0
            &&& to > last && last >= 0 ==> s.moved(delta).selected == last
            &&& last < 0 ==> s.moved(delta).selected == 0
            &&& s.moved(delta) == (PickerState { selected: s.moved(delta).selected, ..s })
        }),
{
}

/// What each key does to a list that is open.
pub proof fn law_keys_in_an_open_list<T: PickerItem>(s: PickerState<T>, key: KeyEvent)
    requires
        s.open,
    ensures
        match key.code {
            KeyCode::Esc => s.pressed(key) == (PickerState::<T>::shut(), PickerAction::<T>::Close),
            KeyCode::Char(c) => {
                &&& c == 'c' && key.modifiers.control ==> s.pressed(key) == (
                    PickerState::<T>::shut(),
                    PickerAction::<T>::Close,
                )
                &&& !key.modifiers.control && !key.modifiers.alt ==> s.pressed(key) == (
                    PickerState { query: s.query.push(c), selected: 0, ..s },
                    PickerAction::<T>::Consumed,
                )
                &&& (key.modifiers.control || key.modifiers.alt) && !(c == 'c'
                    && key.modifiers.control) ==> s.pressed(key) == (
                    s,
                    PickerAction::<T>::Consumed,
                )
            },
            KeyCode::Enter => {
                &&& s.choice() matches Some(item) ==> s.pressed(key) == (
                    PickerState::<T>::shut(),
                    PickerAction::Select(item),
                )
                &&& s.choice() is None ==> s.pressed(key) == (s, PickerAction::<T>::Consumed)
            },
            KeyCode::Backspace => {
                &&& s.query.len() > 0 ==> s.pressed(key) == (
                    PickerState { query: s.query.drop_last(), selected: 0, ..s },
                    PickerAction::<T>::Consumed,
                )
                &&& s.query.len() == 0 ==> s.pressed(key) == (s, PickerAction::<T>::Consumed)
            },
            KeyCode::Up => s.pressed(key) == (s.moved(-1), PickerAction::<T>::Consumed),
            KeyCode::Down => s.pressed(key) == (s.moved(1), PickerAction::<T>::Consumed),
            _ => s.pressed(key) == (s, PickerAction::<T>::Consumed),
        },
{
}

/// A list that is shut takes no keys.
pub proof fn law_a_shut_list_takes_no_keys<T: PickerItem>(s: PickerState<T>, key: KeyEvent)
    requires
        !s.open,
    ensures
        s.pressed(key) == (s, PickerAction::<T>::Consumed),
{
}

/// A list opens on all of its items with the first selected; other items keep what was
/// typed and start over; a list that is shut keeps nothing.
pub proof fn law_opening_and_shutting<T: PickerItem>(s: PickerState<T>, items: Seq<T>)
    ensures
        PickerState::opened(items) == (PickerState {
            open: true,
            items,
            query: Seq::empty(),
            selected: 0,
        }),
        s.with_items(items) == (PickerState { items, selected: 0, ..s }),
        PickerState::<T>::shut() == (PickerState::<T> {
            open: false,
            items: Seq::empty(),
            query: Seq::empty(),
            selected: 0,
        }),
{
}

/// A cell is inside an area exactly from its corner on, for so many columns and rows.
pub proof fn law_an_area_covers_its_cells(area: Area, x: int, y: int)
    requires
        area.x + area.width <= u16::MAX,
        area.y + area.height <= u16::MAX,
    ensures
        area.covers(x, y) <==> 0 <= x - area.x < area.width && 0 <= y - area.y < area.height,
{
}

/// An area that reaches past the last column or row ends with it.
pub proof fn law_an_area_ends_where_numbers_do(area: Area, x: int, y: int)
    ensures
        area.covers(x, y) <==> area.x <= x && x < area.right() && area.y <= y && y < area.bottom(),
        area.x + area.width > 65535 ==> area.right() == 65535,
        area.x + area.width <= 65535 ==> area.right() == area.x + area.width,
        area.y + area.height > 65535 ==> area.bottom() == 65535,
        area.y + area.height <= 65535 ==> area.bottom() == area.y + area.height,
{
}

}
