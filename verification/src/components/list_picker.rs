//! A list to pick from, narrowed down by typing.

use crate::key::{KeyCode, KeyEvent};
use crate::text;
use vstd::prelude::*;

verus! {

/// Something that can stand in a list.
pub trait PickerItem {
    /// What the item is called and found by.
    spec fn called(&self) -> Seq<char>;

    /// What follows the label, if anything.
    spec fn called_after(&self) -> Option<Seq<char>>;

    /// What is said about the item, if anything.
    spec fn detailed(&self) -> Option<Seq<char>>;

    /// The heading the item stands under, if any.
    spec fn headed(&self) -> Option<Seq<char>>;

    spec fn highlighted(&self) -> bool;

    /// A row about the list rather than part of it: it is not found by typing.
    spec fn summary(&self) -> bool;

    fn label(&self) -> (r: &str)
        ensures
            r@ == self.called(),
    ;

    fn suffix(&self) -> (r: Option<&str>)
        ensures
            str_view(r) == self.called_after(),
    ;

    fn detail(&self) -> (r: Option<&str>)
        ensures
            str_view(r) == self.detailed(),
    ;

    fn section(&self) -> (r: Option<&str>)
        ensures
            str_view(r) == self.headed(),
    ;

    fn is_highlighted(&self) -> (r: bool)
        ensures
            r == self.highlighted(),
    ;

    fn is_summary(&self) -> (r: bool)
        ensures
            r == self.summary(),
    ;
}

/// What an optional string slice holds.
pub open spec fn str_view(s: Option<&str>) -> Option<Seq<char>> {
    match s {
        Some(s) => Some(s@),
        None => None,
    }
}

/// What a key did to a list.
pub enum PickerAction<T> {
    Consumed,
    /// This item was picked; the list has closed.
    Select(T),
    Close,
}

/// The letter in lower case, when it is one of `A` to `Z`.
pub open spec fn folded(c: char) -> char {
    if 'A' <= c <= 'Z' {
        (c as u32 + 32) as char
    } else {
        c
    }
}

/// The characters of the query occur in the label in their order, in either case,
/// with anything between them.
pub open spec fn fuzzy(query: Seq<char>, label: Seq<char>) -> bool
    decreases label.len(),
{
    if query.len() == 0 {
        true
    } else if label.len() == 0 {
        false
    } else if folded(query[0]) == folded(label[0]) {
        fuzzy(query.skip(1), label.skip(1))
    } else {
        fuzzy(query, label.skip(1))
    }
}

/// Whether an item is listed: all are while nothing is typed, and then those that
/// match and are part of the list proper.
pub open spec fn listed<T: PickerItem>(item: T, query: Seq<char>) -> bool {
    query.len() == 0 || (!item.summary() && fuzzy(query, item.called()))
}

/// Which items are listed, in their order.
pub open spec fn listing<T: PickerItem>(items: Seq<T>, query: Seq<char>) -> Seq<int>
    decreases items.len(),
{
    if items.len() == 0 {
        Seq::empty()
    } else {
        let earlier = listing(items.drop_last(), query);
        if listed(items.last(), query) {
            earlier.push(items.len() - 1)
        } else {
            earlier
        }
    }
}

/// Where `index` stands in a listing; at its start when it does not.
pub open spec fn place_of(listing: Seq<int>, index: int) -> int {
    if listing.contains(index) {
        listing.index_of(index)
    } else {
        0
    }
}

/// What a list is in the middle of.
#[verifier::reject_recursive_types(T)]
pub struct PickerState<T> {
    pub open: bool,
    pub items: Seq<T>,
    pub query: Seq<char>,
    /// Which of the listed items is selected.
    pub selected: int,
}

impl<T: PickerItem> PickerState<T> {
    pub open spec fn listing(self) -> Seq<int> {
        listing(self.items, self.query)
    }

    /// The selection is one of the listed items, when there are any.
    pub open spec fn valid(self) -> bool {
        0 <= self.selected && (self.selected < self.listing().len() || self.selected == 0)
    }

    /// The selected item, if there is one.
    pub open spec fn choice(self) -> Option<T> {
        if self.selected < self.listing().len() {
            Some(self.items[self.listing()[self.selected]])
        } else {
            None
        }
    }

    pub open spec fn shut() -> PickerState<T> {
        PickerState { open: false, items: Seq::empty(), query: Seq::empty(), selected: 0 }
    }

    pub open spec fn opened(items: Seq<T>) -> PickerState<T> {
        PickerState { open: true, items, query: Seq::empty(), selected: 0 }
    }

    /// Other items under the same query.
    pub open spec fn with_items(self, items: Seq<T>) -> PickerState<T> {
        PickerState { items, selected: 0, ..self }
    }

    /// Item `index` selected, or the first listed when it is not listed.
    pub open spec fn selecting(self, index: int) -> PickerState<T> {
        PickerState { selected: place_of(self.listing(), index), ..self }
    }

    pub open spec fn searching(self, query: Seq<char>) -> PickerState<T> {
        PickerState { query, selected: 0, ..self }
    }

    /// The selection moved along the listing, no further than its ends.
    pub open spec fn moved(self, delta: int) -> PickerState<T> {
        let to = self.selected + delta;
        let last = self.listing().len() - 1;
        PickerState {
            selected: if to < 0 || last < 0 {
                0
            } else if to > last {
                last
            } else {
                to
            },
            ..self
        }
    }

    /// What a key does.
    pub open spec fn pressed(self, key: KeyEvent) -> (PickerState<T>, PickerAction<T>) {
        if !self.open {
            (self, PickerAction::Consumed)
        } else if key.code == KeyCode::Esc || key.chord('c') {
            (PickerState::shut(), PickerAction::Close)
        } else if key.types() is Some {
            (self.searching(self.query.push(key.types()->0)), PickerAction::Consumed)
        } else {
            match key.code {
                KeyCode::Enter => match self.choice() {
                    Some(item) => (PickerState::shut(), PickerAction::Select(item)),
                    None => (self, PickerAction::Consumed),
                },
                KeyCode::Backspace => if self.query.len() > 0 {
                    (self.searching(self.query.drop_last()), PickerAction::Consumed)
                } else {
                    (self, PickerAction::Consumed)
                },
                KeyCode::Up => (self.moved(-1), PickerAction::Consumed),
                KeyCode::Down => (self.moved(1), PickerAction::Consumed),
                _ => (self, PickerAction::Consumed),
            }
        }
    }
}

fn fold(c: char) -> (r: char)
    ensures
        r == folded(c),
{
    if 'A' <= c && c <= 'Z' {
        ((c as u8) + 32) as char
    } else {
        c
    }
}

/// Whether the characters of the query occur in the label in their order.
pub fn matches_query(query: &[char], label: &str) -> (r: bool)
    ensures
        r == fuzzy(query@, label@),
{
    let label_chars: Vec<char> = text::chars_of(label);
    let mut i: usize = 0;
    let mut k: usize = 0;
    assert(query@.skip(0) =~= query@);
    assert(label_chars@.skip(0) =~= label_chars@);
    while i < query.len() && k < label_chars.len()
        invariant
            label_chars@ == label@,
            i <= query@.len(),
            k <= label_chars@.len(),
            fuzzy(query@, label@) == fuzzy(query@.skip(i as int), label_chars@.skip(k as int)),
        decreases label_chars@.len() - k,
    {
        let ghost q = query@.skip(i as int);
        let ghost l = label_chars@.skip(k as int);
        assert(q[0] == query@[i as int] && l[0] == label_chars@[k as int]);
        assert(q.skip(1) =~= query@.skip(i + 1));
        assert(l.skip(1) =~= label_chars@.skip(k + 1));
        if fold(query[i]) == fold(label_chars[k]) {
            i += 1;
        }
        k += 1;
    }
    i == query.len()
}

pub struct ListPicker<T: PickerItem> {
    open: bool,
    items: Vec<T>,
    title: String,
    query: Vec<char>,
    /// Indices of the listed items.
    visible: Vec<usize>,
    selected: usize,
    max_visible: Option<u16>,
    area: Area,
}

/// A rectangle of cells on the screen.
#[derive(Clone, Copy, PartialEq, Eq, Debug, Structural)]
pub struct Area {
    pub x: u16,
    pub y: u16,
    pub width: u16,
    pub height: u16,
}

impl Area {
    /// The column after the last, as far as columns are numbered.
    pub open spec fn right(self) -> int {
        if self.x + self.width > u16::MAX {
            u16::MAX as int
        } else {
            self.x + self.width
        }
    }

    /// The row after the last, as far as rows are numbered.
    pub open spec fn bottom(self) -> int {
        if self.y + self.height > u16::MAX {
            u16::MAX as int
        } else {
            self.y + self.height
        }
    }

    pub open spec fn covers(self, x: int, y: int) -> bool {
        self.x <= x < self.right() && self.y <= y < self.bottom()
    }
}

/// How a list is put on the screen.
pub struct PickerFrame {
    pub title: Seq<char>,
    /// How many rows are shown at most.
    pub max_visible: Option<u16>,
    /// Where it was last drawn.
    pub area: Area,
}

pub open spec fn index_views(indices: Seq<usize>) -> Seq<int> {
    indices.map_values(|i: usize| i as int)
}

impl<T: PickerItem> View for ListPicker<T> {
    type V = PickerState<T>;

    closed spec fn view(&self) -> PickerState<T> {
        PickerState {
            open: self.open,
            items: self.items@,
            query: self.query@,
            selected: self.selected as int,
        }
    }
}

/// The indices in a listing are of items, and the listing holds each once.
pub proof fn lemma_listing<T: PickerItem>(items: Seq<T>, query: Seq<char>)
    ensures
        listing(items, query).len() <= items.len(),
        forall|i: int|
            0 <= i < listing(items, query).len() ==> 0 <= #[trigger] listing(items, query)[i]
                < items.len() && listed(items[listing(items, query)[i]], query),
        forall|i: int, j: int|
            0 <= i < j < listing(items, query).len() ==> (#[trigger] listing(items, query)[i])
                < (#[trigger] listing(items, query)[j]),
        forall|k: int|
            0 <= k < items.len() && listed(#[trigger] items[k], query) ==> listing(
                items,
                query,
            ).contains(k),
    decreases items.len(),
{
    if items.len() > 0 {
        let rest = items.drop_last();
        let earlier = listing(rest, query);
        let all = listing(items, query);
        lemma_listing(rest, query);
        assert forall|i: int| 0 <= i < all.len() implies 0 <= #[trigger] all[i] < items.len()
            && listed(items[all[i]], query) by {
            if i < earlier.len() {
                assert(all[i] == earlier[i]);
                assert(items[all[i]] == rest[all[i]]);
            }
        }
        assert forall|i: int, j: int| 0 <= i < j < all.len() implies (#[trigger] all[i]) < (
        #[trigger] all[j]) by {
            assert(all[i] == earlier[i]);
            if j < earlier.len() {
                assert(all[j] == earlier[j]);
            }
        }
        assert forall|k: int|
            0 <= k < items.len() && listed(#[trigger] items[k], query) implies all.contains(k) by {
            if k < rest.len() {
                assert(rest[k] == items[k]);
                let i = earlier.index_of(k);
                assert(earlier.contains(k));
                assert(all[i] == k);
            } else {
                assert(all[all.len() - 1] == k);
            }
        }
    }
}

/// While nothing is typed, everything is listed where it stands.
pub proof fn lemma_all_listed<T: PickerItem>(items: Seq<T>)
    ensures
        listing(items, Seq::empty()) == Seq::new(items.len(), |i: int| i),
    decreases items.len(),
{
    if items.len() > 0 {
        lemma_all_listed(items.drop_last());
    }
    assert(listing(items, Seq::empty()) =~= Seq::new(items.len(), |i: int| i));
}

/// In a list that was just opened, selecting an item lands on its own row.
pub proof fn lemma_select_when_opened<T: PickerItem>(items: Seq<T>, k: int)
    requires
        0 <= k < items.len() || k == 0,
    ensures
        PickerState::opened(items).selecting(k).selected == k,
{
    lemma_all_listed(items);
    let all = listing(items, Seq::empty());
    if k < items.len() {
        assert(all[k] == k);
        let at = all.index_of(k);
        assert(all.contains(k));
        assert(all[at] == k);
    } else {
        assert(all.len() == 0);
    }
}

/// While something is typed, no summary row is listed and every other item whose
/// label matches is.
pub proof fn law_search_finds_exactly_the_matches<T: PickerItem>(s: PickerState<T>, k: int)
    requires
        s.query.len() > 0,
        0 <= k < s.items.len(),
    ensures
        s.listing().contains(k) <==> !s.items[k].summary() && fuzzy(s.query, s.items[k].called()),
{
    lemma_listing(s.items, s.query);
    if s.listing().contains(k) {
        let i = s.listing().index_of(k);
        assert(s.listing()[i] == k);
        assert(listed(s.items[k], s.query));
    }
}

/// The selected item is the one at the given index, when that one is listed.
pub proof fn law_selecting_a_listed_item_chooses_it<T: PickerItem>(s: PickerState<T>, k: int)
    requires
        s.listing().contains(k),
    ensures
        s.selecting(k).choice() == Some(s.items[k]),
        s.selecting(k).valid(),
{
}

impl<T: PickerItem> ListPicker<T> {
    /// What is kept between calls: the listing is that of the items and the query,
    /// and the selection is in it.
    pub closed spec fn valid(&self) -> bool {
        index_views(self.visible@) == listing(self.items@, self.query@) && self@.valid()
    }

    pub fn new() -> (picker: ListPicker<T>)
        ensures
            picker@ == PickerState::<T>::shut(),
            picker.valid(),
            picker.frame() == (PickerFrame {
                title: Seq::empty(),
                max_visible: None,
                area: Area { x: 0, y: 0, width: 0, height: 0 },
            }),
    {
        let picker: ListPicker<T> = ListPicker {
            open: false,
            items: Vec::new(),
            title: String::new(),
            query: Vec::new(),
            visible: Vec::new(),
            selected: 0,
            max_visible: None,
            area: Area { x: 0, y: 0, width: 0, height: 0 },
        };
        assert(picker.title@ =~= Seq::empty());
        assert(index_views(picker.visible@) =~= listing(picker.items@, picker.query@));
        picker
    }

    /// How the list is put on the screen.
    pub closed spec fn frame(&self) -> PickerFrame {
        PickerFrame { title: self.title@, max_visible: self.max_visible, area: self.area }
    }

    /// The same list with at most this many rows shown.
    pub fn with_max_visible(self, rows: u16) -> (picker: ListPicker<T>)
        ensures
            picker@ == self@,
            picker.valid() == self.valid(),
            picker.frame() == (PickerFrame { max_visible: Some(rows), ..self.frame() }),
    {
        let mut picker: ListPicker<T> = self;
        picker.max_visible = Some(rows);
        picker
    }

    pub fn max_visible(&self) -> (r: Option<u16>)
        ensures
            r == self.frame().max_visible,
    {
        self.max_visible
    }

    pub fn title(&self) -> (r: &str)
        ensures
            r@ == self.frame().title,
    {
        self.title.as_str()
    }

    /// Remembers where the list was drawn.
    pub fn set_area(&mut self, area: Area)
        ensures
            final(self)@ == old(self)@,
            final(self).valid() == old(self).valid(),
            final(self).frame() == (PickerFrame { area, ..old(self).frame() }),
    {
        self.area = area;
    }

    /// Whether a cell of the screen is one that the list was last drawn in.
    pub fn contains(&self, x: u16, y: u16) -> (r: bool)
        ensures
            r == self.frame().area.covers(x as int, y as int),
    {
        let area: Area = self.area;
        x >= area.x && x < area.x.saturating_add(area.width) && y >= area.y && y
            < area.y.saturating_add(area.height)
    }

    fn relist(&mut self)
        ensures
            final(self)@ == (PickerState { selected: 0, ..old(self)@ }),
            final(self).valid(),
            final(self).frame() == old(self).frame(),
    {
        let mut visible: Vec<usize> = Vec::new();
        let mut i: usize = 0;
        let ghost items = self.items@;
        assert(index_views(visible@) =~= listing(items.take(0), self.query@));
        while i < self.items.len()
            invariant
                items == self.items@,
                i <= items.len(),
                index_views(visible@) == listing(items.take(i as int), self.query@),
            decreases items.len() - i,
        {
            let ghost had = index_views(visible@);
            assert(items.take(i + 1).drop_last() =~= items.take(i as int));
            if self.query.len() == 0 || (!self.items[i].is_summary() && matches_query(
                self.query.as_slice(),
                self.items[i].label(),
            )) {
                visible.push(i);
                assert(index_views(visible@) =~= had.push(i as int));
            }
            i += 1;
        }
        assert(items.take(i as int) =~= items);
        self.visible = visible;
        self.selected = 0;
    }

    /// Shows these items.
    pub fn open(&mut self, items: Vec<T>, title: &str)
        ensures
            final(self)@ == PickerState::opened(items@),
            final(self).valid(),
            final(self).frame() == (PickerFrame { title: title@, ..old(self).frame() }),
    {
        self.open = true;
        self.items = items;
        self.title = title.to_string();
        self.query = Vec::new();
        assert(self.query@ =~= Seq::empty());
        self.relist();
    }

    /// Shows other items under the same query.
    pub fn replace_items(&mut self, items: Vec<T>)
        ensures
            final(self)@ == old(self)@.with_items(items@),
            final(self).valid(),
            final(self).frame() == old(self).frame(),
    {
        self.items = items;
        self.relist();
    }

    /// Selects the item at an index, or the first listed when it is not listed.
    pub fn select(&mut self, index: usize)
        requires
            old(self).valid(),
        ensures
            final(self)@ == old(self)@.selecting(index as int),
            final(self).valid(),
            final(self).frame() == old(self).frame(),
    {
        let ghost all = listing(self.items@, self.query@);
        proof {
            lemma_listing(self.items@, self.query@);
        }
        let mut i: usize = 0;
        while i < self.visible.len()
            invariant
                self.valid(),
                self@ == old(self)@,
                self.frame() == old(self).frame(),
                all == index_views(self.visible@),
                all == listing(self.items@, self.query@),
                i <= self.visible@.len(),
                forall|k: int| 0 <= k < i ==> #[trigger] all[k] != index,
                forall|a: int, b: int|
                    0 <= a < b < all.len() ==> (#[trigger] all[a]) < (#[trigger] all[b]),
            decreases self.visible@.len() - i,
        {
            assert(all[i as int] == self.visible@[i as int]);
            if self.visible[i] == index {
                proof {
                    assert(all.contains(index as int));
                    let at = all.index_of(index as int);
                    assert(all[at] == index);
                    if at < i {
                        assert(all[at] != index);
                    } else if at > i {
                        assert(all[i as int] < all[at]);
                    }
                }
                self.selected = i;
                return;
            }
            i += 1;
        }
        assert(!all.contains(index as int));
        self.selected = 0;
    }

    pub fn is_open(&self) -> (r: bool)
        ensures
            r == self@.open,
    {
        self.open
    }

    /// Puts the list away.
    pub fn close(&mut self)
        ensures
            final(self)@ == PickerState::<T>::shut(),
            final(self).valid(),
            final(self).frame() == old(self).frame(),
    {
        self.open = false;
        self.items = Vec::new();
        self.query = Vec::new();
        self.visible = Vec::new();
        self.selected = 0;
        proof {
            assert(self.items@ =~= Seq::empty());
            assert(self.query@ =~= Seq::empty());
            assert(index_views(self.visible@) =~= listing(self.items@, self.query@));
        }
    }

    /// What was typed to narrow the list down.
    pub fn query(&self) -> (r: String)
        ensures
            r@ == self@.query,
    {
        text::string_of(self.query.as_slice())
    }

    /// How many items are listed.
    pub fn visible_len(&self) -> (n: usize)
        requires
            self.valid(),
        ensures
            n == self@.listing().len(),
    {
        assert(index_views(self.visible@).len() == self.visible@.len());
        self.visible.len()
    }

    /// One of the listed items.
    pub fn visible_item(&self, row: usize) -> (item: &T)
        requires
            self.valid(),
            row < self@.listing().len(),
        ensures
            *item == self@.items[self@.listing()[row as int]],
    {
        proof {
            lemma_listing(self.items@, self.query@);
            assert(index_views(self.visible@)[row as int] == self.visible@[row as int]);
        }
        &self.items[self.visible[row]]
    }

    /// Which of the listed items is selected.
    pub fn selected_row(&self) -> (row: usize)
        ensures
            row == self@.selected,
    {
        self.selected
    }

    /// The selected item, if there is one.
    pub fn selected_item(&self) -> (item: Option<&T>)
        requires
            self.valid(),
        ensures
            match item {
                Some(item) => self@.choice() == Some(*item),
                None => self@.choice() is None,
            },
    {
        if self.selected < self.visible_len() {
            Some(self.visible_item(self.selected))
        } else {
            None
        }
    }

    /// Moves the selection, no further than the ends of the listing.
    pub fn scroll(&mut self, delta: i32)
        requires
            old(self).valid(),
        ensures
            final(self)@ == old(self)@.moved(delta as int),
            final(self).valid(),
            final(self).frame() == old(self).frame(),
    {
        let count: usize = self.visible_len();
        if count == 0 {
            self.selected = 0;
        } else if delta < 0 {
            let back: u64 = (0 - (delta as i64)) as u64;
            self.selected = if (self.selected as u64) < back {
                0
            } else {
                self.selected - back as usize
            };
        } else {
            let room: usize = count - 1 - self.selected;
            self.selected = if (room as u64) < delta as u64 {
                count - 1
            } else {
                self.selected + delta as usize
            };
        }
    }

    fn search(&mut self, query: Vec<char>)
        ensures
            final(self)@ == old(self)@.searching(query@),
            final(self).valid(),
            final(self).frame() == old(self).frame(),
    {
        self.query = query;
        self.relist();
    }

    /// Adds pasted text to the query of an open list and says whether it did.
    pub fn handle_paste(&mut self, pasted: &str) -> (taken: bool)
        requires
            old(self).valid(),
        ensures
            taken == old(self)@.open,
            final(self)@ == if taken {
                old(self)@.searching(old(self)@.query + pasted@)
            } else {
                old(self)@
            },
            final(self).valid(),
            final(self).frame() == old(self).frame(),
    {
        if !self.open {
            return false;
        }
        let mut query: Vec<char> = vstd::slice::slice_to_vec(self.query.as_slice());
        let mut more: Vec<char> = text::chars_of(pasted);
        query.append(&mut more);
        self.search(query);
        true
    }

    pub fn handle_key(&mut self, key: KeyEvent) -> (action: PickerAction<T>)
        requires
            old(self).valid(),
        ensures
            (final(self)@, action) == old(self)@.pressed(key),
            final(self).valid(),
            final(self).frame() == old(self).frame(),
    {
        if !self.open {
            return PickerAction::Consumed;
        }
        if key.code == KeyCode::Esc || key.is_chord('c') {
            self.close();
            return PickerAction::Close;
        }
        if let Some(c) = key.typed() {
            let mut query: Vec<char> = vstd::slice::slice_to_vec(self.query.as_slice());
            query.push(c);
            self.search(query);
            return PickerAction::Consumed;
        }
        match key.code {
            KeyCode::Enter => {
                if self.selected < self.visible_len() {
                    proof {
                        lemma_listing(self.items@, self.query@);
                        assert(index_views(self.visible@)[self.selected as int]
                            == self.visible@[self.selected as int]);
                    }
                    let at: usize = self.visible[self.selected];
                    let item: T = self.items.swap_remove(at);
                    self.close();
                    return PickerAction::Select(item);
                }
            },
            KeyCode::Backspace => {
                if self.query.len() > 0 {
                    let mut query: Vec<char> = vstd::slice::slice_to_vec(self.query.as_slice());
                    let _dropped: Option<char> = query.pop();
                    self.search(query);
                }
            },
            KeyCode::Up => {
                self.scroll(-1);
            },
            KeyCode::Down => {
                self.scroll(1);
            },
            _ => {},
        }
        PickerAction::Consumed
    }
}

}
