//! A picker for models: which one to run, which roles they hold and how hard they
//! reason.

use super::list_picker;
use super::list_picker::{Area, ListPicker, PickerAction, PickerState};
use super::model_rows;
use super::model_rows::ModelEntry;
use crate::key::{KeyCode, KeyEvent};
use crate::models::{Effort, ModelTier};
use crate::registry;
use crate::registry::Registry;
use crate::styled;
use crate::styled::{Line, Tone};
use crate::text;
use std::sync::Arc;
use vstd::prelude::*;

verus! {

pub const TITLE: &'static str = " Models ";

pub const HELP_TITLE: &'static str = " Models help ";

pub const HELP_WIDTH_PERCENT: u16 = 72;

pub const HELP_MAX_HEIGHT_PERCENT: u16 = 80;

/// The specs of the models there are, published by whoever looks them up and read
/// by the picker. Two handles on one list are equal, whatever the list holds: a
/// handle stands for the list itself, not for what was published in it.
#[verifier::external_body]
pub struct SharedModels {
    cell: Arc<arc_swap::ArcSwapOption<Vec<String>>>,
}

/// Whether a list, or that there is none yet, was at some time what a cell held.
pub uninterp spec fn was_held(models: SharedModels, specs: Option<Arc<Vec<String>>>) -> bool;

impl SharedModels {
    /// `ArcSwapOption::empty`: a cell that holds nothing to begin with. Others may
    /// publish at any time, so that nothing is said of what it holds later.
    #[verifier::external_body]
    fn new_cell() -> (models: SharedModels)
        ensures
            was_held(models, None),
    {
        SharedModels { cell: Arc::new(arc_swap::ArcSwapOption::empty()) }
    }

    /// `ArcSwapAny::store`: puts a list in place of the one before.
    #[verifier::external_body]
    fn replace(&self, specs: Vec<String>) {
        self.cell.store(Some(Arc::new(specs)))
    }

    /// `ArcSwapAny::load_full`: the list that was published last. Another thread may
    /// publish at any time, so that only this is said of what comes back: the cell held
    /// it.
    #[verifier::external_body]
    fn load(&self) -> (specs: Option<Arc<Vec<String>>>)
        ensures
            was_held(*self, specs),
    {
        self.cell.load_full()
    }

    /// `Arc::clone`: another pointer to the same cell, so that what is published
    /// through either handle is published for both.
    #[verifier::external_body]
    fn same_cell(&self) -> (models: SharedModels)
        ensures
            models == *self,
    {
        SharedModels { cell: Arc::clone(&self.cell) }
    }

    /// A list in which nothing was published yet.
    pub fn empty() -> (models: SharedModels)
        ensures
            was_held(models, None),
    {
        SharedModels::new_cell()
    }

    /// Publishes a list in place of the one before.
    pub fn store(&self, specs: Vec<String>) {
        self.replace(specs)
    }

    /// Another handle on the same list.
    pub fn share(&self) -> (models: SharedModels)
        ensures
            models == *self,
    {
        self.same_cell()
    }
}

pub enum ModelPickerAction {
    Consumed,
    Select(String),
    AssignTier(String, ModelTier),
    UnassignTier(String, ModelTier),
    SetEffort(String, Effort),
    ClearEffort(String),
    Close,
}

/// What an action says.
pub enum ModelChoice {
    Consumed,
    Select(Seq<char>),
    AssignTier(Seq<char>, ModelTier),
    UnassignTier(Seq<char>, ModelTier),
    SetEffort(Seq<char>, Effort),
    ClearEffort(Seq<char>),
    Close,
}

impl View for ModelPickerAction {
    type V = ModelChoice;

    open spec fn view(&self) -> ModelChoice {
        match self {
            ModelPickerAction::Consumed => ModelChoice::Consumed,
            ModelPickerAction::Select(spec) => ModelChoice::Select(spec@),
            ModelPickerAction::AssignTier(spec, tier) => ModelChoice::AssignTier(spec@, *tier),
            ModelPickerAction::UnassignTier(spec, tier) => ModelChoice::UnassignTier(spec@, *tier),
            ModelPickerAction::SetEffort(spec, level) => ModelChoice::SetEffort(spec@, *level),
            ModelPickerAction::ClearEffort(spec) => ModelChoice::ClearEffort(spec@),
            ModelPickerAction::Close => ModelChoice::Close,
        }
    }
}

/// The level after the current one: the first when none is chosen, none after the
/// last, and none after a level that the model does not accept.
pub open spec fn effort_after(current: Option<Effort>, supported: Seq<Effort>) -> Option<Effort> {
    match current {
        None => if supported.len() > 0 {
            Some(supported[0])
        } else {
            None
        },
        Some(level) => {
            let at = supported.index_of_first(level);
            if at is Some && at->0 + 1 < supported.len() {
                Some(supported[at->0 + 1])
            } else {
                None
            }
        },
    }
}

/// Walks the model's own levels and falls off the end back to `None`, which means
/// to follow the session's setting. A stale level that the model no longer lists
/// also lands on `None` rather than sticking.
pub fn next_effort(current: Option<Effort>, supported: &Vec<Effort>) -> (next: Option<Effort>)
    ensures
        next == effort_after(current, supported@),
{
    let level: Effort = match current {
        Some(level) => level,
        None => {
            return if supported.len() > 0 {
                Some(supported[0])
            } else {
                None
            };
        },
    };
    let mut i: usize = 0;
    while i < supported.len()
        invariant
            current == Some(level),
            i <= supported@.len(),
            forall|k: int| 0 <= k < i ==> supported@[k] != level,
        decreases supported@.len() - i,
    {
        if supported[i] == level {
            proof {
                supported@.index_of_first_ensures(level);
                assert(supported@[i as int] == level);
                assert(supported@.contains(level));
                let at = supported@.index_of_first(level)->0;
                if at < i {
                    assert(supported@[at] != level);
                } else if at > i {
                    assert(supported@[i as int] != level);
                }
            }
            let count: usize = supported.len();
            return if i + 1 < count {
                Some(supported[i + 1])
            } else {
                None
            };
        }
        i += 1;
    }
    proof {
        supported@.index_of_first_ensures(level);
    }
    None
}

/// The role that a key stands for: shift and a digit, which some terminals report
/// as such and others as the character that it types.
pub open spec fn shortcut(key: KeyEvent) -> Option<ModelTier> {
    match key.code {
        KeyCode::Char(c) => if key.modifiers.shift {
            if c == '1' {
                Some(ModelTier::Strong)
            } else if c == '2' {
                Some(ModelTier::Medium)
            } else if c == '3' {
                Some(ModelTier::Weak)
            } else if c == '4' {
                Some(ModelTier::Compaction)
            } else if c == '5' {
                Some(ModelTier::Suggest)
            } else {
                None
            }
        } else if c == '!' || c == '¡' {
            Some(ModelTier::Strong)
        } else if c == '@' || c == '"' || c == '™' {
            Some(ModelTier::Medium)
        } else if c == '#' || c == '§' || c == '£' {
            Some(ModelTier::Weak)
        } else if c == '$' || c == '€' || c == '¤' {
            Some(ModelTier::Compaction)
        } else if c == '%' || c == '°' {
            Some(ModelTier::Suggest)
        } else {
            None
        },
        _ => None,
    }
}

pub fn tier_for_shortcut(key: KeyEvent) -> (tier: Option<ModelTier>)
    ensures
        tier == shortcut(key),
{
    let c: char = match key.code {
        KeyCode::Char(c) => c,
        _ => {
            return None;
        },
    };
    if key.modifiers.shift {
        // The key that was pressed, with shift beside it.
        return match c {
            '1' => Some(ModelTier::Strong),
            '2' => Some(ModelTier::Medium),
            '3' => Some(ModelTier::Weak),
            '4' => Some(ModelTier::Compaction),
            '5' => Some(ModelTier::Suggest),
            _ => None,
        };
    }
    // The character that shift and the digit type on one keyboard or another.
    match c {
        '!' | '¡' => Some(ModelTier::Strong),
        '@' | '"' | '™' => Some(ModelTier::Medium),
        '#' | '§' | '£' => Some(ModelTier::Weak),
        '$' | '€' | '¤' => Some(ModelTier::Compaction),
        '%' | '°' => Some(ModelTier::Suggest),
        _ => None,
    }
}

/// What the picker is in the middle of.
pub struct ModelPickerState {
    /// Where the models there are get published.
    pub models: SharedModels,
    pub list: PickerState<ModelEntry>,
    pub recents: Seq<Seq<char>>,
    pub current: Seq<char>,
    /// How many models were published when the list was last built.
    pub count: nat,
    /// The list is out of date.
    pub dirty: bool,
    pub help: bool,
    /// Where the list was last drawn.
    pub area: Area,
}

/// What was published; nothing counts as an empty list.
pub open spec fn published(specs: Option<Arc<Vec<String>>>) -> Seq<Seq<char>> {
    match specs {
        Some(specs) => text::views(specs@),
        None => Seq::empty(),
    }
}

impl ModelPickerState {
    /// The list shows the rows for these models.
    pub open spec fn lists(self, registry: Registry, specs: Seq<Seq<char>>) -> bool {
        model_rows::row_views(self.list.items) == model_rows::all_rows(
            registry,
            self.recents,
            specs,
        )
    }

    /// The cursor is on the current model, as far as it is listed.
    pub open spec fn at_home(self) -> bool {
        self.list.selected == list_picker::place_of(
            self.list.listing(),
            model_rows::home(model_rows::row_views(self.list.items), self.current),
        )
    }

    /// `self` was opened on a model when these were published.
    pub open spec fn opened_from(
        self,
        before: ModelPickerState,
        current: Seq<char>,
        registry: Registry,
        specs: Seq<Seq<char>>,
    ) -> bool {
        &&& self.models == before.models
        &&& self.list.open
        &&& self.list.query.len() == 0
        &&& self.lists(registry, specs)
        &&& self.at_home()
        &&& self.recents == before.recents
        &&& self.current == current
        &&& self.count == specs.len()
        &&& self.dirty == before.dirty
        &&& self.help == before.help
        &&& self.area == before.area
    }

    /// Whether the list has to be built anew when these are published.
    pub open spec fn stale(self, specs: Seq<Seq<char>>) -> bool {
        self.list.open && (self.count != specs.len() || self.dirty)
    }

    /// `self` was brought up to date when these were published: what was typed
    /// stays, and the cursor goes back to the current model.
    pub open spec fn refreshed_from(
        self,
        before: ModelPickerState,
        registry: Registry,
        specs: Seq<Seq<char>>,
    ) -> bool {
        if before.stale(specs) {
            &&& self.models == before.models
            &&& self.list.open
            &&& self.list.query == before.list.query
            &&& self.lists(registry, specs)
            &&& self.at_home()
            &&& self.recents == before.recents
            &&& self.current == before.current
            &&& self.count == specs.len()
            &&& !self.dirty
            &&& self.help == before.help
            &&& self.area == before.area
        } else {
            self == before
        }
    }

    /// What a key does.
    pub open spec fn pressed(self, key: KeyEvent) -> (ModelPickerState, ModelChoice) {
        let chosen = self.list.choice();
        if self.help {
            (ModelPickerState { help: false, ..self }, ModelChoice::Consumed)
        } else if key.code == KeyCode::Char('?') && !key.modifiers.control {
            (ModelPickerState { help: true, ..self }, ModelChoice::Consumed)
        } else if key.chord('e') && chosen is Some && chosen->0.spec@.len() > 0
            && chosen->0.supported_efforts@.len() > 0 {
            (
                ModelPickerState { dirty: true, ..self },
                match effort_after(chosen->0.effort, chosen->0.supported_efforts@) {
                    Some(level) => ModelChoice::SetEffort(chosen->0.spec@, level),
                    None => ModelChoice::ClearEffort(chosen->0.spec@),
                },
            )
        } else if shortcut(key) is Some && chosen is Some && chosen->0.spec@.len() > 0 {
            (
                ModelPickerState { dirty: true, ..self },
                if chosen->0.override_tiers@.contains(shortcut(key)->0) {
                    ModelChoice::UnassignTier(chosen->0.spec@, shortcut(key)->0)
                } else {
                    ModelChoice::AssignTier(chosen->0.spec@, shortcut(key)->0)
                },
            )
        } else {
            let (list, action) = self.list.pressed(key);
            (
                ModelPickerState { list, ..self },
                match action {
                    PickerAction::Consumed => ModelChoice::Consumed,
                    PickerAction::Select(entry) => if entry.spec@.len() == 0 {
                        ModelChoice::Consumed
                    } else {
                        ModelChoice::Select(entry.spec@)
                    },
                    PickerAction::Close => ModelChoice::Close,
                },
            )
        }
    }
}

pub struct ModelPicker {
    picker: ListPicker<ModelEntry>,
    models: SharedModels,
    recents: Vec<String>,
    current_spec: String,
    last_spec_count: usize,
    dirty: bool,
    show_help: bool,
}

impl View for ModelPicker {
    type V = ModelPickerState;

    closed spec fn view(&self) -> ModelPickerState {
        ModelPickerState {
            models: self.models,
            list: self.picker@,
            recents: text::views(self.recents@),
            current: self.current_spec@,
            count: self.last_spec_count as nat,
            dirty: self.dirty,
            help: self.show_help,
            area: self.picker.frame().area,
        }
    }
}

impl ModelPicker {
    pub closed spec fn valid(&self) -> bool {
        &&& self.picker.valid()
        &&& self.picker@.open ==> self.picker.frame().title == TITLE@
    }

    pub fn new(models: SharedModels) -> (picker: ModelPicker)
        ensures
            picker.valid(),
            picker@ == (ModelPickerState {
                models,
                list: PickerState::shut(),
                recents: Seq::empty(),
                current: Seq::empty(),
                count: 0,
                dirty: false,
                help: false,
                area: Area { x: 0, y: 0, width: 0, height: 0 },
            }),
    {
        let picker: ModelPicker = ModelPicker {
            picker: ListPicker::new(),
            models,
            recents: Vec::new(),
            current_spec: String::new(),
            last_spec_count: 0,
            dirty: false,
            show_help: false,
        };
        assert(text::views(picker.recents@) =~= Seq::empty());
        assert(picker.current_spec@ =~= Seq::empty());
        picker
    }

    /// Which models were used of late, the latest first.
    pub fn set_recents(&mut self, recents: Vec<String>)
        requires
            old(self).valid(),
        ensures
            final(self).valid(),
            final(self)@ == (ModelPickerState {
                recents: text::views(recents@),
                dirty: true,
                ..old(self)@
            }),
    {
        self.recents = recents;
        self.dirty = true;
    }

    /// Shows every model that is published, with the cursor on the current one.
    pub fn open(&mut self, current_spec: &str, registry: &Registry)
        requires
            old(self).valid(),
        ensures
            final(self).valid(),
            exists|specs: Option<Arc<Vec<String>>>|
                #[trigger] was_held(old(self)@.models, specs) && final(self)@.opened_from(
                    old(self)@,
                    current_spec@,
                    *registry,
                    published(specs),
                ),
    {
        let specs: Option<Arc<Vec<String>>> = self.models.load();
        assert(was_held(old(self)@.models, specs));
        self.open_with(current_spec, registry, specs);
    }

    /// Shows the models of a list, with the cursor on the current one.
    pub fn open_with(
        &mut self,
        current_spec: &str,
        registry: &Registry,
        specs: Option<Arc<Vec<String>>>,
    )
        requires
            old(self).valid(),
        ensures
            final(self).valid(),
            final(self)@.opened_from(old(self)@, current_spec@, *registry, published(specs)),
    {
        self.current_spec = current_spec.to_string();
        let (entries, at): (Vec<ModelEntry>, usize) = self.load_entries(registry, specs);
        self.picker.open(entries, TITLE);
        self.picker.select(at);
    }

    fn load_entries(&mut self, registry: &Registry, specs: Option<Arc<Vec<String>>>) -> (r: (
        Vec<ModelEntry>,
        usize,
    ))
        requires
            old(self).valid(),
        ensures
            final(self).valid(),
            final(self)@ == (ModelPickerState { count: published(specs).len(), ..old(self)@ }),
            model_rows::row_views(r.0@) == model_rows::all_rows(
                *registry,
                old(self)@.recents,
                published(specs),
            ),
            r.1 == model_rows::home(model_rows::row_views(r.0@), old(self)@.current),
    {
        match specs {
            Some(specs) => {
                self.last_spec_count = specs.len();
                model_rows::load_entries(
                    registry,
                    &self.recents,
                    &specs,
                    self.current_spec.as_str(),
                )
            },
            None => {
                let nothing: Vec<String> = Vec::new();
                assert(text::views(nothing@) =~= Seq::empty());
                self.last_spec_count = 0;
                model_rows::load_entries(
                    registry,
                    &self.recents,
                    &nothing,
                    self.current_spec.as_str(),
                )
            },
        }
    }

    /// Brings an open list up to date when more models were published or something
    /// about them changed.
    pub fn try_refresh(&mut self, registry: &Registry)
        requires
            old(self).valid(),
        ensures
            final(self).valid(),
            exists|specs: Option<Arc<Vec<String>>>|
                #[trigger] was_held(old(self)@.models, specs) && final(self)@.refreshed_from(
                    old(self)@,
                    *registry,
                    published(specs),
                ),
    {
        let specs: Option<Arc<Vec<String>>> = self.models.load();
        assert(was_held(old(self)@.models, specs));
        self.refresh_with(registry, specs);
    }

    /// Brings an open list up to date with a list of models.
    pub fn refresh_with(&mut self, registry: &Registry, specs: Option<Arc<Vec<String>>>)
        requires
            old(self).valid(),
        ensures
            final(self).valid(),
            final(self)@.refreshed_from(old(self)@, *registry, published(specs)),
    {
        if !self.picker.is_open() {
            return;
        }
        let count: usize = match &specs {
            Some(specs) => specs.len(),
            None => 0,
        };
        if count == self.last_spec_count && !self.dirty {
            return;
        }
        self.dirty = false;
        let (entries, at): (Vec<ModelEntry>, usize) = self.load_entries(registry, specs);
        self.picker.replace_items(entries);
        self.picker.select(at);
    }

    pub fn is_open(&self) -> (r: bool)
        ensures
            r == self@.list.open,
    {
        self.picker.is_open()
    }

    pub fn close(&mut self)
        requires
            old(self).valid(),
        ensures
            final(self).valid(),
            final(self)@ == (ModelPickerState {
                list: PickerState::shut(),
                help: false,
                ..old(self)@
            }),
    {
        self.show_help = false;
        self.picker.close();
    }

    /// Remembers where the list was drawn.
    pub fn set_area(&mut self, area: Area)
        requires
            old(self).valid(),
        ensures
            final(self).valid(),
            final(self)@ == (ModelPickerState { area, ..old(self)@ }),
    {
        self.picker.set_area(area);
    }

    /// Whether a cell of the screen is one that the list was last drawn in.
    pub fn contains(&self, x: u16, y: u16) -> (r: bool)
        ensures
            r == self@.area.covers(x as int, y as int),
    {
        self.picker.contains(x, y)
    }

    /// Moves the cursor, no further than the ends of the list.
    pub fn scroll(&mut self, delta: i32)
        requires
            old(self).valid(),
        ensures
            final(self).valid(),
            final(self)@ == (ModelPickerState {
                list: old(self)@.list.moved(delta as int),
                ..old(self)@
            }),
    {
        self.picker.scroll(delta);
    }

    /// Adds pasted text to the query and says whether there was one to add it to.
    pub fn handle_paste(&mut self, pasted: &str) -> (taken: bool)
        requires
            old(self).valid(),
        ensures
            final(self).valid(),
            taken == old(self)@.list.open,
            final(self)@ == if taken {
                ModelPickerState {
                    list: old(self)@.list.searching(old(self)@.list.query + pasted@),
                    ..old(self)@
                }
            } else {
                old(self)@
            },
    {
        self.picker.handle_paste(pasted)
    }

    pub fn handle_key(&mut self, key: KeyEvent) -> (action: ModelPickerAction)
        requires
            old(self).valid(),
        ensures
            final(self).valid(),
            (final(self)@, action@) == old(self)@.pressed(key),
    {
        // Help swallows the next key so that one never both closes it and acts.
        if self.show_help {
            self.show_help = false;
            return ModelPickerAction::Consumed;
        }
        if key.code == KeyCode::Char('?') && !key.modifiers.control {
            self.show_help = true;
            return ModelPickerAction::Consumed;
        }
        // A chord: the search box takes every bare printable character, so claiming
        // a plain letter would make it impossible to type.
        let cycles: bool = key.is_chord('e');
        let tier: Option<ModelTier> = tier_for_shortcut(key);
        if let Some(entry) = self.picker.selected_item() {
            if entry.spec.as_str().unicode_len() > 0 {
                if cycles && entry.supported_efforts.len() > 0 {
                    let spec: String = entry.spec.clone();
                    let next: Option<Effort> = next_effort(entry.effort, &entry.supported_efforts);
                    self.dirty = true;
                    return match next {
                        Some(level) => ModelPickerAction::SetEffort(spec, level),
                        None => ModelPickerAction::ClearEffort(spec),
                    };
                }
                if let Some(tier) = tier {
                    let spec: String = entry.spec.clone();
                    let held: bool = registry::holds_tier(&entry.override_tiers, tier);
                    self.dirty = true;
                    return if held {
                        ModelPickerAction::UnassignTier(spec, tier)
                    } else {
                        ModelPickerAction::AssignTier(spec, tier)
                    };
                }
            }
        }
        match self.picker.handle_key(key) {
            PickerAction::Consumed => ModelPickerAction::Consumed,
            PickerAction::Select(entry) => {
                // Enter on a role that nothing holds has nothing to switch to.
                if entry.spec.as_str().unicode_len() == 0 {
                    ModelPickerAction::Consumed
                } else {
                    ModelPickerAction::Select(entry.spec)
                }
            },
            PickerAction::Close => ModelPickerAction::Close,
        }
    }

    pub fn shows_help(&self) -> (r: bool)
        ensures
            r == self@.help,
    {
        self.show_help
    }

    /// The list behind the picker, to be drawn.
    pub fn list(&self) -> (list: &ListPicker<ModelEntry>)
        ensures
            list@ == self@.list,
            self.valid() ==> list.valid(),
            self.valid() && self@.list.open ==> list.frame().title == TITLE@,
            self.valid() && self@.list.open ==> list.frame().title == " Models "@,
    {
        &self.picker
    }
}

/// The keys under the list and what they do.
pub open spec fn footer_hints() -> Seq<(Seq<char>, Seq<char>)> {
    seq![
        ("Enter"@, "select"@),
        ("!"@, "strong"@),
        ("@"@, "medium"@),
        ("#"@, "weak"@),
        ("$"@, "compaction"@),
        ("%"@, "suggest"@),
        ("ctrl+e"@, "effort"@),
        ("?"@, "help"@),
    ]
}

pub fn footer_line() -> (line: Line)
    ensures
        line@ == styled::hints_shown(footer_hints()),
{
    let mut pairs: Vec<(&str, &str)> = Vec::new();
    pairs.push(("Enter", "select"));
    pairs.push(("!", "strong"));
    pairs.push(("@", "medium"));
    pairs.push(("#", "weak"));
    pairs.push(("$", "compaction"));
    pairs.push(("%", "suggest"));
    pairs.push(("ctrl+e", "effort"));
    pairs.push(("?", "help"));
    assert(styled::pair_views(pairs@) =~= footer_hints());
    styled::hint_line(pairs.as_slice())
}

/// A line of the help: a heading, a key and a description, any of which can be
/// empty.
pub struct HelpRow {
    pub heading: &'static str,
    pub key: &'static str,
    pub description: &'static str,
}

fn help_row(heading: &'static str, key: &'static str, description: &'static str) -> (row: HelpRow)
    ensures
        row.heading@ == heading@,
        row.key@ == key@,
        row.description@ == description@,
{
    HelpRow { heading, key, description }
}

/// What a line of the help says.
pub open spec fn help_text(row: HelpRow) -> (Seq<char>, Seq<char>, Seq<char>) {
    (row.heading@, row.key@, row.description@)
}

/// The help. Roles and effort answer different questions and the keys alone never
/// said which was which, so it is spelled out here.
pub open spec fn help_rows() -> Seq<(Seq<char>, Seq<char>, Seq<char>)> {
    seq![
        ("Roles"@, ""@, "The rows at the top show which model holds each role right now,"@),
        (""@, ""@, "whether you pinned it or maki resolved it, and what it costs."@),
        (
            "Assign"@,
            "! @ # $ %"@,
            "Give the selected model a role: strong, medium, weak, compaction,"@,
        ),
        (""@, ""@, "suggest. The last two are side jobs, not models the agent runs on."@),
        (""@, ""@, "Roles decide which model does what job. Subagents take the first"@),
        (""@, ""@, "model in each role. Press the same key again to unassign."@),
        (
            "Effort"@,
            "ctrl+e"@,
            "Cycle how hard this model reasons, through the levels it actually"@,
        ),
        (""@, ""@, "supports. Wraps around to following /thinking again."@),
        (""@, ""@, "OpenRouter publishes these per model; others use a provider default."@),
        ("Pick"@, "Enter"@, "Use this model for the session."@),
    ]
}

fn all_help_rows() -> (rows: Vec<HelpRow>)
    ensures
        rows@.map_values(|row: HelpRow| help_text(row)) == help_rows(),
{
    let mut rows: Vec<HelpRow> = Vec::new();
    rows.push(
        help_row("Roles", "", "The rows at the top show which model holds each role right now,"),
    );
    rows.push(
        help_row("", "", "whether you pinned it or maki resolved it, and what it costs."),
    );
    rows.push(
        help_row(
            "Assign",
            "! @ # $ %",
            "Give the selected model a role: strong, medium, weak, compaction,",
        ),
    );
    rows.push(
        help_row("", "", "suggest. The last two are side jobs, not models the agent runs on."),
    );
    rows.push(
        help_row("", "", "Roles decide which model does what job. Subagents take the first"),
    );
    rows.push(help_row("", "", "model in each role. Press the same key again to unassign."));
    rows.push(
        help_row(
            "Effort",
            "ctrl+e",
            "Cycle how hard this model reasons, through the levels it actually",
        ),
    );
    rows.push(help_row("", "", "supports. Wraps around to following /thinking again."));
    rows.push(
        help_row("", "", "OpenRouter publishes these per model; others use a provider default."),
    );
    rows.push(help_row("Pick", "Enter", "Use this model for the session."));
    assert(rows@.map_values(|row: HelpRow| help_text(row)) =~= help_rows());
    rows
}

/// A text with blanks after it, up to a width.
pub open spec fn padded(s: Seq<char>, width: int) -> Seq<char> {
    s + Seq::new(
        if width > s.len() {
            (width - s.len()) as nat
        } else {
            0
        },
        |i: int| ' ',
    )
}

fn pad(s: &str, width: usize) -> (r: String)
    ensures
        r@ == padded(s@, width as int),
{
    let mut r: String = s.to_string();
    let mut count: usize = s.unicode_len();
    while count < width
        invariant
            count >= s@.len(),
            count <= width || count == s@.len(),
            r@ == padded(s@, count as int),
        decreases width - count,
    {
        let ghost had = count as int;
        r.push(' ');
        count += 1;
        assert(padded(s@, had).push(' ') =~= padded(s@, had + 1));
    }
    assert(r@ =~= padded(s@, width as int));
    r
}

/// How wide the widest key is.
pub open spec fn widest_key(rows: Seq<(Seq<char>, Seq<char>, Seq<char>)>) -> nat
    decreases rows.len(),
{
    if rows.len() == 0 {
        0
    } else {
        let earlier = widest_key(rows.drop_last());
        if rows.last().1.len() > earlier {
            rows.last().1.len()
        } else {
            earlier
        }
    }
}

/// A line of the help, its columns as wide as everywhere else.
pub open spec fn help_pieces(
    row: (Seq<char>, Seq<char>, Seq<char>),
    key_width: int,
) -> Seq<styled::Piece> {
    seq![
        styled::Piece { text: "  "@ + padded(row.0, 8), tone: Tone::KeySection },
        styled::Piece { text: padded(row.1, key_width) + "  "@, tone: Tone::Key },
        styled::Piece { text: row.2, tone: Tone::KeyDescription },
    ]
}

fn key_width(rows: &Vec<HelpRow>) -> (width: usize)
    ensures
        width == widest_key(rows@.map_values(|row: HelpRow| help_text(row))),
{
    let ghost texts = rows@.map_values(|row: HelpRow| help_text(row));
    let mut width: usize = 0;
    let mut i: usize = 0;
    while i < rows.len()
        invariant
            i <= rows@.len(),
            texts == rows@.map_values(|row: HelpRow| help_text(row)),
            width == widest_key(texts.take(i as int)),
        decreases rows@.len() - i,
    {
        assert(texts.take(i + 1).drop_last() =~= texts.take(i as int));
        let key: usize = rows[i].key.unicode_len();
        if key > width {
            width = key;
        }
        i += 1;
    }
    assert(texts.take(i as int) =~= texts);
    width
}

/// The lines of the help.
pub fn help_lines() -> (lines: Vec<Line>)
    ensures
        styled::shown(lines@) == help_rows().map_values(
            |row: (Seq<char>, Seq<char>, Seq<char>)|
                help_pieces(row, widest_key(help_rows()) as int),
        ),
{
    let rows: Vec<HelpRow> = all_help_rows();
    let width: usize = key_width(&rows);
    let ghost wanted = help_rows().map_values(
        |row: (Seq<char>, Seq<char>, Seq<char>)| help_pieces(row, widest_key(help_rows()) as int),
    );
    let mut lines: Vec<Line> = Vec::new();
    let mut i: usize = 0;
    assert(styled::shown(lines@) =~= wanted.take(0));
    while i < rows.len()
        invariant
            i <= rows@.len(),
            rows@.map_values(|row: HelpRow| help_text(row)) == help_rows(),
            width == widest_key(help_rows()),
            wanted == help_rows().map_values(
                |row: (Seq<char>, Seq<char>, Seq<char>)|
                    help_pieces(row, widest_key(help_rows()) as int),
            ),
            styled::shown(lines@) == wanted.take(i as int),
        decreases rows@.len() - i,
    {
        let ghost texts = rows@.map_values(|row: HelpRow| help_text(row));
        let row: &HelpRow = &rows[i];
        let mut heading: String = "  ".to_string();
        heading.append(pad(row.heading, 8).as_str());
        let mut key: String = pad(row.key, width);
        key.append("  ");
        let mut line: Line = Line::of(heading, Tone::KeySection);
        line.push(key, Tone::Key);
        line.push(row.description.to_string(), Tone::KeyDescription);
        proof {
            assert(texts[i as int] == help_text(*row));
            assert(line@ =~= help_pieces(help_text(*row), width as int));
            assert(wanted.take(i + 1) =~= wanted.take(i as int).push(wanted[i as int]));
        }
        styled::push_line(&mut lines, line);
        i += 1;
    }
    assert(wanted.take(i as int) =~= wanted);
    lines
}

}
