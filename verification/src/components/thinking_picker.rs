//! A picker for how the session reasons, so that the options are visible instead
//! of remembered.
//!
//! Only the levels that the current model accepts are listed, which is why it is
//! opened with what is known of that model.

use super::list_picker;
use super::list_picker::{ListPicker, PickerAction, PickerItem, PickerState};
use crate::key::KeyEvent;
use crate::models::{Effort, EffortOptions, ThinkingConfig};
use crate::text;
use vstd::prelude::*;

verus! {

pub const TITLE: &'static str = " Thinking ";

pub const MAX_VISIBLE: u16 = 12;

/// What is known of how a model reasons.
pub struct Model {
    pub provider: String,
    pub id: String,
    /// The levels it accepts; none when it takes a number of tokens instead.
    pub options: Option<EffortOptions>,
    /// The level that was chosen for this model alone.
    pub pinned: Option<Effort>,
    /// The level that adaptive reasoning comes to.
    pub adaptive: Option<Effort>,
}

pub enum ThinkingPickerAction {
    Consumed,
    Select(ThinkingConfig),
    Close,
}

pub struct ThinkingEntry {
    pub label: String,
    pub detail: String,
    pub section: String,
    pub config: ThinkingConfig,
    pub current: bool,
}

/// What an entry says.
pub struct ThinkingRow {
    pub label: Seq<char>,
    pub detail: Seq<char>,
    pub section: Seq<char>,
    pub config: ThinkingConfig,
    pub current: bool,
}

impl View for ThinkingEntry {
    type V = ThinkingRow;

    open spec fn view(&self) -> ThinkingRow {
        ThinkingRow {
            label: self.label@,
            detail: self.detail@,
            section: self.section@,
            config: self.config,
            current: self.current,
        }
    }
}

pub open spec fn row_views(entries: Seq<ThinkingEntry>) -> Seq<ThinkingRow> {
    entries.map_values(|entry: ThinkingEntry| entry@)
}

impl PickerItem for ThinkingEntry {
    open spec fn called(&self) -> Seq<char> {
        self.label@
    }

    open spec fn called_after(&self) -> Option<Seq<char>> {
        None
    }

    open spec fn detailed(&self) -> Option<Seq<char>> {
        if self.detail@.len() == 0 {
            None
        } else {
            Some(self.detail@)
        }
    }

    open spec fn headed(&self) -> Option<Seq<char>> {
        Some(self.section@)
    }

    open spec fn highlighted(&self) -> bool {
        self.current
    }

    open spec fn summary(&self) -> bool {
        false
    }

    fn label(&self) -> &str {
        self.label.as_str()
    }

    fn suffix(&self) -> Option<&str> {
        None
    }

    fn detail(&self) -> Option<&str> {
        if self.detail.as_str().unicode_len() == 0 {
            None
        } else {
            Some(self.detail.as_str())
        }
    }

    fn section(&self) -> Option<&str> {
        Some(self.section.as_str())
    }

    fn is_highlighted(&self) -> bool {
        self.current
    }

    fn is_summary(&self) -> bool {
        false
    }
}

/// What there is to say about a level: that it is the setting, that the model
/// would take it anyway, both or nothing.
pub open spec fn effort_notes(
    level: Effort,
    default: Option<Effort>,
    current: ThinkingConfig,
) -> Seq<char> {
    let is_current = current == ThinkingConfig::Effort(level);
    let is_default = default == Some(level);
    if is_current && is_default {
        "current"@ + ", "@ + "model default"@
    } else if is_current {
        "current"@
    } else if is_default {
        "model default"@
    } else {
        Seq::empty()
    }
}

/// What adaptive reasoning comes to, and how to set a number of tokens on a model
/// that has no levels.
pub open spec fn adaptive_notes(model: Model) -> Seq<char> {
    let says = match model.adaptive {
        Some(level) => "let the model decide"@ + " ("@ + level.name() + ")"@,
        None => "let the model decide"@,
    };
    match model.options {
        Some(_) => says,
        None => says + ", "@ + "type /thinking <tokens> for a budget"@,
    }
}

/// The heading over the levels. A level pinned to the model beats whatever is
/// chosen here, so the heading names it.
pub open spec fn effort_heading(model: Model) -> Seq<char> {
    match model.pinned {
        Some(level) => "Effort"@ + " (this model is pinned to "@ + level.name()
            + " by /effort)"@,
        None => "Effort"@,
    }
}

pub open spec fn off_row(current: ThinkingConfig) -> ThinkingRow {
    ThinkingRow {
        label: "off"@,
        detail: "no reasoning"@,
        section: "Mode"@,
        config: ThinkingConfig::Off,
        current: current == ThinkingConfig::Off,
    }
}

pub open spec fn adaptive_row(model: Model, current: ThinkingConfig) -> ThinkingRow {
    ThinkingRow {
        label: "adaptive"@,
        detail: adaptive_notes(model),
        section: "Mode"@,
        config: ThinkingConfig::Adaptive,
        current: current == ThinkingConfig::Adaptive,
    }
}

pub open spec fn effort_row(model: Model, level: Effort, current: ThinkingConfig) -> ThinkingRow {
    ThinkingRow {
        label: level.name(),
        detail: effort_notes(level, model.options->0.default, current),
        section: effort_heading(model),
        config: ThinkingConfig::Effort(level),
        current: current == ThinkingConfig::Effort(level),
    }
}

/// The rows for a model: the two modes, then a row for each level it accepts.
pub open spec fn rows(model: Model, current: ThinkingConfig) -> Seq<ThinkingRow> {
    let modes = seq![off_row(current), adaptive_row(model, current)];
    match model.options {
        Some(options) => modes + options.supported@.map_values(
            |level: Effort| effort_row(model, level, current),
        ),
        None => modes,
    }
}

/// The first row that is the current setting, the first of all when none is.
pub open spec fn current_row(rows: Seq<ThinkingRow>) -> int {
    current_from(rows, 0)
}

pub open spec fn current_from(rows: Seq<ThinkingRow>, from: int) -> int
    decreases rows.len() - from,
{
    if from >= rows.len() {
        0
    } else if rows[from].current {
        from
    } else {
        current_from(rows, from + 1)
    }
}

fn same_setting(a: ThinkingConfig, b: ThinkingConfig) -> (r: bool)
    ensures
        r == (a == b),
{
    a == b
}

fn effort_detail(level: Effort, default: Option<Effort>, current: ThinkingConfig) -> (detail: String)
    ensures
        detail@ == effort_notes(level, default, current),
{
    let is_current: bool = same_setting(current, ThinkingConfig::Effort(level));
    let is_default: bool = match default {
        Some(d) => d == level,
        None => false,
    };
    let mut detail: String = String::new();
    if is_current {
        detail.append("current");
    }
    if is_current && is_default {
        detail.append(", ");
    }
    if is_default {
        detail.append("model default");
    }
    assert(detail@ =~= effort_notes(level, default, current));
    detail
}

fn adaptive_detail(model: &Model) -> (detail: String)
    ensures
        detail@ == adaptive_notes(*model),
{
    let mut detail: String = "let the model decide".to_string();
    if let Some(level) = model.adaptive {
        detail.append(" (");
        detail.append(level.as_str());
        detail.append(")");
    }
    if model.options.is_none() {
        detail.append(", ");
        detail.append("type /thinking <tokens> for a budget");
    }
    detail
}

fn effort_section(model: &Model) -> (section: String)
    ensures
        section@ == effort_heading(*model),
{
    let mut section: String = "Effort".to_string();
    if let Some(level) = model.pinned {
        section.append(" (this model is pinned to ");
        section.append(level.as_str());
        section.append(" by /effort)");
    }
    section
}

/// The entries for a model. Adaptive earns a detail that names the level it comes
/// to, because the word alone never told anyone what would be sent.
pub fn build_entries(model: &Model, current: ThinkingConfig) -> (entries: Vec<ThinkingEntry>)
    ensures
        row_views(entries@) == rows(*model, current),
{
    let mut entries: Vec<ThinkingEntry> = Vec::new();
    entries.push(
        ThinkingEntry {
            label: "off".to_string(),
            detail: "no reasoning".to_string(),
            section: "Mode".to_string(),
            config: ThinkingConfig::Off,
            current: same_setting(current, ThinkingConfig::Off),
        },
    );
    entries.push(
        ThinkingEntry {
            label: "adaptive".to_string(),
            detail: adaptive_detail(model),
            section: "Mode".to_string(),
            config: ThinkingConfig::Adaptive,
            current: same_setting(current, ThinkingConfig::Adaptive),
        },
    );
    let ghost modes = seq![off_row(current), adaptive_row(*model, current)];
    assert(row_views(entries@) =~= modes);
    let options: &EffortOptions = match &model.options {
        Some(options) => options,
        None => {
            return entries;
        },
    };
    let ghost levels = options.supported@.map_values(
        |level: Effort| effort_row(*model, level, current),
    );
    assert(modes + levels.take(0) =~= modes);
    let mut i: usize = 0;
    while i < options.supported.len()
        invariant
            model.options == Some(*options),
            i <= options.supported@.len(),
            levels == options.supported@.map_values(
                |level: Effort| effort_row(*model, level, current),
            ),
            row_views(entries@) == modes + levels.take(i as int),
        decreases options.supported@.len() - i,
    {
        let level: Effort = options.supported[i];
        let ghost had = row_views(entries@);
        entries.push(
            ThinkingEntry {
                label: level.as_str().to_string(),
                detail: effort_detail(level, options.default, current),
                section: effort_section(model),
                config: ThinkingConfig::Effort(level),
                current: same_setting(current, ThinkingConfig::Effort(level)),
            },
        );
        proof {
            assert(row_views(entries@) =~= had.push(effort_row(*model, level, current)));
            assert(levels.take(i + 1) =~= levels.take(i as int).push(levels[i as int]));
            assert(had.push(levels[i as int]) =~= modes + levels.take(i + 1));
        }
        i += 1;
    }
    assert(levels.take(i as int) =~= levels);
    entries
}

/// When there is a current row, the row found is current.
proof fn lemma_current_row(rows: Seq<ThinkingRow>, from: int, at: int)
    requires
        0 <= from <= at < rows.len(),
        rows[at].current,
    ensures
        from <= current_from(rows, from) <= at,
        rows[current_from(rows, from)].current,
    decreases at - from,
{
    if !rows[from].current {
        lemma_current_row(rows, from + 1, at);
    }
}

/// Where the current setting stands among the entries, the start when it does not.
fn find_current(entries: &Vec<ThinkingEntry>) -> (at: usize)
    ensures
        at == current_row(row_views(entries@)),
        at < entries@.len() || at == 0,
{
    let ghost rows = row_views(entries@);
    let mut i: usize = 0;
    while i < entries.len()
        invariant
            i <= entries@.len(),
            rows == row_views(entries@),
            current_from(rows, i as int) == current_row(rows),
        decreases entries@.len() - i,
    {
        assert(rows[i as int] == entries@[i as int]@);
        if entries[i].current {
            return i;
        }
        i += 1;
    }
    0
}

pub struct ThinkingPicker {
    picker: ListPicker<ThinkingEntry>,
}

impl ThinkingPicker {
    /// What the picker is in the middle of.
    pub closed spec fn state(&self) -> PickerState<ThinkingEntry> {
        self.picker@
    }

    pub closed spec fn valid(&self) -> bool {
        &&& self.picker.valid()
        &&& self.picker.frame().max_visible == Some(MAX_VISIBLE)
        &&& self.picker@.open ==> self.picker.frame().title == TITLE@
    }

    pub fn new() -> (picker: ThinkingPicker)
        ensures
            picker.valid(),
            picker.state() == PickerState::<ThinkingEntry>::shut(),
    {
        ThinkingPicker { picker: ListPicker::new().with_max_visible(MAX_VISIBLE) }
    }

    /// Shows the rows for a model with the current setting selected.
    pub fn open(&mut self, model: &Model, current: ThinkingConfig)
        requires
            old(self).valid(),
        ensures
            final(self).valid(),
            final(self).state().open,
            row_views(final(self).state().items) == rows(*model, current),
            final(self).state().query.len() == 0,
            final(self).state().selected == current_row(rows(*model, current)),
    {
        let entries: Vec<ThinkingEntry> = build_entries(model, current);
        let at: usize = find_current(&entries);
        proof {
            list_picker::lemma_select_when_opened(entries@, at as int);
        }
        self.picker.open(entries, TITLE);
        self.picker.select(at);
    }

    pub fn is_open(&self) -> (r: bool)
        ensures
            r == self.state().open,
    {
        self.picker.is_open()
    }

    pub fn close(&mut self)
        requires
            old(self).valid(),
        ensures
            final(self).valid(),
            final(self).state() == PickerState::<ThinkingEntry>::shut(),
    {
        self.picker.close();
    }

    /// Adds pasted text to the query and says whether there was one to add it to.
    pub fn handle_paste(&mut self, pasted: &str) -> (taken: bool)
        requires
            old(self).valid(),
        ensures
            final(self).valid(),
            taken == old(self).state().open,
            final(self).state() == if taken {
                old(self).state().searching(old(self).state().query + pasted@)
            } else {
                old(self).state()
            },
    {
        self.picker.handle_paste(pasted)
    }

    pub fn handle_key(&mut self, key: KeyEvent) -> (action: ThinkingPickerAction)
        requires
            old(self).valid(),
        ensures
            final(self).valid(),
            final(self).state() == old(self).state().pressed(key).0,
            action == match old(self).state().pressed(key).1 {
                PickerAction::Consumed => ThinkingPickerAction::Consumed,
                PickerAction::Select(entry) => ThinkingPickerAction::Select(entry.config),
                PickerAction::Close => ThinkingPickerAction::Close,
            },
    {
        match self.picker.handle_key(key) {
            PickerAction::Consumed => ThinkingPickerAction::Consumed,
            PickerAction::Select(entry) => ThinkingPickerAction::Select(entry.config),
            PickerAction::Close => ThinkingPickerAction::Close,
        }
    }

    /// The list behind the picker, to be drawn.
    pub fn list(&self) -> (list: &ListPicker<ThinkingEntry>)
        ensures
            list@ == self.state(),
            self.valid() ==> list.valid() && list.frame().max_visible == Some(MAX_VISIBLE),
            self.valid() ==> list.frame().max_visible == Some(12u16),
            self.valid() && self.state().open ==> list.frame().title == TITLE@,
            self.valid() && self.state().open ==> list.frame().title == " Thinking "@,
    {
        &self.picker
    }
}

/// Levels are listed only when the model accepts them, and all that it accepts
/// are.
pub proof fn law_only_accepted_levels_are_listed(model: Model, current: ThinkingConfig, level: Effort)
    ensures
        (exists|i: int|
            0 <= i < rows(model, current).len() && (#[trigger] rows(model, current)[i]).config
                == ThinkingConfig::Effort(level)) <==> (match model.options {
            Some(options) => options.supported@.contains(level),
            None => false,
        }),
{
    let all = rows(model, current);
    if model.options is Some {
        let supported = model.options->0.supported@;
        if supported.contains(level) {
            let k = supported.index_of(level);
            assert(all[k + 2].config == ThinkingConfig::Effort(level));
        }
        if exists|i: int|
            0 <= i < all.len() && (#[trigger] all[i]).config == ThinkingConfig::Effort(level) {
            let i = choose|i: int|
                0 <= i < all.len() && (#[trigger] all[i]).config == ThinkingConfig::Effort(level);
            assert(all[i] == effort_row(model, supported[i - 2], current));
            assert(supported[i - 2] == level);
        }
    }
}

/// A row is marked as current exactly when it is the current setting, so a number
/// of tokens, which has no row, marks none.
pub proof fn law_current_setting_is_marked(model: Model, current: ThinkingConfig, i: int)
    requires
        0 <= i < rows(model, current).len(),
    ensures
        rows(model, current)[i].current <==> rows(model, current)[i].config == current,
        current is Budget ==> !rows(model, current)[i].current,
{
}

/// Opening the picker and pressing enter keeps the setting, when it has a row.
pub proof fn law_enter_keeps_the_setting(
    model: Model,
    current: ThinkingConfig,
    items: Seq<ThinkingEntry>,
    enter: KeyEvent,
)
    requires
        row_views(items) == rows(model, current),
        exists|i: int| 0 <= i < rows(model, current).len() && rows(model, current)[i].config == current,
        enter.code == crate::key::KeyCode::Enter,
    ensures
        ({
            let s = PickerState { selected: current_row(rows(model, current)), ..PickerState::opened(items) };
            let (after, action) = s.pressed(enter);
            action matches PickerAction::Select(entry) && entry.config == current && !after.open
        }),
{
    let all = rows(model, current);
    let i = choose|i: int| 0 <= i < all.len() && all[i].config == current;
    let at = current_row(all);
    lemma_current_row(all, 0, i);
    list_picker::lemma_all_listed(items);
    assert(row_views(items)[at] == items[at]@);
}

}
