//! What the thinking picker offers.

use super::list_picker::PickerItem;
use super::thinking_picker;
use super::thinking_picker::{Model, ThinkingEntry, ThinkingRow};
use crate::models::{Effort, ThinkingConfig};
use vstd::prelude::*;

verus! {

/// The two modes come first, and then a row for every level that the model accepts, in
/// its order; a model without levels has the modes alone.
pub proof fn law_modes_then_levels(model: Model, current: ThinkingConfig, i: int)
    ensures
        ({
            let rows = thinking_picker::rows(model, current);
            &&& rows.len() == 2 + if model.options is Some {
                model.options->0.supported@.len()
            } else {
                0
            }
            &&& rows[0].label == "off"@ && rows[0].config == ThinkingConfig::Off
            &&& rows[1].label == "adaptive"@ && rows[1].config == ThinkingConfig::Adaptive
            &&& rows[0].section == "Mode"@ && rows[1].section == "Mode"@
            &&& rows[0].detail == "no reasoning"@
            &&& model.options matches Some(options) ==> (0 <= i < options.supported@.len() ==> {
                &&& rows[2 + i].label == options.supported@[i].name()
                &&& rows[2 + i].config == ThinkingConfig::Effort(options.supported@[i])
                &&& rows[2 + i].section == thinking_picker::effort_heading(model)
                &&& rows[2 + i].detail == thinking_picker::effort_notes(
                    options.supported@[i],
                    options.default,
                    current,
                )
            })
        }),
{
}

/// An entry is found by its label, stands under its heading, says its detail unless that
/// is empty, stands out while it is the setting, and is part of the list proper.
pub proof fn law_what_an_entry_is_in_the_list(entry: ThinkingEntry)
    ensures
        entry.called() == entry.label@,
        entry.called_after() is None,
        entry.detailed() == if entry.detail@.len() > 0 {
            Some(entry.detail@)
        } else {
            None
        },
        entry.headed() == Some(entry.section@),
        entry.highlighted() == entry.current,
        !entry.summary(),
{
}

/// A level says that it is the setting and that the model would take it anyway, where
/// either is so.
pub proof fn law_levels_say_what_they_are(
    level: Effort,
    default: Option<Effort>,
    current: ThinkingConfig,
)
    ensures
        ({
            let notes = thinking_picker::effort_notes(level, default, current);
            let set = current == ThinkingConfig::Effort(level);
            let own = default == Some(level);
            &&& set && own ==> notes == "current"@ + ", "@ + "model default"@
            &&& set && !own ==> notes == "current"@
            &&& !set && own ==> notes == "model default"@
            &&& !set && !own ==> notes.len() == 0
        }),
{
}

/// Adaptive says what it comes to where that is known, and how to set a number of tokens
/// where the model has no levels.
pub proof fn law_adaptive_says_what_it_comes_to(model: Model, current: ThinkingConfig)
    ensures
        ({
            let says = if model.adaptive is Some {
                "let the model decide"@ + " ("@ + model.adaptive->0.name() + ")"@
            } else {
                "let the model decide"@
            };
            let detail = thinking_picker::rows(model, current)[1].detail;
            &&& model.options is Some ==> detail == says
            &&& model.options is None ==> detail == says + ", "@
                + "type /thinking <tokens> for a budget"@
        }),
{
}

/// The heading over the levels names the level that the model is pinned to, if it is.
pub proof fn law_the_heading_names_a_pinned_level(model: Model)
    ensures
        model.pinned is None ==> thinking_picker::effort_heading(model) == "Effort"@,
        model.pinned matches Some(level) ==> thinking_picker::effort_heading(model) == "Effort"@
            + " (this model is pinned to "@ + level.name() + " by /effort)"@,
{
}

proof fn lemma_current_from(rows: Seq<ThinkingRow>, from: int, at: int)
    requires
        0 <= from,
    ensures
        from <= at < rows.len() && rows[at].current && (forall|i: int|
            from <= i < at ==> !(#[trigger] rows[i]).current) ==> thinking_picker::current_from(
            rows,
            from,
        ) == at,
        (forall|i: int| from <= i < rows.len() ==> !(#[trigger] rows[i]).current)
            ==> thinking_picker::current_from(rows, from) == 0,
    decreases rows.len() - from,
{
    if from < rows.len() && !rows[from].current {
        lemma_current_from(rows, from + 1, at);
    }
}

/// The cursor starts on the first row that is the setting, and at the top when none is.
pub proof fn law_the_cursor_starts_on_the_setting(rows: Seq<ThinkingRow>, at: int)
    ensures
        0 <= at < rows.len() && rows[at].current && (forall|i: int|
            0 <= i < at ==> !(#[trigger] rows[i]).current) ==> thinking_picker::current_row(rows)
            == at,
        (forall|i: int| 0 <= i < rows.len() ==> !(#[trigger] rows[i]).current)
            ==> thinking_picker::current_row(rows) == 0,
{
    lemma_current_from(rows, 0, at);
}

}
