//! Channels over which answers come back from tasks of their own.
//!
//! Each kind of answer has its own pair of statements: which ends belong together,
//! and what a look at the receiving end gave.

use crate::app::complete::Completion;
use crate::app::rewrite::Rewrite;
use crate::app::suggest::Suggestions;
use vstd::prelude::*;

verus! {

/// The end of a channel that a task sends its answer into.
#[verifier::external_type_specification]
#[verifier::external_body]
#[verifier::reject_recursive_types(T)]
pub struct ExSender<T>(flume::Sender<T>);

/// The end of a channel at which an answer arrives.
#[verifier::external_type_specification]
#[verifier::external_body]
#[verifier::reject_recursive_types(T)]
pub struct ExReceiver<T>(flume::Receiver<T>);

/// Whether the two are the ends of one channel for completions.
pub uninterp spec fn completion_ends(
    tx: flume::Sender<Completion>,
    rx: flume::Receiver<Completion>,
) -> bool;

/// Whether a look at that end gave, at some time, this completion or that there was
/// none.
pub uninterp spec fn completion_came(
    rx: flume::Receiver<Completion>,
    answer: Option<Completion>,
) -> bool;

/// `flume::bounded`: a new channel with room for one completion. What is sent into
/// the one end arrives at the other, since both share one state.
#[verifier::external_body]
pub(crate) fn for_completion() -> (ends: (flume::Sender<Completion>, flume::Receiver<Completion>))
    ensures
        completion_ends(ends.0, ends.1),
{
    flume::bounded(1)
}

/// `flume::Receiver::try_recv`: the completion, if it is there. When it arrives is up
/// to the task that sends it, so that only this is said of what comes back: a look at
/// this end gave it.
#[verifier::external_body]
pub(crate) fn completion_arrived(rx: &flume::Receiver<Completion>) -> (answer: Option<Completion>)
    ensures
        completion_came(*rx, answer),
{
    rx.try_recv().ok()
}

/// Whether the two are the ends of one channel for rewrites.
pub uninterp spec fn rewrite_ends(tx: flume::Sender<Rewrite>, rx: flume::Receiver<Rewrite>) -> bool;

/// Whether a look at that end gave, at some time, this rewrite or that there was none.
pub uninterp spec fn rewrite_came(rx: flume::Receiver<Rewrite>, answer: Option<Rewrite>) -> bool;

/// `flume::bounded`: a new channel with room for one rewrite. What is sent into the
/// one end arrives at the other, since both share one state.
#[verifier::external_body]
pub(crate) fn for_rewrite() -> (ends: (flume::Sender<Rewrite>, flume::Receiver<Rewrite>))
    ensures
        rewrite_ends(ends.0, ends.1),
{
    flume::bounded(1)
}

/// `flume::Receiver::try_recv`: the rewrite, if it is there. When it arrives is up to
/// the task that sends it, so that only this is said of what comes back: a look at this
/// end gave it.
#[verifier::external_body]
pub(crate) fn rewrite_arrived(rx: &flume::Receiver<Rewrite>) -> (answer: Option<Rewrite>)
    ensures
        rewrite_came(*rx, answer),
{
    rx.try_recv().ok()
}

/// Whether the two are the ends of one channel for suggestions.
pub uninterp spec fn suggestion_ends(
    tx: flume::Sender<Suggestions>,
    rx: flume::Receiver<Suggestions>,
) -> bool;

/// Whether a look at that end gave, at some time, these suggestions or that there were
/// none.
pub uninterp spec fn suggestions_came(
    rx: flume::Receiver<Suggestions>,
    answer: Option<Suggestions>,
) -> bool;

/// `flume::bounded`: a new channel with room for one set of suggestions. What is sent
/// into the one end arrives at the other, since both share one state.
#[verifier::external_body]
pub(crate) fn for_suggestions() -> (ends: (
    flume::Sender<Suggestions>,
    flume::Receiver<Suggestions>,
))
    ensures
        suggestion_ends(ends.0, ends.1),
{
    flume::bounded(1)
}

/// `flume::Receiver::try_recv`: the suggestions, if they are there. When they arrive
/// is up to the task that sends them, so that only this is said of what comes back: a
/// look at this end gave it.
#[verifier::external_body]
pub(crate) fn suggestions_arrived(rx: &flume::Receiver<Suggestions>) -> (answer: Option<
    Suggestions,
>)
    ensures
        suggestions_came(*rx, answer),
{
    rx.try_recv().ok()
}

}
