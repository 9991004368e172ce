//! What becomes of a notice, step by step.

use crate::session;
use crate::session::{
    Notice, NoticeEvent, NoticeMove, NoticePhase, Route, SessionRequest, Settlement, UiReply,
};
use crate::text;
use vstd::prelude::*;

verus! {

/// A flag is on exactly when it is given as on.
pub proof fn law_flags_are_off_unless_given(given: Option<bool>)
    ensures
        given is None ==> !session::flag(given),
        given matches Some(on) ==> session::flag(given) == on,
{
}

/// A notice that says something and names a session is put to the event loop, or its id
/// is looked at when it goes straight into the mailbox. Either way it is as it was given.
pub proof fn law_a_good_notice_goes_out(
    route: Route,
    text: String,
    id: String,
    from: Option<String>,
    wake: Option<bool>,
)
    requires
        !text::blank(text@),
    ensures
        ({
            let (phase, made) = session::notice_stepped(
                route,
                NoticePhase::Fresh,
                NoticeEvent::Given { text, session: Some(id), from, wake },
            );
            let on = wake == Some(true);
            let notice = Notice { id, text, from, wake: on };
            &&& route == Route::ThroughUi ==> phase == NoticePhase::Asked(notice) && made
                == NoticeMove::AskUi(SessionRequest::Notify { id, text, from, wake: on })
            &&& route == Route::Direct ==> phase == NoticePhase::Checking(notice) && made
                == NoticeMove::CheckId(id)
        }),
{
}

/// What is wrong with a notice is said in the same words on either route.
pub proof fn law_a_bad_notice_is_refused_in_words(
    route: Route,
    text: String,
    session: Option<String>,
    from: Option<String>,
    wake: Option<bool>,
)
    ensures
        ({
            let (phase, made) = session::notice_stepped(
                route,
                NoticePhase::Fresh,
                NoticeEvent::Given { text, session, from, wake },
            );
            &&& text::blank(text@) ==> phase is Settled && made == NoticeMove::Refuse(
                "text must not be blank"@,
            )
            &&& !text::blank(text@) && session is None ==> phase is Settled && made
                == NoticeMove::Refuse("session is required"@)
        }),
{
}

/// The event loop's answer is handed over, and so is what went wrong with asking it;
/// only where there is no event loop the notice is delivered all the same.
pub proof fn law_what_the_event_loop_says_counts(route: Route, notice: Notice, error: String)
    ensures
        session::notice_stepped(
            route,
            NoticePhase::Asked(notice),
            NoticeEvent::Replied(UiReply::Answered),
        ) == (NoticePhase::Settled, NoticeMove::AnswerFromUi),
        error@ == "no interactive UI attached"@ ==> {
            &&& session::notice_stepped(
                route,
                NoticePhase::Asked(notice),
                NoticeEvent::Replied(UiReply::Unreachable(error)),
            ) == (NoticePhase::Checking(notice), NoticeMove::CheckId(notice.id))
            &&& session::notice_stepped(
                route,
                NoticePhase::Asked(notice),
                NoticeEvent::Replied(UiReply::Refused(error)),
            ) == (NoticePhase::Checking(notice), NoticeMove::CheckId(notice.id))
        },
        error@ != "no interactive UI attached"@ ==> {
            &&& session::notice_stepped(
                route,
                NoticePhase::Asked(notice),
                NoticeEvent::Replied(UiReply::Unreachable(error)),
            ) == (NoticePhase::Settled, NoticeMove::Refuse(error@))
            &&& session::notice_stepped(
                route,
                NoticePhase::Asked(notice),
                NoticeEvent::Replied(UiReply::Refused(error)),
            ) == (NoticePhase::Settled, NoticeMove::Refuse(error@))
        },
{
}

/// A notice whose id is well formed is delivered and one whose id is not is refused for
/// that.
pub proof fn law_the_id_is_looked_at_first(
    route: Route,
    notice: Notice,
    checked: Result<(), String>,
)
    ensures
        ({
            let (phase, made) = session::notice_stepped(
                route,
                NoticePhase::Checking(notice),
                NoticeEvent::IdChecked(checked),
            );
            &&& checked is Ok ==> phase is Delivering && made == NoticeMove::Deliver(notice)
            &&& checked matches Err(error) ==> phase is Settled && made == NoticeMove::Refuse(
                error@,
            )
        }),
{
}

/// Once it is in the mailbox, a plugin that waited is told so in a word and another that
/// it is true; a mailbox that does not take it says why.
pub proof fn law_delivery_is_told(route: Route, delivered: Result<(), String>)
    ensures
        ({
            let (phase, made) = session::notice_stepped(
                route,
                NoticePhase::Delivering,
                NoticeEvent::Delivered(delivered),
            );
            &&& phase is Settled
            &&& delivered is Ok && route == Route::ThroughUi ==> made == NoticeMove::AnswerWord(
                "delivered"@,
            )
            &&& delivered is Ok && route == Route::Direct ==> made == NoticeMove::AnswerTrue
            &&& delivered matches Err(error) ==> made == NoticeMove::Refuse(error@)
        }),
{
}

/// What cannot happen now changes nothing.
pub proof fn law_out_of_turn_nothing_happens(route: Route, phase: NoticePhase, event: NoticeEvent)
    requires
        !(phase is Fresh && event is Given),
        !(phase is Asked && event is Replied),
        !(phase is Checking && event is IdChecked),
        !(phase is Delivering && event is Delivered),
    ensures
        session::notice_stepped(route, phase, event) == (phase, NoticeMove::Ignore),
{
}

/// A request fails with what went wrong, whether it could not be asked or was refused.
pub proof fn law_what_went_wrong_is_handed_over(error: String)
    ensures
        session::failure(UiReply::Unreachable(error)) == Some(error),
        session::failure(UiReply::Refused(error)) == Some(error),
        session::failure(UiReply::Answered) is None,
        error@ != "no interactive UI attached"@ ==> session::notice_settled(
            UiReply::Refused(error),
        ) == Settlement::Error(error) && session::notice_settled(UiReply::Unreachable(error))
            == Settlement::Error(error),
{
}

}
