//! What plugins can ask of the sessions that the host runs, and how they are
//! answered. Managing sessions is put to the event loop of the interactive UI; a
//! notice can also be put into the mailbox of a live session directly.

use crate::text;
use vstd::prelude::*;

verus! {

pub const NO_UI_ERR: &'static str = "no interactive UI attached";

pub const BLANK_NOTIFY_ERR: &'static str = "text must not be blank";

pub const SESSION_REQUIRED_ERR: &'static str = "session is required";

pub const DELIVERED: &'static str = "delivered";

/// What the event loop is asked.
#[derive(Debug)]
pub enum SessionRequest {
    List,
    Live,
    Current,
    Focus { id: String },
    Delete { id: String },
    New { prompt: Option<String>, focus: bool, model: Option<String> },
    Prompt { id: Option<String>, text: String },
    Notify { id: String, text: String, from: Option<String>, wake: bool },
    SetTitle { id: String, title: String },
}

/// What is said about a new session.
pub struct NewOptions {
    /// The first message of the user's, submitted right away.
    pub prompt: Option<String>,
    /// Whether the UI switches to it.
    pub focus: Option<bool>,
    /// The model it runs on; that of the current session when left out.
    pub model: Option<String>,
}

/// A flag that is off unless it is given.
pub open spec fn flag(given: Option<bool>) -> bool {
    given == Some(true)
}

fn flag_set(given: Option<bool>) -> (r: bool)
    ensures
        r == flag(given),
{
    match given {
        Some(given) => given,
        None => false,
    }
}

/// The request for a new session.
pub fn new_request(options: Option<NewOptions>) -> (request: SessionRequest)
    ensures
        request == match options {
            Some(options) => SessionRequest::New {
                prompt: options.prompt,
                focus: flag(options.focus),
                model: options.model,
            },
            None => SessionRequest::New { prompt: None, focus: false, model: None },
        },
{
    match options {
        Some(options) => SessionRequest::New {
            prompt: options.prompt,
            focus: flag_set(options.focus),
            model: options.model,
        },
        None => SessionRequest::New { prompt: None, focus: false, model: None },
    }
}

/// The request to send a prompt as it stands to a session, the focused one when none
/// is named.
pub fn prompt_request(text: String, session: Option<String>) -> (request: SessionRequest)
    ensures
        request == (SessionRequest::Prompt { id: session, text }),
{
    SessionRequest::Prompt { id: session, text }
}

/// Whether a notice can be sent at all: it has to say something.
pub fn check_notice(text: &str) -> (r: Result<(), String>)
    ensures
        match r {
            Ok(()) => !text::blank(text@),
            Err(error) => text::blank(text@) && error@ == BLANK_NOTIFY_ERR@,
        },
{
    if text::is_blank(text) {
        Err(BLANK_NOTIFY_ERR.to_string())
    } else {
        Ok(())
    }
}

/// Which session a notice is for: it has to be named.
pub fn addressee(session: Option<String>) -> (r: Result<String, String>)
    ensures
        match r {
            Ok(id) => session == Some(id),
            Err(error) => session is None && error@ == SESSION_REQUIRED_ERR@,
        },
{
    match session {
        Some(id) => Ok(id),
        None => Err(SESSION_REQUIRED_ERR.to_string()),
    }
}

/// The request to bring a notice to a session.
pub fn notify_request(id: String, text: String, from: Option<String>, wake: Option<bool>) -> (request:
    SessionRequest)
    ensures
        request == (SessionRequest::Notify { id, text, from, wake: flag(wake) }),
{
    SessionRequest::Notify { id, text, from, wake: flag_set(wake) }
}

/// The request for a notice as a plugin gave it. It has to say something, and then it
/// has to name a session, in that order.
pub fn notice_request(
    text: String,
    session: Option<String>,
    from: Option<String>,
    wake: Option<bool>,
) -> (r: Result<SessionRequest, String>)
    ensures
        text::blank(text@) ==> (r matches Err(e) && e@ == BLANK_NOTIFY_ERR@),
        !text::blank(text@) && session is None ==> (r matches Err(e) && e@
            == SESSION_REQUIRED_ERR@),
        !text::blank(text@) && session is Some ==> r == Ok::<SessionRequest, String>(
            SessionRequest::Notify { id: session->0, text, from, wake: flag(wake) },
        ),
{
    if let Err(error) = check_notice(text.as_str()) {
        return Err(error);
    }
    match addressee(session) {
        Ok(id) => Ok(notify_request(id, text, from, wake)),
        Err(error) => Err(error),
    }
}

/// What came of asking the event loop.
#[derive(Debug)]
pub enum UiReply {
    /// It could not be asked.
    Unreachable(String),
    /// It was asked and said no.
    Refused(String),
    /// It answered.
    Answered,
}

/// What a plugin is told, or what is left to do before it is.
#[derive(Debug)]
pub enum Settlement {
    /// Hand over the answer of the event loop.
    Answer,
    /// Hand over this error.
    Error(String),
    /// Put the notice into the mailbox of the session.
    DeliverDirectly,
}

/// What went wrong, if anything did.
pub open spec fn failure(reply: UiReply) -> Option<String> {
    match reply {
        UiReply::Unreachable(error) => Some(error),
        UiReply::Refused(error) => Some(error),
        UiReply::Answered => None,
    }
}

/// How a request is settled: by the answer, or by what went wrong.
pub fn settle(reply: UiReply) -> (settlement: Settlement)
    ensures
        settlement == match failure(reply) {
            Some(error) => Settlement::Error(error),
            None => Settlement::Answer,
        },
{
    match reply {
        UiReply::Unreachable(error) => Settlement::Error(error),
        UiReply::Refused(error) => Settlement::Error(error),
        UiReply::Answered => Settlement::Answer,
    }
}

/// How a notice is settled. Without an event loop to ask it is delivered all the
/// same, rather than failing a send that would have worked.
pub open spec fn notice_settled(reply: UiReply) -> Settlement {
    match failure(reply) {
        Some(error) => if error@ == NO_UI_ERR@ {
            Settlement::DeliverDirectly
        } else {
            Settlement::Error(error)
        },
        None => Settlement::Answer,
    }
}

pub fn settle_notice(reply: UiReply) -> (settlement: Settlement)
    ensures
        settlement == notice_settled(reply),
{
    match settle(reply) {
        Settlement::Error(error) => if text::same_text(error.as_str(), NO_UI_ERR) {
            Settlement::DeliverDirectly
        } else {
            Settlement::Error(error)
        },
        other => other,
    }
}

/// What a plugin is told once the notice was put into the mailbox, or could not be:
/// the weaker word, since nobody saw what became of it.
pub fn settle_delivery(delivered: Result<(), String>) -> (r: Result<String, String>)
    ensures
        match r {
            Ok(word) => delivered is Ok && word@ == DELIVERED@,
            Err(error) => delivered == Err::<(), String>(error),
        },
{
    match delivered {
        Ok(()) => Ok(DELIVERED.to_string()),
        Err(error) => Err(error),
    }
}

/// A notice fails only when something other than a missing event loop went wrong.
pub proof fn law_notices_survive_without_a_ui(reply: UiReply)
    ensures
        notice_settled(reply) is Error <==> failure(reply) is Some && failure(reply)->0@
            != NO_UI_ERR@,
        notice_settled(reply) is DeliverDirectly <==> failure(reply) is Some && failure(reply)->0@
            == NO_UI_ERR@,
        notice_settled(reply) is Answer <==> reply is Answered,
{
}

/// A notice on its way to a session.
#[derive(Debug)]
pub struct Notice {
    pub id: String,
    pub text: String,
    pub from: Option<String>,
    pub wake: bool,
}

/// How a notice goes out.
#[derive(Clone, Copy, PartialEq, Eq, Debug, Structural)]
pub enum Route {
    /// By way of the event loop, which can tell how it landed.
    ThroughUi,
    /// Straight into the mailbox, for callers that cannot wait.
    Direct,
}

/// Where a notice stands.
#[derive(Debug)]
pub enum NoticePhase {
    /// Nothing was given yet.
    Fresh,
    /// The event loop was asked.
    Asked(Notice),
    /// Its id is looked at before it is delivered.
    Checking(Notice),
    /// It is put into the mailbox.
    Delivering,
    /// The plugin was told.
    Settled,
}

/// What happens to a notice.
#[derive(Debug)]
pub enum NoticeEvent {
    /// A plugin gave it.
    Given { text: String, session: Option<String>, from: Option<String>, wake: Option<bool> },
    /// The event loop was asked, and this came of it.
    Replied(UiReply),
    /// Its id can be that of a session, or why it cannot.
    IdChecked(Result<(), String>),
    /// It is in the mailbox, or why it is not.
    Delivered(Result<(), String>),
}

/// What to do about it.
#[derive(Debug)]
pub enum NoticeAction {
    /// Ask the event loop.
    AskUi(SessionRequest),
    /// Look whether this can be the id of a session.
    CheckId(String),
    /// Put it into the mailbox.
    Deliver(Notice),
    /// Tell the plugin what the event loop answered.
    AnswerFromUi,
    /// Tell the plugin in this word how it landed.
    AnswerWord(String),
    /// Tell the plugin that it is in the mailbox.
    AnswerTrue,
    /// Tell the plugin this error.
    Refuse(String),
    /// That cannot happen now.
    Ignore,
}

/// What an action says.
pub enum NoticeMove {
    AskUi(SessionRequest),
    CheckId(String),
    Deliver(Notice),
    AnswerFromUi,
    AnswerWord(Seq<char>),
    AnswerTrue,
    Refuse(Seq<char>),
    Ignore,
}

impl View for NoticeAction {
    type V = NoticeMove;

    open spec fn view(&self) -> NoticeMove {
        match *self {
            NoticeAction::AskUi(request) => NoticeMove::AskUi(request),
            NoticeAction::CheckId(id) => NoticeMove::CheckId(id),
            NoticeAction::Deliver(notice) => NoticeMove::Deliver(notice),
            NoticeAction::AnswerFromUi => NoticeMove::AnswerFromUi,
            NoticeAction::AnswerWord(word) => NoticeMove::AnswerWord(word@),
            NoticeAction::AnswerTrue => NoticeMove::AnswerTrue,
            NoticeAction::Refuse(error) => NoticeMove::Refuse(error@),
            NoticeAction::Ignore => NoticeMove::Ignore,
        }
    }
}

/// What becomes of a notice. It is refused when it says nothing, then when it names no
/// session, then when the id is malformed, then when the mailbox does not take it.
pub open spec fn notice_stepped(route: Route, phase: NoticePhase, event: NoticeEvent) -> (
    NoticePhase,
    NoticeMove,
) {
    match (phase, event) {
        (NoticePhase::Fresh, NoticeEvent::Given { text, session, from, wake }) => {
            if text::blank(text@) {
                (NoticePhase::Settled, NoticeMove::Refuse(BLANK_NOTIFY_ERR@))
            } else if session is None {
                (NoticePhase::Settled, NoticeMove::Refuse(SESSION_REQUIRED_ERR@))
            } else {
                let notice = Notice { id: session->0, text, from, wake: flag(wake) };
                match route {
                    Route::ThroughUi => (
                        NoticePhase::Asked(notice),
                        NoticeMove::AskUi(
                            SessionRequest::Notify {
                                id: session->0,
                                text,
                                from,
                                wake: flag(wake),
                            },
                        ),
                    ),
                    Route::Direct => (
                        NoticePhase::Checking(notice),
                        NoticeMove::CheckId(session->0),
                    ),
                }
            }
        },
        (NoticePhase::Asked(notice), NoticeEvent::Replied(reply)) => match notice_settled(reply) {
            Settlement::Answer => (NoticePhase::Settled, NoticeMove::AnswerFromUi),
            Settlement::Error(error) => (NoticePhase::Settled, NoticeMove::Refuse(error@)),
            Settlement::DeliverDirectly => (
                NoticePhase::Checking(notice),
                NoticeMove::CheckId(notice.id),
            ),
        },
        (NoticePhase::Checking(notice), NoticeEvent::IdChecked(checked)) => match checked {
            Ok(()) => (NoticePhase::Delivering, NoticeMove::Deliver(notice)),
            Err(error) => (NoticePhase::Settled, NoticeMove::Refuse(error@)),
        },
        (NoticePhase::Delivering, NoticeEvent::Delivered(delivered)) => match delivered {
            Ok(()) => (
                NoticePhase::Settled,
                match route {
                    Route::ThroughUi => NoticeMove::AnswerWord(DELIVERED@),
                    Route::Direct => NoticeMove::AnswerTrue,
                },
            ),
            Err(error) => (NoticePhase::Settled, NoticeMove::Refuse(error@)),
        },
        _ => (phase, NoticeMove::Ignore),
    }
}

/// A notice, from when it is given until the plugin is told what came of it.
pub struct NoticeRun {
    pub route: Route,
    pub phase: NoticePhase,
}

fn copy_option(s: &Option<String>) -> (copy: Option<String>)
    ensures
        copy == *s,
{
    match s {
        Some(s) => Some(s.clone()),
        None => None,
    }
}

impl NoticeRun {
    pub fn new(route: Route) -> (run: NoticeRun)
        ensures
            run.route == route,
            run.phase == NoticePhase::Fresh,
    {
        NoticeRun { route, phase: NoticePhase::Fresh }
    }

    /// Takes note of what happened and says what to do.
    pub fn step(&mut self, event: NoticeEvent) -> (action: NoticeAction)
        ensures
            (final(self).phase, action@) == notice_stepped(old(self).route, old(self).phase, event),
            final(self).route == old(self).route,
    {
        let mut phase: NoticePhase = NoticePhase::Settled;
        std::mem::swap(&mut phase, &mut self.phase);
        match (phase, event) {
            (NoticePhase::Fresh, NoticeEvent::Given { text, session, from, wake }) => {
                let notice: Notice = match notice_request(text, session, from, wake) {
                    Ok(SessionRequest::Notify { id, text, from, wake }) => Notice {
                        id,
                        text,
                        from,
                        wake,
                    },
                    Ok(_) => {
                        return NoticeAction::Ignore;
                    },
                    Err(error) => {
                        return NoticeAction::Refuse(error);
                    },
                };
                match self.route {
                    Route::ThroughUi => {
                        let request: SessionRequest = SessionRequest::Notify {
                            id: notice.id.clone(),
                            text: notice.text.clone(),
                            from: copy_option(&notice.from),
                            wake: notice.wake,
                        };
                        self.phase = NoticePhase::Asked(notice);
                        NoticeAction::AskUi(request)
                    },
                    Route::Direct => {
                        let id: String = notice.id.clone();
                        self.phase = NoticePhase::Checking(notice);
                        NoticeAction::CheckId(id)
                    },
                }
            },
            (NoticePhase::Asked(notice), NoticeEvent::Replied(reply)) => {
                match settle_notice(reply) {
                    Settlement::Answer => NoticeAction::AnswerFromUi,
                    Settlement::Error(error) => NoticeAction::Refuse(error),
                    Settlement::DeliverDirectly => {
                        let id: String = notice.id.clone();
                        self.phase = NoticePhase::Checking(notice);
                        NoticeAction::CheckId(id)
                    },
                }
            },
            (NoticePhase::Checking(notice), NoticeEvent::IdChecked(checked)) => match checked {
                Ok(()) => {
                    self.phase = NoticePhase::Delivering;
                    NoticeAction::Deliver(notice)
                },
                Err(error) => NoticeAction::Refuse(error),
            },
            (NoticePhase::Delivering, NoticeEvent::Delivered(delivered)) => {
                match settle_delivery(delivered) {
                    Ok(word) => match self.route {
                        Route::ThroughUi => NoticeAction::AnswerWord(word),
                        Route::Direct => NoticeAction::AnswerTrue,
                    },
                    Err(error) => NoticeAction::Refuse(error),
                }
            },
            (phase, _) => {
                self.phase = phase;
                NoticeAction::Ignore
            },
        }
    }
}

/// The moves that tell the plugin something.
pub open spec fn tells(made: NoticeMove) -> bool {
    made is AnswerFromUi || made is AnswerWord || made is AnswerTrue || made is Refuse
}

/// A plugin is told once, and nothing happens to the notice after that.
pub proof fn law_a_notice_is_settled_once(route: Route, phase: NoticePhase, event: NoticeEvent)
    ensures
        tells(notice_stepped(route, phase, event).1) <==> !(phase is Settled) && notice_stepped(
            route,
            phase,
            event,
        ).0 is Settled,
        phase is Settled ==> notice_stepped(route, phase, event) == (phase, NoticeMove::Ignore),
{
}

/// A notice that says nothing is refused for that whatever else it says; one that says
/// something but names no session is refused for that. In both cases it is over: the
/// event loop is not asked and nothing is delivered.
pub proof fn law_refused_notices_go_nowhere(
    route: Route,
    text: String,
    session: Option<String>,
    from: Option<String>,
    wake: Option<bool>,
)
    requires
        text::blank(text@) || session is None,
    ensures
        notice_stepped(
            route,
            NoticePhase::Fresh,
            NoticeEvent::Given { text, session, from, wake },
        ) == (
            NoticePhase::Settled,
            NoticeMove::Refuse(
                if text::blank(text@) {
                    BLANK_NOTIFY_ERR@
                } else {
                    SESSION_REQUIRED_ERR@
                },
            ),
        ),
{
}

/// Where a notice that goes straight into the mailbox stands, and what is done last,
/// once it was given, its id looked at and its delivery tried, each as far as it comes
/// to that.
pub open spec fn notified(
    text: String,
    session: Option<String>,
    from: Option<String>,
    wake: Option<bool>,
    checked: Result<(), String>,
    delivered: Result<(), String>,
) -> NoticeMove {
    let given = notice_stepped(
        Route::Direct,
        NoticePhase::Fresh,
        NoticeEvent::Given { text, session, from, wake },
    );
    if given.0 is Settled {
        given.1
    } else {
        let looked = notice_stepped(Route::Direct, given.0, NoticeEvent::IdChecked(checked));
        if looked.0 is Settled {
            looked.1
        } else {
            notice_stepped(Route::Direct, looked.0, NoticeEvent::Delivered(delivered)).1
        }
    }
}

/// A notice straight into the mailbox succeeds exactly when it says something, names a
/// session, the id is well formed and the mailbox takes it; else the first of these
/// that fails is the error.
pub proof fn law_notify_succeeds_exactly_when_delivered(
    text: String,
    session: Option<String>,
    from: Option<String>,
    wake: Option<bool>,
    checked: Result<(), String>,
    delivered: Result<(), String>,
)
    ensures
        notified(text, session, from, wake, checked, delivered) == if text::blank(text@) {
            NoticeMove::Refuse(BLANK_NOTIFY_ERR@)
        } else if session is None {
            NoticeMove::Refuse(SESSION_REQUIRED_ERR@)
        } else if checked is Err {
            NoticeMove::Refuse(checked->Err_0@)
        } else if delivered is Err {
            NoticeMove::Refuse(delivered->Err_0@)
        } else {
            NoticeMove::AnswerTrue
        },
{
}

/// What is done about a notice as things happen to it.
pub open spec fn moves(route: Route, phase: NoticePhase, events: Seq<NoticeEvent>) -> Seq<
    NoticeMove,
>
    decreases events.len(),
{
    if events.len() == 0 {
        Seq::empty()
    } else {
        let (next, made) = notice_stepped(route, phase, events[0]);
        seq![made] + moves(route, next, events.skip(1))
    }
}

/// How many of the moves deliver something.
pub open spec fn deliveries(made: Seq<NoticeMove>) -> nat
    decreases made.len(),
{
    if made.len() == 0 {
        0
    } else {
        (if made[0] is Deliver {
            1nat
        } else {
            0nat
        }) + deliveries(made.skip(1))
    }
}

proof fn lemma_deliveries_ahead(route: Route, phase: NoticePhase, events: Seq<NoticeEvent>)
    ensures
        deliveries(moves(route, phase, events)) <= 1,
        phase is Delivering || phase is Settled ==> deliveries(moves(route, phase, events)) == 0,
    decreases events.len(),
{
    if events.len() > 0 {
        let (next, made) = notice_stepped(route, phase, events[0]);
        lemma_deliveries_ahead(route, next, events.skip(1));
        assert(moves(route, phase, events).skip(1) =~= moves(route, next, events.skip(1)));
    }
}

/// A notice is delivered at most once, whatever happens and in whichever order.
pub proof fn law_a_notice_is_delivered_at_most_once(route: Route, events: Seq<NoticeEvent>)
    ensures
        deliveries(moves(route, NoticePhase::Fresh, events)) <= 1,
{
    lemma_deliveries_ahead(route, NoticePhase::Fresh, events);
}

/// What is delivered is what the plugin gave: the notice is carried along unchanged
/// until then, and one that goes straight into the mailbox never asks the event loop.
pub proof fn law_what_was_given_is_delivered(route: Route, phase: NoticePhase, event: NoticeEvent)
    ensures
        notice_stepped(route, phase, event).1 matches NoticeMove::Deliver(notice) ==> phase
            == NoticePhase::Checking(notice) && (event matches NoticeEvent::IdChecked(checked)
            && checked is Ok),
        notice_stepped(route, phase, event).0 matches NoticePhase::Checking(notice) ==> phase
            == NoticePhase::Checking(notice) || phase == NoticePhase::Asked(notice) || (event
            matches NoticeEvent::Given { text, session, from, wake } && notice == (Notice {
            id: session->0,
            text,
            from,
            wake: flag(wake),
        })),
        notice_stepped(route, phase, event).1 is AskUi ==> route == Route::ThroughUi,
{
}

}
