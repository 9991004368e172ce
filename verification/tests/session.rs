use maki::session::{
    addressee, check_notice, new_request, notice_request, notify_request, prompt_request, settle,
    settle_delivery, settle_notice, NewOptions, NoticeAction, NoticeEvent, NoticeRun, Route,
    SessionRequest, Settlement, UiReply, BLANK_NOTIFY_ERR, DELIVERED, NO_UI_ERR,
    SESSION_REQUIRED_ERR,
};

fn given(text: &str, session: Option<&str>) -> NoticeEvent {
    NoticeEvent::Given {
        text: text.to_string(),
        session: session.map(str::to_string),
        from: Some("lead".to_string()),
        wake: Some(true),
    }
}

fn refused(action: NoticeAction) -> String {
    match action {
        NoticeAction::Refuse(error) => error,
        other => panic!("expected a refusal, got {other:?}"),
    }
}

#[test]
fn live_without_ui_returns_error_pair() {
    let settlement = settle(UiReply::Unreachable(NO_UI_ERR.to_string()));
    assert!(matches!(settlement, Settlement::Error(ref e) if e == NO_UI_ERR));
}

fn model_of(request: SessionRequest) -> Option<String> {
    match request {
        SessionRequest::New { model, .. } => model,
        _ => panic!("expected new request"),
    }
}

#[test]
fn new_forwards_the_model_tier_name() {
    let request = new_request(Some(NewOptions {
        prompt: None,
        focus: None,
        model: Some("weak".to_string()),
    }));
    assert_eq!(model_of(request).as_deref(), Some("weak"));
}

#[test]
fn new_forwards_the_model_explicit_spec() {
    let request = new_request(Some(NewOptions {
        prompt: None,
        focus: None,
        model: Some("anthropic/model-x".to_string()),
    }));
    assert_eq!(model_of(request).as_deref(), Some("anthropic/model-x"));
}

#[test]
fn new_forwards_the_model_omitted_means_inherit() {
    let request = new_request(Some(NewOptions {
        prompt: None,
        focus: None,
        model: None,
    }));
    assert_eq!(model_of(request), None);
}

#[test]
fn a_new_session_without_options_is_not_focused() {
    assert!(matches!(
        new_request(None),
        SessionRequest::New {
            prompt: None,
            focus: false,
            model: None
        }
    ));
    let request = new_request(Some(NewOptions {
        prompt: Some("fix the tests".to_string()),
        focus: Some(true),
        model: None,
    }));
    assert!(matches!(
        request,
        SessionRequest::New { prompt: Some(ref p), focus: true, model: None } if p == "fix the tests"
    ));
}

#[test]
fn send_without_a_ui_falls_back_to_direct_delivery() {
    for reply in [
        UiReply::Unreachable(NO_UI_ERR.to_string()),
        UiReply::Refused(NO_UI_ERR.to_string()),
    ] {
        assert!(matches!(settle_notice(reply), Settlement::DeliverDirectly));
    }
    assert_eq!(settle_delivery(Ok(())), Ok(DELIVERED.to_string()));
}

#[test]
fn send_to_a_dead_session_still_fails() {
    let error = settle_delivery(Err("session not live: x".to_string())).unwrap_err();
    assert!(error.contains("session not live"));
    let settlement = settle_notice(UiReply::Refused("session not live: x".to_string()));
    assert!(matches!(settlement, Settlement::Error(ref e) if e == "session not live: x"));
}

#[test]
fn send_forwards_the_sender_and_wake_to_the_ui() {
    let request = notify_request(
        "abc".to_string(),
        "ping".to_string(),
        Some("lead".to_string()),
        Some(true),
    );
    match request {
        SessionRequest::Notify {
            id,
            text,
            from,
            wake,
        } => {
            assert_eq!(id, "abc");
            assert_eq!(text, "ping");
            assert_eq!(from.as_deref(), Some("lead"));
            assert!(wake);
        }
        _ => panic!("expected notify request"),
    }
    assert!(matches!(
        settle_notice(UiReply::Answered),
        Settlement::Answer
    ));
}

#[test]
fn a_notice_does_not_wake_unless_asked_to() {
    let request = notify_request("abc".to_string(), "ping".to_string(), None, None);
    assert!(matches!(
        request,
        SessionRequest::Notify {
            from: None,
            wake: false,
            ..
        }
    ));
}

#[test]
fn prompt_forwards_text_and_session_id_explicit_session_id() {
    match prompt_request("hi".to_string(), Some("abc".to_string())) {
        SessionRequest::Prompt { id, text } => {
            assert_eq!(id.as_deref(), Some("abc"));
            assert_eq!(text, "hi");
        }
        _ => panic!("expected prompt request"),
    }
}

#[test]
fn prompt_forwards_text_and_session_id_defaults_to_focused() {
    match prompt_request("hi".to_string(), None) {
        SessionRequest::Prompt { id, text } => {
            assert_eq!(id, None);
            assert_eq!(text, "hi");
        }
        _ => panic!("expected prompt request"),
    }
}

#[test]
fn notify_rejects_missing_and_non_live_sessions() {
    assert_eq!(addressee(None), Err(SESSION_REQUIRED_ERR.to_string()));
    assert_eq!(addressee(Some("abc".to_string())), Ok("abc".to_string()));
    assert_eq!(
        settle_delivery(Err("session not live: abc".to_string())),
        Err("session not live: abc".to_string())
    );
}

#[test]
fn notify_rejects_blank_text_and_invalid_session_ids() {
    assert_eq!(check_notice(" "), Err(BLANK_NOTIFY_ERR.to_string()));
    assert_eq!(check_notice("built"), Ok(()));
    let error = settle_delivery(Err("invalid base58".to_string())).unwrap_err();
    assert!(error.contains("invalid base58"));
}

#[test]
fn a_blank_text_is_refused_before_a_missing_session() {
    for session in [None, Some("invalid")] {
        for route in [Route::ThroughUi, Route::Direct] {
            let mut run = NoticeRun::new(route);
            assert_eq!(refused(run.step(given(" ", session))), BLANK_NOTIFY_ERR);
            assert!(matches!(
                run.step(NoticeEvent::IdChecked(Ok(()))),
                NoticeAction::Ignore
            ));
        }
    }
    let mut run = NoticeRun::new(Route::Direct);
    assert_eq!(refused(run.step(given("built", None))), SESSION_REQUIRED_ERR);
    assert_eq!(
        notice_request(" ".to_string(), None, None, None).unwrap_err(),
        BLANK_NOTIFY_ERR
    );
    assert_eq!(
        notice_request("x".to_string(), None, None, None).unwrap_err(),
        SESSION_REQUIRED_ERR
    );
    assert!(matches!(
        notice_request("x".to_string(), Some("abc".to_string()), None, None),
        Ok(SessionRequest::Notify { ref id, wake: false, .. }) if id == "abc"
    ));
}

#[test]
fn a_direct_notice_is_checked_and_then_delivered() {
    let mut run = NoticeRun::new(Route::Direct);
    assert!(matches!(
        run.step(given("built", Some("abc"))),
        NoticeAction::CheckId(ref id) if id == "abc"
    ));
    match run.step(NoticeEvent::IdChecked(Ok(()))) {
        NoticeAction::Deliver(notice) => {
            assert_eq!(notice.id, "abc");
            assert_eq!(notice.text, "built");
            assert_eq!(notice.from.as_deref(), Some("lead"));
            assert!(notice.wake);
        }
        other => panic!("expected a delivery, got {other:?}"),
    }
    assert!(matches!(
        run.step(NoticeEvent::Delivered(Ok(()))),
        NoticeAction::AnswerTrue
    ));
    assert!(matches!(
        run.step(NoticeEvent::Delivered(Ok(()))),
        NoticeAction::Ignore
    ));
}

#[test]
fn a_direct_notice_fails_on_its_id_and_then_on_its_mailbox() {
    let mut run = NoticeRun::new(Route::Direct);
    run.step(given("built", Some("invalid")));
    assert_eq!(
        refused(run.step(NoticeEvent::IdChecked(Err("invalid base58".to_string())))),
        "invalid base58"
    );
    let mut run = NoticeRun::new(Route::Direct);
    run.step(given("built", Some("abc")));
    run.step(NoticeEvent::IdChecked(Ok(())));
    assert_eq!(
        refused(run.step(NoticeEvent::Delivered(Err("session not live: abc".to_string())))),
        "session not live: abc"
    );
}

#[test]
fn a_notice_through_the_ui_falls_back_to_the_mailbox() {
    let mut run = NoticeRun::new(Route::ThroughUi);
    assert!(matches!(
        run.step(given("ping", Some("abc"))),
        NoticeAction::AskUi(SessionRequest::Notify { ref id, ref text, wake: true, .. })
            if id == "abc" && text == "ping"
    ));
    assert!(matches!(
        run.step(NoticeEvent::Replied(UiReply::Unreachable(
            NO_UI_ERR.to_string()
        ))),
        NoticeAction::CheckId(_)
    ));
    assert!(matches!(
        run.step(NoticeEvent::IdChecked(Ok(()))),
        NoticeAction::Deliver(ref notice) if notice.text == "ping"
    ));
    assert!(matches!(
        run.step(NoticeEvent::Delivered(Ok(()))),
        NoticeAction::AnswerWord(ref word) if word == DELIVERED
    ));

    let mut run = NoticeRun::new(Route::ThroughUi);
    run.step(given("ping", Some("abc")));
    assert!(matches!(
        run.step(NoticeEvent::Replied(UiReply::Answered)),
        NoticeAction::AnswerFromUi
    ));
    let mut run = NoticeRun::new(Route::ThroughUi);
    run.step(given("ping", Some("abc")));
    assert_eq!(
        refused(run.step(NoticeEvent::Replied(UiReply::Refused("busy".to_string())))),
        "busy"
    );
}
