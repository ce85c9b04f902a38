use triton_mock::session::{Mode, StreamAction, StreamSession};
use triton_mock::store::InteractionStore;
use triton_mock::unary::CallError;

fn s(x: &str) -> String {
    x.to_string()
}

#[test]
fn streaming_session_round_trip() {
    let mut store = InteractionStore::new();
    let mut rec = StreamSession::new(Mode::Record);
    match rec.on_request(&mut store, "mistral_7b_instruct", s("q1")) {
        StreamAction::BindAndForward(m, q) => {
            assert_eq!(m, "mistral_7b_instruct");
            assert_eq!(q, "q1");
        }
        other => panic!("unexpected {:?}", other),
    }
    assert_eq!(rec.bound_model(), Some(s("mistral_7b_instruct")));
    // later messages keep the session's model whatever their model field says
    assert!(matches!(rec.on_request(&mut store, "ner", s("q2")), StreamAction::Forward(q) if q == "q2"));
    let model = rec.bound_model().unwrap();
    assert_eq!(store.record_stream_response(&model, s("r1")), Ok(s("r1")));
    assert!(matches!(rec.on_request(&mut store, "", s("q3")), StreamAction::Forward(q) if q == "q3"));
    assert_eq!(store.record_stream_response(&model, s("r2")), Ok(s("r2")));
    assert_eq!(store.record_stream_response(&model, s("r3")), Ok(s("r3")));
    // an unsolicited backend message is relayed as a miss and not captured
    assert_eq!(store.record_stream_response(&model, s("r4")), Err(CallError::RecordingExhausted));
    rec.on_close();
    assert!(matches!(rec.on_request(&mut store, "ner", s("late")), StreamAction::Ignore));

    let archive = store.snapshot();
    let mut replay_store = InteractionStore::load(&archive).unwrap();
    let mut rep = StreamSession::new(Mode::Replay);
    let mut answers = Vec::new();
    for q in ["a", "b", "c", "d"] {
        match rep.on_request(&mut replay_store, "mistral_7b_instruct", s(q)) {
            StreamAction::Reply(r) => answers.push(r),
            other => panic!("unexpected {:?}", other),
        }
    }
    assert_eq!(
        answers,
        vec![Ok(s("r1")), Ok(s("r2")), Ok(s("r3")), Err(CallError::RecordingExhausted)]
    );
    // the miss did not close the session
    assert_eq!(rep.bound_model(), Some(s("mistral_7b_instruct")));
    assert!(matches!(
        rep.on_request(&mut replay_store, "mistral_7b_instruct", s("e")),
        StreamAction::Reply(Err(CallError::RecordingExhausted))
    ));
}

#[test]
fn streaming_session_rejects_unknown_first_model() {
    let mut store = InteractionStore::new();
    let mut rec = StreamSession::new(Mode::Record);
    assert!(matches!(
        rec.on_request(&mut store, "gpt", s("q")),
        StreamAction::Reject(CallError::UnknownModel)
    ));
    assert_eq!(rec.bound_model(), None);
    assert!(matches!(rec.on_request(&mut store, "ner", s("q")), StreamAction::Ignore));
    let mut rep = StreamSession::new(Mode::Replay);
    assert!(matches!(
        rep.on_request(&mut store, "", s("q")),
        StreamAction::Reject(CallError::UnknownModel)
    ));
}

#[test]
fn stream_response_without_session_request_is_a_miss() {
    let mut store = InteractionStore::new();
    assert_eq!(store.record_stream_response("llama_7b", s("r")), Err(CallError::RecordingExhausted));
    let mut with = InteractionStore::with_models(&vec!["llama_7b"]);
    assert_eq!(with.record_stream_response("llama_7b", s("r")), Err(CallError::RecordingExhausted));
    assert_eq!(with.replay_stream("llama_7b"), Err(CallError::RecordingExhausted));
}

#[test]
fn streaming_responses_after_all_requests_replay_in_order() {
    let mut store = InteractionStore::new();
    let mut rec = StreamSession::new(Mode::Record);
    for q in ["q1", "q2", "q3"] {
        rec.on_request(&mut store, "llama_7b", s(q));
    }
    for r in ["r1", "r2", "r3"] {
        assert_eq!(store.record_stream_response("llama_7b", s(r)), Ok(s(r)));
    }
    let mut replay_store = InteractionStore::load(&store.snapshot()).unwrap();
    let mut rep = StreamSession::new(Mode::Replay);
    let mut answers = Vec::new();
    for q in ["a", "b", "c", "d"] {
        if let StreamAction::Reply(r) = rep.on_request(&mut replay_store, "llama_7b", s(q)) {
            answers.push(r);
        }
    }
    assert_eq!(
        answers,
        vec![Ok(s("r1")), Ok(s("r2")), Ok(s("r3")), Err(CallError::RecordingExhausted)]
    );
}
