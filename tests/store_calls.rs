use std::collections::VecDeque;

use triton_mock::archive::{Archive, ArchiveError, PersistedModel};
use triton_mock::models::{
    backend_address, backend_models, backend_port, is_known_model, model_ready,
    recording_filename, same_text, server_ports,
};
use triton_mock::store::InteractionStore;
use triton_mock::table::Table;
use triton_mock::unary::{check_model, BackendError, CallError};

fn s(x: &str) -> String {
    x.to_string()
}

#[test]
fn known_models_are_recognised() {
    assert!(is_known_model("llama_7b"));
    assert!(is_known_model("acronym_detector"));
    assert!(is_known_model("mistral_7b_instruct"));
    assert!(!is_known_model("gpt"));
    assert!(!is_known_model(""));
    assert!(!is_known_model("llama_7"));
    assert!(model_ready("ner"));
    assert!(!model_ready("unknown"));
    assert!(same_text("a", "a"));
    assert!(!same_text("a", "b"));
}

#[test]
fn check_model_rejects_unknown() {
    assert_eq!(check_model("keybert"), Ok(()));
    assert_eq!(check_model("bert"), Err(CallError::UnknownModel));
}

#[test]
fn backend_ports_follow_the_endpoint_table() {
    assert_eq!(backend_port("cross_encoder"), Some("8304"));
    assert_eq!(backend_port("coreference_resolution"), Some("8304"));
    assert_eq!(backend_port("llama_7b"), Some("8305"));
    assert_eq!(backend_port("mistral_7b_instruct"), Some("8307"));
    assert_eq!(backend_port("ner"), None);
    assert_eq!(
        backend_models(),
        vec!["cross_encoder", "coreference_resolution", "llama_7b", "mistral_7b_instruct"]
    );
    assert_eq!(server_ports(), vec![8004, 8005, 8007]);
}

#[test]
fn addresses_and_file_names() {
    assert_eq!(backend_address("host.docker.internal", "8305"), "http://host.docker.internal:8305");
    assert_eq!(recording_filename("0"), "triton-mock-recording-0.json.gz");
    assert_eq!(recording_filename(""), "triton-mock-recording-.json.gz");
}

#[test]
fn infer_replays_in_record_order() {
    let mut store = InteractionStore::new();
    for r in ["a", "b", "c"] {
        assert_eq!(store.record_infer("llama_7b", Ok(s(r))), Ok(s(r)));
    }
    let archive = store.snapshot();
    let mut replay = InteractionStore::load(&archive).unwrap();
    assert_eq!(replay.replay_infer("llama_7b"), Ok(s("a")));
    assert_eq!(replay.replay_infer("llama_7b"), Ok(s("b")));
    assert_eq!(replay.replay_infer("llama_7b"), Ok(s("c")));
    assert_eq!(replay.replay_infer("llama_7b"), Err(CallError::RecordingExhausted));
    assert_eq!(replay.replay_infer("llama_7b"), Err(CallError::RecordingExhausted));
}

#[test]
fn backend_failure_is_passed_on_and_not_recorded() {
    let mut store = InteractionStore::new();
    let e = BackendError { code: 14, message: s("backend down") };
    assert_eq!(
        store.record_infer("ner", Err(e.clone())),
        Err(CallError::BackendFailure(e.clone()))
    );
    assert_eq!(
        store.record_config("ner", "{}", Err(e.clone())),
        Err(CallError::BackendFailure(e))
    );
    assert_eq!(store.replay_infer("ner"), Err(CallError::RecordingExhausted));
    assert_eq!(store.replay_config("ner", "{}"), Err(CallError::RecordingExhausted));
}

#[test]
fn config_replies_are_kept_per_request() {
    let mut store = InteractionStore::new();
    assert_eq!(store.record_config("llama_7b", "r1", Ok(s("c1"))), Ok(s("c1")));
    assert_eq!(store.record_config("llama_7b", "r2", Ok(s("c2"))), Ok(s("c2")));
    assert_eq!(store.record_config("llama_7b", "r1", Ok(s("c3"))), Ok(s("c3")));
    assert_eq!(store.replay_config("llama_7b", "r2"), Ok(s("c2")));
    assert_eq!(store.replay_config("llama_7b", "r2"), Err(CallError::RecordingExhausted));
    assert_eq!(store.replay_config("llama_7b", "r1"), Ok(s("c1")));
    assert_eq!(store.replay_config("llama_7b", "r1"), Ok(s("c3")));
    assert_eq!(store.replay_config("llama_7b", "r1"), Err(CallError::RecordingExhausted));
    assert_eq!(store.replay_config("llama_7b", "r3"), Err(CallError::RecordingExhausted));
}

#[test]
fn empty_logs_are_exhausted() {
    let mut store = InteractionStore::new();
    assert_eq!(store.replay_infer("ner"), Err(CallError::RecordingExhausted));
    assert_eq!(store.replay_config("ner", "x"), Err(CallError::RecordingExhausted));
    assert_eq!(store.replay_stream("ner"), Err(CallError::RecordingExhausted));
    let mut started = InteractionStore::with_models(&vec!["ner"]);
    assert_eq!(started.replay_infer("ner"), Err(CallError::RecordingExhausted));
}

#[test]
fn unknown_model_is_rejected_even_when_archived() {
    let mut keys = Table::<PersistedModel>::new();
    let mut infer = VecDeque::new();
    infer.push_back(s("resp"));
    keys.keys.push(s("gpt"));
    keys.vals.push(PersistedModel {
        config_log: Table::new(),
        infer_log: infer,
        stream_log: VecDeque::new(),
    });
    let archive = Archive { models: keys };
    let mut store = InteractionStore::load(&archive).unwrap();
    assert_eq!(store.replay_infer("gpt"), Err(CallError::UnknownModel));
    assert_eq!(store.replay_config("gpt", "k"), Err(CallError::UnknownModel));
    assert_eq!(store.replay_stream("gpt"), Err(CallError::UnknownModel));
    assert_eq!(store.record_infer("gpt", Ok(s("x"))), Err(CallError::UnknownModel));
    assert_eq!(store.record_config("gpt", "k", Ok(s("x"))), Err(CallError::UnknownModel));
    assert_eq!(store.record_stream_request("gpt", s("q")), Err(CallError::UnknownModel));
    assert_eq!(store.record_stream_response("gpt", s("x")), Err(CallError::UnknownModel));
}

#[test]
fn save_load_keeps_logs_and_drops_pending() {
    let mut store = InteractionStore::with_models(&vec!["llama_7b", "ner"]);
    store.record_infer("llama_7b", Ok(s("i1"))).unwrap();
    store.record_infer("llama_7b", Ok(s("i2"))).unwrap();
    store.record_config("ner", "k", Ok(s("c1"))).unwrap();
    store.record_stream_request("llama_7b", s("q1")).unwrap();
    store.record_stream_request("llama_7b", s("q2")).unwrap();
    assert_eq!(store.record_stream_response("llama_7b", s("r1")), Ok(s("r1")));

    let archive = store.snapshot();
    assert_eq!(archive.models.keys, vec![s("llama_7b"), s("ner")]);
    let loaded = InteractionStore::load(&archive).unwrap();
    assert_eq!(loaded.models.keys, vec![s("llama_7b"), s("ner")]);
    let llama = &loaded.models.vals[0];
    assert_eq!(llama.infer_log, VecDeque::from(vec![s("i1"), s("i2")]));
    assert_eq!(llama.stream_log, VecDeque::from(vec![s("r1")]));
    assert!(llama.stream_pending.is_empty());
    assert!(store.models.vals[0].stream_pending.len() == 1);
    let ner = &loaded.models.vals[1];
    assert_eq!(ner.config_log.keys, vec![s("k")]);
    assert_eq!(ner.config_log.vals[0], VecDeque::from(vec![s("c1")]));
    assert!(ner.infer_log.is_empty());
}

#[test]
fn archive_with_repeated_model_is_refused() {
    let mut t = Table::<PersistedModel>::new();
    for _ in 0..2 {
        t.keys.push(s("ner"));
        t.vals.push(PersistedModel {
            config_log: Table::new(),
            infer_log: VecDeque::new(),
            stream_log: VecDeque::new(),
        });
    }
    let archive = Archive { models: t };
    assert!(!archive.is_valid());
    assert!(matches!(InteractionStore::load(&archive), Err(ArchiveError::DuplicateKey)));
}

#[test]
fn archive_with_repeated_config_request_is_refused() {
    let mut cfg = Table::<VecDeque<String>>::new();
    cfg.keys.push(s("k"));
    cfg.vals.push(VecDeque::new());
    cfg.keys.push(s("k"));
    cfg.vals.push(VecDeque::new());
    let mut t = Table::<PersistedModel>::new();
    t.keys.push(s("ner"));
    t.vals.push(PersistedModel { config_log: cfg, infer_log: VecDeque::new(), stream_log: VecDeque::new() });
    let archive = Archive { models: t };
    assert!(matches!(InteractionStore::load(&archive), Err(ArchiveError::DuplicateKey)));
}

#[test]
fn unimplemented_methods_name_themselves() {
    assert_eq!(
        triton_mock::unary::unimplemented_method("log_settings"),
        CallError::UnimplementedMethod(s("log_settings not implemented"))
    );
}

#[test]
fn server_is_live_and_ready() {
    assert!(triton_mock::models::server_live());
    assert!(triton_mock::models::server_ready());
}
