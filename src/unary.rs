use vstd::prelude::*;
use std::collections::VecDeque;
use crate::models::{is_known_model, is_known_model_spec};
use crate::store::{
    config_queue, recording_of, InteractionStore, RecordingView, StoreView,
};
use crate::table::Table;
use crate::archive::persisted;

verus! {

/// The error a backend returned, kept as its status code and message.
#[derive(Debug, Clone, PartialEq, Eq)]
pub struct BackendError {
    pub code: i32,
    pub message: String,
}

/// Why a call could not be answered.
#[derive(Debug, Clone, PartialEq, Eq)]
pub enum CallError {
    /// The model is not one of the known models.
    UnknownModel,
    /// Replay found no recorded response left.
    RecordingExhausted,
    /// Record mode: the backend call failed; its error is passed on unchanged.
    BackendFailure(BackendError),
    /// A protocol method this fixture does not implement; the message names it.
    UnimplementedMethod(String),
}

/// The fixed answer of a protocol method outside the fixture's scope.
pub fn unimplemented_method(method: &str) -> (r: CallError)
    ensures
        r matches CallError::UnimplementedMethod(msg) && msg@ == method@ + " not implemented"@,
{
    let mut msg = method.to_owned();
    msg.append(" not implemented");
    CallError::UnimplementedMethod(msg)
}

/// The head of a queue, or `RecordingExhausted` when it is empty.
pub open spec fn head_or_exhausted(q: Seq<String>) -> Result<String, CallError> {
    if q.len() > 0 {
        Ok(q[0])
    } else {
        Err(CallError::RecordingExhausted)
    }
}

/// The store after `resp` is captured as `m`'s next inference response.
pub open spec fn record_infer_spec(v: StoreView, m: Seq<char>, resp: String) -> StoreView {
    let r = recording_of(v, m);
    v.insert(m, RecordingView { infer: r.infer.push(resp), ..r })
}

/// The answer of one replayed inference call to a known model.
pub open spec fn replay_infer_result(v: StoreView, m: Seq<char>) -> Result<String, CallError> {
    head_or_exhausted(recording_of(v, m).infer)
}

/// The store after one replayed inference call to a known model.
pub open spec fn replay_infer_store(v: StoreView, m: Seq<char>) -> StoreView {
    let r = recording_of(v, m);
    if r.infer.len() > 0 {
        v.insert(m, RecordingView { infer: r.infer.drop_first(), ..r })
    } else {
        v
    }
}

/// The store after `resp` is captured for configuration request `key` of `m`.
pub open spec fn record_config_spec(
    v: StoreView,
    m: Seq<char>,
    key: Seq<char>,
    resp: String,
) -> StoreView {
    let r = recording_of(v, m);
    v.insert(m, RecordingView { config: r.config.insert(key, config_queue(r, key).push(resp)), ..r })
}

/// The answer of one replayed configuration call.
pub open spec fn replay_config_result(v: StoreView, m: Seq<char>, key: Seq<char>) -> Result<
    String,
    CallError,
> {
    head_or_exhausted(config_queue(recording_of(v, m), key))
}

/// The store after one replayed configuration call.
pub open spec fn replay_config_store(v: StoreView, m: Seq<char>, key: Seq<char>) -> StoreView {
    let r = recording_of(v, m);
    let q = config_queue(r, key);
    if q.len() > 0 {
        v.insert(m, RecordingView { config: r.config.insert(key, q.drop_first()), ..r })
    } else {
        v
    }
}

/// Rejects a model outside the known set.
pub fn check_model(model: &str) -> (r: Result<(), CallError>)
    ensures
        r is Ok <==> is_known_model_spec(model@),
        r is Err ==> r == Err::<(), CallError>(CallError::UnknownModel),
{
    if is_known_model(model) {
        Ok(())
    } else {
        Err(CallError::UnknownModel)
    }
}

impl InteractionStore {
    /// Record mode, unary inference: `outcome` is what the backend answered.
    /// A response is captured at the tail of the model's inference log and
    /// returned; a backend error is returned unchanged and nothing is captured.
    pub fn record_infer(&mut self, model: &str, outcome: Result<String, BackendError>) -> (r:
        Result<String, CallError>)
        requires
            old(self).wf(),
        ensures
            final(self).wf(),
            !is_known_model_spec(model@) ==> r == Err::<String, CallError>(CallError::UnknownModel)
                && final(self)@ == old(self)@,
            is_known_model_spec(model@) ==> match outcome {
                Ok(resp) => r == Ok::<String, CallError>(resp) && final(self)@ == record_infer_spec(
                    old(self)@,
                    model@,
                    resp,
                ),
                Err(e) => r == Err::<String, CallError>(CallError::BackendFailure(e))
                    && final(self)@ == old(self)@,
            },
    {
        if !is_known_model(model) {
            return Err(CallError::UnknownModel);
        }
        match outcome {
            Err(e) => Err(CallError::BackendFailure(e)),
            Ok(resp) => {
                let i = self.slot(model);
                let ghost mid = self.models;
                let ghost m = model@;
                proof {
                    mid.lemma_index_of(i as int);
                }
                let stored = resp.clone();
                self.models.vals[i].infer_log.push_back(stored);
                proof {
                    Table::lemma_update(&mid, &self.models, i as int, self.models.vals@[i as int]);
                    assert(self.models.vals@[i as int]@ =~= RecordingView {
                        infer: mid.vals@[i as int]@.infer.push(resp),
                        ..mid.vals@[i as int]@
                    });
                }
                Ok(resp)
            },
        }
    }

    /// Replay mode, unary inference: the oldest recorded response of the model
    /// is consumed and returned; with none left the call fails with
    /// `RecordingExhausted`.
    pub fn replay_infer(&mut self, model: &str) -> (r: Result<String, CallError>)
        requires
            old(self).wf(),
        ensures
            final(self).wf(),
            !is_known_model_spec(model@) ==> r == Err::<String, CallError>(CallError::UnknownModel)
                && final(self)@ == old(self)@,
            is_known_model_spec(model@) ==> r == replay_infer_result(old(self)@, model@)
                && final(self)@ == replay_infer_store(old(self)@, model@),
    {
        if !is_known_model(model) {
            return Err(CallError::UnknownModel);
        }
        match self.models.find(model) {
            None => Err(CallError::RecordingExhausted),
            Some(i) => {
                let ghost before = self.models;
                proof {
                    before.lemma_index_of(i as int);
                }
                let popped = self.models.vals[i].infer_log.pop_front();
                proof {
                    Table::lemma_update(&before, &self.models, i as int, self.models.vals@[i as int]);
                }
                match popped {
                    Some(resp) => {
                        proof {
                            assert(self.models.vals@[i as int]@ =~= RecordingView {
                                infer: before.vals@[i as int]@.infer.drop_first(),
                                ..before.vals@[i as int]@
                            });
                        }
                        Ok(resp)
                    },
                    None => {
                        proof {
                            assert(self.models.vals@[i as int]@ =~= before.vals@[i as int]@);
                            assert(self@ =~= before.map());
                        }
                        Err(CallError::RecordingExhausted)
                    },
                }
            },
        }
    }
    /// Record mode, configuration fetch: a response is captured at the tail of
    /// the queue kept under the serialized request `key` and returned; a
    /// backend error is returned unchanged and nothing is captured.
    pub fn record_config(
        &mut self,
        model: &str,
        key: &str,
        outcome: Result<String, BackendError>,
    ) -> (r: Result<String, CallError>)
        requires
            old(self).wf(),
        ensures
            final(self).wf(),
            !is_known_model_spec(model@) ==> r == Err::<String, CallError>(CallError::UnknownModel)
                && final(self)@ == old(self)@,
            is_known_model_spec(model@) ==> match outcome {
                Ok(resp) => r == Ok::<String, CallError>(resp) && final(self)@ == record_config_spec(
                    old(self)@,
                    model@,
                    key@,
                    resp,
                ),
                Err(e) => r == Err::<String, CallError>(CallError::BackendFailure(e))
                    && final(self)@ == old(self)@,
            },
    {
        if !is_known_model(model) {
            return Err(CallError::UnknownModel);
        }
        match outcome {
            Err(e) => Err(CallError::BackendFailure(e)),
            Ok(resp) => {
                let i = self.slot(model);
                let ghost mid = self.models;
                proof {
                    mid.lemma_index_of(i as int);
                }
                let stored = resp.clone();
                let found = self.models.vals[i].config_log.find(key);
                match found {
                    Some(j) => {
                        let ghost cfg = self.models.vals@[i as int].config_log;
                        proof {
                            cfg.lemma_index_of(j as int);
                        }
                        self.models.vals[i].config_log.vals[j].push_back(stored);
                        proof {
                            let newcfg = self.models.vals@[i as int].config_log;
                            Table::lemma_update(&cfg, &newcfg, j as int, newcfg.vals@[j as int]);
                        }
                    },
                    None => {
                        let mut q: VecDeque<String> = VecDeque::new();
                        q.push_back(stored);
                        self.models.vals[i].config_log.push_new(key.to_owned(), q);
                        proof {
                            assert(q@ =~= Seq::<String>::empty().push(resp));
                        }
                    },
                }
                proof {
                    Table::lemma_update(&mid, &self.models, i as int, self.models.vals@[i as int]);
                    assert(self.models.vals@[i as int]@ =~= RecordingView {
                        config: mid.vals@[i as int]@.config.insert(
                            key@,
                            config_queue(mid.vals@[i as int]@, key@).push(resp),
                        ),
                        ..mid.vals@[i as int]@
                    });
                }
                Ok(resp)
            },
        }
    }

    /// Replay mode, configuration fetch: the oldest response recorded under
    /// the serialized request `key` is consumed and returned; with none left
    /// (or none ever recorded under that key) the call fails with
    /// `RecordingExhausted`.
    pub fn replay_config(&mut self, model: &str, key: &str) -> (r: Result<String, CallError>)
        requires
            old(self).wf(),
        ensures
            final(self).wf(),
            !is_known_model_spec(model@) ==> r == Err::<String, CallError>(CallError::UnknownModel)
                && final(self)@ == old(self)@,
            is_known_model_spec(model@) ==> r == replay_config_result(old(self)@, model@, key@)
                && final(self)@ == replay_config_store(old(self)@, model@, key@),
    {
        if !is_known_model(model) {
            return Err(CallError::UnknownModel);
        }
        let i = match self.models.find(model) {
            None => {
                return Err(CallError::RecordingExhausted);
            },
            Some(i) => i,
        };
        let ghost before = self.models;
        proof {
            before.lemma_index_of(i as int);
        }
        let j = match self.models.vals[i].config_log.find(key) {
            None => {
                return Err(CallError::RecordingExhausted);
            },
            Some(j) => j,
        };
        let ghost cfg = self.models.vals@[i as int].config_log;
        proof {
            cfg.lemma_index_of(j as int);
        }
        let popped = self.models.vals[i].config_log.vals[j].pop_front();
        proof {
            let newcfg = self.models.vals@[i as int].config_log;
            Table::lemma_update(&cfg, &newcfg, j as int, newcfg.vals@[j as int]);
            Table::lemma_update(&before, &self.models, i as int, self.models.vals@[i as int]);
        }
        match popped {
            Some(resp) => {
                proof {
                    assert(self.models.vals@[i as int]@ =~= RecordingView {
                        config: before.vals@[i as int]@.config.insert(
                            key@,
                            config_queue(before.vals@[i as int]@, key@).drop_first(),
                        ),
                        ..before.vals@[i as int]@
                    });
                }
                Ok(resp)
            },
            None => {
                proof {
                    assert(self.models.vals@[i as int]@.config =~= before.vals@[i as int]@.config);
                    assert(self.models.vals@[i as int]@ =~= before.vals@[i as int]@);
                    assert(self@ =~= before.map());
                }
                Err(CallError::RecordingExhausted)
            },
        }
    }
}

/// The store after each response of `resps` is captured, in order, as an
/// inference response of `m`.
pub open spec fn record_infers(v: StoreView, m: Seq<char>, resps: Seq<String>) -> StoreView
    decreases resps.len(),
{
    if resps.len() == 0 {
        v
    } else {
        record_infer_spec(record_infers(v, m, resps.drop_last()), m, resps.last())
    }
}

/// The answers of `n` successive replayed inference calls to `m`.
pub open spec fn replay_infers(v: StoreView, m: Seq<char>, n: nat) -> Seq<Result<String, CallError>>
    decreases n,
{
    if n == 0 {
        Seq::empty()
    } else {
        seq![replay_infer_result(v, m)] + replay_infers(replay_infer_store(v, m), m, (n - 1) as nat)
    }
}

/// Capturing responses appends them, in order, to the model's inference log.
pub proof fn lemma_record_infers_appends(v: StoreView, m: Seq<char>, resps: Seq<String>)
    ensures
        recording_of(record_infers(v, m, resps), m).infer == recording_of(v, m).infer + resps,
    decreases resps.len(),
{
    if resps.len() == 0 {
        assert(recording_of(v, m).infer + resps =~= recording_of(v, m).infer);
    } else {
        lemma_record_infers_appends(v, m, resps.drop_last());
        assert(recording_of(v, m).infer + resps =~= (recording_of(v, m).infer
            + resps.drop_last()).push(resps.last()));
    }
}

/// Replayed inference calls answer the log's responses in order, then
/// `RecordingExhausted` once the log is used up.
pub proof fn lemma_replay_infers_in_order(v: StoreView, m: Seq<char>, n: nat, k: int)
    requires
        0 <= k < n,
    ensures
        replay_infers(v, m, n).len() == n,
        replay_infers(v, m, n)[k] == (if k < recording_of(v, m).infer.len() {
            Ok::<String, CallError>(recording_of(v, m).infer[k])
        } else {
            Err::<String, CallError>(CallError::RecordingExhausted)
        }),
    decreases n,
{
    lemma_replay_infers_len(v, m, n);
    let q = recording_of(v, m).infer;
    let w = replay_infer_store(v, m);
    if k > 0 {
        lemma_replay_infers_in_order(w, m, (n - 1) as nat, k - 1);
        if q.len() > 0 {
            assert(recording_of(w, m).infer == q.drop_first());
        } else {
            assert(w == v);
        }
    }
}

/// `n` replayed calls give `n` answers.
pub proof fn lemma_replay_infers_len(v: StoreView, m: Seq<char>, n: nat)
    ensures
        replay_infers(v, m, n).len() == n,
    decreases n,
{
    if n > 0 {
        lemma_replay_infers_len(replay_infer_store(v, m), m, (n - 1) as nat);
    }
}

/// Record then replay: when `m` starts with no inference responses, N calls
/// recorded and N calls replayed against the persisted store give the K-th
/// recorded response as the K-th replayed one, and a further call finds the
/// log exhausted.
pub proof fn lemma_infer_replay_matches_record(v: StoreView, m: Seq<char>, resps: Seq<String>)
    requires
        recording_of(v, m).infer.len() == 0,
    ensures
        forall|k: int|
            0 <= k < resps.len() ==> #[trigger] replay_infers(
                persisted(record_infers(v, m, resps)),
                m,
                resps.len(),
            )[k] == Ok::<String, CallError>(resps[k]),
        replay_infers(persisted(record_infers(v, m, resps)), m, resps.len() + 1)[resps.len() as int]
            == Err::<String, CallError>(CallError::RecordingExhausted),
{
    let rec = record_infers(v, m, resps);
    let w = persisted(rec);
    lemma_record_infers_appends(v, m, resps);
    assert(recording_of(v, m).infer + resps =~= resps);
    assert(recording_of(w, m).infer == recording_of(rec, m).infer);
    assert forall|k: int| 0 <= k < resps.len() implies #[trigger] replay_infers(
        w,
        m,
        resps.len(),
    )[k] == Ok::<String, CallError>(resps[k]) by {
        lemma_replay_infers_in_order(w, m, resps.len(), k);
    }
    lemma_replay_infers_in_order(w, m, resps.len() + 1, resps.len() as int);
}

/// Capturing a configuration response under one request key leaves the
/// queue of every other key, and what replaying it answers, as it was.
pub proof fn lemma_config_keys_independent(
    v: StoreView,
    m: Seq<char>,
    k1: Seq<char>,
    k2: Seq<char>,
    resp: String,
)
    requires
        k1 != k2,
    ensures
        config_queue(recording_of(record_config_spec(v, m, k2, resp), m), k1) == config_queue(
            recording_of(v, m),
            k1,
        ),
        replay_config_result(record_config_spec(v, m, k2, resp), m, k1) == replay_config_result(
            v,
            m,
            k1,
        ),
{
}

/// Consuming from an empty log answers `RecordingExhausted` and changes
/// nothing: for unary inference, for a configuration key, and for streaming.
pub proof fn lemma_empty_log_exhausted(v: StoreView, m: Seq<char>, key: Seq<char>)
    ensures
        recording_of(v, m).infer.len() == 0 ==> replay_infer_result(v, m) == Err::<
            String,
            CallError,
        >(CallError::RecordingExhausted) && replay_infer_store(v, m) == v,
        config_queue(recording_of(v, m), key).len() == 0 ==> replay_config_result(v, m, key)
            == Err::<String, CallError>(CallError::RecordingExhausted) && replay_config_store(
            v,
            m,
            key,
        ) == v,
        recording_of(v, m).stream.len() == 0 ==> crate::session::replay_stream_result(v, m)
            == Err::<String, CallError>(CallError::RecordingExhausted)
            && crate::session::replay_stream_store(v, m) == v,
{
}

} // verus!
