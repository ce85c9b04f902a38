use vstd::prelude::*;
use crate::models::{is_known_model, is_known_model_spec};
use crate::store::{recording_of, InteractionStore, RecordingView, StoreView};
use crate::table::Table;
use crate::archive::persisted;
use crate::unary::{head_or_exhausted, CallError};

verus! {

/// Whether calls are forwarded and captured, or answered from captured traffic.
#[derive(Debug, Clone, Copy, PartialEq, Eq)]
pub enum Mode {
    Record,
    Replay,
}

/// The store after a streaming request of `m` is marked as pending.
pub open spec fn stream_request_spec(v: StoreView, m: Seq<char>, req: String) -> StoreView {
    let r = recording_of(v, m);
    v.insert(m, RecordingView { pending: r.pending.push(req), ..r })
}

/// What is relayed for a backend streaming response: the response itself when
/// a request is pending, else a miss.
pub open spec fn stream_response_result(v: StoreView, m: Seq<char>, resp: String) -> Result<
    String,
    CallError,
> {
    if recording_of(v, m).pending.len() > 0 {
        Ok(resp)
    } else {
        Err(CallError::RecordingExhausted)
    }
}

/// The store after a backend streaming response: when a request is pending,
/// its marker is consumed and the response captured.
pub open spec fn stream_response_store(v: StoreView, m: Seq<char>, resp: String) -> StoreView {
    let r = recording_of(v, m);
    if r.pending.len() > 0 {
        v.insert(m, RecordingView { pending: r.pending.drop_first(), stream: r.stream.push(resp), ..r })
    } else {
        v
    }
}

/// The answer to one replayed streaming request.
pub open spec fn replay_stream_result(v: StoreView, m: Seq<char>) -> Result<String, CallError> {
    head_or_exhausted(recording_of(v, m).stream)
}

/// The store after one replayed streaming request.
pub open spec fn replay_stream_store(v: StoreView, m: Seq<char>) -> StoreView {
    let r = recording_of(v, m);
    if r.stream.len() > 0 {
        v.insert(m, RecordingView { stream: r.stream.drop_first(), ..r })
    } else {
        v
    }
}

impl InteractionStore {
    /// Record mode: marks an inbound streaming request of `model` as pending,
    /// before it is forwarded to the backend.
    pub fn record_stream_request(&mut self, model: &str, req: String) -> (r: Result<(), CallError>)
        requires
            old(self).wf(),
        ensures
            final(self).wf(),
            !is_known_model_spec(model@) ==> r == Err::<(), CallError>(CallError::UnknownModel)
                && final(self)@ == old(self)@,
            is_known_model_spec(model@) ==> r is Ok && final(self)@ == stream_request_spec(
                old(self)@,
                model@,
                req,
            ),
    {
        if !is_known_model(model) {
            return Err(CallError::UnknownModel);
        }
        let i = self.slot(model);
        let ghost mid = self.models;
        proof {
            mid.lemma_index_of(i as int);
        }
        self.models.vals[i].stream_pending.push_back(req);
        proof {
            Table::lemma_update(&mid, &self.models, i as int, self.models.vals@[i as int]);
            assert(self.models.vals@[i as int]@ =~= RecordingView {
                pending: mid.vals@[i as int]@.pending.push(req),
                ..mid.vals@[i as int]@
            });
        }
        Ok(())
    }

    /// Record mode: a response arrived from the backend. If a request is
    /// pending, its marker is consumed, the response is captured at the tail
    /// of the streaming log and relayed; otherwise a miss is relayed and
    /// nothing is captured.
    pub fn record_stream_response(&mut self, model: &str, resp: String) -> (r: Result<
        String,
        CallError,
    >)
        requires
            old(self).wf(),
        ensures
            final(self).wf(),
            !is_known_model_spec(model@) ==> r == Err::<String, CallError>(CallError::UnknownModel)
                && final(self)@ == old(self)@,
            is_known_model_spec(model@) ==> r == stream_response_result(old(self)@, model@, resp)
                && final(self)@ == stream_response_store(old(self)@, model@, resp),
    {
        if !is_known_model(model) {
            return Err(CallError::UnknownModel);
        }
        let i = match self.models.find(model) {
            None => {
                return Err(CallError::RecordingExhausted);
            },
            Some(i) => i,
        };
        let ghost before = self.models;
        proof {
            before.lemma_index_of(i as int);
        }
        let marker = self.models.vals[i].stream_pending.pop_front();
        match marker {
            Some(_) => {
                let stored = resp.clone();
                self.models.vals[i].stream_log.push_back(stored);
                proof {
                    assert(self.models.vals@ =~= before.vals@.update(
                        i as int,
                        self.models.vals@[i as int],
                    ));
                    Table::lemma_update(&before, &self.models, i as int, self.models.vals@[i as int]);
                    assert(self.models.vals@[i as int]@ =~= RecordingView {
                        pending: before.vals@[i as int]@.pending.drop_first(),
                        stream: before.vals@[i as int]@.stream.push(resp),
                        ..before.vals@[i as int]@
                    });
                }
                Ok(resp)
            },
            None => {
                proof {
                    Table::lemma_update(&before, &self.models, i as int, self.models.vals@[i as int]);
                    assert(self.models.vals@[i as int]@ =~= before.vals@[i as int]@);
                    assert(self@ =~= before.map());
                }
                Err(CallError::RecordingExhausted)
            },
        }
    }

    /// Replay mode: one streaming request consumes the oldest recorded
    /// streaming response; with none left the answer is a miss.
    pub fn replay_stream(&mut self, model: &str) -> (r: Result<String, CallError>)
        requires
            old(self).wf(),
        ensures
            final(self).wf(),
            !is_known_model_spec(model@) ==> r == Err::<String, CallError>(CallError::UnknownModel)
                && final(self)@ == old(self)@,
            is_known_model_spec(model@) ==> r == replay_stream_result(old(self)@, model@)
                && final(self)@ == replay_stream_store(old(self)@, model@),
    {
        if !is_known_model(model) {
            return Err(CallError::UnknownModel);
        }
        let i = match self.models.find(model) {
            None => {
                return Err(CallError::RecordingExhausted);
            },
            Some(i) => i,
        };
        let ghost before = self.models;
        proof {
            before.lemma_index_of(i as int);
        }
        let popped = self.models.vals[i].stream_log.pop_front();
        proof {
            Table::lemma_update(&before, &self.models, i as int, self.models.vals@[i as int]);
        }
        match popped {
            Some(resp) => {
                proof {
                    assert(self.models.vals@[i as int]@ =~= RecordingView {
                        stream: before.vals@[i as int]@.stream.drop_first(),
                        ..before.vals@[i as int]@
                    });
                }
                Ok(resp)
            },
            None => {
                proof {
                    assert(self.models.vals@[i as int]@ =~= before.vals@[i as int]@);
                    assert(self@ =~= before.map());
                }
                Err(CallError::RecordingExhausted)
            },
        }
    }
}

/// Where a streaming session stands.
#[derive(Debug)]
pub enum SessionState {
    /// No inbound message has arrived yet.
    AwaitingFirstMessage,
    /// The first message named this model; it holds for the whole session.
    Bound(String),
    /// The inbound sequence ended, or the first message named an unknown model.
    Closed,
}

/// What the caller does after an inbound streaming message.
#[derive(Debug)]
pub enum StreamAction {
    /// Record mode, first message: open the backend stream for the model,
    /// then forward the request on it.
    BindAndForward(String, String),
    /// Record mode: forward the request on the already bound backend stream.
    Forward(String),
    /// Replay mode: send this answer to the caller; a miss leaves the session open.
    Reply(Result<String, CallError>),
    /// The session is refused and closed.
    Reject(CallError),
    /// The session is already closed; the message is dropped.
    Ignore,
}

/// One bidirectional streaming call: it binds to the model of its first
/// message and then turns each inbound message into an action.
#[derive(Debug)]
pub struct StreamSession {
    pub mode: Mode,
    pub state: SessionState,
}

impl StreamSession {
    /// The model the session is bound to, if any.
    pub open spec fn bound_spec(&self) -> Option<Seq<char>> {
        match self.state {
            SessionState::Bound(m) => Some(m@),
            _ => None,
        }
    }

    /// A session that has seen no message yet.
    pub fn new(mode: Mode) -> (r: Self)
        ensures
            r.mode == mode,
            r.state is AwaitingFirstMessage,
    {
        StreamSession { mode, state: SessionState::AwaitingFirstMessage }
    }

    /// The model the session is bound to, handed to the task that relays
    /// backend responses.
    pub fn bound_model(&self) -> (r: Option<String>)
        ensures
            match r {
                Some(m) => self.bound_spec() == Some(m@),
                None => self.bound_spec() is None,
            },
    {
        match &self.state {
            SessionState::Bound(m) => Some(m.clone()),
            _ => None,
        }
    }

    /// Handles one inbound message whose model field is `model_field`.
    /// The first message binds the session to its model (an unknown model
    /// closes the session); later messages are taken to target the bound
    /// model. Record mode marks the request as pending before it is
    /// forwarded; replay mode answers from the streaming log.
    pub fn on_request(&mut self, store: &mut InteractionStore, model_field: &str, request: String) -> (r:
        StreamAction)
        requires
            old(store).wf(),
            old(self).bound_spec() matches Some(m) ==> is_known_model_spec(m),
        ensures
            final(store).wf(),
            final(self).mode == old(self).mode,
            final(self).bound_spec() matches Some(m) ==> is_known_model_spec(m),
            old(self).state is Closed ==> r is Ignore && final(store)@ == old(store)@
                && final(self).state is Closed,
            old(self).state is AwaitingFirstMessage && !is_known_model_spec(model_field@) ==> r
                == StreamAction::Reject(CallError::UnknownModel) && final(store)@ == old(store)@
                && final(self).state is Closed,
            old(self).state is AwaitingFirstMessage && is_known_model_spec(model_field@) ==> {
                &&& final(self).bound_spec() == Some(model_field@)
                &&& old(self).mode == Mode::Record ==> final(store)@ == stream_request_spec(
                    old(store)@,
                    model_field@,
                    request,
                ) && (r matches StreamAction::BindAndForward(m, q) && m@ == model_field@
                    && q == request)
                &&& old(self).mode == Mode::Replay ==> final(store)@ == replay_stream_store(
                    old(store)@,
                    model_field@,
                ) && r == StreamAction::Reply(replay_stream_result(old(store)@, model_field@))
            },
            old(self).bound_spec() matches Some(m) ==> {
                &&& final(self).bound_spec() == Some(m)
                &&& old(self).mode == Mode::Record ==> final(store)@ == stream_request_spec(
                    old(store)@,
                    m,
                    request,
                ) && r == StreamAction::Forward(request)
                &&& old(self).mode == Mode::Replay ==> final(store)@ == replay_stream_store(
                    old(store)@,
                    m,
                ) && r == StreamAction::Reply(replay_stream_result(old(store)@, m))
            },
    {
        let first = match &self.state {
            SessionState::Closed => {
                return StreamAction::Ignore;
            },
            SessionState::AwaitingFirstMessage => true,
            SessionState::Bound(_) => false,
        };
        if first {
            if !is_known_model(model_field) {
                self.state = SessionState::Closed;
                return StreamAction::Reject(CallError::UnknownModel);
            }
            self.state = SessionState::Bound(model_field.to_owned());
        }
        let model = match &self.state {
            SessionState::Bound(m) => m.clone(),
            _ => {
                return StreamAction::Ignore;
            },
        };
        match self.mode {
            Mode::Record => {
                let stored = request.clone();
                let _ = store.record_stream_request(model.as_str(), stored);
                if first {
                    StreamAction::BindAndForward(model, request)
                } else {
                    StreamAction::Forward(request)
                }
            },
            Mode::Replay => StreamAction::Reply(store.replay_stream(model.as_str())),
        }
    }

    /// The inbound sequence ended: the session closes.
    pub fn on_close(&mut self)
        ensures
            final(self).state is Closed,
            final(self).mode == old(self).mode,
    {
        self.state = SessionState::Closed;
    }
}

/// One step of a recorded streaming session, as the store sees it: an
/// inbound request, or a response arriving from the backend.
pub enum StreamEvent {
    Request(String),
    Response(String),
}

/// The store after the events of a record-mode session of `m`, in order.
pub open spec fn record_session(v: StoreView, m: Seq<char>, events: Seq<StreamEvent>) -> StoreView
    decreases events.len(),
{
    if events.len() == 0 {
        v
    } else {
        let w = record_session(v, m, events.drop_last());
        match events.last() {
            StreamEvent::Request(q) => stream_request_spec(w, m, q),
            StreamEvent::Response(r) => stream_response_store(w, m, r),
        }
    }
}

/// The backend responses among `events`, in order.
pub open spec fn responses_of(events: Seq<StreamEvent>) -> Seq<String>
    decreases events.len(),
{
    if events.len() == 0 {
        Seq::empty()
    } else {
        match events.last() {
            StreamEvent::Request(_) => responses_of(events.drop_last()),
            StreamEvent::Response(r) => responses_of(events.drop_last()).push(r),
        }
    }
}

/// The number of requests among `events`.
pub open spec fn requests_in(events: Seq<StreamEvent>) -> nat
    decreases events.len(),
{
    if events.len() == 0 {
        0
    } else {
        match events.last() {
            StreamEvent::Request(_) => requests_in(events.drop_last()) + 1,
            StreamEvent::Response(_) => requests_in(events.drop_last()),
        }
    }
}

/// Every backend response comes after more requests than responses, so
/// each one answers a request of the session.
pub open spec fn responses_follow_requests(events: Seq<StreamEvent>) -> bool
    decreases events.len(),
{
    events.len() == 0 || {
        &&& responses_follow_requests(events.drop_last())
        &&& events.last() is Response ==> responses_of(events.drop_last()).len() < requests_in(
            events.drop_last(),
        )
    }
}

/// The answers of `n` successive replayed streaming requests of `m`.
pub open spec fn replay_streams(v: StoreView, m: Seq<char>, n: nat) -> Seq<Result<String, CallError>>
    decreases n,
{
    if n == 0 {
        Seq::empty()
    } else {
        seq![replay_stream_result(v, m)] + replay_streams(replay_stream_store(v, m), m, (n - 1) as nat)
    }
}

/// In a session whose responses follow its requests, every response is
/// captured: the streaming log grows by the responses in order, and the
/// pending markers are the requests not yet answered.
pub proof fn lemma_record_session_captures(v: StoreView, m: Seq<char>, events: Seq<StreamEvent>)
    requires
        responses_follow_requests(events),
    ensures
        recording_of(record_session(v, m, events), m).stream == recording_of(v, m).stream
            + responses_of(events),
        recording_of(record_session(v, m, events), m).pending.len() + responses_of(events).len()
            == recording_of(v, m).pending.len() + requests_in(events),
    decreases events.len(),
{
    if events.len() == 0 {
        assert(recording_of(v, m).stream + responses_of(events) =~= recording_of(v, m).stream);
    } else {
        let prev = events.drop_last();
        lemma_record_session_captures(v, m, prev);
        match events.last() {
            StreamEvent::Request(_) => {},
            StreamEvent::Response(r) => {
                assert(recording_of(v, m).stream + responses_of(events) =~= (recording_of(v, m).stream
                    + responses_of(prev)).push(r));
            },
        }
    }
}

/// Replayed streaming requests answer the log's responses in order, then a
/// miss once the log is used up.
pub proof fn lemma_replay_streams_in_order(v: StoreView, m: Seq<char>, n: nat, k: int)
    requires
        0 <= k < n,
    ensures
        replay_streams(v, m, n).len() == n,
        replay_streams(v, m, n)[k] == (if k < recording_of(v, m).stream.len() {
            Ok::<String, CallError>(recording_of(v, m).stream[k])
        } else {
            Err::<String, CallError>(CallError::RecordingExhausted)
        }),
    decreases n,
{
    lemma_replay_streams_len(v, m, n);
    let q = recording_of(v, m).stream;
    let w = replay_stream_store(v, m);
    if k > 0 {
        lemma_replay_streams_in_order(w, m, (n - 1) as nat, k - 1);
        if q.len() > 0 {
            assert(recording_of(w, m).stream == q.drop_first());
        } else {
            assert(w == v);
        }
    }
}

/// `n` replayed streaming requests give `n` answers.
pub proof fn lemma_replay_streams_len(v: StoreView, m: Seq<char>, n: nat)
    ensures
        replay_streams(v, m, n).len() == n,
    decreases n,
{
    if n > 0 {
        lemma_replay_streams_len(replay_stream_store(v, m), m, (n - 1) as nat);
    }
}

/// Streaming round trip: a record-mode session of `m` that starts with an
/// empty streaming log, and whose backend responses each follow a request,
/// is replayed from the persisted store as its responses in order, one per
/// replayed request; one more replayed request is a miss.
pub proof fn lemma_stream_replay_matches_record(v: StoreView, m: Seq<char>, events: Seq<StreamEvent>)
    requires
        recording_of(v, m).stream.len() == 0,
        responses_follow_requests(events),
    ensures
        forall|k: int|
            0 <= k < responses_of(events).len() ==> #[trigger] replay_streams(
                persisted(record_session(v, m, events)),
                m,
                responses_of(events).len() + 1,
            )[k] == Ok::<String, CallError>(responses_of(events)[k]),
        replay_streams(
            persisted(record_session(v, m, events)),
            m,
            responses_of(events).len() + 1,
        )[responses_of(events).len() as int] == Err::<String, CallError>(
            CallError::RecordingExhausted,
        ),
{
    let rec = record_session(v, m, events);
    let w = persisted(rec);
    let resps = responses_of(events);
    let n = resps.len() + 1;
    lemma_record_session_captures(v, m, events);
    assert(recording_of(v, m).stream + resps =~= resps);
    assert(recording_of(w, m).stream == recording_of(rec, m).stream);
    assert forall|k: int| 0 <= k < resps.len() implies #[trigger] replay_streams(w, m, n)[k]
        == Ok::<String, CallError>(resps[k]) by {
        lemma_replay_streams_in_order(w, m, n, k);
    }
    lemma_replay_streams_in_order(w, m, n, resps.len() as int);
}

} // verus!
