use vstd::prelude::*;
use std::collections::VecDeque;
use crate::table::Table;

verus! {

/// What one model's recording holds, as sequences and maps.
pub struct RecordingView {
    /// Configuration responses, keyed by the serialized configuration request.
    pub config: Map<Seq<char>, Seq<String>>,
    /// Unary inference responses, oldest first.
    pub infer: Seq<String>,
    /// Streaming responses, oldest first.
    pub stream: Seq<String>,
    /// Streaming requests forwarded but not yet matched with a response.
    pub pending: Seq<String>,
}

/// The whole store: model name to recording.
pub type StoreView = Map<Seq<char>, RecordingView>;

/// A recording with every log empty.
pub open spec fn empty_recording() -> RecordingView {
    RecordingView {
        config: Map::empty(),
        infer: Seq::empty(),
        stream: Seq::empty(),
        pending: Seq::empty(),
    }
}

/// The recording of `m`; a model the store has never seen has an empty one.
pub open spec fn recording_of(v: StoreView, m: Seq<char>) -> RecordingView {
    if v.contains_key(m) {
        v[m]
    } else {
        empty_recording()
    }
}

/// The queue of configuration responses under `key`; an absent key is an empty queue.
pub open spec fn config_queue(r: RecordingView, key: Seq<char>) -> Seq<String> {
    if r.config.contains_key(key) {
        r.config[key]
    } else {
        Seq::empty()
    }
}

/// The captured logs of one model.
pub struct ModelRecording {
    pub config_log: Table<VecDeque<String>>,
    pub infer_log: VecDeque<String>,
    pub stream_log: VecDeque<String>,
    pub stream_pending: VecDeque<String>,
}

impl View for ModelRecording {
    type V = RecordingView;

    open spec fn view(&self) -> RecordingView {
        RecordingView {
            config: self.config_log.map(),
            infer: self.infer_log@,
            stream: self.stream_log@,
            pending: self.stream_pending@,
        }
    }
}

impl ModelRecording {
    /// The configuration log has each request key once.
    pub open spec fn wf(&self) -> bool {
        self.config_log.wf()
    }

    /// A recording with every log empty.
    pub fn new() -> (r: Self)
        ensures
            r.wf(),
            r@ == empty_recording(),
    {
        ModelRecording {
            config_log: Table::new(),
            infer_log: VecDeque::new(),
            stream_log: VecDeque::new(),
            stream_pending: VecDeque::new(),
        }
    }
}

/// All captured traffic, partitioned by model name.
pub struct InteractionStore {
    pub models: Table<ModelRecording>,
}

impl View for InteractionStore {
    type V = StoreView;

    open spec fn view(&self) -> StoreView {
        self.models.map()
    }
}

impl InteractionStore {
    /// Model names occur once, and every recording is well formed.
    pub open spec fn wf(&self) -> bool {
        &&& self.models.wf()
        &&& forall|i: int| 0 <= i < self.models.vals@.len() ==> (#[trigger] self.models.vals@[i]).wf()
    }

    /// An empty store.
    pub fn new() -> (r: Self)
        ensures
            r.wf(),
            r@ == StoreView::empty(),
    {
        InteractionStore { models: Table::new() }
    }

    /// A store with an empty recording for each of `names`, as record mode starts.
    pub fn with_models(names: &Vec<&str>) -> (r: Self)
        ensures
            r.wf(),
            forall|m: Seq<char>| #[trigger] r@.contains_key(m)
                <==> exists|i: int| 0 <= i < names@.len() && names@[i]@ == m,
            forall|m: Seq<char>| #[trigger] r@.contains_key(m) ==> r@[m] == empty_recording(),
    {
        let mut s = InteractionStore::new();
        let mut i: usize = 0;
        while i < names.len()
            invariant
                0 <= i <= names@.len(),
                s.wf(),
                forall|m: Seq<char>| #[trigger] s@.contains_key(m)
                    <==> exists|j: int| 0 <= j < i && names@[j]@ == m,
                forall|m: Seq<char>| #[trigger] s@.contains_key(m) ==> s@[m] == empty_recording(),
            decreases names@.len() - i,
        {
            let ghost m = names@[i as int]@;
            s.slot(names[i]);
            assert forall|x: Seq<char>| #[trigger] s@.contains_key(x)
                implies exists|j: int| 0 <= j < i + 1 && names@[j]@ == x by {
                if x == m {
                    assert(names@[i as int]@ == x);
                }
            }
            i = i + 1;
        }
        s
    }

    /// The position of `model`'s recording, created empty if the store has none yet.
    pub fn slot(&mut self, model: &str) -> (r: usize)
        requires
            old(self).wf(),
        ensures
            final(self).wf(),
            r < final(self).models.keys@.len(),
            final(self).models.keys@[r as int]@ == model@,
            final(self)@ == (if old(self)@.contains_key(model@) {
                old(self)@
            } else {
                old(self)@.insert(model@, empty_recording())
            }),
            final(self)@.contains_key(model@),
            final(self)@[model@] == recording_of(old(self)@, model@),
    {
        match self.models.find(model) {
            Some(i) => {
                proof {
                    self.models.lemma_index_of(i as int);
                }
                i
            },
            None => {
                let ghost prev = self.models;
                let rec = ModelRecording::new();
                self.models.push_new(model.to_owned(), rec);
                let n = self.models.len() - 1;
                proof {
                    assert forall|i: int| 0 <= i < self.models.vals@.len() implies
                        (#[trigger] self.models.vals@[i]).wf() by {
                        if i < n {
                            assert(self.models.vals@[i] == prev.vals@[i]);
                        }
                    }
                }
                n
            },
        }
    }
}

} // verus!
