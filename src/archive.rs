use vstd::prelude::*;
use std::collections::VecDeque;
use crate::store::{InteractionStore, ModelRecording, RecordingView, StoreView};
use crate::table::Table;

verus! {

/// A recording as it is persisted: the pending markers are left out.
pub open spec fn without_pending(r: RecordingView) -> RecordingView {
    RecordingView { pending: Seq::empty(), ..r }
}

/// The store as it is persisted.
pub open spec fn persisted(v: StoreView) -> StoreView {
    v.map_values(|r: RecordingView| without_pending(r))
}

/// The persisted logs of one model.
pub struct PersistedModel {
    pub config_log: Table<VecDeque<String>>,
    pub infer_log: VecDeque<String>,
    pub stream_log: VecDeque<String>,
}

impl View for PersistedModel {
    type V = RecordingView;

    open spec fn view(&self) -> RecordingView {
        RecordingView {
            config: self.config_log.map(),
            infer: self.infer_log@,
            stream: self.stream_log@,
            pending: Seq::empty(),
        }
    }
}

/// The persistable form of an interaction store, keyed by model name.
pub struct Archive {
    pub models: Table<PersistedModel>,
}

impl View for Archive {
    type V = StoreView;

    open spec fn view(&self) -> StoreView {
        self.models.map()
    }
}

/// Why an archive could not be loaded.
#[derive(Debug, Clone, Copy, PartialEq, Eq)]
pub enum ArchiveError {
    /// A model name, or a configuration request of one model, occurs twice.
    DuplicateKey,
    /// flate2 cannot decode the archive bytes.
    Corrupt,
}

/// A copy of a queue.
pub fn copy_queue(q: &VecDeque<String>) -> (r: VecDeque<String>)
    ensures
        r@ == q@,
{
    let mut out: VecDeque<String> = VecDeque::new();
    let n = q.len();
    let mut i: usize = 0;
    while i < n
        invariant
            n == q@.len(),
            0 <= i <= n,
            out@ == q@.subrange(0, i as int),
        decreases n - i,
    {
        out.push_back(q[i].clone());
        i = i + 1;
        assert(out@ =~= q@.subrange(0, i as int));
    }
    assert(q@.subrange(0, n as int) =~= q@);
    out
}

/// A copy of a configuration log.
pub fn copy_config(t: &Table<VecDeque<String>>) -> (r: Table<VecDeque<String>>)
    requires
        t.wf(),
    ensures
        r.wf(),
        r.map() == t.map(),
{
    let mut keys: Vec<String> = Vec::new();
    let mut vals: Vec<VecDeque<String>> = Vec::new();
    let n = t.len();
    let mut i: usize = 0;
    while i < n
        invariant
            t.wf(),
            n == t.keys@.len(),
            0 <= i <= n,
            keys@.len() == i,
            vals@.len() == i,
            forall|j: int| 0 <= j < i ==> (#[trigger] keys@[j])@ == t.keys@[j]@,
            forall|j: int| 0 <= j < i ==> (#[trigger] vals@[j])@ == t.vals@[j]@,
        decreases n - i,
    {
        keys.push(t.keys[i].clone());
        vals.push(copy_queue(&t.vals[i]));
        i = i + 1;
    }
    let r = Table { keys, vals };
    proof {
        Table::lemma_pointwise(t, &r, |q: Seq<String>| q);
        assert(t.map().map_values(|q: Seq<String>| q) =~= t.map());
    }
    r
}

impl Archive {
    /// The archive can be loaded: model names are distinct, and so are the
    /// configuration requests of each model.
    pub open spec fn valid(&self) -> bool {
        &&& self.models.wf()
        &&& forall|i: int|
            0 <= i < self.models.vals@.len() ==> (#[trigger] self.models.vals@[i]).config_log.wf()
    }

    /// Whether the archive can be loaded.
    pub fn is_valid(&self) -> (r: bool)
        ensures
            r == self.valid(),
    {
        if !self.models.is_wf() {
            return false;
        }
        let n = self.models.len();
        let mut i: usize = 0;
        while i < n
            invariant
                self.models.wf(),
                n == self.models.vals@.len(),
                0 <= i <= n,
                forall|j: int| 0 <= j < i ==> (#[trigger] self.models.vals@[j]).config_log.wf(),
            decreases n - i,
        {
            if !self.models.vals[i].config_log.is_wf() {
                return false;
            }
            i = i + 1;
        }
        true
    }
}

impl InteractionStore {
    /// The persistable form of the store: every log of every model, in
    /// order, without the pending markers.
    pub fn snapshot(&self) -> (r: Archive)
        requires
            self.wf(),
        ensures
            r.valid(),
            r@ == persisted(self@),
    {
        let mut keys: Vec<String> = Vec::new();
        let mut vals: Vec<PersistedModel> = Vec::new();
        let n = self.models.len();
        let mut i: usize = 0;
        while i < n
            invariant
                self.wf(),
                n == self.models.keys@.len(),
                0 <= i <= n,
                keys@.len() == i,
                vals@.len() == i,
                forall|j: int| 0 <= j < i ==> (#[trigger] keys@[j])@ == self.models.keys@[j]@,
                forall|j: int|
                    0 <= j < i ==> (#[trigger] vals@[j])@ == without_pending(self.models.vals@[j]@),
                forall|j: int| 0 <= j < i ==> (#[trigger] vals@[j]).config_log.wf(),
            decreases n - i,
        {
            let rec = &self.models.vals[i];
            assert(rec.wf());
            let p = PersistedModel {
                config_log: copy_config(&rec.config_log),
                infer_log: copy_queue(&rec.infer_log),
                stream_log: copy_queue(&rec.stream_log),
            };
            keys.push(self.models.keys[i].clone());
            vals.push(p);
            i = i + 1;
        }
        let models = Table { keys, vals };
        proof {
            Table::lemma_pointwise(&self.models, &models, |r: RecordingView| without_pending(r));
        }
        Archive { models }
    }

    /// Rebuilds a store from its persisted form. The pending markers start
    /// empty. An archive with a repeated key is refused.
    pub fn load(archive: &Archive) -> (r: Result<InteractionStore, ArchiveError>)
        ensures
            r is Ok <==> archive.valid(),
            r matches Ok(s) ==> s.wf() && s@ == archive@,
            r is Err ==> r == Err::<InteractionStore, ArchiveError>(ArchiveError::DuplicateKey),
    {
        if !archive.is_valid() {
            return Err(ArchiveError::DuplicateKey);
        }
        let src = &archive.models;
        let mut keys: Vec<String> = Vec::new();
        let mut vals: Vec<ModelRecording> = Vec::new();
        let n = src.len();
        let mut i: usize = 0;
        while i < n
            invariant
                archive.valid(),
                src == &archive.models,
                n == src.keys@.len(),
                0 <= i <= n,
                keys@.len() == i,
                vals@.len() == i,
                forall|j: int| 0 <= j < i ==> (#[trigger] keys@[j])@ == src.keys@[j]@,
                forall|j: int| 0 <= j < i ==> (#[trigger] vals@[j])@ == src.vals@[j]@,
                forall|j: int| 0 <= j < i ==> (#[trigger] vals@[j]).wf(),
            decreases n - i,
        {
            let p = &src.vals[i];
            assert(p.config_log.wf());
            let rec = ModelRecording {
                config_log: copy_config(&p.config_log),
                infer_log: copy_queue(&p.infer_log),
                stream_log: copy_queue(&p.stream_log),
                stream_pending: VecDeque::new(),
            };
            assert(rec@ =~= p@);
            keys.push(src.keys[i].clone());
            vals.push(rec);
            i = i + 1;
        }
        let models = Table { keys, vals };
        proof {
            Table::lemma_pointwise(src, &models, |r: RecordingView| r);
            assert(src.map().map_values(|r: RecordingView| r) =~= src.map());
        }
        Ok(InteractionStore { models })
    }
}

/// Save then load: a store rebuilt from the snapshot of another holds the
/// same models with the same configuration, inference and streaming logs,
/// in the same order, and no pending markers.
pub proof fn lemma_save_load_round_trip(s: &InteractionStore, a: &Archive, t: &InteractionStore)
    requires
        s.wf(),
        a.valid(),
        a@ == persisted(s@),
        t@ == a@,
    ensures
        forall|m: Seq<char>| #[trigger] t@.contains_key(m) <==> s@.contains_key(m),
        forall|m: Seq<char>|
            #[trigger] t@.contains_key(m) ==> {
                &&& t@[m].config == s@[m].config
                &&& t@[m].infer == s@[m].infer
                &&& t@[m].stream == s@[m].stream
                &&& t@[m].pending.len() == 0
            },
{
}

} // verus!
