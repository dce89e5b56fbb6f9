use vstd::prelude::*;

use crate::diff::{
    contents_of, creations, deletions, ids_of, records_to_create, records_to_delete, untracked,
    views_of,
};
use crate::record::{DnsRecord, RecordContent, RecordView};
use crate::state::StateMap;

verus! {

/// Where the reconciliation cycle stands, that is which outcome it waits for.
#[derive(Clone, Copy, Debug, PartialEq, Eq, Structural)]
pub enum Phase {
    /// Waiting for the persisted state.
    Loading,
    /// Blocked on the registry's watch for the desired records.
    Watching,
    /// Waiting for the outcome of one create.
    Creating,
    /// Waiting for the outcome of one delete.
    Deleting,
    /// Waiting for the persisted state to be written.
    Storing,
    /// In the short delay between cycles.
    Pausing,
    /// Stopped on cancellation.
    Finished,
    /// Stopped on a registry failure.
    Aborted,
}

/// The work that the driver of the cycle performs next.
pub enum Step {
    /// Read the persisted state.
    LoadState,
    /// Block on the registry's watch, presenting the last index seen.
    Watch { index: Option<u64> },
    /// Create this record at the provider.
    Create { record: DnsRecord },
    /// Delete the record with this id at the provider.
    Delete { id: String },
    /// Persist this state, overwriting what is stored.
    Store { state: StateMap },
    /// Wait for the short delay between cycles, or for cancellation.
    Pause,
    /// Stop cleanly.
    Finish,
    /// Stop on an unrecoverable registry failure.
    Abort,
}

/// What came of the last step.
pub enum Outcome {
    /// The persisted state was read (a missing key reads as empty).
    Loaded(StateMap),
    /// The persisted state could not be read.
    LoadFailed,
    /// The watch returned the desired records and the registry's index.
    Changed { records: Vec<DnsRecord>, index: u64 },
    /// The watch failed.
    WatchFailed,
    /// The create returned the provider's id, or failed.
    Created(Option<String>),
    /// The delete succeeded, or failed.
    Deleted(bool),
    /// The state was persisted, or the write failed.
    Stored(bool),
    /// The delay between cycles elapsed.
    Resumed,
    /// Cancellation fired while waiting.
    Cancelled,
}

/// The mathematical value of a [`Reconciler`].
pub struct ReconcilerView {
    pub phase: Phase,
    pub index: Option<u64>,
    pub prev: Map<Seq<char>, RecordContent>,
    pub working: Map<Seq<char>, RecordContent>,
    pub creates: Seq<RecordView>,
    pub deletes: Seq<Seq<char>>,
    pub cursor: nat,
}

impl ReconcilerView {
    /// The cursor points into the list being worked through, and while the
    /// watch is pending nothing has been applied yet.
    pub open spec fn inv(self) -> bool {
        &&& (self.phase == Phase::Creating ==> self.cursor < self.creates.len())
        &&& (self.phase == Phase::Deleting ==> self.cursor < self.deletes.len())
        &&& (self.phase == Phase::Watching ==> self.working == self.prev)
    }

    pub open spec fn with_phase(self, phase: Phase) -> ReconcilerView {
        ReconcilerView { phase, ..self }
    }
}

/// The index kept after the watch reported `reported`: it never goes back.
pub open spec fn advanced_index(prev: Option<u64>, reported: u64) -> u64 {
    match prev {
        Some(p) => if p > reported {
            p
        } else {
            reported
        },
        None => reported,
    }
}

/// Persist when the working copy differs from what was loaded; else pause.
pub open spec fn settle_store(t: ReconcilerView) -> ReconcilerView {
    ReconcilerView {
        phase: if t.working != t.prev {
            Phase::Storing
        } else {
            Phase::Pausing
        },
        cursor: 0,
        ..t
    }
}

/// Start on the deletes, or go on to persisting when there are none.
pub open spec fn settle_deletes(t: ReconcilerView) -> ReconcilerView {
    if t.deletes.len() > 0 {
        ReconcilerView { phase: Phase::Deleting, cursor: 0, ..t }
    } else {
        settle_store(t)
    }
}

/// Start on the creates, or go on to the deletes when there are none.
pub open spec fn settle_creates(t: ReconcilerView) -> ReconcilerView {
    if t.creates.len() > 0 {
        ReconcilerView { phase: Phase::Creating, cursor: 0, ..t }
    } else {
        settle_deletes(t)
    }
}

/// The next create, or the deletes after the last one.
pub open spec fn after_create(t: ReconcilerView) -> ReconcilerView {
    if t.cursor + 1 < t.creates.len() {
        ReconcilerView { cursor: t.cursor + 1, ..t }
    } else {
        settle_deletes(t)
    }
}

/// The next delete, or persisting after the last one.
pub open spec fn after_delete(t: ReconcilerView) -> ReconcilerView {
    if t.cursor + 1 < t.deletes.len() {
        ReconcilerView { cursor: t.cursor + 1, ..t }
    } else {
        settle_store(t)
    }
}

/// `t` is a state that outcome `e` may lead to from `s`. An outcome that the
/// phase does not wait for stops the cycle as a failure.
pub open spec fn transition(s: ReconcilerView, e: Outcome, t: ReconcilerView) -> bool {
    match s.phase {
        Phase::Loading => match e {
            Outcome::Loaded(m) => t == (ReconcilerView {
                phase: Phase::Watching,
                prev: m@,
                working: m@,
                creates: Seq::empty(),
                deletes: Seq::empty(),
                cursor: 0,
                ..s
            }),
            _ => t == s.with_phase(Phase::Aborted),
        },
        Phase::Watching => match e {
            Outcome::Changed { records, index } => {
                &&& t.deletes.no_duplicates()
                &&& t.deletes.to_set() == deletions(s.prev, contents_of(records@))
                &&& t == settle_creates(
                    ReconcilerView {
                        index: Some(advanced_index(s.index, index)),
                        creates: creations(s.prev, views_of(records@)),
                        deletes: t.deletes,
                        cursor: 0,
                        ..s
                    },
                )
            },
            Outcome::Cancelled => t == s.with_phase(Phase::Finished),
            _ => t == s.with_phase(Phase::Aborted),
        },
        Phase::Creating => match e {
            Outcome::Created(id) => t == after_create(
                ReconcilerView {
                    working: match id {
                        Some(k) => s.working.insert(k@, s.creates[s.cursor as int].content),
                        None => s.working,
                    },
                    ..s
                },
            ),
            _ => t == s.with_phase(Phase::Aborted),
        },
        Phase::Deleting => match e {
            Outcome::Deleted(ok) => t == after_delete(
                ReconcilerView {
                    working: if ok {
                        s.working.remove(s.deletes[s.cursor as int])
                    } else {
                        s.working
                    },
                    ..s
                },
            ),
            _ => t == s.with_phase(Phase::Aborted),
        },
        Phase::Storing => match e {
            Outcome::Stored(_) => t == s.with_phase(Phase::Pausing),
            _ => t == s.with_phase(Phase::Aborted),
        },
        Phase::Pausing => match e {
            Outcome::Resumed => t == s.with_phase(Phase::Loading),
            Outcome::Cancelled => t == s.with_phase(Phase::Finished),
            _ => t == s.with_phase(Phase::Aborted),
        },
        Phase::Finished => t == s,
        Phase::Aborted => t == s,
    }
}

/// `a` is the step that state `s` asks for.
pub open spec fn issues(s: ReconcilerView, a: Step) -> bool {
    match s.phase {
        Phase::Loading => a is LoadState,
        Phase::Watching => (a matches Step::Watch { index } && index == s.index),
        Phase::Creating => (a matches Step::Create { record } && record@ == s.creates[s.cursor as int]),
        Phase::Deleting => (a matches Step::Delete { id } && id@ == s.deletes[s.cursor as int]),
        Phase::Storing => (a matches Step::Store { state } && state@ == s.working),
        Phase::Pausing => a is Pause,
        Phase::Finished => a is Finish,
        Phase::Aborted => a is Abort,
    }
}

/// The index to present to the next watch: the larger of the last one and
/// the one the registry reported.
pub fn next_watch_index(prev: Option<u64>, reported: u64) -> (r: u64)
    ensures
        r == advanced_index(prev, reported),
        r >= reported,
        prev.is_some() ==> r >= prev.unwrap(),
{
    match prev {
        Some(p) => if p > reported {
            p
        } else {
            reported
        },
        None => reported,
    }
}

/// The reconciliation cycle: load the persisted state, block on the watch,
/// create what is missing, delete what is no longer desired, persist the
/// result when it changed, pause, and again, until cancellation.
pub struct Reconciler {
    phase: Phase,
    index: Option<u64>,
    prev: StateMap,
    working: StateMap,
    creates: Vec<DnsRecord>,
    deletes: Vec<String>,
    cursor: usize,
}

impl View for Reconciler {
    type V = ReconcilerView;

    closed spec fn view(&self) -> ReconcilerView {
        ReconcilerView {
            phase: self.phase,
            index: self.index,
            prev: self.prev@,
            working: self.working@,
            creates: views_of(self.creates@),
            deletes: ids_of(self.deletes@),
            cursor: self.cursor as nat,
        }
    }
}

impl Reconciler {
    pub closed spec fn wf(&self) -> bool {
        &&& self@.inv()
    }

    /// A cycle that starts by loading the persisted state, with no watch
    /// index yet.
    pub fn new() -> (r: Reconciler)
        ensures
            r.wf(),
            r@.phase == Phase::Loading,
            r@.index.is_none(),
    {
        Reconciler {
            phase: Phase::Loading,
            index: None,
            prev: StateMap::new(),
            working: StateMap::new(),
            creates: Vec::new(),
            deletes: Vec::new(),
            cursor: 0,
        }
    }

    /// The step the current phase asks for.
    pub fn command(&self) -> (a: Step)
        requires
            self.wf(),
        ensures
            issues(self@, a),
    {
        match self.phase {
            Phase::Loading => Step::LoadState,
            Phase::Watching => Step::Watch { index: self.index },
            Phase::Creating => Step::Create { record: self.creates[self.cursor].clone() },
            Phase::Deleting => Step::Delete { id: self.deletes[self.cursor].clone() },
            Phase::Storing => Step::Store { state: self.working.clone() },
            Phase::Pausing => Step::Pause,
            Phase::Finished => Step::Finish,
            Phase::Aborted => Step::Abort,
        }
    }

    fn enter_store(&mut self)
        ensures
            final(self)@ == settle_store(old(self)@),
    {
        self.cursor = 0;
        if self.working.same_as(&self.prev) {
            self.phase = Phase::Pausing;
        } else {
            self.phase = Phase::Storing;
        }
    }

    fn enter_deletes(&mut self)
        ensures
            final(self)@ == settle_deletes(old(self)@),
    {
        if self.deletes.len() > 0 {
            self.phase = Phase::Deleting;
            self.cursor = 0;
        } else {
            self.enter_store();
        }
    }

    /// Takes the outcome of the last step and returns the next step.
    pub fn step(&mut self, event: Outcome) -> (a: Step)
        requires
            old(self).wf(),
        ensures
            final(self).wf(),
            transition(old(self)@, event, final(self)@),
            issues(final(self)@, a),
    {
        let ghost s = self@;
        let ghost e = event;
        match self.phase {
            Phase::Loading => match event {
                Outcome::Loaded(m) => {
                    self.working = m.clone();
                    self.prev = m;
                    self.creates = Vec::new();
                    self.deletes = Vec::new();
                    self.cursor = 0;
                    self.phase = Phase::Watching;
                    assert(views_of(self.creates@) =~= Seq::empty());
                    assert(ids_of(self.deletes@) =~= Seq::empty());
                },
                _ => {
                    self.phase = Phase::Aborted;
                },
            },
            Phase::Watching => match event {
                Outcome::Changed { records, index } => {
                    self.index = Some(next_watch_index(self.index, index));
                    self.creates = records_to_create(&self.prev, &records);
                    self.deletes = records_to_delete(&self.prev, &records);
                    self.cursor = 0;
                    if self.creates.len() > 0 {
                        self.phase = Phase::Creating;
                    } else {
                        self.enter_deletes();
                    }
                },
                Outcome::Cancelled => {
                    self.phase = Phase::Finished;
                },
                _ => {
                    self.phase = Phase::Aborted;
                },
            },
            Phase::Creating => match event {
                Outcome::Created(id) => {
                    assert(self.cursor < self.creates@.len());
                    match id {
                        Some(k) => {
                            let rec = self.creates[self.cursor].clone();
                            self.working.insert(k, rec);
                        },
                        None => {},
                    }
                    let n = self.creates.len();
                    if self.cursor + 1 < n {
                        self.cursor = self.cursor + 1;
                    } else {
                        self.enter_deletes();
                    }
                },
                _ => {
                    self.phase = Phase::Aborted;
                },
            },
            Phase::Deleting => match event {
                Outcome::Deleted(ok) => {
                    assert(self.cursor < self.deletes@.len());
                    if ok {
                        let id = self.deletes[self.cursor].clone();
                        self.working.remove(&id);
                    }
                    let n = self.deletes.len();
                    if self.cursor + 1 < n {
                        self.cursor = self.cursor + 1;
                    } else {
                        self.enter_store();
                    }
                },
                _ => {
                    self.phase = Phase::Aborted;
                },
            },
            Phase::Storing => match event {
                Outcome::Stored(_) => {
                    self.phase = Phase::Pausing;
                },
                _ => {
                    self.phase = Phase::Aborted;
                },
            },
            Phase::Pausing => match event {
                Outcome::Resumed => {
                    self.phase = Phase::Loading;
                },
                Outcome::Cancelled => {
                    self.phase = Phase::Finished;
                },
                _ => {
                    self.phase = Phase::Aborted;
                },
            },
            Phase::Finished => {},
            Phase::Aborted => {},
        }
        self.command()
    }
}

/// Records that differ only in their ids are the same entity for the diff: a
/// desired record whose content a tracked record has is not created, and that
/// tracked record is not deleted, whatever ids the two carry.
pub proof fn lemma_diff_ignores_ids(
    prev: Map<Seq<char>, RecordContent>,
    desired: Seq<DnsRecord>,
    i: int,
    k: Seq<char>,
)
    requires
        0 <= i < desired.len(),
        prev.contains_key(k),
        prev[k] == desired[i].content(),
    ensures
        !creations(prev, views_of(desired)).contains(desired[i]@),
        !deletions(prev, contents_of(desired)).contains(k),
{
    let c = creations(prev, views_of(desired));
    if c.contains(desired[i]@) {
        let j = choose|j: int| 0 <= j < c.len() && c[j] == desired[i]@;
        views_of(desired).lemma_filter_pred(untracked(prev), j);
        assert(prev.values().contains(desired[i]@.content));
    }
    assert(contents_of(desired).contains(desired[i].content()));
}

/// When the desired records hold, as a set of contents, exactly the tracked
/// ones, the cycle creates nothing, deletes nothing, and goes to the pause
/// without writing the persisted state.
pub proof fn lemma_unchanged_desired_state_is_not_stored(
    s: ReconcilerView,
    records: Vec<DnsRecord>,
    index: u64,
    t: ReconcilerView,
)
    requires
        s.inv(),
        s.phase == Phase::Watching,
        contents_of(records@) == s.prev.values(),
        transition(s, Outcome::Changed { records, index }, t),
    ensures
        t.creates.len() == 0,
        t.deletes.len() == 0,
        t.working == s.prev,
        t.phase == Phase::Pausing,
        forall|a: Step| issues(t, a) ==> a is Pause,
{
    let v = views_of(records@);
    let c = creations(s.prev, v);
    if c.len() > 0 {
        v.lemma_filter_pred(untracked(s.prev), 0);
        v.lemma_filter_contains_rev(untracked(s.prev), c[0]);
        let i = choose|i: int| 0 <= i < v.len() && v[i] == c[0];
        assert(contents_of(records@).contains(records@[i].content()));
    }
    if t.deletes.len() > 0 {
        assert(t.deletes.to_set().contains(t.deletes[0]));
        let k = t.deletes[0];
        assert(s.prev.values().contains(s.prev[k]));
    }
}

/// Cancellation while blocked on the watch ends the loop at once: the next
/// step is to finish, with nothing created, deleted or stored.
pub proof fn lemma_cancel_while_watching_finishes(s: ReconcilerView, t: ReconcilerView)
    requires
        s.phase == Phase::Watching,
        transition(s, Outcome::Cancelled, t),
    ensures
        t.phase == Phase::Finished,
        t.working == s.working,
        forall|a: Step| issues(t, a) ==> a is Finish,
{
}

/// Cancellation during the pause between cycles ends the loop too.
pub proof fn lemma_cancel_while_pausing_finishes(s: ReconcilerView, t: ReconcilerView)
    requires
        s.phase == Phase::Pausing,
        transition(s, Outcome::Cancelled, t),
    ensures
        t.phase == Phase::Finished,
        forall|a: Step| issues(t, a) ==> a is Finish,
{
}

/// Only ids of the persisted state are deleted: every id that a cycle
/// deletes is a key of the state loaded at its start, so no id is deleted
/// before it was durably recorded as created.
pub proof fn lemma_deleted_ids_were_persisted(
    s: ReconcilerView,
    records: Vec<DnsRecord>,
    index: u64,
    t: ReconcilerView,
)
    requires
        s.phase == Phase::Watching,
        transition(s, Outcome::Changed { records, index }, t),
    ensures
        forall|j: int| 0 <= j < t.deletes.len() ==> s.prev.contains_key(#[trigger] t.deletes[j]),
{
    assert forall|j: int| 0 <= j < t.deletes.len() implies s.prev.contains_key(
        #[trigger] t.deletes[j],
    ) by {
        assert(t.deletes.to_set().contains(t.deletes[j]));
    }
}

} // verus!
