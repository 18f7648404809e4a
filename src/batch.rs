use vstd::prelude::*;
use crate::headword::{headword, normalize};
use crate::model::{
    copy_failure, item_of, payload_fits, success_action, Action, AudioUpdate, BatchError, Failure,
    FailureKind, NewTranslation, Payload, ServiceError, Status, StoreError, SynthesisRequest, Task,
    Translation, TranslationRequest, Word,
};

verus! {

/// How many entries of `s` are `x`.
pub open spec fn count_status(s: Seq<Status>, x: Status) -> nat
    decreases s.len(),
{
    if s.len() == 0 {
        0
    } else {
        count_status(s.drop_last(), x) + if s.last() == x {
            1nat
        } else {
            0nat
        }
    }
}

pub open spec fn is_terminal(st: Status) -> bool {
    st == Status::Persisted || st == Status::ServiceFailed || st == Status::StoreFailed
}

/// The task that translates word `w`: its id, and its headword.
pub open spec fn translates(t: Task, w: Word) -> bool {
    match t {
        Task::Translate(r) => r.word_id == w.id && r.text@ == headword(w.word@),
        _ => false,
    }
}

/// The synthesis tasks for translations paired with the lookup of their
/// word, in input order; a pair whose word was not found gets no task.
pub open spec fn synthesis_tasks(pairs: Seq<(Translation, Option<Word>)>) -> Seq<Task>
    decreases pairs.len(),
{
    if pairs.len() == 0 {
        Seq::empty()
    } else {
        let rest = synthesis_tasks(pairs.drop_last());
        match pairs.last().1 {
            Some(w) => rest.push(
                Task::Synthesize(
                    SynthesisRequest { translation_id: pairs.last().0.id, text: w.word },
                ),
            ),
            None => rest,
        }
    }
}

/// Why a completion of task `index` is refused, if it is.
pub open spec fn completion_error(
    tasks: Seq<Task>,
    status: Seq<Status>,
    index: int,
    result: Result<Payload, ServiceError>,
) -> Option<BatchError> {
    if !(0 <= index < status.len()) || status[index] != Status::InFlight {
        Some(BatchError::NotInFlight)
    } else {
        match result {
            Ok(p) => if payload_fits(tasks[index], p) {
                None
            } else {
                Some(BatchError::PayloadMismatch)
            },
            Err(_) => None,
        }
    }
}

pub open spec fn completed_status(result: Result<Payload, ServiceError>) -> Status {
    match result {
        Ok(_) => Status::Persisting,
        Err(_) => Status::ServiceFailed,
    }
}

pub open spec fn service_failure(tasks: Seq<Task>, index: int, e: ServiceError) -> Failure {
    Failure {
        task: index as usize,
        item: item_of(tasks[index]),
        kind: FailureKind::Service,
        message: e.message,
    }
}

pub open spec fn store_failure(tasks: Seq<Task>, index: int, e: StoreError) -> Failure {
    Failure {
        task: index as usize,
        item: item_of(tasks[index]),
        kind: FailureKind::Store,
        message: e.message,
    }
}

/// What the caller is told to do when task `index` completes with `result`.
pub open spec fn completion_action(
    tasks: Seq<Task>,
    index: int,
    result: Result<Payload, ServiceError>,
) -> Action {
    match result {
        Ok(p) => success_action(tasks[index], p),
        Err(e) => Action::Report(service_failure(tasks, index, e)),
    }
}

pub open spec fn store_refused(status: Seq<Status>, index: int) -> bool {
    !(0 <= index < status.len()) || status[index] != Status::Persisting
}

proof fn lemma_count_update(s: Seq<Status>, i: int, v: Status, x: Status)
    requires
        0 <= i < s.len(),
    ensures
        count_status(s.update(i, v), x) == count_status(s, x) - (if s[i] == x {
            1int
        } else {
            0int
        }) + (if v == x {
            1int
        } else {
            0int
        }),
    decreases s.len(),
{
    if i == s.len() - 1 {
        assert(s.update(i, v).drop_last() =~= s.drop_last());
    } else {
        lemma_count_update(s.drop_last(), i, v, x);
        assert(s.update(i, v).drop_last() =~= s.drop_last().update(i, v));
    }
}

proof fn lemma_count_absent(s: Seq<Status>, x: Status)
    requires
        forall|i: int| 0 <= i < s.len() ==> s[i] != x,
    ensures
        count_status(s, x) == 0,
    decreases s.len(),
{
    if s.len() > 0 {
        lemma_count_absent(s.drop_last(), x);
    }
}

/// One batch of enrichment tasks: which tasks exist, where each stands, and
/// every failure reported so far.
pub struct Batch {
    tasks: Vec<Task>,
    status: Vec<Status>,
    failures: Vec<Failure>,
}

impl Batch {
    pub closed spec fn task_seq(&self) -> Seq<Task> {
        self.tasks@
    }

    pub closed spec fn status_seq(&self) -> Seq<Status> {
        self.status@
    }

    pub closed spec fn failure_seq(&self) -> Seq<Failure> {
        self.failures@
    }

    /// Every task has a status, and every failed task has exactly one
    /// reported failure.
    pub open spec fn wf(&self) -> bool {
        &&& self.status_seq().len() == self.task_seq().len()
        &&& self.failure_seq().len() == count_status(self.status_seq(), Status::ServiceFailed)
            + count_status(self.status_seq(), Status::StoreFailed)
    }

    fn start(tasks: Vec<Task>) -> (b: Batch)
        ensures
            b.wf(),
            b.task_seq() == tasks@,
            b.status_seq().len() == tasks@.len(),
            forall|i: int| 0 <= i < tasks@.len() ==> b.status_seq()[i] == Status::InFlight,
            b.failure_seq().len() == 0,
    {
        let mut status: Vec<Status> = Vec::new();
        let mut i: usize = 0;
        while i < tasks.len()
            invariant
                i <= tasks@.len(),
                status@.len() == i,
                forall|j: int| 0 <= j < i ==> status@[j] == Status::InFlight,
            decreases tasks@.len() - i,
        {
            status.push(Status::InFlight);
            i = i + 1;
        }
        let b = Batch { tasks, status, failures: Vec::new() };
        proof {
            lemma_count_absent(b.status@, Status::ServiceFailed);
            lemma_count_absent(b.status@, Status::StoreFailed);
        }
        b
    }

    /// A translation batch: one task per word, in input order, asking for
    /// the translation of the word's headword. Words are never deduplicated.
    pub fn translate(words: &Vec<Word>) -> (b: Batch)
        ensures
            b.wf(),
            b.task_seq().len() == words@.len(),
            forall|i: int| 0 <= i < words@.len() ==> translates(#[trigger] b.task_seq()[i], words@[i]),
            forall|i: int| 0 <= i < words@.len() ==> b.status_seq()[i] == Status::InFlight,
            b.failure_seq().len() == 0,
    {
        let mut tasks: Vec<Task> = Vec::new();
        let mut i: usize = 0;
        while i < words.len()
            invariant
                i <= words@.len(),
                tasks@.len() == i,
                forall|j: int| 0 <= j < i ==> translates(#[trigger] tasks@[j], words@[j]),
            decreases words@.len() - i,
        {
            let w = &words[i];
            let text = normalize(w.word.as_str());
            tasks.push(Task::Translate(TranslationRequest { word_id: w.id, text }));
            i = i + 1;
        }
        Batch::start(tasks)
    }

    /// A synthesis batch over translations paired with the lookup of their
    /// word: a translation whose word was not found is skipped, not started.
    pub fn synthesize(pairs: &Vec<(Translation, Option<Word>)>) -> (b: Batch)
        ensures
            b.wf(),
            b.task_seq() == synthesis_tasks(pairs@),
            forall|i: int| 0 <= i < b.task_seq().len() ==> b.status_seq()[i] == Status::InFlight,
            b.failure_seq().len() == 0,
    {
        let mut tasks: Vec<Task> = Vec::new();
        let mut i: usize = 0;
        while i < pairs.len()
            invariant
                i <= pairs@.len(),
                tasks@ == synthesis_tasks(pairs@.take(i as int)),
            decreases pairs@.len() - i,
        {
            proof {
                assert(pairs@.take(i + 1).drop_last() =~= pairs@.take(i as int));
            }
            let (t, w) = &pairs[i];
            match w {
                Some(w) => {
                    tasks.push(
                        Task::Synthesize(SynthesisRequest { translation_id: t.id, text: w.word.clone() }),
                    );
                },
                None => {},
            }
            i = i + 1;
        }
        proof {
            assert(pairs@.take(pairs@.len() as int) =~= pairs@);
        }
        Batch::start(tasks)
    }

    /// Takes the outcome of task `index`, in whatever order tasks finish.
    /// A success moves the task to `Persisting` and asks for its insert or
    /// update; a service failure is logged, reported, and ends the task.
    /// Other tasks are untouched, so no completion waits on another.
    pub fn complete(&mut self, index: usize, result: Result<Payload, ServiceError>) -> (r: Result<
        Action,
        BatchError,
    >)
        requires
            old(self).wf(),
        ensures
            final(self).wf(),
            final(self).task_seq() == old(self).task_seq(),
            match completion_error(
                old(self).task_seq(),
                old(self).status_seq(),
                index as int,
                result,
            ) {
                Some(e) => {
                    &&& r == Err::<Action, BatchError>(e)
                    &&& final(self).status_seq() == old(self).status_seq()
                    &&& final(self).failure_seq() == old(self).failure_seq()
                },
                None => {
                    &&& r == Ok::<Action, BatchError>(
                        completion_action(old(self).task_seq(), index as int, result),
                    )
                    &&& final(self).status_seq() == old(self).status_seq().update(
                        index as int,
                        completed_status(result),
                    )
                    &&& final(self).failure_seq() == match result {
                        Ok(_) => old(self).failure_seq(),
                        Err(e) => old(self).failure_seq().push(
                            service_failure(old(self).task_seq(), index as int, e),
                        ),
                    }
                },
            },
    {
        if index >= self.status.len() || self.status[index] != Status::InFlight {
            return Err(BatchError::NotInFlight);
        }
        let ghost s0 = self.status@;
        let action = match result {
            Ok(payload) => {
                let a = match (&self.tasks[index], payload) {
                    (Task::Translate(r), Payload::Text(text)) => Action::Insert(
                        NewTranslation { word_id: r.word_id, word: r.text.clone(), translated_text: text },
                    ),
                    (Task::Synthesize(r), Payload::Audio(audio)) => Action::Update(
                        AudioUpdate { translation_id: r.translation_id, audio },
                    ),
                    _ => {
                        return Err(BatchError::PayloadMismatch);
                    },
                };
                self.status.set(index, Status::Persisting);
                proof {
                    lemma_count_update(s0, index as int, Status::Persisting, Status::ServiceFailed);
                    lemma_count_update(s0, index as int, Status::Persisting, Status::StoreFailed);
                }
                a
            },
            Err(e) => {
                let item = match &self.tasks[index] {
                    Task::Translate(r) => r.word_id,
                    Task::Synthesize(r) => r.translation_id,
                };
                let f = Failure { task: index, item, kind: FailureKind::Service, message: e.message };
                self.failures.push(copy_failure(&f));
                self.status.set(index, Status::ServiceFailed);
                proof {
                    lemma_count_update(s0, index as int, Status::ServiceFailed, Status::ServiceFailed);
                    lemma_count_update(s0, index as int, Status::ServiceFailed, Status::StoreFailed);
                }
                Action::Report(f)
            },
        };
        Ok(action)
    }

    /// Takes the outcome of persisting the result of task `index`. A store
    /// failure is logged and returned; it ends that task only.
    pub fn record_store(&mut self, index: usize, result: Result<(), StoreError>) -> (r: Result<
        Option<Failure>,
        BatchError,
    >)
        requires
            old(self).wf(),
        ensures
            final(self).wf(),
            final(self).task_seq() == old(self).task_seq(),
            store_refused(old(self).status_seq(), index as int) ==> {
                &&& r == Err::<Option<Failure>, BatchError>(BatchError::NotPersisting)
                &&& final(self).status_seq() == old(self).status_seq()
                &&& final(self).failure_seq() == old(self).failure_seq()
            },
            !store_refused(old(self).status_seq(), index as int) ==> match result {
                Ok(_) => {
                    &&& r == Ok::<Option<Failure>, BatchError>(None)
                    &&& final(self).status_seq() == old(self).status_seq().update(
                        index as int,
                        Status::Persisted,
                    )
                    &&& final(self).failure_seq() == old(self).failure_seq()
                },
                Err(e) => {
                    let f = store_failure(old(self).task_seq(), index as int, e);
                    &&& r == Ok::<Option<Failure>, BatchError>(Some(f))
                    &&& final(self).status_seq() == old(self).status_seq().update(
                        index as int,
                        Status::StoreFailed,
                    )
                    &&& final(self).failure_seq() == old(self).failure_seq().push(f)
                },
            },
    {
        if index >= self.status.len() || self.status[index] != Status::Persisting {
            return Err(BatchError::NotPersisting);
        }
        let ghost s0 = self.status@;
        match result {
            Ok(()) => {
                self.status.set(index, Status::Persisted);
                proof {
                    lemma_count_update(s0, index as int, Status::Persisted, Status::ServiceFailed);
                    lemma_count_update(s0, index as int, Status::Persisted, Status::StoreFailed);
                }
                Ok(None)
            },
            Err(e) => {
                let item = match &self.tasks[index] {
                    Task::Translate(r) => r.word_id,
                    Task::Synthesize(r) => r.translation_id,
                };
                let f = Failure { task: index, item, kind: FailureKind::Store, message: e.message };
                self.failures.push(copy_failure(&f));
                self.status.set(index, Status::StoreFailed);
                proof {
                    lemma_count_update(s0, index as int, Status::StoreFailed, Status::ServiceFailed);
                    lemma_count_update(s0, index as int, Status::StoreFailed, Status::StoreFailed);
                }
                Ok(Some(f))
            },
        }
    }

    /// The number of tasks whose result was persisted.
    pub fn persisted_count(&self) -> (r: usize)
        ensures
            r == count_status(self.status_seq(), Status::Persisted),
    {
        let mut n: usize = 0;
        let mut i: usize = 0;
        while i < self.status.len()
            invariant
                i <= self.status@.len(),
                n == count_status(self.status@.take(i as int), Status::Persisted),
                n <= i,
            decreases self.status@.len() - i,
        {
            proof {
                assert(self.status@.take(i + 1).drop_last() =~= self.status@.take(i as int));
            }
            if self.status[i] == Status::Persisted {
                n = n + 1;
            }
            i = i + 1;
        }
        proof {
            assert(self.status@.take(i as int) =~= self.status@);
        }
        n
    }

    /// Whether every task has been persisted or has failed.
    pub fn is_finished(&self) -> (r: bool)
        ensures
            r == forall|i: int| 0 <= i < self.status_seq().len() ==> is_terminal(#[trigger] self.status_seq()[i]),
    {
        let mut i: usize = 0;
        while i < self.status.len()
            invariant
                i <= self.status@.len(),
                forall|j: int| 0 <= j < i ==> is_terminal(#[trigger] self.status@[j]),
            decreases self.status@.len() - i,
        {
            let st = self.status[i];
            if !(st == Status::Persisted || st == Status::ServiceFailed || st == Status::StoreFailed) {
                proof {
                    assert(!is_terminal(self.status_seq()[i as int]));
                }
                return false;
            }
            i = i + 1;
        }
        true
    }

    /// The number of tasks in the batch.
    pub fn len(&self) -> (r: usize)
        ensures
            r == self.task_seq().len(),
    {
        self.tasks.len()
    }

    /// The tasks, to be started by the caller.
    pub fn tasks(&self) -> (r: &Vec<Task>)
        ensures
            r@ == self.task_seq(),
    {
        &self.tasks
    }

    /// Where task `index` stands.
    pub fn status(&self, index: usize) -> (r: Option<Status>)
        ensures
            index < self.status_seq().len() ==> r == Some(self.status_seq()[index as int]),
            index >= self.status_seq().len() ==> r is None,
    {
        if index < self.status.len() {
            Some(self.status[index])
        } else {
            None
        }
    }

    /// Every failure reported so far, in the order it was reported.
    pub fn failures(&self) -> (r: &Vec<Failure>)
        ensures
            r@ == self.failure_seq(),
    {
        &self.failures
    }
}

} // verus!
