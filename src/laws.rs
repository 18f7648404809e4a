use vstd::prelude::*;
use crate::batch::{
    completed_status, completion_error, count_status, is_terminal, synthesis_tasks, translates,
    Batch,
};
use crate::model::{
    payload_fits, success_action, updated, Action, AudioUpdate, Payload, ServiceError, Status, Task,
    Translation, Word,
};

verus! {

proof fn lemma_terminal_counts(s: Seq<Status>)
    requires
        forall|i: int| 0 <= i < s.len() ==> is_terminal(#[trigger] s[i]),
    ensures
        count_status(s, Status::Persisted) + count_status(s, Status::ServiceFailed) + count_status(
            s,
            Status::StoreFailed,
        ) == s.len(),
    decreases s.len(),
{
    if s.len() > 0 {
        assert(is_terminal(s[s.len() - 1]));
        lemma_terminal_counts(s.drop_last());
    }
}

/// In a finished batch of N tasks where exactly K service calls failed and
/// no write failed, exactly N - K results were persisted and exactly K
/// failures were reported.
pub proof fn lemma_isolation(b: Batch, k: nat)
    requires
        b.wf(),
        forall|i: int| 0 <= i < b.status_seq().len() ==> is_terminal(#[trigger] b.status_seq()[i]),
        count_status(b.status_seq(), Status::ServiceFailed) == k,
        count_status(b.status_seq(), Status::StoreFailed) == 0,
    ensures
        count_status(b.status_seq(), Status::Persisted) == b.task_seq().len() - k,
        b.failure_seq().len() == k,
{
    lemma_terminal_counts(b.status_seq());
}

/// A task in flight always accepts its outcome, success or service failure,
/// whatever state any other task is in; completing it leaves every other
/// task where it was.
pub proof fn lemma_no_ordering_coupling(
    tasks: Seq<Task>,
    status: Seq<Status>,
    a: int,
    b: int,
    other: Status,
    result: Result<Payload, ServiceError>,
)
    requires
        status.len() == tasks.len(),
        0 <= a < status.len(),
        0 <= b < status.len(),
        a != b,
        status[a] == Status::InFlight,
        result is Ok ==> payload_fits(tasks[a], result->Ok_0),
    ensures
        completion_error(tasks, status, a, result) is None,
        completion_error(tasks, status.update(b, other), a, result) is None,
        status.update(a, completed_status(result))[b] == status[b],
{
}

/// How many translations had no word to go with them.
pub open spec fn missing_count(pairs: Seq<(Translation, Option<Word>)>) -> nat
    decreases pairs.len(),
{
    if pairs.len() == 0 {
        0
    } else {
        missing_count(pairs.drop_last()) + if pairs.last().1 is None {
            1nat
        } else {
            0nat
        }
    }
}

/// A translation whose word cannot be found is left out of the synthesis
/// batch, neither succeeding nor failing: N translations with M missing
/// words give N - M tasks.
pub proof fn lemma_skip_missing(pairs: Seq<(Translation, Option<Word>)>)
    ensures
        synthesis_tasks(pairs).len() == pairs.len() - missing_count(pairs),
    decreases pairs.len(),
{
    if pairs.len() > 0 {
        lemma_skip_missing(pairs.drop_last());
    }
}

/// The actions of a translation batch in which every task succeeded, task
/// `i` with the text `texts[i]`.
pub open spec fn insert_actions(tasks: Seq<Task>, texts: Seq<String>) -> Seq<Action> {
    Seq::new(tasks.len(), |i: int| success_action(tasks[i], Payload::Text(texts[i])))
}

/// Translating the same words twice with the same answers asks for two
/// inserts per word, one from each run: nothing is deduplicated.
pub proof fn lemma_rerun_inserts_twice(
    words: Seq<Word>,
    first: Batch,
    second: Batch,
    texts: Seq<String>,
)
    requires
        texts.len() == words.len(),
        first.task_seq().len() == words.len(),
        second.task_seq().len() == words.len(),
        forall|i: int| 0 <= i < words.len() ==> translates(#[trigger] first.task_seq()[i], words[i]),
        forall|i: int| 0 <= i < words.len() ==> translates(#[trigger] second.task_seq()[i], words[i]),
    ensures
        ({
            let rows = insert_actions(first.task_seq(), texts) + insert_actions(
                second.task_seq(),
                texts,
            );
            &&& rows.len() == 2 * words.len()
            &&& forall|i: int|
                0 <= i < words.len() ==> {
                    &&& #[trigger] rows[i] is Insert
                    &&& rows[i + words.len()] is Insert
                    &&& rows[i]->Insert_0.word_id == words[i].id
                    &&& rows[i + words.len()]->Insert_0.word_id == words[i].id
                    &&& rows[i]->Insert_0.word@ == rows[i + words.len()]->Insert_0.word@
                    &&& rows[i]->Insert_0.translated_text == texts[i]
                    &&& rows[i + words.len()]->Insert_0.translated_text == texts[i]
                }
        }),
{
    let rows = insert_actions(first.task_seq(), texts) + insert_actions(second.task_seq(), texts);
    assert forall|i: int| 0 <= i < words.len() implies {
        &&& #[trigger] rows[i] is Insert
        &&& rows[i + words.len()] is Insert
        &&& rows[i]->Insert_0.word_id == words[i].id
        &&& rows[i + words.len()]->Insert_0.word_id == words[i].id
        &&& rows[i]->Insert_0.word@ == rows[i + words.len()]->Insert_0.word@
        &&& rows[i]->Insert_0.translated_text == texts[i]
        &&& rows[i + words.len()]->Insert_0.translated_text == texts[i]
    } by {
        assert(translates(first.task_seq()[i], words[i]));
        assert(translates(second.task_seq()[i], words[i]));
        assert(rows[i] == success_action(first.task_seq()[i], Payload::Text(texts[i])));
        assert(rows[i + words.len()] == success_action(
            second.task_seq()[i],
            Payload::Text(texts[i]),
        ));
    }
}

/// A stored translation after a sequence of audio updates, in order.
pub open spec fn updated_all(t: Translation, us: Seq<AudioUpdate>) -> Translation
    decreases us.len(),
{
    if us.len() == 0 {
        t
    } else {
        updated(updated_all(t, us.drop_last()), us.last())
    }
}

/// Once a translation's audio is present, no sequence of further audio
/// updates makes it absent again, nor changes which translation it is.
pub proof fn lemma_audio_stays(t: Translation, us: Seq<AudioUpdate>)
    requires
        t.audio is Some,
    ensures
        updated_all(t, us).audio is Some,
        updated_all(t, us).id == t.id,
    decreases us.len(),
{
    if us.len() > 0 {
        lemma_audio_stays(t, us.drop_last());
    }
}

} // verus!
