use vstd::prelude::*;

verus! {

/// A vocabulary entry as read from the store.
pub struct Word {
    pub id: u64,
    pub word: String,
}

/// A stored translation of one word; `audio` is absent until synthesis
/// succeeds for it.
pub struct Translation {
    pub id: u64,
    pub word_id: u64,
    pub word: String,
    pub translated_text: String,
    pub audio: Option<Vec<u8>>,
}

/// A translation to be inserted; it has no audio, so an insert can never
/// carry any.
pub struct NewTranslation {
    pub word_id: u64,
    pub word: String,
    pub translated_text: String,
}

/// Audio to attach, in place, to the stored translation `translation_id`.
pub struct AudioUpdate {
    pub translation_id: u64,
    pub audio: Vec<u8>,
}

/// One call to the translation service: the headword of word `word_id`.
pub struct TranslationRequest {
    pub word_id: u64,
    pub text: String,
}

/// One call to the speech service: the text of the word behind
/// translation `translation_id`.
pub struct SynthesisRequest {
    pub translation_id: u64,
    pub text: String,
}

/// The unit of concurrent work: one outbound call.
pub enum Task {
    Translate(TranslationRequest),
    Synthesize(SynthesisRequest),
}

/// What a service call returned on success.
pub enum Payload {
    Text(String),
    Audio(Vec<u8>),
}

/// A network, authentication or quota failure of a service call.
pub struct ServiceError {
    pub message: String,
}

/// A failed write to the store.
pub struct StoreError {
    pub message: String,
}

#[derive(Clone, Copy, Debug, PartialEq, Eq, Structural)]
pub enum FailureKind {
    Service,
    Store,
}

/// A reported per-item failure: which task, which stored item, and why.
pub struct Failure {
    pub task: usize,
    pub item: u64,
    pub kind: FailureKind,
    pub message: String,
}

/// What the caller must do after a task completed.
pub enum Action {
    Insert(NewTranslation),
    Update(AudioUpdate),
    Report(Failure),
}

#[derive(Clone, Copy, Debug, PartialEq, Eq, Structural)]
pub enum Status {
    InFlight,
    Persisting,
    Persisted,
    ServiceFailed,
    StoreFailed,
}

#[derive(Clone, Copy, Debug, PartialEq, Eq, Structural)]
pub enum BatchError {
    /// The task index is unknown, or its task has already completed.
    NotInFlight,
    /// The task index is unknown, or no persistence is pending for it.
    NotPersisting,
    /// A translation task got audio back, or a synthesis task got text.
    PayloadMismatch,
}

/// The stored item a task speaks for: a word for a translation, a
/// translation for a synthesis.
pub open spec fn item_of(t: Task) -> u64 {
    match t {
        Task::Translate(r) => r.word_id,
        Task::Synthesize(r) => r.translation_id,
    }
}

pub open spec fn payload_fits(t: Task, p: Payload) -> bool {
    match t {
        Task::Translate(_) => p is Text,
        Task::Synthesize(_) => p is Audio,
    }
}

/// The persistence that a successful task asks for.
pub open spec fn success_action(t: Task, p: Payload) -> Action
    recommends
        payload_fits(t, p),
{
    match (t, p) {
        (Task::Translate(r), Payload::Text(text)) => Action::Insert(
            NewTranslation { word_id: r.word_id, word: r.text, translated_text: text },
        ),
        (Task::Synthesize(r), Payload::Audio(audio)) => Action::Update(
            AudioUpdate { translation_id: r.translation_id, audio },
        ),
        _ => arbitrary(),
    }
}

/// A stored translation after an audio update has been applied to the store.
pub open spec fn updated(t: Translation, u: AudioUpdate) -> Translation {
    if u.translation_id == t.id {
        Translation { audio: Some(u.audio), ..t }
    } else {
        t
    }
}

/// Applies an audio update to a stored translation in place; a translation
/// with another id is left as it is.
pub fn apply_update(t: &mut Translation, u: AudioUpdate)
    ensures
        *final(t) == updated(*old(t), u),
{
    if u.translation_id == t.id {
        t.audio = Some(u.audio);
    }
}

pub(crate) fn copy_failure(f: &Failure) -> (r: Failure)
    ensures
        r == *f,
{
    Failure { task: f.task, item: f.item, kind: f.kind, message: f.message.clone() }
}

} // verus!
