use wortliste::batch::Batch;
use wortliste::headword::normalize;
use wortliste::model::{
    apply_update, Action, AudioUpdate, BatchError, FailureKind, NewTranslation, Payload,
    ServiceError, Status, StoreError, Task, Translation, Word,
};

fn word(id: u64, text: &str) -> Word {
    Word { id, word: text.to_string() }
}

fn translation(id: u64, word_id: u64, audio: Option<Vec<u8>>) -> Translation {
    Translation {
        id,
        word_id,
        word: format!("w{}", word_id),
        translated_text: format!("t{}", word_id),
        audio,
    }
}

fn request_text(task: &Task) -> String {
    match task {
        Task::Translate(r) => r.text.clone(),
        Task::Synthesize(r) => r.text.clone(),
    }
}

/// Runs a translation batch to the end against a stub service, completing
/// the tasks in `order`; returns what was inserted.
fn run_translation(
    batch: &mut Batch,
    order: &[usize],
    service: &dyn Fn(&str) -> Result<String, String>,
) -> Vec<NewTranslation> {
    let mut rows = Vec::new();
    for &i in order {
        let text = request_text(&batch.tasks()[i]);
        let result = match service(&text) {
            Ok(t) => Ok(Payload::Text(t)),
            Err(m) => Err(ServiceError { message: m }),
        };
        match batch.complete(i, result) {
            Ok(Action::Insert(row)) => {
                rows.push(row);
                assert!(matches!(batch.record_store(i, Ok(())), Ok(None)));
            }
            Ok(Action::Update(_)) => panic!("a translation task asked for an update"),
            Ok(Action::Report(f)) => assert_eq!(f.kind, FailureKind::Service),
            Err(e) => panic!("completion refused: {:?}", e),
        }
    }
    rows
}

#[test]
fn normalize_strips_annotation() {
    assert_eq!(normalize("laufen (v.)"), "laufen");
    assert_eq!(normalize("Haus"), "Haus");
    assert_eq!(normalize("der Abend, -e"), "der Abend");
    assert_eq!(normalize("  gehen [irr.] "), "gehen");
    assert_eq!(normalize("\tsich freuen\n"), "sich freuen");
}

#[test]
fn normalize_edge_cases() {
    assert_eq!(normalize(""), "");
    assert_eq!(normalize("   "), "");
    assert_eq!(normalize("(nur Anmerkung)"), "");
    assert_eq!(normalize(", -e"), "");
    assert_eq!(normalize("Straße (f)"), "Straße");
}

#[test]
fn normalize_is_idempotent_on_examples() {
    for raw in ["", "Haus", "laufen (v.)", "  der Abend, -e ", "(x) y", " a b "] {
        let once = normalize(raw);
        assert_eq!(normalize(&once), once);
    }
}

#[test]
fn scenario_one_success_one_service_error() {
    let words = vec![word(1, "laufen (v.)"), word(2, "Haus")];
    let mut batch = Batch::translate(&words);
    assert_eq!(batch.len(), 2);
    assert_eq!(request_text(&batch.tasks()[0]), "laufen");
    assert_eq!(request_text(&batch.tasks()[1]), "Haus");
    let service = |w: &str| -> Result<String, String> {
        if w == "laufen" {
            Ok("to run".to_string())
        } else {
            Err(format!("service failed for {}", w))
        }
    };
    let rows = run_translation(&mut batch, &[1, 0], &service);
    assert_eq!(rows.len(), 1);
    assert_eq!(rows[0].word, "laufen");
    assert_eq!(rows[0].word_id, 1);
    assert_eq!(rows[0].translated_text, "to run");
    assert_eq!(batch.persisted_count(), 1);
    assert_eq!(batch.failures().len(), 1);
    assert_eq!(batch.failures()[0].item, 2);
    assert_eq!(batch.failures()[0].task, 1);
    assert_eq!(batch.failures()[0].kind, FailureKind::Service);
    assert_eq!(batch.failures()[0].message, "service failed for Haus");
    assert!(batch.is_finished());
}

#[test]
fn isolation_five_items_two_failures() {
    let words: Vec<Word> = (0..5).map(|i| word(i, &format!("w{} (x)", i))).collect();
    let mut batch = Batch::translate(&words);
    let service = |w: &str| -> Result<String, String> {
        if w == "w1" || w == "w3" {
            Err("quota".to_string())
        } else {
            Ok(format!("{}!", w))
        }
    };
    let rows = run_translation(&mut batch, &[4, 2, 0, 3, 1], &service);
    assert_eq!(rows.len(), 3);
    assert_eq!(batch.persisted_count(), 3);
    assert_eq!(batch.failures().len(), 2);
    assert!(batch.is_finished());
}

#[test]
fn all_tasks_fail() {
    let words = vec![word(1, "a"), word(2, "b"), word(3, "c")];
    let mut batch = Batch::translate(&words);
    let rows = run_translation(&mut batch, &[0, 1, 2], &|_: &str| -> Result<String, String> { Err("down".to_string()) });
    assert!(rows.is_empty());
    assert_eq!(batch.persisted_count(), 0);
    assert_eq!(batch.failures().len(), 3);
    assert!(batch.is_finished());
}

#[test]
fn empty_batch_is_finished_at_once() {
    let batch = Batch::translate(&Vec::new());
    assert_eq!(batch.len(), 0);
    assert_eq!(batch.persisted_count(), 0);
    assert!(batch.failures().is_empty());
    assert!(batch.is_finished());
}

#[test]
fn later_task_persists_while_earlier_one_is_slow() {
    let words = vec![word(1, "langsam"), word(2, "schnell")];
    let mut batch = Batch::translate(&words);
    match batch.complete(1, Ok(Payload::Text("fast".to_string()))) {
        Ok(Action::Insert(row)) => assert_eq!(row.word_id, 2),
        _ => panic!("expected an insert"),
    }
    assert!(matches!(batch.record_store(1, Ok(())), Ok(None)));
    assert_eq!(batch.status(0), Some(Status::InFlight));
    assert_eq!(batch.status(1), Some(Status::Persisted));
    assert_eq!(batch.persisted_count(), 1);
    assert!(!batch.is_finished());
    assert!(matches!(
        batch.complete(0, Ok(Payload::Text("slow".to_string()))),
        Ok(Action::Insert(_))
    ));
    assert_eq!(batch.status(0), Some(Status::Persisting));
    assert!(!batch.is_finished());
    assert!(matches!(batch.record_store(0, Ok(())), Ok(None)));
    assert!(batch.is_finished());
    assert_eq!(batch.persisted_count(), 2);
}

#[test]
fn missing_word_is_skipped_before_dispatch() {
    let pairs = vec![
        (translation(10, 1, None), Some(word(1, "laufen (v.)"))),
        (translation(11, 2, None), None),
        (translation(12, 3, None), Some(word(3, "Haus"))),
    ];
    let batch = Batch::synthesize(&pairs);
    assert_eq!(batch.len(), 2);
    match (&batch.tasks()[0], &batch.tasks()[1]) {
        (Task::Synthesize(a), Task::Synthesize(b)) => {
            assert_eq!(a.translation_id, 10);
            assert_eq!(a.text, "laufen (v.)");
            assert_eq!(b.translation_id, 12);
            assert_eq!(b.text, "Haus");
        }
        _ => panic!("expected synthesis tasks"),
    }
    assert!(batch.failures().is_empty());
}

#[test]
fn synthesis_success_asks_for_audio_update() {
    let pairs = vec![(translation(10, 1, None), Some(word(1, "Haus")))];
    let mut batch = Batch::synthesize(&pairs);
    match batch.complete(0, Ok(Payload::Audio(vec![1, 2, 3]))) {
        Ok(Action::Update(u)) => {
            assert_eq!(u.translation_id, 10);
            assert_eq!(u.audio, vec![1, 2, 3]);
            let mut t = translation(10, 1, None);
            apply_update(&mut t, u);
            assert_eq!(t.audio, Some(vec![1, 2, 3]));
            assert_eq!(t.translated_text, "t1");
        }
        _ => panic!("expected an update"),
    }
    assert!(matches!(batch.record_store(0, Ok(())), Ok(None)));
    assert_eq!(batch.persisted_count(), 1);
}

#[test]
fn rerun_inserts_again() {
    let words = vec![word(1, "Haus"), word(2, "laufen (v.)")];
    let service = |w: &str| -> Result<String, String> { Ok(format!("en:{}", w)) };
    let mut first = Batch::translate(&words);
    let mut second = Batch::translate(&words);
    let mut rows = run_translation(&mut first, &[0, 1], &service);
    rows.extend(run_translation(&mut second, &[1, 0], &service));
    assert_eq!(rows.len(), 4);
    assert_eq!(rows.iter().filter(|r| r.word_id == 1).count(), 2);
    assert_eq!(rows.iter().filter(|r| r.word_id == 2).count(), 2);
    assert!(rows.iter().filter(|r| r.word_id == 2).all(|r| r.translated_text == "en:laufen"));
}

#[test]
fn duplicate_words_are_not_deduplicated() {
    let words = vec![word(1, "Haus"), word(2, "Haus")];
    let mut batch = Batch::translate(&words);
    let rows = run_translation(&mut batch, &[0, 1], &|w: &str| -> Result<String, String> { Ok(w.to_lowercase()) });
    assert_eq!(rows.len(), 2);
    assert_eq!(batch.persisted_count(), 2);
}

#[test]
fn audio_never_reverts() {
    let mut t = translation(10, 1, Some(vec![9]));
    apply_update(&mut t, AudioUpdate { translation_id: 11, audio: vec![] });
    assert_eq!(t.audio, Some(vec![9]));
    apply_update(&mut t, AudioUpdate { translation_id: 10, audio: vec![7, 7] });
    assert_eq!(t.audio, Some(vec![7, 7]));
    assert_eq!(t.id, 10);
}

#[test]
fn refused_completions() {
    let words = vec![word(1, "Haus")];
    let mut batch = Batch::translate(&words);
    assert!(matches!(
        batch.complete(5, Ok(Payload::Text("x".to_string()))),
        Err(BatchError::NotInFlight)
    ));
    assert!(matches!(
        batch.complete(0, Ok(Payload::Audio(vec![1]))),
        Err(BatchError::PayloadMismatch)
    ));
    assert_eq!(batch.status(0), Some(Status::InFlight));
    assert!(matches!(batch.record_store(0, Ok(())), Err(BatchError::NotPersisting)));
    assert!(matches!(
        batch.complete(0, Ok(Payload::Text("house".to_string()))),
        Ok(Action::Insert(_))
    ));
    assert!(matches!(
        batch.complete(0, Ok(Payload::Text("house".to_string()))),
        Err(BatchError::NotInFlight)
    ));
    assert_eq!(batch.status(7), None);
}

#[test]
fn store_failure_is_reported() {
    let words = vec![word(1, "Haus"), word(2, "Baum")];
    let mut batch = Batch::translate(&words);
    assert!(matches!(
        batch.complete(0, Ok(Payload::Text("house".to_string()))),
        Ok(Action::Insert(_))
    ));
    match batch.record_store(0, Err(StoreError { message: "disk full".to_string() })) {
        Ok(Some(f)) => {
            assert_eq!(f.kind, FailureKind::Store);
            assert_eq!(f.item, 1);
            assert_eq!(f.message, "disk full");
        }
        _ => panic!("expected a store failure"),
    }
    assert_eq!(batch.status(0), Some(Status::StoreFailed));
    assert!(matches!(
        batch.complete(1, Ok(Payload::Text("tree".to_string()))),
        Ok(Action::Insert(_))
    ));
    assert!(matches!(batch.record_store(1, Ok(())), Ok(None)));
    assert_eq!(batch.persisted_count(), 1);
    assert_eq!(batch.failures().len(), 1);
    assert!(batch.is_finished());
}
