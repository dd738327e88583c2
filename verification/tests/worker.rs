use hashindex_rs::hasher_wrapper::HashAlgorithm;
use hashindex_rs::hashing::hash_bytes_chunked;
use hashindex_rs::worker::conclude_task;
use hashindex_rs::worker::plan_workers;
use hashindex_rs::worker::TaskOutcome;
use hashindex_rs::worker::WorkerAction;

#[test]
fn worker_count_is_clamped_to_one() {
    let (_, count) = plan_workers(Vec::new(), 0);
    assert_eq!(count, 1);
    let (_, count) = plan_workers(Vec::new(), 4);
    assert_eq!(count, 4);
}

#[test]
fn requested_identifiers_resolve_in_order() {
    let ids = vec![
        "xxh3".to_string(),
        "bogus".to_string(),
        "XXH64".to_string(),
    ];
    let (algs, _) = plan_workers(ids, 1);
    assert_eq!(algs, vec![HashAlgorithm::Xxh3, HashAlgorithm::Xxh64]);
}

#[test]
fn vanished_path_is_skipped_silently() {
    let r = conclude_task(
        &"L".to_string(),
        &",".to_string(),
        "gone".to_string(),
        TaskOutcome::NotRegular,
    );
    assert!(matches!(r, WorkerAction::Skip));
}

#[test]
fn unreadable_file_reports_its_path_and_emits_nothing() {
    let r = conclude_task(
        &"L".to_string(),
        &",".to_string(),
        "secret.bin".to_string(),
        TaskOutcome::Failed("permission denied".to_string()),
    );
    match r {
        WorkerAction::Report(path, err) => {
            assert_eq!(path, "secret.bin".to_string());
            assert_eq!(err, "permission denied".to_string());
        }
        _ => panic!("expected a report"),
    }
}

#[test]
fn hashed_file_emits_one_record_line() {
    let digests = vec!["ABC".to_string()];
    let r = conclude_task(
        &"L".to_string(),
        &",".to_string(),
        "P".to_string(),
        TaskOutcome::Hashed(digests, 3),
    );
    match r {
        WorkerAction::Emit(line) => assert_eq!(line, "L,ABC,3,\"P\"".to_string()),
        _ => panic!("expected an emitted line"),
    }
}

#[test]
fn end_to_end_single_algorithm_record() {
    let algs = vec![HashAlgorithm::Xxh64];
    let content = b"random content";
    let digests = hash_bytes_chunked(&algs, content, 8192);
    let r = conclude_task(
        &"L".to_string(),
        &",".to_string(),
        "P".to_string(),
        TaskOutcome::Hashed(digests, content.len() as u64),
    );
    match r {
        WorkerAction::Emit(line) => {
            assert_eq!(line, "L,7F11D049CB6B8546,14,\"P\"".to_string())
        }
        _ => panic!("expected an emitted line"),
    }
}
