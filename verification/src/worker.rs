//! The worker pool's decision logic. The pool itself is a set of concurrent
//! consumers driven from outside; what each worker decides — which
//! algorithms run, how many workers run, and what becomes of one finished
//! task — is fixed and proved here.

use vstd::prelude::*;

use crate::emitter::format_record;
use crate::emitter::record_line;
use crate::hasher_wrapper::HashAlgorithm;

verus! {

/// The algorithms a list of identifier strings resolves to: each identifier
/// parsed case-insensitively, unresolvable ones dropped, request order kept.
pub open spec fn chosen_algs(ids: Seq<Seq<char>>) -> Seq<HashAlgorithm>
    decreases ids.len(),
{
    if ids.len() == 0 {
        Seq::empty()
    } else {
        let rest = chosen_algs(ids.drop_last());
        match HashAlgorithm::of_id(ids.last()) {
            Some(a) => rest.push(a),
            None => rest,
        }
    }
}

/// Fixes a run's pool parameters: resolves the requested identifiers to
/// algorithms and clamps the worker count to a minimum of one.
pub fn plan_workers(hash_algorithms: Vec<String>, number_of_workers: usize) -> (r: (
    Vec<HashAlgorithm>,
    usize,
))
    ensures
        r.0@ == chosen_algs(hash_algorithms.deep_view()),
        r.1 == if number_of_workers >= 1 { number_of_workers } else { 1 },
{
    let ghost ids = hash_algorithms.deep_view();
    let count = if number_of_workers >= 1 {
        number_of_workers
    } else {
        1
    };
    let mut algs: Vec<HashAlgorithm> = Vec::new();
    let mut i: usize = 0;
    while i < hash_algorithms.len()
        invariant
            i <= hash_algorithms@.len(),
            ids == hash_algorithms.deep_view(),
            algs@ == chosen_algs(ids.take(i as int)),
        decreases hash_algorithms@.len() - i,
    {
        proof {
            assert(ids.take(i + 1).drop_last() =~= ids.take(i as int));
            assert(ids.take(i + 1).last() == ids[i as int]);
            assert(ids[i as int] == hash_algorithms@[i as int]@);
        }
        match HashAlgorithm::from_str(hash_algorithms[i].as_str()) {
            Some(a) => algs.push(a),
            None => {},
        }
        i += 1;
    }
    assert(ids.take(i as int) =~= ids);
    (algs, count)
}

/// What handling one received path produced: the path was no longer a
/// regular file, reading it or its metadata failed with a description, or
/// it hashed cleanly into digests and a byte size.
pub enum TaskOutcome {
    NotRegular,
    Failed(String),
    Hashed(Vec<String>, u64),
}

/// What a worker does with one finished task: nothing, report the failure
/// to the error collaborator, or emit the formatted record line.
pub enum WorkerAction {
    Skip,
    Report(String, String),
    Emit(String),
}

/// Decides what one finished task becomes. A path that stopped being a
/// regular file is skipped silently; a per-file failure is reported for
/// exactly that path and produces no record; a hashed file produces exactly
/// its record line. No outcome ever stops the worker or the pool.
pub fn conclude_task(
    label: &String,
    delimiter: &String,
    path: String,
    outcome: TaskOutcome,
) -> (r: WorkerAction)
    ensures
        outcome is NotRegular ==> r is Skip,
        outcome matches TaskOutcome::Failed(e) ==> r matches WorkerAction::Report(p, msg)
            && p == path && msg == e,
        outcome matches TaskOutcome::Hashed(digests, size) ==> r matches WorkerAction::Emit(line)
            && line@ == record_line(
            label@,
            delimiter@,
            digests.deep_view(),
            size as nat,
            path@,
        ),
{
    match outcome {
        TaskOutcome::NotRegular => WorkerAction::Skip,
        TaskOutcome::Failed(e) => WorkerAction::Report(path, e),
        TaskOutcome::Hashed(digests, size) => {
            let line = format_record(label, delimiter, &digests, size, &path);
            WorkerAction::Emit(line)
        },
    }
}

} // verus!
