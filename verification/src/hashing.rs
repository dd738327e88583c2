//! Single-pass, multi-algorithm hashing of one file's bytes: a
//! [`FileHashJob`] holds one fresh hasher per requested algorithm and
//! feeds every chunk to each of them before the next chunk is read, so the
//! file is read from storage only once however many algorithms were
//! requested.

use vstd::prelude::*;
use vstd::slice::slice_subrange;

use crate::hasher_wrapper::digest_chars;
use crate::hasher_wrapper::HashAlgorithm;
use crate::hasher_wrapper::HasherWrapper;

verus! {

/// The digests the requested algorithms report for one byte sequence, in
/// request order.
pub open spec fn digests_of(algs: Seq<HashAlgorithm>, bytes: Seq<u8>) -> Seq<Seq<char>> {
    algs.map_values(|a: HashAlgorithm| digest_chars(a, bytes))
}

/// The streaming state for one file: one hasher per requested
/// algorithm, every one having absorbed exactly the same bytes.
pub struct FileHashJob {
    accs: Vec<HasherWrapper>,
    fed: Ghost<Seq<u8>>,
}

impl FileHashJob {
    /// The algorithms this job runs, in request order.
    pub closed spec fn algs(self) -> Seq<HashAlgorithm> {
        self.accs@.map_values(|a: HasherWrapper| a.alg())
    }

    /// Every byte this job has absorbed, in order.
    pub closed spec fn fed(self) -> Seq<u8> {
        self.fed@
    }

    /// Each hasher has absorbed exactly the job's bytes.
    pub closed spec fn wf(self) -> bool {
        forall|i: int| 0 <= i < self.accs@.len() ==> self.accs@[i].fed() == self.fed@
    }

    /// A fresh job for the given algorithms, with nothing absorbed yet.
    pub fn new(algs: &Vec<HashAlgorithm>) -> (r: FileHashJob)
        ensures
            r.wf(),
            r.algs() == algs@,
            r.fed() == Seq::<u8>::empty(),
    {
        let mut accs: Vec<HasherWrapper> = Vec::new();
        let mut i: usize = 0;
        while i < algs.len()
            invariant
                i <= algs@.len(),
                accs@.len() == i,
                forall|j: int| 0 <= j < i ==> accs@[j].alg() == algs@[j],
                forall|j: int| 0 <= j < i ==> accs@[j].fed() == Seq::<u8>::empty(),
            decreases algs@.len() - i,
        {
            let acc = HasherWrapper::new(algs[i]);
            accs.push(acc);
            i += 1;
        }
        let r = FileHashJob { accs, fed: Ghost(Seq::empty()) };
        assert(r.algs() =~= algs@);
        r
    }

    /// Feeds one chunk to every hasher. Only the concatenation of the
    /// chunks matters: chunk boundaries leave no trace in the state.
    pub fn update(&mut self, chunk: &[u8])
        requires
            old(self).wf(),
        ensures
            final(self).wf(),
            final(self).algs() == old(self).algs(),
            final(self).fed() == old(self).fed() + chunk@,
    {
        let ghost fed0 = self.fed@;
        let n = self.accs.len();
        let mut i: usize = 0;
        while i < n
            invariant
                n == self.accs@.len(),
                i <= n,
                self.fed@ == fed0,
                forall|j: int| 0 <= j < self.accs@.len() ==> #[trigger] self.accs@[j].alg()
                    == old(self).accs@[j].alg(),
                forall|j: int| i <= j < self.accs@.len() ==> #[trigger] self.accs@[j].fed()
                    == fed0,
                forall|j: int| 0 <= j < i ==> #[trigger] self.accs@[j].fed() == fed0 + chunk@,
            decreases n - i,
        {
            let acc = &mut self.accs[i];
            acc.update(chunk);
            i += 1;
        }
        self.fed = Ghost(fed0 + chunk@);
        assert(final(self).algs() =~= old(self).algs());
    }

    /// Finalizes every hasher, in request order, into the digests of
    /// everything absorbed.
    pub fn finish(&self) -> (r: Vec<String>)
        requires
            self.wf(),
        ensures
            r.deep_view() == digests_of(self.algs(), self.fed()),
    {
        let mut r: Vec<String> = Vec::new();
        let mut i: usize = 0;
        while i < self.accs.len()
            invariant
                self.wf(),
                i <= self.accs@.len(),
                r@.len() == i,
                forall|j: int| 0 <= j < i ==> r@[j]@ == digest_chars(
                    self.accs@[j].alg(),
                    self.fed@,
                ),
            decreases self.accs@.len() - i,
        {
            let d = self.accs[i].finish();
            r.push(d);
            i += 1;
        }
        assert(r.deep_view() =~~= digests_of(self.algs(), self.fed()));
        r
    }
}

/// Hashes an in-memory byte sequence through the given algorithms in a
/// single pass, reading it in chunks of at most `chunk_size` bytes.
///
/// Law: the digests depend on the bytes alone — the chunk size never shows
/// in the result, so hashing with any buffer size, however small, equals
/// hashing the whole sequence in one read.
pub fn hash_bytes_chunked(algs: &Vec<HashAlgorithm>, data: &[u8], chunk_size: usize) -> (r: Vec<
    String,
>)
    requires
        chunk_size >= 1,
    ensures
        r.deep_view() == digests_of(algs@, data@),
{
    let mut job = FileHashJob::new(algs);
    let len = data.len();
    let mut i: usize = 0;
    while i < len
        invariant
            len == data@.len(),
            i <= len,
            chunk_size >= 1,
            job.wf(),
            job.algs() == algs@,
            job.fed() == data@.take(i as int),
        decreases len - i,
    {
        let end = if len - i < chunk_size {
            len
        } else {
            i + chunk_size
        };
        let chunk = slice_subrange(data, i, end);
        job.update(chunk);
        assert(data@.take(i as int) + data@.subrange(i as int, end as int) =~= data@.take(
            end as int,
        ));
        i = end;
    }
    assert(data@.take(i as int) =~= data@);
    job.finish()
}

} // verus!
