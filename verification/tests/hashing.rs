use hashindex_rs::hasher_wrapper::HashAlgorithm;
use hashindex_rs::hasher_wrapper::HasherWrapper;
use hashindex_rs::hashing::hash_bytes_chunked;
use hashindex_rs::hashing::FileHashJob;

#[test]
fn xxh64_known_digest() {
    let mut acc = HasherWrapper::new(HashAlgorithm::Xxh64);
    acc.update(b"random content");
    assert_eq!(acc.finish(), "7F11D049CB6B8546".to_string());
}

#[test]
fn xxh3_known_digest() {
    let mut acc = HasherWrapper::new(HashAlgorithm::Xxh3);
    acc.update(b"random content");
    assert_eq!(acc.finish(), "4A75590CD2E4B62AC85C79834B4E524F".to_string());
}

#[test]
fn digest_widths_match_output_size() {
    let mut a64 = HasherWrapper::new(HashAlgorithm::Xxh64);
    let mut a3 = HasherWrapper::new(HashAlgorithm::Xxh3);
    a64.update(b"x");
    a3.update(b"x");
    assert_eq!(a64.finish().len(), 16);
    assert_eq!(a3.finish().len(), 32);
}

#[test]
fn chunk_boundaries_do_not_change_digest() {
    let mut split = HasherWrapper::new(HashAlgorithm::Xxh64);
    split.update(b"random ");
    split.update(b"content");
    let mut whole = HasherWrapper::new(HashAlgorithm::Xxh64);
    whole.update(b"random content");
    assert_eq!(split.finish(), whole.finish());
    assert_eq!(split.finish(), "7F11D049CB6B8546".to_string());
}

#[test]
fn chunked_hashing_equals_single_read() {
    let algs = vec![HashAlgorithm::Xxh64, HashAlgorithm::Xxh3];
    let data = b"The quick brown fox jumps over the lazy dog";
    let small = hash_bytes_chunked(&algs, data, 5);
    let whole = hash_bytes_chunked(&algs, data, data.len());
    assert_eq!(small, whole);
    assert_eq!(small.len(), 2);
}

#[test]
fn job_feeds_every_accumulator_once_per_chunk() {
    let algs = vec![HashAlgorithm::Xxh3, HashAlgorithm::Xxh64];
    let mut job = FileHashJob::new(&algs);
    job.update(b"random ");
    job.update(b"content");
    let digests = job.finish();
    assert_eq!(digests.len(), 2);
    assert_eq!(digests[1], "7F11D049CB6B8546".to_string());
    assert_eq!(digests, hash_bytes_chunked(&algs, b"random content", 3));
}

#[test]
fn empty_algorithm_list_gives_no_digests() {
    let algs: Vec<HashAlgorithm> = Vec::new();
    let digests = hash_bytes_chunked(&algs, b"anything", 4);
    assert!(digests.is_empty());
}
