use hashindex_rs::check_hash;
use hashindex_rs::default_hash;
use hashindex_rs::hash_variants;
use hashindex_rs::hasher_wrapper::HashAlgorithm;
use hashindex_rs::variants;

#[test]
fn variants_lists_both_algorithms() {
    let v = variants();
    assert_eq!(v, vec!["xxh64".to_string(), "xxh3".to_string()]);
    assert_eq!(hash_variants(), v);
}

#[test]
fn default_is_xxh64() {
    assert_eq!(default_hash(), "xxh64".to_string());
    assert!(variants().contains(&default_hash()));
}

#[test]
fn check_hash_partitions_valid_and_invalid() {
    let (valid, invalid) = check_hash(&"xxh64,bogus".to_string());
    assert_eq!(valid, vec!["xxh64".to_string()]);
    assert_eq!(invalid, vec!["bogus".to_string()]);
}

#[test]
fn check_hash_tolerates_spaces_and_case() {
    let (valid, invalid) = check_hash(&" XXH64 , bogus ".to_string());
    assert_eq!(valid, vec!["xxh64".to_string()]);
    assert_eq!(invalid, vec!["bogus".to_string()]);
}

#[test]
fn check_hash_accepts_all_registered() {
    let (valid, invalid) = check_hash(&"xxh64,xxh3".to_string());
    assert_eq!(valid, vec!["xxh64".to_string(), "xxh3".to_string()]);
    assert!(invalid.is_empty());
}

#[test]
fn check_hash_keeps_request_order() {
    let (valid, invalid) = check_hash(&"xxh3,nope,xxh64,zilch".to_string());
    assert_eq!(valid, vec!["xxh3".to_string(), "xxh64".to_string()]);
    assert_eq!(invalid, vec!["nope".to_string(), "zilch".to_string()]);
}

#[test]
fn check_hash_empty_string_gives_one_empty_invalid_piece() {
    let (valid, invalid) = check_hash(&"".to_string());
    assert!(valid.is_empty());
    assert_eq!(invalid, vec!["".to_string()]);
}

#[test]
fn check_hash_trailing_comma_gives_an_empty_invalid_piece() {
    let (valid, invalid) = check_hash(&"xxh64,".to_string());
    assert_eq!(valid, vec!["xxh64".to_string()]);
    assert_eq!(invalid, vec!["".to_string()]);
}

#[test]
fn from_str_is_case_insensitive() {
    assert!(matches!(
        HashAlgorithm::from_str("XXH3"),
        Some(HashAlgorithm::Xxh3)
    ));
    assert!(matches!(
        HashAlgorithm::from_str("xxh64"),
        Some(HashAlgorithm::Xxh64)
    ));
    assert!(HashAlgorithm::from_str("md5").is_none());
}

#[test]
fn from_string_matches_from_str() {
    assert_eq!(
        HashAlgorithm::from_string("Xxh64".to_string()),
        HashAlgorithm::from_str("xxh64")
    );
    assert_eq!(
        HashAlgorithm::from_string("what".to_string()),
        None
    );
}
