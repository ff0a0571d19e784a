use pyrsia::error::NodeErrorType;
use pyrsia::hash::{bytes_equal, ArtifactHash, HashAlgorithm};
use pyrsia::store::ArtifactStore;

const EMPTY_SHA256: &str = "sha256:e3b0c44298fc1c149afbf4c8996fb92427ae41e4649b934ca495991b7852b855";
const ABC_SHA256: &str = "sha256:ba7816bf8f01cfea414140de5dae2223b00361a396177a9cb410ff61f20015ad";

#[test]
fn digest_of_known_inputs() {
    let h = ArtifactHash::of_content(&b"abc".to_vec());
    assert_eq!(h.algorithm, HashAlgorithm::SHA256);
    assert_eq!(h.digest, ArtifactHash::from_blob_id(ABC_SHA256).unwrap().digest);
    let e = ArtifactHash::of_content(&Vec::new());
    assert_eq!(e.digest, ArtifactHash::from_blob_id(EMPTY_SHA256).unwrap().digest);
}

#[test]
fn blob_id_decoding() {
    let h = ArtifactHash::from_blob_id("sha256:00ff1A").unwrap();
    assert_eq!(h.digest, vec![0x00, 0xff, 0x1a]);
    assert!(ArtifactHash::from_blob_id("sha256:abc").is_none());
    assert!(ArtifactHash::from_blob_id("sha256:zz").is_none());
    assert!(ArtifactHash::from_blob_id("sha25").is_none());
    assert_eq!(ArtifactHash::from_blob_id("sha256:").unwrap().digest, Vec::<u8>::new());
    assert_eq!(ArtifactHash::from_blob_id(EMPTY_SHA256).unwrap().digest.len(), 32);
}

#[test]
fn bytes_equality() {
    assert!(bytes_equal(&vec![1, 2, 3], &vec![1, 2, 3]));
    assert!(!bytes_equal(&vec![1, 2, 3], &vec![1, 2, 4]));
    assert!(!bytes_equal(&vec![1, 2], &vec![1, 2, 3]));
}

#[test]
fn put_then_get_round_trip() {
    let mut store = ArtifactStore::new(1000);
    let content = b"hello artifact".to_vec();
    let h = ArtifactHash::of_content(&content);
    assert_eq!(store.put(&h, content.clone()), Ok(true));
    assert_eq!(store.get(&h), Ok(content.clone()));
    assert_eq!(store.available_space(), 1000 - content.len() as u64);
    assert_eq!(store.artifact_count(), 1);
}

#[test]
fn put_with_wrong_digest_is_rejected() {
    let mut store = ArtifactStore::new(1000);
    let claimed = ArtifactHash::of_content(&b"one".to_vec());
    let r = store.put(&claimed, b"two".to_vec());
    assert_eq!(r.unwrap_err().error_type, NodeErrorType::IntegrityMismatch);
    assert_eq!(store.get(&claimed).unwrap_err().error_type, NodeErrorType::NotFoundLocally);
    assert_eq!(store.available_space(), 1000);
    assert_eq!(store.artifact_count(), 0);
}

#[test]
fn put_twice_is_idempotent() {
    let mut store = ArtifactStore::new(1000);
    let content = vec![7u8; 100];
    let h = ArtifactHash::of_content(&content);
    assert_eq!(store.put(&h, content.clone()), Ok(true));
    let space = store.available_space();
    assert_eq!(store.put(&h, content.clone()), Ok(false));
    assert_eq!(store.available_space(), space);
    assert_eq!(store.artifact_count(), 1);
    assert_eq!(store.get(&h), Ok(content));
}

#[test]
fn put_over_quota_is_rejected() {
    let mut store = ArtifactStore::new(10);
    let content = vec![1u8; 11];
    let h = ArtifactHash::of_content(&content);
    assert_eq!(store.put(&h, content).unwrap_err().error_type, NodeErrorType::QuotaExceeded);
    assert_eq!(store.available_space(), 10);
    assert!(!store.contains(&h));
    let exact = vec![2u8; 10];
    let h2 = ArtifactHash::of_content(&exact);
    assert_eq!(store.put(&h2, exact), Ok(true));
    assert_eq!(store.available_space(), 0);
}

#[test]
fn empty_content_is_stored() {
    let mut store = ArtifactStore::new(0);
    let h = ArtifactHash::from_blob_id(EMPTY_SHA256).unwrap();
    assert_eq!(store.put(&h, Vec::new()), Ok(true));
    assert_eq!(store.get(&h), Ok(Vec::new()));
}
