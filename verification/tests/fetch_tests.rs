use jlo::digest::sha256_hex;
use jlo::fetch::{fetch, fetch_bytes, FetchError, Fetcher};
use sha2::Digest;

const HELLO_SHA256: &str = "2cf24dba5fb0a30e26e83b2ac5b9e29e1b161e5c1fa7425e73043362938b9824";
const WORLD_SHA256: &str = "486ea46224d1bb4fb680f34f7c9ad96a8f24ec88be73ea8e5a6c65260e9cb8a7";
const EMPTY_SHA256: &str = "e3b0c44298fc1c149afbf4c8996fb92427ae41e4649b934ca495991b7852b855";

#[test]
fn single_shot_digest_matches_known_values() {
    assert_eq!(sha256_hex(&b"hello".to_vec()), HELLO_SHA256);
    assert_eq!(sha256_hex(&Vec::new()), EMPTY_SHA256);
}

#[test]
fn single_shot_digest_matches_sha2_directly() {
    let mut h = sha2::Sha256::new();
    h.update(b"some archive bytes");
    let direct = hex::encode(h.finalize().as_slice());
    assert_eq!(sha256_hex(&b"some archive bytes".to_vec()), direct);
}

#[test]
fn chunked_digest_equals_single_shot() {
    let chunks = vec![b"he".to_vec(), b"l".to_vec(), Vec::new(), b"lo".to_vec()];
    let expected = sha256_hex(&b"hello".to_vec());
    let r = fetch_bytes("demo", &expected, Some(5), &chunks);
    assert_eq!(r, Ok(b"hello".to_vec()));
}

#[test]
fn fetch_succeeds_on_matching_digest() {
    let chunks = vec![b"hello".to_vec()];
    let r = fetch_bytes("demo", HELLO_SHA256, Some(5), &chunks);
    assert_eq!(r, Ok(b"hello".to_vec()));
}

#[test]
fn fetch_reports_mismatch_with_both_digests() {
    let chunks = vec![b"hello".to_vec()];
    let r = fetch_bytes("demo", WORLD_SHA256, Some(5), &chunks);
    assert_eq!(
        r,
        Err(FetchError::DigestMismatch {
            expected: String::from(WORLD_SHA256),
            actual: String::from(HELLO_SHA256),
        })
    );
}

#[test]
fn fetch_rejects_missing_length_before_any_byte() {
    let chunks = vec![b"hello".to_vec()];
    let r = fetch_bytes("demo", HELLO_SHA256, None, &chunks);
    assert_eq!(r, Err(FetchError::MissingLength));
}

#[test]
fn fetcher_steps_track_the_stream() {
    let mut f = Fetcher::begin("demo", String::from(HELLO_SHA256), Some(5)).unwrap();
    f.consume(b"he");
    f.consume(b"llo");
    assert_eq!(f.finish(), Ok(5));
}

#[test]
fn fetcher_begin_rejects_missing_length() {
    let r = Fetcher::begin("demo", String::from(HELLO_SHA256), None);
    match r {
        Ok(_) => panic!("a fetch without a content length must be rejected"),
        Err(e) => assert_eq!(e, FetchError::MissingLength),
    }
}

#[test]
fn streaming_fetch_writes_sink_and_verifies() {
    let mut source = std::io::Cursor::new(b"hello".to_vec());
    let mut sink: Vec<u8> = Vec::new();
    let r = fetch("demo", HELLO_SHA256, Some(5), &mut source, &mut sink);
    assert_eq!(r, Ok(5));
    assert_eq!(sink, b"hello".to_vec());
}

struct FailingReader;

impl std::io::Read for FailingReader {
    fn read(&mut self, _buf: &mut [u8]) -> std::io::Result<usize> {
        Err(std::io::Error::other("connection reset"))
    }
}

#[test]
fn streaming_fetch_surfaces_read_failures() {
    let mut source = FailingReader;
    let mut sink: Vec<u8> = Vec::new();
    let r = fetch("demo", HELLO_SHA256, Some(5), &mut source, &mut sink);
    assert!(matches!(r, Err(FetchError::Transport { .. })));
    assert!(sink.is_empty());
}

#[test]
fn streaming_fetch_reports_mismatch() {
    let mut source = std::io::Cursor::new(b"hello".to_vec());
    let mut sink: Vec<u8> = Vec::new();
    let r = fetch("demo", WORLD_SHA256, Some(5), &mut source, &mut sink);
    assert_eq!(
        r,
        Err(FetchError::DigestMismatch {
            expected: String::from(WORLD_SHA256),
            actual: String::from(HELLO_SHA256),
        })
    );
    // The bytes were still delivered to the sink before the check.
    assert_eq!(sink, b"hello".to_vec());
}
