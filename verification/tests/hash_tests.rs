use edgedb_pkg::errors::Error;
use edgedb_pkg::hashing::{hash_bytes, valid_hash, DownloadHasher};
use edgedb_pkg::repository::PackageHash;

const BLAKE2B_EMPTY: &str = "786a02f742015903c6c6fd852552d272912f4740e15847618a86e217f71f5419d25e1031afee585313896444934eb04b903a685b1448b755d56f701afe9be2ce";

#[test]
fn valid_hash_accepts_128_hex() {
    let lower = "a".repeat(128);
    assert!(valid_hash(&lower));
    let upper = "F".repeat(128);
    assert!(valid_hash(&upper));
    let mixed = format!("{}{}", "0123456789abcdefABCDEF".repeat(5), "012345678901234567");
    assert_eq!(mixed.len(), 128);
    assert!(valid_hash(&mixed));
    assert!(valid_hash(BLAKE2B_EMPTY));
}

#[test]
fn valid_hash_rejects_wrong_length() {
    assert!(!valid_hash(""));
    assert!(!valid_hash(&"a".repeat(127)));
    assert!(!valid_hash(&"a".repeat(129)));
    assert!(!valid_hash(&"a".repeat(130)));
    assert!(!valid_hash(&"a".repeat(64)));
}

#[test]
fn valid_hash_rejects_non_hex() {
    let mut s = "a".repeat(127);
    s.push('g');
    assert!(!valid_hash(&s));
    let spaced = format!("{} {}", "a".repeat(64), "a".repeat(63));
    assert_eq!(spaced.len(), 128);
    assert!(!valid_hash(&spaced));
}

#[test]
fn empty_digest_matches_known_vector() {
    let hasher = DownloadHasher::new();
    let digest = hasher.finish();
    assert_eq!(hex::encode(&digest), BLAKE2B_EMPTY);
}

#[test]
fn chunked_digest_matches_whole_input() {
    // a fixture of known bytes, fed in stream-sized chunks
    let fixture: Vec<u8> = (0u32..100_000).map(|i| (i % 251) as u8).collect();
    let mut hasher = DownloadHasher::new();
    for chunk in fixture.chunks(16384) {
        hasher.push_chunk(chunk);
    }
    let digest = hasher.finish();
    assert_eq!(digest.len(), 64);

    let expected = blake2b_simd::blake2b(&fixture);
    assert_eq!(digest.as_slice(), expected.as_bytes());
    assert_eq!(digest, hash_bytes(&fixture));
}

#[test]
fn hash_from_text() {
    let hex128 = "0123456789abcdef".repeat(8);
    let tagged = format!("blake2b:{}", hex128);
    assert_eq!(
        PackageHash::from_text(&tagged),
        Ok(PackageHash::Blake2b(hex128.clone()))
    );
    assert_eq!(
        PackageHash::from_text(&format!("blake2b:{}", "a".repeat(130))),
        Err(Error::InvalidHashFormat)
    );
    assert_eq!(
        PackageHash::from_text(&format!("blake2b:{}", "a".repeat(127))),
        Err(Error::InvalidHashFormat)
    );
    assert_eq!(
        PackageHash::from_text("sha256:abcdef"),
        Ok(PackageHash::Unknown(String::from("sha256:abcdef")))
    );
}

#[test]
fn hash_to_text() {
    let hex128 = "0123456789abcdef".repeat(8);
    assert_eq!(
        PackageHash::Blake2b(hex128.clone()).to_text(),
        format!("blake2b:{}", hex128)
    );
    assert_eq!(
        PackageHash::Unknown(String::from("sha256:xyz")).to_text(),
        "sha256:xyz"
    );
    let round = PackageHash::from_text(&PackageHash::Blake2b(hex128.clone()).to_text());
    assert_eq!(round, Ok(PackageHash::Blake2b(hex128)));
}

#[test]
fn hash_short_forms() {
    let hex128 = "0123456789abcdef".repeat(8);
    assert_eq!(PackageHash::Blake2b(hex128).short(), "0123456");
    assert_eq!(
        PackageHash::Unknown(String::from("sha256:abcdefghij")).short(),
        "abcdefg"
    );
    assert_eq!(PackageHash::Unknown(String::from("abc")).short(), "abc");
    assert_eq!(PackageHash::Unknown(String::from("")).short(), "");
    assert_eq!(PackageHash::Unknown(String::from("sha:ab")).short(), "ab");
}
