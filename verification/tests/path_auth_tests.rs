use rnas::paths::{DotPathBuf, InvalidPath, ExistenceClass, classify, check_path};
use rnas::credentials::CredentialStore;
use rnas::auth::{login, authorize};
use sha2::Digest;

fn seg(parts: &[&str]) -> Vec<String> {
    let mut v = Vec::new();
    for p in parts {
        v.push(String::from(*p));
    }
    v
}

fn hex_of(bytes: &[u8]) -> String {
    let mut s = String::new();
    for b in bytes {
        s.push_str(&format!("{:02x}", b));
    }
    s
}

#[test]
fn traversal_segments_are_rejected() {
    let r = DotPathBuf::from_segments(&seg(&["alice", "..", "bob"]));
    assert!(matches!(r, Err(InvalidPath::Traversal)));
    let r = DotPathBuf::from_segments(&seg(&[".."]));
    assert!(matches!(r, Err(InvalidPath::Traversal)));
}

#[test]
fn malformed_segments_are_rejected() {
    let r = DotPathBuf::from_segments(&seg(&["alice", ""]));
    assert!(matches!(r, Err(InvalidPath::Malformed)));
    let r = DotPathBuf::from_segments(&seg(&["alice", "a/b"]));
    assert!(matches!(r, Err(InvalidPath::Malformed)));
}

#[test]
fn self_references_are_permitted_and_skipped() {
    let p = DotPathBuf::from_segments(&seg(&[".", "alice", ".", "docs"])).unwrap();
    assert_eq!(p.segments(), &seg(&["alice", "docs"]));
    assert_eq!(p.depth(), 2);
    assert_eq!(p.tenant().unwrap(), "alice");
    assert_eq!(p.last_segment().unwrap(), "docs");
    assert_eq!(p.join_string(), "alice/docs");
}

#[test]
fn dot_prefixed_names_are_ordinary_segments() {
    let p = DotPathBuf::from_segments(&seg(&["alice", ".config"])).unwrap();
    assert_eq!(p.segments(), &seg(&["alice", ".config"]));
}

#[test]
fn classification_round_trip() {
    assert_eq!(classify(true, false), ExistenceClass::File);
    assert_eq!(classify(false, true), ExistenceClass::Directory);
    assert_eq!(classify(false, false), ExistenceClass::Absent);
    assert_eq!(check_path(ExistenceClass::File), (true, false));
    assert_eq!(check_path(ExistenceClass::Directory), (false, true));
    assert_eq!(check_path(ExistenceClass::Absent), (false, false));
}

fn store_with_alice_and_bob() -> CredentialStore {
    let alice_digest = hex_of(&sha2::Sha384::digest("secretalice".as_bytes()));
    let bob_digest = hex_of(&sha2::Sha384::digest("hunter2bob".as_bytes()));
    let lines = vec![
        format!("{};alice", alice_digest),
        format!("{};bob", bob_digest),
    ];
    CredentialStore::from_lines(&lines).unwrap()
}

#[test]
fn login_issues_the_digest_as_token() {
    let store = store_with_alice_and_bob();
    let (token, matched) = login(&store, "alice", "secret").unwrap();
    assert_eq!(matched, "alice");
    assert_eq!(token.value, hex_of(&sha2::Sha384::digest("secretalice".as_bytes())));
}

#[test]
fn login_fails_on_a_wrong_password() {
    let store = store_with_alice_and_bob();
    assert!(login(&store, "alice", "wrong").is_err());
    assert!(login(&store, "mallory", "secret").is_err());
}

#[test]
fn token_authorizes_own_tenant_only() {
    let store = store_with_alice_and_bob();
    let (token, _) = login(&store, "alice", "secret").unwrap();
    let own = DotPathBuf::from_segments(&seg(&["alice", "docs"])).unwrap();
    let other = DotPathBuf::from_segments(&seg(&["bob", "docs"])).unwrap();
    assert_eq!(authorize(&store, token.value.as_str(), &own).unwrap(), "alice");
    assert!(authorize(&store, token.value.as_str(), &other).is_err());
}

#[test]
fn authorize_rejects_unknown_tokens_and_empty_paths() {
    let store = store_with_alice_and_bob();
    let own = DotPathBuf::from_segments(&seg(&["alice"])).unwrap();
    assert!(authorize(&store, "deadbeef", &own).is_err());
    let empty = DotPathBuf::from_segments(&seg(&[])).unwrap();
    let (token, _) = login(&store, "alice", "secret").unwrap();
    assert!(authorize(&store, token.value.as_str(), &empty).is_err());
}

#[test]
fn credential_lines_split_at_the_first_semicolon() {
    let lines = vec![String::from("abc;alice;x")];
    let store = CredentialStore::from_lines(&lines).unwrap();
    assert_eq!(store.records.len(), 1);
    assert_eq!(store.records[0].digest, "abc");
    assert_eq!(store.records[0].username, "alice;x");
}

#[test]
fn an_unsplittable_line_fails_the_whole_load() {
    let lines = vec![String::from("abc;alice"), String::from("nosemicolon")];
    assert!(CredentialStore::from_lines(&lines).is_err());
}

#[test]
fn lookup_first_match_wins() {
    let lines = vec![String::from("dd;first"), String::from("dd;second")];
    let store = CredentialStore::from_lines(&lines).unwrap();
    assert_eq!(store.lookup("dd").unwrap(), "first");
    assert!(store.lookup("ee").is_none());
}
