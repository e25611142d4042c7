//! The trust engine and loader over real Ed25519 signatures.

use ring::signature::{Ed25519KeyPair, KeyPair};
use tuftool::crypto::{is_expired, key_id};
use tuftool::editor::{attach_signatures, build_snapshot, build_timestamp};
use tuftool::emit::{canon_bytes_body, canon_bytes_signed};
use tuftool::hex::encode_hex;
use tuftool::repo::{load_repository, verify_target_bytes};
use tuftool::schema::{
    Key, MetaEntry, RoleBody, RoleKeys, Root, Signature, SignedRole, Snapshot, TargetDesc, Targets,
    Timestamp,
};
use tuftool::trust::{check_timestamp, enforce_length_limit, TufError};

fn b(s: &str) -> Vec<u8> {
    s.as_bytes().to_vec()
}

struct TestKey {
    pair: Ed25519KeyPair,
    key: Key,
    kid: Vec<u8>,
}

fn make_key() -> TestKey {
    let rng = ring::rand::SystemRandom::new();
    let pkcs8 = Ed25519KeyPair::generate_pkcs8(&rng).unwrap();
    let pair = Ed25519KeyPair::from_pkcs8(pkcs8.as_ref()).unwrap();
    let public = encode_hex(&pair.public_key().as_ref().to_vec());
    let key = Key {
        keytype: b("ed25519"),
        scheme: b("ed25519"),
        public,
    };
    let kid = key_id(&key);
    TestKey { pair, key, kid }
}

fn copy_key(k: &Key) -> Key {
    Key {
        keytype: k.keytype.clone(),
        scheme: k.scheme.clone(),
        public: k.public.clone(),
    }
}

fn root_for(k: &TestKey, threshold: u64) -> Root {
    let role = || RoleKeys {
        keyids: vec![k.kid.clone()],
        threshold,
    };
    Root {
        consistent_snapshot: true,
        expires: b("2099-01-01T00:00:00Z"),
        keys: vec![(k.kid.clone(), copy_key(&k.key))],
        root: role(),
        snapshot: role(),
        targets: role(),
        timestamp: role(),
        version: 1,
    }
}

fn sign_body(k: &TestKey, body: &RoleBody) -> Signature {
    let msg = canon_bytes_body(body);
    let sig = k.pair.sign(&msg);
    Signature {
        keyid: k.kid.clone(),
        sig: encode_hex(&sig.as_ref().to_vec()),
    }
}

fn timestamp_body(version: u64) -> RoleBody {
    RoleBody::Timestamp(Timestamp {
        expires: b("2099-01-01T00:00:00Z"),
        snapshot_meta: MetaEntry {
            sha256: None,
            length: None,
            version: 1,
        },
        version,
    })
}

#[test]
fn timestamp_accepts_valid_signature() {
    let k = make_key();
    let root = root_for(&k, 1);
    let body = timestamp_body(3);
    let sig = sign_body(&k, &body);
    let doc = SignedRole {
        signatures: vec![sig],
        body,
    };
    assert_eq!(check_timestamp(&root, &doc, 0, 0, true), Ok(()));
}

#[test]
fn timestamp_rollback_is_refused() {
    let k = make_key();
    let root = root_for(&k, 1);
    let body = timestamp_body(4);
    let sig = sign_body(&k, &body);
    let doc = SignedRole {
        signatures: vec![sig],
        body,
    };
    assert_eq!(
        check_timestamp(&root, &doc, 5, 0, true),
        Err(TufError::VersionRollback)
    );
}

#[test]
fn threshold_two_with_one_key_fails() {
    let k = make_key();
    let root = root_for(&k, 2);
    let body = timestamp_body(1);
    let sig = sign_body(&k, &body);
    let doc = SignedRole {
        signatures: vec![sig],
        body,
    };
    assert_eq!(
        check_timestamp(&root, &doc, 0, 0, true),
        Err(TufError::ThresholdNotMet)
    );
}

#[test]
fn tampered_signature_does_not_count() {
    let k = make_key();
    let root = root_for(&k, 1);
    let body = timestamp_body(1);
    let mut sig = sign_body(&k, &body);
    sig.sig[0] = if sig.sig[0] == b'0' { b'1' } else { b'0' };
    let doc = SignedRole {
        signatures: vec![sig],
        body,
    };
    assert_eq!(
        check_timestamp(&root, &doc, 0, 0, true),
        Err(TufError::ThresholdNotMet)
    );
}

#[test]
fn expired_metadata_is_refused_under_safe() {
    let now = 4102444800i64; // 2100-01-01T00:00:00Z
    assert!(is_expired(&b("2099-01-01T00:00:00Z"), now));
    assert!(!is_expired(&b("2099-01-01T00:00:00Z"), 0));
    let k = make_key();
    let root = root_for(&k, 1);
    let body = timestamp_body(1);
    let sig = sign_body(&k, &body);
    let doc = SignedRole {
        signatures: vec![sig],
        body,
    };
    assert_eq!(check_timestamp(&root, &doc, 0, now, true), Err(TufError::Expired));
    assert_eq!(check_timestamp(&root, &doc, 0, now, false), Ok(()));
}

#[test]
fn length_cap_fires_one_byte_over() {
    let body = vec![0u8; 11];
    assert_eq!(enforce_length_limit(&body, 10), Err(TufError::LengthExceeded));
    let body = vec![0u8; 10];
    assert_eq!(enforce_length_limit(&body, 10), Ok(()));
}

#[test]
fn target_bytes_checked_against_descriptor() {
    let body = b("hi\n");
    let digest = tuftool::crypto::sha256(&body);
    let desc = TargetDesc {
        length: 3,
        sha256: encode_hex(&digest),
        sha512: None,
    };
    assert_eq!(verify_target_bytes(&desc, &body), Ok(()));
    assert_eq!(
        encode_hex(&digest),
        b("98ea6e4f216f2fb4b69fff9b3a44842c38686ca685f3f55dc48c5d3fb1107be4")
    );
    let wrong = b("hi!");
    assert_eq!(
        verify_target_bytes(&desc, &wrong),
        Err(TufError::HashMismatch)
    );
    let long = b("hi\n\n");
    assert_eq!(
        verify_target_bytes(&desc, &long),
        Err(TufError::LengthExceeded)
    );
}

fn full_repo_bytes(k: &TestKey) -> (Vec<u8>, Vec<u8>, Vec<u8>, Vec<u8>) {
    let root = root_for(k, 1);
    let root_body = RoleBody::Root(root);
    let root_sig = sign_body(k, &root_body);
    let root_doc = SignedRole {
        signatures: vec![root_sig],
        body: root_body,
    };
    let root_bytes = canon_bytes_signed(&root_doc);

    let targets_body = RoleBody::Targets(Targets {
        delegations: None,
        expires: b("2099-01-01T00:00:00Z"),
        targets: vec![],
        version: 1,
    });
    let targets_sig = sign_body(k, &targets_body);
    let targets_doc = SignedRole {
        signatures: vec![targets_sig],
        body: targets_body,
    };
    let targets_bytes = canon_bytes_signed(&targets_doc);

    let snapshot = build_snapshot(&vec![(b("targets"), 1, targets_bytes.clone())], 1, b("2099-01-01T00:00:00Z"));
    let snapshot_body = RoleBody::Snapshot(snapshot);
    let snapshot_sig = sign_body(k, &snapshot_body);
    let snapshot_doc = SignedRole {
        signatures: vec![snapshot_sig],
        body: snapshot_body,
    };
    let snapshot_bytes = canon_bytes_signed(&snapshot_doc);

    let timestamp = build_timestamp(&snapshot_bytes, 1, 1, b("2099-01-01T00:00:00Z"));
    let timestamp_body = RoleBody::Timestamp(timestamp);
    let timestamp_sig = sign_body(k, &timestamp_body);
    let timestamp_doc = SignedRole {
        signatures: vec![timestamp_sig],
        body: timestamp_body,
    };
    let timestamp_bytes = canon_bytes_signed(&timestamp_doc);

    (root_bytes, timestamp_bytes, snapshot_bytes, targets_bytes)
}

#[test]
fn load_succeeds_and_is_deterministic() {
    let k = make_key();
    let (root_bytes, timestamp_bytes, snapshot_bytes, targets_bytes) = full_repo_bytes(&k);
    let repo1 = load_repository(
        &root_bytes,
        &vec![],
        &timestamp_bytes,
        0,
        &snapshot_bytes,
        &targets_bytes,
        0,
        true,
    )
    .expect("load succeeds");
    let repo2 = load_repository(
        &root_bytes,
        &vec![],
        &timestamp_bytes,
        0,
        &snapshot_bytes,
        &targets_bytes,
        0,
        true,
    )
    .expect("load succeeds again");
    let doc1 = SignedRole {
        signatures: repo1.targets_sigs,
        body: RoleBody::Targets(repo1.targets),
    };
    let doc2 = SignedRole {
        signatures: repo2.targets_sigs,
        body: RoleBody::Targets(repo2.targets),
    };
    assert_eq!(canon_bytes_signed(&doc1), canon_bytes_signed(&doc2));
    assert_eq!(canon_bytes_signed(&doc1), targets_bytes);
}

#[test]
fn snapshot_and_timestamp_cover_written_documents() {
    let k = make_key();
    let (_root, timestamp_bytes, snapshot_bytes, targets_bytes) = full_repo_bytes(&k);
    let ts_doc = tuftool::parse::parse_signed_document(&timestamp_bytes).unwrap();
    match ts_doc.body {
        RoleBody::Timestamp(t) => {
            assert_eq!(t.snapshot_meta.version, 1);
            let digest = tuftool::crypto::sha256(&snapshot_bytes);
            assert_eq!(t.snapshot_meta.sha256, Some(encode_hex(&digest)));
            assert_eq!(t.snapshot_meta.length, Some(snapshot_bytes.len() as u64));
        }
        _ => panic!("timestamp expected"),
    }
    let sn_doc = tuftool::parse::parse_signed_document(&snapshot_bytes).unwrap();
    match sn_doc.body {
        RoleBody::Snapshot(s) => {
            assert_eq!(s.meta.len(), 1);
            assert_eq!(s.meta[0].0, b("targets.json"));
            assert_eq!(s.meta[0].1.version, 1);
            let digest = tuftool::crypto::sha256(&targets_bytes);
            assert_eq!(s.meta[0].1.sha256, Some(encode_hex(&digest)));
        }
        _ => panic!("snapshot expected"),
    }
}

#[test]
fn attach_signatures_enforces_threshold() {
    let k = make_key();
    let root = root_for(&k, 1);
    let body = timestamp_body(1);
    let sig = sign_body(&k, &body);
    let role = RoleKeys {
        keyids: vec![k.kid.clone()],
        threshold: 1,
    };
    let signed = attach_signatures(body, vec![sig], &root.keys, &role).expect("threshold met");
    assert_eq!(signed.signatures.len(), 1);

    let body2 = timestamp_body(2);
    let stranger = make_key();
    let bad = sign_body(&stranger, &body2);
    let r = attach_signatures(body2, vec![bad], &root.keys, &role);
    assert_eq!(r.err(), Some(TufError::ThresholdNotMet));
}

#[test]
fn declared_sha512_is_checked() {
    let body = b("hi\n");
    let d256 = tuftool::crypto::sha256(&body);
    let d512 = tuftool::crypto::sha512(&body);
    let good = TargetDesc {
        length: 3,
        sha256: encode_hex(&d256),
        sha512: Some(encode_hex(&d512)),
    };
    assert_eq!(verify_target_bytes(&good, &body), Ok(()));
    let mut wrong_hex = encode_hex(&d512);
    wrong_hex[0] = if wrong_hex[0] == b'0' { b'1' } else { b'0' };
    let bad = TargetDesc {
        length: 3,
        sha256: encode_hex(&d256),
        sha512: Some(wrong_hex),
    };
    assert_eq!(
        verify_target_bytes(&bad, &body),
        Err(TufError::HashMismatch)
    );
}

#[test]
fn descriptor_for_matches_verification() {
    let body = b("hello");
    let desc = tuftool::repo::descriptor_for(&body);
    assert_eq!(desc.length, 5);
    assert_eq!(verify_target_bytes(&desc, &body), Ok(()));
}
