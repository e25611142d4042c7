//! Canonical encoding and byte-exact parsing.

use tuftool::emit::canon_bytes_signed;
use tuftool::hex::{decode_hex, encode_hex};
use tuftool::parse::parse_signed_document;
use tuftool::schema::{
    DelegatedRole, Delegations, Key, MetaEntry, PathSet, RoleBody, RoleKeys, Root, SignedRole,
    Snapshot, TargetDesc, Targets, Timestamp,
};

fn b(s: &str) -> Vec<u8> {
    s.as_bytes().to_vec()
}

fn sample_key() -> Key {
    Key {
        keytype: b("ed25519"),
        scheme: b("ed25519"),
        public: b("aa11"),
    }
}

fn sample_root() -> Root {
    let role = |kid: &str| RoleKeys {
        keyids: vec![b(kid)],
        threshold: 1,
    };
    Root {
        consistent_snapshot: true,
        expires: b("2099-01-01T00:00:00Z"),
        keys: vec![(b("e1"), sample_key())],
        root: role("e1"),
        snapshot: role("e1"),
        targets: role("e1"),
        timestamp: role("e1"),
        version: 1,
    }
}

#[test]
fn hex_round_trip() {
    let v = vec![0u8, 15, 16, 255, 171];
    let e = encode_hex(&v);
    assert_eq!(e, b("000f10ffab"));
    let d = decode_hex(&e).unwrap();
    assert_eq!(d, v);
}

#[test]
fn hex_rejects_bad_input() {
    assert!(decode_hex(&b("abc")).is_none());
    assert!(decode_hex(&b("zz")).is_none());
    assert!(decode_hex(&b("AB")).is_none());
}

#[test]
fn root_parse_canonicalize_byte_equal() {
    let doc = SignedRole {
        signatures: vec![],
        body: RoleBody::Root(sample_root()),
    };
    let bytes = canon_bytes_signed(&doc);
    let parsed = parse_signed_document(&bytes).expect("canonical root parses");
    let again = canon_bytes_signed(&parsed);
    assert_eq!(again, bytes);
}

#[test]
fn canonical_root_shape() {
    let doc = SignedRole {
        signatures: vec![],
        body: RoleBody::Root(sample_root()),
    };
    let bytes = canon_bytes_signed(&doc);
    let text = String::from_utf8(bytes).unwrap();
    let mut expected = String::new();
    expected.push_str("{\"signatures\":[],\"signed\":{\"_type\":\"root\",\"consistent_snapshot\":true,");
    expected.push_str("\"expires\":\"2099-01-01T00:00:00Z\",");
    expected.push_str("\"keys\":{\"e1\":{\"keytype\":\"ed25519\",\"keyval\":{\"public\":\"aa11\"},\"scheme\":\"ed25519\"}},");
    expected.push_str("\"roles\":{\"root\":{\"keyids\":[\"e1\"],\"threshold\":1},");
    expected.push_str("\"snapshot\":{\"keyids\":[\"e1\"],\"threshold\":1},");
    expected.push_str("\"targets\":{\"keyids\":[\"e1\"],\"threshold\":1},");
    expected.push_str("\"timestamp\":{\"keyids\":[\"e1\"],\"threshold\":1}},");
    expected.push_str("\"spec_version\":\"1.0.0\",\"version\":1}}");
    assert_eq!(text, expected);
}

#[test]
fn timestamp_and_snapshot_round_trip() {
    let ts = SignedRole {
        signatures: vec![],
        body: RoleBody::Timestamp(Timestamp {
            expires: b("2099-01-01T00:00:00Z"),
            snapshot_meta: MetaEntry {
                sha256: Some(b("00ff")),
                length: Some(123),
                version: 7,
            },
            version: 7,
        }),
    };
    let bytes = canon_bytes_signed(&ts);
    let parsed = parse_signed_document(&bytes).expect("canonical timestamp parses");
    assert_eq!(canon_bytes_signed(&parsed), bytes);

    let sn = SignedRole {
        signatures: vec![],
        body: RoleBody::Snapshot(Snapshot {
            expires: b("2099-01-01T00:00:00Z"),
            meta: vec![
                (
                    b("role1.json"),
                    MetaEntry {
                        sha256: None,
                        length: None,
                        version: 2,
                    },
                ),
                (
                    b("targets.json"),
                    MetaEntry {
                        sha256: Some(b("ab"),),
                        length: Some(9),
                        version: 3,
                    },
                ),
            ],
            version: 4,
        }),
    };
    let bytes = canon_bytes_signed(&sn);
    let parsed = parse_signed_document(&bytes).expect("canonical snapshot parses");
    assert_eq!(canon_bytes_signed(&parsed), bytes);
}

#[test]
fn targets_with_delegations_round_trip() {
    let tg = SignedRole {
        signatures: vec![],
        body: RoleBody::Targets(Targets {
            delegations: Some(Delegations {
                keys: vec![(b("e1"), sample_key())],
                roles: vec![
                    DelegatedRole {
                        name: b("alpha"),
                        keyids: vec![b("e1")],
                        paths: PathSet::Paths(vec![b("prod/*")]),
                        terminating: true,
                        threshold: 1,
                    },
                    DelegatedRole {
                        name: b("beta"),
                        keyids: vec![b("e1")],
                        paths: PathSet::HashPrefixes(vec![b("ab"), b("cd")]),
                        terminating: false,
                        threshold: 1,
                    },
                ],
            }),
            expires: b("2099-01-01T00:00:00Z"),
            targets: vec![(
                b("hello.txt"),
                TargetDesc {
                    length: 3,
                    sha256: b("00aa"),
                    sha512: Some(b("bb")),
                },
            )],
            version: 2,
        }),
    };
    let bytes = canon_bytes_signed(&tg);
    let parsed = parse_signed_document(&bytes).expect("canonical targets parses");
    assert_eq!(canon_bytes_signed(&parsed), bytes);
}

#[test]
fn parser_rejects_unsorted_keys() {
    let sn = SignedRole {
        signatures: vec![],
        body: RoleBody::Snapshot(Snapshot {
            expires: b("2099-01-01T00:00:00Z"),
            meta: vec![
                (
                    b("zz.json"),
                    MetaEntry {
                        sha256: None,
                        length: None,
                        version: 1,
                    },
                ),
                (
                    b("aa.json"),
                    MetaEntry {
                        sha256: None,
                        length: None,
                        version: 1,
                    },
                ),
            ],
            version: 1,
        }),
    };
    let bytes = canon_bytes_signed(&sn);
    assert!(parse_signed_document(&bytes).is_none());
}

#[test]
fn parser_rejects_trailing_bytes() {
    let doc = SignedRole {
        signatures: vec![],
        body: RoleBody::Root(sample_root()),
    };
    let mut bytes = canon_bytes_signed(&doc);
    bytes.push(b' ');
    assert!(parse_signed_document(&bytes).is_none());
}

#[test]
fn string_escapes_round_trip() {
    let tg = SignedRole {
        signatures: vec![],
        body: RoleBody::Targets(Targets {
            delegations: None,
            expires: b("x"),
            targets: vec![(
                {
                    let mut p = b("a\"b\\c");
                    p.push(0x01);
                    p
                },
                TargetDesc {
                    length: 0,
                    sha256: b("00"),
                    sha512: None,
                },
            )],
            version: 1,
        }),
    };
    let bytes = canon_bytes_signed(&tg);
    let text = String::from_utf8(bytes.clone()).unwrap();
    assert!(text.contains("a\\\"b\\\\c\\u0001"));
    let parsed = parse_signed_document(&bytes).expect("escaped path parses");
    assert_eq!(canon_bytes_signed(&parsed), bytes);
}
