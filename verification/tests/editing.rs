//! Editor laws on concrete drafts, the delegation walk, and the write
//! plan.

use tuftool::deleg::{resolve, Resolution};
use tuftool::editor::TargetsEditor;
use tuftool::emit::canon_bytes_body;
use tuftool::schema::{
    DelegatedRole, Delegations, Key, PathSet, RoleBody, TargetDesc, Targets,
};
use tuftool::trust::TufError;
use tuftool::writer::{plan_metadata_writes, target_file_name};

fn b(s: &str) -> Vec<u8> {
    s.as_bytes().to_vec()
}

fn desc(len: u64) -> TargetDesc {
    TargetDesc {
        length: len,
        sha256: b("00"),
        sha512: None,
    }
}

fn editor_bytes(e: TargetsEditor) -> Vec<u8> {
    canon_bytes_body(&RoleBody::Targets(e.to_targets()))
}

#[test]
fn remove_target_is_idempotent() {
    let base = TargetsEditor::new(b("targets"))
        .add_target(b("a.txt"), desc(1))
        .unwrap()
        .add_target(b("b.txt"), desc(2))
        .unwrap();
    let once = TargetsEditor::new(b("targets"))
        .add_target(b("a.txt"), desc(1))
        .unwrap()
        .add_target(b("b.txt"), desc(2))
        .unwrap()
        .remove_target(&b("a.txt"));
    let twice = base.remove_target(&b("a.txt")).remove_target(&b("a.txt"));
    assert_eq!(editor_bytes(once), editor_bytes(twice));
}

#[test]
fn remove_absent_target_changes_nothing() {
    let a = TargetsEditor::new(b("targets"))
        .add_target(b("a.txt"), desc(1))
        .unwrap();
    let c = TargetsEditor::new(b("targets"))
        .add_target(b("a.txt"), desc(1))
        .unwrap()
        .remove_target(&b("zz"));
    assert_eq!(editor_bytes(a), editor_bytes(c));
}

fn sample_key(tag: &str) -> Key {
    Key {
        keytype: b("ed25519"),
        scheme: b("ed25519"),
        public: b(tag),
    }
}

#[test]
fn add_key_is_idempotent() {
    let once = TargetsEditor::new(b("targets"))
        .add_key(sample_key("aa"), None)
        .unwrap();
    let twice = TargetsEditor::new(b("targets"))
        .add_key(sample_key("aa"), None)
        .unwrap()
        .add_key(sample_key("aa"), None)
        .unwrap();
    assert_eq!(editor_bytes(once), editor_bytes(twice));
}

#[test]
fn add_key_to_unknown_role_fails() {
    let r = TargetsEditor::new(b("targets")).add_key(sample_key("aa"), Some(&b("nobody")));
    assert_eq!(r.err(), Some(TufError::UnknownRole));
}

fn editor_with_role() -> TargetsEditor {
    let mut ed = TargetsEditor::new(b("targets"));
    ed.delegations = Some(Delegations {
        keys: vec![],
        roles: vec![DelegatedRole {
            name: b("alpha"),
            keyids: vec![],
            paths: PathSet::Paths(vec![b("prod/*")]),
            terminating: false,
            threshold: 1,
        }],
    });
    ed
}

#[test]
fn add_then_remove_key_round_trip() {
    let ed = editor_with_role()
        .add_key(sample_key("aa"), Some(&b("alpha")))
        .unwrap()
        .add_key(sample_key("bb"), Some(&b("alpha")))
        .unwrap();
    let kid = tuftool::crypto::key_id(&sample_key("aa"));
    let ed2 = ed.remove_key(&kid, Some(&b("alpha"))).unwrap();
    match &ed2.delegations {
        Some(d) => {
            assert_eq!(d.keys.len(), 1);
            assert_eq!(d.roles[0].keyids.len(), 1);
            assert!(!d.roles[0].keyids.contains(&kid));
        }
        None => panic!("delegations expected"),
    }
}

#[test]
fn remove_key_respects_threshold() {
    let ed = editor_with_role()
        .add_key(sample_key("aa"), Some(&b("alpha")))
        .unwrap();
    let kid = tuftool::crypto::key_id(&sample_key("aa"));
    let r = ed.remove_key(&kid, Some(&b("alpha")));
    assert_eq!(r.err(), Some(TufError::ThresholdNotMet));
}

#[test]
fn version_must_move_forward() {
    let ed = TargetsEditor::new(b("targets"));
    assert_eq!(ed.set_version(0).err(), Some(TufError::VersionRollback));
    let ed = TargetsEditor::new(b("targets")).set_version(3).unwrap();
    assert_eq!(ed.version, 3);
}

fn targets_with(paths: Vec<(&str, bool)>, owned: Vec<&str>) -> Targets {
    Targets {
        delegations: if paths.is_empty() {
            None
        } else {
            Some(Delegations {
                keys: vec![],
                roles: paths
                    .into_iter()
                    .enumerate()
                    .map(|(i, (p, term))| DelegatedRole {
                        name: b(&format!("role{i}")),
                        keyids: vec![],
                        paths: PathSet::Paths(vec![b(p)]),
                        terminating: term,
                        threshold: 1,
                    })
                    .collect(),
            })
        },
        expires: b("2099-01-01T00:00:00Z"),
        targets: owned
            .into_iter()
            .map(|p| (b(p), desc(1)))
            .collect(),
        version: 1,
    }
}

#[test]
fn terminating_delegation_cuts_later_siblings() {
    // Both entries claim prod/*; only the second subtree owns the path.
    let top = targets_with(vec![("prod/*", true), ("prod/*", false)], vec![]);
    let role0 = targets_with(vec![], vec![]);
    let role1 = targets_with(vec![], vec!["prod/secret"]);
    let loaded = vec![(b("role0"), role0), (b("role1"), role1)];
    let r = resolve(&loaded, &top, &b("prod/secret"), 8);
    assert!(matches!(r, Resolution::NotFound));
    // Without the terminating flag the later sibling serves it.
    let top2 = targets_with(vec![("prod/*", false), ("prod/*", false)], vec![]);
    let r2 = resolve(&loaded, &top2, &b("prod/secret"), 8);
    assert!(matches!(r2, Resolution::Found(_)));
}

#[test]
fn resolver_reports_missing_role() {
    let top = targets_with(vec![("*", false)], vec![]);
    let loaded = vec![];
    let r = resolve(&loaded, &top, &b("thing"), 8);
    match r {
        Resolution::NeedRole(n) => assert_eq!(n, b("role0")),
        _ => panic!("expected a missing-role report"),
    }
}

#[test]
fn write_plan_names() {
    let plan = plan_metadata_writes(
        b("R"),
        1,
        b("T"),
        b("S"),
        1,
        b("G"),
        1,
        &vec![(b("alpha"), 4, b("A"))],
        true,
    );
    let names: Vec<String> = plan
        .iter()
        .map(|p| String::from_utf8(p.0.clone()).unwrap())
        .collect();
    assert_eq!(
        names,
        vec![
            "root.json",
            "1.root.json",
            "timestamp.json",
            "1.snapshot.json",
            "1.targets.json",
            "4.alpha.json"
        ]
    );
    let plan = plan_metadata_writes(
        b("R"),
        2,
        b("T"),
        b("S"),
        5,
        b("G"),
        6,
        &vec![(b("alpha"), 4, b("A"))],
        false,
    );
    let names: Vec<String> = plan
        .iter()
        .map(|p| String::from_utf8(p.0.clone()).unwrap())
        .collect();
    assert_eq!(
        names,
        vec![
            "root.json",
            "2.root.json",
            "timestamp.json",
            "snapshot.json",
            "targets.json",
            "alpha.json"
        ]
    );
}

#[test]
fn target_blob_names() {
    assert_eq!(
        target_file_name(&b("ab12"), &b("hello.txt"), true),
        b("ab12.hello.txt")
    );
    assert_eq!(
        target_file_name(&b("ab12"), &b("hello.txt"), false),
        b("hello.txt")
    );
}

#[test]
fn add_role_rejects_duplicates() {
    let entry = DelegatedRole {
        name: b("alpha"),
        keyids: vec![],
        paths: PathSet::Paths(vec![b("prod/*")]),
        terminating: false,
        threshold: 1,
    };
    let ed = editor_with_role().add_role(entry);
    assert_eq!(ed.err(), Some(TufError::DuplicateRole));
    let fresh = TargetsEditor::new(b("targets"))
        .add_role(DelegatedRole {
            name: b("alpha"),
            keyids: vec![],
            paths: PathSet::Paths(vec![b("prod/*")]),
            terminating: false,
            threshold: 1,
        })
        .unwrap();
    assert_eq!(fresh.delegations.as_ref().unwrap().roles.len(), 1);
}

#[test]
fn remove_role_direct_and_missing() {
    let ed = editor_with_role().remove_role(&b("alpha"), false).unwrap();
    assert_eq!(ed.delegations.as_ref().unwrap().roles.len(), 0);
    let r = editor_with_role().remove_role(&b("nobody"), false);
    assert_eq!(r.err(), Some(TufError::NotDirectDelegatee));
    let r = editor_with_role().remove_role(&b("nobody"), true);
    assert_eq!(r.err(), Some(TufError::UnknownRole));
}

#[test]
fn add_target_respects_ancestor_scopes() {
    let mut scoped = TargetsEditor::new(b("alpha"));
    scoped.scopes = vec![PathSet::Paths(vec![b("prod/*")])];
    let r = scoped.add_target(b("other.txt"), desc(1));
    assert_eq!(r.err(), Some(TufError::DelegationStructure));
    let mut scoped = TargetsEditor::new(b("alpha"));
    scoped.scopes = vec![PathSet::Paths(vec![b("prod/*")])];
    let ed = scoped.add_target(b("prod/x"), desc(1)).unwrap();
    assert_eq!(ed.targets.len(), 1);
}
