//! The verified repository value: the ordered client workflow over fetched
//! bytes (root chain, timestamp, snapshot, top-level targets), and what a
//! successful load guarantees of every role it accepted.

use vstd::prelude::*;

use crate::crypto::expired_at;
use crate::crypto::is_expired;
use crate::canon::bytes_eq;
use crate::lits::s_targets_json;
use crate::lits::v_targets_json;
use crate::parse::parse_signed_document;
use crate::schema::canon_body;
use crate::schema::canon_signed;
use crate::schema::map_get;
use crate::schema::map_has;
use crate::schema::wf_root;
use crate::schema::wf_snapshot;
use crate::schema::wf_targets;
use crate::schema::MetaEntry;
use crate::schema::RoleBody;
use crate::schema::RoleBodyV;
use crate::schema::Root;
use crate::schema::RootV;
use crate::schema::Signature;
use crate::schema::SignatureV;
use crate::schema::SignedRole;
use crate::schema::SignedRoleV;
use crate::schema::Snapshot;
use crate::schema::SnapshotV;
use crate::schema::Targets;
use crate::schema::TargetsV;
use crate::schema::Timestamp;
use crate::schema::TimestampV;
use crate::trust::check_root_step;
use crate::trust::check_snapshot;
use crate::trust::check_targets;
use crate::trust::check_timestamp;
use crate::trust::count_valid;
use crate::trust::meta_entry_fits;
use crate::trust::TufError;

verus! {

/// A loaded and verified repository: the four top-level role documents and
/// their accepted signatures, under the policy it was loaded with.
pub struct Repository {
    pub root: Root,
    pub root_sigs: Vec<Signature>,
    pub timestamp: Timestamp,
    pub timestamp_sigs: Vec<Signature>,
    pub snapshot: Snapshot,
    pub snapshot_sigs: Vec<Signature>,
    pub targets: Targets,
    pub targets_sigs: Vec<Signature>,
    pub safe: bool,
    pub now: i64,
}

impl Repository {
    /// What a successful load established, and every later reader may
    /// assume: well-formed documents, the signature thresholds of the
    /// trusted root met for timestamp, snapshot and targets, and, under
    /// the safe policy, no role expired at load time.
    pub open spec fn trusted(&self) -> bool {
        &&& wf_root(self.root@)
        &&& wf_snapshot(self.snapshot@)
        &&& wf_targets(self.targets@)
        &&& count_valid(
            self.root@.keys,
            self.root@.timestamp,
            canon_body(RoleBodyV::Timestamp(self.timestamp@)),
            self.timestamp_sigs@.map_values(|s: Signature| s@),
        ) >= self.root@.timestamp.threshold
        &&& count_valid(
            self.root@.keys,
            self.root@.snapshot,
            canon_body(RoleBodyV::Snapshot(self.snapshot@)),
            self.snapshot_sigs@.map_values(|s: Signature| s@),
        ) >= self.root@.snapshot.threshold
        &&& count_valid(
            self.root@.keys,
            self.root@.targets,
            canon_body(RoleBodyV::Targets(self.targets@)),
            self.targets_sigs@.map_values(|s: Signature| s@),
        ) >= self.root@.targets.threshold
        &&& self.snapshot@.version == self.timestamp@.snapshot_meta.version
        &&& map_has(self.snapshot@.meta, s_targets_json())
        &&& self.targets@.version == map_get(self.snapshot@.meta, s_targets_json()).version
        &&& (self.safe ==> !expired_at(self.root@.expires, self.now))
        &&& (self.safe ==> !expired_at(self.timestamp@.expires, self.now))
        &&& (self.safe ==> !expired_at(self.snapshot@.expires, self.now))
        &&& (self.safe ==> !expired_at(self.targets@.expires, self.now))
    }
}

/// Whether the repository's four role documents re-encode to exactly the
/// given byte strings: what binds a load's result to its input.
pub open spec fn documents_bound(
    repo: Repository,
    root_bytes: Seq<u8>,
    ts_bytes: Seq<u8>,
    sn_bytes: Seq<u8>,
    tg_bytes: Seq<u8>,
) -> bool {
    &&& canon_signed(
        SignedRoleV {
            signatures: repo.root_sigs@.map_values(|s: Signature| s@),
            body: RoleBodyV::Root(repo.root@),
        },
    ) == root_bytes
    &&& canon_signed(
        SignedRoleV {
            signatures: repo.timestamp_sigs@.map_values(|s: Signature| s@),
            body: RoleBodyV::Timestamp(repo.timestamp@),
        },
    ) == ts_bytes
    &&& canon_signed(
        SignedRoleV {
            signatures: repo.snapshot_sigs@.map_values(|s: Signature| s@),
            body: RoleBodyV::Snapshot(repo.snapshot@),
        },
    ) == sn_bytes
    &&& canon_signed(
        SignedRoleV {
            signatures: repo.targets_sigs@.map_values(|s: Signature| s@),
            body: RoleBodyV::Targets(repo.targets@),
        },
    ) == tg_bytes
}

/// Loading is a function of the fetched bytes, up to the canonical
/// encoding: two successful loads of the same bytes yield repositories
/// whose role documents have identical canonical encodings. (Structural
/// equality of the documents would additionally need injectivity of the
/// canonical encoding, which is not proved here.)
pub proof fn lemma_load_deterministic(
    r1: Repository,
    r2: Repository,
    root_bytes: Seq<u8>,
    ts_bytes: Seq<u8>,
    sn_bytes: Seq<u8>,
    tg_bytes: Seq<u8>,
)
    requires
        documents_bound(r1, root_bytes, ts_bytes, sn_bytes, tg_bytes),
        documents_bound(r2, root_bytes, ts_bytes, sn_bytes, tg_bytes),
    ensures
        canon_signed(
            SignedRoleV {
                signatures: r1.root_sigs@.map_values(|s: Signature| s@),
                body: RoleBodyV::Root(r1.root@),
            },
        ) == canon_signed(
            SignedRoleV {
                signatures: r2.root_sigs@.map_values(|s: Signature| s@),
                body: RoleBodyV::Root(r2.root@),
            },
        ),
        canon_signed(
            SignedRoleV {
                signatures: r1.timestamp_sigs@.map_values(|s: Signature| s@),
                body: RoleBodyV::Timestamp(r1.timestamp@),
            },
        ) == canon_signed(
            SignedRoleV {
                signatures: r2.timestamp_sigs@.map_values(|s: Signature| s@),
                body: RoleBodyV::Timestamp(r2.timestamp@),
            },
        ),
        canon_signed(
            SignedRoleV {
                signatures: r1.snapshot_sigs@.map_values(|s: Signature| s@),
                body: RoleBodyV::Snapshot(r1.snapshot@),
            },
        ) == canon_signed(
            SignedRoleV {
                signatures: r2.snapshot_sigs@.map_values(|s: Signature| s@),
                body: RoleBodyV::Snapshot(r2.snapshot@),
            },
        ),
        canon_signed(
            SignedRoleV {
                signatures: r1.targets_sigs@.map_values(|s: Signature| s@),
                body: RoleBodyV::Targets(r1.targets@),
            },
        ) == canon_signed(
            SignedRoleV {
                signatures: r2.targets_sigs@.map_values(|s: Signature| s@),
                body: RoleBodyV::Targets(r2.targets@),
            },
        ),
{
}

/// Every verified repository meets each top-level role's signature
/// threshold with distinct valid signatures by authorized keys.
pub proof fn lemma_repository_thresholds(repo: &Repository)
    requires
        repo.trusted(),
    ensures
        count_valid(
            repo.root@.keys,
            repo.root@.timestamp,
            canon_body(RoleBodyV::Timestamp(repo.timestamp@)),
            repo.timestamp_sigs@.map_values(|s: Signature| s@),
        ) >= repo.root@.timestamp.threshold,
        count_valid(
            repo.root@.keys,
            repo.root@.snapshot,
            canon_body(RoleBodyV::Snapshot(repo.snapshot@)),
            repo.snapshot_sigs@.map_values(|s: Signature| s@),
        ) >= repo.root@.snapshot.threshold,
        count_valid(
            repo.root@.keys,
            repo.root@.targets,
            canon_body(RoleBodyV::Targets(repo.targets@)),
            repo.targets_sigs@.map_values(|s: Signature| s@),
        ) >= repo.root@.targets.threshold,
{
}

/// Under the safe policy, no role of a verified repository is expired at
/// the time it was loaded.
pub proof fn lemma_repository_not_expired(repo: &Repository)
    requires
        repo.trusted(),
        repo.safe,
    ensures
        !expired_at(repo.root@.expires, repo.now),
        !expired_at(repo.timestamp@.expires, repo.now),
        !expired_at(repo.snapshot@.expires, repo.now),
        !expired_at(repo.targets@.expires, repo.now),
{
}

/// Loads and verifies a repository from fetched metadata bytes, in the
/// order the client workflow fixes: trusted root, newer roots one by one,
/// timestamp, snapshot, then top-level targets. Any failed check aborts
/// the load with its error; on success every check holds of the result.
pub fn load_repository(
    trusted_root_bytes: &Vec<u8>,
    next_roots: &Vec<Vec<u8>>,
    timestamp_bytes: &Vec<u8>,
    prev_timestamp_version: u64,
    snapshot_bytes: &Vec<u8>,
    targets_bytes: &Vec<u8>,
    now: i64,
    safe: bool,
) -> (r: Result<Repository, TufError>)
    ensures
        r matches Ok(repo) ==> {
            &&& repo.trusted()
            &&& repo.safe == safe
            &&& repo.now == now
            &&& documents_bound(
                repo,
                if next_roots@.len() == 0 {
                    trusted_root_bytes@
                } else {
                    next_roots@.last()@
                },
                timestamp_bytes@,
                snapshot_bytes@,
                targets_bytes@,
            )
            &&& repo.timestamp@.version >= prev_timestamp_version
            &&& meta_entry_fits(repo.timestamp@.snapshot_meta, snapshot_bytes@) == Ok::<
                (),
                TufError,
            >(())
            &&& meta_entry_fits(
                map_get(repo.snapshot@.meta, s_targets_json()),
                targets_bytes@,
            ) == Ok::<(), TufError>(())
        },
{
    let root_doc = match parse_signed_document(trusted_root_bytes) {
        Some(d) => d,
        None => {
            return Err(TufError::Parse);
        },
    };
    let (mut root, mut root_sigs) = match root_doc {
        SignedRole { signatures, body: RoleBody::Root(rt) } => (rt, signatures),
        _ => {
            return Err(TufError::Parse);
        },
    };
    let mut i: usize = 0;
    while i < next_roots.len()
        invariant
            i <= next_roots@.len(),
            wf_root(root@),
            canon_signed(
                SignedRoleV {
                    signatures: root_sigs@.map_values(|s: Signature| s@),
                    body: RoleBodyV::Root(root@),
                },
            ) == (if i == 0 {
                trusted_root_bytes@
            } else {
                next_roots@[i - 1]@
            }),
        decreases next_roots.len() - i,
    {
        let cand = match parse_signed_document(&next_roots[i]) {
            Some(d) => d,
            None => {
                return Err(TufError::Parse);
            },
        };
        match check_root_step(&root, &cand) {
            Ok(()) => {},
            Err(e) => {
                return Err(e);
            },
        }
        match cand {
            SignedRole { signatures, body: RoleBody::Root(rt) } => {
                root = rt;
                root_sigs = signatures;
            },
            _ => {
                return Err(TufError::Parse);
            },
        }
        i = i + 1;
    }
    if safe && is_expired(&root.expires, now) {
        return Err(TufError::Expired);
    }
    let ts_doc = match parse_signed_document(timestamp_bytes) {
        Some(d) => d,
        None => {
            return Err(TufError::Parse);
        },
    };
    match check_timestamp(&root, &ts_doc, prev_timestamp_version, now, safe) {
        Ok(()) => {},
        Err(e) => {
            return Err(e);
        },
    }
    let (timestamp, timestamp_sigs) = match ts_doc {
        SignedRole { signatures, body: RoleBody::Timestamp(t) } => (t, signatures),
        _ => {
            return Err(TufError::Parse);
        },
    };
    let sn_doc = match parse_signed_document(snapshot_bytes) {
        Some(d) => d,
        None => {
            return Err(TufError::Parse);
        },
    };
    match check_snapshot(&root, &sn_doc, snapshot_bytes, &timestamp.snapshot_meta, None, now, safe)
    {
        Ok(()) => {},
        Err(e) => {
            return Err(e);
        },
    }
    let (snapshot, snapshot_sigs) = match sn_doc {
        SignedRole { signatures, body: RoleBody::Snapshot(s) } => (s, signatures),
        _ => {
            return Err(TufError::Parse);
        },
    };
    let tgt_name = v_targets_json();
    let mut tm: Option<&MetaEntry> = None;
    let mut j: usize = 0;
    while j < snapshot.meta.len()
        invariant
            j <= snapshot.meta@.len(),
            tm matches Some(m) ==> m@ == crate::schema::map_get(
                snapshot@.meta,
                crate::lits::s_targets_json(),
            ) && crate::schema::map_has(snapshot@.meta, crate::lits::s_targets_json()),
            wf_snapshot(snapshot@),
            tgt_name@ == crate::lits::s_targets_json(),
        decreases snapshot.meta.len() - j,
    {
        if tm.is_none() && bytes_eq(&snapshot.meta[j].0, &tgt_name) {
            proof {
                crate::trust::lemma_map_get_at(snapshot@.meta, j as int);
            }
            tm = Some(&snapshot.meta[j].1);
        }
        j = j + 1;
    }
    let tmeta = match tm {
        Some(m) => m,
        None => {
            return Err(TufError::Parse);
        },
    };
    let tg_doc = match parse_signed_document(targets_bytes) {
        Some(d) => d,
        None => {
            return Err(TufError::Parse);
        },
    };
    match check_targets(&root.keys, &root.targets, &tg_doc, targets_bytes, tmeta, now, safe) {
        Ok(()) => {},
        Err(e) => {
            return Err(e);
        },
    }
    let (targets, targets_sigs) = match tg_doc {
        SignedRole { signatures, body: RoleBody::Targets(t) } => (t, signatures),
        _ => {
            return Err(TufError::Parse);
        },
    };
    Ok(
        Repository {
            root,
            root_sigs,
            timestamp,
            timestamp_sigs,
            snapshot,
            snapshot_sigs,
            targets,
            targets_sigs,
            safe,
            now,
        },
    )
}

/// Verifies a fetched target body against its descriptor: the byte count
/// must equal the declared length, and every declared digest must match.
pub fn verify_target_bytes(desc: &crate::schema::TargetDesc, bytes: &Vec<u8>) -> (r: Result<
    (),
    TufError,
>)
    ensures
        r == if bytes@.len() != desc@.length {
            Err::<(), TufError>(TufError::LengthExceeded)
        } else if crate::hex::hex_of(crate::crypto::sha256_of(bytes@)) != desc@.sha256 {
            Err::<(), TufError>(TufError::HashMismatch)
        } else if match desc@.sha512 {
            Some(h) => crate::hex::hex_of(crate::crypto::sha512_of(bytes@)) != h,
            None => false,
        } {
            Err::<(), TufError>(TufError::HashMismatch)
        } else {
            Ok::<(), TufError>(())
        },
{
    if bytes.len() as u64 != desc.length {
        return Err(TufError::LengthExceeded);
    }
    let d = crate::crypto::sha256(bytes);
    let hx = crate::hex::encode_hex(&d);
    if !bytes_eq(&hx, &desc.sha256) {
        return Err(TufError::HashMismatch);
    }
    match &desc.sha512 {
        Some(h) => {
            let d2 = crate::crypto::sha512(bytes);
            let hx2 = crate::hex::encode_hex(&d2);
            if !bytes_eq(&hx2, h) {
                return Err(TufError::HashMismatch);
            }
        },
        None => {},
    }
    Ok(())
}

/// The descriptor of a target body: its byte count and SHA-256 digest in
/// lowercase hex. The per-file computation behind target ingest.
pub fn descriptor_for(bytes: &Vec<u8>) -> (r: crate::schema::TargetDesc)
    ensures
        r@.length == bytes@.len(),
        r@.sha256 == crate::hex::hex_of(crate::crypto::sha256_of(bytes@)),
        r@.sha512 is None,
{
    let d = crate::crypto::sha256(bytes);
    crate::schema::TargetDesc { length: bytes.len() as u64, sha256: crate::hex::encode_hex(&d), sha512: None }
}

} // verus!
