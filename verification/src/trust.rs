//! The trust engine of the client workflow: counting distinct valid
//! signatures by authorized keys, the ordered per-role checks of the TUF
//! load (root chain, timestamp, snapshot, targets, delegated targets), and
//! the verified `Repository` value those checks produce.

use vstd::prelude::*;

use crate::canon::bytes_eq;
use crate::canon::lex_lt;
use crate::crypto::expired_at;
use crate::crypto::is_expired;
use crate::crypto::check_sig;
use crate::crypto::sha256;
use crate::crypto::sha256_of;
use crate::crypto::sig_valid;
use crate::emit::canon_bytes_body;
use crate::hex::encode_hex;
use crate::hex::hex_of;
use crate::parse::lemma_lex_lt_trans;
use crate::schema::canon_body;
use crate::schema::map_get;
use crate::schema::map_has;
use crate::schema::sorted_keys;
use crate::schema::wf_body;
use crate::schema::wf_root;
use crate::schema::wf_snapshot;
use crate::schema::wf_targets;
use crate::schema::Key;
use crate::schema::KeyV;
use crate::schema::MetaEntry;
use crate::schema::MetaEntryV;
use crate::schema::RoleBody;
use crate::schema::RoleBodyV;
use crate::schema::RoleKeys;
use crate::schema::RoleKeysV;
use crate::schema::Root;
use crate::schema::RootV;
use crate::schema::Signature;
use crate::schema::SignatureV;
use crate::schema::SignedRole;
use crate::schema::SignedRoleV;
use crate::schema::Snapshot;
use crate::schema::SnapshotV;
use crate::schema::Targets;
use crate::schema::TargetsV;
use crate::schema::Timestamp;

verus! {

/// The error taxonomy of the engine. Every failure of a verified operation
/// is one of these kinds.
#[derive(Clone, Copy, Debug, PartialEq, Eq, Structural)]
pub enum TufError {
    Transport,
    Parse,
    Canonicalization,
    Crypto,
    ThresholdNotMet,
    SignatureInvalid,
    VersionRollback,
    LengthExceeded,
    HashMismatch,
    Expired,
    TargetNotFound,
    DuplicateRole,
    UnknownRole,
    NotDirectDelegatee,
    DelegationStructure,
    Filesystem,
    UnsupportedKeyType,
}

/// Strict order is irreflexive.
pub proof fn lemma_lex_lt_irrefl(a: Seq<u8>)
    ensures
        !lex_lt(a, a),
    decreases a.len(),
{
    if a.len() > 0 {
        lemma_lex_lt_irrefl(a.drop_first());
    }
}

/// In a map with strictly ascending keys, the value bound to a key is the
/// value at any index holding that key.
pub proof fn lemma_map_get_at<V>(s: Seq<(Seq<u8>, V)>, ix: int)
    requires
        sorted_keys(s),
        0 <= ix < s.len(),
    ensures
        map_has(s, s[ix].0),
        map_get(s, s[ix].0) == s[ix].1,
{
    let k = s[ix].0;
    assert(map_has(s, k));
    assert forall|t: int| 0 <= t < s.len() && (#[trigger] s[t]).0 == k implies s[t].1 == s[ix].1 by {
        if t != ix {
            if t < ix {
                assert(lex_lt(s[t].0, s[ix].0));
            } else {
                assert(lex_lt(s[ix].0, s[t].0));
            }
            assert(lex_lt(k, k));
            lemma_lex_lt_irrefl(k);
        }
    }
    assert(map_get(s, k) == s[ix].1);
}

/// Whether signature `i` counts: by an authorized key that the key map
/// holds, valid over the message, and the first signature by that key.
pub open spec fn valid_sig_at(
    keys: Seq<(Seq<u8>, KeyV)>,
    role: RoleKeysV,
    msg: Seq<u8>,
    sigs: Seq<SignatureV>,
    i: int,
) -> bool {
    &&& 0 <= i < sigs.len()
    &&& role.keyids.contains(sigs[i].keyid)
    &&& map_has(keys, sigs[i].keyid)
    &&& sig_valid(map_get(keys, sigs[i].keyid), msg, sigs[i].sig)
    &&& forall|j: int| 0 <= j < i ==> (#[trigger] sigs[j]).keyid != sigs[i].keyid
}

/// The number of distinct valid signatures among the first `n`.
pub open spec fn count_valid_upto(
    keys: Seq<(Seq<u8>, KeyV)>,
    role: RoleKeysV,
    msg: Seq<u8>,
    sigs: Seq<SignatureV>,
    n: int,
) -> nat
    decreases n,
{
    if n <= 0 {
        0
    } else {
        count_valid_upto(keys, role, msg, sigs, n - 1) + (if valid_sig_at(
            keys,
            role,
            msg,
            sigs,
            n - 1,
        ) {
            1nat
        } else {
            0nat
        })
    }
}

/// The number of distinct valid signatures by authorized keys over `msg`.
pub open spec fn count_valid(
    keys: Seq<(Seq<u8>, KeyV)>,
    role: RoleKeysV,
    msg: Seq<u8>,
    sigs: Seq<SignatureV>,
) -> nat {
    count_valid_upto(keys, role, msg, sigs, sigs.len() as int)
}

/// Whether a role assignment's threshold is met over a body's canonical
/// bytes.
pub open spec fn threshold_met(
    keys: Seq<(Seq<u8>, KeyV)>,
    role: RoleKeysV,
    body: RoleBodyV,
    sigs: Seq<SignatureV>,
) -> bool {
    count_valid(keys, role, canon_body(body), sigs) >= role.threshold
}

/// Looks a key identifier up in a key map.
pub fn find_key(keys: &Vec<(Vec<u8>, Key)>, kid: &Vec<u8>) -> (r: Option<usize>)
    ensures
        match r {
            Some(ix) => ix < keys@.len() && keys@[ix as int].0@ == kid@,
            None => !map_has(keys@.map_values(|p: (Vec<u8>, Key)| (p.0@, p.1@)), kid@),
        },
{
    let ghost view = keys@.map_values(|p: (Vec<u8>, Key)| (p.0@, p.1@));
    let mut i: usize = 0;
    while i < keys.len()
        invariant
            i <= keys@.len(),
            view == keys@.map_values(|p: (Vec<u8>, Key)| (p.0@, p.1@)),
            forall|j: int| 0 <= j < i ==> (#[trigger] view[j]).0 != kid@,
        decreases keys.len() - i,
    {
        if bytes_eq(&keys[i].0, kid) {
            return Some(i);
        }
        i = i + 1;
    }
    proof {
        assert forall|j: int| 0 <= j < view.len() implies (#[trigger] view[j]).0 != kid@ by {}
    }
    None
}

/// Whether a key identifier is in an authorized set.
pub fn keyids_contains(ids: &Vec<Vec<u8>>, kid: &Vec<u8>) -> (r: bool)
    ensures
        r == ids@.map_values(|k: Vec<u8>| k@).contains(kid@),
{
    let ghost view = ids@.map_values(|k: Vec<u8>| k@);
    let mut i: usize = 0;
    while i < ids.len()
        invariant
            i <= ids@.len(),
            view == ids@.map_values(|k: Vec<u8>| k@),
            forall|j: int| 0 <= j < i ==> view[j] != kid@,
        decreases ids.len() - i,
    {
        if bytes_eq(&ids[i], kid) {
            proof {
                assert(view[i as int] == kid@);
            }
            return true;
        }
        i = i + 1;
    }
    proof {
        assert(forall|j: int| 0 <= j < view.len() ==> view[j] != kid@);
    }
    false
}

/// Counts the distinct valid signatures by authorized keys over `msg`,
/// deciding exactly `count_valid`.
pub fn count_valid_sigs(
    keys: &Vec<(Vec<u8>, Key)>,
    role: &RoleKeys,
    msg: &Vec<u8>,
    sigs: &Vec<Signature>,
) -> (n: usize)
    requires
        sorted_keys(keys@.map_values(|p: (Vec<u8>, Key)| (p.0@, p.1@))),
    ensures
        n == count_valid(
            keys@.map_values(|p: (Vec<u8>, Key)| (p.0@, p.1@)),
            role@,
            msg@,
            sigs@.map_values(|s: Signature| s@),
        ),
{
    let ghost kview = keys@.map_values(|p: (Vec<u8>, Key)| (p.0@, p.1@));
    let ghost sview = sigs@.map_values(|s: Signature| s@);
    let mut n: usize = 0;
    let mut i: usize = 0;
    while i < sigs.len()
        invariant
            i <= sigs@.len(),
            n <= i,
            sorted_keys(kview),
            kview == keys@.map_values(|p: (Vec<u8>, Key)| (p.0@, p.1@)),
            sview == sigs@.map_values(|s: Signature| s@),
            n == count_valid_upto(kview, role@, msg@, sview, i as int),
        decreases sigs.len() - i,
    {
        let mut first: bool = true;
        let mut j: usize = 0;
        while j < i
            invariant
                j <= i < sigs@.len(),
                sview == sigs@.map_values(|s: Signature| s@),
                first == (forall|t: int|
                    0 <= t < j ==> (#[trigger] sview[t]).keyid != sview[i as int].keyid),
            decreases i - j,
        {
            let e = bytes_eq(&sigs[j].keyid, &sigs[i].keyid);
            let ghost old_first = first;
            first = first && !e;
            proof {
                assert(sview[j as int] == sigs@[j as int]@);
                assert(sview[i as int] == sigs@[i as int]@);
                if old_first && !e {
                    assert forall|t: int| 0 <= t < j + 1 implies (#[trigger] sview[t]).keyid
                        != sview[i as int].keyid by {}
                }
                if e {
                    assert(sview[j as int].keyid == sview[i as int].keyid);
                }
            }
            j = j + 1;
        }
        let mut counts: bool = false;
        if first {
            if keyids_contains(&role.keyids, &sigs[i].keyid) {
                match find_key(keys, &sigs[i].keyid) {
                    Some(ix) => {
                        proof {
                            lemma_map_get_at(kview, ix as int);
                        }
                        if check_sig(&keys[ix].1, msg, &sigs[i].sig) {
                            counts = true;
                        }
                    },
                    None => {},
                }
            }
        }
        proof {
            assert(counts == valid_sig_at(kview, role@, msg@, sview, i as int));
        }
        if counts {
            n = n + 1;
        }
        i = i + 1;
    }
    n
}

/// The decision of the timestamp step: signatures against the trusted
/// root's timestamp assignment, expiration under `Safe`, then rollback
/// against the previously observed timestamp version.
pub open spec fn check_timestamp_spec(
    root: RootV,
    d: SignedRoleV,
    prev: nat,
    now: i64,
    safe: bool,
) -> Result<(), TufError> {
    match d.body {
        RoleBodyV::Timestamp(t) => {
            if count_valid(root.keys, root.timestamp, canon_body(d.body), d.signatures)
                < root.timestamp.threshold {
                Err(TufError::ThresholdNotMet)
            } else if safe && expired_at(t.expires, now) {
                Err(TufError::Expired)
            } else if t.version < prev {
                Err(TufError::VersionRollback)
            } else {
                Ok(())
            }
        },
        _ => Err(TufError::Parse),
    }
}

/// Checks a parsed timestamp document, deciding exactly
/// `check_timestamp_spec`.
pub fn check_timestamp(root: &Root, d: &SignedRole, prev: u64, now: i64, safe: bool) -> (r: Result<
    (),
    TufError,
>)
    requires
        wf_root(root@),
    ensures
        r == check_timestamp_spec(root@, d@, prev as nat, now, safe),
{
    match &d.body {
        RoleBody::Timestamp(t) => {
            let msg = canon_bytes_body(&d.body);
            let n = count_valid_sigs(&root.keys, &root.timestamp, &msg, &d.signatures);
            if (n as u64) < root.timestamp.threshold {
                return Err(TufError::ThresholdNotMet);
            }
            if safe && is_expired(&t.expires, now) {
                return Err(TufError::Expired);
            }
            if t.version < prev {
                return Err(TufError::VersionRollback);
            }
            Ok(())
        },
        _ => Err(TufError::Parse),
    }
}

/// The decision of one root-chain step: the candidate must be a root
/// document, signed to the threshold of both the current root's and its own
/// root assignment, with exactly the next version.
pub open spec fn check_root_step_spec(cur: RootV, d: SignedRoleV) -> Result<(), TufError> {
    match d.body {
        RoleBodyV::Root(nr) => {
            if count_valid(cur.keys, cur.root, canon_body(d.body), d.signatures)
                < cur.root.threshold {
                Err(TufError::ThresholdNotMet)
            } else if count_valid(nr.keys, nr.root, canon_body(d.body), d.signatures)
                < nr.root.threshold {
                Err(TufError::ThresholdNotMet)
            } else if nr.version != cur.version + 1 {
                Err(TufError::VersionRollback)
            } else {
                Ok(())
            }
        },
        _ => Err(TufError::Parse),
    }
}

/// Checks one step of the root chain, deciding exactly
/// `check_root_step_spec`.
pub fn check_root_step(cur: &Root, d: &SignedRole) -> (r: Result<(), TufError>)
    requires
        wf_root(cur@),
        wf_body(d@.body),
    ensures
        r == check_root_step_spec(cur@, d@),
{
    match &d.body {
        RoleBody::Root(nr) => {
            let msg = canon_bytes_body(&d.body);
            let n1 = count_valid_sigs(&cur.keys, &cur.root, &msg, &d.signatures);
            if (n1 as u64) < cur.root.threshold {
                return Err(TufError::ThresholdNotMet);
            }
            let n2 = count_valid_sigs(&nr.keys, &nr.root, &msg, &d.signatures);
            if (n2 as u64) < nr.root.threshold {
                return Err(TufError::ThresholdNotMet);
            }
            if cur.version == u64::MAX || nr.version != cur.version + 1 {
                return Err(TufError::VersionRollback);
            }
            Ok(())
        },
        _ => Err(TufError::Parse),
    }
}

/// Whether declared length and hash of a meta entry fit the fetched bytes.
pub open spec fn meta_entry_fits(m: MetaEntryV, bytes: Seq<u8>) -> Result<(), TufError> {
    if match m.length {
        Some(l) => bytes.len() != l,
        None => false,
    } {
        Err(TufError::LengthExceeded)
    } else if match m.sha256 {
        Some(h) => hex_of(sha256_of(bytes)) != h,
        None => false,
    } {
        Err(TufError::HashMismatch)
    } else {
        Ok(())
    }
}

/// Checks the declared length and hash of a meta entry against fetched
/// bytes, deciding exactly `meta_entry_fits`.
pub fn check_meta_entry(m: &MetaEntry, bytes: &Vec<u8>) -> (r: Result<(), TufError>)
    ensures
        r == meta_entry_fits(m@, bytes@),
{
    match &m.length {
        Some(l) => {
            if bytes.len() as u64 != *l {
                return Err(TufError::LengthExceeded);
            }
        },
        None => {},
    }
    match &m.sha256 {
        Some(h) => {
            let d = sha256(bytes);
            let hx = encode_hex(&d);
            if !bytes_eq(&hx, h) {
                return Err(TufError::HashMismatch);
            }
        },
        None => {},
    }
    Ok(())
}

/// No role listed by the old snapshot may move backwards or vanish in the
/// new one.
pub open spec fn snapshot_no_rollback(prev: SnapshotV, new: SnapshotV) -> bool {
    forall|i: int|
        0 <= i < prev.meta.len() ==> map_has(new.meta, (#[trigger] prev.meta[i]).0) && map_get(
            new.meta,
            prev.meta[i].0,
        ).version >= prev.meta[i].1.version
}

/// Decides `snapshot_no_rollback`.
pub fn check_snapshot_no_rollback(prev: &Snapshot, new: &Snapshot) -> (r: bool)
    requires
        wf_snapshot(new@),
    ensures
        r == snapshot_no_rollback(prev@, new@),
{
    let ghost pview = prev@.meta;
    let ghost nview = new@.meta;
    let mut i: usize = 0;
    while i < prev.meta.len()
        invariant
            i <= prev.meta@.len(),
            pview == prev@.meta,
            nview == new@.meta,
            sorted_keys(nview),
            forall|t: int|
                0 <= t < i ==> map_has(nview, (#[trigger] pview[t]).0) && map_get(
                    nview,
                    pview[t].0,
                ).version >= pview[t].1.version,
        decreases prev.meta.len() - i,
    {
        let name = &prev.meta[i].0;
        let mut found: bool = false;
        let mut j: usize = 0;
        while j < new.meta.len()
            invariant
                j <= new.meta@.len(),
                nview == new@.meta,
                sorted_keys(nview),
                pview == prev@.meta,
                i < pview.len(),
                name@ == pview[i as int].0,
                !found ==> forall|t: int| 0 <= t < j ==> (#[trigger] nview[t]).0 != name@,
                found ==> map_has(nview, pview[i as int].0) && map_get(
                    nview,
                    pview[i as int].0,
                ).version >= pview[i as int].1.version,
            decreases new.meta.len() - j,
        {
            if !found && bytes_eq(&new.meta[j].0, name) {
                if new.meta[j].1.version >= prev.meta[i].1.version {
                    proof {
                        lemma_map_get_at(nview, j as int);
                    }
                    found = true;
                } else {
                    proof {
                        lemma_map_get_at(nview, j as int);
                    }
                    return false;
                }
            }
            j = j + 1;
        }
        if !found {
            proof {
                assert(!map_has(nview, pview[i as int].0));
            }
            return false;
        }
        i = i + 1;
    }
    true
}

/// The decision of the snapshot step: declared length and hash from the
/// timestamp's meta entry, signatures against the root's snapshot
/// assignment, the version pinned by the timestamp, expiration, and
/// rollback against any previously observed snapshot.
pub open spec fn check_snapshot_spec(
    root: RootV,
    d: SignedRoleV,
    bytes: Seq<u8>,
    meta: MetaEntryV,
    prev: Option<SnapshotV>,
    now: i64,
    safe: bool,
) -> Result<(), TufError> {
    match d.body {
        RoleBodyV::Snapshot(s) => {
            if meta_entry_fits(meta, bytes) is Err {
                meta_entry_fits(meta, bytes)
            } else if count_valid(root.keys, root.snapshot, canon_body(d.body), d.signatures)
                < root.snapshot.threshold {
                Err(TufError::ThresholdNotMet)
            } else if s.version != meta.version {
                Err(TufError::VersionRollback)
            } else if safe && expired_at(s.expires, now) {
                Err(TufError::Expired)
            } else if match prev {
                Some(p) => !snapshot_no_rollback(p, s),
                None => false,
            } {
                Err(TufError::VersionRollback)
            } else {
                Ok(())
            }
        },
        _ => Err(TufError::Parse),
    }
}

/// Checks a parsed snapshot document, deciding exactly
/// `check_snapshot_spec`. `bytes` are the exact bytes the document was
/// parsed from.
pub fn check_snapshot(
    root: &Root,
    d: &SignedRole,
    bytes: &Vec<u8>,
    meta: &MetaEntry,
    prev: Option<&Snapshot>,
    now: i64,
    safe: bool,
) -> (r: Result<(), TufError>)
    requires
        wf_root(root@),
        wf_body(d@.body),
    ensures
        r == check_snapshot_spec(
            root@,
            d@,
            bytes@,
            meta@,
            match prev {
                Some(p) => Some(p@),
                None => None,
            },
            now,
            safe,
        ),
{
    match &d.body {
        RoleBody::Snapshot(s) => {
            match check_meta_entry(meta, bytes) {
                Err(e) => {
                    return Err(e);
                },
                Ok(()) => {},
            }
            let msg = canon_bytes_body(&d.body);
            let n = count_valid_sigs(&root.keys, &root.snapshot, &msg, &d.signatures);
            if (n as u64) < root.snapshot.threshold {
                return Err(TufError::ThresholdNotMet);
            }
            if s.version != meta.version {
                return Err(TufError::VersionRollback);
            }
            if safe && is_expired(&s.expires, now) {
                return Err(TufError::Expired);
            }
            match prev {
                Some(p) => {
                    if !check_snapshot_no_rollback(p, s) {
                        return Err(TufError::VersionRollback);
                    }
                },
                None => {},
            }
            Ok(())
        },
        _ => Err(TufError::Parse),
    }
}

/// The decision of a targets step, top-level or delegated: declared length
/// and hash from the snapshot's meta entry, signatures against the given
/// assignment, the version pinned by the snapshot, and expiration.
pub open spec fn check_targets_spec(
    keys: Seq<(Seq<u8>, KeyV)>,
    role: RoleKeysV,
    d: SignedRoleV,
    bytes: Seq<u8>,
    meta: MetaEntryV,
    now: i64,
    safe: bool,
) -> Result<(), TufError> {
    match d.body {
        RoleBodyV::Targets(t) => {
            if meta_entry_fits(meta, bytes) is Err {
                meta_entry_fits(meta, bytes)
            } else if count_valid(keys, role, canon_body(d.body), d.signatures) < role.threshold {
                Err(TufError::ThresholdNotMet)
            } else if t.version != meta.version {
                Err(TufError::VersionRollback)
            } else if safe && expired_at(t.expires, now) {
                Err(TufError::Expired)
            } else {
                Ok(())
            }
        },
        _ => Err(TufError::Parse),
    }
}

/// Checks a parsed targets document against a key assignment, deciding
/// exactly `check_targets_spec`.
pub fn check_targets(
    keys: &Vec<(Vec<u8>, Key)>,
    role: &RoleKeys,
    d: &SignedRole,
    bytes: &Vec<u8>,
    meta: &MetaEntry,
    now: i64,
    safe: bool,
) -> (r: Result<(), TufError>)
    requires
        sorted_keys(keys@.map_values(|p: (Vec<u8>, Key)| (p.0@, p.1@))),
    ensures
        r == check_targets_spec(
            keys@.map_values(|p: (Vec<u8>, Key)| (p.0@, p.1@)),
            role@,
            d@,
            bytes@,
            meta@,
            now,
            safe,
        ),
{
    match &d.body {
        RoleBody::Targets(t) => {
            match check_meta_entry(meta, bytes) {
                Err(e) => {
                    return Err(e);
                },
                Ok(()) => {},
            }
            let msg = canon_bytes_body(&d.body);
            let n = count_valid_sigs(keys, role, &msg, &d.signatures);
            if (n as u64) < role.threshold {
                return Err(TufError::ThresholdNotMet);
            }
            if t.version != meta.version {
                return Err(TufError::VersionRollback);
            }
            if safe && is_expired(&t.expires, now) {
                return Err(TufError::Expired);
            }
            Ok(())
        },
        _ => Err(TufError::Parse),
    }
}

/// Caps a fetched body at the declared limit: the transport contract that
/// a body one byte over the cap is refused.
pub fn enforce_length_limit(bytes: &Vec<u8>, max: u64) -> (r: Result<(), TufError>)
    ensures
        r == if bytes@.len() > max {
            Err::<(), TufError>(TufError::LengthExceeded)
        } else {
            Ok::<(), TufError>(())
        },
{
    if bytes.len() as u64 > max {
        Err(TufError::LengthExceeded)
    } else {
        Ok(())
    }
}

/// A body exactly one byte over the cap is refused with `LengthExceeded`.
pub proof fn lemma_length_cap_boundary(bytes: Seq<u8>, max: u64)
    requires
        bytes.len() == max + 1,
    ensures
        bytes.len() > max,
{
}

/// A timestamp older than the one previously observed is refused with
/// `VersionRollback`, whenever its signatures meet the threshold and it is
/// not expired.
pub proof fn lemma_timestamp_rollback(
    root: RootV,
    d: SignedRoleV,
    t: crate::schema::TimestampV,
    prev: nat,
    now: i64,
    safe: bool,
)
    requires
        d.body == RoleBodyV::Timestamp(t),
        count_valid(root.keys, root.timestamp, canon_body(d.body), d.signatures)
            >= root.timestamp.threshold,
        !(safe && expired_at(t.expires, now)),
        t.version < prev,
    ensures
        check_timestamp_spec(root, d, prev, now, safe) == Err::<(), TufError>(
            TufError::VersionRollback,
        ),
{
}

} // verus!
