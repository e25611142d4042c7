//! The TUF data model: the four top-level role documents, keys, hash/length
//! descriptors and delegation rules, together with the mathematical view of
//! each type and the specification of its canonical byte encoding. The
//! canonical form sorts object keys, writes no insignificant whitespace, and
//! is the exact input to signing and verification.

use vstd::prelude::*;

use crate::canon::dec_of;
use crate::canon::esc;
use crate::canon::lex_lt;
use crate::canon::quoted;
use crate::lits::s_consistent_snapshot;
use crate::lits::s_delegations;
use crate::lits::s_expires;
use crate::lits::s_false_word;
use crate::lits::s_hashes;
use crate::lits::s_keyid;
use crate::lits::s_keyids;
use crate::lits::s_keys;
use crate::lits::s_keytype;
use crate::lits::s_keyval;
use crate::lits::s_length;
use crate::lits::s_meta;
use crate::lits::s_name;
use crate::lits::s_one_zero_zero;
use crate::lits::s_path_hash_prefixes;
use crate::lits::s_paths;
use crate::lits::s_public;
use crate::lits::s_roles;
use crate::lits::s_root;
use crate::lits::s_scheme;
use crate::lits::s_sha256;
use crate::lits::s_sha512;
use crate::lits::s_sig;
use crate::lits::s_signatures;
use crate::lits::s_signed;
use crate::lits::s_snapshot;
use crate::lits::s_snapshot_json;
use crate::lits::s_spec_version;
use crate::lits::s_targets;
use crate::lits::s_terminating;
use crate::lits::s_threshold;
use crate::lits::s_timestamp;
use crate::lits::s_true_word;
use crate::lits::s_type_tag;
use crate::lits::s_version;

verus! {

/// A public key: type family, signature scheme, and the textual public key
/// material (hex for ed25519 and for DER-encoded RSA / ECDSA material).
pub struct Key {
    pub keytype: Vec<u8>,
    pub scheme: Vec<u8>,
    pub public: Vec<u8>,
}

pub ghost struct KeyV {
    pub keytype: Seq<u8>,
    pub scheme: Seq<u8>,
    pub public: Seq<u8>,
}

impl View for Key {
    type V = KeyV;

    open spec fn view(&self) -> KeyV {
        KeyV { keytype: self.keytype@, scheme: self.scheme@, public: self.public@ }
    }
}

/// One signature over the canonical bytes of a role body, both fields in
/// lowercase hex.
pub struct Signature {
    pub keyid: Vec<u8>,
    pub sig: Vec<u8>,
}

pub ghost struct SignatureV {
    pub keyid: Seq<u8>,
    pub sig: Seq<u8>,
}

impl View for Signature {
    type V = SignatureV;

    open spec fn view(&self) -> SignatureV {
        SignatureV { keyid: self.keyid@, sig: self.sig@ }
    }
}

/// A role key assignment: the authorized key identifiers and the signing
/// threshold.
pub struct RoleKeys {
    pub keyids: Vec<Vec<u8>>,
    pub threshold: u64,
}

pub ghost struct RoleKeysV {
    pub keyids: Seq<Seq<u8>>,
    pub threshold: nat,
}

impl View for RoleKeys {
    type V = RoleKeysV;

    open spec fn view(&self) -> RoleKeysV {
        RoleKeysV {
            keyids: self.keyids@.map_values(|k: Vec<u8>| k@),
            threshold: self.threshold as nat,
        }
    }
}

/// The root role payload.
pub struct Root {
    pub consistent_snapshot: bool,
    pub expires: Vec<u8>,
    pub keys: Vec<(Vec<u8>, Key)>,
    pub root: RoleKeys,
    pub snapshot: RoleKeys,
    pub targets: RoleKeys,
    pub timestamp: RoleKeys,
    pub version: u64,
}

pub ghost struct RootV {
    pub consistent_snapshot: bool,
    pub expires: Seq<u8>,
    pub keys: Seq<(Seq<u8>, KeyV)>,
    pub root: RoleKeysV,
    pub snapshot: RoleKeysV,
    pub targets: RoleKeysV,
    pub timestamp: RoleKeysV,
    pub version: nat,
}

impl View for Root {
    type V = RootV;

    open spec fn view(&self) -> RootV {
        RootV {
            consistent_snapshot: self.consistent_snapshot,
            expires: self.expires@,
            keys: self.keys@.map_values(|p: (Vec<u8>, Key)| (p.0@, p.1@)),
            root: self.root@,
            snapshot: self.snapshot@,
            targets: self.targets@,
            timestamp: self.timestamp@,
            version: self.version as nat,
        }
    }
}

/// Version, optional length and optional sha256 digest of one metadata file,
/// as listed by timestamp and snapshot.
pub struct MetaEntry {
    pub sha256: Option<Vec<u8>>,
    pub length: Option<u64>,
    pub version: u64,
}

pub ghost struct MetaEntryV {
    pub sha256: Option<Seq<u8>>,
    pub length: Option<nat>,
    pub version: nat,
}

impl View for MetaEntry {
    type V = MetaEntryV;

    open spec fn view(&self) -> MetaEntryV {
        MetaEntryV {
            sha256: match self.sha256 {
                Some(h) => Some(h@),
                None => None,
            },
            length: match self.length {
                Some(l) => Some(l as nat),
                None => None,
            },
            version: self.version as nat,
        }
    }
}

/// The timestamp role payload: the one meta entry for the snapshot file.
pub struct Timestamp {
    pub expires: Vec<u8>,
    pub snapshot_meta: MetaEntry,
    pub version: u64,
}

pub ghost struct TimestampV {
    pub expires: Seq<u8>,
    pub snapshot_meta: MetaEntryV,
    pub version: nat,
}

impl View for Timestamp {
    type V = TimestampV;

    open spec fn view(&self) -> TimestampV {
        TimestampV {
            expires: self.expires@,
            snapshot_meta: self.snapshot_meta@,
            version: self.version as nat,
        }
    }
}

/// The snapshot role payload: a meta entry for every targets metadata file.
pub struct Snapshot {
    pub expires: Vec<u8>,
    pub meta: Vec<(Vec<u8>, MetaEntry)>,
    pub version: u64,
}

pub ghost struct SnapshotV {
    pub expires: Seq<u8>,
    pub meta: Seq<(Seq<u8>, MetaEntryV)>,
    pub version: nat,
}

impl View for Snapshot {
    type V = SnapshotV;

    open spec fn view(&self) -> SnapshotV {
        SnapshotV {
            expires: self.expires@,
            meta: self.meta@.map_values(|p: (Vec<u8>, MetaEntry)| (p.0@, p.1@)),
            version: self.version as nat,
        }
    }
}

/// A target descriptor: plaintext length and its declared digests
/// (sha256 always, sha512 optionally), in lowercase hex.
pub struct TargetDesc {
    pub length: u64,
    pub sha256: Vec<u8>,
    pub sha512: Option<Vec<u8>>,
}

pub ghost struct TargetDescV {
    pub length: nat,
    pub sha256: Seq<u8>,
    pub sha512: Option<Seq<u8>>,
}

impl View for TargetDesc {
    type V = TargetDescV;

    open spec fn view(&self) -> TargetDescV {
        TargetDescV {
            length: self.length as nat,
            sha256: self.sha256@,
            sha512: match self.sha512 {
                Some(h) => Some(h@),
                None => None,
            },
        }
    }
}

/// The path set of a delegation entry: either glob-like path patterns or
/// hex hash prefixes, never both.
pub enum PathSet {
    Paths(Vec<Vec<u8>>),
    HashPrefixes(Vec<Vec<u8>>),
}

pub ghost enum PathSetV {
    Paths(Seq<Seq<u8>>),
    HashPrefixes(Seq<Seq<u8>>),
}

impl View for PathSet {
    type V = PathSetV;

    open spec fn view(&self) -> PathSetV {
        match self {
            PathSet::Paths(p) => PathSetV::Paths(p@.map_values(|x: Vec<u8>| x@)),
            PathSet::HashPrefixes(p) => PathSetV::HashPrefixes(p@.map_values(|x: Vec<u8>| x@)),
        }
    }
}

/// One delegation entry of a targets role.
pub struct DelegatedRole {
    pub name: Vec<u8>,
    pub keyids: Vec<Vec<u8>>,
    pub paths: PathSet,
    pub terminating: bool,
    pub threshold: u64,
}

pub ghost struct DelegatedRoleV {
    pub name: Seq<u8>,
    pub keyids: Seq<Seq<u8>>,
    pub paths: PathSetV,
    pub terminating: bool,
    pub threshold: nat,
}

impl View for DelegatedRole {
    type V = DelegatedRoleV;

    open spec fn view(&self) -> DelegatedRoleV {
        DelegatedRoleV {
            name: self.name@,
            keyids: self.keyids@.map_values(|k: Vec<u8>| k@),
            paths: self.paths@,
            terminating: self.terminating,
            threshold: self.threshold as nat,
        }
    }
}

/// The delegations block of a targets role: scoped keys and the ordered
/// delegation entries.
pub struct Delegations {
    pub keys: Vec<(Vec<u8>, Key)>,
    pub roles: Vec<DelegatedRole>,
}

pub ghost struct DelegationsV {
    pub keys: Seq<(Seq<u8>, KeyV)>,
    pub roles: Seq<DelegatedRoleV>,
}

impl View for Delegations {
    type V = DelegationsV;

    open spec fn view(&self) -> DelegationsV {
        DelegationsV {
            keys: self.keys@.map_values(|p: (Vec<u8>, Key)| (p.0@, p.1@)),
            roles: self.roles@.map_values(|r: DelegatedRole| r@),
        }
    }
}

/// A targets role payload: the target descriptors and an optional
/// delegations block.
pub struct Targets {
    pub delegations: Option<Delegations>,
    pub expires: Vec<u8>,
    pub targets: Vec<(Vec<u8>, TargetDesc)>,
    pub version: u64,
}

pub ghost struct TargetsV {
    pub delegations: Option<DelegationsV>,
    pub expires: Seq<u8>,
    pub targets: Seq<(Seq<u8>, TargetDescV)>,
    pub version: nat,
}

impl View for Targets {
    type V = TargetsV;

    open spec fn view(&self) -> TargetsV {
        TargetsV {
            delegations: match self.delegations {
                Some(d) => Some(d@),
                None => None,
            },
            expires: self.expires@,
            targets: self.targets@.map_values(|p: (Vec<u8>, TargetDesc)| (p.0@, p.1@)),
            version: self.version as nat,
        }
    }
}

/// The payload of any role document.
pub enum RoleBody {
    Root(Root),
    Timestamp(Timestamp),
    Snapshot(Snapshot),
    Targets(Targets),
}

pub ghost enum RoleBodyV {
    Root(RootV),
    Timestamp(TimestampV),
    Snapshot(SnapshotV),
    Targets(TargetsV),
}

impl View for RoleBody {
    type V = RoleBodyV;

    open spec fn view(&self) -> RoleBodyV {
        match self {
            RoleBody::Root(r) => RoleBodyV::Root(r@),
            RoleBody::Timestamp(t) => RoleBodyV::Timestamp(t@),
            RoleBody::Snapshot(s) => RoleBodyV::Snapshot(s@),
            RoleBody::Targets(t) => RoleBodyV::Targets(t@),
        }
    }
}

/// A complete signed role document.
pub struct SignedRole {
    pub signatures: Vec<Signature>,
    pub body: RoleBody,
}

pub ghost struct SignedRoleV {
    pub signatures: Seq<SignatureV>,
    pub body: RoleBodyV,
}

impl View for SignedRole {
    type V = SignedRoleV;

    open spec fn view(&self) -> SignedRoleV {
        SignedRoleV {
            signatures: self.signatures@.map_values(|s: Signature| s@),
            body: self.body@,
        }
    }
}

// ------------------------------------------------------------------
// Canonical encoding, over the views.
// ------------------------------------------------------------------

/// A fixed object key in canonical position: quote, name, quote, colon.
/// The fixed names of the format contain nothing that escaping would touch.
pub open spec fn mname(name: Seq<u8>) -> Seq<u8> {
    seq![34u8] + name + seq![34u8, 58u8]
}

/// `true` or `false`.
pub open spec fn bool_lit(b: bool) -> Seq<u8> {
    if b {
        s_true_word()
    } else {
        s_false_word()
    }
}

/// Joins already-encoded pieces with commas.
pub open spec fn join_comma(parts: Seq<Seq<u8>>) -> Seq<u8>
    decreases parts.len(),
{
    if parts.len() == 0 {
        Seq::<u8>::empty()
    } else if parts.len() == 1 {
        parts[0]
    } else {
        join_comma(parts.drop_last()) + seq![44u8] + parts.last()
    }
}

pub proof fn lemma_join_comma_push(parts: Seq<Seq<u8>>, x: Seq<u8>)
    ensures
        parts.len() == 0 ==> join_comma(parts.push(x)) == x,
        parts.len() > 0 ==> join_comma(parts.push(x)) == join_comma(parts) + seq![44u8] + x,
{
    assert(parts.push(x).drop_last() =~= parts);
    assert(parts.push(x).last() == x);
    if parts.len() == 0 {
        assert(join_comma(parts.push(x)) == parts.push(x)[0]);
    }
}

/// A canonical array of quoted strings.
pub open spec fn canon_str_array(xs: Seq<Seq<u8>>) -> Seq<u8> {
    seq![91u8] + join_comma(xs.map_values(|x: Seq<u8>| quoted(x))) + seq![93u8]
}

/// A canonical key object.
pub open spec fn canon_key(k: KeyV) -> Seq<u8> {
    seq![123u8] + mname(s_keytype()) + quoted(k.keytype) + seq![44u8] + mname(s_keyval()) + seq![
        123u8,
    ] + mname(s_public()) + quoted(k.public) + seq![125u8, 44u8] + mname(s_scheme()) + quoted(
        k.scheme,
    ) + seq![125u8]
}

/// A canonical map from key identifier to key object.
pub open spec fn canon_key_map(keys: Seq<(Seq<u8>, KeyV)>) -> Seq<u8> {
    seq![123u8] + join_comma(
        keys.map_values(|p: (Seq<u8>, KeyV)| quoted(p.0) + seq![58u8] + canon_key(p.1)),
    ) + seq![125u8]
}

/// A canonical role key assignment.
pub open spec fn canon_role_keys(r: RoleKeysV) -> Seq<u8> {
    seq![123u8] + mname(s_keyids()) + canon_str_array(r.keyids) + seq![44u8] + mname(s_threshold())
        + dec_of(r.threshold) + seq![125u8]
}

/// The first half of the top-level role assignment object.
pub open spec fn canon_roles_head(a: RoleKeysV, b: RoleKeysV) -> Seq<u8> {
    seq![123u8] + mname(s_root()) + canon_role_keys(a) + seq![44u8] + mname(s_snapshot())
        + canon_role_keys(b) + seq![44u8]
}

/// The second half of the top-level role assignment object.
pub open spec fn canon_roles_tail(c: RoleKeysV, d: RoleKeysV) -> Seq<u8> {
    mname(s_targets()) + canon_role_keys(c) + seq![44u8] + mname(s_timestamp())
        + canon_role_keys(d) + seq![125u8]
}

/// The canonical object of the four top-level role key assignments.
pub open spec fn canon_root_roles(r: RootV) -> Seq<u8> {
    canon_roles_head(r.root, r.snapshot) + canon_roles_tail(r.targets, r.timestamp)
}

/// The opening of the canonical root payload, through the
/// consistent-snapshot flag.
pub open spec fn canon_root_h1(cs: bool) -> Seq<u8> {
    seq![123u8] + mname(s_type_tag()) + quoted(s_root()) + seq![44u8] + mname(
        s_consistent_snapshot(),
    ) + bool_lit(cs) + seq![44u8]
}

/// Expiration and key map of the canonical root payload.
pub open spec fn canon_root_h2(expires: Seq<u8>, keys: Seq<(Seq<u8>, KeyV)>) -> Seq<u8> {
    mname(s_expires()) + quoted(expires) + seq![44u8] + mname(s_keys()) + canon_key_map(keys)
}

/// The first half of the canonical root payload, through the key map.
pub open spec fn canon_root_head(r: RootV) -> Seq<u8> {
    canon_root_h1(r.consistent_snapshot) + canon_root_h2(r.expires, r.keys)
}

/// Role assignments of the canonical root payload.
pub open spec fn canon_root_t1(r: RootV) -> Seq<u8> {
    seq![44u8] + mname(s_roles()) + canon_root_roles(r) + seq![44u8]
}

/// Spec version and version of the canonical root payload.
pub open spec fn canon_root_t2(version: nat) -> Seq<u8> {
    mname(s_spec_version()) + quoted(s_one_zero_zero()) + seq![44u8] + mname(s_version()) + dec_of(
        version,
    ) + seq![125u8]
}

/// The second half of the canonical root payload.
pub open spec fn canon_root_tail(r: RootV) -> Seq<u8> {
    canon_root_t1(r) + canon_root_t2(r.version)
}

/// The canonical root payload.
pub open spec fn canon_root(r: RootV) -> Seq<u8> {
    canon_root_head(r) + canon_root_tail(r)
}

/// A canonical meta entry: optional hashes, optional length, version.
pub open spec fn canon_meta_entry(m: MetaEntryV) -> Seq<u8> {
    seq![123u8] + (match m.sha256 {
        Some(h) => mname(s_hashes()) + seq![123u8] + mname(s_sha256()) + quoted(h) + seq![
            125u8,
            44u8,
        ],
        None => Seq::<u8>::empty(),
    }) + (match m.length {
        Some(l) => mname(s_length()) + dec_of(l) + seq![44u8],
        None => Seq::<u8>::empty(),
    }) + mname(s_version()) + dec_of(m.version) + seq![125u8]
}

/// The canonical timestamp payload.
pub open spec fn canon_timestamp(t: TimestampV) -> Seq<u8> {
    seq![123u8] + mname(s_type_tag()) + quoted(s_timestamp()) + seq![44u8] + mname(s_expires())
        + quoted(t.expires) + seq![44u8] + mname(s_meta()) + seq![123u8] + mname(s_snapshot_json())
        + canon_meta_entry(t.snapshot_meta) + seq![125u8, 44u8] + mname(s_spec_version()) + quoted(
        s_one_zero_zero(),
    ) + seq![44u8] + mname(s_version()) + dec_of(t.version) + seq![125u8]
}

/// A canonical map from metadata file name to meta entry.
pub open spec fn canon_meta_map(meta: Seq<(Seq<u8>, MetaEntryV)>) -> Seq<u8> {
    seq![123u8] + join_comma(
        meta.map_values(|p: (Seq<u8>, MetaEntryV)| quoted(p.0) + seq![58u8] + canon_meta_entry(p.1)),
    ) + seq![125u8]
}

/// The canonical snapshot payload.
pub open spec fn canon_snapshot(s: SnapshotV) -> Seq<u8> {
    seq![123u8] + mname(s_type_tag()) + quoted(s_snapshot()) + seq![44u8] + mname(s_expires())
        + quoted(s.expires) + seq![44u8] + mname(s_meta()) + canon_meta_map(s.meta) + seq![44u8]
        + mname(s_spec_version()) + quoted(s_one_zero_zero()) + seq![44u8] + mname(s_version())
        + dec_of(s.version) + seq![125u8]
}

/// A canonical target descriptor.
pub open spec fn canon_target_desc(d: TargetDescV) -> Seq<u8> {
    seq![123u8] + mname(s_hashes()) + seq![123u8] + mname(s_sha256()) + quoted(d.sha256) + (
    match d.sha512 {
        Some(h) => seq![44u8] + mname(s_sha512()) + quoted(h),
        None => Seq::<u8>::empty(),
    }) + seq![125u8, 44u8] + mname(s_length()) + dec_of(d.length) + seq![125u8]
}

/// A canonical map from target path to descriptor.
pub open spec fn canon_targets_map(ts: Seq<(Seq<u8>, TargetDescV)>) -> Seq<u8> {
    seq![123u8] + join_comma(
        ts.map_values(
            |p: (Seq<u8>, TargetDescV)| quoted(p.0) + seq![58u8] + canon_target_desc(p.1),
        ),
    ) + seq![125u8]
}

/// The opening of a canonical delegation entry: key identifiers and name.
pub open spec fn canon_dr_head(keyids: Seq<Seq<u8>>, name: Seq<u8>) -> Seq<u8> {
    seq![123u8] + mname(s_keyids()) + canon_str_array(keyids) + seq![44u8] + mname(s_name())
        + quoted(name) + seq![44u8]
}

/// The rest of a canonical delegation entry: path set, terminating flag and
/// threshold.
pub open spec fn canon_dr_tail(paths: PathSetV, terminating: bool, threshold: nat) -> Seq<u8> {
    (match paths {
        PathSetV::HashPrefixes(p) => mname(s_path_hash_prefixes()) + canon_str_array(p),
        PathSetV::Paths(p) => mname(s_paths()) + canon_str_array(p),
    }) + seq![44u8] + mname(s_terminating()) + bool_lit(terminating) + seq![44u8] + mname(
        s_threshold(),
    ) + dec_of(threshold) + seq![125u8]
}

/// A canonical delegation entry.
pub open spec fn canon_delegated_role(r: DelegatedRoleV) -> Seq<u8> {
    canon_dr_head(r.keyids, r.name) + canon_dr_tail(r.paths, r.terminating, r.threshold)
}

/// The scoped key map part of a canonical delegations block.
pub open spec fn canon_dele_head(keys: Seq<(Seq<u8>, KeyV)>) -> Seq<u8> {
    seq![123u8] + mname(s_keys()) + canon_key_map(keys) + seq![44u8]
}

/// The entry list part of a canonical delegations block.
pub open spec fn canon_dele_tail(roles: Seq<DelegatedRoleV>) -> Seq<u8> {
    mname(s_roles()) + seq![91u8] + join_comma(
        roles.map_values(|r: DelegatedRoleV| canon_delegated_role(r)),
    ) + seq![93u8, 125u8]
}

/// A canonical delegations block.
pub open spec fn canon_delegations(d: DelegationsV) -> Seq<u8> {
    canon_dele_head(d.keys) + canon_dele_tail(d.roles)
}

/// The opening of the canonical targets payload: type tag and optional
/// delegations block.
pub open spec fn canon_targets_head(d: Option<DelegationsV>) -> Seq<u8> {
    seq![123u8] + mname(s_type_tag()) + quoted(s_targets()) + seq![44u8] + (match d {
        Some(dd) => mname(s_delegations()) + canon_delegations(dd) + seq![44u8],
        None => Seq::<u8>::empty(),
    })
}

/// The rest of the canonical targets payload: expiration, spec version,
/// target map and version.
pub open spec fn canon_targets_tail(
    expires: Seq<u8>,
    targets: Seq<(Seq<u8>, TargetDescV)>,
    version: nat,
) -> Seq<u8> {
    mname(s_expires()) + quoted(expires) + seq![44u8] + mname(s_spec_version()) + quoted(
        s_one_zero_zero(),
    ) + seq![44u8] + mname(s_targets()) + canon_targets_map(targets) + seq![44u8] + mname(
        s_version(),
    ) + dec_of(version) + seq![125u8]
}

/// The canonical targets payload.
pub open spec fn canon_targets(t: TargetsV) -> Seq<u8> {
    canon_targets_head(t.delegations) + canon_targets_tail(t.expires, t.targets, t.version)
}

/// The canonical bytes of any role payload: the byte sequence that is
/// signed and verified.
pub open spec fn canon_body(b: RoleBodyV) -> Seq<u8> {
    match b {
        RoleBodyV::Root(r) => canon_root(r),
        RoleBodyV::Timestamp(t) => canon_timestamp(t),
        RoleBodyV::Snapshot(s) => canon_snapshot(s),
        RoleBodyV::Targets(t) => canon_targets(t),
    }
}

/// A canonical signature object.
pub open spec fn canon_signature(s: SignatureV) -> Seq<u8> {
    seq![123u8] + mname(s_keyid()) + quoted(s.keyid) + seq![44u8] + mname(s_sig()) + quoted(s.sig)
        + seq![125u8]
}

/// The signature list part of a canonical signed document.
pub open spec fn canon_signed_head(sigs: Seq<SignatureV>) -> Seq<u8> {
    seq![123u8] + mname(s_signatures()) + seq![91u8] + join_comma(
        sigs.map_values(|s: SignatureV| canon_signature(s)),
    ) + seq![93u8]
}

/// The signed body part of a canonical signed document.
pub open spec fn canon_signed_tail(body: RoleBodyV) -> Seq<u8> {
    seq![44u8] + mname(s_signed()) + canon_body(body) + seq![125u8]
}

/// The canonical bytes of a whole signed role document.
pub open spec fn canon_signed(d: SignedRoleV) -> Seq<u8> {
    canon_signed_head(d.signatures) + canon_signed_tail(d.body)
}

// ------------------------------------------------------------------
// Well-formedness: sorted maps, unique keys.
// ------------------------------------------------------------------

/// Keys strictly ascending in lexicographic order (hence unique).
pub open spec fn sorted_keys<V>(s: Seq<(Seq<u8>, V)>) -> bool {
    forall|i: int, j: int| 0 <= i < j < s.len() ==> lex_lt(#[trigger] s[i].0, #[trigger] s[j].0)
}

/// Whether the map holds an entry for `k`.
pub open spec fn map_has<V>(s: Seq<(Seq<u8>, V)>, k: Seq<u8>) -> bool {
    exists|i: int| 0 <= i < s.len() && (#[trigger] s[i]).0 == k
}

/// The value bound to `k`, when `map_has` holds.
pub open spec fn map_get<V>(s: Seq<(Seq<u8>, V)>, k: Seq<u8>) -> V {
    s[choose|i: int| 0 <= i < s.len() && (#[trigger] s[i]).0 == k].1
}

/// Delegation entry names unique within a block.
pub open spec fn unique_role_names(roles: Seq<DelegatedRoleV>) -> bool {
    forall|i: int, j: int|
        0 <= i < j < roles.len() ==> (#[trigger] roles[i]).name != (#[trigger] roles[j]).name
}

pub open spec fn wf_root(r: RootV) -> bool {
    sorted_keys(r.keys)
}

pub open spec fn wf_snapshot(s: SnapshotV) -> bool {
    sorted_keys(s.meta)
}

pub open spec fn wf_targets(t: TargetsV) -> bool {
    sorted_keys(t.targets) && match t.delegations {
        Some(d) => sorted_keys(d.keys) && unique_role_names(d.roles),
        None => true,
    }
}

pub open spec fn wf_body(b: RoleBodyV) -> bool {
    match b {
        RoleBodyV::Root(r) => wf_root(r),
        RoleBodyV::Timestamp(_) => true,
        RoleBodyV::Snapshot(s) => wf_snapshot(s),
        RoleBodyV::Targets(t) => wf_targets(t),
    }
}

} // verus!
