//! The in-memory editor for targets metadata: mutate a draft document,
//! then freeze it by attaching signatures that are filtered against the
//! controlling key assignment. Mutations are specified as functions of the
//! editor's view; re-signing refreshes snapshot and timestamp metadata to
//! the documents actually written.

use vstd::prelude::*;

use crate::canon::bytes_eq;
use crate::crypto::key_id;
use crate::crypto::key_id_of;
use crate::crypto::sha256;
use crate::crypto::sha256_of;
use crate::crypto::sig_valid;
use crate::hex::encode_hex;
use crate::hex::hex_of;
use crate::lits::v_json_suffix;
use crate::lits::s_json_suffix;
use crate::maps::ids_add;
use crate::maps::ids_add_spec;
use crate::maps::ids_remove;
use crate::maps::ids_remove_spec;
use crate::maps::insert_key_entry;
use crate::maps::insert_metaentry_entry;
use crate::maps::insert_target_entry;
use crate::maps::lemma_ids_add_idempotent;
use crate::maps::lemma_ids_remove_gone;
use crate::maps::lemma_map_insert_idempotent;
use crate::maps::lemma_map_remove_idempotent;
use crate::maps::map_insert_spec;
use crate::maps::map_remove_spec;
use crate::maps::remove_target_entry;
use crate::schema::map_get;
use crate::schema::map_has;
use crate::schema::Delegations;
use crate::schema::DelegationsV;
use crate::schema::DelegatedRole;
use crate::schema::DelegatedRoleV;
use crate::schema::Key;
use crate::schema::KeyV;
use crate::schema::MetaEntry;
use crate::schema::MetaEntryV;
use crate::schema::PathSet;
use crate::schema::PathSetV;
use crate::schema::RoleBody;
use crate::schema::RoleKeys;
use crate::schema::RoleKeysV;
use crate::schema::Signature;
use crate::schema::SignatureV;
use crate::schema::SignedRole;
use crate::schema::Snapshot;
use crate::schema::TargetDesc;
use crate::schema::TargetDescV;
use crate::schema::Targets;
use crate::schema::TargetsV;
use crate::schema::Timestamp;
use crate::trust::count_valid;
use crate::trust::count_valid_sigs;
use crate::trust::find_key;
use crate::trust::keyids_contains;
use crate::trust::lemma_map_get_at;
use crate::trust::TufError;
use crate::schema::sorted_keys;

verus! {

/// A draft targets document under edit. `scopes` holds the path sets of
/// every ancestor delegation on the way to this role, top down: a target
/// path may only be added when each of them claims it; the top-level
/// targets role has none.
pub struct TargetsEditor {
    pub name: Vec<u8>,
    pub loaded_version: u64,
    pub version: u64,
    pub expires: Vec<u8>,
    pub targets: Vec<(Vec<u8>, TargetDesc)>,
    pub delegations: Option<Delegations>,
    pub scopes: Vec<PathSet>,
}

pub ghost struct TargetsEditorV {
    pub name: Seq<u8>,
    pub loaded_version: nat,
    pub version: nat,
    pub expires: Seq<u8>,
    pub targets: Seq<(Seq<u8>, TargetDescV)>,
    pub delegations: Option<DelegationsV>,
    pub scopes: Seq<PathSetV>,
}

impl View for TargetsEditor {
    type V = TargetsEditorV;

    open spec fn view(&self) -> TargetsEditorV {
        TargetsEditorV {
            name: self.name@,
            loaded_version: self.loaded_version as nat,
            version: self.version as nat,
            expires: self.expires@,
            targets: self.targets@.map_values(|p: (Vec<u8>, TargetDesc)| (p.0@, p.1@)),
            delegations: match &self.delegations {
                Some(d) => Some(d@),
                None => None,
            },
            scopes: self.scopes@.map_values(|p: PathSet| p@),
        }
    }
}

/// Whether every ancestor delegation on the way to this role claims the
/// path.
pub open spec fn authorized_for(scopes: Seq<PathSetV>, path: Seq<u8>) -> bool {
    forall|i: int|
        0 <= i < scopes.len() ==> crate::deleg::pathset_matches(#[trigger] scopes[i], path)
}

/// Removal of a target path, as a function of the editor's view.
pub open spec fn remove_target_spec(e: TargetsEditorV, path: Seq<u8>) -> TargetsEditorV {
    TargetsEditorV { targets: map_remove_spec(e.targets, path), ..e }
}

/// Addition of a target descriptor, as a function of the editor's view.
pub open spec fn add_target_spec(e: TargetsEditorV, path: Seq<u8>, d: TargetDescV) -> TargetsEditorV {
    TargetsEditorV { targets: map_insert_spec(e.targets, path, d), ..e }
}

/// One delegation entry with a key identifier added to its authorized set
/// when its name matches.
pub open spec fn role_with_added(r: DelegatedRoleV, rn: Seq<u8>, kid: Seq<u8>) -> DelegatedRoleV {
    if r.name == rn {
        DelegatedRoleV { keyids: ids_add_spec(r.keyids, kid), ..r }
    } else {
        r
    }
}

/// Whether a delegations block has an entry of this name.
pub open spec fn has_role(d: DelegationsV, rn: Seq<u8>) -> bool {
    exists|i: int| 0 <= i < d.roles.len() && (#[trigger] d.roles[i]).name == rn
}

/// Registration of a public key, as a function of the editor's view: the
/// key joins the scoped key map under its derived identifier, and, when a
/// role is named, that entry's authorized set.
pub open spec fn add_key_spec(e: TargetsEditorV, k: KeyV, role: Option<Seq<u8>>) -> Result<
    TargetsEditorV,
    TufError,
> {
    let d = match e.delegations {
        Some(d) => d,
        None => DelegationsV { keys: Seq::empty(), roles: Seq::empty() },
    };
    let kid = key_id_of(k);
    if match role {
        Some(rn) => !has_role(d, rn),
        None => false,
    } {
        Err(TufError::UnknownRole)
    } else {
        Ok(
            TargetsEditorV {
                delegations: Some(
                    DelegationsV {
                        keys: map_insert_spec(d.keys, kid, k),
                        roles: match role {
                            Some(rn) => d.roles.map_values(
                                |r: DelegatedRoleV| role_with_added(r, rn, kid),
                            ),
                            None => d.roles,
                        },
                    },
                ),
                ..e
            },
        )
    }
}

/// One delegation entry with a key identifier removed from its authorized
/// set when its name matches.
pub open spec fn role_with_removed(r: DelegatedRoleV, rn: Seq<u8>, kid: Seq<u8>) -> DelegatedRoleV {
    if r.name == rn {
        DelegatedRoleV { keyids: ids_remove_spec(r.keyids, kid), ..r }
    } else {
        r
    }
}

/// Whether removing the key from the named role would leave it under its
/// threshold.
pub open spec fn removal_breaks_threshold(d: DelegationsV, rn: Seq<u8>, kid: Seq<u8>) -> bool {
    exists|i: int|
        0 <= i < d.roles.len() && (#[trigger] d.roles[i]).name == rn && ids_remove_spec(
            d.roles[i].keyids,
            kid,
        ).len() < d.roles[i].threshold
}

/// Removal of a public key, as a function of the editor's view.
pub open spec fn remove_key_spec(e: TargetsEditorV, kid: Seq<u8>, role: Option<Seq<u8>>) -> Result<
    TargetsEditorV,
    TufError,
> {
    match e.delegations {
        None => Err(TufError::UnknownRole),
        Some(d) => {
            if match role {
                Some(rn) => !has_role(d, rn),
                None => false,
            } {
                Err(TufError::UnknownRole)
            } else if match role {
                Some(rn) => removal_breaks_threshold(d, rn, kid),
                None => false,
            } {
                Err(TufError::ThresholdNotMet)
            } else {
                Ok(
                    TargetsEditorV {
                        delegations: Some(
                            DelegationsV {
                                keys: map_remove_spec(d.keys, kid),
                                roles: match role {
                                    Some(rn) => d.roles.map_values(
                                        |r: DelegatedRoleV| role_with_removed(r, rn, kid),
                                    ),
                                    None => d.roles,
                                },
                            },
                        ),
                        ..e
                    },
                )
            }
        },
    }
}

impl TargetsEditor {
    /// A fresh, empty draft for a role of this name.
    pub fn new(name: Vec<u8>) -> (r: Self)
        ensures
            r@.name == name@,
            r@.loaded_version == 0,
            r@.version == 0,
            r@.expires == Seq::<u8>::empty(),
            r@.targets == Seq::<(Seq<u8>, TargetDescV)>::empty(),
            r@.delegations is None,
            r@.scopes == Seq::<PathSetV>::empty(),
    {
        let r = TargetsEditor {
            name,
            loaded_version: 0,
            version: 0,
            expires: Vec::new(),
            targets: Vec::new(),
            delegations: None,
            scopes: Vec::new(),
        };
        proof {
            assert(r@.targets =~= Seq::<(Seq<u8>, TargetDescV)>::empty());
            assert(r@.scopes =~= Seq::<PathSetV>::empty());
        }
        r
    }

    /// A draft over an existing targets document, under the path sets of
    /// its ancestor delegations (none for the top-level targets role).
    pub fn from_targets(name: Vec<u8>, t: Targets, scopes: Vec<PathSet>) -> (r: Self)
        ensures
            r@.name == name@,
            r@.loaded_version == t@.version,
            r@.version == t@.version,
            r@.expires == t@.expires,
            r@.targets == t@.targets,
            r@.delegations == t@.delegations,
            r@.scopes == scopes@.map_values(|p: PathSet| p@),
    {
        TargetsEditor {
            name,
            loaded_version: t.version,
            version: t.version,
            expires: t.expires,
            targets: t.targets,
            delegations: t.delegations,
            scopes,
        }
    }

    /// The draft as a targets document.
    pub fn to_targets(self) -> (r: Targets)
        ensures
            r@.version == self@.version,
            r@.expires == self@.expires,
            r@.targets == self@.targets,
            r@.delegations == self@.delegations,
    {
        Targets {
            delegations: self.delegations,
            expires: self.expires,
            targets: self.targets,
            version: self.version,
        }
    }

    /// Sets the draft version: it must be positive and above the version
    /// the draft was loaded with.
    pub fn set_version(self, v: u64) -> (r: Result<Self, TufError>)
        ensures
            match r {
                Ok(e) => v >= 1 && v > self@.loaded_version && e@ == (TargetsEditorV {
                    version: v as nat,
                    ..self@
                }),
                Err(err) => err == TufError::VersionRollback && (v < 1 || v
                    <= self@.loaded_version),
            },
    {
        if v < 1 || v <= self.loaded_version {
            return Err(TufError::VersionRollback);
        }
        Ok(TargetsEditor { version: v, ..self })
    }

    /// Sets the draft expiration text.
    pub fn set_expires(self, e: Vec<u8>) -> (r: Self)
        ensures
            r@ == (TargetsEditorV { expires: e@, ..self@ }),
    {
        TargetsEditor { expires: e, ..self }
    }

    /// Adds or overwrites a target descriptor, provided every ancestor
    /// delegation on the way to this role claims the path.
    pub fn add_target(self, path: Vec<u8>, d: TargetDesc) -> (r: Result<Self, TufError>)
        ensures
            r matches Ok(e) ==> authorized_for(self@.scopes, path@) && e@ == add_target_spec(
                self@,
                path@,
                d@,
            ),
            r matches Err(err) ==> err == TufError::DelegationStructure && !authorized_for(
                self@.scopes,
                path@,
            ),
    {
        let ghost selfv = self@;
        let mut i: usize = 0;
        while i < self.scopes.len()
            invariant
                i <= self.scopes@.len(),
                selfv == self@,
                forall|t: int|
                    0 <= t < i ==> crate::deleg::pathset_matches(
                        (#[trigger] selfv.scopes[t]),
                        path@,
                    ),
            decreases self.scopes.len() - i,
        {
            if !crate::deleg::pathset_matches_exec(&self.scopes[i], &path) {
                proof {
                    assert(selfv.scopes[i as int] == self.scopes@[i as int]@);
                    assert(!crate::deleg::pathset_matches(selfv.scopes[i as int], path@));
                }
                return Err(TufError::DelegationStructure);
            }
            proof {
                assert(selfv.scopes[i as int] == self.scopes@[i as int]@);
            }
            i = i + 1;
        }
        let TargetsEditor { name, loaded_version, version, expires, targets, delegations, scopes }
            = self;
        let targets = insert_target_entry(targets, path, d);
        Ok(
            TargetsEditor {
                name,
                loaded_version,
                version,
                expires,
                targets,
                delegations,
                scopes,
            },
        )
    }

    /// Removes a target descriptor; removing an absent path changes
    /// nothing.
    pub fn remove_target(self, path: &Vec<u8>) -> (r: Self)
        ensures
            r@ == remove_target_spec(self@, path@),
    {
        let TargetsEditor { name, loaded_version, version, expires, targets, delegations, scopes }
            = self;
        let targets = remove_target_entry(targets, path);
        TargetsEditor { name, loaded_version, version, expires, targets, delegations, scopes }
    }

    /// Registers a public key, optionally authorizing it for a named
    /// delegation entry.
    #[verifier::rlimit(100)]
    pub fn add_key(self, k: Key, role: Option<&Vec<u8>>) -> (r: Result<Self, TufError>)
        ensures
            r matches Ok(e) ==> add_key_spec(
                self@,
                k@,
                match role {
                    Some(rn) => Some(rn@),
                    None => None,
                },
            ) == Ok::<TargetsEditorV, TufError>(e@),
            r matches Err(err) ==> Err::<TargetsEditorV, TufError>(err) == add_key_spec(
                self@,
                k@,
                match role {
                    Some(rn) => Some(rn@),
                    None => None,
                },
            ),
    {
        let ghost selfv = self@;
        let ghost rolev: Option<Seq<u8>> = match role {
            Some(rn) => Some(rn@),
            None => None,
        };
        let TargetsEditor { name, loaded_version, version, expires, targets, delegations, scopes }
            = self;
        let ghost had_delegations = delegations is Some;
        let d = match delegations {
            Some(d) => d,
            None => Delegations { keys: Vec::new(), roles: Vec::new() },
        };
        proof {
            if !had_delegations {
                assert(d@.keys =~= Seq::<(Seq<u8>, KeyV)>::empty());
                assert(d@.roles =~= Seq::<DelegatedRoleV>::empty());
            }
        }
        let kid = key_id(&k);
        let ghost dv = d@;
        let Delegations { keys, roles } = d;
        let ghost rolesv = roles@.map_values(|r: DelegatedRole| r@);
        proof {
            assert(keys@.map_values(|p: (Vec<u8>, Key)| (p.0@, p.1@)) == dv.keys);
            assert(rolesv == dv.roles);
        }
        let new_roles: Vec<DelegatedRole> = match role {
            Some(rn) => {
                let mut found: bool = false;
                let mut i: usize = 0;
                while i < roles.len()
                    invariant
                        i <= roles@.len(),
                        rolesv == roles@.map_values(|r: DelegatedRole| r@),
                        found == exists|t: int|
                            0 <= t < i && (#[trigger] rolesv[t]).name == rn@,
                    decreases roles.len() - i,
                {
                    if !found && bytes_eq(&roles[i].name, rn) {
                        proof {
                            assert(rolesv[i as int].name == rn@);
                        }
                        found = true;
                    }
                    i = i + 1;
                }
                if !found {
                    proof {
                        assert(!has_role(d@, rn@));
                        assert(add_key_spec(selfv, k@, rolev) == Err::<TargetsEditorV, TufError>(
                            TufError::UnknownRole,
                        ));
                    }
                    return Err(TufError::UnknownRole);
                }
                let mut out: Vec<DelegatedRole> = Vec::new();
                let mut it = roles;
                proof {
                    assert(out@.map_values(|r: DelegatedRole| r@)
                        =~= Seq::<DelegatedRoleV>::empty());
                    assert(it@.map_values(|r: DelegatedRole| r@) =~= rolesv);
                    assert(rolesv.skip(0) =~= rolesv);
                    assert(rolesv.map_values(
                        |r: DelegatedRoleV| role_with_added(r, rn@, kid@),
                    ).take(0) =~= Seq::<DelegatedRoleV>::empty());
                }
                let ghost mapped = rolesv.map_values(
                    |r: DelegatedRoleV| role_with_added(r, rn@, kid@),
                );
                while it.len() > 0
                    invariant
                        mapped == rolesv.map_values(
                            |r: DelegatedRoleV| role_with_added(r, rn@, kid@),
                        ),
                        out@.len() + it@.len() == rolesv.len(),
                        out@.map_values(|r: DelegatedRole| r@) == mapped.take(out@.len() as int),
                        it@.map_values(|r: DelegatedRole| r@) == rolesv.skip(out@.len() as int),
                    decreases it@.len(),
                {
                    let ghost outlen = out@.len() as int;
                    let ghost itv = it@.map_values(|r: DelegatedRole| r@);
                    let e0 = it.remove(0);
                    let ghost e0v = e0@;
                    proof {
                        assert(itv[0] == e0v);
                        assert(e0v == rolesv[outlen]);
                        assert(it@.map_values(|r: DelegatedRole| r@) =~= itv.drop_first());
                        assert(itv.drop_first() =~= rolesv.skip(outlen + 1));
                    }
                    if bytes_eq(&e0.name, rn) {
                        let DelegatedRole { name: en, keyids, paths, terminating, threshold } = e0;
                        let mut kc: Vec<u8> = Vec::new();
                        crate::canon::write_bytes(&mut kc, &kid);
                        proof {
                            assert(kc@ =~= kid@);
                        }
                        let keyids2 = ids_add(keyids, kc);
                        let e1 = DelegatedRole {
                            name: en,
                            keyids: keyids2,
                            paths,
                            terminating,
                            threshold,
                        };
                        proof {
                            assert(e1@ == role_with_added(e0v, rn@, kid@));
                        }
                        out.push(e1);
                    } else {
                        proof {
                            assert(e0v == role_with_added(e0v, rn@, kid@));
                        }
                        out.push(e0);
                    }
                    proof {
                        assert(out@.map_values(|r: DelegatedRole| r@) =~= mapped.take(outlen)
                            .push(role_with_added(rolesv[outlen], rn@, kid@)));
                        assert(mapped.take(outlen + 1) =~= mapped.take(outlen).push(
                            mapped[outlen],
                        ));
                    }
                }
                proof {
                    assert(mapped.take(rolesv.len() as int) =~= mapped);
                }
                out
            },
            None => roles,
        };
        let ghost kv = k@;
        let new_keys = insert_key_entry(keys, kid, k);
        let ed = TargetsEditor {
            name,
            loaded_version,
            version,
            expires,
            targets,
            delegations: Some(Delegations { keys: new_keys, roles: new_roles }),
            scopes,
        };
        proof {
            match role {
                Some(rn) => {
                    assert(has_role(dv, rn@));
                },
                None => {},
            }
            assert(add_key_spec(selfv, kv, rolev) == Ok::<TargetsEditorV, TufError>(ed@));
        }
        Ok(ed)
    }

    /// Removes a public key from the scoped key map and, when a role is
    /// named, from that entry's authorized set; refuses a removal that
    /// would leave the named role under its threshold.
    #[verifier::rlimit(100)]
    pub fn remove_key(self, kid: &Vec<u8>, role: Option<&Vec<u8>>) -> (r: Result<Self, TufError>)
        ensures
            r matches Ok(e) ==> remove_key_spec(
                self@,
                kid@,
                match role {
                    Some(rn) => Some(rn@),
                    None => None,
                },
            ) == Ok::<TargetsEditorV, TufError>(e@),
            r matches Err(err) ==> Err::<TargetsEditorV, TufError>(err) == remove_key_spec(
                self@,
                kid@,
                match role {
                    Some(rn) => Some(rn@),
                    None => None,
                },
            ),
    {
        let ghost selfv = self@;
        let ghost rolev: Option<Seq<u8>> = match role {
            Some(rn) => Some(rn@),
            None => None,
        };
        let TargetsEditor { name, loaded_version, version, expires, targets, delegations, scopes }
            = self;
        let d = match delegations {
            Some(d) => d,
            None => {
                return Err(TufError::UnknownRole);
            },
        };
        let ghost dv = d@;
        let Delegations { keys, roles } = d;
        let ghost rolesv = roles@.map_values(|r: DelegatedRole| r@);
        proof {
            assert(keys@.map_values(|p: (Vec<u8>, Key)| (p.0@, p.1@)) == dv.keys);
            assert(rolesv == dv.roles);
        }
        let new_roles: Vec<DelegatedRole> = match role {
            Some(rn) => {
                let mut found: bool = false;
                let mut i: usize = 0;
                while i < roles.len()
                    invariant
                        i <= roles@.len(),
                        rolesv == roles@.map_values(|r: DelegatedRole| r@),
                        found == exists|t: int|
                            0 <= t < i && (#[trigger] rolesv[t]).name == rn@,
                    decreases roles.len() - i,
                {
                    if !found && bytes_eq(&roles[i].name, rn) {
                        proof {
                            assert(rolesv[i as int].name == rn@);
                        }
                        found = true;
                    }
                    i = i + 1;
                }
                if !found {
                    proof {
                        assert(!has_role(dv, rn@));
                    }
                    return Err(TufError::UnknownRole);
                }
                let mut out: Vec<DelegatedRole> = Vec::new();
                let mut it = roles;
                proof {
                    assert(out@.map_values(|r: DelegatedRole| r@)
                        =~= Seq::<DelegatedRoleV>::empty());
                    assert(it@.map_values(|r: DelegatedRole| r@) =~= rolesv);
                    assert(rolesv.skip(0) =~= rolesv);
                    assert(rolesv.map_values(
                        |r: DelegatedRoleV| role_with_removed(r, rn@, kid@),
                    ).take(0) =~= Seq::<DelegatedRoleV>::empty());
                }
                let ghost mapped = rolesv.map_values(
                    |r: DelegatedRoleV| role_with_removed(r, rn@, kid@),
                );
                while it.len() > 0
                    invariant
                        selfv == self@,
                        selfv.delegations == Some(dv),
                        dv.roles == rolesv,
                        has_role(dv, rn@),
                        match role {
                            Some(r2) => r2@ == rn@,
                            None => false,
                        },
                        mapped == rolesv.map_values(
                            |r: DelegatedRoleV| role_with_removed(r, rn@, kid@),
                        ),
                        out@.len() + it@.len() == rolesv.len(),
                        out@.map_values(|r: DelegatedRole| r@) == mapped.take(out@.len() as int),
                        it@.map_values(|r: DelegatedRole| r@) == rolesv.skip(out@.len() as int),
                        forall|t: int|
                            0 <= t < out@.len() ==> !((#[trigger] rolesv[t]).name == rn@
                                && ids_remove_spec(rolesv[t].keyids, kid@).len()
                                < rolesv[t].threshold),
                    decreases it@.len(),
                {
                    let ghost outlen = out@.len() as int;
                    let ghost itv = it@.map_values(|r: DelegatedRole| r@);
                    let e0 = it.remove(0);
                    let ghost e0v = e0@;
                    proof {
                        assert(itv[0] == e0v);
                        assert(e0v == rolesv[outlen]);
                        assert(it@.map_values(|r: DelegatedRole| r@) =~= itv.drop_first());
                        assert(itv.drop_first() =~= rolesv.skip(outlen + 1));
                    }
                    if bytes_eq(&e0.name, rn) {
                        let DelegatedRole { name: en, keyids, paths, terminating, threshold } = e0;
                        let keyids2 = ids_remove(keyids, kid);
                        if (keyids2.len() as u64) < threshold {
                            proof {
                                assert(keyids2@.map_values(|x: Vec<u8>| x@).len()
                                    == ids_remove_spec(e0v.keyids, kid@).len());
                                assert(dv.roles[outlen] == e0v);
                                assert(dv.roles[outlen].name == rn@);
                                assert(ids_remove_spec(dv.roles[outlen].keyids, kid@).len()
                                    < dv.roles[outlen].threshold);
                                assert(removal_breaks_threshold(dv, rn@, kid@));
                            }
                            return Err(TufError::ThresholdNotMet);
                        }
                        let e1 = DelegatedRole {
                            name: en,
                            keyids: keyids2,
                            paths,
                            terminating,
                            threshold,
                        };
                        proof {
                            assert(e1@ == role_with_removed(e0v, rn@, kid@));
                        }
                        out.push(e1);
                    } else {
                        proof {
                            assert(e0v == role_with_removed(e0v, rn@, kid@));
                        }
                        out.push(e0);
                    }
                    proof {
                        assert(out@.map_values(|r: DelegatedRole| r@) =~= mapped.take(outlen)
                            .push(role_with_removed(rolesv[outlen], rn@, kid@)));
                        assert(mapped.take(outlen + 1) =~= mapped.take(outlen).push(
                            mapped[outlen],
                        ));
                    }
                }
                proof {
                    assert(mapped.take(rolesv.len() as int) =~= mapped);
                    assert(!removal_breaks_threshold(dv, rn@, kid@));
                }
                out
            },
            None => roles,
        };
        let new_keys = crate::maps::remove_key_entry(keys, kid);
        let ed = TargetsEditor {
            name,
            loaded_version,
            version,
            expires,
            targets,
            delegations: Some(Delegations { keys: new_keys, roles: new_roles }),
            scopes,
        };
        proof {
            assert(selfv.delegations == Some(dv));
            match role {
                Some(rn) => {
                    assert(has_role(dv, rn@));
                    assert(!removal_breaks_threshold(dv, rn@, kid@));
                },
                None => {},
            }
            assert(remove_key_spec(selfv, kid@, rolev) == Ok::<TargetsEditorV, TufError>(ed@));
        }
        Ok(ed)
    }
}


/// Removal of every delegation entry with the name.
pub open spec fn roles_remove_spec(s: Seq<DelegatedRoleV>, name: Seq<u8>) -> Seq<DelegatedRoleV>
    decreases s.len(),
{
    if s.len() == 0 {
        s
    } else if s[0].name == name {
        roles_remove_spec(s.drop_first(), name)
    } else {
        seq![s[0]] + roles_remove_spec(s.drop_first(), name)
    }
}

impl TargetsEditor {
    /// Adds a new delegation entry; a name already delegated from this
    /// document is refused.
    pub fn add_role(self, entry: DelegatedRole) -> (r: Result<Self, TufError>)
        ensures
            match r {
                Ok(e) => {
                    let d0 = match self@.delegations {
                        Some(d) => d,
                        None => DelegationsV { keys: Seq::empty(), roles: Seq::empty() },
                    };
                    &&& !has_role(d0, entry@.name)
                    &&& e@ == (TargetsEditorV {
                        delegations: Some(
                            DelegationsV { keys: d0.keys, roles: d0.roles.push(entry@) },
                        ),
                        ..self@
                    })
                },
                Err(err) => err == TufError::DuplicateRole && match self@.delegations {
                    Some(d) => has_role(d, entry@.name),
                    None => false,
                },
            },
    {
        let ghost selfv = self@;
        let TargetsEditor { name, loaded_version, version, expires, targets, delegations, scopes }
            = self;
        let ghost had_delegations = delegations is Some;
        let d = match delegations {
            Some(d) => d,
            None => Delegations { keys: Vec::new(), roles: Vec::new() },
        };
        proof {
            if !had_delegations {
                assert(d@.keys =~= Seq::<(Seq<u8>, KeyV)>::empty());
                assert(d@.roles =~= Seq::<DelegatedRoleV>::empty());
            }
        }
        let ghost dv = d@;
        let Delegations { keys, mut roles } = d;
        let ghost rolesv = roles@.map_values(|r: DelegatedRole| r@);
        proof {
            assert(rolesv == dv.roles);
            assert(keys@.map_values(|p: (Vec<u8>, Key)| (p.0@, p.1@)) == dv.keys);
        }
        let mut i: usize = 0;
        while i < roles.len()
            invariant
                i <= roles@.len(),
                selfv == self@,
                had_delegations ==> selfv.delegations == Some(dv),
                !had_delegations ==> selfv.delegations is None && rolesv.len() == 0,
                dv.roles == rolesv,
                rolesv == roles@.map_values(|r: DelegatedRole| r@),
                forall|t: int| 0 <= t < i ==> (#[trigger] rolesv[t]).name != entry@.name,
            decreases roles.len() - i,
        {
            if bytes_eq(&roles[i].name, &entry.name) {
                proof {
                    assert(rolesv[i as int].name == entry@.name);
                    assert(has_role(dv, entry@.name));
                }
                return Err(TufError::DuplicateRole);
            }
            i = i + 1;
        }
        let ghost entryv = entry@;
        roles.push(entry);
        proof {
            assert(roles@.map_values(|r: DelegatedRole| r@) =~= rolesv.push(entryv));
        }
        let ed = TargetsEditor {
            name,
            loaded_version,
            version,
            expires,
            targets,
            delegations: Some(Delegations { keys, roles }),
            scopes,
        };
        proof {
            assert(!has_role(dv, entryv.name));
            if had_delegations {
                assert(selfv.delegations == Some(dv));
            } else {
                assert(dv == (DelegationsV {
                    keys: Seq::<(Seq<u8>, KeyV)>::empty(),
                    roles: Seq::<DelegatedRoleV>::empty(),
                }));
            }
            assert(ed@.delegations == Some(
                DelegationsV { keys: dv.keys, roles: dv.roles.push(entryv) },
            ));
        }
        Ok(ed)
    }

    /// Removes a delegation entry by name. A name this document does not
    /// delegate directly is refused: with `recursive` it is simply not in
    /// the working set, without it the caller asked for a direct child.
    pub fn remove_role(self, role_name: &Vec<u8>, recursive: bool) -> (r: Result<Self, TufError>)
        ensures
            match r {
                Ok(e) => {
                    let d0 = match self@.delegations {
                        Some(d) => d,
                        None => DelegationsV { keys: Seq::empty(), roles: Seq::empty() },
                    };
                    &&& has_role(d0, role_name@)
                    &&& e@ == (TargetsEditorV {
                        delegations: Some(
                            DelegationsV {
                                keys: d0.keys,
                                roles: roles_remove_spec(d0.roles, role_name@),
                            },
                        ),
                        ..self@
                    })
                },
                Err(err) => {
                    &&& err == (if recursive {
                        TufError::UnknownRole
                    } else {
                        TufError::NotDirectDelegatee
                    })
                    &&& match self@.delegations {
                        Some(d) => !has_role(d, role_name@),
                        None => true,
                    }
                },
            },
    {
        let ghost selfv = self@;
        let TargetsEditor { name, loaded_version, version, expires, targets, delegations, scopes }
            = self;
        let ghost had_delegations = delegations is Some;
        let d = match delegations {
            Some(d) => d,
            None => Delegations { keys: Vec::new(), roles: Vec::new() },
        };
        proof {
            if !had_delegations {
                assert(d@.keys =~= Seq::<(Seq<u8>, KeyV)>::empty());
                assert(d@.roles =~= Seq::<DelegatedRoleV>::empty());
            }
        }
        let ghost dv = d@;
        let Delegations { keys, roles } = d;
        let ghost rolesv = roles@.map_values(|r: DelegatedRole| r@);
        proof {
            assert(rolesv == dv.roles);
            assert(keys@.map_values(|p: (Vec<u8>, Key)| (p.0@, p.1@)) == dv.keys);
        }
        let mut found: bool = false;
        let mut i: usize = 0;
        while i < roles.len()
            invariant
                i <= roles@.len(),
                rolesv == roles@.map_values(|r: DelegatedRole| r@),
                found == exists|t: int| 0 <= t < i && (#[trigger] rolesv[t]).name == role_name@,
            decreases roles.len() - i,
        {
            if !found && bytes_eq(&roles[i].name, role_name) {
                proof {
                    assert(rolesv[i as int].name == role_name@);
                }
                found = true;
            }
            i = i + 1;
        }
        if !found {
            if recursive {
                return Err(TufError::UnknownRole);
            }
            return Err(TufError::NotDirectDelegatee);
        }
        let mut out: Vec<DelegatedRole> = Vec::new();
        let mut it = roles;
        proof {
            assert(out@.map_values(|r: DelegatedRole| r@) =~= Seq::<DelegatedRoleV>::empty());
            assert(it@.map_values(|r: DelegatedRole| r@) =~= rolesv);
            assert(out@.map_values(|r: DelegatedRole| r@) + roles_remove_spec(rolesv, role_name@)
                =~= roles_remove_spec(rolesv, role_name@));
        }
        while it.len() > 0
            invariant
                roles_remove_spec(rolesv, role_name@) == out@.map_values(|r: DelegatedRole| r@)
                    + roles_remove_spec(it@.map_values(|r: DelegatedRole| r@), role_name@),
            decreases it@.len(),
        {
            let ghost outv = out@.map_values(|r: DelegatedRole| r@);
            let ghost itv = it@.map_values(|r: DelegatedRole| r@);
            let e0 = it.remove(0);
            let ghost e0v = e0@;
            proof {
                assert(itv[0] == e0v);
                assert(it@.map_values(|r: DelegatedRole| r@) =~= itv.drop_first());
            }
            if bytes_eq(&e0.name, role_name) {
                proof {
                    assert(roles_remove_spec(itv, role_name@) == roles_remove_spec(
                        itv.drop_first(),
                        role_name@,
                    ));
                }
            } else {
                out.push(e0);
                proof {
                    assert(roles_remove_spec(itv, role_name@) =~= seq![e0v] + roles_remove_spec(
                        itv.drop_first(),
                        role_name@,
                    ));
                    assert(out@.map_values(|r: DelegatedRole| r@) =~= outv + seq![e0v]);
                    assert(outv + (seq![e0v] + roles_remove_spec(itv.drop_first(), role_name@))
                        =~= (outv + seq![e0v]) + roles_remove_spec(itv.drop_first(), role_name@));
                }
            }
        }
        proof {
            let itv = it@.map_values(|r: DelegatedRole| r@);
            assert(itv =~= Seq::<DelegatedRoleV>::empty());
            assert(out@.map_values(|r: DelegatedRole| r@) + roles_remove_spec(itv, role_name@)
                =~= out@.map_values(|r: DelegatedRole| r@));
        }
        Ok(
            TargetsEditor {
                name,
                loaded_version,
                version,
                expires,
                targets,
                delegations: Some(Delegations { keys, roles: out }),
                scopes,
            },
        )
    }
}

/// Removing a target path twice leaves the draft exactly as removing it
/// once: `remove_target` is idempotent.
pub proof fn lemma_remove_target_idempotent(e: TargetsEditorV, path: Seq<u8>)
    ensures
        remove_target_spec(remove_target_spec(e, path), path) == remove_target_spec(e, path),
{
    lemma_map_remove_idempotent(e.targets, path);
}

/// Registering the same key twice, for the same optional role, leaves the
/// draft exactly as registering it once: `add_key` is idempotent.
pub proof fn lemma_add_key_idempotent(e: TargetsEditorV, k: KeyV, role: Option<Seq<u8>>)
    requires
        add_key_spec(e, k, role) is Ok,
    ensures
        add_key_spec(add_key_spec(e, k, role)->Ok_0, k, role) == add_key_spec(e, k, role),
{
    let kid = key_id_of(k);
    let d = match e.delegations {
        Some(d) => d,
        None => DelegationsV { keys: Seq::empty(), roles: Seq::empty() },
    };
    let e1 = add_key_spec(e, k, role)->Ok_0;
    let d1 = e1.delegations->Some_0;
    lemma_map_insert_idempotent(d.keys, kid, k);
    match role {
        Some(rn) => {
            assert(has_role(d, rn));
            let i = choose|i: int| 0 <= i < d.roles.len() && (#[trigger] d.roles[i]).name == rn;
            assert(d1.roles[i].name == rn);
            assert(has_role(d1, rn));
            let m1 = d.roles.map_values(|r: DelegatedRoleV| role_with_added(r, rn, kid));
            let m2 = m1.map_values(|r: DelegatedRoleV| role_with_added(r, rn, kid));
            assert forall|t: int| 0 <= t < m1.len() implies #[trigger] m2[t] == m1[t] by {
                lemma_ids_add_idempotent(d.roles[t].keyids, kid);
            }
            assert(m2 =~= m1);
        },
        None => {},
    }
}

/// The view of a signature list.
pub open spec fn filter_sigs_arg(s: Seq<Signature>) -> Seq<SignatureV> {
    s.map_values(|x: Signature| x@)
}

/// Whether one signature survives the authorization filter: its key is
/// authorized, known, and its signature valid over the message.
pub open spec fn keep_sig(
    keys: Seq<(Seq<u8>, KeyV)>,
    role: RoleKeysV,
    msg: Seq<u8>,
    s: SignatureV,
) -> bool {
    role.keyids.contains(s.keyid) && map_has(keys, s.keyid) && sig_valid(
        map_get(keys, s.keyid),
        msg,
        s.sig,
    )
}

/// The signatures that survive the filter, in their given order.
pub open spec fn filter_sigs(
    keys: Seq<(Seq<u8>, KeyV)>,
    role: RoleKeysV,
    msg: Seq<u8>,
    sigs: Seq<SignatureV>,
) -> Seq<SignatureV>
    decreases sigs.len(),
{
    if sigs.len() == 0 {
        sigs
    } else if keep_sig(keys, role, msg, sigs[0]) {
        seq![sigs[0]] + filter_sigs(keys, role, msg, sigs.drop_first())
    } else {
        filter_sigs(keys, role, msg, sigs.drop_first())
    }
}

/// Every retained signature is by an authorized key.
pub proof fn lemma_filter_sigs_authorized(
    keys: Seq<(Seq<u8>, KeyV)>,
    role: RoleKeysV,
    msg: Seq<u8>,
    sigs: Seq<SignatureV>,
)
    ensures
        forall|i: int|
            0 <= i < filter_sigs(keys, role, msg, sigs).len() ==> role.keyids.contains(
                (#[trigger] filter_sigs(keys, role, msg, sigs)[i]).keyid,
            ),
    decreases sigs.len(),
{
    if sigs.len() > 0 {
        lemma_filter_sigs_authorized(keys, role, msg, sigs.drop_first());
        let f = filter_sigs(keys, role, msg, sigs);
        let fr = filter_sigs(keys, role, msg, sigs.drop_first());
        if keep_sig(keys, role, msg, sigs[0]) {
            assert forall|i: int| 0 <= i < f.len() implies role.keyids.contains(
                (#[trigger] f[i]).keyid,
            ) by {
                if i > 0 {
                    assert(f[i] == fr[i - 1]);
                }
            }
        }
    }
}

/// Freezes a draft body: keeps exactly the provided signatures that are by
/// authorized, known keys and valid over the body's canonical bytes, and
/// demands that the distinct count reach the role's threshold.
pub fn attach_signatures(
    body: RoleBody,
    provided: Vec<Signature>,
    keys: &Vec<(Vec<u8>, Key)>,
    role: &RoleKeys,
) -> (r: Result<SignedRole, TufError>)
    requires
        sorted_keys(keys@.map_values(|p: (Vec<u8>, Key)| (p.0@, p.1@))),
    ensures
        match r {
            Ok(d) => {
                let kview = keys@.map_values(|p: (Vec<u8>, Key)| (p.0@, p.1@));
                let msg = crate::schema::canon_body(body@);
                &&& d@.body == body@
                &&& d@.signatures == filter_sigs(
                    kview,
                    role@,
                    msg,
                    provided@.map_values(|s: Signature| s@),
                )
                &&& count_valid(kview, role@, msg, d@.signatures) >= role@.threshold
            },
            Err(e) => e == TufError::ThresholdNotMet && count_valid(
                keys@.map_values(|p: (Vec<u8>, Key)| (p.0@, p.1@)),
                role@,
                crate::schema::canon_body(body@),
                filter_sigs(
                    keys@.map_values(|p: (Vec<u8>, Key)| (p.0@, p.1@)),
                    role@,
                    crate::schema::canon_body(body@),
                    provided@.map_values(|s: Signature| s@),
                ),
            ) < role@.threshold,
        },
{
    let ghost kview = keys@.map_values(|p: (Vec<u8>, Key)| (p.0@, p.1@));
    let msg = crate::emit::canon_bytes_body(&body);
    let ghost pview = provided@.map_values(|s: Signature| s@);
    let mut kept: Vec<Signature> = Vec::new();
    let mut it = provided;
    proof {
        assert(kept@.map_values(|s: Signature| s@) =~= Seq::<SignatureV>::empty());
        assert(it@.map_values(|s: Signature| s@) =~= pview);
        assert(kept@.map_values(|s: Signature| s@) + filter_sigs(kview, role@, msg@, pview)
            =~= filter_sigs(kview, role@, msg@, pview));
    }
    while it.len() > 0
        invariant
            kview == keys@.map_values(|p: (Vec<u8>, Key)| (p.0@, p.1@)),
            sorted_keys(kview),
            msg@ == crate::schema::canon_body(body@),
            pview == filter_sigs_arg(provided@),
            filter_sigs(kview, role@, msg@, pview) == kept@.map_values(|s: Signature| s@)
                + filter_sigs(kview, role@, msg@, it@.map_values(|s: Signature| s@)),
        decreases it@.len(),
    {
        let ghost keptv = kept@.map_values(|s: Signature| s@);
        let ghost itv = it@.map_values(|s: Signature| s@);
        let s = it.remove(0);
        let ghost sv = s@;
        proof {
            assert(itv[0] == sv);
            assert(it@.map_values(|s: Signature| s@) =~= itv.drop_first());
        }
        let mut keeps: bool = false;
        if keyids_contains(&role.keyids, &s.keyid) {
            match find_key(keys, &s.keyid) {
                Some(ix) => {
                    proof {
                        lemma_map_get_at(kview, ix as int);
                    }
                    if crate::crypto::check_sig(&keys[ix].1, &msg, &s.sig) {
                        keeps = true;
                    }
                },
                None => {},
            }
        }
        proof {
            assert(keeps == keep_sig(kview, role@, msg@, sv));
        }
        if keeps {
            kept.push(s);
            proof {
                assert(kept@.map_values(|s: Signature| s@) =~= keptv.push(sv));
                assert(filter_sigs(kview, role@, msg@, itv) =~= seq![sv] + filter_sigs(
                    kview,
                    role@,
                    msg@,
                    itv.drop_first(),
                ));
                assert(keptv + (seq![sv] + filter_sigs(kview, role@, msg@, itv.drop_first()))
                    =~= keptv.push(sv) + filter_sigs(kview, role@, msg@, itv.drop_first()));
            }
        } else {
            proof {
                assert(filter_sigs(kview, role@, msg@, itv) == filter_sigs(
                    kview,
                    role@,
                    msg@,
                    itv.drop_first(),
                ));
            }
        }
    }
    proof {
        let itv = it@.map_values(|s: Signature| s@);
        assert(itv =~= Seq::<SignatureV>::empty());
        assert(filter_sigs(kview, role@, msg@, itv) == itv);
        assert(kept@.map_values(|s: Signature| s@) + filter_sigs(kview, role@, msg@, itv)
            =~= kept@.map_values(|s: Signature| s@));
    }
    let n = count_valid_sigs(keys, role, &msg, &kept);
    if (n as u64) < role.threshold {
        return Err(TufError::ThresholdNotMet);
    }
    Ok(SignedRole { signatures: kept, body })
}

/// After removing a key and re-signing, the frozen document carries no
/// signature by the removed key, and still meets the role's threshold: the
/// filter only keeps authorized keys, and the removed key is authorized no
/// longer.
pub proof fn lemma_removed_key_absent_after_sign(
    keys: Seq<(Seq<u8>, KeyV)>,
    oldids: Seq<Seq<u8>>,
    threshold: nat,
    kid: Seq<u8>,
    msg: Seq<u8>,
    provided: Seq<SignatureV>,
)
    ensures
        forall|i: int|
            0 <= i < filter_sigs(
                keys,
                RoleKeysV { keyids: ids_remove_spec(oldids, kid), threshold },
                msg,
                provided,
            ).len() ==> (#[trigger] filter_sigs(
                keys,
                RoleKeysV { keyids: ids_remove_spec(oldids, kid), threshold },
                msg,
                provided,
            )[i]).keyid != kid,
{
    let role = RoleKeysV { keyids: ids_remove_spec(oldids, kid), threshold };
    lemma_ids_remove_gone(oldids, kid);
    lemma_filter_sigs_authorized(keys, role, msg, provided);
}

/// The meta entry a written document earns: its new version, its canonical
/// byte count, and the lowercase hex SHA-256 of its canonical bytes.
pub open spec fn meta_entry_of(version: nat, bytes: Seq<u8>) -> MetaEntryV {
    MetaEntryV { sha256: Some(hex_of(sha256_of(bytes))), length: Some(bytes.len()), version }
}

/// A snapshot whose meta map binds, for every written targets document, its
/// file name to exactly that document's new version, canonical length and
/// canonical hash.
pub fn build_snapshot(
    docs: &Vec<(Vec<u8>, u64, Vec<u8>)>,
    version: u64,
    expires: Vec<u8>,
) -> (r: Snapshot)
    requires
        forall|i: int, j: int|
            0 <= i < j < docs@.len() ==> (#[trigger] docs@[i]).0@ != (#[trigger] docs@[j]).0@,
    ensures
        r@.version == version,
        r@.expires == expires@,
        crate::schema::wf_snapshot(r@),
        forall|i: int|
            0 <= i < docs@.len() ==> {
                let name = (#[trigger] docs@[i]).0@ + s_json_suffix();
                map_has(r@.meta, name) && map_get(r@.meta, name) == meta_entry_of(
                    docs@[i].1 as nat,
                    docs@[i].2@,
                )
            },
{
    let mut meta: Vec<(Vec<u8>, MetaEntry)> = Vec::new();
    let mut i: usize = 0;
    proof {
        assert(meta@.map_values(|p: (Vec<u8>, MetaEntry)| (p.0@, p.1@))
            =~= Seq::<(Seq<u8>, MetaEntryV)>::empty());
    }
    while i < docs.len()
        invariant
            i <= docs@.len(),
            forall|a: int, b: int|
                0 <= a < b < docs@.len() ==> (#[trigger] docs@[a]).0@ != (#[trigger] docs@[b]).0@,
            sorted_keys(meta@.map_values(|p: (Vec<u8>, MetaEntry)| (p.0@, p.1@))),
            forall|t: int|
                0 <= t < i ==> {
                    let name = (#[trigger] docs@[t]).0@ + s_json_suffix();
                    map_has(meta@.map_values(|p: (Vec<u8>, MetaEntry)| (p.0@, p.1@)), name)
                        && map_get(
                        meta@.map_values(|p: (Vec<u8>, MetaEntry)| (p.0@, p.1@)),
                        name,
                    ) == meta_entry_of(docs@[t].1 as nat, docs@[t].2@)
                },
        decreases docs.len() - i,
    {
        let mut name: Vec<u8> = Vec::new();
        crate::canon::write_bytes(&mut name, &docs[i].0);
        let suffix = v_json_suffix();
        crate::canon::write_bytes(&mut name, &suffix);
        let d = sha256(&docs[i].2);
        let hx = encode_hex(&d);
        let entry = MetaEntry {
            sha256: Some(hx),
            length: Some(docs[i].2.len() as u64),
            version: docs[i].1,
        };
        let ghost namev = name@;
        let ghost entryv = entry@;
        let ghost metav0 = meta@.map_values(|p: (Vec<u8>, MetaEntry)| (p.0@, p.1@));
        meta = crate::maps::insert_metaentry_entry(meta, name, entry);
        proof {
            assert(namev =~= docs@[i as int].0@ + s_json_suffix());
            assert(entryv == meta_entry_of(docs@[i as int].1 as nat, docs@[i as int].2@));
            crate::maps::lemma_map_insert_sorted(metav0, namev, entryv);
            crate::maps::lemma_map_insert_get(metav0, namev, entryv);
            assert forall|t: int| 0 <= t < i + 1 implies {
                let name2 = (#[trigger] docs@[t]).0@ + s_json_suffix();
                map_has(meta@.map_values(|p: (Vec<u8>, MetaEntry)| (p.0@, p.1@)), name2)
                    && map_get(
                    meta@.map_values(|p: (Vec<u8>, MetaEntry)| (p.0@, p.1@)),
                    name2,
                ) == meta_entry_of(docs@[t].1 as nat, docs@[t].2@)
            } by {
                let name2 = docs@[t].0@ + s_json_suffix();
                if t < i {
                    assert(name2 != namev) by {
                        if name2 == namev {
                            assert(docs@[t].0@.len() == docs@[i as int].0@.len());
                            assert forall|x: int| 0 <= x < docs@[t].0@.len() implies docs@[t].0@[x]
                                == docs@[i as int].0@[x] by {
                                assert(name2[x] == docs@[t].0@[x]);
                                assert(namev[x] == docs@[i as int].0@[x]);
                            }
                            assert(docs@[t].0@ =~= docs@[i as int].0@);
                        }
                    }
                    crate::maps::lemma_map_insert_get_other(metav0, namev, entryv, name2);
                }
            }
        }
        i = i + 1;
    }
    Snapshot { expires, meta, version }
}

/// A timestamp whose single meta entry names the written snapshot with its
/// version, canonical length and canonical hash.
pub fn build_timestamp(
    snapshot_bytes: &Vec<u8>,
    snapshot_version: u64,
    version: u64,
    expires: Vec<u8>,
) -> (r: Timestamp)
    ensures
        r@.version == version,
        r@.expires == expires@,
        r@.snapshot_meta.version == snapshot_version,
        r@.snapshot_meta.length == Some(snapshot_bytes@.len() as nat),
        r@.snapshot_meta.sha256 == Some(hex_of(sha256_of(snapshot_bytes@))),
{
    let d = sha256(snapshot_bytes);
    let hx = encode_hex(&d);
    Timestamp {
        expires,
        snapshot_meta: MetaEntry {
            sha256: Some(hx),
            length: Some(snapshot_bytes.len() as u64),
            version: snapshot_version,
        },
        version,
    }
}

} // verus!
