//! Executable canonical serialization: each writer appends exactly the
//! canonical byte encoding of its argument, as `schema` specifies it.

use vstd::prelude::*;

use crate::canon::dec_of;
use crate::canon::quoted;
use crate::canon::write_bytes;
use crate::canon::write_dec;
use crate::canon::write_quoted;
use crate::lits::v_consistent_snapshot;
use crate::lits::v_delegations;
use crate::lits::v_expires;
use crate::lits::v_hashes;
use crate::lits::v_keyid;
use crate::lits::v_keyids;
use crate::lits::v_keys;
use crate::lits::v_keytype;
use crate::lits::v_keyval;
use crate::lits::v_length;
use crate::lits::v_meta;
use crate::lits::v_name;
use crate::lits::v_one_zero_zero;
use crate::lits::v_path_hash_prefixes;
use crate::lits::v_paths;
use crate::lits::v_public;
use crate::lits::v_roles;
use crate::lits::v_root;
use crate::lits::v_scheme;
use crate::lits::v_sha256;
use crate::lits::v_sha512;
use crate::lits::v_sig;
use crate::lits::v_signatures;
use crate::lits::v_signed;
use crate::lits::v_snapshot;
use crate::lits::v_snapshot_json;
use crate::lits::v_spec_version;
use crate::lits::v_targets;
use crate::lits::v_terminating;
use crate::lits::v_threshold;
use crate::lits::v_timestamp;
use crate::lits::v_type_tag;
use crate::lits::v_version;
use crate::lits::w_false_word;
use crate::lits::w_true_word;
use crate::schema::bool_lit;
use crate::schema::canon_body;
use crate::schema::canon_delegated_role;
use crate::schema::canon_delegations;
use crate::schema::canon_key;
use crate::schema::canon_key_map;
use crate::schema::canon_meta_entry;
use crate::schema::canon_meta_map;
use crate::schema::canon_role_keys;
use crate::schema::canon_root;
use crate::schema::canon_signature;
use crate::schema::canon_signed;
use crate::schema::canon_snapshot;
use crate::schema::canon_str_array;
use crate::schema::canon_target_desc;
use crate::schema::canon_targets;
use crate::schema::canon_targets_map;
use crate::schema::canon_timestamp;
use crate::schema::join_comma;
use crate::schema::lemma_join_comma_push;
use crate::schema::mname;
use crate::schema::Delegations;
use crate::schema::DelegatedRole;
use crate::schema::Key;
use crate::schema::MetaEntry;
use crate::schema::PathSet;
use crate::schema::RoleBody;
use crate::schema::RoleKeys;
use crate::schema::Root;
use crate::schema::Signature;
use crate::schema::SignedRole;
use crate::schema::Snapshot;
use crate::schema::TargetDesc;
use crate::schema::Targets;
use crate::schema::Timestamp;

verus! {

/// Appends a fixed object key: quote, name, quote, colon.
pub fn write_mname(out: &mut Vec<u8>, name: &Vec<u8>)
    ensures
        final(out)@ == old(out)@ + mname(name@),
{
    out.push(34);
    write_bytes(out, name);
    out.push(34);
    out.push(58);
    proof {
        assert(out@ =~= old(out)@ + mname(name@));
    }
}

/// Appends `true` or `false`.
pub fn write_bool(out: &mut Vec<u8>, b: bool)
    ensures
        final(out)@ == old(out)@ + bool_lit(b),
{
    if b {
        w_true_word(out);
    } else {
        w_false_word(out);
    }
}

/// Appends a canonical array of quoted strings.
pub fn write_str_array(out: &mut Vec<u8>, xs: &Vec<Vec<u8>>)
    ensures
        final(out)@ == old(out)@ + canon_str_array(xs@.map_values(|x: Vec<u8>| x@)),
{
    let ghost view = xs@.map_values(|x: Vec<u8>| x@);
    let ghost mapped = view.map_values(|x: Seq<u8>| quoted(x));
    out.push(91);
    let mut i: usize = 0;
    proof {
        assert(mapped.take(0) =~= Seq::<Seq<u8>>::empty());
        assert(out@ =~= old(out)@ + seq![91u8] + join_comma(mapped.take(0)));
    }
    while i < xs.len()
        invariant
            i <= xs@.len(),
            view == xs@.map_values(|x: Vec<u8>| x@),
            mapped == view.map_values(|x: Seq<u8>| quoted(x)),
            out@ == old(out)@ + seq![91u8] + join_comma(mapped.take(i as int)),
        decreases xs.len() - i,
    {
        if i > 0 {
            out.push(44);
        }
        write_quoted(out, &xs[i]);
        proof {
            assert(mapped.take(i + 1) =~= mapped.take(i as int).push(quoted(xs@[i as int]@)));
            lemma_join_comma_push(mapped.take(i as int), quoted(xs@[i as int]@));
            assert(out@ =~= old(out)@ + seq![91u8] + join_comma(mapped.take(i + 1)));
        }
        i = i + 1;
    }
    out.push(93);
    proof {
        assert(mapped.take(xs@.len() as int) =~= mapped);
        assert(out@ =~= old(out)@ + canon_str_array(view));
    }
}

/// Appends a canonical key object.
pub fn write_key(out: &mut Vec<u8>, k: &Key)
    ensures
        final(out)@ == old(out)@ + canon_key(k@),
{
    out.push(123);
    write_mname(out, &v_keytype());
    write_quoted(out, &k.keytype);
    out.push(44);
    write_mname(out, &v_keyval());
    out.push(123);
    write_mname(out, &v_public());
    write_quoted(out, &k.public);
    out.push(125);
    out.push(44);
    write_mname(out, &v_scheme());
    write_quoted(out, &k.scheme);
    out.push(125);
    proof {
        assert(out@ =~= old(out)@ + canon_key(k@));
    }
}

/// Appends a canonical map from key identifier to key object.
pub fn write_key_map(out: &mut Vec<u8>, keys: &Vec<(Vec<u8>, Key)>)
    ensures
        final(out)@ == old(out)@ + canon_key_map(
            keys@.map_values(|p: (Vec<u8>, Key)| (p.0@, p.1@)),
        ),
{
    let ghost view = keys@.map_values(|p: (Vec<u8>, Key)| (p.0@, p.1@));
    let ghost mapped = view.map_values(
        |p: (Seq<u8>, crate::schema::KeyV)| quoted(p.0) + seq![58u8] + canon_key(p.1),
    );
    out.push(123);
    let mut i: usize = 0;
    proof {
        assert(mapped.take(0) =~= Seq::<Seq<u8>>::empty());
        assert(out@ =~= old(out)@ + seq![123u8] + join_comma(mapped.take(0)));
    }
    while i < keys.len()
        invariant
            i <= keys@.len(),
            view == keys@.map_values(|p: (Vec<u8>, Key)| (p.0@, p.1@)),
            mapped == view.map_values(
                |p: (Seq<u8>, crate::schema::KeyV)| quoted(p.0) + seq![58u8] + canon_key(p.1),
            ),
            out@ == old(out)@ + seq![123u8] + join_comma(mapped.take(i as int)),
        decreases keys.len() - i,
    {
        if i > 0 {
            out.push(44);
        }
        write_quoted(out, &keys[i].0);
        out.push(58);
        write_key(out, &keys[i].1);
        proof {
            let ghost piece = quoted(keys@[i as int].0@) + seq![58u8] + canon_key(keys@[i as int].1@);
            assert(mapped[i as int] == piece);
            assert(mapped.take(i + 1) =~= mapped.take(i as int).push(piece));
            lemma_join_comma_push(mapped.take(i as int), piece);
            assert(out@ =~= old(out)@ + seq![123u8] + join_comma(mapped.take(i + 1)));
        }
        i = i + 1;
    }
    out.push(125);
    proof {
        assert(mapped.take(keys@.len() as int) =~= mapped);
        assert(out@ =~= old(out)@ + canon_key_map(view));
    }
}

/// Appends a canonical role key assignment.
pub fn write_role_keys(out: &mut Vec<u8>, r: &RoleKeys)
    ensures
        final(out)@ == old(out)@ + canon_role_keys(r@),
{
    out.push(123);
    write_mname(out, &v_keyids());
    write_str_array(out, &r.keyids);
    out.push(44);
    write_mname(out, &v_threshold());
    write_dec(out, r.threshold);
    out.push(125);
    proof {
        assert(out@ =~= old(out)@ + canon_role_keys(r@));
    }
}

/// Appends the canonical object of the four top-level role key assignments.
pub fn write_root_roles(out: &mut Vec<u8>, r: &Root)
    ensures
        final(out)@ == old(out)@ + crate::schema::canon_root_roles(r@),
{
    out.push(123);
    write_mname(out, &v_root());
    write_role_keys(out, &r.root);
    out.push(44);
    write_mname(out, &v_snapshot());
    write_role_keys(out, &r.snapshot);
    out.push(44);
    proof {
        assert(out@ =~= old(out)@ + crate::schema::canon_roles_head(r@.root, r@.snapshot));
    }
    let ghost h = out@;
    write_mname(out, &v_targets());
    write_role_keys(out, &r.targets);
    out.push(44);
    write_mname(out, &v_timestamp());
    write_role_keys(out, &r.timestamp);
    out.push(125);
    proof {
        assert(out@ =~= h + crate::schema::canon_roles_tail(r@.targets, r@.timestamp));
        assert(out@ =~= old(out)@ + crate::schema::canon_root_roles(r@));
    }
}

/// Appends the canonical root payload.
#[verifier::rlimit(100)]
pub fn write_root(out: &mut Vec<u8>, r: &Root)
    ensures
        final(out)@ == old(out)@ + canon_root(r@),
{
    out.push(123);
    write_mname(out, &v_type_tag());
    write_quoted(out, &v_root());
    out.push(44);
    write_mname(out, &v_consistent_snapshot());
    write_bool(out, r.consistent_snapshot);
    out.push(44);
    write_mname(out, &v_expires());
    write_quoted(out, &r.expires);
    out.push(44);
    write_mname(out, &v_keys());
    write_key_map(out, &r.keys);
    out.push(44);
    write_mname(out, &v_roles());
    write_root_roles(out, r);
    out.push(44);
    write_mname(out, &v_spec_version());
    write_quoted(out, &v_one_zero_zero());
    out.push(44);
    write_mname(out, &v_version());
    write_dec(out, r.version);
    out.push(125);
    proof {
        assert(out@ =~= old(out)@ + canon_root(r@));
    }
}

/// Appends a canonical meta entry.
pub fn write_meta_entry(out: &mut Vec<u8>, m: &MetaEntry)
    ensures
        final(out)@ == old(out)@ + canon_meta_entry(m@),
{
    out.push(123);
    match &m.sha256 {
        Some(h) => {
            write_mname(out, &v_hashes());
            out.push(123);
            write_mname(out, &v_sha256());
            write_quoted(out, h);
            out.push(125);
            out.push(44);
        },
        None => {},
    }
    match &m.length {
        Some(l) => {
            write_mname(out, &v_length());
            write_dec(out, *l);
            out.push(44);
        },
        None => {},
    }
    write_mname(out, &v_version());
    write_dec(out, m.version);
    out.push(125);
    proof {
        assert(out@ =~= old(out)@ + canon_meta_entry(m@));
    }
}

/// Appends the canonical timestamp payload.
pub fn write_timestamp(out: &mut Vec<u8>, t: &Timestamp)
    ensures
        final(out)@ == old(out)@ + canon_timestamp(t@),
{
    out.push(123);
    write_mname(out, &v_type_tag());
    write_quoted(out, &v_timestamp());
    out.push(44);
    write_mname(out, &v_expires());
    write_quoted(out, &t.expires);
    out.push(44);
    write_mname(out, &v_meta());
    out.push(123);
    write_mname(out, &v_snapshot_json());
    write_meta_entry(out, &t.snapshot_meta);
    out.push(125);
    out.push(44);
    write_mname(out, &v_spec_version());
    write_quoted(out, &v_one_zero_zero());
    out.push(44);
    write_mname(out, &v_version());
    write_dec(out, t.version);
    out.push(125);
    proof {
        assert(out@ =~= old(out)@ + canon_timestamp(t@));
    }
}

/// Appends a canonical map from metadata file name to meta entry.
pub fn write_meta_map(out: &mut Vec<u8>, meta: &Vec<(Vec<u8>, MetaEntry)>)
    ensures
        final(out)@ == old(out)@ + canon_meta_map(
            meta@.map_values(|p: (Vec<u8>, MetaEntry)| (p.0@, p.1@)),
        ),
{
    let ghost view = meta@.map_values(|p: (Vec<u8>, MetaEntry)| (p.0@, p.1@));
    let ghost mapped = view.map_values(
        |p: (Seq<u8>, crate::schema::MetaEntryV)| quoted(p.0) + seq![58u8] + canon_meta_entry(p.1),
    );
    out.push(123);
    let mut i: usize = 0;
    proof {
        assert(mapped.take(0) =~= Seq::<Seq<u8>>::empty());
        assert(out@ =~= old(out)@ + seq![123u8] + join_comma(mapped.take(0)));
    }
    while i < meta.len()
        invariant
            i <= meta@.len(),
            view == meta@.map_values(|p: (Vec<u8>, MetaEntry)| (p.0@, p.1@)),
            mapped == view.map_values(
                |p: (Seq<u8>, crate::schema::MetaEntryV)| quoted(p.0) + seq![58u8]
                    + canon_meta_entry(p.1),
            ),
            out@ == old(out)@ + seq![123u8] + join_comma(mapped.take(i as int)),
        decreases meta.len() - i,
    {
        if i > 0 {
            out.push(44);
        }
        write_quoted(out, &meta[i].0);
        out.push(58);
        write_meta_entry(out, &meta[i].1);
        proof {
            let ghost piece = quoted(meta@[i as int].0@) + seq![58u8] + canon_meta_entry(
                meta@[i as int].1@,
            );
            assert(mapped[i as int] == piece);
            assert(mapped.take(i + 1) =~= mapped.take(i as int).push(piece));
            lemma_join_comma_push(mapped.take(i as int), piece);
            assert(out@ =~= old(out)@ + seq![123u8] + join_comma(mapped.take(i + 1)));
        }
        i = i + 1;
    }
    out.push(125);
    proof {
        assert(mapped.take(meta@.len() as int) =~= mapped);
        assert(out@ =~= old(out)@ + canon_meta_map(view));
    }
}

/// Appends the canonical snapshot payload.
pub fn write_snapshot(out: &mut Vec<u8>, s: &Snapshot)
    ensures
        final(out)@ == old(out)@ + canon_snapshot(s@),
{
    out.push(123);
    write_mname(out, &v_type_tag());
    write_quoted(out, &v_snapshot());
    out.push(44);
    write_mname(out, &v_expires());
    write_quoted(out, &s.expires);
    out.push(44);
    write_mname(out, &v_meta());
    write_meta_map(out, &s.meta);
    out.push(44);
    write_mname(out, &v_spec_version());
    write_quoted(out, &v_one_zero_zero());
    out.push(44);
    write_mname(out, &v_version());
    write_dec(out, s.version);
    out.push(125);
    proof {
        assert(out@ =~= old(out)@ + canon_snapshot(s@));
    }
}

/// Appends a canonical target descriptor.
pub fn write_target_desc(out: &mut Vec<u8>, d: &TargetDesc)
    ensures
        final(out)@ == old(out)@ + canon_target_desc(d@),
{
    out.push(123);
    write_mname(out, &v_hashes());
    out.push(123);
    write_mname(out, &v_sha256());
    write_quoted(out, &d.sha256);
    match &d.sha512 {
        Some(h) => {
            out.push(44);
            write_mname(out, &v_sha512());
            write_quoted(out, h);
        },
        None => {},
    }
    out.push(125);
    out.push(44);
    write_mname(out, &v_length());
    write_dec(out, d.length);
    out.push(125);
    proof {
        assert(out@ =~= old(out)@ + canon_target_desc(d@));
    }
}

/// Appends a canonical map from target path to descriptor.
pub fn write_targets_map(out: &mut Vec<u8>, ts: &Vec<(Vec<u8>, TargetDesc)>)
    ensures
        final(out)@ == old(out)@ + canon_targets_map(
            ts@.map_values(|p: (Vec<u8>, TargetDesc)| (p.0@, p.1@)),
        ),
{
    let ghost view = ts@.map_values(|p: (Vec<u8>, TargetDesc)| (p.0@, p.1@));
    let ghost mapped = view.map_values(
        |p: (Seq<u8>, crate::schema::TargetDescV)| quoted(p.0) + seq![58u8] + canon_target_desc(
            p.1,
        ),
    );
    out.push(123);
    let mut i: usize = 0;
    proof {
        assert(mapped.take(0) =~= Seq::<Seq<u8>>::empty());
        assert(out@ =~= old(out)@ + seq![123u8] + join_comma(mapped.take(0)));
    }
    while i < ts.len()
        invariant
            i <= ts@.len(),
            view == ts@.map_values(|p: (Vec<u8>, TargetDesc)| (p.0@, p.1@)),
            mapped == view.map_values(
                |p: (Seq<u8>, crate::schema::TargetDescV)| quoted(p.0) + seq![58u8]
                    + canon_target_desc(p.1),
            ),
            out@ == old(out)@ + seq![123u8] + join_comma(mapped.take(i as int)),
        decreases ts.len() - i,
    {
        if i > 0 {
            out.push(44);
        }
        write_quoted(out, &ts[i].0);
        out.push(58);
        write_target_desc(out, &ts[i].1);
        proof {
            let ghost piece = quoted(ts@[i as int].0@) + seq![58u8] + canon_target_desc(
                ts@[i as int].1@,
            );
            assert(mapped[i as int] == piece);
            assert(mapped.take(i + 1) =~= mapped.take(i as int).push(piece));
            lemma_join_comma_push(mapped.take(i as int), piece);
            assert(out@ =~= old(out)@ + seq![123u8] + join_comma(mapped.take(i + 1)));
        }
        i = i + 1;
    }
    out.push(125);
    proof {
        assert(mapped.take(ts@.len() as int) =~= mapped);
        assert(out@ =~= old(out)@ + canon_targets_map(view));
    }
}

/// Appends a canonical delegation entry.
#[verifier::rlimit(100)]
pub fn write_delegated_role(out: &mut Vec<u8>, r: &DelegatedRole)
    ensures
        final(out)@ == old(out)@ + canon_delegated_role(r@),
{
    out.push(123);
    write_mname(out, &v_keyids());
    write_str_array(out, &r.keyids);
    out.push(44);
    write_mname(out, &v_name());
    write_quoted(out, &r.name);
    out.push(44);
    proof {
        assert(out@ =~= old(out)@ + crate::schema::canon_dr_head(r@.keyids, r@.name));
    }
    let ghost h = out@;
    match &r.paths {
        PathSet::HashPrefixes(p) => {
            write_mname(out, &v_path_hash_prefixes());
            write_str_array(out, p);
        },
        PathSet::Paths(p) => {
            write_mname(out, &v_paths());
            write_str_array(out, p);
        },
    }
    out.push(44);
    write_mname(out, &v_terminating());
    write_bool(out, r.terminating);
    out.push(44);
    write_mname(out, &v_threshold());
    write_dec(out, r.threshold);
    out.push(125);
    proof {
        assert(out@ =~= h + crate::schema::canon_dr_tail(r@.paths, r@.terminating, r@.threshold));
        assert(out@ =~= old(out)@ + canon_delegated_role(r@));
    }
}

/// Appends a canonical delegations block.
#[verifier::rlimit(100)]
pub fn write_delegations(out: &mut Vec<u8>, d: &Delegations)
    ensures
        final(out)@ == old(out)@ + canon_delegations(d@),
{
    out.push(123);
    write_mname(out, &v_keys());
    write_key_map(out, &d.keys);
    out.push(44);
    proof {
        assert(out@ =~= old(out)@ + crate::schema::canon_dele_head(d@.keys));
    }
    let ghost h = out@;
    write_mname(out, &v_roles());
    let ghost view = d.roles@.map_values(|r: DelegatedRole| r@);
    let ghost mapped = view.map_values(
        |r: crate::schema::DelegatedRoleV| canon_delegated_role(r),
    );
    out.push(91);
    let mut i: usize = 0;
    proof {
        assert(mapped.take(0) =~= Seq::<Seq<u8>>::empty());
    }
    let ghost mark = out@;
    while i < d.roles.len()
        invariant
            i <= d.roles@.len(),
            view == d.roles@.map_values(|r: DelegatedRole| r@),
            mapped == view.map_values(|r: crate::schema::DelegatedRoleV| canon_delegated_role(r)),
            out@ == mark + join_comma(mapped.take(i as int)),
        decreases d.roles.len() - i,
    {
        if i > 0 {
            out.push(44);
        }
        write_delegated_role(out, &d.roles[i]);
        proof {
            assert(mapped[i as int] == canon_delegated_role(d.roles@[i as int]@));
            assert(mapped.take(i + 1) =~= mapped.take(i as int).push(mapped[i as int]));
            lemma_join_comma_push(mapped.take(i as int), mapped[i as int]);
            assert(out@ =~= mark + join_comma(mapped.take(i + 1)));
        }
        i = i + 1;
    }
    out.push(93);
    out.push(125);
    proof {
        assert(mapped.take(d.roles@.len() as int) =~= mapped);
        assert(out@ =~= h + crate::schema::canon_dele_tail(d@.roles));
        assert(out@ =~= old(out)@ + canon_delegations(d@));
    }
}

/// Appends the canonical targets payload.
#[verifier::rlimit(100)]
pub fn write_targets(out: &mut Vec<u8>, t: &Targets)
    ensures
        final(out)@ == old(out)@ + canon_targets(t@),
{
    out.push(123);
    write_mname(out, &v_type_tag());
    write_quoted(out, &v_targets());
    out.push(44);
    match &t.delegations {
        Some(d) => {
            write_mname(out, &v_delegations());
            write_delegations(out, d);
            out.push(44);
        },
        None => {},
    }
    proof {
        assert(out@ =~= old(out)@ + crate::schema::canon_targets_head(t@.delegations));
    }
    let ghost h = out@;
    write_mname(out, &v_expires());
    write_quoted(out, &t.expires);
    out.push(44);
    write_mname(out, &v_spec_version());
    write_quoted(out, &v_one_zero_zero());
    out.push(44);
    write_mname(out, &v_targets());
    write_targets_map(out, &t.targets);
    out.push(44);
    write_mname(out, &v_version());
    write_dec(out, t.version);
    out.push(125);
    proof {
        assert(out@ =~= h + crate::schema::canon_targets_tail(t@.expires, t@.targets, t@.version));
        assert(out@ =~= old(out)@ + canon_targets(t@));
    }
}

/// Appends the canonical bytes of any role payload.
pub fn write_body(out: &mut Vec<u8>, b: &RoleBody)
    ensures
        final(out)@ == old(out)@ + canon_body(b@),
{
    match b {
        RoleBody::Root(r) => write_root(out, r),
        RoleBody::Timestamp(t) => write_timestamp(out, t),
        RoleBody::Snapshot(s) => write_snapshot(out, s),
        RoleBody::Targets(t) => write_targets(out, t),
    }
}

/// Appends a canonical signature object.
pub fn write_signature(out: &mut Vec<u8>, s: &Signature)
    ensures
        final(out)@ == old(out)@ + canon_signature(s@),
{
    out.push(123);
    write_mname(out, &v_keyid());
    write_quoted(out, &s.keyid);
    out.push(44);
    write_mname(out, &v_sig());
    write_quoted(out, &s.sig);
    out.push(125);
    proof {
        assert(out@ =~= old(out)@ + canon_signature(s@));
    }
}

/// Appends the canonical bytes of a whole signed role document.
#[verifier::rlimit(100)]
pub fn write_signed(out: &mut Vec<u8>, d: &SignedRole)
    ensures
        final(out)@ == old(out)@ + canon_signed(d@),
{
    out.push(123);
    write_mname(out, &v_signatures());
    let ghost view = d.signatures@.map_values(|s: Signature| s@);
    let ghost mapped = view.map_values(|s: crate::schema::SignatureV| canon_signature(s));
    out.push(91);
    let mut i: usize = 0;
    proof {
        assert(mapped.take(0) =~= Seq::<Seq<u8>>::empty());
    }
    let ghost mark = out@;
    while i < d.signatures.len()
        invariant
            i <= d.signatures@.len(),
            view == d.signatures@.map_values(|s: Signature| s@),
            mapped == view.map_values(|s: crate::schema::SignatureV| canon_signature(s)),
            out@ == mark + join_comma(mapped.take(i as int)),
        decreases d.signatures.len() - i,
    {
        if i > 0 {
            out.push(44);
        }
        write_signature(out, &d.signatures[i]);
        proof {
            assert(mapped[i as int] == canon_signature(d.signatures@[i as int]@));
            assert(mapped.take(i + 1) =~= mapped.take(i as int).push(mapped[i as int]));
            lemma_join_comma_push(mapped.take(i as int), mapped[i as int]);
            assert(out@ =~= mark + join_comma(mapped.take(i + 1)));
        }
        i = i + 1;
    }
    out.push(93);
    proof {
        assert(mapped.take(d.signatures@.len() as int) =~= mapped);
        assert(out@ =~= old(out)@ + crate::schema::canon_signed_head(d@.signatures));
    }
    let ghost h = out@;
    out.push(44);
    write_mname(out, &v_signed());
    write_body(out, &d.body);
    out.push(125);
    proof {
        assert(out@ =~= h + crate::schema::canon_signed_tail(d@.body));
        assert(out@ =~= old(out)@ + canon_signed(d@));
    }
}

/// The canonical bytes of a role payload: the signature input.
pub fn canon_bytes_body(b: &RoleBody) -> (r: Vec<u8>)
    ensures
        r@ == canon_body(b@),
{
    let mut out: Vec<u8> = Vec::new();
    write_body(&mut out, b);
    proof {
        assert(out@ =~= canon_body(b@));
    }
    out
}

/// The canonical bytes of a key object: the input of key-id derivation.
pub fn canon_bytes_key(k: &Key) -> (r: Vec<u8>)
    ensures
        r@ == canon_key(k@),
{
    let mut out: Vec<u8> = Vec::new();
    write_key(&mut out, k);
    proof {
        assert(out@ =~= canon_key(k@));
    }
    out
}

/// The canonical bytes of a whole signed role document.
pub fn canon_bytes_signed(d: &SignedRole) -> (r: Vec<u8>)
    ensures
        r@ == canon_signed(d@),
{
    let mut out: Vec<u8> = Vec::new();
    write_signed(&mut out, d);
    proof {
        assert(out@ =~= canon_signed(d@));
    }
    out
}

} // verus!
