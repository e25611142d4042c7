//! The publication layout: which file names carry which metadata bytes,
//! honoring consistent-snapshot mode. Versioned copies carry a decimal
//! version prefix, so distinct versions of a role live under distinct
//! names and a published version is never overwritten by a later one.

use vstd::prelude::*;

use crate::canon::dec_of;
use crate::canon::write_bytes;
use crate::canon::write_dec;
use crate::lits::s_json_suffix;
use crate::lits::s_root_json;
use crate::lits::s_snapshot_json;
use crate::lits::s_targets_json;
use crate::lits::s_timestamp_json;
use crate::lits::v_json_suffix;
use crate::lits::v_root_json;
use crate::lits::v_snapshot_json;
use crate::lits::v_targets_json;
use crate::lits::v_timestamp_json;

verus! {

/// The version-prefixed form of a metadata file name.
pub open spec fn versioned_name(v: nat, name: Seq<u8>) -> Seq<u8> {
    dec_of(v) + seq![46u8] + name
}

/// Builds the version-prefixed form of a metadata file name.
pub fn version_prefixed_name(v: u64, name: &Vec<u8>) -> (r: Vec<u8>)
    ensures
        r@ == versioned_name(v as nat, name@),
{
    let mut out: Vec<u8> = Vec::new();
    write_dec(&mut out, v);
    out.push(46);
    write_bytes(&mut out, name);
    proof {
        assert(out@ =~= versioned_name(v as nat, name@));
    }
    out
}

/// The file name of a target blob: hash-prefixed in consistent-snapshot
/// mode, the plain path otherwise.
pub open spec fn target_name_spec(sha256hex: Seq<u8>, path: Seq<u8>, consistent: bool) -> Seq<u8> {
    if consistent {
        sha256hex + seq![46u8] + path
    } else {
        path
    }
}

/// Builds the file name of a target blob.
pub fn target_file_name(sha256hex: &Vec<u8>, path: &Vec<u8>, consistent: bool) -> (r: Vec<u8>)
    ensures
        r@ == target_name_spec(sha256hex@, path@, consistent),
{
    let mut out: Vec<u8> = Vec::new();
    if consistent {
        write_bytes(&mut out, sha256hex);
        out.push(46);
    }
    write_bytes(&mut out, path);
    proof {
        assert(out@ =~= target_name_spec(sha256hex@, path@, consistent));
    }
    out
}

/// The full write plan of a publication, in order: `root.json` and its
/// version-prefixed copy, the unprefixed timestamp, then snapshot, targets
/// and every delegated role, version-prefixed exactly when
/// consistent-snapshot mode is on.
pub open spec fn plan_spec(
    root_bytes: Seq<u8>,
    root_version: nat,
    ts_bytes: Seq<u8>,
    snap_bytes: Seq<u8>,
    snap_version: nat,
    tgt_bytes: Seq<u8>,
    tgt_version: nat,
    delegated: Seq<(Seq<u8>, nat, Seq<u8>)>,
    consistent: bool,
) -> Seq<(Seq<u8>, Seq<u8>)> {
    seq![
        (s_root_json(), root_bytes),
        (versioned_name(root_version, s_root_json()), root_bytes),
        (s_timestamp_json(), ts_bytes),
    ] + (if consistent {
        seq![
            (versioned_name(snap_version, s_snapshot_json()), snap_bytes),
            (versioned_name(tgt_version, s_targets_json()), tgt_bytes),
        ]
    } else {
        seq![(s_snapshot_json(), snap_bytes), (s_targets_json(), tgt_bytes)]
    }) + delegated.map_values(
        |p: (Seq<u8>, nat, Seq<u8>)|
            (
                if consistent {
                    versioned_name(p.1, p.0 + s_json_suffix())
                } else {
                    p.0 + s_json_suffix()
                },
                p.2,
            ),
    )
}

/// Builds the write plan, deciding exactly `plan_spec`.
#[verifier::rlimit(100)]
pub fn plan_metadata_writes(
    root_bytes: Vec<u8>,
    root_version: u64,
    ts_bytes: Vec<u8>,
    snap_bytes: Vec<u8>,
    snap_version: u64,
    tgt_bytes: Vec<u8>,
    tgt_version: u64,
    delegated: &Vec<(Vec<u8>, u64, Vec<u8>)>,
    consistent: bool,
) -> (r: Vec<(Vec<u8>, Vec<u8>)>)
    ensures
        r@.map_values(|p: (Vec<u8>, Vec<u8>)| (p.0@, p.1@)) == plan_spec(
            root_bytes@,
            root_version as nat,
            ts_bytes@,
            snap_bytes@,
            snap_version as nat,
            tgt_bytes@,
            tgt_version as nat,
            delegated@.map_values(|p: (Vec<u8>, u64, Vec<u8>)| (p.0@, p.1 as nat, p.2@)),
            consistent,
        ),
{
    let ghost dview = delegated@.map_values(|p: (Vec<u8>, u64, Vec<u8>)| (p.0@, p.1 as nat, p.2@));
    let ghost head = plan_spec(
        root_bytes@,
        root_version as nat,
        ts_bytes@,
        snap_bytes@,
        snap_version as nat,
        tgt_bytes@,
        tgt_version as nat,
        dview,
        consistent,
    );
    let mut out: Vec<(Vec<u8>, Vec<u8>)> = Vec::new();
    let mut root_copy: Vec<u8> = Vec::new();
    write_bytes(&mut root_copy, &root_bytes);
    let rn = v_root_json();
    let rvn = version_prefixed_name(root_version, &rn);
    out.push((rn, root_copy));
    out.push((rvn, root_bytes));
    out.push((v_timestamp_json(), ts_bytes));
    if consistent {
        out.push((version_prefixed_name(snap_version, &v_snapshot_json()), snap_bytes));
        out.push((version_prefixed_name(tgt_version, &v_targets_json()), tgt_bytes));
    } else {
        out.push((v_snapshot_json(), snap_bytes));
        out.push((v_targets_json(), tgt_bytes));
    }
    proof {
        assert(out@.map_values(|p: (Vec<u8>, Vec<u8>)| (p.0@, p.1@)) =~= head.take(5));
    }
    let mut i: usize = 0;
    while i < delegated.len()
        invariant
            i <= delegated@.len(),
            dview == delegated@.map_values(|p: (Vec<u8>, u64, Vec<u8>)| (p.0@, p.1 as nat, p.2@)),
            head == plan_spec(
                root_bytes@,
                root_version as nat,
                ts_bytes@,
                snap_bytes@,
                snap_version as nat,
                tgt_bytes@,
                tgt_version as nat,
                dview,
                consistent,
            ),
            head.len() == 5 + dview.len(),
            out@.len() == 5 + i,
            out@.map_values(|p: (Vec<u8>, Vec<u8>)| (p.0@, p.1@)) == head.take(5 + i),
        decreases delegated.len() - i,
    {
        let mut base: Vec<u8> = Vec::new();
        write_bytes(&mut base, &delegated[i].0);
        let suffix = v_json_suffix();
        write_bytes(&mut base, &suffix);
        let name: Vec<u8> = if consistent {
            version_prefixed_name(delegated[i].1, &base)
        } else {
            base
        };
        let mut body: Vec<u8> = Vec::new();
        write_bytes(&mut body, &delegated[i].2);
        let ghost namev = name@;
        let ghost bodyv = body@;
        out.push((name, body));
        proof {
            assert(head[5 + i] == (
                if consistent {
                    versioned_name(dview[i as int].1, dview[i as int].0 + s_json_suffix())
                } else {
                    dview[i as int].0 + s_json_suffix()
                },
                dview[i as int].2,
            ));
            assert(namev =~= (
            if consistent {
                versioned_name(dview[i as int].1, dview[i as int].0 + s_json_suffix())
            } else {
                dview[i as int].0 + s_json_suffix()
            }));
            assert(bodyv =~= dview[i as int].2);
            assert(out@.map_values(|p: (Vec<u8>, Vec<u8>)| (p.0@, p.1@)) =~= head.take(
                5 + i,
            ).push(head[5 + i]));
            assert(head.take(5 + i + 1) =~= head.take(5 + i).push(head[5 + i]));
        }
        i = i + 1;
    }
    proof {
        assert(head.take(head.len() as int) =~= head);
    }
    out
}


/// Every decimal rendering has at least one digit.
pub proof fn lemma_dec_of_min_len(n: nat)
    ensures
        dec_of(n).len() >= 1,
        n >= 10 ==> dec_of(n).len() >= 2,
    decreases n,
{
    if n >= 10 {
        lemma_dec_of_min_len(n / 10);
    }
}

/// The shortest decimal rendering is injective: distinct numbers have
/// distinct renderings.
pub proof fn lemma_dec_of_injective(a: nat, b: nat)
    requires
        dec_of(a) == dec_of(b),
    ensures
        a == b,
    decreases a,
{
    lemma_dec_of_min_len(a);
    lemma_dec_of_min_len(b);
    if a < 10 && b < 10 {
        assert(dec_of(a)[0] == (48 + a) as u8);
        assert(dec_of(b)[0] == (48 + b) as u8);
    } else if a < 10 {
        assert(dec_of(a).len() == 1);
    } else if b < 10 {
        assert(dec_of(b).len() == 1);
    } else {
        assert(dec_of(a).last() == (48 + a % 10) as u8);
        assert(dec_of(b).last() == (48 + b % 10) as u8);
        assert(a % 10 == b % 10);
        assert(dec_of(a).drop_last() =~= dec_of(a / 10));
        assert(dec_of(b).drop_last() =~= dec_of(b / 10));
        lemma_dec_of_injective(a / 10, b / 10);
    }
}

/// Distinct versions of one metadata file live under distinct
/// version-prefixed names: a later publish writes fresh versioned copies
/// and never touches the name an earlier version was published under.
pub proof fn lemma_versioned_names_distinct(v1: nat, v2: nat, name: Seq<u8>)
    requires
        v1 != v2,
    ensures
        versioned_name(v1, name) != versioned_name(v2, name),
{
    lemma_dec_of_min_len(v1);
    lemma_dec_of_min_len(v2);
    if versioned_name(v1, name) == versioned_name(v2, name) {
        assert(versioned_name(v1, name).len() == dec_of(v1).len() + 1 + name.len());
        assert(versioned_name(v2, name).len() == dec_of(v2).len() + 1 + name.len());
        assert(dec_of(v1).len() == dec_of(v2).len());
        assert forall|x: int| 0 <= x < dec_of(v1).len() implies dec_of(v1)[x] == dec_of(v2)[x] by {
            assert(versioned_name(v1, name)[x] == dec_of(v1)[x]);
            assert(versioned_name(v2, name)[x] == dec_of(v2)[x]);
        }
        assert(dec_of(v1) =~= dec_of(v2));
        lemma_dec_of_injective(v1, v2);
    }
}

} // verus!
