//! Byte-exact parsing of canonical TUF metadata. Every parser consumes
//! exactly the canonical encoding of the value it returns, so a parsed
//! document re-serializes to the very bytes it was read from; maps are
//! accepted only with their keys in strict canonical order.

use vstd::prelude::*;

use crate::canon::expect_lit;
use crate::canon::lex_lt;
use crate::canon::lex_lt_exec;
use crate::canon::parse_bool;
use crate::canon::parse_dec;
use crate::canon::parse_quoted;
use crate::canon::quoted;
use crate::lits::v_consistent_snapshot;
use crate::lits::v_expires;
use crate::lits::v_keyids;
use crate::lits::v_keys;
use crate::lits::v_keytype;
use crate::lits::v_keyval;
use crate::lits::v_one_zero_zero;
use crate::lits::v_public;
use crate::lits::v_roles;
use crate::lits::v_root;
use crate::lits::v_scheme;
use crate::lits::v_snapshot;
use crate::lits::v_spec_version;
use crate::lits::v_targets;
use crate::lits::v_threshold;
use crate::lits::v_timestamp;
use crate::lits::v_type_tag;
use crate::lits::v_version;
use crate::schema::canon_key;
use crate::schema::canon_key_map;
use crate::schema::canon_role_keys;
use crate::schema::canon_root;
use crate::schema::canon_root_head;
use crate::schema::canon_root_tail;
use crate::schema::canon_str_array;
use crate::schema::join_comma;
use crate::schema::lemma_join_comma_push;
use crate::schema::mname;
use crate::lits::v_hashes;
use crate::lits::v_length;
use crate::lits::v_meta;
use crate::lits::v_sha256;
use crate::lits::v_sha512;
use crate::lits::v_snapshot_json;
use crate::schema::canon_meta_entry;
use crate::schema::canon_meta_map;
use crate::schema::canon_snapshot;
use crate::schema::canon_target_desc;
use crate::schema::canon_targets_map;
use crate::schema::canon_timestamp;
use crate::lits::v_delegations;
use crate::lits::v_keyid;
use crate::lits::v_name;
use crate::lits::v_path_hash_prefixes;
use crate::lits::v_paths;
use crate::lits::v_sig;
use crate::lits::v_signatures;
use crate::lits::v_signed;
use crate::lits::v_terminating;
use crate::schema::canon_delegated_role;
use crate::schema::canon_delegations;
use crate::schema::canon_signature;
use crate::schema::canon_targets;
use crate::schema::sorted_keys;
use crate::schema::DelegatedRole;
use crate::schema::DelegatedRoleV;
use crate::schema::Delegations;
use crate::schema::PathSet;
use crate::schema::RoleBody;
use crate::schema::Signature;
use crate::schema::SignatureV;
use crate::schema::SignedRole;
use crate::schema::Targets;
use crate::schema::MetaEntry;
use crate::schema::MetaEntryV;
use crate::schema::Snapshot;
use crate::schema::TargetDesc;
use crate::schema::TargetDescV;
use crate::schema::Timestamp;
use crate::schema::Key;
use crate::schema::KeyV;
use crate::schema::RoleKeys;
use crate::schema::Root;

verus! {

/// Transitivity of the canonical key order.
pub proof fn lemma_lex_lt_trans(a: Seq<u8>, b: Seq<u8>, c: Seq<u8>)
    requires
        lex_lt(a, b),
        lex_lt(b, c),
    ensures
        lex_lt(a, c),
    decreases a.len(),
{
    if a.len() > 0 {
        if a[0] == b[0] && b[0] == c[0] {
            lemma_lex_lt_trans(a.drop_first(), b.drop_first(), c.drop_first());
        }
    }
}

/// Consumes the single byte `c` at position `i`, if it stands there.
pub fn expect_byte(b: &Vec<u8>, i: usize, c: u8) -> (r: Option<usize>)
    requires
        i <= b@.len(),
    ensures
        match r {
            Some(j) => j == i + 1 && j <= b@.len() && b@[i as int] == c,
            None => !(i < b@.len() && b@[i as int] == c),
        },
{
    if i < b.len() && b[i] == c {
        Some(i + 1)
    } else {
        None
    }
}

/// Consumes a fixed object key (quote, name, quote, colon) at position `i`.
pub fn expect_mname(b: &Vec<u8>, i: usize, name: &Vec<u8>) -> (r: Option<usize>)
    requires
        i <= b@.len(),
    ensures
        match r {
            Some(j) => i < j <= b@.len() && b@.subrange(i as int, j as int) == mname(name@),
            None => true,
        },
{
    let j0 = expect_byte(b, i, 34)?;
    let j1 = expect_lit(b, j0, name)?;
    let j2 = expect_byte(b, j1, 34)?;
    let j3 = expect_byte(b, j2, 58)?;
    proof {
        assert(b@.subrange(i as int, j3 as int) =~= mname(name@));
    }
    Some(j3)
}

/// Parses a canonical key object.
pub fn parse_key(b: &Vec<u8>, i: usize) -> (r: Option<(Key, usize)>)
    requires
        i <= b@.len(),
    ensures
        match r {
            Some(p) => i < p.1 <= b@.len() && b@.subrange(i as int, p.1 as int) == canon_key(
                p.0@,
            ),
            None => true,
        },
{
    let j0 = expect_byte(b, i, 123)?;
    let j1 = expect_mname(b, j0, &v_keytype())?;
    let (keytype, j2) = parse_quoted(b, j1)?;
    let j3 = expect_byte(b, j2, 44)?;
    let j4 = expect_mname(b, j3, &v_keyval())?;
    let j5 = expect_byte(b, j4, 123)?;
    let j6 = expect_mname(b, j5, &v_public())?;
    let (public, j7) = parse_quoted(b, j6)?;
    let j8 = expect_byte(b, j7, 125)?;
    let j9 = expect_byte(b, j8, 44)?;
    let j10 = expect_mname(b, j9, &v_scheme())?;
    let (scheme, j11) = parse_quoted(b, j10)?;
    let j12 = expect_byte(b, j11, 125)?;
    let k = Key { keytype, scheme, public };
    proof {
        assert(b@.subrange(i as int, j12 as int) =~= canon_key(k@));
    }
    Some((k, j12))
}

/// Parses a canonical map from key identifier to key object, accepting only
/// strictly ascending keys.
pub fn parse_key_map(b: &Vec<u8>, i: usize) -> (r: Option<(Vec<(Vec<u8>, Key)>, usize)>)
    requires
        i <= b@.len(),
    ensures
        match r {
            Some(p) => {
                let view = p.0@.map_values(|q: (Vec<u8>, Key)| (q.0@, q.1@));
                &&& i < p.1 <= b@.len()
                &&& b@.subrange(i as int, p.1 as int) == canon_key_map(view)
                &&& sorted_keys(view)
            },
            None => true,
        },
{
    let j0 = expect_byte(b, i, 123)?;
    let mut entries: Vec<(Vec<u8>, Key)> = Vec::new();
    let mut cur: usize = j0;
    if let Some(j1) = expect_byte(b, cur, 125) {
        proof {
            let view = entries@.map_values(|q: (Vec<u8>, Key)| (q.0@, q.1@));
            assert(view =~= Seq::<(Seq<u8>, KeyV)>::empty());
            assert(view.map_values(|p: (Seq<u8>, KeyV)| quoted(p.0) + seq![58u8] + canon_key(p.1))
                =~= Seq::<Seq<u8>>::empty());
            assert(b@.subrange(i as int, j1 as int) =~= canon_key_map(view));
        }
        return Some((entries, j1));
    }
    loop
        invariant
            i < j0 <= cur <= b@.len(),
            b@[i as int] == 123,
            j0 == i + 1,
            entries@.len() > 0 ==> b@.subrange(j0 as int, cur as int) == join_comma(
                entries@.map_values(|q: (Vec<u8>, Key)| (q.0@, q.1@)).map_values(
                    |p: (Seq<u8>, KeyV)| quoted(p.0) + seq![58u8] + canon_key(p.1),
                ),
            ),
            entries@.len() == 0 ==> cur == j0,
            sorted_keys(entries@.map_values(|q: (Vec<u8>, Key)| (q.0@, q.1@))),
        decreases b@.len() - cur,
    {
        let start_entry: usize = if entries.len() > 0 {
            match expect_byte(b, cur, 44) {
                Some(j) => j,
                None => {
                    return None;
                },
            }
        } else {
            cur
        };
        let (kid, ja) = match parse_quoted(b, start_entry) {
            Some(p) => p,
            None => {
                return None;
            },
        };
        let jb = match expect_byte(b, ja, 58) {
            Some(j) => j,
            None => {
                return None;
            },
        };
        let (key, jc) = match parse_key(b, jb) {
            Some(p) => p,
            None => {
                return None;
            },
        };
        if entries.len() > 0 {
            let last = &entries[entries.len() - 1].0;
            if !lex_lt_exec(last, &kid) {
                return None;
            }
        }
        let ghost entries0 = entries@;
        let ghost kidv = kid@;
        let ghost keyv = key@;
        let ghost piece = quoted(kidv) + seq![58u8] + canon_key(keyv);
        entries.push((kid, key));
        proof {
            let view0 = entries0.map_values(|q: (Vec<u8>, Key)| (q.0@, q.1@));
            let view = entries@.map_values(|q: (Vec<u8>, Key)| (q.0@, q.1@));
            assert(entries@.last().0@ == kidv && entries@.last().1@ == keyv);
            assert(view =~= view0.push((kidv, keyv)));
            let g = |p: (Seq<u8>, KeyV)| quoted(p.0) + seq![58u8] + canon_key(p.1);
            assert(view.map_values(g) =~= view0.map_values(g).push(piece));
            lemma_join_comma_push(view0.map_values(g), piece);
            if entries0.len() > 0 {
                assert(b@.subrange(start_entry as int, jc as int) =~= piece);
                assert(b@.subrange(j0 as int, jc as int) =~= b@.subrange(j0 as int, cur as int)
                    + seq![44u8] + b@.subrange(start_entry as int, jc as int));
                assert(b@.subrange(j0 as int, jc as int) =~= join_comma(view.map_values(g)));
                let lastk = view0.last().0;
                assert(forall|t: int|
                    0 <= t < view0.len() - 1 ==> lex_lt(#[trigger] view0[t].0, lastk));
                assert forall|t: int| 0 <= t < view.len() - 1 implies lex_lt(
                    #[trigger] view[t].0,
                    view.last().0,
                ) by {
                    if t < view0.len() - 1 {
                        lemma_lex_lt_trans(view0[t].0, lastk, view.last().0);
                    }
                }
                assert(sorted_keys(view));
            } else {
                assert(b@.subrange(j0 as int, jc as int) =~= piece);
                assert(join_comma(view.map_values(g)) == piece);
                assert(sorted_keys(view));
            }
        }
        cur = jc;
        if let Some(jd) = expect_byte(b, cur, 125) {
            proof {
                let view = entries@.map_values(|q: (Vec<u8>, Key)| (q.0@, q.1@));
                let g = |p: (Seq<u8>, KeyV)| quoted(p.0) + seq![58u8] + canon_key(p.1);
                assert(b@.subrange(i as int, jd as int) =~= seq![123u8] + join_comma(
                    view.map_values(g),
                ) + seq![125u8]);
                assert(b@.subrange(i as int, jd as int) =~= canon_key_map(view));
            }
            return Some((entries, jd));
        }
    }
}

/// Parses a canonical array of quoted strings.
pub fn parse_str_array(b: &Vec<u8>, i: usize) -> (r: Option<(Vec<Vec<u8>>, usize)>)
    requires
        i <= b@.len(),
    ensures
        match r {
            Some(p) => i < p.1 <= b@.len() && b@.subrange(i as int, p.1 as int) == canon_str_array(
                p.0@.map_values(|x: Vec<u8>| x@),
            ),
            None => true,
        },
{
    let j0 = expect_byte(b, i, 91)?;
    let mut items: Vec<Vec<u8>> = Vec::new();
    let mut cur: usize = j0;
    if let Some(j1) = expect_byte(b, cur, 93) {
        proof {
            assert(items@.map_values(|x: Vec<u8>| x@) =~= Seq::<Seq<u8>>::empty());
            assert(items@.map_values(|x: Vec<u8>| x@).map_values(|x: Seq<u8>| quoted(x))
                =~= Seq::<Seq<u8>>::empty());
            assert(b@.subrange(i as int, j1 as int) =~= canon_str_array(
                items@.map_values(|x: Vec<u8>| x@),
            ));
        }
        return Some((items, j1));
    }
    loop
        invariant
            i < j0 <= cur <= b@.len(),
            b@[i as int] == 91,
            j0 == i + 1,
            items@.len() > 0 ==> b@.subrange(j0 as int, cur as int) == join_comma(
                items@.map_values(|x: Vec<u8>| x@).map_values(|x: Seq<u8>| quoted(x)),
            ),
            items@.len() == 0 ==> cur == j0,
        decreases b@.len() - cur,
    {
        let start_item: usize = if items.len() > 0 {
            match expect_byte(b, cur, 44) {
                Some(j) => j,
                None => {
                    return None;
                },
            }
        } else {
            cur
        };
        let (s, ja) = match parse_quoted(b, start_item) {
            Some(p) => p,
            None => {
                return None;
            },
        };
        let ghost items0 = items@;
        let ghost sv = s@;
        let ghost piece = quoted(sv);
        items.push(s);
        proof {
            let view0 = items0.map_values(|x: Vec<u8>| x@);
            let view = items@.map_values(|x: Vec<u8>| x@);
            assert(items@.last()@ == sv);
            assert(view =~= view0.push(sv));
            let g = |x: Seq<u8>| quoted(x);
            assert(view.map_values(g) =~= view0.map_values(g).push(piece));
            lemma_join_comma_push(view0.map_values(g), piece);
            if items0.len() > 0 {
                assert(b@.subrange(start_item as int, ja as int) =~= piece);
                assert(b@.subrange(j0 as int, ja as int) =~= b@.subrange(j0 as int, cur as int)
                    + seq![44u8] + b@.subrange(start_item as int, ja as int));
                assert(b@.subrange(j0 as int, ja as int) =~= join_comma(view.map_values(g)));
            } else {
                assert(b@.subrange(j0 as int, ja as int) =~= piece);
                assert(join_comma(view.map_values(g)) == piece);
            }
        }
        cur = ja;
        if let Some(jd) = expect_byte(b, cur, 93) {
            proof {
                let view = items@.map_values(|x: Vec<u8>| x@);
                let g = |x: Seq<u8>| quoted(x);
                assert(b@.subrange(i as int, jd as int) =~= seq![91u8] + join_comma(
                    view.map_values(g),
                ) + seq![93u8]);
                assert(b@.subrange(i as int, jd as int) =~= canon_str_array(view));
            }
            return Some((items, jd));
        }
    }
}

/// Parses a canonical role key assignment.
pub fn parse_role_keys(b: &Vec<u8>, i: usize) -> (r: Option<(RoleKeys, usize)>)
    requires
        i <= b@.len(),
    ensures
        match r {
            Some(p) => i < p.1 <= b@.len() && b@.subrange(i as int, p.1 as int) == canon_role_keys(
                p.0@,
            ),
            None => true,
        },
{
    let j0 = expect_byte(b, i, 123)?;
    let j1 = expect_mname(b, j0, &v_keyids())?;
    let (keyids, j2) = parse_str_array(b, j1)?;
    let j3 = expect_byte(b, j2, 44)?;
    let j4 = expect_mname(b, j3, &v_threshold())?;
    let (threshold, j5) = parse_dec(b, j4)?;
    let j6 = expect_byte(b, j5, 125)?;
    let rk = RoleKeys { keyids, threshold };
    proof {
        assert(b@.subrange(i as int, j6 as int) =~= canon_role_keys(rk@));
    }
    Some((rk, j6))
}

/// Parses the canonical object of the four top-level role key assignments.
#[verifier::rlimit(100)]
fn parse_root_roles(b: &Vec<u8>, i: usize) -> (r: Option<(RoleKeys, RoleKeys, RoleKeys, RoleKeys, usize)>)
    requires
        i <= b@.len(),
    ensures
        match r {
            Some(p) => {
                &&& i < p.4 <= b@.len()
                &&& b@.subrange(i as int, p.4 as int) == crate::schema::canon_roles_head(p.0@, p.1@)
                    + crate::schema::canon_roles_tail(p.2@, p.3@)
            },
            None => true,
        },
{
    let j0 = expect_byte(b, i, 123)?;
    let j1 = expect_mname(b, j0, &v_root())?;
    let (root, j2) = parse_role_keys(b, j1)?;
    let j3 = expect_byte(b, j2, 44)?;
    let j4 = expect_mname(b, j3, &v_snapshot())?;
    let (snapshot, j5) = parse_role_keys(b, j4)?;
    let j6 = expect_byte(b, j5, 44)?;
    proof {
        assert(b@.subrange(i as int, j6 as int) =~= crate::schema::canon_roles_head(
            root@,
            snapshot@,
        ));
    }
    let j7 = expect_mname(b, j6, &v_targets())?;
    let (targets, j8) = parse_role_keys(b, j7)?;
    let j9 = expect_byte(b, j8, 44)?;
    let j10 = expect_mname(b, j9, &v_timestamp())?;
    let (timestamp, j11) = parse_role_keys(b, j10)?;
    let j12 = expect_byte(b, j11, 125)?;
    proof {
        assert(b@.subrange(j6 as int, j12 as int) =~= crate::schema::canon_roles_tail(
            targets@,
            timestamp@,
        ));
        assert(b@.subrange(i as int, j12 as int) =~= b@.subrange(i as int, j6 as int)
            + b@.subrange(j6 as int, j12 as int));
        assert(b@.subrange(i as int, j12 as int) == crate::schema::canon_roles_head(root@, snapshot@)
            + crate::schema::canon_roles_tail(targets@, timestamp@));
    }
    Some((root, snapshot, targets, timestamp, j12))
}

/// Parses the opening of the root payload, through the key map.
#[verifier::rlimit(100)]
fn parse_root_front(b: &Vec<u8>, i: usize) -> (r: Option<(bool, Vec<u8>, Vec<(Vec<u8>, Key)>, usize)>)
    requires
        i <= b@.len(),
    ensures
        match r {
            Some(p) => {
                let kview = p.2@.map_values(|q: (Vec<u8>, Key)| (q.0@, q.1@));
                &&& i < p.3 <= b@.len()
                &&& b@.subrange(i as int, p.3 as int) == crate::schema::canon_root_h1(p.0)
                    + crate::schema::canon_root_h2(p.1@, kview)
                &&& sorted_keys(kview)
            },
            None => true,
        },
{
    let j0 = expect_byte(b, i, 123)?;
    let j1 = expect_mname(b, j0, &v_type_tag())?;
    let (tword, j2) = parse_quoted(b, j1)?;
    if !crate::canon::bytes_eq(&tword, &v_root()) {
        return None;
    }
    let j3 = expect_byte(b, j2, 44)?;
    let j4 = expect_mname(b, j3, &v_consistent_snapshot())?;
    let (consistent_snapshot, j5) = parse_bool(b, j4)?;
    let j6 = expect_byte(b, j5, 44)?;
    let j7 = expect_mname(b, j6, &v_expires())?;
    let (expires, j8) = parse_quoted(b, j7)?;
    let j9 = expect_byte(b, j8, 44)?;
    let j10 = expect_mname(b, j9, &v_keys())?;
    let (keys, j11) = parse_key_map(b, j10)?;
    proof {
        assert(b@.subrange(i as int, j6 as int) =~= crate::schema::canon_root_h1(
            consistent_snapshot,
        ));
        assert(b@.subrange(j6 as int, j11 as int) =~= crate::schema::canon_root_h2(
            expires@,
            keys@.map_values(|q: (Vec<u8>, Key)| (q.0@, q.1@)),
        ));
        assert(b@.subrange(i as int, j11 as int) =~= b@.subrange(i as int, j6 as int)
            + b@.subrange(j6 as int, j11 as int));
        assert(b@.subrange(i as int, j11 as int) == crate::schema::canon_root_h1(
            consistent_snapshot,
        ) + crate::schema::canon_root_h2(
            expires@,
            keys@.map_values(|q: (Vec<u8>, Key)| (q.0@, q.1@)),
        ));
    }
    Some((consistent_snapshot, expires, keys, j11))
}

/// Parses the canonical root payload. The returned document re-encodes to
/// exactly the consumed bytes, and its key map is in canonical order.
#[verifier::rlimit(100)]
pub fn parse_root(b: &Vec<u8>, i: usize) -> (r: Option<(Root, usize)>)
    requires
        i <= b@.len(),
    ensures
        match r {
            Some(p) => {
                &&& i < p.1 <= b@.len()
                &&& b@.subrange(i as int, p.1 as int) == canon_root(p.0@)
                &&& crate::schema::wf_root(p.0@)
            },
            None => true,
        },
{
    let (consistent_snapshot, expires, keys, j11) = parse_root_front(b, i)?;
    let ghost mid = j11 as int;
    let j12 = expect_byte(b, j11, 44)?;
    let j13 = expect_mname(b, j12, &v_roles())?;
    let (root, snapshot, targets, timestamp, j14) = parse_root_roles(b, j13)?;
    let j15 = expect_byte(b, j14, 44)?;
    let j16 = expect_mname(b, j15, &v_spec_version())?;
    let (sv, j18) = parse_quoted(b, j16)?;
    if !crate::canon::bytes_eq(&sv, &v_one_zero_zero()) {
        return None;
    }
    let j19 = expect_byte(b, j18, 44)?;
    let j20 = expect_mname(b, j19, &v_version())?;
    let (version, j21) = parse_dec(b, j20)?;
    let j22 = expect_byte(b, j21, 125)?;
    let doc = Root { consistent_snapshot, expires, keys, root, snapshot, targets, timestamp, version };
    proof {
        assert(b@.subrange(i as int, mid) == canon_root_head(doc@));
        assert(b@.subrange(mid, j15 as int) =~= seq![44u8] + mname(crate::lits::s_roles()) + (
        crate::schema::canon_roles_head(root@, snapshot@) + crate::schema::canon_roles_tail(
            targets@,
            timestamp@,
        )) + seq![44u8]);
        assert(b@.subrange(mid, j15 as int) == crate::schema::canon_root_t1(doc@));
        assert(b@.subrange(j15 as int, j22 as int) =~= crate::schema::canon_root_t2(
            version as nat,
        ));
        assert(b@.subrange(mid, j22 as int) =~= b@.subrange(mid, j15 as int) + b@.subrange(
            j15 as int,
            j22 as int,
        ));
        assert(b@.subrange(mid, j22 as int) == canon_root_tail(doc@));
        assert(b@.subrange(i as int, j22 as int) =~= b@.subrange(i as int, mid) + b@.subrange(
            mid,
            j22 as int,
        ));
        assert(b@.subrange(i as int, j22 as int) == canon_root(doc@));
    }
    Some((doc, j22))
}

/// Parses a canonical meta entry.
#[verifier::rlimit(100)]
pub fn parse_meta_entry(b: &Vec<u8>, i: usize) -> (r: Option<(MetaEntry, usize)>)
    requires
        i <= b@.len(),
    ensures
        match r {
            Some(p) => i < p.1 <= b@.len() && b@.subrange(i as int, p.1 as int) == canon_meta_entry(
                p.0@,
            ),
            None => true,
        },
{
    let j0 = expect_byte(b, i, 123)?;
    let mut cur: usize = j0;
    let mut sha256: Option<Vec<u8>> = None;
    if let Some(ja) = expect_mname(b, cur, &v_hashes()) {
        let jb = expect_byte(b, ja, 123)?;
        let jc = expect_mname(b, jb, &v_sha256())?;
        let (h, jd) = parse_quoted(b, jc)?;
        let je = expect_byte(b, jd, 125)?;
        let jf = expect_byte(b, je, 44)?;
        sha256 = Some(h);
        cur = jf;
    }
    let ghost cur1 = cur as int;
    let mut length: Option<u64> = None;
    if let Some(ja) = expect_mname(b, cur, &v_length()) {
        let (l, jb) = parse_dec(b, ja)?;
        let jc = expect_byte(b, jb, 44)?;
        length = Some(l);
        cur = jc;
    }
    let ghost cur2 = cur as int;
    let ja = expect_mname(b, cur, &v_version())?;
    let (version, jb) = parse_dec(b, ja)?;
    let jc = expect_byte(b, jb, 125)?;
    let m = MetaEntry { sha256, length, version };
    proof {
        assert(b@.subrange(i as int, jc as int) =~= canon_meta_entry(m@));
    }
    Some((m, jc))
}

/// Parses the canonical timestamp payload.
#[verifier::rlimit(100)]
pub fn parse_timestamp(b: &Vec<u8>, i: usize) -> (r: Option<(Timestamp, usize)>)
    requires
        i <= b@.len(),
    ensures
        match r {
            Some(p) => i < p.1 <= b@.len() && b@.subrange(i as int, p.1 as int) == canon_timestamp(
                p.0@,
            ),
            None => true,
        },
{
    let j0 = expect_byte(b, i, 123)?;
    let j1 = expect_mname(b, j0, &v_type_tag())?;
    let (tword, j2) = parse_quoted(b, j1)?;
    if !crate::canon::bytes_eq(&tword, &v_timestamp()) {
        return None;
    }
    let j3 = expect_byte(b, j2, 44)?;
    let j4 = expect_mname(b, j3, &v_expires())?;
    let (expires, j5) = parse_quoted(b, j4)?;
    let j6 = expect_byte(b, j5, 44)?;
    let j7 = expect_mname(b, j6, &v_meta())?;
    let j8 = expect_byte(b, j7, 123)?;
    let j9 = expect_mname(b, j8, &v_snapshot_json())?;
    let (snapshot_meta, j10) = parse_meta_entry(b, j9)?;
    let j11 = expect_byte(b, j10, 125)?;
    let j12 = expect_byte(b, j11, 44)?;
    let j13 = expect_mname(b, j12, &v_spec_version())?;
    let (sv, j14) = parse_quoted(b, j13)?;
    if !crate::canon::bytes_eq(&sv, &v_one_zero_zero()) {
        return None;
    }
    let j15 = expect_byte(b, j14, 44)?;
    let j16 = expect_mname(b, j15, &v_version())?;
    let (version, j17) = parse_dec(b, j16)?;
    let j18 = expect_byte(b, j17, 125)?;
    let t = Timestamp { expires, snapshot_meta, version };
    proof {
        assert(b@.subrange(i as int, j18 as int) =~= canon_timestamp(t@));
    }
    Some((t, j18))
}

/// Parses a canonical map from metadata file name to meta entry, accepting
/// only strictly ascending keys.
pub fn parse_meta_map(b: &Vec<u8>, i: usize) -> (r: Option<(Vec<(Vec<u8>, MetaEntry)>, usize)>)
    requires
        i <= b@.len(),
    ensures
        match r {
            Some(p) => {
                let view = p.0@.map_values(|q: (Vec<u8>, MetaEntry)| (q.0@, q.1@));
                &&& i < p.1 <= b@.len()
                &&& b@.subrange(i as int, p.1 as int) == canon_meta_map(view)
                &&& sorted_keys(view)
            },
            None => true,
        },
{
    let j0 = expect_byte(b, i, 123)?;
    let mut entries: Vec<(Vec<u8>, MetaEntry)> = Vec::new();
    let mut cur: usize = j0;
    if let Some(j1) = expect_byte(b, cur, 125) {
        proof {
            let view = entries@.map_values(|q: (Vec<u8>, MetaEntry)| (q.0@, q.1@));
            assert(view =~= Seq::<(Seq<u8>, MetaEntryV)>::empty());
            assert(view.map_values(
                |p: (Seq<u8>, MetaEntryV)| quoted(p.0) + seq![58u8] + canon_meta_entry(p.1),
            ) =~= Seq::<Seq<u8>>::empty());
            assert(b@.subrange(i as int, j1 as int) =~= canon_meta_map(view));
        }
        return Some((entries, j1));
    }
    loop
        invariant
            i < j0 <= cur <= b@.len(),
            b@[i as int] == 123,
            j0 == i + 1,
            entries@.len() > 0 ==> b@.subrange(j0 as int, cur as int) == join_comma(
                entries@.map_values(|q: (Vec<u8>, MetaEntry)| (q.0@, q.1@)).map_values(
                    |p: (Seq<u8>, MetaEntryV)| quoted(p.0) + seq![58u8] + canon_meta_entry(p.1),
                ),
            ),
            entries@.len() == 0 ==> cur == j0,
            sorted_keys(entries@.map_values(|q: (Vec<u8>, MetaEntry)| (q.0@, q.1@))),
        decreases b@.len() - cur,
    {
        let start_entry: usize = if entries.len() > 0 {
            match expect_byte(b, cur, 44) {
                Some(j) => j,
                None => {
                    return None;
                },
            }
        } else {
            cur
        };
        let (name, ja) = match parse_quoted(b, start_entry) {
            Some(p) => p,
            None => {
                return None;
            },
        };
        let jb = match expect_byte(b, ja, 58) {
            Some(j) => j,
            None => {
                return None;
            },
        };
        let (me, jc) = match parse_meta_entry(b, jb) {
            Some(p) => p,
            None => {
                return None;
            },
        };
        if entries.len() > 0 {
            let last = &entries[entries.len() - 1].0;
            if !lex_lt_exec(last, &name) {
                return None;
            }
        }
        let ghost entries0 = entries@;
        let ghost namev = name@;
        let ghost mev = me@;
        let ghost piece = quoted(namev) + seq![58u8] + canon_meta_entry(mev);
        entries.push((name, me));
        proof {
            let view0 = entries0.map_values(|q: (Vec<u8>, MetaEntry)| (q.0@, q.1@));
            let view = entries@.map_values(|q: (Vec<u8>, MetaEntry)| (q.0@, q.1@));
            assert(entries@.last().0@ == namev && entries@.last().1@ == mev);
            assert(view =~= view0.push((namev, mev)));
            let g = |p: (Seq<u8>, MetaEntryV)| quoted(p.0) + seq![58u8] + canon_meta_entry(p.1);
            assert(view.map_values(g) =~= view0.map_values(g).push(piece));
            lemma_join_comma_push(view0.map_values(g), piece);
            if entries0.len() > 0 {
                assert(b@.subrange(start_entry as int, jc as int) =~= piece);
                assert(b@.subrange(j0 as int, jc as int) =~= b@.subrange(j0 as int, cur as int)
                    + seq![44u8] + b@.subrange(start_entry as int, jc as int));
                assert(b@.subrange(j0 as int, jc as int) =~= join_comma(view.map_values(g)));
                let lastk = view0.last().0;
                assert(forall|t: int|
                    0 <= t < view0.len() - 1 ==> lex_lt(#[trigger] view0[t].0, lastk));
                assert forall|t: int| 0 <= t < view.len() - 1 implies lex_lt(
                    #[trigger] view[t].0,
                    view.last().0,
                ) by {
                    if t < view0.len() - 1 {
                        lemma_lex_lt_trans(view0[t].0, lastk, view.last().0);
                    }
                }
                assert(sorted_keys(view));
            } else {
                assert(b@.subrange(j0 as int, jc as int) =~= piece);
                assert(join_comma(view.map_values(g)) == piece);
                assert(sorted_keys(view));
            }
        }
        cur = jc;
        if let Some(jd) = expect_byte(b, cur, 125) {
            proof {
                let view = entries@.map_values(|q: (Vec<u8>, MetaEntry)| (q.0@, q.1@));
                let g = |p: (Seq<u8>, MetaEntryV)| quoted(p.0) + seq![58u8] + canon_meta_entry(p.1);
                assert(b@.subrange(i as int, jd as int) =~= seq![123u8] + join_comma(
                    view.map_values(g),
                ) + seq![125u8]);
                assert(b@.subrange(i as int, jd as int) =~= canon_meta_map(view));
            }
            return Some((entries, jd));
        }
    }
}

/// Parses the canonical snapshot payload; its meta map must be in canonical
/// order.
#[verifier::rlimit(100)]
pub fn parse_snapshot(b: &Vec<u8>, i: usize) -> (r: Option<(Snapshot, usize)>)
    requires
        i <= b@.len(),
    ensures
        match r {
            Some(p) => {
                &&& i < p.1 <= b@.len()
                &&& b@.subrange(i as int, p.1 as int) == canon_snapshot(p.0@)
                &&& crate::schema::wf_snapshot(p.0@)
            },
            None => true,
        },
{
    let j0 = expect_byte(b, i, 123)?;
    let j1 = expect_mname(b, j0, &v_type_tag())?;
    let (tword, j2) = parse_quoted(b, j1)?;
    if !crate::canon::bytes_eq(&tword, &v_snapshot()) {
        return None;
    }
    let j3 = expect_byte(b, j2, 44)?;
    let j4 = expect_mname(b, j3, &v_expires())?;
    let (expires, j5) = parse_quoted(b, j4)?;
    let j6 = expect_byte(b, j5, 44)?;
    let j7 = expect_mname(b, j6, &v_meta())?;
    let (meta, j8) = parse_meta_map(b, j7)?;
    let j9 = expect_byte(b, j8, 44)?;
    let j10 = expect_mname(b, j9, &v_spec_version())?;
    let (sv, j11) = parse_quoted(b, j10)?;
    if !crate::canon::bytes_eq(&sv, &v_one_zero_zero()) {
        return None;
    }
    let j12 = expect_byte(b, j11, 44)?;
    let j13 = expect_mname(b, j12, &v_version())?;
    let (version, j14) = parse_dec(b, j13)?;
    let j15 = expect_byte(b, j14, 125)?;
    let s = Snapshot { expires, meta, version };
    proof {
        assert(b@.subrange(i as int, j15 as int) =~= canon_snapshot(s@));
    }
    Some((s, j15))
}

/// Parses a canonical target descriptor.
#[verifier::rlimit(100)]
pub fn parse_target_desc(b: &Vec<u8>, i: usize) -> (r: Option<(TargetDesc, usize)>)
    requires
        i <= b@.len(),
    ensures
        match r {
            Some(p) => i < p.1 <= b@.len() && b@.subrange(i as int, p.1 as int)
                == canon_target_desc(p.0@),
            None => true,
        },
{
    let j0 = expect_byte(b, i, 123)?;
    let j1 = expect_mname(b, j0, &v_hashes())?;
    let j2 = expect_byte(b, j1, 123)?;
    let j3 = expect_mname(b, j2, &v_sha256())?;
    let (sha256, j4) = parse_quoted(b, j3)?;
    let mut cur: usize = j4;
    let mut sha512: Option<Vec<u8>> = None;
    if let Some(ja) = expect_byte(b, cur, 44) {
        let jb = expect_mname(b, ja, &v_sha512())?;
        let (h, jc) = parse_quoted(b, jb)?;
        sha512 = Some(h);
        cur = jc;
    }
    let j5 = expect_byte(b, cur, 125)?;
    let j6 = expect_byte(b, j5, 44)?;
    let j7 = expect_mname(b, j6, &v_length())?;
    let (length, j8) = parse_dec(b, j7)?;
    let j9 = expect_byte(b, j8, 125)?;
    let d = TargetDesc { length, sha256, sha512 };
    proof {
        assert(b@.subrange(i as int, j9 as int) =~= canon_target_desc(d@));
    }
    Some((d, j9))
}

/// Parses a canonical map from target path to descriptor, accepting only
/// strictly ascending keys.
pub fn parse_targets_map(b: &Vec<u8>, i: usize) -> (r: Option<(Vec<(Vec<u8>, TargetDesc)>, usize)>)
    requires
        i <= b@.len(),
    ensures
        match r {
            Some(p) => {
                let view = p.0@.map_values(|q: (Vec<u8>, TargetDesc)| (q.0@, q.1@));
                &&& i < p.1 <= b@.len()
                &&& b@.subrange(i as int, p.1 as int) == canon_targets_map(view)
                &&& sorted_keys(view)
            },
            None => true,
        },
{
    let j0 = expect_byte(b, i, 123)?;
    let mut entries: Vec<(Vec<u8>, TargetDesc)> = Vec::new();
    let mut cur: usize = j0;
    if let Some(j1) = expect_byte(b, cur, 125) {
        proof {
            let view = entries@.map_values(|q: (Vec<u8>, TargetDesc)| (q.0@, q.1@));
            assert(view =~= Seq::<(Seq<u8>, TargetDescV)>::empty());
            assert(view.map_values(
                |p: (Seq<u8>, TargetDescV)| quoted(p.0) + seq![58u8] + canon_target_desc(p.1),
            ) =~= Seq::<Seq<u8>>::empty());
            assert(b@.subrange(i as int, j1 as int) =~= canon_targets_map(view));
        }
        return Some((entries, j1));
    }
    loop
        invariant
            i < j0 <= cur <= b@.len(),
            b@[i as int] == 123,
            j0 == i + 1,
            entries@.len() > 0 ==> b@.subrange(j0 as int, cur as int) == join_comma(
                entries@.map_values(|q: (Vec<u8>, TargetDesc)| (q.0@, q.1@)).map_values(
                    |p: (Seq<u8>, TargetDescV)| quoted(p.0) + seq![58u8] + canon_target_desc(p.1),
                ),
            ),
            entries@.len() == 0 ==> cur == j0,
            sorted_keys(entries@.map_values(|q: (Vec<u8>, TargetDesc)| (q.0@, q.1@))),
        decreases b@.len() - cur,
    {
        let start_entry: usize = if entries.len() > 0 {
            match expect_byte(b, cur, 44) {
                Some(j) => j,
                None => {
                    return None;
                },
            }
        } else {
            cur
        };
        let (path, ja) = match parse_quoted(b, start_entry) {
            Some(p) => p,
            None => {
                return None;
            },
        };
        let jb = match expect_byte(b, ja, 58) {
            Some(j) => j,
            None => {
                return None;
            },
        };
        let (td, jc) = match parse_target_desc(b, jb) {
            Some(p) => p,
            None => {
                return None;
            },
        };
        if entries.len() > 0 {
            let last = &entries[entries.len() - 1].0;
            if !lex_lt_exec(last, &path) {
                return None;
            }
        }
        let ghost entries0 = entries@;
        let ghost pathv = path@;
        let ghost tdv = td@;
        let ghost piece = quoted(pathv) + seq![58u8] + canon_target_desc(tdv);
        entries.push((path, td));
        proof {
            let view0 = entries0.map_values(|q: (Vec<u8>, TargetDesc)| (q.0@, q.1@));
            let view = entries@.map_values(|q: (Vec<u8>, TargetDesc)| (q.0@, q.1@));
            assert(entries@.last().0@ == pathv && entries@.last().1@ == tdv);
            assert(view =~= view0.push((pathv, tdv)));
            let g = |p: (Seq<u8>, TargetDescV)| quoted(p.0) + seq![58u8] + canon_target_desc(p.1);
            assert(view.map_values(g) =~= view0.map_values(g).push(piece));
            lemma_join_comma_push(view0.map_values(g), piece);
            if entries0.len() > 0 {
                assert(b@.subrange(start_entry as int, jc as int) =~= piece);
                assert(b@.subrange(j0 as int, jc as int) =~= b@.subrange(j0 as int, cur as int)
                    + seq![44u8] + b@.subrange(start_entry as int, jc as int));
                assert(b@.subrange(j0 as int, jc as int) =~= join_comma(view.map_values(g)));
                let lastk = view0.last().0;
                assert(forall|t: int|
                    0 <= t < view0.len() - 1 ==> lex_lt(#[trigger] view0[t].0, lastk));
                assert forall|t: int| 0 <= t < view.len() - 1 implies lex_lt(
                    #[trigger] view[t].0,
                    view.last().0,
                ) by {
                    if t < view0.len() - 1 {
                        lemma_lex_lt_trans(view0[t].0, lastk, view.last().0);
                    }
                }
                assert(sorted_keys(view));
            } else {
                assert(b@.subrange(j0 as int, jc as int) =~= piece);
                assert(join_comma(view.map_values(g)) == piece);
                assert(sorted_keys(view));
            }
        }
        cur = jc;
        if let Some(jd) = expect_byte(b, cur, 125) {
            proof {
                let view = entries@.map_values(|q: (Vec<u8>, TargetDesc)| (q.0@, q.1@));
                let g = |p: (Seq<u8>, TargetDescV)| quoted(p.0) + seq![58u8] + canon_target_desc(
                    p.1,
                );
                assert(b@.subrange(i as int, jd as int) =~= seq![123u8] + join_comma(
                    view.map_values(g),
                ) + seq![125u8]);
                assert(b@.subrange(i as int, jd as int) =~= canon_targets_map(view));
            }
            return Some((entries, jd));
        }
    }
}


/// Parses a canonical delegation entry.
#[verifier::rlimit(100)]
pub fn parse_delegated_role(b: &Vec<u8>, i: usize) -> (r: Option<(DelegatedRole, usize)>)
    requires
        i <= b@.len(),
    ensures
        match r {
            Some(p) => i < p.1 <= b@.len() && b@.subrange(i as int, p.1 as int)
                == canon_delegated_role(p.0@),
            None => true,
        },
{
    let j0 = expect_byte(b, i, 123)?;
    let j1 = expect_mname(b, j0, &v_keyids())?;
    let (keyids, j2) = parse_str_array(b, j1)?;
    let j3 = expect_byte(b, j2, 44)?;
    let j4 = expect_mname(b, j3, &v_name())?;
    let (name, j5) = parse_quoted(b, j4)?;
    let j6 = expect_byte(b, j5, 44)?;
    let mut cur: usize = j6;
    let paths: PathSet;
    if let Some(ja) = expect_mname(b, cur, &v_path_hash_prefixes()) {
        let (p, jb) = parse_str_array(b, ja)?;
        paths = PathSet::HashPrefixes(p);
        cur = jb;
    } else {
        let ja = expect_mname(b, cur, &v_paths())?;
        let (p, jb) = parse_str_array(b, ja)?;
        paths = PathSet::Paths(p);
        cur = jb;
    }
    let j7 = expect_byte(b, cur, 44)?;
    let j8 = expect_mname(b, j7, &v_terminating())?;
    let (terminating, j9) = parse_bool(b, j8)?;
    let j10 = expect_byte(b, j9, 44)?;
    let j11 = expect_mname(b, j10, &v_threshold())?;
    let (threshold, j12) = parse_dec(b, j11)?;
    let j13 = expect_byte(b, j12, 125)?;
    let dr = DelegatedRole { name, keyids, paths, terminating, threshold };
    proof {
        assert(b@.subrange(i as int, j6 as int) =~= crate::schema::canon_dr_head(
            dr@.keyids,
            dr@.name,
        ));
        assert(b@.subrange(j6 as int, j13 as int) =~= crate::schema::canon_dr_tail(
            dr@.paths,
            dr@.terminating,
            dr@.threshold,
        ));
        assert(b@.subrange(i as int, j13 as int) =~= b@.subrange(i as int, j6 as int)
            + b@.subrange(j6 as int, j13 as int));
        assert(b@.subrange(i as int, j13 as int) == canon_delegated_role(dr@));
    }
    Some((dr, j13))
}

/// Parses a canonical delegations block: scoped keys in canonical order and
/// delegation entries with unique names.
#[verifier::rlimit(100)]
pub fn parse_delegations(b: &Vec<u8>, i: usize) -> (r: Option<(Delegations, usize)>)
    requires
        i <= b@.len(),
    ensures
        match r {
            Some(p) => {
                &&& i < p.1 <= b@.len()
                &&& b@.subrange(i as int, p.1 as int) == canon_delegations(p.0@)
                &&& sorted_keys(p.0@.keys)
                &&& crate::schema::unique_role_names(p.0@.roles)
            },
            None => true,
        },
{
    let j0 = expect_byte(b, i, 123)?;
    let j1 = expect_mname(b, j0, &v_keys())?;
    let (keys, j2) = parse_key_map(b, j1)?;
    let j3 = expect_byte(b, j2, 44)?;
    let j4 = expect_mname(b, j3, &v_roles())?;
    let j5 = expect_byte(b, j4, 91)?;
    let mut roles: Vec<DelegatedRole> = Vec::new();
    let mut cur: usize = j5;
    if let Some(ja) = expect_byte(b, cur, 93) {
        let jb = expect_byte(b, ja, 125)?;
        let d = Delegations { keys, roles };
        proof {
            assert(d@.roles =~= Seq::<DelegatedRoleV>::empty());
            assert(d@.roles.map_values(|r: DelegatedRoleV| canon_delegated_role(r))
                =~= Seq::<Seq<u8>>::empty());
            assert(b@.subrange(i as int, j3 as int) =~= crate::schema::canon_dele_head(d@.keys));
            assert(b@.subrange(j3 as int, jb as int) =~= crate::schema::canon_dele_tail(d@.roles));
            assert(b@.subrange(i as int, jb as int) =~= b@.subrange(i as int, j3 as int)
                + b@.subrange(j3 as int, jb as int));
            assert(b@.subrange(i as int, jb as int) == canon_delegations(d@));
        }
        return Some((d, jb));
    }
    proof {
        assert(b@.subrange(i as int, j3 as int) =~= crate::schema::canon_dele_head(
            keys@.map_values(|p: (Vec<u8>, Key)| (p.0@, p.1@)),
        ));
        assert(b@.subrange(j3 as int, j5 as int) =~= mname(crate::lits::s_roles()) + seq![91u8]);
    }
    loop
        invariant
            i < j3 <= j5 <= cur <= b@.len(),
            b@.subrange(i as int, j3 as int) == crate::schema::canon_dele_head(
                keys@.map_values(|p: (Vec<u8>, Key)| (p.0@, p.1@)),
            ),
            sorted_keys(keys@.map_values(|p: (Vec<u8>, Key)| (p.0@, p.1@))),
            b@.subrange(j3 as int, j5 as int) == mname(crate::lits::s_roles()) + seq![91u8],
            roles@.len() > 0 ==> b@.subrange(j5 as int, cur as int) == join_comma(
                roles@.map_values(|r: DelegatedRole| r@).map_values(
                    |r: DelegatedRoleV| canon_delegated_role(r),
                ),
            ),
            roles@.len() == 0 ==> cur == j5,
            crate::schema::unique_role_names(roles@.map_values(|r: DelegatedRole| r@)),
        decreases b@.len() - cur,
    {
        let start_item: usize = if roles.len() > 0 {
            match expect_byte(b, cur, 44) {
                Some(j) => j,
                None => {
                    return None;
                },
            }
        } else {
            cur
        };
        let (dr, ja) = match parse_delegated_role(b, start_item) {
            Some(p) => p,
            None => {
                return None;
            },
        };
        let mut t: usize = 0;
        while t < roles.len()
            invariant
                t <= roles@.len(),
                forall|u: int| 0 <= u < t ==> roles@[u]@.name != dr@.name,
            decreases roles.len() - t,
        {
            if crate::canon::bytes_eq(&roles[t].name, &dr.name) {
                return None;
            }
            t = t + 1;
        }
        let ghost roles0 = roles@;
        let ghost drv = dr@;
        let ghost piece = canon_delegated_role(drv);
        roles.push(dr);
        proof {
            let view0 = roles0.map_values(|r: DelegatedRole| r@);
            let view = roles@.map_values(|r: DelegatedRole| r@);
            assert(roles@.last()@ == drv);
            assert(view =~= view0.push(drv));
            let g = |r: DelegatedRoleV| canon_delegated_role(r);
            assert(view.map_values(g) =~= view0.map_values(g).push(piece));
            lemma_join_comma_push(view0.map_values(g), piece);
            if roles0.len() > 0 {
                assert(b@.subrange(start_item as int, ja as int) =~= piece);
                assert(b@.subrange(j5 as int, ja as int) =~= b@.subrange(j5 as int, cur as int)
                    + seq![44u8] + b@.subrange(start_item as int, ja as int));
                assert(b@.subrange(j5 as int, ja as int) =~= join_comma(view.map_values(g)));
            } else {
                assert(b@.subrange(j5 as int, ja as int) =~= piece);
                assert(join_comma(view.map_values(g)) == piece);
            }
            assert(forall|u: int| 0 <= u < view0.len() ==> view[u] == view0[u]);
            assert(crate::schema::unique_role_names(view));
        }
        cur = ja;
        if let Some(jd) = expect_byte(b, cur, 93) {
            let je = match expect_byte(b, jd, 125) {
                Some(j) => j,
                None => {
                    return None;
                },
            };
            let d = Delegations { keys, roles };
            proof {
                assert(b@.subrange(i as int, j3 as int) =~= crate::schema::canon_dele_head(
                    d@.keys,
                ));
                assert(b@.subrange(j3 as int, je as int) =~= crate::schema::canon_dele_tail(
                    d@.roles,
                ));
                assert(b@.subrange(i as int, je as int) =~= b@.subrange(i as int, j3 as int)
                    + b@.subrange(j3 as int, je as int));
                assert(b@.subrange(i as int, je as int) == canon_delegations(d@));
            }
            return Some((d, je));
        }
    }
}

/// Parses the opening of the targets payload: type tag and optional
/// delegations block.
#[verifier::rlimit(100)]
fn parse_targets_front(b: &Vec<u8>, i: usize) -> (r: Option<(Option<Delegations>, usize)>)
    requires
        i <= b@.len(),
    ensures
        match r {
            Some(p) => {
                let dview = match p.0 {
                    Some(d) => Some(d@),
                    None => None,
                };
                &&& i < p.1 <= b@.len()
                &&& b@.subrange(i as int, p.1 as int) == crate::schema::canon_targets_head(dview)
                &&& match p.0 {
                    Some(d) => sorted_keys(d@.keys) && crate::schema::unique_role_names(d@.roles),
                    None => true,
                }
            },
            None => true,
        },
{
    let j0 = expect_byte(b, i, 123)?;
    let j1 = expect_mname(b, j0, &v_type_tag())?;
    let (tword, j2) = parse_quoted(b, j1)?;
    if !crate::canon::bytes_eq(&tword, &v_targets()) {
        return None;
    }
    let j3 = expect_byte(b, j2, 44)?;
    let mut cur: usize = j3;
    let mut delegations: Option<Delegations> = None;
    if let Some(ja) = expect_mname(b, cur, &v_delegations()) {
        let (d, jb) = parse_delegations(b, ja)?;
        let jc = expect_byte(b, jb, 44)?;
        delegations = Some(d);
        cur = jc;
    }
    proof {
        let dview = match &delegations {
            Some(d) => Some(d@),
            None => None,
        };
        assert(b@.subrange(i as int, cur as int) =~= crate::schema::canon_targets_head(dview));
    }
    Some((delegations, cur))
}

/// Parses the canonical targets payload; its target map must be in
/// canonical order, and delegation entry names unique.
#[verifier::rlimit(100)]
pub fn parse_targets(b: &Vec<u8>, i: usize) -> (r: Option<(Targets, usize)>)
    requires
        i <= b@.len(),
    ensures
        match r {
            Some(p) => {
                &&& i < p.1 <= b@.len()
                &&& b@.subrange(i as int, p.1 as int) == canon_targets(p.0@)
                &&& crate::schema::wf_targets(p.0@)
            },
            None => true,
        },
{
    let (delegations, jm) = parse_targets_front(b, i)?;
    let ghost mid = jm as int;
    let j1 = expect_mname(b, jm, &v_expires())?;
    let (expires, j2) = parse_quoted(b, j1)?;
    let j3 = expect_byte(b, j2, 44)?;
    let j4 = expect_mname(b, j3, &v_spec_version())?;
    let (sv, j5) = parse_quoted(b, j4)?;
    if !crate::canon::bytes_eq(&sv, &v_one_zero_zero()) {
        return None;
    }
    let j6 = expect_byte(b, j5, 44)?;
    let j7 = expect_mname(b, j6, &v_targets())?;
    let (targets, j8) = parse_targets_map(b, j7)?;
    let j9 = expect_byte(b, j8, 44)?;
    let j10 = expect_mname(b, j9, &v_version())?;
    let (version, j11) = parse_dec(b, j10)?;
    let j12 = expect_byte(b, j11, 125)?;
    let t = Targets { delegations, expires, targets, version };
    proof {
        assert(b@.subrange(i as int, mid) == crate::schema::canon_targets_head(t@.delegations));
        assert(b@.subrange(mid, j12 as int) =~= crate::schema::canon_targets_tail(
            t@.expires,
            t@.targets,
            t@.version,
        ));
        assert(b@.subrange(i as int, j12 as int) =~= b@.subrange(i as int, mid) + b@.subrange(
            mid,
            j12 as int,
        ));
        assert(b@.subrange(i as int, j12 as int) == canon_targets(t@));
    }
    Some((t, j12))
}

/// Parses a canonical signature object.
pub fn parse_signature(b: &Vec<u8>, i: usize) -> (r: Option<(Signature, usize)>)
    requires
        i <= b@.len(),
    ensures
        match r {
            Some(p) => i < p.1 <= b@.len() && b@.subrange(i as int, p.1 as int) == canon_signature(
                p.0@,
            ),
            None => true,
        },
{
    let j0 = expect_byte(b, i, 123)?;
    let j1 = expect_mname(b, j0, &v_keyid())?;
    let (keyid, j2) = parse_quoted(b, j1)?;
    let j3 = expect_byte(b, j2, 44)?;
    let j4 = expect_mname(b, j3, &v_sig())?;
    let (sig, j5) = parse_quoted(b, j4)?;
    let j6 = expect_byte(b, j5, 125)?;
    let s = Signature { keyid, sig };
    proof {
        assert(b@.subrange(i as int, j6 as int) =~= canon_signature(s@));
    }
    Some((s, j6))
}

/// Parses any canonical role payload, trying each role type in turn.
pub fn parse_body(b: &Vec<u8>, i: usize) -> (r: Option<(RoleBody, usize)>)
    requires
        i <= b@.len(),
    ensures
        match r {
            Some(p) => {
                &&& i < p.1 <= b@.len()
                &&& b@.subrange(i as int, p.1 as int) == crate::schema::canon_body(p.0@)
                &&& crate::schema::wf_body(p.0@)
            },
            None => true,
        },
{
    if let Some((root, j)) = parse_root(b, i) {
        return Some((RoleBody::Root(root), j));
    }
    if let Some((t, j)) = parse_timestamp(b, i) {
        return Some((RoleBody::Timestamp(t), j));
    }
    if let Some((s, j)) = parse_snapshot(b, i) {
        return Some((RoleBody::Snapshot(s), j));
    }
    if let Some((t, j)) = parse_targets(b, i) {
        return Some((RoleBody::Targets(t), j));
    }
    None
}

/// Finishes a signed role document once the signature list has been
/// consumed: the signed body, the closing brace, and the end of input.
#[verifier::rlimit(100)]
fn parse_signed_tail(b: &Vec<u8>, cur: usize, signatures: Vec<Signature>) -> (r: Option<SignedRole>)
    requires
        cur <= b@.len(),
        b@.subrange(0, cur as int) == crate::schema::canon_signed_head(
            signatures@.map_values(|s: Signature| s@),
        ),
    ensures
        match r {
            Some(d) => crate::schema::canon_signed(d@) == b@ && crate::schema::wf_body(d@.body),
            None => true,
        },
{
    let j3 = expect_byte(b, cur, 44)?;
    let j4 = expect_mname(b, j3, &v_signed())?;
    let (body, j5) = parse_body(b, j4)?;
    let j6 = expect_byte(b, j5, 125)?;
    if j6 != b.len() {
        return None;
    }
    let d = SignedRole { signatures, body };
    proof {
        assert(b@.subrange(0, cur as int) == crate::schema::canon_signed_head(d@.signatures));
        assert(b@.subrange(cur as int, j6 as int) =~= crate::schema::canon_signed_tail(d@.body));
        assert(b@.subrange(0, j6 as int) =~= b@.subrange(0, cur as int) + b@.subrange(
            cur as int,
            j6 as int,
        ));
        assert(b@.subrange(0, j6 as int) == crate::schema::canon_signed(d@));
        assert(b@.subrange(0, b@.len() as int) =~= b@);
    }
    Some(d)
}

/// Parses a whole signed role document, requiring the input to be consumed
/// in full: the document re-encodes to exactly the input bytes, so a
/// canonicalization pass over any accepted document is the identity.
#[verifier::rlimit(100)]
pub fn parse_signed_document(b: &Vec<u8>) -> (r: Option<SignedRole>)
    ensures
        match r {
            Some(d) => crate::schema::canon_signed(d@) == b@ && crate::schema::wf_body(d@.body),
            None => true,
        },
{
    let j0 = expect_byte(b, 0, 123)?;
    let j1 = expect_mname(b, j0, &v_signatures())?;
    let j2 = expect_byte(b, j1, 91)?;
    let mut signatures: Vec<Signature> = Vec::new();
    let mut cur: usize = j2;
    if let Some(ja) = expect_byte(b, cur, 93) {
        proof {
            assert(signatures@.map_values(|s: Signature| s@) =~= Seq::<SignatureV>::empty());
            assert(signatures@.map_values(|s: Signature| s@).map_values(
                |s: SignatureV| canon_signature(s),
            ) =~= Seq::<Seq<u8>>::empty());
            assert(b@.subrange(0, ja as int) =~= crate::schema::canon_signed_head(
                signatures@.map_values(|s: Signature| s@),
            ));
        }
        return parse_signed_tail(b, ja, signatures);
    }
    proof {
        assert(b@.subrange(0, j2 as int) =~= seq![123u8] + mname(crate::lits::s_signatures())
            + seq![91u8]);
    }
    loop
        invariant
            0 < j2 <= cur <= b@.len(),
            b@.subrange(0, j2 as int) == seq![123u8] + mname(crate::lits::s_signatures()) + seq![
                91u8,
            ],
            signatures@.len() > 0 ==> b@.subrange(j2 as int, cur as int) == join_comma(
                signatures@.map_values(|s: Signature| s@).map_values(
                    |s: SignatureV| canon_signature(s),
                ),
            ),
            signatures@.len() == 0 ==> cur == j2,
        decreases b@.len() - cur,
    {
        let start_item: usize = if signatures.len() > 0 {
            match expect_byte(b, cur, 44) {
                Some(j) => j,
                None => {
                    return None;
                },
            }
        } else {
            cur
        };
        let (sg, ja) = match parse_signature(b, start_item) {
            Some(p) => p,
            None => {
                return None;
            },
        };
        let ghost sigs0 = signatures@;
        let ghost sgv = sg@;
        let ghost piece = canon_signature(sgv);
        signatures.push(sg);
        proof {
            let view0 = sigs0.map_values(|s: Signature| s@);
            let view = signatures@.map_values(|s: Signature| s@);
            assert(signatures@.last()@ == sgv);
            assert(view =~= view0.push(sgv));
            let g = |s: SignatureV| canon_signature(s);
            assert(view.map_values(g) =~= view0.map_values(g).push(piece));
            lemma_join_comma_push(view0.map_values(g), piece);
            if sigs0.len() > 0 {
                assert(b@.subrange(start_item as int, ja as int) =~= piece);
                assert(b@.subrange(j2 as int, ja as int) =~= b@.subrange(j2 as int, cur as int)
                    + seq![44u8] + b@.subrange(start_item as int, ja as int));
                assert(b@.subrange(j2 as int, ja as int) =~= join_comma(view.map_values(g)));
            } else {
                assert(b@.subrange(j2 as int, ja as int) =~= piece);
                assert(join_comma(view.map_values(g)) == piece);
            }
        }
        cur = ja;
        if let Some(jd) = expect_byte(b, cur, 93) {
            proof {
                assert(b@.subrange(0, jd as int) =~= crate::schema::canon_signed_head(
                    signatures@.map_values(|s: Signature| s@),
                ));
            }
            return parse_signed_tail(b, jd, signatures);
        }
    }
}

} // verus!
