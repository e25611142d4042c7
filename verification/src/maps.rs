//! Sorted association lists: the editor's view of every canonical map.
//! Insertion keeps keys strictly ascending; removal drops every entry with
//! the key. Both operations are idempotent, which the editor's laws build
//! on.

use vstd::prelude::*;

use crate::canon::lex_lt;
use crate::canon::lex_lt_exec;
use crate::canon::bytes_eq;
use crate::schema::map_get;
use crate::schema::map_has;
use crate::schema::sorted_keys;
use crate::schema::Key;
use crate::schema::KeyV;
use crate::schema::MetaEntry;
use crate::schema::MetaEntryV;
use crate::schema::TargetDesc;
use crate::schema::TargetDescV;
use crate::trust::lemma_lex_lt_irrefl;
use crate::parse::lemma_lex_lt_trans;

verus! {

/// Insertion into a sorted association list: before the first key not below
/// `k`, replacing an equal key.
pub open spec fn map_insert_spec<V>(s: Seq<(Seq<u8>, V)>, k: Seq<u8>, v: V) -> Seq<(Seq<u8>, V)>
    decreases s.len(),
{
    if s.len() == 0 {
        seq![(k, v)]
    } else if lex_lt(k, s[0].0) {
        seq![(k, v)] + s
    } else if s[0].0 == k {
        seq![(k, v)] + s.drop_first()
    } else {
        seq![s[0]] + map_insert_spec(s.drop_first(), k, v)
    }
}

/// Removal from an association list: every entry with key `k` goes.
pub open spec fn map_remove_spec<V>(s: Seq<(Seq<u8>, V)>, k: Seq<u8>) -> Seq<(Seq<u8>, V)>
    decreases s.len(),
{
    if s.len() == 0 {
        s
    } else if s[0].0 == k {
        map_remove_spec(s.drop_first(), k)
    } else {
        seq![s[0]] + map_remove_spec(s.drop_first(), k)
    }
}

/// Removing a key twice is the same as removing it once.
pub proof fn lemma_map_remove_idempotent<V>(s: Seq<(Seq<u8>, V)>, k: Seq<u8>)
    ensures
        map_remove_spec(map_remove_spec(s, k), k) == map_remove_spec(s, k),
    decreases s.len(),
{
    if s.len() == 0 {
    } else {
        lemma_map_remove_idempotent(s.drop_first(), k);
        if s[0].0 == k {
        } else {
            let rest = map_remove_spec(s.drop_first(), k);
            let whole = seq![s[0]] + rest;
            assert(whole[0] == s[0]);
            assert(whole.drop_first() =~= rest);
            assert(map_remove_spec(whole, k) =~= seq![s[0]] + map_remove_spec(rest, k));
        }
    }
}

/// Every key of the result is the inserted key or a key of the input.
pub proof fn lemma_map_insert_keys<V>(s: Seq<(Seq<u8>, V)>, k: Seq<u8>, v: V)
    ensures
        forall|i: int|
            0 <= i < map_insert_spec(s, k, v).len() ==> (#[trigger] map_insert_spec(s, k, v)[i]).0
                == k || exists|j: int|
                0 <= j < s.len() && (#[trigger] s[j]).0 == map_insert_spec(s, k, v)[i].0,
    decreases s.len(),
{
    if s.len() == 0 {
    } else if lex_lt(k, s[0].0) {
    } else if s[0].0 == k {
    } else {
        lemma_map_insert_keys(s.drop_first(), k, v);
        let r = map_insert_spec(s, k, v);
        let rr = map_insert_spec(s.drop_first(), k, v);
        assert forall|i: int| 0 <= i < r.len() implies (#[trigger] r[i]).0 == k || exists|j: int|
            0 <= j < s.len() && (#[trigger] s[j]).0 == r[i].0 by {
            if i == 0 {
                assert(s[0].0 == r[0].0);
            } else {
                assert(r[i] == rr[i - 1]);
                if rr[i - 1].0 != k {
                    let j = choose|j: int|
                        0 <= j < s.drop_first().len() && (#[trigger] s.drop_first()[j]).0 == rr[i
                            - 1].0;
                    assert(s[j + 1].0 == r[i].0);
                }
            }
        }
    }
}

/// Insertion keeps keys strictly ascending.
pub proof fn lemma_map_insert_sorted<V>(s: Seq<(Seq<u8>, V)>, k: Seq<u8>, v: V)
    requires
        sorted_keys(s),
    ensures
        sorted_keys(map_insert_spec(s, k, v)),
    decreases s.len(),
{
    let r = map_insert_spec(s, k, v);
    if s.len() == 0 {
    } else if lex_lt(k, s[0].0) {
        assert forall|i: int, j: int| 0 <= i < j < r.len() implies lex_lt(
            (#[trigger] r[i]).0,
            (#[trigger] r[j]).0,
        ) by {
            if i == 0 {
                if j == 1 {
                } else {
                    lemma_lex_lt_trans(k, s[0].0, s[j - 1].0);
                }
            }
        }
    } else if s[0].0 == k {
        assert forall|i: int, j: int| 0 <= i < j < r.len() implies lex_lt(
            (#[trigger] r[i]).0,
            (#[trigger] r[j]).0,
        ) by {
            if i == 0 {
                assert(r[j] == s[j]);
                assert(lex_lt(s[0].0, s[j].0));
            } else {
                assert(r[i] == s[i] && r[j] == s[j]);
            }
        }
    } else {
        assert(sorted_keys(s.drop_first())) by {
            assert(forall|i: int, j: int|
                0 <= i < j < s.drop_first().len() ==> lex_lt(
                    (#[trigger] s.drop_first()[i]).0,
                    (#[trigger] s.drop_first()[j]).0,
                ));
        }
        lemma_map_insert_sorted(s.drop_first(), k, v);
        lemma_map_insert_keys(s.drop_first(), k, v);
        let rr = map_insert_spec(s.drop_first(), k, v);
        assert(!lex_lt(k, s[0].0) && s[0].0 != k);
        assert(lex_lt(s[0].0, k)) by {
            lemma_lex_lt_total(s[0].0, k);
        }
        assert forall|i: int, j: int| 0 <= i < j < r.len() implies lex_lt(
            (#[trigger] r[i]).0,
            (#[trigger] r[j]).0,
        ) by {
            if i == 0 {
                assert(r[j] == rr[j - 1]);
                if rr[j - 1].0 == k {
                } else {
                    let t = choose|t: int|
                        0 <= t < s.drop_first().len() && (#[trigger] s.drop_first()[t]).0 == rr[j
                            - 1].0;
                    assert(lex_lt(s[0].0, s[t + 1].0));
                }
            } else {
                assert(r[i] == rr[i - 1] && r[j] == rr[j - 1]);
            }
        }
    }
}

/// Two distinct byte strings are ordered one way or the other.
pub proof fn lemma_lex_lt_total(a: Seq<u8>, b: Seq<u8>)
    requires
        a != b,
    ensures
        lex_lt(a, b) || lex_lt(b, a),
    decreases a.len(),
{
    if b.len() == 0 {
        if a.len() == 0 {
            assert(a =~= b);
        }
    } else if a.len() == 0 {
    } else if a[0] != b[0] {
    } else {
        assert(a =~= seq![a[0]] + a.drop_first());
        assert(b =~= seq![b[0]] + b.drop_first());
        if a.drop_first() == b.drop_first() {
            assert(a == b);
        }
        lemma_lex_lt_total(a.drop_first(), b.drop_first());
    }
}

/// Inserting the same key and value twice is the same as inserting it once.
pub proof fn lemma_map_insert_idempotent<V>(s: Seq<(Seq<u8>, V)>, k: Seq<u8>, v: V)
    ensures
        map_insert_spec(map_insert_spec(s, k, v), k, v) == map_insert_spec(s, k, v),
    decreases s.len(),
{
    let r = map_insert_spec(s, k, v);
    if s.len() == 0 {
        assert(r[0].0 == k);
        lemma_lex_lt_irrefl(k);
        assert(map_insert_spec(r, k, v) =~= seq![(k, v)] + r.drop_first());
        assert(map_insert_spec(r, k, v) =~= r);
    } else if lex_lt(k, s[0].0) {
        assert(r[0].0 == k);
        lemma_lex_lt_irrefl(k);
        assert(map_insert_spec(r, k, v) =~= seq![(k, v)] + r.drop_first());
        assert(map_insert_spec(r, k, v) =~= r);
    } else if s[0].0 == k {
        assert(r[0].0 == k);
        lemma_lex_lt_irrefl(k);
        assert(map_insert_spec(r, k, v) =~= seq![(k, v)] + r.drop_first());
        assert(map_insert_spec(r, k, v) =~= r);
    } else {
        lemma_map_insert_idempotent(s.drop_first(), k, v);
        assert(r[0] == s[0]);
        assert(r.drop_first() =~= map_insert_spec(s.drop_first(), k, v));
        assert(map_insert_spec(r, k, v) =~= seq![r[0]] + map_insert_spec(r.drop_first(), k, v));
        assert(map_insert_spec(r, k, v) =~= r);
    }
}

/// Inserts into a sorted association list of target descriptors.
pub fn insert_target_entry(m: Vec<(Vec<u8>, TargetDesc)>, k: Vec<u8>, v: TargetDesc) -> (r: Vec<
    (Vec<u8>, TargetDesc),
>)
    ensures
        r@.map_values(|p: (Vec<u8>, TargetDesc)| (p.0@, p.1@)) == map_insert_spec(
            m@.map_values(|p: (Vec<u8>, TargetDesc)| (p.0@, p.1@)),
            k@,
            v@,
        ),
{
    let ghost orig = m@.map_values(|p: (Vec<u8>, TargetDesc)| (p.0@, p.1@));
    let ghost kv = k@;
    let ghost vv = v@;
    let mut it = m;
    let mut out: Vec<(Vec<u8>, TargetDesc)> = Vec::new();
    let mut placed: bool = false;
    let k2 = k;
    let mut pending_key: Vec<u8> = k2;
    let mut pending_val: TargetDesc = v;
    proof {
        assert(out@.map_values(|p: (Vec<u8>, TargetDesc)| (p.0@, p.1@))
            =~= Seq::<(Seq<u8>, TargetDescV)>::empty());
        assert(it@.map_values(|p: (Vec<u8>, TargetDesc)| (p.0@, p.1@)) =~= orig);
        assert(out@.map_values(|p: (Vec<u8>, TargetDesc)| (p.0@, p.1@)) + map_insert_spec(
            orig,
            kv,
            vv,
        ) =~= map_insert_spec(orig, kv, vv));
    }
    loop
        invariant
            orig == m@.map_values(|p: (Vec<u8>, TargetDesc)| (p.0@, p.1@)),
            kv == k@,
            vv == v@,
            !placed ==> pending_key@ == kv && pending_val@ == vv,
            !placed ==> map_insert_spec(orig, kv, vv) == out@.map_values(
                |p: (Vec<u8>, TargetDesc)| (p.0@, p.1@),
            ) + map_insert_spec(
                it@.map_values(|p: (Vec<u8>, TargetDesc)| (p.0@, p.1@)),
                kv,
                vv,
            ),
            placed ==> map_insert_spec(orig, kv, vv) == out@.map_values(
                |p: (Vec<u8>, TargetDesc)| (p.0@, p.1@),
            ) + it@.map_values(|p: (Vec<u8>, TargetDesc)| (p.0@, p.1@)),
        decreases it@.len() + 1 + (if placed {
            0int
        } else {
            1int
        }),
    {
        let ghost outv = out@.map_values(|p: (Vec<u8>, TargetDesc)| (p.0@, p.1@));
        let ghost itv = it@.map_values(|p: (Vec<u8>, TargetDesc)| (p.0@, p.1@));
        if it.len() == 0 {
            if placed {
                proof {
                    assert(itv =~= Seq::<(Seq<u8>, TargetDescV)>::empty());
                    assert(outv + itv =~= outv);
                }
                return out;
            }
            if !placed {
                out.push((pending_key, pending_val));
                proof {
                    assert(map_insert_spec(itv, kv, vv) =~= seq![(kv, vv)]);
                    assert(out@.map_values(|p: (Vec<u8>, TargetDesc)| (p.0@, p.1@)) =~= outv
                        + seq![(kv, vv)]);
                    assert(it@.map_values(|p: (Vec<u8>, TargetDesc)| (p.0@, p.1@))
                        =~= Seq::<(Seq<u8>, TargetDescV)>::empty());
                    assert(outv + seq![(kv, vv)] + it@.map_values(
                        |p: (Vec<u8>, TargetDesc)| (p.0@, p.1@),
                    ) =~= outv + seq![(kv, vv)]);
                }
                placed = true;
                return out;
            }
            return out;
        }
        let p = it.remove(0);
        let ghost pv = (p.0@, p.1@);
        proof {
            assert(itv[0] == pv);
            assert(it@.map_values(|p: (Vec<u8>, TargetDesc)| (p.0@, p.1@)) =~= itv.drop_first());
        }
        if placed {
            out.push(p);
            proof {
                assert(out@.map_values(|p: (Vec<u8>, TargetDesc)| (p.0@, p.1@)) =~= outv + seq![
                    pv,
                ]);
                assert(outv + itv =~= (outv + seq![pv]) + itv.drop_first());
            }
        } else if lex_lt_exec(&pending_key, &p.0) {
            let pk = pending_key;
            let pvv = pending_val;
            out.push((pk, pvv));
            out.push(p);
            placed = true;
            proof {
                assert(map_insert_spec(itv, kv, vv) =~= seq![(kv, vv)] + itv);
                assert(out@.map_values(|p: (Vec<u8>, TargetDesc)| (p.0@, p.1@)) =~= outv + seq![
                    (kv, vv),
                    pv,
                ]);
                assert(outv + (seq![(kv, vv)] + itv) =~= (outv + seq![(kv, vv), pv])
                    + itv.drop_first());
            }
            pending_key = Vec::new();
            pending_val = TargetDesc { length: 0, sha256: Vec::new(), sha512: None };
        } else if bytes_eq(&p.0, &pending_key) {
            let pk = pending_key;
            let pvv = pending_val;
            out.push((pk, pvv));
            placed = true;
            proof {
                assert(map_insert_spec(itv, kv, vv) =~= seq![(kv, vv)] + itv.drop_first());
                assert(out@.map_values(|p: (Vec<u8>, TargetDesc)| (p.0@, p.1@)) =~= outv + seq![
                    (kv, vv),
                ]);
                assert(outv + (seq![(kv, vv)] + itv.drop_first()) =~= (outv + seq![(kv, vv)])
                    + itv.drop_first());
            }
            pending_key = Vec::new();
            pending_val = TargetDesc { length: 0, sha256: Vec::new(), sha512: None };
        } else {
            out.push(p);
            proof {
                assert(map_insert_spec(itv, kv, vv) =~= seq![pv] + map_insert_spec(
                    itv.drop_first(),
                    kv,
                    vv,
                ));
                assert(out@.map_values(|p: (Vec<u8>, TargetDesc)| (p.0@, p.1@)) =~= outv + seq![
                    pv,
                ]);
                assert(outv + (seq![pv] + map_insert_spec(itv.drop_first(), kv, vv)) =~= (outv
                    + seq![pv]) + map_insert_spec(itv.drop_first(), kv, vv));
            }
        }
    }
}

/// Inserts into a sorted association list of public keys.
pub fn insert_key_entry(m: Vec<(Vec<u8>, Key)>, k: Vec<u8>, v: Key) -> (r: Vec<
    (Vec<u8>, Key),
>)
    ensures
        r@.map_values(|p: (Vec<u8>, Key)| (p.0@, p.1@)) == map_insert_spec(
            m@.map_values(|p: (Vec<u8>, Key)| (p.0@, p.1@)),
            k@,
            v@,
        ),
{
    let ghost orig = m@.map_values(|p: (Vec<u8>, Key)| (p.0@, p.1@));
    let ghost kv = k@;
    let ghost vv = v@;
    let mut it = m;
    let mut out: Vec<(Vec<u8>, Key)> = Vec::new();
    let mut placed: bool = false;
    let k2 = k;
    let mut pending_key: Vec<u8> = k2;
    let mut pending_val: Key = v;
    proof {
        assert(out@.map_values(|p: (Vec<u8>, Key)| (p.0@, p.1@))
            =~= Seq::<(Seq<u8>, KeyV)>::empty());
        assert(it@.map_values(|p: (Vec<u8>, Key)| (p.0@, p.1@)) =~= orig);
        assert(out@.map_values(|p: (Vec<u8>, Key)| (p.0@, p.1@)) + map_insert_spec(
            orig,
            kv,
            vv,
        ) =~= map_insert_spec(orig, kv, vv));
    }
    loop
        invariant
            orig == m@.map_values(|p: (Vec<u8>, Key)| (p.0@, p.1@)),
            kv == k@,
            vv == v@,
            !placed ==> pending_key@ == kv && pending_val@ == vv,
            !placed ==> map_insert_spec(orig, kv, vv) == out@.map_values(
                |p: (Vec<u8>, Key)| (p.0@, p.1@),
            ) + map_insert_spec(
                it@.map_values(|p: (Vec<u8>, Key)| (p.0@, p.1@)),
                kv,
                vv,
            ),
            placed ==> map_insert_spec(orig, kv, vv) == out@.map_values(
                |p: (Vec<u8>, Key)| (p.0@, p.1@),
            ) + it@.map_values(|p: (Vec<u8>, Key)| (p.0@, p.1@)),
        decreases it@.len() + 1 + (if placed {
            0int
        } else {
            1int
        }),
    {
        let ghost outv = out@.map_values(|p: (Vec<u8>, Key)| (p.0@, p.1@));
        let ghost itv = it@.map_values(|p: (Vec<u8>, Key)| (p.0@, p.1@));
        if it.len() == 0 {
            if placed {
                proof {
                    assert(itv =~= Seq::<(Seq<u8>, KeyV)>::empty());
                    assert(outv + itv =~= outv);
                }
                return out;
            }
            if !placed {
                out.push((pending_key, pending_val));
                proof {
                    assert(map_insert_spec(itv, kv, vv) =~= seq![(kv, vv)]);
                    assert(out@.map_values(|p: (Vec<u8>, Key)| (p.0@, p.1@)) =~= outv
                        + seq![(kv, vv)]);
                    assert(it@.map_values(|p: (Vec<u8>, Key)| (p.0@, p.1@))
                        =~= Seq::<(Seq<u8>, KeyV)>::empty());
                    assert(outv + seq![(kv, vv)] + it@.map_values(
                        |p: (Vec<u8>, Key)| (p.0@, p.1@),
                    ) =~= outv + seq![(kv, vv)]);
                }
                placed = true;
                return out;
            }
            return out;
        }
        let p = it.remove(0);
        let ghost pv = (p.0@, p.1@);
        proof {
            assert(itv[0] == pv);
            assert(it@.map_values(|p: (Vec<u8>, Key)| (p.0@, p.1@)) =~= itv.drop_first());
        }
        if placed {
            out.push(p);
            proof {
                assert(out@.map_values(|p: (Vec<u8>, Key)| (p.0@, p.1@)) =~= outv + seq![
                    pv,
                ]);
                assert(outv + itv =~= (outv + seq![pv]) + itv.drop_first());
            }
        } else if lex_lt_exec(&pending_key, &p.0) {
            let pk = pending_key;
            let pvv = pending_val;
            out.push((pk, pvv));
            out.push(p);
            placed = true;
            proof {
                assert(map_insert_spec(itv, kv, vv) =~= seq![(kv, vv)] + itv);
                assert(out@.map_values(|p: (Vec<u8>, Key)| (p.0@, p.1@)) =~= outv + seq![
                    (kv, vv),
                    pv,
                ]);
                assert(outv + (seq![(kv, vv)] + itv) =~= (outv + seq![(kv, vv), pv])
                    + itv.drop_first());
            }
            pending_key = Vec::new();
            pending_val = Key { keytype: Vec::new(), scheme: Vec::new(), public: Vec::new() };
        } else if bytes_eq(&p.0, &pending_key) {
            let pk = pending_key;
            let pvv = pending_val;
            out.push((pk, pvv));
            placed = true;
            proof {
                assert(map_insert_spec(itv, kv, vv) =~= seq![(kv, vv)] + itv.drop_first());
                assert(out@.map_values(|p: (Vec<u8>, Key)| (p.0@, p.1@)) =~= outv + seq![
                    (kv, vv),
                ]);
                assert(outv + (seq![(kv, vv)] + itv.drop_first()) =~= (outv + seq![(kv, vv)])
                    + itv.drop_first());
            }
            pending_key = Vec::new();
            pending_val = Key { keytype: Vec::new(), scheme: Vec::new(), public: Vec::new() };
        } else {
            out.push(p);
            proof {
                assert(map_insert_spec(itv, kv, vv) =~= seq![pv] + map_insert_spec(
                    itv.drop_first(),
                    kv,
                    vv,
                ));
                assert(out@.map_values(|p: (Vec<u8>, Key)| (p.0@, p.1@)) =~= outv + seq![
                    pv,
                ]);
                assert(outv + (seq![pv] + map_insert_spec(itv.drop_first(), kv, vv)) =~= (outv
                    + seq![pv]) + map_insert_spec(itv.drop_first(), kv, vv));
            }
        }
    }
}

/// Inserts into a sorted association list of meta entries.
pub fn insert_metaentry_entry(m: Vec<(Vec<u8>, MetaEntry)>, k: Vec<u8>, v: MetaEntry) -> (r: Vec<
    (Vec<u8>, MetaEntry),
>)
    ensures
        r@.map_values(|p: (Vec<u8>, MetaEntry)| (p.0@, p.1@)) == map_insert_spec(
            m@.map_values(|p: (Vec<u8>, MetaEntry)| (p.0@, p.1@)),
            k@,
            v@,
        ),
{
    let ghost orig = m@.map_values(|p: (Vec<u8>, MetaEntry)| (p.0@, p.1@));
    let ghost kv = k@;
    let ghost vv = v@;
    let mut it = m;
    let mut out: Vec<(Vec<u8>, MetaEntry)> = Vec::new();
    let mut placed: bool = false;
    let k2 = k;
    let mut pending_key: Vec<u8> = k2;
    let mut pending_val: MetaEntry = v;
    proof {
        assert(out@.map_values(|p: (Vec<u8>, MetaEntry)| (p.0@, p.1@))
            =~= Seq::<(Seq<u8>, MetaEntryV)>::empty());
        assert(it@.map_values(|p: (Vec<u8>, MetaEntry)| (p.0@, p.1@)) =~= orig);
        assert(out@.map_values(|p: (Vec<u8>, MetaEntry)| (p.0@, p.1@)) + map_insert_spec(
            orig,
            kv,
            vv,
        ) =~= map_insert_spec(orig, kv, vv));
    }
    loop
        invariant
            orig == m@.map_values(|p: (Vec<u8>, MetaEntry)| (p.0@, p.1@)),
            kv == k@,
            vv == v@,
            !placed ==> pending_key@ == kv && pending_val@ == vv,
            !placed ==> map_insert_spec(orig, kv, vv) == out@.map_values(
                |p: (Vec<u8>, MetaEntry)| (p.0@, p.1@),
            ) + map_insert_spec(
                it@.map_values(|p: (Vec<u8>, MetaEntry)| (p.0@, p.1@)),
                kv,
                vv,
            ),
            placed ==> map_insert_spec(orig, kv, vv) == out@.map_values(
                |p: (Vec<u8>, MetaEntry)| (p.0@, p.1@),
            ) + it@.map_values(|p: (Vec<u8>, MetaEntry)| (p.0@, p.1@)),
        decreases it@.len() + 1 + (if placed {
            0int
        } else {
            1int
        }),
    {
        let ghost outv = out@.map_values(|p: (Vec<u8>, MetaEntry)| (p.0@, p.1@));
        let ghost itv = it@.map_values(|p: (Vec<u8>, MetaEntry)| (p.0@, p.1@));
        if it.len() == 0 {
            if placed {
                proof {
                    assert(itv =~= Seq::<(Seq<u8>, MetaEntryV)>::empty());
                    assert(outv + itv =~= outv);
                }
                return out;
            }
            if !placed {
                out.push((pending_key, pending_val));
                proof {
                    assert(map_insert_spec(itv, kv, vv) =~= seq![(kv, vv)]);
                    assert(out@.map_values(|p: (Vec<u8>, MetaEntry)| (p.0@, p.1@)) =~= outv
                        + seq![(kv, vv)]);
                    assert(it@.map_values(|p: (Vec<u8>, MetaEntry)| (p.0@, p.1@))
                        =~= Seq::<(Seq<u8>, MetaEntryV)>::empty());
                    assert(outv + seq![(kv, vv)] + it@.map_values(
                        |p: (Vec<u8>, MetaEntry)| (p.0@, p.1@),
                    ) =~= outv + seq![(kv, vv)]);
                }
                placed = true;
                return out;
            }
            return out;
        }
        let p = it.remove(0);
        let ghost pv = (p.0@, p.1@);
        proof {
            assert(itv[0] == pv);
            assert(it@.map_values(|p: (Vec<u8>, MetaEntry)| (p.0@, p.1@)) =~= itv.drop_first());
        }
        if placed {
            out.push(p);
            proof {
                assert(out@.map_values(|p: (Vec<u8>, MetaEntry)| (p.0@, p.1@)) =~= outv + seq![
                    pv,
                ]);
                assert(outv + itv =~= (outv + seq![pv]) + itv.drop_first());
            }
        } else if lex_lt_exec(&pending_key, &p.0) {
            let pk = pending_key;
            let pvv = pending_val;
            out.push((pk, pvv));
            out.push(p);
            placed = true;
            proof {
                assert(map_insert_spec(itv, kv, vv) =~= seq![(kv, vv)] + itv);
                assert(out@.map_values(|p: (Vec<u8>, MetaEntry)| (p.0@, p.1@)) =~= outv + seq![
                    (kv, vv),
                    pv,
                ]);
                assert(outv + (seq![(kv, vv)] + itv) =~= (outv + seq![(kv, vv), pv])
                    + itv.drop_first());
            }
            pending_key = Vec::new();
            pending_val = MetaEntry { sha256: None, length: None, version: 0 };
        } else if bytes_eq(&p.0, &pending_key) {
            let pk = pending_key;
            let pvv = pending_val;
            out.push((pk, pvv));
            placed = true;
            proof {
                assert(map_insert_spec(itv, kv, vv) =~= seq![(kv, vv)] + itv.drop_first());
                assert(out@.map_values(|p: (Vec<u8>, MetaEntry)| (p.0@, p.1@)) =~= outv + seq![
                    (kv, vv),
                ]);
                assert(outv + (seq![(kv, vv)] + itv.drop_first()) =~= (outv + seq![(kv, vv)])
                    + itv.drop_first());
            }
            pending_key = Vec::new();
            pending_val = MetaEntry { sha256: None, length: None, version: 0 };
        } else {
            out.push(p);
            proof {
                assert(map_insert_spec(itv, kv, vv) =~= seq![pv] + map_insert_spec(
                    itv.drop_first(),
                    kv,
                    vv,
                ));
                assert(out@.map_values(|p: (Vec<u8>, MetaEntry)| (p.0@, p.1@)) =~= outv + seq![
                    pv,
                ]);
                assert(outv + (seq![pv] + map_insert_spec(itv.drop_first(), kv, vv)) =~= (outv
                    + seq![pv]) + map_insert_spec(itv.drop_first(), kv, vv));
            }
        }
    }
}

/// Removes every entry with the key from an association list of target
/// descriptors.
pub fn remove_target_entry(m: Vec<(Vec<u8>, TargetDesc)>, k: &Vec<u8>) -> (r: Vec<
    (Vec<u8>, TargetDesc),
>)
    ensures
        r@.map_values(|p: (Vec<u8>, TargetDesc)| (p.0@, p.1@)) == map_remove_spec(
            m@.map_values(|p: (Vec<u8>, TargetDesc)| (p.0@, p.1@)),
            k@,
        ),
{
    let ghost orig = m@.map_values(|p: (Vec<u8>, TargetDesc)| (p.0@, p.1@));
    let mut it = m;
    let mut out: Vec<(Vec<u8>, TargetDesc)> = Vec::new();
    proof {
        assert(out@.map_values(|p: (Vec<u8>, TargetDesc)| (p.0@, p.1@))
            =~= Seq::<(Seq<u8>, TargetDescV)>::empty());
        assert(it@.map_values(|p: (Vec<u8>, TargetDesc)| (p.0@, p.1@)) =~= orig);
        assert(out@.map_values(|p: (Vec<u8>, TargetDesc)| (p.0@, p.1@)) + map_remove_spec(orig, k@)
            =~= map_remove_spec(orig, k@));
    }
    loop
        invariant
            orig == m@.map_values(|p: (Vec<u8>, TargetDesc)| (p.0@, p.1@)),
            map_remove_spec(orig, k@) == out@.map_values(|p: (Vec<u8>, TargetDesc)| (p.0@, p.1@))
                + map_remove_spec(it@.map_values(|p: (Vec<u8>, TargetDesc)| (p.0@, p.1@)), k@),
        decreases it@.len(),
    {
        let ghost outv = out@.map_values(|p: (Vec<u8>, TargetDesc)| (p.0@, p.1@));
        let ghost itv = it@.map_values(|p: (Vec<u8>, TargetDesc)| (p.0@, p.1@));
        if it.len() == 0 {
            proof {
                assert(map_remove_spec(itv, k@) =~= Seq::<(Seq<u8>, TargetDescV)>::empty());
                assert(outv + map_remove_spec(itv, k@) =~= outv);
            }
            return out;
        }
        let p = it.remove(0);
        let ghost pv = (p.0@, p.1@);
        proof {
            assert(itv[0] == pv);
            assert(it@.map_values(|p: (Vec<u8>, TargetDesc)| (p.0@, p.1@)) =~= itv.drop_first());
        }
        if bytes_eq(&p.0, k) {
            proof {
                assert(map_remove_spec(itv, k@) == map_remove_spec(itv.drop_first(), k@));
            }
        } else {
            out.push(p);
            proof {
                assert(map_remove_spec(itv, k@) =~= seq![pv] + map_remove_spec(
                    itv.drop_first(),
                    k@,
                ));
                assert(out@.map_values(|p: (Vec<u8>, TargetDesc)| (p.0@, p.1@)) =~= outv + seq![
                    pv,
                ]);
                assert(outv + (seq![pv] + map_remove_spec(itv.drop_first(), k@)) =~= (outv + seq![
                    pv,
                ]) + map_remove_spec(itv.drop_first(), k@));
            }
        }
    }
}


/// Removes every entry with the key from an association list of public
/// keys.
pub fn remove_key_entry(m: Vec<(Vec<u8>, Key)>, k: &Vec<u8>) -> (r: Vec<
    (Vec<u8>, Key),
>)
    ensures
        r@.map_values(|p: (Vec<u8>, Key)| (p.0@, p.1@)) == map_remove_spec(
            m@.map_values(|p: (Vec<u8>, Key)| (p.0@, p.1@)),
            k@,
        ),
{
    let ghost orig = m@.map_values(|p: (Vec<u8>, Key)| (p.0@, p.1@));
    let mut it = m;
    let mut out: Vec<(Vec<u8>, Key)> = Vec::new();
    proof {
        assert(out@.map_values(|p: (Vec<u8>, Key)| (p.0@, p.1@))
            =~= Seq::<(Seq<u8>, KeyV)>::empty());
        assert(it@.map_values(|p: (Vec<u8>, Key)| (p.0@, p.1@)) =~= orig);
        assert(out@.map_values(|p: (Vec<u8>, Key)| (p.0@, p.1@)) + map_remove_spec(orig, k@)
            =~= map_remove_spec(orig, k@));
    }
    loop
        invariant
            orig == m@.map_values(|p: (Vec<u8>, Key)| (p.0@, p.1@)),
            map_remove_spec(orig, k@) == out@.map_values(|p: (Vec<u8>, Key)| (p.0@, p.1@))
                + map_remove_spec(it@.map_values(|p: (Vec<u8>, Key)| (p.0@, p.1@)), k@),
        decreases it@.len(),
    {
        let ghost outv = out@.map_values(|p: (Vec<u8>, Key)| (p.0@, p.1@));
        let ghost itv = it@.map_values(|p: (Vec<u8>, Key)| (p.0@, p.1@));
        if it.len() == 0 {
            proof {
                assert(map_remove_spec(itv, k@) =~= Seq::<(Seq<u8>, KeyV)>::empty());
                assert(outv + map_remove_spec(itv, k@) =~= outv);
            }
            return out;
        }
        let p = it.remove(0);
        let ghost pv = (p.0@, p.1@);
        proof {
            assert(itv[0] == pv);
            assert(it@.map_values(|p: (Vec<u8>, Key)| (p.0@, p.1@)) =~= itv.drop_first());
        }
        if bytes_eq(&p.0, k) {
            proof {
                assert(map_remove_spec(itv, k@) == map_remove_spec(itv.drop_first(), k@));
            }
        } else {
            out.push(p);
            proof {
                assert(map_remove_spec(itv, k@) =~= seq![pv] + map_remove_spec(
                    itv.drop_first(),
                    k@,
                ));
                assert(out@.map_values(|p: (Vec<u8>, Key)| (p.0@, p.1@)) =~= outv + seq![
                    pv,
                ]);
                assert(outv + (seq![pv] + map_remove_spec(itv.drop_first(), k@)) =~= (outv + seq![
                    pv,
                ]) + map_remove_spec(itv.drop_first(), k@));
            }
        }
    }
}


/// Adds a key identifier to an authorized set if it is not already there.
pub open spec fn ids_add_spec(s: Seq<Seq<u8>>, k: Seq<u8>) -> Seq<Seq<u8>> {
    if s.contains(k) {
        s
    } else {
        s.push(k)
    }
}

/// Removes a key identifier from an authorized set.
pub open spec fn ids_remove_spec(s: Seq<Seq<u8>>, k: Seq<u8>) -> Seq<Seq<u8>>
    decreases s.len(),
{
    if s.len() == 0 {
        s
    } else if s[0] == k {
        ids_remove_spec(s.drop_first(), k)
    } else {
        seq![s[0]] + ids_remove_spec(s.drop_first(), k)
    }
}

/// Adding the same identifier twice is the same as adding it once.
pub proof fn lemma_ids_add_idempotent(s: Seq<Seq<u8>>, k: Seq<u8>)
    ensures
        ids_add_spec(ids_add_spec(s, k), k) == ids_add_spec(s, k),
{
    if !s.contains(k) {
        assert(s.push(k)[s.len() as int] == k);
        assert(s.push(k).contains(k));
    }
}

/// Nothing removed stays: the removed identifier is in no position of the
/// result.
pub proof fn lemma_ids_remove_gone(s: Seq<Seq<u8>>, k: Seq<u8>)
    ensures
        !ids_remove_spec(s, k).contains(k),
    decreases s.len(),
{
    if s.len() == 0 {
    } else {
        lemma_ids_remove_gone(s.drop_first(), k);
        if s[0] == k {
        } else {
            let rest = ids_remove_spec(s.drop_first(), k);
            let whole = seq![s[0]] + rest;
            if whole.contains(k) {
                let i = choose|i: int| 0 <= i < whole.len() && whole[i] == k;
                if i > 0 {
                    assert(rest[i - 1] == k);
                    assert(rest.contains(k));
                }
            }
        }
    }
}

/// Adds an identifier to an authorized set if absent.
pub fn ids_add(mut s: Vec<Vec<u8>>, k: Vec<u8>) -> (r: Vec<Vec<u8>>)
    ensures
        r@.map_values(|x: Vec<u8>| x@) == ids_add_spec(s@.map_values(|x: Vec<u8>| x@), k@),
{
    let ghost orig = s@.map_values(|x: Vec<u8>| x@);
    if crate::trust::keyids_contains(&s, &k) {
        return s;
    }
    s.push(k);
    proof {
        assert(s@.map_values(|x: Vec<u8>| x@) =~= orig.push(k@));
    }
    s
}

/// Removes an identifier from an authorized set.
pub fn ids_remove(s: Vec<Vec<u8>>, k: &Vec<u8>) -> (r: Vec<Vec<u8>>)
    ensures
        r@.map_values(|x: Vec<u8>| x@) == ids_remove_spec(s@.map_values(|x: Vec<u8>| x@), k@),
{
    let ghost orig = s@.map_values(|x: Vec<u8>| x@);
    let mut it = s;
    let mut out: Vec<Vec<u8>> = Vec::new();
    proof {
        assert(out@.map_values(|x: Vec<u8>| x@) =~= Seq::<Seq<u8>>::empty());
        assert(it@.map_values(|x: Vec<u8>| x@) =~= orig);
        assert(out@.map_values(|x: Vec<u8>| x@) + ids_remove_spec(orig, k@) =~= ids_remove_spec(
            orig,
            k@,
        ));
    }
    loop
        invariant
            orig == s@.map_values(|x: Vec<u8>| x@),
            ids_remove_spec(orig, k@) == out@.map_values(|x: Vec<u8>| x@) + ids_remove_spec(
                it@.map_values(|x: Vec<u8>| x@),
                k@,
            ),
        decreases it@.len(),
    {
        let ghost outv = out@.map_values(|x: Vec<u8>| x@);
        let ghost itv = it@.map_values(|x: Vec<u8>| x@);
        if it.len() == 0 {
            proof {
                assert(ids_remove_spec(itv, k@) =~= Seq::<Seq<u8>>::empty());
                assert(outv + ids_remove_spec(itv, k@) =~= outv);
            }
            return out;
        }
        let p = it.remove(0);
        let ghost pv = p@;
        proof {
            assert(itv[0] == pv);
            assert(it@.map_values(|x: Vec<u8>| x@) =~= itv.drop_first());
        }
        if bytes_eq(&p, k) {
            proof {
                assert(ids_remove_spec(itv, k@) == ids_remove_spec(itv.drop_first(), k@));
            }
        } else {
            out.push(p);
            proof {
                assert(ids_remove_spec(itv, k@) =~= seq![pv] + ids_remove_spec(
                    itv.drop_first(),
                    k@,
                ));
                assert(out@.map_values(|x: Vec<u8>| x@) =~= outv + seq![pv]);
                assert(outv + (seq![pv] + ids_remove_spec(itv.drop_first(), k@)) =~= (outv + seq![
                    pv,
                ]) + ids_remove_spec(itv.drop_first(), k@));
            }
        }
    }
}


/// After insertion the key is present.
pub proof fn lemma_map_insert_has<V>(s: Seq<(Seq<u8>, V)>, k: Seq<u8>, v: V)
    ensures
        map_has(map_insert_spec(s, k, v), k),
    decreases s.len(),
{
    let r = map_insert_spec(s, k, v);
    if s.len() == 0 {
        assert(r[0].0 == k);
    } else if lex_lt(k, s[0].0) {
        assert(r[0].0 == k);
    } else if s[0].0 == k {
        assert(r[0].0 == k);
    } else {
        lemma_map_insert_has(s.drop_first(), k, v);
        let rr = map_insert_spec(s.drop_first(), k, v);
        let i = choose|i: int| 0 <= i < rr.len() && (#[trigger] rr[i]).0 == k;
        assert(r[i + 1].0 == k);
    }
}

/// Insertion never loses another key.
pub proof fn lemma_map_insert_keeps<V>(s: Seq<(Seq<u8>, V)>, k: Seq<u8>, v: V, k2: Seq<u8>)
    requires
        map_has(s, k2),
    ensures
        map_has(map_insert_spec(s, k, v), k2),
    decreases s.len(),
{
    let r = map_insert_spec(s, k, v);
    if k2 == k {
        lemma_map_insert_has(s, k, v);
    } else if s.len() == 0 {
    } else if lex_lt(k, s[0].0) {
        let i = choose|i: int| 0 <= i < s.len() && (#[trigger] s[i]).0 == k2;
        assert(r[i + 1].0 == k2);
    } else if s[0].0 == k {
        let i = choose|i: int| 0 <= i < s.len() && (#[trigger] s[i]).0 == k2;
        assert(s[i].0 != k);
        assert(i > 0);
        assert(r[i].0 == k2);
    } else {
        let i = choose|i: int| 0 <= i < s.len() && (#[trigger] s[i]).0 == k2;
        if i == 0 {
            assert(r[0].0 == k2);
        } else {
            assert(s.drop_first()[i - 1].0 == k2);
            assert(map_has(s.drop_first(), k2));
            lemma_map_insert_keeps(s.drop_first(), k, v, k2);
            let rr = map_insert_spec(s.drop_first(), k, v);
            let j = choose|j: int| 0 <= j < rr.len() && (#[trigger] rr[j]).0 == k2;
            assert(r[j + 1].0 == k2);
        }
    }
}


/// The inserted pair stands somewhere in the result.
pub proof fn lemma_map_insert_pair<V>(s: Seq<(Seq<u8>, V)>, k: Seq<u8>, v: V)
    ensures
        exists|ix: int|
            0 <= ix < map_insert_spec(s, k, v).len() && #[trigger] map_insert_spec(s, k, v)[ix]
                == (k, v),
    decreases s.len(),
{
    let r = map_insert_spec(s, k, v);
    if s.len() == 0 {
        assert(r[0] == (k, v));
    } else if lex_lt(k, s[0].0) {
        assert(r[0] == (k, v));
    } else if s[0].0 == k {
        assert(r[0] == (k, v));
    } else {
        lemma_map_insert_pair(s.drop_first(), k, v);
        let rr = map_insert_spec(s.drop_first(), k, v);
        let ix = choose|ix: int| 0 <= ix < rr.len() && #[trigger] rr[ix] == (k, v);
        assert(r[ix + 1] == (k, v));
    }
}

/// In a sorted map, the value after inserting `k` is the inserted one.
pub proof fn lemma_map_insert_get<V>(s: Seq<(Seq<u8>, V)>, k: Seq<u8>, v: V)
    requires
        sorted_keys(s),
    ensures
        map_has(map_insert_spec(s, k, v), k),
        map_get(map_insert_spec(s, k, v), k) == v,
{
    lemma_map_insert_sorted(s, k, v);
    lemma_map_insert_pair(s, k, v);
    let r = map_insert_spec(s, k, v);
    let ix = choose|ix: int| 0 <= ix < r.len() && #[trigger] r[ix] == (k, v);
    crate::trust::lemma_map_get_at(r, ix);
}

/// A pair whose key is not the inserted one survives insertion.
pub proof fn lemma_map_insert_keeps_pair<V>(s: Seq<(Seq<u8>, V)>, k: Seq<u8>, v: V, ix: int)
    requires
        0 <= ix < s.len(),
        s[ix].0 != k,
    ensures
        exists|jx: int|
            0 <= jx < map_insert_spec(s, k, v).len() && #[trigger] map_insert_spec(s, k, v)[jx]
                == s[ix],
    decreases s.len(),
{
    let r = map_insert_spec(s, k, v);
    if s.len() == 0 {
    } else if lex_lt(k, s[0].0) {
        assert(r[ix + 1] == s[ix]);
    } else if s[0].0 == k {
        assert(ix != 0);
        assert(r[ix] == s[ix]);
    } else {
        if ix == 0 {
            assert(r[0] == s[0]);
        } else {
            lemma_map_insert_keeps_pair(s.drop_first(), k, v, ix - 1);
            let rr = map_insert_spec(s.drop_first(), k, v);
            let jx = choose|jx: int| 0 <= jx < rr.len() && #[trigger] rr[jx] == s.drop_first()[ix
                - 1];
            assert(r[jx + 1] == s[ix]);
        }
    }
}

/// In a sorted map, insertion leaves every other binding in place.
pub proof fn lemma_map_insert_get_other<V>(s: Seq<(Seq<u8>, V)>, k: Seq<u8>, v: V, k2: Seq<u8>)
    requires
        sorted_keys(s),
        k2 != k,
        map_has(s, k2),
    ensures
        map_has(map_insert_spec(s, k, v), k2),
        map_get(map_insert_spec(s, k, v), k2) == map_get(s, k2),
{
    lemma_map_insert_sorted(s, k, v);
    let ix = choose|ix: int| 0 <= ix < s.len() && (#[trigger] s[ix]).0 == k2;
    crate::trust::lemma_map_get_at(s, ix);
    lemma_map_insert_keeps_pair(s, k, v, ix);
    let r = map_insert_spec(s, k, v);
    let jx = choose|jx: int| 0 <= jx < r.len() && #[trigger] r[jx] == s[ix];
    crate::trust::lemma_map_get_at(r, jx);
}

} // verus!
