//! The delegation resolver: shell-style glob matching over slash-separated
//! target paths, hash-prefix matching, and the pre-order, left-to-right
//! walk of the delegation tree that honors terminating entries.

use vstd::prelude::*;

use crate::canon::bytes_eq;
use crate::crypto::sha256;
use crate::crypto::sha256_of;
use crate::hex::encode_hex;
use crate::hex::hex_of;
use crate::schema::map_get;
use crate::schema::map_has;
use crate::schema::DelegatedRole;
use crate::schema::DelegatedRoleV;
use crate::schema::PathSet;
use crate::schema::PathSetV;
use crate::schema::TargetDesc;
use crate::schema::TargetDescV;
use crate::schema::Targets;
use crate::schema::TargetsV;
use crate::schema::sorted_keys;
use crate::trust::lemma_map_get_at;

verus! {

/// Shell-style glob over a slash-separated path: `*` and `?` never match a
/// slash, every other byte matches itself.
pub open spec fn glob_match(p: Seq<u8>, s: Seq<u8>) -> bool
    decreases p.len() + s.len(),
{
    if p.len() == 0 {
        s.len() == 0
    } else if p[0] == 42 {
        glob_match(p.drop_first(), s) || (s.len() > 0 && s[0] != 47 && glob_match(
            p,
            s.drop_first(),
        ))
    } else if p[0] == 63 {
        s.len() > 0 && s[0] != 47 && glob_match(p.drop_first(), s.drop_first())
    } else {
        s.len() > 0 && p[0] == s[0] && glob_match(p.drop_first(), s.drop_first())
    }
}

/// Decides `glob_match` from position `i` of the pattern and `j` of the
/// path.
pub fn glob_match_at(p: &Vec<u8>, i: usize, s: &Vec<u8>, j: usize) -> (r: bool)
    requires
        i <= p@.len(),
        j <= s@.len(),
    ensures
        r == glob_match(p@.skip(i as int), s@.skip(j as int)),
    decreases p@.len() - i + s@.len() - j,
{
    let ghost pv = p@.skip(i as int);
    let ghost sv = s@.skip(j as int);
    if i == p.len() {
        proof {
            assert(pv.len() == 0);
        }
        return j == s.len();
    }
    proof {
        assert(pv[0] == p@[i as int]);
        assert(pv.drop_first() =~= p@.skip(i + 1));
        if j < s@.len() {
            assert(sv[0] == s@[j as int]);
            assert(sv.drop_first() =~= s@.skip(j + 1));
        }
    }
    let c = p[i];
    if c == 42 {
        if glob_match_at(p, i + 1, s, j) {
            return true;
        }
        if j < s.len() && s[j] != 47 {
            return glob_match_at(p, i, s, j + 1);
        }
        return false;
    }
    if j >= s.len() {
        return false;
    }
    if c == 63 {
        if s[j] == 47 {
            return false;
        }
        return glob_match_at(p, i + 1, s, j + 1);
    }
    if c != s[j] {
        return false;
    }
    glob_match_at(p, i + 1, s, j + 1)
}

/// Whether `pre` is a prefix of `s`.
pub open spec fn is_prefix(pre: Seq<u8>, s: Seq<u8>) -> bool {
    pre.len() <= s.len() && s.take(pre.len() as int) == pre
}

/// Decides `is_prefix`.
pub fn is_prefix_exec(pre: &Vec<u8>, s: &Vec<u8>) -> (r: bool)
    ensures
        r == is_prefix(pre@, s@),
{
    if pre.len() > s.len() {
        return false;
    }
    let mut i: usize = 0;
    while i < pre.len()
        invariant
            i <= pre@.len() <= s@.len(),
            forall|t: int| 0 <= t < i ==> pre@[t] == s@[t],
        decreases pre.len() - i,
    {
        if pre[i] != s[i] {
            proof {
                assert(s@.take(pre@.len() as int)[i as int] != pre@[i as int]);
            }
            return false;
        }
        i = i + 1;
    }
    proof {
        assert(s@.take(pre@.len() as int) =~= pre@);
    }
    true
}

/// Whether a path set claims the target path: a glob pattern matches it,
/// or a listed prefix starts the lowercase hex SHA-256 of the path.
pub open spec fn pathset_matches(set: PathSetV, path: Seq<u8>) -> bool {
    ||| (set matches PathSetV::Paths(ps) && exists|i: int|
        0 <= i < ps.len() && glob_match(#[trigger] ps[i], path))
    ||| (set matches PathSetV::HashPrefixes(hs) && exists|i: int|
        0 <= i < hs.len() && is_prefix(#[trigger] hs[i], hex_of(sha256_of(path))))
}

/// Decides `pathset_matches`.
pub fn pathset_matches_exec(set: &PathSet, path: &Vec<u8>) -> (b: bool)
    ensures
        b == pathset_matches(set@, path@),
{
    match set {
        PathSet::Paths(ps) => {
            let ghost psv = set@->Paths_0;
            proof {
                assert(psv == ps@.map_values(|x: Vec<u8>| x@));
            }
            let mut i: usize = 0;
            while i < ps.len()
                invariant
                    i <= ps@.len(),
                    psv == ps@.map_values(|x: Vec<u8>| x@),
                    set@ == PathSetV::Paths(psv),
                    forall|t: int| 0 <= t < i ==> !glob_match(#[trigger] psv[t], path@),
                decreases ps.len() - i,
            {
                proof {
                    assert(ps@[i as int]@.skip(0) =~= psv[i as int]);
                    assert(path@.skip(0) =~= path@);
                }
                if glob_match_at(&ps[i], 0, path, 0) {
                    proof {
                        assert(glob_match(psv[i as int], path@));
                        assert(exists|t: int|
                            0 <= t < psv.len() && glob_match(#[trigger] psv[t], path@));
                        assert(set@ is Paths);
                        assert(set@->Paths_0 == psv);
                        assert(pathset_matches(set@, path@));
                    }
                    return true;
                }
                i = i + 1;
            }
            return false;
        },
        PathSet::HashPrefixes(hs) => {
            let d = sha256(path);
            let hx = encode_hex(&d);
            let ghost hsv = set@->HashPrefixes_0;
            proof {
                assert(hsv == hs@.map_values(|x: Vec<u8>| x@));
            }
            let mut i: usize = 0;
            while i < hs.len()
                invariant
                    i <= hs@.len(),
                    hx@ == hex_of(sha256_of(path@)),
                    hsv == hs@.map_values(|x: Vec<u8>| x@),
                    set@ == PathSetV::HashPrefixes(hsv),
                    forall|t: int|
                        0 <= t < i ==> !is_prefix(#[trigger] hsv[t], hex_of(sha256_of(path@))),
                decreases hs.len() - i,
            {
                if is_prefix_exec(&hs[i], &hx) {
                    proof {
                        assert(is_prefix(hsv[i as int], hex_of(sha256_of(path@))));
                        assert(exists|t: int|
                            0 <= t < hsv.len() && is_prefix(
                                #[trigger] hsv[t],
                                hex_of(sha256_of(path@)),
                            ));
                        assert(set@ is HashPrefixes);
                        assert(set@->HashPrefixes_0 == hsv);
                        assert(pathset_matches(set@, path@));
                    }
                    return true;
                }
                i = i + 1;
            }
            return false;
        },
    }
}

/// Whether a delegation entry's path set claims the target path.
pub open spec fn entry_matches(r: DelegatedRoleV, path: Seq<u8>) -> bool {
    pathset_matches(r.paths, path)
}

/// Decides `entry_matches`.
pub fn entry_matches_exec(r: &DelegatedRole, path: &Vec<u8>) -> (b: bool)
    ensures
        b == entry_matches(r@, path@),
{
    pathset_matches_exec(&r.paths, path)
}

/// The outcome of a resolution step over the already-loaded role documents.
pub enum Resolution {
    Found(TargetDesc),
    NotFound,
    NeedRole(Vec<u8>),
    DepthExceeded,
}

pub ghost enum ResolutionV {
    Found(TargetDescV),
    NotFound,
    NeedRole(Seq<u8>),
    DepthExceeded,
}

impl View for Resolution {
    type V = ResolutionV;

    open spec fn view(&self) -> ResolutionV {
        match self {
            Resolution::Found(d) => ResolutionV::Found(d@),
            Resolution::NotFound => ResolutionV::NotFound,
            Resolution::NeedRole(n) => ResolutionV::NeedRole(n@),
            Resolution::DepthExceeded => ResolutionV::DepthExceeded,
        }
    }
}

/// Resolution of a path in one targets document: its own target map first,
/// then its delegation entries in order, pre-order and left-to-right.
pub open spec fn resolve_spec(
    loaded: Seq<(Seq<u8>, TargetsV)>,
    cur: TargetsV,
    path: Seq<u8>,
    fuel: nat,
) -> ResolutionV
    decreases fuel, 1nat, 0nat,
{
    if map_has(cur.targets, path) {
        ResolutionV::Found(map_get(cur.targets, path))
    } else {
        match cur.delegations {
            None => ResolutionV::NotFound,
            Some(d) => walk_spec(loaded, d.roles, path, fuel),
        }
    }
}

/// The walk over one delegations list: the first matching entry is entered;
/// a terminating match that resolves to nothing cuts the remaining
/// siblings off.
pub open spec fn walk_spec(
    loaded: Seq<(Seq<u8>, TargetsV)>,
    entries: Seq<DelegatedRoleV>,
    path: Seq<u8>,
    fuel: nat,
) -> ResolutionV
    decreases fuel, 0nat, entries.len(),
{
    if entries.len() == 0 {
        ResolutionV::NotFound
    } else if !entry_matches(entries[0], path) {
        walk_spec(loaded, entries.drop_first(), path, fuel)
    } else if fuel == 0 {
        ResolutionV::DepthExceeded
    } else if !map_has(loaded, entries[0].name) {
        ResolutionV::NeedRole(entries[0].name)
    } else {
        let sub = resolve_spec(loaded, map_get(loaded, entries[0].name), path, (fuel - 1) as nat);
        match sub {
            ResolutionV::NotFound => {
                if entries[0].terminating {
                    ResolutionV::NotFound
                } else {
                    walk_spec(loaded, entries.drop_first(), path, fuel)
                }
            },
            _ => sub,
        }
    }
}

/// A terminating entry that matches the path but whose subtree does not
/// serve it ends the walk: no later sibling is consulted, whatever it
/// would say.
pub proof fn lemma_terminating_cuts(
    loaded: Seq<(Seq<u8>, TargetsV)>,
    first: DelegatedRoleV,
    rest: Seq<DelegatedRoleV>,
    path: Seq<u8>,
    fuel: nat,
)
    requires
        entry_matches(first, path),
        first.terminating,
        fuel > 0,
        map_has(loaded, first.name),
        resolve_spec(loaded, map_get(loaded, first.name), path, (fuel - 1) as nat)
            == ResolutionV::NotFound,
    ensures
        walk_spec(loaded, seq![first] + rest, path, fuel) == ResolutionV::NotFound,
{
    let entries = seq![first] + rest;
    assert(entries[0] == first);
    assert(entries.len() > 0);
}

/// Looks a role name up in the loaded set.
fn find_loaded<'a>(loaded: &'a Vec<(Vec<u8>, Targets)>, name: &Vec<u8>) -> (r: Option<&'a Targets>)
    requires
        sorted_keys(loaded@.map_values(|p: (Vec<u8>, Targets)| (p.0@, p.1@))),
    ensures
        match r {
            Some(t) => map_has(loaded@.map_values(|p: (Vec<u8>, Targets)| (p.0@, p.1@)), name@)
                && t@ == map_get(loaded@.map_values(|p: (Vec<u8>, Targets)| (p.0@, p.1@)), name@),
            None => !map_has(loaded@.map_values(|p: (Vec<u8>, Targets)| (p.0@, p.1@)), name@),
        },
{
    let ghost view = loaded@.map_values(|p: (Vec<u8>, Targets)| (p.0@, p.1@));
    let mut i: usize = 0;
    while i < loaded.len()
        invariant
            i <= loaded@.len(),
            sorted_keys(view),
            view == loaded@.map_values(|p: (Vec<u8>, Targets)| (p.0@, p.1@)),
            forall|j: int| 0 <= j < i ==> (#[trigger] view[j]).0 != name@,
        decreases loaded.len() - i,
    {
        if bytes_eq(&loaded[i].0, name) {
            proof {
                lemma_map_get_at(view, i as int);
            }
            return Some(&loaded[i].1);
        }
        i = i + 1;
    }
    None
}

/// Looks a target path up in a targets map.
fn find_target<'a>(targets: &'a Vec<(Vec<u8>, TargetDesc)>, path: &Vec<u8>) -> (r: Option<
    &'a TargetDesc,
>)
    requires
        sorted_keys(targets@.map_values(|p: (Vec<u8>, TargetDesc)| (p.0@, p.1@))),
    ensures
        match r {
            Some(t) => map_has(
                targets@.map_values(|p: (Vec<u8>, TargetDesc)| (p.0@, p.1@)),
                path@,
            ) && t@ == map_get(
                targets@.map_values(|p: (Vec<u8>, TargetDesc)| (p.0@, p.1@)),
                path@,
            ),
            None => !map_has(targets@.map_values(|p: (Vec<u8>, TargetDesc)| (p.0@, p.1@)), path@),
        },
{
    let ghost view = targets@.map_values(|p: (Vec<u8>, TargetDesc)| (p.0@, p.1@));
    let mut i: usize = 0;
    while i < targets.len()
        invariant
            i <= targets@.len(),
            sorted_keys(view),
            view == targets@.map_values(|p: (Vec<u8>, TargetDesc)| (p.0@, p.1@)),
            forall|j: int| 0 <= j < i ==> (#[trigger] view[j]).0 != path@,
        decreases targets.len() - i,
    {
        if bytes_eq(&targets[i].0, path) {
            proof {
                lemma_map_get_at(view, i as int);
            }
            return Some(&targets[i].1);
        }
        i = i + 1;
    }
    None
}

/// A clone of a target descriptor, byte for byte.
fn copy_desc(d: &TargetDesc) -> (r: TargetDesc)
    ensures
        r@ == d@,
{
    let mut sha256c: Vec<u8> = Vec::new();
    crate::canon::write_bytes(&mut sha256c, &d.sha256);
    let sha512c: Option<Vec<u8>> = match &d.sha512 {
        Some(h) => {
            let mut c: Vec<u8> = Vec::new();
            crate::canon::write_bytes(&mut c, h);
            Some(c)
        },
        None => None,
    };
    let r = TargetDesc { length: d.length, sha256: sha256c, sha512: sha512c };
    proof {
        assert(r@.sha256 =~= d@.sha256);
        match d.sha512 {
            Some(_) => {
                assert(r@.sha512->Some_0 =~= d@.sha512->Some_0);
            },
            None => {},
        }
    }
    r
}

/// Resolves a target path in `cur`, deciding exactly `resolve_spec`.
pub fn resolve(
    loaded: &Vec<(Vec<u8>, Targets)>,
    cur: &Targets,
    path: &Vec<u8>,
    fuel: u64,
) -> (r: Resolution)
    requires
        sorted_keys(loaded@.map_values(|p: (Vec<u8>, Targets)| (p.0@, p.1@))),
        sorted_keys(cur@.targets),
        forall|i: int|
            0 <= i < loaded@.len() ==> sorted_keys(
                (#[trigger] loaded@[i]).1@.targets,
            ),
    ensures
        r@ == resolve_spec(
            loaded@.map_values(|p: (Vec<u8>, Targets)| (p.0@, p.1@)),
            cur@,
            path@,
            fuel as nat,
        ),
    decreases fuel, 1nat, 0nat,
{
    let ghost lview = loaded@.map_values(|p: (Vec<u8>, Targets)| (p.0@, p.1@));
    match find_target(&cur.targets, path) {
        Some(d) => {
            return Resolution::Found(copy_desc(d));
        },
        None => {},
    }
    match &cur.delegations {
        None => Resolution::NotFound,
        Some(d) => {
            let r = walk(loaded, &d.roles, 0, path, fuel);
            proof {
                assert(d.roles@.map_values(|e: DelegatedRole| e@).skip(0) =~= d.roles@.map_values(
                    |e: DelegatedRole| e@,
                ));
            }
            r
        },
    }
}

/// Walks the delegation entries of one document from index `i` on,
/// deciding exactly `walk_spec` over the remaining entries.
fn walk(
    loaded: &Vec<(Vec<u8>, Targets)>,
    entries: &Vec<DelegatedRole>,
    i: usize,
    path: &Vec<u8>,
    fuel: u64,
) -> (r: Resolution)
    requires
        i <= entries@.len(),
        sorted_keys(loaded@.map_values(|p: (Vec<u8>, Targets)| (p.0@, p.1@))),
        forall|t: int|
            0 <= t < loaded@.len() ==> sorted_keys(
                (#[trigger] loaded@[t]).1@.targets,
            ),
    ensures
        r@ == walk_spec(
            loaded@.map_values(|p: (Vec<u8>, Targets)| (p.0@, p.1@)),
            entries@.map_values(|e: DelegatedRole| e@).skip(i as int),
            path@,
            fuel as nat,
        ),
    decreases fuel, 0nat, entries@.len() - i,
{
    let ghost lview = loaded@.map_values(|p: (Vec<u8>, Targets)| (p.0@, p.1@));
    let ghost eview = entries@.map_values(|e: DelegatedRole| e@).skip(i as int);
    if i == entries.len() {
        proof {
            assert(eview.len() == 0);
        }
        return Resolution::NotFound;
    }
    proof {
        assert(eview[0] == entries@[i as int]@);
        assert(eview.drop_first() =~= entries@.map_values(|e: DelegatedRole| e@).skip(i + 1));
    }
    if !entry_matches_exec(&entries[i], path) {
        return walk(loaded, entries, i + 1, path, fuel);
    }
    if fuel == 0 {
        return Resolution::DepthExceeded;
    }
    match find_loaded(loaded, &entries[i].name) {
        None => {
            let mut n: Vec<u8> = Vec::new();
            crate::canon::write_bytes(&mut n, &entries[i].name);
            proof {
                assert(n@ =~= entries@[i as int]@.name);
            }
            Resolution::NeedRole(n)
        },
        Some(sub) => {
            let subr = resolve(loaded, sub, path, fuel - 1);
            match subr {
                Resolution::NotFound => {
                    if entries[i].terminating {
                        Resolution::NotFound
                    } else {
                        walk(loaded, entries, i + 1, path, fuel)
                    }
                },
                other => other,
            }
        },
    }
}

} // verus!
