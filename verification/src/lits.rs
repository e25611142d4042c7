//! The fixed ASCII tokens of the TUF metadata format, each as a spec-level
//! byte sequence with an executable producer proved to match it.

use vstd::prelude::*;

verus! {

/// The bytes of `signatures`.
pub open spec fn s_signatures() -> Seq<u8> {
    seq![115u8, 105u8, 103u8, 110u8, 97u8, 116u8, 117u8, 114u8, 101u8, 115u8]
}

/// Appends the bytes of `signatures`.
pub fn w_signatures(out: &mut Vec<u8>)
    ensures
        final(out)@ == old(out)@ + s_signatures(),
{
    out.push(115);
    out.push(105);
    out.push(103);
    out.push(110);
    out.push(97);
    out.push(116);
    out.push(117);
    out.push(114);
    out.push(101);
    out.push(115);
    proof {
        assert(out@ =~= old(out)@ + s_signatures());
    }
}

/// The bytes of `signatures` as a vector.
pub fn v_signatures() -> (r: Vec<u8>)
    ensures
        r@ == s_signatures(),
{
    let mut v: Vec<u8> = Vec::new();
    v.push(115);
    v.push(105);
    v.push(103);
    v.push(110);
    v.push(97);
    v.push(116);
    v.push(117);
    v.push(114);
    v.push(101);
    v.push(115);
    proof {
        assert(v@ =~= s_signatures());
    }
    v
}

/// The bytes of `signed`.
pub open spec fn s_signed() -> Seq<u8> {
    seq![115u8, 105u8, 103u8, 110u8, 101u8, 100u8]
}

/// Appends the bytes of `signed`.
pub fn w_signed(out: &mut Vec<u8>)
    ensures
        final(out)@ == old(out)@ + s_signed(),
{
    out.push(115);
    out.push(105);
    out.push(103);
    out.push(110);
    out.push(101);
    out.push(100);
    proof {
        assert(out@ =~= old(out)@ + s_signed());
    }
}

/// The bytes of `signed` as a vector.
pub fn v_signed() -> (r: Vec<u8>)
    ensures
        r@ == s_signed(),
{
    let mut v: Vec<u8> = Vec::new();
    v.push(115);
    v.push(105);
    v.push(103);
    v.push(110);
    v.push(101);
    v.push(100);
    proof {
        assert(v@ =~= s_signed());
    }
    v
}

/// The bytes of `keytype`.
pub open spec fn s_keytype() -> Seq<u8> {
    seq![107u8, 101u8, 121u8, 116u8, 121u8, 112u8, 101u8]
}

/// Appends the bytes of `keytype`.
pub fn w_keytype(out: &mut Vec<u8>)
    ensures
        final(out)@ == old(out)@ + s_keytype(),
{
    out.push(107);
    out.push(101);
    out.push(121);
    out.push(116);
    out.push(121);
    out.push(112);
    out.push(101);
    proof {
        assert(out@ =~= old(out)@ + s_keytype());
    }
}

/// The bytes of `keytype` as a vector.
pub fn v_keytype() -> (r: Vec<u8>)
    ensures
        r@ == s_keytype(),
{
    let mut v: Vec<u8> = Vec::new();
    v.push(107);
    v.push(101);
    v.push(121);
    v.push(116);
    v.push(121);
    v.push(112);
    v.push(101);
    proof {
        assert(v@ =~= s_keytype());
    }
    v
}

/// The bytes of `keyval`.
pub open spec fn s_keyval() -> Seq<u8> {
    seq![107u8, 101u8, 121u8, 118u8, 97u8, 108u8]
}

/// Appends the bytes of `keyval`.
pub fn w_keyval(out: &mut Vec<u8>)
    ensures
        final(out)@ == old(out)@ + s_keyval(),
{
    out.push(107);
    out.push(101);
    out.push(121);
    out.push(118);
    out.push(97);
    out.push(108);
    proof {
        assert(out@ =~= old(out)@ + s_keyval());
    }
}

/// The bytes of `keyval` as a vector.
pub fn v_keyval() -> (r: Vec<u8>)
    ensures
        r@ == s_keyval(),
{
    let mut v: Vec<u8> = Vec::new();
    v.push(107);
    v.push(101);
    v.push(121);
    v.push(118);
    v.push(97);
    v.push(108);
    proof {
        assert(v@ =~= s_keyval());
    }
    v
}

/// The bytes of `public`.
pub open spec fn s_public() -> Seq<u8> {
    seq![112u8, 117u8, 98u8, 108u8, 105u8, 99u8]
}

/// Appends the bytes of `public`.
pub fn w_public(out: &mut Vec<u8>)
    ensures
        final(out)@ == old(out)@ + s_public(),
{
    out.push(112);
    out.push(117);
    out.push(98);
    out.push(108);
    out.push(105);
    out.push(99);
    proof {
        assert(out@ =~= old(out)@ + s_public());
    }
}

/// The bytes of `public` as a vector.
pub fn v_public() -> (r: Vec<u8>)
    ensures
        r@ == s_public(),
{
    let mut v: Vec<u8> = Vec::new();
    v.push(112);
    v.push(117);
    v.push(98);
    v.push(108);
    v.push(105);
    v.push(99);
    proof {
        assert(v@ =~= s_public());
    }
    v
}

/// The bytes of `scheme`.
pub open spec fn s_scheme() -> Seq<u8> {
    seq![115u8, 99u8, 104u8, 101u8, 109u8, 101u8]
}

/// Appends the bytes of `scheme`.
pub fn w_scheme(out: &mut Vec<u8>)
    ensures
        final(out)@ == old(out)@ + s_scheme(),
{
    out.push(115);
    out.push(99);
    out.push(104);
    out.push(101);
    out.push(109);
    out.push(101);
    proof {
        assert(out@ =~= old(out)@ + s_scheme());
    }
}

/// The bytes of `scheme` as a vector.
pub fn v_scheme() -> (r: Vec<u8>)
    ensures
        r@ == s_scheme(),
{
    let mut v: Vec<u8> = Vec::new();
    v.push(115);
    v.push(99);
    v.push(104);
    v.push(101);
    v.push(109);
    v.push(101);
    proof {
        assert(v@ =~= s_scheme());
    }
    v
}

/// The bytes of `_type`.
pub open spec fn s_type_tag() -> Seq<u8> {
    seq![95u8, 116u8, 121u8, 112u8, 101u8]
}

/// Appends the bytes of `_type`.
pub fn w_type_tag(out: &mut Vec<u8>)
    ensures
        final(out)@ == old(out)@ + s_type_tag(),
{
    out.push(95);
    out.push(116);
    out.push(121);
    out.push(112);
    out.push(101);
    proof {
        assert(out@ =~= old(out)@ + s_type_tag());
    }
}

/// The bytes of `_type` as a vector.
pub fn v_type_tag() -> (r: Vec<u8>)
    ensures
        r@ == s_type_tag(),
{
    let mut v: Vec<u8> = Vec::new();
    v.push(95);
    v.push(116);
    v.push(121);
    v.push(112);
    v.push(101);
    proof {
        assert(v@ =~= s_type_tag());
    }
    v
}

/// The bytes of `consistent_snapshot`.
pub open spec fn s_consistent_snapshot() -> Seq<u8> {
    seq![99u8, 111u8, 110u8, 115u8, 105u8, 115u8, 116u8, 101u8, 110u8, 116u8, 95u8, 115u8, 110u8, 97u8, 112u8, 115u8, 104u8, 111u8, 116u8]
}

/// Appends the bytes of `consistent_snapshot`.
pub fn w_consistent_snapshot(out: &mut Vec<u8>)
    ensures
        final(out)@ == old(out)@ + s_consistent_snapshot(),
{
    out.push(99);
    out.push(111);
    out.push(110);
    out.push(115);
    out.push(105);
    out.push(115);
    out.push(116);
    out.push(101);
    out.push(110);
    out.push(116);
    out.push(95);
    out.push(115);
    out.push(110);
    out.push(97);
    out.push(112);
    out.push(115);
    out.push(104);
    out.push(111);
    out.push(116);
    proof {
        assert(out@ =~= old(out)@ + s_consistent_snapshot());
    }
}

/// The bytes of `consistent_snapshot` as a vector.
pub fn v_consistent_snapshot() -> (r: Vec<u8>)
    ensures
        r@ == s_consistent_snapshot(),
{
    let mut v: Vec<u8> = Vec::new();
    v.push(99);
    v.push(111);
    v.push(110);
    v.push(115);
    v.push(105);
    v.push(115);
    v.push(116);
    v.push(101);
    v.push(110);
    v.push(116);
    v.push(95);
    v.push(115);
    v.push(110);
    v.push(97);
    v.push(112);
    v.push(115);
    v.push(104);
    v.push(111);
    v.push(116);
    proof {
        assert(v@ =~= s_consistent_snapshot());
    }
    v
}

/// The bytes of `expires`.
pub open spec fn s_expires() -> Seq<u8> {
    seq![101u8, 120u8, 112u8, 105u8, 114u8, 101u8, 115u8]
}

/// Appends the bytes of `expires`.
pub fn w_expires(out: &mut Vec<u8>)
    ensures
        final(out)@ == old(out)@ + s_expires(),
{
    out.push(101);
    out.push(120);
    out.push(112);
    out.push(105);
    out.push(114);
    out.push(101);
    out.push(115);
    proof {
        assert(out@ =~= old(out)@ + s_expires());
    }
}

/// The bytes of `expires` as a vector.
pub fn v_expires() -> (r: Vec<u8>)
    ensures
        r@ == s_expires(),
{
    let mut v: Vec<u8> = Vec::new();
    v.push(101);
    v.push(120);
    v.push(112);
    v.push(105);
    v.push(114);
    v.push(101);
    v.push(115);
    proof {
        assert(v@ =~= s_expires());
    }
    v
}

/// The bytes of `keys`.
pub open spec fn s_keys() -> Seq<u8> {
    seq![107u8, 101u8, 121u8, 115u8]
}

/// Appends the bytes of `keys`.
pub fn w_keys(out: &mut Vec<u8>)
    ensures
        final(out)@ == old(out)@ + s_keys(),
{
    out.push(107);
    out.push(101);
    out.push(121);
    out.push(115);
    proof {
        assert(out@ =~= old(out)@ + s_keys());
    }
}

/// The bytes of `keys` as a vector.
pub fn v_keys() -> (r: Vec<u8>)
    ensures
        r@ == s_keys(),
{
    let mut v: Vec<u8> = Vec::new();
    v.push(107);
    v.push(101);
    v.push(121);
    v.push(115);
    proof {
        assert(v@ =~= s_keys());
    }
    v
}

/// The bytes of `roles`.
pub open spec fn s_roles() -> Seq<u8> {
    seq![114u8, 111u8, 108u8, 101u8, 115u8]
}

/// Appends the bytes of `roles`.
pub fn w_roles(out: &mut Vec<u8>)
    ensures
        final(out)@ == old(out)@ + s_roles(),
{
    out.push(114);
    out.push(111);
    out.push(108);
    out.push(101);
    out.push(115);
    proof {
        assert(out@ =~= old(out)@ + s_roles());
    }
}

/// The bytes of `roles` as a vector.
pub fn v_roles() -> (r: Vec<u8>)
    ensures
        r@ == s_roles(),
{
    let mut v: Vec<u8> = Vec::new();
    v.push(114);
    v.push(111);
    v.push(108);
    v.push(101);
    v.push(115);
    proof {
        assert(v@ =~= s_roles());
    }
    v
}

/// The bytes of `spec_version`.
pub open spec fn s_spec_version() -> Seq<u8> {
    seq![115u8, 112u8, 101u8, 99u8, 95u8, 118u8, 101u8, 114u8, 115u8, 105u8, 111u8, 110u8]
}

/// Appends the bytes of `spec_version`.
pub fn w_spec_version(out: &mut Vec<u8>)
    ensures
        final(out)@ == old(out)@ + s_spec_version(),
{
    out.push(115);
    out.push(112);
    out.push(101);
    out.push(99);
    out.push(95);
    out.push(118);
    out.push(101);
    out.push(114);
    out.push(115);
    out.push(105);
    out.push(111);
    out.push(110);
    proof {
        assert(out@ =~= old(out)@ + s_spec_version());
    }
}

/// The bytes of `spec_version` as a vector.
pub fn v_spec_version() -> (r: Vec<u8>)
    ensures
        r@ == s_spec_version(),
{
    let mut v: Vec<u8> = Vec::new();
    v.push(115);
    v.push(112);
    v.push(101);
    v.push(99);
    v.push(95);
    v.push(118);
    v.push(101);
    v.push(114);
    v.push(115);
    v.push(105);
    v.push(111);
    v.push(110);
    proof {
        assert(v@ =~= s_spec_version());
    }
    v
}

/// The bytes of `version`.
pub open spec fn s_version() -> Seq<u8> {
    seq![118u8, 101u8, 114u8, 115u8, 105u8, 111u8, 110u8]
}

/// Appends the bytes of `version`.
pub fn w_version(out: &mut Vec<u8>)
    ensures
        final(out)@ == old(out)@ + s_version(),
{
    out.push(118);
    out.push(101);
    out.push(114);
    out.push(115);
    out.push(105);
    out.push(111);
    out.push(110);
    proof {
        assert(out@ =~= old(out)@ + s_version());
    }
}

/// The bytes of `version` as a vector.
pub fn v_version() -> (r: Vec<u8>)
    ensures
        r@ == s_version(),
{
    let mut v: Vec<u8> = Vec::new();
    v.push(118);
    v.push(101);
    v.push(114);
    v.push(115);
    v.push(105);
    v.push(111);
    v.push(110);
    proof {
        assert(v@ =~= s_version());
    }
    v
}

/// The bytes of `root`.
pub open spec fn s_root() -> Seq<u8> {
    seq![114u8, 111u8, 111u8, 116u8]
}

/// Appends the bytes of `root`.
pub fn w_root(out: &mut Vec<u8>)
    ensures
        final(out)@ == old(out)@ + s_root(),
{
    out.push(114);
    out.push(111);
    out.push(111);
    out.push(116);
    proof {
        assert(out@ =~= old(out)@ + s_root());
    }
}

/// The bytes of `root` as a vector.
pub fn v_root() -> (r: Vec<u8>)
    ensures
        r@ == s_root(),
{
    let mut v: Vec<u8> = Vec::new();
    v.push(114);
    v.push(111);
    v.push(111);
    v.push(116);
    proof {
        assert(v@ =~= s_root());
    }
    v
}

/// The bytes of `snapshot`.
pub open spec fn s_snapshot() -> Seq<u8> {
    seq![115u8, 110u8, 97u8, 112u8, 115u8, 104u8, 111u8, 116u8]
}

/// Appends the bytes of `snapshot`.
pub fn w_snapshot(out: &mut Vec<u8>)
    ensures
        final(out)@ == old(out)@ + s_snapshot(),
{
    out.push(115);
    out.push(110);
    out.push(97);
    out.push(112);
    out.push(115);
    out.push(104);
    out.push(111);
    out.push(116);
    proof {
        assert(out@ =~= old(out)@ + s_snapshot());
    }
}

/// The bytes of `snapshot` as a vector.
pub fn v_snapshot() -> (r: Vec<u8>)
    ensures
        r@ == s_snapshot(),
{
    let mut v: Vec<u8> = Vec::new();
    v.push(115);
    v.push(110);
    v.push(97);
    v.push(112);
    v.push(115);
    v.push(104);
    v.push(111);
    v.push(116);
    proof {
        assert(v@ =~= s_snapshot());
    }
    v
}

/// The bytes of `targets`.
pub open spec fn s_targets() -> Seq<u8> {
    seq![116u8, 97u8, 114u8, 103u8, 101u8, 116u8, 115u8]
}

/// Appends the bytes of `targets`.
pub fn w_targets(out: &mut Vec<u8>)
    ensures
        final(out)@ == old(out)@ + s_targets(),
{
    out.push(116);
    out.push(97);
    out.push(114);
    out.push(103);
    out.push(101);
    out.push(116);
    out.push(115);
    proof {
        assert(out@ =~= old(out)@ + s_targets());
    }
}

/// The bytes of `targets` as a vector.
pub fn v_targets() -> (r: Vec<u8>)
    ensures
        r@ == s_targets(),
{
    let mut v: Vec<u8> = Vec::new();
    v.push(116);
    v.push(97);
    v.push(114);
    v.push(103);
    v.push(101);
    v.push(116);
    v.push(115);
    proof {
        assert(v@ =~= s_targets());
    }
    v
}

/// The bytes of `timestamp`.
pub open spec fn s_timestamp() -> Seq<u8> {
    seq![116u8, 105u8, 109u8, 101u8, 115u8, 116u8, 97u8, 109u8, 112u8]
}

/// Appends the bytes of `timestamp`.
pub fn w_timestamp(out: &mut Vec<u8>)
    ensures
        final(out)@ == old(out)@ + s_timestamp(),
{
    out.push(116);
    out.push(105);
    out.push(109);
    out.push(101);
    out.push(115);
    out.push(116);
    out.push(97);
    out.push(109);
    out.push(112);
    proof {
        assert(out@ =~= old(out)@ + s_timestamp());
    }
}

/// The bytes of `timestamp` as a vector.
pub fn v_timestamp() -> (r: Vec<u8>)
    ensures
        r@ == s_timestamp(),
{
    let mut v: Vec<u8> = Vec::new();
    v.push(116);
    v.push(105);
    v.push(109);
    v.push(101);
    v.push(115);
    v.push(116);
    v.push(97);
    v.push(109);
    v.push(112);
    proof {
        assert(v@ =~= s_timestamp());
    }
    v
}

/// The bytes of `meta`.
pub open spec fn s_meta() -> Seq<u8> {
    seq![109u8, 101u8, 116u8, 97u8]
}

/// Appends the bytes of `meta`.
pub fn w_meta(out: &mut Vec<u8>)
    ensures
        final(out)@ == old(out)@ + s_meta(),
{
    out.push(109);
    out.push(101);
    out.push(116);
    out.push(97);
    proof {
        assert(out@ =~= old(out)@ + s_meta());
    }
}

/// The bytes of `meta` as a vector.
pub fn v_meta() -> (r: Vec<u8>)
    ensures
        r@ == s_meta(),
{
    let mut v: Vec<u8> = Vec::new();
    v.push(109);
    v.push(101);
    v.push(116);
    v.push(97);
    proof {
        assert(v@ =~= s_meta());
    }
    v
}

/// The bytes of `hashes`.
pub open spec fn s_hashes() -> Seq<u8> {
    seq![104u8, 97u8, 115u8, 104u8, 101u8, 115u8]
}

/// Appends the bytes of `hashes`.
pub fn w_hashes(out: &mut Vec<u8>)
    ensures
        final(out)@ == old(out)@ + s_hashes(),
{
    out.push(104);
    out.push(97);
    out.push(115);
    out.push(104);
    out.push(101);
    out.push(115);
    proof {
        assert(out@ =~= old(out)@ + s_hashes());
    }
}

/// The bytes of `hashes` as a vector.
pub fn v_hashes() -> (r: Vec<u8>)
    ensures
        r@ == s_hashes(),
{
    let mut v: Vec<u8> = Vec::new();
    v.push(104);
    v.push(97);
    v.push(115);
    v.push(104);
    v.push(101);
    v.push(115);
    proof {
        assert(v@ =~= s_hashes());
    }
    v
}

/// The bytes of `length`.
pub open spec fn s_length() -> Seq<u8> {
    seq![108u8, 101u8, 110u8, 103u8, 116u8, 104u8]
}

/// Appends the bytes of `length`.
pub fn w_length(out: &mut Vec<u8>)
    ensures
        final(out)@ == old(out)@ + s_length(),
{
    out.push(108);
    out.push(101);
    out.push(110);
    out.push(103);
    out.push(116);
    out.push(104);
    proof {
        assert(out@ =~= old(out)@ + s_length());
    }
}

/// The bytes of `length` as a vector.
pub fn v_length() -> (r: Vec<u8>)
    ensures
        r@ == s_length(),
{
    let mut v: Vec<u8> = Vec::new();
    v.push(108);
    v.push(101);
    v.push(110);
    v.push(103);
    v.push(116);
    v.push(104);
    proof {
        assert(v@ =~= s_length());
    }
    v
}

/// The bytes of `sha256`.
pub open spec fn s_sha256() -> Seq<u8> {
    seq![115u8, 104u8, 97u8, 50u8, 53u8, 54u8]
}

/// Appends the bytes of `sha256`.
pub fn w_sha256(out: &mut Vec<u8>)
    ensures
        final(out)@ == old(out)@ + s_sha256(),
{
    out.push(115);
    out.push(104);
    out.push(97);
    out.push(50);
    out.push(53);
    out.push(54);
    proof {
        assert(out@ =~= old(out)@ + s_sha256());
    }
}

/// The bytes of `sha256` as a vector.
pub fn v_sha256() -> (r: Vec<u8>)
    ensures
        r@ == s_sha256(),
{
    let mut v: Vec<u8> = Vec::new();
    v.push(115);
    v.push(104);
    v.push(97);
    v.push(50);
    v.push(53);
    v.push(54);
    proof {
        assert(v@ =~= s_sha256());
    }
    v
}

/// The bytes of `sha512`.
pub open spec fn s_sha512() -> Seq<u8> {
    seq![115u8, 104u8, 97u8, 53u8, 49u8, 50u8]
}

/// Appends the bytes of `sha512`.
pub fn w_sha512(out: &mut Vec<u8>)
    ensures
        final(out)@ == old(out)@ + s_sha512(),
{
    out.push(115);
    out.push(104);
    out.push(97);
    out.push(53);
    out.push(49);
    out.push(50);
    proof {
        assert(out@ =~= old(out)@ + s_sha512());
    }
}

/// The bytes of `sha512` as a vector.
pub fn v_sha512() -> (r: Vec<u8>)
    ensures
        r@ == s_sha512(),
{
    let mut v: Vec<u8> = Vec::new();
    v.push(115);
    v.push(104);
    v.push(97);
    v.push(53);
    v.push(49);
    v.push(50);
    proof {
        assert(v@ =~= s_sha512());
    }
    v
}

/// The bytes of `delegations`.
pub open spec fn s_delegations() -> Seq<u8> {
    seq![100u8, 101u8, 108u8, 101u8, 103u8, 97u8, 116u8, 105u8, 111u8, 110u8, 115u8]
}

/// Appends the bytes of `delegations`.
pub fn w_delegations(out: &mut Vec<u8>)
    ensures
        final(out)@ == old(out)@ + s_delegations(),
{
    out.push(100);
    out.push(101);
    out.push(108);
    out.push(101);
    out.push(103);
    out.push(97);
    out.push(116);
    out.push(105);
    out.push(111);
    out.push(110);
    out.push(115);
    proof {
        assert(out@ =~= old(out)@ + s_delegations());
    }
}

/// The bytes of `delegations` as a vector.
pub fn v_delegations() -> (r: Vec<u8>)
    ensures
        r@ == s_delegations(),
{
    let mut v: Vec<u8> = Vec::new();
    v.push(100);
    v.push(101);
    v.push(108);
    v.push(101);
    v.push(103);
    v.push(97);
    v.push(116);
    v.push(105);
    v.push(111);
    v.push(110);
    v.push(115);
    proof {
        assert(v@ =~= s_delegations());
    }
    v
}

/// The bytes of `keyids`.
pub open spec fn s_keyids() -> Seq<u8> {
    seq![107u8, 101u8, 121u8, 105u8, 100u8, 115u8]
}

/// Appends the bytes of `keyids`.
pub fn w_keyids(out: &mut Vec<u8>)
    ensures
        final(out)@ == old(out)@ + s_keyids(),
{
    out.push(107);
    out.push(101);
    out.push(121);
    out.push(105);
    out.push(100);
    out.push(115);
    proof {
        assert(out@ =~= old(out)@ + s_keyids());
    }
}

/// The bytes of `keyids` as a vector.
pub fn v_keyids() -> (r: Vec<u8>)
    ensures
        r@ == s_keyids(),
{
    let mut v: Vec<u8> = Vec::new();
    v.push(107);
    v.push(101);
    v.push(121);
    v.push(105);
    v.push(100);
    v.push(115);
    proof {
        assert(v@ =~= s_keyids());
    }
    v
}

/// The bytes of `threshold`.
pub open spec fn s_threshold() -> Seq<u8> {
    seq![116u8, 104u8, 114u8, 101u8, 115u8, 104u8, 111u8, 108u8, 100u8]
}

/// Appends the bytes of `threshold`.
pub fn w_threshold(out: &mut Vec<u8>)
    ensures
        final(out)@ == old(out)@ + s_threshold(),
{
    out.push(116);
    out.push(104);
    out.push(114);
    out.push(101);
    out.push(115);
    out.push(104);
    out.push(111);
    out.push(108);
    out.push(100);
    proof {
        assert(out@ =~= old(out)@ + s_threshold());
    }
}

/// The bytes of `threshold` as a vector.
pub fn v_threshold() -> (r: Vec<u8>)
    ensures
        r@ == s_threshold(),
{
    let mut v: Vec<u8> = Vec::new();
    v.push(116);
    v.push(104);
    v.push(114);
    v.push(101);
    v.push(115);
    v.push(104);
    v.push(111);
    v.push(108);
    v.push(100);
    proof {
        assert(v@ =~= s_threshold());
    }
    v
}

/// The bytes of `name`.
pub open spec fn s_name() -> Seq<u8> {
    seq![110u8, 97u8, 109u8, 101u8]
}

/// Appends the bytes of `name`.
pub fn w_name(out: &mut Vec<u8>)
    ensures
        final(out)@ == old(out)@ + s_name(),
{
    out.push(110);
    out.push(97);
    out.push(109);
    out.push(101);
    proof {
        assert(out@ =~= old(out)@ + s_name());
    }
}

/// The bytes of `name` as a vector.
pub fn v_name() -> (r: Vec<u8>)
    ensures
        r@ == s_name(),
{
    let mut v: Vec<u8> = Vec::new();
    v.push(110);
    v.push(97);
    v.push(109);
    v.push(101);
    proof {
        assert(v@ =~= s_name());
    }
    v
}

/// The bytes of `paths`.
pub open spec fn s_paths() -> Seq<u8> {
    seq![112u8, 97u8, 116u8, 104u8, 115u8]
}

/// Appends the bytes of `paths`.
pub fn w_paths(out: &mut Vec<u8>)
    ensures
        final(out)@ == old(out)@ + s_paths(),
{
    out.push(112);
    out.push(97);
    out.push(116);
    out.push(104);
    out.push(115);
    proof {
        assert(out@ =~= old(out)@ + s_paths());
    }
}

/// The bytes of `paths` as a vector.
pub fn v_paths() -> (r: Vec<u8>)
    ensures
        r@ == s_paths(),
{
    let mut v: Vec<u8> = Vec::new();
    v.push(112);
    v.push(97);
    v.push(116);
    v.push(104);
    v.push(115);
    proof {
        assert(v@ =~= s_paths());
    }
    v
}

/// The bytes of `path_hash_prefixes`.
pub open spec fn s_path_hash_prefixes() -> Seq<u8> {
    seq![112u8, 97u8, 116u8, 104u8, 95u8, 104u8, 97u8, 115u8, 104u8, 95u8, 112u8, 114u8, 101u8, 102u8, 105u8, 120u8, 101u8, 115u8]
}

/// Appends the bytes of `path_hash_prefixes`.
pub fn w_path_hash_prefixes(out: &mut Vec<u8>)
    ensures
        final(out)@ == old(out)@ + s_path_hash_prefixes(),
{
    out.push(112);
    out.push(97);
    out.push(116);
    out.push(104);
    out.push(95);
    out.push(104);
    out.push(97);
    out.push(115);
    out.push(104);
    out.push(95);
    out.push(112);
    out.push(114);
    out.push(101);
    out.push(102);
    out.push(105);
    out.push(120);
    out.push(101);
    out.push(115);
    proof {
        assert(out@ =~= old(out)@ + s_path_hash_prefixes());
    }
}

/// The bytes of `path_hash_prefixes` as a vector.
pub fn v_path_hash_prefixes() -> (r: Vec<u8>)
    ensures
        r@ == s_path_hash_prefixes(),
{
    let mut v: Vec<u8> = Vec::new();
    v.push(112);
    v.push(97);
    v.push(116);
    v.push(104);
    v.push(95);
    v.push(104);
    v.push(97);
    v.push(115);
    v.push(104);
    v.push(95);
    v.push(112);
    v.push(114);
    v.push(101);
    v.push(102);
    v.push(105);
    v.push(120);
    v.push(101);
    v.push(115);
    proof {
        assert(v@ =~= s_path_hash_prefixes());
    }
    v
}

/// The bytes of `terminating`.
pub open spec fn s_terminating() -> Seq<u8> {
    seq![116u8, 101u8, 114u8, 109u8, 105u8, 110u8, 97u8, 116u8, 105u8, 110u8, 103u8]
}

/// Appends the bytes of `terminating`.
pub fn w_terminating(out: &mut Vec<u8>)
    ensures
        final(out)@ == old(out)@ + s_terminating(),
{
    out.push(116);
    out.push(101);
    out.push(114);
    out.push(109);
    out.push(105);
    out.push(110);
    out.push(97);
    out.push(116);
    out.push(105);
    out.push(110);
    out.push(103);
    proof {
        assert(out@ =~= old(out)@ + s_terminating());
    }
}

/// The bytes of `terminating` as a vector.
pub fn v_terminating() -> (r: Vec<u8>)
    ensures
        r@ == s_terminating(),
{
    let mut v: Vec<u8> = Vec::new();
    v.push(116);
    v.push(101);
    v.push(114);
    v.push(109);
    v.push(105);
    v.push(110);
    v.push(97);
    v.push(116);
    v.push(105);
    v.push(110);
    v.push(103);
    proof {
        assert(v@ =~= s_terminating());
    }
    v
}

/// The bytes of `keyid`.
pub open spec fn s_keyid() -> Seq<u8> {
    seq![107u8, 101u8, 121u8, 105u8, 100u8]
}

/// Appends the bytes of `keyid`.
pub fn w_keyid(out: &mut Vec<u8>)
    ensures
        final(out)@ == old(out)@ + s_keyid(),
{
    out.push(107);
    out.push(101);
    out.push(121);
    out.push(105);
    out.push(100);
    proof {
        assert(out@ =~= old(out)@ + s_keyid());
    }
}

/// The bytes of `keyid` as a vector.
pub fn v_keyid() -> (r: Vec<u8>)
    ensures
        r@ == s_keyid(),
{
    let mut v: Vec<u8> = Vec::new();
    v.push(107);
    v.push(101);
    v.push(121);
    v.push(105);
    v.push(100);
    proof {
        assert(v@ =~= s_keyid());
    }
    v
}

/// The bytes of `sig`.
pub open spec fn s_sig() -> Seq<u8> {
    seq![115u8, 105u8, 103u8]
}

/// Appends the bytes of `sig`.
pub fn w_sig(out: &mut Vec<u8>)
    ensures
        final(out)@ == old(out)@ + s_sig(),
{
    out.push(115);
    out.push(105);
    out.push(103);
    proof {
        assert(out@ =~= old(out)@ + s_sig());
    }
}

/// The bytes of `sig` as a vector.
pub fn v_sig() -> (r: Vec<u8>)
    ensures
        r@ == s_sig(),
{
    let mut v: Vec<u8> = Vec::new();
    v.push(115);
    v.push(105);
    v.push(103);
    proof {
        assert(v@ =~= s_sig());
    }
    v
}

/// The bytes of `snapshot.json`.
pub open spec fn s_snapshot_json() -> Seq<u8> {
    seq![115u8, 110u8, 97u8, 112u8, 115u8, 104u8, 111u8, 116u8, 46u8, 106u8, 115u8, 111u8, 110u8]
}

/// Appends the bytes of `snapshot.json`.
pub fn w_snapshot_json(out: &mut Vec<u8>)
    ensures
        final(out)@ == old(out)@ + s_snapshot_json(),
{
    out.push(115);
    out.push(110);
    out.push(97);
    out.push(112);
    out.push(115);
    out.push(104);
    out.push(111);
    out.push(116);
    out.push(46);
    out.push(106);
    out.push(115);
    out.push(111);
    out.push(110);
    proof {
        assert(out@ =~= old(out)@ + s_snapshot_json());
    }
}

/// The bytes of `snapshot.json` as a vector.
pub fn v_snapshot_json() -> (r: Vec<u8>)
    ensures
        r@ == s_snapshot_json(),
{
    let mut v: Vec<u8> = Vec::new();
    v.push(115);
    v.push(110);
    v.push(97);
    v.push(112);
    v.push(115);
    v.push(104);
    v.push(111);
    v.push(116);
    v.push(46);
    v.push(106);
    v.push(115);
    v.push(111);
    v.push(110);
    proof {
        assert(v@ =~= s_snapshot_json());
    }
    v
}

/// The bytes of `targets.json`.
pub open spec fn s_targets_json() -> Seq<u8> {
    seq![116u8, 97u8, 114u8, 103u8, 101u8, 116u8, 115u8, 46u8, 106u8, 115u8, 111u8, 110u8]
}

/// Appends the bytes of `targets.json`.
pub fn w_targets_json(out: &mut Vec<u8>)
    ensures
        final(out)@ == old(out)@ + s_targets_json(),
{
    out.push(116);
    out.push(97);
    out.push(114);
    out.push(103);
    out.push(101);
    out.push(116);
    out.push(115);
    out.push(46);
    out.push(106);
    out.push(115);
    out.push(111);
    out.push(110);
    proof {
        assert(out@ =~= old(out)@ + s_targets_json());
    }
}

/// The bytes of `targets.json` as a vector.
pub fn v_targets_json() -> (r: Vec<u8>)
    ensures
        r@ == s_targets_json(),
{
    let mut v: Vec<u8> = Vec::new();
    v.push(116);
    v.push(97);
    v.push(114);
    v.push(103);
    v.push(101);
    v.push(116);
    v.push(115);
    v.push(46);
    v.push(106);
    v.push(115);
    v.push(111);
    v.push(110);
    proof {
        assert(v@ =~= s_targets_json());
    }
    v
}

/// The bytes of `1.0.0`.
pub open spec fn s_one_zero_zero() -> Seq<u8> {
    seq![49u8, 46u8, 48u8, 46u8, 48u8]
}

/// Appends the bytes of `1.0.0`.
pub fn w_one_zero_zero(out: &mut Vec<u8>)
    ensures
        final(out)@ == old(out)@ + s_one_zero_zero(),
{
    out.push(49);
    out.push(46);
    out.push(48);
    out.push(46);
    out.push(48);
    proof {
        assert(out@ =~= old(out)@ + s_one_zero_zero());
    }
}

/// The bytes of `1.0.0` as a vector.
pub fn v_one_zero_zero() -> (r: Vec<u8>)
    ensures
        r@ == s_one_zero_zero(),
{
    let mut v: Vec<u8> = Vec::new();
    v.push(49);
    v.push(46);
    v.push(48);
    v.push(46);
    v.push(48);
    proof {
        assert(v@ =~= s_one_zero_zero());
    }
    v
}

/// The bytes of `true`.
pub open spec fn s_true_word() -> Seq<u8> {
    seq![116u8, 114u8, 117u8, 101u8]
}

/// Appends the bytes of `true`.
pub fn w_true_word(out: &mut Vec<u8>)
    ensures
        final(out)@ == old(out)@ + s_true_word(),
{
    out.push(116);
    out.push(114);
    out.push(117);
    out.push(101);
    proof {
        assert(out@ =~= old(out)@ + s_true_word());
    }
}

/// The bytes of `true` as a vector.
pub fn v_true_word() -> (r: Vec<u8>)
    ensures
        r@ == s_true_word(),
{
    let mut v: Vec<u8> = Vec::new();
    v.push(116);
    v.push(114);
    v.push(117);
    v.push(101);
    proof {
        assert(v@ =~= s_true_word());
    }
    v
}

/// The bytes of `false`.
pub open spec fn s_false_word() -> Seq<u8> {
    seq![102u8, 97u8, 108u8, 115u8, 101u8]
}

/// Appends the bytes of `false`.
pub fn w_false_word(out: &mut Vec<u8>)
    ensures
        final(out)@ == old(out)@ + s_false_word(),
{
    out.push(102);
    out.push(97);
    out.push(108);
    out.push(115);
    out.push(101);
    proof {
        assert(out@ =~= old(out)@ + s_false_word());
    }
}

/// The bytes of `false` as a vector.
pub fn v_false_word() -> (r: Vec<u8>)
    ensures
        r@ == s_false_word(),
{
    let mut v: Vec<u8> = Vec::new();
    v.push(102);
    v.push(97);
    v.push(108);
    v.push(115);
    v.push(101);
    proof {
        assert(v@ =~= s_false_word());
    }
    v
}

/// The bytes of `.json`.
pub open spec fn s_json_suffix() -> Seq<u8> {
    seq![46u8, 106u8, 115u8, 111u8, 110u8]
}

/// Appends the bytes of `.json`.
pub fn w_json_suffix(out: &mut Vec<u8>)
    ensures
        final(out)@ == old(out)@ + s_json_suffix(),
{
    out.push(46);
    out.push(106);
    out.push(115);
    out.push(111);
    out.push(110);
    proof {
        assert(out@ =~= old(out)@ + s_json_suffix());
    }
}

/// The bytes of `.json` as a vector.
pub fn v_json_suffix() -> (r: Vec<u8>)
    ensures
        r@ == s_json_suffix(),
{
    let mut v: Vec<u8> = Vec::new();
    v.push(46);
    v.push(106);
    v.push(115);
    v.push(111);
    v.push(110);
    proof {
        assert(v@ =~= s_json_suffix());
    }
    v
}

/// The bytes of `root.json`.
pub open spec fn s_root_json() -> Seq<u8> {
    seq![114u8, 111u8, 111u8, 116u8, 46u8, 106u8, 115u8, 111u8, 110u8]
}

/// Appends the bytes of `root.json`.
pub fn w_root_json(out: &mut Vec<u8>)
    ensures
        final(out)@ == old(out)@ + s_root_json(),
{
    out.push(114);
    out.push(111);
    out.push(111);
    out.push(116);
    out.push(46);
    out.push(106);
    out.push(115);
    out.push(111);
    out.push(110);
    proof {
        assert(out@ =~= old(out)@ + s_root_json());
    }
}

/// The bytes of `root.json` as a vector.
pub fn v_root_json() -> (r: Vec<u8>)
    ensures
        r@ == s_root_json(),
{
    let mut v: Vec<u8> = Vec::new();
    v.push(114);
    v.push(111);
    v.push(111);
    v.push(116);
    v.push(46);
    v.push(106);
    v.push(115);
    v.push(111);
    v.push(110);
    proof {
        assert(v@ =~= s_root_json());
    }
    v
}

/// The bytes of `timestamp.json`.
pub open spec fn s_timestamp_json() -> Seq<u8> {
    seq![116u8, 105u8, 109u8, 101u8, 115u8, 116u8, 97u8, 109u8, 112u8, 46u8, 106u8, 115u8, 111u8, 110u8]
}

/// Appends the bytes of `timestamp.json`.
pub fn w_timestamp_json(out: &mut Vec<u8>)
    ensures
        final(out)@ == old(out)@ + s_timestamp_json(),
{
    out.push(116);
    out.push(105);
    out.push(109);
    out.push(101);
    out.push(115);
    out.push(116);
    out.push(97);
    out.push(109);
    out.push(112);
    out.push(46);
    out.push(106);
    out.push(115);
    out.push(111);
    out.push(110);
    proof {
        assert(out@ =~= old(out)@ + s_timestamp_json());
    }
}

/// The bytes of `timestamp.json` as a vector.
pub fn v_timestamp_json() -> (r: Vec<u8>)
    ensures
        r@ == s_timestamp_json(),
{
    let mut v: Vec<u8> = Vec::new();
    v.push(116);
    v.push(105);
    v.push(109);
    v.push(101);
    v.push(115);
    v.push(116);
    v.push(97);
    v.push(109);
    v.push(112);
    v.push(46);
    v.push(106);
    v.push(115);
    v.push(111);
    v.push(110);
    proof {
        assert(v@ =~= s_timestamp_json());
    }
    v
}

/// The bytes of `ed25519`.
pub open spec fn s_ed25519() -> Seq<u8> {
    seq![101u8, 100u8, 50u8, 53u8, 53u8, 49u8, 57u8]
}

/// Appends the bytes of `ed25519`.
pub fn w_ed25519(out: &mut Vec<u8>)
    ensures
        final(out)@ == old(out)@ + s_ed25519(),
{
    out.push(101);
    out.push(100);
    out.push(50);
    out.push(53);
    out.push(53);
    out.push(49);
    out.push(57);
    proof {
        assert(out@ =~= old(out)@ + s_ed25519());
    }
}

/// The bytes of `ed25519` as a vector.
pub fn v_ed25519() -> (r: Vec<u8>)
    ensures
        r@ == s_ed25519(),
{
    let mut v: Vec<u8> = Vec::new();
    v.push(101);
    v.push(100);
    v.push(50);
    v.push(53);
    v.push(53);
    v.push(49);
    v.push(57);
    proof {
        assert(v@ =~= s_ed25519());
    }
    v
}

/// The bytes of `rsa`.
pub open spec fn s_rsa() -> Seq<u8> {
    seq![114u8, 115u8, 97u8]
}

/// Appends the bytes of `rsa`.
pub fn w_rsa(out: &mut Vec<u8>)
    ensures
        final(out)@ == old(out)@ + s_rsa(),
{
    out.push(114);
    out.push(115);
    out.push(97);
    proof {
        assert(out@ =~= old(out)@ + s_rsa());
    }
}

/// The bytes of `rsa` as a vector.
pub fn v_rsa() -> (r: Vec<u8>)
    ensures
        r@ == s_rsa(),
{
    let mut v: Vec<u8> = Vec::new();
    v.push(114);
    v.push(115);
    v.push(97);
    proof {
        assert(v@ =~= s_rsa());
    }
    v
}

/// The bytes of `ecdsa`.
pub open spec fn s_ecdsa() -> Seq<u8> {
    seq![101u8, 99u8, 100u8, 115u8, 97u8]
}

/// Appends the bytes of `ecdsa`.
pub fn w_ecdsa(out: &mut Vec<u8>)
    ensures
        final(out)@ == old(out)@ + s_ecdsa(),
{
    out.push(101);
    out.push(99);
    out.push(100);
    out.push(115);
    out.push(97);
    proof {
        assert(out@ =~= old(out)@ + s_ecdsa());
    }
}

/// The bytes of `ecdsa` as a vector.
pub fn v_ecdsa() -> (r: Vec<u8>)
    ensures
        r@ == s_ecdsa(),
{
    let mut v: Vec<u8> = Vec::new();
    v.push(101);
    v.push(99);
    v.push(100);
    v.push(115);
    v.push(97);
    proof {
        assert(v@ =~= s_ecdsa());
    }
    v
}

/// The bytes of `ecdsa-sha2-nistp256`.
pub open spec fn s_ecdsa_sha2_nistp256() -> Seq<u8> {
    seq![101u8, 99u8, 100u8, 115u8, 97u8, 45u8, 115u8, 104u8, 97u8, 50u8, 45u8, 110u8, 105u8, 115u8, 116u8, 112u8, 50u8, 53u8, 54u8]
}

/// Appends the bytes of `ecdsa-sha2-nistp256`.
pub fn w_ecdsa_sha2_nistp256(out: &mut Vec<u8>)
    ensures
        final(out)@ == old(out)@ + s_ecdsa_sha2_nistp256(),
{
    out.push(101);
    out.push(99);
    out.push(100);
    out.push(115);
    out.push(97);
    out.push(45);
    out.push(115);
    out.push(104);
    out.push(97);
    out.push(50);
    out.push(45);
    out.push(110);
    out.push(105);
    out.push(115);
    out.push(116);
    out.push(112);
    out.push(50);
    out.push(53);
    out.push(54);
    proof {
        assert(out@ =~= old(out)@ + s_ecdsa_sha2_nistp256());
    }
}

/// The bytes of `ecdsa-sha2-nistp256` as a vector.
pub fn v_ecdsa_sha2_nistp256() -> (r: Vec<u8>)
    ensures
        r@ == s_ecdsa_sha2_nistp256(),
{
    let mut v: Vec<u8> = Vec::new();
    v.push(101);
    v.push(99);
    v.push(100);
    v.push(115);
    v.push(97);
    v.push(45);
    v.push(115);
    v.push(104);
    v.push(97);
    v.push(50);
    v.push(45);
    v.push(110);
    v.push(105);
    v.push(115);
    v.push(116);
    v.push(112);
    v.push(50);
    v.push(53);
    v.push(54);
    proof {
        assert(v@ =~= s_ecdsa_sha2_nistp256());
    }
    v
}

/// The bytes of `rsassa-pss-sha256`.
pub open spec fn s_rsassa_pss_sha256() -> Seq<u8> {
    seq![114u8, 115u8, 97u8, 115u8, 115u8, 97u8, 45u8, 112u8, 115u8, 115u8, 45u8, 115u8, 104u8, 97u8, 50u8, 53u8, 54u8]
}

/// Appends the bytes of `rsassa-pss-sha256`.
pub fn w_rsassa_pss_sha256(out: &mut Vec<u8>)
    ensures
        final(out)@ == old(out)@ + s_rsassa_pss_sha256(),
{
    out.push(114);
    out.push(115);
    out.push(97);
    out.push(115);
    out.push(115);
    out.push(97);
    out.push(45);
    out.push(112);
    out.push(115);
    out.push(115);
    out.push(45);
    out.push(115);
    out.push(104);
    out.push(97);
    out.push(50);
    out.push(53);
    out.push(54);
    proof {
        assert(out@ =~= old(out)@ + s_rsassa_pss_sha256());
    }
}

/// The bytes of `rsassa-pss-sha256` as a vector.
pub fn v_rsassa_pss_sha256() -> (r: Vec<u8>)
    ensures
        r@ == s_rsassa_pss_sha256(),
{
    let mut v: Vec<u8> = Vec::new();
    v.push(114);
    v.push(115);
    v.push(97);
    v.push(115);
    v.push(115);
    v.push(97);
    v.push(45);
    v.push(112);
    v.push(115);
    v.push(115);
    v.push(45);
    v.push(115);
    v.push(104);
    v.push(97);
    v.push(50);
    v.push(53);
    v.push(54);
    proof {
        assert(v@ =~= s_rsassa_pss_sha256());
    }
    v
}

/// The bytes of `rsassa-pkcs1v15-sha256`.
pub open spec fn s_rsassa_pkcs1v15_sha256() -> Seq<u8> {
    seq![114u8, 115u8, 97u8, 115u8, 115u8, 97u8, 45u8, 112u8, 107u8, 99u8, 115u8, 49u8, 118u8, 49u8, 53u8, 45u8, 115u8, 104u8, 97u8, 50u8, 53u8, 54u8]
}

/// Appends the bytes of `rsassa-pkcs1v15-sha256`.
pub fn w_rsassa_pkcs1v15_sha256(out: &mut Vec<u8>)
    ensures
        final(out)@ == old(out)@ + s_rsassa_pkcs1v15_sha256(),
{
    out.push(114);
    out.push(115);
    out.push(97);
    out.push(115);
    out.push(115);
    out.push(97);
    out.push(45);
    out.push(112);
    out.push(107);
    out.push(99);
    out.push(115);
    out.push(49);
    out.push(118);
    out.push(49);
    out.push(53);
    out.push(45);
    out.push(115);
    out.push(104);
    out.push(97);
    out.push(50);
    out.push(53);
    out.push(54);
    proof {
        assert(out@ =~= old(out)@ + s_rsassa_pkcs1v15_sha256());
    }
}

/// The bytes of `rsassa-pkcs1v15-sha256` as a vector.
pub fn v_rsassa_pkcs1v15_sha256() -> (r: Vec<u8>)
    ensures
        r@ == s_rsassa_pkcs1v15_sha256(),
{
    let mut v: Vec<u8> = Vec::new();
    v.push(114);
    v.push(115);
    v.push(97);
    v.push(115);
    v.push(115);
    v.push(97);
    v.push(45);
    v.push(112);
    v.push(107);
    v.push(99);
    v.push(115);
    v.push(49);
    v.push(118);
    v.push(49);
    v.push(53);
    v.push(45);
    v.push(115);
    v.push(104);
    v.push(97);
    v.push(50);
    v.push(53);
    v.push(54);
    proof {
        assert(v@ =~= s_rsassa_pkcs1v15_sha256());
    }
    v
}

} // verus!
