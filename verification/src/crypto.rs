//! The cryptographic primitives the engine relies on, behind trusted
//! wrappers, and the fully verified dispatch from a TUF key object to the
//! right primitive. Key identifiers are the SHA-256 of the key's canonical
//! encoding, in lowercase hex.

use vstd::prelude::*;

use crate::canon::bytes_eq;
use crate::emit::canon_bytes_key;
use crate::hex::decode_hex;
use crate::hex::encode_hex;
use crate::hex::hex_of;
use crate::hex::is_hex_char;
use crate::hex::lemma_hex_of_injective;
use crate::hex::lemma_hex_of_len;
use crate::lits::s_ecdsa;
use crate::lits::s_ecdsa_sha2_nistp256;
use crate::lits::s_ed25519;
use crate::lits::s_rsa;
use crate::lits::s_rsassa_pkcs1v15_sha256;
use crate::lits::s_rsassa_pss_sha256;
use crate::lits::v_ecdsa;
use crate::lits::v_ecdsa_sha2_nistp256;
use crate::lits::v_ed25519;
use crate::lits::v_rsa;
use crate::lits::v_rsassa_pkcs1v15_sha256;
use crate::lits::v_rsassa_pss_sha256;
use crate::schema::canon_key;
use crate::schema::Key;
use crate::schema::KeyV;

verus! {

/// The SHA-256 digest of a byte string.
pub uninterp spec fn sha256_of(b: Seq<u8>) -> Seq<u8>;

/// Relies on ring::digest::digest with SHA256: the digest is a function of
/// the input alone and is 32 bytes long.
#[verifier::external_body]
pub fn sha256(b: &Vec<u8>) -> (r: Vec<u8>)
    ensures
        r@ == sha256_of(b@),
        r@.len() == 32,
{
    ring::digest::digest(&ring::digest::SHA256, b.as_slice()).as_ref().to_vec()
}

/// The SHA-512 digest of a byte string.
pub uninterp spec fn sha512_of(b: Seq<u8>) -> Seq<u8>;

/// Relies on ring::digest::digest with SHA512: the digest is a function of
/// the input alone and is 64 bytes long.
#[verifier::external_body]
pub fn sha512(b: &Vec<u8>) -> (r: Vec<u8>)
    ensures
        r@ == sha512_of(b@),
        r@.len() == 64,
{
    ring::digest::digest(&ring::digest::SHA512, b.as_slice()).as_ref().to_vec()
}

/// Whether an Ed25519 signature over the message verifies under the 32-byte
/// public key.
pub uninterp spec fn ed25519_ok(pubkey: Seq<u8>, msg: Seq<u8>, sig: Seq<u8>) -> bool;

/// Relies on ring::signature::UnparsedPublicKey::verify with ED25519: a
/// function of public key, message and signature alone.
#[verifier::external_body]
fn ed25519_verify(pubkey: &Vec<u8>, msg: &Vec<u8>, sig: &Vec<u8>) -> (r: bool)
    ensures
        r == ed25519_ok(pubkey@, msg@, sig@),
{
    ring::signature::UnparsedPublicKey::new(&ring::signature::ED25519, pubkey.as_slice()).verify(
        msg.as_slice(),
        sig.as_slice(),
    ).is_ok()
}

/// Whether an ECDSA P-256 SHA-256 signature in ASN.1 form verifies under the
/// given public key point.
pub uninterp spec fn ecdsa_p256_ok(pubkey: Seq<u8>, msg: Seq<u8>, sig: Seq<u8>) -> bool;

/// Relies on ring::signature::UnparsedPublicKey::verify with
/// ECDSA_P256_SHA256_ASN1: a function of its three inputs alone.
#[verifier::external_body]
fn ecdsa_p256_verify(pubkey: &Vec<u8>, msg: &Vec<u8>, sig: &Vec<u8>) -> (r: bool)
    ensures
        r == ecdsa_p256_ok(pubkey@, msg@, sig@),
{
    ring::signature::UnparsedPublicKey::new(
        &ring::signature::ECDSA_P256_SHA256_ASN1,
        pubkey.as_slice(),
    ).verify(msg.as_slice(), sig.as_slice()).is_ok()
}

/// Whether an RSA-PSS SHA-256 signature verifies under the given PKCS#1 DER
/// public key.
pub uninterp spec fn rsa_pss_ok(pubkey: Seq<u8>, msg: Seq<u8>, sig: Seq<u8>) -> bool;

/// Relies on ring::signature::UnparsedPublicKey::verify with
/// RSA_PSS_2048_8192_SHA256: a function of its three inputs alone.
#[verifier::external_body]
fn rsa_pss_verify(pubkey: &Vec<u8>, msg: &Vec<u8>, sig: &Vec<u8>) -> (r: bool)
    ensures
        r == rsa_pss_ok(pubkey@, msg@, sig@),
{
    ring::signature::UnparsedPublicKey::new(
        &ring::signature::RSA_PSS_2048_8192_SHA256,
        pubkey.as_slice(),
    ).verify(msg.as_slice(), sig.as_slice()).is_ok()
}

/// Whether an RSA PKCS#1 v1.5 SHA-256 signature verifies under the given
/// PKCS#1 DER public key.
pub uninterp spec fn rsa_pkcs1_ok(pubkey: Seq<u8>, msg: Seq<u8>, sig: Seq<u8>) -> bool;

/// Relies on ring::signature::UnparsedPublicKey::verify with
/// RSA_PKCS1_2048_8192_SHA256: a function of its three inputs alone.
#[verifier::external_body]
fn rsa_pkcs1_verify(pubkey: &Vec<u8>, msg: &Vec<u8>, sig: &Vec<u8>) -> (r: bool)
    ensures
        r == rsa_pkcs1_ok(pubkey@, msg@, sig@),
{
    ring::signature::UnparsedPublicKey::new(
        &ring::signature::RSA_PKCS1_2048_8192_SHA256,
        pubkey.as_slice(),
    ).verify(msg.as_slice(), sig.as_slice()).is_ok()
}

/// The hex encoding of any byte string is well formed: even length, all
/// lowercase hex digits.
pub proof fn lemma_hex_of_shape(p: Seq<u8>)
    ensures
        hex_of(p).len() % 2 == 0,
        forall|i: int| 0 <= i < hex_of(p).len() ==> is_hex_char(#[trigger] hex_of(p)[i]),
    decreases p.len(),
{
    lemma_hex_of_len(p);
    if p.len() > 0 {
        lemma_hex_of_shape(p.drop_last());
        lemma_hex_of_len(p.drop_last());
    }
}

/// Whether a signature (given in hex) by the key is valid over the message.
/// The key material and signature are the unique byte strings behind their
/// hex forms; an unsupported key family never validates.
pub open spec fn sig_valid(k: KeyV, msg: Seq<u8>, sighex: Seq<u8>) -> bool {
    exists|p: Seq<u8>, g: Seq<u8>|
        hex_of(p) == k.public && hex_of(g) == sighex && #[trigger] scheme_ok(k, p, msg, g)
}

/// Which primitive a key family uses, over decoded key and signature bytes.
pub open spec fn scheme_ok(k: KeyV, p: Seq<u8>, msg: Seq<u8>, g: Seq<u8>) -> bool {
    if k.keytype == s_ed25519() && k.scheme == s_ed25519() {
        ed25519_ok(p, msg, g)
    } else if k.keytype == s_ecdsa() && k.scheme == s_ecdsa_sha2_nistp256() {
        ecdsa_p256_ok(p, msg, g)
    } else if k.keytype == s_rsa() && k.scheme == s_rsassa_pss_sha256() {
        rsa_pss_ok(p, msg, g)
    } else if k.keytype == s_rsa() && k.scheme == s_rsassa_pkcs1v15_sha256() {
        rsa_pkcs1_ok(p, msg, g)
    } else {
        false
    }
}

/// Whether the key belongs to one of the supported families.
pub open spec fn supported_key(k: KeyV) -> bool {
    (k.keytype == s_ed25519() && k.scheme == s_ed25519()) || (k.keytype == s_ecdsa() && k.scheme
        == s_ecdsa_sha2_nistp256()) || (k.keytype == s_rsa() && k.scheme == s_rsassa_pss_sha256())
        || (k.keytype == s_rsa() && k.scheme == s_rsassa_pkcs1v15_sha256())
}

/// Decides whether the key supports one of the known families.
pub fn is_supported_key(k: &Key) -> (r: bool)
    ensures
        r == supported_key(k@),
{
    if bytes_eq(&k.keytype, &v_ed25519()) && bytes_eq(&k.scheme, &v_ed25519()) {
        true
    } else if bytes_eq(&k.keytype, &v_ecdsa()) && bytes_eq(&k.scheme, &v_ecdsa_sha2_nistp256()) {
        true
    } else if bytes_eq(&k.keytype, &v_rsa()) && bytes_eq(&k.scheme, &v_rsassa_pss_sha256()) {
        true
    } else if bytes_eq(&k.keytype, &v_rsa()) && bytes_eq(
        &k.scheme,
        &v_rsassa_pkcs1v15_sha256(),
    ) {
        true
    } else {
        false
    }
}

/// Checks one signature (hex) by one key over a message, deciding exactly
/// `sig_valid`.
pub fn check_sig(k: &Key, msg: &Vec<u8>, sighex: &Vec<u8>) -> (r: bool)
    ensures
        r == sig_valid(k@, msg@, sighex@),
{
    let pubbytes = match decode_hex(&k.public) {
        Some(p) => p,
        None => {
            proof {
                assert forall|p: Seq<u8>, g: Seq<u8>| !(hex_of(p) == k@.public && hex_of(g)
                    == sighex@ && scheme_ok(k@, p, msg@, g)) by {
                    lemma_hex_of_shape(p);
                }
            }
            return false;
        },
    };
    let sigbytes = match decode_hex(sighex) {
        Some(g) => g,
        None => {
            proof {
                assert forall|p: Seq<u8>, g: Seq<u8>| !(hex_of(p) == k@.public && hex_of(g)
                    == sighex@ && scheme_ok(k@, p, msg@, g)) by {
                    lemma_hex_of_shape(g);
                }
            }
            return false;
        },
    };
    let ok: bool = if bytes_eq(&k.keytype, &v_ed25519()) && bytes_eq(&k.scheme, &v_ed25519()) {
        ed25519_verify(&pubbytes, msg, &sigbytes)
    } else if bytes_eq(&k.keytype, &v_ecdsa()) && bytes_eq(&k.scheme, &v_ecdsa_sha2_nistp256()) {
        ecdsa_p256_verify(&pubbytes, msg, &sigbytes)
    } else if bytes_eq(&k.keytype, &v_rsa()) && bytes_eq(&k.scheme, &v_rsassa_pss_sha256()) {
        rsa_pss_verify(&pubbytes, msg, &sigbytes)
    } else if bytes_eq(&k.keytype, &v_rsa()) && bytes_eq(
        &k.scheme,
        &v_rsassa_pkcs1v15_sha256(),
    ) {
        rsa_pkcs1_verify(&pubbytes, msg, &sigbytes)
    } else {
        proof {
            assert forall|p: Seq<u8>, g: Seq<u8>| !(hex_of(p) == k@.public && hex_of(g) == sighex@
                && scheme_ok(k@, p, msg@, g)) by {
            }
        }
        return false;
    };
    proof {
        if ok {
            assert(hex_of(pubbytes@) == k@.public && hex_of(sigbytes@) == sighex@ && scheme_ok(
                k@,
                pubbytes@,
                msg@,
                sigbytes@,
            ));
        } else {
            assert forall|p: Seq<u8>, g: Seq<u8>| !(hex_of(p) == k@.public && hex_of(g) == sighex@
                && scheme_ok(k@, p, msg@, g)) by {
                if hex_of(p) == k@.public && hex_of(g) == sighex@ {
                    lemma_hex_of_injective(p, pubbytes@);
                    lemma_hex_of_injective(g, sigbytes@);
                }
            }
        }
    }
    ok
}

/// The key identifier of a public key: lowercase hex of the SHA-256 of the
/// key's canonical encoding.
pub open spec fn key_id_of(k: KeyV) -> Seq<u8> {
    hex_of(sha256_of(canon_key(k)))
}

/// Derives the key identifier of a public key.
pub fn key_id(k: &Key) -> (r: Vec<u8>)
    ensures
        r@ == key_id_of(k@),
{
    let c = canon_bytes_key(k);
    let d = sha256(&c);
    encode_hex(&d)
}

/// The moment a metadata expiration text denotes, in seconds since the Unix
/// epoch, when the text is a well-formed RFC 3339 timestamp.
pub uninterp spec fn utc_seconds_of(s: Seq<u8>) -> Option<i64>;

/// Relies on chrono::DateTime::parse_from_rfc3339 and
/// chrono::DateTime::timestamp: the parsed moment is a function of the text
/// alone.
#[verifier::external_body]
pub fn parse_datetime_seconds(s: &Vec<u8>) -> (r: Option<i64>)
    ensures
        r == utc_seconds_of(s@),
{
    match core::str::from_utf8(s.as_slice()) {
        Ok(t) => chrono::DateTime::parse_from_rfc3339(t).ok().map(|d| d.timestamp()),
        Err(_) => None,
    }
}

/// Whether metadata with this expiration text is expired at `now`
/// (seconds since the Unix epoch). Unreadable expiration text counts as
/// expired.
pub open spec fn expired_at(expires: Seq<u8>, now: i64) -> bool {
    match utc_seconds_of(expires) {
        Some(t) => t < now,
        None => true,
    }
}

/// Decides `expired_at`.
pub fn is_expired(expires: &Vec<u8>, now: i64) -> (r: bool)
    ensures
        r == expired_at(expires@, now),
{
    match parse_datetime_seconds(expires) {
        Some(t) => t < now,
        None => true,
    }
}

} // verus!
