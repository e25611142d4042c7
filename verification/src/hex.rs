//! Lowercase hexadecimal encoding of byte strings, with a full functional
//! specification. Digests, key identifiers and signatures all travel through
//! this textual form in TUF metadata.

use vstd::prelude::*;

verus! {

/// The lowercase hex digit for a value below 16.
pub open spec fn hex_digit(n: u8) -> u8
    recommends
        n < 16,
{
    if n < 10 {
        (48 + n) as u8
    } else {
        (87 + n) as u8
    }
}

/// The lowercase hex encoding of a byte string: two digits per byte,
/// high nibble first.
pub open spec fn hex_of(b: Seq<u8>) -> Seq<u8>
    decreases b.len(),
{
    if b.len() == 0 {
        Seq::<u8>::empty()
    } else {
        hex_of(b.drop_last()) + seq![hex_digit(b.last() / 16), hex_digit(b.last() % 16)]
    }
}

/// Whether `c` is a lowercase hex digit.
pub open spec fn is_hex_char(c: u8) -> bool {
    (48 <= c <= 57) || (97 <= c <= 102)
}

pub proof fn lemma_hex_of_len(b: Seq<u8>)
    ensures
        hex_of(b).len() == 2 * b.len(),
    decreases b.len(),
{
    if b.len() > 0 {
        lemma_hex_of_len(b.drop_last());
    }
}

/// Encodes `b` as lowercase hex, two digits per byte.
pub fn encode_hex(b: &Vec<u8>) -> (r: Vec<u8>)
    ensures
        r@ == hex_of(b@),
{
    let mut r: Vec<u8> = Vec::new();
    let mut i: usize = 0;
    while i < b.len()
        invariant
            i <= b.len(),
            r@ == hex_of(b@.take(i as int)),
        decreases b.len() - i,
    {
        let x = b[i];
        let hi = x / 16;
        let lo = x % 16;
        r.push(if hi < 10 { 48 + hi } else { 87 + hi });
        r.push(if lo < 10 { 48 + lo } else { 87 + lo });
        proof {
            assert(b@.take(i + 1).drop_last() =~= b@.take(i as int));
            assert(b@.take(i + 1).last() == b@[i as int]);
            assert(r@ =~= hex_of(b@.take(i + 1)));
        }
        i = i + 1;
    }
    proof {
        assert(b@.take(b@.len() as int) =~= b@);
    }
    r
}

/// The numeric value of a lowercase hex digit, if `c` is one.
fn hex_val(c: u8) -> (r: Option<u8>)
    ensures
        match r {
            Some(n) => n < 16 && hex_digit(n) == c && is_hex_char(c),
            None => !is_hex_char(c),
        },
{
    if 48 <= c && c <= 57 {
        Some(c - 48)
    } else if 97 <= c && c <= 102 {
        Some(c - 87)
    } else {
        None
    }
}

/// Decodes lowercase hex. Returns the bytes whose encoding is exactly `s`;
/// `None` when `s` has odd length or holds a character that is not a
/// lowercase hex digit.
pub fn decode_hex(s: &Vec<u8>) -> (r: Option<Vec<u8>>)
    ensures
        match r {
            Some(v) => hex_of(v@) == s@ && v@.len() * 2 == s@.len(),
            None => !(s@.len() % 2 == 0 && forall|i: int|
                0 <= i < s@.len() ==> is_hex_char(s@[i])),
        },
{
    if s.len() % 2 != 0 {
        return None;
    }
    let mut v: Vec<u8> = Vec::new();
    let mut i: usize = 0;
    proof {
        assert(s@.take(0) =~= Seq::<u8>::empty());
    }
    while i < s.len()
        invariant
            s@.len() % 2 == 0,
            i <= s.len(),
            i % 2 == 0,
            v@.len() * 2 == i,
            hex_of(v@) == s@.take(i as int),
            forall|j: int| 0 <= j < i ==> is_hex_char(s@[j]),
        decreases s.len() - i,
    {
        let hi = match hex_val(s[i]) {
            Some(n) => n,
            None => {
                return None;
            },
        };
        let lo = match hex_val(s[i + 1]) {
            Some(n) => n,
            None => {
                return None;
            },
        };
        let byte = hi * 16 + lo;
        let ghost v_before = v@;
        v.push(byte);
        proof {
            assert(byte / 16 == hi && byte % 16 == lo) by (nonlinear_arith)
                requires
                    hi < 16,
                    lo < 16,
                    byte == hi * 16 + lo,
            ;
            assert(v@.drop_last() =~= v_before);
            assert(hex_of(v@) =~= s@.take(i + 2));
        }
        i = i + 2;
    }
    proof {
        assert(s@.take(s@.len() as int) =~= s@);
    }
    Some(v)
}

/// Round trip: decoding an encoding gives back the original bytes.
/// Stated here as injectivity of `hex_of`, from which it follows.
pub proof fn lemma_hex_of_injective(a: Seq<u8>, b: Seq<u8>)
    requires
        hex_of(a) == hex_of(b),
    ensures
        a == b,
    decreases a.len(),
{
    lemma_hex_of_len(a);
    lemma_hex_of_len(b);
    if a.len() == 0 {
        assert(a =~= b);
    } else {
        let ea = hex_of(a);
        let eb = hex_of(b);
        assert(ea.last() == hex_digit(a.last() % 16));
        assert(ea[ea.len() - 2] == hex_digit(a.last() / 16));
        assert(eb.last() == hex_digit(b.last() % 16));
        assert(eb[eb.len() - 2] == hex_digit(b.last() / 16));
        assert(a.last() / 16 < 16 && b.last() / 16 < 16);
        assert(a.last() == 16 * (a.last() / 16) + a.last() % 16);
        assert(b.last() == 16 * (b.last() / 16) + b.last() % 16);
        assert(a.last() == b.last());
        assert(hex_of(a.drop_last()) =~= ea.take(ea.len() - 2));
        assert(hex_of(b.drop_last()) =~= eb.take(eb.len() - 2));
        lemma_hex_of_injective(a.drop_last(), b.drop_last());
        assert(a =~= a.drop_last() + seq![a.last()]);
        assert(b =~= b.drop_last() + seq![b.last()]);
    }
}

} // verus!
