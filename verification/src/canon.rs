//! Primitives of the canonical JSON form used as signature input: strings
//! with minimal escaping, shortest-decimal integers, and the byte-exact
//! parsers for each. Object keys are sorted and no insignificant whitespace
//! is ever produced; the parsers accept exactly the canonical form, so a
//! parsed value re-encodes to the very bytes it was read from.

use vstd::prelude::*;

use crate::hex::hex_digit;
use crate::hex::is_hex_char;

verus! {

/// The canonical escape of one string byte: `"` and `\` get a backslash,
/// control bytes below 0x20 become `\u00xx`, everything else stands as is.
pub open spec fn esc_char(c: u8) -> Seq<u8> {
    if c == 34 {
        seq![92u8, 34u8]
    } else if c == 92 {
        seq![92u8, 92u8]
    } else if c < 32 {
        seq![92u8, 117u8, 48u8, 48u8, hex_digit(c / 16), hex_digit(c % 16)]
    } else {
        seq![c]
    }
}

/// The canonical escape of a whole string body.
pub open spec fn esc(s: Seq<u8>) -> Seq<u8>
    decreases s.len(),
{
    if s.len() == 0 {
        Seq::<u8>::empty()
    } else {
        esc(s.drop_last()) + esc_char(s.last())
    }
}

/// A canonical JSON string: quote, escaped body, quote.
pub open spec fn quoted(s: Seq<u8>) -> Seq<u8> {
    seq![34u8] + esc(s) + seq![34u8]
}

/// The shortest decimal rendering of a non-negative integer.
pub open spec fn dec_of(n: nat) -> Seq<u8>
    decreases n,
{
    if n < 10 {
        seq![(48 + n) as u8]
    } else {
        dec_of(n / 10) + seq![(48 + n % 10) as u8]
    }
}

/// Strict lexicographic order on byte strings; canonical objects list their
/// keys in this order.
pub open spec fn lex_lt(a: Seq<u8>, b: Seq<u8>) -> bool
    decreases a.len(),
{
    if b.len() == 0 {
        false
    } else if a.len() == 0 {
        true
    } else if a[0] != b[0] {
        a[0] < b[0]
    } else {
        lex_lt(a.drop_first(), b.drop_first())
    }
}

pub proof fn lemma_esc_push(s: Seq<u8>, c: u8)
    ensures
        esc(s.push(c)) == esc(s) + esc_char(c),
{
    assert(s.push(c).drop_last() =~= s);
    assert(s.push(c).last() == c);
}

/// Appends the bytes of `s` to `out`.
pub fn write_bytes(out: &mut Vec<u8>, s: &Vec<u8>)
    ensures
        final(out)@ == old(out)@ + s@,
{
    let mut i: usize = 0;
    proof {
        assert(out@ =~= old(out)@ + s@.take(0));
    }
    while i < s.len()
        invariant
            i <= s.len(),
            out@ == old(out)@ + s@.take(i as int),
        decreases s.len() - i,
    {
        out.push(s[i]);
        proof {
            assert(out@ =~= old(out)@ + s@.take(i + 1));
        }
        i = i + 1;
    }
    proof {
        assert(s@.take(s@.len() as int) =~= s@);
    }
}

/// Appends the canonical quoted form of `s` to `out`.
pub fn write_quoted(out: &mut Vec<u8>, s: &Vec<u8>)
    ensures
        final(out)@ == old(out)@ + quoted(s@),
{
    out.push(34);
    let mut i: usize = 0;
    proof {
        assert(out@ =~= old(out)@ + seq![34u8] + esc(s@.take(0)));
    }
    while i < s.len()
        invariant
            i <= s.len(),
            out@ == old(out)@ + seq![34u8] + esc(s@.take(i as int)),
        decreases s.len() - i,
    {
        let c = s[i];
        if c == 34 {
            out.push(92);
            out.push(34);
        } else if c == 92 {
            out.push(92);
            out.push(92);
        } else if c < 32 {
            out.push(92);
            out.push(117);
            out.push(48);
            out.push(48);
            let hi = c / 16;
            let lo = c % 16;
            out.push(if hi < 10 { 48 + hi } else { 87 + hi });
            out.push(if lo < 10 { 48 + lo } else { 87 + lo });
        } else {
            out.push(c);
        }
        proof {
            assert(s@.take(i + 1) =~= s@.take(i as int).push(s@[i as int]));
            lemma_esc_push(s@.take(i as int), s@[i as int]);
            assert(out@ =~= old(out)@ + seq![34u8] + esc(s@.take(i + 1)));
        }
        i = i + 1;
    }
    out.push(34);
    proof {
        assert(s@.take(s@.len() as int) =~= s@);
        assert(out@ =~= old(out)@ + quoted(s@));
    }
}

/// Appends the shortest decimal rendering of `n` to `out`.
pub fn write_dec(out: &mut Vec<u8>, n: u64)
    ensures
        final(out)@ == old(out)@ + dec_of(n as nat),
{
    if n == 0 {
        out.push(48);
        proof {
            assert(out@ =~= old(out)@ + dec_of(0));
        }
        return ;
    }
    let mut tmp: Vec<u8> = Vec::new();
    let mut m: u64 = n;
    proof {
        assert(dec_of(n as nat) + tmp@.reverse() =~= dec_of(n as nat));
    }
    while m > 0
        invariant
            m > 0 ==> dec_of(n as nat) == dec_of(m as nat) + tmp@.reverse(),
            m == 0 ==> dec_of(n as nat) == tmp@.reverse(),
        decreases m,
    {
        let d = (m % 10) as u8;
        let ghost tmp0 = tmp@;
        tmp.push(48 + d);
        proof {
            assert(tmp@.reverse() =~= seq![(48 + m % 10) as u8] + tmp0.reverse());
            if m >= 10 {
                assert(dec_of(m as nat) == dec_of((m / 10) as nat) + seq![
                    (48 + m % 10) as u8,
                ]);
                assert(dec_of((m / 10) as nat) + tmp@.reverse() =~= dec_of(m as nat)
                    + tmp0.reverse());
            } else {
                assert(dec_of(m as nat) == seq![(48 + m % 10) as u8]);
                assert(tmp@.reverse() =~= dec_of(m as nat) + tmp0.reverse());
            }
        }
        m = m / 10;
    }
    let k = tmp.len();
    let mut j: usize = 0;
    proof {
        assert(out@ =~= old(out)@ + tmp@.reverse().take(0));
    }
    while j < k
        invariant
            j <= k,
            k == tmp@.len(),
            out@ == old(out)@ + tmp@.reverse().take(j as int),
        decreases k - j,
    {
        out.push(tmp[k - 1 - j]);
        proof {
            assert(tmp@.reverse()[j as int] == tmp@[k - 1 - j]);
            assert(out@ =~= old(out)@ + tmp@.reverse().take(j + 1));
        }
        j = j + 1;
    }
    proof {
        assert(tmp@.reverse().take(tmp@.len() as int) =~= tmp@.reverse());
    }
}

/// Whether the bytes of `lit` stand at position `i` of `b`.
pub open spec fn lit_at(b: Seq<u8>, i: int, lit: Seq<u8>) -> bool {
    i + lit.len() <= b.len() && b.subrange(i, i + lit.len()) == lit
}

/// Consumes the exact bytes of `lit` at position `i`, if they stand there.
pub fn expect_lit(b: &Vec<u8>, i: usize, lit: &Vec<u8>) -> (r: Option<usize>)
    requires
        i <= b@.len(),
    ensures
        match r {
            Some(j) => j == i + lit@.len() && j <= b@.len() && lit_at(b@, i as int, lit@),
            None => !lit_at(b@, i as int, lit@),
        },
{
    if b.len() - i < lit.len() {
        return None;
    }
    let mut k: usize = 0;
    while k < lit.len()
        invariant
            k <= lit@.len(),
            i + lit@.len() <= b@.len(),
            b@.len() <= usize::MAX,
            forall|t: int| 0 <= t < k ==> b@[i + t] == lit@[t],
        decreases lit.len() - k,
    {
        if b[i + k] != lit[k] {
            proof {
                assert(b@.subrange(i as int, i + lit@.len()) != lit@) by {
                    assert(b@.subrange(i as int, i + lit@.len())[k as int] != lit@[k as int]);
                }
            }
            return None;
        }
        k = k + 1;
    }
    proof {
        assert(b@.subrange(i as int, i + lit@.len()) =~= lit@);
    }
    Some(i + lit.len())
}

/// Compares two byte strings for equality.
pub fn bytes_eq(a: &Vec<u8>, b: &Vec<u8>) -> (r: bool)
    ensures
        r <==> a@ == b@,
{
    if a.len() != b.len() {
        proof {
            assert(a@.len() != b@.len());
        }
        return false;
    }
    let mut i: usize = 0;
    while i < a.len()
        invariant
            i <= a@.len(),
            a@.len() == b@.len(),
            forall|t: int| 0 <= t < i ==> a@[t] == b@[t],
        decreases a.len() - i,
    {
        if a[i] != b[i] {
            return false;
        }
        i = i + 1;
    }
    proof {
        assert(a@ =~= b@);
    }
    true
}

/// Decides strict lexicographic order on byte strings.
pub fn lex_lt_exec(a: &Vec<u8>, b: &Vec<u8>) -> (r: bool)
    ensures
        r == lex_lt(a@, b@),
{
    let mut i: usize = 0;
    proof {
        assert(a@.skip(0) =~= a@);
        assert(b@.skip(0) =~= b@);
    }
    loop
        invariant
            i <= a@.len(),
            i <= b@.len(),
            lex_lt(a@, b@) == lex_lt(a@.skip(i as int), b@.skip(i as int)),
            decreases a@.len() - i,
    {
        if i == b.len() {
            proof {
                assert(b@.skip(i as int).len() == 0);
            }
            return false;
        }
        if i == a.len() {
            proof {
                assert(a@.skip(i as int).len() == 0 && b@.skip(i as int).len() > 0);
            }
            return true;
        }
        if a[i] != b[i] {
            proof {
                assert(a@.skip(i as int)[0] == a@[i as int]);
                assert(b@.skip(i as int)[0] == b@[i as int]);
            }
            return a[i] < b[i];
        }
        proof {
            assert(a@.skip(i as int)[0] == a@[i as int]);
            assert(b@.skip(i as int)[0] == b@[i as int]);
            assert(a@.skip(i as int).drop_first() =~= a@.skip(i + 1));
            assert(b@.skip(i as int).drop_first() =~= b@.skip(i + 1));
        }
        i = i + 1;
    }
}

/// Parses a canonical quoted string at position `i`: the returned raw bytes
/// re-encode to exactly the consumed region.
pub fn parse_quoted(b: &Vec<u8>, i: usize) -> (r: Option<(Vec<u8>, usize)>)
    requires
        i <= b@.len(),
    ensures
        match r {
            Some(p) => i < p.1 <= b@.len() && b@.subrange(i as int, p.1 as int) == quoted(p.0@),
            None => true,
        },
{
    if i >= b.len() || b[i] != 34 {
        return None;
    }
    let mut s: Vec<u8> = Vec::new();
    let mut k: usize = i + 1;
    proof {
        assert(b@.subrange(i + 1, i + 1) =~= esc(s@));
    }
    loop
        invariant
            i + 1 <= k <= b@.len(),
            b@[i as int] == 34,
            b@.subrange(i + 1, k as int) == esc(s@),
            decreases b@.len() - k,
    {
        if k >= b.len() {
            return None;
        }
        let c = b[k];
        let ghost s0 = s@;
        let ghost k0 = k as int;
        if c == 34 {
            proof {
                assert(b@.subrange(i as int, k + 1) =~= quoted(s@));
            }
            return Some((s, k + 1));
        } else if c == 92 {
            if k + 1 >= b.len() {
                return None;
            }
            let e = b[k + 1];
            if e == 34 {
                s.push(34);
                k = k + 2;
            } else if e == 92 {
                s.push(92);
                k = k + 2;
            } else if e == 117 {
                if b.len() - k < 6 {
                    return None;
                }
                if b[k + 2] != 48 || b[k + 3] != 48 {
                    return None;
                }
                let hi = match hex_val_pub(b[k + 4]) {
                    Some(n) => n,
                    None => {
                        return None;
                    },
                };
                let lo = match hex_val_pub(b[k + 5]) {
                    Some(n) => n,
                    None => {
                        return None;
                    },
                };
                let v = hi * 16 + lo;
                if v >= 32 {
                    return None;
                }
                proof {
                    assert(v / 16 == hi && v % 16 == lo) by (nonlinear_arith)
                        requires
                            hi < 16,
                            lo < 16,
                            v == hi * 16 + lo,
                    ;
                }
                s.push(v);
                k = k + 6;
            } else {
                return None;
            }
        } else if c < 32 {
            return None;
        } else {
            s.push(c);
            k = k + 1;
        }
        proof {
            lemma_esc_push(s0, s@.last());
            assert(s@ =~= s0.push(s@.last()));
            assert(b@.subrange(i + 1, k as int) =~= b@.subrange(i + 1, k0) + b@.subrange(
                k0,
                k as int,
            ));
            assert(b@.subrange(k0, k as int) =~= esc_char(s@.last()));
            assert(b@.subrange(i + 1, k as int) =~= esc(s@));
        }
    }
}

/// The numeric value of a lowercase hex digit, if `c` is one.
pub fn hex_val_pub(c: u8) -> (r: Option<u8>)
    ensures
        match r {
            Some(n) => n < 16 && hex_digit(n) == c && is_hex_char(c),
            None => !is_hex_char(c),
        },
{
    if 48 <= c && c <= 57 {
        Some(c - 48)
    } else if 97 <= c && c <= 102 {
        Some(c - 87)
    } else {
        None
    }
}

proof fn lemma_dec_of_step(v: nat, d: nat)
    requires
        v > 0,
        d < 10,
    ensures
        dec_of(v * 10 + d) == dec_of(v) + seq![(48 + d) as u8],
{
    assert(v * 10 + d >= 10) by (nonlinear_arith)
        requires
            v > 0,
            d < 10,
    ;
    assert((v * 10 + d) / 10 == v && (v * 10 + d) % 10 == d) by (nonlinear_arith)
        requires
            v > 0,
            d < 10,
    ;
}

/// Parses a shortest-decimal integer at position `i`. The consumed region is
/// exactly the canonical rendering of the returned value.
pub fn parse_dec(b: &Vec<u8>, i: usize) -> (r: Option<(u64, usize)>)
    requires
        i <= b@.len(),
    ensures
        match r {
            Some(p) => i < p.1 <= b@.len() && b@.subrange(i as int, p.1 as int) == dec_of(
                p.0 as nat,
            ),
            None => true,
        },
{
    if i >= b.len() {
        return None;
    }
    let c0 = b[i];
    if c0 == 48 {
        proof {
            assert(b@.subrange(i as int, i + 1) =~= dec_of(0));
        }
        return Some((0, i + 1));
    }
    if !(49 <= c0 && c0 <= 57) {
        return None;
    }
    let mut v: u64 = (c0 - 48) as u64;
    let mut k: usize = i + 1;
    proof {
        assert(b@.subrange(i as int, i + 1) =~= dec_of(v as nat));
    }
    loop
        invariant
            i < k <= b@.len(),
            v > 0,
            b@.subrange(i as int, k as int) == dec_of(v as nat),
            decreases b@.len() - k,
    {
        if k >= b.len() {
            return Some((v, k));
        }
        let c = b[k];
        if !(48 <= c && c <= 57) {
            return Some((v, k));
        }
        let d = (c - 48) as u64;
        if v > (u64::MAX - d) / 10 {
            return None;
        }
        proof {
            assert(v * 10 + d <= u64::MAX) by (nonlinear_arith)
                requires
                    d < 10,
                    v <= (u64::MAX - d) / 10,
            ;
            lemma_dec_of_step(v as nat, d as nat);
            assert(b@.subrange(i as int, k + 1) =~= b@.subrange(i as int, k as int) + seq![
                b@[k as int],
            ]);
        }
        v = v * 10 + d;
        k = k + 1;
    }
}

/// Parses `true` or `false` at position `i`.
pub fn parse_bool(b: &Vec<u8>, i: usize) -> (r: Option<(bool, usize)>)
    requires
        i <= b@.len(),
    ensures
        match r {
            Some(p) => i < p.1 <= b@.len() && b@.subrange(i as int, p.1 as int) == (
            if p.0 {
                crate::lits::s_true_word()
            } else {
                crate::lits::s_false_word()
            }),
            None => true,
        },
{
    let t = crate::lits::v_true_word();
    match expect_lit(b, i, &t) {
        Some(j) => Some((true, j)),
        None => {
            let f = crate::lits::v_false_word();
            match expect_lit(b, i, &f) {
                Some(j) => Some((false, j)),
                None => None,
            }
        },
    }
}

} // verus!
