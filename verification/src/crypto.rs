//! Cryptographic primitives behind trusted wrappers: SHA-256, HMAC-SHA-256,
//! the CSPRNG and modular exponentiation, together with the big-endian
//! number model the Diffie-Hellman contracts are stated over.

use crate::errors::SrdError;
use hmac::{Hmac, Mac};
use num_bigint::BigUint;
use rand::RngCore;
use sha2::Digest;
use vstd::arithmetic::div_mod::*;
use vstd::arithmetic::mul::{lemma_mul_inequality, lemma_mul_is_commutative};
use vstd::arithmetic::power::*;
use vstd::calc_macro::*;
use vstd::prelude::*;

verus! {

/// The natural number denoted by a big-endian byte string.
pub open spec fn be_nat(s: Seq<u8>) -> nat
    decreases s.len(),
{
    if s.len() == 0 {
        0
    } else {
        ((s[0] as int) * pow(256, (s.len() - 1) as nat) + be_nat(s.drop_first())) as nat
    }
}

/// A minimal big-endian encoding: nonempty, and without a leading zero
/// unless it encodes zero itself.
pub open spec fn min_be(s: Seq<u8>) -> bool {
    s.len() >= 1 && (s.len() == 1 || s[0] != 0)
}

/// `pow(256, _)` is positive.
pub proof fn lemma_pow256_pos(e: nat)
    ensures
        pow(256, e) >= 1,
{
    lemma_pow_positive(256, e);
}

/// Every big-endian byte string denotes less than `256^len`.
pub proof fn lemma_be_nat_bound(s: Seq<u8>)
    ensures
        be_nat(s) < pow(256, s.len()),
    decreases s.len(),
{
    if s.len() == 0 {
        lemma_pow0(256);
    } else {
        lemma_be_nat_bound(s.drop_first());
        lemma_pow256_pos((s.len() - 1) as nat);
        assert(pow(256, s.len()) == 256 * pow(256, (s.len() - 1) as nat)) by {
            lemma_pow_adds(256, 1, (s.len() - 1) as nat);
            lemma_pow1(256);
        }
        assert((s[0] as nat) * pow(256, (s.len() - 1) as nat) <= 255 * pow(256, (s.len() - 1) as nat))
            by {
            lemma_mul_inequality(s[0] as int, 255, pow(256, (s.len() - 1) as nat));
        }
    }
}

/// A string with a nonzero leading byte denotes at least `256^(len-1)`.
pub proof fn lemma_be_nat_lower(s: Seq<u8>)
    requires
        s.len() >= 1,
        s[0] != 0,
    ensures
        be_nat(s) >= pow(256, (s.len() - 1) as nat),
{
    lemma_pow256_pos((s.len() - 1) as nat);
    assert((s[0] as nat) * pow(256, (s.len() - 1) as nat) >= 1 * pow(256, (s.len() - 1) as nat))
        by {
        lemma_mul_inequality(1, s[0] as int, pow(256, (s.len() - 1) as nat));
    }
}

/// Prepending zero bytes does not change the denoted number.
pub proof fn lemma_be_nat_zero_extend(zeros: Seq<u8>, s: Seq<u8>)
    requires
        forall|i: int| 0 <= i < zeros.len() ==> zeros[i] == 0u8,
    ensures
        be_nat(zeros + s) == be_nat(s),
    decreases zeros.len(),
{
    if zeros.len() == 0 {
        assert(zeros + s =~= s);
    } else {
        let t = zeros + s;
        assert(t[0] == 0u8);
        assert(t.drop_first() =~= zeros.drop_first() + s);
        lemma_be_nat_zero_extend(zeros.drop_first(), s);
    }
}

/// A minimal encoding of a number below the number denoted by `m` is no
/// longer than `m` itself.
pub proof fn lemma_min_be_len_le(r: Seq<u8>, m: Seq<u8>)
    requires
        min_be(r),
        m.len() >= 1,
        be_nat(r) < be_nat(m),
    ensures
        r.len() <= m.len(),
{
    if r.len() > m.len() {
        // Then r.len() >= 2, so its leading byte is nonzero.
        lemma_be_nat_lower(r);
        lemma_be_nat_bound(m);
        lemma_pow_increases(256, m.len(), (r.len() - 1) as nat);
        assert(false);
    }
}

/// `base^exp mod m` over the naturals.
pub open spec fn pow_mod(base: nat, exp: nat, m: nat) -> nat {
    (pow(base as int, exp) % (m as int)) as nat
}

/// What an outside SHA-256 computation returns for a given input; the value
/// is pinned only through the wrapper below.
pub uninterp spec fn sha256_of(data: Seq<u8>) -> Seq<u8>;

/// What an outside HMAC-SHA-256 computation returns for a given key and
/// message.
pub uninterp spec fn hmac_sha256_of(key: Seq<u8>, data: Seq<u8>) -> Seq<u8>;

/// Relies on sha2's `Sha256::digest`: a 32-byte digest depending on the
/// input bytes alone.
#[verifier::external_body]
pub fn sha256(data: &[u8]) -> (r: Vec<u8>)
    ensures
        r@ == sha256_of(data@),
        r@.len() == 32,
{
    sha2::Sha256::digest(data).to_vec()
}

/// Relies on hmac's `Hmac::<Sha256>`: a 32-byte tag depending on the key
/// and message bytes alone.  `new_from_slice` accepts keys of any length.
#[verifier::external_body]
pub fn hmac_sha256(key: &[u8], data: &[u8]) -> (r: Vec<u8>)
    ensures
        r@ == hmac_sha256_of(key@, data@),
        r@.len() == 32,
{
    let mut mac = <Hmac<sha2::Sha256> as Mac>::new_from_slice(key)
        .expect("HMAC accepts keys of any length");
    mac.update(data);
    mac.finalize().into_bytes().to_vec()
}

/// Relies on hmac's `Mac::verify_slice`, which compares in constant time:
/// it accepts exactly the tag that `hmac_sha256` computes.
#[verifier::external_body]
pub fn hmac_sha256_verify(key: &[u8], data: &[u8], tag: &[u8]) -> (r: bool)
    ensures
        r == (tag@ == hmac_sha256_of(key@, data@)),
{
    let mut mac = <Hmac<sha2::Sha256> as Mac>::new_from_slice(key)
        .expect("HMAC accepts keys of any length");
    mac.update(data);
    mac.verify_slice(tag).is_ok()
}

/// Relies on rand's `OsRng::try_fill_bytes`: it overwrites the buffer with
/// bytes from the operating system's CSPRNG.  Nothing is promised of the
/// values; the length is unchanged either way.
#[verifier::external_body]
pub fn fill_random(data: &mut Vec<u8>) -> (r: Result<(), SrdError>)
    ensures
        final(data)@.len() == old(data)@.len(),
        r is Err ==> r->Err_0 is Rng,
{
    match rand::rngs::OsRng.try_fill_bytes(data.as_mut_slice()) {
        Ok(()) => Ok(()),
        Err(_) => Err(SrdError::Rng),
    }
}

/// `n` fresh random bytes.
pub fn random_bytes(n: usize) -> (r: Result<Vec<u8>, SrdError>)
    ensures
        r is Ok ==> r->Ok_0@.len() == n,
        r is Err ==> r->Err_0 is Rng,
{
    let mut buf: Vec<u8> = Vec::new();
    let mut i: usize = 0;
    while i < n
        invariant
            buf@.len() == i,
            i <= n,
        decreases n - i,
    {
        buf.push(0u8);
        i = i + 1;
    }
    match fill_random(&mut buf) {
        Ok(()) => Ok(buf),
        Err(e) => Err(e),
    }
}

/// Relies on num-bigint's `BigUint`: `from_bytes_be` reads a big-endian
/// number, `modpow` computes `base^exp mod modulus` (and panics only on a
/// zero modulus, excluded here), and `to_bytes_be` writes the minimal
/// big-endian encoding, `[0]` for zero.
#[verifier::external_body]
pub fn modpow_bytes(base: &[u8], exp: &[u8], modulus: &[u8]) -> (r: Vec<u8>)
    requires
        be_nat(modulus@) > 0,
    ensures
        be_nat(r@) == pow(be_nat(base@) as int, be_nat(exp@)) % (be_nat(modulus@) as int),
        be_nat(r@) < be_nat(modulus@),
        min_be(r@),
{
    let b = BigUint::from_bytes_be(base);
    let e = BigUint::from_bytes_be(exp);
    let m = BigUint::from_bytes_be(modulus);
    b.modpow(&e, &m).to_bytes_be()
}

/// The big-endian digits of `n`, most significant first; empty for zero.
pub open spec fn be_digits(n: nat) -> Seq<u8>
    decreases n,
{
    if n == 0 {
        Seq::<u8>::empty()
    } else {
        be_digits(n / 256).push((n % 256) as u8)
    }
}

/// The minimal big-endian encoding of `n`: its digits, or `[0]` for zero.
pub open spec fn be_enc(n: nat) -> Seq<u8> {
    if n == 0 {
        seq![0u8]
    } else {
        be_digits(n)
    }
}

/// The digit string denotes `n` and has no leading zero.
proof fn lemma_be_digits_ok(n: nat)
    requires
        n > 0,
    ensures
        be_digits(n).len() >= 1,
        be_nat(be_digits(n)) == n,
        be_digits(n)[0] != 0,
    decreases n,
{
    lemma_fundamental_div_mod(n as int, 256);
    lemma_mod_bound(n as int, 256);
    if n / 256 == 0 {
        assert(n % 256 == n);
        assert(be_digits(0nat) =~= Seq::<u8>::empty());
        assert(be_digits(n) =~= seq![(n % 256) as u8]);
        assert(be_digits(n).drop_first() =~= Seq::<u8>::empty());
        assert(be_nat(be_digits(n).drop_first()) == 0);
        lemma_pow0(256);
        assert(be_nat(seq![(n % 256) as u8]) == ((n % 256) as u8 as int * pow(256, 0nat)
            + 0) as nat);
        assert(be_nat(be_digits(n)) == n);
    } else {
        lemma_be_digits_ok(n / 256);
        let d = be_digits(n / 256);
        let s = be_digits(n);
        assert(s =~= d.push((n % 256) as u8));
        assert(s.drop_last() =~= d);
        lemma_be_nat_push(d, (n % 256) as u8);
        assert(be_nat(s) == be_nat(d) * 256 + n % 256);
        assert(be_nat(d) == n / 256);
        vstd::arithmetic::mul::lemma_mul_is_commutative(n as int / 256, 256);
        assert((n / 256) * 256 + n % 256 == n);
        assert(s[0] == d[0]);
    }
}

/// Appending a digit multiplies the value by 256 and adds the digit.
proof fn lemma_be_nat_push(s: Seq<u8>, x: u8)
    ensures
        be_nat(s.push(x)) == be_nat(s) * 256 + x,
    decreases s.len(),
{
    let t = s.push(x);
    if s.len() == 0 {
        assert(t =~= seq![x]);
        assert(t.drop_first() =~= Seq::<u8>::empty());
        assert(be_nat(Seq::<u8>::empty()) == 0);
        lemma_pow0(256);
        assert(be_nat(t) == (x as int * pow(256, 0nat) + 0) as nat);
    } else {
        assert(t[0] == s[0]);
        assert(t.drop_first() =~= s.drop_first().push(x));
        lemma_be_nat_push(s.drop_first(), x);
        lemma_pow256_pos((s.len() - 1) as nat);
        assert(pow(256, (t.len() - 1) as nat) == 256 * pow(256, (s.len() - 1) as nat)) by {
            assert((t.len() - 1) as nat == 1 + (s.len() - 1) as nat);
            lemma_pow_adds(256, 1, (s.len() - 1) as nat);
            lemma_pow1(256);
            assert(pow(256, 1 + (s.len() - 1) as nat) == pow(256, 1) * pow(
                256,
                (s.len() - 1) as nat,
            ));
        }
        assert((s[0] as int) * (256 * pow(256, (s.len() - 1) as nat)) == ((s[0] as int) * pow(
            256,
            (s.len() - 1) as nat,
        )) * 256) by {
            vstd::arithmetic::mul::lemma_mul_is_commutative(256, pow(256, (s.len() - 1) as nat));
            vstd::arithmetic::mul::lemma_mul_is_associative(
                s[0] as int,
                pow(256, (s.len() - 1) as nat),
                256,
            );
        }
        vstd::arithmetic::mul::lemma_mul_is_distributive_add_other_way(
            256,
            (s[0] as int) * pow(256, (s.len() - 1) as nat),
            be_nat(s.drop_first()) as int,
        );
    }
}

/// `be_enc` is the unique minimal encoding of its value.
pub proof fn lemma_be_enc_ok(n: nat)
    ensures
        be_nat(be_enc(n)) == n,
        min_be(be_enc(n)),
{
    if n == 0 {
        assert(be_enc(0) =~= seq![0u8]);
        assert(be_enc(0nat).drop_first() =~= Seq::<u8>::empty());
        assert(be_nat(Seq::<u8>::empty()) == 0);
        lemma_pow0(256);
        assert(be_nat(be_enc(0nat)) == (0u8 as int * pow(256, 0nat) + 0) as nat);
    } else {
        lemma_be_digits_ok(n);
    }
}

/// Any minimal encoding of `n` is `be_enc(n)`.
pub proof fn lemma_min_be_is_enc(s: Seq<u8>)
    requires
        min_be(s),
    ensures
        s == be_enc(be_nat(s)),
{
    lemma_be_enc_ok(be_nat(s));
    lemma_min_be_injective(s, be_enc(be_nat(s)));
}

/// The two modular exponentiations of a Diffie-Hellman exchange commute:
/// raising `g^a` to `b` and `g^b` to `a` give the same residue.
pub proof fn lemma_dh_commutes(g: nat, a: nat, b: nat, m: nat)
    requires
        m > 0,
    ensures
        pow((pow(g as int, a) % (m as int)) as nat as int, b) % (m as int) == pow(
            (pow(g as int, b) % (m as int)) as nat as int,
            a,
        ) % (m as int),
{
    let gi = g as int;
    let mi = m as int;
    lemma_mod_bound(pow(gi, a), mi);
    lemma_mod_bound(pow(gi, b), mi);
    assert((pow(gi, a) % mi) as nat as int == pow(gi, a) % mi);
    assert((pow(gi, b) % mi) as nat as int == pow(gi, b) % mi);
    calc! {
        (==)
        pow(pow(gi, a) % mi, b) % mi; {
            lemma_pow_mod_noop(pow(gi, a), b, mi);
        }
        pow(pow(gi, a), b) % mi; {
            lemma_pow_multiplies(gi, a, b);
        }
        pow(gi, a * b) % mi; {
            lemma_mul_is_commutative(a as int, b as int);
        }
        pow(gi, b * a) % mi; {
            lemma_pow_multiplies(gi, b, a);
        }
        pow(pow(gi, b), a) % mi; {
            lemma_pow_mod_noop(pow(gi, b), a, mi);
        }
        pow(pow(gi, b) % mi, a) % mi;
    }
}


/// A big-endian string denotes zero exactly when every byte is zero.
pub proof fn lemma_be_nat_zero_iff(s: Seq<u8>)
    ensures
        (be_nat(s) == 0) <==> (forall|i: int| 0 <= i < s.len() ==> s[i] == 0u8),
    decreases s.len(),
{
    if s.len() > 0 {
        lemma_be_nat_zero_iff(s.drop_first());
        lemma_pow256_pos((s.len() - 1) as nat);
        if s[0] != 0 {
            lemma_mul_inequality(1, s[0] as int, pow(256, (s.len() - 1) as nat));
        }
        if be_nat(s) == 0 {
            assert forall|i: int| 0 <= i < s.len() implies s[i] == 0u8 by {
                if i > 0 {
                    assert(s.drop_first()[i - 1] == s[i]);
                }
            }
        } else {
            if forall|i: int| 0 <= i < s.len() ==> s[i] == 0u8 {
                assert(s.drop_first() =~= s.subrange(1, s.len() as int));
                assert(forall|i: int|
                    0 <= i < s.drop_first().len() ==> s.drop_first()[i] == 0u8);
            }
        }
    }
}

/// Whether any byte of the slice is nonzero, i.e. the number it denotes
/// is positive.
pub fn has_nonzero_byte(b: &[u8]) -> (r: bool)
    ensures
        r == (be_nat(b@) > 0),
{
    let n = b.len();
    let mut i: usize = 0;
    let mut found = false;
    while i < n
        invariant
            i <= n,
            n == b@.len(),
            found == exists|j: int| 0 <= j < i && b@[j] != 0u8,
        decreases n - i,
    {
        if *vstd::slice::slice_index_get(b, i) != 0u8 {
            found = true;
        }
        i = i + 1;
    }
    proof {
        lemma_be_nat_zero_iff(b@);
    }
    found
}

/// Equal-length big-endian strings denoting the same number are equal.
pub proof fn lemma_be_nat_eq_len(s1: Seq<u8>, s2: Seq<u8>)
    requires
        s1.len() == s2.len(),
        be_nat(s1) == be_nat(s2),
    ensures
        s1 == s2,
    decreases s1.len(),
{
    if s1.len() == 0 {
        assert(s1 =~= s2);
    } else {
        let p = pow(256, (s1.len() - 1) as nat);
        lemma_pow256_pos((s1.len() - 1) as nat);
        lemma_be_nat_bound(s1.drop_first());
        lemma_be_nat_bound(s2.drop_first());
        // The leading digit and the remainder are determined by the value.
        let v = be_nat(s1) as int;
        assert(be_nat(s1) == ((s1[0] as int) * pow(256, (s1.len() - 1) as nat) + be_nat(
            s1.drop_first(),
        )) as nat);
        assert(be_nat(s2) == ((s2[0] as int) * pow(256, (s2.len() - 1) as nat) + be_nat(
            s2.drop_first(),
        )) as nat);
        assert(v == (s1[0] as int) * p + be_nat(s1.drop_first()));
        assert(v == (s2[0] as int) * p + be_nat(s2.drop_first()));
        lemma_fundamental_div_mod_converse(v, p, s1[0] as int, be_nat(s1.drop_first()) as int);
        lemma_fundamental_div_mod_converse(v, p, s2[0] as int, be_nat(s2.drop_first()) as int);
        assert(s1[0] == s2[0]);
        lemma_be_nat_eq_len(s1.drop_first(), s2.drop_first());
        assert forall|i: int| 0 <= i < s1.len() implies s1[i] == s2[i] by {
            if i > 0 {
                assert(s1.drop_first()[i - 1] == s1[i]);
                assert(s2.drop_first()[i - 1] == s2[i]);
            }
        }
        assert(s1 =~= s2);
    }
}

/// Minimal big-endian encodings of the same number are equal.
pub proof fn lemma_min_be_injective(s1: Seq<u8>, s2: Seq<u8>)
    requires
        min_be(s1),
        min_be(s2),
        be_nat(s1) == be_nat(s2),
    ensures
        s1 == s2,
{
    if s1.len() < s2.len() {
        lemma_be_nat_lower(s2);
        lemma_be_nat_bound(s1);
        lemma_pow_increases(256, s1.len(), (s2.len() - 1) as nat);
        assert(false);
    }
    if s2.len() < s1.len() {
        lemma_be_nat_lower(s1);
        lemma_be_nat_bound(s2);
        lemma_pow_increases(256, s2.len(), (s1.len() - 1) as nat);
        assert(false);
    }
    lemma_be_nat_eq_len(s1, s2);
}

/// The two sides of a Diffie-Hellman exchange, each raising the peer's
/// public value to its own private exponent, derive the same shared
/// secret bytes.
pub proof fn lemma_shared_secret_agreement(
    s1: Seq<u8>,
    s2: Seq<u8>,
    g: nat,
    p: nat,
    a: nat,
    b: nat,
)
    requires
        p > 0,
        min_be(s1),
        min_be(s2),
        be_nat(s1) == pow((pow(g as int, b) % (p as int)) as nat as int, a) % (p as int),
        be_nat(s2) == pow((pow(g as int, a) % (p as int)) as nat as int, b) % (p as int),
    ensures
        s1 == s2,
{
    lemma_dh_commutes(g, a, b, p);
    lemma_min_be_injective(s1, s2);
}

} // verus!
