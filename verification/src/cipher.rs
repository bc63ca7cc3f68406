//! The finite-field ElGamal primitive: group parameters, key pairs,
//! encryption, decryption and homomorphic multiplication.
//!
//! Every operation is verified against a direct mathematical statement over
//! the values of its big integers; only the modular arithmetic itself comes
//! from curv, through the trusted wrappers of `crate::bigint`.

use vstd::prelude::*;
use vstd::arithmetic::power::pow;
use vstd::arithmetic::power::lemma_pow0;
use vstd::arithmetic::power::lemma_pow1;
use vstd::arithmetic::power::lemma_pow_adds;
use vstd::arithmetic::power::lemma_pow_multiplies;
use vstd::arithmetic::power::lemma_pow_mod_noop;
use vstd::arithmetic::div_mod::lemma_mul_mod_noop_general;
use vstd::arithmetic::div_mod::lemma_small_mod;
use curv::BigInt;
use curv::arithmetic::Converter;
use crate::bigint::big_eq;
use crate::bigint::big_from_u64;
use crate::bigint::big_lt;
use crate::bigint::big_value;
use crate::bigint::invertible;
use crate::bigint::mod_inv;
use crate::bigint::mod_mul;
use crate::bigint::mod_pow;
use crate::bigint::pow_mod;
use crate::bigint::sample_below;

verus! {

/// A finite-field discrete-log group: modulus `p`, subgroup order `q`,
/// generator `g`.  Identical across all participants of one run.
#[derive(Clone, Debug, PartialEq)]
pub struct GroupParams {
    pub p: BigInt,
    pub q: BigInt,
    pub g: BigInt,
}

/// Mathematical view of `GroupParams`.
pub struct GroupView {
    pub p: int,
    pub q: int,
    pub g: int,
}

impl View for GroupParams {
    type V = GroupView;

    open spec fn view(&self) -> GroupView {
        GroupView { p: big_value(self.p), q: big_value(self.q), g: big_value(self.g) }
    }
}

/// The public half of a key pair: `h = g^x mod p`.
#[derive(Clone, Debug, PartialEq)]
pub struct PublicKey {
    pub pp: GroupParams,
    pub h: BigInt,
}

/// Mathematical view of `PublicKey`.
pub struct PublicKeyView {
    pub pp: GroupView,
    pub h: int,
}

impl View for PublicKey {
    type V = PublicKeyView;

    open spec fn view(&self) -> PublicKeyView {
        PublicKeyView { pp: self.pp@, h: big_value(self.h) }
    }
}

/// The private half of a key pair: the secret exponent `x`.
pub struct PrivateKey {
    pub pp: GroupParams,
    pub x: BigInt,
}

/// Mathematical view of `PrivateKey`.
pub struct PrivateKeyView {
    pub pp: GroupView,
    pub x: int,
}

impl View for PrivateKey {
    type V = PrivateKeyView;

    open spec fn view(&self) -> PrivateKeyView {
        PrivateKeyView { pp: self.pp@, x: big_value(self.x) }
    }
}

/// One participant's key material.
pub struct KeyPair {
    pub pk: PublicKey,
    pub sk: PrivateKey,
}

/// Mathematical view of `KeyPair`.
pub struct KeyPairView {
    pub pk: PublicKeyView,
    pub sk: PrivateKeyView,
}

impl View for KeyPair {
    type V = KeyPairView;

    open spec fn view(&self) -> KeyPairView {
        KeyPairView { pk: self.pk@, sk: self.sk@ }
    }
}

/// An ElGamal ciphertext `(c1, c2)` under some group parameters.
#[derive(Clone, Debug, PartialEq)]
pub struct Ciphertext {
    pub c1: BigInt,
    pub c2: BigInt,
    pub pp: GroupParams,
}

/// Mathematical view of `Ciphertext`.
pub struct CiphertextView {
    pub c1: int,
    pub c2: int,
    pub pp: GroupView,
}

impl View for Ciphertext {
    type V = CiphertextView;

    open spec fn view(&self) -> CiphertextView {
        CiphertextView { c1: big_value(self.c1), c2: big_value(self.c2), pp: self.pp@ }
    }
}

/// Failures of the encryption primitive.
#[derive(Copy, Clone, PartialEq, Eq, Debug)]
pub enum CipherError {
    /// Two values disclose different group parameters.
    MismatchedParameters,
    /// A message or ciphertext component lies outside `[0, p)`.
    OutOfField,
    /// The ciphertext's masking component has no inverse modulo `p`.
    NotInvertible,
}

/// A modulus all of whose nonzero residues are invertible: the working form
/// of the modulus being prime.
pub open spec fn field_modulus(p: int) -> bool {
    &&& p >= 3
    &&& forall|a: int| 0 < a < p ==> invertible(a, p)
}

/// Well-formed group parameters.
pub open spec fn group_wf(gv: GroupView) -> bool {
    &&& field_modulus(gv.p)
    &&& 2 <= gv.g < gv.p
    &&& 1 <= gv.q < gv.p
}

/// Well-formed public key: its component is a residue of the group.
pub open spec fn pk_wf(kv: PublicKeyView) -> bool {
    &&& group_wf(kv.pp)
    &&& 0 <= kv.h < kv.pp.p
}

/// Well-formed private key.
pub open spec fn sk_wf(kv: PrivateKeyView) -> bool {
    &&& group_wf(kv.pp)
    &&& 0 <= kv.x
}

/// Well-formed key pair: both halves share the group, the exponent is drawn
/// below the subgroup order, and the public component is `g^x mod p`.
pub open spec fn keypair_wf(kv: KeyPairView) -> bool {
    &&& pk_wf(kv.pk)
    &&& sk_wf(kv.sk)
    &&& kv.pk.pp == kv.sk.pp
    &&& kv.sk.x < kv.sk.pp.q
    &&& kv.pk.h == pow_mod(kv.pk.pp.g, kv.sk.x, kv.pk.pp.p)
}

/// The ElGamal decryption relation: `v` is the value that `(c1, c2)`
/// decrypts to under the private exponent `x` modulo `p`, through some
/// inverse of `c1^x`.
pub open spec fn decrypts_to(c1: int, c2: int, x: int, p: int, v: int) -> bool {
    exists|u: int|
        0 <= u < p && #[trigger] ((pow_mod(c1, x, p) * u) % p) == 1 && v == (c2 * u) % p
}

impl GroupParams {
    /// An owned copy of the parameters.
    pub fn duplicate(&self) -> (r: GroupParams)
        ensures
            r@ == self@,
    {
        GroupParams { p: self.p.clone(), q: self.q.clone(), g: self.g.clone() }
    }

    /// Whether two parameter sets describe the same group.
    pub fn same_group(&self, other: &GroupParams) -> (r: bool)
        ensures
            r == (self@ == other@),
    {
        big_eq(&self.p, &other.p) && big_eq(&self.q, &other.q) && big_eq(&self.g, &other.g)
    }
}

impl PublicKey {
    /// An owned copy of the key.
    pub fn duplicate(&self) -> (r: PublicKey)
        ensures
            r@ == self@,
    {
        PublicKey { pp: self.pp.duplicate(), h: self.h.clone() }
    }
}

/// The RFC 7919 ffdhe2048 modulus.
pub open spec fn rfc7919_2048_modulus() -> int {
    0xFFFFFFFFFFFFFFFFADF85458A2BB4A9AAFDC5620273D3CF1D8B9C583CE2D3695A9E13641146433FBCC939DCE249B3EF97D2FE363630C75D8F681B202AEC4617AD3DF1ED5D5FD65612433F51F5F066ED0856365553DED1AF3B557135E7F57C935984F0C70E0E68B77E2A689DAF3EFE8721DF158A136ADE73530ACCA4F483A797ABC0AB182B324FB61D108A94BB2C8E3FBB96ADAB760D7F4681D4F42A3DE394DF4AE56EDE76372BB190B07A7C8EE0A6D709E02FCE1CDF7E2ECC03404CD28342F619172FE9CE98583FF8E4F1232EEF28183C3FE3B1B4C6FAD733BB5FCBC2EC22005C58EF1837D1683B2C6F34A26C1B2EFFA886B423861285C97FFFFFFFFFFFFFFFFint
}

/// The protocol's fixed group, identical for every participant of a run:
/// the ffdhe2048 modulus, generator 2, and subgroup order `(p - 1) / 2`.
pub open spec fn rfc7919_2048_view() -> GroupView {
    GroupView {
        p: rfc7919_2048_modulus(),
        q: (rfc7919_2048_modulus() - 1) / 2,
        g: 2,
    }
}

/// Relies on curv's integer parsing and arithmetic to build the RFC 7919
/// ffdhe2048 group: the 2048-bit modulus `p` (a safe prime, so every residue
/// in `(0, p)` is invertible modulo `p`), generator `g = 2`, and subgroup
/// order `q = (p - 1) / 2`.  The hex digits parsed here are the digits of
/// `rfc7919_2048_modulus`.
#[verifier::external_body]
pub fn rfc7919_2048_group() -> (r: GroupParams)
    ensures
        group_wf(r@),
        r@ == rfc7919_2048_view(),
{
    let p = BigInt::from_str_radix(
        "FFFFFFFFFFFFFFFFADF85458A2BB4A9AAFDC5620273D3CF1D8B9C583CE2D3695A9E13641146433FBCC939DCE249B3EF97D2FE363630C75D8F681B202AEC4617AD3DF1ED5D5FD65612433F51F5F066ED0856365553DED1AF3B557135E7F57C935984F0C70E0E68B77E2A689DAF3EFE8721DF158A136ADE73530ACCA4F483A797ABC0AB182B324FB61D108A94BB2C8E3FBB96ADAB760D7F4681D4F42A3DE394DF4AE56EDE76372BB190B07A7C8EE0A6D709E02FCE1CDF7E2ECC03404CD28342F619172FE9CE98583FF8E4F1232EEF28183C3FE3B1B4C6FAD733BB5FCBC2EC22005C58EF1837D1683B2C6F34A26C1B2EFFA886B423861285C97FFFFFFFFFFFFFFFF",
        16,
    ).unwrap();
    let q = (&p - BigInt::from(1u64)) / BigInt::from(2u64);
    let g = BigInt::from(2u64);
    GroupParams { p, q, g }
}

/// A fresh key pair under the given group: a secret exponent drawn below the
/// subgroup order and its public component `g^x mod p`.
pub fn generate_keypair(pp: &GroupParams) -> (r: KeyPair)
    requires
        group_wf(pp@),
    ensures
        keypair_wf(r@),
        r@.pk.pp == pp@,
{
    let x = sample_below(&pp.q);
    let h = mod_pow(&pp.g, &x, &pp.p);
    let pk = PublicKey { pp: pp.duplicate(), h };
    let sk = PrivateKey { pp: pp.duplicate(), x };
    KeyPair { pk, sk }
}

/// ElGamal encryption of `m` under `pk`: draws a fresh exponent `y` below
/// `q` and returns `(g^y mod p, m * h^y mod p)`.  Rejects a message outside
/// the field.
pub fn encrypt(m: &BigInt, pk: &PublicKey) -> (r: Result<Ciphertext, CipherError>)
    requires
        pk_wf(pk@),
    ensures
        r is Ok <==> 0 <= big_value(*m) < pk@.pp.p,
        r matches Ok(ct) ==> ct@.pp == pk@.pp && exists|y: int|
            0 <= y < pk@.pp.q && ct@.c1 == pow_mod(pk@.pp.g, y, pk@.pp.p) && ct@.c2 == (big_value(
                *m,
            ) * pow_mod(pk@.h, y, pk@.pp.p)) % pk@.pp.p,
        r matches Err(e) ==> e == CipherError::OutOfField,
{
    let zero = big_from_u64(0);
    if big_lt(m, &zero) || !big_lt(m, &pk.pp.p) {
        return Err(CipherError::OutOfField);
    }
    let y = sample_below(&pk.pp.q);
    let c1 = mod_pow(&pk.pp.g, &y, &pk.pp.p);
    let hy = mod_pow(&pk.h, &y, &pk.pp.p);
    let c2 = mod_mul(m, &hy, &pk.pp.p);
    let ct = Ciphertext { c1, c2, pp: pk.pp.duplicate() };
    proof {
        assert(0 <= big_value(y) < pk@.pp.q && ct@.c1 == pow_mod(pk@.pp.g, big_value(y), pk@.pp.p)
            && ct@.c2 == (big_value(*m) * pow_mod(pk@.h, big_value(y), pk@.pp.p)) % pk@.pp.p);
    }
    Ok(ct)
}

/// ElGamal decryption: recovers `c2 / c1^x` modulo `p`.  Fails on mismatched
/// parameters, on a component outside the field, and on a masking component
/// with no inverse.
pub fn decrypt(ct: &Ciphertext, sk: &PrivateKey) -> (r: Result<BigInt, CipherError>)
    requires
        sk_wf(sk@),
    ensures
        r is Ok <==> ct@.pp == sk@.pp && 0 <= ct@.c1 < sk@.pp.p && 0 <= ct@.c2 < sk@.pp.p
            && invertible(pow_mod(ct@.c1, sk@.x, sk@.pp.p), sk@.pp.p),
        r matches Ok(v) ==> decrypts_to(ct@.c1, ct@.c2, sk@.x, sk@.pp.p, big_value(v)) && 0
            <= big_value(v) < sk@.pp.p,
        r matches Err(e) ==> e == (if ct@.pp != sk@.pp {
            CipherError::MismatchedParameters
        } else if !(0 <= ct@.c1 < sk@.pp.p && 0 <= ct@.c2 < sk@.pp.p) {
            CipherError::OutOfField
        } else {
            CipherError::NotInvertible
        }),
{
    if !ct.pp.same_group(&sk.pp) {
        return Err(CipherError::MismatchedParameters);
    }
    let zero = big_from_u64(0);
    if big_lt(&ct.c1, &zero) || !big_lt(&ct.c1, &sk.pp.p) || big_lt(&ct.c2, &zero) || !big_lt(
        &ct.c2,
        &sk.pp.p,
    ) {
        return Err(CipherError::OutOfField);
    }
    let s = mod_pow(&ct.c1, &sk.x, &sk.pp.p);
    match mod_inv(&s, &sk.pp.p) {
        None => Err(CipherError::NotInvertible),
        Some(u) => {
            let v = mod_mul(&ct.c2, &u, &sk.pp.p);
            proof {
                assert(0 <= big_value(u) < sk@.pp.p && (pow_mod(ct@.c1, sk@.x, sk@.pp.p)
                    * big_value(u)) % sk@.pp.p == 1 && big_value(v) == (ct@.c2 * big_value(u))
                    % sk@.pp.p);
            }
            Ok(v)
        },
    }
}

/// Homomorphic combination: the component-wise product of two ciphertexts,
/// which encrypts the product of their plaintexts.
pub fn multiply(a: &Ciphertext, b: &Ciphertext) -> (r: Result<Ciphertext, CipherError>)
    requires
        group_wf(a@.pp),
    ensures
        r is Ok <==> a@.pp == b@.pp,
        r matches Ok(ct) ==> ct@.pp == a@.pp && ct@.c1 == (a@.c1 * b@.c1) % a@.pp.p && ct@.c2 == (
        a@.c2 * b@.c2) % a@.pp.p,
        r matches Err(e) ==> e == CipherError::MismatchedParameters,
{
    if !a.pp.same_group(&b.pp) {
        return Err(CipherError::MismatchedParameters);
    }
    let c1 = mod_mul(&a.c1, &b.c1, &a.pp.p);
    let c2 = mod_mul(&a.c2, &b.c2, &a.pp.p);
    Ok(Ciphertext { c1, c2, pp: a.pp.duplicate() })
}

/// The decryption relation is a partial function: a ciphertext decrypts to
/// at most one value, whichever inverse of the mask witnesses it.
pub proof fn lemma_decrypts_to_unique(c1: int, c2: int, x: int, p: int, v1: int, v2: int)
    requires
        p >= 2,
        decrypts_to(c1, c2, x, p, v1),
        decrypts_to(c1, c2, x, p, v2),
    ensures
        v1 == v2,
{
    let s = pow_mod(c1, x, p);
    let u1 = choose|u: int| 0 <= u < p && #[trigger] ((s * u) % p) == 1 && v1 == (c2 * u) % p;
    let u2 = choose|u: int| 0 <= u < p && #[trigger] ((s * u) % p) == 1 && v2 == (c2 * u) % p;
    lemma_mul_mod_noop_general(c2 * u1, s * u2, p);
    lemma_mul_mod_noop_general(c2 * u2, s * u1, p);
    assert((c2 * u1) * (s * u2) == (c2 * u2) * (s * u1)) by (nonlinear_arith);
    lemma_small_mod(v1 as nat, p as nat);
    lemma_small_mod(v2 as nat, p as nat);
    assert(v1 == (((c2 * u1) % p) * ((s * u2) % p)) % p);
    assert(v2 == (((c2 * u2) % p) * ((s * u1) % p)) % p);
}

/// A field modulus has no zero divisors: the product of two nonzero
/// residues is again nonzero modulo `p`.
proof fn lemma_no_zero_divisors(a: int, b: int, p: int)
    requires
        field_modulus(p),
        0 < a < p,
        0 < b < p,
    ensures
        (a * b) % p != 0,
{
    assert(invertible(a, p));
    let w = choose|u: int| 0 <= u < p && #[trigger] ((a * u) % p) == 1;
    if (a * b) % p == 0 {
        lemma_small_mod(b as nat, p as nat);
        assert(b * ((a * w) % p) == b);
        lemma_mul_mod_noop_general(b, a * w, p);
        assert((b * (a * w)) % p == (b % p) % p);
        assert(b * (a * w) == (a * b) * w) by (nonlinear_arith);
        lemma_mul_mod_noop_general(a * b, w, p);
        assert(((a * b) * w) % p == (((a * b) % p) * w) % p);
        assert((((a * b) % p) * w) % p == (0 * w) % p);
        assert(0 * w == 0) by (nonlinear_arith);
        lemma_small_mod(0, p as nat);
        assert(b % p == 0);
        assert(false);
    }
}

/// A nonzero residue raised to any power stays nonzero modulo a field
/// modulus.
pub proof fn lemma_pow_mod_nonzero(b: int, e: nat, p: int)
    requires
        field_modulus(p),
        0 < b < p,
    ensures
        0 < pow(b, e) % p < p,
    decreases e,
{
    if e == 0 {
        lemma_pow0(b);
        lemma_small_mod(1, p as nat);
    } else {
        lemma_pow_mod_nonzero(b, (e - 1) as nat, p);
        let r = pow(b, (e - 1) as nat) % p;
        lemma_pow_adds(b, 1, (e - 1) as nat);
        lemma_pow1(b);
        assert(pow(b, e) == b * pow(b, (e - 1) as nat));
        lemma_mul_mod_noop_general(b, pow(b, (e - 1) as nat), p);
        assert((b * r) % p == pow(b, e) % p);
        lemma_no_zero_divisors(b, r, p);
        lemma_small_mod(b as nat, p as nat);
        assert((b * r) % p != 0);
    }
}

/// The heart of the round trip: a ciphertext of the shape `encrypt`
/// produces — mask `g^yy` and body `m * (g^x)^yy` — has an invertible mask
/// under `x` and decrypts under `x` exactly to `m`.
pub proof fn lemma_mask_decrypts(p: int, g: int, x: int, yy: int, m: int)
    requires
        field_modulus(p),
        0 < g < p,
        0 <= x,
        0 <= yy,
        0 <= m < p,
    ensures
        invertible(pow_mod(pow_mod(g, yy, p), x, p), p),
        decrypts_to(
            pow_mod(g, yy, p),
            (m * pow_mod(pow_mod(g, x, p), yy, p)) % p,
            x,
            p,
            m,
        ),
{
    let xn = x as nat;
    let yn = yy as nat;
    let c1 = pow_mod(g, yy, p);
    let s = pow_mod(c1, x, p);
    lemma_pow_mod_noop(pow(g, yn), xn, p);
    lemma_pow_multiplies(g, yn, xn);
    assert(s == pow(g, yn * xn) % p);
    let hmask = pow_mod(pow_mod(g, x, p), yy, p);
    lemma_pow_mod_noop(pow(g, xn), yn, p);
    lemma_pow_multiplies(g, xn, yn);
    assert(hmask == pow(g, xn * yn) % p);
    assert(xn * yn == yn * xn) by (nonlinear_arith);
    assert(hmask == s);
    lemma_pow_mod_nonzero(g, (yn * xn) as nat, p);
    assert(0 < s < p);
    assert(invertible(s, p));
    let u = choose|u: int| 0 <= u < p && #[trigger] ((s * u) % p) == 1;
    assert((s * u) % p == 1);
    let c2 = (m * hmask) % p;
    assert(c2 == (m * s) % p);
    lemma_mul_mod_noop_general(m * s, u, p);
    assert((c2 * u) % p == ((m * s) * u) % p);
    assert((m * s) * u == m * (s * u)) by (nonlinear_arith);
    assert((c2 * u) % p == (m * (s * u)) % p);
    lemma_mul_mod_noop_general(m, s * u, p);
    assert((m * (s * u)) % p == (m * ((s * u) % p)) % p);
    assert((m * ((s * u) % p)) % p == (m * 1) % p);
    lemma_small_mod(m as nat, p as nat);
    assert((m * 1) % p == m);
    assert((c2 * u) % p == m);
    assert(0 <= u < p && (pow_mod(c1, x, p) * u) % p == 1 && m == (c2 * u) % p);
}

/// Round-trip law: under a well-formed key pair, a ciphertext built the way
/// `encrypt` builds one for a message `m` in the field — with any exponent
/// `y` — has an invertible mask and decrypts under the private exponent
/// exactly to `m`.
pub proof fn lemma_round_trip(kv: KeyPairView, y: int, m: int)
    requires
        keypair_wf(kv),
        0 <= y,
        0 <= m < kv.pk.pp.p,
    ensures
        invertible(
            pow_mod(pow_mod(kv.pk.pp.g, y, kv.pk.pp.p), kv.sk.x, kv.pk.pp.p),
            kv.pk.pp.p,
        ),
        decrypts_to(
            pow_mod(kv.pk.pp.g, y, kv.pk.pp.p),
            (m * pow_mod(kv.pk.h, y, kv.pk.pp.p)) % kv.pk.pp.p,
            kv.sk.x,
            kv.pk.pp.p,
            m,
        ),
{
    lemma_mask_decrypts(kv.pk.pp.p, kv.pk.pp.g, kv.sk.x, y, m);
}

/// Homomorphic-multiplication law: the component-wise product of two
/// ciphertexts of messages `m1` and `m2` under one well-formed key pair —
/// the ciphertext `multiply` returns for two outputs of `encrypt` — has an
/// invertible mask and decrypts under the private exponent to
/// `m1 * m2 mod p`.
pub proof fn lemma_homomorphic_multiply(kv: KeyPairView, y1: int, y2: int, m1: int, m2: int)
    requires
        keypair_wf(kv),
        0 <= y1,
        0 <= y2,
        0 <= m1 < kv.pk.pp.p,
        0 <= m2 < kv.pk.pp.p,
    ensures
        ({
            let p = kv.pk.pp.p;
            let g = kv.pk.pp.g;
            let h = kv.pk.h;
            let d1 = (pow_mod(g, y1, p) * pow_mod(g, y2, p)) % p;
            let d2 = (((m1 * pow_mod(h, y1, p)) % p) * ((m2 * pow_mod(h, y2, p)) % p)) % p;
            invertible(pow_mod(d1, kv.sk.x, p), p) && decrypts_to(
                d1,
                d2,
                kv.sk.x,
                p,
                (m1 * m2) % p,
            )
        }),
{
    let p = kv.pk.pp.p;
    let g = kv.pk.pp.g;
    let h = kv.pk.h;
    let x = kv.sk.x;
    let y1n = y1 as nat;
    let y2n = y2 as nat;
    let d1 = (pow_mod(g, y1, p) * pow_mod(g, y2, p)) % p;
    let a2 = pow_mod(h, y1, p);
    let b2 = pow_mod(h, y2, p);
    let d2 = (((m1 * a2) % p) * ((m2 * b2) % p)) % p;

    // d1 is the mask for the combined exponent y1 + y2.
    lemma_mul_mod_noop_general(pow(g, y1n), pow(g, y2n), p);
    lemma_pow_adds(g, y1n, y2n);
    assert(d1 == pow_mod(g, y1 + y2, p));

    // The combined body is (m1 * m2 mod p) times the combined h-mask.
    lemma_mul_mod_noop_general(m1 * a2, m2 * b2, p);
    assert(d2 == ((m1 * a2) * (m2 * b2)) % p);
    assert((m1 * a2) * (m2 * b2) == (m1 * m2) * (a2 * b2)) by (nonlinear_arith);
    lemma_mul_mod_noop_general(m1 * m2, a2 * b2, p);
    assert(d2 == ((m1 * m2) * ((a2 * b2) % p)) % p);
    lemma_mul_mod_noop_general(pow(h, y1n), pow(h, y2n), p);
    lemma_pow_adds(h, y1n, y2n);
    assert((a2 * b2) % p == pow_mod(h, y1 + y2, p));
    lemma_mul_mod_noop_general(m1 * m2, pow_mod(h, y1 + y2, p), p);
    assert(d2 == (((m1 * m2) % p) * pow_mod(h, y1 + y2, p)) % p);

    // The combined ciphertext has the canonical shape for message
    // m1 * m2 mod p and exponent y1 + y2.
    let mm = (m1 * m2) % p;
    lemma_mask_decrypts(p, g, x, y1 + y2, mm);
    lemma_mul_mod_noop_general(mm, pow_mod(h, y1 + y2, p), p);
    assert((mm * pow_mod(h, y1 + y2, p)) % p == d2);
}

} // verus!

