//! The assignment protocol: participants, the shared assignment ledger, its
//! blind-shuffle rounds and the trial-decryption lookup.

use vstd::prelude::*;
use vstd::arithmetic::power::pow;
use vstd::arithmetic::power::lemma_pow_multiplies;
use vstd::arithmetic::power::lemma_pow_mod_noop;
use vstd::arithmetic::div_mod::lemma_mul_mod_noop_general;
use vstd::arithmetic::div_mod::lemma_small_mod;
use rand::seq::SliceRandom;
use curv::BigInt;
use crate::bigint::big_eq;
use crate::bigint::big_from_u64;
use crate::bigint::big_value;
use crate::bigint::invertible;
use crate::bigint::mod_pow;
use crate::bigint::pow_mod;
use crate::bigint::sample_below;
use crate::cipher::decrypt;
use crate::cipher::decrypts_to;
use crate::cipher::generate_keypair;
use crate::cipher::group_wf;
use crate::cipher::keypair_wf;
use crate::cipher::lemma_decrypts_to_unique;
use crate::cipher::lemma_pow_mod_nonzero;
use crate::cipher::rfc7919_2048_group;
use crate::cipher::rfc7919_2048_view;
use crate::cipher::CipherError;
use crate::cipher::Ciphertext;
use crate::cipher::GroupParams;
use crate::cipher::GroupView;
use crate::cipher::KeyPair;
use crate::cipher::KeyPairView;
use crate::cipher::PublicKey;
use crate::cipher::PublicKeyView;

verus! {

/// Failures of the assignment protocol.
#[derive(Copy, PartialEq, Eq, Clone, Debug)]
pub enum AppError {
    /// No ledger slot decrypted to the sentinel after a full scan.
    NoGifteeFound,
    /// The ledger was initialized from an empty public-key sequence.
    EmptyPublicKeys,
    /// Two public keys disclose different group parameters.
    MismatchedGroupParameters,
    /// A slot's trial decryption failed; carries the primitive's error,
    /// propagated unchanged.
    DecryptionFailed(CipherError),
}

/// One participant: an owned key pair, with the public half disclosed.
pub struct Player {
    pub pub_key: PublicKey,
    pub key_pair: KeyPair,
}

/// The shared assignment ledger: one field element per participant plus the
/// running blinding base.
pub struct PrivateList {
    pub private_list: Vec<BigInt>,
    pub pp: GroupParams,
    pub g_s: BigInt,
}

/// Mathematical view of the ledger.
pub struct LedgerView {
    pub entries: Seq<int>,
    pub base: int,
    pub pp: GroupView,
}

impl View for PrivateList {
    type V = LedgerView;

    open spec fn view(&self) -> LedgerView {
        LedgerView {
            entries: self.private_list@.map_values(|b: BigInt| big_value(b)),
            base: big_value(self.g_s),
            pp: self.pp@,
        }
    }
}

/// Well-formed ledger: a valid group, at least one entry, and a blinding
/// base that is a nonzero residue of the group.
pub open spec fn ledger_wf(lv: LedgerView) -> bool {
    &&& group_wf(lv.pp)
    &&& lv.entries.len() >= 1
    &&& 0 < lv.base < lv.pp.p
}

/// The ledger a fresh initialization from `keys` produces: each key's
/// public component in input order, the generator as blinding base.
pub open spec fn initialized_from(lv: LedgerView, keys: Seq<PublicKeyView>) -> bool {
    &&& keys.len() > 0
    &&& lv.entries.len() == keys.len()
    &&& forall|i: int| 0 <= i < keys.len() ==> lv.entries[i] == #[trigger] keys[i].h
    &&& lv.pp == keys[0].pp
    &&& lv.base == keys[0].pp.g
}

/// `perm` lists each index below `n` exactly once.
pub open spec fn is_index_permutation(perm: Seq<int>, n: nat) -> bool {
    &&& perm.len() == n
    &&& forall|i: int| 0 <= i < n ==> 0 <= #[trigger] perm[i] < n
    &&& forall|i: int, j: int| 0 <= i < j < n ==> perm[i] != perm[j]
}

/// One shuffle round with the given exponent and permutation: the base is
/// raised to `s` and every entry is raised to `s` and moved to its permuted
/// slot.
pub open spec fn shuffle_step(post: LedgerView, pre: LedgerView, s: int, perm: Seq<int>) -> bool {
    &&& 0 <= s < pre.pp.q
    &&& is_index_permutation(perm, pre.entries.len())
    &&& post.base == pow_mod(pre.base, s, pre.pp.p)
    &&& forall|i: int|
        0 <= i < pre.entries.len() ==> post.entries[i] == pow_mod(
            #[trigger] pre.entries[perm[i]],
            s,
            pre.pp.p,
        )
}

/// One shuffle round: for some fresh exponent `s` below `q` and some
/// permutation of the slots, the base is raised to `s` and every entry is
/// raised to `s` and moved to its permuted slot.  Neither is retained.
pub open spec fn shuffled_from(post: LedgerView, pre: LedgerView) -> bool {
    &&& post.pp == pre.pp
    &&& post.entries.len() == pre.entries.len()
    &&& exists|s: int, perm: Seq<int>| #[trigger] shuffle_step(post, pre, s, perm)
}

/// Slot `i`'s trial decryption succeeds under the private exponent `x`:
/// the entry is a field element and the ledger's mask is invertible.
pub open spec fn trial_ok(lv: LedgerView, x: int, i: int) -> bool {
    &&& 0 <= lv.entries[i] < lv.pp.p
    &&& invertible(pow_mod(lv.base, x, lv.pp.p), lv.pp.p)
}

/// The error a failing trial decryption of slot `i` reports, in the
/// primitive's own terms: an entry outside the field, otherwise a mask
/// with no inverse.
pub open spec fn trial_error(lv: LedgerView, x: int, i: int) -> CipherError {
    if !(0 <= lv.entries[i] < lv.pp.p) {
        CipherError::OutOfField
    } else {
        CipherError::NotInvertible
    }
}

/// Slot `i` of the ledger decrypts to the sentinel 1 under the private
/// exponent `x`: the trial ciphertext built from the blinding base and the
/// entry is well formed, its mask is invertible, and it decrypts to 1.
pub open spec fn slot_hits(lv: LedgerView, x: int, i: int) -> bool {
    &&& trial_ok(lv, x, i)
    &&& decrypts_to(lv.base, lv.entries[i], x, lv.pp.p, 1)
}

/// Relies on rand's `SliceRandom::shuffle` with `thread_rng`: the elements
/// are reordered by some permutation, chosen at random and discarded.
#[verifier::external_body]
fn shuffle_in_place(v: &mut Vec<BigInt>)
    ensures
        final(v)@.len() == old(v)@.len(),
        exists|perm: Seq<int>|
            is_index_permutation(perm, old(v)@.len()) && forall|i: int|
                0 <= i < old(v)@.len() ==> big_value(final(v)@[i]) == big_value(
                    #[trigger] old(v)@[perm[i]],
                ),
{
    let mut rng = rand::thread_rng();
    v.shuffle(&mut rng);
}

/// The capability interface of one participant: generate keys, disclose the
/// public one, and search the final ledger for one's own slot.
pub trait PlayerTrait: Sized {
    /// Whether the participant's key material is well formed.
    spec fn wf(&self) -> bool;

    /// The participant's key pair, as values.
    spec fn key_view(&self) -> KeyPairView;

    /// A fresh participant under the protocol's fixed group parameters:
    /// the RFC 7919 ffdhe2048 group, identical for every participant.
    fn init() -> (r: Self)
        ensures
            r.wf(),
            keypair_wf(r.key_view()),
            r.key_view().pk.pp == rfc7919_2048_view(),
    ;

    /// A fresh participant under the given group parameters.
    fn new(pp: &GroupParams) -> (r: Self)
        requires
            group_wf(pp@),
        ensures
            r.wf(),
            keypair_wf(r.key_view()),
            r.key_view().pk.pp == pp@,
    ;

    /// The participant's key pair.
    fn get_key_pair(&self) -> (r: &KeyPair)
        ensures
            r@ == self.key_view(),
    ;

    /// Scans the ledger for the slot that decrypts to the sentinel under
    /// this participant's key and returns its 1-based index — the last such
    /// slot if several decrypt to it — or `NoGifteeFound` if none does.
    /// A slot whose trial decryption fails stops the scan, and the
    /// primitive's error is propagated unchanged inside
    /// `DecryptionFailed`.
    fn find_giftee(&self, private_list: &PrivateList) -> (r: Result<usize, AppError>)
        requires
            self.wf(),
            ledger_wf(private_list@),
            self.key_view().pk.pp == private_list@.pp,
        ensures
            match r {
                Ok(idx) => {
                    &&& forall|j: int|
                        0 <= j < private_list@.entries.len() ==> trial_ok(
                            private_list@,
                            self.key_view().sk.x,
                            j,
                        )
                    &&& 1 <= idx <= private_list@.entries.len()
                    &&& slot_hits(private_list@, self.key_view().sk.x, idx - 1)
                    &&& forall|j: int|
                        idx <= j < private_list@.entries.len() ==> !slot_hits(
                            private_list@,
                            self.key_view().sk.x,
                            j,
                        )
                },
                Err(AppError::NoGifteeFound) => {
                    &&& forall|j: int|
                        0 <= j < private_list@.entries.len() ==> trial_ok(
                            private_list@,
                            self.key_view().sk.x,
                            j,
                        )
                    &&& forall|j: int|
                        0 <= j < private_list@.entries.len() ==> !slot_hits(
                            private_list@,
                            self.key_view().sk.x,
                            j,
                        )
                },
                Err(AppError::DecryptionFailed(e)) => exists|k: int|
                    {
                        &&& 0 <= k < private_list@.entries.len()
                        &&& e == #[trigger] trial_error(private_list@, self.key_view().sk.x, k)
                        &&& !trial_ok(private_list@, self.key_view().sk.x, k)
                        &&& forall|j: int|
                            0 <= j < k ==> trial_ok(private_list@, self.key_view().sk.x, j)
                    },
                Err(_) => false,
            },
    ;
}

impl PlayerTrait for Player {
    open spec fn wf(&self) -> bool {
        &&& keypair_wf(self.key_pair@)
        &&& self.pub_key@ == self.key_pair@.pk
    }

    open spec fn key_view(&self) -> KeyPairView {
        self.key_pair@
    }

    fn init() -> (r: Self) {
        let pp = rfc7919_2048_group();
        Player::new(&pp)
    }

    fn new(pp: &GroupParams) -> (r: Self) {
        let key_pair = generate_keypair(pp);
        let pub_key = key_pair.pk.duplicate();
        Player { pub_key, key_pair }
    }

    fn get_key_pair(&self) -> (r: &KeyPair) {
        &self.key_pair
    }

    fn find_giftee(&self, private_list: &PrivateList) -> (r: Result<usize, AppError>) {
        let ghost lv = private_list@;
        let ghost x = self.key_view().sk.x;
        let l = private_list.private_list.len();
        let one = big_from_u64(1);
        let mut found: Option<usize> = None;
        let mut i: usize = 0;
        while i < l
            invariant
                self.wf(),
                ledger_wf(lv),
                self.key_view().pk.pp == lv.pp,
                lv == private_list@,
                x == self.key_view().sk.x,
                l == lv.entries.len(),
                big_value(one) == 1,
                i <= l,
                forall|j: int| 0 <= j < i ==> trial_ok(lv, x, j),
                match found {
                    Some(k) => k < i && slot_hits(lv, x, k as int) && forall|j: int|
                        k < j < i ==> !slot_hits(lv, x, j),
                    None => forall|j: int| 0 <= j < i ==> !slot_hits(lv, x, j),
                },
            decreases l - i,
        {
            let candidate_ct = Ciphertext {
                c1: private_list.g_s.clone(),
                c2: private_list.private_list[i].clone(),
                pp: private_list.pp.duplicate(),
            };
            match decrypt(&candidate_ct, &self.key_pair.sk) {
                Ok(v) => {
                    if big_eq(&v, &one) {
                        found = Some(i);
                    } else {
                        proof {
                            if slot_hits(lv, x, i as int) {
                                lemma_decrypts_to_unique(
                                    lv.base,
                                    lv.entries[i as int],
                                    x,
                                    lv.pp.p,
                                    big_value(v),
                                    1,
                                );
                            }
                        }
                    }
                },
                Err(e) => {
                    proof {
                        assert(!trial_ok(lv, x, i as int));
                        assert(e == trial_error(lv, x, i as int));
                        assert(forall|j: int| 0 <= j < i as int ==> trial_ok(lv, x, j));
                    }
                    return Err(AppError::DecryptionFailed(e));
                },
            }
            i += 1;
        }
        match found {
            Some(k) => Ok(k + 1),
            None => Err(AppError::NoGifteeFound),
        }
    }
}

impl PrivateList {
    /// Builds the ledger from the participants' public keys: each key's
    /// public component in input order, the group generator as blinding
    /// base.  Fails on an empty sequence and on keys that disclose
    /// different group parameters, before any ledger is produced.
    pub fn init(pub_keys: &[PublicKey]) -> (r: Result<PrivateList, AppError>)
        ensures
            r is Ok <==> pub_keys@.len() > 0 && forall|i: int|
                0 <= i < pub_keys@.len() ==> #[trigger] pub_keys@[i]@.pp == pub_keys@[0]@.pp,
            r matches Ok(list) ==> initialized_from(
                list@,
                pub_keys@.map_values(|k: PublicKey| k@),
            ),
            crate::cipher::pk_wf(pub_keys@[0]@) ==> (r matches Ok(list) ==> ledger_wf(list@)),
            r matches Err(e) ==> e == (if pub_keys@.len() == 0 {
                AppError::EmptyPublicKeys
            } else {
                AppError::MismatchedGroupParameters
            }),
    {
        let ghost keys = pub_keys@.map_values(|k: PublicKey| k@);
        if pub_keys.len() == 0 {
            return Err(AppError::EmptyPublicKeys);
        }
        let pp = pub_keys[0].pp.duplicate();
        let mut entries: Vec<BigInt> = Vec::new();
        let mut i: usize = 0;
        while i < pub_keys.len()
            invariant
                keys == pub_keys@.map_values(|k: PublicKey| k@),
                keys.len() == pub_keys@.len() > 0,
                i <= keys.len(),
                pp@ == keys[0].pp,
                entries@.len() == i,
                forall|j: int| 0 <= j < i ==> big_value(#[trigger] entries@[j]) == keys[j].h,
                forall|j: int| 0 <= j < i ==> #[trigger] keys[j].pp == keys[0].pp,
            decreases pub_keys@.len() - i,
        {
            if !pp.same_group(&pub_keys[i].pp) {
                proof {
                    assert(keys[i as int] == pub_keys@[i as int]@);
                    assert(keys[0] == pub_keys@[0]@);
                    assert(pub_keys@[i as int]@.pp != pub_keys@[0]@.pp);
                }
                return Err(AppError::MismatchedGroupParameters);
            }
            entries.push(pub_keys[i].h.clone());
            i += 1;
        }
        let g_s = pub_keys[0].pp.g.clone();
        let list = PrivateList::new(entries, &pp, g_s);
        proof {
            assert forall|j: int|
                0 <= j < pub_keys@.len() implies #[trigger] pub_keys@[j]@.pp
                == pub_keys@[0]@.pp by {
                assert(keys[j] == pub_keys@[j]@);
                assert(keys[0] == pub_keys@[0]@);
            }
            assert forall|j: int|
                0 <= j < keys.len() implies list@.entries[j] == #[trigger] keys[j].h by {
                assert(big_value(entries@[j]) == keys[j].h);
            }
        }
        Ok(list)
    }

    /// Packs the parts of a ledger.
    fn new(private_list: Vec<BigInt>, pp: &GroupParams, g_s: BigInt) -> (r: PrivateList)
        ensures
            r@.entries == private_list@.map_values(|b: BigInt| big_value(b)),
            r@.pp == pp@,
            r@.base == big_value(g_s),
    {
        PrivateList { private_list, pp: pp.duplicate(), g_s }
    }

    /// One shuffle round by `player`: draws a fresh secret exponent below
    /// `q`, raises the blinding base and every entry to it modulo `p`, and
    /// applies a random permutation to the entries.  The exponent and the
    /// permutation are discarded.
    pub fn secure_shuffle(&mut self, player: &Player)
        requires
            ledger_wf(old(self)@),
            player.wf(),
            player.key_view().pk.pp == old(self)@.pp,
        ensures
            ledger_wf(final(self)@),
            shuffled_from(final(self)@, old(self)@),
    {
        let ghost pre = old(self)@;
        let l = self.private_list.len();
        let mut pl_shuffled: Vec<BigInt> = Vec::new();
        let mut i: usize = 0;
        while i < l
            invariant
                l == self.private_list@.len(),
                self@ == pre,
                i <= l,
                pl_shuffled@.len() == i,
                forall|j: int|
                    0 <= j < i ==> big_value(#[trigger] pl_shuffled@[j]) == pre.entries[j],
            decreases l - i,
        {
            pl_shuffled.push(self.private_list[i].clone());
            i += 1;
        }
        let ghost before = pl_shuffled@;
        shuffle_in_place(&mut pl_shuffled);
        let ghost perm = choose|perm: Seq<int>|
            is_index_permutation(perm, before.len()) && forall|j: int|
                0 <= j < before.len() ==> big_value(pl_shuffled@[j]) == big_value(
                    #[trigger] before[perm[j]],
                );
        let s = sample_below(&self.pp.q);
        self.g_s = mod_pow(&self.g_s, &s, &player.pub_key.pp.p);
        let mut rotated: Vec<BigInt> = Vec::new();
        let mut i: usize = 0;
        while i < l
            invariant
                ledger_wf(pre),
                player.wf(),
                player.key_view().pk.pp == pre.pp,
                0 <= big_value(s) < pre.pp.q,
                l == pl_shuffled@.len(),
                i <= l,
                rotated@.len() == i,
                forall|j: int|
                    0 <= j < i ==> big_value(#[trigger] rotated@[j]) == pow_mod(
                        big_value(pl_shuffled@[j]),
                        big_value(s),
                        pre.pp.p,
                    ),
            decreases l - i,
        {
            rotated.push(mod_pow(&pl_shuffled[i], &s, &player.pub_key.pp.p));
            i += 1;
        }
        self.private_list = rotated;
        proof {
            assert forall|j: int| 0 <= j < l implies self@.entries[j] == pow_mod(
                pre.entries[perm[j]],
                big_value(s),
                pre.pp.p,
            ) by {
                assert(big_value(pl_shuffled@[j]) == big_value(before[perm[j]]));
                assert(big_value(before[perm[j]]) == pre.entries[perm[j]]);
            }
            assert(shuffle_step(self@, pre, big_value(s), perm));
            lemma_pow_mod_nonzero(pre.base, big_value(s) as nat, pre.pp.p);
        }
    }
}

/// A shuffle round preserves a participant's hit: a slot that decrypted to
/// the sentinel under `x` before the round still decrypts to it at its
/// permuted position afterwards, whatever exponent and permutation the
/// round drew.  Re-randomization keeps each participant's own slot
/// findable.
pub proof fn lemma_shuffle_preserves_hits(
    pre: LedgerView,
    post: LedgerView,
    s: int,
    perm: Seq<int>,
    x: int,
    i: int,
)
    requires
        ledger_wf(pre),
        shuffle_step(post, pre, s, perm),
        post.pp == pre.pp,
        post.entries.len() == pre.entries.len(),
        0 <= x,
        0 <= i < pre.entries.len(),
        slot_hits(pre, x, perm[i]),
    ensures
        slot_hits(post, x, i),
{
    let p = pre.pp.p;
    let e = pre.entries[perm[i]];
    let mask = pow_mod(pre.base, x, p);

    // The pre-round hit pins the entry: it equals the decryption mask.
    assert(decrypts_to(pre.base, e, x, p, 1));
    let u = choose|u: int|
        0 <= u < p && #[trigger] ((pow_mod(pre.base, x, p) * u) % p) == 1 && 1 == (e * u) % p;
    assert((mask * u) % p == 1 && 1 == (e * u) % p);
    lemma_small_mod(e as nat, p as nat);
    assert(e == (e * ((mask * u) % p)) % p);
    lemma_mul_mod_noop_general(e, mask * u, p);
    assert((e * ((mask * u) % p)) % p == (e * (mask * u)) % p);
    assert(e * (mask * u) == mask * (e * u)) by (nonlinear_arith);
    assert((e * (mask * u)) % p == (mask * (e * u)) % p);
    lemma_mul_mod_noop_general(mask, e * u, p);
    assert((mask * ((e * u) % p)) % p == (mask * (e * u)) % p);
    lemma_small_mod(mask as nat, p as nat);
    assert(mask == (mask * ((e * u) % p)) % p);
    assert(e == mask);

    // Base and entry were raised to the same exponent, so the new entry is
    // again the new decryption mask.
    let sn = s as nat;
    let xn = x as nat;
    assert(post.entries[i] == pow_mod(e, s, p));
    lemma_pow_mod_noop(pow(pre.base, xn), sn, p);
    lemma_pow_multiplies(pre.base, xn, sn);
    assert(post.entries[i] == pow(pre.base, xn * sn) % p);
    lemma_pow_mod_noop(pow(pre.base, sn), xn, p);
    lemma_pow_multiplies(pre.base, sn, xn);
    assert(pow_mod(post.base, x, p) == pow(pre.base, sn * xn) % p);
    assert(xn * sn == sn * xn) by (nonlinear_arith);
    assert(pow_mod(post.base, x, p) == post.entries[i]);

    // A power of the nonzero base is nonzero, hence invertible, and any
    // inverse of the mask witnesses that the slot decrypts to 1.
    lemma_pow_mod_nonzero(pre.base, sn * xn, p);
    assert(invertible(pow_mod(post.base, x, p), p));
    let w = choose|w: int|
        0 <= w < p && #[trigger] ((pow_mod(post.base, x, p) * w) % p) == 1;
    assert(1 == (post.entries[i] * w) % p);
}

/// Initializing the ledger twice from the same public-key sequence, with no
/// shuffle in between, yields identical entries and blinding base.
pub proof fn lemma_initialize_idempotent(l1: LedgerView, l2: LedgerView, keys: Seq<PublicKeyView>)
    requires
        initialized_from(l1, keys),
        initialized_from(l2, keys),
    ensures
        l1 == l2,
{
    assert forall|i: int| 0 <= i < l1.entries.len() implies l1.entries[i] == l2.entries[i] by {
        assert(l1.entries[i] == keys[i].h);
        assert(l2.entries[i] == keys[i].h);
    }
    assert(l1.entries =~= l2.entries);
}

} // verus!

