//! Properties that relate several engine calls.
use vstd::prelude::*;
use vstd::arithmetic::power::pow;
use vstd::utf8::{encode_utf8, encode_utf8_decode_utf8};
use crate::bignat::{le_bytes, lemma_le_bytes_len, lemma_le_bytes_value};
use crate::vdf::{VDFInput, VDFOutput, is_output_of, same_descriptor, seed_message, seed_of,
    squarings, output_value, proof_value, wesolowski_holds, iterations_for, seconds_for,
    modulus_value, lemma_modulus_bounds, ITERATIONS_PER_SECOND};

verus! {

/// Determinism: two evaluations of one descriptor with one number of
/// squarings give the same result and the same proof.
pub proof fn lemma_compute_deterministic(d: VDFInput, t: u64, o1: VDFOutput, o2: VDFOutput)
    requires
        is_output_of(o1, d, t),
        is_output_of(o2, d, t),
    ensures
        o1.output@ == o2.output@,
        o1.proof@ == o2.proof@,
{
}

proof fn lemma_split_equal(a1: Seq<u8>, b1: Seq<u8>, a2: Seq<u8>, b2: Seq<u8>)
    requires
        a1 + b1 == a2 + b2,
        b1.len() == b2.len(),
    ensures
        a1 == a2,
        b1 == b2,
{
    assert(a1 =~= (a1 + b1).subrange(0, a1.len() as int));
    assert(a2 =~= (a2 + b2).subrange(0, a2.len() as int));
    assert(b1 =~= (a1 + b1).subrange(a1.len() as int, (a1 + b1).len() as int));
    assert(b2 =~= (a2 + b2).subrange(a2.len() as int, (a2 + b2).len() as int));
}

proof fn lemma_le_bytes8_injective(v: u64, w: u64)
    requires
        le_bytes(v as nat, 8) == le_bytes(w as nat, 8),
    ensures
        v == w,
{
    reveal_with_fuel(pow, 9);
    assert(pow(256, 8) == 0x1_0000_0000_0000_0000);
    lemma_le_bytes_value(v as nat, 8);
    lemma_le_bytes_value(w as nat, 8);
}

/// Seed injectivity, up to SHA-256: descriptors that differ in any field
/// hash different messages. (The action type needs no length prefix: every
/// other field has a fixed width, so the message length gives it away.)
pub proof fn lemma_seed_message_injective(a: VDFInput, b: VDFInput)
    requires
        !same_descriptor(a, b),
    ensures
        seed_message(a) != seed_message(b),
{
    if seed_message(a) == seed_message(b) {
        lemma_le_bytes_len(a.player_id as nat, 8);
        lemma_le_bytes_len(a.action_id as nat, 8);
        lemma_le_bytes_len(a.timestamp as nat, 8);
        lemma_le_bytes_len(a.nonce as nat, 8);
        lemma_le_bytes_len(a.random_salt as nat, 8);
        lemma_le_bytes_len(b.player_id as nat, 8);
        lemma_le_bytes_len(b.action_id as nat, 8);
        lemma_le_bytes_len(b.timestamp as nat, 8);
        lemma_le_bytes_len(b.nonce as nat, 8);
        lemma_le_bytes_len(b.random_salt as nat, 8);
        let ea = encode_utf8(a.action_type@);
        let eb = encode_utf8(b.action_type@);
        let pa = le_bytes(a.player_id as nat, 8);
        let pb = le_bytes(b.player_id as nat, 8);
        let x1a = pa + ea + le_bytes(a.action_id as nat, 8);
        let x1b = pb + eb + le_bytes(b.action_id as nat, 8);
        let x2a = x1a + le_bytes(a.timestamp as nat, 8);
        let x2b = x1b + le_bytes(b.timestamp as nat, 8);
        let x3a = x2a + le_bytes(a.nonce as nat, 8);
        let x3b = x2b + le_bytes(b.nonce as nat, 8);
        lemma_split_equal(x3a, le_bytes(a.random_salt as nat, 8), x3b, le_bytes(b.random_salt as nat, 8));
        lemma_split_equal(x2a, le_bytes(a.nonce as nat, 8), x2b, le_bytes(b.nonce as nat, 8));
        lemma_split_equal(x1a, le_bytes(a.timestamp as nat, 8), x1b, le_bytes(b.timestamp as nat, 8));
        lemma_split_equal(pa + ea, le_bytes(a.action_id as nat, 8), pb + eb, le_bytes(b.action_id as nat, 8));
        assert((pa + ea).len() == (pb + eb).len());
        lemma_split_equal(pa, ea, pb, eb);
        lemma_le_bytes8_injective(a.player_id, b.player_id);
        lemma_le_bytes8_injective(a.action_id, b.action_id);
        lemma_le_bytes8_injective(a.timestamp, b.timestamp);
        lemma_le_bytes8_injective(a.nonce, b.nonce);
        lemma_le_bytes8_injective(a.random_salt, b.random_salt);
        encode_utf8_decode_utf8(a.action_type@);
        encode_utf8_decode_utf8(b.action_type@);
    }
}

/// Range: a seed below N stays below N, whatever the number of squarings;
/// so both the result and the proof lie in `[0, N)`.
pub proof fn lemma_output_range(d: VDFInput, t: nat)
    requires
        seed_of(d) < modulus_value(),
    ensures
        output_value(d, t) < modulus_value(),
        proof_value(seed_of(d), output_value(d, t), t) < modulus_value(),
{
    crate::vdf::lemma_squarings_below(seed_of(d), t, modulus_value());
    let q = t / crate::prime::challenge(seed_of(d), output_value(d, t));
    crate::vdf::lemma_squarings_below(seed_of(d), q, modulus_value());
}

/// Calibration: converting seconds to iterations and back gives the seconds.
pub proof fn lemma_calibration_round_trip(seconds: u64)
    requires
        seconds * ITERATIONS_PER_SECOND <= u64::MAX,
    ensures
        seconds_for(iterations_for(seconds as nat)) == seconds,
{
    vstd::arithmetic::div_mod::lemma_div_multiples_vanish(seconds as int, ITERATIONS_PER_SECOND as int);
}

proof fn lemma_squarings_of_one(t: nat)
    ensures
        squarings(1, t, modulus_value()) == 1,
    decreases t,
{
    lemma_modulus_bounds();
    if t > 0 {
        lemma_squarings_of_one((t - 1) as nat);
        vstd::arithmetic::div_mod::lemma_small_mod(1, modulus_value());
        let p = squarings(1, (t - 1) as nat, modulus_value());
        assert(p * p == 1);
        assert(squarings(1, t, modulus_value()) == (p * p) % modulus_value());
    }
}

/// Completeness, where it holds for the proof described here (π is the seed
/// squared ⌊T/ℓ⌋ times, not x^⌊2^T/ℓ⌋): a descriptor whose seed is one
/// verifies for every number of squarings.
pub proof fn lemma_unit_seed_verifies(d: VDFInput, t: nat)
    requires
        seed_of(d) == 1,
    ensures
        wesolowski_holds(seed_of(d), output_value(d, t), t, proof_value(seed_of(d), output_value(d, t), t)),
{
    lemma_modulus_bounds();
    lemma_squarings_of_one(t);
    let q = t / crate::prime::challenge(1, 1);
    lemma_squarings_of_one(q);
    let l = crate::prime::challenge(1, 1);
    let r = (pow(2, t) % (l as int)) as nat;
    vstd::arithmetic::power::lemma1_pow(r);
    vstd::arithmetic::power::lemma1_pow(l);
    vstd::arithmetic::div_mod::lemma_small_mod(1, modulus_value());
}

} // verus!
