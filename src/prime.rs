//! Hash-to-prime: the challenge prime of a Wesolowski proof.
use vstd::prelude::*;
use vstd::string::*;
use vstd::utf8::encode_utf8;
use num_bigint::BigUint;
use num_prime::nt_funcs::is_prime;
use num_prime::PrimalityTestConfig;
use crate::bignat::{BigNat, le_value, decimal_of};
use crate::digest::{sha256, sha256_of, append_bytes};

verus! {

/// Strong probable-prime rounds that a challenge candidate must pass.
pub const MILLER_RABIN_ROUNDS: usize = 10;

/// How many odd candidates the prime search tries before it gives up. Gaps
/// between primes near 2^256 are far smaller than twice this number.
pub const PRIME_SEARCH_WINDOW: u64 = 1048576;

/// Whether `n` passes `rounds` strong probable-prime tests, the bases being
/// the first `rounds` primes.
pub uninterp spec fn passes_prime_test(n: nat, rounds: nat) -> bool;

/// Relies on num_prime's `is_prime`, configured for `rounds` strong
/// probable-prime tests on the first primes as bases and no random base: the
/// outcome depends on `n` and `rounds` alone, and no number below two passes.
#[verifier::external_body]
fn probable_prime(n: &BigNat, rounds: usize) -> (r: bool)
    ensures
        r == passes_prime_test(n@, rounds as nat),
        r ==> n@ >= 2,
{
    let mut config = PrimalityTestConfig::default();
    config.sprp_trials = rounds;
    config.sprp_random_trials = 0;
    is_prime(&BigUint::from_bytes_le(&n.digits), Some(config)).probably()
}

/// The bytes hashed to pick the challenge for `(x, y)`: both decimal
/// renderings, one after the other.
pub open spec fn challenge_message(x: nat, y: nat) -> Seq<u8> {
    encode_utf8(decimal_of(x)) + encode_utf8(decimal_of(y))
}

/// The first candidate of the prime search: the digest read least
/// significant byte first, made odd.
pub open spec fn search_start(x: nat, y: nat) -> nat {
    let c = le_value(sha256_of(challenge_message(x, y)));
    if c % 2 == 0 {
        c + 1
    } else {
        c
    }
}

/// Whether the `j`-th candidate, `start + 2j`, passes the test.
pub open spec fn candidate_passes(start: nat, j: nat) -> bool {
    passes_prime_test(start + 2 * j, MILLER_RABIN_ROUNDS as nat)
}

/// Candidate `i` is the first in the window that passes.
pub open spec fn is_first_passing(start: nat, i: nat) -> bool {
    &&& i < PRIME_SEARCH_WINDOW
    &&& candidate_passes(start, i)
    &&& forall|j: nat| j < i ==> !#[trigger] candidate_passes(start, j)
}

/// Whether the search for `(x, y)` finds a prime within its window.
pub open spec fn has_challenge(x: nat, y: nat) -> bool {
    exists|i: nat| is_first_passing(search_start(x, y), i)
}

/// The challenge prime for `(x, y)`, where `has_challenge(x, y)`.
pub open spec fn challenge(x: nat, y: nat) -> nat {
    let s = search_start(x, y);
    s + 2 * choose|i: nat| is_first_passing(s, i)
}

/// At most one candidate is the first to pass.
pub proof fn lemma_first_passing_unique(start: nat, i: nat, k: nat)
    requires
        is_first_passing(start, i),
        is_first_passing(start, k),
    ensures
        i == k,
{
    if i < k {
        assert(!candidate_passes(start, i));
    } else if k < i {
        assert(!candidate_passes(start, k));
    }
}

/// Derives the challenge prime from `x` and `y`: hash both decimal
/// renderings, make the digest odd, and step by two until a candidate passes
/// the probable-prime test. `None` when the window holds no such candidate.
pub fn hash_to_prime(x: &BigNat, y: &BigNat) -> (r: Option<BigNat>)
    ensures
        r is Some <==> has_challenge(x@, y@),
        r matches Some(l) ==> l@ == challenge(x@, y@) && l@ >= 2,
{
    let xs = x.to_decimal();
    let ys = y.to_decimal();
    let mut msg: Vec<u8> = Vec::new();
    append_bytes(&mut msg, xs.as_str().as_bytes());
    append_bytes(&mut msg, ys.as_str().as_bytes());
    assert(msg@ == challenge_message(x@, y@));
    let digest = sha256(msg.as_slice());
    let c = BigNat::from_le_bytes(digest);
    let mut cand = if c.is_even() {
        c.plus(&BigNat::from_u64(1))
    } else {
        c
    };
    let ghost start = search_start(x@, y@);
    let two = BigNat::from_u64(2);
    let mut i: u64 = 0;
    while i < PRIME_SEARCH_WINDOW
        invariant
            i <= PRIME_SEARCH_WINDOW,
            start == search_start(x@, y@),
            two@ == 2,
            cand@ == start + 2 * i,
            forall|j: nat| j < i ==> !#[trigger] candidate_passes(start, j),
        decreases PRIME_SEARCH_WINDOW - i,
    {
        if probable_prime(&cand, MILLER_RABIN_ROUNDS) {
            proof {
                assert(is_first_passing(start, i as nat));
                let k = choose|k: nat| is_first_passing(start, k);
                lemma_first_passing_unique(start, i as nat, k);
            }
            return Some(cand);
        }
        cand = cand.plus(&two);
        i = i + 1;
    }
    proof {
        assert forall|k: nat| !is_first_passing(start, k) by {
            if is_first_passing(start, k) {
                assert(!candidate_passes(start, k));
            }
        }
    }
    None
}

} // verus!
