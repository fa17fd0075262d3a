//! The delay function: seeds derived from action descriptors, sequential
//! squaring modulo the RSA-2048 number, Wesolowski proofs and their check,
//! and the calibration between iterations and seconds.
use vstd::prelude::*;
use vstd::arithmetic::power::pow;
use vstd::utf8::encode_utf8;
use std::time::SystemTime;
use crate::bignat::{BigNat, le_value, le_bytes, decimal_of, decimal_value, is_decimal, char_digit,
    u64_le_bytes};
use crate::digest::{sha256, sha256_of, append_bytes};
use crate::prime::{hash_to_prime, has_challenge, challenge};
use crate::clock::{nanos_since, unix_seconds};

verus! {

/// The RSA-2048 challenge number, in decimal. Its factors are unknown.
pub const RSA_2048_MODULUS: &'static str = "25195908475657893494027183240048398571429282126204032027777137836043662020707595556264018525880784406918290641249515082189298559149176184502808489120072844992687392807287776735971418347270261896375014971824691165077613379859095700097330459748808428401797429100642458691817195118746121515172654632282216869987549182422433637259085141865462043576798423387184774447920739934236584823824281198163815010674810451660377306056201619676256133844143603833904414952634432190114657544454178424020924616515723350778707749817125772467962926386356373289912154831438167899885040445364023527381951378636564391212010397122822120720357";

/// Squarings that stand for one second of wall-clock time.
pub const ITERATIONS_PER_SECOND: u64 = 278;

/// Describes the action that a delay is bound to.
#[derive(Clone, Debug)]
pub struct VDFInput {
    pub player_id: u64,
    pub action_type: String,
    pub action_id: u64,
    pub timestamp: u64,
    pub nonce: u64,
    pub random_salt: u64,
}

/// The result of an evaluation, with its proof.
#[derive(Clone, Debug)]
pub struct VDFOutput {
    /// The descriptor the evaluation was bound to.
    pub input: VDFInput,
    /// The result `y`, in decimal.
    pub output: String,
    /// The number of squarings `T`.
    pub iterations: u64,
    /// The proof `π`, in decimal.
    pub proof: String,
    /// Wall-clock time spent squaring, in nanoseconds; for information only.
    pub computation_nanos: u128,
}

/// Why an engine call failed.
#[derive(Clone, Copy, Debug, PartialEq, Eq)]
pub enum VdfError {
    /// The seed is not below the modulus.
    InputOutOfRange,
    /// The prime search found no challenge prime within its window.
    ArithmeticFailure,
    /// The system clock could not be read, or went backward.
    ClockFailure,
}

/// The modulus N.
pub open spec fn modulus_value() -> nat {
    decimal_value(RSA_2048_MODULUS@)
}

/// Two descriptors with the same fields.
pub open spec fn same_descriptor(a: VDFInput, b: VDFInput) -> bool {
    &&& a.player_id == b.player_id
    &&& a.action_type@ == b.action_type@
    &&& a.action_id == b.action_id
    &&& a.timestamp == b.timestamp
    &&& a.nonce == b.nonce
    &&& a.random_salt == b.random_salt
}

/// The bytes hashed into a seed: the numeric fields little-endian, the
/// action type as its UTF-8 bytes, in declaration order.
pub open spec fn seed_message(d: VDFInput) -> Seq<u8> {
    le_bytes(d.player_id as nat, 8) + encode_utf8(d.action_type@) + le_bytes(d.action_id as nat, 8)
        + le_bytes(d.timestamp as nat, 8) + le_bytes(d.nonce as nat, 8) + le_bytes(
        d.random_salt as nat,
        8,
    )
}

/// The seed x of a descriptor: its SHA-256 digest read least significant
/// byte first.
pub open spec fn seed_of(d: VDFInput) -> nat {
    le_value(sha256_of(seed_message(d)))
}

/// Start from `x` and replace it `t` times by its square modulo `n`.
pub open spec fn squarings(x: nat, t: nat, n: nat) -> nat
    decreases t,
{
    if t == 0 {
        x
    } else {
        let p = squarings(x, (t - 1) as nat, n);
        (p * p) % n
    }
}

/// The result y for a descriptor and a number of squarings.
pub open spec fn output_value(d: VDFInput, t: nat) -> nat {
    squarings(seed_of(d), t, modulus_value())
}

/// The proof for `(x, y, t)`: `x` squared `⌊t / ℓ⌋` times, ℓ the challenge.
pub open spec fn proof_value(x: nat, y: nat, t: nat) -> nat {
    squarings(x, t / challenge(x, y), modulus_value())
}

/// `o` is what evaluating `d` with `t` squarings gives.
pub open spec fn is_output_of(o: VDFOutput, d: VDFInput, t: u64) -> bool {
    let x = seed_of(d);
    let y = output_value(d, t as nat);
    &&& same_descriptor(o.input, d)
    &&& o.iterations == t
    &&& o.output@ == decimal_of(y)
    &&& o.proof@ == decimal_of(proof_value(x, y, t as nat))
}

/// The verifier's equation `x^r · π^ℓ ≡ y (mod N)`, with ℓ the challenge
/// and `r = 2^t mod ℓ`.
pub open spec fn wesolowski_holds(x: nat, y: nat, t: nat, pi: nat) -> bool {
    let n = modulus_value() as int;
    let l = challenge(x, y);
    let r = (pow(2, t) % (l as int)) as nat;
    (pow(x as int, r) * pow(pi as int, l)) % n == (y as int) % n
}

/// Iterations for a number of seconds.
pub open spec fn iterations_for(seconds: nat) -> nat {
    seconds * (ITERATIONS_PER_SECOND as nat)
}

/// Whole seconds that a number of iterations stands for.
pub open spec fn seconds_for(iterations: nat) -> nat {
    iterations / (ITERATIONS_PER_SECOND as nat)
}

/// Iterations per second, from a count and the nanoseconds it took, rounded
/// up (a zero duration counts as one nanosecond).
pub open spec fn rate_per_second(iterations: nat, elapsed_nanos: nat) -> nat {
    let d = if elapsed_nanos == 0 {
        1
    } else {
        elapsed_nanos
    };
    let x = iterations * 1_000_000_000;
    if x % d == 0 {
        x / d
    } else {
        x / d + 1
    }
}

/// A positive count of iterations gives a positive rate, however long it took.
pub proof fn lemma_rate_positive(iterations: nat, elapsed_nanos: nat)
    requires
        iterations > 0,
    ensures
        rate_per_second(iterations, elapsed_nanos) > 0,
{
    let d: int = if elapsed_nanos == 0 {
        1
    } else {
        elapsed_nanos as int
    };
    let x: int = (iterations * 1_000_000_000) as int;
    vstd::arithmetic::div_mod::lemma_fundamental_div_mod(x, d);
    if x % d == 0 && x / d == 0 {
        assert(x == d * (x / d) + x % d);
        assert(d * 0 == 0);
    }
}

/// The descriptor that a benchmark evaluates, whatever its timestamp.
pub open spec fn is_benchmark_input(d: VDFInput) -> bool {
    &&& d.player_id == 1
    &&& d.action_type@ == "benchmark"@
    &&& d.action_id == 1
    &&& d.nonce == 1
    &&& d.random_salt == 12345
}

proof fn lemma_modulus_is_decimal()
    ensures
        is_decimal(RSA_2048_MODULUS@),
{
    reveal_strlit("25195908475657893494027183240048398571429282126204032027777137836043662020707595556264018525880784406918290641249515082189298559149176184502808489120072844992687392807287776735971418347270261896375014971824691165077613379859095700097330459748808428401797429100642458691817195118746121515172654632282216869987549182422433637259085141865462043576798423387184774447920739934236584823824281198163815010674810451660377306056201619676256133844143603833904414952634432190114657544454178424020924616515723350778707749817125772467962926386356373289912154831438167899885040445364023527381951378636564391212010397122822120720357");
    assert(RSA_2048_MODULUS@.len() == 617);
}

/// A decimal string without a leading zero denotes at least `10^(len-1)`.
proof fn lemma_decimal_lower_bound(s: Seq<char>)
    requires
        is_decimal(s),
        s[0] != '0',
    ensures
        decimal_value(s) >= pow(10, (s.len() - 1) as nat),
    decreases s.len(),
{
    reveal(pow);
    if s.len() > 1 {
        let t = s.drop_last();
        assert(char_digit(t[0]) is Some);
        assert forall|i: int| 0 <= i < t.len() implies (#[trigger] char_digit(t[i])) is Some by {
            assert(char_digit(s[i]) is Some);
        }
        lemma_decimal_lower_bound(t);
    } else {
        assert(char_digit(s[0]) is Some);
        assert(s.drop_last().len() == 0);
    }
}

proof fn lemma_pow_base_monotone(a: nat, b: nat, e: nat)
    requires
        0 < a <= b,
    ensures
        pow(a as int, e) <= pow(b as int, e),
    decreases e,
{
    reveal(pow);
    if e > 0 {
        lemma_pow_base_monotone(a, b, (e - 1) as nat);
        vstd::arithmetic::power::lemma_pow_positive(a as int, (e - 1) as nat);
        let pa = pow(a as int, (e - 1) as nat);
        let pb = pow(b as int, (e - 1) as nat);
        assert(a * pa <= b * pb) by (nonlinear_arith)
            requires
                a <= b,
                0 <= pa <= pb,
        ;
    }
}

/// N exceeds every 256-bit number.
pub proof fn lemma_modulus_bounds()
    ensures
        modulus_value() >= pow(256, 32),
        modulus_value() > 1,
{
    lemma_modulus_is_decimal();
    reveal_strlit("25195908475657893494027183240048398571429282126204032027777137836043662020707595556264018525880784406918290641249515082189298559149176184502808489120072844992687392807287776735971418347270261896375014971824691165077613379859095700097330459748808428401797429100642458691817195118746121515172654632282216869987549182422433637259085141865462043576798423387184774447920739934236584823824281198163815010674810451660377306056201619676256133844143603833904414952634432190114657544454178424020924616515723350778707749817125772467962926386356373289912154831438167899885040445364023527381951378636564391212010397122822120720357");
    lemma_decimal_lower_bound(RSA_2048_MODULUS@);
    lemma_pow_base_monotone(256, 1000, 32);
    reveal_with_fuel(pow, 4);
    assert(pow(10, 3) == 1000);
    vstd::arithmetic::power::lemma_pow_multiplies(10, 3, 32);
    vstd::arithmetic::power::lemma_pow_increases(10, 96, 616);
    vstd::arithmetic::power::lemma_pow_increases(256, 1, 32);
}

/// Squaring modulo `n` keeps a number below `n` there.
pub proof fn lemma_squarings_below(x: nat, t: nat, n: nat)
    requires
        x < n,
    ensures
        squarings(x, t, n) < n,
    decreases t,
{
    if t > 0 {
        lemma_squarings_below(x, (t - 1) as nat, n);
    }
}

/// The verified-delay engine; it holds the modulus N.
pub struct VDFEngine {
    modulus: BigNat,
}

impl VDFEngine {
    #[verifier::type_invariant]
    spec fn holds_modulus(&self) -> bool {
        self.modulus@ == modulus_value()
    }

    /// The modulus the engine works under.
    pub closed spec fn modulus(&self) -> nat {
        self.modulus@
    }

    /// An engine loaded with the RSA-2048 modulus.
    pub fn new() -> (e: Self)
        ensures
            e.modulus() == modulus_value(),
    {
        proof {
            lemma_modulus_is_decimal();
        }
        let modulus = BigNat::from_decimal(RSA_2048_MODULUS).unwrap();
        VDFEngine { modulus }
    }

    /// The seed of a descriptor (see `seed_of`).
    pub fn generate_input_seed(&self, input: &VDFInput) -> (r: BigNat)
        ensures
            r@ == seed_of(*input),
            r@ < pow(256, 32),
    {
        let mut msg: Vec<u8> = Vec::new();
        let b = u64_le_bytes(input.player_id);
        append_bytes(&mut msg, b.as_slice());
        append_bytes(&mut msg, input.action_type.as_str().as_bytes());
        let b = u64_le_bytes(input.action_id);
        append_bytes(&mut msg, b.as_slice());
        let b = u64_le_bytes(input.timestamp);
        append_bytes(&mut msg, b.as_slice());
        let b = u64_le_bytes(input.nonce);
        append_bytes(&mut msg, b.as_slice());
        let b = u64_le_bytes(input.random_salt);
        append_bytes(&mut msg, b.as_slice());
        assert(msg@ == seed_message(*input));
        let digest = sha256(msg.as_slice());
        proof {
            crate::bignat::lemma_le_value_bound(digest@);
        }
        BigNat::from_le_bytes(digest)
    }

    /// Squares `x` modulo N `count` times, one squaring after the other.
    fn square_repeatedly(&self, x: &BigNat, count: u64) -> (r: BigNat)
        ensures
            r@ == squarings(x@, count as nat, modulus_value()),
    {
        proof {
            use_type_invariant(self);
            lemma_modulus_bounds();
        }
        let mut acc = x.duplicate();
        let mut i: u64 = 0;
        while i < count
            invariant
                i <= count,
                acc@ == squarings(x@, i as nat, modulus_value()),
                self.modulus@ == modulus_value(),
                modulus_value() > 1,
            decreases count - i,
        {
            acc = acc.times(&acc).modulo(&self.modulus);
            i = i + 1;
        }
        acc
    }

    /// The Wesolowski proof for `y` from `x` in `iterations` squarings:
    /// `x` squared `⌊iterations / ℓ⌋` times, ℓ the challenge prime.
    fn generate_proof(&self, input: &BigNat, output: &BigNat, iterations: u64) -> (r: Result<
        String,
        VdfError,
    >)
        ensures
            r is Ok <==> has_challenge(input@, output@),
            r matches Err(e) ==> e == VdfError::ArithmeticFailure,
            r matches Ok(p) ==> p@ == decimal_of(proof_value(input@, output@, iterations as nat)),
    {
        let l = match hash_to_prime(input, output) {
            Some(l) => l,
            None => return Err(VdfError::ArithmeticFailure),
        };
        let quotient: u64 = match l.to_u64() {
            Some(l64) => iterations / l64,
            None => {
                proof {
                    vstd::arithmetic::div_mod::lemma_basic_div(iterations as int, l@ as int);
                }
                0
            },
        };
        let p = self.square_repeatedly(input, quotient);
        Ok(p.to_decimal())
    }

    /// Evaluates the delay function on the seed of `input` with
    /// `iterations` squarings, and proves the result.
    pub fn compute(&self, input: &VDFInput, iterations: u64) -> (r: Result<VDFOutput, VdfError>)
        ensures
            seed_of(*input) < modulus_value(),
            r matches Err(VdfError::InputOutOfRange) <==> seed_of(*input) >= modulus_value(),
            r matches Err(VdfError::ArithmeticFailure) <==> (seed_of(*input) < modulus_value()
                && !has_challenge(seed_of(*input), output_value(*input, iterations as nat))),
            r matches Err(VdfError::ClockFailure) ==> has_challenge(
                seed_of(*input),
                output_value(*input, iterations as nat),
            ),
            r matches Ok(o) ==> is_output_of(o, *input, iterations),
            r matches Ok(o) ==> output_value(*input, iterations as nat) < modulus_value(),
            r matches Ok(o) ==> proof_value(
                seed_of(*input),
                output_value(*input, iterations as nat),
                iterations as nat,
            ) < modulus_value(),
    {
        proof {
            use_type_invariant(self);
        }
        let start = SystemTime::now();
        let x = self.generate_input_seed(input);
        proof {
            lemma_modulus_bounds();
        }
        if !x.less_than(&self.modulus) {
            return Err(VdfError::InputOutOfRange);
        }
        let y = self.square_repeatedly(&x, iterations);
        let elapsed = nanos_since(&start);
        let proof = match self.generate_proof(&x, &y, iterations) {
            Ok(p) => p,
            Err(e) => return Err(e),
        };
        let computation_nanos = match elapsed {
            Some(e) => e,
            None => return Err(VdfError::ClockFailure),
        };
        proof {
            lemma_squarings_below(x@, iterations as nat, modulus_value());
            lemma_squarings_below(x@, (iterations as nat) / challenge(x@, y@), modulus_value());
        }
        let echoed = VDFInput {
            player_id: input.player_id,
            action_type: input.action_type.clone(),
            action_id: input.action_id,
            timestamp: input.timestamp,
            nonce: input.nonce,
            random_salt: input.random_salt,
        };
        Ok(VDFOutput { input: echoed, output: y.to_decimal(), iterations, proof, computation_nanos })
    }

    /// Checks a Wesolowski proof: whether `x^r · π^ℓ ≡ y (mod N)` for the
    /// challenge prime ℓ of `(x, y)` and `r = 2^iterations mod ℓ`.
    pub fn verify(&self, input: &BigNat, output: &BigNat, iterations: u64, proof: &BigNat) -> (r:
        Result<bool, VdfError>)
        ensures
            r is Ok <==> has_challenge(input@, output@),
            r matches Err(e) ==> e == VdfError::ArithmeticFailure,
            r matches Ok(b) ==> b == wesolowski_holds(input@, output@, iterations as nat, proof@),
    {
        proof {
            use_type_invariant(self);
            lemma_modulus_bounds();
        }
        let l = match hash_to_prime(input, output) {
            Some(l) => l,
            None => return Err(VdfError::ArithmeticFailure),
        };
        let r = BigNat::from_u64(2).pow_mod(&BigNat::from_u64(iterations), &l);
        let a = input.pow_mod(&r, &self.modulus);
        let b = proof.pow_mod(&l, &self.modulus);
        let lhs = a.times(&b).modulo(&self.modulus);
        let rhs = output.modulo(&self.modulus);
        proof {
            let n = modulus_value() as int;
            vstd::arithmetic::div_mod::lemma_mul_mod_noop(
                pow(input@ as int, r@),
                pow(proof@ as int, l@),
                n,
            );
        }
        Ok(lhs.equals(&rhs))
    }

    /// Iterations for `seconds` of delay.
    pub fn time_to_iterations(&self, seconds: u64) -> (r: u64)
        requires
            seconds * ITERATIONS_PER_SECOND <= u64::MAX,
        ensures
            r == iterations_for(seconds as nat),
    {
        seconds * ITERATIONS_PER_SECOND
    }

    /// Whole seconds of delay that `iterations` stand for.
    pub fn iterations_to_time(&self, iterations: u64) -> (r: u64)
        ensures
            r == seconds_for(iterations as nat),
    {
        iterations / ITERATIONS_PER_SECOND
    }

    /// Measures this machine's squaring rate: evaluates a benchmark
    /// descriptor stamped with the current time with `test_iterations`
    /// squarings, and returns iterations per second, rounded up. An error of
    /// that evaluation, or of the clock, is returned as it is.
    pub fn benchmark(&self, test_iterations: u64) -> (r: Result<u128, VdfError>)
        ensures
            r is Ok ==> exists|d: VDFInput|
                #[trigger] is_benchmark_input(d) && has_challenge(
                    seed_of(d),
                    output_value(d, test_iterations as nat),
                ),
            r matches Err(VdfError::ArithmeticFailure) ==> exists|d: VDFInput|
                #[trigger] is_benchmark_input(d) && !has_challenge(
                    seed_of(d),
                    output_value(d, test_iterations as nat),
                ),
            r matches Err(e) ==> e != VdfError::InputOutOfRange,
            r matches Ok(rate) ==> exists|e: nat| rate == rate_per_second(test_iterations as nat, e),
            r matches Ok(rate) ==> (test_iterations > 0 ==> rate > 0),
    {
        let start = SystemTime::now();
        let timestamp = match unix_seconds(&start) {
            Some(t) => t,
            None => return Err(VdfError::ClockFailure),
        };
        let test_input = VDFInput {
            player_id: 1,
            action_type: "benchmark".to_owned(),
            action_id: 1,
            timestamp,
            nonce: 1,
            random_salt: 12345,
        };
        proof {
            reveal_strlit("benchmark");
            assert(is_benchmark_input(test_input));
        }
        match self.compute(&test_input, test_iterations) {
            Ok(_) => {},
            Err(e) => return Err(e),
        }
        let elapsed = match nanos_since(&start) {
            Some(e) => e,
            None => return Err(VdfError::ClockFailure),
        };
        let rate = iterations_per_second(test_iterations, elapsed);
        assert(rate == rate_per_second(test_iterations as nat, elapsed as nat));
        proof {
            if test_iterations > 0 {
                lemma_rate_positive(test_iterations as nat, elapsed as nat);
            }
        }
        Ok(rate)
    }
}

impl Default for VDFEngine {
    fn default() -> (e: Self)
        ensures
            e.modulus() == modulus_value(),
    {
        Self::new()
    }
}

/// Iterations per second, rounded up (see `rate_per_second`).
pub fn iterations_per_second(iterations: u64, elapsed_nanos: u128) -> (r: u128)
    ensures
        r == rate_per_second(iterations as nat, elapsed_nanos as nat),
{
    let d: u128 = if elapsed_nanos == 0 {
        1
    } else {
        elapsed_nanos
    };
    assert((iterations as u128) * 1_000_000_000 <= u128::MAX) by (nonlinear_arith)
        requires
            iterations <= u64::MAX,
    ;
    let x: u128 = (iterations as u128) * 1_000_000_000;
    if x % d == 0 {
        x / d
    } else {
        assert(x / d <= x) by (nonlinear_arith)
            requires
                d >= 1,
        ;
        x / d + 1
    }
}

} // verus!
