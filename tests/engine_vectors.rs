use zkgame_vdf::bignat::u64_le_bytes;
use zkgame_vdf::ids::seconds_from_nanos;
use zkgame_vdf::prime::hash_to_prime;
use zkgame_vdf::vdf::iterations_per_second;
use zkgame_vdf::{BigNat, VDFEngine, VDFInput, VdfError, RSA_2048_MODULUS};

const SEED_TEST: &str = "36374971037260669919240682401777780619668135815526555559037099239555751610755";
const Y_TEST_1000: &str = "2789812945081855316538060350153229337837895911209653284978980208817869816488919764677372081610199565999629340874252830734142480183756531893700701474507258013377988890543354313555717650746147875168893446120930286706996923798616189128361190158078189476231725048846725755522485713349986963485558084008305266882391961741366824285094953678904175869914067950912492748426513803522992876937636967239133039942499015703373696278212710684562066220948274363661994320907167092324794542309310381380862178819221471246444275062764796220349598852723087063906461821142124518843236213291131628833535325668065860646042927877356959499972";
const Y_TEST_1: &str = "1323138517961552576894261851600361678586546912761904513284111201449398178209715290583973223361211791779222338698115593136358113919062929283746777031670025";

fn descriptor(action_type: &str, action_id: u64) -> VDFInput {
    VDFInput {
        player_id: 1,
        action_type: action_type.to_string(),
        action_id,
        timestamp: 1234567890,
        nonce: 1,
        random_salt: 12345,
    }
}

fn num(s: &str) -> BigNat {
    BigNat::from_decimal(s).expect("decimal literal")
}

#[test]
fn seed_matches_the_published_vector() {
    let engine = VDFEngine::new();
    let seed = engine.generate_input_seed(&descriptor("test", 1));
    assert!(seed.equals(&num(SEED_TEST)));
    let craft = engine.generate_input_seed(&descriptor("craft", 1));
    assert!(craft.equals(&num(
        "12345109598973063873124977918141017827176809995310585447479880846228744483387"
    )));
}

#[test]
fn compute_gives_exact_result_and_proof() {
    let engine = VDFEngine::new();
    let out = engine.compute(&descriptor("test", 1), 1000).unwrap();
    assert_eq!(out.output, Y_TEST_1000);
    // the challenge prime exceeds 1000, so the proof is the seed squared zero times
    assert_eq!(out.proof, SEED_TEST);
    assert_eq!(out.input.action_type, "test");
    assert_eq!(out.input.random_salt, 12345);
}

#[test]
fn compute_with_one_squaring() {
    let engine = VDFEngine::new();
    let out = engine.compute(&descriptor("test", 1), 1).unwrap();
    assert_eq!(out.output, Y_TEST_1);
    assert_eq!(out.proof, SEED_TEST);
}

#[test]
fn compute_with_no_squaring_returns_the_seed() {
    let engine = VDFEngine::new();
    let out = engine.compute(&descriptor("test", 1), 0).unwrap();
    assert_eq!(out.iterations, 0);
    assert_eq!(out.output, SEED_TEST);
    assert_eq!(out.proof, SEED_TEST);
}

#[test]
fn challenge_prime_vector() {
    let l = hash_to_prime(&num(SEED_TEST), &num(Y_TEST_1000)).unwrap();
    assert!(l.equals(&num(
        "91641246123195479493062507984679417092378522890402640148361788713938746426667"
    )));
    let l1 = hash_to_prime(&num(SEED_TEST), &num(Y_TEST_1)).unwrap();
    assert!(l1.equals(&num(
        "14586282843807381005216124188596455581068829704214883334494441685466665808879"
    )));
}

#[test]
fn unit_seed_verifies() {
    let engine = VDFEngine::new();
    let one = BigNat::from_u64(1);
    assert_eq!(engine.verify(&one, &one, 1000, &one), Ok(true));
    assert_eq!(engine.verify(&one, &one, 0, &one), Ok(true));
}

#[test]
fn altered_result_is_rejected() {
    let engine = VDFEngine::new();
    let one = BigNat::from_u64(1);
    assert_eq!(engine.verify(&one, &BigNat::from_u64(2), 1000, &one), Ok(false));
    assert_eq!(engine.verify(&one, &one, 1000, &BigNat::from_u64(2)), Ok(false));
}

#[test]
fn calibration_values() {
    let engine = VDFEngine::new();
    assert_eq!(engine.time_to_iterations(3600), 1_000_800);
    assert_eq!(engine.iterations_to_time(1_000_800), 3600);
    assert_eq!(engine.time_to_iterations(0), 0);
    assert_eq!(engine.iterations_to_time(277), 0);
    assert_eq!(engine.iterations_to_time(278), 1);
    let s = u64::MAX / 278;
    assert_eq!(engine.iterations_to_time(engine.time_to_iterations(s)), s);
}

#[test]
fn rate_arithmetic() {
    assert_eq!(iterations_per_second(1000, 1_000_000_000), 1000);
    assert_eq!(iterations_per_second(3, 2), 1_500_000_000);
    assert_eq!(iterations_per_second(1000, 0), 1_000_000_000_000);
    assert_eq!(iterations_per_second(0, 5), 0);
    assert_eq!(iterations_per_second(u64::MAX, 1), u64::MAX as u128 * 1_000_000_000);
    // rounded up: a slow run still reports a positive rate
    assert_eq!(iterations_per_second(1, 3_000_000_000), 1);
    assert_eq!(iterations_per_second(1000, 1_000_000_000_001), 1);
    assert_eq!(iterations_per_second(2, 3), 666_666_667);
}

#[test]
fn whole_seconds_of_nanos() {
    assert_eq!(seconds_from_nanos(0), Some(0));
    assert_eq!(seconds_from_nanos(1_999_999_999), Some(1));
    assert_eq!(seconds_from_nanos(3_600_000_000_000), Some(3600));
    assert_eq!(
        seconds_from_nanos(u64::MAX as u128 * 1_000_000_000 + 999_999_999),
        Some(u64::MAX)
    );
    assert_eq!(seconds_from_nanos(u64::MAX as u128 * 1_000_000_000 + 1_000_000_000), None);
    assert_eq!(seconds_from_nanos(u128::MAX), None);
}

#[test]
fn decimal_parsing() {
    assert!(BigNat::from_decimal("").is_none());
    assert!(BigNat::from_decimal("+12").is_none());
    assert!(BigNat::from_decimal("1_0").is_none());
    assert!(BigNat::from_decimal("12a").is_none());
    assert!(num("007").equals(&BigNat::from_u64(7)));
    assert!(num("0").equals(&BigNat::from_u64(0)));
    assert!(num("18446744073709551615").equals(&BigNat::from_u64(u64::MAX)));
    assert!(BigNat::from_decimal(RSA_2048_MODULUS).is_some());
}

#[test]
fn little_endian_bytes() {
    assert_eq!(u64_le_bytes(0x0102030405060708), vec![8, 7, 6, 5, 4, 3, 2, 1]);
    assert_eq!(u64_le_bytes(0), vec![0; 8]);
    assert!(BigNat::from_le_bytes(vec![0x39, 0x30]).equals(&BigNat::from_u64(12345)));
    assert!(BigNat::from_le_bytes(vec![7, 0, 0]).equals(&BigNat::from_u64(7)));
}

#[test]
fn parity() {
    assert!(BigNat::from_u64(0).is_even());
    assert!(!BigNat::from_u64(12345).is_even());
    assert!(BigNat::from_le_bytes(vec![]).is_even());
}

#[test]
fn error_variants_are_distinct() {
    assert_ne!(VdfError::InputOutOfRange, VdfError::ArithmeticFailure);
    assert_ne!(VdfError::ArithmeticFailure, VdfError::ClockFailure);
}

#[test]
fn default_engine_matches_new() {
    let a = VDFEngine::default().compute(&descriptor("test", 1), 10).unwrap();
    let b = VDFEngine::new().compute(&descriptor("test", 1), 10).unwrap();
    assert_eq!(a.output, b.output);
    assert_eq!(a.proof, b.proof);
}

#[test]
fn value_equality_ignores_layout() {
    assert_eq!(BigNat::from_le_bytes(vec![5, 0, 0, 0]), BigNat::from_u64(5));
    assert_ne!(BigNat::from_u64(5), BigNat::from_u64(6));
}
