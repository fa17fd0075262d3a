//! A verifiable delay function after Wesolowski: sequential squaring modulo
//! the RSA-2048 number, with a one-element proof that is cheap to check.

pub mod bignat;
mod clock;
pub mod digest;
pub mod game;
pub mod ids;
pub mod inventory;
pub mod laws;
pub mod prime;
pub mod vdf;

pub use bignat::BigNat;
pub use ids::{generate_player_id, generate_random_salt, generate_store_id, get_current_timestamp};
pub use vdf::{VDFEngine, VDFInput, VDFOutput, VdfError, ITERATIONS_PER_SECOND, RSA_2048_MODULUS};
