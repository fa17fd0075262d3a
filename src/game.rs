//! The rules of the simulation around the delay function: movement, timed
//! rewards, crafting and gathering timers, and store purchases. Each rule is
//! a function of plain values; the program that keeps the player's state on
//! disk calls them.
use vstd::prelude::*;

verus! {

/// Seconds a player waits between two reward claims.
pub const CLAIM_INTERVAL_SECONDS: u64 = 3600;

/// Reward per whole hour since the last claim, before reputation.
pub const REWARD_PER_HOUR: u64 = 100;

/// Seconds between two gatherings of one resource.
pub const GATHER_COOLDOWN_SECONDS: u64 = 300;

/// Stores a player may own at most.
pub const MAX_STORES_PER_PLAYER: usize = 10;

/// Why a store purchase is refused.
#[derive(Clone, Copy, Debug, PartialEq, Eq)]
pub enum StoreError {
    /// The price exceeds the player's currency.
    InsufficientCurrency,
    /// The player already owns the maximum number of stores.
    TooManyStores,
}

/// Manhattan distance between two grid cells.
pub open spec fn manhattan(from_x: int, from_y: int, x: int, y: int) -> int {
    let dx = if x >= from_x { x - from_x } else { from_x - x };
    let dy = if y >= from_y { y - from_y } else { from_y - y };
    dx + dy
}

/// The Manhattan distance from `(from_x, from_y)` to `(x, y)`.
pub fn move_distance(from_x: i32, from_y: i32, x: i32, y: i32) -> (r: u64)
    ensures
        r == manhattan(from_x as int, from_y as int, x as int, y as int),
{
    let dx: i64 = if x >= from_x { x as i64 - from_x as i64 } else { from_x as i64 - x as i64 };
    let dy: i64 = if y >= from_y { y as i64 - from_y as i64 } else { from_y as i64 - y as i64 };
    (dx + dy) as u64
}

/// A move is allowed to the current cell or to an adjacent one.
pub fn can_move(from_x: i32, from_y: i32, x: i32, y: i32) -> (r: bool)
    ensures
        r == (manhattan(from_x as int, from_y as int, x as int, y as int) <= 1),
{
    move_distance(from_x, from_y, x, y) <= 1
}

/// Whether the cell `(x, y)` is among `cells`.
pub fn is_explored(cells: &[(i32, i32)], x: i32, y: i32) -> (r: bool)
    ensures
        r == exists|i: int| 0 <= i < cells@.len() && #[trigger] cells@[i] == (x, y),
{
    let mut i: usize = 0;
    while i < cells.len()
        invariant
            i <= cells@.len(),
            forall|j: int| 0 <= j < i ==> #[trigger] cells@[j] != (x, y),
        decreases cells@.len() - i,
    {
        if cells[i].0 == x && cells[i].1 == y {
            assert(cells@[i as int] == (x, y));
            return true;
        }
        i = i + 1;
    }
    false
}

/// Whole hours that can be claimed at `now` after a claim at `last_claim`:
/// `None` before a full interval has passed (or if `now` is earlier).
pub fn claimable_hours(last_claim: u64, now: u64) -> (r: Option<u64>)
    ensures
        r is Some <==> now >= last_claim + CLAIM_INTERVAL_SECONDS,
        r matches Some(h) ==> h == (now - last_claim) / (CLAIM_INTERVAL_SECONDS as int) && h >= 1,
{
    if now < last_claim || now - last_claim < CLAIM_INTERVAL_SECONDS {
        None
    } else {
        Some((now - last_claim) / CLAIM_INTERVAL_SECONDS)
    }
}

/// The reward base for `hours` claimed hours, saturating at `u64::MAX`.
pub fn base_reward(hours: u64) -> (r: u64)
    ensures
        r == if hours * REWARD_PER_HOUR <= u64::MAX {
            hours * REWARD_PER_HOUR
        } else {
            u64::MAX as int
        },
{
    if hours <= u64::MAX / REWARD_PER_HOUR {
        hours * REWARD_PER_HOUR
    } else {
        u64::MAX
    }
}

/// Seconds left on a timer of `required` seconds started at `start`, as
/// seen at `now` (a clock earlier than `start` counts as no time elapsed).
pub fn time_remaining(start: u64, required: u64, now: u64) -> (r: u64)
    ensures
        now >= start && now - start >= required ==> r == 0,
        now >= start && now - start < required ==> r == required - (now - start),
        now < start ==> r == required,
{
    let elapsed: u64 = if now >= start { now - start } else { 0 };
    if elapsed < required {
        required - elapsed
    } else {
        0
    }
}

/// Seconds left before a resource last gathered at `last_gather` can be
/// gathered again at `now`.
pub fn gather_cooldown_remaining(last_gather: u64, now: u64) -> (r: u64)
    ensures
        r == if now >= last_gather && now - last_gather >= GATHER_COOLDOWN_SECONDS {
            0
        } else if now >= last_gather {
            GATHER_COOLDOWN_SECONDS - (now - last_gather)
        } else {
            GATHER_COOLDOWN_SECONDS as int
        },
{
    time_remaining(last_gather, GATHER_COOLDOWN_SECONDS, now)
}

/// Whether a player with `currency` owning `owned_stores` stores may buy a
/// store at `price`.
pub fn check_store_purchase(currency: u64, price: u64, owned_stores: usize) -> (r: Result<
    (),
    StoreError,
>)
    ensures
        r == (if currency < price {
            Err(StoreError::InsufficientCurrency)
        } else if owned_stores >= MAX_STORES_PER_PLAYER {
            Err(StoreError::TooManyStores)
        } else {
            Ok(())
        }),
{
    if currency < price {
        Err(StoreError::InsufficientCurrency)
    } else if owned_stores >= MAX_STORES_PER_PLAYER {
        Err(StoreError::TooManyStores)
    } else {
        Ok(())
    }
}

} // verus!
