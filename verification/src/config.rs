//! What an arrangement is configured with, and when a configuration is
//! refused.

use crate::grid::{MAX_SCALE, MIN_SCALE};
use vstd::arithmetic::power2::{lemma_pow2_strictly_increases, lemma_pow2_unfold, pow2};
use vstd::prelude::*;
use vstd::string::to_string_from_display_ensures_for_str;

verus! {

/// Why a configuration is refused. A refusal comes before any grid is made.
#[derive(Clone, Copy, Debug, PartialEq, Eq, Structural)]
pub enum ConfigError {
    /// The scale is below 2: the cube would have a single color, or none,
    /// and scaling it to eight bits would divide by zero.
    ScaleTooSmall,
    /// The scale is above 16: the cube would have more values per channel
    /// than eight bits can tell apart.
    ScaleTooLarge,
    /// There is no swap distance to draw from. A walk needs at least the
    /// distance 1; the library refuses rather than supplying it.
    NoSwapDistance,
    /// The largest swap distance does not fit into a machine word.
    SwapDistanceTooLarge,
}

impl ConfigError {
    /// The words of [`ConfigError::message`].
    pub open spec fn spec_message(self) -> Seq<char> {
        match self {
            ConfigError::ScaleTooSmall => "scale must be at least 2"@,
            ConfigError::ScaleTooLarge => "scale must be at most 16"@,
            ConfigError::NoSwapDistance => "there is no swap distance to choose from"@,
            ConfigError::SwapDistanceTooLarge => "the largest swap distance overflows"@,
        }
    }

    /// A description of the error for the user.
    pub fn message(&self) -> (text: String)
        ensures
            text@ == self.spec_message(),
    {
        broadcast use to_string_from_display_ensures_for_str;

        match self {
            ConfigError::ScaleTooSmall => "scale must be at least 2".to_string(),
            ConfigError::ScaleTooLarge => "scale must be at most 16".to_string(),
            ConfigError::NoSwapDistance => "there is no swap distance to choose from".to_string(),
            ConfigError::SwapDistanceTooLarge => "the largest swap distance overflows".to_string(),
        }
    }
}

/// The swap distances a walk draws from: the powers of two below
/// `2^max_power`, smallest first.
pub open spec fn spec_distances(max_power: usize) -> Seq<usize> {
    Seq::new(max_power as nat, |i: int| pow2(i as nat) as usize)
}

/// Whether every swap distance for `max_power` fits into a machine word.
pub open spec fn distances_fit(max_power: usize) -> bool {
    max_power == 0 || pow2((max_power - 1) as nat) <= usize::MAX
}

/// The error with which a configuration is refused, if it is refused. The
/// scale is looked at first.
pub open spec fn config_error(scale: u64, max_power: usize) -> Option<ConfigError> {
    if scale < MIN_SCALE {
        Some(ConfigError::ScaleTooSmall)
    } else if scale > MAX_SCALE {
        Some(ConfigError::ScaleTooLarge)
    } else if max_power == 0 {
        Some(ConfigError::NoSwapDistance)
    } else if !distances_fit(max_power) {
        Some(ConfigError::SwapDistanceTooLarge)
    } else {
        None
    }
}

/// Lists the swap distances for `max_power`, unless the largest of them
/// overflows.
pub fn swap_distances(max_power: usize) -> (dists: Option<Vec<usize>>)
    ensures
        dists is Some <==> distances_fit(max_power),
        dists matches Some(v) ==> v@ == spec_distances(max_power),
        dists matches Some(v) ==> forall|i: int| 0 <= i < v@.len() ==> v@[i] == pow2(i as nat),
{
    let mut dists: Vec<usize> = Vec::new();
    let mut dist: usize = 1;
    let mut i: usize = 0;
    proof {
        vstd::arithmetic::power2::lemma2_to64();
    }
    while i < max_power
        invariant
            i <= max_power,
            dists@.len() == i,
            forall|j: int| 0 <= j < i ==> dists@[j] == pow2(j as nat),
            i < max_power ==> dist == pow2(i as nat),
        decreases max_power - i,
    {
        dists.push(dist);
        i = i + 1;
        if i < max_power {
            proof {
                lemma_pow2_unfold(i as nat);
            }
            if dist > usize::MAX / 2 {
                proof {
                    if i < max_power - 1 {
                        lemma_pow2_strictly_increases(i as nat, (max_power - 1) as nat);
                    }
                }
                return None;
            }
            dist = dist * 2;
        }
    }
    proof {
        if max_power > 0 {
            assert(dists@[max_power - 1] == pow2((max_power - 1) as nat));
        }
    }
    Some(dists)
}

/// Decides whether a configuration is accepted, and lists the swap distances
/// of one that is.
pub fn validate(scale: u64, max_power: usize) -> (outcome: Result<Vec<usize>, ConfigError>)
    ensures
        match config_error(scale, max_power) {
            Some(e) => outcome == Err::<Vec<usize>, ConfigError>(e),
            None => outcome matches Ok(v) && v@ == spec_distances(max_power),
        },
{
    if scale < MIN_SCALE {
        return Err(ConfigError::ScaleTooSmall);
    }
    if scale > MAX_SCALE {
        return Err(ConfigError::ScaleTooLarge);
    }
    if max_power == 0 {
        return Err(ConfigError::NoSwapDistance);
    }
    match swap_distances(max_power) {
        Some(dists) => Ok(dists),
        None => Err(ConfigError::SwapDistanceTooLarge),
    }
}

} // verus!
