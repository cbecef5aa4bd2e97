//! Dyson swarm sail technology.

use vstd::prelude::*;

verus! {

/// The first sail technology tier whose mirrors can act as statites.
///
/// The lightness number at tier `t` is 1.53 / (3 * 0.5^(t/5) + 0.5): it decreases
/// with the film areal density, is 0.93 at tier 7 and 1.03 at tier 8, and grows
/// with every further tier.
pub const FIRST_STATITE_TIER: u32 = 8;

/// Mass of a mirror segment at sail tier 0 (kg), the heaviest a mirror
/// segment gets: its mass scales with the sail loading, which falls with
/// every tier.
pub const BASE_MIRROR_MASS_KG: u64 = 3_500;

/// Whether mirrors at this tier can act as statites (lightness number of at least 1).
pub fn is_statite_capable(tier: u32) -> (r: bool)
    ensures
        r == (tier >= FIRST_STATITE_TIER),
{
    tier >= FIRST_STATITE_TIER
}

} // verus!
