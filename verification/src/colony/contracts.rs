//! Contracts: destinations, payload and tourism contracts, the contract pool,
//! and one-time government milestones.

use vstd::prelude::*;
use crate::colony::tech::DiscoveryTracker;
use crate::colony::transfer::BodyHierarchy;
use crate::text::{join_str, u64_to_decimal, decimal};

verus! {

broadcast use vstd::std_specs::hash::group_hash_axioms;

/// Number of contracts the pool is refilled to.
pub const POOL_SIZE: usize = 5;

/// Next unique contract id of a fresh contract manager.
pub fn default_next_id() -> (r: u64)
    ensures
        r == 1,
{
    1
}

/// What the contract rules read of a vessel's state.
#[derive(Debug, Clone, Copy, PartialEq, Eq, Structural)]
pub enum FlightPhase {
    /// In flight (not landed, not destroyed).
    Flying,
    /// Landed on the body with this index.
    Landed { body_index: usize },
    /// Any other state.
    Other,
}

/// The flight facts against which destination objectives are checked.
#[derive(Debug, Clone, Copy, PartialEq, Eq, Structural)]
pub struct FlightSituation {
    pub phase: FlightPhase,
    /// Index of the body whose sphere of influence the vessel is in.
    pub soi_body: usize,
    /// Whether the altitude is above 100 km.
    pub above_100_km: bool,
    /// Whether the current trajectory comes back down (suborbital).
    pub is_suborbital: bool,
}

/// Destinations for payload delivery and tourism contracts.
#[derive(Debug, Clone, Copy, PartialEq, Eq, Hash, Structural)]
pub enum Destination {
    Suborbital,
    LowEarthOrbit,
    LunarOrbit,
    LunarSurface,
    MarsOrbit,
    MarsSurface,
}

impl Destination {
    /// The name shown to the player.
    pub open spec fn spec_display_name(self) -> Seq<char> {
        match self {
            Destination::Suborbital => "Suborbital"@,
            Destination::LowEarthOrbit => "Low Earth Orbit"@,
            Destination::LunarOrbit => "Lunar Orbit"@,
            Destination::LunarSurface => "Lunar Surface"@,
            Destination::MarsOrbit => "Mars Orbit"@,
            Destination::MarsSurface => "Mars Surface"@,
        }
    }

    /// Price in dollars per kg of payload delivered here.
    pub open spec fn spec_price_per_kg(self) -> u64 {
        match self {
            Destination::Suborbital => 3000,
            Destination::LowEarthOrbit => 3000,
            Destination::LunarOrbit => 20000,
            Destination::LunarSurface => 50000,
            Destination::MarsOrbit => 80000,
            Destination::MarsSurface => 100000,
        }
    }

    /// Price in dollars per tourist seat; only Suborbital, LEO and Lunar Orbit offer tourism.
    pub open spec fn spec_tourism_price_per_seat(self) -> Option<u64> {
        match self {
            Destination::Suborbital => Some(750_000),
            Destination::LowEarthOrbit => Some(60_000_000),
            Destination::LunarOrbit => Some(125_000_000),
            Destination::LunarSurface => None,
            Destination::MarsOrbit => None,
            Destination::MarsSurface => None,
        }
    }

    /// Every `Destination`, in declaration order.
    pub open spec fn spec_all() -> Seq<Destination> {
        seq![
            Destination::Suborbital,
            Destination::LowEarthOrbit,
            Destination::LunarOrbit,
            Destination::LunarSurface,
            Destination::MarsOrbit,
            Destination::MarsSurface,
        ]
    }

    /// Position of this value in `spec_all`.
    pub open spec fn spec_index(self) -> int {
        match self {
            Destination::Suborbital => 0,
            Destination::LowEarthOrbit => 1,
            Destination::LunarOrbit => 2,
            Destination::LunarSurface => 3,
            Destination::MarsOrbit => 4,
            Destination::MarsSurface => 5,
        }
    }

    /// All destination variants (for iteration).
    pub fn all() -> (r: &'static [Destination])
        ensures
            r@ == Self::spec_all(),
    {
        &[
            Destination::Suborbital,
            Destination::LowEarthOrbit,
            Destination::LunarOrbit,
            Destination::LunarSurface,
            Destination::MarsOrbit,
            Destination::MarsSurface,
        ]
    }

    /// The name shown to the player.
    pub fn display_name(&self) -> (r: &'static str)
        ensures
            r@ == self.spec_display_name(),
    {
        match self {
            Destination::Suborbital => "Suborbital",
            Destination::LowEarthOrbit => "Low Earth Orbit",
            Destination::LunarOrbit => "Lunar Orbit",
            Destination::LunarSurface => "Lunar Surface",
            Destination::MarsOrbit => "Mars Orbit",
            Destination::MarsSurface => "Mars Surface",
        }
    }

    /// Price per kg for payload delivery to this destination.
    pub fn price_per_kg(&self) -> (r: u64)
        ensures
            r == self.spec_price_per_kg(),
    {
        match self {
            Destination::Suborbital => 3000,
            Destination::LowEarthOrbit => 3000,
            Destination::LunarOrbit => 20000,
            Destination::LunarSurface => 50000,
            Destination::MarsOrbit => 80000,
            Destination::MarsSurface => 100000,
        }
    }

    /// Price per seat for tourism (only valid for Suborbital, LEO, Lunar).
    pub fn tourism_price_per_seat(&self) -> (r: Option<u64>)
        ensures
            r == self.spec_tourism_price_per_seat(),
    {
        match self {
            Destination::Suborbital => Some(750_000),
            Destination::LowEarthOrbit => Some(60_000_000),
            Destination::LunarOrbit => Some(125_000_000),
            Destination::LunarSurface => None,
            Destination::MarsOrbit => None,
            Destination::MarsSurface => None,
        }
    }

    /// Whether the objective condition is met for this destination.
    pub open spec fn spec_is_met(self, s: FlightSituation, earth: usize, moon: usize, mars: usize) -> bool {
        match self {
            Destination::Suborbital => s.soi_body == earth && s.above_100_km && s.phase is Flying,
            Destination::LowEarthOrbit => s.soi_body == earth && !s.is_suborbital && s.phase is Flying,
            Destination::LunarOrbit => s.soi_body == moon && !s.is_suborbital && s.phase is Flying,
            Destination::LunarSurface => s.phase == (FlightPhase::Landed { body_index: moon }),
            Destination::MarsOrbit => s.soi_body == mars && !s.is_suborbital && s.phase is Flying,
            Destination::MarsSurface => s.phase == (FlightPhase::Landed { body_index: mars }),
        }
    }

    /// Whether this destination is unlocked based on discovery progress.
    pub open spec fn spec_is_unlocked(self, d: &DiscoveryTracker, moon: usize, mars: usize) -> bool {
        match self {
            Destination::Suborbital => true,
            Destination::LowEarthOrbit => d.first_suborbital,
            Destination::LunarOrbit => d.first_orbit,
            Destination::LunarSurface => d.body_orbited@.contains(moon),
            Destination::MarsOrbit => d.body_landed@.contains(moon),
            Destination::MarsSurface => d.body_orbited@.contains(mars),
        }
    }

    /// Whether the objective condition is met for this destination.
    pub fn is_met(&self, situation: &FlightSituation, system: &BodyHierarchy) -> (r: bool)
        ensures
            r == self.spec_is_met(*situation, system.earth_index, system.moon_index, system.spec_mars_index()),
    {
        let earth_idx = system.earth_index;
        let moon_idx = system.moon_index;
        let mars_idx = system.mars_index();
        let flying = match situation.phase {
            FlightPhase::Flying => true,
            _ => false,
        };
        match self {
            Destination::Suborbital => situation.soi_body == earth_idx && situation.above_100_km && flying,
            Destination::LowEarthOrbit => situation.soi_body == earth_idx && !situation.is_suborbital && flying,
            Destination::LunarOrbit => situation.soi_body == moon_idx && !situation.is_suborbital && flying,
            Destination::LunarSurface => match situation.phase {
                FlightPhase::Landed { body_index } => body_index == moon_idx,
                _ => false,
            },
            Destination::MarsOrbit => situation.soi_body == mars_idx && !situation.is_suborbital && flying,
            Destination::MarsSurface => match situation.phase {
                FlightPhase::Landed { body_index } => body_index == mars_idx,
                _ => false,
            },
        }
    }

    /// Whether this destination is unlocked based on discovery progress.
    pub fn is_unlocked(&self, discoveries: &DiscoveryTracker, system: &BodyHierarchy) -> (r: bool)
        ensures
            r == self.spec_is_unlocked(discoveries, system.moon_index, system.spec_mars_index()),
    {
        let moon_idx = system.moon_index;
        let mars_idx = system.mars_index();
        match self {
            Destination::Suborbital => true,
            Destination::LowEarthOrbit => discoveries.first_suborbital,
            Destination::LunarOrbit => discoveries.first_orbit,
            Destination::LunarSurface => discoveries.body_orbited.contains(&moon_idx),
            Destination::MarsOrbit => discoveries.body_landed.contains(&moon_idx),
            Destination::MarsSurface => discoveries.body_orbited.contains(&mars_idx),
        }
    }
}

/// One-time government milestones, checked automatically.
#[derive(Debug, Clone, Copy, PartialEq, Eq, Hash, Structural)]
pub enum GovernmentMilestone {
    FirstSuborbital,
    FirstOrbital,
    FirstCrewedOrbital,
    FirstLunarOrbit,
    FirstLunarLanding,
    FirstCrewedLunar,
    FirstMarsOrbit,
    FirstMarsLanding,
    FirstCrewedMars,
}

impl GovernmentMilestone {
    /// The name shown to the player.
    pub open spec fn spec_display_name(self) -> Seq<char> {
        match self {
            GovernmentMilestone::FirstSuborbital => "First Suborbital Flight"@,
            GovernmentMilestone::FirstOrbital => "First Orbital Flight"@,
            GovernmentMilestone::FirstCrewedOrbital => "First Crewed Orbital Flight"@,
            GovernmentMilestone::FirstLunarOrbit => "First Lunar Orbit"@,
            GovernmentMilestone::FirstLunarLanding => "First Lunar Landing"@,
            GovernmentMilestone::FirstCrewedLunar => "First Crewed Lunar Mission"@,
            GovernmentMilestone::FirstMarsOrbit => "First Mars Orbit"@,
            GovernmentMilestone::FirstMarsLanding => "First Mars Landing"@,
            GovernmentMilestone::FirstCrewedMars => "First Crewed Mars Mission"@,
        }
    }

    /// Award in dollars.
    pub open spec fn spec_payout(self) -> u64 {
        match self {
            GovernmentMilestone::FirstSuborbital => 5000000,
            GovernmentMilestone::FirstOrbital => 20000000,
            GovernmentMilestone::FirstCrewedOrbital => 50000000,
            GovernmentMilestone::FirstLunarOrbit => 100000000,
            GovernmentMilestone::FirstLunarLanding => 200000000,
            GovernmentMilestone::FirstCrewedLunar => 500000000,
            GovernmentMilestone::FirstMarsOrbit => 300000000,
            GovernmentMilestone::FirstMarsLanding => 500000000,
            GovernmentMilestone::FirstCrewedMars => 1000000000,
        }
    }

    /// Every `GovernmentMilestone`, in declaration order.
    pub open spec fn spec_all() -> Seq<GovernmentMilestone> {
        seq![
            GovernmentMilestone::FirstSuborbital,
            GovernmentMilestone::FirstOrbital,
            GovernmentMilestone::FirstCrewedOrbital,
            GovernmentMilestone::FirstLunarOrbit,
            GovernmentMilestone::FirstLunarLanding,
            GovernmentMilestone::FirstCrewedLunar,
            GovernmentMilestone::FirstMarsOrbit,
            GovernmentMilestone::FirstMarsLanding,
            GovernmentMilestone::FirstCrewedMars,
        ]
    }

    /// Position of this value in `spec_all`.
    pub open spec fn spec_index(self) -> int {
        match self {
            GovernmentMilestone::FirstSuborbital => 0,
            GovernmentMilestone::FirstOrbital => 1,
            GovernmentMilestone::FirstCrewedOrbital => 2,
            GovernmentMilestone::FirstLunarOrbit => 3,
            GovernmentMilestone::FirstLunarLanding => 4,
            GovernmentMilestone::FirstCrewedLunar => 5,
            GovernmentMilestone::FirstMarsOrbit => 6,
            GovernmentMilestone::FirstMarsLanding => 7,
            GovernmentMilestone::FirstCrewedMars => 8,
        }
    }

    /// All milestones, in the order they are checked.
    pub fn all() -> (r: &'static [GovernmentMilestone])
        ensures
            r@ == Self::spec_all(),
    {
        &[
            GovernmentMilestone::FirstSuborbital,
            GovernmentMilestone::FirstOrbital,
            GovernmentMilestone::FirstCrewedOrbital,
            GovernmentMilestone::FirstLunarOrbit,
            GovernmentMilestone::FirstLunarLanding,
            GovernmentMilestone::FirstCrewedLunar,
            GovernmentMilestone::FirstMarsOrbit,
            GovernmentMilestone::FirstMarsLanding,
            GovernmentMilestone::FirstCrewedMars,
        ]
    }

    /// Award in dollars.
    pub fn payout(&self) -> (r: u64)
        ensures
            r == self.spec_payout(),
    {
        match self {
            GovernmentMilestone::FirstSuborbital => 5000000,
            GovernmentMilestone::FirstOrbital => 20000000,
            GovernmentMilestone::FirstCrewedOrbital => 50000000,
            GovernmentMilestone::FirstLunarOrbit => 100000000,
            GovernmentMilestone::FirstLunarLanding => 200000000,
            GovernmentMilestone::FirstCrewedLunar => 500000000,
            GovernmentMilestone::FirstMarsOrbit => 300000000,
            GovernmentMilestone::FirstMarsLanding => 500000000,
            GovernmentMilestone::FirstCrewedMars => 1000000000,
        }
    }

    /// The name shown to the player.
    pub fn display_name(&self) -> (r: &'static str)
        ensures
            r@ == self.spec_display_name(),
    {
        match self {
            GovernmentMilestone::FirstSuborbital => "First Suborbital Flight",
            GovernmentMilestone::FirstOrbital => "First Orbital Flight",
            GovernmentMilestone::FirstCrewedOrbital => "First Crewed Orbital Flight",
            GovernmentMilestone::FirstLunarOrbit => "First Lunar Orbit",
            GovernmentMilestone::FirstLunarLanding => "First Lunar Landing",
            GovernmentMilestone::FirstCrewedLunar => "First Crewed Lunar Mission",
            GovernmentMilestone::FirstMarsOrbit => "First Mars Orbit",
            GovernmentMilestone::FirstMarsLanding => "First Mars Landing",
            GovernmentMilestone::FirstCrewedMars => "First Crewed Mars Mission",
        }
    }

}

/// Every `Destination` stands in `all()` exactly once, at its own index.
pub proof fn lemma_all_lists_every_destination(x: Destination)
    ensures
        0 <= x.spec_index() < Destination::spec_all().len(),
        Destination::spec_all()[x.spec_index()] == x,
        forall|i: int| 0 <= i < Destination::spec_all().len() && Destination::spec_all()[i] == x ==> i == x.spec_index(),
{
    assert forall|i: int| 0 <= i < Destination::spec_all().len() && Destination::spec_all()[i] == x implies i == x.spec_index() by {
        assert(Destination::spec_all()[i].spec_index() == i);
    }
}

/// Every `GovernmentMilestone` stands in `all()` exactly once, at its own index.
pub proof fn lemma_all_lists_every_milestone(x: GovernmentMilestone)
    ensures
        0 <= x.spec_index() < GovernmentMilestone::spec_all().len(),
        GovernmentMilestone::spec_all()[x.spec_index()] == x,
        forall|i: int| 0 <= i < GovernmentMilestone::spec_all().len() && GovernmentMilestone::spec_all()[i] == x ==> i == x.spec_index(),
{
    assert forall|i: int| 0 <= i < GovernmentMilestone::spec_all().len() && GovernmentMilestone::spec_all()[i] == x implies i == x.spec_index() by {
        assert(GovernmentMilestone::spec_all()[i].spec_index() == i);
    }
}

/// Tourism passenger count based on experience (completions at the destination)
/// and a seed.
pub open spec fn spec_tourism_passenger_count(completions: u32, seed: u64) -> u32 {
    let (min, max) = if completions < 3 {
        (1u32, 2u32)
    } else if completions < 10 {
        (2u32, 4u32)
    } else {
        (4u32, 6u32)
    };
    let range = (max - min + 1) as u64;
    (min + ((seed / 13) % range) as u32) as u32
}

/// Tourism passenger count based on experience.
pub fn tourism_passenger_count(completions: u32, seed: u64) -> (r: u32)
    ensures
        r == spec_tourism_passenger_count(completions, seed),
        1 <= r <= 6,
{
    let (min, max): (u32, u32) = if completions < 3 {
        (1, 2)
    } else if completions < 10 {
        (2, 4)
    } else {
        (4, 6)
    };
    let range: u32 = max - min + 1;
    min + ((seed / 13) % (range as u64)) as u32
}

/// The 64-bit mixing of a contract id with the bits of the simulation time.
pub open spec fn spec_simple_hash(id: u64, time_bits: u64) -> u64 {
    let a: u64 = ((id * 6364136223846793005u64) % 0x1_0000_0000_0000_0000) as u64;
    let b: u64 = ((a + 1442695040888963407u64) % 0x1_0000_0000_0000_0000) as u64;
    let c: u64 = b ^ time_bits;
    let d: u64 = ((c * 6364136223846793005u64) % 0x1_0000_0000_0000_0000) as u64;
    let e: u64 = ((d + 1442695040888963407u64) % 0x1_0000_0000_0000_0000) as u64;
    let f: u64 = e ^ (e >> 33u64);
    let g: u64 = ((f * 0xff51afd7ed558ccdu64) % 0x1_0000_0000_0000_0000) as u64;
    g ^ (g >> 33u64)
}

/// Simple deterministic hash of a contract id and the bit pattern of the simulation
/// time (no external dependency).
pub fn simple_hash(id: u64, time_bits: u64) -> (r: u64)
    ensures
        r == spec_simple_hash(id, time_bits),
{
    let mut h = id.wrapping_mul(6364136223846793005).wrapping_add(1442695040888963407);
    h = h ^ time_bits;
    h = h.wrapping_mul(6364136223846793005).wrapping_add(1442695040888963407);
    h = h ^ (h >> 33);
    h = h.wrapping_mul(0xff51afd7ed558ccd);
    h = h ^ (h >> 33);
    h
}

/// What kind of contract this is.
#[derive(Debug, Clone, Copy, PartialEq, Eq, Structural)]
pub enum ContractKind {
    Payload { mass_kg: u64, destination: Destination },
    Tourism {
        passengers: u32,
        destination: Destination,
        /// Set to true when the ship reaches the destination during flight.
        destination_reached: bool,
    },
}

/// A single contract instance.
#[derive(Debug)]
pub struct Contract {
    pub id: u64,
    pub kind: ContractKind,
    /// Award in dollars.
    pub payout: u64,
    pub name: String,
}

impl Default for Contract {
    /// An unnamed, unpaid payload contract of no mass to a suborbital hop.
    fn default() -> (r: Self)
        ensures
            r.id == 0,
            r.kind == (ContractKind::Payload { mass_kg: 0, destination: Destination::Suborbital }),
            r.payout == 0,
            r.name@.len() == 0,
    {
        Contract {
            id: 0,
            kind: ContractKind::Payload { mass_kg: 0, destination: Destination::Suborbital },
            payout: 0,
            name: String::new(),
        }
    }
}

/// A payload object placed into a cargo container for a contract.
#[derive(Debug)]
pub struct ContractPayload {
    pub contract_id: u64,
    pub name: String,
    pub mass_kg: u64,
}

impl Default for ContractPayload {
    /// An unnamed payload of no mass, for contract 0.
    fn default() -> (r: Self)
        ensures
            r.contract_id == 0,
            r.name@.len() == 0,
            r.mass_kg == 0,
    {
        ContractPayload { contract_id: 0, name: String::new(), mass_kg: 0 }
    }
}

/// The destination of a contract kind.
pub open spec fn kind_destination(k: ContractKind) -> Destination {
    match k {
        ContractKind::Payload { destination, .. } => destination,
        ContractKind::Tourism { destination, .. } => destination,
    }
}

impl Contract {
    pub fn destination(&self) -> (r: Destination)
        ensures
            r == kind_destination(self.kind),
    {
        match self.kind {
            ContractKind::Payload { destination, .. } => destination,
            ContractKind::Tourism { destination, .. } => destination,
        }
    }

    /// The text shown for the contract on the board.
    pub open spec fn spec_description(self) -> Seq<char> {
        match self.kind {
            ContractKind::Payload { mass_kg, destination } => "Deliver "@ + decimal(mass_kg as nat) + " kg to "@
                + destination.spec_display_name(),
            ContractKind::Tourism { passengers, destination, .. } => if passengers == 1 {
                "Fly 1 tourist to "@ + destination.spec_display_name() + " and return safely"@
            } else {
                "Fly "@ + decimal(passengers as nat) + " tourists to "@ + destination.spec_display_name()
                    + " and return safely"@
            },
        }
    }

    pub fn description(&self) -> (r: String)
        ensures
            r@ == self.spec_description(),
    {
        match self.kind {
            ContractKind::Payload { mass_kg, destination } => {
                let s = join_str("Deliver ", u64_to_decimal(mass_kg).as_str());
                let s = join_str(s.as_str(), " kg to ");
                join_str(s.as_str(), destination.display_name())
            },
            ContractKind::Tourism { passengers, destination, .. } => {
                if passengers == 1 {
                    let s = join_str("Fly 1 tourist to ", destination.display_name());
                    join_str(s.as_str(), " and return safely")
                } else {
                    let s = join_str("Fly ", u64_to_decimal(passengers as u64).as_str());
                    let s = join_str(s.as_str(), " tourists to ");
                    let s = join_str(s.as_str(), destination.display_name());
                    join_str(s.as_str(), " and return safely")
                }
            },
        }
    }
}

/// Whether the condition of milestone `m` holds.
pub open spec fn milestone_reached(m: GovernmentMilestone, d: &DiscoveryTracker, has_crew: bool, moon: usize, mars: usize) -> bool {
    match m {
        GovernmentMilestone::FirstSuborbital => d.first_suborbital,
        GovernmentMilestone::FirstOrbital => d.first_orbit,
        GovernmentMilestone::FirstCrewedOrbital => has_crew && d.first_crewed_orbit,
        GovernmentMilestone::FirstLunarOrbit => d.body_orbited@.contains(moon),
        GovernmentMilestone::FirstLunarLanding => d.body_landed@.contains(moon),
        GovernmentMilestone::FirstCrewedLunar => has_crew && d.first_crewed_lunar,
        GovernmentMilestone::FirstMarsOrbit => d.body_orbited@.contains(mars),
        GovernmentMilestone::FirstMarsLanding => d.body_landed@.contains(mars),
        GovernmentMilestone::FirstCrewedMars => has_crew && d.first_crewed_mars,
    }
}

/// Whether the condition of milestone `m` holds.
pub fn is_milestone_reached(m: GovernmentMilestone, d: &DiscoveryTracker, has_crew: bool, moon: usize, mars: usize) -> (r: bool)
    ensures
        r == milestone_reached(m, d, has_crew, moon, mars),
{
    match m {
        GovernmentMilestone::FirstSuborbital => d.first_suborbital,
        GovernmentMilestone::FirstOrbital => d.first_orbit,
        GovernmentMilestone::FirstCrewedOrbital => has_crew && d.first_crewed_orbit,
        GovernmentMilestone::FirstLunarOrbit => d.body_orbited.contains(&moon),
        GovernmentMilestone::FirstLunarLanding => d.body_landed.contains(&moon),
        GovernmentMilestone::FirstCrewedLunar => has_crew && d.first_crewed_lunar,
        GovernmentMilestone::FirstMarsOrbit => d.body_orbited.contains(&mars),
        GovernmentMilestone::FirstMarsLanding => d.body_landed.contains(&mars),
        GovernmentMilestone::FirstCrewedMars => has_crew && d.first_crewed_mars,
    }
}

/// No two contracts of `s` share an id.
pub open spec fn ids_distinct(s: Seq<Contract>) -> bool {
    forall|i: int, j: int| 0 <= i < j < s.len() ==> (#[trigger] s[i]).id != (#[trigger] s[j]).id
}

/// No contract of `a` has the id of a contract of `b`.
pub open spec fn ids_disjoint(a: Seq<Contract>, b: Seq<Contract>) -> bool {
    forall|i: int, j: int| 0 <= i < a.len() && 0 <= j < b.len() ==> (#[trigger] a[i]).id != (#[trigger] b[j]).id
}

/// Every contract of `s` has an id below `bound`.
pub open spec fn ids_below(s: Seq<Contract>, bound: u64) -> bool {
    forall|i: int| 0 <= i < s.len() ==> (#[trigger] s[i]).id < bound
}

/// Number of contracts of `s` bound for the destination with index `k`.
pub open spec fn count_for(s: Seq<Contract>, k: int) -> nat
    decreases s.len(),
{
    if s.len() == 0 {
        0
    } else {
        count_for(s.drop_last(), k) + if kind_destination(s.last().kind).spec_index() == k {
            1nat
        } else {
            0nat
        }
    }
}

/// The (name, payout) report of the contracts of `s` with a positive payout.
pub open spec fn payout_report(s: Seq<Contract>) -> Seq<(String, u64)>
    decreases s.len(),
{
    if s.len() == 0 {
        Seq::empty()
    } else if s.last().payout > 0 {
        payout_report(s.drop_last()).push((s.last().name, s.last().payout))
    } else {
        payout_report(s.drop_last())
    }
}

/// A payload contract whose payload is aboard and whose destination is met.
pub open spec fn payload_delivered(c: Contract, payload_ids: Seq<u64>, s: FlightSituation, earth: usize, moon: usize, mars: usize) -> bool {
    match c.kind {
        ContractKind::Payload { destination, .. } => payload_ids.contains(c.id) && destination.spec_is_met(s, earth, moon, mars),
        ContractKind::Tourism { .. } => false,
    }
}

/// A tourism contract whose destination was reached.
pub open spec fn tourism_reached(c: Contract) -> bool {
    c.kind matches ContractKind::Tourism { destination_reached, .. } && destination_reached
}

/// The contract after a check of tourism destinations in situation `s`.
pub open spec fn mark_reached(c: Contract, s: FlightSituation, earth: usize, moon: usize, mars: usize) -> ContractKind {
    match c.kind {
        ContractKind::Tourism { passengers, destination, destination_reached } => ContractKind::Tourism {
            passengers,
            destination,
            destination_reached: destination_reached || destination.spec_is_met(s, earth, moon, mars),
        },
        ContractKind::Payload { .. } => c.kind,
    }
}

/// Manages contract pool, active contracts, milestones.
pub struct ContractManager {
    /// Pool of contracts available for the player to accept.
    pub available: Vec<Contract>,
    /// Contracts the player has accepted and is working on.
    pub active: Vec<Contract>,
    /// IDs of completed contracts (prevents re-accept).
    pub completed_ids: Vec<u64>,
    /// How many completions per destination (for size scaling), by destination index.
    pub completions_by_dest: Vec<u32>,
    /// Government milestones already awarded.
    pub awarded_milestones: Vec<GovernmentMilestone>,
    /// Next unique contract ID.
    pub next_id: u64,
    /// Whether the contract board window is open (editor UI).
    pub show_board: bool,
}

impl ContractManager {
    /// The manager's bookkeeping is consistent: one completion counter per
    /// destination, and contract ids unique and below `next_id`.
    pub open spec fn wf(&self) -> bool {
        &&& self.completions_by_dest@.len() == 6
        &&& ids_distinct(self.available@)
        &&& ids_distinct(self.active@)
        &&& ids_disjoint(self.available@, self.active@)
        &&& ids_below(self.available@, self.next_id)
        &&& ids_below(self.active@, self.next_id)
    }

    /// Completions recorded for destination `d`.
    pub open spec fn spec_completions(&self, d: Destination) -> u32 {
        self.completions_by_dest@[d.spec_index()]
    }

    /// The set of awarded milestones.
    pub open spec fn awarded_set(&self) -> Set<GovernmentMilestone> {
        self.awarded_milestones@.to_set()
    }

    /// Every counter can still take one completion per active contract.
    pub open spec fn has_room(&self) -> bool {
        forall|k: int| 0 <= k < 6 ==> self.completions_by_dest@[k] + self.active@.len() <= u32::MAX
    }

    pub fn new() -> (r: ContractManager)
        ensures
            r.wf(),
            r.available@.len() == 0,
            r.active@.len() == 0,
            r.completed_ids@.len() == 0,
            forall|d: Destination| r.spec_completions(d) == 0,
            r.awarded_set() == Set::<GovernmentMilestone>::empty(),
            r.next_id == 1,
            !r.show_board,
    {
        let mut counts: Vec<u32> = Vec::new();
        let mut k: usize = 0;
        while k < 6
            invariant
                0 <= k <= 6,
                counts@.len() == k,
                forall|j: int| 0 <= j < k ==> counts@[j] == 0,
            decreases 6 - k,
        {
            counts.push(0);
            k += 1;
        }
        let r = ContractManager {
            available: Vec::new(),
            active: Vec::new(),
            completed_ids: Vec::new(),
            completions_by_dest: counts,
            awarded_milestones: Vec::new(),
            next_id: default_next_id(),
            show_board: false,
        };
        proof {
            assert(r.awarded_set() =~= Set::<GovernmentMilestone>::empty());
            assert forall|d: Destination| r.spec_completions(d) == 0 by {
                lemma_all_lists_every_destination(d);
            }
        }
        r
    }

    /// Completions recorded for destination `d`.
    pub fn completions(&self, d: Destination) -> (r: u32)
        requires
            self.wf(),
        ensures
            r == self.spec_completions(d),
    {
        proof {
            lemma_all_lists_every_destination(d);
        }
        let k = destination_index(d);
        self.completions_by_dest[k]
    }

    /// Accept a contract from the available pool.
    pub fn accept(&mut self, contract_id: u64)
        requires
            old(self).wf(),
        ensures
            final(self).wf(),
            match first_with_id(old(self).available@, contract_id) {
                Some(i) => final(self).available@ == old(self).available@.remove(i) && final(self).active@
                    == old(self).active@.push(old(self).available@[i]),
                None => final(self).available@ == old(self).available@ && final(self).active@ == old(self).active@,
            },
            final(self).completed_ids@ == old(self).completed_ids@,
            final(self).completions_by_dest@ == old(self).completions_by_dest@,
            final(self).awarded_milestones@ == old(self).awarded_milestones@,
            final(self).next_id == old(self).next_id,
            final(self).show_board == old(self).show_board,
    {
        match position_of(&self.available, contract_id) {
            Some(pos) => {
                let ghost av = self.available@;
                let ghost ac = self.active@;
                let contract = self.available.remove(pos);
                self.active.push(contract);
                proof {
                    lemma_remove_keeps_ids(av, pos as int);
                    assert forall|i: int, j: int|
                        0 <= i < self.available@.len() && 0 <= j < self.active@.len()
                        implies (#[trigger] self.available@[i]).id != (#[trigger] self.active@[j]).id by {
                        if j == ac.len() {
                            if i < pos {
                                assert(self.available@[i] == av[i]);
                            } else {
                                assert(self.available@[i] == av[i + 1]);
                            }
                        } else {
                            assert(self.active@[j] == ac[j]);
                        }
                    }
                    assert forall|i: int, j: int| 0 <= i < j < self.active@.len()
                        implies (#[trigger] self.active@[i]).id != (#[trigger] self.active@[j]).id by {
                        if j == ac.len() {
                            assert(self.active@[i] == ac[i]);
                        }
                    }
                    assert forall|i: int| 0 <= i < self.active@.len() implies (#[trigger] self.active@[i]).id < self.next_id by {
                        if i < ac.len() {
                            assert(self.active@[i] == ac[i]);
                        }
                    }
                }
            },
            None => {},
        }
    }

    /// Cancel an active contract. Returns payloads that should be removed from cargo.
    pub fn cancel(&mut self, contract_id: u64) -> (r: Vec<u64>)
        requires
            old(self).wf(),
        ensures
            final(self).wf(),
            match first_with_id(old(self).active@, contract_id) {
                Some(i) => final(self).active@ == old(self).active@.remove(i) && r@ == seq![contract_id],
                None => final(self).active@ == old(self).active@ && r@.len() == 0,
            },
            final(self).available@ == old(self).available@,
            final(self).completed_ids@ == old(self).completed_ids@,
            final(self).completions_by_dest@ == old(self).completions_by_dest@,
            final(self).awarded_milestones@ == old(self).awarded_milestones@,
            final(self).next_id == old(self).next_id,
            final(self).show_board == old(self).show_board,
    {
        let mut removed_ids: Vec<u64> = Vec::new();
        match position_of(&self.active, contract_id) {
            Some(pos) => {
                let ghost ac = self.active@;
                removed_ids.push(contract_id);
                self.active.remove(pos);
                proof {
                    lemma_remove_keeps_ids(ac, pos as int);
                    assert forall|i: int, j: int|
                        0 <= i < self.available@.len() && 0 <= j < self.active@.len()
                        implies (#[trigger] self.available@[i]).id != (#[trigger] self.active@[j]).id by {
                        if j < pos {
                            assert(self.active@[j] == ac[j]);
                        } else {
                            assert(self.active@[j] == ac[j + 1]);
                        }
                    }
                }
            },
            None => {},
        }
        removed_ids
    }

    /// Check government milestones and return newly awarded ones (with their award).
    pub fn check_milestones(&mut self, discoveries: &DiscoveryTracker, has_crew: bool, system: &BodyHierarchy) -> (r: Vec<(GovernmentMilestone, u64)>)
        requires
            old(self).wf(),
        ensures
            final(self).wf(),
            final(self).awarded_set() == old(self).awarded_set().union(Set::new(|m: GovernmentMilestone|
                milestone_reached(m, discoveries, has_crew, system.moon_index, system.spec_mars_index()))),
            r@ == GovernmentMilestone::spec_all().filter(|m: GovernmentMilestone|
                milestone_reached(m, discoveries, has_crew, system.moon_index, system.spec_mars_index())
                    && !old(self).awarded_set().contains(m)).map_values(|m: GovernmentMilestone| (m, m.spec_payout())),
            final(self).available@ == old(self).available@,
            final(self).active@ == old(self).active@,
            final(self).completed_ids@ == old(self).completed_ids@,
            final(self).completions_by_dest@ == old(self).completions_by_dest@,
            final(self).next_id == old(self).next_id,
            final(self).show_board == old(self).show_board,
    {
        let moon_idx = system.moon_index;
        let mars_idx = system.mars_index();
        self.award_reached(discoveries, has_crew, moon_idx, mars_idx)
    }

    /// Sync awarded milestones to match current discovery state, without payouts.
    /// Called on save load to prevent re-awarding milestones from old saves where
    /// discoveries happened before the milestone system existed.
    pub fn sync_milestones_from_discoveries(&mut self, discoveries: &DiscoveryTracker, system: &BodyHierarchy)
        requires
            old(self).wf(),
        ensures
            final(self).wf(),
            final(self).awarded_set() == old(self).awarded_set().union(Set::new(|m: GovernmentMilestone|
                milestone_reached(m, discoveries, true, system.moon_index, system.spec_mars_index()))),
            final(self).available@ == old(self).available@,
            final(self).active@ == old(self).active@,
            final(self).completed_ids@ == old(self).completed_ids@,
            final(self).completions_by_dest@ == old(self).completions_by_dest@,
            final(self).next_id == old(self).next_id,
            final(self).show_board == old(self).show_board,
    {
        let moon_idx = system.moon_index;
        let mars_idx = system.mars_index();
        let _ = self.award_reached(discoveries, true, moon_idx, mars_idx);
    }

    /// Award every reached milestone not awarded yet, in the order of `all()`.
    fn award_reached(&mut self, discoveries: &DiscoveryTracker, has_crew: bool, moon: usize, mars: usize) -> (r: Vec<(GovernmentMilestone, u64)>)
        requires
            old(self).wf(),
        ensures
            final(self).wf(),
            final(self).awarded_set() == old(self).awarded_set().union(Set::new(|m: GovernmentMilestone|
                milestone_reached(m, discoveries, has_crew, moon, mars))),
            r@ == GovernmentMilestone::spec_all().filter(|m: GovernmentMilestone|
                milestone_reached(m, discoveries, has_crew, moon, mars) && !old(self).awarded_set().contains(m)).map_values(
                |m: GovernmentMilestone| (m, m.spec_payout())),
            final(self).available@ == old(self).available@,
            final(self).active@ == old(self).active@,
            final(self).completed_ids@ == old(self).completed_ids@,
            final(self).completions_by_dest@ == old(self).completions_by_dest@,
            final(self).next_id == old(self).next_id,
            final(self).show_board == old(self).show_board,
    {
        let ghost old_set = self.awarded_set();
        let ghost pred = |m: GovernmentMilestone|
            milestone_reached(m, discoveries, has_crew, moon, mars) && !old_set.contains(m);
        let ghost payout_of = |m: GovernmentMilestone| (m, m.spec_payout());
        let all = GovernmentMilestone::all();
        let mut awarded: Vec<(GovernmentMilestone, u64)> = Vec::new();
        let mut i: usize = 0;
        while i < all.len()
            invariant
                all@ == GovernmentMilestone::spec_all(),
                0 <= i <= all@.len(),
                old_set == old(self).awarded_set(),
                forall|x: GovernmentMilestone| #[trigger] pred(x) == (milestone_reached(x, discoveries, has_crew, moon, mars) && !old_set.contains(x)),
                forall|x: GovernmentMilestone| #[trigger] payout_of(x) == (x, x.spec_payout()),
                self.wf(),
                self.available@ == old(self).available@,
                self.active@ == old(self).active@,
                self.completed_ids@ == old(self).completed_ids@,
                self.completions_by_dest@ == old(self).completions_by_dest@,
                self.next_id == old(self).next_id,
                self.show_board == old(self).show_board,
                self.awarded_set() == old(self).awarded_set().union(Set::new(|m: GovernmentMilestone|
                    milestone_reached(m, discoveries, has_crew, moon, mars) && all@.take(i as int).contains(m))),
                awarded@ == all@.take(i as int).filter(pred).map_values(payout_of),
            decreases all@.len() - i,
        {
            let m = all[i];
            let ghost before_set = self.awarded_set();
            let ghost before_vec = self.awarded_milestones@;
            proof {
                lemma_all_lists_every_milestone(m);
            }
            let reached = is_milestone_reached(m, discoveries, has_crew, moon, mars);
            let already = milestone_listed(&self.awarded_milestones, m);
            if reached && !already {
                self.awarded_milestones.push(m);
                awarded.push((m, m.payout()));
                proof {
                    let ghost prev = before_vec;
                    assert(self.awarded_milestones@ == before_vec.push(m));
                    assert forall|x: GovernmentMilestone| self.awarded_milestones@.contains(x) == (prev.contains(x) || x == m) by {
                        if self.awarded_milestones@.contains(x) {
                            let k = self.awarded_milestones@.index_of(x);
                            if k < prev.len() {
                                assert(prev[k] == x);
                            }
                        }
                        if prev.contains(x) {
                            let k = prev.index_of(x);
                            assert(self.awarded_milestones@[k] == x);
                        }
                        if x == m {
                            assert(self.awarded_milestones@[prev.len() as int] == x);
                        }
                    }
                    assert(self.awarded_set() =~= before_set.insert(m));
                    assert(!before_vec.contains(m));
                    assert(!before_set.contains(m));
                    assert(!old(self).awarded_set().contains(m));
                    assert(pred(m));
                }
            } else {
                proof {
                    if reached {
                        assert(before_vec.contains(m));
                        assert(before_set.contains(m));
                        if !old(self).awarded_set().contains(m) {
                            assert(all@.take(i as int).contains(m));
                            let k = all@.take(i as int).index_of(m);
                            assert(all@[k] == m);
                        }
                    }
                    assert(!pred(m));
                }
            }
            proof {
                assert forall|x: GovernmentMilestone| all@.take(i + 1).contains(x) == (all@.take(i as int).contains(x) || x == m) by {
                    if all@.take(i + 1).contains(x) {
                        let k = all@.take(i + 1).index_of(x);
                        if k < i {
                            assert(all@.take(i as int)[k] == x);
                        }
                    }
                    if all@.take(i as int).contains(x) {
                        let k = all@.take(i as int).index_of(x);
                        assert(all@.take(i + 1)[k] == x);
                    }
                    if x == m {
                        assert(all@.take(i + 1)[i as int] == x);
                    }
                }
                assert(self.awarded_set() =~= old(self).awarded_set().union(Set::new(|x: GovernmentMilestone|
                    milestone_reached(x, discoveries, has_crew, moon, mars) && all@.take(i + 1).contains(x))));
                assert(all@.take(i + 1) =~= all@.take(i as int).push(m));
                all@.take(i as int).lemma_filter_push(m, pred);
                assert(awarded@ =~= all@.take(i + 1).filter(pred).map_values(payout_of));
            }
            i += 1;
        }
        proof {
            assert(all@.take(i as int) =~= all@);
            assert forall|x: GovernmentMilestone| all@.contains(x) by {
                lemma_all_lists_every_milestone(x);
                assert(all@[x.spec_index()] == x);
            }
            assert(self.awarded_set() =~= old(self).awarded_set().union(Set::new(|m: GovernmentMilestone|
                milestone_reached(m, discoveries, has_crew, moon, mars))));
        }
        awarded
    }
}

/// Index of the first contract of `s` with id `id`.
pub open spec fn first_with_id(s: Seq<Contract>, id: u64) -> Option<int> {
    if exists|i: int| 0 <= i < s.len() && (#[trigger] s[i]).id == id {
        Some(choose|i: int| 0 <= i < s.len() && s[i].id == id && forall|j: int| 0 <= j < i ==> (#[trigger] s[j]).id != id)
    } else {
        None
    }
}

/// Position of the first contract with the given id.
fn position_of(v: &Vec<Contract>, id: u64) -> (r: Option<usize>)
    ensures
        match r {
            Some(i) => first_with_id(v@, id) == Some(i as int) && i < v@.len(),
            None => first_with_id(v@, id) is None,
        },
{
    let mut i: usize = 0;
    while i < v.len()
        invariant
            0 <= i <= v@.len(),
            forall|j: int| 0 <= j < i ==> (#[trigger] v@[j]).id != id,
        decreases v@.len() - i,
    {
        if v[i].id == id {
            proof {
                let k = choose|k: int| 0 <= k < v@.len() && v@[k].id == id && forall|j: int| 0 <= j < k ==> (#[trigger] v@[j]).id != id;
                if k > i as int {
                    assert(v@[i as int].id != id);
                }
            }
            return Some(i);
        }
        i += 1;
    }
    None
}

/// Removing a contract keeps the ids distinct and below any bound they were below.
proof fn lemma_remove_keeps_ids(s: Seq<Contract>, pos: int)
    requires
        0 <= pos < s.len(),
    ensures
        ids_distinct(s) ==> ids_distinct(s.remove(pos)),
        forall|b: u64| ids_below(s, b) ==> ids_below(#[trigger] s.remove(pos), b),
        forall|i: int| 0 <= i < s.remove(pos).len() ==> (#[trigger] s.remove(pos)[i]) == (if i < pos { s[i] } else { s[i + 1] }),
{
    let r = s.remove(pos);
    if ids_distinct(s) {
        assert forall|i: int, j: int| 0 <= i < j < r.len() implies (#[trigger] r[i]).id != (#[trigger] r[j]).id by {
            let a = if i < pos { i } else { i + 1 };
            let b = if j < pos { j } else { j + 1 };
            assert(r[i] == s[a]);
            assert(r[j] == s[b]);
        }
    }
    assert forall|b: u64| ids_below(s, b) implies ids_below(#[trigger] s.remove(pos), b) by {
        assert forall|i: int| 0 <= i < r.len() implies (#[trigger] r[i]).id < b by {
            if i < pos {
                assert(r[i] == s[i]);
            } else {
                assert(r[i] == s[i + 1]);
            }
        }
    }
}

/// Whether `m` is listed in `v`.
fn milestone_listed(v: &Vec<GovernmentMilestone>, m: GovernmentMilestone) -> (r: bool)
    ensures
        r == v@.contains(m),
{
    let mut i: usize = 0;
    while i < v.len()
        invariant
            0 <= i <= v@.len(),
            forall|j: int| 0 <= j < i ==> v@[j] != m,
        decreases v@.len() - i,
    {
        if v[i] == m {
            return true;
        }
        i += 1;
    }
    false
}

/// The index of a destination in `Destination::all()`.
fn destination_index(d: Destination) -> (r: usize)
    ensures
        r == d.spec_index(),
{
    match d {
        Destination::Suborbital => 0,
        Destination::LowEarthOrbit => 1,
        Destination::LunarOrbit => 2,
        Destination::LunarSurface => 3,
        Destination::MarsOrbit => 4,
        Destination::MarsSurface => 5,
    }
}

/// Every contract kept by a filter comes from the filtered sequence, and the
/// filter keeps ids distinct.
pub proof fn lemma_filter_keeps_ids(s: Seq<Contract>, p: spec_fn(Contract) -> bool)
    ensures
        forall|x: Contract| s.filter(p).contains(x) ==> s.contains(x),
        ids_distinct(s) ==> ids_distinct(s.filter(p)),
        s.filter(p).len() <= s.len(),
    decreases s.len(),
{
    if s.len() > 0 {
        let init = s.drop_last();
        let last = s.last();
        assert(s =~= init.push(last));
        init.lemma_filter_push(last, p);
        lemma_filter_keeps_ids(init, p);
        assert forall|x: Contract| s.filter(p).contains(x) implies s.contains(x) by {
            let k = s.filter(p).index_of(x);
            if p(last) && k == init.filter(p).len() {
                assert(s[s.len() - 1] == x);
            } else {
                assert(init.filter(p)[k] == x);
                assert(init.filter(p).contains(x));
                assert(init.contains(x));
                let j = choose|j: int| 0 <= j < init.len() && init[j] == x;
                assert(s[j] == x);
            }
        }
        if ids_distinct(s) {
            assert(ids_distinct(init)) by {
                assert forall|i: int, j: int| 0 <= i < j < init.len() implies (#[trigger] init[i]).id != (#[trigger] init[j]).id by {
                    assert(init[i] == s[i]);
                    assert(init[j] == s[j]);
                }
            }
            if p(last) {
                let f = init.filter(p);
                assert forall|i: int, j: int| 0 <= i < j < f.push(last).len() implies (#[trigger] f.push(last)[i]).id != (#[trigger] f.push(last)[j]).id by {
                    if j == f.len() {
                        assert(f.push(last)[i] == f[i]);
                        assert(f.contains(f[i]));
                        assert(init.contains(f[i]));
                        let k = choose|k: int| 0 <= k < init.len() && init[k] == f[i];
                        assert(s[k] == f[i]);
                        assert(s[s.len() - 1] == last);
                    } else {
                        assert(f.push(last)[i] == f[i]);
                        assert(f.push(last)[j] == f[j]);
                    }
                }
            }
        }
    }
}

/// A count of contracts never exceeds their number.
pub proof fn lemma_count_for_bounded(s: Seq<Contract>, k: int)
    ensures
        count_for(s, k) <= s.len(),
    decreases s.len(),
{
    if s.len() > 0 {
        lemma_count_for_bounded(s.drop_last(), k);
    }
}

impl Default for ContractManager {
    /// An empty board with no completions or milestones, handing out ids from 1.
    fn default() -> (r: Self)
        ensures
            r.wf(),
            r.available@.len() == 0,
            r.active@.len() == 0,
            r.completed_ids@.len() == 0,
            forall|d: Destination| r.spec_completions(d) == 0,
            r.awarded_set() == Set::<GovernmentMilestone>::empty(),
            r.next_id == 1,
            !r.show_board,
    {
        ContractManager::new()
    }
}

impl ContractManager {
    /// The state after the active contracts satisfying `done` were completed:
    /// they leave the active list (the others keep their order), their ids are
    /// recorded in order, and each destination's counter grows by the number of
    /// them bound there.
    pub open spec fn completed_from(self, before: ContractManager, done: spec_fn(Contract) -> bool) -> bool {
        &&& self.active@ == before.active@.filter(|c: Contract| !done(c))
        &&& self.completed_ids@ == before.completed_ids@ + before.active@.filter(done).map_values(|c: Contract| c.id)
        &&& self.completions_by_dest@.len() == 6
        &&& forall|k: int| 0 <= k < 6 ==> #[trigger] self.completions_by_dest@[k] == before.completions_by_dest@[k]
            + count_for(before.active@.filter(done), k)
        &&& self.available@ == before.available@
        &&& self.awarded_milestones@ == before.awarded_milestones@
        &&& self.next_id == before.next_id
        &&& self.show_board == before.show_board
    }

    /// Complete the active contracts marked in `marks` (which tells, position by
    /// position, whether `done` holds), and report those with a positive payout.
    fn complete_marked(&mut self, marks: &Vec<bool>, Ghost(done): Ghost<spec_fn(Contract) -> bool>) -> (r: Vec<(String, u64)>)
        requires
            old(self).wf(),
            old(self).has_room(),
            marks@.len() == old(self).active@.len(),
            forall|i: int| 0 <= i < marks@.len() ==> marks@[i] == done(#[trigger] old(self).active@[i]),
        ensures
            final(self).wf(),
            final(self).completed_from(*old(self), done),
            r@ == payout_report(old(self).active@.filter(done)),
    {
        let ghost orig = self.active@;
        let ghost keep = |c: Contract| !done(c);
        let mut rest: Vec<Contract> = Vec::new();
        std::mem::swap(&mut rest, &mut self.active);
        let mut report: Vec<(String, u64)> = Vec::new();
        let mut i: usize = 0;
        let n = rest.len();
        proof {
            assert(orig.take(0) =~= Seq::<Contract>::empty());
            assert(orig.skip(0) =~= orig);
            reveal_with_fuel(Seq::filter, 1);
        }
        while i < n
            invariant
                n == orig.len(),
                0 <= i <= n,
                marks@.len() == n,
                forall|j: int| 0 <= j < n ==> marks@[j] == done(#[trigger] orig[j]),
                forall|c: Contract| #[trigger] keep(c) == !done(c),
                rest@ == orig.skip(i as int),
                self.active@ == orig.take(i as int).filter(keep),
                self.completed_ids@ == old(self).completed_ids@ + orig.take(i as int).filter(done).map_values(|c: Contract| c.id),
                self.completions_by_dest@.len() == 6,
                forall|k: int| 0 <= k < 6 ==> #[trigger] self.completions_by_dest@[k] == old(self).completions_by_dest@[k]
                    + count_for(orig.take(i as int).filter(done), k),
                forall|k: int| 0 <= k < 6 ==> old(self).completions_by_dest@[k] + n <= u32::MAX,
                report@ == payout_report(orig.take(i as int).filter(done)),
                self.available@ == old(self).available@,
                self.awarded_milestones@ == old(self).awarded_milestones@,
                self.next_id == old(self).next_id,
                self.show_board == old(self).show_board,
            decreases n - i,
        {
            let ghost prefix = orig.take(i as int);
            let c = rest.remove(0);
            proof {
                assert(c == orig[i as int]);
                assert(rest@ =~= orig.skip(i + 1));
                assert(orig.take(i + 1) =~= prefix.push(c));
                prefix.lemma_filter_push(c, keep);
                prefix.lemma_filter_push(c, done);
            }
            if marks[i] {
                let k = destination_index(c.destination());
                proof {
                    lemma_all_lists_every_destination(kind_destination(c.kind));
                    lemma_filter_keeps_ids(prefix, done);
                    lemma_count_for_bounded(prefix.filter(done), k as int);
                    assert(prefix.filter(done).push(c).drop_last() =~= prefix.filter(done));
                }
                let count = self.completions_by_dest[k];
                self.completions_by_dest.set(k, count + 1);
                self.completed_ids.push(c.id);
                if c.payout > 0 {
                    report.push((c.name, c.payout));
                }
                proof {
                    assert forall|kk: int| 0 <= kk < 6 implies #[trigger] self.completions_by_dest@[kk]
                        == old(self).completions_by_dest@[kk] + count_for(orig.take(i + 1).filter(done), kk) by {}
                    assert(self.completed_ids@ =~= old(self).completed_ids@ + orig.take(i + 1).filter(done).map_values(|c: Contract| c.id));
                }
            } else {
                self.active.push(c);
            }
            i += 1;
        }
        proof {
            assert(orig.take(n as int) =~= orig);
            lemma_filter_keeps_ids(orig, keep);
            let a = self.active@;
            assert forall|x: int, y: int| 0 <= x < self.available@.len() && 0 <= y < a.len()
                implies (#[trigger] self.available@[x]).id != (#[trigger] a[y]).id by {
                assert(a.contains(a[y]));
                assert(orig.contains(a[y]));
                let j = choose|j: int| 0 <= j < orig.len() && orig[j] == a[y];
                assert(orig[j] == a[y]);
            }
            assert forall|y: int| 0 <= y < a.len() implies (#[trigger] a[y]).id < self.next_id by {
                assert(a.contains(a[y]));
                assert(orig.contains(a[y]));
                let j = choose|j: int| 0 <= j < orig.len() && orig[j] == a[y];
                assert(orig[j] == a[y]);
            }
            assert(a =~= orig.filter(|c: Contract| !done(c)));
        }
        report
    }

    /// Check payload contracts against current vessel state: every active payload
    /// contract whose payload is aboard and whose destination is met is completed.
    /// Returns (contract name, payout) for the completed contracts with a payout.
    pub fn check_payload_contracts(
        &mut self,
        vessel_payloads: &[ContractPayload],
        situation: &FlightSituation,
        system: &BodyHierarchy,
    ) -> (r: Vec<(String, u64)>)
        requires
            old(self).wf(),
            old(self).has_room(),
        ensures
            final(self).wf(),
            final(self).completed_from(*old(self), |c: Contract| payload_delivered(c,
                vessel_payloads@.map_values(|p: ContractPayload| p.contract_id), *situation,
                system.earth_index, system.moon_index, system.spec_mars_index())),
            r@ == payout_report(old(self).active@.filter(|c: Contract| payload_delivered(c,
                vessel_payloads@.map_values(|p: ContractPayload| p.contract_id), *situation,
                system.earth_index, system.moon_index, system.spec_mars_index()))),
    {
        let ghost ids = vessel_payloads@.map_values(|p: ContractPayload| p.contract_id);
        let ghost done = |c: Contract| payload_delivered(c, ids, *situation, system.earth_index, system.moon_index, system.spec_mars_index());
        let mut marks: Vec<bool> = Vec::new();
        let mut i: usize = 0;
        while i < self.active.len()
            invariant
                0 <= i <= self.active@.len(),
                marks@.len() == i,
                forall|j: int| 0 <= j < i ==> marks@[j] == done(#[trigger] self.active@[j]),
                forall|c: Contract| #[trigger] done(c) == payload_delivered(c, ids, *situation, system.earth_index, system.moon_index, system.spec_mars_index()),
                ids == vessel_payloads@.map_values(|p: ContractPayload| p.contract_id),
            decreases self.active@.len() - i,
        {
            let c = &self.active[i];
            let mark = match c.kind {
                ContractKind::Payload { destination, .. } => {
                    payload_aboard(vessel_payloads, c.id) && destination.is_met(situation, system)
                },
                ContractKind::Tourism { .. } => false,
            };
            marks.push(mark);
            i += 1;
        }
        self.complete_marked(&marks, Ghost(done))
    }

    /// On vessel recovery, complete all tourism contracts whose destination was
    /// reached. Returns (contract name, payout) for the completed contracts with a payout.
    pub fn check_tourism_recovery(&mut self) -> (r: Vec<(String, u64)>)
        requires
            old(self).wf(),
            old(self).has_room(),
        ensures
            final(self).wf(),
            final(self).completed_from(*old(self), |c: Contract| tourism_reached(c)),
            r@ == payout_report(old(self).active@.filter(|c: Contract| tourism_reached(c))),
    {
        let ghost done = |c: Contract| tourism_reached(c);
        let mut marks: Vec<bool> = Vec::new();
        let mut i: usize = 0;
        while i < self.active.len()
            invariant
                0 <= i <= self.active@.len(),
                marks@.len() == i,
                forall|j: int| 0 <= j < i ==> marks@[j] == done(#[trigger] self.active@[j]),
                forall|c: Contract| #[trigger] done(c) == tourism_reached(c),
            decreases self.active@.len() - i,
        {
            let mark = match self.active[i].kind {
                ContractKind::Tourism { destination_reached, .. } => destination_reached,
                ContractKind::Payload { .. } => false,
            };
            marks.push(mark);
            i += 1;
        }
        self.complete_marked(&marks, Ghost(done))
    }

    /// Update tourism destination_reached flags based on current ship state
    /// (only when the vessel carries crew).
    pub fn check_tourism_destinations(&mut self, situation: &FlightSituation, has_crew: bool, system: &BodyHierarchy)
        requires
            old(self).wf(),
        ensures
            final(self).wf(),
            final(self).active@.len() == old(self).active@.len(),
            forall|i: int| 0 <= i < old(self).active@.len() ==> {
                let c = #[trigger] old(self).active@[i];
                &&& final(self).active@[i].id == c.id
                &&& final(self).active@[i].payout == c.payout
                &&& final(self).active@[i].name == c.name
                &&& final(self).active@[i].kind == if has_crew {
                    mark_reached(c, *situation, system.earth_index, system.moon_index, system.spec_mars_index())
                } else {
                    c.kind
                }
            },
            final(self).available@ == old(self).available@,
            final(self).completed_ids@ == old(self).completed_ids@,
            final(self).completions_by_dest@ == old(self).completions_by_dest@,
            final(self).awarded_milestones@ == old(self).awarded_milestones@,
            final(self).next_id == old(self).next_id,
            final(self).show_board == old(self).show_board,
    {
        if !has_crew {
            return;
        }
        let mut i: usize = 0;
        while i < self.active.len()
            invariant
                0 <= i <= self.active@.len(),
                self.active@.len() == old(self).active@.len(),
                forall|j: int| 0 <= j < old(self).active@.len() ==> {
                    let c = #[trigger] old(self).active@[j];
                    &&& self.active@[j].id == c.id
                    &&& self.active@[j].payout == c.payout
                    &&& self.active@[j].name == c.name
                    &&& self.active@[j].kind == if j < i {
                        mark_reached(c, *situation, system.earth_index, system.moon_index, system.spec_mars_index())
                    } else {
                        c.kind
                    }
                },
                self.available@ == old(self).available@,
                self.completed_ids@ == old(self).completed_ids@,
                self.completions_by_dest@ == old(self).completions_by_dest@,
                self.awarded_milestones@ == old(self).awarded_milestones@,
                self.next_id == old(self).next_id,
                self.show_board == old(self).show_board,
            decreases self.active@.len() - i,
        {
            let new_kind = match self.active[i].kind {
                ContractKind::Tourism { passengers, destination, destination_reached } => {
                    if !destination_reached && destination.is_met(situation, system) {
                        ContractKind::Tourism { passengers, destination, destination_reached: true }
                    } else {
                        ContractKind::Tourism { passengers, destination, destination_reached }
                    }
                },
                ContractKind::Payload { mass_kg, destination } => ContractKind::Payload { mass_kg, destination },
            };
            let ghost before = self.active@;
            self.active[i].kind = new_kind;
            proof {
                assert forall|j: int| 0 <= j < before.len() && j != i implies self.active@[j] == before[j] by {}
            }
            i += 1;
        }
        proof {
            assert(ids_distinct(self.active@)) by {
                assert forall|x: int, y: int| 0 <= x < y < self.active@.len()
                    implies (#[trigger] self.active@[x]).id != (#[trigger] self.active@[y]).id by {
                    assert(self.active@[x].id == old(self).active@[x].id);
                    assert(self.active@[y].id == old(self).active@[y].id);
                }
            }
            assert forall|x: int, y: int| 0 <= x < self.available@.len() && 0 <= y < self.active@.len()
                implies (#[trigger] self.available@[x]).id != (#[trigger] self.active@[y]).id by {
                assert(self.active@[y].id == old(self).active@[y].id);
            }
            assert forall|y: int| 0 <= y < self.active@.len() implies (#[trigger] self.active@[y]).id < self.next_id by {
                assert(self.active@[y].id == old(self).active@[y].id);
            }
        }
    }
}

/// Whether one of the payloads carries the given contract id.
fn payload_aboard(payloads: &[ContractPayload], id: u64) -> (r: bool)
    ensures
        r == payloads@.map_values(|p: ContractPayload| p.contract_id).contains(id),
{
    let ghost ids = payloads@.map_values(|p: ContractPayload| p.contract_id);
    let mut i: usize = 0;
    while i < payloads.len()
        invariant
            0 <= i <= payloads@.len(),
            ids == payloads@.map_values(|p: ContractPayload| p.contract_id),
            forall|j: int| 0 <= j < i ==> ids[j] != id,
        decreases payloads@.len() - i,
    {
        if payloads[i].contract_id == id {
            assert(ids[i as int] == id);
            return true;
        }
        i += 1;
    }
    false
}

/// The payload contracts of `s`, in order.
pub open spec fn payload_contracts(s: Seq<Contract>) -> Seq<Contract> {
    s.filter(|c: Contract| c.kind is Payload)
}

/// The destinations unlocked by the discoveries, in the order of `all()`.
pub open spec fn spec_eligible(d: &DiscoveryTracker, moon: usize, mars: usize) -> Seq<Destination> {
    Destination::spec_all().filter(|x: Destination| x.spec_is_unlocked(d, moon, mars))
}

/// The shape of the next contract drawn with `seed`: its destination and whether
/// it is a tourism contract (about 30% of draws, where tourism is offered).
pub open spec fn spec_contract_shape(eligible: Seq<Destination>, seed: u64) -> Option<(Destination, bool)> {
    if eligible.len() == 0 {
        None
    } else {
        let dest = eligible[(seed % (eligible.len() as u64)) as int];
        Some((dest, (seed / 7) % 10 < 3 && dest.spec_tourism_price_per_seat() is Some))
    }
}

/// The name of a new contract.
pub open spec fn contract_name(dest: Destination, tourism: bool, id: u64) -> Seq<char> {
    dest.spec_display_name() + (if tourism { " Tourism #"@ } else { " Delivery #"@ }) + decimal(id as nat)
}

impl ContractManager {
    /// Collect the destinations unlocked by the discoveries.
    pub fn eligible_destinations(discoveries: &DiscoveryTracker, system: &BodyHierarchy) -> (r: Vec<Destination>)
        ensures
            r@ == spec_eligible(discoveries, system.moon_index, system.spec_mars_index()),
    {
        let ghost pred = |x: Destination| x.spec_is_unlocked(discoveries, system.moon_index, system.spec_mars_index());
        let all = Destination::all();
        let mut r: Vec<Destination> = Vec::new();
        let mut i: usize = 0;
        assert(all@.take(0) =~= Seq::<Destination>::empty());
        proof {
            reveal_with_fuel(Seq::filter, 1);
        }
        while i < all.len()
            invariant
                all@ == Destination::spec_all(),
                0 <= i <= all@.len(),
                forall|x: Destination| #[trigger] pred(x) == x.spec_is_unlocked(discoveries, system.moon_index, system.spec_mars_index()),
                r@ == all@.take(i as int).filter(pred),
            decreases all@.len() - i,
        {
            let d = all[i];
            proof {
                assert(all@.take(i + 1) =~= all@.take(i as int).push(d));
                all@.take(i as int).lemma_filter_push(d, pred);
            }
            if d.is_unlocked(discoveries, system) {
                r.push(d);
            }
            i += 1;
        }
        assert(all@.take(i as int) =~= all@);
        r
    }

    /// Pick the destination and kind of the next contract from a seed, among the
    /// unlocked destinations; `None` when no destination is unlocked.
    pub fn choose_contract(discoveries: &DiscoveryTracker, system: &BodyHierarchy, seed: u64) -> (r: Option<(Destination, bool)>)
        ensures
            r == spec_contract_shape(spec_eligible(discoveries, system.moon_index, system.spec_mars_index()), seed),
    {
        let eligible = Self::eligible_destinations(discoveries, system);
        if eligible.len() == 0 {
            return None;
        }
        let dest = eligible[(seed % (eligible.len() as u64)) as usize];
        let is_tourism = (seed / 7) % 10 < 3 && dest.tourism_price_per_seat().is_some();
        Some((dest, is_tourism))
    }

    /// Add a new contract with the next id to the pool.
    fn push_new(&mut self, kind: ContractKind, payout: u64, tourism: bool) -> (r: u64)
        requires
            old(self).wf(),
            old(self).next_id < u64::MAX,
        ensures
            final(self).wf(),
            r == old(self).next_id,
            final(self).next_id == old(self).next_id + 1,
            final(self).available@.len() == old(self).available@.len() + 1,
            final(self).available@.drop_last() == old(self).available@,
            final(self).available@.last().id == r,
            final(self).available@.last().kind == kind,
            final(self).available@.last().payout == payout,
            final(self).available@.last().name@ == contract_name(kind_destination(kind), tourism, r),
            final(self).active@ == old(self).active@,
            final(self).completed_ids@ == old(self).completed_ids@,
            final(self).completions_by_dest@ == old(self).completions_by_dest@,
            final(self).awarded_milestones@ == old(self).awarded_milestones@,
            final(self).show_board == old(self).show_board,
    {
        let id = self.next_id;
        self.next_id = self.next_id + 1;
        let dest = match kind {
            ContractKind::Payload { destination, .. } => destination,
            ContractKind::Tourism { destination, .. } => destination,
        };
        let label = if tourism { " Tourism #" } else { " Delivery #" };
        let name = join_str(dest.display_name(), label);
        let name = join_str(name.as_str(), u64_to_decimal(id).as_str());
        let ghost before = self.available@;
        self.available.push(Contract { id, kind, payout, name });
        proof {
            assert(self.available@.drop_last() =~= before);
            assert forall|i: int, j: int| 0 <= i < j < self.available@.len()
                implies (#[trigger] self.available@[i]).id != (#[trigger] self.available@[j]).id by {
                assert(self.available@[i] == before[i]);
                if j < before.len() {
                    assert(self.available@[j] == before[j]);
                }
            }
            assert forall|i: int, j: int| 0 <= i < self.available@.len() && 0 <= j < self.active@.len()
                implies (#[trigger] self.available@[i]).id != (#[trigger] self.active@[j]).id by {
                if i < before.len() {
                    assert(self.available@[i] == before[i]);
                }
            }
            assert forall|i: int| 0 <= i < self.available@.len() implies (#[trigger] self.available@[i]).id < self.next_id by {
                if i < before.len() {
                    assert(self.available@[i] == before[i]);
                }
            }
        }
        id
    }

    /// Add a tourism contract to `destination`: the passenger count grows with
    /// the completions there, and the payout is the seat price per passenger.
    pub fn add_tourism_contract(&mut self, destination: Destination, seed: u64) -> (r: u64)
        requires
            old(self).wf(),
            old(self).next_id < u64::MAX,
            destination.spec_tourism_price_per_seat() is Some,
        ensures
            final(self).wf(),
            r == old(self).next_id,
            final(self).next_id == old(self).next_id + 1,
            final(self).available@.drop_last() == old(self).available@,
            final(self).available@.len() == old(self).available@.len() + 1,
            ({
                let c = final(self).available@.last();
                let passengers = spec_tourism_passenger_count(old(self).spec_completions(destination), seed);
                &&& c.id == r
                &&& c.kind == (ContractKind::Tourism { passengers, destination, destination_reached: false })
                &&& c.payout == destination.spec_tourism_price_per_seat()->0 * passengers
                &&& c.name@ == contract_name(destination, true, r)
            }),
            final(self).active@ == old(self).active@,
            final(self).completed_ids@ == old(self).completed_ids@,
            final(self).completions_by_dest@ == old(self).completions_by_dest@,
            final(self).awarded_milestones@ == old(self).awarded_milestones@,
            final(self).show_board == old(self).show_board,
    {
        let price = match destination.tourism_price_per_seat() {
            Some(p) => p,
            None => 0,
        };
        let completions = self.completions(destination);
        let passengers = tourism_passenger_count(completions, seed);
        assert(price <= 125_000_000);
        assert(price * (passengers as u64) <= 750_000_000) by (nonlinear_arith)
            requires
                price <= 125_000_000,
                passengers <= 6,
        ;
        let payout = price * (passengers as u64);
        let kind = ContractKind::Tourism { passengers, destination, destination_reached: false };
        self.push_new(kind, payout, true)
    }

    /// Add a payload delivery contract of `mass_kg` to `destination`, paid by the kg.
    pub fn add_payload_contract(&mut self, destination: Destination, mass_kg: u64) -> (r: u64)
        requires
            old(self).wf(),
            old(self).next_id < u64::MAX,
            mass_kg * destination.spec_price_per_kg() <= u64::MAX,
        ensures
            final(self).wf(),
            r == old(self).next_id,
            final(self).next_id == old(self).next_id + 1,
            final(self).available@.drop_last() == old(self).available@,
            final(self).available@.len() == old(self).available@.len() + 1,
            ({
                let c = final(self).available@.last();
                &&& c.id == r
                &&& c.kind == (ContractKind::Payload { mass_kg, destination })
                &&& c.payout == mass_kg * destination.spec_price_per_kg()
                &&& c.name@ == contract_name(destination, false, r)
            }),
            final(self).active@ == old(self).active@,
            final(self).completed_ids@ == old(self).completed_ids@,
            final(self).completions_by_dest@ == old(self).completions_by_dest@,
            final(self).awarded_milestones@ == old(self).awarded_milestones@,
            final(self).show_board == old(self).show_board,
    {
        let payout = mass_kg * destination.price_per_kg();
        let kind = ContractKind::Payload { mass_kg, destination };
        self.push_new(kind, payout, false)
    }

    /// Get payloads for all active payload contracts (for the editor UI).
    pub fn active_payload_contracts(&self) -> (r: Vec<ContractPayload>)
        ensures
            r@.len() == payload_contracts(self.active@).len(),
            forall|i: int| 0 <= i < r@.len() ==> {
                let c = payload_contracts(self.active@)[i];
                &&& (#[trigger] r@[i]).contract_id == c.id
                &&& r@[i].name == c.name
                &&& r@[i].mass_kg == c.kind->Payload_mass_kg
            },
    {
        let ghost pred = |c: Contract| c.kind is Payload;
        let mut r: Vec<ContractPayload> = Vec::new();
        let mut i: usize = 0;
        proof {
            assert(self.active@.take(0) =~= Seq::<Contract>::empty());
            reveal_with_fuel(Seq::filter, 1);
        }
        while i < self.active.len()
            invariant
                0 <= i <= self.active@.len(),
                forall|c: Contract| #[trigger] pred(c) == c.kind is Payload,
                r@.len() == self.active@.take(i as int).filter(pred).len(),
                forall|j: int| 0 <= j < r@.len() ==> {
                    let c = self.active@.take(i as int).filter(pred)[j];
                    &&& (#[trigger] r@[j]).contract_id == c.id
                    &&& r@[j].name == c.name
                    &&& r@[j].mass_kg == c.kind->Payload_mass_kg
                },
            decreases self.active@.len() - i,
        {
            let c = &self.active[i];
            let ghost prefix = self.active@.take(i as int);
            proof {
                assert(self.active@.take(i + 1) =~= prefix.push(*c));
                prefix.lemma_filter_push(*c, pred);
            }
            match c.kind {
                ContractKind::Payload { mass_kg, .. } => {
                    r.push(ContractPayload { contract_id: c.id, name: c.name.clone(), mass_kg });
                },
                ContractKind::Tourism { .. } => {},
            }
            i += 1;
        }
        assert(self.active@.take(i as int) =~= self.active@);
        assert(payload_contracts(self.active@) =~= self.active@.filter(pred));
        r
    }

    /// Whether every completion counter can take one completion per active contract.
    pub fn completions_have_room(&self) -> (r: bool)
        requires
            self.wf(),
        ensures
            r == self.has_room(),
    {
        let n = self.active.len();
        let mut k: usize = 0;
        while k < 6
            invariant
                0 <= k <= 6,
                n == self.active@.len(),
                self.completions_by_dest@.len() == 6,
                forall|j: int| 0 <= j < k ==> self.completions_by_dest@[j] + n <= u32::MAX,
            decreases 6 - k,
        {
            if n as u64 > u32::MAX as u64 || (self.completions_by_dest[k] as u64) + (n as u64) > u32::MAX as u64 {
                return false;
            }
            k += 1;
        }
        true
    }
}

/// Whether every contract of `v` has an id below `bound`.
fn all_ids_below(v: &Vec<Contract>, bound: u64) -> (r: bool)
    ensures
        r == ids_below(v@, bound),
{
    let mut i: usize = 0;
    while i < v.len()
        invariant
            0 <= i <= v@.len(),
            forall|j: int| 0 <= j < i ==> (#[trigger] v@[j]).id < bound,
        decreases v@.len() - i,
    {
        if v[i].id >= bound {
            return false;
        }
        i += 1;
    }
    true
}

/// Whether no contract of `a` shares an id with a contract of `b`.
fn ids_apart(a: &Vec<Contract>, b: &Vec<Contract>) -> (r: bool)
    ensures
        r == ids_disjoint(a@, b@),
{
    let mut i: usize = 0;
    while i < a.len()
        invariant
            0 <= i <= a@.len(),
            forall|x: int, y: int| 0 <= x < i && 0 <= y < b@.len() ==> (#[trigger] a@[x]).id != (#[trigger] b@[y]).id,
        decreases a@.len() - i,
    {
        let mut j: usize = 0;
        while j < b.len()
            invariant
                0 <= i < a@.len(),
                0 <= j <= b@.len(),
                forall|x: int, y: int| 0 <= x < i && 0 <= y < b@.len() ==> (#[trigger] a@[x]).id != (#[trigger] b@[y]).id,
                forall|y: int| 0 <= y < j ==> a@[i as int].id != (#[trigger] b@[y]).id,
            decreases b@.len() - j,
        {
            if a[i].id == b[j].id {
                return false;
            }
            j += 1;
        }
        i += 1;
    }
    true
}

/// Whether the contracts of `v` have pairwise distinct ids.
fn ids_unique(v: &Vec<Contract>) -> (r: bool)
    ensures
        r == ids_distinct(v@),
{
    let mut i: usize = 0;
    while i < v.len()
        invariant
            0 <= i <= v@.len(),
            forall|x: int, y: int| 0 <= x < y < v@.len() && x < i ==> (#[trigger] v@[x]).id != (#[trigger] v@[y]).id,
        decreases v@.len() - i,
    {
        let mut j: usize = i + 1;
        while j < v.len()
            invariant
                0 <= i < v@.len(),
                i + 1 <= j <= v@.len(),
                forall|x: int, y: int| 0 <= x < y < v@.len() && x < i ==> (#[trigger] v@[x]).id != (#[trigger] v@[y]).id,
                forall|y: int| i < y < j ==> v@[i as int].id != (#[trigger] v@[y]).id,
            decreases v@.len() - j,
        {
            if v[i].id == v[j].id {
                return false;
            }
            j += 1;
        }
        i += 1;
    }
    true
}

impl ContractManager {
    /// Whether the bookkeeping is consistent (see `wf`), e.g. for a manager
    /// restored from a save.
    pub fn is_well_formed(&self) -> (r: bool)
        ensures
            r == self.wf(),
    {
        self.completions_by_dest.len() == 6 && ids_unique(&self.available) && ids_unique(&self.active)
            && ids_apart(&self.available, &self.active) && all_ids_below(&self.available, self.next_id)
            && all_ids_below(&self.active, self.next_id)
    }
}


/// Government milestones are one-time: once every reached milestone is awarded,
/// checking again awards nothing.
pub proof fn law_milestones_are_awarded_once(
    awarded: Set<GovernmentMilestone>,
    d: &DiscoveryTracker,
    has_crew: bool,
    moon: usize,
    mars: usize,
)
    requires
        forall|m: GovernmentMilestone| milestone_reached(m, d, has_crew, moon, mars) ==> awarded.contains(m),
    ensures
        GovernmentMilestone::spec_all().filter(|m: GovernmentMilestone|
            milestone_reached(m, d, has_crew, moon, mars) && !awarded.contains(m)).len() == 0,
{
    let pred = |m: GovernmentMilestone| milestone_reached(m, d, has_crew, moon, mars) && !awarded.contains(m);
    let f = GovernmentMilestone::spec_all().filter(pred);
    if f.len() > 0 {
        GovernmentMilestone::spec_all().lemma_filter_pred(pred, 0);
        assert(pred(f[0]));
    }
}

/// Syncing milestones from discoveries (as on loading a save) covers every milestone
/// a later check could award, with or without crew aboard.
pub proof fn law_synced_milestones_cover_checks(m: GovernmentMilestone, d: &DiscoveryTracker, has_crew: bool, moon: usize, mars: usize)
    ensures
        milestone_reached(m, d, has_crew, moon, mars) ==> milestone_reached(m, d, true, moon, mars),
{
}

/// Suborbital flights are always on offer, so there is always a destination to
/// draw a new contract for.
pub proof fn law_suborbital_always_unlocked(d: &DiscoveryTracker, moon: usize, mars: usize)
    ensures
        Destination::Suborbital.spec_is_unlocked(d, moon, mars),
        spec_eligible(d, moon, mars).len() > 0,
{
    let pred = |x: Destination| x.spec_is_unlocked(d, moon, mars);
    assert(Destination::spec_all()[0] == Destination::Suborbital);
    assert(pred(Destination::Suborbital));
    Destination::spec_all().lemma_filter_contains(pred, 0);
}

/// Completed contracts leave the active list: none of the contracts still active
/// satisfies the completion condition.
pub proof fn law_completed_contracts_leave_active(before: ContractManager, after: ContractManager, done: spec_fn(Contract) -> bool)
    requires
        after.completed_from(before, done),
    ensures
        forall|i: int| 0 <= i < after.active@.len() ==> !done(#[trigger] after.active@[i]),
{
    let keep = |c: Contract| !done(c);
    assert forall|i: int| 0 <= i < after.active@.len() implies !done(#[trigger] after.active@[i]) by {
        before.active@.lemma_filter_pred(keep, i);
    }
}


/// Why the contract board could not be filled.
#[derive(Debug, Clone, Copy, PartialEq, Eq, Structural)]
pub enum RefillError {
    /// Every contract id has been handed out.
    IdsExhausted,
    /// The payout of the next payload contract would not fit in a `u64`.
    PayoutOutOfRange { destination: Destination, mass_kg: u64 },
}

/// Whether `c` is the contract the board draws with id `id`, the counters of
/// `m` and the eligible destinations `eligible`, the game time being
/// `time_bits`: the seed is the hash of id and time; it picks the destination
/// and kind; a tourism contract's passengers follow the completions there and
/// it pays the seat price per passenger; a payload contract pays its mass by
/// the kg (the mass itself comes from the size table).
pub open spec fn drawn_contract(c: Contract, id: u64, m: ContractManager, eligible: Seq<Destination>, time_bits: u64) -> bool {
    let seed = spec_simple_hash(id, time_bits);
    &&& c.id == id
    &&& match spec_contract_shape(eligible, seed) {
        Some((d, true)) => {
            let passengers = spec_tourism_passenger_count(m.spec_completions(d), seed);
            &&& c.kind == (ContractKind::Tourism { passengers, destination: d, destination_reached: false })
            &&& c.payout == d.spec_tourism_price_per_seat()->0 * passengers
            &&& c.name@ == contract_name(d, true, id)
        },
        Some((d, false)) => {
            &&& c.kind matches ContractKind::Payload { mass_kg, destination } && destination == d
                && c.payout == mass_kg * d.spec_price_per_kg()
            &&& c.name@ == contract_name(d, false, id)
        },
        None => false,
    }
}

impl ContractManager {
    /// Fill the board of available contracts up to `POOL_SIZE`, drawing each
    /// contract from the hash of its id and the game time (`time_bits`, the
    /// bits of the time), as long as some destination is unlocked. The mass of
    /// a payload contract is `payload_mass(destination, completions there, seed)`.
    pub fn refill_pool<F: Fn(Destination, u32, u64) -> u64>(
        &mut self,
        discoveries: &DiscoveryTracker,
        system: &BodyHierarchy,
        time_bits: u64,
        payload_mass: F,
    ) -> (r: Result<(), RefillError>)
        requires
            old(self).wf(),
            forall|d: Destination, c: u32, s: u64| payload_mass.requires((d, c, s)),
        ensures
            final(self).wf(),
            ({
                let eligible = spec_eligible(discoveries, system.moon_index, system.spec_mars_index());
                let n0 = old(self).available@.len();
                let n = final(self).available@.len();
                &&& n0 <= n
                &&& final(self).available@.subrange(0, n0 as int) == old(self).available@
                &&& final(self).next_id == old(self).next_id + (n - n0)
                &&& forall|k: int| n0 <= k < n ==> drawn_contract(#[trigger] final(self).available@[k],
                    (old(self).next_id + (k - n0)) as u64, *old(self), eligible, time_bits)
                &&& forall|k: int| n0 <= k < n ==> ((#[trigger] final(self).available@[k]).kind matches
                    ContractKind::Payload { mass_kg, destination } ==> payload_mass.ensures(
                        (destination, old(self).spec_completions(destination),
                        spec_simple_hash(final(self).available@[k].id, time_bits)), mass_kg))
                &&& match r {
                    Ok(_) => n == if eligible.len() == 0 || n0 >= POOL_SIZE { n0 } else { POOL_SIZE as nat },
                    Err(RefillError::IdsExhausted) => n < POOL_SIZE && final(self).next_id == u64::MAX,
                    Err(RefillError::PayoutOutOfRange { destination, mass_kg }) => {
                        let seed = spec_simple_hash(final(self).next_id, time_bits);
                        &&& n < POOL_SIZE
                        &&& spec_contract_shape(eligible, seed) == Some((destination, false))
                        &&& payload_mass.ensures((destination, old(self).spec_completions(destination), seed), mass_kg)
                        &&& mass_kg * destination.spec_price_per_kg() > u64::MAX
                    },
                }
            }),
            final(self).active@ == old(self).active@,
            final(self).completed_ids@ == old(self).completed_ids@,
            final(self).completions_by_dest@ == old(self).completions_by_dest@,
            final(self).awarded_milestones@ == old(self).awarded_milestones@,
            final(self).show_board == old(self).show_board,
    {
        let ghost eligible = spec_eligible(discoveries, system.moon_index, system.spec_mars_index());
        let ghost n0 = self.available@.len();
        let ghost start = *self;
        while self.available.len() < POOL_SIZE
            invariant
                self.wf(),
                forall|d: Destination, c: u32, s: u64| payload_mass.requires((d, c, s)),
                eligible == spec_eligible(discoveries, system.moon_index, system.spec_mars_index()),
                n0 == start.available@.len(),
                start == *old(self),
                n0 <= self.available@.len(),
                self.available@.len() < POOL_SIZE || self.available@.len() == n0 || self.available@.len() == POOL_SIZE,
                self.available@.len() > n0 ==> eligible.len() > 0,
                self.available@.subrange(0, n0 as int) == start.available@,
                self.next_id == start.next_id + (self.available@.len() - n0),
                forall|k: int| n0 <= k < self.available@.len() ==> drawn_contract(#[trigger] self.available@[k],
                    (start.next_id + (k - n0)) as u64, start, eligible, time_bits),
                forall|k: int| n0 <= k < self.available@.len() ==> ((#[trigger] self.available@[k]).kind matches
                    ContractKind::Payload { mass_kg, destination } ==> payload_mass.ensures(
                        (destination, start.spec_completions(destination),
                        spec_simple_hash(self.available@[k].id, time_bits)), mass_kg)),
                self.active@ == start.active@,
                self.completed_ids@ == start.completed_ids@,
                self.completions_by_dest@ == start.completions_by_dest@,
                self.awarded_milestones@ == start.awarded_milestones@,
                self.show_board == start.show_board,
            decreases POOL_SIZE - self.available@.len(),
        {
            if self.next_id == u64::MAX {
                return Err(RefillError::IdsExhausted);
            }
            let id = self.next_id;
            let seed = simple_hash(id, time_bits);
            let shape = Self::choose_contract(discoveries, system, seed);
            let (destination, is_tourism) = match shape {
                Some(x) => x,
                None => {
                    assert(eligible.len() == 0);
                    return Ok(());
                },
            };
            let ghost before = self.available@;
            assert(self.spec_completions(destination) == start.spec_completions(destination));
            if is_tourism {
                self.add_tourism_contract(destination, seed);
            } else {
                let completions = self.completions(destination);
                let mass_kg = payload_mass(destination, completions, seed);
                match mass_kg.checked_mul(destination.price_per_kg()) {
                    Some(_) => {},
                    None => {
                        return Err(RefillError::PayoutOutOfRange { destination, mass_kg });
                    },
                }
                self.add_payload_contract(destination, mass_kg);
            }
            proof {
                let after = self.available@;
                assert(after.drop_last() == before);
                assert(after.subrange(0, n0 as int) =~= before.subrange(0, n0 as int));
                assert forall|k: int| n0 <= k < after.len() implies drawn_contract(#[trigger] after[k],
                    (start.next_id + (k - n0)) as u64, start, eligible, time_bits) by {
                    if k < before.len() {
                        assert(after[k] == before[k]);
                    }
                }
                assert forall|k: int| n0 <= k < after.len() implies ((#[trigger] after[k]).kind matches
                    ContractKind::Payload { mass_kg, destination } ==> payload_mass.ensures(
                        (destination, start.spec_completions(destination),
                        spec_simple_hash(after[k].id, time_bits)), mass_kg)) by {
                    if k < before.len() {
                        assert(after[k] == before[k]);
                    }
                }
            }
        }
        Ok(())
    }
}

/// The surface objectives are met by landing and only by landing: Mars Surface
/// exactly when the vessel is landed on the Mars body, Lunar Surface exactly
/// when landed on the Moon body; a vessel in flight, wherever it is, meets
/// neither. The orbital objectives, in turn, are met only in flight.
pub proof fn law_surface_objectives_need_landing(s: FlightSituation, earth: usize, moon: usize, mars: usize)
    ensures
        Destination::MarsSurface.spec_is_met(s, earth, moon, mars) <==> (s.phase matches FlightPhase::Landed { body_index } && body_index == mars),
        Destination::LunarSurface.spec_is_met(s, earth, moon, mars) <==> (s.phase matches FlightPhase::Landed { body_index } && body_index == moon),
        s.phase is Flying ==> !Destination::MarsSurface.spec_is_met(s, earth, moon, mars)
            && !Destination::LunarSurface.spec_is_met(s, earth, moon, mars),
        !(s.phase is Flying) ==> !Destination::Suborbital.spec_is_met(s, earth, moon, mars)
            && !Destination::LowEarthOrbit.spec_is_met(s, earth, moon, mars)
            && !Destination::LunarOrbit.spec_is_met(s, earth, moon, mars)
            && !Destination::MarsOrbit.spec_is_met(s, earth, moon, mars),
{
}

/// Each crewed milestone is reached exactly when a crew is aboard and its own
/// discovery flag is set: the first crewed Mars mission by `first_crewed_mars`,
/// the lunar one by `first_crewed_lunar`, the orbital one by
/// `first_crewed_orbit`; no other part of the discovery record changes them,
/// and without a crew none is reached.
pub proof fn law_crewed_milestones_follow_their_flags(d1: &DiscoveryTracker, d2: &DiscoveryTracker, has_crew: bool, moon: usize, mars: usize)
    ensures
        milestone_reached(GovernmentMilestone::FirstCrewedMars, d1, has_crew, moon, mars) <==> (has_crew && d1.first_crewed_mars),
        milestone_reached(GovernmentMilestone::FirstCrewedLunar, d1, has_crew, moon, mars) <==> (has_crew && d1.first_crewed_lunar),
        milestone_reached(GovernmentMilestone::FirstCrewedOrbital, d1, has_crew, moon, mars) <==> (has_crew && d1.first_crewed_orbit),
        d1.first_crewed_mars == d2.first_crewed_mars ==>
            milestone_reached(GovernmentMilestone::FirstCrewedMars, d1, has_crew, moon, mars)
                == milestone_reached(GovernmentMilestone::FirstCrewedMars, d2, has_crew, moon, mars),
        d1.first_crewed_lunar == d2.first_crewed_lunar ==>
            milestone_reached(GovernmentMilestone::FirstCrewedLunar, d1, has_crew, moon, mars)
                == milestone_reached(GovernmentMilestone::FirstCrewedLunar, d2, has_crew, moon, mars),
        d1.first_crewed_orbit == d2.first_crewed_orbit ==>
            milestone_reached(GovernmentMilestone::FirstCrewedOrbital, d1, has_crew, moon, mars)
                == milestone_reached(GovernmentMilestone::FirstCrewedOrbital, d2, has_crew, moon, mars),
{
}

/// The orbital objectives: a suborbital hop is met flying in Earth's sphere of
/// influence above 100 km; an orbit of Earth, the Moon or Mars flying in that
/// body's sphere on a trajectory that does not come back down.
pub proof fn law_orbital_objectives(s: FlightSituation, earth: usize, moon: usize, mars: usize)
    ensures
        Destination::Suborbital.spec_is_met(s, earth, moon, mars) <==> (s.phase is Flying && s.soi_body == earth && s.above_100_km),
        Destination::LowEarthOrbit.spec_is_met(s, earth, moon, mars) <==> (s.phase is Flying && s.soi_body == earth && !s.is_suborbital),
        Destination::LunarOrbit.spec_is_met(s, earth, moon, mars) <==> (s.phase is Flying && s.soi_body == moon && !s.is_suborbital),
        Destination::MarsOrbit.spec_is_met(s, earth, moon, mars) <==> (s.phase is Flying && s.soi_body == mars && !s.is_suborbital),
{
}

/// The uncrewed milestones follow the discovery record alone, each by its own
/// entry: the first suborbital flight and first orbit by their flags, lunar
/// and Mars orbits by the body being orbited, lunar and Mars landings by the
/// body being landed on. Whether a crew is aboard does not matter to them.
pub proof fn law_uncrewed_milestones_follow_discoveries(d: &DiscoveryTracker, has_crew: bool, moon: usize, mars: usize)
    ensures
        milestone_reached(GovernmentMilestone::FirstSuborbital, d, has_crew, moon, mars) <==> d.first_suborbital,
        milestone_reached(GovernmentMilestone::FirstOrbital, d, has_crew, moon, mars) <==> d.first_orbit,
        milestone_reached(GovernmentMilestone::FirstLunarOrbit, d, has_crew, moon, mars) <==> d.body_orbited@.contains(moon),
        milestone_reached(GovernmentMilestone::FirstLunarLanding, d, has_crew, moon, mars) <==> d.body_landed@.contains(moon),
        milestone_reached(GovernmentMilestone::FirstMarsOrbit, d, has_crew, moon, mars) <==> d.body_orbited@.contains(mars),
        milestone_reached(GovernmentMilestone::FirstMarsLanding, d, has_crew, moon, mars) <==> d.body_landed@.contains(mars),
{
}

} // verus!
