//! Colony buildings, factory recipes, and the building roster of a colony.

use vstd::prelude::*;
use crate::text::str_eq;

verus! {

/// All colony building types.
#[derive(Debug, Clone, Copy, PartialEq, Eq, Hash, Structural)]
pub enum BuildingType {
    Habitat,
    BasicGreenhouse,
    AdvancedGreenhouse,
    SmallSolarFarm,
    MediumSolarFarm,
    LargeSolarFarm,
    FissionReactor,
    FusionReactor,
    Mine,
    AtmosphericCollector,
    Factory,
    Launchpad,
    MassDriverMk1,
    MassDriverMk2,
    MassDriverMk3,
    MassDriverMk4,
    LightConstructionRobot,
    ConstructionRobot,
    ScienceLab,
    Stockpile,
    FoodStorage,
    ParticleAcceleratorMk1,
    ParticleAcceleratorMk2,
    ParticleAcceleratorMk3,
    ParticleAcceleratorMk4,
    Hangar,
    ReceiverArray,
}

impl BuildingType {
    /// The name shown to the player.
    pub open spec fn spec_display_name(self) -> Seq<char> {
        match self {
            BuildingType::Habitat => "Habitat"@,
            BuildingType::BasicGreenhouse => "Basic Greenhouse"@,
            BuildingType::AdvancedGreenhouse => "Advanced Greenhouse"@,
            BuildingType::SmallSolarFarm => "Small Solar Farm"@,
            BuildingType::MediumSolarFarm => "Medium Solar Farm"@,
            BuildingType::LargeSolarFarm => "Large Solar Farm"@,
            BuildingType::FissionReactor => "Fission Reactor"@,
            BuildingType::FusionReactor => "Fusion Reactor"@,
            BuildingType::Mine => "Mine"@,
            BuildingType::AtmosphericCollector => "Atmospheric Collector"@,
            BuildingType::Factory => "Factory"@,
            BuildingType::Launchpad => "Launchpad"@,
            BuildingType::MassDriverMk1 => "Mass Driver Mk I"@,
            BuildingType::MassDriverMk2 => "Mass Driver Mk II"@,
            BuildingType::MassDriverMk3 => "Mass Driver Mk III"@,
            BuildingType::MassDriverMk4 => "Mass Driver Mk IV"@,
            BuildingType::LightConstructionRobot => "Light Construction Robot"@,
            BuildingType::ConstructionRobot => "Construction Robot"@,
            BuildingType::ScienceLab => "Science Lab"@,
            BuildingType::Stockpile => "Stockpile"@,
            BuildingType::FoodStorage => "Food Storage"@,
            BuildingType::ParticleAcceleratorMk1 => "Particle Accelerator Mk I"@,
            BuildingType::ParticleAcceleratorMk2 => "Particle Accelerator Mk II"@,
            BuildingType::ParticleAcceleratorMk3 => "Particle Accelerator Mk III"@,
            BuildingType::ParticleAcceleratorMk4 => "Particle Accelerator Mk IV"@,
            BuildingType::Hangar => "Hangar"@,
            BuildingType::ReceiverArray => "Receiver Array"@,
        }
    }

    /// Mass driver track length in meters; `None` for other buildings.
    pub open spec fn spec_mass_driver_track_m(self) -> Option<u64> {
        match self {
            BuildingType::Habitat => None,
            BuildingType::BasicGreenhouse => None,
            BuildingType::AdvancedGreenhouse => None,
            BuildingType::SmallSolarFarm => None,
            BuildingType::MediumSolarFarm => None,
            BuildingType::LargeSolarFarm => None,
            BuildingType::FissionReactor => None,
            BuildingType::FusionReactor => None,
            BuildingType::Mine => None,
            BuildingType::AtmosphericCollector => None,
            BuildingType::Factory => None,
            BuildingType::Launchpad => None,
            BuildingType::MassDriverMk1 => Some(2_000),
            BuildingType::MassDriverMk2 => Some(10_000),
            BuildingType::MassDriverMk3 => Some(50_000),
            BuildingType::MassDriverMk4 => Some(200_000),
            BuildingType::LightConstructionRobot => None,
            BuildingType::ConstructionRobot => None,
            BuildingType::ScienceLab => None,
            BuildingType::Stockpile => None,
            BuildingType::FoodStorage => None,
            BuildingType::ParticleAcceleratorMk1 => None,
            BuildingType::ParticleAcceleratorMk2 => None,
            BuildingType::ParticleAcceleratorMk3 => None,
            BuildingType::ParticleAcceleratorMk4 => None,
            BuildingType::Hangar => None,
            BuildingType::ReceiverArray => None,
        }
    }

    /// Mass driver maximum payload in kg; `None` for other buildings.
    pub open spec fn spec_mass_driver_max_payload_kg(self) -> Option<u64> {
        match self {
            BuildingType::Habitat => None,
            BuildingType::BasicGreenhouse => None,
            BuildingType::AdvancedGreenhouse => None,
            BuildingType::SmallSolarFarm => None,
            BuildingType::MediumSolarFarm => None,
            BuildingType::LargeSolarFarm => None,
            BuildingType::FissionReactor => None,
            BuildingType::FusionReactor => None,
            BuildingType::Mine => None,
            BuildingType::AtmosphericCollector => None,
            BuildingType::Factory => None,
            BuildingType::Launchpad => None,
            BuildingType::MassDriverMk1 => Some(10_000),
            BuildingType::MassDriverMk2 => Some(50_000),
            BuildingType::MassDriverMk3 => Some(200_000),
            BuildingType::MassDriverMk4 => Some(200_000),
            BuildingType::LightConstructionRobot => None,
            BuildingType::ConstructionRobot => None,
            BuildingType::ScienceLab => None,
            BuildingType::Stockpile => None,
            BuildingType::FoodStorage => None,
            BuildingType::ParticleAcceleratorMk1 => None,
            BuildingType::ParticleAcceleratorMk2 => None,
            BuildingType::ParticleAcceleratorMk3 => None,
            BuildingType::ParticleAcceleratorMk4 => None,
            BuildingType::Hangar => None,
            BuildingType::ReceiverArray => None,
        }
    }

    /// Energy storage capacity of a mass driver in joules: above the worst-case
    /// launch (the largest payload at the highest acceleration).
    pub open spec fn spec_mass_driver_energy_capacity_j(self) -> Option<u64> {
        match self {
            BuildingType::MassDriverMk1 => Some(1_000_000_000_000),
            BuildingType::MassDriverMk2 => Some(10_000_000_000_000),
            BuildingType::MassDriverMk3 => Some(150_000_000_000_000),
            BuildingType::MassDriverMk4 => Some(500_000_000_000_000),
            _ => None,
        }
    }

    /// Mass driver system mass in kg; `None` for other buildings.
    pub open spec fn spec_mass_driver_system_mass_kg(self) -> Option<u64> {
        match self {
            BuildingType::Habitat => None,
            BuildingType::BasicGreenhouse => None,
            BuildingType::AdvancedGreenhouse => None,
            BuildingType::SmallSolarFarm => None,
            BuildingType::MediumSolarFarm => None,
            BuildingType::LargeSolarFarm => None,
            BuildingType::FissionReactor => None,
            BuildingType::FusionReactor => None,
            BuildingType::Mine => None,
            BuildingType::AtmosphericCollector => None,
            BuildingType::Factory => None,
            BuildingType::Launchpad => None,
            BuildingType::MassDriverMk1 => Some(500_000),
            BuildingType::MassDriverMk2 => Some(5_000_000),
            BuildingType::MassDriverMk3 => Some(50_000_000),
            BuildingType::MassDriverMk4 => Some(200_000_000),
            BuildingType::LightConstructionRobot => None,
            BuildingType::ConstructionRobot => None,
            BuildingType::ScienceLab => None,
            BuildingType::Stockpile => None,
            BuildingType::FoodStorage => None,
            BuildingType::ParticleAcceleratorMk1 => None,
            BuildingType::ParticleAcceleratorMk2 => None,
            BuildingType::ParticleAcceleratorMk3 => None,
            BuildingType::ParticleAcceleratorMk4 => None,
            BuildingType::Hangar => None,
            BuildingType::ReceiverArray => None,
        }
    }

    /// Power draw in kW (factories draw by recipe, not here).
    pub open spec fn spec_power_draw_kw(self) -> u64 {
        match self {
            BuildingType::Habitat => 10,
            BuildingType::BasicGreenhouse => 50,
            BuildingType::AdvancedGreenhouse => 50,
            BuildingType::SmallSolarFarm => 0,
            BuildingType::MediumSolarFarm => 0,
            BuildingType::LargeSolarFarm => 0,
            BuildingType::FissionReactor => 0,
            BuildingType::FusionReactor => 0,
            BuildingType::Mine => 100,
            BuildingType::AtmosphericCollector => 100,
            BuildingType::Factory => 0,
            BuildingType::Launchpad => 10,
            BuildingType::MassDriverMk1 => 10000,
            BuildingType::MassDriverMk2 => 100000,
            BuildingType::MassDriverMk3 => 1000000,
            BuildingType::MassDriverMk4 => 100000000,
            BuildingType::LightConstructionRobot => 100,
            BuildingType::ConstructionRobot => 500,
            BuildingType::ScienceLab => 200,
            BuildingType::Stockpile => 0,
            BuildingType::FoodStorage => 5,
            BuildingType::ParticleAcceleratorMk1 => 50000000,
            BuildingType::ParticleAcceleratorMk2 => 500000000,
            BuildingType::ParticleAcceleratorMk3 => 5000000000,
            BuildingType::ParticleAcceleratorMk4 => 50000,
            BuildingType::Hangar => 50,
            BuildingType::ReceiverArray => 0,
        }
    }

    /// Power output in kW (solar farms at 1 AU).
    pub open spec fn spec_power_output_kw(self) -> u64 {
        match self {
            BuildingType::Habitat => 0,
            BuildingType::BasicGreenhouse => 0,
            BuildingType::AdvancedGreenhouse => 0,
            BuildingType::SmallSolarFarm => 10000,
            BuildingType::MediumSolarFarm => 100000,
            BuildingType::LargeSolarFarm => 1000000,
            BuildingType::FissionReactor => 500000,
            BuildingType::FusionReactor => 5000000,
            BuildingType::Mine => 0,
            BuildingType::AtmosphericCollector => 0,
            BuildingType::Factory => 0,
            BuildingType::Launchpad => 0,
            BuildingType::MassDriverMk1 => 0,
            BuildingType::MassDriverMk2 => 0,
            BuildingType::MassDriverMk3 => 0,
            BuildingType::MassDriverMk4 => 0,
            BuildingType::LightConstructionRobot => 0,
            BuildingType::ConstructionRobot => 0,
            BuildingType::ScienceLab => 0,
            BuildingType::Stockpile => 0,
            BuildingType::FoodStorage => 0,
            BuildingType::ParticleAcceleratorMk1 => 0,
            BuildingType::ParticleAcceleratorMk2 => 0,
            BuildingType::ParticleAcceleratorMk3 => 0,
            BuildingType::ParticleAcceleratorMk4 => 0,
            BuildingType::Hangar => 0,
            BuildingType::ReceiverArray => 45000000,
        }
    }

    /// Buildings whose costs, power and maintenance scale with habitability.
    pub open spec fn spec_affected_by_habitability(self) -> bool {
        self is Habitat || self is BasicGreenhouse || self is AdvancedGreenhouse
    }

    /// Mass drivers are the buildings with a track.
    pub open spec fn spec_is_mass_driver(self) -> bool {
        self.spec_mass_driver_track_m() is Some
    }

    /// Every `BuildingType`, in declaration order.
    pub open spec fn spec_all() -> Seq<BuildingType> {
        seq![
            BuildingType::Habitat,
            BuildingType::BasicGreenhouse,
            BuildingType::AdvancedGreenhouse,
            BuildingType::SmallSolarFarm,
            BuildingType::MediumSolarFarm,
            BuildingType::LargeSolarFarm,
            BuildingType::FissionReactor,
            BuildingType::FusionReactor,
            BuildingType::Mine,
            BuildingType::AtmosphericCollector,
            BuildingType::Factory,
            BuildingType::Launchpad,
            BuildingType::MassDriverMk1,
            BuildingType::MassDriverMk2,
            BuildingType::MassDriverMk3,
            BuildingType::MassDriverMk4,
            BuildingType::LightConstructionRobot,
            BuildingType::ConstructionRobot,
            BuildingType::ScienceLab,
            BuildingType::Stockpile,
            BuildingType::FoodStorage,
            BuildingType::ParticleAcceleratorMk1,
            BuildingType::ParticleAcceleratorMk2,
            BuildingType::ParticleAcceleratorMk3,
            BuildingType::ParticleAcceleratorMk4,
            BuildingType::Hangar,
            BuildingType::ReceiverArray,
        ]
    }

    /// Position of this value in `spec_all`.
    pub open spec fn spec_index(self) -> int {
        match self {
            BuildingType::Habitat => 0,
            BuildingType::BasicGreenhouse => 1,
            BuildingType::AdvancedGreenhouse => 2,
            BuildingType::SmallSolarFarm => 3,
            BuildingType::MediumSolarFarm => 4,
            BuildingType::LargeSolarFarm => 5,
            BuildingType::FissionReactor => 6,
            BuildingType::FusionReactor => 7,
            BuildingType::Mine => 8,
            BuildingType::AtmosphericCollector => 9,
            BuildingType::Factory => 10,
            BuildingType::Launchpad => 11,
            BuildingType::MassDriverMk1 => 12,
            BuildingType::MassDriverMk2 => 13,
            BuildingType::MassDriverMk3 => 14,
            BuildingType::MassDriverMk4 => 15,
            BuildingType::LightConstructionRobot => 16,
            BuildingType::ConstructionRobot => 17,
            BuildingType::ScienceLab => 18,
            BuildingType::Stockpile => 19,
            BuildingType::FoodStorage => 20,
            BuildingType::ParticleAcceleratorMk1 => 21,
            BuildingType::ParticleAcceleratorMk2 => 22,
            BuildingType::ParticleAcceleratorMk3 => 23,
            BuildingType::ParticleAcceleratorMk4 => 24,
            BuildingType::Hangar => 25,
            BuildingType::ReceiverArray => 26,
        }
    }

    /// All building types.
    pub fn all() -> (r: &'static [BuildingType])
        ensures
            r@ == Self::spec_all(),
    {
        &[
            BuildingType::Habitat,
            BuildingType::BasicGreenhouse,
            BuildingType::AdvancedGreenhouse,
            BuildingType::SmallSolarFarm,
            BuildingType::MediumSolarFarm,
            BuildingType::LargeSolarFarm,
            BuildingType::FissionReactor,
            BuildingType::FusionReactor,
            BuildingType::Mine,
            BuildingType::AtmosphericCollector,
            BuildingType::Factory,
            BuildingType::Launchpad,
            BuildingType::MassDriverMk1,
            BuildingType::MassDriverMk2,
            BuildingType::MassDriverMk3,
            BuildingType::MassDriverMk4,
            BuildingType::LightConstructionRobot,
            BuildingType::ConstructionRobot,
            BuildingType::ScienceLab,
            BuildingType::Stockpile,
            BuildingType::FoodStorage,
            BuildingType::ParticleAcceleratorMk1,
            BuildingType::ParticleAcceleratorMk2,
            BuildingType::ParticleAcceleratorMk3,
            BuildingType::ParticleAcceleratorMk4,
            BuildingType::Hangar,
            BuildingType::ReceiverArray,
        ]
    }

    /// The `BuildingType` whose display name is `name`, if any.
    pub open spec fn spec_from_display_name(name: Seq<char>) -> Option<BuildingType> {
        if exists|x: BuildingType| x.spec_display_name() == name {
            Some(choose|x: BuildingType| x.spec_display_name() == name)
        } else {
            None
        }
    }

    /// Look up a `BuildingType` by its display name.
    pub fn from_display_name(name: &str) -> (r: Option<BuildingType>)
        ensures
            r == Self::spec_from_display_name(name@),
    {
        let all = Self::all();
        let mut i: usize = 0;
        while i < all.len()
            invariant
                all@ == Self::spec_all(),
                0 <= i <= all@.len(),
                forall|j: int| 0 <= j < i ==> (#[trigger] all@[j]).spec_display_name() != name@,
            decreases all@.len() - i,
        {
            let x = all[i];
            if str_eq(x.display_name(), name) {
                proof {
                    assert forall|other: BuildingType| other.spec_display_name() == name@
                        implies other == x by {
                        lemma_display_name_injective(other, x);
                    }
                }
                return Some(x);
            }
            i += 1;
        }
        proof {
            assert forall|x: BuildingType| x.spec_display_name() != name@ by {
                lemma_all_lists_every_building(x);
                assert(all@[x.spec_index()] == x);
            }
        }
        None
    }

    /// The name shown to the player.
    pub fn display_name(&self) -> (r: &'static str)
        ensures
            r@ == self.spec_display_name(),
    {
        match self {
            BuildingType::Habitat => "Habitat",
            BuildingType::BasicGreenhouse => "Basic Greenhouse",
            BuildingType::AdvancedGreenhouse => "Advanced Greenhouse",
            BuildingType::SmallSolarFarm => "Small Solar Farm",
            BuildingType::MediumSolarFarm => "Medium Solar Farm",
            BuildingType::LargeSolarFarm => "Large Solar Farm",
            BuildingType::FissionReactor => "Fission Reactor",
            BuildingType::FusionReactor => "Fusion Reactor",
            BuildingType::Mine => "Mine",
            BuildingType::AtmosphericCollector => "Atmospheric Collector",
            BuildingType::Factory => "Factory",
            BuildingType::Launchpad => "Launchpad",
            BuildingType::MassDriverMk1 => "Mass Driver Mk I",
            BuildingType::MassDriverMk2 => "Mass Driver Mk II",
            BuildingType::MassDriverMk3 => "Mass Driver Mk III",
            BuildingType::MassDriverMk4 => "Mass Driver Mk IV",
            BuildingType::LightConstructionRobot => "Light Construction Robot",
            BuildingType::ConstructionRobot => "Construction Robot",
            BuildingType::ScienceLab => "Science Lab",
            BuildingType::Stockpile => "Stockpile",
            BuildingType::FoodStorage => "Food Storage",
            BuildingType::ParticleAcceleratorMk1 => "Particle Accelerator Mk I",
            BuildingType::ParticleAcceleratorMk2 => "Particle Accelerator Mk II",
            BuildingType::ParticleAcceleratorMk3 => "Particle Accelerator Mk III",
            BuildingType::ParticleAcceleratorMk4 => "Particle Accelerator Mk IV",
            BuildingType::Hangar => "Hangar",
            BuildingType::ReceiverArray => "Receiver Array",
        }
    }

    /// Whether this building's costs/power/maintenance are affected by the habitability
    /// multiplier. Only Habitats and Greenhouses are affected.
    pub fn affected_by_habitability(&self) -> (r: bool)
        ensures
            r == self.spec_affected_by_habitability(),
    {
        match self {
            BuildingType::Habitat | BuildingType::BasicGreenhouse
            | BuildingType::AdvancedGreenhouse => true,
            _ => false,
        }
    }

    /// Mass driver track length in meters, or None if not a mass driver.
    pub fn mass_driver_track_m(&self) -> (r: Option<u64>)
        ensures
            r == self.spec_mass_driver_track_m(),
    {
        match self {
            BuildingType::Habitat => None,
            BuildingType::BasicGreenhouse => None,
            BuildingType::AdvancedGreenhouse => None,
            BuildingType::SmallSolarFarm => None,
            BuildingType::MediumSolarFarm => None,
            BuildingType::LargeSolarFarm => None,
            BuildingType::FissionReactor => None,
            BuildingType::FusionReactor => None,
            BuildingType::Mine => None,
            BuildingType::AtmosphericCollector => None,
            BuildingType::Factory => None,
            BuildingType::Launchpad => None,
            BuildingType::MassDriverMk1 => Some(2_000),
            BuildingType::MassDriverMk2 => Some(10_000),
            BuildingType::MassDriverMk3 => Some(50_000),
            BuildingType::MassDriverMk4 => Some(200_000),
            BuildingType::LightConstructionRobot => None,
            BuildingType::ConstructionRobot => None,
            BuildingType::ScienceLab => None,
            BuildingType::Stockpile => None,
            BuildingType::FoodStorage => None,
            BuildingType::ParticleAcceleratorMk1 => None,
            BuildingType::ParticleAcceleratorMk2 => None,
            BuildingType::ParticleAcceleratorMk3 => None,
            BuildingType::ParticleAcceleratorMk4 => None,
            BuildingType::Hangar => None,
            BuildingType::ReceiverArray => None,
        }
    }

    /// Mass driver max payload in kg, or None if not a mass driver.
    pub fn mass_driver_max_payload_kg(&self) -> (r: Option<u64>)
        ensures
            r == self.spec_mass_driver_max_payload_kg(),
    {
        match self {
            BuildingType::Habitat => None,
            BuildingType::BasicGreenhouse => None,
            BuildingType::AdvancedGreenhouse => None,
            BuildingType::SmallSolarFarm => None,
            BuildingType::MediumSolarFarm => None,
            BuildingType::LargeSolarFarm => None,
            BuildingType::FissionReactor => None,
            BuildingType::FusionReactor => None,
            BuildingType::Mine => None,
            BuildingType::AtmosphericCollector => None,
            BuildingType::Factory => None,
            BuildingType::Launchpad => None,
            BuildingType::MassDriverMk1 => Some(10_000),
            BuildingType::MassDriverMk2 => Some(50_000),
            BuildingType::MassDriverMk3 => Some(200_000),
            BuildingType::MassDriverMk4 => Some(200_000),
            BuildingType::LightConstructionRobot => None,
            BuildingType::ConstructionRobot => None,
            BuildingType::ScienceLab => None,
            BuildingType::Stockpile => None,
            BuildingType::FoodStorage => None,
            BuildingType::ParticleAcceleratorMk1 => None,
            BuildingType::ParticleAcceleratorMk2 => None,
            BuildingType::ParticleAcceleratorMk3 => None,
            BuildingType::ParticleAcceleratorMk4 => None,
            BuildingType::Hangar => None,
            BuildingType::ReceiverArray => None,
        }
    }

    /// Maximum energy storage (joules) of a mass driver, or `None` for any other building.
    pub fn mass_driver_energy_capacity_j(&self) -> (r: Option<u64>)
        ensures
            r == self.spec_mass_driver_energy_capacity_j(),
    {
        match self {
            BuildingType::MassDriverMk1 => Some(1_000_000_000_000),
            BuildingType::MassDriverMk2 => Some(10_000_000_000_000),
            BuildingType::MassDriverMk3 => Some(150_000_000_000_000),
            BuildingType::MassDriverMk4 => Some(500_000_000_000_000),
            _ => None,
        }
    }

    /// Mass driver system mass in kg, or None if not a mass driver.
    pub fn mass_driver_system_mass_kg(&self) -> (r: Option<u64>)
        ensures
            r == self.spec_mass_driver_system_mass_kg(),
    {
        match self {
            BuildingType::Habitat => None,
            BuildingType::BasicGreenhouse => None,
            BuildingType::AdvancedGreenhouse => None,
            BuildingType::SmallSolarFarm => None,
            BuildingType::MediumSolarFarm => None,
            BuildingType::LargeSolarFarm => None,
            BuildingType::FissionReactor => None,
            BuildingType::FusionReactor => None,
            BuildingType::Mine => None,
            BuildingType::AtmosphericCollector => None,
            BuildingType::Factory => None,
            BuildingType::Launchpad => None,
            BuildingType::MassDriverMk1 => Some(500_000),
            BuildingType::MassDriverMk2 => Some(5_000_000),
            BuildingType::MassDriverMk3 => Some(50_000_000),
            BuildingType::MassDriverMk4 => Some(200_000_000),
            BuildingType::LightConstructionRobot => None,
            BuildingType::ConstructionRobot => None,
            BuildingType::ScienceLab => None,
            BuildingType::Stockpile => None,
            BuildingType::FoodStorage => None,
            BuildingType::ParticleAcceleratorMk1 => None,
            BuildingType::ParticleAcceleratorMk2 => None,
            BuildingType::ParticleAcceleratorMk3 => None,
            BuildingType::ParticleAcceleratorMk4 => None,
            BuildingType::Hangar => None,
            BuildingType::ReceiverArray => None,
        }
    }

    /// Whether this building is a mass driver.
    pub fn is_mass_driver(&self) -> (r: bool)
        ensures
            r == self.spec_is_mass_driver(),
    {
        self.mass_driver_track_m().is_some()
    }

    /// Power draw in kW. Factory power varies by recipe and is not included here.
    pub fn power_draw_kw(&self) -> (r: u64)
        ensures
            r == self.spec_power_draw_kw(),
    {
        match self {
            BuildingType::Habitat => 10,
            BuildingType::BasicGreenhouse => 50,
            BuildingType::AdvancedGreenhouse => 50,
            BuildingType::SmallSolarFarm => 0,
            BuildingType::MediumSolarFarm => 0,
            BuildingType::LargeSolarFarm => 0,
            BuildingType::FissionReactor => 0,
            BuildingType::FusionReactor => 0,
            BuildingType::Mine => 100,
            BuildingType::AtmosphericCollector => 100,
            BuildingType::Factory => 0,
            BuildingType::Launchpad => 10,
            BuildingType::MassDriverMk1 => 10000,
            BuildingType::MassDriverMk2 => 100000,
            BuildingType::MassDriverMk3 => 1000000,
            BuildingType::MassDriverMk4 => 100000000,
            BuildingType::LightConstructionRobot => 100,
            BuildingType::ConstructionRobot => 500,
            BuildingType::ScienceLab => 200,
            BuildingType::Stockpile => 0,
            BuildingType::FoodStorage => 5,
            BuildingType::ParticleAcceleratorMk1 => 50000000,
            BuildingType::ParticleAcceleratorMk2 => 500000000,
            BuildingType::ParticleAcceleratorMk3 => 5000000000,
            BuildingType::ParticleAcceleratorMk4 => 50000,
            BuildingType::Hangar => 50,
            BuildingType::ReceiverArray => 0,
        }
    }

    /// Power output in kW. Solar farms output at 1 AU; actual output scales with distance.
    pub fn power_output_kw(&self) -> (r: u64)
        ensures
            r == self.spec_power_output_kw(),
    {
        match self {
            BuildingType::Habitat => 0,
            BuildingType::BasicGreenhouse => 0,
            BuildingType::AdvancedGreenhouse => 0,
            BuildingType::SmallSolarFarm => 10000,
            BuildingType::MediumSolarFarm => 100000,
            BuildingType::LargeSolarFarm => 1000000,
            BuildingType::FissionReactor => 500000,
            BuildingType::FusionReactor => 5000000,
            BuildingType::Mine => 0,
            BuildingType::AtmosphericCollector => 0,
            BuildingType::Factory => 0,
            BuildingType::Launchpad => 0,
            BuildingType::MassDriverMk1 => 0,
            BuildingType::MassDriverMk2 => 0,
            BuildingType::MassDriverMk3 => 0,
            BuildingType::MassDriverMk4 => 0,
            BuildingType::LightConstructionRobot => 0,
            BuildingType::ConstructionRobot => 0,
            BuildingType::ScienceLab => 0,
            BuildingType::Stockpile => 0,
            BuildingType::FoodStorage => 0,
            BuildingType::ParticleAcceleratorMk1 => 0,
            BuildingType::ParticleAcceleratorMk2 => 0,
            BuildingType::ParticleAcceleratorMk3 => 0,
            BuildingType::ParticleAcceleratorMk4 => 0,
            BuildingType::Hangar => 0,
            BuildingType::ReceiverArray => 45000000,
        }
    }

}

/// Factory recipes that can be assigned to a Factory building.
#[derive(Debug, Clone, Copy, PartialEq, Eq, Hash, Structural)]
pub enum FactoryRecipe {
    MetalSmelting,
    AlloyForging,
    ElectronicsManufacturing,
    SuperconductorFabrication,
    PrecisionInstrumentsManufacturing,
    Electrolysis,
    DeuteriumExtraction,
    SabatierReaction,
    MethanePurification,
    KeroseneRefining,
    UraniumEnrichment,
    TritiumBreeding,
    NpuAssembly,
    RegolithHe3Extraction,
    GasGiantHe3Separation,
    MirrorSegmentAssembly,
    CollectorStationAssembly,
}

impl FactoryRecipe {
    /// The name shown to the player.
    pub open spec fn spec_display_name(self) -> Seq<char> {
        match self {
            FactoryRecipe::MetalSmelting => "Metal Smelting"@,
            FactoryRecipe::AlloyForging => "Alloy Forging"@,
            FactoryRecipe::ElectronicsManufacturing => "Electronics Manufacturing"@,
            FactoryRecipe::SuperconductorFabrication => "Superconductor Fabrication"@,
            FactoryRecipe::PrecisionInstrumentsManufacturing => "Precision Instruments Mfg"@,
            FactoryRecipe::Electrolysis => "Electrolysis"@,
            FactoryRecipe::DeuteriumExtraction => "Deuterium Extraction"@,
            FactoryRecipe::SabatierReaction => "Sabatier Reaction"@,
            FactoryRecipe::MethanePurification => "Methane Purification"@,
            FactoryRecipe::KeroseneRefining => "Kerosene Refining"@,
            FactoryRecipe::UraniumEnrichment => "Uranium Enrichment"@,
            FactoryRecipe::TritiumBreeding => "Tritium Breeding"@,
            FactoryRecipe::NpuAssembly => "NPU Assembly"@,
            FactoryRecipe::RegolithHe3Extraction => "Regolith He-3 Extraction"@,
            FactoryRecipe::GasGiantHe3Separation => "Gas Giant He-3 Separation"@,
            FactoryRecipe::MirrorSegmentAssembly => "Mirror Segment Assembly"@,
            FactoryRecipe::CollectorStationAssembly => "Collector Station Assembly"@,
        }
    }

    /// The tech efficiency line that governs this recipe's throughput.
    pub open spec fn spec_efficiency_line_id(self) -> Seq<char> {
        match self {
            FactoryRecipe::MetalSmelting => "metallurgy"@,
            FactoryRecipe::AlloyForging => "metallurgy"@,
            FactoryRecipe::ElectronicsManufacturing => "electronics_mfg"@,
            FactoryRecipe::SuperconductorFabrication => "electronics_mfg"@,
            FactoryRecipe::PrecisionInstrumentsManufacturing => "precision_mfg"@,
            FactoryRecipe::Electrolysis => "chemical_processing"@,
            FactoryRecipe::DeuteriumExtraction => "chemical_processing"@,
            FactoryRecipe::SabatierReaction => "chemical_processing"@,
            FactoryRecipe::MethanePurification => "chemical_processing"@,
            FactoryRecipe::KeroseneRefining => "chemical_processing"@,
            FactoryRecipe::UraniumEnrichment => "nuclear_engineering"@,
            FactoryRecipe::TritiumBreeding => "nuclear_engineering"@,
            FactoryRecipe::NpuAssembly => "nuclear_engineering"@,
            FactoryRecipe::RegolithHe3Extraction => "isotope_extraction"@,
            FactoryRecipe::GasGiantHe3Separation => "isotope_extraction"@,
            FactoryRecipe::MirrorSegmentAssembly => "construction"@,
            FactoryRecipe::CollectorStationAssembly => "construction"@,
        }
    }

    /// The recipe's id in the tech tree's recipe gates.
    pub open spec fn spec_recipe_id(self) -> Seq<char> {
        match self {
            FactoryRecipe::MetalSmelting => "MetalSmelting"@,
            FactoryRecipe::AlloyForging => "AlloyForging"@,
            FactoryRecipe::ElectronicsManufacturing => "ElectronicsManufacturing"@,
            FactoryRecipe::SuperconductorFabrication => "SuperconductorFabrication"@,
            FactoryRecipe::PrecisionInstrumentsManufacturing => "PrecisionInstrumentsManufacturing"@,
            FactoryRecipe::Electrolysis => "Electrolysis"@,
            FactoryRecipe::DeuteriumExtraction => "DeuteriumExtraction"@,
            FactoryRecipe::SabatierReaction => "SabatierReaction"@,
            FactoryRecipe::MethanePurification => "MethanePurification"@,
            FactoryRecipe::KeroseneRefining => "KeroseneRefining"@,
            FactoryRecipe::UraniumEnrichment => "UraniumEnrichment"@,
            FactoryRecipe::TritiumBreeding => "TritiumBreeding"@,
            FactoryRecipe::NpuAssembly => "NpuAssembly"@,
            FactoryRecipe::RegolithHe3Extraction => "RegolithHe3Extraction"@,
            FactoryRecipe::GasGiantHe3Separation => "GasGiantHe3Separation"@,
            FactoryRecipe::MirrorSegmentAssembly => "MirrorSegmentAssembly"@,
            FactoryRecipe::CollectorStationAssembly => "CollectorStationAssembly"@,
        }
    }

    /// Power draw in kW while the recipe runs.
    pub open spec fn spec_power_draw_kw(self) -> u64 {
        match self {
            FactoryRecipe::MetalSmelting => 150,
            FactoryRecipe::AlloyForging => 250,
            FactoryRecipe::ElectronicsManufacturing => 300,
            FactoryRecipe::SuperconductorFabrication => 500,
            FactoryRecipe::PrecisionInstrumentsManufacturing => 500,
            FactoryRecipe::Electrolysis => 50,
            FactoryRecipe::DeuteriumExtraction => 100,
            FactoryRecipe::SabatierReaction => 75,
            FactoryRecipe::MethanePurification => 30,
            FactoryRecipe::KeroseneRefining => 75,
            FactoryRecipe::UraniumEnrichment => 500,
            FactoryRecipe::TritiumBreeding => 200,
            FactoryRecipe::NpuAssembly => 500,
            FactoryRecipe::RegolithHe3Extraction => 500,
            FactoryRecipe::GasGiantHe3Separation => 200,
            FactoryRecipe::MirrorSegmentAssembly => 500,
            FactoryRecipe::CollectorStationAssembly => 500,
        }
    }

    /// Batch time in hours.
    pub open spec fn spec_batch_time_hours(self) -> u64 {
        match self {
            FactoryRecipe::MetalSmelting => 12,
            FactoryRecipe::AlloyForging => 24,
            FactoryRecipe::ElectronicsManufacturing => 24,
            FactoryRecipe::SuperconductorFabrication => 48,
            FactoryRecipe::PrecisionInstrumentsManufacturing => 120,
            FactoryRecipe::Electrolysis => 8,
            FactoryRecipe::DeuteriumExtraction => 120,
            FactoryRecipe::SabatierReaction => 12,
            FactoryRecipe::MethanePurification => 4,
            FactoryRecipe::KeroseneRefining => 12,
            FactoryRecipe::UraniumEnrichment => 48,
            FactoryRecipe::TritiumBreeding => 48,
            FactoryRecipe::NpuAssembly => 240,
            FactoryRecipe::RegolithHe3Extraction => 24,
            FactoryRecipe::GasGiantHe3Separation => 24,
            FactoryRecipe::MirrorSegmentAssembly => 48,
            FactoryRecipe::CollectorStationAssembly => 48,
        }
    }

    /// The building that must stand in the same colony for this recipe to run.
    pub open spec fn spec_requires_colocation(self) -> Option<BuildingType> {
        if self is TritiumBreeding || self is NpuAssembly {
            Some(BuildingType::FissionReactor)
        } else {
            None
        }
    }

    /// Every `FactoryRecipe`, in declaration order.
    pub open spec fn spec_all() -> Seq<FactoryRecipe> {
        seq![
            FactoryRecipe::MetalSmelting,
            FactoryRecipe::AlloyForging,
            FactoryRecipe::ElectronicsManufacturing,
            FactoryRecipe::SuperconductorFabrication,
            FactoryRecipe::PrecisionInstrumentsManufacturing,
            FactoryRecipe::Electrolysis,
            FactoryRecipe::DeuteriumExtraction,
            FactoryRecipe::SabatierReaction,
            FactoryRecipe::MethanePurification,
            FactoryRecipe::KeroseneRefining,
            FactoryRecipe::UraniumEnrichment,
            FactoryRecipe::TritiumBreeding,
            FactoryRecipe::NpuAssembly,
            FactoryRecipe::RegolithHe3Extraction,
            FactoryRecipe::GasGiantHe3Separation,
            FactoryRecipe::MirrorSegmentAssembly,
            FactoryRecipe::CollectorStationAssembly,
        ]
    }

    /// Position of this value in `spec_all`.
    pub open spec fn spec_index(self) -> int {
        match self {
            FactoryRecipe::MetalSmelting => 0,
            FactoryRecipe::AlloyForging => 1,
            FactoryRecipe::ElectronicsManufacturing => 2,
            FactoryRecipe::SuperconductorFabrication => 3,
            FactoryRecipe::PrecisionInstrumentsManufacturing => 4,
            FactoryRecipe::Electrolysis => 5,
            FactoryRecipe::DeuteriumExtraction => 6,
            FactoryRecipe::SabatierReaction => 7,
            FactoryRecipe::MethanePurification => 8,
            FactoryRecipe::KeroseneRefining => 9,
            FactoryRecipe::UraniumEnrichment => 10,
            FactoryRecipe::TritiumBreeding => 11,
            FactoryRecipe::NpuAssembly => 12,
            FactoryRecipe::RegolithHe3Extraction => 13,
            FactoryRecipe::GasGiantHe3Separation => 14,
            FactoryRecipe::MirrorSegmentAssembly => 15,
            FactoryRecipe::CollectorStationAssembly => 16,
        }
    }

    /// All factory recipes.
    pub fn all() -> (r: &'static [FactoryRecipe])
        ensures
            r@ == Self::spec_all(),
    {
        &[
            FactoryRecipe::MetalSmelting,
            FactoryRecipe::AlloyForging,
            FactoryRecipe::ElectronicsManufacturing,
            FactoryRecipe::SuperconductorFabrication,
            FactoryRecipe::PrecisionInstrumentsManufacturing,
            FactoryRecipe::Electrolysis,
            FactoryRecipe::DeuteriumExtraction,
            FactoryRecipe::SabatierReaction,
            FactoryRecipe::MethanePurification,
            FactoryRecipe::KeroseneRefining,
            FactoryRecipe::UraniumEnrichment,
            FactoryRecipe::TritiumBreeding,
            FactoryRecipe::NpuAssembly,
            FactoryRecipe::RegolithHe3Extraction,
            FactoryRecipe::GasGiantHe3Separation,
            FactoryRecipe::MirrorSegmentAssembly,
            FactoryRecipe::CollectorStationAssembly,
        ]
    }

    /// The name shown to the player.
    pub fn display_name(&self) -> (r: &'static str)
        ensures
            r@ == self.spec_display_name(),
    {
        match self {
            FactoryRecipe::MetalSmelting => "Metal Smelting",
            FactoryRecipe::AlloyForging => "Alloy Forging",
            FactoryRecipe::ElectronicsManufacturing => "Electronics Manufacturing",
            FactoryRecipe::SuperconductorFabrication => "Superconductor Fabrication",
            FactoryRecipe::PrecisionInstrumentsManufacturing => "Precision Instruments Mfg",
            FactoryRecipe::Electrolysis => "Electrolysis",
            FactoryRecipe::DeuteriumExtraction => "Deuterium Extraction",
            FactoryRecipe::SabatierReaction => "Sabatier Reaction",
            FactoryRecipe::MethanePurification => "Methane Purification",
            FactoryRecipe::KeroseneRefining => "Kerosene Refining",
            FactoryRecipe::UraniumEnrichment => "Uranium Enrichment",
            FactoryRecipe::TritiumBreeding => "Tritium Breeding",
            FactoryRecipe::NpuAssembly => "NPU Assembly",
            FactoryRecipe::RegolithHe3Extraction => "Regolith He-3 Extraction",
            FactoryRecipe::GasGiantHe3Separation => "Gas Giant He-3 Separation",
            FactoryRecipe::MirrorSegmentAssembly => "Mirror Segment Assembly",
            FactoryRecipe::CollectorStationAssembly => "Collector Station Assembly",
        }
    }

    /// Power draw in kW while this recipe is running.
    pub fn power_draw_kw(&self) -> (r: u64)
        ensures
            r == self.spec_power_draw_kw(),
    {
        match self {
            FactoryRecipe::MetalSmelting => 150,
            FactoryRecipe::AlloyForging => 250,
            FactoryRecipe::ElectronicsManufacturing => 300,
            FactoryRecipe::SuperconductorFabrication => 500,
            FactoryRecipe::PrecisionInstrumentsManufacturing => 500,
            FactoryRecipe::Electrolysis => 50,
            FactoryRecipe::DeuteriumExtraction => 100,
            FactoryRecipe::SabatierReaction => 75,
            FactoryRecipe::MethanePurification => 30,
            FactoryRecipe::KeroseneRefining => 75,
            FactoryRecipe::UraniumEnrichment => 500,
            FactoryRecipe::TritiumBreeding => 200,
            FactoryRecipe::NpuAssembly => 500,
            FactoryRecipe::RegolithHe3Extraction => 500,
            FactoryRecipe::GasGiantHe3Separation => 200,
            FactoryRecipe::MirrorSegmentAssembly => 500,
            FactoryRecipe::CollectorStationAssembly => 500,
        }
    }

    /// Batch time in hours.
    pub fn batch_time_hours(&self) -> (r: u64)
        ensures
            r == self.spec_batch_time_hours(),
    {
        match self {
            FactoryRecipe::MetalSmelting => 12,
            FactoryRecipe::AlloyForging => 24,
            FactoryRecipe::ElectronicsManufacturing => 24,
            FactoryRecipe::SuperconductorFabrication => 48,
            FactoryRecipe::PrecisionInstrumentsManufacturing => 120,
            FactoryRecipe::Electrolysis => 8,
            FactoryRecipe::DeuteriumExtraction => 120,
            FactoryRecipe::SabatierReaction => 12,
            FactoryRecipe::MethanePurification => 4,
            FactoryRecipe::KeroseneRefining => 12,
            FactoryRecipe::UraniumEnrichment => 48,
            FactoryRecipe::TritiumBreeding => 48,
            FactoryRecipe::NpuAssembly => 240,
            FactoryRecipe::RegolithHe3Extraction => 24,
            FactoryRecipe::GasGiantHe3Separation => 24,
            FactoryRecipe::MirrorSegmentAssembly => 48,
            FactoryRecipe::CollectorStationAssembly => 48,
        }
    }

    /// The tech efficiency line ID that governs this recipe's throughput multiplier.
    pub fn efficiency_line_id(&self) -> (r: &'static str)
        ensures
            r@ == self.spec_efficiency_line_id(),
    {
        match self {
            FactoryRecipe::MetalSmelting => "metallurgy",
            FactoryRecipe::AlloyForging => "metallurgy",
            FactoryRecipe::ElectronicsManufacturing => "electronics_mfg",
            FactoryRecipe::SuperconductorFabrication => "electronics_mfg",
            FactoryRecipe::PrecisionInstrumentsManufacturing => "precision_mfg",
            FactoryRecipe::Electrolysis => "chemical_processing",
            FactoryRecipe::DeuteriumExtraction => "chemical_processing",
            FactoryRecipe::SabatierReaction => "chemical_processing",
            FactoryRecipe::MethanePurification => "chemical_processing",
            FactoryRecipe::KeroseneRefining => "chemical_processing",
            FactoryRecipe::UraniumEnrichment => "nuclear_engineering",
            FactoryRecipe::TritiumBreeding => "nuclear_engineering",
            FactoryRecipe::NpuAssembly => "nuclear_engineering",
            FactoryRecipe::RegolithHe3Extraction => "isotope_extraction",
            FactoryRecipe::GasGiantHe3Separation => "isotope_extraction",
            FactoryRecipe::MirrorSegmentAssembly => "construction",
            FactoryRecipe::CollectorStationAssembly => "construction",
        }
    }

    /// Recipe ID string matching recipe_gates in the tech tree.
    pub fn recipe_id(&self) -> (r: &'static str)
        ensures
            r@ == self.spec_recipe_id(),
    {
        match self {
            FactoryRecipe::MetalSmelting => "MetalSmelting",
            FactoryRecipe::AlloyForging => "AlloyForging",
            FactoryRecipe::ElectronicsManufacturing => "ElectronicsManufacturing",
            FactoryRecipe::SuperconductorFabrication => "SuperconductorFabrication",
            FactoryRecipe::PrecisionInstrumentsManufacturing => "PrecisionInstrumentsManufacturing",
            FactoryRecipe::Electrolysis => "Electrolysis",
            FactoryRecipe::DeuteriumExtraction => "DeuteriumExtraction",
            FactoryRecipe::SabatierReaction => "SabatierReaction",
            FactoryRecipe::MethanePurification => "MethanePurification",
            FactoryRecipe::KeroseneRefining => "KeroseneRefining",
            FactoryRecipe::UraniumEnrichment => "UraniumEnrichment",
            FactoryRecipe::TritiumBreeding => "TritiumBreeding",
            FactoryRecipe::NpuAssembly => "NpuAssembly",
            FactoryRecipe::RegolithHe3Extraction => "RegolithHe3Extraction",
            FactoryRecipe::GasGiantHe3Separation => "GasGiantHe3Separation",
            FactoryRecipe::MirrorSegmentAssembly => "MirrorSegmentAssembly",
            FactoryRecipe::CollectorStationAssembly => "CollectorStationAssembly",
        }
    }

    /// If Some, this recipe requires the given building type to be co-located on the colony.
    pub fn requires_colocation(&self) -> (r: Option<BuildingType>)
        ensures
            r == self.spec_requires_colocation(),
    {
        match self {
            FactoryRecipe::TritiumBreeding => Some(BuildingType::FissionReactor),
            FactoryRecipe::NpuAssembly => Some(BuildingType::FissionReactor),
            _ => None,
        }
    }
}

/// Batch size of a construction queue item that names none (older saves).
pub fn default_one_u32() -> (r: u32)
    ensures
        r == 1,
{
    1
}

/// What the colony rules read of a building instance: its type and whether it is
/// operational (powered and maintained).
#[derive(Debug, Clone, Copy, PartialEq, Eq, Structural)]
pub struct BuildingStatus {
    pub building_type: BuildingType,
    pub operational: bool,
}

impl BuildingStatus {
    /// A newly built building: operational.
    pub fn new(building_type: BuildingType) -> (r: BuildingStatus)
        ensures
            r.building_type == building_type,
            r.operational,
    {
        BuildingStatus { building_type, operational: true }
    }
}

/// Whether `b` is an operational building of type `bt`.
pub open spec fn is_operational_of(b: BuildingStatus, bt: BuildingType) -> bool {
    b.operational && b.building_type == bt
}

/// Number of operational buildings of type `bt` in `s`.
pub open spec fn spec_operational_count(s: Seq<BuildingStatus>, bt: BuildingType) -> nat
    decreases s.len(),
{
    if s.len() == 0 {
        0
    } else {
        spec_operational_count(s.drop_last(), bt) + if is_operational_of(s.last(), bt) {
            1nat
        } else {
            0nat
        }
    }
}

/// The count never exceeds the number of buildings.
pub proof fn lemma_operational_count_bounded(s: Seq<BuildingStatus>, bt: BuildingType)
    ensures
        spec_operational_count(s, bt) <= s.len(),
    decreases s.len(),
{
    if s.len() > 0 {
        lemma_operational_count_bounded(s.drop_last(), bt);
    }
}

/// Number of operational buildings of a given type.
pub fn operational_building_count(buildings: &[BuildingStatus], bt: BuildingType) -> (r: usize)
    ensures
        r == spec_operational_count(buildings@, bt),
{
    let mut count: usize = 0;
    let mut i: usize = 0;
    while i < buildings.len()
        invariant
            0 <= i <= buildings@.len(),
            count == spec_operational_count(buildings@.take(i as int), bt),
        decreases buildings@.len() - i,
    {
        proof {
            assert(buildings@.take(i + 1).drop_last() =~= buildings@.take(i as int));
            lemma_operational_count_bounded(buildings@.take(i as int), bt);
        }
        if buildings[i].operational && buildings[i].building_type == bt {
            count = count + 1;
        }
        i += 1;
    }
    proof {
        assert(buildings@.take(i as int) =~= buildings@);
    }
    count
}

/// Crew capacity: 20 per operational Habitat.
pub fn crew_capacity(buildings: &[BuildingStatus]) -> (r: u32)
    requires
        spec_operational_count(buildings@, BuildingType::Habitat) * 20 <= u32::MAX,
    ensures
        r == spec_operational_count(buildings@, BuildingType::Habitat) * 20,
{
    let n = operational_building_count(buildings, BuildingType::Habitat);
    (n as u32) * 20
}

/// Storage capacity in kg: 500,000 kg per operational Stockpile.
pub fn storage_capacity(buildings: &[BuildingStatus]) -> (r: u64)
    requires
        spec_operational_count(buildings@, BuildingType::Stockpile) * 500_000 <= u64::MAX,
    ensures
        r == spec_operational_count(buildings@, BuildingType::Stockpile) * 500_000,
{
    let n = operational_building_count(buildings, BuildingType::Stockpile);
    (n as u64) * 500_000
}

/// Food storage capacity in kg: 3,000 kg per operational Habitat and
/// 10,000 kg per operational FoodStorage.
pub fn food_capacity(buildings: &[BuildingStatus]) -> (r: u64)
    requires
        spec_operational_count(buildings@, BuildingType::Habitat) * 3_000
            + spec_operational_count(buildings@, BuildingType::FoodStorage) * 10_000 <= u64::MAX,
    ensures
        r == spec_operational_count(buildings@, BuildingType::Habitat) * 3_000
            + spec_operational_count(buildings@, BuildingType::FoodStorage) * 10_000,
{
    let habitats = operational_building_count(buildings, BuildingType::Habitat);
    let stores = operational_building_count(buildings, BuildingType::FoodStorage);
    (habitats as u64) * 3_000 + (stores as u64) * 10_000
}

/// Total hangar capacity in kg (200,000 kg per operational Hangar building).
pub fn hangar_capacity(buildings: &[BuildingStatus]) -> (r: u64)
    requires
        spec_operational_count(buildings@, BuildingType::Hangar) * 200_000 <= u64::MAX,
    ensures
        r == spec_operational_count(buildings@, BuildingType::Hangar) * 200_000,
{
    let n = operational_building_count(buildings, BuildingType::Hangar);
    (n as u64) * 200_000
}

/// Whether the colony has at least one operational Hangar building.
pub fn has_hangar(buildings: &[BuildingStatus]) -> (r: bool)
    ensures
        r == exists|i: int|
            0 <= i < buildings@.len() && is_operational_of(#[trigger] buildings@[i], BuildingType::Hangar),
{
    let mut i: usize = 0;
    while i < buildings.len()
        invariant
            0 <= i <= buildings@.len(),
            forall|j: int| 0 <= j < i ==> !is_operational_of(#[trigger] buildings@[j], BuildingType::Hangar),
        decreases buildings@.len() - i,
    {
        if buildings[i].building_type == BuildingType::Hangar && buildings[i].operational {
            return true;
        }
        i += 1;
    }
    false
}

/// Whether `b` is an operational mass driver.
pub open spec fn is_operational_mass_driver(b: BuildingStatus) -> bool {
    b.operational && b.building_type.spec_is_mass_driver()
}

/// Whether the colony has any operational mass driver.
pub fn has_mass_driver(buildings: &[BuildingStatus]) -> (r: bool)
    ensures
        r == exists|i: int| 0 <= i < buildings@.len() && is_operational_mass_driver(#[trigger] buildings@[i]),
{
    let mut i: usize = 0;
    while i < buildings.len()
        invariant
            0 <= i <= buildings@.len(),
            forall|j: int| 0 <= j < i ==> !is_operational_mass_driver(#[trigger] buildings@[j]),
        decreases buildings@.len() - i,
    {
        if buildings[i].operational && buildings[i].building_type.is_mass_driver() {
            return true;
        }
        i += 1;
    }
    false
}

/// Track length of a mass driver, 0 for other buildings.
pub open spec fn track_or_zero(bt: BuildingType) -> u64 {
    match bt.spec_mass_driver_track_m() {
        Some(t) => t,
        None => 0,
    }
}

/// `best` is the operational mass driver of `s` with the longest track.
pub open spec fn is_best_mass_driver(s: Seq<BuildingStatus>, best: Option<BuildingType>) -> bool {
    match best {
        None => forall|i: int| 0 <= i < s.len() ==> !is_operational_mass_driver(#[trigger] s[i]),
        Some(bt) => {
            &&& exists|i: int|
                0 <= i < s.len() && is_operational_mass_driver(#[trigger] s[i]) && s[i].building_type == bt
            &&& forall|i: int|
                0 <= i < s.len() && is_operational_mass_driver(#[trigger] s[i])
                    ==> track_or_zero(s[i].building_type) <= track_or_zero(bt)
        },
    }
}

/// Find the best (highest tier) operational mass driver in this colony.
pub fn best_mass_driver(buildings: &[BuildingStatus]) -> (r: Option<BuildingType>)
    ensures
        is_best_mass_driver(buildings@, r),
{
    let mut best: Option<BuildingType> = None;
    let mut i: usize = 0;
    while i < buildings.len()
        invariant
            0 <= i <= buildings@.len(),
            is_best_mass_driver(buildings@.take(i as int), best),
        decreases buildings@.len() - i,
    {
        let b = buildings[i];
        let ghost prefix = buildings@.take(i as int);
        let ghost next = buildings@.take(i + 1);
        proof {
            assert(next =~= prefix.push(b));
        }
        if b.operational && b.building_type.is_mass_driver() {
            let track = match b.building_type.mass_driver_track_m() {
                Some(t) => t,
                None => 0,
            };
            let replace = match best {
                None => true,
                Some(bt) => {
                    let best_track = match bt.mass_driver_track_m() {
                        Some(t) => t,
                        None => 0,
                    };
                    best_track < track
                },
            };
            if replace {
                proof {
                    assert(is_operational_mass_driver(next[i as int]));
                    assert forall|j: int| 0 <= j < next.len() && is_operational_mass_driver(#[trigger] next[j])
                        implies track_or_zero(next[j].building_type) <= track_or_zero(b.building_type) by {
                        if j < i {
                            assert(next[j] == prefix[j]);
                        }
                    }
                }
                best = Some(b.building_type);
            } else {
                proof {
                    let bt = best->0;
                    let k = choose|k: int| 0 <= k < prefix.len() && is_operational_mass_driver(#[trigger] prefix[k])
                        && prefix[k].building_type == bt;
                    assert(next[k] == prefix[k]);
                    assert forall|j: int| 0 <= j < next.len() && is_operational_mass_driver(#[trigger] next[j])
                        implies track_or_zero(next[j].building_type) <= track_or_zero(bt) by {
                        if j < i {
                            assert(next[j] == prefix[j]);
                        }
                    }
                }
            }
        } else {
            proof {
                match best {
                    None => {
                        assert forall|j: int| 0 <= j < next.len() implies !is_operational_mass_driver(#[trigger] next[j]) by {
                            if j < i {
                                assert(next[j] == prefix[j]);
                            }
                        }
                    },
                    Some(bt) => {
                        let k = choose|k: int| 0 <= k < prefix.len() && is_operational_mass_driver(#[trigger] prefix[k])
                            && prefix[k].building_type == bt;
                        assert(next[k] == prefix[k]);
                        assert forall|j: int| 0 <= j < next.len() && is_operational_mass_driver(#[trigger] next[j])
                            implies track_or_zero(next[j].building_type) <= track_or_zero(bt) by {
                            if j < i {
                                assert(next[j] == prefix[j]);
                            }
                        }
                    },
                }
            }
        }
        i += 1;
    }
    proof {
        assert(buildings@.take(i as int) =~= buildings@);
    }
    best
}

/// Mass drivers are told apart by their track lengths, so the best mass driver
/// of a colony is determined by its buildings.
pub proof fn lemma_best_mass_driver_unique(s: Seq<BuildingStatus>, a: Option<BuildingType>, b: Option<BuildingType>)
    requires
        is_best_mass_driver(s, a),
        is_best_mass_driver(s, b),
    ensures
        a == b,
{
    match (a, b) {
        (Some(x), Some(y)) => {
            let i = choose|i: int| 0 <= i < s.len() && is_operational_mass_driver(#[trigger] s[i]) && s[i].building_type == x;
            let j = choose|j: int| 0 <= j < s.len() && is_operational_mass_driver(#[trigger] s[j]) && s[j].building_type == y;
            assert(track_or_zero(x) == track_or_zero(y));
        },
        (Some(x), None) => {
            let i = choose|i: int| 0 <= i < s.len() && is_operational_mass_driver(#[trigger] s[i]) && s[i].building_type == x;
        },
        (None, Some(y)) => {
            let j = choose|j: int| 0 <= j < s.len() && is_operational_mass_driver(#[trigger] s[j]) && s[j].building_type == y;
        },
        (None, None) => {},
    }
}

/// Every `BuildingType` stands in `all()` exactly once, at its own index.
pub proof fn lemma_all_lists_every_building(x: BuildingType)
    ensures
        0 <= x.spec_index() < BuildingType::spec_all().len(),
        BuildingType::spec_all()[x.spec_index()] == x,
        forall|i: int| 0 <= i < BuildingType::spec_all().len() && BuildingType::spec_all()[i] == x ==> i == x.spec_index(),
{
    assert forall|i: int| 0 <= i < BuildingType::spec_all().len() && BuildingType::spec_all()[i] == x implies i == x.spec_index() by {
        assert(BuildingType::spec_all()[i].spec_index() == i);
    }
}

/// Every `FactoryRecipe` stands in `all()` exactly once, at its own index.
pub proof fn lemma_all_lists_every_recipe(x: FactoryRecipe)
    ensures
        0 <= x.spec_index() < FactoryRecipe::spec_all().len(),
        FactoryRecipe::spec_all()[x.spec_index()] == x,
        forall|i: int| 0 <= i < FactoryRecipe::spec_all().len() && FactoryRecipe::spec_all()[i] == x ==> i == x.spec_index(),
{
    assert forall|i: int| 0 <= i < FactoryRecipe::spec_all().len() && FactoryRecipe::spec_all()[i] == x implies i == x.spec_index() by {
        assert(FactoryRecipe::spec_all()[i].spec_index() == i);
    }
}

/// Looking up a `BuildingType` by its own display name gives it back.
pub proof fn lemma_from_display_name_round_trip(x: BuildingType)
    ensures
        BuildingType::spec_from_display_name(x.spec_display_name()) == Some(x),
{
    let found = choose|y: BuildingType| y.spec_display_name() == x.spec_display_name();
    lemma_display_name_injective(found, x);
}

/// No two values of `BuildingType` share a display name.
pub proof fn lemma_display_name_injective(a: BuildingType, b: BuildingType)
    requires
        a.spec_display_name() == b.spec_display_name(),
    ensures
        a == b,
{
    reveal_strlit("Habitat");
    reveal_strlit("Basic Greenhouse");
    reveal_strlit("Advanced Greenhouse");
    reveal_strlit("Small Solar Farm");
    reveal_strlit("Medium Solar Farm");
    reveal_strlit("Large Solar Farm");
    reveal_strlit("Fission Reactor");
    reveal_strlit("Fusion Reactor");
    reveal_strlit("Mine");
    reveal_strlit("Atmospheric Collector");
    reveal_strlit("Factory");
    reveal_strlit("Launchpad");
    reveal_strlit("Mass Driver Mk I");
    reveal_strlit("Mass Driver Mk II");
    reveal_strlit("Mass Driver Mk III");
    reveal_strlit("Mass Driver Mk IV");
    reveal_strlit("Light Construction Robot");
    reveal_strlit("Construction Robot");
    reveal_strlit("Science Lab");
    reveal_strlit("Stockpile");
    reveal_strlit("Food Storage");
    reveal_strlit("Particle Accelerator Mk I");
    reveal_strlit("Particle Accelerator Mk II");
    reveal_strlit("Particle Accelerator Mk III");
    reveal_strlit("Particle Accelerator Mk IV");
    reveal_strlit("Hangar");
    reveal_strlit("Receiver Array");
    assert("Habitat"@.len() == 7);
    assert("Basic Greenhouse"@.len() == 16);
    assert("Advanced Greenhouse"@.len() == 19);
    assert("Small Solar Farm"@.len() == 16);
    assert("Medium Solar Farm"@.len() == 17);
    assert("Large Solar Farm"@.len() == 16);
    assert("Fission Reactor"@.len() == 15);
    assert("Fusion Reactor"@.len() == 14);
    assert("Mine"@.len() == 4);
    assert("Atmospheric Collector"@.len() == 21);
    assert("Factory"@.len() == 7);
    assert("Launchpad"@.len() == 9);
    assert("Mass Driver Mk I"@.len() == 16);
    assert("Mass Driver Mk II"@.len() == 17);
    assert("Mass Driver Mk III"@.len() == 18);
    assert("Mass Driver Mk IV"@.len() == 17);
    assert("Light Construction Robot"@.len() == 24);
    assert("Construction Robot"@.len() == 18);
    assert("Science Lab"@.len() == 11);
    assert("Stockpile"@.len() == 9);
    assert("Food Storage"@.len() == 12);
    assert("Particle Accelerator Mk I"@.len() == 25);
    assert("Particle Accelerator Mk II"@.len() == 26);
    assert("Particle Accelerator Mk III"@.len() == 27);
    assert("Particle Accelerator Mk IV"@.len() == 26);
    assert("Hangar"@.len() == 6);
    assert("Receiver Array"@.len() == 14);
    assert("Habitat"@[0] != "Factory"@[0]);
    assert("Basic Greenhouse"@[0] != "Small Solar Farm"@[0]);
    assert("Basic Greenhouse"@[0] != "Large Solar Farm"@[0]);
    assert("Basic Greenhouse"@[0] != "Mass Driver Mk I"@[0]);
    assert("Small Solar Farm"@[0] != "Large Solar Farm"@[0]);
    assert("Small Solar Farm"@[0] != "Mass Driver Mk I"@[0]);
    assert("Medium Solar Farm"@[1] != "Mass Driver Mk II"@[1]);
    assert("Medium Solar Farm"@[1] != "Mass Driver Mk IV"@[1]);
    assert("Large Solar Farm"@[0] != "Mass Driver Mk I"@[0]);
    assert("Fusion Reactor"@[0] != "Receiver Array"@[0]);
    assert("Launchpad"@[0] != "Stockpile"@[0]);
    assert("Mass Driver Mk II"@[16] != "Mass Driver Mk IV"@[16]);
    assert("Mass Driver Mk III"@[0] != "Construction Robot"@[0]);
    assert("Particle Accelerator Mk II"@[25] != "Particle Accelerator Mk IV"@[25]);
}

/// No two values of `FactoryRecipe` share a recipe id.
pub proof fn lemma_recipe_id_injective(a: FactoryRecipe, b: FactoryRecipe)
    requires
        a.spec_recipe_id() == b.spec_recipe_id(),
    ensures
        a == b,
{
    reveal_strlit("MetalSmelting");
    reveal_strlit("AlloyForging");
    reveal_strlit("ElectronicsManufacturing");
    reveal_strlit("SuperconductorFabrication");
    reveal_strlit("PrecisionInstrumentsManufacturing");
    reveal_strlit("Electrolysis");
    reveal_strlit("DeuteriumExtraction");
    reveal_strlit("SabatierReaction");
    reveal_strlit("MethanePurification");
    reveal_strlit("KeroseneRefining");
    reveal_strlit("UraniumEnrichment");
    reveal_strlit("TritiumBreeding");
    reveal_strlit("NpuAssembly");
    reveal_strlit("RegolithHe3Extraction");
    reveal_strlit("GasGiantHe3Separation");
    reveal_strlit("MirrorSegmentAssembly");
    reveal_strlit("CollectorStationAssembly");
    assert("MetalSmelting"@.len() == 13);
    assert("AlloyForging"@.len() == 12);
    assert("ElectronicsManufacturing"@.len() == 24);
    assert("SuperconductorFabrication"@.len() == 25);
    assert("PrecisionInstrumentsManufacturing"@.len() == 33);
    assert("Electrolysis"@.len() == 12);
    assert("DeuteriumExtraction"@.len() == 19);
    assert("SabatierReaction"@.len() == 16);
    assert("MethanePurification"@.len() == 19);
    assert("KeroseneRefining"@.len() == 16);
    assert("UraniumEnrichment"@.len() == 17);
    assert("TritiumBreeding"@.len() == 15);
    assert("NpuAssembly"@.len() == 11);
    assert("RegolithHe3Extraction"@.len() == 21);
    assert("GasGiantHe3Separation"@.len() == 21);
    assert("MirrorSegmentAssembly"@.len() == 21);
    assert("CollectorStationAssembly"@.len() == 24);
    assert("AlloyForging"@[0] != "Electrolysis"@[0]);
    assert("ElectronicsManufacturing"@[0] != "CollectorStationAssembly"@[0]);
    assert("DeuteriumExtraction"@[0] != "MethanePurification"@[0]);
    assert("SabatierReaction"@[0] != "KeroseneRefining"@[0]);
    assert("RegolithHe3Extraction"@[0] != "GasGiantHe3Separation"@[0]);
    assert("RegolithHe3Extraction"@[0] != "MirrorSegmentAssembly"@[0]);
    assert("GasGiantHe3Separation"@[0] != "MirrorSegmentAssembly"@[0]);
}

/// Acceleration of a mass driver launching a ship (1,000 g), in m/s².
pub const SHIP_LAUNCH_ACCEL_MS2: u64 = 9_810;

/// Acceleration of a mass driver launching a mirror segment (10,000 g), in m/s².
pub const MIRROR_LAUNCH_ACCEL_MS2: u64 = 98_100;

/// A mass driver stores more energy than its hardest launch takes: a ship of
/// its largest payload at ship acceleration, or the heaviest mirror segment at
/// mirror acceleration, along the whole track. A launch reaches v² = 2·a·s and
/// the drive is 90% efficient, so it takes m·a·s / 0.9 joules, and the bound
/// reads 9·capacity > 10·m·a·s. Only mass drivers have a capacity.
pub proof fn law_mass_driver_holds_worst_launch(b: BuildingType)
    ensures
        b.spec_mass_driver_energy_capacity_j() is Some <==> b.spec_is_mass_driver(),
        match (b.spec_mass_driver_energy_capacity_j(), b.spec_mass_driver_max_payload_kg(), b.spec_mass_driver_track_m()) {
            (Some(cap), Some(payload), Some(track)) => {
                &&& 9 * cap > 10 * payload * SHIP_LAUNCH_ACCEL_MS2 * track
                &&& 9 * cap > 10 * crate::colony::dyson_swarm::BASE_MIRROR_MASS_KG * MIRROR_LAUNCH_ACCEL_MS2 * track
            },
            _ => true,
        },
{
    match b {
        BuildingType::MassDriverMk1 => {
            assert(10 * 10_000 * 9_810 * 2_000int == 1_962_000_000_000);
            assert(10 * 3_500 * 98_100 * 2_000int == 6_867_000_000_000);
        },
        BuildingType::MassDriverMk2 => {
            assert(10 * 50_000 * 9_810 * 10_000int == 49_050_000_000_000);
            assert(10 * 3_500 * 98_100 * 10_000int == 34_335_000_000_000);
        },
        BuildingType::MassDriverMk3 => {
            assert(10 * 200_000 * 9_810 * 50_000int == 981_000_000_000_000);
            assert(10 * 3_500 * 98_100 * 50_000int == 171_675_000_000_000);
        },
        BuildingType::MassDriverMk4 => {
            assert(10 * 200_000 * 9_810 * 200_000int == 3_924_000_000_000_000);
            assert(10 * 3_500 * 98_100 * 200_000int == 686_700_000_000_000);
        },
        _ => {},
    }
}

} // verus!
