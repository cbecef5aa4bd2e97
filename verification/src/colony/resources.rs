//! Resource types of the colony economy.

use vstd::prelude::*;
use crate::text::str_eq;

verus! {

/// All resource types in the game economy.
/// Raw resources are mined or collected; processed resources are manufactured in factories.
#[derive(Debug, Clone, Copy, PartialEq, Eq, Hash, Structural)]
pub enum ResourceType {
    // Raw resources
    MetalOre,
    Regolith,
    Water,
    LithiumOre,
    Hydrocarbons,
    AtmosphericCo2,
    GasGiantAtmosphere,
    RareEarthElements,
    UraniumOre,
    // Processed resources
    StructuralMetal,
    HighTempAlloys,
    Electronics,
    Superconductors,
    PrecisionInstruments,
    // Fuels
    Rp1,
    Methane,
    LiquidHydrogen,
    Lox,
    Xenon,
    Deuterium,
    Tritium,
    EnrichedUranium,
    NuclearPulseUnits,
    Helium3,
    Antimatter,
    // Manufactured
    MirrorSegment,
    CollectorStation,
    // Consumables
    Food,
}

impl ResourceType {
    /// The name shown to the player.
    pub open spec fn spec_display_name(self) -> Seq<char> {
        match self {
            ResourceType::MetalOre => "Metal Ore"@,
            ResourceType::Regolith => "Regolith"@,
            ResourceType::Water => "Water"@,
            ResourceType::LithiumOre => "Lithium Ore"@,
            ResourceType::Hydrocarbons => "Hydrocarbons"@,
            ResourceType::AtmosphericCo2 => "Atmospheric CO₂"@,
            ResourceType::GasGiantAtmosphere => "Gas Giant Atmosphere"@,
            ResourceType::RareEarthElements => "Rare Earth Elements"@,
            ResourceType::UraniumOre => "Uranium Ore"@,
            ResourceType::StructuralMetal => "Structural Metal"@,
            ResourceType::HighTempAlloys => "High-Temp Alloys"@,
            ResourceType::Electronics => "Electronics"@,
            ResourceType::Superconductors => "Superconductors"@,
            ResourceType::PrecisionInstruments => "Precision Instruments"@,
            ResourceType::Rp1 => "RP-1"@,
            ResourceType::Methane => "Methane"@,
            ResourceType::LiquidHydrogen => "Liquid Hydrogen"@,
            ResourceType::Lox => "LOX"@,
            ResourceType::Xenon => "Xenon"@,
            ResourceType::Deuterium => "Deuterium"@,
            ResourceType::Tritium => "Tritium"@,
            ResourceType::EnrichedUranium => "Enriched Uranium"@,
            ResourceType::NuclearPulseUnits => "Nuclear Pulse Units"@,
            ResourceType::Helium3 => "Helium-3"@,
            ResourceType::Antimatter => "Antimatter"@,
            ResourceType::MirrorSegment => "Mirror Segment"@,
            ResourceType::CollectorStation => "Collector Station"@,
            ResourceType::Food => "Food"@,
        }
    }

    /// Resources that are fully refined ship fuels.
    pub open spec fn spec_is_ship_fuel(self) -> bool {
        ||| self is Rp1
        ||| self is Methane
        ||| self is LiquidHydrogen
        ||| self is Lox
        ||| self is Xenon
        ||| self is Helium3
        ||| self is Antimatter
    }

    /// The name shown to the player.
    pub fn display_name(&self) -> (r: &'static str)
        ensures
            r@ == self.spec_display_name(),
    {
        match self {
            ResourceType::MetalOre => "Metal Ore",
            ResourceType::Regolith => "Regolith",
            ResourceType::Water => "Water",
            ResourceType::LithiumOre => "Lithium Ore",
            ResourceType::Hydrocarbons => "Hydrocarbons",
            ResourceType::AtmosphericCo2 => "Atmospheric CO₂",
            ResourceType::GasGiantAtmosphere => "Gas Giant Atmosphere",
            ResourceType::RareEarthElements => "Rare Earth Elements",
            ResourceType::UraniumOre => "Uranium Ore",
            ResourceType::StructuralMetal => "Structural Metal",
            ResourceType::HighTempAlloys => "High-Temp Alloys",
            ResourceType::Electronics => "Electronics",
            ResourceType::Superconductors => "Superconductors",
            ResourceType::PrecisionInstruments => "Precision Instruments",
            ResourceType::Rp1 => "RP-1",
            ResourceType::Methane => "Methane",
            ResourceType::LiquidHydrogen => "Liquid Hydrogen",
            ResourceType::Lox => "LOX",
            ResourceType::Xenon => "Xenon",
            ResourceType::Deuterium => "Deuterium",
            ResourceType::Tritium => "Tritium",
            ResourceType::EnrichedUranium => "Enriched Uranium",
            ResourceType::NuclearPulseUnits => "Nuclear Pulse Units",
            ResourceType::Helium3 => "Helium-3",
            ResourceType::Antimatter => "Antimatter",
            ResourceType::MirrorSegment => "Mirror Segment",
            ResourceType::CollectorStation => "Collector Station",
            ResourceType::Food => "Food",
        }
    }

    /// Every `ResourceType`, in declaration order.
    pub open spec fn spec_all() -> Seq<ResourceType> {
        seq![
            ResourceType::MetalOre,
            ResourceType::Regolith,
            ResourceType::Water,
            ResourceType::LithiumOre,
            ResourceType::Hydrocarbons,
            ResourceType::AtmosphericCo2,
            ResourceType::GasGiantAtmosphere,
            ResourceType::RareEarthElements,
            ResourceType::UraniumOre,
            ResourceType::StructuralMetal,
            ResourceType::HighTempAlloys,
            ResourceType::Electronics,
            ResourceType::Superconductors,
            ResourceType::PrecisionInstruments,
            ResourceType::Rp1,
            ResourceType::Methane,
            ResourceType::LiquidHydrogen,
            ResourceType::Lox,
            ResourceType::Xenon,
            ResourceType::Deuterium,
            ResourceType::Tritium,
            ResourceType::EnrichedUranium,
            ResourceType::NuclearPulseUnits,
            ResourceType::Helium3,
            ResourceType::Antimatter,
            ResourceType::MirrorSegment,
            ResourceType::CollectorStation,
            ResourceType::Food,
        ]
    }

    /// Whether this is one of the manufactured items (mirror segments and
    /// collector stations), kept as unit counts rather than kilograms; the
    /// other 26 types are the raw, processed, fuel and food resources.
    pub open spec fn spec_is_manufactured(self) -> bool {
        self == ResourceType::MirrorSegment || self == ResourceType::CollectorStation
    }

    /// Position of this value in `spec_all`.
    pub open spec fn spec_index(self) -> int {
        match self {
            ResourceType::MetalOre => 0,
            ResourceType::Regolith => 1,
            ResourceType::Water => 2,
            ResourceType::LithiumOre => 3,
            ResourceType::Hydrocarbons => 4,
            ResourceType::AtmosphericCo2 => 5,
            ResourceType::GasGiantAtmosphere => 6,
            ResourceType::RareEarthElements => 7,
            ResourceType::UraniumOre => 8,
            ResourceType::StructuralMetal => 9,
            ResourceType::HighTempAlloys => 10,
            ResourceType::Electronics => 11,
            ResourceType::Superconductors => 12,
            ResourceType::PrecisionInstruments => 13,
            ResourceType::Rp1 => 14,
            ResourceType::Methane => 15,
            ResourceType::LiquidHydrogen => 16,
            ResourceType::Lox => 17,
            ResourceType::Xenon => 18,
            ResourceType::Deuterium => 19,
            ResourceType::Tritium => 20,
            ResourceType::EnrichedUranium => 21,
            ResourceType::NuclearPulseUnits => 22,
            ResourceType::Helium3 => 23,
            ResourceType::Antimatter => 24,
            ResourceType::MirrorSegment => 25,
            ResourceType::CollectorStation => 26,
            ResourceType::Food => 27,
        }
    }

    /// All resource types.
    pub fn all() -> (r: &'static [ResourceType])
        ensures
            r@ == Self::spec_all(),
    {
        &[
            ResourceType::MetalOre,
            ResourceType::Regolith,
            ResourceType::Water,
            ResourceType::LithiumOre,
            ResourceType::Hydrocarbons,
            ResourceType::AtmosphericCo2,
            ResourceType::GasGiantAtmosphere,
            ResourceType::RareEarthElements,
            ResourceType::UraniumOre,
            ResourceType::StructuralMetal,
            ResourceType::HighTempAlloys,
            ResourceType::Electronics,
            ResourceType::Superconductors,
            ResourceType::PrecisionInstruments,
            ResourceType::Rp1,
            ResourceType::Methane,
            ResourceType::LiquidHydrogen,
            ResourceType::Lox,
            ResourceType::Xenon,
            ResourceType::Deuterium,
            ResourceType::Tritium,
            ResourceType::EnrichedUranium,
            ResourceType::NuclearPulseUnits,
            ResourceType::Helium3,
            ResourceType::Antimatter,
            ResourceType::MirrorSegment,
            ResourceType::CollectorStation,
            ResourceType::Food,
        ]
    }

    /// Returns true for resources that are fully refined ship fuels
    /// (loaded into fuel tanks, not cargo containers).
    pub fn is_ship_fuel(&self) -> (r: bool)
        ensures
            r == self.spec_is_ship_fuel(),
    {
        match self {
            ResourceType::Rp1 | ResourceType::Methane | ResourceType::LiquidHydrogen
            | ResourceType::Lox | ResourceType::Xenon | ResourceType::Helium3
            | ResourceType::Antimatter => true,
            _ => false,
        }
    }

    /// The `ResourceType` whose display name is `name`, if any.
    pub open spec fn spec_from_display_name(name: Seq<char>) -> Option<ResourceType> {
        if exists|x: ResourceType| x.spec_display_name() == name {
            Some(choose|x: ResourceType| x.spec_display_name() == name)
        } else {
            None
        }
    }

    /// Look up a `ResourceType` by its display name.
    pub fn from_display_name(name: &str) -> (r: Option<ResourceType>)
        ensures
            r == Self::spec_from_display_name(name@),
    {
        let all = Self::all();
        let mut i: usize = 0;
        while i < all.len()
            invariant
                all@ == Self::spec_all(),
                0 <= i <= all@.len(),
                forall|j: int| 0 <= j < i ==> (#[trigger] all@[j]).spec_display_name() != name@,
            decreases all@.len() - i,
        {
            let x = all[i];
            if str_eq(x.display_name(), name) {
                proof {
                    assert forall|other: ResourceType| other.spec_display_name() == name@
                        implies other == x by {
                        lemma_display_name_injective(other, x);
                    }
                }
                return Some(x);
            }
            i += 1;
        }
        proof {
            assert forall|x: ResourceType| x.spec_display_name() != name@ by {
                lemma_all_lists_every_type(x);
                assert(all@[x.spec_index()] == x);
            }
        }
        None
    }

}

/// Every `ResourceType` stands in `all()` exactly once, at its own index. Of
/// the 28, the manufactured items are the two just before Food; the other 26
/// are the raw, processed, fuel and food resources.
pub proof fn lemma_all_lists_every_type(x: ResourceType)
    ensures
        ResourceType::spec_all().len() == 28,
        0 <= x.spec_index() < ResourceType::spec_all().len(),
        ResourceType::spec_all()[x.spec_index()] == x,
        forall|i: int| 0 <= i < ResourceType::spec_all().len() && ResourceType::spec_all()[i] == x ==> i == x.spec_index(),
        forall|i: int| 0 <= i < ResourceType::spec_all().len() ==>
            ((#[trigger] ResourceType::spec_all()[i]).spec_is_manufactured() <==> (i == 25 || i == 26)),
{
    assert forall|i: int| 0 <= i < ResourceType::spec_all().len() && ResourceType::spec_all()[i] == x implies i == x.spec_index() by {
        assert(ResourceType::spec_all()[i].spec_index() == i);
    }
}

/// Looking up a `ResourceType` by its own display name gives it back.
pub proof fn lemma_from_display_name_round_trip(x: ResourceType)
    ensures
        ResourceType::spec_from_display_name(x.spec_display_name()) == Some(x),
{
    let found = choose|y: ResourceType| y.spec_display_name() == x.spec_display_name();
    lemma_display_name_injective(found, x);
}

/// No two values of `ResourceType` share a display name.
pub proof fn lemma_display_name_injective(a: ResourceType, b: ResourceType)
    requires
        a.spec_display_name() == b.spec_display_name(),
    ensures
        a == b,
{
    reveal_strlit("Metal Ore");
    reveal_strlit("Regolith");
    reveal_strlit("Water");
    reveal_strlit("Lithium Ore");
    reveal_strlit("Hydrocarbons");
    reveal_strlit("Atmospheric CO₂");
    reveal_strlit("Gas Giant Atmosphere");
    reveal_strlit("Rare Earth Elements");
    reveal_strlit("Uranium Ore");
    reveal_strlit("Structural Metal");
    reveal_strlit("High-Temp Alloys");
    reveal_strlit("Electronics");
    reveal_strlit("Superconductors");
    reveal_strlit("Precision Instruments");
    reveal_strlit("RP-1");
    reveal_strlit("Methane");
    reveal_strlit("Liquid Hydrogen");
    reveal_strlit("LOX");
    reveal_strlit("Xenon");
    reveal_strlit("Deuterium");
    reveal_strlit("Tritium");
    reveal_strlit("Enriched Uranium");
    reveal_strlit("Nuclear Pulse Units");
    reveal_strlit("Helium-3");
    reveal_strlit("Antimatter");
    reveal_strlit("Mirror Segment");
    reveal_strlit("Collector Station");
    reveal_strlit("Food");
    assert("Metal Ore"@.len() == 9);
    assert("Regolith"@.len() == 8);
    assert("Water"@.len() == 5);
    assert("Lithium Ore"@.len() == 11);
    assert("Hydrocarbons"@.len() == 12);
    assert("Atmospheric CO₂"@.len() == 15);
    assert("Gas Giant Atmosphere"@.len() == 20);
    assert("Rare Earth Elements"@.len() == 19);
    assert("Uranium Ore"@.len() == 11);
    assert("Structural Metal"@.len() == 16);
    assert("High-Temp Alloys"@.len() == 16);
    assert("Electronics"@.len() == 11);
    assert("Superconductors"@.len() == 15);
    assert("Precision Instruments"@.len() == 21);
    assert("RP-1"@.len() == 4);
    assert("Methane"@.len() == 7);
    assert("Liquid Hydrogen"@.len() == 15);
    assert("LOX"@.len() == 3);
    assert("Xenon"@.len() == 5);
    assert("Deuterium"@.len() == 9);
    assert("Tritium"@.len() == 7);
    assert("Enriched Uranium"@.len() == 16);
    assert("Nuclear Pulse Units"@.len() == 19);
    assert("Helium-3"@.len() == 8);
    assert("Antimatter"@.len() == 10);
    assert("Mirror Segment"@.len() == 14);
    assert("Collector Station"@.len() == 17);
    assert("Food"@.len() == 4);
    assert("Metal Ore"@[0] != "Deuterium"@[0]);
    assert("Regolith"@[0] != "Helium-3"@[0]);
    assert("Water"@[0] != "Xenon"@[0]);
    assert("Lithium Ore"@[0] != "Uranium Ore"@[0]);
    assert("Lithium Ore"@[0] != "Electronics"@[0]);
    assert("Atmospheric CO₂"@[0] != "Superconductors"@[0]);
    assert("Atmospheric CO₂"@[0] != "Liquid Hydrogen"@[0]);
    assert("Rare Earth Elements"@[0] != "Nuclear Pulse Units"@[0]);
    assert("Uranium Ore"@[0] != "Electronics"@[0]);
    assert("Structural Metal"@[0] != "High-Temp Alloys"@[0]);
    assert("Structural Metal"@[0] != "Enriched Uranium"@[0]);
    assert("High-Temp Alloys"@[0] != "Enriched Uranium"@[0]);
    assert("Superconductors"@[0] != "Liquid Hydrogen"@[0]);
    assert("RP-1"@[0] != "Food"@[0]);
    assert("Methane"@[0] != "Tritium"@[0]);
}

} // verus!
