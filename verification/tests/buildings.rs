use sunscatter::colony::buildings::{MIRROR_LAUNCH_ACCEL_MS2, SHIP_LAUNCH_ACCEL_MS2};
use sunscatter::colony::dyson_swarm::BASE_MIRROR_MASS_KG;
use sunscatter::colony::buildings::{
    best_mass_driver, crew_capacity, default_one_u32, food_capacity, hangar_capacity, has_hangar,
    has_mass_driver, operational_building_count, storage_capacity, BuildingStatus, BuildingType,
    FactoryRecipe,
};

fn op(bt: BuildingType) -> BuildingStatus {
    BuildingStatus::new(bt)
}

fn down(bt: BuildingType) -> BuildingStatus {
    BuildingStatus { building_type: bt, operational: false }
}

#[test]
fn building_all_and_names() {
    let all = BuildingType::all();
    assert_eq!(all.len(), 27);
    assert_eq!(all[0], BuildingType::Habitat);
    assert_eq!(all[26], BuildingType::ReceiverArray);
    assert_eq!(BuildingType::MassDriverMk3.display_name(), "Mass Driver Mk III");
    assert_eq!(BuildingType::ParticleAcceleratorMk4.display_name(), "Particle Accelerator Mk IV");
    for &bt in all {
        assert_eq!(BuildingType::from_display_name(bt.display_name()), Some(bt));
    }
    assert_eq!(BuildingType::from_display_name("Mass Driver Mk V"), None);
}

#[test]
fn building_habitability_and_mass_drivers() {
    let affected: Vec<BuildingType> = BuildingType::all().iter().copied().filter(|b| b.affected_by_habitability()).collect();
    assert_eq!(affected, vec![BuildingType::Habitat, BuildingType::BasicGreenhouse, BuildingType::AdvancedGreenhouse]);
    let drivers: Vec<BuildingType> = BuildingType::all().iter().copied().filter(|b| b.is_mass_driver()).collect();
    assert_eq!(
        drivers,
        vec![BuildingType::MassDriverMk1, BuildingType::MassDriverMk2, BuildingType::MassDriverMk3, BuildingType::MassDriverMk4]
    );
    assert_eq!(BuildingType::MassDriverMk2.mass_driver_track_m(), Some(10_000));
    assert_eq!(BuildingType::MassDriverMk4.mass_driver_max_payload_kg(), Some(200_000));
    assert_eq!(BuildingType::MassDriverMk1.mass_driver_system_mass_kg(), Some(500_000));
    assert_eq!(BuildingType::MassDriverMk1.mass_driver_energy_capacity_j(), Some(1_000_000_000_000));
    assert_eq!(BuildingType::MassDriverMk4.mass_driver_energy_capacity_j(), Some(500_000_000_000_000));
    assert_eq!(BuildingType::Habitat.mass_driver_energy_capacity_j(), None);
    assert_eq!(BuildingType::Mine.mass_driver_track_m(), None);
    assert_eq!(BuildingType::Hangar.mass_driver_max_payload_kg(), None);
}

#[test]
fn building_power_tables() {
    assert_eq!(BuildingType::Habitat.power_draw_kw(), 10);
    assert_eq!(BuildingType::ParticleAcceleratorMk3.power_draw_kw(), 5_000_000_000);
    assert_eq!(BuildingType::Factory.power_draw_kw(), 0);
    assert_eq!(BuildingType::ReceiverArray.power_output_kw(), 45_000_000);
    assert_eq!(BuildingType::LargeSolarFarm.power_output_kw(), 1_000_000);
    assert_eq!(BuildingType::Mine.power_output_kw(), 0);
}

#[test]
fn recipe_tables() {
    assert_eq!(FactoryRecipe::all().len(), 17);
    assert_eq!(FactoryRecipe::PrecisionInstrumentsManufacturing.display_name(), "Precision Instruments Mfg");
    assert_eq!(FactoryRecipe::NpuAssembly.recipe_id(), "NpuAssembly");
    assert_eq!(FactoryRecipe::SabatierReaction.efficiency_line_id(), "chemical_processing");
    assert_eq!(FactoryRecipe::CollectorStationAssembly.efficiency_line_id(), "construction");
    assert_eq!(FactoryRecipe::TritiumBreeding.requires_colocation(), Some(BuildingType::FissionReactor));
    assert_eq!(FactoryRecipe::NpuAssembly.requires_colocation(), Some(BuildingType::FissionReactor));
    assert_eq!(FactoryRecipe::MetalSmelting.requires_colocation(), None);
    assert_eq!(FactoryRecipe::NpuAssembly.batch_time_hours(), 240);
    assert_eq!(FactoryRecipe::MethanePurification.power_draw_kw(), 30);
    for (i, a) in FactoryRecipe::all().iter().enumerate() {
        for (j, b) in FactoryRecipe::all().iter().enumerate() {
            assert_eq!(i == j, a.recipe_id() == b.recipe_id());
        }
    }
}

#[test]
fn roster_counts_and_capacities() {
    let b = vec![
        op(BuildingType::Habitat),
        op(BuildingType::Habitat),
        down(BuildingType::Habitat),
        op(BuildingType::FoodStorage),
        op(BuildingType::Stockpile),
        down(BuildingType::Stockpile),
        op(BuildingType::Hangar),
    ];
    assert_eq!(operational_building_count(&b, BuildingType::Habitat), 2);
    assert_eq!(operational_building_count(&b, BuildingType::Mine), 0);
    assert_eq!(crew_capacity(&b), 40);
    assert_eq!(storage_capacity(&b), 500_000);
    assert_eq!(food_capacity(&b), 2 * 3_000 + 10_000);
    assert_eq!(hangar_capacity(&b), 200_000);
    assert!(has_hangar(&b));
    assert!(!has_hangar(&[down(BuildingType::Hangar)]));
    assert_eq!(crew_capacity(&[]), 0);
    assert_eq!(default_one_u32(), 1);
}

#[test]
fn best_mass_driver_picks_longest_track() {
    assert_eq!(best_mass_driver(&[]), None);
    assert!(!has_mass_driver(&[op(BuildingType::Mine)]));
    let b = vec![
        op(BuildingType::MassDriverMk2),
        down(BuildingType::MassDriverMk4),
        op(BuildingType::MassDriverMk3),
        op(BuildingType::MassDriverMk1),
    ];
    assert!(has_mass_driver(&b));
    assert_eq!(best_mass_driver(&b), Some(BuildingType::MassDriverMk3));
    assert_eq!(best_mass_driver(&[down(BuildingType::MassDriverMk1)]), None);
    assert_eq!(best_mass_driver(&[op(BuildingType::MassDriverMk1), op(BuildingType::MassDriverMk1)]), Some(BuildingType::MassDriverMk1));
}

#[test]
fn mass_driver_capacity_exceeds_worst_launch() {
    for &b in BuildingType::all() {
        match (b.mass_driver_energy_capacity_j(), b.mass_driver_max_payload_kg(), b.mass_driver_track_m()) {
            (Some(cap), Some(payload), Some(track)) => {
                let cap = cap as u128;
                assert!(9 * cap > 10 * payload as u128 * SHIP_LAUNCH_ACCEL_MS2 as u128 * track as u128);
                assert!(9 * cap > 10 * BASE_MIRROR_MASS_KG as u128 * MIRROR_LAUNCH_ACCEL_MS2 as u128 * track as u128);
            }
            (None, _, _) => assert!(!b.is_mass_driver()),
            _ => panic!("capacity without track or payload"),
        }
    }
}
