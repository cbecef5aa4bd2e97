use sunscatter::colony::contracts::{
    default_next_id, simple_hash, tourism_passenger_count, Contract, ContractKind, ContractManager,
    ContractPayload, Destination, FlightPhase, FlightSituation, GovernmentMilestone, RefillError, POOL_SIZE,
};
use sunscatter::colony::tech::DiscoveryTracker;
use sunscatter::colony::transfer::{BodyHierarchy, BodyLink};

fn link(name: &str, parent: Option<usize>) -> BodyLink {
    BodyLink { name: name.to_string(), parent }
}

/// Sun, Mercury, Earth, Moon, Mars.
fn system() -> BodyHierarchy {
    BodyHierarchy {
        bodies: vec![
            link("Sun", None),
            link("Mercury", Some(0)),
            link("Earth", Some(0)),
            link("Moon", Some(2)),
            link("Mars", Some(0)),
        ],
        sun_index: 0,
        earth_index: 2,
        moon_index: 3,
    }
}

fn flying(soi: usize, high: bool, sub: bool) -> FlightSituation {
    FlightSituation { phase: FlightPhase::Flying, soi_body: soi, above_100_km: high, is_suborbital: sub }
}

#[test]
fn destination_tables() {
    assert_eq!(Destination::all().len(), 6);
    assert_eq!(Destination::LowEarthOrbit.display_name(), "Low Earth Orbit");
    assert_eq!(Destination::MarsSurface.price_per_kg(), 100_000);
    assert_eq!(Destination::Suborbital.tourism_price_per_seat(), Some(750_000));
    assert_eq!(Destination::LunarOrbit.tourism_price_per_seat(), Some(125_000_000));
    assert_eq!(Destination::LunarSurface.tourism_price_per_seat(), None);
    assert_eq!(GovernmentMilestone::all().len(), 9);
    assert_eq!(GovernmentMilestone::FirstCrewedMars.payout(), 1_000_000_000);
    assert_eq!(GovernmentMilestone::FirstLunarLanding.display_name(), "First Lunar Landing");
    assert_eq!(default_next_id(), 1);
}

#[test]
fn destination_objectives() {
    let sys = system();
    assert!(Destination::Suborbital.is_met(&flying(2, true, true), &sys));
    assert!(!Destination::Suborbital.is_met(&flying(2, false, true), &sys));
    assert!(Destination::LowEarthOrbit.is_met(&flying(2, false, false), &sys));
    assert!(!Destination::LowEarthOrbit.is_met(&flying(2, true, true), &sys));
    assert!(Destination::LunarOrbit.is_met(&flying(3, false, false), &sys));
    assert!(Destination::MarsOrbit.is_met(&flying(4, false, false), &sys));
    let landed_moon = FlightSituation { phase: FlightPhase::Landed { body_index: 3 }, soi_body: 3, above_100_km: false, is_suborbital: true };
    assert!(Destination::LunarSurface.is_met(&landed_moon, &sys));
    assert!(!Destination::MarsSurface.is_met(&landed_moon, &sys));
    assert!(!Destination::LunarOrbit.is_met(&landed_moon, &sys));
}

#[test]
fn destination_unlocking() {
    let sys = system();
    let mut d = DiscoveryTracker::default();
    assert!(Destination::Suborbital.is_unlocked(&d, &sys));
    assert!(!Destination::LowEarthOrbit.is_unlocked(&d, &sys));
    assert_eq!(ContractManager::eligible_destinations(&d, &sys), vec![Destination::Suborbital]);
    d.first_suborbital = true;
    d.first_orbit = true;
    d.body_orbited.insert(3);
    d.body_landed.insert(3);
    d.body_orbited.insert(4);
    assert_eq!(ContractManager::eligible_destinations(&d, &sys).len(), 6);
}

#[test]
fn passenger_counts() {
    assert_eq!(tourism_passenger_count(0, 0), 1);
    assert_eq!(tourism_passenger_count(0, 13), 2);
    assert_eq!(tourism_passenger_count(5, 26), 4);
    assert_eq!(tourism_passenger_count(20, 0), 4);
    assert_eq!(tourism_passenger_count(20, 13 * 5), 6);
    for c in 0..20u32 {
        for s in 0..200u64 {
            let p = tourism_passenger_count(c, s);
            assert!((1..=6).contains(&p));
        }
    }
}

#[test]
fn hash_is_deterministic_and_mixes() {
    assert_eq!(simple_hash(1, 0), simple_hash(1, 0));
    assert_ne!(simple_hash(1, 0), simple_hash(2, 0));
    let mut h: u64 = 1u64.wrapping_mul(6364136223846793005).wrapping_add(1442695040888963407);
    h ^= 42;
    h = h.wrapping_mul(6364136223846793005).wrapping_add(1442695040888963407);
    h ^= h >> 33;
    h = h.wrapping_mul(0xff51afd7ed558ccd);
    h ^= h >> 33;
    assert_eq!(simple_hash(1, 42), h);
}

#[test]
fn contract_descriptions() {
    let c = Contract { id: 3, kind: ContractKind::Payload { mass_kg: 250, destination: Destination::LunarOrbit }, payout: 0, name: String::new() };
    assert_eq!(c.description(), "Deliver 250 kg to Lunar Orbit");
    assert_eq!(c.destination(), Destination::LunarOrbit);
    let t1 = Contract { id: 4, kind: ContractKind::Tourism { passengers: 1, destination: Destination::Suborbital, destination_reached: false }, payout: 0, name: String::new() };
    assert_eq!(t1.description(), "Fly 1 tourist to Suborbital and return safely");
    let t3 = Contract { id: 5, kind: ContractKind::Tourism { passengers: 3, destination: Destination::LowEarthOrbit, destination_reached: false }, payout: 0, name: String::new() };
    assert_eq!(t3.description(), "Fly 3 tourists to Low Earth Orbit and return safely");
}

#[test]
fn contract_lifecycle() {
    let sys = system();
    let d = DiscoveryTracker::default();
    let mut cm = ContractManager::new();
    assert!(cm.is_well_formed());
    // Only suborbital is open; seed 0 draws it as a tourism contract (0 / 7 % 10 < 3).
    assert_eq!(ContractManager::choose_contract(&d, &sys, 0), Some((Destination::Suborbital, true)));
    assert_eq!(ContractManager::choose_contract(&d, &sys, 35), Some((Destination::Suborbital, false)));
    let t = cm.add_tourism_contract(Destination::Suborbital, 13);
    assert_eq!(t, 1);
    assert_eq!(cm.available[0].name, "Suborbital Tourism #1");
    assert_eq!(cm.available[0].payout, 2 * 750_000);
    let p = cm.add_payload_contract(Destination::Suborbital, 300);
    assert_eq!(p, 2);
    assert_eq!(cm.available[1].name, "Suborbital Delivery #2");
    assert_eq!(cm.available[1].payout, 300 * 3_000);
    assert_eq!(cm.next_id, 3);

    cm.accept(2);
    cm.accept(99);
    assert_eq!(cm.available.len(), 1);
    assert_eq!(cm.active.len(), 1);
    assert_eq!(cm.active[0].id, 2);
    let payloads = cm.active_payload_contracts();
    assert_eq!(payloads.len(), 1);
    assert_eq!(payloads[0].contract_id, 2);
    assert_eq!(payloads[0].mass_kg, 300);

    // Not at the destination: nothing completes.
    let done = cm.check_payload_contracts(&payloads, &flying(2, false, true), &sys);
    assert!(done.is_empty());
    // Without the payload aboard: nothing completes.
    let none: Vec<ContractPayload> = Vec::new();
    assert!(cm.check_payload_contracts(&none, &flying(2, true, true), &sys).is_empty());
    // Above 100 km over Earth with the payload: completed.
    assert!(cm.completions_have_room());
    let done = cm.check_payload_contracts(&payloads, &flying(2, true, true), &sys);
    assert_eq!(done, vec![("Suborbital Delivery #2".to_string(), 900_000)]);
    assert!(cm.active.is_empty());
    assert_eq!(cm.completed_ids, vec![2]);
    assert_eq!(cm.completions(Destination::Suborbital), 1);
    assert!(cm.is_well_formed());

    // Tourism: reached only with crew, paid on recovery.
    cm.accept(1);
    cm.check_tourism_destinations(&flying(2, true, true), false, &sys);
    assert!(cm.check_tourism_recovery().is_empty());
    cm.check_tourism_destinations(&flying(2, true, true), true, &sys);
    let paid = cm.check_tourism_recovery();
    assert_eq!(paid, vec![("Suborbital Tourism #1".to_string(), 1_500_000)]);
    assert_eq!(cm.completed_ids, vec![2, 1]);
    assert_eq!(cm.completions(Destination::Suborbital), 2);
}

#[test]
fn contract_cancel() {
    let mut cm = ContractManager::new();
    cm.add_payload_contract(Destination::Suborbital, 100);
    cm.accept(1);
    assert_eq!(cm.cancel(7), Vec::<u64>::new());
    assert_eq!(cm.cancel(1), vec![1]);
    assert!(cm.active.is_empty());
    assert!(cm.completed_ids.is_empty());
}

#[test]
fn milestones_awarded_once() {
    let sys = system();
    let mut d = DiscoveryTracker::default();
    let mut cm = ContractManager::new();
    assert!(cm.check_milestones(&d, true, &sys).is_empty());
    d.first_suborbital = true;
    d.first_orbit = true;
    d.first_crewed_orbit = true;
    d.body_orbited.insert(3);
    let first = cm.check_milestones(&d, false, &sys);
    assert_eq!(
        first,
        vec![
            (GovernmentMilestone::FirstSuborbital, 5_000_000),
            (GovernmentMilestone::FirstOrbital, 20_000_000),
            (GovernmentMilestone::FirstLunarOrbit, 100_000_000),
        ]
    );
    let crewed = cm.check_milestones(&d, true, &sys);
    assert_eq!(crewed, vec![(GovernmentMilestone::FirstCrewedOrbital, 50_000_000)]);
    assert!(cm.check_milestones(&d, true, &sys).is_empty());
}

#[test]
fn milestones_synced_from_save() {
    let sys = system();
    let mut d = DiscoveryTracker::default();
    d.first_crewed_orbit = true;
    d.body_landed.insert(4);
    let mut cm = ContractManager::new();
    cm.sync_milestones_from_discoveries(&d, &sys);
    assert_eq!(cm.awarded_milestones.len(), 2);
    assert!(cm.check_milestones(&d, true, &sys).is_empty());
}

#[test]
fn well_formedness_detects_duplicate_ids() {
    let mut cm = ContractManager::new();
    cm.add_payload_contract(Destination::Suborbital, 100);
    assert!(cm.is_well_formed());
    cm.active.push(Contract { id: 1, kind: ContractKind::Payload { mass_kg: 1, destination: Destination::Suborbital }, payout: 1, name: String::new() });
    assert!(!cm.is_well_formed());
    let mut cm2 = ContractManager::new();
    cm2.next_id = 0;
    cm2.available.push(Contract { id: 0, kind: ContractKind::Payload { mass_kg: 1, destination: Destination::Suborbital }, payout: 1, name: String::new() });
    assert!(!cm2.is_well_formed());
}

#[test]
fn contract_defaults() {
    let c = Contract::default();
    assert_eq!((c.id, c.payout, c.name.as_str()), (0, 0, ""));
    assert_eq!(c.destination(), Destination::Suborbital);
    assert!(matches!(c.kind, ContractKind::Payload { mass_kg: 0, destination: Destination::Suborbital }));
    let p = ContractPayload::default();
    assert_eq!((p.contract_id, p.name.as_str(), p.mass_kg), (0, "", 0));
    let m = ContractManager::default();
    assert!(m.available.is_empty() && m.active.is_empty() && m.completed_ids.is_empty());
    assert_eq!(m.next_id, 1);
    assert!(!m.show_board);
    assert!(m.is_well_formed());
    assert_eq!(m.completions(Destination::MarsSurface), 0);
}

#[test]
fn refilling_the_board() {
    let sys = system();
    let d = DiscoveryTracker::default();
    let time_bits = 86_400.0_f64.to_bits();
    let mut cm = ContractManager::new();
    assert_eq!(cm.refill_pool(&d, &sys, time_bits, |_, _, _| 250), Ok(()));
    assert_eq!(cm.available.len(), POOL_SIZE);
    assert_eq!(cm.next_id, 1 + POOL_SIZE as u64);
    for (k, c) in cm.available.iter().enumerate() {
        let id = 1 + k as u64;
        assert_eq!(c.id, id);
        let seed = simple_hash(id, time_bits);
        let (dest, tourism) = ContractManager::choose_contract(&d, &sys, seed).unwrap();
        assert_eq!(c.destination(), dest);
        match c.kind {
            ContractKind::Tourism { passengers, .. } => {
                assert!(tourism);
                assert_eq!(passengers, tourism_passenger_count(0, seed));
                assert_eq!(c.payout, dest.tourism_price_per_seat().unwrap() * passengers as u64);
            }
            ContractKind::Payload { mass_kg, .. } => {
                assert!(!tourism);
                assert_eq!(mass_kg, 250);
                assert_eq!(c.payout, 250 * dest.price_per_kg());
            }
        }
    }
    // A full board stays as it is.
    assert_eq!(cm.refill_pool(&d, &sys, time_bits, |_, _, _| 250), Ok(()));
    assert_eq!(cm.available.len(), POOL_SIZE);
    // A payout beyond u64 is refused.
    let mut cm = ContractManager::new();
    let r = cm.refill_pool(&d, &sys, time_bits, |_, _, _| u64::MAX);
    match r {
        Err(RefillError::PayoutOutOfRange { mass_kg, .. }) => assert_eq!(mass_kg, u64::MAX),
        Ok(()) => assert!(cm.available.iter().all(|c| matches!(c.kind, ContractKind::Tourism { .. }))),
        Err(e) => panic!("unexpected {:?}", e),
    }
    // Ids running out stop the refill.
    let mut cm = ContractManager::new();
    cm.next_id = u64::MAX;
    assert_eq!(cm.refill_pool(&d, &sys, time_bits, |_, _, _| 250), Err(RefillError::IdsExhausted));
    assert!(cm.available.is_empty());
}
