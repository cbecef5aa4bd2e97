use sunscatter::colony::trade::{
    automation_ship_name, crew_for_launch, ship_fate, AutomationStep, ShipFate,
    default_ships_per_window, find_matching_ship, remove_ship, store_with_next_id, Arrival, AutomationMode,
    FleetManager, LaunchError, RouteLeg, StoredShip, TradeRoute, TradeShip, TradeShipState,
};
use sunscatter::colony::transfer::RouteCategory;

fn route(legs: &[(Option<usize>, Option<usize>)]) -> TradeRoute {
    TradeRoute {
        id: 999,
        name: "Route".to_string(),
        legs: legs.iter().map(|&(f, t)| RouteLeg { from_body: f, to_body: t }).collect(),
        blueprint_name: "Hauler".to_string(),
        crew: 0,
        automation: AutomationMode::default(),
        priority: 0,
        paused: false,
        assigned_ship_id: None,
        route_category: RouteCategory::SameSOI,
        ships_per_window: default_ships_per_window(),
        alert_reason: None,
        auto_build_ships: false,
    }
}

fn stored(name: &str, bp: Option<&str>) -> StoredShip {
    StoredShip { id: 0, name: name.to_string(), blueprint_name: bp.map(|s| s.to_string()) }
}

#[test]
fn ids_are_handed_out_in_order() {
    let mut f = FleetManager::new();
    let a = f.create_ship("A".to_string(), "Hauler".to_string(), None);
    let b = f.create_ship("B".to_string(), "Hauler".to_string(), Some(3));
    assert_eq!((a, b), (0, 1));
    let r = f.create_route(route(&[(None, Some(3))]));
    assert_eq!(r, 0);
    assert_eq!(f.routes[0].id, 0);
    assert_eq!(f.get_ship(1).unwrap().name, "B");
    assert!(f.get_ship(7).is_none());
    assert_eq!(f.get_route(0).unwrap().legs.len(), 1);
    assert_eq!(f.ships[0].state, TradeShipState::Stationed);
    assert_eq!(default_ships_per_window(), 1);
    assert_eq!(AutomationMode::default(), AutomationMode::Manual);
}

#[test]
fn deleting_unassigns() {
    let mut f = FleetManager::new();
    let s = f.create_ship("A".to_string(), "Hauler".to_string(), None);
    let r = f.create_route(route(&[(None, Some(3))]));
    let r2 = f.create_route(route(&[(Some(3), Some(4))]));
    f.ships[0].assigned_route = Some(r);
    f.routes[0].assigned_ship_id = Some(s);
    f.delete_route(r);
    assert_eq!(f.ships[0].assigned_route, None);
    assert_eq!(f.routes.len(), 1);
    assert_eq!(f.routes[0].id, r2);
    f.routes[0].assigned_ship_id = Some(s);
    f.delete_ship(s);
    assert!(f.ships.is_empty());
    assert_eq!(f.routes[0].assigned_ship_id, None);
}

#[test]
fn ships_at_and_routes_involving() {
    let mut f = FleetManager::new();
    f.create_ship("A".to_string(), "H".to_string(), None);
    f.create_ship("B".to_string(), "H".to_string(), Some(3));
    f.create_ship("C".to_string(), "H".to_string(), None);
    f.ships[2].state = TradeShipState::InTransit;
    let at_earth: Vec<u64> = f.ships_at(None).iter().map(|s| s.id).collect();
    assert_eq!(at_earth, vec![0]);
    f.create_route(route(&[(None, Some(3))]));
    f.create_route(route(&[(Some(3), Some(4)), (Some(4), Some(5))]));
    let involving: Vec<u64> = f.routes_involving(Some(4)).iter().map(|r| r.id).collect();
    assert_eq!(involving, vec![1]);
    let involving3: Vec<u64> = f.routes_involving(Some(3)).iter().map(|r| r.id).collect();
    assert_eq!(involving3, vec![0, 1]);
    assert_eq!(FleetManager::route_source(&f.routes[1]), Some(3));
    assert_eq!(FleetManager::route_destination(&f.routes[1]), Some(5));
    assert_eq!(FleetManager::route_source(&route(&[])), None);
    assert_eq!(FleetManager::route_destination(&f.routes[0]), Some(3));
}

#[test]
fn earth_hangar() {
    let mut f = FleetManager::new();
    f.store_earth_ship(stored("Old", None));
    f.store_earth_ship(stored("H1", Some("Hauler")));
    f.store_earth_ship(stored("H2", Some("Hauler")));
    assert_eq!(f.next_earth_ship_id, 3);
    assert_eq!(f.find_earth_ship("Hauler"), Some(1));
    assert_eq!(f.find_earth_ship("Lander"), None);
    let taken = f.remove_earth_ship(1).unwrap();
    assert_eq!(taken.name, "H1");
    assert_eq!(f.find_earth_ship("Hauler"), Some(2));
    assert!(f.remove_earth_ship(1).is_none());
}

#[test]
fn colony_hangar_helpers() {
    let mut ships: Vec<StoredShip> = Vec::new();
    let mut next: u64 = 5;
    store_with_next_id(&mut ships, &mut next, stored("X", Some("Lander")));
    assert_eq!(ships[0].id, 5);
    assert_eq!(next, 6);
    assert_eq!(find_matching_ship(&ships, "Lander"), Some(5));
    assert!(remove_ship(&mut ships, 4).is_none());
    assert_eq!(remove_ship(&mut ships, 5).unwrap().name, "X");
    assert!(ships.is_empty());
}

#[test]
fn automation_goes_by_priority_then_id() {
    let mut f = FleetManager::new();
    for (prio, paused) in [(0, false), (5, false), (5, true), (-2, false), (5, false), (0, false)] {
        let mut r = route(&[(None, Some(3))]);
        r.priority = prio;
        r.paused = paused;
        f.create_route(r);
    }
    assert_eq!(f.automation_order(), vec![(1, 5), (4, 5), (0, 0), (5, 0), (3, -2)]);
    assert!(FleetManager::new().automation_order().is_empty());
}

#[test]
fn launch_checks_come_in_order() {
    let mut f = FleetManager::new();
    let s = f.create_ship("A".to_string(), "Hauler".to_string(), Some(3));
    let r = f.create_route(route(&[(Some(3), Some(4))]));
    let empty = f.create_route(route(&[]));
    let elsewhere = f.create_route(route(&[(Some(5), Some(4))]));
    assert_eq!(f.check_launch(9, r, true), Err(LaunchError::ShipNotFound));
    assert_eq!(f.check_launch(s, 9, true), Err(LaunchError::RouteNotFound));
    assert_eq!(f.check_launch(s, empty, true), Err(LaunchError::RouteHasNoLegs));
    assert_eq!(f.check_launch(s, elsewhere, true), Err(LaunchError::ShipNotAtRouteSource));
    assert_eq!(f.check_launch(s, r, false), Err(LaunchError::BlueprintNotFound));
    assert_eq!(f.check_launch(s, elsewhere, false), Err(LaunchError::ShipNotAtRouteSource));
    assert_eq!(f.check_launch(s, r, true), Ok(Some(3)));
    assert_eq!(f.launch_ship(s, r, false), Err(LaunchError::BlueprintNotFound));
    assert_eq!(f.ships[0].state, TradeShipState::Stationed);
    assert_eq!(f.routes[0].assigned_ship_id, None);
    assert_eq!(LaunchError::BlueprintNotFound.message(), "Blueprint not found");
    assert_eq!(
        LaunchError::InsufficientCrew { need: 12, have: 7 }.message(),
        "Insufficient crew at colony (need 12, have 7)"
    );
    assert_eq!(crew_for_launch(4, 10), Ok(6));
    assert_eq!(crew_for_launch(0, 0), Ok(0));
    assert_eq!(crew_for_launch(5, 5), Ok(0));
    assert_eq!(crew_for_launch(5, 4), Err(LaunchError::InsufficientCrew { need: 5, have: 4 }));
    assert_eq!(LaunchError::ShipNotFound.message(), "Ship not found");
    assert_eq!(LaunchError::ShipNotStationed.message(), "Ship is not stationed");
    assert_eq!(LaunchError::RouteNotFound.message(), "Route not found");
    assert_eq!(LaunchError::RouteHasNoLegs.message(), "Route has no legs");
    assert_eq!(LaunchError::ShipNotAtRouteSource.message(), "Ship is not at route source");
}

#[test]
fn launching_and_arriving_along_two_legs() {
    let mut f = FleetManager::new();
    let s = f.create_ship("A".to_string(), "Hauler".to_string(), Some(3));
    let mut rt = route(&[(Some(3), Some(4)), (Some(4), Some(2))]);
    rt.crew = 4;
    let r = f.create_route(rt);
    assert!(!f.has_ship_in_transit(&f.routes[0]));
    assert_eq!(f.launch_ship(s, r, true), Ok(()));
    assert_eq!(f.ships[0].state, TradeShipState::InTransit);
    assert_eq!(f.ships[0].crew, 4);
    assert_eq!(f.ships[0].origin, Some(3));
    assert_eq!(f.ships[0].assigned_route, Some(r));
    assert_eq!(f.routes[0].assigned_ship_id, Some(s));
    assert!(f.has_ship_in_transit(&f.routes[0]));
    assert_eq!(f.launch_ship(s, r, true), Err(LaunchError::ShipNotStationed));

    assert_eq!(f.destination_of(s), Some(Some(4)));
    assert_eq!(f.destination_of(77), None);
    match f.arrive(s, 2, true) {
        Arrival::LegDone { destination, at_earth, crew_delivered, next_leg } => {
            assert_eq!((destination, at_earth, crew_delivered, next_leg), (Some(4), false, 4, 1));
        }
        _ => panic!("the route goes on"),
    }
    assert_eq!(f.ships[0].location, Some(4));
    assert_eq!(f.ships[0].origin, Some(4));
    assert_eq!(f.ships[0].crew, 0);
    assert_eq!(f.ships[0].current_leg, 1);

    assert_eq!(f.destination_of(s), Some(Some(2)));
    match f.arrive(s, 2, true) {
        Arrival::RouteDone { ship, destination, at_earth, crew_delivered } => {
            assert_eq!(ship.id, s);
            assert_eq!(ship.location, Some(2));
            assert_eq!((destination, at_earth, crew_delivered), (Some(2), true, 0));
        }
        _ => panic!("the route ends"),
    }
    assert!(f.ships.is_empty());
    assert_eq!(f.routes[0].assigned_ship_id, None);
    assert!(matches!(f.arrive(s, 2, true), Arrival::UnknownShip));
}

#[test]
fn a_ship_without_route_returns_to_its_origin() {
    let mut f = FleetManager::new();
    let s = f.create_ship("A".to_string(), "Hauler".to_string(), Some(6));
    f.ships[0].state = TradeShipState::InTransit;
    f.ships[0].origin = Some(6);
    f.ships[0].crew = 3;
    match f.arrive(s, 2, false) {
        Arrival::RouteDone { ship, destination, at_earth, crew_delivered } => {
            assert_eq!((destination, at_earth, crew_delivered), (Some(6), false, 0));
            assert_eq!(ship.crew, 3);
            assert_eq!(ship.origin, None);
        }
        _ => panic!("no route to go on with"),
    }
}

#[test]
fn alerts_notify_once() {
    let mut f = FleetManager::new();
    let r = f.create_route(route(&[(None, Some(3))]));
    assert!(f.raise_alert(r, "No ship available in hangar".to_string()));
    assert!(!f.raise_alert(r, "Still no ship".to_string()));
    assert_eq!(f.routes[0].alert_reason.as_deref(), Some("Still no ship"));
    f.clear_alert(r);
    assert_eq!(f.routes[0].alert_reason, None);
    assert!(f.raise_alert(r, "again".to_string()));
    assert!(!f.raise_alert(42, "nowhere".to_string()));
}

#[test]
fn stationed_ships_are_taken_out() {
    let mut f = FleetManager::new();
    f.create_ship("A".to_string(), "Hauler".to_string(), None);
    f.create_ship("B".to_string(), "Hauler".to_string(), Some(3));
    f.create_ship("C".to_string(), "Hauler".to_string(), Some(4));
    f.ships[1].state = TradeShipState::InTransit;
    let taken = f.take_stationed_ships();
    assert_eq!(taken.iter().map(|s| s.name.as_str()).collect::<Vec<_>>(), vec!["A", "C"]);
    assert_eq!(f.ships.len(), 1);
    assert_eq!(f.ships[0].name, "B");
}

#[test]
fn fleet_consistency_check() {
    let mut f = FleetManager::new();
    assert!(f.is_well_formed());
    f.create_ship("A".to_string(), "Hauler".to_string(), None);
    f.create_ship("B".to_string(), "Hauler".to_string(), None);
    f.create_route(route(&[(None, Some(3))]));
    assert!(f.is_well_formed());
    f.ships[1].id = 0;
    assert!(!f.is_well_formed());
    f.ships[1].id = 1;
    f.next_route_id = 0;
    assert!(!f.is_well_formed());
}

#[test]
fn fleet_defaults() {
    let r = TradeRoute::default();
    assert_eq!((r.id, r.crew, r.priority, r.ships_per_window), (0, 0, 0, 1));
    assert!(r.legs.is_empty() && r.name.is_empty() && r.blueprint_name.is_empty());
    assert_eq!(r.automation, AutomationMode::Manual);
    assert_eq!(r.route_category, RouteCategory::SameSOI);
    assert!(!r.paused && !r.auto_build_ships && r.assigned_ship_id.is_none() && r.alert_reason.is_none());
    let s = TradeShip::default();
    assert_eq!(s.state, TradeShipState::Stationed);
    assert_eq!((s.id, s.crew, s.current_leg, s.location, s.origin), (0, 0, 0, None, None));
    assert!(s.assigned_route.is_none() && !s.returning && !s.stages_jettisoned);
    let l = RouteLeg::default();
    assert_eq!(l, RouteLeg { from_body: None, to_body: None });
    let f = FleetManager::default();
    assert!(f.ships.is_empty() && f.routes.is_empty() && f.earth_stored_ships.is_empty());
    assert_eq!((f.next_ship_id, f.next_route_id, f.next_earth_ship_id), (0, 0, 0));
}

fn auto_route(source: Option<usize>, bp: &str) -> TradeRoute {
    let mut r = route(&[(source, Some(7))]);
    r.automation = AutomationMode::FrequencyBased;
    r.blueprint_name = bp.to_string();
    r
}

#[test]
fn automation_steps() {
    let mut f = FleetManager::new();
    let earth = f.create_route(auto_route(None, "Hauler"));
    let earth_by_index = f.create_route(auto_route(Some(2), "Tanker"));
    let colony = f.create_route(auto_route(Some(5), "Hauler"));
    let mut manual = auto_route(None, "Hauler");
    manual.automation = AutomationMode::Manual;
    let manual = f.create_route(manual);
    let mut paused = auto_route(None, "Hauler");
    paused.paused = true;
    let paused = f.create_route(paused);

    assert_eq!(f.automation_step(99, true, 2, None, false), AutomationStep::Skip);
    assert_eq!(f.automation_step(manual, true, 2, None, false), AutomationStep::Skip);
    assert_eq!(f.automation_step(paused, true, 2, None, false), AutomationStep::Skip);
    assert_eq!(f.automation_step(earth, false, 2, None, false), AutomationStep::Skip);
    assert_eq!(f.automation_step(earth, true, 2, None, false), AutomationStep::BuildOnEarth);
    f.store_earth_ship(stored("Old", Some("Tanker")));
    f.store_earth_ship(stored("Spare", Some("Hauler")));
    assert_eq!(f.automation_step(earth, true, 2, None, false), AutomationStep::TakeEarthShip(1));
    assert_eq!(f.automation_step(earth_by_index, true, 2, None, false), AutomationStep::TakeEarthShip(0));
    assert_eq!(f.automation_step(colony, true, 2, Some(4), false), AutomationStep::TakeColonyShip(4));
    assert_eq!(f.automation_step(colony, true, 2, None, true), AutomationStep::AlertNoShip);
    f.routes[2].auto_build_ships = true;
    assert_eq!(f.automation_step(colony, true, 2, None, false), AutomationStep::QueueConstruction);
    assert_eq!(f.automation_step(colony, true, 2, None, true), AutomationStep::WaitForConstruction);

    // A route whose ship is under way waits for it.
    let stored_ship = f.remove_earth_ship(1).unwrap();
    let s = f.ship_from_hangar(stored_ship, None);
    assert_eq!(f.ships[0].name, "Spare");
    assert_eq!(f.ships[0].blueprint_name, "Hauler");
    assert!(!f.settle_launch(earth, s, Ok(())));
    assert_eq!(f.routes[0].assigned_ship_id, Some(s));
    assert_eq!(f.ships[0].assigned_route, Some(earth));
    assert_eq!(f.launch_ship(s, earth, true), Ok(()));
    assert_eq!(f.automation_step(earth, true, 2, None, false), AutomationStep::Skip);
}

#[test]
fn settling_launches_notifies_once() {
    let mut f = FleetManager::new();
    let r = f.create_route(route(&[(None, Some(3))]));
    let s = f.ship_from_hangar(stored("Recovered", None), Some(3));
    assert_eq!(f.ships[0].blueprint_name, "");
    assert_eq!(f.ships[0].location, Some(3));
    assert!(f.settle_launch(r, s, Err("Insufficient funds".to_string())));
    assert_eq!(f.routes[0].alert_reason.as_deref(), Some("Insufficient funds"));
    assert!(!f.settle_launch(r, s, Err("Still short".to_string())));
    assert_eq!(f.routes[0].alert_reason.as_deref(), Some("Still short"));
    assert!(!f.settle_launch(r, s, Ok(())));
    assert_eq!(f.routes[0].alert_reason, None);
    assert!(!f.settle_launch(42, s, Err("nowhere".to_string())));
}

#[test]
fn fates_of_arrived_ships() {
    assert_eq!(ship_fate(true, false, true, false, false), ShipFate::StoreAtEarth);
    assert_eq!(ship_fate(true, true, true, false, false), ShipFate::SellForScrap);
    assert_eq!(ship_fate(true, true, false, false, false), ShipFate::SellForScrap);
    assert_eq!(ship_fate(true, false, false, false, false), ShipFate::Lost);
    assert_eq!(ship_fate(false, false, true, true, true), ShipFate::StoreInColonyHangar);
    assert_eq!(ship_fate(false, false, true, true, false), ShipFate::ScrapIntoResources);
    assert_eq!(ship_fate(false, true, true, true, true), ShipFate::ScrapIntoResources);
    assert_eq!(ship_fate(false, false, true, false, true), ShipFate::Lost);
    assert_eq!(ship_fate(false, false, false, true, true), ShipFate::Lost);
    assert_eq!(automation_ship_name("Moon Run", 42), "Moon Run #42");
    assert_eq!(automation_ship_name("", 0), " #0");
}

#[test]
fn stored_ship_comes_back() {
    let mut ships = vec![stored("A", Some("Hauler")), stored("B", None)];
    ships[1].id = 1;
    let mut next = 2;
    store_with_next_id(&mut ships, &mut next, stored("C", Some("Lander")));
    assert_eq!(next, 3);
    let back = remove_ship(&mut ships, 2).unwrap();
    assert_eq!((back.id, back.name.as_str(), back.blueprint_name.as_deref()), (2, "C", Some("Lander")));
    assert_eq!(ships.iter().map(|s| s.name.as_str()).collect::<Vec<_>>(), vec!["A", "B"]);
}
