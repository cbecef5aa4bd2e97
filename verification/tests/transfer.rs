use sunscatter::colony::transfer::{
    blueprint_has_parachute, blueprint_is_crewed, classify_route, find_common_parent, is_well_founded,
    sun_parent, BodyHierarchy, BodyLink, RouteCategory, TransferType,
};
use sunscatter::parts::{PartDefinition, PartDefinitions, PodInfo, VesselBlueprint};

fn link(name: &str, parent: Option<usize>) -> BodyLink {
    BodyLink { name: name.to_string(), parent }
}

/// Sagittarius A*, Sun, Earth, Moon, Mars, Phobos, Proxima, Proxima b.
fn galaxy() -> BodyHierarchy {
    BodyHierarchy {
        bodies: vec![
            link("Sagittarius A*", None),
            link("Sun", Some(0)),
            link("Earth", Some(1)),
            link("Moon", Some(2)),
            link("Mars", Some(1)),
            link("Phobos", Some(4)),
            link("Proxima Centauri", Some(0)),
            link("Proxima b", Some(6)),
        ],
        sun_index: 1,
        earth_index: 2,
        moon_index: 3,
    }
}

#[test]
fn sun_parent_walks_to_planet() {
    let g = galaxy();
    assert!(is_well_founded(&g.bodies));
    assert_eq!(sun_parent(2, &g.bodies), Some(2));
    assert_eq!(sun_parent(3, &g.bodies), Some(2));
    assert_eq!(sun_parent(5, &g.bodies), Some(4));
    assert_eq!(sun_parent(0, &g.bodies), None);
    assert_eq!(sun_parent(1, &g.bodies), Some(1));
    assert_eq!(g.mars_index(), 4);
}

#[test]
fn common_parent_cases() {
    let g = galaxy();
    assert_eq!(find_common_parent(2, 4, &g.bodies), TransferType::SameParent(1));
    assert_eq!(find_common_parent(3, 2, &g.bodies), TransferType::ChildToParent);
    assert_eq!(find_common_parent(2, 3, &g.bodies), TransferType::ParentToChild);
    assert_eq!(find_common_parent(3, 5, &g.bodies), TransferType::Interplanetary { from_planet: 2, to_planet: 4 });
}

#[test]
fn route_classification() {
    let g = galaxy();
    assert_eq!(classify_route(None, Some(3), &g), RouteCategory::SameSOI);
    assert_eq!(classify_route(Some(3), None, &g), RouteCategory::SameSOI);
    assert_eq!(classify_route(None, None, &g), RouteCategory::SameSOI);
    assert_eq!(classify_route(Some(3), Some(5), &g), RouteCategory::Interplanetary);
    assert_eq!(classify_route(Some(5), Some(3), &g), RouteCategory::Interplanetary);
    assert_eq!(classify_route(None, Some(4), &g), RouteCategory::SameSOI);
    assert_eq!(classify_route(Some(3), Some(7), &g), RouteCategory::Interplanetary);
    assert_eq!(RouteCategory::default(), RouteCategory::SameSOI);
}

#[test]
fn ill_formed_hierarchies_are_detected() {
    assert!(!is_well_founded(&[link("A", Some(1)), link("B", Some(0))]));
    assert!(!is_well_founded(&[link("A", Some(5))]));
    assert!(!is_well_founded(&[link("A", Some(0))]));
    assert!(is_well_founded(&[]));
    let none = BodyHierarchy { bodies: vec![link("Earth", None)], sun_index: 0, earth_index: 0, moon_index: 0 };
    assert_eq!(none.mars_index(), usize::MAX);
}

fn def(id: &str, chute: bool, pod: Option<(bool, u32)>) -> PartDefinition {
    PartDefinition {
        id: id.to_string(),
        has_parachute: chute,
        pod: pod.map(|(c, n)| PodInfo { can_control: c, crew_capacity: n }),
    }
}

fn catalog() -> PartDefinitions {
    PartDefinitions {
        defs: vec![
            def("pod_mk1", false, Some((true, 3))),
            def("probe_core", false, Some((true, 0))),
            def("quarters", false, Some((false, 8))),
            def("chute", true, None),
            def("tank", false, None),
        ],
    }
}

fn bp(ids: &[&str]) -> VesselBlueprint {
    VesselBlueprint { name: "Test".to_string(), part_ids: ids.iter().map(|s| s.to_string()).collect() }
}

#[test]
fn blueprint_queries() {
    let c = catalog();
    assert!(blueprint_has_parachute(&bp(&["tank", "chute"]), &c));
    assert!(!blueprint_has_parachute(&bp(&["tank", "unknown"]), &c));
    assert_eq!(blueprint_is_crewed(&bp(&["pod_mk1", "quarters", "tank"]), &c), (true, 11));
    assert_eq!(blueprint_is_crewed(&bp(&["quarters"]), &c), (false, 8));
    assert_eq!(blueprint_is_crewed(&bp(&["probe_core"]), &c), (true, 0));
    assert_eq!(blueprint_is_crewed(&bp(&[]), &c), (false, 0));
    assert!(c.get("chute").is_some());
    assert!(c.get("nope").is_none());
}
