//! Trade fleet bookkeeping: ships, routes, their ids and assignments, and the
//! hangars ships are stored in.

use vstd::prelude::*;
use crate::colony::transfer::RouteCategory;
use crate::text::{decimal, join_str, str_eq, u64_to_decimal};

verus! {

/// Unique identifier for a trade ship.
pub type TradeShipId = u64;

/// Unique identifier for a trade route.
pub type TradeRouteId = u64;

/// Unique identifier for a stored ship in a hangar.
pub type StoredShipId = u64;

/// Ships to launch per transfer window on a new interplanetary route.
pub fn default_ships_per_window() -> (r: u32)
    ensures
        r == 1,
{
    1
}

/// Current state of a trade ship.
#[derive(Debug, Clone, Copy, PartialEq, Eq, Structural)]
pub enum TradeShipState {
    /// Ship is stationed at a colony (or Earth).
    Stationed,
    /// Ship is in transit between bodies.
    InTransit,
}

/// How a route is automated.
#[derive(Debug, Clone, Copy, PartialEq, Eq, Structural)]
pub enum AutomationMode {
    /// Manual launch only.
    Manual,
    /// Launch at the next transfer window.
    WindowBased,
    /// Launch every N days.
    FrequencyBased,
    /// Launch when current delta-v cost drops below threshold.
    DvThreshold,
}

impl Default for AutomationMode {
    fn default() -> (r: Self)
        ensures
            r == AutomationMode::Manual,
    {
        AutomationMode::Manual
    }
}

/// A ship stored in a colony hangar (or Earth's virtual hangar): what the fleet
/// rules read of it.
pub struct StoredShip {
    pub id: StoredShipId,
    pub name: String,
    /// Matches a named blueprint if built from one. None for recovered custom ships.
    pub blueprint_name: Option<String>,
}

/// A single leg of a trade route (one hop): its endpoints, `None` standing for Earth.
#[derive(Debug, Clone, Copy, PartialEq, Eq, Structural)]
pub struct RouteLeg {
    pub from_body: Option<usize>,
    pub to_body: Option<usize>,
}

impl Default for RouteLeg {
    fn default() -> (r: Self)
        ensures
            r.from_body is None,
            r.to_body is None,
    {
        RouteLeg { from_body: None, to_body: None }
    }
}

/// A trade route: what the fleet rules read of it.
pub struct TradeRoute {
    pub id: TradeRouteId,
    pub name: String,
    /// Route legs (ordered hops).
    pub legs: Vec<RouteLeg>,
    /// Blueprint used for ships on this route.
    pub blueprint_name: String,
    /// Crew to send with the ship.
    pub crew: u32,
    pub automation: AutomationMode,
    /// Priority (higher = processed first).
    pub priority: i32,
    /// Whether route is paused.
    pub paused: bool,
    /// Ship assigned to this route (if any).
    pub assigned_ship_id: Option<TradeShipId>,
    pub route_category: RouteCategory,
    /// For Interplanetary: ships to launch per transfer window.
    pub ships_per_window: u32,
    /// Alert reason when automation fails.
    pub alert_reason: Option<String>,
    /// If true, automatically queue ship construction when no ship is in the hangar.
    pub auto_build_ships: bool,
}

/// A trade ship: what the fleet rules read of it.
pub struct TradeShip {
    pub id: TradeShipId,
    pub name: String,
    /// Blueprint this ship was built from.
    pub blueprint_name: String,
    pub state: TradeShipState,
    /// Current location (body index). None = Earth.
    pub location: Option<usize>,
    /// Where the ship started from before current transit.
    pub origin: Option<usize>,
    /// Crew aboard.
    pub crew: u32,
    /// Which leg of the route the ship is on (index into route legs).
    pub current_leg: usize,
    /// Whether we're on the return trip.
    pub returning: bool,
    /// Route this ship is assigned to.
    pub assigned_route: Option<TradeRouteId>,
    /// Whether the ship will have jettisoned stages by arrival.
    pub stages_jettisoned: bool,
}

/// Manages all trade ships and routes.
pub struct FleetManager {
    pub ships: Vec<TradeShip>,
    pub routes: Vec<TradeRoute>,
    pub next_ship_id: TradeShipId,
    pub next_route_id: TradeRouteId,
    /// Ships stored in Earth's virtual hangar (unlimited capacity).
    pub earth_stored_ships: Vec<StoredShip>,
    /// Next ID for Earth-stored ships.
    pub next_earth_ship_id: StoredShipId,
}

impl Default for TradeRoute {
    /// An unnamed manual route with no legs, one ship per window and no alert.
    fn default() -> (r: Self)
        ensures
            r.id == 0,
            r.name@.len() == 0,
            r.legs@.len() == 0,
            r.blueprint_name@.len() == 0,
            r.crew == 0,
            r.automation == AutomationMode::Manual,
            r.priority == 0,
            !r.paused,
            r.assigned_ship_id is None,
            r.route_category == RouteCategory::SameSOI,
            r.ships_per_window == 1,
            r.alert_reason is None,
            !r.auto_build_ships,
    {
        TradeRoute {
            id: 0,
            name: String::new(),
            legs: Vec::new(),
            blueprint_name: String::new(),
            crew: 0,
            automation: AutomationMode::default(),
            priority: 0,
            paused: false,
            assigned_ship_id: None,
            route_category: RouteCategory::default(),
            ships_per_window: default_ships_per_window(),
            alert_reason: None,
            auto_build_ships: false,
        }
    }
}

impl Default for TradeShip {
    /// An unnamed ship stationed at Earth, empty and unassigned.
    fn default() -> (r: Self)
        ensures
            r.id == 0,
            r.name@.len() == 0,
            r.blueprint_name@.len() == 0,
            r.state == TradeShipState::Stationed,
            r.location is None,
            r.origin is None,
            r.crew == 0,
            r.current_leg == 0,
            !r.returning,
            r.assigned_route is None,
            !r.stages_jettisoned,
    {
        TradeShip {
            id: 0,
            name: String::new(),
            blueprint_name: String::new(),
            state: TradeShipState::Stationed,
            location: None,
            origin: None,
            crew: 0,
            current_leg: 0,
            returning: false,
            assigned_route: None,
            stages_jettisoned: false,
        }
    }
}

impl Default for FleetManager {
    /// An empty fleet.
    fn default() -> (r: Self)
        ensures
            r.wf(),
            r.ships@.len() == 0,
            r.routes@.len() == 0,
            r.earth_stored_ships@.len() == 0,
            r.next_ship_id == 0,
            r.next_route_id == 0,
            r.next_earth_ship_id == 0,
    {
        FleetManager::new()
    }
}

/// The ship ids of `s` are distinct and below `bound`.
pub open spec fn ship_ids_ok(s: Seq<TradeShip>, bound: u64) -> bool {
    &&& forall|i: int, j: int| 0 <= i < j < s.len() ==> (#[trigger] s[i]).id != (#[trigger] s[j]).id
    &&& forall|i: int| 0 <= i < s.len() ==> (#[trigger] s[i]).id < bound
}

/// The route ids of `s` are distinct and below `bound`.
pub open spec fn route_ids_ok(s: Seq<TradeRoute>, bound: u64) -> bool {
    &&& forall|i: int, j: int| 0 <= i < j < s.len() ==> (#[trigger] s[i]).id != (#[trigger] s[j]).id
    &&& forall|i: int| 0 <= i < s.len() ==> (#[trigger] s[i]).id < bound
}

/// The stored-ship ids of `s` are distinct and below `bound`.
pub open spec fn stored_ids_ok(s: Seq<StoredShip>, bound: u64) -> bool {
    &&& forall|i: int, j: int| 0 <= i < j < s.len() ==> (#[trigger] s[i]).id != (#[trigger] s[j]).id
    &&& forall|i: int| 0 <= i < s.len() ==> (#[trigger] s[i]).id < bound
}

/// Whether a stored ship was built from the named blueprint.
pub open spec fn built_from(s: StoredShip, name: Seq<char>) -> bool {
    s.blueprint_name matches Some(b) && b@ == name
}

/// Index of the first stored ship built from the named blueprint.
pub open spec fn first_built_from(s: Seq<StoredShip>, name: Seq<char>) -> Option<int> {
    if exists|i: int| 0 <= i < s.len() && built_from(#[trigger] s[i], name) {
        Some(choose|i: int| 0 <= i < s.len() && built_from(s[i], name) && forall|j: int| 0 <= j < i ==> !built_from(#[trigger] s[j], name))
    } else {
        None
    }
}

/// Index of the stored ship with the given id.
pub open spec fn stored_index(s: Seq<StoredShip>, id: u64) -> Option<int> {
    if exists|i: int| 0 <= i < s.len() && (#[trigger] s[i]).id == id {
        Some(choose|i: int| 0 <= i < s.len() && s[i].id == id && forall|j: int| 0 <= j < i ==> (#[trigger] s[j]).id != id)
    } else {
        None
    }
}

/// Find a stored ship matching a blueprint name. Returns its ID if found.
pub fn find_matching_ship(ships: &[StoredShip], blueprint_name: &str) -> (r: Option<StoredShipId>)
    ensures
        r == match first_built_from(ships@, blueprint_name@) {
            Some(i) => Some(ships@[i].id),
            None => None,
        },
{
    let mut i: usize = 0;
    while i < ships.len()
        invariant
            0 <= i <= ships@.len(),
            forall|j: int| 0 <= j < i ==> !built_from(#[trigger] ships@[j], blueprint_name@),
        decreases ships@.len() - i,
    {
        let matches = match &ships[i].blueprint_name {
            Some(b) => str_eq(b.as_str(), blueprint_name),
            None => false,
        };
        if matches {
            proof {
                let k = choose|k: int| 0 <= k < ships@.len() && built_from(ships@[k], blueprint_name@)
                    && forall|j: int| 0 <= j < k ==> !built_from(#[trigger] ships@[j], blueprint_name@);
                if k > i as int {
                    assert(!built_from(ships@[i as int], blueprint_name@));
                }
            }
            return Some(ships[i].id);
        }
        i += 1;
    }
    None
}

/// Remove the stored ship with the given id. Returns the ship if found.
pub fn remove_ship(ships: &mut Vec<StoredShip>, id: StoredShipId) -> (r: Option<StoredShip>)
    ensures
        match stored_index(old(ships)@, id) {
            Some(i) => r == Some(old(ships)@[i]) && final(ships)@ == old(ships)@.remove(i),
            None => r is None && final(ships)@ == old(ships)@,
        },
{
    let mut i: usize = 0;
    while i < ships.len()
        invariant
            ships@ == old(ships)@,
            0 <= i <= ships@.len(),
            forall|j: int| 0 <= j < i ==> (#[trigger] ships@[j]).id != id,
        decreases ships@.len() - i,
    {
        if ships[i].id == id {
            proof {
                let k = choose|k: int| 0 <= k < ships@.len() && ships@[k].id == id && forall|j: int| 0 <= j < k ==> (#[trigger] ships@[j]).id != id;
                if k > i as int {
                    assert(ships@[i as int].id != id);
                }
            }
            return Some(ships.remove(i));
        }
        i += 1;
    }
    None
}

/// Store a ship under the next stored-ship id, and advance that id.
pub fn store_with_next_id(ships: &mut Vec<StoredShip>, next_id: &mut StoredShipId, ship: StoredShip)
    requires
        *old(next_id) < u64::MAX,
        stored_ids_ok(old(ships)@, *old(next_id)),
    ensures
        *final(next_id) == *old(next_id) + 1,
        final(ships)@.len() == old(ships)@.len() + 1,
        final(ships)@.drop_last() == old(ships)@,
        final(ships)@.last().id == *old(next_id),
        final(ships)@.last().name == ship.name,
        final(ships)@.last().blueprint_name == ship.blueprint_name,
        stored_ids_ok(final(ships)@, *final(next_id)),
{
    let mut ship = ship;
    ship.id = *next_id;
    *next_id = *next_id + 1;
    let ghost before = ships@;
    ships.push(ship);
    proof {
        assert(ships@.drop_last() =~= before);
        assert forall|i: int, j: int| 0 <= i < j < ships@.len() implies (#[trigger] ships@[i]).id != (#[trigger] ships@[j]).id by {
            assert(ships@[i] == before[i]);
            if j < before.len() {
                assert(ships@[j] == before[j]);
            }
        }
        assert forall|i: int| 0 <= i < ships@.len() implies (#[trigger] ships@[i]).id < *next_id by {
            if i < before.len() {
                assert(ships@[i] == before[i]);
            }
        }
    }
}

/// A ship stationed at `location`.
pub open spec fn stationed_at(s: TradeShip, location: Option<usize>) -> bool {
    s.state == TradeShipState::Stationed && s.location == location
}

/// A route with a leg that starts or ends at `body`.
pub open spec fn route_touches(r: TradeRoute, body: Option<usize>) -> bool {
    exists|i: int| 0 <= i < r.legs@.len() && ((#[trigger] r.legs@[i]).from_body == body || r.legs@[i].to_body == body)
}

/// A ship as it is after the route `id` was deleted.
pub open spec fn unassigned_from_route(before: TradeShip, after: TradeShip, id: TradeRouteId) -> bool {
    &&& after.assigned_route == if before.assigned_route == Some(id) { None } else { before.assigned_route }
    &&& after.id == before.id
    &&& after.name == before.name
    &&& after.blueprint_name == before.blueprint_name
    &&& after.state == before.state
    &&& after.location == before.location
    &&& after.origin == before.origin
    &&& after.crew == before.crew
    &&& after.current_leg == before.current_leg
    &&& after.returning == before.returning
    &&& after.stages_jettisoned == before.stages_jettisoned
}

/// A route as it is after the ship `id` was deleted.
pub open spec fn unassigned_from_ship(before: TradeRoute, after: TradeRoute, id: TradeShipId) -> bool {
    &&& after.assigned_ship_id == if before.assigned_ship_id == Some(id) { None } else { before.assigned_ship_id }
    &&& after.id == before.id
    &&& after.name == before.name
    &&& after.legs@ == before.legs@
    &&& after.blueprint_name == before.blueprint_name
    &&& after.crew == before.crew
    &&& after.automation == before.automation
    &&& after.priority == before.priority
    &&& after.paused == before.paused
    &&& after.route_category == before.route_category
    &&& after.ships_per_window == before.ships_per_window
    &&& after.alert_reason == before.alert_reason
    &&& after.auto_build_ships == before.auto_build_ships
}

/// Index of the first ship with the given id.
pub open spec fn ship_index(s: Seq<TradeShip>, id: u64) -> Option<int> {
    if exists|i: int| 0 <= i < s.len() && (#[trigger] s[i]).id == id {
        Some(choose|i: int| 0 <= i < s.len() && s[i].id == id && forall|j: int| 0 <= j < i ==> (#[trigger] s[j]).id != id)
    } else {
        None
    }
}

/// Index of the first route with the given id.
pub open spec fn route_index(s: Seq<TradeRoute>, id: u64) -> Option<int> {
    if exists|i: int| 0 <= i < s.len() && (#[trigger] s[i]).id == id {
        Some(choose|i: int| 0 <= i < s.len() && s[i].id == id && forall|j: int| 0 <= j < i ==> (#[trigger] s[j]).id != id)
    } else {
        None
    }
}

impl FleetManager {
    /// Ids are unique and below the next id to hand out, for ships, routes and
    /// Earth-stored ships.
    pub open spec fn wf(&self) -> bool {
        &&& ship_ids_ok(self.ships@, self.next_ship_id)
        &&& route_ids_ok(self.routes@, self.next_route_id)
        &&& stored_ids_ok(self.earth_stored_ships@, self.next_earth_ship_id)
    }

    pub fn new() -> (r: FleetManager)
        ensures
            r.wf(),
            r.ships@.len() == 0,
            r.routes@.len() == 0,
            r.earth_stored_ships@.len() == 0,
            r.next_ship_id == 0,
            r.next_route_id == 0,
            r.next_earth_ship_id == 0,
    {
        FleetManager {
            ships: Vec::new(),
            routes: Vec::new(),
            next_ship_id: 0,
            next_route_id: 0,
            earth_stored_ships: Vec::new(),
            next_earth_ship_id: 0,
        }
    }

    /// Get a ship by ID.
    pub fn get_ship(&self, id: TradeShipId) -> (r: Option<&TradeShip>)
        ensures
            match ship_index(self.ships@, id) {
                Some(i) => r == Some(&self.ships@[i]),
                None => r is None,
            },
    {
        let mut i: usize = 0;
        while i < self.ships.len()
            invariant
                0 <= i <= self.ships@.len(),
                forall|j: int| 0 <= j < i ==> (#[trigger] self.ships@[j]).id != id,
            decreases self.ships@.len() - i,
        {
            if self.ships[i].id == id {
                proof {
                    let k = choose|k: int| 0 <= k < self.ships@.len() && self.ships@[k].id == id && forall|j: int| 0 <= j < k ==> (#[trigger] self.ships@[j]).id != id;
                    if k > i as int {
                        assert(self.ships@[i as int].id != id);
                    }
                }
                return Some(&self.ships[i]);
            }
            i += 1;
        }
        None
    }

    /// Get a route by ID.
    pub fn get_route(&self, id: TradeRouteId) -> (r: Option<&TradeRoute>)
        ensures
            match route_index(self.routes@, id) {
                Some(i) => r == Some(&self.routes@[i]),
                None => r is None,
            },
    {
        let mut i: usize = 0;
        while i < self.routes.len()
            invariant
                0 <= i <= self.routes@.len(),
                forall|j: int| 0 <= j < i ==> (#[trigger] self.routes@[j]).id != id,
            decreases self.routes@.len() - i,
        {
            if self.routes[i].id == id {
                proof {
                    let k = choose|k: int| 0 <= k < self.routes@.len() && self.routes@[k].id == id && forall|j: int| 0 <= j < k ==> (#[trigger] self.routes@[j]).id != id;
                    if k > i as int {
                        assert(self.routes@[i as int].id != id);
                    }
                }
                return Some(&self.routes[i]);
            }
            i += 1;
        }
        None
    }

    /// Create a new trade ship (already built, stationed at location) and return its ID.
    pub fn create_ship(&mut self, name: String, blueprint_name: String, location: Option<usize>) -> (r: TradeShipId)
        requires
            old(self).wf(),
            old(self).next_ship_id < u64::MAX,
        ensures
            final(self).wf(),
            r == old(self).next_ship_id,
            final(self).next_ship_id == old(self).next_ship_id + 1,
            final(self).ships@.drop_last() == old(self).ships@,
            final(self).ships@.len() == old(self).ships@.len() + 1,
            ({
                let s = final(self).ships@.last();
                &&& s.id == r
                &&& s.name == name
                &&& s.blueprint_name == blueprint_name
                &&& s.state == TradeShipState::Stationed
                &&& s.location == location
                &&& s.origin is None
                &&& s.crew == 0
                &&& s.current_leg == 0
                &&& !s.returning
                &&& s.assigned_route is None
                &&& !s.stages_jettisoned
            }),
            final(self).routes@ == old(self).routes@,
            final(self).next_route_id == old(self).next_route_id,
            final(self).earth_stored_ships@ == old(self).earth_stored_ships@,
            final(self).next_earth_ship_id == old(self).next_earth_ship_id,
    {
        let id = self.next_ship_id;
        self.next_ship_id = self.next_ship_id + 1;
        let ghost before = self.ships@;
        self.ships.push(TradeShip {
            id,
            name,
            blueprint_name,
            state: TradeShipState::Stationed,
            location,
            origin: None,
            crew: 0,
            current_leg: 0,
            returning: false,
            assigned_route: None,
            stages_jettisoned: false,
        });
        proof {
            assert(self.ships@.drop_last() =~= before);
            assert forall|i: int, j: int| 0 <= i < j < self.ships@.len() implies (#[trigger] self.ships@[i]).id != (#[trigger] self.ships@[j]).id by {
                assert(self.ships@[i] == before[i]);
                if j < before.len() {
                    assert(self.ships@[j] == before[j]);
                }
            }
            assert forall|i: int| 0 <= i < self.ships@.len() implies (#[trigger] self.ships@[i]).id < self.next_ship_id by {
                if i < before.len() {
                    assert(self.ships@[i] == before[i]);
                }
            }
        }
        id
    }

    /// Create a new trade route and return its ID (the route's own id is replaced).
    pub fn create_route(&mut self, route: TradeRoute) -> (r: TradeRouteId)
        requires
            old(self).wf(),
            old(self).next_route_id < u64::MAX,
        ensures
            final(self).wf(),
            r == old(self).next_route_id,
            final(self).next_route_id == old(self).next_route_id + 1,
            final(self).routes@.drop_last() == old(self).routes@,
            final(self).routes@.len() == old(self).routes@.len() + 1,
            final(self).routes@.last() == (TradeRoute { id: r, ..route }),
            final(self).ships@ == old(self).ships@,
            final(self).next_ship_id == old(self).next_ship_id,
            final(self).earth_stored_ships@ == old(self).earth_stored_ships@,
            final(self).next_earth_ship_id == old(self).next_earth_ship_id,
    {
        let mut route = route;
        let id = self.next_route_id;
        self.next_route_id = self.next_route_id + 1;
        route.id = id;
        let ghost before = self.routes@;
        self.routes.push(route);
        proof {
            assert(self.routes@.drop_last() =~= before);
            assert forall|i: int, j: int| 0 <= i < j < self.routes@.len() implies (#[trigger] self.routes@[i]).id != (#[trigger] self.routes@[j]).id by {
                assert(self.routes@[i] == before[i]);
                if j < before.len() {
                    assert(self.routes@[j] == before[j]);
                }
            }
            assert forall|i: int| 0 <= i < self.routes@.len() implies (#[trigger] self.routes@[i]).id < self.next_route_id by {
                if i < before.len() {
                    assert(self.routes@[i] == before[i]);
                }
            }
        }
        id
    }

    /// Delete a route by ID, unassigning any ships from it.
    pub fn delete_route(&mut self, id: TradeRouteId)
        requires
            old(self).wf(),
        ensures
            final(self).wf(),
            final(self).routes@ == old(self).routes@.filter(|r: TradeRoute| r.id != id),
            final(self).ships@.len() == old(self).ships@.len(),
            forall|i: int| 0 <= i < old(self).ships@.len() ==> unassigned_from_route(old(self).ships@[i], #[trigger] final(self).ships@[i], id),
            final(self).next_ship_id == old(self).next_ship_id,
            final(self).next_route_id == old(self).next_route_id,
            final(self).earth_stored_ships@ == old(self).earth_stored_ships@,
            final(self).next_earth_ship_id == old(self).next_earth_ship_id,
    {
        let mut i: usize = 0;
        while i < self.ships.len()
            invariant
                0 <= i <= self.ships@.len(),
                self.ships@.len() == old(self).ships@.len(),
                forall|j: int| 0 <= j < i ==> unassigned_from_route(old(self).ships@[j], #[trigger] self.ships@[j], id),
                forall|j: int| i <= j < self.ships@.len() ==> #[trigger] self.ships@[j] == old(self).ships@[j],
                self.routes@ == old(self).routes@,
                self.next_ship_id == old(self).next_ship_id,
                self.next_route_id == old(self).next_route_id,
                self.earth_stored_ships@ == old(self).earth_stored_ships@,
                self.next_earth_ship_id == old(self).next_earth_ship_id,
            decreases self.ships@.len() - i,
        {
            if self.ships[i].assigned_route == Some(id) {
                self.ships[i].assigned_route = None;
            }
            i += 1;
        }
        proof {
            assert forall|x: int, y: int| 0 <= x < y < self.ships@.len() implies (#[trigger] self.ships@[x]).id != (#[trigger] self.ships@[y]).id by {
                assert(unassigned_from_route(old(self).ships@[x], self.ships@[x], id));
                assert(unassigned_from_route(old(self).ships@[y], self.ships@[y], id));
            }
            assert forall|x: int| 0 <= x < self.ships@.len() implies (#[trigger] self.ships@[x]).id < self.next_ship_id by {
                assert(unassigned_from_route(old(self).ships@[x], self.ships@[x], id));
            }
        }
        let ghost keep = |r: TradeRoute| r.id != id;
        let ghost orig = self.routes@;
        let mut rest: Vec<TradeRoute> = Vec::new();
        std::mem::swap(&mut rest, &mut self.routes);
        let n = rest.len();
        let mut k: usize = 0;
        proof {
            reveal_with_fuel(Seq::filter, 1);
            assert(orig.take(0) =~= Seq::<TradeRoute>::empty());
            assert(orig.skip(0) =~= orig);
        }
        while k < n
            invariant
                n == orig.len(),
                0 <= k <= n,
                orig == old(self).routes@,
                route_ids_ok(orig, self.next_route_id),
                rest@ == orig.skip(k as int),
                forall|r: TradeRoute| #[trigger] keep(r) == (r.id != id),
                self.routes@ == orig.take(k as int).filter(keep),
                ship_ids_ok(self.ships@, self.next_ship_id),
                self.ships@.len() == old(self).ships@.len(),
                forall|j: int| 0 <= j < old(self).ships@.len() ==> unassigned_from_route(old(self).ships@[j], #[trigger] self.ships@[j], id),
                self.next_ship_id == old(self).next_ship_id,
                self.next_route_id == old(self).next_route_id,
                self.earth_stored_ships@ == old(self).earth_stored_ships@,
                self.next_earth_ship_id == old(self).next_earth_ship_id,
            decreases n - k,
        {
            let r = rest.remove(0);
            proof {
                assert(r == orig[k as int]);
                assert(rest@ =~= orig.skip(k + 1));
                assert(orig.take(k + 1) =~= orig.take(k as int).push(r));
                orig.take(k as int).lemma_filter_push(r, keep);
            }
            if r.id != id {
                self.routes.push(r);
            }
            k += 1;
        }
        proof {
            assert(orig.take(n as int) =~= orig);
            assert((|r: TradeRoute| r.id != id) =~= keep);
            lemma_filter_keeps_route_ids(orig, keep, self.next_route_id);
        }
    }

    /// Delete a ship by ID, unassigning it from any route.
    pub fn delete_ship(&mut self, id: TradeShipId)
        requires
            old(self).wf(),
        ensures
            final(self).wf(),
            final(self).ships@ == old(self).ships@.filter(|s: TradeShip| s.id != id),
            final(self).routes@.len() == old(self).routes@.len(),
            forall|i: int| 0 <= i < old(self).routes@.len() ==> unassigned_from_ship(old(self).routes@[i], #[trigger] final(self).routes@[i], id),
            final(self).next_ship_id == old(self).next_ship_id,
            final(self).next_route_id == old(self).next_route_id,
            final(self).earth_stored_ships@ == old(self).earth_stored_ships@,
            final(self).next_earth_ship_id == old(self).next_earth_ship_id,
    {
        let mut i: usize = 0;
        while i < self.routes.len()
            invariant
                0 <= i <= self.routes@.len(),
                self.routes@.len() == old(self).routes@.len(),
                forall|j: int| 0 <= j < i ==> unassigned_from_ship(old(self).routes@[j], #[trigger] self.routes@[j], id),
                forall|j: int| i <= j < self.routes@.len() ==> #[trigger] self.routes@[j] == old(self).routes@[j],
                self.ships@ == old(self).ships@,
                self.next_ship_id == old(self).next_ship_id,
                self.next_route_id == old(self).next_route_id,
                self.earth_stored_ships@ == old(self).earth_stored_ships@,
                self.next_earth_ship_id == old(self).next_earth_ship_id,
            decreases self.routes@.len() - i,
        {
            if self.routes[i].assigned_ship_id == Some(id) {
                self.routes[i].assigned_ship_id = None;
            }
            i += 1;
        }
        proof {
            assert forall|x: int, y: int| 0 <= x < y < self.routes@.len() implies (#[trigger] self.routes@[x]).id != (#[trigger] self.routes@[y]).id by {
                assert(unassigned_from_ship(old(self).routes@[x], self.routes@[x], id));
                assert(unassigned_from_ship(old(self).routes@[y], self.routes@[y], id));
            }
            assert forall|x: int| 0 <= x < self.routes@.len() implies (#[trigger] self.routes@[x]).id < self.next_route_id by {
                assert(unassigned_from_ship(old(self).routes@[x], self.routes@[x], id));
            }
        }
        let ghost keep = |s: TradeShip| s.id != id;
        let ghost orig = self.ships@;
        let mut rest: Vec<TradeShip> = Vec::new();
        std::mem::swap(&mut rest, &mut self.ships);
        let n = rest.len();
        let mut k: usize = 0;
        proof {
            reveal_with_fuel(Seq::filter, 1);
            assert(orig.take(0) =~= Seq::<TradeShip>::empty());
            assert(orig.skip(0) =~= orig);
        }
        while k < n
            invariant
                n == orig.len(),
                0 <= k <= n,
                orig == old(self).ships@,
                ship_ids_ok(orig, self.next_ship_id),
                rest@ == orig.skip(k as int),
                forall|s: TradeShip| #[trigger] keep(s) == (s.id != id),
                self.ships@ == orig.take(k as int).filter(keep),
                route_ids_ok(self.routes@, self.next_route_id),
                self.routes@.len() == old(self).routes@.len(),
                forall|j: int| 0 <= j < old(self).routes@.len() ==> unassigned_from_ship(old(self).routes@[j], #[trigger] self.routes@[j], id),
                self.next_ship_id == old(self).next_ship_id,
                self.next_route_id == old(self).next_route_id,
                self.earth_stored_ships@ == old(self).earth_stored_ships@,
                self.next_earth_ship_id == old(self).next_earth_ship_id,
            decreases n - k,
        {
            let s = rest.remove(0);
            proof {
                assert(s == orig[k as int]);
                assert(rest@ =~= orig.skip(k + 1));
                assert(orig.take(k + 1) =~= orig.take(k as int).push(s));
                orig.take(k as int).lemma_filter_push(s, keep);
            }
            if s.id != id {
                self.ships.push(s);
            }
            k += 1;
        }
        proof {
            assert(orig.take(n as int) =~= orig);
            assert((|s: TradeShip| s.id != id) =~= keep);
            lemma_filter_keeps_ship_ids(orig, keep, self.next_ship_id);
        }
    }

    /// Ships stationed at a given location (body index, or None for Earth).
    pub fn ships_at(&self, location: Option<usize>) -> (r: Vec<&TradeShip>)
        ensures
            r@.map_values(|s: &TradeShip| *s) == self.ships@.filter(|s: TradeShip| stationed_at(s, location)),
    {
        let ghost pred = |s: TradeShip| stationed_at(s, location);
        let mut r: Vec<&TradeShip> = Vec::new();
        let mut i: usize = 0;
        proof {
            reveal_with_fuel(Seq::filter, 1);
            assert(self.ships@.take(0) =~= Seq::<TradeShip>::empty());
        }
        while i < self.ships.len()
            invariant
                0 <= i <= self.ships@.len(),
                forall|s: TradeShip| #[trigger] pred(s) == stationed_at(s, location),
                r@.map_values(|s: &TradeShip| *s) == self.ships@.take(i as int).filter(pred),
            decreases self.ships@.len() - i,
        {
            let s = &self.ships[i];
            proof {
                assert(self.ships@.take(i + 1) =~= self.ships@.take(i as int).push(*s));
                self.ships@.take(i as int).lemma_filter_push(*s, pred);
            }
            if s.state == TradeShipState::Stationed && s.location == location {
                r.push(s);
            }
            proof {
                assert(r@.map_values(|s: &TradeShip| *s) =~= self.ships@.take(i + 1).filter(pred));
            }
            i += 1;
        }
        proof {
            assert(self.ships@.take(i as int) =~= self.ships@);
            assert((|s: TradeShip| stationed_at(s, location)) =~= pred);
        }
        r
    }

    /// Routes that originate from or terminate at a given body.
    pub fn routes_involving(&self, body: Option<usize>) -> (r: Vec<&TradeRoute>)
        ensures
            r@.map_values(|x: &TradeRoute| *x) == self.routes@.filter(|x: TradeRoute| route_touches(x, body)),
    {
        let ghost pred = |x: TradeRoute| route_touches(x, body);
        let mut r: Vec<&TradeRoute> = Vec::new();
        let mut i: usize = 0;
        proof {
            reveal_with_fuel(Seq::filter, 1);
            assert(self.routes@.take(0) =~= Seq::<TradeRoute>::empty());
        }
        while i < self.routes.len()
            invariant
                0 <= i <= self.routes@.len(),
                forall|x: TradeRoute| #[trigger] pred(x) == route_touches(x, body),
                r@.map_values(|x: &TradeRoute| *x) == self.routes@.take(i as int).filter(pred),
            decreases self.routes@.len() - i,
        {
            let route = &self.routes[i];
            proof {
                assert(self.routes@.take(i + 1) =~= self.routes@.take(i as int).push(*route));
                self.routes@.take(i as int).lemma_filter_push(*route, pred);
            }
            let mut touches = false;
            let mut k: usize = 0;
            while k < route.legs.len()
                invariant
                    0 <= k <= route.legs@.len(),
                    touches == exists|j: int| 0 <= j < k && ((#[trigger] route.legs@[j]).from_body == body || route.legs@[j].to_body == body),
                decreases route.legs@.len() - k,
            {
                if route.legs[k].from_body == body || route.legs[k].to_body == body {
                    touches = true;
                }
                k += 1;
            }
            if touches {
                r.push(route);
            }
            proof {
                assert(r@.map_values(|x: &TradeRoute| *x) =~= self.routes@.take(i + 1).filter(pred));
            }
            i += 1;
        }
        proof {
            assert(self.routes@.take(i as int) =~= self.routes@);
            assert((|x: TradeRoute| route_touches(x, body)) =~= pred);
        }
        r
    }

    /// Get the source body of a route (from_body of the first leg).
    pub fn route_source(route: &TradeRoute) -> (r: Option<usize>)
        ensures
            r == if route.legs@.len() > 0 { route.legs@[0].from_body } else { None },
    {
        if route.legs.len() > 0 {
            route.legs[0].from_body
        } else {
            None
        }
    }

    /// Get the destination body of a route (to_body of the last leg).
    pub fn route_destination(route: &TradeRoute) -> (r: Option<usize>)
        ensures
            r == if route.legs@.len() > 0 { route.legs@.last().to_body } else { None },
    {
        if route.legs.len() > 0 {
            route.legs[route.legs.len() - 1].to_body
        } else {
            None
        }
    }

    /// Store a ship in Earth's virtual hangar (unlimited capacity) under a new id.
    pub fn store_earth_ship(&mut self, ship: StoredShip)
        requires
            old(self).wf(),
            old(self).next_earth_ship_id < u64::MAX,
        ensures
            final(self).wf(),
            final(self).next_earth_ship_id == old(self).next_earth_ship_id + 1,
            final(self).earth_stored_ships@.drop_last() == old(self).earth_stored_ships@,
            final(self).earth_stored_ships@.len() == old(self).earth_stored_ships@.len() + 1,
            final(self).earth_stored_ships@.last().id == old(self).next_earth_ship_id,
            final(self).earth_stored_ships@.last().name == ship.name,
            final(self).earth_stored_ships@.last().blueprint_name == ship.blueprint_name,
            final(self).ships@ == old(self).ships@,
            final(self).routes@ == old(self).routes@,
            final(self).next_ship_id == old(self).next_ship_id,
            final(self).next_route_id == old(self).next_route_id,
    {
        store_with_next_id(&mut self.earth_stored_ships, &mut self.next_earth_ship_id, ship);
    }

    /// Find a stored ship at Earth matching a blueprint name. Returns its ID if found.
    pub fn find_earth_ship(&self, blueprint_name: &str) -> (r: Option<StoredShipId>)
        ensures
            r == match first_built_from(self.earth_stored_ships@, blueprint_name@) {
                Some(i) => Some(self.earth_stored_ships@[i].id),
                None => None,
            },
    {
        find_matching_ship(self.earth_stored_ships.as_slice(), blueprint_name)
    }

    /// Remove a ship from Earth's hangar by ID.
    pub fn remove_earth_ship(&mut self, id: StoredShipId) -> (r: Option<StoredShip>)
        requires
            old(self).wf(),
        ensures
            final(self).wf(),
            match stored_index(old(self).earth_stored_ships@, id) {
                Some(i) => r == Some(old(self).earth_stored_ships@[i]) && final(self).earth_stored_ships@
                    == old(self).earth_stored_ships@.remove(i),
                None => r is None && final(self).earth_stored_ships@ == old(self).earth_stored_ships@,
            },
            final(self).ships@ == old(self).ships@,
            final(self).routes@ == old(self).routes@,
            final(self).next_ship_id == old(self).next_ship_id,
            final(self).next_route_id == old(self).next_route_id,
            final(self).next_earth_ship_id == old(self).next_earth_ship_id,
    {
        let ghost before = self.earth_stored_ships@;
        let r = remove_ship(&mut self.earth_stored_ships, id);
        proof {
            match stored_index(before, id) {
                Some(i) => {
                    let after = self.earth_stored_ships@;
                    assert forall|x: int, y: int| 0 <= x < y < after.len() implies (#[trigger] after[x]).id != (#[trigger] after[y]).id by {
                        let a = if x < i { x } else { x + 1 };
                        let b = if y < i { y } else { y + 1 };
                        assert(after[x] == before[a]);
                        assert(after[y] == before[b]);
                    }
                    assert forall|x: int| 0 <= x < after.len() implies (#[trigger] after[x]).id < self.next_earth_ship_id by {
                        let a = if x < i { x } else { x + 1 };
                        assert(after[x] == before[a]);
                    }
                },
                None => {},
            }
        }
        r
    }
}

/// The key by which automation orders routes: the route's id and priority.
pub open spec fn launch_key(r: TradeRoute) -> (TradeRouteId, i32) {
    (r.id, r.priority)
}

/// Whether `x` is the key of a route among the first `n` of `routes` that is not paused.
pub open spec fn unpaused_key_among(routes: Seq<TradeRoute>, n: int, x: (TradeRouteId, i32)) -> bool {
    exists|j: int| 0 <= j < n && !(#[trigger] routes[j]).paused && x == launch_key(routes[j])
}

/// Whether automation handles the route keyed `a` before the one keyed `b`:
/// higher priority first, then lower id.
pub open spec fn handled_before(a: (TradeRouteId, i32), b: (TradeRouteId, i32)) -> bool {
    a.1 > b.1 || (a.1 == b.1 && a.0 < b.0)
}

impl FleetManager {
    /// The routes that automation looks at, as (id, priority): every route that
    /// is not paused, highest priority first and, within a priority, lowest id first.
    pub fn automation_order(&self) -> (r: Vec<(TradeRouteId, i32)>)
        requires
            self.wf(),
        ensures
            forall|k: int| 0 <= k < r@.len() ==> unpaused_key_among(self.routes@, self.routes@.len() as int, #[trigger] r@[k]),
            forall|j: int| 0 <= j < self.routes@.len() && !(#[trigger] self.routes@[j]).paused ==> r@.contains(launch_key(self.routes@[j])),
            forall|a: int, b: int| 0 <= a < b < r@.len() ==> handled_before(#[trigger] r@[a], #[trigger] r@[b]),
    {
        let mut out: Vec<(TradeRouteId, i32)> = Vec::new();
        let mut i: usize = 0;
        while i < self.routes.len()
            invariant
                self.wf(),
                0 <= i <= self.routes@.len(),
                forall|k: int| 0 <= k < out@.len() ==> unpaused_key_among(self.routes@, i as int, #[trigger] out@[k]),
                forall|j: int| 0 <= j < i && !(#[trigger] self.routes@[j]).paused ==> out@.contains(launch_key(self.routes@[j])),
                forall|a: int, b: int| 0 <= a < b < out@.len() ==> handled_before(#[trigger] out@[a], #[trigger] out@[b]),
            decreases self.routes@.len() - i,
        {
            if !self.routes[i].paused {
                let key: (TradeRouteId, i32) = (self.routes[i].id, self.routes[i].priority);
                let mut k: usize = 0;
                while k < out.len() && !(key.1 > out[k].1 || (key.1 == out[k].1 && key.0 < out[k].0))
                    invariant
                        0 <= k <= out@.len(),
                        forall|m: int| 0 <= m < k ==> !handled_before(key, #[trigger] out@[m]),
                    decreases out@.len() - k,
                {
                    k += 1;
                }
                let ghost before = out@;
                proof {
                    before.insert_ensures(k as int, key);
                    assert forall|m: int| 0 <= m < before.len() implies (#[trigger] before[m]).0 != key.0 by {
                        assert(unpaused_key_among(self.routes@, i as int, before[m]));
                        let j = choose|j: int| 0 <= j < i && !(#[trigger] self.routes@[j]).paused && before[m] == launch_key(self.routes@[j]);
                        assert(self.routes@[j].id != self.routes@[i as int].id);
                    }
                }
                out.insert(k, key);
                proof {
                    let after = out@;
                    assert forall|a: int, b: int| 0 <= a < b < after.len() implies handled_before(#[trigger] after[a], #[trigger] after[b]) by {
                        if b < k {
                            assert(after[a] == before[a] && after[b] == before[b]);
                        } else if b == k {
                            assert(after[a] == before[a]);
                            assert(!handled_before(key, before[a]));
                        } else if a == k {
                            assert(after[b] == before[b - 1]);
                            if b - 1 > k {
                                assert(handled_before(before[k as int], before[b - 1]));
                            }
                        } else if a < k {
                            assert(after[a] == before[a] && after[b] == before[b - 1]);
                        } else {
                            assert(after[a] == before[a - 1] && after[b] == before[b - 1]);
                        }
                    }
                    assert forall|m: int| 0 <= m < after.len() implies unpaused_key_among(self.routes@, i + 1, #[trigger] after[m]) by {
                        if m < k {
                            assert(after[m] == before[m]);
                            assert(unpaused_key_among(self.routes@, i as int, before[m]));
                        } else if m == k {
                            assert(after[m] == launch_key(self.routes@[i as int]));
                        } else {
                            assert(after[m] == before[m - 1]);
                            assert(unpaused_key_among(self.routes@, i as int, before[m - 1]));
                        }
                    }
                    assert forall|j: int| 0 <= j < i + 1 && !(#[trigger] self.routes@[j]).paused implies after.contains(launch_key(self.routes@[j])) by {
                        if j == i {
                            assert(after[k as int] == launch_key(self.routes@[j]));
                        } else {
                            assert(before.contains(launch_key(self.routes@[j])));
                            let m = choose|m: int| 0 <= m < before.len() && before[m] == launch_key(self.routes@[j]);
                            if m < k {
                                assert(after[m] == before[m]);
                            } else {
                                assert(after[m + 1] == before[m]);
                            }
                        }
                    }
                }
            } else {
                assert forall|m: int| 0 <= m < out@.len() implies unpaused_key_among(self.routes@, i + 1, #[trigger] out@[m]) by {
                    assert(unpaused_key_among(self.routes@, i as int, out@[m]));
                }
            }
            i += 1;
        }
        out
    }
}

/// Why a ship cannot be launched on a route.
#[derive(Debug, Clone, Copy, PartialEq, Eq, Structural)]
pub enum LaunchError {
    ShipNotFound,
    ShipNotStationed,
    RouteNotFound,
    RouteHasNoLegs,
    ShipNotAtRouteSource,
    BlueprintNotFound,
    /// The source colony has fewer crew than the route sends.
    InsufficientCrew { need: u32, have: u32 },
}

/// The message shown to the player for a refused launch.
pub open spec fn launch_error_message(e: LaunchError) -> Seq<char> {
    match e {
        LaunchError::ShipNotFound => "Ship not found"@,
        LaunchError::ShipNotStationed => "Ship is not stationed"@,
        LaunchError::RouteNotFound => "Route not found"@,
        LaunchError::RouteHasNoLegs => "Route has no legs"@,
        LaunchError::ShipNotAtRouteSource => "Ship is not at route source"@,
        LaunchError::BlueprintNotFound => "Blueprint not found"@,
        LaunchError::InsufficientCrew { need, have } => "Insufficient crew at colony (need "@ + decimal(need as nat)
            + ", have "@ + decimal(have as nat) + ")"@,
    }
}

impl LaunchError {
    /// The message shown to the player.
    pub fn message(&self) -> (r: String)
        ensures
            r@ == launch_error_message(*self),
    {
        match *self {
            LaunchError::ShipNotFound => "Ship not found".to_string(),
            LaunchError::ShipNotStationed => "Ship is not stationed".to_string(),
            LaunchError::RouteNotFound => "Route not found".to_string(),
            LaunchError::RouteHasNoLegs => "Route has no legs".to_string(),
            LaunchError::ShipNotAtRouteSource => "Ship is not at route source".to_string(),
            LaunchError::BlueprintNotFound => "Blueprint not found".to_string(),
            LaunchError::InsufficientCrew { need, have } => {
                let m = join_str("Insufficient crew at colony (need ", u64_to_decimal(need as u64).as_str());
                let m = join_str(m.as_str(), ", have ");
                let m = join_str(m.as_str(), u64_to_decimal(have as u64).as_str());
                join_str(m.as_str(), ")")
            },
        }
    }
}

/// The crew a source colony keeps after sending `route_crew` aboard, or the
/// refusal when it has fewer than that.
pub open spec fn crew_left(route_crew: u32, colony_crew: u32) -> Result<u32, LaunchError> {
    if route_crew > 0 && colony_crew < route_crew {
        Err(LaunchError::InsufficientCrew { need: route_crew, have: colony_crew })
    } else {
        Ok((colony_crew - route_crew) as u32)
    }
}

/// Take a route's crew from the colony the route starts at: the crew the
/// colony keeps, or the refusal when it has too few.
pub fn crew_for_launch(route_crew: u32, colony_crew: u32) -> (r: Result<u32, LaunchError>)
    ensures
        r == crew_left(route_crew, colony_crew),
{
    if route_crew > 0 && colony_crew < route_crew {
        Err(LaunchError::InsufficientCrew { need: route_crew, have: colony_crew })
    } else {
        Ok(colony_crew - route_crew)
    }
}

/// Whether ship `ship_id` may be launched on route `route_id`, checked in this
/// order: the ship exists and is stationed, the route exists and has a leg,
/// the ship stands where the first leg starts, and the ship's blueprint is
/// known (`blueprint_found`, looked up by the ship's blueprint name). On
/// success, the source body.
pub open spec fn launch_check(ships: Seq<TradeShip>, routes: Seq<TradeRoute>, ship_id: TradeShipId, route_id: TradeRouteId, blueprint_found: bool) -> Result<Option<usize>, LaunchError> {
    match ship_index(ships, ship_id) {
        None => Err(LaunchError::ShipNotFound),
        Some(si) => if ships[si].state != TradeShipState::Stationed {
            Err(LaunchError::ShipNotStationed)
        } else {
            match route_index(routes, route_id) {
                None => Err(LaunchError::RouteNotFound),
                Some(ri) => if routes[ri].legs@.len() == 0 {
                    Err(LaunchError::RouteHasNoLegs)
                } else if ships[si].location != routes[ri].legs@[0].from_body {
                    Err(LaunchError::ShipNotAtRouteSource)
                } else if !blueprint_found {
                    Err(LaunchError::BlueprintNotFound)
                } else {
                    Ok(routes[ri].legs@[0].from_body)
                },
            }
        },
    }
}

/// A ship as it leaves on `route`: in transit from where it stood, on the first
/// leg, with the route's crew aboard and assigned to the route.
pub open spec fn launched(s: TradeShip, route: TradeRoute) -> TradeShip {
    TradeShip {
        state: TradeShipState::InTransit,
        crew: route.crew,
        current_leg: 0,
        returning: false,
        origin: s.location,
        assigned_route: Some(route.id),
        ..s
    }
}

impl FleetManager {
    /// Position of the ship with the given id.
    fn ship_position(&self, id: TradeShipId) -> (r: Option<usize>)
        ensures
            match ship_index(self.ships@, id) {
                Some(i) => r matches Some(p) && p as int == i,
                None => r is None,
            },
            r matches Some(i) ==> i < self.ships@.len() && self.ships@[i as int].id == id,
    {
        let mut i: usize = 0;
        while i < self.ships.len()
            invariant
                0 <= i <= self.ships@.len(),
                forall|j: int| 0 <= j < i ==> (#[trigger] self.ships@[j]).id != id,
            decreases self.ships@.len() - i,
        {
            if self.ships[i].id == id {
                proof {
                    let k = choose|k: int| 0 <= k < self.ships@.len() && self.ships@[k].id == id && forall|j: int| 0 <= j < k ==> (#[trigger] self.ships@[j]).id != id;
                    if k > i as int {
                        assert(self.ships@[i as int].id != id);
                    }
                }
                return Some(i);
            }
            i += 1;
        }
        None
    }

    /// Position of the route with the given id.
    fn route_position(&self, id: TradeRouteId) -> (r: Option<usize>)
        ensures
            match route_index(self.routes@, id) {
                Some(i) => r matches Some(p) && p as int == i,
                None => r is None,
            },
            r matches Some(i) ==> i < self.routes@.len() && self.routes@[i as int].id == id,
    {
        let mut i: usize = 0;
        while i < self.routes.len()
            invariant
                0 <= i <= self.routes@.len(),
                forall|j: int| 0 <= j < i ==> (#[trigger] self.routes@[j]).id != id,
            decreases self.routes@.len() - i,
        {
            if self.routes[i].id == id {
                proof {
                    let k = choose|k: int| 0 <= k < self.routes@.len() && self.routes@[k].id == id && forall|j: int| 0 <= j < k ==> (#[trigger] self.routes@[j]).id != id;
                    if k > i as int {
                        assert(self.routes@[i as int].id != id);
                    }
                }
                return Some(i);
            }
            i += 1;
        }
        None
    }

    /// Check that ship `ship_id` may be launched on route `route_id`, its
    /// blueprint having been looked up (`blueprint_found`); on success, the
    /// body the route starts from (`None` for Earth).
    pub fn check_launch(&self, ship_id: TradeShipId, route_id: TradeRouteId, blueprint_found: bool) -> (r: Result<Option<usize>, LaunchError>)
        ensures
            r == launch_check(self.ships@, self.routes@, ship_id, route_id, blueprint_found),
    {
        let si = match self.ship_position(ship_id) {
            Some(si) => si,
            None => {
                assert(ship_index(self.ships@, ship_id) is None);
                return Err(LaunchError::ShipNotFound);
            },
        };
        assert(ship_index(self.ships@, ship_id) == Some(si as int));
        if self.ships[si].state != TradeShipState::Stationed {
            return Err(LaunchError::ShipNotStationed);
        }
        let ri = match self.route_position(route_id) {
            Some(ri) => ri,
            None => {
                assert(route_index(self.routes@, route_id) is None);
                return Err(LaunchError::RouteNotFound);
            },
        };
        assert(route_index(self.routes@, route_id) == Some(ri as int));
        if self.routes[ri].legs.len() == 0 {
            return Err(LaunchError::RouteHasNoLegs);
        }
        let source = self.routes[ri].legs[0].from_body;
        if self.ships[si].location != source {
            return Err(LaunchError::ShipNotAtRouteSource);
        }
        if !blueprint_found {
            return Err(LaunchError::BlueprintNotFound);
        }
        Ok(source)
    }

    /// Send ship `ship_id` off on route `route_id`: the ship leaves in transit
    /// with the route's crew, and the route records the ship. Nothing changes
    /// when the launch is refused.
    pub fn launch_ship(&mut self, ship_id: TradeShipId, route_id: TradeRouteId, blueprint_found: bool) -> (r: Result<(), LaunchError>)
        requires
            old(self).wf(),
        ensures
            final(self).wf(),
            match launch_check(old(self).ships@, old(self).routes@, ship_id, route_id, blueprint_found) {
                Err(e) => r == Err::<(), LaunchError>(e) && final(self).ships@ == old(self).ships@
                    && final(self).routes@ == old(self).routes@,
                Ok(_) => {
                    let si = ship_index(old(self).ships@, ship_id).unwrap();
                    let ri = route_index(old(self).routes@, route_id).unwrap();
                    &&& r is Ok
                    &&& final(self).ships@ == old(self).ships@.update(si, launched(old(self).ships@[si], old(self).routes@[ri]))
                    &&& final(self).routes@ == old(self).routes@.update(ri,
                        TradeRoute { assigned_ship_id: Some(ship_id), ..old(self).routes@[ri] })
                },
            },
            final(self).next_ship_id == old(self).next_ship_id,
            final(self).next_route_id == old(self).next_route_id,
            final(self).earth_stored_ships@ == old(self).earth_stored_ships@,
            final(self).next_earth_ship_id == old(self).next_earth_ship_id,
    {
        match self.check_launch(ship_id, route_id, blueprint_found) {
            Err(e) => return Err(e),
            Ok(_) => {},
        }
        let si = self.ship_position(ship_id).unwrap();
        let ri = self.route_position(route_id).unwrap();
        let crew = self.routes[ri].crew;
        let location = self.ships[si].location;
        let ghost ships0 = self.ships@;
        let ghost routes0 = self.routes@;
        self.ships[si].state = TradeShipState::InTransit;
        self.ships[si].crew = crew;
        self.ships[si].current_leg = 0;
        self.ships[si].returning = false;
        self.ships[si].origin = location;
        self.ships[si].assigned_route = Some(route_id);
        self.routes[ri].assigned_ship_id = Some(ship_id);
        proof {
            assert(self.ships@ =~= ships0.update(si as int, launched(ships0[si as int], routes0[ri as int])));
            assert(self.routes@ =~= routes0.update(ri as int, TradeRoute { assigned_ship_id: Some(ship_id), ..routes0[ri as int] }));
            assert forall|x: int| 0 <= x < self.ships@.len() implies #[trigger] self.ships@[x].id == ships0[x].id by {}
            assert forall|x: int| 0 <= x < self.routes@.len() implies #[trigger] self.routes@[x].id == routes0[x].id by {}
        }
        Ok(())
    }
}

/// Where a ship in transit is headed: the end of its current leg when its
/// route exists (Earth when there is no such leg), else back where it came from.
pub open spec fn arrival_destination(routes: Seq<TradeRoute>, s: TradeShip) -> Option<usize> {
    match s.assigned_route {
        Some(rid) => match route_index(routes, rid) {
            Some(ri) => if s.current_leg < routes[ri].legs@.len() {
                routes[ri].legs@[s.current_leg as int].to_body
            } else {
                None
            },
            None => s.origin,
        },
        None => s.origin,
    }
}

/// Whether a body stands for Earth: `None`, or Earth's own index.
pub open spec fn at_earth_body(body: Option<usize>, earth_index: usize) -> bool {
    match body {
        None => true,
        Some(i) => i == earth_index,
    }
}

/// Whether a ship's route goes on after the ship's current leg.
pub open spec fn has_next_leg(routes: Seq<TradeRoute>, s: TradeShip) -> bool {
    match s.assigned_route {
        Some(rid) => match route_index(routes, rid) {
            Some(ri) => s.current_leg + 1 < routes[ri].legs@.len(),
            None => false,
        },
        None => false,
    }
}

/// The routes after a ship assigned to them reached its final destination:
/// the route it flew no longer has a ship assigned.
pub open spec fn released_route(routes: Seq<TradeRoute>, s: TradeShip) -> Seq<TradeRoute> {
    match s.assigned_route {
        Some(rid) => match route_index(routes, rid) {
            Some(ri) => routes.update(ri, TradeRoute { assigned_ship_id: None, ..routes[ri] }),
            None => routes,
        },
        None => routes,
    }
}

/// What became of a ship that reached the end of a leg.
pub enum Arrival {
    /// No ship has that id.
    UnknownShip,
    /// The ship reached `destination` and flies on along leg `next_leg`.
    LegDone { destination: Option<usize>, at_earth: bool, crew_delivered: u32, next_leg: usize },
    /// The ship reached `destination`, the end of its route, and left the fleet;
    /// `ship` is the ship as it arrived.
    RouteDone { ship: TradeShip, destination: Option<usize>, at_earth: bool, crew_delivered: u32 },
}

impl FleetManager {
    /// Bring ship `ship_id` to the end of its current leg. It stands at the
    /// leg's destination; its crew goes ashore when that is a colony other than
    /// Earth (`colony_at_destination`). When its route goes on, the ship takes
    /// the next leg from there; otherwise the route is released and the ship
    /// leaves the fleet, to be stored or broken up where it landed.
    #[verifier::spinoff_prover]
    #[verifier::rlimit(40)]
    pub fn arrive(&mut self, ship_id: TradeShipId, earth_index: usize, colony_at_destination: bool) -> (r: Arrival)
        requires
            old(self).wf(),
        ensures
            final(self).wf(),
            match ship_index(old(self).ships@, ship_id) {
                None => r is UnknownShip && final(self).ships@ == old(self).ships@ && final(self).routes@ == old(self).routes@,
                Some(si) => {
                    let s = old(self).ships@[si];
                    let dest = arrival_destination(old(self).routes@, s);
                    let at_earth = at_earth_body(dest, earth_index);
                    let delivered: u32 = if !at_earth && colony_at_destination { s.crew } else { 0 };
                    let landed = TradeShip { location: dest, origin: None, crew: (s.crew - delivered) as u32, ..s };
                    if has_next_leg(old(self).routes@, s) {
                        &&& r == (Arrival::LegDone { destination: dest, at_earth, crew_delivered: delivered, next_leg: (s.current_leg + 1) as usize })
                        &&& final(self).ships@ == old(self).ships@.update(si, TradeShip { current_leg: (s.current_leg + 1) as usize, origin: dest, ..landed })
                        &&& final(self).routes@ == old(self).routes@
                    } else {
                        &&& r == (Arrival::RouteDone { ship: landed, destination: dest, at_earth, crew_delivered: delivered })
                        &&& final(self).ships@ == old(self).ships@.remove(si)
                        &&& final(self).routes@ == released_route(old(self).routes@, s)
                    }
                },
            },
            final(self).next_ship_id == old(self).next_ship_id,
            final(self).next_route_id == old(self).next_route_id,
            final(self).earth_stored_ships@ == old(self).earth_stored_ships@,
            final(self).next_earth_ship_id == old(self).next_earth_ship_id,
    {
        let si = match self.ship_position(ship_id) {
            Some(si) => si,
            None => return Arrival::UnknownShip,
        };
        let ghost ships0 = self.ships@;
        let ghost routes0 = self.routes@;
        let ghost s = ships0[si as int];
        let ri_opt = match self.ships[si].assigned_route {
            Some(rid) => self.route_position(rid),
            None => None,
        };
        let leg = self.ships[si].current_leg;
        let destination = match ri_opt {
            Some(ri) => if leg < self.routes[ri].legs.len() {
                self.routes[ri].legs[leg].to_body
            } else {
                None
            },
            None => self.ships[si].origin,
        };
        assert(destination == arrival_destination(routes0, s));
        let at_earth = match destination {
            None => true,
            Some(i) => i == earth_index,
        };
        let crew = self.ships[si].crew;
        let delivered: u32 = if !at_earth && colony_at_destination { crew } else { 0 };
        self.ships[si].crew = crew - delivered;
        self.ships[si].location = destination;
        self.ships[si].origin = None;
        let goes_on = match ri_opt {
            Some(ri) => self.routes[ri].legs.len() > 0 && leg < self.routes[ri].legs.len() - 1,
            None => false,
        };
        assert(goes_on == has_next_leg(routes0, s));
        if goes_on {
            self.ships[si].current_leg = leg + 1;
            self.ships[si].origin = destination;
            proof {
                assert(self.ships@ =~= ships0.update(si as int, TradeShip {
                    current_leg: (s.current_leg + 1) as usize,
                    origin: destination,
                    ..TradeShip { location: destination, origin: None, crew: (s.crew - delivered) as u32, ..s }
                }));
                assert forall|x: int| 0 <= x < self.ships@.len() implies #[trigger] self.ships@[x].id == ships0[x].id by {}
            }
            return Arrival::LegDone { destination, at_earth, crew_delivered: delivered, next_leg: leg + 1 };
        }
        match ri_opt {
            Some(ri) => {
                self.routes[ri].assigned_ship_id = None;
            },
            None => {},
        }
        proof {
            assert(self.routes@ =~= released_route(routes0, s));
            assert forall|x: int| 0 <= x < self.routes@.len() implies #[trigger] self.routes@[x].id == routes0[x].id by {}
        }
        let ghost landed_ships = self.ships@;
        let ship = self.ships.remove(si);
        proof {
            assert(self.ships@ =~= ships0.remove(si as int));
            let after = self.ships@;
            assert forall|x: int, y: int| 0 <= x < y < after.len() implies (#[trigger] after[x]).id != (#[trigger] after[y]).id by {
                let a = if x < si { x } else { x + 1 };
                let b = if y < si { y } else { y + 1 };
                assert(after[x] == ships0[a]);
                assert(after[y] == ships0[b]);
            }
            assert forall|x: int| 0 <= x < after.len() implies (#[trigger] after[x]).id < self.next_ship_id by {
                let a = if x < si { x } else { x + 1 };
                assert(after[x] == ships0[a]);
            }
        }
        Arrival::RouteDone { ship, destination, at_earth, crew_delivered: delivered }
    }
}

/// Whether the ship assigned to `route` is a ship of `ships` that is in transit.
pub open spec fn route_busy(ships: Seq<TradeShip>, route: TradeRoute) -> bool {
    match route.assigned_ship_id {
        Some(sid) => match ship_index(ships, sid) {
            Some(si) => ships[si].state == TradeShipState::InTransit,
            None => false,
        },
        None => false,
    }
}

impl FleetManager {
    /// Whether a ship assigned to `route` is still under way, so that the
    /// route cannot launch another.
    pub fn has_ship_in_transit(&self, route: &TradeRoute) -> (r: bool)
        ensures
            r == route_busy(self.ships@, *route),
    {
        match route.assigned_ship_id {
            Some(sid) => match self.ship_position(sid) {
                Some(si) => {
                    assert(ship_index(self.ships@, sid) == Some(si as int));
                    self.ships[si].state == TradeShipState::InTransit
                },
                None => false,
            },
            None => false,
        }
    }

    /// Put an alert on route `route_id` for `reason`. Returns whether the player
    /// is to be told, which is only when the route had no alert before; with no
    /// such route nothing changes and nobody is told.
    pub fn raise_alert(&mut self, route_id: TradeRouteId, reason: String) -> (notify: bool)
        requires
            old(self).wf(),
        ensures
            final(self).wf(),
            match route_index(old(self).routes@, route_id) {
                Some(ri) => {
                    &&& notify == old(self).routes@[ri].alert_reason is None
                    &&& final(self).routes@ == old(self).routes@.update(ri,
                        TradeRoute { alert_reason: Some(reason), ..old(self).routes@[ri] })
                },
                None => !notify && final(self).routes@ == old(self).routes@,
            },
            final(self).ships@ == old(self).ships@,
            final(self).next_ship_id == old(self).next_ship_id,
            final(self).next_route_id == old(self).next_route_id,
            final(self).earth_stored_ships@ == old(self).earth_stored_ships@,
            final(self).next_earth_ship_id == old(self).next_earth_ship_id,
    {
        match self.route_position(route_id) {
            Some(ri) => {
                let ghost routes0 = self.routes@;
                let had_alert = self.routes[ri].alert_reason.is_some();
                self.routes[ri].alert_reason = Some(reason);
                proof {
                    assert forall|x: int| 0 <= x < self.routes@.len() implies #[trigger] self.routes@[x].id == routes0[x].id by {}
                }
                !had_alert
            },
            None => false,
        }
    }

    /// Take the alert off route `route_id` after a launch went through.
    pub fn clear_alert(&mut self, route_id: TradeRouteId)
        requires
            old(self).wf(),
        ensures
            final(self).wf(),
            match route_index(old(self).routes@, route_id) {
                Some(ri) => final(self).routes@ == old(self).routes@.update(ri,
                    TradeRoute { alert_reason: None, ..old(self).routes@[ri] }),
                None => final(self).routes@ == old(self).routes@,
            },
            final(self).ships@ == old(self).ships@,
            final(self).next_ship_id == old(self).next_ship_id,
            final(self).next_route_id == old(self).next_route_id,
            final(self).earth_stored_ships@ == old(self).earth_stored_ships@,
            final(self).next_earth_ship_id == old(self).next_earth_ship_id,
    {
        match self.route_position(route_id) {
            Some(ri) => {
                let ghost routes0 = self.routes@;
                self.routes[ri].alert_reason = None;
                proof {
                    assert forall|x: int| 0 <= x < self.routes@.len() implies #[trigger] self.routes@[x].id == routes0[x].id by {}
                }
            },
            None => {},
        }
    }

    /// Take every stationed ship out of the fleet, in fleet order, leaving the
    /// ships in transit; the stationed ones go to a hangar or are broken up.
    pub fn take_stationed_ships(&mut self) -> (r: Vec<TradeShip>)
        requires
            old(self).wf(),
        ensures
            final(self).wf(),
            r@ == old(self).ships@.filter(|s: TradeShip| s.state == TradeShipState::Stationed),
            final(self).ships@ == old(self).ships@.filter(|s: TradeShip| s.state != TradeShipState::Stationed),
            final(self).routes@ == old(self).routes@,
            final(self).next_ship_id == old(self).next_ship_id,
            final(self).next_route_id == old(self).next_route_id,
            final(self).earth_stored_ships@ == old(self).earth_stored_ships@,
            final(self).next_earth_ship_id == old(self).next_earth_ship_id,
    {
        let ghost stationed = |s: TradeShip| s.state == TradeShipState::Stationed;
        let ghost moving = |s: TradeShip| s.state != TradeShipState::Stationed;
        let ghost orig = self.ships@;
        let mut rest: Vec<TradeShip> = Vec::new();
        std::mem::swap(&mut rest, &mut self.ships);
        let mut taken: Vec<TradeShip> = Vec::new();
        let n = rest.len();
        let mut k: usize = 0;
        proof {
            reveal_with_fuel(Seq::filter, 1);
            assert(orig.take(0) =~= Seq::<TradeShip>::empty());
            assert(orig.skip(0) =~= orig);
        }
        while k < n
            invariant
                n == orig.len(),
                0 <= k <= n,
                orig == old(self).ships@,
                rest@ == orig.skip(k as int),
                forall|s: TradeShip| #[trigger] stationed(s) == (s.state == TradeShipState::Stationed),
                forall|s: TradeShip| #[trigger] moving(s) == (s.state != TradeShipState::Stationed),
                self.ships@ == orig.take(k as int).filter(moving),
                taken@ == orig.take(k as int).filter(stationed),
                self.routes@ == old(self).routes@,
                self.next_ship_id == old(self).next_ship_id,
                self.next_route_id == old(self).next_route_id,
                self.earth_stored_ships@ == old(self).earth_stored_ships@,
                self.next_earth_ship_id == old(self).next_earth_ship_id,
            decreases n - k,
        {
            let s = rest.remove(0);
            proof {
                assert(s == orig[k as int]);
                assert(rest@ =~= orig.skip(k + 1));
                assert(orig.take(k + 1) =~= orig.take(k as int).push(s));
                orig.take(k as int).lemma_filter_push(s, moving);
                orig.take(k as int).lemma_filter_push(s, stationed);
            }
            if s.state == TradeShipState::Stationed {
                taken.push(s);
            } else {
                self.ships.push(s);
            }
            k += 1;
        }
        proof {
            assert(orig.take(n as int) =~= orig);
            assert((|s: TradeShip| s.state != TradeShipState::Stationed) =~= moving);
            assert((|s: TradeShip| s.state == TradeShipState::Stationed) =~= stationed);
            lemma_filter_keeps_ship_ids(orig, moving, self.next_ship_id);
        }
        taken
    }
}

/// Whether the numbers of `ids` are distinct and all below `bound`.
fn distinct_below(ids: &Vec<u64>, bound: u64) -> (r: bool)
    ensures
        r == ((forall|i: int, j: int| 0 <= i < j < ids@.len() ==> ids@[i] != ids@[j])
            && (forall|i: int| 0 <= i < ids@.len() ==> ids@[i] < bound)),
{
    let n = ids.len();
    let mut i: usize = 0;
    while i < n
        invariant
            n == ids@.len(),
            0 <= i <= n,
            forall|a: int, b: int| 0 <= a < b < n && a < i ==> ids@[a] != ids@[b],
            forall|a: int| 0 <= a < i ==> ids@[a] < bound,
        decreases n - i,
    {
        if ids[i] >= bound {
            return false;
        }
        let mut j: usize = i + 1;
        while j < n
            invariant
                n == ids@.len(),
                i < n,
                i + 1 <= j <= n,
                forall|b: int| i < b < j ==> ids@[i as int] != ids@[b],
            decreases n - j,
        {
            if ids[i] == ids[j] {
                return false;
            }
            j += 1;
        }
        i += 1;
    }
    true
}

impl FleetManager {
    /// Whether the ids are consistent (see `wf`), e.g. for a fleet restored from a save.
    pub fn is_well_formed(&self) -> (r: bool)
        ensures
            r == self.wf(),
    {
        let mut ship_ids: Vec<u64> = Vec::new();
        let mut i: usize = 0;
        while i < self.ships.len()
            invariant
                0 <= i <= self.ships@.len(),
                ship_ids@.len() == i,
                forall|k: int| #![trigger ship_ids@[k]] #![trigger self.ships@[k]] 0 <= k < i ==> ship_ids@[k] == self.ships@[k].id,
            decreases self.ships@.len() - i,
        {
            ship_ids.push(self.ships[i].id);
            i += 1;
        }
        let mut route_ids: Vec<u64> = Vec::new();
        let mut i: usize = 0;
        while i < self.routes.len()
            invariant
                0 <= i <= self.routes@.len(),
                route_ids@.len() == i,
                forall|k: int| #![trigger route_ids@[k]] #![trigger self.routes@[k]] 0 <= k < i ==> route_ids@[k] == self.routes@[k].id,
            decreases self.routes@.len() - i,
        {
            route_ids.push(self.routes[i].id);
            i += 1;
        }
        let mut stored_ids: Vec<u64> = Vec::new();
        let mut i: usize = 0;
        while i < self.earth_stored_ships.len()
            invariant
                0 <= i <= self.earth_stored_ships@.len(),
                stored_ids@.len() == i,
                forall|k: int| #![trigger stored_ids@[k]] #![trigger self.earth_stored_ships@[k]] 0 <= k < i ==> stored_ids@[k] == self.earth_stored_ships@[k].id,
            decreases self.earth_stored_ships@.len() - i,
        {
            stored_ids.push(self.earth_stored_ships[i].id);
            i += 1;
        }
        let a = distinct_below(&ship_ids, self.next_ship_id);
        let b = distinct_below(&route_ids, self.next_route_id);
        let c = distinct_below(&stored_ids, self.next_earth_ship_id);
        proof {
            assert(a == ship_ids_ok(self.ships@, self.next_ship_id)) by {
                if !ship_ids_ok(self.ships@, self.next_ship_id) {
                    if !(forall|i: int| 0 <= i < self.ships@.len() ==> (#[trigger] self.ships@[i]).id < self.next_ship_id) {
                        let i = choose|i: int| 0 <= i < self.ships@.len() && !((#[trigger] self.ships@[i]).id < self.next_ship_id);
                        assert(ship_ids@[i] == self.ships@[i].id);
                    } else {
                        let (i, j) = choose|i: int, j: int| 0 <= i < j < self.ships@.len() && (#[trigger] self.ships@[i]).id == (#[trigger] self.ships@[j]).id;
                        assert(ship_ids@[i] == self.ships@[i].id && ship_ids@[j] == self.ships@[j].id);
                    }
                }
            }
            assert(b == route_ids_ok(self.routes@, self.next_route_id)) by {
                if !route_ids_ok(self.routes@, self.next_route_id) {
                    if !(forall|i: int| 0 <= i < self.routes@.len() ==> (#[trigger] self.routes@[i]).id < self.next_route_id) {
                        let i = choose|i: int| 0 <= i < self.routes@.len() && !((#[trigger] self.routes@[i]).id < self.next_route_id);
                        assert(route_ids@[i] == self.routes@[i].id);
                    } else {
                        let (i, j) = choose|i: int, j: int| 0 <= i < j < self.routes@.len() && (#[trigger] self.routes@[i]).id == (#[trigger] self.routes@[j]).id;
                        assert(route_ids@[i] == self.routes@[i].id && route_ids@[j] == self.routes@[j].id);
                    }
                }
            }
            assert(c == stored_ids_ok(self.earth_stored_ships@, self.next_earth_ship_id)) by {
                if !stored_ids_ok(self.earth_stored_ships@, self.next_earth_ship_id) {
                    if !(forall|i: int| 0 <= i < self.earth_stored_ships@.len() ==> (#[trigger] self.earth_stored_ships@[i]).id < self.next_earth_ship_id) {
                        let i = choose|i: int| 0 <= i < self.earth_stored_ships@.len() && !((#[trigger] self.earth_stored_ships@[i]).id < self.next_earth_ship_id);
                        assert(stored_ids@[i] == self.earth_stored_ships@[i].id);
                    } else {
                        let (i, j) = choose|i: int, j: int| 0 <= i < j < self.earth_stored_ships@.len() && (#[trigger] self.earth_stored_ships@[i]).id == (#[trigger] self.earth_stored_ships@[j]).id;
                        assert(stored_ids@[i] == self.earth_stored_ships@[i].id && stored_ids@[j] == self.earth_stored_ships@[j].id);
                    }
                }
            }
        }
        a && b && c
    }
}

/// What automation does with a route on one pass.
#[derive(Debug, Clone, Copy, PartialEq, Eq, Structural)]
pub enum AutomationStep {
    /// Nothing this pass: no such route, paused, manual, not due, or its ship is still under way.
    Skip,
    /// Launch the ship with this id from Earth's hangar.
    TakeEarthShip(StoredShipId),
    /// Build a new ship on Earth and launch it.
    BuildOnEarth,
    /// Launch the ship with this id from the source colony's hangar.
    TakeColonyShip(StoredShipId),
    /// Queue the construction of a ship at the source colony, and launch later.
    QueueConstruction,
    /// A ship is already under construction at the source colony; launch later.
    WaitForConstruction,
    /// No ship in the colony hangar and none to be built: raise an alert.
    AlertNoShip,
}

/// The body a route starts from (`None` for Earth, also for a route without legs).
pub open spec fn route_start(r: TradeRoute) -> Option<usize> {
    if r.legs@.len() > 0 {
        r.legs@[0].from_body
    } else {
        None
    }
}

/// What automation does with route `route_id` on one pass. `due` says whether
/// the route's schedule (transfer window, interval or delta-v threshold) calls
/// for a launch now; `colony_match` is the first ship in the source colony's
/// hangar built from the route's blueprint; `construction_queued` says whether
/// such a ship is already queued for construction there.
pub open spec fn spec_automation_step(
    ships: Seq<TradeShip>,
    routes: Seq<TradeRoute>,
    earth_ships: Seq<StoredShip>,
    route_id: TradeRouteId,
    due: bool,
    earth_index: usize,
    colony_match: Option<StoredShipId>,
    construction_queued: bool,
) -> AutomationStep {
    match route_index(routes, route_id) {
        None => AutomationStep::Skip,
        Some(ri) => {
            let r = routes[ri];
            if r.paused || route_busy(ships, r) || r.automation == AutomationMode::Manual || !due {
                AutomationStep::Skip
            } else if at_earth_body(route_start(r), earth_index) {
                match first_built_from(earth_ships, r.blueprint_name@) {
                    Some(i) => AutomationStep::TakeEarthShip(earth_ships[i].id),
                    None => AutomationStep::BuildOnEarth,
                }
            } else {
                match colony_match {
                    Some(id) => AutomationStep::TakeColonyShip(id),
                    None => if !r.auto_build_ships {
                        AutomationStep::AlertNoShip
                    } else if construction_queued {
                        AutomationStep::WaitForConstruction
                    } else {
                        AutomationStep::QueueConstruction
                    },
                }
            }
        },
    }
}

/// The route after an automated launch attempt: the ship is assigned to it, and
/// it carries the failure's reason as its alert, or no alert on success.
pub open spec fn settled_route(r: TradeRoute, ship_id: TradeShipId, outcome: Result<(), String>) -> TradeRoute {
    TradeRoute {
        assigned_ship_id: Some(ship_id),
        alert_reason: match outcome {
            Ok(_) => None,
            Err(reason) => Some(reason),
        },
        ..r
    }
}

/// What becomes of a ship that reached the end of its route (or is taken out
/// of service where it stands).
#[derive(Debug, Clone, Copy, PartialEq, Eq, Structural)]
pub enum ShipFate {
    /// Kept in Earth's hangar.
    StoreAtEarth,
    /// Broken up on Earth and its materials sold.
    SellForScrap,
    /// Kept in the destination colony's hangar.
    StoreInColonyHangar,
    /// Broken up into materials at the destination colony.
    ScrapIntoResources,
    /// Nothing is kept: no blueprint to store it by, or no colony to take it.
    Lost,
}

/// What becomes of a ship at its destination: at Earth it is stored, or sold
/// for scrap when it dropped stages on the way; at a colony it is stored when
/// the hangar has room (`hangar_fits`), else broken up into materials, and
/// broken up anyway when it dropped stages. A ship needs a known blueprint to
/// be stored or broken up at a colony, and a colony to go to.
pub open spec fn spec_ship_fate(at_earth: bool, stages_jettisoned: bool, blueprint_known: bool, colony_present: bool, hangar_fits: bool) -> ShipFate {
    if at_earth {
        if stages_jettisoned {
            ShipFate::SellForScrap
        } else if blueprint_known {
            ShipFate::StoreAtEarth
        } else {
            ShipFate::Lost
        }
    } else if !blueprint_known || !colony_present {
        ShipFate::Lost
    } else if !stages_jettisoned && hangar_fits {
        ShipFate::StoreInColonyHangar
    } else {
        ShipFate::ScrapIntoResources
    }
}

/// What becomes of a ship at its destination (see `spec_ship_fate`).
pub fn ship_fate(at_earth: bool, stages_jettisoned: bool, blueprint_known: bool, colony_present: bool, hangar_fits: bool) -> (r: ShipFate)
    ensures
        r == spec_ship_fate(at_earth, stages_jettisoned, blueprint_known, colony_present, hangar_fits),
{
    if at_earth {
        if stages_jettisoned {
            ShipFate::SellForScrap
        } else if blueprint_known {
            ShipFate::StoreAtEarth
        } else {
            ShipFate::Lost
        }
    } else if !blueprint_known || !colony_present {
        ShipFate::Lost
    } else if !stages_jettisoned && hangar_fits {
        ShipFate::StoreInColonyHangar
    } else {
        ShipFate::ScrapIntoResources
    }
}

/// The name of a ship that automation builds for a route: the route's name,
/// " #" and the day number.
pub fn automation_ship_name(route_name: &str, day: u64) -> (r: String)
    ensures
        r@ == route_name@ + " #"@ + decimal(day as nat),
{
    let n = join_str(route_name, " #");
    join_str(n.as_str(), u64_to_decimal(day).as_str())
}

impl FleetManager {
    /// What automation does with route `route_id` on this pass (see
    /// `spec_automation_step`).
    pub fn automation_step(
        &self,
        route_id: TradeRouteId,
        due: bool,
        earth_index: usize,
        colony_match: Option<StoredShipId>,
        construction_queued: bool,
    ) -> (r: AutomationStep)
        requires
            self.wf(),
        ensures
            r == spec_automation_step(self.ships@, self.routes@, self.earth_stored_ships@, route_id, due,
                earth_index, colony_match, construction_queued),
    {
        let ri = match self.route_position(route_id) {
            Some(ri) => ri,
            None => return AutomationStep::Skip,
        };
        assert(route_index(self.routes@, route_id) == Some(ri as int));
        let route = &self.routes[ri];
        if route.paused || self.has_ship_in_transit(route) || route.automation == AutomationMode::Manual || !due {
            return AutomationStep::Skip;
        }
        let source = Self::route_source(route);
        let at_earth = match source {
            None => true,
            Some(i) => i == earth_index,
        };
        if at_earth {
            match self.find_earth_ship(route.blueprint_name.as_str()) {
                Some(id) => AutomationStep::TakeEarthShip(id),
                None => AutomationStep::BuildOnEarth,
            }
        } else {
            match colony_match {
                Some(id) => AutomationStep::TakeColonyShip(id),
                None => if !route.auto_build_ships {
                    AutomationStep::AlertNoShip
                } else if construction_queued {
                    AutomationStep::WaitForConstruction
                } else {
                    AutomationStep::QueueConstruction
                },
            }
        }
    }

    /// Put a ship taken from a hangar into service at `location`, under the
    /// next ship id, with the stored ship's name and blueprint name (empty for
    /// a ship recovered without one).
    pub fn ship_from_hangar(&mut self, stored: StoredShip, location: Option<usize>) -> (r: TradeShipId)
        requires
            old(self).wf(),
            old(self).next_ship_id < u64::MAX,
        ensures
            final(self).wf(),
            r == old(self).next_ship_id,
            final(self).next_ship_id == old(self).next_ship_id + 1,
            final(self).ships@.drop_last() == old(self).ships@,
            final(self).ships@.len() == old(self).ships@.len() + 1,
            ({
                let s = final(self).ships@.last();
                &&& s.id == r
                &&& s.name == stored.name
                &&& s.blueprint_name@ == match stored.blueprint_name {
                    Some(b) => b@,
                    None => Seq::<char>::empty(),
                }
                &&& s.state == TradeShipState::Stationed
                &&& s.location == location
                &&& s.origin is None
                &&& s.crew == 0
                &&& s.current_leg == 0
                &&& !s.returning
                &&& s.assigned_route is None
                &&& !s.stages_jettisoned
            }),
            final(self).routes@ == old(self).routes@,
            final(self).next_route_id == old(self).next_route_id,
            final(self).earth_stored_ships@ == old(self).earth_stored_ships@,
            final(self).next_earth_ship_id == old(self).next_earth_ship_id,
    {
        let blueprint = match stored.blueprint_name {
            Some(b) => b,
            None => String::new(),
        };
        self.create_ship(stored.name, blueprint, location)
    }

    /// Settle an automated launch attempt of ship `ship_id` on route
    /// `route_id`: the two are assigned to each other, and the route's alert
    /// becomes the failure's reason, or is cleared on success. Returns whether
    /// the player is to be told, which is exactly when the launch failed and
    /// the route had no alert before.
    #[verifier::spinoff_prover]
    #[verifier::rlimit(40)]
    pub fn settle_launch(&mut self, route_id: TradeRouteId, ship_id: TradeShipId, outcome: Result<(), String>) -> (notify: bool)
        requires
            old(self).wf(),
        ensures
            final(self).wf(),
            final(self).routes@ == match route_index(old(self).routes@, route_id) {
                Some(ri) => old(self).routes@.update(ri, settled_route(old(self).routes@[ri], ship_id, outcome)),
                None => old(self).routes@,
            },
            final(self).ships@ == match ship_index(old(self).ships@, ship_id) {
                Some(si) => old(self).ships@.update(si, TradeShip { assigned_route: Some(route_id), ..old(self).ships@[si] }),
                None => old(self).ships@,
            },
            notify == match route_index(old(self).routes@, route_id) {
                Some(ri) => outcome is Err && old(self).routes@[ri].alert_reason is None,
                None => false,
            },
            final(self).next_ship_id == old(self).next_ship_id,
            final(self).next_route_id == old(self).next_route_id,
            final(self).earth_stored_ships@ == old(self).earth_stored_ships@,
            final(self).next_earth_ship_id == old(self).next_earth_ship_id,
    {
        let ghost ships0 = self.ships@;
        let ghost routes0 = self.routes@;
        let failed = outcome.is_err();
        let mut notify = false;
        match self.route_position(route_id) {
            Some(ri) => {
                assert(route_index(routes0, route_id) == Some(ri as int));
                notify = failed && self.routes[ri].alert_reason.is_none();
                self.routes[ri].assigned_ship_id = Some(ship_id);
                self.routes[ri].alert_reason = match outcome {
                    Ok(_) => None,
                    Err(reason) => Some(reason),
                };
                proof {
                    assert(self.routes@ =~= routes0.update(ri as int, settled_route(routes0[ri as int], ship_id, outcome)));
                    assert forall|x: int| 0 <= x < self.routes@.len() implies #[trigger] self.routes@[x].id == routes0[x].id by {}
                }
            },
            None => {},
        }
        match self.ship_position(ship_id) {
            Some(si) => {
                assert(ship_index(ships0, ship_id) == Some(si as int));
                self.ships[si].assigned_route = Some(route_id);
                proof {
                    assert(self.ships@ =~= ships0.update(si as int, TradeShip { assigned_route: Some(route_id), ..ships0[si as int] }));
                    assert forall|x: int| 0 <= x < self.ships@.len() implies #[trigger] self.ships@[x].id == ships0[x].id by {}
                }
            },
            None => {},
        }
        notify
    }
}

impl FleetManager {
    /// Where ship `ship_id` is headed (see `arrival_destination`), or `None`
    /// when there is no such ship.
    pub fn destination_of(&self, ship_id: TradeShipId) -> (r: Option<Option<usize>>)
        ensures
            r == match ship_index(self.ships@, ship_id) {
                Some(si) => Some(arrival_destination(self.routes@, self.ships@[si])),
                None => None,
            },
    {
        let si = match self.ship_position(ship_id) {
            Some(si) => si,
            None => return None,
        };
        assert(ship_index(self.ships@, ship_id) == Some(si as int));
        let ship = &self.ships[si];
        let ri_opt = match ship.assigned_route {
            Some(rid) => self.route_position(rid),
            None => None,
        };
        match ri_opt {
            Some(ri) => {
                let leg = ship.current_leg;
                if leg < self.routes[ri].legs.len() {
                    Some(self.routes[ri].legs[leg].to_body)
                } else {
                    Some(None)
                }
            },
            None => Some(ship.origin),
        }
    }
}

/// Filtering keeps ship ids distinct and below the bound.
pub proof fn lemma_filter_keeps_ship_ids(s: Seq<TradeShip>, p: spec_fn(TradeShip) -> bool, bound: u64)
    requires
        ship_ids_ok(s, bound),
    ensures
        ship_ids_ok(s.filter(p), bound),
        forall|x: TradeShip| s.filter(p).contains(x) ==> s.contains(x),
    decreases s.len(),
{
    if s.len() > 0 {
        let init = s.drop_last();
        let last = s.last();
        assert(s =~= init.push(last));
        init.lemma_filter_push(last, p);
        assert(ship_ids_ok(init, bound)) by {
            assert forall|i: int, j: int| 0 <= i < j < init.len() implies (#[trigger] init[i]).id != (#[trigger] init[j]).id by {
                assert(init[i] == s[i]);
                assert(init[j] == s[j]);
            }
            assert forall|i: int| 0 <= i < init.len() implies (#[trigger] init[i]).id < bound by {
                assert(init[i] == s[i]);
            }
        }
        lemma_filter_keeps_ship_ids(init, p, bound);
        let f = init.filter(p);
        assert forall|x: TradeShip| s.filter(p).contains(x) implies s.contains(x) by {
            let k = s.filter(p).index_of(x);
            if p(last) && k == f.len() {
                assert(s[s.len() - 1] == x);
            } else {
                assert(f[k] == x);
                assert(f.contains(x));
                assert(init.contains(x));
                let j = choose|j: int| 0 <= j < init.len() && init[j] == x;
                assert(s[j] == x);
            }
        }
        if p(last) {
            let g = f.push(last);
            assert forall|i: int, j: int| 0 <= i < j < g.len() implies (#[trigger] g[i]).id != (#[trigger] g[j]).id by {
                assert(g[i] == f[i]);
                if j == f.len() {
                    assert(f.contains(f[i]));
                    assert(init.contains(f[i]));
                    let k = choose|k: int| 0 <= k < init.len() && init[k] == f[i];
                    assert(s[k] == f[i]);
                } else {
                    assert(g[j] == f[j]);
                }
            }
            assert forall|i: int| 0 <= i < g.len() implies (#[trigger] g[i]).id < bound by {
                if i < f.len() {
                    assert(g[i] == f[i]);
                }
            }
        }
    }
}

/// Filtering keeps route ids distinct and below the bound.
pub proof fn lemma_filter_keeps_route_ids(s: Seq<TradeRoute>, p: spec_fn(TradeRoute) -> bool, bound: u64)
    requires
        route_ids_ok(s, bound),
    ensures
        route_ids_ok(s.filter(p), bound),
        forall|x: TradeRoute| s.filter(p).contains(x) ==> s.contains(x),
    decreases s.len(),
{
    if s.len() > 0 {
        let init = s.drop_last();
        let last = s.last();
        assert(s =~= init.push(last));
        init.lemma_filter_push(last, p);
        assert(route_ids_ok(init, bound)) by {
            assert forall|i: int, j: int| 0 <= i < j < init.len() implies (#[trigger] init[i]).id != (#[trigger] init[j]).id by {
                assert(init[i] == s[i]);
                assert(init[j] == s[j]);
            }
            assert forall|i: int| 0 <= i < init.len() implies (#[trigger] init[i]).id < bound by {
                assert(init[i] == s[i]);
            }
        }
        lemma_filter_keeps_route_ids(init, p, bound);
        let f = init.filter(p);
        assert forall|x: TradeRoute| s.filter(p).contains(x) implies s.contains(x) by {
            let k = s.filter(p).index_of(x);
            if p(last) && k == f.len() {
                assert(s[s.len() - 1] == x);
            } else {
                assert(f[k] == x);
                assert(f.contains(x));
                assert(init.contains(x));
                let j = choose|j: int| 0 <= j < init.len() && init[j] == x;
                assert(s[j] == x);
            }
        }
        if p(last) {
            let g = f.push(last);
            assert forall|i: int, j: int| 0 <= i < j < g.len() implies (#[trigger] g[i]).id != (#[trigger] g[j]).id by {
                assert(g[i] == f[i]);
                if j == f.len() {
                    assert(f.contains(f[i]));
                    assert(init.contains(f[i]));
                    let k = choose|k: int| 0 <= k < init.len() && init[k] == f[i];
                    assert(s[k] == f[i]);
                } else {
                    assert(g[j] == f[j]);
                }
            }
            assert forall|i: int| 0 <= i < g.len() implies (#[trigger] g[i]).id < bound by {
                if i < f.len() {
                    assert(g[i] == f[i]);
                }
            }
        }
    }
}


/// After a route is deleted, no ship is assigned to it any more.
pub proof fn law_deleted_route_has_no_ships(before: Seq<TradeShip>, after: Seq<TradeShip>, id: TradeRouteId)
    requires
        after.len() == before.len(),
        forall|i: int| 0 <= i < before.len() ==> unassigned_from_route(before[i], #[trigger] after[i], id),
    ensures
        forall|i: int| 0 <= i < after.len() ==> (#[trigger] after[i]).assigned_route != Some(id),
{
    assert forall|i: int| 0 <= i < after.len() implies (#[trigger] after[i]).assigned_route != Some(id) by {
        assert(unassigned_from_route(before[i], after[i], id));
    }
}

/// After a ship is deleted, no route is assigned to it any more.
pub proof fn law_deleted_ship_has_no_routes(before: Seq<TradeRoute>, after: Seq<TradeRoute>, id: TradeShipId)
    requires
        after.len() == before.len(),
        forall|i: int| 0 <= i < before.len() ==> unassigned_from_ship(before[i], #[trigger] after[i], id),
    ensures
        forall|i: int| 0 <= i < after.len() ==> (#[trigger] after[i]).assigned_ship_id != Some(id),
{
    assert forall|i: int| 0 <= i < after.len() implies (#[trigger] after[i]).assigned_ship_id != Some(id) by {
        assert(unassigned_from_ship(before[i], after[i], id));
    }
}

/// A newly created ship is found by its id: ids below the next id are taken, so
/// the new ship is the only one with its id.
pub proof fn law_created_ship_is_found(ships: Seq<TradeShip>, next_id: u64, created: TradeShip)
    requires
        ship_ids_ok(ships, next_id),
        created.id == next_id,
    ensures
        ship_index(ships.push(created), next_id) == Some(ships.len() as int),
{
    let s = ships.push(created);
    assert(s[ships.len() as int].id == next_id);
    let k = choose|k: int| 0 <= k < s.len() && s[k].id == next_id && forall|j: int| 0 <= j < k ==> (#[trigger] s[j]).id != next_id;
    if k < ships.len() {
        assert(s[k] == ships[k]);
    }
}

/// A ship stored under the next id is found by that id.
pub proof fn law_stored_ship_is_found(ships: Seq<StoredShip>, next_id: u64, stored: StoredShip)
    requires
        stored_ids_ok(ships, next_id),
        stored.id == next_id,
    ensures
        stored_index(ships.push(stored), next_id) == Some(ships.len() as int),
{
    let s = ships.push(stored);
    assert(s[ships.len() as int].id == next_id);
    let k = choose|k: int| 0 <= k < s.len() && s[k].id == next_id && forall|j: int| 0 <= j < k ==> (#[trigger] s[j]).id != next_id;
    if k < ships.len() {
        assert(s[k] == ships[k]);
    }
}

/// What `ship_index` gives: the first position holding the id, or `None` when no
/// position does.
pub proof fn lemma_ship_index(s: Seq<TradeShip>, id: u64)
    ensures
        match ship_index(s, id) {
            Some(i) => 0 <= i < s.len() && s[i].id == id && forall|j: int| 0 <= j < i ==> (#[trigger] s[j]).id != id,
            None => forall|j: int| 0 <= j < s.len() ==> (#[trigger] s[j]).id != id,
        },
{
    if exists|i: int| 0 <= i < s.len() && (#[trigger] s[i]).id == id {
        let k = choose|i: int| 0 <= i < s.len() && (#[trigger] s[i]).id == id;
        lemma_first_ship_exists(s, id, k);
    }
}

/// Below any position holding `id` lies a first one.
proof fn lemma_first_ship_exists(s: Seq<TradeShip>, id: u64, k: int)
    requires
        0 <= k < s.len(),
        s[k].id == id,
    ensures
        exists|i: int| 0 <= i < s.len() && s[i].id == id && forall|j: int| 0 <= j < i ==> (#[trigger] s[j]).id != id,
    decreases k,
{
    if exists|j: int| 0 <= j < k && (#[trigger] s[j]).id == id {
        let j = choose|j: int| 0 <= j < k && (#[trigger] s[j]).id == id;
        lemma_first_ship_exists(s, id, j);
    } else {
        assert(forall|j: int| 0 <= j < k ==> (#[trigger] s[j]).id != id);
    }
}

/// Below any position holding `id` lies a first one.
proof fn lemma_first_route_exists(s: Seq<TradeRoute>, id: u64, k: int)
    requires
        0 <= k < s.len(),
        s[k].id == id,
    ensures
        exists|i: int| 0 <= i < s.len() && s[i].id == id && forall|j: int| 0 <= j < i ==> (#[trigger] s[j]).id != id,
    decreases k,
{
    if exists|j: int| 0 <= j < k && (#[trigger] s[j]).id == id {
        let j = choose|j: int| 0 <= j < k && (#[trigger] s[j]).id == id;
        lemma_first_route_exists(s, id, j);
    } else {
        assert(forall|j: int| 0 <= j < k ==> (#[trigger] s[j]).id != id);
    }
}

/// What `route_index` gives: the first position holding the id, or `None` when
/// no position does.
pub proof fn lemma_route_index(s: Seq<TradeRoute>, id: u64)
    ensures
        match route_index(s, id) {
            Some(i) => 0 <= i < s.len() && s[i].id == id && forall|j: int| 0 <= j < i ==> (#[trigger] s[j]).id != id,
            None => forall|j: int| 0 <= j < s.len() ==> (#[trigger] s[j]).id != id,
        },
{
    if exists|i: int| 0 <= i < s.len() && (#[trigger] s[i]).id == id {
        let k = choose|i: int| 0 <= i < s.len() && (#[trigger] s[i]).id == id;
        lemma_first_route_exists(s, id, k);
    }
}

/// A route that has just launched a ship is busy: the ship it records is in
/// transit, so automation does not launch on it again until the ship arrives.
pub proof fn law_launched_route_is_busy(ships: Seq<TradeShip>, routes: Seq<TradeRoute>, ship_id: TradeShipId, route_id: TradeRouteId)
    requires
        launch_check(ships, routes, ship_id, route_id, true) is Ok,
    ensures
        ({
            let si = ship_index(ships, ship_id).unwrap();
            let ri = route_index(routes, route_id).unwrap();
            let ships2 = ships.update(si, launched(ships[si], routes[ri]));
            let routes2 = routes.update(ri, TradeRoute { assigned_ship_id: Some(ship_id), ..routes[ri] });
            route_busy(ships2, routes2[ri])
        }),
{
    lemma_ship_index(ships, ship_id);
    lemma_route_index(routes, route_id);
    let si = ship_index(ships, ship_id).unwrap();
    let ri = route_index(routes, route_id).unwrap();
    let ships2 = ships.update(si, launched(ships[si], routes[ri]));
    lemma_ship_index(ships2, ship_id);
    assert forall|j: int| 0 <= j < si implies (#[trigger] ships2[j]).id != ship_id by {
        assert(ships2[j] == ships[j]);
    }
    assert(ships2[si].id == ship_id);
}

/// A ship that reached the end of its route is no longer in the fleet: ship ids
/// are distinct, so once it is removed no ship carries its id.
pub proof fn law_arrived_ship_leaves_fleet(ships: Seq<TradeShip>, next_id: u64, ship_id: TradeShipId)
    requires
        ship_ids_ok(ships, next_id),
        ship_index(ships, ship_id) is Some,
    ensures
        ship_index(ships.remove(ship_index(ships, ship_id).unwrap()), ship_id) is None,
{
    lemma_ship_index(ships, ship_id);
    let si = ship_index(ships, ship_id).unwrap();
    let after = ships.remove(si);
    assert forall|x: int| 0 <= x < after.len() implies (#[trigger] after[x]).id != ship_id by {
        let a = if x < si { x } else { x + 1 };
        assert(after[x] == ships[a]);
    }
}

/// Automation never launches a second ship on a route whose ship is still under
/// way, nor on a paused or manual route, nor before the route is due.
pub proof fn law_automation_waits_for_busy_routes(
    ships: Seq<TradeShip>,
    routes: Seq<TradeRoute>,
    earth_ships: Seq<StoredShip>,
    route_id: TradeRouteId,
    due: bool,
    earth_index: usize,
    colony_match: Option<StoredShipId>,
    construction_queued: bool,
)
    requires
        route_index(routes, route_id) matches Some(ri) && ({
            let r = routes[ri];
            route_busy(ships, r) || r.paused || r.automation == AutomationMode::Manual || !due
        }),
    ensures
        spec_automation_step(ships, routes, earth_ships, route_id, due, earth_index, colony_match, construction_queued)
            == AutomationStep::Skip,
{
}

/// Storing a ship under the next id and then removing that id gives the ship
/// back and leaves the hangar as it was before the store (the store being
/// `store_with_next_id`, the removal `remove_ship`).
pub proof fn law_stored_ship_comes_back(ships: Seq<StoredShip>, next_id: u64, stored: StoredShip)
    requires
        stored_ids_ok(ships, next_id),
        stored.id == next_id,
    ensures
        ({
            let after = ships.push(stored);
            &&& stored_index(after, next_id) == Some(ships.len() as int)
            &&& after[ships.len() as int] == stored
            &&& after.remove(ships.len() as int) == ships
        }),
{
    law_stored_ship_is_found(ships, next_id, stored);
    assert(ships.push(stored).remove(ships.len() as int) =~= ships);
}

/// What becomes of an arrived ship, by what is at hand where it lands:
/// - at a colony that is there, with a known blueprint, a ship that dropped
///   stages is always broken up into the colony's materials, whatever room the
///   hangar has;
/// - a ship is stored in a colony hangar only when it is whole, at a colony,
///   with a known blueprint and room in the hangar, and otherwise broken up
///   there;
/// - nothing is kept exactly when nobody can take it: at Earth a whole ship of
///   unknown blueprint, elsewhere an unknown blueprint or no colony;
/// - at Earth a ship that dropped stages is always sold for scrap, and a whole
///   one of known blueprint always stored.
pub proof fn law_ship_fate_by_circumstance(at_earth: bool, stages_jettisoned: bool, blueprint_known: bool, colony_present: bool, hangar_fits: bool)
    ensures
        !at_earth && stages_jettisoned && blueprint_known && colony_present ==>
            spec_ship_fate(at_earth, stages_jettisoned, blueprint_known, colony_present, hangar_fits) == ShipFate::ScrapIntoResources,
        (spec_ship_fate(at_earth, stages_jettisoned, blueprint_known, colony_present, hangar_fits) == ShipFate::StoreInColonyHangar)
            <==> (!at_earth && !stages_jettisoned && blueprint_known && colony_present && hangar_fits),
        (spec_ship_fate(at_earth, stages_jettisoned, blueprint_known, colony_present, hangar_fits) == ShipFate::ScrapIntoResources)
            <==> (!at_earth && blueprint_known && colony_present && (stages_jettisoned || !hangar_fits)),
        (spec_ship_fate(at_earth, stages_jettisoned, blueprint_known, colony_present, hangar_fits) == ShipFate::Lost)
            <==> (if at_earth { !stages_jettisoned && !blueprint_known } else { !blueprint_known || !colony_present }),
        at_earth && stages_jettisoned ==>
            spec_ship_fate(at_earth, stages_jettisoned, blueprint_known, colony_present, hangar_fits) == ShipFate::SellForScrap,
        (spec_ship_fate(at_earth, stages_jettisoned, blueprint_known, colony_present, hangar_fits) == ShipFate::StoreAtEarth)
            <==> (at_earth && !stages_jettisoned && blueprint_known),
{
}

/// A route that automation acts on (due, not paused, not manual, its ship not
/// under way) and that starts away from Earth takes the matching ship waiting
/// in the colony hangar whenever there is one, whether or not it builds ships
/// itself or one is under construction; it builds, waits for construction or
/// alerts only when no ship waits there. A route from Earth never takes a
/// colony ship nor queues colony construction.
pub proof fn law_automation_uses_waiting_colony_ship(
    ships: Seq<TradeShip>,
    routes: Seq<TradeRoute>,
    earth_ships: Seq<StoredShip>,
    route_id: TradeRouteId,
    earth_index: usize,
    colony_match: Option<StoredShipId>,
    construction_queued: bool,
)
    requires
        route_index(routes, route_id) matches Some(ri) && ({
            let r = routes[ri];
            !route_busy(ships, r) && !r.paused && r.automation != AutomationMode::Manual
        }),
    ensures
        ({
            let r = routes[route_index(routes, route_id)->0];
            let step = spec_automation_step(ships, routes, earth_ships, route_id, true, earth_index, colony_match, construction_queued);
            &&& !at_earth_body(route_start(r), earth_index) ==> match colony_match {
                Some(id) => step == AutomationStep::TakeColonyShip(id),
                None => (step == AutomationStep::QueueConstruction || step == AutomationStep::WaitForConstruction
                    || step == AutomationStep::AlertNoShip)
                    && (step == AutomationStep::AlertNoShip <==> !r.auto_build_ships)
                    && (step == AutomationStep::WaitForConstruction <==> (r.auto_build_ships && construction_queued)),
            }
            &&& at_earth_body(route_start(r), earth_index) ==> (step == AutomationStep::BuildOnEarth
                || step is TakeEarthShip)
        }),
{
}

/// A route from Earth that automation acts on takes a ship from Earth's hangar
/// when one built from the route's blueprint waits there (the first such), and
/// builds a new one exactly when none does.
pub proof fn law_automation_uses_waiting_earth_ship(
    ships: Seq<TradeShip>,
    routes: Seq<TradeRoute>,
    earth_ships: Seq<StoredShip>,
    route_id: TradeRouteId,
    earth_index: usize,
    colony_match: Option<StoredShipId>,
    construction_queued: bool,
)
    requires
        route_index(routes, route_id) matches Some(ri) && ({
            let r = routes[ri];
            !route_busy(ships, r) && !r.paused && r.automation != AutomationMode::Manual
                && at_earth_body(route_start(r), earth_index)
        }),
    ensures
        ({
            let r = routes[route_index(routes, route_id)->0];
            let step = spec_automation_step(ships, routes, earth_ships, route_id, true, earth_index, colony_match, construction_queued);
            &&& (step == AutomationStep::BuildOnEarth) <==> (forall|i: int| 0 <= i < earth_ships.len() ==> !built_from(#[trigger] earth_ships[i], r.blueprint_name@))
            &&& step matches AutomationStep::TakeEarthShip(id) ==> exists|i: int| 0 <= i < earth_ships.len()
                && built_from(#[trigger] earth_ships[i], r.blueprint_name@) && earth_ships[i].id == id
                && forall|j: int| 0 <= j < i ==> !built_from(#[trigger] earth_ships[j], r.blueprint_name@)
        }),
{
    let r = routes[route_index(routes, route_id)->0];
    let name = r.blueprint_name@;
    if exists|i: int| 0 <= i < earth_ships.len() && built_from(#[trigger] earth_ships[i], name) {
        let k = choose|i: int| 0 <= i < earth_ships.len() && built_from(#[trigger] earth_ships[i], name);
        lemma_first_built_exists(earth_ships, name, k);
    }
}

/// Below any stored ship built from `name` lies a first one.
proof fn lemma_first_built_exists(s: Seq<StoredShip>, name: Seq<char>, k: int)
    requires
        0 <= k < s.len(),
        built_from(s[k], name),
    ensures
        exists|i: int| 0 <= i < s.len() && built_from(s[i], name) && forall|j: int| 0 <= j < i ==> !built_from(#[trigger] s[j], name),
    decreases k,
{
    if exists|j: int| 0 <= j < k && built_from(#[trigger] s[j], name) {
        let j = choose|j: int| 0 <= j < k && built_from(#[trigger] s[j], name);
        lemma_first_built_exists(s, name, j);
    } else {
        assert(forall|j: int| 0 <= j < k ==> !built_from(#[trigger] s[j], name));
    }
}

} // verus!
