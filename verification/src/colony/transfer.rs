//! Route classification over the body hierarchy, and the blueprint queries that
//! trade routes make.

use vstd::prelude::*;
use crate::text::str_eq;
use crate::parts::{PartDefinitions, PodInfo, VesselBlueprint};

verus! {

/// Route category for scheduling and transfer computation.
#[derive(Debug, Clone, Copy, PartialEq, Eq, Structural)]
pub enum RouteCategory {
    /// Both bodies share the same SOI parent (e.g. Earth-Moon, two moons).
    SameSOI,
    /// Different planets around the Sun.
    Interplanetary,
    /// Different star systems (future-proofed).
    Interstellar,
}

impl Default for RouteCategory {
    fn default() -> (r: Self)
        ensures
            r == RouteCategory::SameSOI,
    {
        RouteCategory::SameSOI
    }
}

/// Atmosphere classification for landing/launch delta-v.
#[derive(Debug, Clone, Copy, PartialEq, Eq, Structural)]
pub enum AtmosphereClass {
    /// No significant atmosphere (<1000 Pa). Full propulsive landing required.
    Airless,
    /// Thin atmosphere (1000-10000 Pa, e.g. Mars). Partial aerobraking.
    Thin,
    /// Thick atmosphere (>10000 Pa, e.g. Earth, Venus, Titan). Free aerobraking.
    Thick,
}

/// What route planning reads of a celestial body: its name and the body it orbits.
pub struct BodyLink {
    pub name: String,
    pub parent: Option<usize>,
}

/// The body hierarchy of a solar system, with the indices of the bodies the
/// rules single out.
pub struct BodyHierarchy {
    pub bodies: Vec<BodyLink>,
    pub sun_index: usize,
    pub earth_index: usize,
    pub moon_index: usize,
}

/// Following parents from `i`, a body without a parent is reached within `fuel`
/// steps, and every parent on the way is a valid index.
pub open spec fn reaches_root(bodies: Seq<BodyLink>, i: int, fuel: nat) -> bool
    decreases fuel,
{
    &&& fuel > 0
    &&& 0 <= i < bodies.len()
    &&& match bodies[i].parent {
        None => true,
        Some(p) => reaches_root(bodies, p as int, (fuel - 1) as nat),
    }
}

/// Every body's chain of parents ends at a root (no cycles, no dangling parents).
pub open spec fn well_founded(bodies: Seq<BodyLink>) -> bool {
    forall|i: int| 0 <= i < bodies.len() ==> reaches_root(bodies, i, bodies.len())
}

/// A body that counts as the centre of a star system for route planning.
pub open spec fn is_system_root(b: BodyLink) -> bool {
    b.parent is None || b.name@ == "Sun"@ || b.name@ == "Sagittarius A*"@
}

/// The body on `idx`'s chain of parents (itself included) that directly orbits
/// the Sun; `None` when the chain ends before reaching one.
pub open spec fn spec_sun_parent(bodies: Seq<BodyLink>, idx: int, fuel: nat) -> Option<usize>
    decreases fuel,
{
    if fuel == 0 || !(0 <= idx < bodies.len()) {
        None
    } else {
        match bodies[idx].parent {
            None => None,
            Some(p) => {
                if is_system_root(bodies[p as int]) {
                    Some(idx as usize)
                } else if bodies[p as int].parent matches Some(g) && bodies[g as int].name@ == "Sun"@ {
                    Some(p)
                } else {
                    spec_sun_parent(bodies, p as int, (fuel - 1) as nat)
                }
            },
        }
    }
}

proof fn lemma_reaches_root_parent(bodies: Seq<BodyLink>, i: int, fuel: nat)
    requires
        reaches_root(bodies, i, fuel),
        bodies[i].parent is Some,
    ensures
        reaches_root(bodies, bodies[i].parent->0 as int, (fuel - 1) as nat),
{
}

/// Walk up the parent chain to find the body that directly orbits the Sun.
pub fn sun_parent(body_idx: usize, bodies: &[BodyLink]) -> (r: Option<usize>)
    requires
        well_founded(bodies@),
        body_idx < bodies@.len(),
    ensures
        r == spec_sun_parent(bodies@, body_idx as int, bodies@.len()),
{
    let mut idx = body_idx;
    let ghost mut fuel: nat = bodies@.len();
    loop
        invariant
            reaches_root(bodies@, idx as int, fuel),
            spec_sun_parent(bodies@, body_idx as int, bodies@.len()) == spec_sun_parent(bodies@, idx as int, fuel),
        decreases fuel,
    {
        match bodies[idx].parent {
            Some(parent) => {
                proof {
                    lemma_reaches_root_parent(bodies@, idx as int, fuel);
                }
                let pb = &bodies[parent];
                if pb.parent.is_none() || str_eq(pb.name.as_str(), "Sun") || str_eq(pb.name.as_str(), "Sagittarius A*") {
                    return Some(idx);
                }
                match pb.parent {
                    Some(grandparent) => {
                        proof {
                            lemma_reaches_root_parent(bodies@, parent as int, (fuel - 1) as nat);
                        }
                        if str_eq(bodies[grandparent].name.as_str(), "Sun") {
                            return Some(parent);
                        }
                    },
                    None => {},
                }
                idx = parent;
                proof {
                    fuel = (fuel - 1) as nat;
                }
            },
            None => {
                return None;
            },
        }
    }
}

/// How two bodies relate for transfer computation.
#[derive(Debug, Clone, Copy, PartialEq, Eq, Structural)]
pub enum TransferType {
    /// Both bodies share the same orbital parent.
    SameParent(usize),
    /// Flying from a child to its parent (e.g. Moon -> Earth).
    ChildToParent,
    /// Flying from a parent to its child (e.g. Earth -> Moon).
    ParentToChild,
    /// Interplanetary: different planets around the Sun.
    Interplanetary { from_planet: usize, to_planet: usize },
    Unknown,
}

/// How body `from` relates to body `to`.
pub open spec fn spec_transfer_type(bodies: Seq<BodyLink>, from: int, to: int) -> TransferType {
    let fp = bodies[from].parent;
    let tp = bodies[to].parent;
    if fp == tp && fp is Some {
        TransferType::SameParent(fp->0)
    } else if fp == Some(to as usize) {
        TransferType::ChildToParent
    } else if tp == Some(from as usize) {
        TransferType::ParentToChild
    } else {
        match (spec_sun_parent(bodies, from, bodies.len()), spec_sun_parent(bodies, to, bodies.len())) {
            (Some(a), Some(b)) => TransferType::Interplanetary { from_planet: a, to_planet: b },
            _ => TransferType::Unknown,
        }
    }
}

/// Determine the relationship between two bodies for transfer computation.
pub fn find_common_parent(from_idx: usize, to_idx: usize, bodies: &[BodyLink]) -> (r: TransferType)
    requires
        well_founded(bodies@),
        from_idx < bodies@.len(),
        to_idx < bodies@.len(),
    ensures
        r == spec_transfer_type(bodies@, from_idx as int, to_idx as int),
{
    let from_parent = bodies[from_idx].parent;
    let to_parent = bodies[to_idx].parent;
    if from_parent == to_parent && from_parent.is_some() {
        return TransferType::SameParent(from_parent.unwrap());
    }
    if from_parent == Some(to_idx) {
        return TransferType::ChildToParent;
    }
    if to_parent == Some(from_idx) {
        return TransferType::ParentToChild;
    }
    let from_sun_parent = sun_parent(from_idx, bodies);
    let to_sun_parent = sun_parent(to_idx, bodies);
    match (from_sun_parent, to_sun_parent) {
        (Some(a), Some(b)) => TransferType::Interplanetary { from_planet: a, to_planet: b },
        _ => TransferType::Unknown,
    }
}

/// The category of a route between two bodies (`None` standing for Earth).
pub open spec fn spec_classify_route(system: &BodyHierarchy, from_body: Option<usize>, to_body: Option<usize>) -> RouteCategory {
    let from = match from_body { Some(i) => i, None => system.earth_index };
    let to = match to_body { Some(i) => i, None => system.earth_index };
    if from == to {
        RouteCategory::SameSOI
    } else {
        match spec_transfer_type(system.bodies@, from as int, to as int) {
            TransferType::Interplanetary { .. } => RouteCategory::Interplanetary,
            TransferType::Unknown => RouteCategory::Interstellar,
            _ => RouteCategory::SameSOI,
        }
    }
}

/// Classify a route as SameSOI, Interplanetary, or Interstellar; a missing
/// endpoint stands for Earth.
pub fn classify_route(from_body: Option<usize>, to_body: Option<usize>, system: &BodyHierarchy) -> (r: RouteCategory)
    requires
        system.valid(),
        from_body matches Some(i) ==> i < system.bodies@.len(),
        to_body matches Some(i) ==> i < system.bodies@.len(),
    ensures
        r == spec_classify_route(system, from_body, to_body),
{
    let from_idx = match from_body {
        Some(i) => i,
        None => system.earth_index,
    };
    let to_idx = match to_body {
        Some(i) => i,
        None => system.earth_index,
    };
    if from_idx == to_idx {
        return RouteCategory::SameSOI;
    }
    match find_common_parent(from_idx, to_idx, system.bodies.as_slice()) {
        TransferType::Interplanetary { .. } => RouteCategory::Interplanetary,
        TransferType::Unknown => RouteCategory::Interstellar,
        _ => RouteCategory::SameSOI,
    }
}

impl BodyHierarchy {
    /// The hierarchy is usable for route planning: parent chains end, and the
    /// Earth index and every endpoint given are bodies.
    pub open spec fn valid(&self) -> bool {
        &&& well_founded(self.bodies@)
        &&& self.earth_index < self.bodies@.len()
    }

    /// Index of the first body named "Mars", or `usize::MAX` when there is none.
    pub open spec fn spec_mars_index(&self) -> usize {
        if exists|i: int| 0 <= i < self.bodies@.len() && (#[trigger] self.bodies@[i]).name@ == "Mars"@ {
            (choose|i: int|
                0 <= i < self.bodies@.len() && self.bodies@[i].name@ == "Mars"@ && forall|j: int|
                    0 <= j < i ==> (#[trigger] self.bodies@[j]).name@ != "Mars"@) as usize
        } else {
            usize::MAX
        }
    }

    /// Index of the first body named "Mars", or `usize::MAX` when there is none.
    pub fn mars_index(&self) -> (r: usize)
        ensures
            r == self.spec_mars_index(),
    {
        let mut i: usize = 0;
        while i < self.bodies.len()
            invariant
                0 <= i <= self.bodies@.len(),
                forall|j: int| 0 <= j < i ==> (#[trigger] self.bodies@[j]).name@ != "Mars"@,
            decreases self.bodies@.len() - i,
        {
            if str_eq(self.bodies[i].name.as_str(), "Mars") {
                proof {
                    let k = choose|k: int|
                        0 <= k < self.bodies@.len() && self.bodies@[k].name@ == "Mars"@ && forall|j: int|
                            0 <= j < k ==> (#[trigger] self.bodies@[j]).name@ != "Mars"@;
                    if k < i as int {
                    } else if k > i as int {
                        assert(self.bodies@[i as int].name@ != "Mars"@);
                    }
                }
                return i;
            }
            i += 1;
        }
        usize::MAX
    }
}

/// Whether the chain of parents from `i` ends at a root within `bodies.len()` steps.
fn chain_reaches_root(bodies: &[BodyLink], i: usize) -> (r: bool)
    requires
        i < bodies@.len(),
    ensures
        r == reaches_root(bodies@, i as int, bodies@.len()),
{
    let n = bodies.len();
    let mut cur = i;
    let mut steps: usize = 0;
    while steps < n
        invariant
            n == bodies@.len(),
            cur < n,
            0 <= steps <= n,
            reaches_root(bodies@, i as int, n as nat) == reaches_root(bodies@, cur as int, (n - steps) as nat),
        decreases n - steps,
    {
        match bodies[cur].parent {
            None => {
                return true;
            },
            Some(p) => {
                if p >= n {
                    assert(!reaches_root(bodies@, p as int, (n - steps - 1) as nat));
                    return false;
                }
                cur = p;
                steps += 1;
            },
        }
    }
    false
}

/// Whether every body's chain of parents ends at a root, through valid indices.
pub fn is_well_founded(bodies: &[BodyLink]) -> (r: bool)
    ensures
        r == well_founded(bodies@),
{
    let n = bodies.len();
    let mut i: usize = 0;
    while i < n
        invariant
            n == bodies@.len(),
            0 <= i <= n,
            forall|k: int| 0 <= k < i ==> reaches_root(bodies@, k, n as nat),
        decreases n - i,
    {
        if !chain_reaches_root(bodies, i) {
            return false;
        }
        i += 1;
    }
    true
}


/// Whether the part with definition id `id` is a parachute (unknown parts are not).
pub open spec fn part_is_parachute(defs: &PartDefinitions, id: Seq<char>) -> bool {
    match defs.spec_get(id) {
        Some(d) => d.has_parachute,
        None => false,
    }
}

/// The pod of the part with definition id `id`, if it is a known part with one.
pub open spec fn part_pod(defs: &PartDefinitions, id: Seq<char>) -> Option<PodInfo> {
    match defs.spec_get(id) {
        Some(d) => d.pod,
        None => None,
    }
}

/// Total crew seats of the pods among `ids`.
pub open spec fn crew_seats(defs: &PartDefinitions, ids: Seq<String>) -> nat
    decreases ids.len(),
{
    if ids.len() == 0 {
        0
    } else {
        crew_seats(defs, ids.drop_last()) + match part_pod(defs, ids.last()@) {
            Some(p) => p.crew_capacity as nat,
            None => 0nat,
        }
    }
}

/// Whether some part among `ids` is a pod that can control the vessel.
pub open spec fn has_control_pod(defs: &PartDefinitions, ids: Seq<String>) -> bool {
    exists|i: int| 0 <= i < ids.len() && (part_pod(defs, (#[trigger] ids[i])@) matches Some(p) && p.can_control)
}

proof fn lemma_crew_seats_prefix(defs: &PartDefinitions, ids: Seq<String>, n: int)
    requires
        0 <= n <= ids.len(),
    ensures
        crew_seats(defs, ids.take(n)) <= crew_seats(defs, ids),
    decreases ids.len() - n,
{
    if n < ids.len() {
        lemma_crew_seats_prefix(defs, ids, n + 1);
        assert(ids.take(n + 1).drop_last() =~= ids.take(n));
    } else {
        assert(ids.take(n) =~= ids);
    }
}

/// Check if a blueprint has a parachute part.
pub fn blueprint_has_parachute(blueprint: &VesselBlueprint, part_defs: &PartDefinitions) -> (r: bool)
    ensures
        r == exists|i: int|
            0 <= i < blueprint.part_ids@.len() && part_is_parachute(part_defs, (#[trigger] blueprint.part_ids@[i])@),
{
    let mut i: usize = 0;
    while i < blueprint.part_ids.len()
        invariant
            0 <= i <= blueprint.part_ids@.len(),
            forall|j: int| 0 <= j < i ==> !part_is_parachute(part_defs, (#[trigger] blueprint.part_ids@[j])@),
        decreases blueprint.part_ids@.len() - i,
    {
        match part_defs.get(blueprint.part_ids[i].as_str()) {
            Some(d) => {
                if d.has_parachute {
                    return true;
                }
            },
            None => {},
        }
        i += 1;
    }
    false
}

/// Check if a blueprint has a command pod, and its total crew capacity.
pub fn blueprint_is_crewed(blueprint: &VesselBlueprint, part_defs: &PartDefinitions) -> (r: (bool, u32))
    requires
        crew_seats(part_defs, blueprint.part_ids@) <= u32::MAX,
    ensures
        r.0 == has_control_pod(part_defs, blueprint.part_ids@),
        r.1 == crew_seats(part_defs, blueprint.part_ids@),
{
    let mut has_pod = false;
    let mut total_capacity: u32 = 0;
    let mut i: usize = 0;
    let ghost ids = blueprint.part_ids@;
    while i < blueprint.part_ids.len()
        invariant
            ids == blueprint.part_ids@,
            0 <= i <= ids.len(),
            crew_seats(part_defs, ids) <= u32::MAX,
            total_capacity == crew_seats(part_defs, ids.take(i as int)),
            has_pod == has_control_pod(part_defs, ids.take(i as int)),
        decreases ids.len() - i,
    {
        let ghost prefix = ids.take(i as int);
        let ghost next = ids.take(i + 1);
        proof {
            assert(next.drop_last() =~= prefix);
            lemma_crew_seats_prefix(part_defs, ids, i + 1);
        }
        match part_defs.get(blueprint.part_ids[i].as_str()) {
            Some(d) => match d.pod {
                Some(pod) => {
                    if pod.can_control {
                        has_pod = true;
                    }
                    total_capacity = total_capacity + pod.crew_capacity;
                },
                None => {},
            },
            None => {},
        }
        proof {
            assert forall|j: int| 0 <= j < prefix.len() implies next[j] == prefix[j] by {}
            if has_control_pod(part_defs, prefix) {
                let j = choose|j: int| 0 <= j < prefix.len() && (part_pod(part_defs, (#[trigger] prefix[j])@) matches Some(p) && p.can_control);
                assert(next[j] == prefix[j]);
            }
            if has_control_pod(part_defs, next) {
                let j = choose|j: int| 0 <= j < next.len() && (part_pod(part_defs, (#[trigger] next[j])@) matches Some(p) && p.can_control);
                if j < i {
                    assert(next[j] == prefix[j]);
                }
            }
        }
        i += 1;
    }
    proof {
        assert(ids.take(i as int) =~= ids);
    }
    (has_pod, total_capacity)
}


/// A route and its reverse fall in the same category.
pub proof fn law_route_category_is_symmetric(system: &BodyHierarchy, from_body: Option<usize>, to_body: Option<usize>)
    ensures
        spec_classify_route(system, from_body, to_body) == spec_classify_route(system, to_body, from_body),
{
}

/// How a route between two distinct bodies is classified, from where they
/// hang in the hierarchy (an endpoint `None` is Earth, and Earth is treated
/// like any other body): the route stays in one sphere of influence when the
/// two share a parent or one orbits the other; otherwise it is interplanetary
/// when both lead up to a body orbiting the Sun, and interstellar when one
/// does not.
pub proof fn law_route_category_by_hierarchy(system: &BodyHierarchy, from_body: Option<usize>, to_body: Option<usize>)
    ensures
        ({
            let from = match from_body { Some(i) => i, None => system.earth_index };
            let to = match to_body { Some(i) => i, None => system.earth_index };
            let b = system.bodies@;
            let fp = b[from as int].parent;
            let tp = b[to as int].parent;
            let related = (fp == tp && fp is Some) || fp == Some(to) || tp == Some(from);
            let pf = spec_sun_parent(b, from as int, b.len());
            let pt = spec_sun_parent(b, to as int, b.len());
            from != to ==> {
                &&& related ==> spec_classify_route(system, from_body, to_body) == RouteCategory::SameSOI
                &&& !related && pf is Some && pt is Some ==> spec_classify_route(system, from_body, to_body) == RouteCategory::Interplanetary
                &&& !related && (pf is None || pt is None) ==> spec_classify_route(system, from_body, to_body) == RouteCategory::Interstellar
            }
        }),
        from_body == to_body ==> spec_classify_route(system, from_body, to_body) == RouteCategory::SameSOI,
{
}

} // verus!
