//! What the colony and trade rules read of vessel parts and blueprints.

use vstd::prelude::*;
use crate::text::str_eq;

verus! {

/// Command or crew pod properties of a part.
#[derive(Debug, Clone, Copy, PartialEq, Eq, Structural)]
pub struct PodInfo {
    /// Whether the pod can control the vessel.
    pub can_control: bool,
    /// Number of crew seats.
    pub crew_capacity: u32,
}

/// A part definition, as far as the colony and trade rules read it.
pub struct PartDefinition {
    pub id: String,
    /// Whether the part is a parachute.
    pub has_parachute: bool,
    /// Pod properties, for command pods, probe cores, crew quarters and greenhouses.
    pub pod: Option<PodInfo>,
}

/// The part catalog, looked up by definition id.
pub struct PartDefinitions {
    pub defs: Vec<PartDefinition>,
}

/// A vessel blueprint: the definition id of each placed part.
pub struct VesselBlueprint {
    pub name: String,
    pub part_ids: Vec<String>,
}

/// Index of the first definition in `defs` with id `id`.
pub open spec fn spec_find_def(defs: Seq<PartDefinition>, id: Seq<char>) -> Option<int> {
    if exists|i: int| 0 <= i < defs.len() && (#[trigger] defs[i]).id@ == id {
        Some(
            choose|i: int|
                0 <= i < defs.len() && defs[i].id@ == id && forall|j: int|
                    0 <= j < i ==> (#[trigger] defs[j]).id@ != id,
        )
    } else {
        None
    }
}

impl PartDefinitions {
    /// The definition with the given id, if the catalog has one.
    pub open spec fn spec_get(&self, id: Seq<char>) -> Option<PartDefinition> {
        match spec_find_def(self.defs@, id) {
            Some(i) => Some(self.defs@[i]),
            None => None,
        }
    }

    /// Look up a part definition by id.
    pub fn get(&self, id: &str) -> (r: Option<&PartDefinition>)
        ensures
            match r {
                Some(d) => self.spec_get(id@) == Some(*d),
                None => self.spec_get(id@) is None,
            },
    {
        let mut i: usize = 0;
        while i < self.defs.len()
            invariant
                0 <= i <= self.defs@.len(),
                forall|j: int| 0 <= j < i ==> (#[trigger] self.defs@[j]).id@ != id@,
            decreases self.defs@.len() - i,
        {
            if str_eq(self.defs[i].id.as_str(), id) {
                proof {
                    let k = choose|k: int|
                        0 <= k < self.defs@.len() && self.defs@[k].id@ == id@ && forall|j: int|
                            0 <= j < k ==> (#[trigger] self.defs@[j]).id@ != id@;
                    if k > i as int {
                        assert(self.defs@[i as int].id@ != id@);
                    }
                }
                return Some(&self.defs[i]);
            }
            i += 1;
        }
        None
    }
}

} // verus!
