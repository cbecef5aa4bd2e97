//! The research tree: node unlocking, efficiency-line tiers and recipe gates,
//! and the one-time discovery tracker.

use vstd::prelude::*;
use std::collections::HashSet;
use crate::colony::buildings::BuildingType;
use crate::text::str_eq;

verus! {

broadcast use vstd::std_specs::hash::group_hash_axioms;

/// The highest tier an efficiency line can reach.
pub const MAX_LINE_TIER: u32 = 15;

/// A tech tree node: what research the rules read of it.
pub struct TechNode {
    pub id: String,
    pub name: String,
    pub era: u32,
    pub prerequisites: Vec<String>,
    pub unlocks_parts: Vec<String>,
    pub unlocks_buildings: Vec<BuildingType>,
}

/// An efficiency upgrade line: what the rules read of it.
pub struct TechLine {
    pub id: String,
    pub name: String,
    pub prerequisite_node: String,
    /// Some lines require another line to reach a certain tier first.
    pub prerequisite_line_tier: Option<(String, u32)>,
    /// Recipe gates: at certain tiers, new recipes become available.
    pub recipe_gates: Vec<(u32, String)>,
}

/// Runtime tech tree state: node and line definitions, the set of unlocked node ids
/// and the tier reached by each efficiency line.
pub struct TechTree {
    pub nodes: Vec<TechNode>,
    /// Ids of the unlocked nodes (a set: order and repetition carry no meaning).
    pub unlocked: Vec<String>,
    pub efficiency_lines: Vec<TechLine>,
    /// Tier of each efficiency line; the first entry for a line id counts.
    pub line_tiers: Vec<(String, u32)>,
    pub default_unlocked_parts: Vec<String>,
}

/// Whether `s` is one of the strings of `v`.
pub open spec fn has_str(v: Seq<String>, s: Seq<char>) -> bool {
    exists|i: int| 0 <= i < v.len() && (#[trigger] v[i])@ == s
}

/// Whether `s` is one of the strings of `v`.
pub fn vec_has_str(v: &Vec<String>, s: &str) -> (r: bool)
    ensures
        r == has_str(v@, s@),
{
    let mut i: usize = 0;
    while i < v.len()
        invariant
            0 <= i <= v@.len(),
            forall|j: int| 0 <= j < i ==> (#[trigger] v@[j])@ != s@,
        decreases v@.len() - i,
    {
        if str_eq(v[i].as_str(), s) {
            return true;
        }
        i += 1;
    }
    false
}

/// `i` is the first node of `nodes` with id `id`.
pub open spec fn is_first_node(nodes: Seq<TechNode>, id: Seq<char>, i: int) -> bool {
    &&& 0 <= i < nodes.len()
    &&& nodes[i].id@ == id
    &&& forall|j: int| 0 <= j < i ==> (#[trigger] nodes[j]).id@ != id
}

/// `i` is the first line of `lines` with id `id`.
pub open spec fn is_first_line(lines: Seq<TechLine>, id: Seq<char>, i: int) -> bool {
    &&& 0 <= i < lines.len()
    &&& lines[i].id@ == id
    &&& forall|j: int| 0 <= j < i ==> (#[trigger] lines[j]).id@ != id
}

/// The tier recorded for `line` in `entries`: the first entry for it, or 0.
pub open spec fn tier_in(entries: Seq<(String, u32)>, line: Seq<char>) -> u32
    decreases entries.len(),
{
    if entries.len() == 0 {
        0
    } else if entries[0].0@ == line {
        entries[0].1
    } else {
        tier_in(entries.drop_first(), line)
    }
}

/// The first recipe gate for `recipe` over all lines (in order) and their gates
/// (in order), as (line index, required tier).
pub open spec fn first_gate(lines: Seq<TechLine>, recipe: Seq<char>) -> Option<(int, u32)>
    decreases lines.len(),
{
    if lines.len() == 0 {
        None
    } else {
        match first_gate(lines.drop_last(), recipe) {
            Some(g) => Some(g),
            None => match first_gate_in(lines.last().recipe_gates@, recipe) {
                Some(t) => Some((lines.len() - 1, t)),
                None => None,
            },
        }
    }
}

/// The tier of the first gate for `recipe` in one line's gates.
pub open spec fn first_gate_in(gates: Seq<(u32, String)>, recipe: Seq<char>) -> Option<u32>
    decreases gates.len(),
{
    if gates.len() == 0 {
        None
    } else if gates[0].1@ == recipe {
        Some(gates[0].0)
    } else {
        first_gate_in(gates.drop_first(), recipe)
    }
}

impl Default for TechTree {
    /// A tree with no definitions and nothing unlocked.
    fn default() -> (r: Self)
        ensures
            r.nodes@.len() == 0,
            r.efficiency_lines@.len() == 0,
            r.default_unlocked_parts@.len() == 0,
            r.unlocked_set() == Set::<Seq<char>>::empty(),
            forall|line: Seq<char>| r.spec_line_tier(line) == 0,
    {
        TechTree::new(Vec::new(), Vec::new(), Vec::new())
    }
}

impl TechTree {
    /// The set of unlocked node ids.
    pub open spec fn unlocked_set(self) -> Set<Seq<char>> {
        Set::new(|s: Seq<char>| has_str(self.unlocked@, s))
    }

    pub open spec fn spec_is_unlocked(self, id: Seq<char>) -> bool {
        has_str(self.unlocked@, id)
    }

    pub open spec fn spec_line_tier(self, line: Seq<char>) -> u32 {
        tier_in(self.line_tiers@, line)
    }

    /// A node can be unlocked when it exists, is not unlocked yet, and all of the
    /// prerequisites of its first definition are unlocked.
    pub open spec fn spec_can_unlock(self, id: Seq<char>) -> bool {
        exists|i: int|
            is_first_node(self.nodes@, id, i) && !self.spec_is_unlocked(id) && forall|k: int|
                0 <= k < self.nodes@[i].prerequisites@.len() ==> self.spec_is_unlocked(
                    (#[trigger] self.nodes@[i].prerequisites@[k])@,
                )
    }

    pub open spec fn spec_is_part_available(self, part: Seq<char>) -> bool {
        ||| has_str(self.default_unlocked_parts@, part)
        ||| exists|i: int|
            0 <= i < self.nodes@.len() && self.spec_is_unlocked((#[trigger] self.nodes@[i]).id@)
                && has_str(self.nodes@[i].unlocks_parts@, part)
    }

    pub open spec fn spec_is_building_available(self, b: BuildingType) -> bool {
        exists|i: int|
            0 <= i < self.nodes@.len() && self.spec_is_unlocked((#[trigger] self.nodes@[i]).id@)
                && self.nodes@[i].unlocks_buildings@.contains(b)
    }

    /// A recipe is available unless its first gate asks for a higher tier than its
    /// line has reached.
    pub open spec fn spec_is_recipe_available(self, recipe: Seq<char>) -> bool {
        match first_gate(self.efficiency_lines@, recipe) {
            None => true,
            Some((li, tier)) => self.spec_line_tier(self.efficiency_lines@[li].id@) >= tier,
        }
    }

    /// A line can be upgraded when it exists, is below the maximum tier, its
    /// prerequisite node is unlocked and its prerequisite line (if any) has reached
    /// the required tier.
    pub open spec fn spec_can_upgrade_line(self, id: Seq<char>) -> bool {
        exists|i: int|
            is_first_line(self.efficiency_lines@, id, i) && self.spec_line_tier(id) < MAX_LINE_TIER
                && self.spec_is_unlocked(self.efficiency_lines@[i].prerequisite_node@) && match self.efficiency_lines@[i].prerequisite_line_tier {
                Some((pre, t)) => self.spec_line_tier(pre@) >= t,
                None => true,
            }
    }

    /// A tree with the given definitions, nothing unlocked and all lines at tier 0.
    pub fn new(nodes: Vec<TechNode>, efficiency_lines: Vec<TechLine>, default_unlocked_parts: Vec<String>) -> (r: TechTree)
        ensures
            r.nodes@ == nodes@,
            r.efficiency_lines@ == efficiency_lines@,
            r.default_unlocked_parts@ == default_unlocked_parts@,
            r.unlocked_set() == Set::<Seq<char>>::empty(),
            forall|line: Seq<char>| r.spec_line_tier(line) == 0,
    {
        let r = TechTree {
            nodes,
            unlocked: Vec::new(),
            efficiency_lines,
            line_tiers: Vec::new(),
            default_unlocked_parts,
        };
        assert(r.unlocked_set() =~= Set::<Seq<char>>::empty());
        r
    }

    pub fn is_unlocked(&self, node_id: &str) -> (r: bool)
        ensures
            r == self.spec_is_unlocked(node_id@),
    {
        vec_has_str(&self.unlocked, node_id)
    }

    /// Index of the first node with the given id.
    fn find_node(&self, node_id: &str) -> (r: Option<usize>)
        ensures
            match r {
                Some(i) => is_first_node(self.nodes@, node_id@, i as int),
                None => forall|j: int| 0 <= j < self.nodes@.len() ==> (#[trigger] self.nodes@[j]).id@ != node_id@,
            },
    {
        let mut i: usize = 0;
        while i < self.nodes.len()
            invariant
                0 <= i <= self.nodes@.len(),
                forall|j: int| 0 <= j < i ==> (#[trigger] self.nodes@[j]).id@ != node_id@,
            decreases self.nodes@.len() - i,
        {
            if str_eq(self.nodes[i].id.as_str(), node_id) {
                return Some(i);
            }
            i += 1;
        }
        None
    }

    /// Index of the first efficiency line with the given id.
    fn find_line(&self, line_id: &str) -> (r: Option<usize>)
        ensures
            match r {
                Some(i) => is_first_line(self.efficiency_lines@, line_id@, i as int),
                None => forall|j: int|
                    0 <= j < self.efficiency_lines@.len() ==> (#[trigger] self.efficiency_lines@[j]).id@ != line_id@,
            },
    {
        let mut i: usize = 0;
        while i < self.efficiency_lines.len()
            invariant
                0 <= i <= self.efficiency_lines@.len(),
                forall|j: int| 0 <= j < i ==> (#[trigger] self.efficiency_lines@[j]).id@ != line_id@,
            decreases self.efficiency_lines@.len() - i,
        {
            if str_eq(self.efficiency_lines[i].id.as_str(), line_id) {
                return Some(i);
            }
            i += 1;
        }
        None
    }

    /// Check if a node can be unlocked (all prerequisites met).
    pub fn can_unlock(&self, node_id: &str) -> (r: bool)
        ensures
            r == self.spec_can_unlock(node_id@),
    {
        let idx = match self.find_node(node_id) {
            Some(i) => i,
            None => {
                return false;
            },
        };
        if self.is_unlocked(node_id) {
            return false;
        }
        let node = &self.nodes[idx];
        proof {
            assert forall|i: int| is_first_node(self.nodes@, node_id@, i) implies i == idx as int by {
                if i < idx as int {
                    assert(self.nodes@[i].id@ != node_id@);
                } else if i > idx as int {
                    assert(self.nodes@[idx as int].id@ != node_id@);
                }
            }
        }
        let mut k: usize = 0;
        while k < node.prerequisites.len()
            invariant
                0 <= k <= node.prerequisites@.len(),
                is_first_node(self.nodes@, node_id@, idx as int),
                forall|i: int| is_first_node(self.nodes@, node_id@, i) ==> i == idx as int,
                !self.spec_is_unlocked(node_id@),
                node == self.nodes@[idx as int],
                forall|m: int| 0 <= m < k ==> self.spec_is_unlocked((#[trigger] node.prerequisites@[m])@),
            decreases node.prerequisites@.len() - k,
        {
            if !self.is_unlocked(node.prerequisites[k].as_str()) {
                return false;
            }
            k += 1;
        }
        assert(is_first_node(self.nodes@, node_id@, idx as int));
        true
    }

    /// Unlock a tech node. Returns false if already unlocked or prerequisites not met.
    pub fn unlock(&mut self, node_id: &str) -> (r: bool)
        ensures
            r == old(self).spec_can_unlock(node_id@),
            final(self).unlocked_set() == if r {
                old(self).unlocked_set().insert(node_id@)
            } else {
                old(self).unlocked_set()
            },
            final(self).nodes@ == old(self).nodes@,
            final(self).efficiency_lines@ == old(self).efficiency_lines@,
            final(self).line_tiers@ == old(self).line_tiers@,
            final(self).default_unlocked_parts@ == old(self).default_unlocked_parts@,
    {
        if !self.can_unlock(node_id) {
            return false;
        }
        let ghost before = self.unlocked@;
        self.unlocked.push(node_id.to_owned());
        proof {
            assert forall|s: Seq<char>| has_str(self.unlocked@, s) == (has_str(before, s) || s == node_id@) by {
                if has_str(before, s) {
                    let i = choose|i: int| 0 <= i < before.len() && (#[trigger] before[i])@ == s;
                    assert(self.unlocked@[i] == before[i]);
                }
                if s == node_id@ {
                    assert(self.unlocked@[before.len() as int]@ == s);
                }
                if has_str(self.unlocked@, s) {
                    let i = choose|i: int| 0 <= i < self.unlocked@.len() && (#[trigger] self.unlocked@[i])@ == s;
                    if i < before.len() {
                        assert(before[i] == self.unlocked@[i]);
                    }
                }
            }
            assert(self.unlocked_set() =~= old(self).unlocked_set().insert(node_id@));
        }
        true
    }

    /// Check if a part is available (either default unlocked or from an unlocked node).
    pub fn is_part_available(&self, part_id: &str) -> (r: bool)
        ensures
            r == self.spec_is_part_available(part_id@),
    {
        if vec_has_str(&self.default_unlocked_parts, part_id) {
            return true;
        }
        let mut i: usize = 0;
        while i < self.nodes.len()
            invariant
                0 <= i <= self.nodes@.len(),
                !has_str(self.default_unlocked_parts@, part_id@),
                forall|j: int|
                    0 <= j < i ==> !(self.spec_is_unlocked((#[trigger] self.nodes@[j]).id@) && has_str(
                        self.nodes@[j].unlocks_parts@,
                        part_id@,
                    )),
            decreases self.nodes@.len() - i,
        {
            let node = &self.nodes[i];
            if self.is_unlocked(node.id.as_str()) && vec_has_str(&node.unlocks_parts, part_id) {
                return true;
            }
            i += 1;
        }
        false
    }

    /// Check if a building type is available (unlocked by some researched node).
    pub fn is_building_available(&self, building: BuildingType) -> (r: bool)
        ensures
            r == self.spec_is_building_available(building),
    {
        let mut i: usize = 0;
        while i < self.nodes.len()
            invariant
                0 <= i <= self.nodes@.len(),
                forall|j: int|
                    0 <= j < i ==> !(self.spec_is_unlocked((#[trigger] self.nodes@[j]).id@)
                        && self.nodes@[j].unlocks_buildings@.contains(building)),
            decreases self.nodes@.len() - i,
        {
            let node = &self.nodes[i];
            if self.is_unlocked(node.id.as_str()) {
                let mut k: usize = 0;
                while k < node.unlocks_buildings.len()
                    invariant
                        0 <= k <= node.unlocks_buildings@.len(),
                        0 <= i < self.nodes@.len(),
                        node == self.nodes@[i as int],
                        self.spec_is_unlocked(node.id@),
                        forall|m: int| 0 <= m < k ==> node.unlocks_buildings@[m] != building,
                    decreases node.unlocks_buildings@.len() - k,
                {
                    if node.unlocks_buildings[k] == building {
                        assert(self.nodes@[i as int].unlocks_buildings@[k as int] == building);
                        assert(self.nodes@[i as int].unlocks_buildings@.contains(building));
                        return true;
                    }
                    k += 1;
                }
            }
            i += 1;
        }
        false
    }

    /// Get the current tier of an efficiency line.
    pub fn line_tier(&self, line_id: &str) -> (r: u32)
        ensures
            r == self.spec_line_tier(line_id@),
    {
        let mut i: usize = 0;
        assert(self.line_tiers@.skip(0) =~= self.line_tiers@);
        while i < self.line_tiers.len()
            invariant
                0 <= i <= self.line_tiers@.len(),
                tier_in(self.line_tiers@, line_id@) == tier_in(self.line_tiers@.skip(i as int), line_id@),
            decreases self.line_tiers@.len() - i,
        {
            assert(self.line_tiers@.skip(i as int).drop_first() =~= self.line_tiers@.skip(i + 1));
            if str_eq(self.line_tiers[i].0.as_str(), line_id) {
                return self.line_tiers[i].1;
            }
            i += 1;
        }
        0
    }

    /// Record `tier` as the tier of line `line_id`, keeping every other line's tier.
    fn set_line_tier(&mut self, line_id: &str, tier: u32)
        ensures
            final(self).spec_line_tier(line_id@) == tier,
            forall|other: Seq<char>| other != line_id@ ==> final(self).spec_line_tier(other) == old(self).spec_line_tier(other),
            final(self).nodes@ == old(self).nodes@,
            final(self).unlocked@ == old(self).unlocked@,
            final(self).efficiency_lines@ == old(self).efficiency_lines@,
            final(self).default_unlocked_parts@ == old(self).default_unlocked_parts@,
    {
        let mut i: usize = 0;
        while i < self.line_tiers.len()
            invariant
                0 <= i <= self.line_tiers@.len(),
                self.line_tiers@ == old(self).line_tiers@,
                self.nodes@ == old(self).nodes@,
                self.unlocked@ == old(self).unlocked@,
                self.efficiency_lines@ == old(self).efficiency_lines@,
                self.default_unlocked_parts@ == old(self).default_unlocked_parts@,
                forall|j: int| 0 <= j < i ==> (#[trigger] self.line_tiers@[j]).0@ != line_id@,
            decreases self.line_tiers@.len() - i,
        {
            if str_eq(self.line_tiers[i].0.as_str(), line_id) {
                let ghost before = self.line_tiers@;
                let key = self.line_tiers[i].0.clone();
                self.line_tiers.set(i, (key, tier));
                proof {
                    lemma_tier_in_update(before, i as int, tier, line_id@);
                }
                return;
            }
            i += 1;
        }
        let ghost before = self.line_tiers@;
        let entry = (line_id.to_owned(), tier);
        self.line_tiers.push(entry);
        proof {
            lemma_tier_in_push(before, entry);
        }
    }

    /// Upgrade an efficiency line by one tier. Returns false if at max or
    /// prerequisites not met.
    pub fn upgrade_line(&mut self, line_id: &str) -> (r: bool)
        ensures
            r == old(self).spec_can_upgrade_line(line_id@),
            r ==> final(self).spec_line_tier(line_id@) == old(self).spec_line_tier(line_id@) + 1,
            forall|other: Seq<char>|
                other != line_id@ ==> final(self).spec_line_tier(other) == old(self).spec_line_tier(other),
            !r ==> final(self).spec_line_tier(line_id@) == old(self).spec_line_tier(line_id@),
            final(self).unlocked@ == old(self).unlocked@,
            final(self).nodes@ == old(self).nodes@,
            final(self).efficiency_lines@ == old(self).efficiency_lines@,
            final(self).default_unlocked_parts@ == old(self).default_unlocked_parts@,
    {
        let idx = match self.find_line(line_id) {
            Some(i) => i,
            None => {
                return false;
            },
        };
        proof {
            assert forall|i: int| is_first_line(self.efficiency_lines@, line_id@, i) implies i == idx as int by {
                if i < idx as int {
                    assert(self.efficiency_lines@[i].id@ != line_id@);
                } else if i > idx as int {
                    assert(self.efficiency_lines@[idx as int].id@ != line_id@);
                }
            }
        }
        let current = self.line_tier(line_id);
        if current >= MAX_LINE_TIER {
            return false;
        }
        if !self.is_unlocked(self.efficiency_lines[idx].prerequisite_node.as_str()) {
            return false;
        }
        match &self.efficiency_lines[idx].prerequisite_line_tier {
            Some((pre_line, pre_tier)) => {
                if self.line_tier(pre_line.as_str()) < *pre_tier {
                    return false;
                }
            },
            None => {},
        }
        self.set_line_tier(line_id, current + 1);
        true
    }

    /// Check if a factory recipe is available based on efficiency line tier gates.
    /// Recipes without gates are always available.
    pub fn is_recipe_available(&self, recipe_id: &str) -> (r: bool)
        ensures
            r == self.spec_is_recipe_available(recipe_id@),
    {
        let mut li: usize = 0;
        while li < self.efficiency_lines.len()
            invariant
                0 <= li <= self.efficiency_lines@.len(),
                first_gate(self.efficiency_lines@.take(li as int), recipe_id@) is None,
            decreases self.efficiency_lines@.len() - li,
        {
            let line = &self.efficiency_lines[li];
            let ghost lines_next = self.efficiency_lines@.take(li + 1);
            proof {
                assert(lines_next.drop_last() =~= self.efficiency_lines@.take(li as int));
            }
            let mut gi: usize = 0;
            assert(line.recipe_gates@.skip(0) =~= line.recipe_gates@);
            while gi < line.recipe_gates.len()
                invariant
                    0 <= gi <= line.recipe_gates@.len(),
                    0 <= li < self.efficiency_lines@.len(),
                    lines_next == self.efficiency_lines@.take(li + 1),
                    lines_next.drop_last() == self.efficiency_lines@.take(li as int),
                    first_gate(self.efficiency_lines@.take(li as int), recipe_id@) is None,
                    line == self.efficiency_lines@[li as int],
                    first_gate_in(line.recipe_gates@, recipe_id@) == first_gate_in(line.recipe_gates@.skip(gi as int), recipe_id@),
                decreases line.recipe_gates@.len() - gi,
            {
                assert(line.recipe_gates@.skip(gi as int).drop_first() =~= line.recipe_gates@.skip(gi + 1));
                if str_eq(line.recipe_gates[gi].1.as_str(), recipe_id) {
                    let tier = line.recipe_gates[gi].0;
                    let current = self.line_tier(line.id.as_str());
                    proof {
                        assert(lines_next.last() == line);
                        assert(first_gate(lines_next, recipe_id@) == Some((li as int, tier)));
                        lemma_first_gate_prefix(self.efficiency_lines@, li as int + 1, recipe_id@);
                    }
                    return current >= tier;
                }
                gi += 1;
            }
            proof {
                assert(line.recipe_gates@.skip(gi as int) =~= Seq::<(u32, String)>::empty());
                assert(lines_next.last() == line);
                assert(first_gate(lines_next, recipe_id@) is None);
            }
            li += 1;
        }
        proof {
            assert(self.efficiency_lines@.take(li as int) =~= self.efficiency_lines@);
        }
        true
    }

    /// Apply unlock state from a save game: the unlocked node ids, and the tier of
    /// each line (a later entry for the same line overrides an earlier one).
    pub fn apply_save_state(&mut self, unlocked: Vec<String>, line_tiers: Vec<(String, u32)>)
        ensures
            final(self).unlocked_set() == Set::new(|s: Seq<char>| has_str(unlocked@, s)),
            forall|line: Seq<char>| final(self).spec_line_tier(line) == last_tier_in(line_tiers@, line),
            final(self).nodes@ == old(self).nodes@,
            final(self).efficiency_lines@ == old(self).efficiency_lines@,
            final(self).default_unlocked_parts@ == old(self).default_unlocked_parts@,
    {
        self.unlocked = unlocked;
        self.line_tiers = Vec::new();
        let mut i: usize = 0;
        while i < line_tiers.len()
            invariant
                0 <= i <= line_tiers@.len(),
                self.unlocked@ == unlocked@,
                self.nodes@ == old(self).nodes@,
                self.efficiency_lines@ == old(self).efficiency_lines@,
                self.default_unlocked_parts@ == old(self).default_unlocked_parts@,
                forall|line: Seq<char>| self.spec_line_tier(line) == last_tier_in(line_tiers@.take(i as int), line),
            decreases line_tiers@.len() - i,
        {
            let ghost prefix = line_tiers@.take(i as int);
            proof {
                assert(line_tiers@.take(i + 1).drop_last() =~= prefix);
            }
            self.set_line_tier(line_tiers[i].0.as_str(), line_tiers[i].1);
            i += 1;
        }
        proof {
            assert(line_tiers@.take(i as int) =~= line_tiers@);
        }
    }
}

/// The tier given for `line` by the last entry for it in `entries`, or 0.
pub open spec fn last_tier_in(entries: Seq<(String, u32)>, line: Seq<char>) -> u32
    decreases entries.len(),
{
    if entries.len() == 0 {
        0
    } else if entries.last().0@ == line {
        entries.last().1
    } else {
        last_tier_in(entries.drop_last(), line)
    }
}

proof fn lemma_tier_in_update(entries: Seq<(String, u32)>, i: int, tier: u32, line: Seq<char>)
    requires
        0 <= i < entries.len(),
        entries[i].0@ == line,
        forall|j: int| 0 <= j < i ==> (#[trigger] entries[j]).0@ != line,
    ensures
        tier_in(entries.update(i, (entries[i].0, tier)), line) == tier,
        forall|other: Seq<char>|
            other != line ==> tier_in(entries.update(i, (entries[i].0, tier)), other) == tier_in(entries, other),
    decreases entries.len(),
{
    let updated = entries.update(i, (entries[i].0, tier));
    if i == 0 {
        assert(updated.drop_first() =~= entries.drop_first());
    } else {
        assert(updated.drop_first() =~= entries.drop_first().update(i - 1, (entries[i].0, tier)));
        assert(entries[0].0@ != line);
        assert(updated[0] == entries[0]);
        lemma_tier_in_update(entries.drop_first(), i - 1, tier, line);
        assert forall|other: Seq<char>| other != line implies tier_in(updated, other) == tier_in(entries, other) by {
            assert(tier_in(updated.drop_first(), other) == tier_in(entries.drop_first(), other));
        }
    }
}

proof fn lemma_tier_in_push(entries: Seq<(String, u32)>, e: (String, u32))
    requires
        forall|j: int| 0 <= j < entries.len() ==> (#[trigger] entries[j]).0@ != e.0@,
    ensures
        tier_in(entries.push(e), e.0@) == e.1,
        forall|other: Seq<char>| other != e.0@ ==> tier_in(entries.push(e), other) == tier_in(entries, other),
    decreases entries.len(),
{
    if entries.len() > 0 {
        assert(entries.push(e).drop_first() =~= entries.drop_first().push(e));
        assert(entries.push(e)[0] == entries[0]);
        lemma_tier_in_push(entries.drop_first(), e);
        assert forall|other: Seq<char>| other != e.0@ implies tier_in(entries.push(e), other) == tier_in(entries, other) by {
            assert(tier_in(entries.push(e).drop_first(), other) == tier_in(entries.drop_first(), other));
        }
    } else {
        assert(entries.push(e).drop_first() =~= entries);
    }
}

/// The first gate of the first `n` lines is the first gate of all lines, once it exists.
proof fn lemma_first_gate_prefix(lines: Seq<TechLine>, n: int, recipe: Seq<char>)
    requires
        0 <= n <= lines.len(),
        first_gate(lines.take(n), recipe) is Some,
    ensures
        first_gate(lines, recipe) == first_gate(lines.take(n), recipe),
    decreases lines.len() - n,
{
    if n < lines.len() {
        assert(lines.take(n + 1).drop_last() =~= lines.take(n));
        lemma_first_gate_prefix(lines, n + 1, recipe);
    } else {
        assert(lines.take(n) =~= lines);
    }
}

/// Tracks one-time discovery milestones for science.
pub struct DiscoveryTracker {
    pub first_suborbital: bool,
    pub first_orbit: bool,
    pub geostationary: bool,
    pub first_crewed_orbit: bool,
    pub first_crewed_lunar: bool,
    pub first_crewed_mars: bool,
    /// Body indices where the player has achieved orbit.
    pub body_orbited: HashSet<usize>,
    /// Body indices where the player has landed.
    pub body_landed: HashSet<usize>,
}

impl Default for DiscoveryTracker {
    fn default() -> (r: Self)
        ensures
            !r.first_suborbital && !r.first_orbit && !r.geostationary,
            !r.first_crewed_orbit && !r.first_crewed_lunar && !r.first_crewed_mars,
            r.body_orbited@ == Set::<usize>::empty(),
            r.body_landed@ == Set::<usize>::empty(),
    {
        DiscoveryTracker {
            first_suborbital: false,
            first_orbit: false,
            geostationary: false,
            first_crewed_orbit: false,
            first_crewed_lunar: false,
            first_crewed_mars: false,
            body_orbited: HashSet::new(),
            body_landed: HashSet::new(),
        }
    }
}


/// A node that is already unlocked cannot be unlocked again.
pub proof fn law_unlocked_node_cannot_be_unlocked_again(t: TechTree, id: Seq<char>)
    requires
        t.spec_is_unlocked(id),
    ensures
        !t.spec_can_unlock(id),
{
}

/// Upgrading an efficiency line never takes it past the maximum tier.
pub proof fn law_upgrade_stays_within_max_tier(t: TechTree, id: Seq<char>)
    requires
        t.spec_can_upgrade_line(id),
    ensures
        t.spec_line_tier(id) + 1 <= MAX_LINE_TIER,
{
}

/// A recipe that no efficiency line gates is always available.
pub proof fn law_ungated_recipe_is_available(t: TechTree, recipe: Seq<char>)
    requires
        first_gate(t.efficiency_lines@, recipe) is None,
    ensures
        t.spec_is_recipe_available(recipe),
{
}

/// A node can be unlocked only when all of its prerequisites are unlocked.
pub proof fn law_unlock_needs_prerequisites(t: TechTree, id: Seq<char>, i: int, k: int)
    requires
        t.spec_can_unlock(id),
        is_first_node(t.nodes@, id, i),
        0 <= k < t.nodes@[i].prerequisites@.len(),
    ensures
        t.spec_is_unlocked(t.nodes@[i].prerequisites@[k]@),
{
    let j = choose|j: int| is_first_node(t.nodes@, id, j) && !t.spec_is_unlocked(id) && forall|m: int|
        0 <= m < t.nodes@[j].prerequisites@.len() ==> t.spec_is_unlocked((#[trigger] t.nodes@[j].prerequisites@[m])@);
    if j < i {
        assert(t.nodes@[j].id@ != id);
    } else if j > i {
        assert(t.nodes@[i].id@ != id);
    }
}

} // verus!
