//! Editor state that the staging rules work on, and the editor's display settings.

use vstd::prelude::*;
use std::collections::HashSet;

verus! {

broadcast use vstd::std_specs::hash::group_hash_axioms;

/// Identifier of a part placed in the editor.
pub type PlacedPartId = u64;

/// TWR display settings.
#[derive(Debug, Clone, Copy, PartialEq, Eq, Structural)]
pub struct TwrSettings {
    /// Which body to calculate TWR for.
    pub body_index: usize,
    /// Show ASL TWR (vs vacuum).
    pub show_asl: bool,
}

impl Default for TwrSettings {
    fn default() -> (r: Self)
        ensures
            r.body_index == 4,
            r.show_asl,
    {
        TwrSettings { body_index: 4, show_asl: true }
    }
}

/// Tracks which camera movement keys are held.
#[derive(Debug, Clone, Copy, PartialEq, Eq, Structural)]
pub struct CameraKeys {
    pub up: bool,
    pub down: bool,
    pub left: bool,
    pub right: bool,
}

impl Default for CameraKeys {
    fn default() -> (r: Self)
        ensures
            !r.up && !r.down && !r.left && !r.right,
    {
        CameraKeys { up: false, down: false, left: false, right: false }
    }
}

/// The stages of a vessel in the editor (each a list of part ids, fired from the
/// first stage on), and the engine selected in the staging panel.
pub struct StagingPlan {
    pub stages: Vec<Vec<PlacedPartId>>,
    pub selected_engine: Option<PlacedPartId>,
}

/// The stages as sequences of part ids.
pub open spec fn stages_view(v: Seq<Vec<PlacedPartId>>) -> Seq<Seq<PlacedPartId>> {
    v.map_values(|s: Vec<PlacedPartId>| s@)
}

/// Whether `x` is the part `a` or its mirror partner `b`.
pub open spec fn is_part_or_mirror(x: PlacedPartId, a: PlacedPartId, b: Option<PlacedPartId>) -> bool {
    x == a || b == Some(x)
}

/// A stage without the part `a` and its mirror partner `b`.
pub open spec fn strip(st: Seq<PlacedPartId>, a: PlacedPartId, b: Option<PlacedPartId>) -> Seq<PlacedPartId> {
    st.filter(|x: PlacedPartId| !is_part_or_mirror(x, a, b))
}

/// The stages after moving the part `a` (with its mirror partner `b`) into stage `target`.
pub open spec fn moved_stages(old: Seq<Seq<PlacedPartId>>, a: PlacedPartId, b: Option<PlacedPartId>, target: int) -> Seq<Seq<PlacedPartId>> {
    Seq::new(old.len(), |i: int|
        if i == target {
            match b {
                Some(m) => strip(old[i], a, b).push(a).push(m),
                None => strip(old[i], a, b).push(a),
            }
        } else {
            strip(old[i], a, b)
        })
}

/// Where a stage moved from `from` to position `to` lands once it has been taken out.
pub open spec fn insert_position(from: int, to: int, len_after_removal: int) -> int {
    if from < to {
        if to - 1 < len_after_removal { to - 1 } else { len_after_removal }
    } else {
        if to < len_after_removal { to } else { len_after_removal }
    }
}

impl StagingPlan {
    pub open spec fn view(&self) -> Seq<Seq<PlacedPartId>> {
        stages_view(self.stages@)
    }

    /// An empty plan.
    pub fn new() -> (r: StagingPlan)
        ensures
            r.view().len() == 0,
            r.selected_engine is None,
    {
        StagingPlan { stages: Vec::new(), selected_engine: None }
    }

    /// Remove the part `part_id` and its mirror partner from every stage, keeping
    /// the order of everything else.
    fn strip_part(&mut self, part_id: PlacedPartId, mirror_id: Option<PlacedPartId>)
        ensures
            final(self).view() == old(self).view().map_values(|st: Seq<PlacedPartId>| strip(st, part_id, mirror_id)),
            final(self).selected_engine == old(self).selected_engine,
    {
        let ghost keep = |x: PlacedPartId| !is_part_or_mirror(x, part_id, mirror_id);
        let mut out: Vec<Vec<PlacedPartId>> = Vec::new();
        let mut i: usize = 0;
        while i < self.stages.len()
            invariant
                0 <= i <= self.stages@.len(),
                self.stages@ == old(self).stages@,
                self.selected_engine == old(self).selected_engine,
                out@.len() == i,
                forall|x: PlacedPartId| #[trigger] keep(x) == !is_part_or_mirror(x, part_id, mirror_id),
                forall|j: int| 0 <= j < i ==> (#[trigger] out@[j])@ == strip(self.stages@[j]@, part_id, mirror_id),
            decreases self.stages@.len() - i,
        {
            let stage = &self.stages[i];
            let mut kept: Vec<PlacedPartId> = Vec::new();
            let mut k: usize = 0;
            proof {
                reveal_with_fuel(Seq::filter, 1);
                assert(stage@.take(0) =~= Seq::<PlacedPartId>::empty());
            }
            while k < stage.len()
                invariant
                    0 <= k <= stage@.len(),
                    forall|x: PlacedPartId| #[trigger] keep(x) == !is_part_or_mirror(x, part_id, mirror_id),
                    kept@ == stage@.take(k as int).filter(keep),
                decreases stage@.len() - k,
            {
                let x = stage[k];
                proof {
                    assert(stage@.take(k + 1) =~= stage@.take(k as int).push(x));
                    stage@.take(k as int).lemma_filter_push(x, keep);
                }
                let hit = x == part_id || match mirror_id {
                    Some(m) => x == m,
                    None => false,
                };
                if !hit {
                    kept.push(x);
                }
                k += 1;
            }
            proof {
                assert(stage@.take(k as int) =~= stage@);
                assert((|x: PlacedPartId| !is_part_or_mirror(x, part_id, mirror_id)) =~= keep);
                assert(strip(stage@, part_id, mirror_id) =~= stage@.filter(keep));
            }
            out.push(kept);
            i += 1;
        }
        self.stages = out;
        proof {
            assert(self.view() =~= old(self).view().map_values(|st: Seq<PlacedPartId>| strip(st, part_id, mirror_id)));
        }
    }

    /// Move a part (and its mirror partner, if any) to the stage `target_stage_idx`:
    /// it leaves every stage, then joins the target stage at its end when that
    /// stage exists. The staging selection is cleared.
    pub fn move_part_to_stage(&mut self, part_id: PlacedPartId, mirror_id: Option<PlacedPartId>, target_stage_idx: usize)
        ensures
            final(self).view() == if target_stage_idx < old(self).view().len() {
                moved_stages(old(self).view(), part_id, mirror_id, target_stage_idx as int)
            } else {
                old(self).view().map_values(|st: Seq<PlacedPartId>| strip(st, part_id, mirror_id))
            },
    {
        self.strip_part(part_id, mirror_id);
        let ghost stripped = self.view();
        assert(stripped == old(self).view().map_values(|st: Seq<PlacedPartId>| strip(st, part_id, mirror_id)));
        assert(stripped.len() == old(self).view().len());
        assert(forall|i: int| 0 <= i < stripped.len() ==> #[trigger] stripped[i] == strip(old(self).view()[i], part_id, mirror_id));
        if target_stage_idx < self.stages.len() {
            let mut stage = self.stages[target_stage_idx].clone();
            proof {
                assert(stage@ =~= self.stages@[target_stage_idx as int]@);
            }
            stage.push(part_id);
            match mirror_id {
                Some(m) => {
                    stage.push(m);
                },
                None => {},
            }
            let ghost st = stage@;
            self.stages.set(target_stage_idx, stage);
            proof {
                let t = target_stage_idx as int;
                assert(st == match mirror_id {
                    Some(m) => stripped[t].push(part_id).push(m),
                    None => stripped[t].push(part_id),
                });
                assert forall|i: int| 0 <= i < self.view().len() implies #[trigger] self.view()[i]
                    == moved_stages(old(self).view(), part_id, mirror_id, t)[i] by {
                    assert(stripped[i] == strip(old(self).view()[i], part_id, mirror_id));
                    if i != t {
                        assert(self.stages@[i] == old(self).stages@[i] || true);
                    }
                }
                assert(self.view() =~= moved_stages(old(self).view(), part_id, mirror_id, target_stage_idx as int));
            }
        }
        self.selected_engine = None;
    }

    /// Remove a deleted part and its mirror partner from every stage, drop the
    /// stages left empty, and clear the staging selection if it was one of them.
    pub fn remove_part(&mut self, part_id: PlacedPartId, mirror_id: Option<PlacedPartId>)
        ensures
            final(self).view() == old(self).view().map_values(|st: Seq<PlacedPartId>| strip(st, part_id, mirror_id)).filter(
                |st: Seq<PlacedPartId>| st.len() > 0),
            final(self).selected_engine == match old(self).selected_engine {
                Some(e) => if is_part_or_mirror(e, part_id, mirror_id) { None } else { Some(e) },
                None => None,
            },
    {
        self.strip_part(part_id, mirror_id);
        let ghost stripped = self.view();
        let ghost nonempty = |st: Seq<PlacedPartId>| st.len() > 0;
        let mut rest: Vec<Vec<PlacedPartId>> = Vec::new();
        std::mem::swap(&mut rest, &mut self.stages);
        let n = rest.len();
        let mut i: usize = 0;
        proof {
            assert(stripped.take(0) =~= Seq::<Seq<PlacedPartId>>::empty());
            assert(rest@.skip(0) =~= rest@);
            assert(stripped.skip(0) =~= stripped);
            reveal_with_fuel(Seq::filter, 1);
        }
        while i < n
            invariant
                0 <= i <= n,
                n == stripped.len(),
                forall|st: Seq<PlacedPartId>| #[trigger] nonempty(st) == (st.len() > 0),
                stages_view(rest@) == stripped.skip(i as int),
                rest@.len() == n - i,
                self.view() == stripped.take(i as int).filter(nonempty),
                self.selected_engine == old(self).selected_engine,
            decreases n - i,
        {
            let ghost rest_before = rest@;
            let st = rest.remove(0);
            proof {
                assert(stages_view(rest_before)[0] == stripped.skip(i as int)[0]);
                assert(stages_view(rest_before)[0] == rest_before[0]@);
                assert(st@ == stripped[i as int]);
                assert forall|k: int| 0 <= k < rest@.len() implies #[trigger] stages_view(rest@)[k] == stripped.skip(i + 1)[k] by {
                    assert(rest@[k] == rest_before[k + 1]);
                    assert(stages_view(rest_before)[k + 1] == stripped.skip(i as int)[k + 1]);
                }
                assert(stages_view(rest@) =~= stripped.skip(i + 1));
                assert(stripped.take(i + 1) =~= stripped.take(i as int).push(st@));
                stripped.take(i as int).lemma_filter_push(st@, nonempty);
            }
            if st.len() > 0 {
                self.stages.push(st);
            }
            proof {
                assert(self.view() =~= stripped.take(i + 1).filter(nonempty));
            }
            i += 1;
        }
        proof {
            assert(stripped.take(n as int) =~= stripped);
            assert((|st: Seq<PlacedPartId>| st.len() > 0) =~= nonempty);
        }
        let clear = match self.selected_engine {
            Some(e) => e == part_id || match mirror_id {
                Some(m) => e == m,
                None => false,
            },
            None => false,
        };
        if clear {
            self.selected_engine = None;
        }
    }

    /// Add newly placed parts that take part in staging (engines, decouplers,
    /// fairings) to the first stage, creating it when there are no stages.
    pub fn add_to_first_stage(&mut self, part_id: PlacedPartId, mirror_id: Option<PlacedPartId>)
        ensures
            ({
                let added = match mirror_id {
                    Some(m) => seq![part_id, m],
                    None => seq![part_id],
                };
                final(self).view() == if old(self).view().len() == 0 {
                    seq![added]
                } else {
                    old(self).view().update(0, old(self).view()[0] + added)
                }
            }),
            final(self).selected_engine == old(self).selected_engine,
    {
        if self.stages.len() == 0 {
            self.stages.push(Vec::new());
        }
        let ghost before = self.view();
        let mut first = self.stages[0].clone();
        proof {
            assert(first@ =~= self.stages@[0]@);
        }
        first.push(part_id);
        match mirror_id {
            Some(m) => {
                first.push(m);
            },
            None => {},
        }
        let ghost f = first@;
        self.stages.set(0, first);
        proof {
            let added = match mirror_id {
                Some(m) => seq![part_id, m],
                None => seq![part_id],
            };
            assert(f =~= before[0] + added);
            if old(self).view().len() == 0 {
                assert(before[0] =~= Seq::<PlacedPartId>::empty());
                assert(self.view() =~= seq![added]);
            } else {
                assert(before == old(self).view());
                assert(self.view() =~= old(self).view().update(0, old(self).view()[0] + added));
            }
        }
    }

    /// Move the stage at `from_idx` to position `to_pos` (positions count before the
    /// stage is taken out). Nothing happens when `from_idx` is not a stage.
    pub fn move_stage(&mut self, from_idx: usize, to_pos: usize)
        ensures
            final(self).view() == if from_idx < old(self).view().len() {
                old(self).view().remove(from_idx as int).insert(
                    insert_position(from_idx as int, to_pos as int, old(self).view().len() - 1),
                    old(self).view()[from_idx as int],
                )
            } else {
                old(self).view()
            },
            final(self).selected_engine == old(self).selected_engine,
    {
        if from_idx < self.stages.len() {
            let ghost before = self.stages@;
            let stage = self.stages.remove(from_idx);
            let insert_at = if from_idx < to_pos {
                if to_pos - 1 < self.stages.len() { to_pos - 1 } else { self.stages.len() }
            } else {
                if to_pos < self.stages.len() { to_pos } else { self.stages.len() }
            };
            self.stages.insert(insert_at, stage);
            proof {
                assert(stages_view(before.remove(from_idx as int)) =~= stages_view(before).remove(from_idx as int));
                assert(self.view() =~= stages_view(before).remove(from_idx as int).insert(insert_at as int, stages_view(before)[from_idx as int]));
            }
        }
    }

    /// Insert an empty stage at `idx`.
    pub fn insert_empty_stage(&mut self, idx: usize)
        requires
            idx <= old(self).view().len(),
        ensures
            final(self).view() == old(self).view().insert(idx as int, Seq::<PlacedPartId>::empty()),
            final(self).selected_engine == old(self).selected_engine,
    {
        self.stages.insert(idx, Vec::new());
        assert(self.view() =~= old(self).view().insert(idx as int, Seq::<PlacedPartId>::empty()));
    }

    /// Delete the stage at `idx`, with the parts in it.
    pub fn delete_stage(&mut self, idx: usize)
        requires
            idx < old(self).view().len(),
        ensures
            final(self).view() == old(self).view().remove(idx as int),
            final(self).selected_engine == old(self).selected_engine,
    {
        self.stages.remove(idx);
        assert(self.view() =~= old(self).view().remove(idx as int));
    }

    /// When there are no stages yet, make the given engines the first stage
    /// (if there are any).
    pub fn fill_first_stage_if_empty(&mut self, engine_ids: Vec<PlacedPartId>)
        ensures
            final(self).view() == if old(self).view().len() == 0 && engine_ids@.len() > 0 {
                seq![engine_ids@]
            } else {
                old(self).view()
            },
            final(self).selected_engine == old(self).selected_engine,
    {
        if self.stages.len() == 0 && engine_ids.len() > 0 {
            let ghost e = engine_ids@;
            self.stages.push(engine_ids);
            assert(self.view() =~= seq![e]);
        }
    }

    /// The stages restricted to the parts in `connected`, without the stages this
    /// leaves empty (the staging written into a blueprint).
    pub fn connected_stages(&self, connected: &HashSet<PlacedPartId>) -> (r: Vec<Vec<PlacedPartId>>)
        ensures
            stages_view(r@) == self.view().map_values(|st: Seq<PlacedPartId>| st.filter(|x: PlacedPartId| connected@.contains(x))).filter(
                |st: Seq<PlacedPartId>| st.len() > 0),
    {
        let ghost inset = |x: PlacedPartId| connected@.contains(x);
        let ghost nonempty = |st: Seq<PlacedPartId>| st.len() > 0;
        let ghost filtered = self.view().map_values(|st: Seq<PlacedPartId>| st.filter(|x: PlacedPartId| connected@.contains(x)));
        let mut out: Vec<Vec<PlacedPartId>> = Vec::new();
        let mut i: usize = 0;
        proof {
            reveal_with_fuel(Seq::filter, 1);
            assert(filtered.take(0) =~= Seq::<Seq<PlacedPartId>>::empty());
        }
        while i < self.stages.len()
            invariant
                0 <= i <= self.stages@.len(),
                filtered == self.view().map_values(|st: Seq<PlacedPartId>| st.filter(|x: PlacedPartId| connected@.contains(x))),
                forall|x: PlacedPartId| #[trigger] inset(x) == connected@.contains(x),
                forall|st: Seq<PlacedPartId>| #[trigger] nonempty(st) == (st.len() > 0),
                stages_view(out@) == filtered.take(i as int).filter(nonempty),
            decreases self.stages@.len() - i,
        {
            let stage = &self.stages[i];
            let mut kept: Vec<PlacedPartId> = Vec::new();
            let mut k: usize = 0;
            proof {
                assert(stage@.take(0) =~= Seq::<PlacedPartId>::empty());
            }
            while k < stage.len()
                invariant
                    0 <= k <= stage@.len(),
                    forall|x: PlacedPartId| #[trigger] inset(x) == connected@.contains(x),
                    kept@ == stage@.take(k as int).filter(inset),
                decreases stage@.len() - k,
            {
                let x = stage[k];
                proof {
                    assert(stage@.take(k + 1) =~= stage@.take(k as int).push(x));
                    stage@.take(k as int).lemma_filter_push(x, inset);
                }
                if connected.contains(&x) {
                    kept.push(x);
                }
                k += 1;
            }
            proof {
                assert(stage@.take(k as int) =~= stage@);
                assert((|x: PlacedPartId| connected@.contains(x)) =~= inset);
                assert(filtered[i as int] == kept@);
                assert(filtered.take(i + 1) =~= filtered.take(i as int).push(kept@));
                filtered.take(i as int).lemma_filter_push(kept@, nonempty);
            }
            if kept.len() > 0 {
                out.push(kept);
            }
            proof {
                assert(stages_view(out@) =~= filtered.take(i + 1).filter(nonempty));
            }
            i += 1;
        }
        proof {
            assert(filtered.take(i as int) =~= filtered);
            assert((|st: Seq<PlacedPartId>| st.len() > 0) =~= nonempty);
        }
        out
    }

    /// Move an engine to a different stage.
    pub fn move_engine_to_stage(&mut self, engine_id: PlacedPartId, target_stage_idx: usize)
        ensures
            final(self).view() == if target_stage_idx < old(self).view().len() {
                moved_stages(old(self).view(), engine_id, None, target_stage_idx as int)
            } else {
                old(self).view().map_values(|st: Seq<PlacedPartId>| strip(st, engine_id, None))
            },
            final(self).selected_engine is None,
    {
        self.move_part_to_stage(engine_id, None, target_stage_idx);
        self.selected_engine = None;
    }
}


/// Whether part `j` welds onto part `i`, both given by their position in the
/// list of placed parts: `welded[i][j]` (both parts have a definition and their
/// welding hitboxes overlap).
pub open spec fn weld_step(welded: Seq<Seq<bool>>, i: int, j: int) -> bool {
    0 <= i < welded.len() && 0 <= j < welded[i].len() && welded[i][j]
}

/// The parts reached from part `root` along at most `k` welds.
pub open spec fn reached_within(welded: Seq<Seq<bool>>, root: int, k: nat) -> Set<int>
    decreases k,
{
    if k == 0 {
        set![root]
    } else {
        let prev = reached_within(welded, root, (k - 1) as nat);
        prev.union(Set::new(|j: int| exists|i: int| prev.contains(i) && #[trigger] weld_step(welded, i, j)))
    }
}

/// Whether part `j` is connected to part `root` through a chain of welds.
pub open spec fn welded_to(welded: Seq<Seq<bool>>, root: int, j: int) -> bool {
    exists|k: nat| #[trigger] reached_within(welded, root, k).contains(j)
}

/// The weld matrix as sequences.
pub open spec fn weld_view(welded: Seq<Vec<bool>>) -> Seq<Seq<bool>> {
    welded.map_values(|row: Vec<bool>| row@)
}

/// The number of marked entries.
pub open spec fn marked(v: Seq<bool>) -> nat
    decreases v.len(),
{
    if v.len() == 0 {
        0
    } else {
        marked(v.drop_last()) + if v.last() { 1nat } else { 0nat }
    }
}

proof fn lemma_marked_bounded(v: Seq<bool>)
    ensures
        marked(v) <= v.len(),
    decreases v.len(),
{
    if v.len() > 0 {
        lemma_marked_bounded(v.drop_last());
    }
}

proof fn lemma_marked_update(v: Seq<bool>, j: int)
    requires
        0 <= j < v.len(),
        !v[j],
    ensures
        marked(v.update(j, true)) == marked(v) + 1,
    decreases v.len(),
{
    let w = v.update(j, true);
    if j == v.len() - 1 {
        assert(w.drop_last() =~= v.drop_last());
    } else {
        assert(w.drop_last() =~= v.drop_last().update(j, true));
        lemma_marked_update(v.drop_last(), j);
    }
}

/// Every part reached from the root lies in a set that holds the root and every
/// part welded onto one of its parts.
proof fn lemma_closed_holds_reached(welded: Seq<Seq<bool>>, root: int, visited: Seq<bool>, j: int, k: nat)
    requires
        0 <= root < visited.len(),
        visited[root],
        forall|a: int, b: int| 0 <= a < visited.len() && visited[a] && #[trigger] weld_step(welded, a, b) ==> 0 <= b < visited.len() && visited[b],
        reached_within(welded, root, k).contains(j),
    ensures
        0 <= j < visited.len() && visited[j],
    decreases k,
{
    if k > 0 {
        let prev = reached_within(welded, root, (k - 1) as nat);
        if prev.contains(j) {
            lemma_closed_holds_reached(welded, root, visited, j, (k - 1) as nat);
        } else {
            let i = choose|i: int| prev.contains(i) && #[trigger] weld_step(welded, i, j);
            lemma_closed_holds_reached(welded, root, visited, i, (k - 1) as nat);
        }
    }
}

/// The ids of the parts connected to the root part through welds (none without
/// a root). `ids` lists the placed parts, each once; `welded[i][j]` says whether
/// part `ids[j]` welds onto part `ids[i]`.
pub fn connected_part_ids(root: Option<PlacedPartId>, ids: &Vec<PlacedPartId>, welded: &Vec<Vec<bool>>) -> (r: HashSet<PlacedPartId>)
    requires
        ids@.no_duplicates(),
        root matches Some(x) ==> ids@.contains(x),
        welded@.len() == ids@.len(),
        forall|i: int| 0 <= i < welded@.len() ==> (#[trigger] welded@[i])@.len() == ids@.len(),
    ensures
        match root {
            None => r@ == Set::<PlacedPartId>::empty(),
            Some(x) => forall|id: PlacedPartId| r@.contains(id) <==> exists|i: int, j: int| #![trigger ids@[i], ids@[j]]
                0 <= i < ids@.len() && 0 <= j < ids@.len() && ids@[i] == x && ids@[j] == id
                && welded_to(weld_view(welded@), i, j),
        },
{
    let root_id = match root {
        Some(x) => x,
        None => return HashSet::new(),
    };
    let n = ids.len();
    let ghost w = weld_view(welded@);
    let mut ri: usize = 0;
    while ri < n && ids[ri] != root_id
        invariant
            n == ids@.len(),
            0 <= ri <= n,
            ids@.contains(root_id),
            forall|m: int| 0 <= m < ri ==> ids@[m] != root_id,
        decreases n - ri,
    {
        ri += 1;
    }
    assert(ri < n);
    let mut visited: Vec<bool> = Vec::new();
    let mut m: usize = 0;
    while m < n
        invariant
            0 <= m <= n,
            visited@.len() == m,
            forall|q: int| 0 <= q < m ==> !visited@[q],
        decreases n - m,
    {
        visited.push(false);
        m += 1;
    }
    proof {
        assert(marked(visited@) == 0) by {
            let v = visited@;
            assert forall|l: nat| l <= v.len() implies marked(#[trigger] v.take(l as int)) == 0 by {
                lemma_marked_take_zero(v, l);
            }
            assert(v.take(v.len() as int) =~= v);
        }
        lemma_marked_update(visited@, ri as int);
        assert(reached_within(w, ri as int, 0).contains(ri as int));
    }
    let ghost unmarked = visited@;
    visited.set(ri, true);
    let mut queue: Vec<usize> = Vec::new();
    queue.push(ri);
    proof {
        assert(queue@[0] == ri);
        assert forall|j: int| 0 <= j < n && visited@[j] implies #[trigger] queue@.contains(j as usize) by {
            if j != ri as int {
                assert(visited@[j] == unmarked[j]);
            }
        }
        assert forall|j: int| 0 <= j < n && #[trigger] visited@[j] implies welded_to(w, ri as int, j) by {
            if j != ri as int {
                assert(visited@[j] == unmarked[j]);
            }
            assert(reached_within(w, ri as int, 0).contains(ri as int));
        }
    }
    let mut head: usize = 0;
    while head < queue.len()
        invariant
            n == ids@.len(),
            w == weld_view(welded@),
            w.len() == n,
            forall|i: int| 0 <= i < n ==> (#[trigger] welded@[i])@.len() == n,
            ri < n,
            visited@.len() == n,
            visited@[ri as int],
            0 <= head <= queue@.len(),
            queue@.len() == marked(visited@),
            forall|q: int| 0 <= q < queue@.len() ==> (#[trigger] queue@[q]) < n && visited@[queue@[q] as int],
            forall|j: int| 0 <= j < n && visited@[j] ==> #[trigger] queue@.contains(j as usize),
            forall|q: int, j: int| 0 <= q < head && #[trigger] weld_step(w, queue@[q] as int, j) ==> 0 <= j < n && visited@[j],
            forall|j: int| 0 <= j < n && #[trigger] visited@[j] ==> welded_to(w, ri as int, j),
        decreases n - head,
    {
        proof {
            lemma_marked_bounded(visited@);
        }
        let cur = queue[head];
        let mut j: usize = 0;
        while j < n
            invariant
                n == ids@.len(),
                w == weld_view(welded@),
                w.len() == n,
                forall|i: int| 0 <= i < n ==> (#[trigger] welded@[i])@.len() == n,
                ri < n,
                cur < n,
                visited@[cur as int],
                welded_to(w, ri as int, cur as int),
                visited@.len() == n,
                visited@[ri as int],
                0 <= j <= n,
                head < queue@.len(),
                queue@[head as int] == cur,
                queue@.len() == marked(visited@),
                forall|q: int| 0 <= q < queue@.len() ==> (#[trigger] queue@[q]) < n && visited@[queue@[q] as int],
                forall|x: int| 0 <= x < n && visited@[x] ==> #[trigger] queue@.contains(x as usize),
                forall|q: int, x: int| 0 <= q < head && #[trigger] weld_step(w, queue@[q] as int, x) ==> 0 <= x < n && visited@[x],
                forall|x: int| 0 <= x < j && weld_step(w, cur as int, x) ==> visited@[x],
                forall|x: int| 0 <= x < n && #[trigger] visited@[x] ==> welded_to(w, ri as int, x),
            decreases n - j,
        {
            if welded[cur][j] && !visited[j] {
                proof {
                    lemma_marked_update(visited@, j as int);
                    let k = choose|k: nat| #[trigger] reached_within(w, ri as int, k).contains(cur as int);
                    assert(w[cur as int][j as int] == welded@[cur as int]@[j as int]);
                    assert(weld_step(w, cur as int, j as int));
                    assert(reached_within(w, ri as int, (k + 1) as nat).contains(j as int));
                }
                let ghost q0 = queue@;
                visited.set(j, true);
                queue.push(j);
                proof {
                    assert(queue@[q0.len() as int] == j);
                    assert forall|x: int| 0 <= x < n && visited@[x] implies #[trigger] queue@.contains(x as usize) by {
                        if x == j as int {
                            assert(queue@[q0.len() as int] == x as usize);
                        } else {
                            assert(q0.contains(x as usize));
                            let p = choose|p: int| 0 <= p < q0.len() && q0[p] == x as usize;
                            assert(queue@[p] == q0[p]);
                        }
                    }
                    assert forall|q: int| 0 <= q < queue@.len() implies (#[trigger] queue@[q]) < n && visited@[queue@[q] as int] by {
                        if q < q0.len() {
                            assert(queue@[q] == q0[q]);
                        }
                    }
                }
            } else {
                proof {
                    if weld_step(w, cur as int, j as int) {
                        assert(w[cur as int][j as int] == welded@[cur as int]@[j as int]);
                    }
                }
            }
            j += 1;
        }
        proof {
            assert forall|q: int, x: int| 0 <= q < head + 1 && #[trigger] weld_step(w, queue@[q] as int, x) implies 0 <= x < n && visited@[x] by {
                if q == head as int {
                    assert(x < n);
                }
            }
        }
        head += 1;
    }
    proof {
        assert forall|a: int, b: int| 0 <= a < visited@.len() && visited@[a] && #[trigger] weld_step(w, a, b) implies 0 <= b < visited@.len() && visited@[b] by {
            assert(queue@.contains(a as usize));
            let q = choose|q: int| 0 <= q < queue@.len() && queue@[q] == a as usize;
            assert(weld_step(w, queue@[q] as int, b));
        }
    }
    let mut r: HashSet<PlacedPartId> = HashSet::new();
    let mut j: usize = 0;
    while j < n
        invariant
            n == ids@.len(),
            visited@.len() == n,
            0 <= j <= n,
            forall|id: PlacedPartId| r@.contains(id) <==> exists|x: int| 0 <= x < j && visited@[x] && #[trigger] ids@[x] == id,
        decreases n - j,
    {
        if visited[j] {
            r.insert(ids[j]);
            proof {
                assert forall|id: PlacedPartId| r@.contains(id) implies exists|x: int| 0 <= x < j + 1 && visited@[x] && #[trigger] ids@[x] == id by {
                    if id == ids@[j as int] {
                        assert(visited@[j as int] && ids@[j as int] == id);
                    }
                }
            }
        }
        j += 1;
    }
    proof {
        assert forall|id: PlacedPartId| r@.contains(id) <==> exists|i: int, j: int| #![trigger ids@[i], ids@[j]]
            0 <= i < ids@.len() && 0 <= j < ids@.len() && ids@[i] == root_id && ids@[j] == id
            && welded_to(w, i, j) by {
            if r@.contains(id) {
                let x = choose|x: int| 0 <= x < n && visited@[x] && #[trigger] ids@[x] == id;
                assert(ids@[ri as int] == root_id);
                assert(welded_to(w, ri as int, x));
            }
            if exists|i: int, j: int| #![trigger ids@[i], ids@[j]] 0 <= i < ids@.len() && 0 <= j < ids@.len() && ids@[i] == root_id && ids@[j] == id && welded_to(w, i, j) {
                let (i, x) = choose|i: int, j: int| #![trigger ids@[i], ids@[j]] 0 <= i < ids@.len() && 0 <= j < ids@.len() && ids@[i] == root_id && ids@[j] == id && welded_to(w, i, j);
                assert(i == ri as int);
                let k = choose|k: nat| #[trigger] reached_within(w, i, k).contains(x);
                lemma_closed_holds_reached(w, ri as int, visited@, x, k);
            }
        }
    }
    r
}

proof fn lemma_marked_take_zero(v: Seq<bool>, l: nat)
    requires
        l <= v.len(),
        forall|q: int| 0 <= q < v.len() ==> !v[q],
    ensures
        marked(v.take(l as int)) == 0,
    decreases l,
{
    if l > 0 {
        assert(v.take(l as int).drop_last() =~= v.take(l - 1));
        lemma_marked_take_zero(v, (l - 1) as nat);
    }
}

/// The root part is always connected to itself, so a vessel keeps its root
/// when disconnected parts are dropped.
pub proof fn law_root_is_connected(welded: Seq<Seq<bool>>, root: int)
    ensures
        welded_to(welded, root, root),
{
    assert(reached_within(welded, root, 0).contains(root));
}

/// A part welded onto a connected part is connected too: the connected parts
/// are closed under welding.
pub proof fn law_connection_follows_welds(welded: Seq<Seq<bool>>, root: int, i: int, j: int)
    requires
        welded_to(welded, root, i),
        weld_step(welded, i, j),
    ensures
        welded_to(welded, root, j),
{
    let k = choose|k: nat| #[trigger] reached_within(welded, root, k).contains(i);
    assert(reached_within(welded, root, k + 1).contains(j));
}

/// A part placed in the editor, as deleting parts sees it: its id and its
/// mirror partner, if linked.
#[derive(Debug, Clone, Copy, PartialEq, Eq, Structural)]
pub struct PlacedPartLink {
    pub id: PlacedPartId,
    pub mirror_partner: Option<PlacedPartId>,
}

/// What deleting a part in the editor touches: the placed parts, the root
/// part, the selected placed part, the part whose fairing is being built, and
/// the staging.
pub struct EditorParts {
    pub parts: Vec<PlacedPartLink>,
    pub root_part: Option<PlacedPartId>,
    pub selected_placed_part: Option<PlacedPartId>,
    pub fairing_part: Option<PlacedPartId>,
    pub staging: StagingPlan,
}

/// The mirror partner of the first placed part with id `id` (none when there
/// is no such part).
pub open spec fn mirror_of(parts: Seq<PlacedPartLink>, id: PlacedPartId) -> Option<PlacedPartId> {
    if exists|i: int| 0 <= i < parts.len() && (#[trigger] parts[i]).id == id {
        parts[choose|i: int| 0 <= i < parts.len() && parts[i].id == id && forall|j: int| 0 <= j < i ==> (#[trigger] parts[j]).id != id].mirror_partner
    } else {
        None
    }
}

/// The placed parts left after deleting `a` and its mirror partner `m`.
pub open spec fn parts_without(parts: Seq<PlacedPartLink>, a: PlacedPartId, m: Option<PlacedPartId>) -> Seq<PlacedPartLink> {
    parts.filter(|p: PlacedPartLink| !is_part_or_mirror(p.id, a, m))
}

/// The mirror partner of the first placed part with id `id`.
fn mirror_lookup(parts: &Vec<PlacedPartLink>, id: PlacedPartId) -> (r: Option<PlacedPartId>)
    ensures
        r == mirror_of(parts@, id),
{
    let mut i: usize = 0;
    while i < parts.len()
        invariant
            0 <= i <= parts@.len(),
            forall|j: int| 0 <= j < i ==> (#[trigger] parts@[j]).id != id,
        decreases parts@.len() - i,
    {
        if parts[i].id == id {
            proof {
                let k = choose|k: int| 0 <= k < parts@.len() && parts@[k].id == id && forall|j: int| 0 <= j < k ==> (#[trigger] parts@[j]).id != id;
                if k > i as int {
                    assert(parts@[i as int].id != id);
                }
            }
            return parts[i].mirror_partner;
        }
        i += 1;
    }
    None
}

impl EditorParts {
    /// Delete a part together with its mirror partner: both leave the placed
    /// parts and the staging, fairing building stops when it was on this part,
    /// a selection of either is cleared, and when the root goes (or there was
    /// no root and the part has no partner) the first remaining part becomes
    /// the root.
    pub fn delete_part(&mut self, part_id: PlacedPartId)
        ensures
            ({
                let m = mirror_of(old(self).parts@, part_id);
                let left = parts_without(old(self).parts@, part_id, m);
                &&& final(self).parts@ == left
                &&& final(self).fairing_part == if old(self).fairing_part == Some(part_id) { None } else { old(self).fairing_part }
                &&& final(self).selected_placed_part == match old(self).selected_placed_part {
                    Some(s) => if is_part_or_mirror(s, part_id, m) { None } else { Some(s) },
                    None => None,
                }
                &&& final(self).root_part == if old(self).root_part == Some(part_id) || old(self).root_part == m {
                    if left.len() > 0 { Some(left[0].id) } else { None }
                } else {
                    old(self).root_part
                }
                &&& final(self).staging.view() == old(self).staging.view().map_values(
                    |st: Seq<PlacedPartId>| strip(st, part_id, m)).filter(|st: Seq<PlacedPartId>| st.len() > 0)
                &&& final(self).staging.selected_engine == match old(self).staging.selected_engine {
                    Some(e) => if is_part_or_mirror(e, part_id, m) { None } else { Some(e) },
                    None => None,
                }
            }),
    {
        if self.fairing_part == Some(part_id) {
            self.fairing_part = None;
        }
        let ghost orig = self.parts@;
        let mirror = mirror_lookup(&self.parts, part_id);
        let ghost keep = |p: PlacedPartLink| !is_part_or_mirror(p.id, part_id, mirror);
        let ghost fairing = self.fairing_part;
        let ghost selected = self.selected_placed_part;
        let ghost root = self.root_part;
        let ghost staging_before = self.staging.view();
        let ghost engine = self.staging.selected_engine;
        let mut rest: Vec<PlacedPartLink> = Vec::new();
        std::mem::swap(&mut rest, &mut self.parts);
        let n = rest.len();
        let mut k: usize = 0;
        proof {
            reveal_with_fuel(Seq::filter, 1);
            assert(orig.take(0) =~= Seq::<PlacedPartLink>::empty());
            assert(orig.skip(0) =~= orig);
        }
        while k < n
            invariant
                n == orig.len(),
                0 <= k <= n,
                rest@ == orig.skip(k as int),
                forall|p: PlacedPartLink| #[trigger] keep(p) == !is_part_or_mirror(p.id, part_id, mirror),
                self.parts@ == orig.take(k as int).filter(keep),
                self.fairing_part == fairing,
                self.selected_placed_part == selected,
                self.root_part == root,
                self.staging.view() == staging_before,
                self.staging.selected_engine == engine,
            decreases n - k,
        {
            let p = rest.remove(0);
            proof {
                assert(p == orig[k as int]);
                assert(rest@ =~= orig.skip(k + 1));
                assert(orig.take(k + 1) =~= orig.take(k as int).push(p));
                orig.take(k as int).lemma_filter_push(p, keep);
            }
            let drop = p.id == part_id || (match mirror {
                Some(mid) => p.id == mid,
                None => false,
            });
            if !drop {
                self.parts.push(p);
            }
            k += 1;
        }
        proof {
            assert(orig.take(n as int) =~= orig);
            assert((|p: PlacedPartLink| !is_part_or_mirror(p.id, part_id, mirror)) =~= keep);
        }
        let root_gone = self.root_part == Some(part_id) || self.root_part == mirror;
        if root_gone {
            self.root_part = if self.parts.len() > 0 { Some(self.parts[0].id) } else { None };
        }
        match self.selected_placed_part {
            Some(s) => {
                let hit = s == part_id || (match mirror {
                    Some(mid) => s == mid,
                    None => false,
                });
                if hit {
                    self.selected_placed_part = None;
                }
            },
            None => {},
        }
        self.staging.remove_part(part_id, mirror);
    }
}

/// After deleting a part, neither it nor its mirror partner is among the
/// placed parts.
pub proof fn law_deleted_part_is_gone(parts: Seq<PlacedPartLink>, a: PlacedPartId, m: Option<PlacedPartId>)
    ensures
        forall|i: int| 0 <= i < parts_without(parts, a, m).len() ==> !is_part_or_mirror(
            (#[trigger] parts_without(parts, a, m)[i]).id, a, m),
{
    let keep = |p: PlacedPartLink| !is_part_or_mirror(p.id, a, m);
    assert forall|i: int| 0 <= i < parts.filter(keep).len() implies keep(#[trigger] parts.filter(keep)[i]) by {
        parts.filter_lemma(keep);
    }
}

/// Stripping removes every occurrence of the part and of its mirror partner.
pub proof fn lemma_strip_removes(st: Seq<PlacedPartId>, a: PlacedPartId, b: Option<PlacedPartId>)
    ensures
        forall|x: PlacedPartId| strip(st, a, b).contains(x) ==> st.contains(x) && !is_part_or_mirror(x, a, b),
{
    let p = |x: PlacedPartId| !is_part_or_mirror(x, a, b);
    assert forall|x: PlacedPartId| strip(st, a, b).contains(x) implies st.contains(x) && !is_part_or_mirror(x, a, b) by {
        let k = choose|k: int| 0 <= k < strip(st, a, b).len() && strip(st, a, b)[k] == x;
        st.lemma_filter_pred(p, k);
        st.lemma_filter_contains_rev(p, x);
    }
}

/// After a part is moved to an existing stage, it is in that stage and in no other.
pub proof fn law_moved_part_is_in_target_stage_only(
    stages: Seq<Seq<PlacedPartId>>,
    a: PlacedPartId,
    b: Option<PlacedPartId>,
    target: int,
)
    requires
        0 <= target < stages.len(),
    ensures
        forall|i: int| 0 <= i < stages.len() ==> (#[trigger] moved_stages(stages, a, b, target)[i]).contains(a) == (i == target),
{
    assert forall|i: int| 0 <= i < stages.len() implies (#[trigger] moved_stages(stages, a, b, target)[i]).contains(a) == (i == target) by {
        lemma_strip_removes(stages[i], a, b);
        let m = moved_stages(stages, a, b, target)[i];
        if i == target {
            let s = strip(stages[i], a, b);
            match b {
                Some(mm) => {
                    assert(m[s.len() as int] == a);
                },
                None => {
                    assert(m[s.len() as int] == a);
                },
            }
        } else {
            assert(!strip(stages[i], a, b).contains(a));
        }
    }
}

/// After a part is deleted, no stage holds it or its mirror partner, and no stage is empty.
pub proof fn law_removed_part_leaves_no_trace(stages: Seq<Seq<PlacedPartId>>, a: PlacedPartId, b: Option<PlacedPartId>)
    ensures
        ({
            let after = stages.map_values(|st: Seq<PlacedPartId>| strip(st, a, b)).filter(|st: Seq<PlacedPartId>| st.len() > 0);
            forall|i: int| 0 <= i < after.len() ==> (#[trigger] after[i]).len() > 0 && !after[i].contains(a)
                && (b matches Some(m) ==> !after[i].contains(m))
        }),
{
    let stripped = stages.map_values(|st: Seq<PlacedPartId>| strip(st, a, b));
    let nonempty = |st: Seq<PlacedPartId>| st.len() > 0;
    let after = stripped.filter(nonempty);
    assert forall|i: int| 0 <= i < after.len() implies (#[trigger] after[i]).len() > 0 && !after[i].contains(a)
        && (b matches Some(m) ==> !after[i].contains(m)) by {
        stripped.lemma_filter_pred(nonempty, i);
        assert(after.contains(after[i]));
        stripped.lemma_filter_contains_rev(nonempty, after[i]);
        let k = choose|k: int| 0 <= k < stripped.len() && stripped[k] == after[i];
        lemma_strip_removes(stages[k], a, b);
    }
}

} // verus!
