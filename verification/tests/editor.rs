use std::collections::HashSet;
use sunscatter::editor::state::{
    connected_part_ids, CameraKeys, EditorParts, PlacedPartLink, StagingPlan, TwrSettings,
};
use sunscatter::editor::ui::EditorAction;

fn plan(stages: Vec<Vec<u64>>) -> StagingPlan {
    StagingPlan { stages, selected_engine: None }
}

#[test]
fn settings_defaults() {
    let t = TwrSettings::default();
    assert_eq!(t.body_index, 4);
    assert!(t.show_asl);
    let k = CameraKeys::default();
    assert!(!k.up && !k.down && !k.left && !k.right);
    assert!(matches!(EditorAction::NoAction, EditorAction::NoAction));
    assert!(matches!(EditorAction::SaveBlueprint("x".to_string()), EditorAction::SaveBlueprint(_)));
}

#[test]
fn engine_moves_to_one_stage() {
    let mut p = plan(vec![vec![1, 2], vec![3]]);
    p.selected_engine = Some(1);
    p.move_engine_to_stage(1, 1);
    assert_eq!(p.stages, vec![vec![2], vec![3, 1]]);
    assert_eq!(p.selected_engine, None);
    p.move_engine_to_stage(3, 7);
    assert_eq!(p.stages, vec![vec![2], vec![1]]);
}

#[test]
fn mirrored_part_moves_with_partner() {
    let mut p = plan(vec![vec![1, 2, 5], vec![3]]);
    p.move_part_to_stage(2, Some(5), 1);
    assert_eq!(p.stages, vec![vec![1], vec![3, 2, 5]]);
}

#[test]
fn removing_a_part_drops_empty_stages() {
    let mut p = plan(vec![vec![1], vec![2, 3], vec![4]]);
    p.selected_engine = Some(4);
    p.remove_part(4, Some(1));
    assert_eq!(p.stages, vec![vec![2, 3]]);
    assert_eq!(p.selected_engine, None);
    p.selected_engine = Some(2);
    p.remove_part(3, None);
    assert_eq!(p.stages, vec![vec![2]]);
    assert_eq!(p.selected_engine, Some(2));
}

#[test]
fn first_stage_additions() {
    let mut p = StagingPlan::new();
    p.add_to_first_stage(1, None);
    assert_eq!(p.stages, vec![vec![1]]);
    p.add_to_first_stage(2, Some(3));
    assert_eq!(p.stages, vec![vec![1, 2, 3]]);
    let mut q = StagingPlan::new();
    q.fill_first_stage_if_empty(vec![]);
    assert!(q.stages.is_empty());
    q.fill_first_stage_if_empty(vec![7, 8]);
    assert_eq!(q.stages, vec![vec![7, 8]]);
    q.fill_first_stage_if_empty(vec![9]);
    assert_eq!(q.stages, vec![vec![7, 8]]);
}

#[test]
fn stage_reordering() {
    let mut p = plan(vec![vec![1], vec![2], vec![3]]);
    p.move_stage(0, 2);
    assert_eq!(p.stages, vec![vec![2], vec![1], vec![3]]);
    p.move_stage(2, 0);
    assert_eq!(p.stages, vec![vec![3], vec![2], vec![1]]);
    p.move_stage(1, 9);
    assert_eq!(p.stages, vec![vec![3], vec![1], vec![2]]);
    p.move_stage(5, 0);
    assert_eq!(p.stages, vec![vec![3], vec![1], vec![2]]);
    p.insert_empty_stage(1);
    assert_eq!(p.stages, vec![vec![3], vec![], vec![1], vec![2]]);
    p.delete_stage(0);
    assert_eq!(p.stages, vec![vec![], vec![1], vec![2]]);
}

#[test]
fn connected_staging() {
    let p = plan(vec![vec![1, 2], vec![3], vec![4, 5]]);
    let connected: HashSet<u64> = [1, 4, 5].into_iter().collect();
    assert_eq!(p.connected_stages(&connected), vec![vec![1], vec![4, 5]]);
}

fn welds(n: usize, edges: &[(usize, usize)]) -> Vec<Vec<bool>> {
    let mut w = vec![vec![false; n]; n];
    for &(a, b) in edges {
        w[a][b] = true;
    }
    w
}

#[test]
fn parts_connected_through_welds() {
    let ids = vec![10, 11, 12, 13, 14];
    // 10 - 11 - 12 chain (both directions), 13 alone, 14 welds onto 13 only.
    let w = welds(5, &[(0, 1), (1, 0), (1, 2), (2, 1), (3, 4), (4, 3)]);
    let got = connected_part_ids(Some(10), &ids, &w);
    assert_eq!(got, [10, 11, 12].into_iter().collect::<HashSet<u64>>());
    let got = connected_part_ids(Some(14), &ids, &w);
    assert_eq!(got, [13, 14].into_iter().collect::<HashSet<u64>>());
    assert!(connected_part_ids(None, &ids, &w).is_empty());
}

#[test]
fn welds_are_followed_in_their_direction() {
    let ids = vec![1, 2, 3];
    // 2 welds onto 1, 3 welds onto 2, but nothing welds onto 3.
    let w = welds(3, &[(0, 1), (1, 2)]);
    assert_eq!(connected_part_ids(Some(1), &ids, &w), [1, 2, 3].into_iter().collect::<HashSet<u64>>());
    assert_eq!(connected_part_ids(Some(3), &ids, &w), [3].into_iter().collect::<HashSet<u64>>());
    let lone = vec![7];
    assert_eq!(connected_part_ids(Some(7), &lone, &welds(1, &[])), [7].into_iter().collect::<HashSet<u64>>());
}

fn link(id: u64, mirror: Option<u64>) -> PlacedPartLink {
    PlacedPartLink { id, mirror_partner: mirror }
}

#[test]
fn deleting_a_mirrored_part() {
    let mut e = EditorParts {
        parts: vec![link(1, None), link(2, Some(3)), link(3, Some(2)), link(4, None)],
        root_part: Some(3),
        selected_placed_part: Some(2),
        fairing_part: Some(2),
        staging: StagingPlan { stages: vec![vec![2, 3], vec![4]], selected_engine: Some(3) },
    };
    e.delete_part(2);
    assert_eq!(e.parts, vec![link(1, None), link(4, None)]);
    assert_eq!(e.root_part, Some(1));
    assert_eq!(e.selected_placed_part, None);
    assert_eq!(e.fairing_part, None);
    assert_eq!(e.staging.stages, vec![vec![4]]);
    assert_eq!(e.staging.selected_engine, None);
}

#[test]
fn deleting_keeps_unrelated_state() {
    let mut e = EditorParts {
        parts: vec![link(1, None), link(5, None)],
        root_part: Some(1),
        selected_placed_part: Some(1),
        fairing_part: Some(1),
        staging: StagingPlan { stages: vec![vec![1, 5]], selected_engine: Some(1) },
    };
    e.delete_part(5);
    assert_eq!(e.parts, vec![link(1, None)]);
    assert_eq!(e.root_part, Some(1));
    assert_eq!(e.selected_placed_part, Some(1));
    assert_eq!(e.fairing_part, Some(1));
    assert_eq!(e.staging.stages, vec![vec![1]]);
    assert_eq!(e.staging.selected_engine, Some(1));
    e.delete_part(1);
    assert!(e.parts.is_empty());
    assert_eq!(e.root_part, None);
    assert!(e.staging.stages.is_empty());
    // Without a root, deleting a part without partner makes the first remaining part the root.
    let mut e = EditorParts {
        parts: vec![link(7, None), link(8, None)],
        root_part: None,
        selected_placed_part: None,
        fairing_part: None,
        staging: StagingPlan { stages: vec![], selected_engine: None },
    };
    e.delete_part(8);
    assert_eq!(e.root_part, Some(7));
}
