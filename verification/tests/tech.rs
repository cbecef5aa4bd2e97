use sunscatter::colony::buildings::BuildingType;
use sunscatter::colony::tech::{TechLine, TechNode, TechTree, MAX_LINE_TIER};

fn s(x: &str) -> String {
    x.to_string()
}

fn node(id: &str, prereqs: &[&str], parts: &[&str], buildings: &[BuildingType]) -> TechNode {
    TechNode {
        id: s(id),
        name: s(id),
        era: 1,
        prerequisites: prereqs.iter().map(|p| s(p)).collect(),
        unlocks_parts: parts.iter().map(|p| s(p)).collect(),
        unlocks_buildings: buildings.to_vec(),
    }
}

fn line(id: &str, pre_node: &str, pre_line: Option<(&str, u32)>, gates: &[(u32, &str)]) -> TechLine {
    TechLine {
        id: s(id),
        name: s(id),
        prerequisite_node: s(pre_node),
        prerequisite_line_tier: pre_line.map(|(l, t)| (s(l), t)),
        recipe_gates: gates.iter().map(|(t, r)| (*t, s(r))).collect(),
    }
}

fn tree() -> TechTree {
    TechTree::new(
        vec![
            node("rocketry", &[], &["engine_small"], &[]),
            node("colonies", &["rocketry"], &["hab_module"], &[BuildingType::Habitat, BuildingType::Mine]),
            node("industry", &["rocketry", "colonies"], &[], &[BuildingType::Factory]),
        ],
        vec![
            line("metallurgy", "industry", None, &[(0, "MetalSmelting"), (3, "AlloyForging")]),
            line("electronics_mfg", "industry", Some(("metallurgy", 2)), &[(5, "SuperconductorFabrication")]),
        ],
        vec![s("pod_basic")],
    )
}

#[test]
fn unlock_follows_prerequisites() {
    let mut t = tree();
    assert!(!t.can_unlock("colonies"));
    assert!(!t.unlock("colonies"));
    assert!(!t.is_unlocked("colonies"));
    assert!(t.can_unlock("rocketry"));
    assert!(t.unlock("rocketry"));
    assert!(t.is_unlocked("rocketry"));
    assert!(!t.unlock("rocketry"));
    assert!(t.unlock("colonies"));
    assert!(t.unlock("industry"));
    assert!(!t.can_unlock("nonexistent"));
}

#[test]
fn availability_of_parts_buildings_recipes() {
    let mut t = tree();
    assert!(t.is_part_available("pod_basic"));
    assert!(!t.is_part_available("engine_small"));
    assert!(!t.is_building_available(BuildingType::Habitat));
    t.unlock("rocketry");
    assert!(t.is_part_available("engine_small"));
    assert!(!t.is_part_available("hab_module"));
    t.unlock("colonies");
    assert!(t.is_building_available(BuildingType::Mine));
    assert!(!t.is_building_available(BuildingType::Factory));
    assert!(t.is_recipe_available("MetalSmelting"));
    assert!(!t.is_recipe_available("AlloyForging"));
    assert!(t.is_recipe_available("Electrolysis"));
}

#[test]
fn line_upgrades() {
    let mut t = tree();
    assert_eq!(t.line_tier("metallurgy"), 0);
    assert!(!t.upgrade_line("metallurgy"));
    t.unlock("rocketry");
    t.unlock("colonies");
    t.unlock("industry");
    assert!(!t.upgrade_line("electronics_mfg"));
    assert!(t.upgrade_line("metallurgy"));
    assert!(t.upgrade_line("metallurgy"));
    assert_eq!(t.line_tier("metallurgy"), 2);
    assert!(t.upgrade_line("electronics_mfg"));
    assert_eq!(t.line_tier("electronics_mfg"), 1);
    assert!(!t.upgrade_line("no_such_line"));
    assert!(t.upgrade_line("metallurgy"));
    assert!(t.is_recipe_available("AlloyForging"));
    for _ in 0..20 {
        t.upgrade_line("metallurgy");
    }
    assert_eq!(t.line_tier("metallurgy"), MAX_LINE_TIER);
    assert!(!t.upgrade_line("metallurgy"));
}

#[test]
fn save_state_is_applied() {
    let mut t = tree();
    t.apply_save_state(vec![s("rocketry"), s("colonies")], vec![(s("metallurgy"), 4), (s("electronics_mfg"), 1), (s("metallurgy"), 6)]);
    assert!(t.is_unlocked("colonies"));
    assert!(!t.is_unlocked("industry"));
    assert_eq!(t.line_tier("metallurgy"), 6);
    assert_eq!(t.line_tier("electronics_mfg"), 1);
    assert_eq!(t.line_tier("precision_mfg"), 0);
}

#[test]
fn empty_tree_by_default() {
    let t = TechTree::default();
    assert!(t.nodes.is_empty() && t.efficiency_lines.is_empty() && t.default_unlocked_parts.is_empty());
    assert!(!t.is_unlocked("basic_rocketry"));
    assert_eq!(t.line_tier("mining"), 0);
    assert!(t.is_recipe_available("anything"));
}
