use cmux::pane::{Direction, PaneId, PaneLayout, PaneManager, SplitDirection, LAYOUT_ONE};

fn half() -> u64 {
    LAYOUT_ONE / 2
}

#[test]
fn test_pane_id() {
    let id1 = PaneId(1);
    let id2 = PaneId(2);

    assert_ne!(id1, id2);
    assert_eq!(id1.0, 1);
}

#[test]
fn test_layout_default() {
    let layout = PaneLayout::default();
    assert_eq!(layout.x as f64 / LAYOUT_ONE as f64, 0.0);
    assert_eq!(layout.y as f64 / LAYOUT_ONE as f64, 0.0);
    assert_eq!(layout.width as f64 / LAYOUT_ONE as f64, 1.0);
    assert_eq!(layout.height as f64 / LAYOUT_ONE as f64, 1.0);
}

#[test]
fn pane_id_converts_to_and_from_u64() {
    assert_eq!(u64::from(PaneId(7)), 7);
    assert_eq!(PaneId::from(9u64), PaneId(9));
}

#[test]
fn new_manager_is_empty_with_default_borders() {
    let m = PaneManager::new();
    assert_eq!(m.len(), 0);
    assert!(m.is_empty());
    assert_eq!(m.active_pane(), None);
    assert_eq!(m.root_pane(), None);
    assert_eq!(m.border_width, 2);
    let active: Vec<f32> = m.active_border_color.iter().map(|b| f32::from_bits(*b)).collect();
    assert_eq!(active, vec![1.0, 0.67, 0.0, 1.0]);
    let inactive: Vec<f32> = m.inactive_border_color.iter().map(|b| f32::from_bits(*b)).collect();
    assert_eq!(inactive, vec![0.27, 0.27, 0.27, 1.0]);
}

#[test]
fn create_root_gives_one_active_full_pane() {
    let mut m = PaneManager::new();
    let id = m.create_root(100, 42);
    assert_eq!(id, PaneId(1));
    assert_eq!(m.len(), 1);
    assert_eq!(m.active_pane(), Some(id));
    assert_eq!(m.root_pane(), Some(id));
    let p = m.get(id).unwrap();
    assert!(p.is_active);
    assert!(p.is_leaf());
    assert_eq!(p.window_id, 42);
    assert_eq!(p.terminal, 100);
    assert_eq!(p.layout, PaneLayout::default());
    assert_eq!(m.active().unwrap().id, id);
}

#[test]
fn vertical_split_makes_left_and_right_halves() {
    let mut m = PaneManager::new();
    let root = m.create_root(100, 1);
    let new_id = m.split_pane(root, SplitDirection::Vertical, 7);
    assert_eq!(new_id, Some(PaneId(3)));
    assert_eq!(m.len(), 2);
    assert_eq!(m.active_pane(), Some(PaneId(3)));

    let parent = m.get(root).unwrap();
    assert!(parent.is_split());
    assert!(!parent.is_active);
    assert_eq!(parent.first_child, Some(PaneId(2)));
    assert_eq!(parent.second_child, Some(PaneId(3)));
    assert_eq!(parent.split_direction, Some(SplitDirection::Vertical));

    let left = m.get(PaneId(2)).unwrap();
    assert_eq!(left.layout, PaneLayout { x: 0, y: 0, width: half(), height: LAYOUT_ONE });
    assert_eq!(left.parent, Some(root));
    assert_eq!(left.terminal, 100);
    assert!(!left.is_active);

    let right = m.get(PaneId(3)).unwrap();
    assert_eq!(right.layout, PaneLayout { x: half(), y: 0, width: half(), height: LAYOUT_ONE });
    assert!(right.is_active);
    assert_eq!(right.terminal, 7);
}

#[test]
fn horizontal_split_makes_top_and_bottom_halves() {
    let mut m = PaneManager::new();
    let root = m.create_root(100, 1);
    m.split_pane(root, SplitDirection::Vertical, 7).unwrap();
    let bottom = m.split_pane(PaneId(3), SplitDirection::Horizontal, 7).unwrap();
    assert_eq!(bottom, PaneId(5));
    assert_eq!(m.len(), 3);
    let top = m.get(PaneId(4)).unwrap();
    assert_eq!(top.layout, PaneLayout { x: half(), y: 0, width: half(), height: half() });
    let bottom = m.get(PaneId(5)).unwrap();
    assert_eq!(bottom.layout, PaneLayout { x: half(), y: half(), width: half(), height: half() });
}

#[test]
fn split_refuses_containers_and_unknown_panes() {
    let mut m = PaneManager::new();
    let root = m.create_root(100, 1);
    m.split_pane(root, SplitDirection::Vertical, 7).unwrap();
    assert_eq!(m.split_pane(root, SplitDirection::Horizontal, 7), None);
    assert_eq!(m.split_pane(PaneId(99), SplitDirection::Horizontal, 7), None);
    assert_eq!(m.len(), 2);
}

#[test]
fn navigate_moves_to_the_nearest_pane_in_direction() {
    let mut m = PaneManager::new();
    let root = m.create_root(100, 1);
    m.split_pane(root, SplitDirection::Vertical, 7).unwrap();
    assert_eq!(m.navigate(Direction::Left), Some(PaneId(2)));
    assert_eq!(m.active_pane(), Some(PaneId(2)));
    assert!(m.get(PaneId(2)).unwrap().is_active);
    assert!(!m.get(PaneId(3)).unwrap().is_active);
    assert_eq!(m.navigate(Direction::Left), None);
    assert_eq!(m.navigate(Direction::Up), None);
    assert_eq!(m.active_pane(), Some(PaneId(2)));
    assert_eq!(m.navigate(Direction::Right), Some(PaneId(3)));
}

#[test]
fn navigate_picks_the_closer_of_two_candidates() {
    let mut m = PaneManager::new();
    let root = m.create_root(100, 1);
    m.split_pane(root, SplitDirection::Vertical, 7).unwrap();
    m.split_pane(PaneId(3), SplitDirection::Horizontal, 7).unwrap();
    // Active is the bottom right pane; up is the top right pane.
    assert_eq!(m.navigate(Direction::Up), Some(PaneId(4)));
    // From the top right pane the left pane is the only one to the left.
    assert_eq!(m.navigate(Direction::Left), Some(PaneId(2)));
    // To the right of the left pane, the two right panes are equally far.
    let r = m.navigate(Direction::Right).unwrap();
    assert!(r == PaneId(4) || r == PaneId(5));
}

#[test]
fn navigate_without_panes_gives_none() {
    let mut m = PaneManager::new();
    assert_eq!(m.navigate(Direction::Down), None);
}

#[test]
fn set_active_switches_flags() {
    let mut m = PaneManager::new();
    let root = m.create_root(100, 1);
    m.split_pane(root, SplitDirection::Horizontal, 7).unwrap();
    assert!(m.set_active(PaneId(2)));
    assert_eq!(m.active_pane(), Some(PaneId(2)));
    assert!(m.get(PaneId(2)).unwrap().is_active);
    assert!(!m.get(PaneId(3)).unwrap().is_active);
    assert!(!m.set_active(PaneId(50)));
    assert_eq!(m.active_pane(), Some(PaneId(2)));
}

#[test]
fn closing_a_half_collapses_the_split() {
    let mut m = PaneManager::new();
    let root = m.create_root(100, 1);
    m.split_pane(root, SplitDirection::Vertical, 7).unwrap();
    assert!(m.close_pane(PaneId(3)));
    assert_eq!(m.len(), 1);
    assert_eq!(m.root_pane(), Some(PaneId(2)));
    assert!(m.get(root).is_none());
    assert!(m.get(PaneId(3)).is_none());
    let survivor = m.get(PaneId(2)).unwrap();
    assert_eq!(survivor.parent, None);
    assert_eq!(survivor.layout, PaneLayout::default());
    assert_eq!(m.active_pane(), Some(PaneId(2)));
    assert!(survivor.is_active);
}

#[test]
fn closing_in_a_nested_split_reattaches_the_sibling() {
    let mut m = PaneManager::new();
    let root = m.create_root(100, 1);
    m.split_pane(root, SplitDirection::Vertical, 7).unwrap();
    m.split_pane(PaneId(3), SplitDirection::Horizontal, 7).unwrap();
    assert!(m.close_pane(PaneId(5)));
    assert_eq!(m.len(), 2);
    assert_eq!(m.root_pane(), Some(root));
    assert_eq!(m.get(root).unwrap().second_child, Some(PaneId(4)));
    let promoted = m.get(PaneId(4)).unwrap();
    assert_eq!(promoted.parent, Some(root));
    assert_eq!(promoted.layout, PaneLayout { x: half(), y: 0, width: half(), height: LAYOUT_ONE });
}

#[test]
fn close_refuses_containers_and_unknown_panes() {
    let mut m = PaneManager::new();
    let root = m.create_root(100, 1);
    m.split_pane(root, SplitDirection::Vertical, 7).unwrap();
    assert!(!m.close_pane(root));
    assert!(!m.close_pane(PaneId(77)));
    assert_eq!(m.len(), 2);
}

#[test]
fn closing_the_root_empties_the_manager() {
    let mut m = PaneManager::new();
    let root = m.create_root(100, 1);
    assert!(m.close_pane(root));
    assert!(m.is_empty());
    assert_eq!(m.root_pane(), None);
    assert_eq!(m.active_pane(), None);
}

#[test]
fn leaf_and_visible_panes_list_only_leaves() {
    let mut m = PaneManager::new();
    let root = m.create_root(100, 1);
    m.split_pane(root, SplitDirection::Vertical, 7).unwrap();
    let mut ids: Vec<u64> = m.leaf_panes().iter().map(|p| p.id.0).collect();
    ids.sort();
    assert_eq!(ids, vec![2, 3]);
    let mut visible: Vec<u64> = m.visible_panes().iter().map(|p| p.id.0).collect();
    visible.sort();
    assert_eq!(visible, vec![2, 3]);
}

#[test]
fn get_mut_and_active_mut_edit_the_pane() {
    let mut m = PaneManager::new();
    let root = m.create_root(100, 1);
    m.get_mut(root).unwrap().title = "shell".to_string();
    assert_eq!(m.get(root).unwrap().title, "shell");
    m.active_mut().unwrap().is_zoomed = true;
    assert!(m.get(root).unwrap().is_zoomed);
    assert!(m.get_mut(PaneId(5)).is_none());
}

#[test]
fn resize_changes_nothing() {
    let mut m = PaneManager::new();
    let root = m.create_root(100, 1);
    m.split_pane(root, SplitDirection::Vertical, 7).unwrap();
    m.resize_pane(PaneId(2), Direction::Right, 0.1f32.to_bits());
    assert_eq!(m.get(PaneId(2)).unwrap().layout, PaneLayout { x: 0, y: 0, width: half(), height: LAYOUT_ONE });
}

#[test]
fn splitting_a_pane_that_is_not_active_moves_the_active_mark() {
    let mut m = PaneManager::new();
    let root = m.create_root(100, 1);
    m.split_pane(root, SplitDirection::Vertical, 7).unwrap();
    assert_eq!(m.active_pane(), Some(PaneId(3)));
    let new_id = m.split_pane(PaneId(2), SplitDirection::Horizontal, 7).unwrap();
    assert_eq!(new_id, PaneId(5));
    assert_eq!(m.active_pane(), Some(PaneId(5)));
    let marked: Vec<u64> = m.leaf_panes().iter().filter(|p| p.is_active).map(|p| p.id.0).collect();
    assert_eq!(marked, vec![5]);
    assert!(!m.get(PaneId(3)).unwrap().is_active);
}

#[test]
fn closing_relays_out_the_whole_promoted_subtree() {
    let quarter = LAYOUT_ONE / 4;
    let mut m = PaneManager::new();
    let root = m.create_root(100, 1);
    m.split_pane(root, SplitDirection::Vertical, 7).unwrap();
    m.split_pane(PaneId(3), SplitDirection::Vertical, 7).unwrap();
    m.split_pane(PaneId(5), SplitDirection::Vertical, 7).unwrap();
    assert!(m.close_pane(PaneId(2)));
    assert_eq!(m.root_pane(), Some(PaneId(3)));
    assert_eq!(m.get(PaneId(3)).unwrap().layout, PaneLayout::default());
    assert_eq!(m.get(PaneId(4)).unwrap().layout, PaneLayout { x: 0, y: 0, width: half(), height: LAYOUT_ONE });
    assert_eq!(m.get(PaneId(5)).unwrap().layout, PaneLayout { x: half(), y: 0, width: half(), height: LAYOUT_ONE });
    assert_eq!(m.get(PaneId(6)).unwrap().layout, PaneLayout { x: half(), y: 0, width: quarter, height: LAYOUT_ONE });
    assert_eq!(
        m.get(PaneId(7)).unwrap().layout,
        PaneLayout { x: half() + quarter, y: 0, width: quarter, height: LAYOUT_ONE }
    );
}

#[test]
fn deep_splits_keep_a_positive_width() {
    let mut m = PaneManager::new();
    let mut current = m.create_root(100, 1);
    for _ in 0..60 {
        current = m.split_pane(current, SplitDirection::Vertical, 7).unwrap();
    }
    assert!(m.get(current).unwrap().layout.width > 0);
    assert_eq!(m.len(), 61);
}
