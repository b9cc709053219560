use loom::pane_layout::{PaneFrame, PaneLayout, RemoveResult, SplitAxis, SplitDirection, FRAME_UNIT};
use loom::tab_manager::{ClosedPane, ConnectionState, PaneDisplay, PaneSession, TabManager};

fn pane(id: u128, profile: u128) -> PaneSession {
    PaneSession { id, profile_id: profile, state: ConnectionState::Connecting, status_message: String::new() }
}

fn leaves(t: &PaneLayout) -> Vec<u128> {
    match t {
        PaneLayout::Leaf(id) => vec![*id],
        PaneLayout::Split { first, second, .. } => {
            let mut v = leaves(first);
            v.extend(leaves(second));
            v
        }
    }
}

#[test]
fn split_direction_axis_and_side() {
    assert_eq!(SplitDirection::Left.axis(), SplitAxis::Horizontal);
    assert_eq!(SplitDirection::Right.axis(), SplitAxis::Horizontal);
    assert_eq!(SplitDirection::Up.axis(), SplitAxis::Vertical);
    assert_eq!(SplitDirection::Down.axis(), SplitAxis::Vertical);
    assert!(SplitDirection::Left.new_is_first());
    assert!(SplitDirection::Up.new_is_first());
    assert!(!SplitDirection::Right.new_is_first());
    assert!(!SplitDirection::Down.new_is_first());
}

#[test]
fn clamp_ratio_keeps_fifteen_to_eighty_five_percent() {
    assert_eq!(PaneLayout::clamp_ratio(0), 150);
    assert_eq!(PaneLayout::clamp_ratio(149), 150);
    assert_eq!(PaneLayout::clamp_ratio(500), 500);
    assert_eq!(PaneLayout::clamp_ratio(851), 850);
    assert_eq!(PaneLayout::clamp_ratio(1000), 850);
}

#[test]
fn split_right_puts_new_pane_second() {
    let mut t = PaneLayout::leaf(1);
    assert!(t.split_with_id(1, SplitDirection::Right, 2, 10));
    assert_eq!(leaves(&t), vec![1, 2]);
    match &t {
        PaneLayout::Split { id, axis, ratio, .. } => {
            assert_eq!(*id, 10);
            assert_eq!(*axis, SplitAxis::Horizontal);
            assert_eq!(*ratio, 500);
        }
        _ => panic!("expected a split"),
    }
}

#[test]
fn split_up_puts_new_pane_first() {
    let mut t = PaneLayout::leaf(1);
    assert!(t.split_with_id(1, SplitDirection::Up, 2, 10));
    assert_eq!(leaves(&t), vec![2, 1]);
}

#[test]
fn split_missing_target_changes_nothing() {
    let mut t = PaneLayout::leaf(1);
    assert!(!t.split_with_id(7, SplitDirection::Right, 2, 10));
    assert!(matches!(t, PaneLayout::Leaf(1)));
}

#[test]
fn split_with_random_id_finds_target() {
    let mut t = PaneLayout::leaf(1);
    assert!(t.split(1, SplitDirection::Down, 2));
    assert_eq!(leaves(&t), vec![1, 2]);
    match &t {
        PaneLayout::Split { id, .. } => assert_ne!(*id, 0),
        _ => panic!("expected a split"),
    }
}

#[test]
fn split_then_remove_restores_layout() {
    let mut t = PaneLayout::leaf(1);
    t.split_with_id(1, SplitDirection::Right, 2, 10);
    t.split_with_id(2, SplitDirection::Down, 3, 11);
    assert_eq!(leaves(&t), vec![1, 2, 3]);
    let r = t.remove_leaf(3);
    assert_eq!(r, RemoveResult::Collapsed { focus: 2 });
    assert_eq!(leaves(&t), vec![1, 2]);
    let r = t.remove_leaf(2);
    assert_eq!(r, RemoveResult::Collapsed { focus: 1 });
    assert!(matches!(t, PaneLayout::Leaf(1)));
}

#[test]
fn remove_root_and_absent_leaf() {
    let mut t = PaneLayout::leaf(1);
    assert_eq!(t.remove_leaf(9), RemoveResult::NotFound);
    assert_eq!(t.remove_leaf(1), RemoveResult::RemovedRoot);
}

#[test]
fn remove_first_child_focuses_first_leaf_of_sibling() {
    let mut t = PaneLayout::leaf(1);
    t.split_with_id(1, SplitDirection::Right, 2, 10);
    t.split_with_id(2, SplitDirection::Down, 3, 11);
    assert_eq!(t.remove_leaf(1), RemoveResult::Collapsed { focus: 2 });
    assert_eq!(leaves(&t), vec![2, 3]);
}

#[test]
fn leaf_count_contains_first_leaf() {
    let mut t = PaneLayout::leaf(1);
    t.split_with_id(1, SplitDirection::Left, 2, 10);
    t.split_with_id(1, SplitDirection::Down, 3, 11);
    assert_eq!(t.leaf_count(), 3);
    assert!(t.contains(3));
    assert!(!t.contains(4));
    assert_eq!(t.first_leaf(), 2);
}

#[test]
fn set_ratio_clamps_and_keeps_shape() {
    let mut t = PaneLayout::leaf(1);
    t.split_with_id(1, SplitDirection::Right, 2, 10);
    assert!(t.set_ratio(10, 950));
    match &t {
        PaneLayout::Split { ratio, .. } => assert_eq!(*ratio, 850),
        _ => panic!("expected a split"),
    }
    assert!(!t.set_ratio(99, 300));
    assert!(t.has_split(10));
    assert!(!t.has_split(99));
    assert_eq!(leaves(&t), vec![1, 2]);
}

#[test]
fn frames_split_the_tab_by_ratio() {
    let mut t = PaneLayout::leaf(1);
    t.split_with_id(1, SplitDirection::Right, 2, 10);
    t.set_ratio(10, 250);
    let f = t.collect_frames();
    assert_eq!(f.len(), 2);
    assert_eq!(f[0].0, 1);
    assert_eq!(f[0].1, PaneFrame { x: 0, y: 0, w: FRAME_UNIT / 4, h: FRAME_UNIT });
    assert_eq!(f[1].0, 2);
    assert_eq!(f[1].1, PaneFrame { x: FRAME_UNIT / 4, y: 0, w: FRAME_UNIT / 4 * 3, h: FRAME_UNIT });
    assert_eq!(f[0].1.center(), (FRAME_UNIT / 4, FRAME_UNIT));
}

#[test]
fn adjacent_leaf_finds_nearest_in_direction() {
    let mut t = PaneLayout::leaf(1);
    t.split_with_id(1, SplitDirection::Right, 2, 10);
    t.split_with_id(2, SplitDirection::Down, 3, 11);
    assert_eq!(t.adjacent_leaf(1, SplitDirection::Right), Some(2));
    assert_eq!(t.adjacent_leaf(3, SplitDirection::Up), Some(2));
    assert_eq!(t.adjacent_leaf(3, SplitDirection::Left), Some(1));
    assert_eq!(t.adjacent_leaf(1, SplitDirection::Left), None);
    assert_eq!(t.adjacent_leaf(9, SplitDirection::Left), None);
}

#[test]
fn tabs_open_split_focus_and_close() {
    let mut m = TabManager::new(false);
    let tab = m.open_pane_tab(String::from("one"), pane(1, 100));
    assert_eq!(m.active, Some(tab));
    assert_eq!(m.split_target(), Some((0, 100)));
    assert!(m.insert_split(0, SplitDirection::Right, pane(2, 100)));
    assert_eq!(m.tabs[0].focused, 2);
    assert!(m.focus_pane(1));
    assert_eq!(m.tabs[0].focused, 1);
    assert_eq!(m.adjacent_in_direction(SplitDirection::Right), Some(2));
    assert_eq!(m.activate_pane_in_direction(SplitDirection::Right), Some(2));
    assert_eq!(m.tabs[0].focused, 2);
    match m.close_focused_pane() {
        ClosedPane::Pane { pane, focus } => {
            assert_eq!(pane.id, 2);
            assert_eq!(focus, 1);
        }
        _ => panic!("expected a pane to close"),
    }
    assert_eq!(m.tabs[0].panes.len(), 1);
    match m.close_pane(1) {
        ClosedPane::Tab(t) => assert_eq!(t.id, tab),
        _ => panic!("expected the tab to close"),
    }
    assert!(m.tabs.is_empty());
    assert_eq!(m.active, None);
    assert!(matches!(m.close_pane(5), ClosedPane::NotFound));
}

#[test]
fn zoom_toggles_only_with_several_panes() {
    let mut m = TabManager::new(true);
    m.open_pane_tab(String::from("one"), pane(1, 100));
    assert!(!m.can_zoom_active());
    m.toggle_zoom_focused();
    assert!(!m.active_zoomed());
    m.insert_split(0, SplitDirection::Down, pane(2, 100));
    assert!(m.can_zoom_active());
    m.toggle_zoom_focused();
    assert!(m.active_zoomed());
    m.toggle_zoom_focused();
    assert!(!m.active_zoomed());
}

#[test]
fn next_then_prev_tab_returns() {
    let mut m = TabManager::new(false);
    let a = m.open_pane_tab(String::from("a"), pane(1, 100));
    let b = m.open_pane_tab(String::from("b"), pane(2, 100));
    let c = m.open_pane_tab(String::from("c"), pane(3, 100));
    assert_eq!(m.active, Some(c));
    m.next_tab();
    assert_eq!(m.active, Some(a));
    m.prev_tab();
    assert_eq!(m.active, Some(c));
    m.prev_tab();
    assert_eq!(m.active, Some(b));
    m.select_tab(a);
    assert_eq!(m.active_index(), 0);
}

#[test]
fn close_tab_activates_the_following_tab() {
    let mut m = TabManager::new(false);
    let a = m.open_pane_tab(String::from("a"), pane(1, 100));
    let b = m.open_pane_tab(String::from("b"), pane(2, 100));
    let c = m.open_pane_tab(String::from("c"), pane(3, 100));
    m.select_tab(b);
    let closed = m.close_tab(b);
    assert_eq!(closed.map(|t| t.id), Some(b));
    assert_eq!(m.active, Some(c));
    assert!(m.close_tab(99).is_none());
    let _ = a;
}

#[test]
fn rename_and_snapshot_tabs() {
    let mut m = TabManager::new(false);
    m.open_pane_tab(String::from("a"), pane(1, 100));
    assert_eq!(m.begin_rename_active(), Some(String::from("a")));
    assert!(m.apply_rename_active(String::from("build")));
    assert_eq!(m.tabs[0].title, "build");
    let (tabs, active) = m.snapshot_for_persist();
    assert_eq!(active, 0);
    assert_eq!(tabs.len(), 1);
    assert_eq!(tabs[0].0, 100);
    m.set_show_line_numbers(true);
    assert!(m.show_line_numbers);
    assert_eq!(m.active_focused_profile(), Some(100));
}

#[test]
fn update_pane_records_state() {
    let mut m = TabManager::new(false);
    let t = m.open_pane_tab(String::from("a"), pane(1, 100));
    assert!(m.update_pane(t, 1, ConnectionState::Failed, String::from("refused")));
    assert_eq!(m.tabs[0].panes[0].state, ConnectionState::Failed);
    assert_eq!(m.tabs[0].display_state(), ConnectionState::Failed);
    assert!(!m.update_pane(t, 9, ConnectionState::Connected, String::new()));
}

#[test]
fn terminal_area_shows_zoomed_or_layout() {
    use_display();
}

fn use_display() {
    let mut m = TabManager::new(false);
    assert_eq!(m.active_display(), PaneDisplay::Empty);
    m.open_pane_tab(String::from("one"), pane(1, 100));
    assert_eq!(m.active_display(), PaneDisplay::Layout { multi: false });
    m.insert_split(0, SplitDirection::Right, pane(2, 100));
    assert_eq!(m.active_display(), PaneDisplay::Layout { multi: true });
    m.toggle_zoom_focused();
    assert_eq!(m.active_display(), PaneDisplay::Zoomed(2));
}

#[test]
fn deep_splits_at_the_smallest_share_keep_every_pane_visible() {
    let mut t = PaneLayout::leaf(1);
    for k in 1..=40u128 {
        assert!(t.split_with_id(k, SplitDirection::Right, k + 1, 1000 + k));
        assert!(t.set_ratio(1000 + k, 850));
    }
    let f = t.collect_frames();
    assert_eq!(f.len(), 41);
    for (_, fr) in &f {
        assert!(fr.w > 0 && fr.h > 0);
        assert!(fr.x + fr.w <= FRAME_UNIT);
    }
    assert_eq!(f.iter().map(|(_, fr)| fr.w).sum::<u128>(), FRAME_UNIT);
}

#[test]
fn cloned_layout_is_the_same_tree() {
    let mut t = PaneLayout::leaf(1);
    t.split_with_id(1, SplitDirection::Down, 2, 10);
    let c = t.clone();
    assert_eq!(leaves(&c), leaves(&t));
    assert_eq!(c.collect_frames(), t.collect_frames());
}
