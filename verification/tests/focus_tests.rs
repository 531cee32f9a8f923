use bevy_rui::focus::{
    is_in_active_window, manage_focus_scopes, sync_mouse_to_focus, FocusCandidate, InteractionChange, NavMarker,
    RuiActiveScope, RuiInteraction,
};

#[test]
fn push_makes_window_active() {
    let mut s = RuiActiveScope::new();
    assert_eq!(s.active_window(), None);
    s.push_window(1);
    s.push_window(2);
    assert_eq!(s.active_window(), Some(2));
    s.push_window(1);
    assert_eq!(s.window_stack, vec![2, 1]);
    assert_eq!(s.active_window(), Some(1));
}

#[test]
fn pop_returns_previous_window() {
    let mut s = RuiActiveScope::new();
    s.push_window(10);
    s.push_window(20);
    assert_eq!(s.pop_window(), Some(20));
    assert_eq!(s.active_window(), Some(10));
    assert_eq!(s.pop_window(), Some(10));
    assert_eq!(s.pop_window(), None);
}

#[test]
fn remove_window_anywhere_in_stack() {
    let mut s = RuiActiveScope::new();
    s.push_window(1);
    s.push_window(2);
    s.push_window(3);
    s.remove_window(2);
    assert_eq!(s.window_stack, vec![1, 3]);
    s.remove_window(42);
    assert_eq!(s.window_stack, vec![1, 3]);
}

#[test]
fn set_active_window_brings_to_top() {
    let mut s = RuiActiveScope::new();
    s.push_window(1);
    s.push_window(2);
    s.set_active_window(1);
    assert_eq!(s.window_stack, vec![2, 1]);
}

#[test]
fn despawned_windows_leave_the_stack() {
    let mut s = RuiActiveScope::new();
    s.push_window(1);
    s.push_window(2);
    s.push_window(3);
    s.retain_existing(&vec![true, false, true]);
    assert_eq!(s.window_stack, vec![1, 3]);
}

#[test]
fn entity_in_active_window() {
    let mut s = RuiActiveScope::new();
    assert!(is_in_active_window(&vec![5, 4], &s, true));
    assert!(!is_in_active_window(&vec![5, 4], &s, false));
    s.push_window(4);
    assert!(is_in_active_window(&vec![5, 4, 1], &s, false));
    assert!(!is_in_active_window(&vec![7, 1], &s, false));
}

#[test]
fn press_always_takes_focus() {
    let changes = vec![InteractionChange { entity: 9, interaction: RuiInteraction::Pressed, in_active_window: false }];
    assert_eq!(sync_mouse_to_focus(&changes, Some(1), true), Some(9));
}

#[test]
fn hover_takes_focus_only_in_scope_when_navigating() {
    let outside = vec![InteractionChange { entity: 9, interaction: RuiInteraction::Hovered, in_active_window: false }];
    assert_eq!(sync_mouse_to_focus(&outside, Some(1), true), Some(1));
    assert_eq!(sync_mouse_to_focus(&outside, Some(1), false), Some(9));
    let inside = vec![InteractionChange { entity: 9, interaction: RuiInteraction::Hovered, in_active_window: true }];
    assert_eq!(sync_mouse_to_focus(&inside, None, true), Some(9));
    let idle = vec![InteractionChange { entity: 9, interaction: RuiInteraction::Idle, in_active_window: true }];
    assert_eq!(sync_mouse_to_focus(&idle, Some(3), false), Some(3));
}

#[test]
fn scopes_follow_the_first_window() {
    let mut s = RuiActiveScope::new();
    let windows = vec![100, 200];
    let candidates = vec![
        FocusCandidate { entity: 1, ancestry: vec![1, 200], navigable: true },
        FocusCandidate { entity: 2, ancestry: vec![2, 100], navigable: false },
        FocusCandidate { entity: 3, ancestry: vec![3, 100], navigable: true },
    ];
    let plan = manage_focus_scopes(&mut s, &windows, &candidates, false, false, Some(1)).unwrap();
    assert_eq!(s.active_window(), Some(100));
    assert_eq!(plan.markers, vec![NavMarker::Remove, NavMarker::Add, NavMarker::Keep]);
    assert_eq!(plan.focus, Some(2));
}

#[test]
fn nothing_to_do_without_changes() {
    let mut s = RuiActiveScope::new();
    s.push_window(100);
    let candidates = vec![FocusCandidate { entity: 1, ancestry: vec![1, 100], navigable: true }];
    assert!(manage_focus_scopes(&mut s, &vec![100], &candidates, false, false, Some(1)).is_none());
    let plan = manage_focus_scopes(&mut s, &vec![100], &candidates, false, true, Some(7)).unwrap();
    assert_eq!(plan.focus, Some(7));
    assert_eq!(plan.markers, vec![NavMarker::Keep]);
}

#[test]
fn without_windows_everything_is_in_scope() {
    let mut s = RuiActiveScope::new();
    let candidates = vec![FocusCandidate { entity: 1, ancestry: vec![1], navigable: false }];
    let plan = manage_focus_scopes(&mut s, &vec![], &candidates, true, false, Some(5)).unwrap();
    assert_eq!(plan.markers, vec![NavMarker::Add]);
    assert_eq!(plan.focus, Some(1));
}
