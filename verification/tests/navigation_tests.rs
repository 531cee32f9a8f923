use bevy_rui::navigation::{navigation_action, navigation_direction, trigger_ui_click, NavAction, NavDirection, RuiNavigationConfig};

#[test]
fn navigation_is_off_by_default() {
    let c = RuiNavigationConfig::default();
    assert!(!c.enabled);
    assert_eq!(navigation_action(&c, false, true, false, false, false, false, true), NavAction::Stay);
}

#[test]
fn directions_from_bindings() {
    assert_eq!(navigation_direction(true, false, false, false, false), Some(NavDirection::North));
    assert_eq!(navigation_direction(false, true, false, false, false), Some(NavDirection::South));
    assert_eq!(navigation_direction(false, false, true, false, false), Some(NavDirection::West));
    assert_eq!(navigation_direction(false, false, false, true, false), Some(NavDirection::East));
    assert_eq!(navigation_direction(true, false, false, true, false), Some(NavDirection::NorthEast));
    assert_eq!(navigation_direction(false, true, true, false, false), Some(NavDirection::SouthWest));
    assert_eq!(navigation_direction(true, true, false, false, false), None);
    assert_eq!(navigation_direction(false, false, false, false, false), None);
}

#[test]
fn sliders_ignore_sideways_steps() {
    assert_eq!(navigation_direction(false, false, true, false, true), None);
    assert_eq!(navigation_direction(true, false, false, true, true), Some(NavDirection::North));
}

#[test]
fn focus_first_when_nothing_focused() {
    let c = RuiNavigationConfig { enabled: true };
    assert_eq!(navigation_action(&c, false, false, true, false, false, false, false), NavAction::FocusFirst);
    assert_eq!(navigation_action(&c, false, false, true, false, false, false, true), NavAction::Move(NavDirection::South));
    assert_eq!(navigation_action(&c, true, false, true, false, false, false, true), NavAction::Stay);
}

#[test]
fn accept_clicks_the_focused_widget() {
    let on = RuiNavigationConfig { enabled: true };
    let off = RuiNavigationConfig { enabled: false };
    assert_eq!(trigger_ui_click(&on, Some(4), true), Some(4));
    assert_eq!(trigger_ui_click(&on, Some(4), false), None);
    assert_eq!(trigger_ui_click(&on, None, true), None);
    assert_eq!(trigger_ui_click(&off, Some(4), true), None);
}
