use bevy_rui::focus::{RuiActiveScope, RuiInteraction};
use bevy_rui::widgets::accordion::{handle_accordion_clicks, RuiAccordionToggle};
use bevy_rui::widgets::button::{button_visual, ButtonVisual};
use bevy_rui::widgets::checkbox::{handle_checkbox_clicks, RuiCheckbox};
use bevy_rui::widgets::dropdown::{close_dropdowns_on_outside_click, RuiDropdown, RuiDropdownOption};
use bevy_rui::widgets::menu::{handle_menu_interactions, RuiSubmenuTrigger};
use bevy_rui::widgets::resizer::{drag_frame, resizer_neighbors, RuiResizerCollapse, RuiResizerDir};
use bevy_rui::widgets::tabs::{handle_tab_clicks, handle_tab_close_clicks, RuiTabContainer};
use bevy_rui::widgets::windows::{handle_new_windows, handle_window_close_clicks, handle_window_focus, window_of, RuiWindowCloseButton, RuiWindowFocus};

#[test]
fn checkbox_press_flips() {
    let mut c = RuiCheckbox { checked: false, checkmark_entity: 3 };
    assert_eq!(handle_checkbox_clicks(&mut c, RuiInteraction::Pressed), Some(true));
    assert!(c.checked);
    assert_eq!(handle_checkbox_clicks(&mut c, RuiInteraction::Hovered), None);
    assert!(c.checked);
    assert_eq!(handle_checkbox_clicks(&mut c, RuiInteraction::Pressed), Some(false));
    assert!(!c.checked);
}

#[test]
fn accordion_arrow_follows_state() {
    let mut a = RuiAccordionToggle { content_entity: 1, is_open: false };
    assert_eq!(handle_accordion_clicks(&mut a, RuiInteraction::Pressed), Some((true, '\u{25BC}')));
    assert_eq!(handle_accordion_clicks(&mut a, RuiInteraction::Pressed), Some((false, '\u{25B6}')));
    assert_eq!(handle_accordion_clicks(&mut a, RuiInteraction::Idle), None);
}

#[test]
fn dropdown_open_choose_close() {
    let mut d = RuiDropdown { popup_entity: 1, text_entity: 2, is_open: false };
    assert!(d.toggle());
    let opt = RuiDropdownOption { dropdown_entity: 7, value: "Medium".to_string() };
    assert_eq!(d.select_option(&opt), "Medium");
    assert!(!d.is_open);
}

#[test]
fn dropdown_closes_on_click_elsewhere() {
    let mut d = RuiDropdown { popup_entity: 1, text_entity: 2, is_open: true };
    assert!(!close_dropdowns_on_outside_click(&mut d, true, RuiInteraction::Hovered));
    assert!(d.is_open);
    assert!(!close_dropdowns_on_outside_click(&mut d, false, RuiInteraction::Idle));
    assert!(close_dropdowns_on_outside_click(&mut d, true, RuiInteraction::Idle));
    assert!(!d.is_open);
}

fn trigger(open: bool, depth: u32) -> RuiSubmenuTrigger {
    RuiSubmenuTrigger { is_open: open, depth, popup_entity: 0 }
}

#[test]
fn pressing_a_trigger_closes_its_siblings() {
    let mut ts = vec![trigger(true, 0), trigger(false, 0), trigger(true, 1)];
    let changed = handle_menu_interactions(true, &mut ts, &vec![false, true, false]);
    assert!(!ts[0].is_open);
    assert!(ts[1].is_open);
    assert!(ts[2].is_open);
    assert_eq!(changed, vec![true, true, false]);
}

#[test]
fn clicking_outside_closes_every_menu() {
    let mut ts = vec![trigger(true, 0), trigger(true, 1), trigger(false, 2)];
    let changed = handle_menu_interactions(true, &mut ts, &vec![false, false, false]);
    assert!(ts.iter().all(|t| !t.is_open));
    assert_eq!(changed, vec![true, true, false]);
}

#[test]
fn no_click_no_change() {
    let mut ts = vec![trigger(true, 0)];
    let changed = handle_menu_interactions(false, &mut ts, &vec![true]);
    assert!(ts[0].is_open);
    assert_eq!(changed, vec![false]);
}

#[test]
fn tab_click_switches() {
    let mut c = RuiTabContainer { active_tab: 0 };
    assert!(handle_tab_clicks(&mut c, 2));
    assert_eq!(c.active_tab, 2);
    assert!(!handle_tab_clicks(&mut c, 2));
}

#[test]
fn closing_active_tab_picks_first_other() {
    let mut c = RuiTabContainer { active_tab: 1 };
    assert_eq!(handle_tab_close_clicks(&mut c, 1, &vec![1, 2, 0]), Some(2));
    assert_eq!(c.active_tab, 2);
    assert_eq!(handle_tab_close_clicks(&mut c, 0, &vec![0, 2]), None);
    assert_eq!(c.active_tab, 2);
    assert_eq!(handle_tab_close_clicks(&mut c, 2, &vec![2]), None);
    assert_eq!(c.active_tab, 2);
}

#[test]
fn collapse_buttons_hide_one_side() {
    let mut r = RuiResizerCollapse::new(RuiResizerDir::Horizontal);
    let v = r.press_collapse(true).unwrap();
    assert!(r.is_collapsed_prev);
    assert!(!v.panel_shown);
    assert_eq!(v.arrow, '>');
    assert!(v.prev_button_shown);
    assert!(!v.next_button_shown);
    // The other side cannot collapse while this one is.
    assert_eq!(r.press_collapse(false), None);
    assert!(!r.is_collapsed_next);
    let v = r.press_collapse(true).unwrap();
    assert!(!r.is_collapsed_prev);
    assert_eq!(v.arrow, '<');
    assert!(v.next_button_shown);
    let mut vr = RuiResizerCollapse::new(RuiResizerDir::Vertical);
    assert_eq!(vr.press_collapse(false).unwrap().arrow, '^');
    assert_eq!(vr.press_collapse(false).unwrap().arrow, 'v');
}

#[test]
fn resizer_needs_panels_on_both_sides() {
    assert_eq!(resizer_neighbors(&vec![1, 9, 2], 9), Some((1, 2)));
    assert_eq!(resizer_neighbors(&vec![9, 2], 9), None);
    assert_eq!(resizer_neighbors(&vec![1, 9], 9), None);
    assert_eq!(resizer_neighbors(&vec![1, 2], 9), None);
}

#[test]
fn closing_a_window_removes_its_scope() {
    let mut s = RuiActiveScope::new();
    handle_new_windows(&mut s, &vec![1, 2]);
    assert_eq!(s.active_window(), Some(2));
    let btn = RuiWindowCloseButton { window_entity: 2 };
    assert!(!handle_window_close_clicks(&mut s, &btn, RuiInteraction::Hovered));
    assert!(handle_window_close_clicks(&mut s, &btn, RuiInteraction::Pressed));
    assert_eq!(s.window_stack, vec![1]);
}

#[test]
fn clicked_window_comes_to_front() {
    let mut s = RuiActiveScope::new();
    handle_new_windows(&mut s, &vec![1, 2]);
    let mut f = RuiWindowFocus { counter: 0 };
    assert_eq!(handle_window_focus(&mut f, &mut s, true, &vec![Some(1), None]), Some((1, 101)));
    assert_eq!(s.active_window(), Some(1));
    assert_eq!(handle_window_focus(&mut f, &mut s, true, &vec![Some(1), Some(2)]), Some((2, 102)));
    assert_eq!(handle_window_focus(&mut f, &mut s, false, &vec![Some(1)]), None);
    assert_eq!(handle_window_focus(&mut f, &mut s, true, &vec![None]), None);
    assert_eq!(f.counter, 2);
}

#[test]
fn window_of_an_entity() {
    assert_eq!(window_of(&vec![5, 4, 3], &vec![false, true, true]), Some(4));
    assert_eq!(window_of(&vec![5, 4], &vec![false, false]), None);
}

#[test]
fn button_looks() {
    assert_eq!(button_visual(RuiInteraction::Pressed, false, false), ButtonVisual::Pressed);
    assert_eq!(button_visual(RuiInteraction::Idle, true, false), ButtonVisual::Pressed);
    assert_eq!(button_visual(RuiInteraction::Hovered, false, false), ButtonVisual::Hovered);
    assert_eq!(button_visual(RuiInteraction::Idle, false, true), ButtonVisual::Hovered);
    assert_eq!(button_visual(RuiInteraction::Idle, true, true), ButtonVisual::Pressed);
    assert_eq!(button_visual(RuiInteraction::Idle, false, false), ButtonVisual::Normal);
}

#[test]
fn resizer_drag_starts_moves_and_ends() {
    let f = drag_frame(false, false, true, true, true, false);
    assert!(f.dragging && f.starts && f.moves && f.resize_icon && !f.forget_pointer);
    let f = drag_frame(true, false, false, false, true, false);
    assert!(f.dragging && !f.starts && f.moves && f.resize_icon);
    let f = drag_frame(true, false, false, false, false, true);
    assert!(!f.dragging && f.forget_pointer && !f.moves && !f.resize_icon);
    let f = drag_frame(false, false, false, true, true, false);
    assert!(!f.dragging && !f.starts && !f.moves);
}

#[test]
fn collapsed_resizer_only_ends_a_drag() {
    let f = drag_frame(true, true, true, true, true, false);
    assert!(f.dragging && !f.starts && !f.moves && !f.resize_icon);
    let f = drag_frame(true, true, true, false, false, true);
    assert!(!f.dragging && f.forget_pointer);
}
