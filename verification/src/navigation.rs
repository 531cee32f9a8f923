//! Keyboard and gamepad navigation between widgets: which way a set of pressed direction
//! bindings points, and when a navigation step or a click is due.
use vstd::prelude::*;

verus! {

/// Whether keyboard and gamepad navigation is on.
pub struct RuiNavigationConfig {
    pub enabled: bool,
}

impl Default for RuiNavigationConfig {
    /// Navigation starts switched off.
    fn default() -> (r: Self)
        ensures
            !r.enabled,
    {
        RuiNavigationConfig { enabled: false }
    }
}

/// One of the eight compass directions a navigation step can take (north is up the screen).
#[derive(Clone, Copy, Debug, PartialEq, Eq, Structural)]
pub enum NavDirection {
    North,
    NorthEast,
    East,
    SouthEast,
    South,
    SouthWest,
    West,
    NorthWest,
}

/// The direction of the step `(dx, dy)`, each of them -1, 0 or 1 with `dy` pointing up; none for
/// the null step.
pub open spec fn octant(dx: int, dy: int) -> Option<NavDirection> {
    if dx == 0 && dy == 0 {
        None
    } else if dx == 0 {
        Some(if dy > 0 { NavDirection::North } else { NavDirection::South })
    } else if dy == 0 {
        Some(if dx > 0 { NavDirection::East } else { NavDirection::West })
    } else if dx > 0 {
        Some(if dy > 0 { NavDirection::NorthEast } else { NavDirection::SouthEast })
    } else {
        Some(if dy > 0 { NavDirection::NorthWest } else { NavDirection::SouthWest })
    }
}

/// The horizontal and vertical parts of the step the pressed bindings ask for. Opposite
/// directions cancel out; on a slider the horizontal part is dropped, as left and right move the
/// slider's value instead.
pub open spec fn step_of(up: bool, down: bool, left: bool, right: bool, on_slider: bool) -> (int, int) {
    let dy: int = (if up { 1int } else { 0int }) - (if down { 1int } else { 0int });
    let dx: int = if on_slider { 0int } else { (if right { 1int } else { 0int }) - (if left { 1int } else { 0int }) };
    (dx, dy)
}

/// The direction the pressed bindings point in, if any.
pub fn navigation_direction(up: bool, down: bool, left: bool, right: bool, on_slider: bool) -> (r: Option<NavDirection>)
    ensures
        r == octant(step_of(up, down, left, right, on_slider).0, step_of(up, down, left, right, on_slider).1),
{
    let mut dy: i8 = 0;
    if up {
        dy = dy + 1;
    }
    if down {
        dy = dy - 1;
    }
    let mut dx: i8 = 0;
    if left {
        dx = dx - 1;
    }
    if right {
        dx = dx + 1;
    }
    if on_slider {
        dx = 0;
    }
    if dx == 0 && dy == 0 {
        None
    } else if dx == 0 {
        Some(if dy > 0 { NavDirection::North } else { NavDirection::South })
    } else if dy == 0 {
        Some(if dx > 0 { NavDirection::East } else { NavDirection::West })
    } else if dx > 0 {
        Some(if dy > 0 { NavDirection::NorthEast } else { NavDirection::SouthEast })
    } else {
        Some(if dy > 0 { NavDirection::NorthWest } else { NavDirection::SouthWest })
    }
}

/// What one frame of navigation does.
#[derive(Clone, Copy, Debug, PartialEq, Eq, Structural)]
pub enum NavAction {
    /// Nothing moves.
    Stay,
    /// Nothing has the focus yet: focus the first navigable widget.
    FocusFirst,
    /// Move the focus one step in this direction.
    Move(NavDirection),
}

/// The navigation step for one frame. Nothing happens when navigation is off, when the last step
/// was too recent (`cooling_down`), or when the pressed bindings point nowhere; otherwise the
/// focus moves in their direction, or, when nothing is focused, goes to the first navigable widget.
pub fn navigation_action(
    config: &RuiNavigationConfig,
    cooling_down: bool,
    up: bool,
    down: bool,
    left: bool,
    right: bool,
    on_slider: bool,
    has_focus: bool,
) -> (r: NavAction)
    ensures
        r == (if !config.enabled || cooling_down {
            NavAction::Stay
        } else {
            match octant(step_of(up, down, left, right, on_slider).0, step_of(up, down, left, right, on_slider).1) {
                None => NavAction::Stay,
                Some(d) => if has_focus { NavAction::Move(d) } else { NavAction::FocusFirst },
            }
        }),
{
    if !config.enabled || cooling_down {
        return NavAction::Stay;
    }
    match navigation_direction(up, down, left, right, on_slider) {
        None => NavAction::Stay,
        Some(d) => if has_focus {
            NavAction::Move(d)
        } else {
            NavAction::FocusFirst
        },
    }
}

/// The widget to click when an accept binding was pressed: the focused one, when navigation is on.
pub fn trigger_ui_click(config: &RuiNavigationConfig, focus: Option<u64>, accept_pressed: bool) -> (r: Option<u64>)
    ensures
        r == (if config.enabled && accept_pressed { focus } else { None }),
{
    if config.enabled && accept_pressed {
        focus
    } else {
        None
    }
}

/// Law: pressing opposite directions together is the same as pressing neither.
pub proof fn law_opposites_cancel(up: bool, down: bool, left: bool, right: bool, on_slider: bool)
    ensures
        step_of(true, true, left, right, on_slider) == step_of(false, false, left, right, on_slider),
        step_of(up, down, true, true, on_slider) == step_of(up, down, false, false, on_slider),
{
}

/// Law: on a slider no step goes sideways; only north, south or no step at all remain.
pub proof fn law_slider_moves_vertically(up: bool, down: bool, left: bool, right: bool)
    ensures
        ({
            let (dx, dy) = step_of(up, down, left, right, true);
            let d = octant(dx, dy);
            d is None || d == Some(NavDirection::North) || d == Some(NavDirection::South)
        }),
{
}

/// Law (directions): each single binding points its own way (up north, down south, right east,
/// left west), two perpendicular bindings point between them, and on a slider only up and down
/// count.
pub proof fn law_binding_directions(on_slider: bool)
    ensures
        octant(step_of(true, false, false, false, on_slider).0, step_of(true, false, false, false, on_slider).1)
            == Some(NavDirection::North),
        octant(step_of(false, true, false, false, on_slider).0, step_of(false, true, false, false, on_slider).1)
            == Some(NavDirection::South),
        octant(step_of(false, false, false, true, false).0, step_of(false, false, false, true, false).1)
            == Some(NavDirection::East),
        octant(step_of(false, false, true, false, false).0, step_of(false, false, true, false, false).1)
            == Some(NavDirection::West),
        octant(step_of(true, false, false, true, false).0, step_of(true, false, false, true, false).1)
            == Some(NavDirection::NorthEast),
        octant(step_of(true, false, true, false, false).0, step_of(true, false, true, false, false).1)
            == Some(NavDirection::NorthWest),
        octant(step_of(false, true, false, true, false).0, step_of(false, true, false, true, false).1)
            == Some(NavDirection::SouthEast),
        octant(step_of(false, true, true, false, false).0, step_of(false, true, true, false, false).1)
            == Some(NavDirection::SouthWest),
        octant(step_of(false, false, true, false, true).0, step_of(false, false, true, false, true).1) is None,
        octant(step_of(false, false, false, true, true).0, step_of(false, false, false, true, true).1) is None,
        octant(step_of(false, false, false, false, on_slider).0, step_of(false, false, false, false, on_slider).1)
            is None,
{
}

} // verus!
