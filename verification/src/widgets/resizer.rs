//! A resizer bar between two panels: its collapse buttons hide one panel at a time.
use vstd::prelude::*;

verus! {

/// Which way a resizer drags: `Horizontal` moves left and right (a vertical bar), `Vertical`
/// moves up and down (a horizontal bar).
#[derive(Clone, Copy, Debug, PartialEq, Eq, Structural)]
pub enum RuiResizerDir {
    Horizontal,
    Vertical,
}

/// The collapse state of a resizer's two neighbouring panels.
#[derive(Clone, Copy, Debug)]
pub struct RuiResizerCollapse {
    pub dir: RuiResizerDir,
    pub is_collapsed_prev: bool,
    pub is_collapsed_next: bool,
}

/// What a collapse button press changes on screen.
#[derive(Clone, Copy, Debug, PartialEq, Eq, Structural)]
pub struct CollapseView {
    /// Whether the panel on the pressed button's side is shown.
    pub panel_shown: bool,
    /// The arrow on the pressed button, pointing where the panel would go.
    pub arrow: char,
    /// Whether the button for the previous panel is shown.
    pub prev_button_shown: bool,
    /// Whether the button for the next panel is shown.
    pub next_button_shown: bool,
}

/// The arrow of a collapse button: it points the way its panel opens when collapsed, and the
/// way it closes otherwise.
pub open spec fn collapse_arrow(dir: RuiResizerDir, is_prev: bool, collapsed: bool) -> char {
    match (dir, is_prev) {
        (RuiResizerDir::Horizontal, true) => if collapsed { '>' } else { '<' },
        (RuiResizerDir::Vertical, true) => if collapsed { 'v' } else { '^' },
        (RuiResizerDir::Horizontal, false) => if collapsed { '<' } else { '>' },
        (RuiResizerDir::Vertical, false) => if collapsed { '^' } else { 'v' },
    }
}

/// What the screen shows for a collapse state after the button on side `is_prev` was pressed.
/// A button is hidden while the other side is collapsed, so both sides cannot be collapsed at once.
pub open spec fn collapse_view(c: RuiResizerCollapse, is_prev: bool) -> CollapseView {
    let collapsed = if is_prev { c.is_collapsed_prev } else { c.is_collapsed_next };
    CollapseView {
        panel_shown: !collapsed,
        arrow: collapse_arrow(c.dir, is_prev, collapsed),
        prev_button_shown: !c.is_collapsed_next,
        next_button_shown: !c.is_collapsed_prev,
    }
}

/// The collapse state after pressing the button on side `is_prev`: that side flips.
pub open spec fn collapse_toggled(c: RuiResizerCollapse, is_prev: bool) -> RuiResizerCollapse {
    if is_prev {
        RuiResizerCollapse { is_collapsed_prev: !c.is_collapsed_prev, ..c }
    } else {
        RuiResizerCollapse { is_collapsed_next: !c.is_collapsed_next, ..c }
    }
}

/// A press on side `is_prev` is ignored while the other side is collapsed.
pub open spec fn collapse_blocked(c: RuiResizerCollapse, is_prev: bool) -> bool {
    if is_prev { c.is_collapsed_next } else { c.is_collapsed_prev }
}

/// The collapse state after a press on side `is_prev`, an ignored press included.
pub open spec fn collapse_pressed(c: RuiResizerCollapse, is_prev: bool) -> RuiResizerCollapse {
    if collapse_blocked(c, is_prev) { c } else { collapse_toggled(c, is_prev) }
}

impl RuiResizerCollapse {
    /// A resizer with both panels shown.
    pub fn new(dir: RuiResizerDir) -> (r: Self)
        ensures
            r.dir == dir,
            !r.is_collapsed_prev,
            !r.is_collapsed_next,
    {
        RuiResizerCollapse { dir, is_collapsed_prev: false, is_collapsed_next: false }
    }

    /// Presses the collapse button on side `is_prev`. The press is ignored while the other side
    /// is collapsed, so that both panels are never hidden at once; otherwise that side's panel is
    /// hidden if shown and shown if hidden. Returns what to show, or `None` for an ignored press.
    pub fn press_collapse(&mut self, is_prev: bool) -> (v: Option<CollapseView>)
        ensures
            collapse_blocked(*old(self), is_prev) ==> v is None && *final(self) == *old(self),
            !collapse_blocked(*old(self), is_prev) ==> {
                &&& *final(self) == collapse_toggled(*old(self), is_prev)
                &&& v == Some(collapse_view(*final(self), is_prev))
            },
    {
        if (is_prev && self.is_collapsed_next) || (!is_prev && self.is_collapsed_prev) {
            return None;
        }
        if is_prev {
            self.is_collapsed_prev = !self.is_collapsed_prev;
        } else {
            self.is_collapsed_next = !self.is_collapsed_next;
        }
        let collapsed = if is_prev { self.is_collapsed_prev } else { self.is_collapsed_next };
        let arrow = match (self.dir, is_prev) {
            (RuiResizerDir::Horizontal, true) => if collapsed { '>' } else { '<' },
            (RuiResizerDir::Vertical, true) => if collapsed { 'v' } else { '^' },
            (RuiResizerDir::Horizontal, false) => if collapsed { '<' } else { '>' },
            (RuiResizerDir::Vertical, false) => if collapsed { '^' } else { 'v' },
        };
        Some(CollapseView {
            panel_shown: !collapsed,
            arrow,
            prev_button_shown: !self.is_collapsed_next,
            next_button_shown: !self.is_collapsed_prev,
        })
    }
}

/// Law: pressing the same collapse button twice restores the panels.
pub proof fn law_collapse_twice_restores(c: RuiResizerCollapse, is_prev: bool)
    ensures
        collapse_pressed(collapse_pressed(c, is_prev), is_prev) == c,
{
}

/// Law: no sequence of presses hides both panels: from a state with at most one side
/// collapsed, every press leaves at most one side collapsed.
pub proof fn law_one_side_at_most(c: RuiResizerCollapse, is_prev: bool)
    requires
        !(c.is_collapsed_prev && c.is_collapsed_next),
    ensures
        !(collapse_pressed(c, is_prev).is_collapsed_prev && collapse_pressed(c, is_prev).is_collapsed_next),
{
}

/// The index of the first occurrence of `x` in `s`.
pub open spec fn first_index(s: Seq<u64>, x: u64) -> int {
    choose|i: int| 0 <= i < s.len() && s[i] == x && forall|j: int| 0 <= j < i ==> s[j] != x
}

/// The panels on either side of a resizer: the siblings just before and just after its first
/// occurrence among `children`, when it has both.
pub fn resizer_neighbors(children: &Vec<u64>, resizer: u64) -> (r: Option<(u64, u64)>)
    ensures
        r is Some <==> (children@.contains(resizer) && 0 < first_index(children@, resizer)
            && first_index(children@, resizer) + 1 < children@.len()),
        r matches Some((p, n)) ==> p == children@[first_index(children@, resizer) - 1]
            && n == children@[first_index(children@, resizer) + 1],
{
    let mut i: usize = 0;
    while i < children.len()
        invariant
            i <= children.len(),
            forall|j: int| 0 <= j < i ==> children@[j] != resizer,
        decreases children.len() - i,
    {
        if children[i] == resizer {
            assert(children@[i as int] == resizer);
            assert(first_index(children@, resizer) == i as int) by {
                let k = first_index(children@, resizer);
                assert(0 <= k < children@.len() && children@[k] == resizer
                    && forall|j: int| 0 <= j < k ==> children@[j] != resizer);
                if k < i as int {
                    assert(children@[k] != resizer);
                }
                if k > i as int {
                    assert(children@[i as int] != resizer);
                }
            }
            if i > 0 && i + 1 < children.len() {
                return Some((children[i - 1], children[i + 1]));
            } else {
                return None;
            }
        }
        i = i + 1;
    }
    None
}

/// What one frame of the left mouse button does to a resizer's drag.
#[derive(Clone, Copy, Debug, PartialEq, Eq, Structural)]
pub struct DragFrame {
    /// Whether the resizer is being dragged after the frame.
    pub dragging: bool,
    /// The remembered pointer position is forgotten (the button was released).
    pub forget_pointer: bool,
    /// A drag begins: the pointer position is remembered and the two panels are set up to be
    /// sized by the drag.
    pub starts: bool,
    /// The resize pointer icon is wanted.
    pub resize_icon: bool,
    /// The panels follow the pointer's movement.
    pub moves: bool,
}

/// One frame of a resizer's drag. While a panel is collapsed only a release counts, and it
/// ends the drag. Otherwise a release ends the drag, a fresh press on the hovered bar starts
/// one, the resize icon shows while dragging or hovering, and a held button moves the panels
/// while dragging.
pub fn drag_frame(dragging: bool, collapsed: bool, hovered: bool, just_pressed: bool, pressed: bool, just_released: bool) -> (r: DragFrame)
    ensures
        collapsed ==> r == (DragFrame {
            dragging: dragging && !just_released,
            forget_pointer: just_released,
            starts: false,
            resize_icon: false,
            moves: false,
        }),
        !collapsed ==> r == (DragFrame {
            dragging: (dragging && !just_released) || (just_pressed && hovered),
            forget_pointer: just_released,
            starts: just_pressed && hovered,
            resize_icon: (dragging && !just_released) || (just_pressed && hovered) || hovered,
            moves: ((dragging && !just_released) || (just_pressed && hovered)) && pressed,
        }),
{
    let mut d = dragging;
    if collapsed {
        if just_released {
            d = false;
        }
        return DragFrame { dragging: d, forget_pointer: just_released, starts: false, resize_icon: false, moves: false };
    }
    if just_released {
        d = false;
    }
    let starts = just_pressed && hovered;
    if starts {
        d = true;
    }
    DragFrame { dragging: d, forget_pointer: just_released, starts, resize_icon: d || hovered, moves: d && pressed }
}

} // verus!
