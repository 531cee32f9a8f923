//! Floating windows: opening and closing them, and raising the one clicked to the front.
use vstd::prelude::*;
use crate::focus::{RuiActiveScope, RuiInteraction, without, pushed};

verus! {

/// The close button of a window.
#[derive(Clone, Copy, Debug)]
pub struct RuiWindowCloseButton {
    pub window_entity: u64,
}

/// A press on a close button takes its window off the window stack; returns whether the window
/// is to be despawned.
pub fn handle_window_close_clicks(active_scope: &mut RuiActiveScope, button: &RuiWindowCloseButton, interaction: RuiInteraction) -> (close: bool)
    ensures
        close == (interaction == RuiInteraction::Pressed),
        close ==> final(active_scope)@ == without(old(active_scope)@, button.window_entity),
        !close ==> final(active_scope)@ == old(active_scope)@,
{
    if interaction == RuiInteraction::Pressed {
        active_scope.remove_window(button.window_entity);
        true
    } else {
        false
    }
}

/// The window stack after pushing each window of `ws` in turn.
pub open spec fn pushed_all(s: Seq<u64>, ws: Seq<u64>) -> Seq<u64>
    decreases ws.len(),
{
    if ws.len() == 0 {
        s
    } else {
        pushed(pushed_all(s, ws.drop_last()), ws.last())
    }
}

/// Windows that just appeared are pushed on the window stack in the order given; the last one
/// becomes active.
pub fn handle_new_windows(active_scope: &mut RuiActiveScope, new_windows: &Vec<u64>)
    ensures
        final(active_scope)@ == pushed_all(old(active_scope)@, new_windows@),
{
    let ghost start = active_scope@;
    let mut i: usize = 0;
    while i < new_windows.len()
        invariant
            i <= new_windows.len(),
            active_scope@ == pushed_all(start, new_windows@.take(i as int)),
        decreases new_windows.len() - i,
    {
        assert(new_windows@.take(i as int + 1).drop_last() =~= new_windows@.take(i as int));
        active_scope.push_window(new_windows[i]);
        i = i + 1;
    }
    assert(new_windows@.take(i as int) =~= new_windows@);
}

/// The first entry of `ancestry` flagged as a window.
pub open spec fn first_window(ancestry: Seq<u64>, is_window: Seq<bool>) -> Option<u64>
    decreases ancestry.len(),
{
    if ancestry.len() == 0 || is_window.len() == 0 {
        None
    } else if is_window[0] {
        Some(ancestry[0])
    } else {
        first_window(ancestry.drop_first(), is_window.drop_first())
    }
}

/// The window an entity lies in: the first window met going up from the entity through its
/// parents. `ancestry` is the entity and then its ancestors; `is_window` flags the windows.
pub fn window_of(ancestry: &Vec<u64>, is_window: &Vec<bool>) -> (r: Option<u64>)
    requires
        ancestry@.len() == is_window@.len(),
    ensures
        r == first_window(ancestry@, is_window@),
{
    let mut i: usize = 0;
    assert(ancestry@.skip(0) =~= ancestry@);
    assert(is_window@.skip(0) =~= is_window@);
    while i < ancestry.len()
        invariant
            i <= ancestry.len(),
            ancestry@.len() == is_window@.len(),
            first_window(ancestry@, is_window@) == first_window(ancestry@.skip(i as int), is_window@.skip(i as int)),
        decreases ancestry.len() - i,
    {
        assert(ancestry@.skip(i as int).drop_first() =~= ancestry@.skip(i as int + 1));
        assert(is_window@.skip(i as int).drop_first() =~= is_window@.skip(i as int + 1));
        assert(ancestry@.skip(i as int)[0] == ancestry@[i as int]);
        assert(is_window@.skip(i as int)[0] == is_window@[i as int]);
        if is_window[i] {
            return Some(ancestry[i]);
        }
        i = i + 1;
    }
    assert(ancestry@.skip(i as int).len() == 0);
    None
}

/// The last window found among pressed entities.
pub open spec fn last_window(found: Seq<Option<u64>>) -> Option<u64>
    decreases found.len(),
{
    if found.len() == 0 {
        None
    } else if found.last() is Some {
        found.last()
    } else {
        last_window(found.drop_last())
    }
}

/// The stacking counter that keeps the most recently clicked window in front.
#[derive(Clone, Copy, Debug)]
pub struct RuiWindowFocus {
    pub counter: i32,
}

/// A mouse press on a window brings it to the front and makes its scope active. `found` holds,
/// for each pressed entity in turn, the window it lies in; the last window found wins. Returns
/// that window and its new stacking order, `100` plus the counter after it is advanced.
pub fn handle_window_focus(focus: &mut RuiWindowFocus, active_scope: &mut RuiActiveScope, mouse_just_pressed: bool, found: &Vec<Option<u64>>) -> (r: Option<(u64, i32)>)
    requires
        mouse_just_pressed && last_window(found@) is Some ==> old(focus).counter + 101 <= i32::MAX,
    ensures
        r == (if mouse_just_pressed { match last_window(found@) {
            Some(w) => Some((w, (old(focus).counter + 101) as i32)),
            None => None,
        } } else { None }),
        r matches Some((w, _)) ==> final(focus).counter == old(focus).counter + 1
            && final(active_scope)@ == pushed(old(active_scope)@, w),
        r is None ==> *final(focus) == *old(focus) && final(active_scope)@ == old(active_scope)@,
{
    if !mouse_just_pressed {
        return None;
    }
    let mut clicked: Option<u64> = None;
    let mut i: usize = 0;
    while i < found.len()
        invariant
            i <= found.len(),
            clicked == last_window(found@.take(i as int)),
        decreases found.len() - i,
    {
        assert(found@.take(i as int + 1).drop_last() =~= found@.take(i as int));
        if found[i].is_some() {
            clicked = found[i];
        }
        i = i + 1;
    }
    assert(found@.take(i as int) =~= found@);
    match clicked {
        Some(w) => {
            focus.counter = focus.counter + 1;
            let z = 100 + focus.counter;
            active_scope.set_active_window(w);
            Some((w, z))
        },
        None => None,
    }
}

} // verus!
