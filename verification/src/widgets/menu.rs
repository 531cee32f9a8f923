//! Menus: submenu triggers that open their popups, and close the others.
use vstd::prelude::*;

verus! {

/// A menu entry that runs an action.
#[derive(Clone, Debug)]
pub struct RuiMenuItem {
    pub action_id: String,
}

/// A menu entry that opens a submenu popup; `depth` is its nesting level.
#[derive(Clone, Copy, Debug)]
pub struct RuiSubmenuTrigger {
    pub is_open: bool,
    pub depth: u32,
    pub popup_entity: u64,
}

/// The depth of the last pressed trigger, if any was pressed.
pub open spec fn pressed_depth(ts: Seq<RuiSubmenuTrigger>, pressed: Seq<bool>) -> Option<u32>
    decreases ts.len(),
{
    if ts.len() == 0 || pressed.len() == 0 {
        None
    } else if pressed.last() {
        Some(ts.last().depth)
    } else {
        pressed_depth(ts.drop_last(), pressed.drop_last())
    }
}

/// What a mouse press does to one trigger: a pressed trigger opens or closes its submenu; any
/// other one closes when the press fell outside every trigger or on a trigger of its own depth.
pub open spec fn trigger_after(t: RuiSubmenuTrigger, pressed: bool, depth: Option<u32>) -> RuiSubmenuTrigger {
    if pressed {
        RuiSubmenuTrigger { is_open: !t.is_open, ..t }
    } else if depth is None || depth == Some(t.depth) {
        RuiSubmenuTrigger { is_open: false, ..t }
    } else {
        t
    }
}

proof fn lemma_pressed_depth_prefix(ts: Seq<RuiSubmenuTrigger>, pressed: Seq<bool>, i: int)
    requires
        ts.len() == pressed.len(),
        0 <= i < ts.len(),
    ensures
        pressed_depth(ts.take(i + 1), pressed.take(i + 1)) == if pressed[i] {
            Some(ts[i].depth)
        } else {
            pressed_depth(ts.take(i), pressed.take(i))
        },
{
    assert(ts.take(i + 1).drop_last() =~= ts.take(i));
    assert(pressed.take(i + 1).drop_last() =~= pressed.take(i));
}

/// Handles a mouse press over the menus. `pressed[i]` tells whether trigger `i` is the one being
/// pressed. Without a press nothing changes. The result tells, per trigger, whether its popup
/// must be redrawn: pressed triggers, and open ones that were closed.
pub fn handle_menu_interactions(mouse_just_pressed: bool, triggers: &mut Vec<RuiSubmenuTrigger>, pressed: &Vec<bool>) -> (changed: Vec<bool>)
    requires
        old(triggers)@.len() == pressed@.len(),
    ensures
        final(triggers)@.len() == old(triggers)@.len(),
        changed@.len() == old(triggers)@.len(),
        !mouse_just_pressed ==> final(triggers)@ == old(triggers)@,
        mouse_just_pressed ==> forall|i: int| 0 <= i < pressed@.len() ==> #[trigger] final(triggers)@[i]
            == trigger_after(old(triggers)@[i], pressed@[i], pressed_depth(old(triggers)@, pressed@)),
        forall|i: int| 0 <= i < pressed@.len() ==> #[trigger] changed@[i]
            == (mouse_just_pressed && (pressed@[i] || (old(triggers)@[i].is_open && !final(triggers)@[i].is_open))),
        mouse_just_pressed ==> forall|i: int| 0 <= i < pressed@.len() && pressed@[i] ==> {
            &&& #[trigger] final(triggers)@[i].is_open == !old(triggers)@[i].is_open
            &&& final(triggers)@[i].depth == old(triggers)@[i].depth
            &&& final(triggers)@[i].popup_entity == old(triggers)@[i].popup_entity
        },
{
    let n = triggers.len();
    let mut changed: Vec<bool> = Vec::new();
    if !mouse_just_pressed {
        let mut k: usize = 0;
        while k < n
            invariant
                k <= n,
                changed@.len() == k,
                forall|j: int| 0 <= j < k ==> !#[trigger] changed@[j],
            decreases n - k,
        {
            changed.push(false);
            k = k + 1;
        }
        return changed;
    }
    let mut depth: Option<u32> = None;
    let mut i: usize = 0;
    while i < n
        invariant
            n == triggers@.len(),
            n == pressed@.len(),
            i <= n,
            depth == pressed_depth(triggers@.take(i as int), pressed@.take(i as int)),
        decreases n - i,
    {
        proof {
            lemma_pressed_depth_prefix(triggers@, pressed@, i as int);
        }
        if pressed[i] {
            depth = Some(triggers[i].depth);
        }
        i = i + 1;
    }
    assert(triggers@.take(n as int) =~= triggers@);
    assert(pressed@.take(n as int) =~= pressed@);
    let ghost before = triggers@;
    let mut j: usize = 0;
    while j < n
        invariant
            n == triggers@.len(),
            n == pressed@.len(),
            n == before.len(),
            j <= n,
            changed@.len() == j,
            depth == pressed_depth(before, pressed@),
            forall|k: int| 0 <= k < j ==> #[trigger] triggers@[k] == trigger_after(before[k], pressed@[k], depth),
            forall|k: int| j <= k < n ==> #[trigger] triggers@[k] == before[k],
            forall|k: int| 0 <= k < j ==> #[trigger] changed@[k]
                == (pressed@[k] || (before[k].is_open && !triggers@[k].is_open)),
        decreases n - j,
    {
        let t = triggers[j];
        let closes = match depth {
            None => true,
            Some(d) => d == t.depth,
        };
        if pressed[j] {
            triggers.set(j, RuiSubmenuTrigger { is_open: !t.is_open, ..t });
            changed.push(true);
        } else if closes {
            triggers.set(j, RuiSubmenuTrigger { is_open: false, ..t });
            changed.push(t.is_open);
        } else {
            changed.push(false);
        }
        j = j + 1;
    }
    changed
}

/// Law: a mouse press that lands on no trigger closes every submenu.
pub proof fn law_click_outside_closes_all(ts: Seq<RuiSubmenuTrigger>, pressed: Seq<bool>, i: int)
    requires
        ts.len() == pressed.len(),
        forall|k: int| 0 <= k < pressed.len() ==> !#[trigger] pressed[k],
        0 <= i < ts.len(),
    ensures
        !trigger_after(ts[i], pressed[i], pressed_depth(ts, pressed)).is_open,
{
    lemma_no_press_no_depth(ts, pressed);
}

proof fn lemma_no_press_no_depth(ts: Seq<RuiSubmenuTrigger>, pressed: Seq<bool>)
    requires
        ts.len() == pressed.len(),
        forall|k: int| 0 <= k < pressed.len() ==> !#[trigger] pressed[k],
    ensures
        pressed_depth(ts, pressed) is None,
    decreases ts.len(),
{
    if ts.len() > 0 {
        assert(!pressed[pressed.len() - 1]);
        let (a, b) = (ts.drop_last(), pressed.drop_last());
        assert forall|k: int| 0 <= k < b.len() implies !#[trigger] b[k] by {
            assert(b[k] == pressed[k]);
        }
        lemma_no_press_no_depth(a, b);
    }
}

/// Law: after a press on a trigger, every other trigger of the same depth that was not pressed
/// is closed, so at most the pressed submenu stays open on that level.
pub proof fn law_siblings_close(ts: Seq<RuiSubmenuTrigger>, pressed: Seq<bool>, j: int)
    requires
        ts.len() == pressed.len(),
        0 <= j < ts.len(),
        !pressed[j],
        pressed_depth(ts, pressed) == Some(ts[j].depth),
    ensures
        !trigger_after(ts[j], pressed[j], pressed_depth(ts, pressed)).is_open,
{
}

/// Law: a press on a trigger flips it: an open submenu closes and a closed one opens, and the
/// trigger keeps its depth and popup. Pressing it again in a second press restores it.
pub proof fn law_pressed_trigger_flips(ts: Seq<RuiSubmenuTrigger>, pressed: Seq<bool>, i: int)
    requires
        ts.len() == pressed.len(),
        0 <= i < ts.len(),
        pressed[i],
    ensures
        trigger_after(ts[i], pressed[i], pressed_depth(ts, pressed)).is_open == !ts[i].is_open,
        trigger_after(ts[i], pressed[i], pressed_depth(ts, pressed)).depth == ts[i].depth,
        trigger_after(ts[i], pressed[i], pressed_depth(ts, pressed)).popup_entity == ts[i].popup_entity,
        ({
            let once = ts.update(i, trigger_after(ts[i], pressed[i], pressed_depth(ts, pressed)));
            trigger_after(once[i], pressed[i], pressed_depth(once, pressed)) == ts[i]
        }),
{
}

} // verus!
