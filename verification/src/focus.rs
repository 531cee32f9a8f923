//! Window scopes that restrict where keyboard and gamepad focus may move.
//!
//! Entities are identified by the `u64` bit pattern of the engine's entity handles.
use vstd::prelude::*;

verus! {

/// `s` with every occurrence of `w` left out, the other entries in their order.
pub open spec fn without(s: Seq<u64>, w: u64) -> Seq<u64>
    decreases s.len(),
{
    if s.len() == 0 {
        s
    } else {
        let rest = without(s.drop_last(), w);
        if s.last() == w {
            rest
        } else {
            rest.push(s.last())
        }
    }
}

/// The stack after `w` is brought to the top: any earlier occurrence is dropped.
pub open spec fn pushed(s: Seq<u64>, w: u64) -> Seq<u64> {
    without(s, w).push(w)
}

/// No window occurs twice in the stack.
pub open spec fn no_duplicates(s: Seq<u64>) -> bool {
    forall|i: int, j: int| 0 <= i < j < s.len() ==> s[i] != s[j]
}

/// The window whose scope is active: the top of the stack.
pub open spec fn top(s: Seq<u64>) -> Option<u64> {
    if s.len() == 0 {
        None
    } else {
        Some(s.last())
    }
}

/// Tracks the currently active window or scope to restrict directional navigation.
pub struct RuiActiveScope {
    pub window_stack: Vec<u64>,
}

impl View for RuiActiveScope {
    type V = Seq<u64>;

    open spec fn view(&self) -> Seq<u64> {
        self.window_stack@
    }
}

/// The entries of `s` at the positions where `keep` is true, in order.
pub open spec fn kept(s: Seq<u64>, keep: Seq<bool>) -> Seq<u64>
    recommends
        s.len() == keep.len(),
    decreases s.len(),
{
    if s.len() == 0 {
        s
    } else {
        let rest = kept(s.drop_last(), keep.drop_last());
        if keep.last() {
            rest.push(s.last())
        } else {
            rest
        }
    }
}

proof fn lemma_without_take(s: Seq<u64>, w: u64, i: int)
    requires
        0 <= i < s.len(),
    ensures
        without(s.take(i + 1), w) == (if s[i] == w {
            without(s.take(i), w)
        } else {
            without(s.take(i), w).push(s[i])
        }),
{
    assert(s.take(i + 1).drop_last() =~= s.take(i));
}

proof fn lemma_kept_take(s: Seq<u64>, keep: Seq<bool>, i: int)
    requires
        0 <= i < s.len(),
        s.len() == keep.len(),
    ensures
        kept(s.take(i + 1), keep.take(i + 1)) == (if keep[i] {
            kept(s.take(i), keep.take(i)).push(s[i])
        } else {
            kept(s.take(i), keep.take(i))
        }),
{
    assert(s.take(i + 1).drop_last() =~= s.take(i));
    assert(keep.take(i + 1).drop_last() =~= keep.take(i));
}

/// Membership in `without(s, w)`: exactly the entries of `s` other than `w`.
pub proof fn lemma_without_contains(s: Seq<u64>, w: u64, x: u64)
    ensures
        without(s, w).contains(x) <==> (s.contains(x) && x != w),
    decreases s.len(),
{
    if s.len() > 0 {
        lemma_without_contains(s.drop_last(), w, x);
        let r = without(s.drop_last(), w);
        if s.contains(x) && x != w {
            let k = choose|k: int| 0 <= k < s.len() && s[k] == x;
            if k < s.len() - 1 {
                assert(s.drop_last()[k] == x);
            }
            if s.last() != w {
                assert(r.push(s.last())[r.len() as int] == s.last());
                if r.contains(x) {
                    let m = choose|m: int| 0 <= m < r.len() && r[m] == x;
                    assert(r.push(s.last())[m] == x);
                }
            }
        }
        if without(s, w).contains(x) {
            if s.last() != w {
                let m = choose|m: int| 0 <= m < r.push(s.last()).len() && r.push(s.last())[m] == x;
                if m < r.len() {
                    assert(r[m] == x);
                    let k = choose|k: int| 0 <= k < s.drop_last().len() && s.drop_last()[k] == x;
                    assert(s[k] == x);
                } else {
                    assert(s[s.len() - 1] == x);
                }
            } else {
                let k = choose|k: int| 0 <= k < s.drop_last().len() && s.drop_last()[k] == x;
                assert(s[k] == x);
            }
        }
    }
}

/// Leaving out `w` keeps a stack free of duplicates.
pub proof fn lemma_without_no_duplicates(s: Seq<u64>, w: u64)
    requires
        no_duplicates(s),
    ensures
        no_duplicates(without(s, w)),
    decreases s.len(),
{
    if s.len() > 0 {
        let d = s.drop_last();
        assert(no_duplicates(d));
        lemma_without_no_duplicates(d, w);
        let r = without(d, w);
        if s.last() != w {
            lemma_without_contains(d, w, s.last());
            assert(!d.contains(s.last())) by {
                if d.contains(s.last()) {
                    let k = choose|k: int| 0 <= k < d.len() && d[k] == s.last();
                    assert(s[k] == s[s.len() - 1]);
                }
            }
            let p = r.push(s.last());
            assert forall|i: int, j: int| 0 <= i < j < p.len() implies p[i] != p[j] by {
                if j == p.len() - 1 {
                    assert(p[i] == r[i]);
                    assert(r.contains(r[i]));
                }
            }
        }
    }
}

/// `w` does not occur in `without(s, w)`.
pub proof fn lemma_without_absent(s: Seq<u64>, w: u64)
    ensures
        !without(s, w).contains(w),
{
    lemma_without_contains(s, w, w);
}

/// Leaving out a window that is not in the stack changes nothing.
pub proof fn lemma_without_absent_noop(s: Seq<u64>, w: u64)
    requires
        !s.contains(w),
    ensures
        without(s, w) == s,
    decreases s.len(),
{
    if s.len() > 0 {
        assert(!s.drop_last().contains(w)) by {
            if s.drop_last().contains(w) {
                let k = choose|k: int| 0 <= k < s.drop_last().len() && s.drop_last()[k] == w;
                assert(s[k] == w);
            }
        }
        lemma_without_absent_noop(s.drop_last(), w);
        assert(s.last() != w) by {
            assert(s[s.len() - 1] == s.last());
        }
        assert(s.drop_last().push(s.last()) =~= s);
    }
}

impl RuiActiveScope {
    /// An empty scope stack.
    pub fn new() -> (r: Self)
        ensures
            r@ == Seq::<u64>::empty(),
    {
        RuiActiveScope { window_stack: Vec::new() }
    }

    /// The window on top of the stack, if any.
    pub fn active_window(&self) -> (r: Option<u64>)
        ensures
            r == top(self@),
    {
        let n = self.window_stack.len();
        if n == 0 {
            None
        } else {
            Some(self.window_stack[n - 1])
        }
    }

    /// Brings `window` to the top of the stack, dropping its earlier occurrences.
    pub fn push_window(&mut self, window: u64)
        ensures
            final(self)@ == pushed(old(self)@, window),
    {
        self.remove_window(window);
        self.window_stack.push(window);
    }

    /// Removes and returns the top of the stack.
    pub fn pop_window(&mut self) -> (r: Option<u64>)
        ensures
            r == top(old(self)@),
            final(self)@ == (if old(self)@.len() == 0 {
                old(self)@
            } else {
                old(self)@.drop_last()
            }),
    {
        self.window_stack.pop()
    }

    /// Removes every occurrence of `window`, keeping the order of the others.
    pub fn remove_window(&mut self, window: u64)
        ensures
            final(self)@ == without(old(self)@, window),
    {
        let ghost s = self.window_stack@;
        let mut out: Vec<u64> = Vec::new();
        let n = self.window_stack.len();
        let mut i: usize = 0;
        while i < n
            invariant
                n == s.len(),
                self.window_stack@ == s,
                i <= n,
                out@ == without(s.take(i as int), window),
            decreases n - i,
        {
            let w = self.window_stack[i];
            proof {
                lemma_without_take(s, window, i as int);
            }
            if w != window {
                out.push(w);
            }
            i = i + 1;
        }
        assert(s.take(n as int) =~= s);
        self.window_stack = out;
    }

    /// Makes `window` the active one (the same as pushing it).
    pub fn set_active_window(&mut self, window: u64)
        ensures
            final(self)@ == pushed(old(self)@, window),
    {
        self.push_window(window);
    }

    /// Keeps the windows whose flag in `exists` is set (one flag per stack entry), in order.
    /// This is how windows that were despawned leave the stack.
    pub fn retain_existing(&mut self, exists: &Vec<bool>)
        requires
            exists@.len() == old(self)@.len(),
        ensures
            final(self)@ == kept(old(self)@, exists@),
    {
        let ghost s = self.window_stack@;
        let mut out: Vec<u64> = Vec::new();
        let n = self.window_stack.len();
        let mut i: usize = 0;
        while i < n
            invariant
                n == s.len(),
                exists@.len() == n,
                self.window_stack@ == s,
                i <= n,
                out@ == kept(s.take(i as int), exists@.take(i as int)),
            decreases n - i,
        {
            proof {
                lemma_kept_take(s, exists@, i as int);
            }
            if exists[i] {
                out.push(self.window_stack[i]);
            }
            i = i + 1;
        }
        assert(s.take(n as int) =~= s);
        assert(exists@.take(n as int) =~= exists@);
        self.window_stack = out;
    }
}

/// Whether `entity` lies inside the active window. `ancestry` is the entity followed by its
/// parent, the parent's parent, and so on up to the root. With no active window the answer is
/// `no_windows` (true when the application has no windows at all).
pub fn is_in_active_window(ancestry: &Vec<u64>, active_scope: &RuiActiveScope, no_windows: bool) -> (r:
    bool)
    ensures
        r == match top(active_scope@) {
            Some(w) => ancestry@.contains(w),
            None => no_windows,
        },
{
    match active_scope.active_window() {
        Some(active) => {
            let n = ancestry.len();
            let mut i: usize = 0;
            while i < n
                invariant
                    n == ancestry@.len(),
                    top(active_scope@) == Some(active),
                    i <= n,
                    forall|k: int| 0 <= k < i ==> ancestry@[k] != active,
                decreases n - i,
            {
                if ancestry[i] == active {
                    assert(ancestry@[i as int] == active);
                    return true;
                }
                i = i + 1;
            }
            false
        },
        None => no_windows,
    }
}

/// How the pointer stands with a widget (the engine's `Interaction`).
#[derive(Clone, Copy, Debug, PartialEq, Eq, Structural)]
pub enum RuiInteraction {
    Pressed,
    Hovered,
    Idle,
}

/// A widget whose pointer interaction changed this frame, and whether it lies in the active
/// window.
#[derive(Clone, Copy, Debug)]
pub struct InteractionChange {
    pub entity: u64,
    pub interaction: RuiInteraction,
    pub in_active_window: bool,
}

/// The focus after one interaction change: a press always takes the focus; a hover takes it
/// when gamepad navigation is off or the widget lies in the active window.
pub open spec fn focus_after(focus: Option<u64>, c: InteractionChange, navigation_enabled: bool) -> Option<u64> {
    match c.interaction {
        RuiInteraction::Pressed => Some(c.entity),
        RuiInteraction::Hovered => if !navigation_enabled || c.in_active_window {
            Some(c.entity)
        } else {
            focus
        },
        RuiInteraction::Idle => focus,
    }
}

/// The focus after the changes, taken in order.
pub open spec fn focus_after_all(focus: Option<u64>, cs: Seq<InteractionChange>, navigation_enabled: bool) -> Option<u64>
    decreases cs.len(),
{
    if cs.len() == 0 {
        focus
    } else {
        focus_after(focus_after_all(focus, cs.drop_last(), navigation_enabled), cs.last(), navigation_enabled)
    }
}

/// Moves the input focus to widgets the pointer presses or hovers, in the order the changes are
/// given, and returns the new focus.
pub fn sync_mouse_to_focus(changes: &Vec<InteractionChange>, focus: Option<u64>, navigation_enabled: bool) -> (r: Option<u64>)
    ensures
        r == focus_after_all(focus, changes@, navigation_enabled),
{
    let mut cur = focus;
    let mut i: usize = 0;
    while i < changes.len()
        invariant
            i <= changes.len(),
            cur == focus_after_all(focus, changes@.take(i as int), navigation_enabled),
        decreases changes.len() - i,
    {
        let c = changes[i];
        assert(changes@.take(i as int + 1).drop_last() =~= changes@.take(i as int));
        match c.interaction {
            RuiInteraction::Pressed => {
                cur = Some(c.entity);
            },
            RuiInteraction::Hovered => {
                if !navigation_enabled || c.in_active_window {
                    cur = Some(c.entity);
                }
            },
            RuiInteraction::Idle => {},
        }
        i = i + 1;
    }
    assert(changes@.take(i as int) =~= changes@);
    cur
}

/// A focusable widget: its ancestry (itself, then its parent, and so on up to the root) and
/// whether it currently takes part in directional navigation.
#[derive(Clone, Debug)]
pub struct FocusCandidate {
    pub entity: u64,
    pub ancestry: Vec<u64>,
    pub navigable: bool,
}

/// What becomes of a widget's directional-navigation marker.
#[derive(Clone, Copy, Debug, PartialEq, Eq, Structural)]
pub enum NavMarker {
    Add,
    Remove,
    Keep,
}

/// What to do with the focusable widgets after the scope changed or widgets appeared.
pub struct ScopePlan {
    /// One entry per candidate, in the candidates' order.
    pub markers: Vec<NavMarker>,
    /// The input focus afterwards.
    pub focus: Option<u64>,
}

/// Whether a candidate lies in the scope of the window stack `s`.
pub open spec fn in_scope(c: FocusCandidate, s: Seq<u64>, no_windows: bool) -> bool {
    match top(s) {
        Some(w) => c.ancestry@.contains(w),
        None => no_windows,
    }
}

/// The marker change for a widget: widgets in scope become navigable, the others stop being so.
pub open spec fn marker_for(in_active: bool, navigable: bool) -> NavMarker {
    if in_active && !navigable {
        NavMarker::Add
    } else if !in_active && navigable {
        NavMarker::Remove
    } else {
        NavMarker::Keep
    }
}

/// The first candidate in scope.
pub open spec fn first_in_scope(cs: Seq<FocusCandidate>, s: Seq<u64>, no_windows: bool) -> Option<u64>
    decreases cs.len(),
{
    if cs.len() == 0 {
        None
    } else {
        match first_in_scope(cs.drop_last(), s, no_windows) {
            Some(e) => Some(e),
            None => if in_scope(cs.last(), s, no_windows) {
                Some(cs.last().entity)
            } else {
                None
            },
        }
    }
}

/// The window stack once a window has been made active where none was: the first window, if
/// there is one.
pub open spec fn with_default_window(s: Seq<u64>, windows: Seq<u64>) -> Seq<u64> {
    if top(s) is None && windows.len() > 0 {
        pushed(s, windows[0])
    } else {
        s
    }
}

/// Keeps directional navigation inside the active window. If no window is active the first
/// window becomes active. When the scope changed (`scope_changed`, or the activation just made)
/// the focus is cleared and given to the first widget in scope; when it did not change and no
/// focusable widget appeared (`new_focusables`) there is nothing to do and `None` is returned.
/// Otherwise every widget in scope is marked navigable and every other one unmarked.
pub fn manage_focus_scopes(
    active_scope: &mut RuiActiveScope,
    windows: &Vec<u64>,
    candidates: &Vec<FocusCandidate>,
    scope_changed: bool,
    new_focusables: bool,
    focus: Option<u64>,
) -> (r: Option<ScopePlan>)
    ensures
        final(active_scope)@ == with_default_window(old(active_scope)@, windows@),
        ({
            let changed = scope_changed || final(active_scope)@ != old(active_scope)@;
            let s = final(active_scope)@;
            let nw = windows@.len() == 0;
            match r {
                None => !changed && !new_focusables,
                Some(plan) => {
                    &&& changed || new_focusables
                    &&& plan.markers@.len() == candidates@.len()
                    &&& forall|i: int| 0 <= i < candidates@.len() ==> #[trigger] plan.markers@[i]
                        == marker_for(in_scope(candidates@[i], s, nw), candidates@[i].navigable)
                    &&& plan.focus == if changed { first_in_scope(candidates@, s, nw) } else { focus }
                },
            }
        }),
{
    let ghost before = active_scope@;
    let mut changed = scope_changed;
    if active_scope.active_window().is_none() && windows.len() > 0 {
        active_scope.push_window(windows[0]);
        proof {
            law_push_activates(before, windows@[0]);
        }
        changed = true;
    }
    assert(changed == (scope_changed || active_scope@ != before));
    if !changed && !new_focusables {
        return None;
    }
    let no_windows = windows.len() == 0;
    let ghost s = active_scope@;
    let mut markers: Vec<NavMarker> = Vec::new();
    let mut cur: Option<u64> = if changed { None } else { focus };
    let mut i: usize = 0;
    while i < candidates.len()
        invariant
            i <= candidates.len(),
            s == active_scope@,
            no_windows == (windows@.len() == 0),
            markers@.len() == i,
            forall|k: int| 0 <= k < i ==> #[trigger] markers@[k]
                == marker_for(in_scope(candidates@[k], s, no_windows), candidates@[k].navigable),
            cur == if changed { first_in_scope(candidates@.take(i as int), s, no_windows) } else { focus },
        decreases candidates.len() - i,
    {
        let c = &candidates[i];
        let in_active = is_in_active_window(&c.ancestry, active_scope, no_windows);
        let m = if in_active && !c.navigable {
            NavMarker::Add
        } else if !in_active && c.navigable {
            NavMarker::Remove
        } else {
            NavMarker::Keep
        };
        markers.push(m);
        assert(candidates@.take(i as int + 1).drop_last() =~= candidates@.take(i as int));
        if in_active && changed && cur.is_none() {
            cur = Some(c.entity);
        }
        i = i + 1;
    }
    assert(candidates@.take(i as int) =~= candidates@);
    Some(ScopePlan { markers, focus: cur })
}

/// Law: pushing a window makes it the active one.
pub proof fn law_push_activates(s: Seq<u64>, w: u64)
    ensures
        top(pushed(s, w)) == Some(w),
{
}

/// Law: pushing keeps the stack free of duplicates.
pub proof fn law_push_keeps_distinct(s: Seq<u64>, w: u64)
    requires
        no_duplicates(s),
    ensures
        no_duplicates(pushed(s, w)),
{
    lemma_without_no_duplicates(s, w);
    lemma_without_absent(s, w);
    let r = without(s, w);
    let p = r.push(w);
    assert forall|i: int, j: int| 0 <= i < j < p.len() implies p[i] != p[j] by {
        if j == p.len() - 1 {
            assert(p[i] == r[i]);
            assert(r.contains(r[i]));
        }
    }
}

/// Law: after a window is removed it no longer occurs in the stack, and the others stay.
pub proof fn law_remove_forgets(s: Seq<u64>, w: u64, x: u64)
    ensures
        !without(s, w).contains(w),
        x != w ==> (without(s, w).contains(x) <==> s.contains(x)),
{
    lemma_without_contains(s, w, w);
    lemma_without_contains(s, w, x);
}

/// Law: pushing the same window twice is the same as pushing it once.
pub proof fn law_push_idempotent(s: Seq<u64>, w: u64)
    ensures
        pushed(pushed(s, w), w) == pushed(s, w),
{
    lemma_without_absent(s, w);
    let r = without(s, w);
    assert(pushed(s, w).drop_last() =~= r);
    assert(without(pushed(s, w), w) == without(r, w));
    lemma_without_absent_noop(r, w);
}

/// Law: popping right after a push hands back the pushed window and leaves the other windows in
/// their former order.
pub proof fn law_pop_undoes_push(s: Seq<u64>, w: u64)
    ensures
        top(pushed(s, w)) == Some(w),
        pushed(s, w).drop_last() == without(s, w),
{
    assert(pushed(s, w).drop_last() =~= without(s, w));
}

/// Law: one more interaction change moves the focus only as its kind says. A press takes the
/// focus; a hover takes it when gamepad navigation is off or the widget lies in the active
/// window, and otherwise leaves it; an idle change (the pointer left) never touches it.
pub proof fn law_change_moves_focus(f: Option<u64>, cs: Seq<InteractionChange>, c: InteractionChange, nav: bool)
    ensures
        c.interaction == RuiInteraction::Idle ==> focus_after_all(f, cs.push(c), nav)
            == focus_after_all(f, cs, nav),
        c.interaction == RuiInteraction::Pressed ==> focus_after_all(f, cs.push(c), nav) == Some(c.entity),
        c.interaction == RuiInteraction::Hovered && (!nav || c.in_active_window) ==> focus_after_all(
            f,
            cs.push(c),
            nav,
        ) == Some(c.entity),
        c.interaction == RuiInteraction::Hovered && nav && !c.in_active_window ==> focus_after_all(
            f,
            cs.push(c),
            nav,
        ) == focus_after_all(f, cs, nav),
{
    assert(cs.push(c).drop_last() =~= cs);
}

/// Law: the focus after a run of changes is the focus before, or a widget that one of the
/// changes pressed or hovered; idle changes alone leave it as it was.
pub proof fn law_focus_from_changes(f: Option<u64>, cs: Seq<InteractionChange>, nav: bool)
    ensures
        focus_after_all(f, cs, nav) == f || exists|i: int|
            0 <= i < cs.len() && #[trigger] cs[i].interaction != RuiInteraction::Idle
                && focus_after_all(f, cs, nav) == Some(cs[i].entity),
        (forall|i: int| 0 <= i < cs.len() ==> #[trigger] cs[i].interaction == RuiInteraction::Idle)
            ==> focus_after_all(f, cs, nav) == f,
    decreases cs.len(),
{
    if cs.len() > 0 {
        let front = cs.drop_last();
        law_focus_from_changes(f, front, nav);
        if forall|i: int| 0 <= i < cs.len() ==> #[trigger] cs[i].interaction == RuiInteraction::Idle {
            assert forall|i: int| 0 <= i < front.len() implies #[trigger] front[i].interaction
                == RuiInteraction::Idle by {
                assert(front[i] == cs[i]);
            }
            assert(cs[cs.len() - 1].interaction == RuiInteraction::Idle);
        }
        let prev = focus_after_all(f, front, nav);
        let last = cs[cs.len() - 1];
        if focus_after_all(f, cs, nav) != prev {
            assert(last.interaction != RuiInteraction::Idle);
            assert(focus_after_all(f, cs, nav) == Some(cs[cs.len() - 1].entity));
        } else if prev != f {
            let i = choose|i: int|
                0 <= i < front.len() && #[trigger] front[i].interaction != RuiInteraction::Idle
                    && prev == Some(front[i].entity);
            assert(cs[i] == front[i]);
        }
    }
}

} // verus!
