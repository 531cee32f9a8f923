//! Tabs: a row of tab buttons over contents of which one, the active tab's, is shown.
use vstd::prelude::*;

verus! {

/// A tab container and the index of its active tab.
#[derive(Clone, Copy, Debug)]
pub struct RuiTabContainer {
    pub active_tab: usize,
}

/// The button of tab `tab_index` in a container.
#[derive(Clone, Copy, Debug)]
pub struct RuiTabButton {
    pub container_entity: u64,
    pub tab_index: usize,
}

/// The content of tab `tab_index` in a container.
#[derive(Clone, Copy, Debug)]
pub struct RuiTabContent {
    pub container_entity: u64,
    pub tab_index: usize,
}

/// The close button of tab `tab_index` in a container.
#[derive(Clone, Copy, Debug)]
pub struct RuiTabCloseButton {
    pub container_entity: u64,
    pub tab_index: usize,
}

/// The first index in `tabs` other than `closed`.
pub open spec fn first_other(tabs: Seq<usize>, closed: usize) -> Option<usize>
    decreases tabs.len(),
{
    if tabs.len() == 0 {
        None
    } else if tabs[0] != closed {
        Some(tabs[0])
    } else {
        first_other(tabs.drop_first(), closed)
    }
}

/// A press on a tab's button makes that tab active; returns whether the active tab changed.
pub fn handle_tab_clicks(container: &mut RuiTabContainer, tab_index: usize) -> (changed: bool)
    ensures
        final(container).active_tab == tab_index,
        changed == (old(container).active_tab != tab_index),
{
    if container.active_tab == tab_index {
        false
    } else {
        container.active_tab = tab_index;
        true
    }
}

/// Closing tab `closed`. `tabs` lists the tab indices of the container's buttons, in the order
/// they are found (the closed tab's own button may still be among them). When the active tab is
/// the one closed, the first other tab in that list becomes active; the new active tab is
/// returned. Otherwise nothing changes and `None` is returned.
pub fn handle_tab_close_clicks(container: &mut RuiTabContainer, closed: usize, tabs: &Vec<usize>) -> (r: Option<usize>)
    ensures
        r == (if old(container).active_tab == closed { first_other(tabs@, closed) } else { None }),
        final(container).active_tab == match r {
            Some(t) => t,
            None => old(container).active_tab,
        },
{
    if container.active_tab != closed {
        return None;
    }
    let mut i: usize = 0;
    assert(tabs@.skip(0) =~= tabs@);
    while i < tabs.len()
        invariant
            i <= tabs.len(),
            container.active_tab == old(container).active_tab,
            old(container).active_tab == closed,
            first_other(tabs@, closed) == first_other(tabs@.skip(i as int), closed),
        decreases tabs.len() - i,
    {
        assert(tabs@.skip(i as int).drop_first() =~= tabs@.skip(i as int + 1));
        assert(tabs@.skip(i as int)[0] == tabs@[i as int]);
        if tabs[i] != closed {
            assert(tabs@.skip(i as int).len() > 0);
            assert(first_other(tabs@.skip(i as int), closed) == Some(tabs@[i as int]));
            container.active_tab = tabs[i];
            return Some(tabs[i]);
        }
        i = i + 1;
    }
    assert(tabs@.skip(i as int).len() == 0);
    None
}

/// Law: a closed tab never becomes the active one when another replaces it.
pub proof fn law_closed_tab_not_chosen(tabs: Seq<usize>, closed: usize)
    ensures
        first_other(tabs, closed) != Some(closed),
        first_other(tabs, closed) matches Some(t) ==> tabs.contains(t),
    decreases tabs.len(),
{
    if tabs.len() > 0 && tabs[0] == closed {
        law_closed_tab_not_chosen(tabs.drop_first(), closed);
        match first_other(tabs.drop_first(), closed) {
            Some(t) => {
                let k = choose|k: int| 0 <= k < tabs.drop_first().len() && tabs.drop_first()[k] == t;
                assert(tabs[k + 1] == t);
            },
            None => {},
        }
    } else if tabs.len() > 0 {
        assert(tabs[0] == tabs[0]);
    }
}

/// Law: the replacement for a closed tab is the first listed tab that is not the closed one;
/// there is none exactly when every listed tab is the closed one.
pub proof fn law_replacement_is_first_other(tabs: Seq<usize>, closed: usize)
    ensures
        first_other(tabs, closed) is None <==> forall|k: int| 0 <= k < tabs.len() ==> #[trigger] tabs[k] == closed,
        first_other(tabs, closed) matches Some(t) ==> exists|k: int|
            0 <= k < tabs.len() && #[trigger] tabs[k] == t && forall|j: int| 0 <= j < k ==> tabs[j] == closed,
    decreases tabs.len(),
{
    if tabs.len() > 0 {
        let rest = tabs.drop_first();
        law_replacement_is_first_other(rest, closed);
        if tabs[0] == closed {
            assert forall|k: int| 0 <= k < rest.len() implies rest[k] == tabs[k + 1] by {}
            if forall|k: int| 0 <= k < rest.len() ==> #[trigger] rest[k] == closed {
                assert forall|k: int| 0 <= k < tabs.len() implies #[trigger] tabs[k] == closed by {
                    if k > 0 {
                        assert(tabs[k] == rest[k - 1]);
                    }
                }
            } else {
                let k = choose|k: int| 0 <= k < rest.len() && #[trigger] rest[k] != closed;
                assert(tabs[k + 1] == rest[k]);
            }
            match first_other(rest, closed) {
                Some(t) => {
                    let k = choose|k: int|
                        0 <= k < rest.len() && #[trigger] rest[k] == t && forall|j: int| 0 <= j < k ==> rest[j] == closed;
                    assert(tabs[k + 1] == t);
                    assert forall|j: int| 0 <= j < k + 1 implies tabs[j] == closed by {
                        if j > 0 {
                            assert(tabs[j] == rest[j - 1]);
                        }
                    }
                },
                None => {},
            }
        } else {
            assert(tabs[0] != closed);
        }
    }
}

} // verus!
