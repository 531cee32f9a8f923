//! A checkbox: a box whose checkmark shows while it is checked.
use vstd::prelude::*;
use crate::focus::RuiInteraction;

verus! {

/// A checkbox and the entity that draws its checkmark.
#[derive(Clone, Copy, Debug)]
pub struct RuiCheckbox {
    pub checked: bool,
    pub checkmark_entity: u64,
}

impl RuiCheckbox {
    /// Flips the checkbox; returns whether the checkmark is now shown.
    pub fn toggle(&mut self) -> (shown: bool)
        ensures
            final(self).checked == !old(self).checked,
            final(self).checkmark_entity == old(self).checkmark_entity,
            shown == final(self).checked,
    {
        self.checked = !self.checked;
        self.checked
    }
}

/// The checkbox after a press: the same checkbox, flipped.
pub open spec fn pressed_checkbox(c: RuiCheckbox) -> RuiCheckbox {
    RuiCheckbox { checked: !c.checked, ..c }
}

/// A press flips the checkbox and tells whether its checkmark is now shown; other interactions
/// leave it alone.
pub fn handle_checkbox_clicks(checkbox: &mut RuiCheckbox, interaction: RuiInteraction) -> (r: Option<bool>)
    ensures
        interaction == RuiInteraction::Pressed ==> {
            &&& *final(checkbox) == pressed_checkbox(*old(checkbox))
            &&& r == Some(final(checkbox).checked)
        },
        interaction != RuiInteraction::Pressed ==> *final(checkbox) == *old(checkbox) && r is None,
{
    if interaction == RuiInteraction::Pressed {
        Some(checkbox.toggle())
    } else {
        None
    }
}

/// Law: two presses leave a checkbox as it was.
pub proof fn law_checkbox_two_presses(c: RuiCheckbox)
    ensures
        pressed_checkbox(pressed_checkbox(c)) == c,
{
}

} // verus!
