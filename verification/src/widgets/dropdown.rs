//! A dropdown: a button with a popup list of options; choosing one shows it on the button.
use vstd::prelude::*;
use crate::focus::RuiInteraction;

verus! {

/// A dropdown: its popup, the text that shows the chosen value, and whether the popup is open.
#[derive(Clone, Copy, Debug)]
pub struct RuiDropdown {
    pub popup_entity: u64,
    pub text_entity: u64,
    pub is_open: bool,
}

/// One option of a dropdown's popup.
#[derive(Clone, Debug)]
pub struct RuiDropdownOption {
    pub dropdown_entity: u64,
    pub value: String,
}

impl RuiDropdown {
    /// A press on the dropdown opens or closes its popup; returns whether the popup is now open.
    pub fn toggle(&mut self) -> (open: bool)
        ensures
            final(self).is_open == !old(self).is_open,
            final(self).popup_entity == old(self).popup_entity,
            final(self).text_entity == old(self).text_entity,
            open == final(self).is_open,
    {
        self.is_open = !self.is_open;
        self.is_open
    }

    /// Choosing an option closes the popup; returns the text the dropdown now shows.
    pub fn select_option(&mut self, option: &RuiDropdownOption) -> (label: String)
        ensures
            !final(self).is_open,
            final(self).popup_entity == old(self).popup_entity,
            final(self).text_entity == old(self).text_entity,
            label@ == option.value@,
    {
        self.is_open = false;
        option.value.clone()
    }
}

/// A mouse press outside an open dropdown closes it; returns whether it was closed.
pub fn close_dropdowns_on_outside_click(dropdown: &mut RuiDropdown, mouse_just_pressed: bool, interaction: RuiInteraction) -> (closed: bool)
    ensures
        closed == (mouse_just_pressed && old(dropdown).is_open && interaction == RuiInteraction::Idle),
        final(dropdown).is_open == (old(dropdown).is_open && !closed),
        final(dropdown).popup_entity == old(dropdown).popup_entity,
        final(dropdown).text_entity == old(dropdown).text_entity,
{
    if mouse_just_pressed && dropdown.is_open && interaction == RuiInteraction::Idle {
        dropdown.is_open = false;
        true
    } else {
        false
    }
}

} // verus!
