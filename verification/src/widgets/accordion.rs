//! An accordion: a header that shows or hides its content.
use vstd::prelude::*;
use crate::focus::RuiInteraction;

verus! {

/// An accordion's header: the content it controls and whether that content is shown.
#[derive(Clone, Copy, Debug)]
pub struct RuiAccordionToggle {
    pub content_entity: u64,
    pub is_open: bool,
}

/// The arrow drawn in the header: pointing down while open, right while closed.
pub open spec fn accordion_arrow(is_open: bool) -> char {
    if is_open { '\u{25BC}' } else { '\u{25B6}' }
}

/// A press opens a closed accordion and closes an open one; it returns whether the content is
/// now shown and the arrow to draw. Other interactions change nothing.
pub fn handle_accordion_clicks(toggle: &mut RuiAccordionToggle, interaction: RuiInteraction) -> (r: Option<(bool, char)>)
    ensures
        final(toggle).content_entity == old(toggle).content_entity,
        interaction == RuiInteraction::Pressed ==> {
            &&& final(toggle).is_open == !old(toggle).is_open
            &&& r == Some((final(toggle).is_open, accordion_arrow(final(toggle).is_open)))
        },
        interaction != RuiInteraction::Pressed ==> *final(toggle) == *old(toggle) && r is None,
{
    if interaction == RuiInteraction::Pressed {
        toggle.is_open = !toggle.is_open;
        let arrow = if toggle.is_open { '\u{25BC}' } else { '\u{25B6}' };
        Some((toggle.is_open, arrow))
    } else {
        None
    }
}

} // verus!
