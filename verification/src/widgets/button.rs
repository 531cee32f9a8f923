//! Buttons: which of their looks (normal, hovered, pressed) a button shows.
use vstd::prelude::*;
use crate::focus::RuiInteraction;

verus! {

/// The look a button shows.
#[derive(Clone, Copy, Debug, PartialEq, Eq, Structural)]
pub enum ButtonVisual {
    Normal,
    Hovered,
    Pressed,
}

/// The look of a button: pressed while the pointer presses it or it is selected; hovered while
/// the pointer is over it, or while it has the focus and is not pressed; normal otherwise.
pub open spec fn visual_of(interaction: RuiInteraction, selected: bool, focused: bool) -> ButtonVisual {
    let pressed = interaction == RuiInteraction::Pressed || selected;
    let hovered = interaction == RuiInteraction::Hovered || (focused && !pressed);
    if pressed {
        ButtonVisual::Pressed
    } else if hovered {
        ButtonVisual::Hovered
    } else {
        ButtonVisual::Normal
    }
}

/// The look a button shows given the pointer, whether it is selected and whether it is focused.
pub fn button_visual(interaction: RuiInteraction, selected: bool, focused: bool) -> (r: ButtonVisual)
    ensures
        r == visual_of(interaction, selected, focused),
{
    let pressed = interaction == RuiInteraction::Pressed || selected;
    let hovered = interaction == RuiInteraction::Hovered || (focused && !pressed);
    if pressed {
        ButtonVisual::Pressed
    } else if hovered {
        ButtonVisual::Hovered
    } else {
        ButtonVisual::Normal
    }
}

/// Law (button looks): a press or a selection shows the pressed look; otherwise the pointer over
/// the button, or the focus, shows the hovered look; otherwise the normal one.
pub proof fn law_button_looks(interaction: RuiInteraction, selected: bool, focused: bool)
    ensures
        interaction == RuiInteraction::Pressed ==> visual_of(interaction, selected, focused) == ButtonVisual::Pressed,
        selected ==> visual_of(interaction, selected, focused) == ButtonVisual::Pressed,
        interaction == RuiInteraction::Hovered && !selected ==> visual_of(interaction, selected, focused)
            == ButtonVisual::Hovered,
        interaction == RuiInteraction::Idle && !selected && focused ==> visual_of(interaction, selected, focused)
            == ButtonVisual::Hovered,
        interaction == RuiInteraction::Idle && !selected && !focused ==> visual_of(interaction, selected, focused)
            == ButtonVisual::Normal,
{
}

} // verus!
