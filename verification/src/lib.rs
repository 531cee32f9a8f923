//! Verified core of an immediate-style widget toolkit: focus scopes, text editing,
//! code editing, file dialogs, menus, tabs and the small state machines of the widgets.
pub mod text;
pub mod focus;
pub mod navigation;
pub mod rope;
pub mod widgets;
