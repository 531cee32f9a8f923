//! The widgets' state and the decisions they take on input.
pub mod clipboard;
pub mod code_editor;
pub mod textbox;
pub mod highlight;
pub mod accordion;
pub mod checkbox;
pub mod dropdown;
pub mod menu;
pub mod resizer;
pub mod tabs;
pub mod button;
pub mod windows;
pub mod file_dialog;
