//! The user interface: where things stand and what is drawn.

pub mod dialogs;
pub mod keybind_help;
pub mod notices;
pub mod onboarding;
pub mod panes;
pub mod plan;
pub mod release_notes;
pub mod remote_mount;
pub mod scrollbar;
pub mod settings;
pub mod sidebar;
pub mod tabs;
pub mod view;
pub mod widgets;
