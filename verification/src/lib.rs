//! Layout, text-fitting and state logic of the herdr sidebar panes.

pub mod layout;
pub mod text;
pub mod style;
pub mod theme;
pub mod activity;
pub mod panes;
pub mod usage;
pub mod usage_view;
pub mod root;
