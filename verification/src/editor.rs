//! The vessel editor: staging, display settings and UI actions.

pub mod state;
pub mod ui;
