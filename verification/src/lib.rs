//! Verified core of a terminal requirements writer: text editing, the
//! question parser, the integration queue and the settings model.
pub mod app;
pub mod cli;
pub mod edit;
pub mod integrator;
pub mod layout;
pub mod question;
pub mod screen;
pub mod settings;
pub mod settings_tab;
pub mod text;
