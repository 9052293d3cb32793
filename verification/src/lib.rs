//! Display logic of the Yascan terminal interface and the rules of the
//! `yascan-util` maintenance tool, with their contracts.

pub mod app;
pub mod events;
pub mod laws;
pub mod settings;
pub mod styles;
pub mod text;
pub mod util;
pub mod view;
