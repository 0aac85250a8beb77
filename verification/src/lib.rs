//! Layout, settings and text logic of the Xeneon dashboard.
pub mod agenda;
pub mod appearance;
pub mod assets;
pub mod backup;
pub mod clock;
pub mod config;
pub mod dummy;
pub mod fetch;
pub mod grid;
pub mod i18n;
pub mod json;
pub mod media;
pub mod network;
pub mod ordering;
pub mod page_state;
pub mod persistence;
pub mod pins;
pub mod sensors;
pub mod shortcuts;
pub mod system_info;
pub mod text;
pub mod weather;
pub mod widget_state;
pub mod youtube;
