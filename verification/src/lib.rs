//! Drive health and front-panel LED logic for the LincStation N2.

pub mod text;
pub mod disk_status;
pub mod led_controller;
pub mod daemon;
