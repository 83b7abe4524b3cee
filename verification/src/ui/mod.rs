//! Presentation rules: diagnostics settings, the map-input gate, panel texts.
pub mod debug;
pub mod industry;
pub mod shell;
