//! What a run is configured with: the command line and the manifest.

pub mod command_line;
pub mod constants;
pub mod manifest;
