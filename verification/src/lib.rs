//! Launch helpers for the niri compositor: workspace resolution, profile
//! merging, window matching and the request texts sent over niri's IPC.

pub mod cli;
pub mod ipc;
pub mod launch;
pub mod lists;
pub mod model;
pub mod profile;
pub mod table;
pub mod text;
