//! Launch and lifecycle tracking for Windows games run on Linux through a
//! compatibility layer (Proton through the UMU launcher).
//!
//! - `runner`: maps runner names to what the shim reads, and checks that a
//!   runner is installed.
//! - `launcher`: the environment and arguments of a launch, the launch plan,
//!   and the calls that signal and observe processes.
//! - `registry`: the persisted table of running games, one record per title.
//! - `controller`: the per-title launch state machine, the liveness sweep and
//!   termination.
//! - `recent`: the recently launched list.
//! - `paths`, `game`, `app_config`, `desktop`, `icons`, `tray`, `steam`,
//!   `versions`: the data and file formats around them.
//! - `text`: character-level helpers.
pub mod text;
pub mod paths;
pub mod runner;
pub mod game;
pub mod launcher;
pub mod registry;
pub mod recent;
pub mod controller;
pub mod desktop;
pub mod app_config;
pub mod icons;
pub mod tray;
pub mod steam;
pub mod versions;
