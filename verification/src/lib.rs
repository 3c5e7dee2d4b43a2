//! Adaptive launch-configuration engine for a game session.
//!
//! The engine turns a host's declared capabilities and thermal state into a
//! runtime policy: a frame-rate cap, a vsync flag, a graphics backend and a
//! compatibility-layer flag. The policy is rendered into a fixed set of
//! environment assignments for a child process, and the child's exit status
//! is mapped back to this process's verdict. Probing the host and spawning
//! the child are left to a thin unverified shell around this crate.

pub mod config;
pub mod glinfo;
pub mod policy;
pub mod profile;
pub mod supervise;
pub mod text;
pub mod thermal;

pub use config::{Backend, LaunchConfiguration, build, env_assignments};
pub use glinfo::extract_opengl_version;
pub use policy::adjust_fps;
pub use profile::{HardwareProfile, build_profile};
pub use supervise::{LaunchVerdict, child_verdict, has_command, usage_message};
pub use thermal::thermal_reading;
