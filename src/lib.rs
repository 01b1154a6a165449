//! Path resolution, launch planning and directory-listing rules for a desktop
//! shell that opens folders and files with the operating system's own tools.
//!
//! Everything that touches the machine (the environment, the file system,
//! spawning processes) happens outside this crate; the functions here take
//! what was observed as plain values and decide what to do with it.

pub mod platform;
pub mod paths;
pub mod listing;
pub mod launch;
