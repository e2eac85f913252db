//! Boot-stage takeover logic for a replacement init program.
//!
//! The crate decides, step by step, which filesystem and mount operations a
//! replacement init has to perform in order to insert itself ahead of the
//! vendor init, on devices that boot in one stage as well as on devices that
//! hand off from a first-stage ramdisk to the system partition. The crate
//! performs no operation itself: it answers each observed outcome with the
//! next operation to perform, and rewrites init images held in memory.

pub mod laws;
pub mod machine;
pub mod model;
pub mod patch;
