//! rmdadm: management of Linux MD software RAID arrays.
//!
//! The verified library holds the on-disk superblock formats, the rules
//! that decide which array operations are allowed, and the parsers for the
//! text that the kernel and the system tools hand back.

pub mod api;
pub mod btrfs;
pub mod bytes;
pub mod cli;
pub mod cluster;
pub mod config;
pub mod error;
pub mod ioctl;
pub mod metadata;
pub mod migration;
pub mod monitoring;
pub mod num;
pub mod ops;
pub mod paths;
pub mod sysfs;
pub mod text;
pub mod validation;
