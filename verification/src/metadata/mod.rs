//! On-disk MD superblock formats.

pub mod v0;
pub mod v1;
pub mod report;
pub mod examine;
