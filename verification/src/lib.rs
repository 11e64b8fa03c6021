//! Verified core of the Limbus Company language-patch updater.
//!
//! The library decides; the program around it reads, writes, downloads and asks.

pub mod text;
pub mod path;
pub mod checksum;
pub mod setting;
pub mod weburl;
pub mod llc;
pub mod vdf;
pub mod steam;
pub mod conf;
pub mod lang;
pub mod install;
pub mod updater;
