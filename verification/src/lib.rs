//! Descriptions of background services, and the two file formats that the
//! operating systems' service managers read them from: systemd unit files and
//! launchd property lists.

pub mod command;
pub mod details;
pub mod display;
pub mod error;
pub mod input;
pub mod launchd;
pub mod platform;
pub mod property_list;
pub mod schedule;
pub mod systemd;
pub mod text;
pub mod text_laws;
pub mod unit_laws;

pub use details::{FsServiceDetails, ServiceDetails};
