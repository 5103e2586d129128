//! A declarative machine-configuration core: units of work with dependencies,
//! an incremental stage scheduler, and mergeable run state.

pub mod command;
pub mod config;
pub mod environment;
pub mod facts;
pub mod file_system;
pub mod opts;
pub mod os;
pub mod packages;
pub mod rustup;
pub mod stage;
pub mod state;
pub mod strmap;
pub mod strutil;
pub mod system;
pub mod template;
pub mod timestamp;
pub mod unit;

pub use crate::config::Config;
pub use crate::state::{DiskState, State};
pub use crate::template::Template;
pub use crate::timestamp::Timestamp;
