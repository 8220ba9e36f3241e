//! Verified core logic of the CoverDrop administration tool and API service.
use vstd::prelude::*;

pub mod api_rules;
pub mod backups;
pub mod ceremony;
pub mod dead_drops;
pub mod error;
pub mod constants_file;
pub mod hierarchy;
pub mod journalist;
pub mod text;
pub mod uploads;
