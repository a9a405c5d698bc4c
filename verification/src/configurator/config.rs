//! The backup target of a guild.

use vstd::prelude::*;

use crate::configurator::gdrive::GdriveConfig;

verus! {

/// The service a guild backs up to.
pub enum ServiceConfig {
    GoogleDrive(GdriveConfig),
}

} // verus!
