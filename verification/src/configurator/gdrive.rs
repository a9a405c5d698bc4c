//! Google Drive as a backup target.

use vstd::prelude::*;

verus! {

/// The credentials and root folder of a Google Drive target.
pub struct GdriveConfig {
    pub token: String,
    pub root_folder_id: Option<String>,
}

} // verus!
