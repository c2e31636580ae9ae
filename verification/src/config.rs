//! The configuration handed to the server: the command-line arguments and
//! the settings the store needs.

use vstd::prelude::*;

verus! {

/// The command-line arguments of the server binary.
#[derive(Debug, Clone)]
pub struct Args {
    pub backend_store_uri: String,
    pub default_artifact_root: String,
    pub host: String,
    pub port: u16,
}

/// The settings the tracking store is opened with: where the backing
/// database lives and where artifacts go by default.
#[derive(Debug, Clone)]
pub struct ServerConfig {
    pub backend_store_uri: String,
    pub default_artifact_root: String,
}

} // verus!
