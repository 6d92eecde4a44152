use vstd::prelude::*;

use crate::auth::HydrolixAuth;

verus! {

/// The machines whose configuration is snapshotted, and where snapshots go.
pub struct Config {
    pub machines: Vec<Machine>,
    pub git_snapshots: GitSnapshots,
}

/// One management endpoint and its credentials.
pub struct Machine {
    pub base_url: String,
    pub username: String,
    pub password: String,
}

impl Machine {
    /// The credentials of this machine.
    pub fn auth(&self) -> (r: HydrolixAuth)
        ensures
            r@.base_url == self.base_url@,
            r@.username == self.username@,
            r@.password == self.password@,
    {
        HydrolixAuth::new(self.base_url.as_str(), self.username.as_str(), self.password.as_str())
    }
}

pub struct GitSnapshots {
    pub token: String,
}

pub struct StorageSettings {
    pub bucket_name: String,
    pub bucket_path: String,
    pub region: String,
    pub endpoint: Option<String>,
    pub cloud: String,
    pub credential_id: Option<String>,
    pub account_name: Option<String>,
    pub is_default: bool,
}

pub struct Storage {
    pub name: String,
    pub org: String,
    pub description: String,
    pub uuid: String,
    pub url: String,
    pub created: String,
    pub modified: String,
    pub settings: StorageSettings,
    pub publish_task_id: Option<String>,
}

pub struct Function {
    pub name: String,
    pub project: String,
    pub description: String,
    pub sql: Option<String>,
    pub uuid: String,
    pub url: String,
    pub created: String,
    pub modified: String,
}

pub struct AgeSettings {
    pub max_age_days: i64,
}

pub struct ReaperSettings {
    pub max_age_days: i64,
}

pub struct MergeSettings {
    pub enabled: bool,
}

pub struct FormatDetails {
    pub flattening: Option<FlatteningDetails>,
}

pub struct FlatteningDetails {
    pub depth: Option<i64>,
    pub active: bool,
    pub map_flattening_strategy: Option<MapFlatteningStrategy>,
    pub slice_flattening_strategy: Option<MapFlatteningStrategy>,
}

pub struct MapFlatteningStrategy {
    pub left: Option<String>,
    pub right: Option<String>,
}

/// The page fetcher that talks to the network.
pub struct Http {}

} // verus!
