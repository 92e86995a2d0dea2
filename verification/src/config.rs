//! The instance's configuration and its defaults.

use vstd::prelude::*;

verus! {

/// Email settings.
#[derive(Default, Copy, Clone, Debug)]
pub struct MiruConfigEmail {
    pub enabled: bool,
    pub verification: bool,
}

/// Incident settings.
#[derive(Default, Copy, Clone, Debug)]
pub struct MiruConfigIncident {
    pub auto: MiruConfigIncidentAuto,
}

/// Settings of the automatic incident detection. `pings_threshold` is both
/// the number of failed pings in a row that opens an incident and the
/// number of successful ones in a row that resolves it.
#[derive(Default, Copy, Clone, Debug)]
pub struct MiruConfigIncidentAuto {
    pub enabled: bool,
    pub pings_threshold: u64,
}

/// Storage settings.
#[derive(Default, Copy, Clone, Debug)]
pub struct MiruConfigStorage {
    pub max_size: u64,
}

/// User settings.
#[derive(Default, Copy, Clone, Debug)]
pub struct MiruConfigUsers {
    pub delete_on_empty: bool,
}

/// Workspace settings.
#[derive(Default, Copy, Clone, Debug)]
pub struct MiruConfigWorkspace {
    pub creation: bool,
}

/// The whole configuration.
#[derive(Copy, Clone, Debug)]
pub struct MiruConfig {
    pub email: MiruConfigEmail,
    pub incidents: MiruConfigIncident,
    pub storage: MiruConfigStorage,
    pub users: MiruConfigUsers,
    pub workspace: MiruConfigWorkspace,
}

/// The configuration that holds where none could be read.
pub open spec fn default_config_spec() -> MiruConfig {
    MiruConfig {
        email: MiruConfigEmail { enabled: true, verification: true },
        incidents: MiruConfigIncident {
            auto: MiruConfigIncidentAuto { enabled: true, pings_threshold: 3 },
        },
        storage: MiruConfigStorage { max_size: 12582912 },
        users: MiruConfigUsers { delete_on_empty: true },
        workspace: MiruConfigWorkspace { creation: true },
    }
}

/// The configuration that holds where none could be read: everything
/// switched on, a threshold of three pings, twelve mebibytes of storage.
pub fn default_config() -> (res: MiruConfig)
    ensures
        res == default_config_spec(),
{
    MiruConfig {
        email: MiruConfigEmail { enabled: true, verification: true },
        incidents: MiruConfigIncident {
            auto: MiruConfigIncidentAuto { enabled: true, pings_threshold: 3 },
        },
        storage: MiruConfigStorage { max_size: 12582912 },
        users: MiruConfigUsers { delete_on_empty: true },
        workspace: MiruConfigWorkspace { creation: true },
    }
}

/// The configuration in force: the one that was read, if any, and the
/// defaults where reading or parsing failed or nothing has been installed.
pub fn get_config(installed: Option<MiruConfig>) -> (res: MiruConfig)
    ensures
        res == match installed {
            Some(config) => config,
            None => default_config_spec(),
        },
{
    match installed {
        Some(config) => config,
        None => default_config(),
    }
}

} // verus!
