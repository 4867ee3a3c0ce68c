//! Settings of the device tools: where the tablet is reached, and where its
//! files are kept locally.
//!
//! A setting comes from up to three sources.  The built-in defaults give a
//! value for each; the configuration file, where there is one, overrides
//! them; the environment overrides both.

use crate::text::{join_path, joined};
use vstd::prelude::*;

verus! {

/// How the tablet is reached.
#[derive(Clone, Debug, PartialEq, Eq)]
pub struct DeviceConfiguration {
    /// Address of the tablet.
    pub endpoint: String,
    /// User to log in as.
    pub user: String,
    /// File that holds the private key.
    pub key_file: String,
}

/// Where the documents lie on the tablet.
#[derive(Clone, Debug, PartialEq, Eq)]
pub struct RemarkableConfiguration {
    /// Directory of the documents.
    pub base: String,
}

/// Where the documents are kept locally.
#[derive(Clone, Debug, PartialEq, Eq)]
pub struct LocalConfiguration {
    /// Directory under which everything local lies.
    pub root: String,
    /// Directory of the copy of the tablet's documents, relative to `root`.
    pub base: String,
    /// Directory of the local changes, relative to `root`.
    pub overlay: String,
}

impl LocalConfiguration {
    /// The directory of the local changes.
    pub fn overlay(&self) -> (path: String)
        ensures
            path@ == joined(self.root@, self.overlay@),
    {
        join_path(self.root.as_str(), self.overlay.as_str())
    }

    /// The directory of the copy of the tablet's documents.
    pub fn base(&self) -> (path: String)
        ensures
            path@ == joined(self.root@, self.base@),
    {
        join_path(self.root.as_str(), self.base.as_str())
    }
}

/// All settings.
#[derive(Clone, Debug, PartialEq, Eq)]
pub struct Configuration {
    /// How the tablet is reached.
    pub device: DeviceConfiguration,
    /// Where the documents lie on the tablet.
    pub remarkable: RemarkableConfiguration,
    /// Where the documents are kept locally.
    pub local: LocalConfiguration,
}

/// The settings that one source gives: for each, a value or none.
#[derive(Clone, Debug, PartialEq, Eq)]
pub struct Overrides {
    /// Address of the tablet.
    pub device_endpoint: Option<String>,
    /// User to log in as.
    pub device_user: Option<String>,
    /// File that holds the private key.
    pub device_key_file: Option<String>,
    /// Directory of the documents on the tablet.
    pub remarkable_base: Option<String>,
    /// Directory under which everything local lies.
    pub local_root: Option<String>,
    /// Directory of the copy of the tablet's documents.
    pub local_base: Option<String>,
    /// Directory of the local changes.
    pub local_overlay: Option<String>,
}

/// The value of a setting: that of the environment where it gives one, else
/// that of the file where it gives one, else the default.
pub open spec fn chosen(default: Seq<char>, file: Option<String>, env: Option<String>) -> Seq<
    char,
> {
    match env {
        Some(e) => e@,
        None => match file {
            Some(f) => f@,
            None => default,
        },
    }
}

/// Chooses the value of a setting among its sources.
pub fn choose_value(default: String, file: Option<String>, env: Option<String>) -> (value: String)
    ensures
        value@ == chosen(default@, file, env),
{
    match env {
        Some(e) => e,
        None => match file {
            Some(f) => f,
            None => default,
        },
    }
}

/// The settings in force, and the file they are saved to.
#[derive(Clone, Debug, PartialEq, Eq)]
pub struct Settings {
    config: Configuration,
    config_path: String,
}

impl Settings {
    /// The settings as a mathematical value.
    pub closed spec fn spec_config(&self) -> Configuration {
        self.config
    }

    /// The path of the configuration file as a mathematical value.
    pub closed spec fn spec_config_path(&self) -> Seq<char> {
        self.config_path@
    }

    /// Puts the settings together from their sources.  `file` holds what the
    /// configuration file at `config_path` gives, and nothing where there is
    /// no such file.
    pub fn new(defaults: Configuration, file: Overrides, env: Overrides, config_path: String) -> (settings:
        Settings)
        ensures
            settings.spec_config_path() == config_path@,
            settings.spec_config().device.endpoint@ == chosen(
                defaults.device.endpoint@,
                file.device_endpoint,
                env.device_endpoint,
            ),
            settings.spec_config().device.user@ == chosen(
                defaults.device.user@,
                file.device_user,
                env.device_user,
            ),
            settings.spec_config().device.key_file@ == chosen(
                defaults.device.key_file@,
                file.device_key_file,
                env.device_key_file,
            ),
            settings.spec_config().remarkable.base@ == chosen(
                defaults.remarkable.base@,
                file.remarkable_base,
                env.remarkable_base,
            ),
            settings.spec_config().local.root@ == chosen(
                defaults.local.root@,
                file.local_root,
                env.local_root,
            ),
            settings.spec_config().local.base@ == chosen(
                defaults.local.base@,
                file.local_base,
                env.local_base,
            ),
            settings.spec_config().local.overlay@ == chosen(
                defaults.local.overlay@,
                file.local_overlay,
                env.local_overlay,
            ),
    {
        let config = Configuration {
            device: DeviceConfiguration {
                endpoint: choose_value(
                    defaults.device.endpoint,
                    file.device_endpoint,
                    env.device_endpoint,
                ),
                user: choose_value(defaults.device.user, file.device_user, env.device_user),
                key_file: choose_value(
                    defaults.device.key_file,
                    file.device_key_file,
                    env.device_key_file,
                ),
            },
            remarkable: RemarkableConfiguration {
                base: choose_value(
                    defaults.remarkable.base,
                    file.remarkable_base,
                    env.remarkable_base,
                ),
            },
            local: LocalConfiguration {
                root: choose_value(defaults.local.root, file.local_root, env.local_root),
                base: choose_value(defaults.local.base, file.local_base, env.local_base),
                overlay: choose_value(
                    defaults.local.overlay,
                    file.local_overlay,
                    env.local_overlay,
                ),
            },
        };
        Settings { config, config_path }
    }

    /// All settings.
    pub fn config(&self) -> (config: &Configuration)
        ensures
            *config == self.spec_config(),
    {
        &self.config
    }

    /// Where the documents lie on the tablet.
    pub fn remarkable(&self) -> (remarkable: &RemarkableConfiguration)
        ensures
            *remarkable == self.spec_config().remarkable,
    {
        &self.config.remarkable
    }

    /// Where the documents are kept locally.
    pub fn local(&self) -> (local: &LocalConfiguration)
        ensures
            *local == self.spec_config().local,
    {
        &self.config.local
    }

    /// The file that the settings are saved to.
    pub fn config_path(&self) -> (path: &str)
        ensures
            path@ == self.spec_config_path(),
    {
        self.config_path.as_str()
    }
}

} // verus!
