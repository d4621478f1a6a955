//! Configuration: where the library stores its data, audio files, database,
//! socket and pid file, and the playback defaults.

use vstd::prelude::*;

verus! {

use vstd::string::StringExecFns;

use crate::text::concat_str;

/// Relies on `dirs::config_dir`: the platform's configuration directory, if
/// the environment names one. Nothing is promised of the value.
#[verifier::external_body]
fn os_config_dir() -> (r: Option<String>)
{
    match dirs::config_dir() {
        Some(p) => Some(p.to_string_lossy().into_owned()),
        None => None,
    }
}

/// Relies on `dirs::home_dir`: the user's home directory, if the environment
/// names one. Nothing is promised of the value.
#[verifier::external_body]
fn os_home_dir() -> (r: Option<String>)
{
    match dirs::home_dir() {
        Some(p) => Some(p.to_string_lossy().into_owned()),
        None => None,
    }
}

/// Where the library and its bookkeeping files live.
pub struct StorageConfig {
    pub path: String,
}

impl Default for StorageConfig {
    /// The home directory's ".mixyt", or "./.mixyt" without a home.
    fn default() -> (r: Self)
        ensures
            r.path@.len() >= ".mixyt"@.len(),
    {
        let home = match os_home_dir() {
            Some(h) => h,
            None => String::from_str("."),
        };
        let path = concat_str(home.as_str(), "/.mixyt");
        proof {
            reveal_strlit("/.mixyt");
            reveal_strlit(".mixyt");
        }
        StorageConfig { path }
    }
}

impl Clone for StorageConfig {
    fn clone(&self) -> (r: Self)
        ensures
            r == *self,
    {
        StorageConfig { path: self.path.clone() }
    }
}

/// The audio format and quality asked of the fetch step.
pub struct AudioConfig {
    pub format: String,
    pub quality: String,
}

impl Default for AudioConfig {
    fn default() -> (r: Self)
        ensures
            r.format@ == "mp3"@,
            r.quality@ == "best"@,
    {
        AudioConfig { format: String::from_str("mp3"), quality: String::from_str("best") }
    }
}

impl Clone for AudioConfig {
    fn clone(&self) -> (r: Self)
        ensures
            r == *self,
    {
        AudioConfig { format: self.format.clone(), quality: self.quality.clone() }
    }
}

/// Whether commands may start the daemon on demand.
pub struct DaemonConfig {
    pub auto_start: bool,
}

impl Default for DaemonConfig {
    fn default() -> (r: Self)
        ensures
            r.auto_start,
    {
        DaemonConfig { auto_start: true }
    }
}

impl Clone for DaemonConfig {
    fn clone(&self) -> (r: Self)
        ensures
            r == *self,
    {
        DaemonConfig { auto_start: self.auto_start }
    }
}

/// Playback defaults applied at daemon startup.
pub struct PlaybackConfig {
    pub default_volume: u8,
}

impl Default for PlaybackConfig {
    fn default() -> (r: Self)
        ensures
            r.default_volume == 80,
    {
        PlaybackConfig { default_volume: 80 }
    }
}

impl Clone for PlaybackConfig {
    fn clone(&self) -> (r: Self)
        ensures
            r == *self,
    {
        PlaybackConfig { default_volume: self.default_volume }
    }
}

/// The whole configuration. Loading and saving the configuration file is
/// plain file handling and lives outside the core.
pub struct Config {
    pub storage: StorageConfig,
    pub audio: AudioConfig,
    pub daemon: DaemonConfig,
    pub playback: PlaybackConfig,
}

impl Default for Config {
    fn default() -> (r: Self)
        ensures
            r.audio.format@ == "mp3"@,
            r.audio.quality@ == "best"@,
            r.daemon.auto_start,
            r.playback.default_volume == 80,
    {
        Config {
            storage: StorageConfig::default(),
            audio: AudioConfig::default(),
            daemon: DaemonConfig::default(),
            playback: PlaybackConfig::default(),
        }
    }
}

impl Clone for Config {
    fn clone(&self) -> (r: Self)
        ensures
            r == *self,
    {
        Config {
            storage: self.storage.clone(),
            audio: self.audio.clone(),
            daemon: self.daemon.clone(),
            playback: self.playback.clone(),
        }
    }
}

impl Config {
    /// The configuration directory: the platform's configuration directory
    /// (or ".", if the environment names none) with "mixyt" appended.
    pub fn config_dir() -> (r: String)
        ensures
            r@.len() >= "/mixyt"@.len(),
    {
        let base = match os_config_dir() {
            Some(d) => d,
            None => String::from_str("."),
        };
        let r = concat_str(base.as_str(), "/mixyt");
        proof {
            reveal_strlit("/mixyt");
        }
        r
    }

    /// The configuration file inside [`Config::config_dir`].
    pub fn config_path() -> (r: String)
        ensures
            r@.len() > "/config.toml"@.len(),
    {
        let dir = Config::config_dir();
        let r = concat_str(dir.as_str(), "/config.toml");
        proof {
            reveal_strlit("/config.toml");
            reveal_strlit("/mixyt");
        }
        r
    }

    /// The data directory.
    pub fn data_dir(&self) -> (r: &String)
        ensures
            r == &self.storage.path,
    {
        &self.storage.path
    }

    /// The directory holding downloaded audio files.
    pub fn audio_dir(&self) -> (r: String)
        ensures
            r@ == self.storage.path@ + "/audio"@,
    {
        concat_str(self.storage.path.as_str(), "/audio")
    }

    /// The catalog database file.
    pub fn db_path(&self) -> (r: String)
        ensures
            r@ == self.storage.path@ + "/mixyt.db"@,
    {
        concat_str(self.storage.path.as_str(), "/mixyt.db")
    }

    /// The daemon's listening socket file.
    pub fn socket_path(&self) -> (r: String)
        ensures
            r@ == self.storage.path@ + "/mixyt.sock"@,
    {
        concat_str(self.storage.path.as_str(), "/mixyt.sock")
    }

    /// The daemon's pid file.
    pub fn pid_path(&self) -> (r: String)
        ensures
            r@ == self.storage.path@ + "/mixyt.pid"@,
    {
        concat_str(self.storage.path.as_str(), "/mixyt.pid")
    }
}

} // verus!
