pub mod error;

pub use self::error::ConfigError;
pub use self::error::ConfigFailure;

use crate::text::copy_of;
use vstd::prelude::*;

verus! {

pub type ConfigResult<T> = Result<T, ConfigError>;

/// How the depot is reached: the program, the directory it runs in, the workspace, the
/// server, the user with the password, and the file of patterns to leave alone.
#[derive(Debug)]
pub struct PerforceConfig {
    command: String,
    work_dir: String,
    client: String,
    port: String,
    user: String,
    password: String,
    ignore: String,
}

/// How the repository is reached: the program.
#[derive(Debug)]
pub struct MercurialConfig {
    command: String,
}

/// One mapping: the directory of the depot, the bookmark that follows it, and the working
/// copy in which the commits are made.
#[derive(Debug)]
pub struct MappingConfig {
    depot_directory: String,
    bookmark: String,
    local_directory: String,
}

/// The configuration: the seconds from one round to the next, the number of changes of one
/// batch, both programs, and the mappings in their order.
#[derive(Debug)]
pub struct Config {
    update_interval: u64,
    batch_size: usize,
    perforce: PerforceConfig,
    mercurial: MercurialConfig,
    mappings: Vec<MappingConfig>,
}

/// A `PerforceConfig` with its texts as character sequences.
pub struct PerforceSettings {
    pub command: Seq<char>,
    pub work_dir: Seq<char>,
    pub client: Seq<char>,
    pub port: Seq<char>,
    pub user: Seq<char>,
    pub password: Seq<char>,
    pub ignore: Seq<char>,
}

/// A `MercurialConfig` with its text as a character sequence.
pub struct MercurialSettings {
    pub command: Seq<char>,
}

/// A `MappingConfig` with its texts as character sequences.
pub struct Mapping {
    pub depot_directory: Seq<char>,
    pub bookmark: Seq<char>,
    pub local_directory: Seq<char>,
}

/// A `Config` with its parts as mathematical values.
pub struct Settings {
    pub update_interval: u64,
    pub batch_size: usize,
    pub perforce: PerforceSettings,
    pub mercurial: MercurialSettings,
    pub mappings: Seq<Mapping>,
}

impl View for PerforceConfig {
    type V = PerforceSettings;

    closed spec fn view(&self) -> PerforceSettings {
        PerforceSettings {
            command: self.command@,
            work_dir: self.work_dir@,
            client: self.client@,
            port: self.port@,
            user: self.user@,
            password: self.password@,
            ignore: self.ignore@,
        }
    }
}

impl View for MercurialConfig {
    type V = MercurialSettings;

    closed spec fn view(&self) -> MercurialSettings {
        MercurialSettings { command: self.command@ }
    }
}

impl View for MappingConfig {
    type V = Mapping;

    closed spec fn view(&self) -> Mapping {
        Mapping {
            depot_directory: self.depot_directory@,
            bookmark: self.bookmark@,
            local_directory: self.local_directory@,
        }
    }
}

/// The mappings that a sequence of mapping configurations holds.
pub open spec fn mappings_of(mappings: Seq<MappingConfig>) -> Seq<Mapping> {
    Seq::new(mappings.len(), |i: int| mappings[i]@)
}

impl View for Config {
    type V = Settings;

    closed spec fn view(&self) -> Settings {
        Settings {
            update_interval: self.update_interval,
            batch_size: self.batch_size,
            perforce: self.perforce@,
            mercurial: self.mercurial@,
            mappings: mappings_of(self.mappings@),
        }
    }
}

impl Config {
    pub fn new(
        update_interval: u64,
        batch_size: usize,
        perforce: PerforceConfig,
        mercurial: MercurialConfig,
        mappings: Vec<MappingConfig>,
    ) -> (config: Config)
        ensures
            config@ == (Settings {
                update_interval,
                batch_size,
                perforce: perforce@,
                mercurial: mercurial@,
                mappings: mappings_of(mappings@),
            }),
    {
        Config { update_interval, batch_size, perforce, mercurial, mappings }
    }

    #[inline]
    pub fn update_interval(&self) -> (seconds: u64)
        ensures
            seconds == self@.update_interval,
    {
        self.update_interval
    }

    #[inline]
    pub fn batch_size(&self) -> (size: usize)
        ensures
            size == self@.batch_size,
    {
        self.batch_size
    }

    #[inline]
    pub fn perforce(&self) -> (perforce: &PerforceConfig)
        ensures
            perforce@ == self@.perforce,
    {
        &self.perforce
    }

    #[inline]
    pub fn mercurial(&self) -> (mercurial: &MercurialConfig)
        ensures
            mercurial@ == self@.mercurial,
    {
        &self.mercurial
    }

    #[inline]
    pub fn mappings(&self) -> (mappings: &[MappingConfig])
        ensures
            mappings_of(mappings@) == self@.mappings,
    {
        self.mappings.as_slice()
    }
}

impl PerforceConfig {
    pub fn new(
        command: &str,
        work_dir: &str,
        client: &str,
        port: &str,
        user: &str,
        password: &str,
        ignore: &str,
    ) -> (config: PerforceConfig)
        ensures
            config@ == (PerforceSettings {
                command: command@,
                work_dir: work_dir@,
                client: client@,
                port: port@,
                user: user@,
                password: password@,
                ignore: ignore@,
            }),
    {
        PerforceConfig {
            command: copy_of(command),
            work_dir: copy_of(work_dir),
            client: copy_of(client),
            port: copy_of(port),
            user: copy_of(user),
            password: copy_of(password),
            ignore: copy_of(ignore),
        }
    }

    pub fn command(&self) -> (command: &String)
        ensures
            command@ == self@.command,
    {
        &self.command
    }

    pub fn work_dir(&self) -> (work_dir: &String)
        ensures
            work_dir@ == self@.work_dir,
    {
        &self.work_dir
    }

    pub fn client(&self) -> (client: &String)
        ensures
            client@ == self@.client,
    {
        &self.client
    }

    pub fn port(&self) -> (port: &String)
        ensures
            port@ == self@.port,
    {
        &self.port
    }

    pub fn user(&self) -> (user: &String)
        ensures
            user@ == self@.user,
    {
        &self.user
    }

    pub fn password(&self) -> (password: &String)
        ensures
            password@ == self@.password,
    {
        &self.password
    }

    pub fn ignore(&self) -> (ignore: &String)
        ensures
            ignore@ == self@.ignore,
    {
        &self.ignore
    }
}

impl MercurialConfig {
    pub fn new(command: &str) -> (config: MercurialConfig)
        ensures
            config@ == (MercurialSettings { command: command@ }),
    {
        MercurialConfig { command: copy_of(command) }
    }

    pub fn command(&self) -> (command: &String)
        ensures
            command@ == self@.command,
    {
        &self.command
    }
}

impl MappingConfig {
    pub fn new(depot_directory: &str, bookmark: &str, local_directory: &str) -> (config:
        MappingConfig)
        ensures
            config@ == (Mapping {
                depot_directory: depot_directory@,
                bookmark: bookmark@,
                local_directory: local_directory@,
            }),
    {
        MappingConfig {
            depot_directory: copy_of(depot_directory),
            bookmark: copy_of(bookmark),
            local_directory: copy_of(local_directory),
        }
    }

    pub fn depot_directory(&self) -> (depot_directory: &String)
        ensures
            depot_directory@ == self@.depot_directory,
    {
        &self.depot_directory
    }

    pub fn bookmark(&self) -> (bookmark: &String)
        ensures
            bookmark@ == self@.bookmark,
    {
        &self.bookmark
    }

    pub fn local_directory(&self) -> (local_directory: &String)
        ensures
            local_directory@ == self@.local_directory,
    {
        &self.local_directory
    }
}

} // verus!
