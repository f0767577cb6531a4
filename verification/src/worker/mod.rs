pub mod cycle;
pub mod error;
pub mod laws;

pub use self::cycle::Action;
pub use self::cycle::Cycle;
pub use self::cycle::Event;
pub use self::cycle::Phase;
pub use self::error::WorkerError;
pub use self::error::WorkerFailure;

use crate::config::Config;
use crate::config::MappingConfig;
use crate::perforce::Change;
use vstd::prelude::*;

verus! {

pub type WorkerResult<T> = Result<T, WorkerError>;

/// The worker: it migrates the mappings of a configuration, one cycle after the other.
pub struct Worker<'a> {
    config: &'a Config,
}

/// The nanoseconds of one second.
pub const NANOS_PER_SECOND: u32 = 1000000000;

/// The nanoseconds left of an interval of `interval` seconds when `seconds` seconds and
/// `nanos` nanoseconds of it have passed.
pub open spec fn remaining(interval: u64, seconds: u64, nanos: u32) -> int {
    interval * NANOS_PER_SECOND - (seconds * NANOS_PER_SECOND + nanos)
}

/// The message of the commit that holds `change`: the marker of the change, then its
/// description with all but ASCII escaped.
pub fn format_change(change: &Change) -> (message: String)
    ensures
        message@ == crate::marker::message_of(change@.change, change@.description),
{
    crate::marker::encode(change.change(), change.description())
}

impl<'a> Worker<'a> {
    /// The configuration that the worker follows.
    pub closed spec fn config(&self) -> Config {
        *self.config
    }

    pub fn new(config: &'a Config) -> (worker: Worker<'a>)
        ensures
            worker.config() == *config,
    {
        Worker { config }
    }

    /// The cycle that migrates `mapping`, `batch_size` changes at most, at its beginning.
    pub fn process_mapping(&self, mapping: &MappingConfig, batch_size: usize) -> (cycle: Cycle)
        ensures
            cycle.wf(),
            cycle@ == cycle::initial(
                crate::perforce::client::Depot {
                    command: self.config()@.perforce.command,
                    work_dir: self.config()@.perforce.work_dir,
                    client: self.config()@.perforce.client,
                    port: self.config()@.perforce.port,
                    user: self.config()@.perforce.user,
                    password: self.config()@.perforce.password,
                    ignore: self.config()@.perforce.ignore,
                    token: None,
                },
                crate::mercurial::client::Repository {
                    command: self.config()@.mercurial.command,
                    work_dir: mapping@.local_directory,
                },
                mapping@.depot_directory,
                mapping@.bookmark,
                batch_size,
            ),
    {
        Cycle::new(self.config.perforce(), self.config.mercurial(), mapping, batch_size)
    }

    /// The first mapping of a round: the first of the configuration, if it has one.
    pub fn first_mapping(&self) -> (first: Option<usize>)
        ensures
            first == if self.config()@.mappings.len() > 0 {
                Some(0usize)
            } else {
                None
            },
    {
        if self.config.mappings().len() > 0 {
            Some(0)
        } else {
            None
        }
    }

    /// The mapping that is migrated behind mapping `index`, whose cycle ended with `outcome`:
    /// the next one of the configuration, whether that cycle failed or not, and none behind
    /// the last.
    pub fn next_mapping(&self, index: usize, outcome: &WorkerResult<()>) -> (next: Option<usize>)
        ensures
            next == if index + 1 < self.config()@.mappings.len() {
                Some((index + 1) as usize)
            } else {
                None
            },
    {
        let count = self.config.mappings().len();
        if index < count && index + 1 < count {
            Some(index + 1)
        } else {
            None
        }
    }

    /// How long to rest before the next round, when the last one took `seconds` seconds and
    /// `nanos` nanoseconds: what is left of the interval, in seconds and nanoseconds, or
    /// `None` where the round took the whole interval or more.
    pub fn pause(&self, seconds: u64, nanos: u32) -> (rest: Option<(u64, u32)>)
        ensures
            match rest {
                Some((s, n)) => remaining(self.config()@.update_interval, seconds, nanos) > 0
                    && n < NANOS_PER_SECOND && s * NANOS_PER_SECOND + n == remaining(
                    self.config()@.update_interval,
                    seconds,
                    nanos,
                ),
                None => remaining(self.config()@.update_interval, seconds, nanos) <= 0,
            },
    {
        let interval: u128 = self.config.update_interval() as u128 * 1000000000u128;
        let elapsed: u128 = seconds as u128 * 1000000000u128 + nanos as u128;
        if elapsed < interval {
            let left: u128 = interval - elapsed;
            Some(((left / 1000000000u128) as u64, (left % 1000000000u128) as u32))
        } else {
            None
        }
    }
}

} // verus!
