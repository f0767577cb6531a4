//! One cycle of one mapping, as a machine of states. The machine starts no program and reads
//! no file: it says what is to be done next, takes what came of it, and decides what follows.

use super::WorkerError;
use super::WorkerFailure;
use crate::batch::ascending_of;
use crate::batch::first_of;
use crate::batch::is_ascending;
use crate::batch::resume_after;
use crate::batch::resume_point;
use crate::batch::take_batch;
use crate::config::MappingConfig;
use crate::config::MercurialConfig;
use crate::config::PerforceConfig;
use crate::marker::message_of;
use crate::mercurial::client as repository;
use crate::mercurial::Candidate;
use crate::mercurial::MercurialClient;
use crate::mercurial::MercurialError;
use crate::mercurial::MercurialFailure;
use crate::perforce::change::ChangeRecord;
use crate::perforce::client as depot;
use crate::perforce::Change;
use crate::perforce::PerforceClient;
use crate::perforce::PerforceError;
use crate::perforce::PerforceFailure;
use crate::process::texts;
use crate::process::Execution;
use crate::process::Invocation;
use crate::process::Request;
use crate::text::copy_of;
use vstd::prelude::*;

verus! {

/// What the cycle waits for.
#[derive(Clone, Copy, Debug, PartialEq, Eq, Structural)]
pub enum Phase {
    /// The login at the depot.
    Login,
    /// The move of the working copy to the bookmark.
    Update,
    /// The first line of the last commit.
    LastCommit,
    /// The list of the changes that are due.
    Changes,
    /// The description of the change at hand.
    Describe,
    /// The workspace at the state of the change at hand.
    Sync,
    /// The workspace without what the depot does not hold.
    Clean,
    /// The list of the files that the repository does not track.
    Unknown,
    /// The sizes of those files.
    Measure,
    /// The registration of one large file.
    AddLarge,
    /// The list of the files that differ from the last commit.
    Status,
    /// The staging of what was added and removed.
    AddRemove,
    /// The commit of the change at hand.
    Commit,
    /// The end of the session at the depot.
    Logout,
    /// The publishing of the commits.
    Push,
    /// Nothing: the cycle is over.
    Finished,
}

/// What the cycle asks for.
#[derive(Debug, PartialEq, Eq)]
pub enum Action {
    /// Run this program and tell how it went.
    Run(Invocation),
    /// Read the sizes of these files of the working copy.
    Measure(Vec<String>),
    /// Nothing more: the cycle ended so.
    Done(Result<(), WorkerError>),
}

/// An `Action` with its texts as character sequences.
pub enum Demand {
    Run(Request),
    Measure(Seq<Seq<char>>),
    Done(Result<(), WorkerFailure>),
}

impl View for Action {
    type V = Demand;

    open spec fn view(&self) -> Demand {
        match *self {
            Action::Run(run) => Demand::Run(run@),
            Action::Measure(paths) => Demand::Measure(texts(paths@)),
            Action::Done(Ok(_)) => Demand::Done(Ok(())),
            Action::Done(Err(error)) => Demand::Done(Err(error@)),
        }
    }
}

/// What came of the last action.
#[derive(Debug, PartialEq, Eq)]
pub enum Event {
    /// How the program ran.
    Executed(Execution),
    /// The files with their sizes.
    Measured(Vec<Candidate>),
}

/// The state of a cycle.
pub struct Progress {
    pub depot: depot::Depot,
    pub repository: repository::Repository,
    pub depot_directory: Seq<char>,
    pub bookmark: Seq<char>,
    pub batch_size: usize,
    pub phase: Phase,
    /// The first change that is due.
    pub since: u64,
    /// The changes of this cycle.
    pub batch: Seq<u32>,
    /// The place in the batch of the change at hand.
    pub position: nat,
    /// The change at hand as the depot describes it.
    pub change: Option<ChangeRecord>,
    /// The files that the repository does not track.
    pub listed: Seq<Seq<char>>,
    /// The large files among them.
    pub large: Seq<Seq<char>>,
    /// The place among the large files of the one that is being registered.
    pub large_position: nat,
    /// Whether a commit was made in this cycle.
    pub committed: bool,
    /// The error that ends the cycle once the session is over.
    pub failure: Option<WorkerFailure>,
    /// How the cycle ended.
    pub outcome: Option<Result<(), WorkerFailure>>,
}

/// The failure of the cycle for a failure of the depot.
pub open spec fn perforce_failure(failure: PerforceFailure) -> WorkerFailure {
    WorkerFailure::PerforceError { message: failure.description() }
}

/// The failure of the cycle for a failure of the repository.
pub open spec fn mercurial_failure(failure: MercurialFailure) -> WorkerFailure {
    WorkerFailure::MercurialError { message: failure.description() }
}

/// The failure of the cycle for a change whose date cannot be written.
pub open spec fn unwritten_date() -> WorkerFailure {
    WorkerFailure::MercurialError { message: "Date format error"@ }
}

/// The state in which a cycle begins.
pub open spec fn initial(
    depot: depot::Depot,
    repository: repository::Repository,
    depot_directory: Seq<char>,
    bookmark: Seq<char>,
    batch_size: usize,
) -> Progress {
    Progress {
        depot,
        repository,
        depot_directory,
        bookmark,
        batch_size,
        phase: Phase::Login,
        since: 1,
        batch: Seq::empty(),
        position: 0,
        change: None,
        listed: Seq::empty(),
        large: Seq::empty(),
        large_position: 0,
        committed: false,
        failure: None,
        outcome: None,
    }
}

/// The cycle gives up for `failure`: the session is ended first.
pub open spec fn fail(progress: Progress, failure: WorkerFailure) -> Progress {
    Progress { phase: Phase::Logout, failure: Some(failure), ..progress }
}

/// The cycle is over.
pub open spec fn finish(progress: Progress, outcome: Result<(), WorkerFailure>) -> Progress {
    Progress { phase: Phase::Finished, outcome: Some(outcome), ..progress }
}

/// The cycle goes on behind the change at hand: to the next change of the batch, or to the
/// end of the session behind the last.
pub open spec fn next_change(progress: Progress) -> Progress {
    if progress.position + 1 < progress.batch.len() {
        Progress { position: progress.position + 1, phase: Phase::Describe, ..progress }
    } else {
        Progress { phase: Phase::Logout, ..progress }
    }
}

/// Whether the state is one that a cycle can be in.
pub open spec fn valid(progress: Progress) -> bool {
    let phase = progress.phase;
    &&& is_ascending(progress.batch)
    &&& progress.batch.len() <= progress.batch_size
    &&& progress.depot.token is Some <==> !(phase is Login || phase is Push || phase is Finished)
    &&& progress.outcome is Some <==> phase is Finished
    &&& progress.failure is Some ==> phase is Logout
    &&& phase is Push ==> progress.committed
    &&& progress.committed ==> !(phase is Login || phase is Update || phase is LastCommit
        || phase is Changes)
    &&& in_batch(phase) ==> progress.position < progress.batch.len()
    &&& in_batch(phase) && !(phase is Describe) ==> progress.change is Some
    &&& phase is AddLarge ==> progress.large_position < progress.large.len()
    &&& phase is Commit ==> repository::date_written(progress.change->0.date) is Some
}

/// Whether the cycle is at work on a change of the batch.
pub open spec fn in_batch(phase: Phase) -> bool {
    phase is Describe || phase is Sync || phase is Clean || phase is Unknown || phase is Measure
        || phase is AddLarge || phase is Status || phase is AddRemove || phase is Commit
}

/// What a cycle in the state `progress` asks for.
pub open spec fn requested(progress: Progress) -> Demand {
    let token = progress.depot.token->0;
    let change = progress.change->0;
    match progress.phase {
        Phase::Login => Demand::Run(depot::login_request(progress.depot)),
        Phase::Update => Demand::Run(
            repository::update_request(progress.repository, progress.bookmark),
        ),
        Phase::LastCommit => Demand::Run(
            repository::last_commit_request(progress.repository, progress.bookmark),
        ),
        Phase::Changes => Demand::Run(
            depot::changes_request(
                progress.depot,
                token,
                progress.depot_directory,
                progress.since,
            ),
        ),
        Phase::Describe => Demand::Run(
            depot::change_request(progress.depot, token, progress.batch[progress.position as int]),
        ),
        Phase::Sync => Demand::Run(
            depot::sync_request(
                progress.depot,
                token,
                progress.depot_directory,
                progress.batch[progress.position as int],
            ),
        ),
        Phase::Clean => Demand::Run(
            depot::clean_request(progress.depot, token, progress.depot_directory),
        ),
        Phase::Unknown => Demand::Run(repository::get_large_files_request(progress.repository)),
        Phase::Measure => Demand::Measure(progress.listed),
        Phase::AddLarge => Demand::Run(
            repository::add_large_request(
                progress.repository,
                progress.large[progress.large_position as int],
            ),
        ),
        Phase::Status => Demand::Run(repository::status_request(progress.repository)),
        Phase::AddRemove => Demand::Run(
            repository::addremove_request(progress.repository, repository::RENAME_SIMILARITY),
        ),
        Phase::Commit => Demand::Run(
            repository::commit_request(
                progress.repository,
                message_of(change.change, change.description),
                repository::date_written(change.date)->0,
                change.user,
            ),
        ),
        Phase::Logout => Demand::Run(depot::logout_request(progress.depot, token)),
        Phase::Push => Demand::Run(repository::push_request(progress.repository)),
        Phase::Finished => Demand::Done(progress.outcome->0),
    }
}

/// The state after the sizes of the listed files were read: with large files among them the
/// first is registered, and without any the plain listing decides whether anything changed.
pub open spec fn measured(progress: Progress, candidates: Seq<Candidate>) -> Progress {
    match repository::large_files(candidates, repository::LARGE_FILE_SIZE) {
        Err(failure) => fail(progress, mercurial_failure(failure)),
        Ok(large) => Progress {
            large,
            large_position: 0,
            phase: if large.len() == 0 {
                Phase::Status
            } else {
                Phase::AddLarge
            },
            ..progress
        },
    }
}

/// The state after a program ran.
pub open spec fn executed(progress: Progress, execution: Execution) -> Progress {
    match progress.phase {
        Phase::Login => match depot::login_result(execution) {
            Ok(token) => Progress {
                depot: depot::Depot { token: Some(token), ..progress.depot },
                phase: Phase::Update,
                ..progress
            },
            Err(failure) => finish(progress, Err(perforce_failure(failure))),
        },
        Phase::Update => match repository::ending(execution) {
            Ok(_) => Progress { phase: Phase::LastCommit, ..progress },
            Err(failure) => fail(progress, mercurial_failure(failure)),
        },
        Phase::LastCommit => match repository::last_commit_result(execution) {
            Ok(last) => Progress {
                since: resume_after(last) as u64,
                phase: Phase::Changes,
                ..progress
            },
            Err(failure) => fail(progress, mercurial_failure(failure)),
        },
        Phase::Changes => match depot::guarded(progress.depot, depot::changes_result(execution)) {
            Ok(numbers) => {
                let batch = first_of(ascending_of(numbers), progress.batch_size as nat);
                Progress {
                    batch,
                    position: 0,
                    phase: if batch.len() == 0 {
                        Phase::Logout
                    } else {
                        Phase::Describe
                    },
                    ..progress
                }
            },
            Err(failure) => fail(progress, perforce_failure(failure)),
        },
        Phase::Describe => match depot::guarded(
            progress.depot,
            depot::change_result(execution, progress.batch[progress.position as int]),
        ) {
            Ok(record) => Progress { change: Some(record), phase: Phase::Sync, ..progress },
            Err(failure) => fail(progress, perforce_failure(failure)),
        },
        Phase::Sync => match depot::guarded(progress.depot, depot::ending(execution)) {
            Ok(_) => Progress { phase: Phase::Clean, ..progress },
            Err(failure) => fail(progress, perforce_failure(failure)),
        },
        Phase::Clean => match depot::guarded(progress.depot, depot::ending(execution)) {
            Ok(_) => Progress { phase: Phase::Unknown, ..progress },
            Err(failure) => fail(progress, perforce_failure(failure)),
        },
        Phase::Unknown => match repository::status_result(execution) {
            Ok(paths) => Progress { listed: paths, phase: Phase::Measure, ..progress },
            Err(failure) => fail(progress, mercurial_failure(failure)),
        },
        Phase::Measure => progress,
        Phase::AddLarge => match repository::ending(execution) {
            Ok(_) => if progress.large_position + 1 < progress.large.len() {
                Progress { large_position: progress.large_position + 1, ..progress }
            } else {
                Progress { phase: Phase::AddRemove, ..progress }
            },
            Err(failure) => fail(progress, mercurial_failure(failure)),
        },
        Phase::Status => match repository::status_result(execution) {
            Ok(paths) => if paths.len() == 0 {
                next_change(progress)
            } else {
                Progress { phase: Phase::AddRemove, ..progress }
            },
            Err(failure) => fail(progress, mercurial_failure(failure)),
        },
        Phase::AddRemove => match repository::ending(execution) {
            Ok(_) => match repository::date_written(progress.change->0.date) {
                Some(_) => Progress { phase: Phase::Commit, ..progress },
                None => fail(progress, unwritten_date()),
            },
            Err(failure) => fail(progress, mercurial_failure(failure)),
        },
        Phase::Commit => match repository::ending(execution) {
            Ok(_) => next_change(Progress { committed: true, ..progress }),
            Err(failure) => fail(progress, mercurial_failure(failure)),
        },
        Phase::Logout => {
            let ended = Progress {
                depot: depot::Depot { token: None, ..progress.depot },
                ..progress
            };
            match progress.failure {
                Some(failure) => finish(Progress { failure: None, ..ended }, Err(failure)),
                None => match depot::ending(execution) {
                    Err(failure) => finish(ended, Err(perforce_failure(failure))),
                    Ok(_) => if progress.committed {
                        Progress { phase: Phase::Push, ..ended }
                    } else {
                        finish(ended, Ok(()))
                    },
                },
            }
        },
        Phase::Push => match repository::ending(execution) {
            Ok(_) => finish(progress, Ok(())),
            Err(failure) => finish(progress, Err(mercurial_failure(failure))),
        },
        Phase::Finished => progress,
    }
}

/// The state after `event`. An event that answers nothing the cycle asked for changes
/// nothing.
pub open spec fn advanced(progress: Progress, event: Event) -> Progress {
    match event {
        Event::Executed(execution) => executed(progress, execution),
        Event::Measured(candidates) => if progress.phase is Measure {
            measured(progress, candidates@)
        } else {
            progress
        },
    }
}

/// Every step of a cycle leads from a state that it can be in to another.
pub proof fn advanced_is_valid(progress: Progress, event: Event)
    requires
        valid(progress),
    ensures
        valid(advanced(progress, event)),
{
    let next = advanced(progress, event);
    match event {
        Event::Executed(execution) => {
            if progress.phase is Changes {
                match depot::guarded(progress.depot, depot::changes_result(execution)) {
                    Ok(numbers) => {
                        crate::batch::lemma_ascending_exists(numbers);
                        crate::batch::batch_is_ascending(
                            ascending_of(numbers),
                            progress.batch_size as nat,
                        );
                    },
                    Err(_) => {},
                }
            }
        },
        Event::Measured(candidates) => {},
    }
}

/// One cycle of one mapping.
#[derive(Debug)]
pub struct Cycle {
    perforce: PerforceClient,
    mercurial: MercurialClient,
    depot_directory: String,
    bookmark: String,
    batch_size: usize,
    phase: Phase,
    since: u64,
    batch: Vec<u32>,
    position: usize,
    change: Option<Change>,
    listed: Vec<String>,
    large: Vec<String>,
    large_position: usize,
    committed: bool,
    failure: Option<WorkerError>,
    pending: Action,
}

impl View for Cycle {
    type V = Progress;

    closed spec fn view(&self) -> Progress {
        Progress {
            depot: self.perforce@,
            repository: self.mercurial@,
            depot_directory: self.depot_directory@,
            bookmark: self.bookmark@,
            batch_size: self.batch_size,
            phase: self.phase,
            since: self.since,
            batch: self.batch@,
            position: self.position as nat,
            change: match self.change {
                Some(change) => Some(change@),
                None => None,
            },
            listed: texts(self.listed@),
            large: texts(self.large@),
            large_position: self.large_position as nat,
            committed: self.committed,
            failure: match self.failure {
                Some(failure) => Some(failure@),
                None => None,
            },
            outcome: match self.pending {
                Action::Done(Ok(_)) => Some(Ok(())),
                Action::Done(Err(error)) => Some(Err(error@)),
                _ => None,
            },
        }
    }
}

/// A copy of `strings`.
fn copy_texts(strings: &Vec<String>) -> (copy: Vec<String>)
    ensures
        texts(copy@) == texts(strings@),
{
    let mut copy: Vec<String> = Vec::new();
    let mut i: usize = 0;
    while i < strings.len()
        invariant
            i <= strings.len(),
            texts(copy@) == texts(strings@).take(i as int),
        decreases strings.len() - i,
    {
        let ghost before = texts(copy@);
        copy.push(copy_of(strings[i].as_str()));
        proof {
            assert(texts(copy@) =~= before.push(strings@[i as int]@));
            assert(texts(strings@).take(i + 1) =~= before.push(strings@[i as int]@));
        }
        i += 1;
    }
    proof {
        assert(texts(strings@).take(strings.len() as int) == texts(strings@));
    }
    copy
}

/// The run that the depot client built, or the end of the cycle where it has no session.
fn in_session(built: Result<Invocation, PerforceError>) -> (action: Action)
    ensures
        match built {
            Ok(run) => action@ == Demand::Run(run@),
            Err(error) => action@ == Demand::Done(Err(perforce_failure(error@))),
        },
{
    match built {
        Ok(run) => Action::Run(run),
        Err(error) => Action::Done(Err(WorkerError::perforce_error(error))),
    }
}

impl Cycle {
    /// Whether the cycle is in a state that it can be in, and asks for what that state
    /// asks for.
    pub closed spec fn wf(&self) -> bool {
        valid(self@) && self.pending@ == requested(self@)
    }

    /// A cycle that begins: for the depot that `perforce` names and the working copy of
    /// `mapping`, with `batch_size` changes at most.
    pub fn new(
        perforce: &PerforceConfig,
        mercurial: &MercurialConfig,
        mapping: &MappingConfig,
        batch_size: usize,
    ) -> (cycle: Cycle)
        ensures
            cycle.wf(),
            cycle@ == initial(
                depot::Depot {
                    command: perforce@.command,
                    work_dir: perforce@.work_dir,
                    client: perforce@.client,
                    port: perforce@.port,
                    user: perforce@.user,
                    password: perforce@.password,
                    ignore: perforce@.ignore,
                    token: None,
                },
                repository::Repository {
                    command: mercurial@.command,
                    work_dir: mapping@.local_directory,
                },
                mapping@.depot_directory,
                mapping@.bookmark,
                batch_size,
            ),
    {
        let p4_client = PerforceClient::new(
            perforce.command().as_str(),
            perforce.work_dir().as_str(),
            perforce.client().as_str(),
            perforce.port().as_str(),
            perforce.user().as_str(),
            perforce.password().as_str(),
            perforce.ignore().as_str(),
        );
        let hg_client = MercurialClient::new(
            mercurial.command().as_str(),
            mapping.local_directory().as_str(),
        );
        let pending = Action::Run(p4_client.login_command());
        let cycle = Cycle {
            perforce: p4_client,
            mercurial: hg_client,
            depot_directory: copy_of(mapping.depot_directory().as_str()),
            bookmark: copy_of(mapping.bookmark().as_str()),
            batch_size,
            phase: Phase::Login,
            since: 1,
            batch: Vec::new(),
            position: 0,
            change: None,
            listed: Vec::new(),
            large: Vec::new(),
            large_position: 0,
            committed: false,
            failure: None,
            pending,
        };
        proof {
            assert(cycle@.listed =~= Seq::<Seq<char>>::empty());
            assert(cycle@.large =~= Seq::<Seq<char>>::empty());
        }
        cycle
    }

    /// What the cycle asks for.
    pub fn action(&self) -> (action: &Action)
        requires
            self.wf(),
        ensures
            action@ == requested(self@),
    {
        &self.pending
    }

    /// What the cycle waits for.
    pub fn phase(&self) -> (phase: Phase)
        ensures
            phase == self@.phase,
    {
        self.phase
    }

    /// Whether a commit was made in this cycle.
    pub fn has_committed(&self) -> (committed: bool)
        ensures
            committed == self@.committed,
    {
        self.committed
    }

    /// Goes on to `phase` and asks for what it takes.
    fn go(&mut self, phase: Phase)
        requires
            valid(Progress { phase, ..old(self)@ }),
            !(phase is Commit),
            !(phase is Finished),
        ensures
            final(self)@ == (Progress { phase, ..old(self)@ }),
            final(self).wf(),
    {
        self.phase = phase;
        let action = match phase {
            Phase::Login => Action::Run(self.perforce.login_command()),
            Phase::Update => Action::Run(self.mercurial.update_command(self.bookmark.as_str())),
            Phase::LastCommit => Action::Run(
                self.mercurial.last_commit_command(self.bookmark.as_str()),
            ),
            Phase::Changes => in_session(
                self.perforce.changes_command(self.depot_directory.as_str(), self.since),
            ),
            Phase::Describe => in_session(self.perforce.change_command(self.batch[self.position])),
            Phase::Sync => in_session(
                self.perforce.sync_command(
                    self.depot_directory.as_str(),
                    self.batch[self.position],
                ),
            ),
            Phase::Clean => in_session(self.perforce.clean_command(self.depot_directory.as_str())),
            Phase::Unknown => Action::Run(self.mercurial.get_large_files_command()),
            Phase::Measure => Action::Measure(copy_texts(&self.listed)),
            Phase::AddLarge => Action::Run(
                self.mercurial.add_large_command(self.large[self.large_position].as_str()),
            ),
            Phase::Status => Action::Run(self.mercurial.status_command()),
            Phase::AddRemove => Action::Run(
                self.mercurial.addremove_command(repository::RENAME_SIMILARITY),
            ),
            Phase::Logout => match self.perforce.logout_command() {
                Some(run) => Action::Run(run),
                // Without a session there is nothing to end.
                None => Action::Done(Ok(())),
            },
            Phase::Push => Action::Run(self.mercurial.push_command()),
            // These two are entered by `commit` and by `finish`.
            Phase::Commit | Phase::Finished => Action::Done(Ok(())),
        };
        self.pending = action;
    }

    /// Gives up for `failure`: the session is ended before the cycle is.
    fn fail(&mut self, failure: WorkerError)
        requires
            valid(fail(old(self)@, failure@)),
        ensures
            final(self)@ == fail(old(self)@, failure@),
            final(self).wf(),
    {
        self.failure = Some(failure);
        self.go(Phase::Logout);
    }

    /// Ends the cycle.
    fn finish(&mut self, outcome: Result<(), WorkerError>)
        requires
            valid(
                finish(
                    old(self)@,
                    match outcome {
                        Ok(_) => Ok(()),
                        Err(error) => Err(error@),
                    },
                ),
            ),
        ensures
            final(self)@ == finish(
                old(self)@,
                match outcome {
                    Ok(_) => Ok(()),
                    Err(error) => Err(error@),
                },
            ),
            final(self).wf(),
    {
        self.phase = Phase::Finished;
        self.pending = Action::Done(outcome);
    }

    /// Goes on behind the change at hand.
    fn next(&mut self)
        requires
            valid(next_change(old(self)@)),
            old(self)@.position < old(self)@.batch.len(),
        ensures
            final(self)@ == next_change(old(self)@),
            final(self).wf(),
    {
        assert(self.position < self.batch.len());
        if self.position + 1 < self.batch.len() {
            self.position = self.position + 1;
            self.go(Phase::Describe);
        } else {
            self.go(Phase::Logout);
        }
    }

    /// Goes on to the commit of the change at hand, if its date can be written.
    fn commit(&mut self)
        requires
            valid(old(self)@),
            old(self)@.phase is AddRemove,
        ensures
            final(self)@ == (match repository::date_written(old(self)@.change->0.date) {
                Some(_) => Progress { phase: Phase::Commit, ..old(self)@ },
                None => fail(old(self)@, unwritten_date()),
            }),
            final(self).wf(),
    {
        let built = match &self.change {
            Some(change) => {
                let message = super::format_change(change);
                self.mercurial.commit_command(message.as_str(), change.date(), change.user())
            },
            // A change is at hand from its description on.
            None => Err(MercurialError::exit_error(None)),
        };
        match built {
            Ok(run) => {
                self.phase = Phase::Commit;
                self.pending = Action::Run(run);
            },
            Err(error) => {
                self.fail(WorkerError::mercurial_error(error));
            },
        }
    }

    /// Takes the sizes of the listed files.
    fn measured(&mut self, candidates: &Vec<Candidate>)
        requires
            old(self).wf(),
            old(self)@.phase is Measure,
        ensures
            final(self)@ == measured(old(self)@, candidates@),
            final(self).wf(),
    {
        match self.mercurial.get_large_files(repository::LARGE_FILE_SIZE, candidates) {
            Err(error) => {
                self.fail(WorkerError::mercurial_error(error));
            },
            Ok(large) => {
                let none = large.len() == 0;
                self.large = large;
                self.large_position = 0;
                if none {
                    self.go(Phase::Status);
                } else {
                    self.go(Phase::AddLarge);
                }
            },
        }
    }

    /// Takes how the login went.
    fn after_login(&mut self, execution: &Execution)
        requires
            old(self).wf(),
            old(self)@.phase is Login,
        ensures
            final(self)@ == executed(old(self)@, *execution),
            final(self).wf(),
    {
        match self.perforce.login(execution) {
            Ok(_) => {
                self.go(Phase::Update);
            },
            Err(error) => {
                self.finish(Err(WorkerError::perforce_error(error)));
            },
        }
    }

    /// Takes how the move to the bookmark went.
    fn after_update(&mut self, execution: &Execution)
        requires
            old(self).wf(),
            old(self)@.phase is Update,
        ensures
            final(self)@ == executed(old(self)@, *execution),
            final(self).wf(),
    {
        match self.mercurial.update(execution) {
            Ok(_) => {
                self.go(Phase::LastCommit);
            },
            Err(error) => {
                self.fail(WorkerError::mercurial_error(error));
            },
        }
    }

    /// Takes how the look at the last commit went.
    fn after_last_commit(&mut self, execution: &Execution)
        requires
            old(self).wf(),
            old(self)@.phase is LastCommit,
        ensures
            final(self)@ == executed(old(self)@, *execution),
            final(self).wf(),
    {
        match self.mercurial.last_commit(execution) {
            Ok(last) => {
                self.since = resume_point(last);
                self.go(Phase::Changes);
            },
            Err(error) => {
                self.fail(WorkerError::mercurial_error(error));
            },
        }
    }

    /// Takes how the listing of the changes went.
    fn after_changes(&mut self, execution: &Execution)
        requires
            old(self).wf(),
            old(self)@.phase is Changes,
        ensures
            final(self)@ == executed(old(self)@, *execution),
            final(self).wf(),
    {
        match self.perforce.changes(execution) {
            Ok(ids) => {
                let batch = take_batch(&ids, self.batch_size);
                let none = batch.len() == 0;
                proof {
                    crate::batch::batch_is_ascending(ids@, self.batch_size as nat);
                }
                self.batch = batch;
                self.position = 0;
                if none {
                    self.go(Phase::Logout);
                } else {
                    self.go(Phase::Describe);
                }
            },
            Err(error) => {
                self.fail(WorkerError::perforce_error(error));
            },
        }
    }

    /// Takes how the description of the change at hand went.
    fn after_describe(&mut self, execution: &Execution)
        requires
            old(self).wf(),
            old(self)@.phase is Describe,
        ensures
            final(self)@ == executed(old(self)@, *execution),
            final(self).wf(),
    {
        assert(self.position < self.batch.len());
        match self.perforce.change(self.batch[self.position], execution) {
            Ok(change) => {
                self.change = Some(change);
                self.go(Phase::Sync);
            },
            Err(error) => {
                self.fail(WorkerError::perforce_error(error));
            },
        }
    }

    /// Takes how the update of the workspace went.
    fn after_sync(&mut self, execution: &Execution)
        requires
            old(self).wf(),
            old(self)@.phase is Sync,
        ensures
            final(self)@ == executed(old(self)@, *execution),
            final(self).wf(),
    {
        match self.perforce.sync(execution) {
            Ok(_) => {
                self.go(Phase::Clean);
            },
            Err(error) => {
                self.fail(WorkerError::perforce_error(error));
            },
        }
    }

    /// Takes how the cleaning of the workspace went.
    fn after_clean(&mut self, execution: &Execution)
        requires
            old(self).wf(),
            old(self)@.phase is Clean,
        ensures
            final(self)@ == executed(old(self)@, *execution),
            final(self).wf(),
    {
        match self.perforce.clean(execution) {
            Ok(_) => {
                self.go(Phase::Unknown);
            },
            Err(error) => {
                self.fail(WorkerError::perforce_error(error));
            },
        }
    }

    /// Takes how the listing of the files that are not tracked went.
    fn after_unknown(&mut self, execution: &Execution)
        requires
            old(self).wf(),
            old(self)@.phase is Unknown,
        ensures
            final(self)@ == executed(old(self)@, *execution),
            final(self).wf(),
    {
        match self.mercurial.status(execution) {
            Ok(paths) => {
                self.listed = paths;
                self.go(Phase::Measure);
            },
            Err(error) => {
                self.fail(WorkerError::mercurial_error(error));
            },
        }
    }

    /// Takes how the registration of a large file went.
    fn after_add_large(&mut self, execution: &Execution)
        requires
            old(self).wf(),
            old(self)@.phase is AddLarge,
        ensures
            final(self)@ == executed(old(self)@, *execution),
            final(self).wf(),
    {
        assert(self.large_position < self.large.len());
        match self.mercurial.add_large(execution) {
            Ok(_) => {
                if self.large_position + 1 < self.large.len() {
                    self.large_position = self.large_position + 1;
                    self.go(Phase::AddLarge);
                } else {
                    self.go(Phase::AddRemove);
                }
            },
            Err(error) => {
                self.fail(WorkerError::mercurial_error(error));
            },
        }
    }

    /// Takes how the listing of the files that differ went.
    fn after_status(&mut self, execution: &Execution)
        requires
            old(self).wf(),
            old(self)@.phase is Status,
        ensures
            final(self)@ == executed(old(self)@, *execution),
            final(self).wf(),
    {
        match self.mercurial.status(execution) {
            Ok(paths) => {
                if paths.len() == 0 {
                    self.next();
                } else {
                    self.go(Phase::AddRemove);
                }
            },
            Err(error) => {
                self.fail(WorkerError::mercurial_error(error));
            },
        }
    }

    /// Takes how the staging went.
    fn after_addremove(&mut self, execution: &Execution)
        requires
            old(self).wf(),
            old(self)@.phase is AddRemove,
        ensures
            final(self)@ == executed(old(self)@, *execution),
            final(self).wf(),
    {
        match self.mercurial.addremove(execution) {
            Ok(_) => {
                self.commit();
            },
            Err(error) => {
                self.fail(WorkerError::mercurial_error(error));
            },
        }
    }

    /// Takes how the commit went.
    fn after_commit(&mut self, execution: &Execution)
        requires
            old(self).wf(),
            old(self)@.phase is Commit,
        ensures
            final(self)@ == executed(old(self)@, *execution),
            final(self).wf(),
    {
        match self.mercurial.commit(execution) {
            Ok(_) => {
                self.committed = true;
                self.next();
            },
            Err(error) => {
                self.fail(WorkerError::mercurial_error(error));
            },
        }
    }

    /// Takes how the logout went.
    fn after_logout(&mut self, execution: &Execution)
        requires
            old(self).wf(),
            old(self)@.phase is Logout,
        ensures
            final(self)@ == executed(old(self)@, *execution),
            final(self).wf(),
    {
        let ended = self.perforce.logout(execution);
        match self.failure.take() {
            Some(failure) => {
                self.finish(Err(failure));
            },
            None => {
                match ended {
                    Err(error) => {
                        self.finish(Err(WorkerError::perforce_error(error)));
                    },
                    Ok(_) => {
                        if self.committed {
                            self.go(Phase::Push);
                        } else {
                            self.finish(Ok(()));
                        }
                    },
                }
            },
        }
    }

    /// Takes how the publishing went.
    fn after_push(&mut self, execution: &Execution)
        requires
            old(self).wf(),
            old(self)@.phase is Push,
        ensures
            final(self)@ == executed(old(self)@, *execution),
            final(self).wf(),
    {
        match self.mercurial.push(execution) {
            Ok(_) => {
                self.finish(Ok(()));
            },
            Err(error) => {
                self.finish(Err(WorkerError::mercurial_error(error)));
            },
        }
    }

    /// Takes how a program ran.
    fn executed(&mut self, execution: &Execution)
        requires
            old(self).wf(),
        ensures
            final(self)@ == executed(old(self)@, *execution),
            final(self).wf(),
    {
        match self.phase {
            Phase::Login => self.after_login(execution),
            Phase::Update => self.after_update(execution),
            Phase::LastCommit => self.after_last_commit(execution),
            Phase::Changes => self.after_changes(execution),
            Phase::Describe => self.after_describe(execution),
            Phase::Sync => self.after_sync(execution),
            Phase::Clean => self.after_clean(execution),
            Phase::Unknown => self.after_unknown(execution),
            Phase::AddLarge => self.after_add_large(execution),
            Phase::Status => self.after_status(execution),
            Phase::AddRemove => self.after_addremove(execution),
            Phase::Commit => self.after_commit(execution),
            Phase::Logout => self.after_logout(execution),
            Phase::Push => self.after_push(execution),
            Phase::Measure | Phase::Finished => {},
        }
    }

    /// Takes what came of the last action and decides what follows.
    pub fn advance(&mut self, event: &Event)
        requires
            old(self).wf(),
        ensures
            final(self).wf(),
            final(self)@ == advanced(old(self)@, *event),
    {
        match event {
            Event::Executed(execution) => {
                self.executed(execution);
            },
            Event::Measured(candidates) => {
                if self.phase == Phase::Measure {
                    self.measured(candidates);
                }
            },
        }
    }
}

} // verus!
