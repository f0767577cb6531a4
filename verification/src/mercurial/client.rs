use super::MercurialError;
use super::MercurialFailure;
use crate::date::strftime;
use crate::date::strftime_result;
use crate::date::DateTime;
use crate::date::LAST_YEAR;
use crate::lines::lines;
use crate::lines::rows;
use crate::lines::split_lines;
use crate::marker::decode;
use crate::marker::decoded;
use crate::process::texts;
use crate::process::Execution;
use crate::process::Invocation;
use crate::process::Request;
use crate::text::copy_of;
use crate::text::decimal;
use crate::text::decimal_string;
use crate::text::string_of;
use vstd::prelude::*;

verus! {

pub type MercurialResult<T> = Result<T, MercurialError>;

/// The client of the repository: how the repository program is run, and the working copy it
/// is run in.
#[derive(Debug)]
pub struct MercurialClient {
    command: String,
    work_dir: String,
}

/// A `MercurialClient` with its texts as character sequences.
pub struct Repository {
    pub command: Seq<char>,
    pub work_dir: Seq<char>,
}

/// A file of the working copy that the repository does not track, with its size in bytes or
/// the reason why the size could not be read.
#[derive(Debug, PartialEq, Eq)]
pub struct Candidate {
    pub path: String,
    pub size: Result<u64, String>,
}

impl View for MercurialClient {
    type V = Repository;

    closed spec fn view(&self) -> Repository {
        Repository { command: self.command@, work_dir: self.work_dir@ }
    }
}

/// The size from which on a file counts as large: ten mebibytes.
pub const LARGE_FILE_SIZE: u64 = 10485760;

/// The similarity, in percent, from which on a file that went and a file that came count as
/// one file renamed.
pub const RENAME_SIMILARITY: u8 = 80;

/// The way the repository reads the date of a commit.
pub open spec fn repository_date_format() -> Seq<char> {
    "%Y-%m-%d %H:%M:%S"@
}

/// What a run says by itself, whatever it wrote: the error of a run that did not start,
/// whose streams failed, whose end was not seen, or that did not end with exit code zero.
pub open spec fn ending(execution: Execution) -> Result<(), MercurialFailure> {
    match execution {
        Execution::NotStarted { message } => Err(
            MercurialFailure::ExecutionError { message: message@ },
        ),
        Execution::Interrupted { message, .. } => Err(
            MercurialFailure::CommunicationError { message: message@ },
        ),
        Execution::Unfinished { message, .. } => Err(
            MercurialFailure::IoError { message: message@ },
        ),
        Execution::Exited { exit_code, .. } => if exit_code == Some(0i32) {
            Ok(())
        } else {
            Err(MercurialFailure::ExitError { exit_code })
        },
    }
}

/// A run of the repository program in the working copy, with an empty environment.
pub open spec fn request(
    repository: Repository,
    arguments: Seq<Seq<char>>,
    capture: bool,
) -> Request {
    Request {
        command: repository.command,
        work_dir: repository.work_dir,
        environment: Seq::empty(),
        arguments,
        prompt: None,
        capture,
        lenient: false,
    }
}

/// The run that moves the working copy to the tip of `revision`.
pub open spec fn update_request(repository: Repository, revision: Seq<char>) -> Request {
    request(repository, seq!["update"@, "--rev"@, revision], false)
}

/// The run that prints the first line of the message of the last commit of `revision`.
pub open spec fn last_commit_request(repository: Repository, revision: Seq<char>) -> Request {
    request(
        repository,
        seq!["log"@, "--rev"@, revision, "--template"@, "{desc|firstline}"@],
        true,
    )
}

/// The run that stages what was added and what was removed, taking files that are alike to
/// `similarity` percent for renamed ones.
pub open spec fn addremove_request(repository: Repository, similarity: u8) -> Request {
    request(repository, seq!["addremove"@, "--similarity"@, decimal(similarity as nat)], false)
}

/// The run that hands `path` to the large-file extension.
pub open spec fn add_large_request(repository: Repository, path: Seq<char>) -> Request {
    request(repository, seq!["add"@, "--large"@, path], false)
}

/// The run that lists the files that the repository does not track.
pub open spec fn get_large_files_request(repository: Repository) -> Request {
    request(repository, seq!["status"@, "--no-status"@, "--unknown"@], true)
}

/// The run that lists the files that differ from the last commit.
pub open spec fn status_request(repository: Repository) -> Request {
    request(repository, seq!["status"@, "--no-status"@], true)
}

/// The run that commits what is staged, with `message`, at the date written as `date`, in the
/// name of `user`.
pub open spec fn commit_request(
    repository: Repository,
    message: Seq<char>,
    date: Seq<char>,
    user: Seq<char>,
) -> Request {
    request(
        repository,
        seq!["commit"@, "--message"@, message, "--date"@, date, "--user"@, user],
        false,
    )
}

/// The run that publishes the commits.
pub open spec fn push_request(repository: Repository) -> Request {
    request(repository, seq!["push"@], false)
}

/// How a date is written for a commit: as `time` writes it, or not at all where `time`
/// reports an error or the year is too large for its number to be written.
pub open spec fn date_written(date: DateTime) -> Option<Seq<char>> {
    if date.year > LAST_YEAR {
        None
    } else {
        strftime_result(repository_date_format(), date)
    }
}

/// The change that the last commit holds, as the first line of its message says. A first
/// line that cannot be read counts before the way the run ended.
pub open spec fn last_commit_result(execution: Execution) -> Result<
    Option<u32>,
    MercurialFailure,
> {
    match execution {
        Execution::NotStarted { .. } | Execution::Interrupted { .. } => Err(
            ending(execution)->Err_0,
        ),
        _ => match decoded(execution.output()) {
            Err(failure) => Err(failure),
            Ok(id) => match ending(execution) {
                Ok(_) => Ok(id),
                Err(failure) => Err(failure),
            },
        },
    }
}

/// The files that a listing names, one to a line.
pub open spec fn status_result(execution: Execution) -> Result<Seq<Seq<char>>, MercurialFailure> {
    match ending(execution) {
        Ok(_) => Ok(lines(execution.output())),
        Err(failure) => Err(failure),
    }
}

/// The large files among `candidates`, in their order: those of `min_size` bytes or more.
/// The first file whose size could not be read fails the whole.
pub open spec fn large_files(candidates: Seq<Candidate>, min_size: u64) -> Result<
    Seq<Seq<char>>,
    MercurialFailure,
>
    decreases candidates.len(),
{
    if candidates.len() == 0 {
        Ok(Seq::empty())
    } else {
        match large_files(candidates.drop_last(), min_size) {
            Err(failure) => Err(failure),
            Ok(found) => match candidates.last().size {
                Err(message) => Err(MercurialFailure::ReadMetadataError { message: message@ }),
                Ok(size) => if size >= min_size {
                    Ok(found.push(candidates.last().path@))
                } else {
                    Ok(found)
                },
            },
        }
    }
}

/// Once the size of a file could not be read, the files behind it change nothing.
pub proof fn lemma_large_files_fail(candidates: Seq<Candidate>, min_size: u64, k: int)
    requires
        0 <= k <= candidates.len(),
        large_files(candidates.take(k), min_size) is Err,
    ensures
        large_files(candidates, min_size) == large_files(candidates.take(k), min_size),
    decreases candidates.len(),
{
    if k == candidates.len() {
        assert(candidates.take(k) == candidates);
    } else {
        assert(candidates.drop_last().take(k) == candidates.take(k));
        lemma_large_files_fail(candidates.drop_last(), min_size, k);
    }
}

/// Whether a candidate is a file of `min_size` bytes or more.
pub open spec fn is_large(candidate: Candidate, min_size: u64) -> bool {
    candidate.size matches Ok(size) && size >= min_size
}

/// Large files are told by their size alone. Where every size could be read, the large files
/// are the paths of the candidates of `min_size` bytes or more, in the order of the
/// candidates, and no others.
pub proof fn large_files_by_size(candidates: Seq<Candidate>, min_size: u64)
    requires
        forall|i: int| 0 <= i < candidates.len() ==> (#[trigger] candidates[i]).size is Ok,
    ensures
        large_files(candidates, min_size) == Ok::<Seq<Seq<char>>, MercurialFailure>(
            candidates.filter(|candidate: Candidate| is_large(candidate, min_size)).map_values(
                |candidate: Candidate| candidate.path@,
            ),
        ),
    decreases candidates.len(),
{
    reveal(Seq::filter);
    let large = |candidate: Candidate| is_large(candidate, min_size);
    let path = |candidate: Candidate| candidate.path@;
    if candidates.len() == 0 {
        assert(candidates.filter(large).map_values(path) =~= Seq::<Seq<char>>::empty());
    } else {
        let rest = candidates.drop_last();
        let last = candidates.last();
        assert forall|i: int| 0 <= i < rest.len() implies (#[trigger] rest[i]).size is Ok by {
            assert(rest[i] == candidates[i]);
        }
        large_files_by_size(rest, min_size);
        assert(last == candidates[candidates.len() - 1]);
        if is_large(last, min_size) {
            assert(candidates.filter(large) == rest.filter(large).push(last));
            assert(rest.filter(large).push(last).map_values(path) =~= rest.filter(
                large,
            ).map_values(path).push(last.path@));
        } else {
            assert(candidates.filter(large) == rest.filter(large));
        }
    }
}

/// A file is large from the threshold on: a file of exactly `min_size` bytes is large, and
/// one of a byte less is not.
pub proof fn large_file_boundary(path: String, min_size: u64)
    requires
        min_size > 0,
    ensures
        large_files(seq![Candidate { path, size: Ok(min_size) }], min_size) == Ok::<
            Seq<Seq<char>>,
            MercurialFailure,
        >(seq![path@]),
        large_files(seq![Candidate { path, size: Ok((min_size - 1) as u64) }], min_size) == Ok::<
            Seq<Seq<char>>,
            MercurialFailure,
        >(Seq::empty()),
{
    reveal_with_fuel(large_files, 3);
    let at = seq![Candidate { path, size: Ok(min_size) }];
    let below = seq![Candidate { path, size: Ok((min_size - 1) as u64) }];
    assert(at.drop_last() =~= Seq::<Candidate>::empty());
    assert(below.drop_last() =~= Seq::<Candidate>::empty());
    assert(at.last().path == path);
    assert(below.last().size == Ok::<u64, String>((min_size - 1) as u64));
    assert(Seq::<Seq<char>>::empty().push(path@) =~= seq![path@]);
}

/// The error that `execution` stands for by itself, if any.
pub fn check_ending(execution: &Execution) -> (result: MercurialResult<()>)
    ensures
        match result {
            Ok(_) => ending(*execution) is Ok,
            Err(error) => ending(*execution) == Err::<(), MercurialFailure>(error@),
        },
{
    match execution {
        Execution::NotStarted { message } => Err(MercurialError::execution_error(message.as_str())),
        Execution::Interrupted { message, .. } => Err(
            MercurialError::communication_error(message.as_str()),
        ),
        Execution::Unfinished { message, .. } => Err(MercurialError::io_error(message.as_str())),
        Execution::Exited { exit_code, .. } => {
            match exit_code {
                Some(0) => Ok(()),
                _ => Err(MercurialError::exit_error(*exit_code)),
            }
        },
    }
}

/// The output of a run that started.
fn output_of(execution: &Execution) -> (output: &str)
    ensures
        output@ == execution.output(),
{
    match execution {
        Execution::NotStarted { .. } => {
            proof {
                reveal_strlit("");
            }
            ""
        },
        Execution::Interrupted { output, .. } => output.as_str(),
        Execution::Unfinished { output, .. } => output.as_str(),
        Execution::Exited { output, .. } => output.as_str(),
    }
}

impl Candidate {
    /// The file `path` of `size` bytes.
    pub fn sized(path: &str, size: u64) -> (candidate: Candidate)
        ensures
            candidate.path@ == path@,
            candidate.size == Ok::<u64, String>(size),
    {
        Candidate { path: copy_of(path), size: Ok(size) }
    }

    /// The file `path`, whose size could not be read for the reason `message`.
    pub fn unreadable(path: &str, message: &str) -> (candidate: Candidate)
        ensures
            candidate.path@ == path@,
            candidate.size matches Err(reason) && reason@ == message@,
    {
        Candidate { path: copy_of(path), size: Err(copy_of(message)) }
    }
}

impl MercurialClient {
    /// The client of the working copy in `work_dir`.
    pub fn new(command: &str, work_dir: &str) -> (made: MercurialClient)
        ensures
            made@ == (Repository { command: command@, work_dir: work_dir@ }),
    {
        MercurialClient { command: copy_of(command), work_dir: copy_of(work_dir) }
    }

    /// The working copy, in which the files of a listing are found.
    pub fn work_dir(&self) -> (work_dir: &str)
        ensures
            work_dir@ == self@.work_dir,
    {
        self.work_dir.as_str()
    }

    /// A run of the repository program in the working copy.
    fn run(&self) -> (run: Invocation)
        ensures
            run@ == request(self@, Seq::empty(), false),
    {
        Invocation::new(self.command.as_str(), self.work_dir.as_str())
    }

    /// The run that moves the working copy to the tip of `revision`.
    pub fn update_command(&self, revision: &str) -> (run: Invocation)
        ensures
            run@ == update_request(self@, revision@),
    {
        let mut run = self.run();
        run.arg("update");
        run.arg("--rev");
        run.arg(revision);
        assert(run@.arguments =~= update_request(self@, revision@).arguments);
        run
    }

    /// How the update of the working copy went.
    pub fn update(&self, execution: &Execution) -> (result: MercurialResult<()>)
        ensures
            match ending(*execution) {
                Ok(_) => result is Ok,
                Err(failure) => result matches Err(error) && error@ == failure,
            },
    {
        check_ending(execution)
    }

    /// The run that prints the first line of the last commit of `revision`.
    pub fn last_commit_command(&self, revision: &str) -> (run: Invocation)
        ensures
            run@ == last_commit_request(self@, revision@),
    {
        let mut run = self.run();
        run.arg("log");
        run.arg("--rev");
        run.arg(revision);
        run.arg("--template");
        run.arg("{desc|firstline}");
        run.read_output();
        assert(run@.arguments =~= last_commit_request(self@, revision@).arguments);
        run
    }

    /// The change that the last commit holds, or `None` where the history is empty or its
    /// last commit carries no marker.
    pub fn last_commit(&self, execution: &Execution) -> (result: MercurialResult<Option<u32>>)
        ensures
            match last_commit_result(*execution) {
                Ok(id) => result == Ok::<Option<u32>, MercurialError>(id),
                Err(failure) => result matches Err(error) && error@ == failure,
            },
    {
        match execution {
            Execution::NotStarted { .. } | Execution::Interrupted { .. } => {
                check_ending(execution)?;
            },
            _ => {},
        }
        let id = decode(output_of(execution))?;
        check_ending(execution)?;
        Ok(id)
    }

    /// The run that stages additions and removals.
    pub fn addremove_command(&self, similarity: u8) -> (run: Invocation)
        ensures
            run@ == addremove_request(self@, similarity),
    {
        let mut run = self.run();
        let percent = decimal_string(similarity as u64);
        run.arg("addremove");
        run.arg("--similarity");
        run.arg(percent.as_str());
        assert(run@.arguments =~= addremove_request(self@, similarity).arguments);
        run
    }

    /// How the staging went.
    pub fn addremove(&self, execution: &Execution) -> (result: MercurialResult<()>)
        ensures
            match ending(*execution) {
                Ok(_) => result is Ok,
                Err(failure) => result matches Err(error) && error@ == failure,
            },
    {
        check_ending(execution)
    }

    /// The run that hands `path` to the large-file extension.
    pub fn add_large_command(&self, path: &str) -> (run: Invocation)
        ensures
            run@ == add_large_request(self@, path@),
    {
        let mut run = self.run();
        run.arg("add");
        run.arg("--large");
        run.arg(path);
        assert(run@.arguments =~= add_large_request(self@, path@).arguments);
        run
    }

    /// How the registration of a large file went.
    pub fn add_large(&self, execution: &Execution) -> (result: MercurialResult<()>)
        ensures
            match ending(*execution) {
                Ok(_) => result is Ok,
                Err(failure) => result matches Err(error) && error@ == failure,
            },
    {
        check_ending(execution)
    }

    /// The run that lists the files among which the large ones are looked for: those that
    /// the repository does not track.
    pub fn get_large_files_command(&self) -> (run: Invocation)
        ensures
            run@ == get_large_files_request(self@),
    {
        let mut run = self.run();
        run.arg("status");
        run.arg("--no-status");
        run.arg("--unknown");
        run.read_output();
        assert(run@.arguments =~= get_large_files_request(self@).arguments);
        run
    }

    /// The large files among `candidates`: those of `min_size` bytes or more.
    pub fn get_large_files(&self, min_size: u64, candidates: &Vec<Candidate>) -> (result:
        MercurialResult<Vec<String>>)
        ensures
            match large_files(candidates@, min_size) {
                Ok(paths) => result matches Ok(found) && texts(found@) == paths,
                Err(failure) => result matches Err(error) && error@ == failure,
            },
    {
        let mut found: Vec<String> = Vec::new();
        let mut i: usize = 0;
        proof {
            assert(candidates@.take(0) =~= Seq::<Candidate>::empty());
            assert(texts(found@) =~= Seq::<Seq<char>>::empty());
        }
        while i < candidates.len()
            invariant
                i <= candidates.len(),
                large_files(candidates@.take(i as int), min_size) == Ok::<
                    Seq<Seq<char>>,
                    MercurialFailure,
                >(texts(found@)),
            decreases candidates.len() - i,
        {
            proof {
                assert(candidates@.take(i + 1).drop_last() == candidates@.take(i as int));
                assert(candidates@.take(i + 1).last() == candidates@[i as int]);
            }
            let ghost before = texts(found@);
            match &candidates[i].size {
                Err(message) => {
                    proof {
                        lemma_large_files_fail(candidates@, min_size, i + 1);
                    }
                    return Err(MercurialError::read_metadata_error(message.as_str()));
                },
                Ok(size) => {
                    if *size >= min_size {
                        found.push(copy_of(candidates[i].path.as_str()));
                        proof {
                            assert(texts(found@) =~= before.push(candidates@[i as int].path@));
                        }
                    }
                },
            }
            i += 1;
        }
        proof {
            assert(candidates@.take(candidates.len() as int) == candidates@);
        }
        Ok(found)
    }

    /// The run that lists the files that differ from the last commit.
    pub fn status_command(&self) -> (run: Invocation)
        ensures
            run@ == status_request(self@),
    {
        let mut run = self.run();
        run.arg("status");
        run.arg("--no-status");
        run.read_output();
        assert(run@.arguments =~= status_request(self@).arguments);
        run
    }

    /// The files that a listing names.
    pub fn status(&self, execution: &Execution) -> (result: MercurialResult<Vec<String>>)
        ensures
            match status_result(*execution) {
                Ok(paths) => result matches Ok(found) && texts(found@) == paths,
                Err(failure) => result matches Err(error) && error@ == failure,
            },
    {
        match check_ending(execution) {
            Err(error) => Err(error),
            Ok(_) => {
                let found = split_lines(&crate::text::chars_of(output_of(execution)));
                let mut paths: Vec<String> = Vec::new();
                let mut i: usize = 0;
                proof {
                    assert(texts(paths@) =~= rows(found@).take(0));
                }
                while i < found.len()
                    invariant
                        i <= found.len(),
                        texts(paths@) == rows(found@).take(i as int),
                    decreases found.len() - i,
                {
                    let ghost before = texts(paths@);
                    paths.push(string_of(&found[i]));
                    proof {
                        assert(texts(paths@) =~= before.push(found@[i as int]@));
                        assert(rows(found@).take(i + 1) =~= before.push(found@[i as int]@));
                    }
                    i += 1;
                }
                proof {
                    assert(rows(found@).take(found.len() as int) == rows(found@));
                }
                Ok(paths)
            },
        }
    }

    /// The run that commits what is staged at the date that was written as `written`, or the
    /// error that the date was written to.
    pub fn commit_command_at(
        &self,
        message: &str,
        written: Result<String, time::ParseError>,
        user: &str,
    ) -> (result: MercurialResult<Invocation>)
        ensures
            match written {
                Ok(text) => result matches Ok(run) && run@ == commit_request(
                    self@,
                    message@,
                    text@,
                    user@,
                ),
                Err(_) => result matches Err(error) && error@ is DateFormatError,
            },
    {
        match written {
            Err(error) => Err(MercurialError::date_format_error(error)),
            Ok(text) => {
                let mut run = self.run();
                run.arg("commit");
                run.arg("--message");
                run.arg(message);
                run.arg("--date");
                run.arg(text.as_str());
                run.arg("--user");
                run.arg(user);
                assert(run@.arguments =~= commit_request(
                    self@,
                    message@,
                    text@,
                    user@,
                ).arguments);
                Ok(run)
            },
        }
    }

    /// The run that commits what is staged, or the error of a date that cannot be written.
    pub fn commit_command(&self, message: &str, date: &DateTime, user: &str) -> (result:
        MercurialResult<Invocation>)
        ensures
            match date_written(*date) {
                Some(text) => result matches Ok(run) && run@ == commit_request(
                    self@,
                    message@,
                    text,
                    user@,
                ),
                None => result matches Err(error) && error@ is DateFormatError,
            },
    {
        if date.year > LAST_YEAR {
            return Err(MercurialError::DateFormatError { message: copy_of("Invalid year.") });
        }
        proof {
            reveal_strlit("%Y-%m-%d %H:%M:%S");
        }
        let written = strftime("%Y-%m-%d %H:%M:%S", date);
        self.commit_command_at(message, written, user)
    }

    /// How the commit went.
    pub fn commit(&self, execution: &Execution) -> (result: MercurialResult<()>)
        ensures
            match ending(*execution) {
                Ok(_) => result is Ok,
                Err(failure) => result matches Err(error) && error@ == failure,
            },
    {
        check_ending(execution)
    }

    /// The run that publishes the commits.
    pub fn push_command(&self) -> (run: Invocation)
        ensures
            run@ == push_request(self@),
    {
        let mut run = self.run();
        run.arg("push");
        assert(run@.arguments =~= push_request(self@).arguments);
        run
    }

    /// How the publishing went.
    pub fn push(&self, execution: &Execution) -> (result: MercurialResult<()>)
        ensures
            match ending(*execution) {
                Ok(_) => result is Ok,
                Err(failure) => result matches Err(error) && error@ == failure,
            },
    {
        check_ending(execution)
    }
}

} // verus!
