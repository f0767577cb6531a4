use super::change::change_numbers;
use super::change::change_of;
use super::change::lines_read;
use super::change::read_changes;
use super::change::read_lines;
use super::change::Change;
use super::change::ChangeRecord;
use super::PerforceError;
use super::PerforceFailure;
use crate::batch::ascending;
use crate::batch::ascending_of;
use crate::batch::is_ascending;
use crate::lines::lines;
use crate::lines::rest_of;
use crate::lines::starts_with;
use crate::lines::split_lines;
use crate::lines::trim;
use crate::lines::trimmed;
use crate::process::Execution;
use crate::process::Invocation;
use crate::process::Request;
use crate::text::chars_of;
use crate::text::copy_of;
use crate::text::decimal;
use crate::text::push_decimal;
use crate::text::string_of;
use vstd::prelude::*;

verus! {

pub type PerforceResult<T> = Result<T, PerforceError>;

/// The client of the depot: how the depot program is run, whom it is run for, and the ticket
/// of the session while there is one.
#[derive(Debug)]
pub struct PerforceClient {
    command: String,
    work_dir: String,
    client: String,
    port: String,
    user: String,
    password: String,
    ignore: String,
    token: Option<String>,
}

/// A `PerforceClient` with its texts as character sequences.
pub struct Depot {
    pub command: Seq<char>,
    pub work_dir: Seq<char>,
    pub client: Seq<char>,
    pub port: Seq<char>,
    pub user: Seq<char>,
    pub password: Seq<char>,
    pub ignore: Seq<char>,
    /// The ticket of the session, while the client is logged in.
    pub token: Option<Seq<char>>,
}

impl View for PerforceClient {
    type V = Depot;

    closed spec fn view(&self) -> Depot {
        Depot {
            command: self.command@,
            work_dir: self.work_dir@,
            client: self.client@,
            port: self.port@,
            user: self.user@,
            password: self.password@,
            ignore: self.ignore@,
            token: match self.token {
                Some(token) => Some(token@),
                None => None,
            },
        }
    }
}

/// What a run says by itself, whatever it wrote: the error of a run that did not start,
/// whose streams failed, whose end was not seen, or that did not end with exit code zero.
pub open spec fn ending(execution: Execution) -> Result<(), PerforceFailure> {
    match execution {
        Execution::NotStarted { message } => Err(
            PerforceFailure::ExecutionError { message: message@ },
        ),
        Execution::Interrupted { message, .. } => Err(
            PerforceFailure::CommunicationError { message: message@ },
        ),
        Execution::Unfinished { message, .. } => Err(PerforceFailure::IoError { message: message@ }),
        Execution::Exited { exit_code, .. } => if exit_code == Some(0i32) {
            Ok(())
        } else {
            Err(PerforceFailure::ExitError { exit_code })
        },
    }
}

/// The variables that every run on behalf of a session has: the workspace, the server, the
/// ticket in place of the password, and the user.
pub open spec fn session_environment(depot: Depot, token: Seq<char>) -> Seq<
    (Seq<char>, Seq<char>),
> {
    seq![
        ("P4CLIENT"@, depot.client),
        ("P4PORT"@, depot.port),
        ("P4PASSWD"@, token),
        ("P4USER"@, depot.user),
    ]
}

/// The run that logs in: it asks for the password and prints the ticket.
pub open spec fn login_request(depot: Depot) -> Request {
    Request {
        command: depot.command,
        work_dir: depot.work_dir,
        environment: seq![("P4PORT"@, depot.port), ("P4USER"@, depot.user)],
        arguments: seq!["login"@, "-p"@],
        prompt: Some((password_prompt(), depot.password.push('\n'))),
        capture: true,
        lenient: false,
    }
}

/// The run that ends the session of `token`.
pub open spec fn logout_request(depot: Depot, token: Seq<char>) -> Request {
    Request {
        command: depot.command,
        work_dir: depot.work_dir,
        environment: seq![("P4PORT"@, depot.port), ("P4PASSWD"@, token), ("P4USER"@, depot.user)],
        arguments: seq!["logout"@],
        prompt: None,
        capture: false,
        lenient: false,
    }
}

/// The run that brings the workspace under `directory` to the state of change `commit`.
pub open spec fn sync_request(
    depot: Depot,
    token: Seq<char>,
    directory: Seq<char>,
    commit: u32,
) -> Request {
    Request {
        command: depot.command,
        work_dir: depot.work_dir,
        environment: session_environment(depot, token),
        arguments: seq!["sync"@, "-q"@, directory + "...@"@ + decimal(commit as nat)],
        prompt: None,
        capture: false,
        lenient: false,
    }
}

/// The run that removes from the workspace under `directory` what the depot does not hold,
/// but for what the ignore file names.
pub open spec fn clean_request(depot: Depot, token: Seq<char>, directory: Seq<char>) -> Request {
    Request {
        command: depot.command,
        work_dir: depot.work_dir,
        environment: session_environment(depot, token).push(("P4IGNORE"@, depot.ignore)),
        arguments: seq!["clean"@, directory + "..."@],
        prompt: None,
        capture: false,
        lenient: false,
    }
}

/// The run that lists the changes under `directory` from change `since` on, one number to a
/// line.
pub open spec fn changes_request(
    depot: Depot,
    token: Seq<char>,
    directory: Seq<char>,
    since: u64,
) -> Request {
    Request {
        command: depot.command,
        work_dir: depot.work_dir,
        environment: session_environment(depot, token),
        arguments: seq![
            "-F"@,
            "%change%"@,
            "changes"@,
            "-e"@,
            decimal(since as nat),
            directory + "..."@,
        ],
        prompt: None,
        capture: true,
        lenient: false,
    }
}

/// The run that describes change `commit`.
pub open spec fn change_request(depot: Depot, token: Seq<char>, commit: u32) -> Request {
    Request {
        command: depot.command,
        work_dir: depot.work_dir,
        environment: session_environment(depot, token),
        arguments: seq!["change"@, "-o"@, decimal(commit as nat)],
        prompt: None,
        capture: true,
        lenient: true,
    }
}

/// What the depot program writes before it reads the password.
pub open spec fn password_prompt() -> Seq<char> {
    "Enter password: "@
}

/// The ticket that the output of a login holds: what stands behind the prompt, without the
/// white space around it, where the output begins with the prompt and the ticket is 32
/// characters long.
pub open spec fn ticket_of(output: Seq<char>) -> Option<Seq<char>> {
    if password_prompt().is_prefix_of(output) && trimmed(
        output.skip(password_prompt().len() as int),
    ).len() == 32 {
        Some(trimmed(output.skip(password_prompt().len() as int)))
    } else {
        None
    }
}

/// What a login gives: the ticket, where the output holds one and the run ended well.
/// Output without the prompt, or with a ticket of another length, is a failed login whatever
/// the exit code.
pub open spec fn login_result(execution: Execution) -> Result<Seq<char>, PerforceFailure> {
    match execution {
        Execution::NotStarted { .. } | Execution::Interrupted { .. } => Err(
            ending(execution)->Err_0,
        ),
        _ => match ticket_of(execution.output()) {
            None => Err(PerforceFailure::LoginFailed),
            Some(ticket) => match ending(execution) {
                Ok(_) => Ok(ticket),
                Err(failure) => Err(failure),
            },
        },
    }
}

/// What counts of the output of a listing: of a run whose streams failed only the lines that
/// arrived whole, and else all of it.
pub open spec fn listing_of(execution: Execution) -> Seq<char> {
    match execution {
        Execution::Interrupted { output, .. } => crate::lines::whole_lines_of(output@),
        _ => execution.output(),
    }
}

/// The changes that a listing reports, in the order of its lines. A line that cannot be read
/// counts before the way the run ended.
pub open spec fn changes_result(execution: Execution) -> Result<Seq<u32>, PerforceFailure> {
    match execution {
        Execution::NotStarted { .. } => Err(ending(execution)->Err_0),
        _ => match change_numbers(lines(listing_of(execution))) {
            None => Err(PerforceFailure::ParsingChangeFailed),
            Some(numbers) => match ending(execution) {
                Ok(_) => Ok(numbers),
                Err(failure) => Err(failure),
            },
        },
    }
}

/// What the description of change `commit` gives. A line that cannot be read counts before
/// the way the run ended, and that before a missing field.
pub open spec fn change_result(execution: Execution, commit: u32) -> Result<
    ChangeRecord,
    PerforceFailure,
> {
    match execution {
        Execution::NotStarted { .. } | Execution::Interrupted { .. } => Err(
            ending(execution)->Err_0,
        ),
        _ => match lines_read(lines(execution.output())) {
            Err(failure) => Err(failure),
            Ok(draft) => match ending(execution) {
                Ok(_) => change_of(draft, commit),
                Err(failure) => Err(failure),
            },
        },
    }
}

/// The error that `execution` stands for by itself, if any.
pub fn check_ending(execution: &Execution) -> (result: PerforceResult<()>)
    ensures
        match result {
            Ok(_) => ending(*execution) is Ok,
            Err(error) => ending(*execution) == Err::<(), PerforceFailure>(error@),
        },
{
    match execution {
        Execution::NotStarted { message } => Err(PerforceError::execution_error(message.as_str())),
        Execution::Interrupted { message, .. } => Err(
            PerforceError::communication_error(message.as_str()),
        ),
        Execution::Unfinished { message, .. } => Err(PerforceError::io_error(message.as_str())),
        Execution::Exited { exit_code, .. } => {
            match exit_code {
                Some(0) => Ok(()),
                _ => Err(PerforceError::exit_error(*exit_code)),
            }
        },
    }
}

/// The output of a run that started.
fn output_of(execution: &Execution) -> (output: Vec<char>)
    ensures
        output@ == execution.output(),
{
    match execution {
        Execution::NotStarted { .. } => Vec::new(),
        Execution::Interrupted { output, .. } => chars_of(output.as_str()),
        Execution::Unfinished { output, .. } => chars_of(output.as_str()),
        Execution::Exited { output, .. } => chars_of(output.as_str()),
    }
}

/// What an operation that needs a session gives: `NotLoggedIn` without a session, whatever
/// the run was, and else what the run gives.
pub open spec fn guarded<T>(depot: Depot, given: Result<T, PerforceFailure>) -> Result<
    T,
    PerforceFailure,
> {
    if depot.token is None {
        Err(PerforceFailure::NotLoggedIn)
    } else {
        given
    }
}

impl PerforceClient {
    /// A client without a session.
    pub fn new(
        command: &str,
        work_dir: &str,
        client: &str,
        port: &str,
        user: &str,
        password: &str,
        ignore: &str,
    ) -> (made: PerforceClient)
        ensures
            made@ == (Depot {
                command: command@,
                work_dir: work_dir@,
                client: client@,
                port: port@,
                user: user@,
                password: password@,
                ignore: ignore@,
                token: None,
            }),
    {
        PerforceClient {
            command: copy_of(command),
            work_dir: copy_of(work_dir),
            client: copy_of(client),
            port: copy_of(port),
            user: copy_of(user),
            password: copy_of(password),
            ignore: copy_of(ignore),
            token: None,
        }
    }

    /// Whether the client has a session.
    pub fn is_logged_in(&self) -> (logged_in: bool)
        ensures
            logged_in == self@.token is Some,
    {
        self.token.is_some()
    }

    /// A run of the depot program on behalf of the session of `token`.
    fn session_run(&self, token: &str) -> (run: Invocation)
        ensures
            run@ == (Request {
                command: self@.command,
                work_dir: self@.work_dir,
                environment: session_environment(self@, token@),
                arguments: Seq::empty(),
                prompt: None,
                capture: false,
                lenient: false,
            }),
    {
        let mut run = Invocation::new(self.command.as_str(), self.work_dir.as_str());
        run.env("P4CLIENT", self.client.as_str());
        run.env("P4PORT", self.port.as_str());
        run.env("P4PASSWD", token);
        run.env("P4USER", self.user.as_str());
        assert(run@.environment =~= session_environment(self@, token@));
        run
    }

    /// The run that logs in.
    pub fn login_command(&self) -> (run: Invocation)
        ensures
            run@ == login_request(self@),
    {
        let mut run = Invocation::new(self.command.as_str(), self.work_dir.as_str());
        run.env("P4PORT", self.port.as_str());
        run.env("P4USER", self.user.as_str());
        run.arg("login");
        run.arg("-p");
        run.answer("Enter password: ", self.password.as_str());
        assert(run@.environment =~= login_request(self@).environment);
        assert(run@.arguments =~= login_request(self@).arguments);
        run
    }

    /// Takes the ticket that the login printed. The session begins only where the login
    /// succeeds; after a failure the client is as it was.
    pub fn login(&mut self, execution: &Execution) -> (result: PerforceResult<()>)
        ensures
            match login_result(*execution) {
                Ok(token) => result is Ok && final(self)@ == (Depot {
                    token: Some(token),
                    ..old(self)@
                }),
                Err(failure) => result matches Err(error) && error@ == failure && final(self)@
                    == old(self)@,
            },
    {
        match execution {
            Execution::NotStarted { .. } | Execution::Interrupted { .. } => check_ending(execution),
            _ => {
                let output = output_of(execution);
                if !starts_with(&output, "Enter password: ") {
                    return Err(PerforceError::LoginFailed);
                }
                proof {
                    reveal_strlit("Enter password: ");
                }
                let token = trim(&rest_of(&output, 16));
                if token.len() != 32 {
                    return Err(PerforceError::LoginFailed);
                }
                check_ending(execution)?;
                self.token = Some(string_of(&token));
                Ok(())
            },
        }
    }

    /// The run that ends the session, if there is one.
    pub fn logout_command(&self) -> (run: Option<Invocation>)
        ensures
            match self@.token {
                Some(token) => run matches Some(run) && run@ == logout_request(self@, token),
                None => run is None,
            },
    {
        match &self.token {
            None => None,
            Some(token) => {
                let mut run = Invocation::new(self.command.as_str(), self.work_dir.as_str());
                run.env("P4PORT", self.port.as_str());
                run.env("P4PASSWD", token.as_str());
                run.env("P4USER", self.user.as_str());
                run.arg("logout");
                assert(run@.environment =~= logout_request(self@, token@).environment);
                assert(run@.arguments =~= logout_request(self@, token@).arguments);
                Some(run)
            },
        }
    }

    /// Ends the session, however the logout went. Without a session nothing is done, and that
    /// is a success.
    pub fn logout(&mut self, execution: &Execution) -> (result: PerforceResult<()>)
        ensures
            final(self)@ == (Depot { token: None, ..old(self)@ }),
            match result {
                Ok(_) => old(self)@.token is None || ending(*execution) is Ok,
                Err(error) => old(self)@.token is Some && ending(*execution) == Err::<
                    (),
                    PerforceFailure,
                >(error@),
            },
    {
        if self.token.is_none() {
            return Ok(());
        }
        self.token = None;
        check_ending(execution)
    }

    /// The run that brings the workspace under `directory` to the state of change `commit`.
    pub fn sync_command(&self, directory: &str, commit: u32) -> (result: PerforceResult<
        Invocation,
    >)
        ensures
            match self@.token {
                Some(token) => result matches Ok(run) && run@ == sync_request(
                    self@,
                    token,
                    directory@,
                    commit,
                ),
                None => result matches Err(error) && error@ == PerforceFailure::NotLoggedIn,
            },
    {
        match &self.token {
            None => Err(PerforceError::NotLoggedIn),
            Some(token) => {
                let mut run = self.session_run(token.as_str());
                let mut target = crate::text::join(directory, "...@");
                push_decimal(&mut target, commit as u64);
                run.arg("sync");
                run.arg("-q");
                run.arg(target.as_str());
                assert(run@.arguments =~= sync_request(
                    self@,
                    token@,
                    directory@,
                    commit,
                ).arguments);
                Ok(run)
            },
        }
    }

    /// How the update of the workspace went.
    pub fn sync(&self, execution: &Execution) -> (result: PerforceResult<()>)
        ensures
            match guarded(self@, ending(*execution)) {
                Ok(_) => result is Ok,
                Err(failure) => result matches Err(error) && error@ == failure,
            },
    {
        if self.token.is_none() {
            return Err(PerforceError::NotLoggedIn);
        }
        check_ending(execution)
    }

    /// The run that cleans the workspace under `directory`.
    pub fn clean_command(&self, directory: &str) -> (result: PerforceResult<Invocation>)
        ensures
            match self@.token {
                Some(token) => result matches Ok(run) && run@ == clean_request(
                    self@,
                    token,
                    directory@,
                ),
                None => result matches Err(error) && error@ == PerforceFailure::NotLoggedIn,
            },
    {
        match &self.token {
            None => Err(PerforceError::NotLoggedIn),
            Some(token) => {
                let mut run = self.session_run(token.as_str());
                run.env("P4IGNORE", self.ignore.as_str());
                let target = crate::text::join(directory, "...");
                run.arg("clean");
                run.arg(target.as_str());
                assert(run@.arguments =~= clean_request(self@, token@, directory@).arguments);
                Ok(run)
            },
        }
    }

    /// How the cleaning of the workspace went.
    pub fn clean(&self, execution: &Execution) -> (result: PerforceResult<()>)
        ensures
            match guarded(self@, ending(*execution)) {
                Ok(_) => result is Ok,
                Err(failure) => result matches Err(error) && error@ == failure,
            },
    {
        if self.token.is_none() {
            return Err(PerforceError::NotLoggedIn);
        }
        check_ending(execution)
    }

    /// The run that lists the changes under `directory` from change `since` on.
    pub fn changes_command(&self, directory: &str, since: u64) -> (result: PerforceResult<
        Invocation,
    >)
        ensures
            match self@.token {
                Some(token) => result matches Ok(run) && run@ == changes_request(
                    self@,
                    token,
                    directory@,
                    since,
                ),
                None => result matches Err(error) && error@ == PerforceFailure::NotLoggedIn,
            },
    {
        match &self.token {
            None => Err(PerforceError::NotLoggedIn),
            Some(token) => {
                let mut run = self.session_run(token.as_str());
                let from = crate::text::decimal_string(since);
                let target = crate::text::join(directory, "...");
                run.arg("-F");
                run.arg("%change%");
                run.arg("changes");
                run.arg("-e");
                run.arg(from.as_str());
                run.arg(target.as_str());
                run.read_output();
                assert(run@.arguments =~= changes_request(
                    self@,
                    token@,
                    directory@,
                    since,
                ).arguments);
                Ok(run)
            },
        }
    }

    /// The changes that the listing reports, in ascending order and each once, whatever the
    /// order in which it reports them.
    pub fn changes(&self, execution: &Execution) -> (result: PerforceResult<Vec<u32>>)
        ensures
            match guarded(self@, changes_result(*execution)) {
                Ok(numbers) => result matches Ok(ids) && ids@ == ascending_of(numbers)
                    && is_ascending(ids@) && forall|n: u32|
                    ids@.contains(n) <==> numbers.contains(n),
                Err(failure) => result matches Err(error) && error@ == failure,
            },
    {
        if self.token.is_none() {
            return Err(PerforceError::NotLoggedIn);
        }
        if let Execution::NotStarted { .. } = execution {
            check_ending(execution)?;
        }
        let listing = match execution {
            Execution::Interrupted { .. } => crate::lines::whole_lines(&output_of(execution)),
            _ => output_of(execution),
        };
        let found = split_lines(&listing);
        match read_changes(&found) {
            None => Err(PerforceError::ParsingChangeFailed),
            Some(numbers) => {
                check_ending(execution)?;
                Ok(ascending(&numbers))
            },
        }
    }

    /// The run that describes change `commit`.
    pub fn change_command(&self, commit: u32) -> (result: PerforceResult<Invocation>)
        ensures
            match self@.token {
                Some(token) => result matches Ok(run) && run@ == change_request(
                    self@,
                    token,
                    commit,
                ),
                None => result matches Err(error) && error@ == PerforceFailure::NotLoggedIn,
            },
    {
        match &self.token {
            None => Err(PerforceError::NotLoggedIn),
            Some(token) => {
                let mut run = self.session_run(token.as_str());
                let number = crate::text::decimal_string(commit as u64);
                run.arg("change");
                run.arg("-o");
                run.arg(number.as_str());
                run.read_any_output();
                assert(run@.arguments =~= change_request(self@, token@, commit).arguments);
                Ok(run)
            },
        }
    }

    /// Change `commit` as the depot describes it.
    pub fn change(&self, commit: u32, execution: &Execution) -> (result: PerforceResult<Change>)
        ensures
            match guarded(self@, change_result(*execution, commit)) {
                Ok(record) => result matches Ok(change) && change@ == record,
                Err(failure) => result matches Err(error) && error@ == failure,
            },
    {
        if self.token.is_none() {
            return Err(PerforceError::NotLoggedIn);
        }
        match execution {
            Execution::NotStarted { .. } | Execution::Interrupted { .. } => {
                check_ending(execution)?;
            },
            _ => {},
        }
        let found = split_lines(&output_of(execution));
        let draft = read_lines(&found)?;
        check_ending(execution)?;
        draft.finish(commit)
    }
}

} // verus!
