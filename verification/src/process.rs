//! What the library asks of a program on this machine and what it takes back. The library
//! starts no program itself: it says which one is to run and how, and reads what the run
//! gave.

use crate::text::copy_of;
use vstd::prelude::*;

verus! {

/// What the program is expected to write before it reads its input, and the text it is to
/// read then. The reply is sent only once the program has written exactly that; its output
/// is read from the start, with what it wrote first.
#[derive(Debug, PartialEq, Eq)]
pub struct Prompt {
    /// What the program writes first. The reply is sent once as many bytes have arrived.
    pub expect: String,
    /// What is written to the program's input.
    pub reply: String,
}

/// One run of a program: the program, the directory it runs in, its whole environment, its
/// arguments, and what is done with its input and output. Its error stream is dropped.
#[derive(Debug, PartialEq, Eq)]
pub struct Invocation {
    pub command: String,
    pub work_dir: String,
    /// The variables of the environment, which holds no others.
    pub environment: Vec<(String, String)>,
    pub arguments: Vec<String>,
    /// The exchange over input and output, for a program that asks before it answers.
    pub prompt: Option<Prompt>,
    /// Whether the output is read. It is dropped otherwise.
    pub capture: bool,
    /// Whether output that is no UTF-8 is read all the same, with the replacement character
    /// in place of what cannot be read. It fails the reading otherwise.
    pub lenient: bool,
}

/// An `Invocation` with its texts as character sequences.
pub struct Request {
    pub command: Seq<char>,
    pub work_dir: Seq<char>,
    pub environment: Seq<(Seq<char>, Seq<char>)>,
    pub arguments: Seq<Seq<char>>,
    pub prompt: Option<(Seq<char>, Seq<char>)>,
    pub capture: bool,
    pub lenient: bool,
}

/// The character sequences of a sequence of strings.
pub open spec fn texts(strings: Seq<String>) -> Seq<Seq<char>> {
    Seq::new(strings.len(), |i: int| strings[i]@)
}

/// The character sequences of a sequence of pairs of strings.
pub open spec fn pairs(strings: Seq<(String, String)>) -> Seq<(Seq<char>, Seq<char>)> {
    Seq::new(strings.len(), |i: int| (strings[i].0@, strings[i].1@))
}

impl View for Invocation {
    type V = Request;

    open spec fn view(&self) -> Request {
        Request {
            command: self.command@,
            work_dir: self.work_dir@,
            environment: pairs(self.environment@),
            arguments: texts(self.arguments@),
            prompt: match self.prompt {
                Some(prompt) => Some((prompt.expect@, prompt.reply@)),
                None => None,
            },
            capture: self.capture,
            lenient: self.lenient,
        }
    }
}

impl Prompt {
    /// Whether `received` is what the program was expected to write. The reply is sent only
    /// where it is.
    pub fn is_met(&self, received: &str) -> (met: bool)
        ensures
            met == (received@ == self.expect@),
    {
        let wanted = crate::text::chars_of(self.expect.as_str());
        let found = crate::text::chars_of(received);
        if wanted.len() != found.len() {
            return false;
        }
        let mut i: usize = 0;
        while i < wanted.len()
            invariant
                i <= wanted.len(),
                wanted.len() == found.len(),
                wanted@ == self.expect@,
                found@ == received@,
                forall|j: int| 0 <= j < i ==> wanted@[j] == found@[j],
            decreases wanted.len() - i,
        {
            if wanted[i] != found[i] {
                return false;
            }
            i += 1;
        }
        assert(wanted@ =~= found@);
        true
    }
}

impl Invocation {
    /// A run of `command` in `work_dir` with an empty environment, no arguments, no input,
    /// and its output dropped.
    pub fn new(command: &str, work_dir: &str) -> (run: Invocation)
        ensures
            run@ == (Request {
                command: command@,
                work_dir: work_dir@,
                environment: Seq::empty(),
                arguments: Seq::empty(),
                prompt: None,
                capture: false,
                lenient: false,
            }),
    {
        let run = Invocation {
            command: copy_of(command),
            work_dir: copy_of(work_dir),
            environment: Vec::new(),
            arguments: Vec::new(),
            prompt: None,
            capture: false,
            lenient: false,
        };
        assert(run@.environment =~= Seq::empty());
        assert(run@.arguments =~= Seq::empty());
        run
    }

    /// Adds the variable `name` with `value` to the environment.
    pub fn env(&mut self, name: &str, value: &str)
        ensures
            final(self)@ == (Request {
                environment: old(self)@.environment.push((name@, value@)),
                ..old(self)@
            }),
    {
        self.environment.push((copy_of(name), copy_of(value)));
        assert(self@.environment =~= old(self)@.environment.push((name@, value@)));
        assert(self@.arguments =~= old(self)@.arguments);
    }

    /// Adds `value` as the last argument.
    pub fn arg(&mut self, value: &str)
        ensures
            final(self)@ == (Request {
                arguments: old(self)@.arguments.push(value@),
                ..old(self)@
            }),
    {
        self.arguments.push(copy_of(value));
        assert(self@.arguments =~= old(self)@.arguments.push(value@));
        assert(self@.environment =~= old(self)@.environment);
    }

    /// Has the output read.
    pub fn read_output(&mut self)
        ensures
            final(self)@ == (Request { capture: true, ..old(self)@ }),
    {
        self.capture = true;
        assert(self@.arguments =~= old(self)@.arguments);
        assert(self@.environment =~= old(self)@.environment);
    }

    /// Has the output read, whatever bytes it holds.
    pub fn read_any_output(&mut self)
        ensures
            final(self)@ == (Request { capture: true, lenient: true, ..old(self)@ }),
    {
        self.capture = true;
        self.lenient = true;
        assert(self@.arguments =~= old(self)@.arguments);
        assert(self@.environment =~= old(self)@.environment);
    }

    /// Has `reply` and a line feed sent to the program once it has written `expect`, and the
    /// rest of its output read.
    pub fn answer(&mut self, expect: &str, reply: &str)
        ensures
            final(self)@ == (Request {
                prompt: Some((expect@, reply@.push('\n'))),
                capture: true,
                ..old(self)@
            }),
    {
        let mut line = copy_of(reply);
        line.push('\n');
        self.prompt = Some(Prompt { expect: copy_of(expect), reply: line });
        self.capture = true;
        assert(self@.arguments =~= old(self)@.arguments);
        assert(self@.environment =~= old(self)@.environment);
    }
}

/// How one run of a program went.
#[derive(Debug, PartialEq, Eq)]
pub enum Execution {
    /// The program could not be started.
    NotStarted { message: String },
    /// Reading its output or writing its input failed. `output` is what had been read.
    Interrupted { output: String, message: String },
    /// It ran, and waiting for its end failed.
    Unfinished { output: String, message: String },
    /// It ran to its end. `exit_code` is `None` where a signal ended it.
    Exited { output: String, exit_code: Option<i32> },
}

impl Execution {
    /// What was read of the output, which is nothing where the program did not start.
    pub open spec fn output(self) -> Seq<char> {
        match self {
            Execution::NotStarted { .. } => Seq::empty(),
            Execution::Interrupted { output, .. } => output@,
            Execution::Unfinished { output, .. } => output@,
            Execution::Exited { output, .. } => output@,
        }
    }

    /// Whether the program ran to its end and reported success: its exit code is zero.
    pub open spec fn succeeded(self) -> bool {
        self matches Execution::Exited { exit_code, .. } && exit_code == Some(0i32)
    }

    /// A run that ended with `exit_code` after it wrote `output`.
    pub fn exited(output: &str, exit_code: Option<i32>) -> (execution: Execution)
        ensures
            execution matches Execution::Exited { output: o, exit_code: c } && o@ == output@ && c
                == exit_code,
    {
        Execution::Exited { output: copy_of(output), exit_code }
    }

    /// A run that could not be started, for the reason `message`.
    pub fn not_started(message: &str) -> (execution: Execution)
        ensures
            execution matches Execution::NotStarted { message: m } && m@ == message@,
    {
        Execution::NotStarted { message: copy_of(message) }
    }

    /// A run whose streams failed, for the reason `message`, after `output` was read.
    pub fn interrupted(output: &str, message: &str) -> (execution: Execution)
        ensures
            execution matches Execution::Interrupted { output: o, message: m } && o@ == output@
                && m@ == message@,
    {
        Execution::Interrupted { output: copy_of(output), message: copy_of(message) }
    }

    /// A run whose end could not be waited for, for the reason `message`, after `output` was
    /// read.
    pub fn unfinished(output: &str, message: &str) -> (execution: Execution)
        ensures
            execution matches Execution::Unfinished { output: o, message: m } && o@ == output@
                && m@ == message@,
    {
        Execution::Unfinished { output: copy_of(output), message: copy_of(message) }
    }
}

} // verus!
