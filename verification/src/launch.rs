//! Spawning processes.

use crate::call::{Reply, Step};
use crate::computer::{Computer, ConnectCall, ConnectStep, Connecting};
use crate::error::{Error, ErrorView};
use crate::process::{Process, ProcessInner, ProcessView};
use crate::shell::{assemble, command_line, words_of};
use std::collections::VecDeque;
use std::sync::Arc;
use vstd::prelude::*;
use vstd::slice::slice_subrange;

verus! {

/// What spawning a process asks of the system.
pub enum LaunchCall<'a> {
    /// Run a program on this computer, with pipes for its input and its outputs.
    Spawn {
        /// The file-path of the program.
        program: &'a String,
        /// Its CLI arguments.
        args: &'a [String],
    },
    /// Make the pipe of the standard error output non-blocking.
    StderrNonblocking,
    /// Establish a new connection for the program.
    Connect(ConnectCall<'a>),
    /// Open a channel on the connection.
    Channel,
    /// Have the remote shell run this line on the channel.
    Exec(String),
}

/// The mathematical value of a [`LaunchCall`].
pub enum LaunchCallView<'a> {
    /// See [`LaunchCall::Spawn`].
    Spawn {
        /// The file-path of the program.
        program: Seq<char>,
        /// Its CLI arguments.
        args: Seq<Seq<char>>,
    },
    /// See [`LaunchCall::StderrNonblocking`].
    StderrNonblocking,
    /// See [`LaunchCall::Connect`].
    Connect(ConnectCall<'a>),
    /// See [`LaunchCall::Channel`].
    Channel,
    /// See [`LaunchCall::Exec`].
    Exec(Seq<char>),
}

impl<'a> View for LaunchCall<'a> {
    type V = LaunchCallView<'a>;

    open spec fn view(&self) -> LaunchCallView<'a> {
        match *self {
            LaunchCall::Spawn { program, args } => {
                LaunchCallView::Spawn { program: program@, args: words_of(args@) }
            },
            LaunchCall::StderrNonblocking => LaunchCallView::StderrNonblocking,
            LaunchCall::Connect(call) => LaunchCallView::Connect(call),
            LaunchCall::Channel => LaunchCallView::Channel,
            LaunchCall::Exec(line) => LaunchCallView::Exec(line@),
        }
    }
}

/// What spawning a process waits for.
#[derive(Clone, Copy, Debug, PartialEq, Eq, Structural)]
pub enum LaunchPhase {
    /// The local program is started.
    Spawn,
    /// Its standard error output is made non-blocking.
    Stderr,
    /// The connection to the remote computer is established.
    Connect(Connecting),
    /// The channel is opened.
    Channel,
    /// The remote program is started.
    Exec,
}

/// Spawning a process, waiting for a reply.
pub struct Launch<'a> {
    /// Where the process is to run.
    pub computer: &'a Arc<Computer>,
    /// The program file-path, followed by its CLI arguments.
    pub command: &'a [String],
    /// What is waited for.
    pub phase: LaunchPhase,
}

/// How far spawning a process has come.
pub type LaunchStep<'a> = Step<LaunchCallView<'a>, LaunchPhase, Result<ProcessView, ErrorView>>;

impl LaunchPhase {
    /// Whether `reply` can be the answer that is waited for.
    pub open spec fn accepted(self, reply: Reply) -> bool {
        match self {
            LaunchPhase::Spawn => reply is Done || reply is Failed,
            LaunchPhase::Stderr => reply is Done,
            LaunchPhase::Connect(state) => state.accepted(reply),
            LaunchPhase::Channel | LaunchPhase::Exec => reply is Done || reply is SshFailed,
        }
    }

    /// Whether `reply` can be the answer that is waited for.
    pub fn accepts(&self, reply: &Reply) -> (fits: bool)
        ensures
            fits == self.accepted(*reply),
    {
        match self {
            LaunchPhase::Spawn => matches!(reply, Reply::Done | Reply::Failed(_)),
            LaunchPhase::Stderr => matches!(reply, Reply::Done),
            LaunchPhase::Connect(state) => state.accepts(reply),
            LaunchPhase::Channel | LaunchPhase::Exec => {
                matches!(reply, Reply::Done | Reply::SshFailed(_))
            },
        }
    }
}

/// A process of which nothing has been read yet.
pub open spec fn fresh(computer: Computer, inner: ProcessInner) -> ProcessView {
    ProcessView { computer, stdout: Seq::empty(), stderr: Seq::empty(), inner }
}

/// A local process with all its pipes in hand.
pub open spec fn piped() -> ProcessInner {
    ProcessInner::Local { stdin: true, stdout: true, stderr: true }
}

/// How establishing the connection carries spawning on.
pub open spec fn launch_connect<'a>(step: ConnectStep<'a>) -> LaunchStep<'a> {
    match step {
        Step::Call(call, state) => Step::Call(
            LaunchCallView::Connect(call),
            LaunchPhase::Connect(state),
        ),
        Step::Return(Ok(())) => Step::Call(LaunchCallView::Channel, LaunchPhase::Channel),
        Step::Return(Err(error)) => Step::Return(Err(error)),
    }
}

/// The first step of spawning a process: run the program on this computer, or connect to the
/// remote one.
pub open spec fn launch_start<'a>(computer: &'a Computer, words: Seq<Seq<char>>) -> LaunchStep<
    'a,
> {
    match computer {
        Computer::Local => Step::Call(
            LaunchCallView::Spawn { program: words[0], args: words.skip(1) },
            LaunchPhase::Spawn,
        ),
        Computer::Remote { .. } => launch_connect(computer.connect_start()),
    }
}

/// The next step of spawning a process, after a reply.
pub open spec fn launch_next<'a>(
    computer: &'a Computer,
    words: Seq<Seq<char>>,
    phase: LaunchPhase,
    reply: Reply,
) -> LaunchStep<'a> {
    match (phase, reply) {
        (LaunchPhase::Connect(state), _) => launch_connect(computer.connect_next(state, reply)),
        (_, Reply::Failed(error)) => Step::Return(Err(ErrorView::Io(error))),
        (_, Reply::SshFailed(error)) => Step::Return(Err(ErrorView::Ssh(error))),
        (LaunchPhase::Spawn, _) => Step::Call(
            LaunchCallView::StderrNonblocking,
            LaunchPhase::Stderr,
        ),
        (LaunchPhase::Stderr, _) => Step::Return(Ok(fresh(*computer, piped()))),
        (LaunchPhase::Channel, _) => Step::Call(
            LaunchCallView::Exec(command_line(words)),
            LaunchPhase::Exec,
        ),
        (LaunchPhase::Exec, _) => Step::Return(Ok(fresh(*computer, ProcessInner::Remote))),
    }
}

/// The mathematical value of a step of spawning `command` on `computer`, whose states belong to
/// this very command and computer.
pub open spec fn launch_view<'a>(
    step: Step<LaunchCall<'a>, Launch<'a>, Result<Box<Process>, Error>>,
) -> LaunchStep<'a> {
    match step {
        Step::Call(call, launch) => Step::Call(call@, launch.phase),
        Step::Return(Ok(process)) => Step::Return(Ok(process@)),
        Step::Return(Err(error)) => Step::Return(Err(error@)),
    }
}

/// Whether a step that waits is about spawning `command` on `computer`.
pub open spec fn launch_about<'a>(
    step: Step<LaunchCall<'a>, Launch<'a>, Result<Box<Process>, Error>>,
    computer: &'a Arc<Computer>,
    command: &'a [String],
) -> bool {
    step matches Step::Call(_, launch) ==> launch.computer == computer && launch.command == command
}

impl Process {
    /// A process of which nothing has been read yet.
    fn fresh(computer: &Arc<Computer>, inner: ProcessInner) -> (process: Box<Process>)
        ensures
            process@ == fresh(**computer, inner),
    {
        let computer = Arc::clone(computer);
        Box::new(
            Process { computer, stdout_buffer: VecDeque::new(), stderr_buffer: VecDeque::new(), inner },
        )
    }

    /// Spawn a new process on the given computer.
    ///
    /// Argument command is the program file-path followed by its CLI arguments.
    pub fn new<'a>(computer: &'a Arc<Computer>, command: &'a [String]) -> (step: Step<
        LaunchCall<'a>,
        Launch<'a>,
        Result<Box<Process>, Error>,
    >)
        requires
            command@.len() > 0,
        ensures
            launch_view(step) == launch_start(&**computer, words_of(command@)),
            launch_about(step, computer, command),
    {
        match &**computer {
            Computer::Local => {
                // Setup the subprocess command.
                let program = &command[0];
                let args = slice_subrange(command, 1, command.len());
                assert(words_of(args@) =~= words_of(command@).skip(1));
                Step::Call(
                    LaunchCall::Spawn { program, args },
                    Launch { computer, command, phase: LaunchPhase::Spawn },
                )
            },
            Computer::Remote { .. } => {
                let step = computer.connect();
                Process::launch_connect(computer, command, step)
            },
        }
    }

    /// Carry spawning on after a step of establishing the connection.
    fn launch_connect<'a>(
        computer: &'a Arc<Computer>,
        command: &'a [String],
        step: Step<ConnectCall<'a>, Connecting, Result<(), Error>>,
    ) -> (next: Step<LaunchCall<'a>, Launch<'a>, Result<Box<Process>, Error>>)
        ensures
            launch_view(next) == launch_connect(crate::computer::connect_view(step)),
            launch_about(next, computer, command),
    {
        match step {
            Step::Call(call, state) => {
                Step::Call(
                    LaunchCall::Connect(call),
                    Launch { computer, command, phase: LaunchPhase::Connect(state) },
                )
            },
            Step::Return(Ok(())) => {
                Step::Call(
                    LaunchCall::Channel,
                    Launch { computer, command, phase: LaunchPhase::Channel },
                )
            },
            Step::Return(Err(error)) => Step::Return(Err(error)),
        }
    }

    /// Go on spawning a process.
    pub fn resume_new<'a>(launch: Launch<'a>, reply: Reply) -> (step: Step<
        LaunchCall<'a>,
        Launch<'a>,
        Result<Box<Process>, Error>,
    >)
        requires
            launch.command@.len() > 0,
            launch.phase is Connect ==> **launch.computer is Remote,
            launch.phase.accepted(reply),
        ensures
            launch_view(step) == launch_next(
                &**launch.computer,
                words_of(launch.command@),
                launch.phase,
                reply,
            ),
            launch_about(step, launch.computer, launch.command),
    {
        let Launch { computer, command, phase } = launch;
        match (phase, reply) {
            (LaunchPhase::Connect(state), reply) => {
                let step = computer.resume_connect(state, reply);
                Process::launch_connect(computer, command, step)
            },
            (_, Reply::Failed(error)) => Step::Return(Err(Error::Io(error))),
            (_, Reply::SshFailed(error)) => Step::Return(Err(Error::Ssh(error))),
            // Set stderr to non-blocking
            (LaunchPhase::Spawn, _) => {
                Step::Call(
                    LaunchCall::StderrNonblocking,
                    Launch { computer, command, phase: LaunchPhase::Stderr },
                )
            },
            (LaunchPhase::Stderr, _) => {
                Step::Return(
                    Ok(
                        Process::fresh(
                            computer,
                            ProcessInner::Local { stdin: true, stdout: true, stderr: true },
                        ),
                    ),
                )
            },
            // Run the program on the remote computer
            (LaunchPhase::Channel, _) => {
                Step::Call(
                    LaunchCall::Exec(assemble(command)),
                    Launch { computer, command, phase: LaunchPhase::Exec },
                )
            },
            (LaunchPhase::Exec, _) => Step::Return(Ok(Process::fresh(computer, ProcessInner::Remote))),
        }
    }
}

impl Computer {
    /// Spawn a new process on this computer.
    ///
    /// Argument command is the program file-path followed by its CLI arguments.
    pub fn exec<'a>(self: &'a Arc<Self>, command: &'a [String]) -> (step: Step<
        LaunchCall<'a>,
        Launch<'a>,
        Result<Box<Process>, Error>,
    >)
        requires
            command@.len() > 0,
        ensures
            launch_view(step) == launch_start(&**self, words_of(command@)),
            launch_about(step, self, command),
    {
        Process::new(self, command)
    }
}

} // verus!
