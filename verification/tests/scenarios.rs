//! Whole conversations with processes, against a system that is played by hand.

use process_anywhere::block::{BlockBytes, BlockLine};
use process_anywhere::call::{Call, Part, Reply, Step, Stream};
use process_anywhere::computer::{Address, Computer};
use process_anywhere::error::{Error, ErrorKind, IoError};
use process_anywhere::forwarder::{ForwardCall, ForwardReply, Forwarder, Source};
use process_anywhere::launch::LaunchCall;
use process_anywhere::pipe::BUFFER_SIZE;
use process_anywhere::process::Process;
use process_anywhere::receive::{Fill, RecvBytes};
use process_anywhere::session::{set_session_blocking, set_session_nonblocking};
use std::collections::VecDeque;
use std::sync::Arc;

/// A pipe or channel as a program on the other end drives it.
#[derive(Default)]
struct Pipe {
    data: VecDeque<u8>,
    closed: bool,
    nonblocking: bool,
}

impl Pipe {
    fn read(&mut self, room: usize) -> Reply {
        if self.data.is_empty() && !self.closed {
            assert!(self.nonblocking, "this read would never return");
            return Reply::Failed(failure(ErrorKind::WouldBlock));
        }
        let len = room.min(self.data.len());
        Reply::Data(self.data.drain(..len).collect())
    }
}

/// A process, and the system around it.
struct World {
    remote: bool,
    /// The process writes back what it is sent.
    echo: bool,
    stdout: Pipe,
    stderr: Pipe,
    /// What the process will write to its output, each time somebody blocks for it.
    later: VecDeque<Vec<u8>>,
    /// What the process will write to its standard error before it exits.
    last_words: &'static str,
    status: Option<i32>,
    /// The exit status it will end with when its input is closed or it is waited for.
    ending: i32,
    count: u8,
    locked: bool,
    flushed: bool,
    /// The most bytes that its input takes at a time.
    takes: usize,
    /// A non-blocking input takes something, which it does every other time.
    ready: bool,
    /// What it has received on its input.
    received: Vec<u8>,
}

fn failure(kind: ErrorKind) -> IoError {
    IoError { kind, report: Some(7) }
}

impl World {
    fn new(remote: bool, ending: i32) -> World {
        World {
            remote,
            echo: false,
            stdout: Pipe::default(),
            stderr: Pipe { nonblocking: !remote, ..Pipe::default() },
            later: VecDeque::new(),
            last_words: "",
            status: None,
            ending,
            count: 0,
            locked: false,
            flushed: true,
            takes: usize::MAX,
            ready: false,
            received: vec![],
        }
    }

    fn print(&mut self, text: &str) {
        self.stdout.data.extend(text.as_bytes());
    }

    fn print_error(&mut self, text: &str) {
        self.stderr.data.extend(text.as_bytes());
    }

    fn exit(&mut self) {
        let last_words = std::mem::take(&mut self.last_words);
        self.print_error(last_words);
        self.status = Some(self.ending);
        self.stdout.closed = true;
        self.stderr.closed = true;
    }

    fn pipe(&mut self, stream: Stream) -> &mut Pipe {
        match stream {
            Stream::Stdout => &mut self.stdout,
            Stream::Stderr => &mut self.stderr,
        }
    }

    fn more(&mut self) {
        if let Some(next) = self.later.pop_front() {
            self.stdout.data.extend(next);
        }
    }

    fn perform(&mut self, call: Call, written: &[u8]) -> Reply {
        let reply = match call {
            Call::Descriptor { stream, blocking } => {
                assert!(!self.remote);
                self.pipe(stream).nonblocking = !blocking;
                Reply::Done
            }
            Call::Session { blocking } => {
                assert!(self.remote && !self.locked);
                let switch = if blocking {
                    set_session_blocking(&mut self.count)
                } else {
                    set_session_nonblocking(&mut self.count)
                };
                if let Some(blocking) = switch {
                    self.stdout.nonblocking = !blocking;
                    self.stderr.nonblocking = !blocking;
                }
                Reply::Done
            }
            Call::Read { stream, room } => {
                if stream == Stream::Stdout && !self.stdout.nonblocking && self.stdout.data.is_empty() {
                    self.more();
                }
                self.pipe(stream).read(room)
            }
            Call::ReadToEnd { stream } => {
                let pipe = self.pipe(stream);
                assert!(pipe.closed && !pipe.nonblocking);
                Reply::Data(pipe.data.drain(..).collect())
            }
            Call::Write { left, .. } => {
                assert_eq!(written.len(), left);
                self.flushed = false;
                if self.remote && self.stdout.nonblocking && !self.ready {
                    self.ready = true;
                    return Reply::Failed(failure(ErrorKind::WouldBlock));
                }
                self.ready = false;
                let count = left.min(self.takes);
                self.received.extend(&written[..count]);
                if self.echo {
                    self.stdout.data.extend(&written[..count]);
                }
                Reply::Written(count)
            }
            Call::Flush => {
                self.flushed = true;
                Reply::Done
            }
            Call::Yield => {
                // Meanwhile the process goes on
                self.more();
                Reply::Done
            }
            Call::TryWait => Reply::Exited(self.status.map(|status| status == 0)),
            Call::Wait => {
                self.exit();
                Reply::Exited(Some(self.ending == 0))
            }
            Call::DropPipes => Reply::Done,
            Call::LockSession => {
                assert!(!self.locked);
                self.locked = true;
                Reply::Count(self.count)
            }
            Call::UnlockSession => {
                assert!(self.locked);
                self.locked = false;
                Reply::Done
            }
            Call::SendEof => {
                assert!(self.locked);
                if self.echo {
                    self.exit();
                }
                Reply::Done
            }
            Call::WaitEof => {
                self.exit();
                Reply::Done
            }
            Call::CloseChannel | Call::WaitClose => Reply::Done,
            Call::ExitSignal => Reply::Flag(false),
            Call::ExitStatus => Reply::Status(self.ending),
            Call::ChannelEof => Reply::Flag(self.stdout.closed && self.stdout.data.is_empty() && self.stderr.data.is_empty()),
        };
        assert!(call.accepts(&reply));
        reply
    }
}

/// A process together with the system that runs it.
struct Session {
    process: Box<Process>,
    world: World,
}

impl Session {
    fn exec(computer: &Arc<Computer>, command: &[&str], world: World) -> Session {
        let command: Vec<String> = command.iter().map(|word| word.to_string()).collect();
        let mut step = computer.exec(&command);
        loop {
            step = match step {
                Step::Return(process) => {
                    return Session { process: process.unwrap(), world };
                }
                Step::Call(call, launch) => {
                    match &call {
                        LaunchCall::Spawn { program, args } => {
                            assert!(!world.remote);
                            assert_eq!(*program, &command[0]);
                            assert_eq!(*args, &command[1..]);
                        }
                        LaunchCall::Exec(line) => {
                            assert!(world.remote);
                            assert!(line.starts_with(command[0].as_str()));
                        }
                        _ => {}
                    }
                    Process::resume_new(launch, Reply::Done)
                }
            };
        }
    }

    fn recv_line(&mut self) -> Result<Option<String>, Error> {
        let mut step: Step<Call, Fill, _> = self.process.recv_line();
        loop {
            step = match step {
                Step::Return(outcome) => return outcome,
                Step::Call(call, fill) => {
                    let reply = self.world.perform(call, &[]);
                    self.process.resume_recv_line(fill, reply)
                }
            };
        }
    }

    fn recv_bytes(&mut self, bytes: usize) -> Result<Option<Vec<u8>>, Error> {
        let mut step: Step<Call, RecvBytes, _> = self.process.recv_bytes(bytes);
        loop {
            step = match step {
                Step::Return(outcome) => return outcome,
                Step::Call(call, state) => {
                    let reply = self.world.perform(call, &[]);
                    self.process.resume_recv_bytes(state, reply)
                }
            };
        }
    }

    fn block_line(&mut self) -> Result<String, Error> {
        let mut step: Step<Call, BlockLine, _> = self.process.block_line();
        loop {
            step = match step {
                Step::Return(outcome) => return outcome,
                Step::Call(call, state) => {
                    let reply = self.world.perform(call, &[]);
                    self.process.resume_block_line(state, reply)
                }
            };
        }
    }

    fn block_bytes(&mut self, bytes: usize) -> Result<Vec<u8>, Error> {
        let mut step: Step<Call, BlockBytes, _> = self.process.block_bytes(bytes);
        loop {
            step = match step {
                Step::Return(outcome) => return outcome,
                Step::Call(call, state) => {
                    let reply = self.world.perform(call, &[]);
                    self.process.resume_block_bytes(state, reply)
                }
            };
        }
    }

    fn error_line(&mut self) -> Result<Option<String>, Error> {
        let mut step: Step<Call, Fill, _> = self.process.error_line();
        loop {
            step = match step {
                Step::Return(outcome) => return outcome,
                Step::Call(call, fill) => {
                    let reply = self.world.perform(call, &[]);
                    self.process.resume_error_line(fill, reply)
                }
            };
        }
    }

    fn error_bytes(&mut self) -> Result<Vec<u8>, Error> {
        let mut step: Step<Call, Fill, _> = self.process.error_bytes();
        loop {
            step = match step {
                Step::Return(outcome) => return outcome,
                Step::Call(call, fill) => {
                    let reply = self.world.perform(call, &[]);
                    self.process.resume_error_bytes(fill, reply)
                }
            };
        }
    }

    fn send_line(&mut self, message: &str) -> Result<(), Error> {
        let mut step = self.process.send_line(message);
        loop {
            step = match step {
                Step::Return(outcome) => {
                    assert!(self.world.flushed);
                    return outcome;
                }
                Step::Call(call, state) => {
                    let written = match call {
                        Call::Write { .. } => state.rest(),
                        _ => &[],
                    };
                    let reply = self.world.perform(call, written);
                    self.process.resume_send(state, reply)
                }
            };
        }
    }

    fn is_alive(&mut self) -> Result<bool, Error> {
        let mut step = self.process.is_alive();
        loop {
            step = match step {
                Step::Return(outcome) => return outcome,
                Step::Call(call, state) => {
                    let reply = self.world.perform(call, &[]);
                    self.process.resume_is_alive(state, reply)
                }
            };
        }
    }

    fn wait(&mut self) -> Result<bool, Error> {
        let mut step = self.process.wait();
        loop {
            step = match step {
                Step::Return(outcome) => {
                    assert!(!self.world.locked);
                    return outcome;
                }
                Step::Call(call, state) => {
                    let reply = self.world.perform(call, &[]);
                    self.process.resume_wait(state, reply)
                }
            };
        }
    }

    fn close_stdio(&mut self) -> Result<(), Error> {
        let mut step = self.process.close_stdio();
        loop {
            step = match step {
                Step::Return(outcome) => {
                    assert!(!self.world.locked);
                    return outcome;
                }
                Step::Call(call, state) => {
                    let reply = self.world.perform(call, &[]);
                    self.process.resume_close_stdio(state, reply)
                }
            };
        }
    }
}

fn remote_computer() -> Arc<Computer> {
    Arc::new(Computer::Remote {
        host: String::new(),
        addr: Address { ip: "127.0.0.1".to_string(), text: "127.0.0.1:1234".to_string() },
        user: "dm".to_string(),
        auth: String::new(),
        key: "/tmp/client_key".to_string(),
    })
}

/// Every test is evaluated on every computer
fn computer_test_assets() -> Vec<(bool, Arc<Computer>)> {
    vec![(false, Computer::new_local()), (true, remote_computer())]
}

#[test]
fn echo_server() {
    for (remote, comp) in computer_test_assets() {
        let mut world = World::new(remote, 0);
        world.echo = true;
        let mut proc = Session::exec(&comp, &["cat", "-"], world);
        assert!(proc.is_alive().unwrap());

        // No data yet, should instantly yield (non-blocking).
        assert!(matches!(proc.recv_line(), Ok(None)));

        // Send a message. Process should echo it back to stdout.
        proc.send_line("Hello World!").unwrap();
        assert_eq!(proc.recv_line().unwrap().unwrap(), "Hello World!");

        // Message consumed, no further messages.
        assert!(matches!(proc.recv_line(), Ok(None)));

        // Test newline handling
        proc.send_line("Hello\n\n \nlocalhost\n").unwrap();
        assert_eq!(proc.recv_line().unwrap().unwrap(), "Hello");
        assert_eq!(proc.recv_line().unwrap().unwrap(), "");
        assert_eq!(proc.recv_line().unwrap().unwrap(), " ");
        assert_eq!(proc.recv_line().unwrap().unwrap(), "localhost");
        assert!(matches!(proc.recv_line(), Ok(None)));

        // Test shutdown procedure
        assert!(proc.error_bytes().unwrap().is_empty());
        assert!(proc.is_alive().unwrap());
        assert!(proc.wait().unwrap());
        assert!(!proc.is_alive().unwrap());
        assert_eq!(proc.world.count, 0);
        assert!(Arc::ptr_eq(proc.process.computer(), &comp));
    }
}

#[test]
fn error_line() {
    for (remote, comp) in computer_test_assets() {
        const PROGRAM: &str = "import sys
print('test error_line', file=sys.stderr)
# sys.stdin.close()
# sys.stdout.close()
exit(1)";
        let mut proc = Session::exec(&comp, &["python3", "-c", PROGRAM], World::new(remote, 1));
        proc.world.print_error("test error_line\n");
        proc.world.exit();
        // Check process is kept "alive" by buffered & uncollected data
        assert!(proc.is_alive().unwrap());
        assert!(proc.recv_line().is_err());
        assert!(proc.recv_bytes(1).is_err());
        assert!(proc.block_line().is_err());
        assert!(proc.block_bytes(1).is_err());
        let line = proc.error_line().unwrap().unwrap();
        assert_eq!(line, "test error_line");
        assert!(proc.error_line().is_err());
        assert!(proc.error_bytes().is_err());
        for _ in 0..3 {
            assert!(!proc.is_alive().unwrap());
            assert!(!proc.wait().unwrap());
        }
    }
}

/// Check it can get the last line before an EOF
#[test]
fn eof_line() {
    for (remote, comp) in computer_test_assets() {
        let mut proc =
            Session::exec(&comp, &["echo", "-e", "one\ntwo \nthree"], World::new(remote, 0));
        proc.world.print("one\ntwo \nthree");
        proc.world.exit();
        assert_eq!(proc.recv_line().unwrap().unwrap(), "one");
        assert_eq!(proc.recv_line().unwrap().unwrap(), "two ");
        assert!(proc.is_alive().unwrap());
        assert_eq!(proc.recv_line().unwrap().unwrap(), "three");
        assert!(proc.recv_line().is_err());
        assert!(!proc.is_alive().unwrap());
        assert!(proc.wait().unwrap());
    }
}

/// A forwarder, and what it has written.
struct Forwarding {
    forwarder: Forwarder,
    log: Vec<u8>,
    sources: Vec<u64>,
}

impl Forwarding {
    fn new() -> Forwarding {
        let forwarder = Forwarder::new();
        assert!(matches!(forwarder.main(), Some(ForwardCall::Receive)));
        Forwarding { forwarder, log: vec![], sources: vec![] }
    }

    /// Forward the standard error of the session at a place.
    fn forward_stderr(&mut self, sessions: &mut [Session], place: usize) {
        let session = &mut sessions[place];
        let source = Forwarder::forward_stderr(&mut session.process, place as u64);
        assert_eq!(source, Source { id: place as u64, remote: session.world.remote });
        self.sources.push(source.id);
        assert!(self.round(ForwardReply::Message(source), sessions));
    }

    /// Answer everything that the forwarder asks until it looks for a new source again. Returns
    /// whether it still does.
    fn round(&mut self, first: ForwardReply, sessions: &mut [Session]) -> bool {
        let mut reply = first;
        loop {
            assert!(self.forwarder.accepts(&reply));
            reply = match self.forwarder.resume_main(reply) {
                None => return false,
                Some(ForwardCall::Receive) => return true,
                Some(ForwardCall::Yield) => ForwardReply::Done,
                Some(ForwardCall::Session { id, blocking }) => {
                    sessions[id as usize].world.perform(Call::Session { blocking }, &[]);
                    ForwardReply::Done
                }
                Some(ForwardCall::Read(id)) => {
                    match sessions[id as usize].world.stderr.read(BUFFER_SIZE) {
                        Reply::Data(data) => ForwardReply::Data(data),
                        Reply::Failed(error) => ForwardReply::Failed(error),
                        _ => unreachable!(),
                    }
                }
                Some(ForwardCall::Write(data)) => {
                    self.log.extend(data);
                    ForwardReply::Done
                }
                Some(ForwardCall::Drop(id)) => {
                    let place = self.sources.iter().position(|source| *source == id);
                    self.sources.remove(place.unwrap());
                    ForwardReply::Done
                }
            };
        }
    }

    /// A while in which no new source comes.
    fn run(&mut self, sessions: &mut [Session]) {
        for _ in 0..3 {
            assert!(self.round(ForwardReply::Empty, sessions));
        }
    }
}

#[test]
fn is_alive() {
    for (remote, comp) in computer_test_assets() {
        let mut procs = vec![Session::exec(&comp, &["sleep", ".5"], World::new(remote, 0))];
        // Check that stderr forwarding does not interfere with blocking/non-blocking
        let mut fwd = Forwarding::new();
        fwd.forward_stderr(&mut procs, 0);
        fwd.run(&mut procs);
        // Poll the sleeping process's status
        for _ in 0..100 {
            assert!(procs[0].is_alive().unwrap());
        }
        // Close stdio, should not affect process
        procs[0].close_stdio().unwrap();
        fwd.run(&mut procs);
        for _ in 0..100 {
            assert!(procs[0].is_alive().unwrap());
        }
        // Check repeated calls to wait() & is_alive() yield consistent results after death
        for _ in 0..10 {
            assert!(procs[0].wait().unwrap());
            assert!(!procs[0].is_alive().unwrap());
        }
        assert!(!procs[0].is_alive().unwrap());
    }
}

// Test forwarding stderr, from programs that write to it at once and from programs that do so in
// the end.
#[test]
fn forwarder() {
    let mut fwd = Forwarding::new();
    const EPRINT: &str = "import sys; print('TEST', file=sys.stderr, flush=True);";
    const SLEEP: &str = "import time; time.sleep(1);";
    let prog1 = format!("{EPRINT}{SLEEP}");
    let prog2 = format!("{SLEEP}{EPRINT}");
    let mut procs: Vec<Session> = vec![];
    // Run prog1 on all computers
    let mut proc1 = vec![];
    for (remote, comp) in computer_test_assets() {
        let mut proc = Session::exec(&comp, &["python3", "-c", &prog1], World::new(remote, 0));
        proc.world.print_error("TEST\n");
        proc1.push(procs.len());
        procs.push(proc);
        fwd.forward_stderr(&mut procs, proc1[proc1.len() - 1]);
    }
    fwd.run(&mut procs);
    // Check that processes can be added to the forwarder at any time
    let mut proc2 = vec![];
    for (remote, comp) in computer_test_assets() {
        let mut proc = Session::exec(&comp, &["python3", "-c", &prog2], World::new(remote, 0));
        proc.world.last_words = "TEST\n";
        proc2.push(procs.len());
        procs.push(proc);
        fwd.forward_stderr(&mut procs, proc2[proc2.len() - 1]);
    }
    let mut proc3 = vec![];
    for (remote, comp) in computer_test_assets() {
        let mut proc = Session::exec(&comp, &["python3", "-c", &prog2], World::new(remote, 0));
        proc.world.last_words = "TEST\n";
        proc.close_stdio().unwrap(); // test forward stderr w/ closed stdin & stdout
        proc3.push(procs.len());
        procs.push(proc);
        fwd.forward_stderr(&mut procs, proc3[proc3.len() - 1]);
    }
    // Check forwarder remains active for proc2 and proc3 after proc1 terminates
    for place in &proc1 {
        assert!(procs[*place].wait().unwrap());
        assert!(!procs[*place].is_alive().unwrap());
    }
    fwd.run(&mut procs);
    assert_eq!(fwd.sources.len(), proc2.len() + proc3.len());
    for place in &proc2 {
        assert!(procs[*place].is_alive().unwrap());
    }
    for place in &proc3 {
        assert!(procs[*place].is_alive().unwrap());
    }
    // Wait for all processes to exit
    for place in &proc2 {
        assert!(procs[*place].wait().unwrap());
    }
    for place in &proc3 {
        assert!(procs[*place].wait().unwrap());
    }
    // Wait and check that forwarder collected remaining data
    fwd.run(&mut procs);
    for place in &proc2 {
        assert!(!procs[*place].is_alive().unwrap());
    }
    for place in &proc3 {
        assert!(!procs[*place].is_alive().unwrap());
    }
    // The thread ends once no new source can come
    assert!(fwd.sources.is_empty());
    assert!(!fwd.round(ForwardReply::Disconnected, &mut procs));
    // Check the stderr log
    let stderr_log = String::from_utf8(fwd.log).unwrap();
    let lines: Vec<&str> = stderr_log.lines().collect();
    assert!(lines.len() == 3 * proc1.len());
    assert!(lines.iter().all(|x| *x == "TEST"));
}

// Check all blocking calls, and check that forwarder does not interfere
#[test]
fn blocking() {
    const PROGRAM: &str = "import sys; import time;
time.sleep(1)
print('hello', flush=True)
sys.stdout.buffer.write(b'world!')
sys.stdout.flush()
exit(0)";
    let mut processes: Vec<Session> = computer_test_assets()
        .iter()
        .map(|(remote, comp)| {
            let mut world = World::new(*remote, 0);
            world.later = VecDeque::from(vec![b"hello\n".to_vec(), b"world!".to_vec()]);
            Session::exec(comp, &["python3", "-c", PROGRAM], world)
        })
        .collect();
    let mut fwd = Forwarding::new();
    for place in 0..processes.len() {
        fwd.forward_stderr(&mut processes, place);
    }
    // Check non-blocking before results are ready.
    for place in 0..processes.len() {
        for _ in 0..1000 {
            let proc = &mut processes[place];
            assert!(proc.recv_line().unwrap().is_none());
            assert!(proc.recv_bytes(1).unwrap().is_none());
            assert!(proc.recv_bytes(0).unwrap() == Some(vec![]));
            fwd.run(&mut processes);
        }
    }
    // Wait for results.
    for place in 0..processes.len() {
        let proc = &mut processes[place];
        assert_eq!(proc.block_line().unwrap(), "hello");
        assert_eq!(proc.block_bytes(6).unwrap(), b"world!".to_vec());
        assert!(proc.wait().unwrap());
        assert!(!proc.is_alive().unwrap());
        // Check all call now yield EOF
        assert!(proc.recv_line().unwrap_err().eof());
        assert!(proc.recv_bytes(1).unwrap_err().eof());
        assert!(proc.block_line().unwrap_err().eof());
        assert!(proc.block_bytes(1).unwrap_err().eof());
        fwd.run(&mut processes);
    }
    assert!(fwd.log.is_empty());
}

// Check that blocking calls get along with a session that somebody else needs non-blocking, and
// with data that comes and goes in pieces
#[test]
fn blocking_calls_meet_would_block() {
    for (remote, comp) in computer_test_assets() {
        let mut proc = Session::exec(&comp, &["python3", "-c", "program"], World::new(remote, 0));
        proc.world.later = [&b"he"[..], b"llo", b"\nwo", b"r", b"ld!more"]
            .iter()
            .map(|piece| piece.to_vec())
            .collect();
        proc.world.takes = 3;
        if remote {
            // The forwarder is in the middle of a visit all the time
            proc.world.perform(Call::Session { blocking: false }, &[]);
            assert!(proc.world.stdout.nonblocking);
        }
        assert_eq!(proc.block_line().unwrap(), "hello");
        proc.send_line("one two three").unwrap();
        assert_eq!(proc.world.received, b"one two three\n");
        assert_eq!(proc.block_bytes(6).unwrap(), b"world!");
        proc.send_line("\n").unwrap();
        proc.send_line("").unwrap();
        assert_eq!(proc.world.received, b"one two three\n\n\n");
        assert_eq!(proc.block_bytes(4).unwrap(), b"more");
        if remote {
            assert_eq!(proc.world.count, 1);
            proc.world.perform(Call::Session { blocking: true }, &[]);
            assert!(!proc.world.stdout.nonblocking);
        }
        assert!(proc.wait().unwrap());
        assert!(!proc.is_alive().unwrap());
        assert!(proc.block_line().unwrap_err().eof());
    }
}

#[test]
fn sent_parts_are_message_and_newline() {
    let proc = Session::exec(&Computer::new_local(), &["cat"], World::new(false, 0));
    let Step::Call(Call::Write { part: Part::Message, left: 4 }, state) =
        proc.process.send_line("text")
    else {
        panic!("a message is written first");
    };
    assert_eq!(state.rest(), b"text");
    let Step::Call(_, state) = proc.process.resume_send(state, Reply::Written(3)) else {
        panic!("one byte is left");
    };
    assert_eq!(state.rest(), b"t");
    let Step::Call(Call::Write { part: Part::Newline, left: 1 }, state) =
        proc.process.resume_send(state, Reply::Written(1))
    else {
        panic!("a newline is written behind it");
    };
    assert_eq!(state.rest(), b"\n");
}
