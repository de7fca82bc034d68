# process_anywhere

Running processes on the local computer or remotely via SSH, behind one API.

`src/` is the library: every decision that running a process takes, verified with Verus. It does no
input or output. An operation returns a `Step`: either its outcome, or a call to make and the state
in which to go on with the reply.

```text
let mut step = process.recv_line();
loop {
    step = match step {
        Step::Return(line) => break line,
        Step::Call(call, state) => process.resume_recv_line(state, make(call)),
    };
}
```

* `process`, `receive`, `block`, `send`, `life`: a process, its lines and bytes, and its end
* `computer`, `connection`, `launch`, `shell`, `transfer`: computers, commands and files
* `forwarder`: forwarding standard error streams
* `call`, `error`, `line`, `pipe`, `session`: what the operations are made of
* `laws`: what holds of all of them, proved

`app/` makes the calls: pipes, child processes, SSH sessions, files and threads. `tests/` plays the
system by hand.

Supported platforms: POSIX. Text is UTF-8.
