//! Computers, and how to access them.

use crate::call::{Reply, Step};
use crate::error::{Error, ErrorView, IoError};
use crate::process::channel_view;
use std::sync::Arc;
use vstd::prelude::*;
use vstd::string::*;
use vstd::utf8::encode_utf8;

verus! {

/// The network address of a computer, as text.
#[derive(Debug)]
pub struct Address {
    /// The IP address alone.
    pub ip: String,
    /// The whole socket address, with its port.
    pub text: String,
}

impl Clone for Address {
    fn clone(&self) -> (copy: Address)
        ensures
            copy == *self,
    {
        Address { ip: self.ip.clone(), text: self.text.clone() }
    }
}

/// Token representing a computer and how to access it.
pub enum Computer {
    /// Local computer / operating system
    Local,
    /// Remote computer accessed via Secure Shell Protocol (SSH)
    Remote {
        /// Hostname of the remote computer.
        host: String,
        /// Computer IP address
        addr: Address,
        /// Login username
        user: String,
        /// User authentication password
        auth: String,
        /// Path of the client's private key file
        key: String,
    },
}

impl Clone for Computer {
    fn clone(&self) -> (copy: Computer)
        ensures
            copy == *self,
    {
        match self {
            Computer::Local => Computer::Local,
            Computer::Remote { host, addr, user, auth, key } => {
                Computer::Remote {
                    host: host.clone(),
                    addr: addr.clone(),
                    user: user.clone(),
                    auth: auth.clone(),
                    key: key.clone(),
                }
            },
        }
    }
}

/// How the `Debug` form of the standard library shows a text.
pub uninterp spec fn shown_text(text: Seq<char>) -> Seq<char>;

/// How the `Debug` form of the standard library shows the path that a text spells.
pub uninterp spec fn shown_path(path: Seq<char>) -> Seq<char>;

/// The `Debug` form of `str` in the standard library. It depends on the text alone; what it is,
/// beyond that, is left open.
#[verifier::external_body]
fn show_text(text: &str) -> (shown: String)
    ensures
        shown@ == shown_text(text@),
{
    format!("{:?}", text)
}

/// The `Debug` form of `std::path::Path` in the standard library, of the path that the text
/// spells. It depends on the text alone; what it is, beyond that, is left open.
#[verifier::external_body]
fn show_path(path: &str) -> (shown: String)
    ensures
        shown@ == shown_path(path@),
{
    format!("{:?}", std::path::Path::new(path))
}

/// `String::into_bytes` of the standard library: the UTF-8 bytes of a text, in the memory that the
/// text had.
#[verifier::external_body]
fn string_into_bytes(string: String) -> (bytes: Vec<u8>)
    ensures
        bytes@ == encode_utf8(string@),
{
    string.into_bytes()
}

/// `Vec::capacity` of the standard library: for how many elements a vector has memory, which is at
/// least as many as it holds. How many more is up to the allocator.
#[verifier::external_body]
fn vec_capacity(bytes: &Vec<u8>) -> (capacity: usize)
    ensures
        capacity >= bytes@.len(),
{
    bytes.capacity()
}

/// Set every byte in the memory of a vector to zero, given for how many bytes it has memory.
pub fn scrub(bytes: &mut Vec<u8>, capacity: usize)
    requires
        capacity >= old(bytes)@.len(),
    ensures
        final(bytes)@ == Seq::new(capacity as nat, |i: int| 0u8),
{
    bytes.resize(capacity, 0);
    let mut i: usize = 0;
    while i < capacity
        invariant
            bytes@.len() == capacity,
            i <= capacity,
            forall|j: int| 0 <= j < i ==> bytes@[j] == 0,
        decreases capacity - i,
    {
        bytes[i] = 0;
        i = i + 1;
    }
    assert(bytes@ =~= Seq::new(capacity as nat, |i: int| 0u8));
}

/// How a password is shown: not at all, but for whether there is one.
pub open spec fn shown_auth(auth: Seq<char>) -> Seq<char> {
    if auth.len() == 0 {
        "\"\""@
    } else {
        "[hidden]"@
    }
}

/// What stands before, between and behind the fields of a computer that is shown, in one line or
/// with each field in a line of its own.
pub open spec fn field_labels(pretty: bool) -> (
    Seq<char>,
    Seq<char>,
    Seq<char>,
    Seq<char>,
    Seq<char>,
    Seq<char>,
) {
    if pretty {
        (
            "Remote {\n    host: "@,
            ",\n    addr: "@,
            ",\n    user: "@,
            ",\n    auth: "@,
            ",\n    key: "@,
            ",\n}"@,
        )
    } else {
        ("Remote { host: "@, ", addr: "@, ", user: "@, ", auth: "@, ", key: "@, " }"@)
    }
}

/// How a computer is shown to people: its fields, but never its password.
pub open spec fn shown_computer(computer: Computer, pretty: bool) -> Seq<char> {
    match computer {
        Computer::Local => "Local"@,
        Computer::Remote { host, addr, user, auth, key } => {
            shown_fields(
                shown_text(host@),
                addr.text@,
                shown_text(user@),
                auth@,
                shown_path(key@),
                pretty,
            )
        },
    }
}

/// How the fields of a remote computer are put together, each but the password as it is shown.
pub open spec fn shown_fields(
    host: Seq<char>,
    addr: Seq<char>,
    user: Seq<char>,
    auth: Seq<char>,
    key: Seq<char>,
    pretty: bool,
) -> Seq<char> {
    let labels = field_labels(pretty);
    labels.0 + host + labels.1 + addr + labels.2 + user + labels.3 + shown_auth(auth) + labels.4
        + key + labels.5
}

/// Put the fields of a remote computer together, each but the password as it is shown. Of the
/// password only is shown whether there is one.
pub fn show_fields(host: &str, addr: &str, user: &str, auth: &str, key: &str, pretty: bool) -> (
shown: String)
    ensures
        shown@ == shown_fields(host@, addr@, user@, auth@, key@, pretty),
{
    let labels = if pretty {
        (
            "Remote {\n    host: ",
            ",\n    addr: ",
            ",\n    user: ",
            ",\n    auth: ",
            ",\n    key: ",
            ",\n}",
        )
    } else {
        ("Remote { host: ", ", addr: ", ", user: ", ", auth: ", ", key: ", " }")
    };
    let mut shown = labels.0.to_string();
    shown.append(host);
    shown.append(labels.1);
    shown.append(addr);
    shown.append(labels.2);
    shown.append(user);
    shown.append(labels.3);
    if auth.is_empty() {
        shown.append("\"\"");
    } else {
        shown.append("[hidden]");
    }
    shown.append(labels.4);
    shown.append(key);
    shown.append(labels.5);
    shown
}

/// Whether `after` is `before` without its password.
pub open spec fn auth_deleted(before: Computer, after: Computer) -> bool {
    match (before, after) {
        (Computer::Local, Computer::Local) => true,
        (
            Computer::Remote { host, addr, user, auth: _, key },
            Computer::Remote { host: h, addr: a, user: u, auth, key: k },
        ) => {
            &&& h == host
            &&& a == addr
            &&& u == user
            &&& auth@ == Seq::<char>::empty()
            &&& k == key
        },
        _ => false,
    }
}

impl Computer {
    /// Token for the computer / operating system currently running this program.
    pub fn new_local() -> (computer: Arc<Computer>)
        ensures
            *computer == Computer::Local,
    {
        Arc::new(Computer::Local)
    }

    /// Token for accessing a computer remotely over SSH, given the addresses that its name
    /// resolves to. The first of them is used.
    pub fn new_remote(
        host: String,
        user: String,
        key: String,
        resolved: Result<Vec<Address>, IoError>,
    ) -> (outcome: Result<Arc<Computer>, Error>)
        requires
            resolved matches Ok(addresses) ==> addresses@.len() > 0,
        ensures
            match resolved {
                Ok(addresses) => match outcome {
                    Ok(computer) => match *computer {
                        Computer::Remote { host: h, addr, user: u, auth, key: k } => {
                            h == host && addr == addresses@[0] && u == user && auth@ == Seq::<
                                char,
                            >::empty() && k == key
                        },
                        Computer::Local => false,
                    },
                    Err(_) => false,
                },
                Err(error) => outcome matches Err(Error::Io(e)) && e == error,
            },
    {
        let mut addresses = match resolved {
            Ok(addresses) => addresses,
            Err(error) => {
                return Err(Error::Io(error));
            },
        };
        let addr = addresses.swap_remove(0);
        let auth = String::new();
        Ok(Arc::new(Computer::Remote { host, addr, user, auth, key }))
    }

    /// Zero the authentication token / password out of memory.
    ///
    /// Returns the memory that the password had, up to its whole capacity and all zero, for the
    /// caller to free. How much larger than the password it is depends on the allocator, so the
    /// contract says only that it is at least as large. [`scrub`] says what becomes of it for any
    /// capacity.
    pub fn delete_auth(&mut self) -> (freed: Vec<u8>)
        ensures
            auth_deleted(*old(self), *final(self)),
            match (*old(self), *final(self)) {
                (Computer::Local, Computer::Local) => true,
                (
                    Computer::Remote { host, addr, user, auth: _, key },
                    Computer::Remote { host: h, addr: a, user: u, auth, key: k },
                ) => h == host && a == addr && u == user && auth@.len() == 0 && k == key,
                _ => false,
            },
            forall|i: int| 0 <= i < freed@.len() ==> freed@[i] == 0,
            match *old(self) {
                Computer::Local => freed@.len() == 0,
                Computer::Remote { auth, .. } => freed@.len() >= encode_utf8(auth@).len(),
            },
    {
        match self {
            Computer::Local => Vec::new(),
            Computer::Remote { auth, .. } => {
                let mut secret = String::new();
                std::mem::swap(auth, &mut secret);
                let mut bytes = string_into_bytes(secret);
                let capacity: usize = vec_capacity(&bytes);
                scrub(&mut bytes, capacity);
                bytes
            },
        }
    }

    /// Returns the externally visible hostname of this computer.
    pub fn host(&self) -> (name: String)
        ensures
            name@ == (match *self {
                Computer::Local => "localhost"@,
                Computer::Remote { host, addr, .. } => if host@.len() > 0 {
                    host@
                } else {
                    addr.ip@
                },
            }),
    {
        match self {
            Computer::Local => "localhost".to_string(),
            Computer::Remote { host, addr, .. } => if !host.as_str().is_empty() {
                host.clone()
            } else {
                addr.ip.clone()
            },
        }
    }

    /// How this computer is shown to people, in one line or with each field in a line of its own.
    /// A password is never shown.
    pub fn debug(&self, pretty: bool) -> (shown: String)
        ensures
            shown@ == shown_computer(*self, pretty),
    {
        match self {
            Computer::Local => "Local".to_string(),
            Computer::Remote { host, addr, user, auth, key } => {
                show_fields(
                    show_text(host.as_str()).as_str(),
                    addr.text.as_str(),
                    show_text(user.as_str()).as_str(),
                    auth.as_str(),
                    show_path(key.as_str()).as_str(),
                    pretty,
                )
            },
        }
    }
}

/// A password that is not empty does not show: computers that differ in nothing but such a
/// password are shown alike.
pub proof fn law_passwords_hidden(
    host: String,
    addr: Address,
    user: String,
    key: String,
    left: String,
    right: String,
    pretty: bool,
)
    requires
        left@.len() > 0,
        right@.len() > 0,
    ensures
        shown_computer(Computer::Remote { host, addr, user, auth: left, key }, pretty)
            == shown_computer(Computer::Remote { host, addr, user, auth: right, key }, pretty),
{
}

/// How the fields of a remote computer are put together. The password is not among them, and in its
/// place stands whether there is one. In one line, and with each field in a line of its own, the same
/// is shown, but for the spaces.
pub proof fn law_how_a_computer_is_shown(
    host: String,
    addr: Address,
    user: String,
    auth: String,
    key: String,
)
    ensures
        shown_computer(Computer::Local, true) == "Local"@,
        shown_computer(Computer::Local, false) == "Local"@,
        ({
            let computer = Computer::Remote { host, addr, user, auth, key };
            let (host, addr, user, key) = (
                shown_text(host@),
                addr.text@,
                shown_text(user@),
                shown_path(key@),
            );
            let auth = if auth@.len() > 0 {
                "[hidden]"@
            } else {
                "\"\""@
            };
            &&& shown_computer(computer, false) == "Remote { host: "@ + host + ", addr: "@ + addr
                + ", user: "@ + user + ", auth: "@ + auth + ", key: "@ + key + " }"@
            &&& shown_computer(computer, true) == "Remote {\n    host: "@ + host + ",\n    addr: "@
                + addr + ",\n    user: "@ + user + ",\n    auth: "@ + auth + ",\n    key: "@ + key
                + ",\n}"@
        }),
{
}

/// Whether two computers are the same in everything that can be seen of them.
pub open spec fn same_computer(left: Computer, right: Computer) -> bool {
    match (left, right) {
        (Computer::Local, Computer::Local) => true,
        (
            Computer::Remote { host, addr, user, auth, key },
            Computer::Remote { host: h, addr: a, user: u, auth: p, key: k },
        ) => h == host && a == addr && u == user && p@ == auth@ && k == key,
        _ => false,
    }
}

/// Deleting a password that is gone changes nothing.
pub proof fn law_deleting_again_changes_nothing(before: Computer, after: Computer, again: Computer)
    requires
        auth_deleted(before, after),
        auth_deleted(after, again),
    ensures
        same_computer(after, again),
{
}

/// What establishing an SSH connection asks of the system.
pub enum ConnectCall<'a> {
    /// Connect to this address.
    Tcp(&'a Address),
    /// Set up an SSH session on the connection.
    Session,
    /// Shake hands with the other side.
    Handshake,
    /// Log in as this user with this private key file.
    PublicKey {
        /// Login username
        user: &'a String,
        /// Path of the client's private key file
        key: &'a String,
    },
    /// Log in as this user with this password.
    Password {
        /// Login username
        user: &'a String,
        /// User authentication password
        auth: &'a String,
    },
}

/// Establishing an SSH connection, waiting for a reply.
#[derive(Clone, Copy, Debug, PartialEq, Eq, Structural)]
pub enum Connecting {
    /// The network connection is made.
    Tcp,
    /// The session is set up.
    Session,
    /// The sides shake hands.
    Handshake,
    /// The user logs in.
    Login,
}

/// How far establishing an SSH connection has come.
pub type ConnectStep<'a> = Step<ConnectCall<'a>, Connecting, Result<(), ErrorView>>;

/// The mathematical value of a step of establishing a connection.
pub open spec fn connect_view<'a>(
    step: Step<ConnectCall<'a>, Connecting, Result<(), Error>>,
) -> ConnectStep<'a> {
    match step {
        Step::Call(call, state) => Step::Call(call, state),
        Step::Return(outcome) => Step::Return(channel_view(outcome)),
    }
}

impl Connecting {
    /// Whether `reply` can be the answer that is waited for. The network fails in its own way, and
    /// all the rest as SSH does.
    pub open spec fn accepted(self, reply: Reply) -> bool {
        match self {
            Connecting::Tcp => reply is Done || reply is Failed,
            _ => reply is Done || reply is SshFailed,
        }
    }

    /// Whether `reply` can be the answer that is waited for.
    pub fn accepts(&self, reply: &Reply) -> (fits: bool)
        ensures
            fits == self.accepted(*reply),
    {
        match self {
            Connecting::Tcp => matches!(reply, Reply::Done | Reply::Failed(_)),
            _ => matches!(reply, Reply::Done | Reply::SshFailed(_)),
        }
    }
}

impl Computer {
    /// How to log in: with the private key file if one is given, else with the password if one is
    /// given, else not at all.
    pub open spec fn login<'a>(&'a self) -> Option<ConnectCall<'a>> {
        match self {
            Computer::Local => None,
            Computer::Remote { user, auth, key, .. } => if key@.len() > 0 {
                Some(ConnectCall::PublicKey { user, key })
            } else if auth@.len() > 0 {
                Some(ConnectCall::Password { user, auth })
            } else {
                None
            },
        }
    }

    /// The first step of establishing a connection: connect to the computer's address.
    pub open spec fn connect_start<'a>(&'a self) -> ConnectStep<'a> {
        match self {
            Computer::Remote { addr, .. } => Step::Call(ConnectCall::Tcp(addr), Connecting::Tcp),
            Computer::Local => Step::Return(Ok(())),
        }
    }

    /// The next step of establishing a connection, after a reply.
    pub open spec fn connect_next<'a>(&'a self, state: Connecting, reply: Reply) -> ConnectStep<
        'a,
    > {
        match reply {
            Reply::Failed(error) => Step::Return(Err(ErrorView::Io(error))),
            Reply::SshFailed(error) => Step::Return(Err(ErrorView::Ssh(error))),
            _ => match state {
                Connecting::Tcp => Step::Call(ConnectCall::Session, Connecting::Session),
                Connecting::Session => Step::Call(ConnectCall::Handshake, Connecting::Handshake),
                Connecting::Handshake => match self.login() {
                    Some(call) => Step::Call(call, Connecting::Login),
                    None => Step::Return(Ok(())),
                },
                Connecting::Login => Step::Return(Ok(())),
            },
        }
    }

    /// Establish an SSH connection to a remote computer.
    pub fn connect<'a>(&'a self) -> (step: Step<ConnectCall<'a>, Connecting, Result<(), Error>>)
        requires
            self is Remote,
        ensures
            connect_view(step) == self.connect_start(),
    {
        match self {
            Computer::Remote { addr, .. } => Step::Call(ConnectCall::Tcp(addr), Connecting::Tcp),
            Computer::Local => Step::Return(Ok(())),
        }
    }

    /// Go on establishing an SSH connection.
    pub fn resume_connect<'a>(&'a self, state: Connecting, reply: Reply) -> (step: Step<
        ConnectCall<'a>,
        Connecting,
        Result<(), Error>,
    >)
        requires
            self is Remote,
            state.accepted(reply),
        ensures
            connect_view(step) == self.connect_next(state, reply),
    {
        match reply {
            Reply::Failed(error) => {
                return Step::Return(Err(Error::Io(error)));
            },
            Reply::SshFailed(error) => {
                return Step::Return(Err(Error::Ssh(error)));
            },
            _ => {},
        }
        match state {
            Connecting::Tcp => Step::Call(ConnectCall::Session, Connecting::Session),
            Connecting::Session => Step::Call(ConnectCall::Handshake, Connecting::Handshake),
            Connecting::Handshake => match self {
                Computer::Remote { user, auth, key, .. } => if !key.as_str().is_empty() {
                    Step::Call(ConnectCall::PublicKey { user, key }, Connecting::Login)
                } else if !auth.as_str().is_empty() {
                    Step::Call(ConnectCall::Password { user, auth }, Connecting::Login)
                } else {
                    Step::Return(Ok(()))
                },
                Computer::Local => Step::Return(Ok(())),
            },
            Connecting::Login => Step::Return(Ok(())),
        }
    }
}

} // verus!
