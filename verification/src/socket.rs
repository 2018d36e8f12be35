//! The life of a socket handle and the decisions around each operation.
//!
//! The caller owns the operating system's stream or listener and performs
//! the blocking calls. For each operation it first asks the [`Handle`] what
//! to do, which is an [`Action`] or a failure; it performs the action, hands
//! over what the system gave, and gets back what the script is to see.

use crate::address::{AddressModel, SocketAddress};
use crate::endpoint::{parse_port, port_of, well_formed};
use crate::error::{stated, ErrorKind, Failure, FailureModel};
use vstd::prelude::*;
use vstd::string::*;
use vstd::utf8::*;

verus! {

/// The most bytes that one read hands over.
pub const READ_CAPACITY: usize = 4096;

/// The role of a handle.
#[derive(Clone, Copy, Debug, PartialEq, Eq, Structural)]
pub enum Role {
    /// A connected stream.
    Stream,
    /// A bound listener.
    Listener,
}

/// An operation on an open handle.
#[derive(Clone, Copy, Debug, PartialEq, Eq, Structural)]
pub enum Operation {
    Accept,
    Read,
    Write,
    SetReadTimeout,
}

/// What the caller is to do on the operating system.
#[derive(Clone, Debug, PartialEq, Eq)]
pub enum Action {
    /// Wait for one incoming connection and accept it.
    Accept,
    /// Read once, into a buffer of this many bytes, and hand over the bytes
    /// that the read gave.
    Read(usize),
    /// Send all of these bytes, then flush what is buffered.
    Send(Vec<u8>),
    /// Set the deadline of later reads to this many seconds, or, for
    /// `None`, to none.
    SetReadTimeout(Option<u64>),
    /// Shut down both directions of the stream.
    ShutDown,
    /// Stop listening and release the listener.
    StopListening,
}

/// What an [`Action`] stands for.
pub ghost enum ActionModel {
    Accept,
    Read(usize),
    Send(Seq<u8>),
    SetReadTimeout(Option<u64>),
    ShutDown,
    StopListening,
}

impl View for Action {
    type V = ActionModel;

    open spec fn view(&self) -> ActionModel {
        match self {
            Action::Accept => ActionModel::Accept,
            Action::Read(capacity) => ActionModel::Read(*capacity),
            Action::Send(bytes) => ActionModel::Send(bytes@),
            Action::SetReadTimeout(seconds) => ActionModel::SetReadTimeout(*seconds),
            Action::ShutDown => ActionModel::ShutDown,
            Action::StopListening => ActionModel::StopListening,
        }
    }
}

/// How the operating system classed an error.
#[derive(Clone, Copy, Debug, PartialEq, Eq, Structural)]
pub enum FaultKind {
    /// The deadline of the call elapsed.
    TimedOut,
    /// The call would have had to wait longer than it may.
    WouldBlock,
    /// Any other error.
    Other,
}

/// An error of the operating system: its class and its message.
#[derive(Clone, Debug, PartialEq, Eq)]
pub struct Fault {
    pub kind: FaultKind,
    pub message: String,
}

/// What a [`Fault`] states.
pub ghost struct FaultModel {
    pub kind: FaultKind,
    pub message: Seq<char>,
}

impl View for Fault {
    type V = FaultModel;

    open spec fn view(&self) -> FaultModel {
        FaultModel { kind: self.kind, message: self.message@ }
    }
}

/// The outcome of a call on the operating system by what it states: what
/// the call gave, or what its fault states.
pub open spec fn reported<T: View>(outcome: Result<T, Fault>) -> Result<T::V, FaultModel> {
    match outcome {
        Ok(value) => Ok(value@),
        Err(fault) => Err(fault@),
    }
}

/// The library's record of one handle of the operating system: its role,
/// and whether it is still open.
#[derive(Debug, PartialEq, Eq)]
pub struct Handle {
    role: Role,
    open: bool,
}

/// What a [`Handle`] records.
pub ghost struct HandleState {
    pub role: Role,
    pub open: bool,
}

impl View for Handle {
    type V = HandleState;

    closed spec fn view(&self) -> HandleState {
        HandleState { role: self.role, open: self.open }
    }
}

impl Operation {
    /// The role that the operation is valid on.
    pub open spec fn role(self) -> Role {
        match self {
            Operation::Accept => Role::Listener,
            _ => Role::Stream,
        }
    }
}

/// The message of a state failure on a closed handle.
pub open spec fn closed_message() -> Seq<char> {
    "handle is closed"@
}

/// The message of a state failure on a handle of the wrong role.
pub open spec fn role_message(needed: Role) -> Seq<char> {
    match needed {
        Role::Stream => "handle is not a stream"@,
        Role::Listener => "handle is not a listener"@,
    }
}

/// The message of a decode failure on bytes that are not text.
pub open spec fn utf8_message() -> Seq<char> {
    "bytes read are not valid UTF-8"@
}

/// The message of a failure on an address that is not of the form
/// `host:port`.
pub open spec fn malformed_message() -> Seq<char> {
    "address is not of the form host:port"@
}

/// The failure that a fault of the operating system becomes under `kind`:
/// it keeps the fault's message.
pub open spec fn fault_failure(kind: ErrorKind, fault: FaultModel) -> FailureModel {
    FailureModel { kind, message: fault.message }
}

/// The kind of failure of a read that the operating system did not
/// complete: a timeout where the deadline elapsed, an I/O failure otherwise.
pub open spec fn read_fault_kind(kind: FaultKind) -> ErrorKind {
    match kind {
        FaultKind::TimedOut | FaultKind::WouldBlock => ErrorKind::Timeout,
        FaultKind::Other => ErrorKind::Io,
    }
}

/// The bytes that a write of `text` sends: its UTF-8 encoding.
pub open spec fn write_payload(text: Seq<char>) -> Seq<u8> {
    encode_utf8(text)
}

/// The text that a read of `bytes` gives, or `None` where they are not
/// valid UTF-8.
pub open spec fn read_text(bytes: Seq<u8>) -> Option<Seq<char>> {
    if valid_utf8(bytes) {
        Some(decode_utf8(bytes))
    } else {
        None
    }
}

/// The deadline to configure for `seconds`: none for zero, which stands for
/// "no timeout".
pub open spec fn read_timeout(seconds: u64) -> Option<u64> {
    if seconds == 0 {
        None
    } else {
        Some(seconds)
    }
}

/// What the start of a connect or a bind answers for an address: its port
/// where it is of the form `host:port`, a failure of `kind` otherwise.
pub open spec fn address_check(address: Seq<u8>, kind: ErrorKind) -> Result<u16, FailureModel> {
    if well_formed(address) {
        Ok(port_of(address) as u16)
    } else {
        Err(FailureModel { kind, message: malformed_message() })
    }
}

/// What the end of a connect or a bind answers: a new handle of `role`
/// where the system's call succeeded, else a failure of `kind` with the
/// system's message.
pub open spec fn opened(role: Role, kind: ErrorKind, outcome: Result<(), FaultModel>) -> Result<
    HandleState,
    FailureModel,
> {
    match outcome {
        Ok(_) => Ok(HandleState::fresh(role)),
        Err(fault) => Err(fault_failure(kind, fault)),
    }
}

/// What the end of an accept answers: the handle of the accepted stream
/// with the peer's address, or an accept failure with the system's message.
pub open spec fn accepted(outcome: Result<(Seq<char>, u16), FaultModel>) -> Result<
    (HandleState, AddressModel),
    FailureModel,
> {
    match outcome {
        Ok(peer) => Ok(
            (HandleState::fresh(Role::Stream), AddressModel { ip: peer.0, port: peer.1 }),
        ),
        Err(fault) => Err(fault_failure(ErrorKind::Accept, fault)),
    }
}

/// What the end of a read answers: the text of the bytes that the read
/// gave, the empty text for none; a decode failure for bytes that are not
/// valid UTF-8; and for a read that the system did not complete a timeout
/// where the deadline elapsed, an I/O failure otherwise.
pub open spec fn received(outcome: Result<Seq<u8>, FaultModel>) -> Result<Seq<char>, FailureModel> {
    match outcome {
        Ok(bytes) => match read_text(bytes) {
            Some(text) => Ok(text),
            None => Err(FailureModel { kind: ErrorKind::Decode, message: utf8_message() }),
        },
        Err(fault) => Err(fault_failure(read_fault_kind(fault.kind), fault)),
    }
}

/// What the end of a send, of the configuration of a deadline or of a
/// release answers: success where the system's call succeeded, an I/O
/// failure with the system's message otherwise.
pub open spec fn completed(outcome: Result<(), FaultModel>) -> Result<(), FailureModel> {
    match outcome {
        Ok(_) => Ok(()),
        Err(fault) => Err(fault_failure(ErrorKind::Io, fault)),
    }
}

impl HandleState {
    /// The state of a handle of `role` that the system just gave.
    pub open spec fn fresh(role: Role) -> HandleState {
        HandleState { role, open: true }
    }

    /// Whether `operation` may start on the handle: it is open and of the
    /// role that the operation is valid on.
    pub open spec fn admits(self, operation: Operation) -> bool {
        self.open && self.role == operation.role()
    }

    /// The failure with which `operation` is refused on the handle: that of
    /// a closed handle first, then that of the wrong role.
    pub open spec fn refusal(self, operation: Operation) -> FailureModel
        recommends
            !self.admits(operation),
    {
        FailureModel {
            kind: ErrorKind::State,
            message: if !self.open {
                closed_message()
            } else {
                role_message(operation.role())
            },
        }
    }

    /// What the start of `operation` answers on the handle: `action` where
    /// the handle admits the operation, the refusal otherwise.
    pub open spec fn start<A>(self, operation: Operation, action: A) -> Result<A, FailureModel> {
        if self.admits(operation) {
            Ok(action)
        } else {
            Err(self.refusal(operation))
        }
    }

    /// What a close makes of the handle and what it answers. An open
    /// handle becomes closed, and the answer is the release that its role
    /// calls for: the shutdown of both directions of a stream, the end of
    /// listening for a listener. A closed handle stays as it is, and the
    /// answer is a state failure.
    pub open spec fn close(self) -> (HandleState, Result<ActionModel, FailureModel>) {
        if self.open {
            (
                HandleState { role: self.role, open: false },
                Ok(
                    match self.role {
                        Role::Stream => ActionModel::ShutDown,
                        Role::Listener => ActionModel::StopListening,
                    },
                ),
            )
        } else {
            (self, Err(FailureModel { kind: ErrorKind::State, message: closed_message() }))
        }
    }
}

/// Calls `String::from_utf8`, which std documents to return the string made
/// of the given bytes where they are valid UTF-8, and an error otherwise.
#[verifier::external_body]
fn text_from_utf8(bytes: Vec<u8>) -> (result: Option<String>)
    ensures
        result matches Some(text) ==> read_text(bytes@) == Some(text@),
        result is None ==> read_text(bytes@) is None,
{
    String::from_utf8(bytes).ok()
}

/// The failure that a fault of the operating system becomes under `kind`.
fn failure_of(kind: ErrorKind, fault: Fault) -> (failure: Failure)
    ensures
        failure@ == fault_failure(kind, fault@),
{
    Failure { kind, message: fault.message }
}

/// Checks an address for a connect or a bind.
fn check_address(address: &str, kind: ErrorKind) -> (result: Result<u16, Failure>)
    ensures
        stated(result) == address_check(address.spec_bytes(), kind),
{
    match parse_port(address) {
        Some(port) => Ok(port),
        None => Err(Failure::new(kind, "address is not of the form host:port")),
    }
}

impl Handle {
    /// The record of a stream that was just connected or accepted.
    pub fn stream() -> (handle: Handle)
        ensures
            handle@ == HandleState::fresh(Role::Stream),
    {
        Handle { role: Role::Stream, open: true }
    }

    /// The record of a listener that was just bound.
    pub fn listener() -> (handle: Handle)
        ensures
            handle@ == HandleState::fresh(Role::Listener),
    {
        Handle { role: Role::Listener, open: true }
    }

    /// The role of the handle.
    pub fn role(&self) -> (role: Role)
        ensures
            role == self@.role,
    {
        self.role
    }

    /// Whether the handle is open.
    pub fn is_open(&self) -> (open: bool)
        ensures
            open == self@.open,
    {
        self.open
    }

    /// Decides whether `operation` may start: it may on an open handle of
    /// the operation's role, and is a state failure on any other.
    pub fn check(&self, operation: Operation) -> (result: Result<(), Failure>)
        ensures
            stated(result) == self@.start(operation, ()),
    {
        let needed = match operation {
            Operation::Accept => Role::Listener,
            _ => Role::Stream,
        };
        if !self.open {
            Err(Failure::new(ErrorKind::State, "handle is closed"))
        } else if self.role != needed {
            match needed {
                Role::Stream => Err(Failure::new(ErrorKind::State, "handle is not a stream")),
                Role::Listener => Err(Failure::new(ErrorKind::State, "handle is not a listener")),
            }
        } else {
            Ok(())
        }
    }

    /// Starts a read: on an open stream, the one bounded read to make.
    pub fn begin_read(&self) -> (result: Result<Action, Failure>)
        ensures
            stated(result) == self@.start(Operation::Read, ActionModel::Read(READ_CAPACITY)),
    {
        match self.check(Operation::Read) {
            Ok(()) => Ok(Action::Read(READ_CAPACITY)),
            Err(failure) => Err(failure),
        }
    }

    /// Starts a write of `text`: on an open stream, the bytes to send in
    /// full and then flush.
    pub fn begin_write(&self, text: &str) -> (result: Result<Action, Failure>)
        ensures
            stated(result) == self@.start(
                Operation::Write,
                ActionModel::Send(write_payload(text@)),
            ),
    {
        match self.check(Operation::Write) {
            Ok(()) => Ok(Action::Send(text.as_bytes_vec())),
            Err(failure) => Err(failure),
        }
    }

    /// Starts the configuration of the read deadline: on an open stream,
    /// the deadline to set. Zero seconds stand for no deadline.
    pub fn begin_set_read_timeout(&self, seconds: u64) -> (result: Result<Action, Failure>)
        ensures
            stated(result) == self@.start(
                Operation::SetReadTimeout,
                ActionModel::SetReadTimeout(read_timeout(seconds)),
            ),
    {
        match self.check(Operation::SetReadTimeout) {
            Ok(()) => if seconds == 0 {
                Ok(Action::SetReadTimeout(None))
            } else {
                Ok(Action::SetReadTimeout(Some(seconds)))
            },
            Err(failure) => Err(failure),
        }
    }

    /// Starts an accept: on an open listener, the accept to make.
    pub fn begin_accept(&self) -> (result: Result<Action, Failure>)
        ensures
            stated(result) == self@.start(Operation::Accept, ActionModel::Accept),
    {
        match self.check(Operation::Accept) {
            Ok(()) => Ok(Action::Accept),
            Err(failure) => Err(failure),
        }
    }

    /// Closes the handle. An open handle becomes closed, and the result is
    /// the release to perform. A closed handle stays as it is, and the call
    /// is a state failure.
    pub fn close(&mut self) -> (result: Result<Action, Failure>)
        ensures
            (final(self)@, stated(result)) == old(self)@.close(),
    {
        if self.open {
            self.open = false;
            match self.role {
                Role::Stream => Ok(Action::ShutDown),
                Role::Listener => Ok(Action::StopListening),
            }
        } else {
            Err(Failure::new(ErrorKind::State, "handle is closed"))
        }
    }
}

/// Starts a connect: for an address of the form `host:port` the port to
/// connect to, for any other text a connect failure.
pub fn begin_connect(address: &str) -> (result: Result<u16, Failure>)
    ensures
        stated(result) == address_check(address.spec_bytes(), ErrorKind::Connect),
{
    check_address(address, ErrorKind::Connect)
}

/// Starts a bind: for an address of the form `host:port` the port to
/// listen on, for any other text a bind failure.
pub fn begin_bind(address: &str) -> (result: Result<u16, Failure>)
    ensures
        stated(result) == address_check(address.spec_bytes(), ErrorKind::Bind),
{
    check_address(address, ErrorKind::Bind)
}

/// Ends a connect: a stream handle where the connection was made, a connect
/// failure with the system's message otherwise.
pub fn finish_connect(outcome: Result<(), Fault>) -> (result: Result<Handle, Failure>)
    ensures
        stated(result) == opened(Role::Stream, ErrorKind::Connect, reported(outcome)),
{
    match outcome {
        Ok(()) => Ok(Handle::stream()),
        Err(fault) => Err(failure_of(ErrorKind::Connect, fault)),
    }
}

/// Ends a bind: a listener handle where the address was bound, a bind
/// failure with the system's message otherwise.
pub fn finish_bind(outcome: Result<(), Fault>) -> (result: Result<Handle, Failure>)
    ensures
        stated(result) == opened(Role::Listener, ErrorKind::Bind, reported(outcome)),
{
    match outcome {
        Ok(()) => Ok(Handle::listener()),
        Err(fault) => Err(failure_of(ErrorKind::Bind, fault)),
    }
}

/// Ends an accept. What the system's call gave is the peer's address: the
/// text of its IP address and its port. The result is the handle of the
/// accepted stream together with that address, or an accept failure with
/// the system's message.
pub fn finish_accept(outcome: Result<(String, u16), Fault>) -> (result: Result<
    (Handle, SocketAddress),
    Failure,
>)
    ensures
        stated(result) == accepted(reported(outcome)),
{
    match outcome {
        Ok((ip, port)) => Ok((Handle::stream(), SocketAddress::new(ip, port))),
        Err(fault) => Err(failure_of(ErrorKind::Accept, fault)),
    }
}

/// Ends a read. What the system's call gave is the bytes of the one read,
/// none where the peer closed without sending. The result is their text;
/// bytes that are not valid UTF-8 are a decode failure. A read that the
/// system did not complete is a timeout where the deadline elapsed, and an
/// I/O failure otherwise.
pub fn finish_read(outcome: Result<Vec<u8>, Fault>) -> (result: Result<String, Failure>)
    ensures
        stated(result) == received(reported(outcome)),
{
    match outcome {
        Ok(bytes) => match text_from_utf8(bytes) {
            Some(text) => Ok(text),
            None => Err(Failure::new(ErrorKind::Decode, "bytes read are not valid UTF-8")),
        },
        Err(fault) => {
            let kind = match fault.kind {
                FaultKind::TimedOut | FaultKind::WouldBlock => ErrorKind::Timeout,
                FaultKind::Other => ErrorKind::Io,
            };
            Err(failure_of(kind, fault))
        },
    }
}

/// Ends a send, the configuration of a deadline or a release: success
/// where the system's call succeeded, an I/O failure with the system's
/// message otherwise.
pub fn finish_plain(outcome: Result<(), Fault>) -> (result: Result<(), Failure>)
    ensures
        stated(result) == completed(reported(outcome)),
{
    match outcome {
        Ok(()) => Ok(()),
        Err(fault) => Err(failure_of(ErrorKind::Io, fault)),
    }
}

/// For every address of the form `host:port` a connect starts, and the
/// handle of the connection that the system then makes closes without a
/// failure.
pub proof fn law_connect_then_close(address: Seq<u8>)
    requires
        well_formed(address),
    ensures
        address_check(address, ErrorKind::Connect) is Ok,
        opened(Role::Stream, ErrorKind::Connect, Ok(())) matches Ok(handle) && handle.close().1
            == Ok::<ActionModel, FailureModel>(ActionModel::ShutDown),
        completed(Ok(())) is Ok,
{
}

/// A listener that the system just bound admits an accept, and the accept
/// of a peer gives an open stream together with the address of that peer:
/// its IP address and its port.
pub proof fn law_bind_then_accept(ip: Seq<char>, port: u16)
    ensures
        opened(Role::Listener, ErrorKind::Bind, Ok(())) matches Ok(listener) && listener.admits(
            Operation::Accept,
        ),
        accepted(Ok((ip, port))) matches Ok(pair) && pair.0.admits(Operation::Read)
            && pair.0.admits(Operation::Write) && pair.1 == (AddressModel { ip, port }),
{
}

/// What a write sends of a text is read back as that text: no byte is lost,
/// added or moved. This holds of every text that one read can hold.
pub proof fn law_write_then_read(text: Seq<char>)
    requires
        write_payload(text).len() <= READ_CAPACITY,
    ensures
        received(Ok(write_payload(text))) == Ok::<Seq<char>, FailureModel>(text),
{
    encode_utf8_valid_utf8(text);
    encode_utf8_decode_utf8(text);
}

/// A read that gave no bytes, as after the peer closed without sending, is
/// the empty text and no failure.
pub proof fn law_read_after_peer_close()
    ensures
        received(Ok(Seq::<u8>::empty())) == Ok::<Seq<char>, FailureModel>(Seq::<char>::empty()),
{
}

/// A deadline of one or more seconds is configured as given, and a read
/// whose deadline elapsed is a timeout, whichever way the system reports
/// it.
pub proof fn law_deadline(seconds: u64, fault: FaultModel)
    requires
        seconds > 0,
        fault.kind == FaultKind::TimedOut || fault.kind == FaultKind::WouldBlock,
    ensures
        read_timeout(seconds) == Some(seconds),
        received(Err(fault)) == Err::<Seq<char>, FailureModel>(
            FailureModel { kind: ErrorKind::Timeout, message: fault.message },
        ),
{
}

/// Of two closes of an open handle the first succeeds and the second is a
/// state failure, which leaves the handle closed.
pub proof fn law_close_twice(handle: HandleState)
    requires
        handle.open,
    ensures
        handle.close().1 is Ok,
        !handle.close().0.open,
        handle.close().0.close() == (
            handle.close().0,
            Err::<ActionModel, FailureModel>(
                FailureModel { kind: ErrorKind::State, message: closed_message() },
            ),
        ),
{
}

/// A closed handle admits no operation: each one is refused with a state
/// failure, and none passes in silence.
pub proof fn law_closed_handle_refuses(handle: HandleState, operation: Operation)
    requires
        !handle.open,
    ensures
        handle.start(operation, ()) == Err::<(), FailureModel>(
            FailureModel { kind: ErrorKind::State, message: closed_message() },
        ),
{
}

} // verus!
