//! The entry points that scripts call, and the arguments they take.

use crate::address::{AddressModel, SocketAddress};
use crate::decoder::{decode_json_text, decoding};
use crate::dynamic::{DynTree, DynValue};
use crate::error::{stated, ErrorKind, Failure, FailureModel};
use crate::socket::{
    address_check, begin_bind, begin_connect, read_timeout, write_payload, Action, ActionModel,
    Handle, HandleState, Operation, READ_CAPACITY,
};
use crate::text::same_text;
use vstd::prelude::*;
use vstd::string::*;
use vstd::utf8::*;

verus! {

/// What an entry point is looked up on.
#[derive(Clone, Copy, Debug, PartialEq, Eq, Structural)]
pub enum Receiver {
    /// The table that the module exports.
    Module,
    /// A stream handle.
    Stream,
    /// A listener handle.
    Listener,
    /// The address of an accepted peer.
    Address,
}

/// An entry point.
#[derive(Clone, Copy, Debug, PartialEq, Eq, Structural)]
pub enum EntryPoint {
    Open,
    Bind,
    ParseJson,
    Accept,
    Read,
    Write,
    SetTimeout,
    Close,
    Ip,
    Port,
}

/// What an entry point takes besides its receiver.
#[derive(Clone, Copy, Debug, PartialEq, Eq, Structural)]
pub enum Shape {
    /// Nothing.
    Nothing,
    /// One text.
    Text,
    /// A whole number of seconds, which may be left out.
    Seconds,
}

/// The arguments of a call, checked and in native form.
#[derive(Clone, Debug, PartialEq, Eq)]
pub enum Arguments {
    Nothing,
    Text(String),
    Seconds(u64),
}

/// What checked arguments hold.
pub ghost enum ArgumentsModel {
    Nothing,
    Text(Seq<char>),
    Seconds(u64),
}

impl View for Arguments {
    type V = ArgumentsModel;

    open spec fn view(&self) -> ArgumentsModel {
        match self {
            Arguments::Nothing => ArgumentsModel::Nothing,
            Arguments::Text(text) => ArgumentsModel::Text(text@),
            Arguments::Seconds(seconds) => ArgumentsModel::Seconds(*seconds),
        }
    }
}

/// The entry point that `name` denotes on `receiver`, if any.
pub open spec fn entry_of(receiver: Receiver, name: Seq<char>) -> Option<EntryPoint> {
    match receiver {
        Receiver::Module => if name == "open"@ {
            Some(EntryPoint::Open)
        } else if name == "bind"@ {
            Some(EntryPoint::Bind)
        } else if name == "parse_json"@ {
            Some(EntryPoint::ParseJson)
        } else {
            None
        },
        Receiver::Stream => if name == "read"@ {
            Some(EntryPoint::Read)
        } else if name == "write"@ {
            Some(EntryPoint::Write)
        } else if name == "set_timeout"@ {
            Some(EntryPoint::SetTimeout)
        } else if name == "close"@ {
            Some(EntryPoint::Close)
        } else {
            None
        },
        Receiver::Listener => if name == "accept"@ {
            Some(EntryPoint::Accept)
        } else if name == "close"@ {
            Some(EntryPoint::Close)
        } else {
            None
        },
        Receiver::Address => if name == "ip"@ {
            Some(EntryPoint::Ip)
        } else if name == "port"@ {
            Some(EntryPoint::Port)
        } else {
            None
        },
    }
}

/// Finds the entry point that `name` denotes on `receiver`.
pub fn lookup(receiver: Receiver, name: &str) -> (entry: Option<EntryPoint>)
    ensures
        entry == entry_of(receiver, name@),
{
    match receiver {
        Receiver::Module => if same_text(name, "open") {
            Some(EntryPoint::Open)
        } else if same_text(name, "bind") {
            Some(EntryPoint::Bind)
        } else if same_text(name, "parse_json") {
            Some(EntryPoint::ParseJson)
        } else {
            None
        },
        Receiver::Stream => if same_text(name, "read") {
            Some(EntryPoint::Read)
        } else if same_text(name, "write") {
            Some(EntryPoint::Write)
        } else if same_text(name, "set_timeout") {
            Some(EntryPoint::SetTimeout)
        } else if same_text(name, "close") {
            Some(EntryPoint::Close)
        } else {
            None
        },
        Receiver::Listener => if same_text(name, "accept") {
            Some(EntryPoint::Accept)
        } else if same_text(name, "close") {
            Some(EntryPoint::Close)
        } else {
            None
        },
        Receiver::Address => if same_text(name, "ip") {
            Some(EntryPoint::Ip)
        } else if same_text(name, "port") {
            Some(EntryPoint::Port)
        } else {
            None
        },
    }
}

/// The names of the entry points of `receiver`, in the order in which they
/// are registered.
pub open spec fn exported(receiver: Receiver) -> Seq<Seq<char>> {
    match receiver {
        Receiver::Module => seq!["open"@, "bind"@, "parse_json"@],
        Receiver::Stream => seq!["read"@, "write"@, "set_timeout"@, "close"@],
        Receiver::Listener => seq!["accept"@, "close"@],
        Receiver::Address => seq!["ip"@, "port"@],
    }
}

/// Lists the names of the entry points of `receiver`.
pub fn exports(receiver: Receiver) -> (names: Vec<&'static str>)
    ensures
        names@.len() == exported(receiver).len(),
        forall|i: int| 0 <= i < names@.len() ==> (#[trigger] names@[i])@ == exported(receiver)[i],
{
    match receiver {
        Receiver::Module => vec!["open", "bind", "parse_json"],
        Receiver::Stream => vec!["read", "write", "set_timeout", "close"],
        Receiver::Listener => vec!["accept", "close"],
        Receiver::Address => vec!["ip", "port"],
    }
}

/// The names that a receiver exports are those that denote an entry point
/// on it: each exported name resolves, and no other name does.
pub proof fn law_exports_resolve(receiver: Receiver, name: Seq<char>)
    ensures
        exported(receiver).contains(name) <==> entry_of(receiver, name) is Some,
{
    if receiver == Receiver::Stream {
        let names = exported(receiver);
        assert(names[0] == "read"@ && names[1] == "write"@ && names[2] == "set_timeout"@
            && names[3] == "close"@);
    }
}

impl EntryPoint {
    /// What the entry point takes besides its receiver.
    pub open spec fn shape_spec(self) -> Shape {
        match self {
            EntryPoint::Open | EntryPoint::Bind | EntryPoint::ParseJson | EntryPoint::Write => {
                Shape::Text
            },
            EntryPoint::SetTimeout => Shape::Seconds,
            _ => Shape::Nothing,
        }
    }

    /// What the entry point takes besides its receiver.
    #[verifier::when_used_as_spec(shape_spec)]
    pub fn shape(self) -> (shape: Shape)
        ensures
            shape == self.shape_spec(),
    {
        match self {
            EntryPoint::Open | EntryPoint::Bind | EntryPoint::ParseJson | EntryPoint::Write => {
                Shape::Text
            },
            EntryPoint::SetTimeout => Shape::Seconds,
            _ => Shape::Nothing,
        }
    }
}

/// The message of a type failure for arguments that are not of `shape`.
pub open spec fn shape_message(shape: Shape) -> Seq<char> {
    match shape {
        Shape::Nothing => "no argument expected"@,
        Shape::Text => "one text argument expected"@,
        Shape::Seconds => "a whole number of seconds expected"@,
    }
}

/// What the check of `arguments` against `shape` answers: the arguments
/// in native form, or a type failure. Nothing is no argument at all. A text
/// is one argument, a string. Seconds are one argument: an integer that is
/// not negative, or a number that is whole, not negative and fits; no
/// argument, or nil, stands for zero.
pub open spec fn checked(shape: Shape, arguments: Seq<DynTree>) -> Result<
    ArgumentsModel,
    FailureModel,
> {
    let mismatch = Err(FailureModel { kind: ErrorKind::Type, message: shape_message(shape) });
    match shape {
        Shape::Nothing => if arguments.len() == 0 {
            Ok(ArgumentsModel::Nothing)
        } else {
            mismatch
        },
        Shape::Text => if arguments.len() == 1 && arguments[0] is String {
            Ok(ArgumentsModel::Text(arguments[0]->String_0))
        } else {
            mismatch
        },
        Shape::Seconds => if arguments.len() == 0 {
            Ok(ArgumentsModel::Seconds(0))
        } else if arguments.len() == 1 {
            match arguments[0] {
                DynTree::Nil => Ok(ArgumentsModel::Seconds(0)),
                DynTree::Integer(seconds) => if seconds >= 0 {
                    Ok(ArgumentsModel::Seconds(seconds as u64))
                } else {
                    mismatch
                },
                DynTree::Number(number) => match number.unsigned() {
                    Some(seconds) => Ok(ArgumentsModel::Seconds(seconds)),
                    None => mismatch,
                },
                _ => mismatch,
            }
        } else {
            mismatch
        },
    }
}

/// The trees of a list of values.
pub open spec fn trees(values: Seq<DynValue>) -> Seq<DynTree> {
    Seq::new(values.len(), |i: int| values[i]@)
}

/// The type failure for arguments that are not of `shape`.
fn mismatch(shape: Shape) -> (failure: Failure)
    ensures
        failure@ == (FailureModel { kind: ErrorKind::Type, message: shape_message(shape) }),
{
    match shape {
        Shape::Nothing => Failure::new(ErrorKind::Type, "no argument expected"),
        Shape::Text => Failure::new(ErrorKind::Type, "one text argument expected"),
        Shape::Seconds => Failure::new(ErrorKind::Type, "a whole number of seconds expected"),
    }
}

/// Checks the arguments of a call against `shape` and brings them into
/// native form. Arguments of another count or type are a type failure.
pub fn check_arguments(shape: Shape, arguments: &Vec<DynValue>) -> (result: Result<
    Arguments,
    Failure,
>)
    ensures
        stated(result) == checked(shape, trees(arguments@)),
{
    match shape {
        Shape::Nothing => if arguments.len() == 0 {
            Ok(Arguments::Nothing)
        } else {
            Err(mismatch(shape))
        },
        Shape::Text => if arguments.len() == 1 {
            match &arguments[0] {
                DynValue::String(text) => Ok(Arguments::Text(text.clone())),
                _ => Err(mismatch(shape)),
            }
        } else {
            Err(mismatch(shape))
        },
        Shape::Seconds => if arguments.len() == 0 {
            Ok(Arguments::Seconds(0))
        } else if arguments.len() == 1 {
            match &arguments[0] {
                DynValue::Nil => Ok(Arguments::Seconds(0)),
                DynValue::Integer(seconds) => if *seconds >= 0 {
                    Ok(Arguments::Seconds(*seconds as u64))
                } else {
                    Err(mismatch(shape))
                },
                DynValue::Number(number) => match number.to_unsigned() {
                    Some(seconds) => Ok(Arguments::Seconds(seconds)),
                    None => Err(mismatch(shape)),
                },
                _ => Err(mismatch(shape)),
            }
        } else {
            Err(mismatch(shape))
        },
    }
}

/// The message of a type failure on an entry point that the receiver of the
/// call does not have.
pub open spec fn receiver_message() -> Seq<char> {
    "no such entry point on this receiver"@
}

/// The type failure on an entry point that the receiver does not have.
fn misplaced() -> (failure: Failure)
    ensures
        failure@ == (FailureModel { kind: ErrorKind::Type, message: receiver_message() }),
{
    Failure::new(ErrorKind::Type, "no such entry point on this receiver")
}

/// What the start of a connect or a bind by a script answers: the address
/// to hand to the system, once the arguments are one text and the text is
/// of the form `host:port`; a type failure for other arguments, and a
/// failure of `kind` for another text.
pub open spec fn address_call(kind: ErrorKind, arguments: Seq<DynTree>) -> Result<
    Seq<char>,
    FailureModel,
> {
    match checked(Shape::Text, arguments) {
        Ok(given) => match address_check(encode_utf8(given->Text_0), kind) {
            Ok(_) => Ok(given->Text_0),
            Err(failure) => Err(failure),
        },
        Err(failure) => Err(failure),
    }
}

/// What a call of `parse_json` answers: what decoding answers for the one
/// text that it takes, and a type failure for other arguments.
pub open spec fn parse_call(arguments: Seq<DynTree>) -> Result<DynTree, FailureModel> {
    match checked(Shape::Text, arguments) {
        Ok(given) => decoding(given->Text_0),
        Err(failure) => Err(failure),
    }
}

/// What the start of a call on a handle makes of the handle, and what it
/// answers. An entry point that handles do not have is a type failure, and
/// so are arguments that the entry point does not take. With its arguments
/// in order a call starts the operation that the entry point names, or, for
/// `close`, closes the handle.
pub open spec fn handle_call(
    state: HandleState,
    entry: EntryPoint,
    arguments: Seq<DynTree>,
) -> (HandleState, Result<ActionModel, FailureModel>) {
    match entry {
        EntryPoint::Accept | EntryPoint::Read | EntryPoint::Write | EntryPoint::SetTimeout
        | EntryPoint::Close => match checked(entry.shape_spec(), arguments) {
            Ok(given) => match entry {
                EntryPoint::Accept => (state, state.start(Operation::Accept, ActionModel::Accept)),
                EntryPoint::Read => (
                    state,
                    state.start(Operation::Read, ActionModel::Read(READ_CAPACITY)),
                ),
                EntryPoint::Write => (
                    state,
                    state.start(
                        Operation::Write,
                        ActionModel::Send(write_payload(given->Text_0)),
                    ),
                ),
                EntryPoint::SetTimeout => (
                    state,
                    state.start(
                        Operation::SetReadTimeout,
                        ActionModel::SetReadTimeout(read_timeout(given->Seconds_0)),
                    ),
                ),
                _ => state.close(),
            },
            Err(failure) => (state, Err(failure)),
        },
        _ => (state, Err(FailureModel { kind: ErrorKind::Type, message: receiver_message() })),
    }
}

/// What a call on an address answers: the text of the IP address for `ip`,
/// the port as an integer for `port`, and a type failure for arguments, as
/// both take none, and for any other entry point.
pub open spec fn address_answer(
    address: AddressModel,
    entry: EntryPoint,
    arguments: Seq<DynTree>,
) -> Result<DynTree, FailureModel> {
    match entry {
        EntryPoint::Ip | EntryPoint::Port => match checked(Shape::Nothing, arguments) {
            Ok(_) => Ok(
                if entry == EntryPoint::Ip {
                    DynTree::String(address.ip)
                } else {
                    DynTree::Integer(address.port as i64)
                },
            ),
            Err(failure) => Err(failure),
        },
        _ => Err(FailureModel { kind: ErrorKind::Type, message: receiver_message() }),
    }
}

/// The one text among checked arguments.
fn text_of(given: Arguments) -> (text: String)
    requires
        given is Text,
    ensures
        text@ == given@->Text_0,
{
    match given {
        Arguments::Text(text) => text,
        _ => String::new(),
    }
}

/// Starts a call of `open`: the address to connect a stream to.
pub fn start_open(arguments: &Vec<DynValue>) -> (result: Result<String, Failure>)
    ensures
        stated(result) == address_call(ErrorKind::Connect, trees(arguments@)),
{
    let address = text_of(check_arguments(Shape::Text, arguments)?);
    begin_connect(address.as_str())?;
    Ok(address)
}

/// Starts a call of `bind`: the address to bind a listener to.
pub fn start_bind(arguments: &Vec<DynValue>) -> (result: Result<String, Failure>)
    ensures
        stated(result) == address_call(ErrorKind::Bind, trees(arguments@)),
{
    let address = text_of(check_arguments(Shape::Text, arguments)?);
    begin_bind(address.as_str())?;
    Ok(address)
}

/// Answers a call of `parse_json`: the value that the text decodes to, in
/// which no table holds a key twice.
pub fn parse_json(arguments: &Vec<DynValue>) -> (result: Result<DynValue, Failure>)
    ensures
        stated(result) == parse_call(trees(arguments@)),
        result matches Ok(value) ==> value@.well_formed(),
{
    let data = text_of(check_arguments(Shape::Text, arguments)?);
    decode_json_text(data.as_str())
}

/// Starts a call of `entry` on a handle: what to do on the operating
/// system, or the failure that the script is to see.
pub fn start_call(
    handle: &mut Handle,
    entry: EntryPoint,
    arguments: &Vec<DynValue>,
) -> (result: Result<Action, Failure>)
    ensures
        (final(handle)@, stated(result)) == handle_call(old(handle)@, entry, trees(arguments@)),
{
    match entry {
        EntryPoint::Accept | EntryPoint::Read | EntryPoint::Write | EntryPoint::SetTimeout
        | EntryPoint::Close => {
            let given = check_arguments(entry.shape(), arguments)?;
            match (entry, given) {
                (EntryPoint::Accept, _) => handle.begin_accept(),
                (EntryPoint::Read, _) => handle.begin_read(),
                (EntryPoint::Write, Arguments::Text(text)) => handle.begin_write(text.as_str()),
                (EntryPoint::SetTimeout, Arguments::Seconds(seconds)) => {
                    handle.begin_set_read_timeout(seconds)
                },
                (EntryPoint::Close, _) => handle.close(),
                _ => Err(misplaced()),
            }
        },
        _ => Err(misplaced()),
    }
}

/// Answers a call of `entry` on the address of a peer.
pub fn answer_address(
    address: &SocketAddress,
    entry: EntryPoint,
    arguments: &Vec<DynValue>,
) -> (result: Result<DynValue, Failure>)
    ensures
        stated(result) == address_answer(address@, entry, trees(arguments@)),
{
    match entry {
        EntryPoint::Ip => {
            check_arguments(Shape::Nothing, arguments)?;
            Ok(DynValue::String(address.ip()))
        },
        EntryPoint::Port => {
            check_arguments(Shape::Nothing, arguments)?;
            Ok(DynValue::Integer(address.port() as i64))
        },
        _ => Err(misplaced()),
    }
}

/// Every entry point that is found on a handle or on an address is served
/// there: a call of it is never refused as misplaced.
pub proof fn law_entry_points_are_served(
    receiver: Receiver,
    name: Seq<char>,
    state: HandleState,
    address: AddressModel,
    arguments: Seq<DynTree>,
)
    requires
        entry_of(receiver, name) is Some,
    ensures
        receiver == Receiver::Stream || receiver == Receiver::Listener ==> handle_call(
            state,
            entry_of(receiver, name)->Some_0,
            arguments,
        ).1 != Err::<ActionModel, FailureModel>(
            FailureModel { kind: ErrorKind::Type, message: receiver_message() },
        ),
        receiver == Receiver::Address ==> address_answer(
            address,
            entry_of(receiver, name)->Some_0,
            arguments,
        ) != Err::<DynTree, FailureModel>(
            FailureModel { kind: ErrorKind::Type, message: receiver_message() },
        ),
{
    reveal_strlit("no such entry point on this receiver");
    reveal_strlit("no argument expected");
    reveal_strlit("one text argument expected");
    reveal_strlit("a whole number of seconds expected");
    reveal_strlit("handle is closed");
    reveal_strlit("handle is not a stream");
    reveal_strlit("handle is not a listener");
    assert("no argument expected"@.len() == 20);
    assert("one text argument expected"@.len() == 26);
    assert("a whole number of seconds expected"@.len() == 34);
}

} // verus!
