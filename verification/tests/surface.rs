use lsock::address::SocketAddress;
use lsock::dynamic::{DynKey, DynValue};
use lsock::error::{ErrorKind, Failure};
use lsock::number::JsonNumber;
use lsock::socket::{Action, Handle};
use lsock::surface::{
    answer_address, check_arguments, exports, lookup, parse_json, start_bind, start_call,
    start_open, Arguments, EntryPoint, Receiver, Shape,
};

fn number(positive: bool, mantissa: u64, exponent: i16) -> DynValue {
    DynValue::Number(JsonNumber { nan: false, positive, mantissa, exponent })
}

fn mismatch(message: &str) -> Result<Arguments, Failure> {
    Err(Failure { kind: ErrorKind::Type, message: message.to_string() })
}

#[test]
fn module_exports_open_bind_and_parse_json() {
    assert_eq!(exports(Receiver::Module), vec!["open", "bind", "parse_json"]);
    assert_eq!(lookup(Receiver::Module, "open"), Some(EntryPoint::Open));
    assert_eq!(lookup(Receiver::Module, "bind"), Some(EntryPoint::Bind));
    assert_eq!(lookup(Receiver::Module, "parse_json"), Some(EntryPoint::ParseJson));
    assert_eq!(lookup(Receiver::Module, "read"), None);
    assert_eq!(lookup(Receiver::Module, "close"), None);
}

#[test]
fn stream_has_read_write_set_timeout_and_close() {
    assert_eq!(exports(Receiver::Stream), vec!["read", "write", "set_timeout", "close"]);
    assert_eq!(lookup(Receiver::Stream, "read"), Some(EntryPoint::Read));
    assert_eq!(lookup(Receiver::Stream, "write"), Some(EntryPoint::Write));
    assert_eq!(lookup(Receiver::Stream, "set_timeout"), Some(EntryPoint::SetTimeout));
    assert_eq!(lookup(Receiver::Stream, "close"), Some(EntryPoint::Close));
    assert_eq!(lookup(Receiver::Stream, "accept"), None);
}

#[test]
fn listener_has_accept_and_close() {
    assert_eq!(exports(Receiver::Listener), vec!["accept", "close"]);
    assert_eq!(lookup(Receiver::Listener, "accept"), Some(EntryPoint::Accept));
    assert_eq!(lookup(Receiver::Listener, "close"), Some(EntryPoint::Close));
    assert_eq!(lookup(Receiver::Listener, "read"), None);
}

#[test]
fn address_has_ip_and_port() {
    assert_eq!(exports(Receiver::Address), vec!["ip", "port"]);
    assert_eq!(lookup(Receiver::Address, "ip"), Some(EntryPoint::Ip));
    assert_eq!(lookup(Receiver::Address, "port"), Some(EntryPoint::Port));
}

#[test]
fn lookup_is_exact_about_names() {
    for receiver in [Receiver::Module, Receiver::Stream, Receiver::Listener, Receiver::Address] {
        assert_eq!(lookup(receiver, ""), None);
        assert_eq!(lookup(receiver, "Read"), None);
        assert_eq!(lookup(receiver, "read "), None);
        assert_eq!(lookup(receiver, "clos"), None);
        assert_eq!(lookup(receiver, "closed"), None);
        assert_eq!(lookup(receiver, "ope\u{144}"), None);
    }
}

#[test]
fn every_exported_name_resolves() {
    for receiver in [Receiver::Module, Receiver::Stream, Receiver::Listener, Receiver::Address] {
        for name in exports(receiver) {
            assert!(lookup(receiver, name).is_some());
        }
    }
}

#[test]
fn entry_points_have_shapes() {
    assert_eq!(EntryPoint::Open.shape(), Shape::Text);
    assert_eq!(EntryPoint::Bind.shape(), Shape::Text);
    assert_eq!(EntryPoint::ParseJson.shape(), Shape::Text);
    assert_eq!(EntryPoint::Write.shape(), Shape::Text);
    assert_eq!(EntryPoint::SetTimeout.shape(), Shape::Seconds);
    assert_eq!(EntryPoint::Accept.shape(), Shape::Nothing);
    assert_eq!(EntryPoint::Read.shape(), Shape::Nothing);
    assert_eq!(EntryPoint::Close.shape(), Shape::Nothing);
    assert_eq!(EntryPoint::Ip.shape(), Shape::Nothing);
    assert_eq!(EntryPoint::Port.shape(), Shape::Nothing);
}

#[test]
fn no_argument_is_expected_where_nothing_is_taken() {
    assert_eq!(check_arguments(Shape::Nothing, &vec![]), Ok(Arguments::Nothing));
    assert_eq!(check_arguments(Shape::Nothing, &vec![DynValue::Nil]), mismatch("no argument expected"));
    assert_eq!(
        check_arguments(Shape::Nothing, &vec![DynValue::String("x".to_string())]),
        mismatch("no argument expected")
    );
}

#[test]
fn one_text_is_expected_where_a_text_is_taken() {
    let expected = "one text argument expected";
    assert_eq!(
        check_arguments(Shape::Text, &vec![DynValue::String("127.0.0.1:80".to_string())]),
        Ok(Arguments::Text("127.0.0.1:80".to_string()))
    );
    assert_eq!(
        check_arguments(Shape::Text, &vec![DynValue::String(String::new())]),
        Ok(Arguments::Text(String::new()))
    );
    assert_eq!(check_arguments(Shape::Text, &vec![]), mismatch(expected));
    assert_eq!(check_arguments(Shape::Text, &vec![DynValue::Nil]), mismatch(expected));
    assert_eq!(check_arguments(Shape::Text, &vec![number(true, 1, 0)]), mismatch(expected));
    assert_eq!(check_arguments(Shape::Text, &vec![DynValue::Boolean(true)]), mismatch(expected));
    assert_eq!(check_arguments(Shape::Text, &vec![DynValue::Foreign]), mismatch(expected));
    assert_eq!(check_arguments(Shape::Text, &vec![DynValue::Table(vec![])]), mismatch(expected));
    assert_eq!(
        check_arguments(
            Shape::Text,
            &vec![DynValue::String("a".to_string()), DynValue::String("b".to_string())]
        ),
        mismatch(expected)
    );
}

#[test]
fn seconds_are_a_whole_number_that_is_not_negative() {
    let expected = "a whole number of seconds expected";
    assert_eq!(check_arguments(Shape::Seconds, &vec![number(true, 5, 0)]), Ok(Arguments::Seconds(5)));
    assert_eq!(check_arguments(Shape::Seconds, &vec![number(true, 50, -1)]), Ok(Arguments::Seconds(5)));
    assert_eq!(check_arguments(Shape::Seconds, &vec![number(true, 6, 1)]), Ok(Arguments::Seconds(60)));
    assert_eq!(check_arguments(Shape::Seconds, &vec![number(true, 0, 0)]), Ok(Arguments::Seconds(0)));
    assert_eq!(check_arguments(Shape::Seconds, &vec![number(true, 15, -1)]), mismatch(expected));
    assert_eq!(check_arguments(Shape::Seconds, &vec![number(false, 1, 0)]), mismatch(expected));
    assert_eq!(check_arguments(Shape::Seconds, &vec![number(true, 1, 20)]), mismatch(expected));
    assert_eq!(
        check_arguments(
            Shape::Seconds,
            &vec![DynValue::Number(JsonNumber { nan: true, positive: true, mantissa: 0, exponent: 0 })]
        ),
        mismatch(expected)
    );
    assert_eq!(
        check_arguments(Shape::Seconds, &vec![DynValue::String("5".to_string())]),
        mismatch(expected)
    );
    assert_eq!(
        check_arguments(Shape::Seconds, &vec![number(true, 1, 0), number(true, 2, 0)]),
        mismatch(expected)
    );
    assert_eq!(
        check_arguments(
            Shape::Seconds,
            &vec![DynValue::Table(vec![(DynKey::Index(1), number(true, 1, 0))])]
        ),
        mismatch(expected)
    );
}

#[test]
fn seconds_are_an_integer_that_is_not_negative() {
    let expected = "a whole number of seconds expected";
    assert_eq!(
        check_arguments(Shape::Seconds, &vec![DynValue::Integer(5)]),
        Ok(Arguments::Seconds(5))
    );
    assert_eq!(
        check_arguments(Shape::Seconds, &vec![DynValue::Integer(0)]),
        Ok(Arguments::Seconds(0))
    );
    assert_eq!(
        check_arguments(Shape::Seconds, &vec![DynValue::Integer(i64::MAX)]),
        Ok(Arguments::Seconds(i64::MAX as u64))
    );
    assert_eq!(check_arguments(Shape::Seconds, &vec![DynValue::Integer(-1)]), mismatch(expected));
    assert_eq!(
        check_arguments(Shape::Seconds, &vec![DynValue::Integer(i64::MIN)]),
        mismatch(expected)
    );
    assert_eq!(
        check_arguments(Shape::Text, &vec![DynValue::Integer(1)]),
        mismatch("one text argument expected")
    );
}

#[test]
fn an_address_joined_from_ip_and_port_is_well_formed() {
    let address = SocketAddress::new("127.0.0.1".to_string(), 8080);
    let ip = match answer_address(&address, EntryPoint::Ip, &vec![]) {
        Ok(DynValue::String(ip)) => ip,
        other => panic!("expected a text, got {:?}", other),
    };
    let port = match answer_address(&address, EntryPoint::Port, &vec![]) {
        Ok(DynValue::Integer(port)) => port,
        other => panic!("expected an integer, got {:?}", other),
    };
    let joined = format!("{}:{}", ip, port);
    assert_eq!(joined, "127.0.0.1:8080");
    assert_eq!(start_open(&vec![DynValue::String(joined.clone())]), Ok(joined));
}

#[test]
fn seconds_left_out_are_zero() {
    assert_eq!(check_arguments(Shape::Seconds, &vec![]), Ok(Arguments::Seconds(0)));
    assert_eq!(check_arguments(Shape::Seconds, &vec![DynValue::Nil]), Ok(Arguments::Seconds(0)));
}

fn text(value: &str) -> DynValue {
    DynValue::String(value.to_string())
}

fn refused<T>(kind: ErrorKind, message: &str) -> Result<T, Failure> {
    Err(Failure { kind, message: message.to_string() })
}

#[test]
fn open_takes_one_address() {
    assert_eq!(start_open(&vec![text("127.0.0.1:8080")]), Ok("127.0.0.1:8080".to_string()));
    assert_eq!(start_open(&vec![]), refused(ErrorKind::Type, "one text argument expected"));
    assert_eq!(
        start_open(&vec![number(true, 8080, 0)]),
        refused(ErrorKind::Type, "one text argument expected")
    );
    assert_eq!(
        start_open(&vec![text("127.0.0.1")]),
        refused(ErrorKind::Connect, "address is not of the form host:port")
    );
}

#[test]
fn bind_takes_one_address() {
    assert_eq!(start_bind(&vec![text("0.0.0.0:0")]), Ok("0.0.0.0:0".to_string()));
    assert_eq!(
        start_bind(&vec![text("a"), text("b")]),
        refused(ErrorKind::Type, "one text argument expected")
    );
    assert_eq!(
        start_bind(&vec![text("0.0.0.0:70000")]),
        refused(ErrorKind::Bind, "address is not of the form host:port")
    );
}

#[test]
fn parse_json_takes_one_text() {
    assert_eq!(parse_json(&vec![text("null")]), Ok(DynValue::Nil));
    assert_eq!(
        parse_json(&vec![text("[true]")]),
        Ok(DynValue::Table(vec![(DynKey::Index(1), DynValue::Boolean(true))]))
    );
    assert_eq!(parse_json(&vec![text("{")]), refused(ErrorKind::Decode, "Unexpected end of JSON"));
    assert_eq!(parse_json(&vec![]), refused(ErrorKind::Type, "one text argument expected"));
    assert_eq!(
        parse_json(&vec![DynValue::Nil]),
        refused(ErrorKind::Type, "one text argument expected")
    );
}

#[test]
fn calls_on_a_stream_start_its_operations() {
    let mut stream = Handle::stream();
    assert_eq!(start_call(&mut stream, EntryPoint::Read, &vec![]), Ok(Action::Read(4096)));
    assert_eq!(
        start_call(&mut stream, EntryPoint::Write, &vec![text("hi")]),
        Ok(Action::Send(vec![b'h', b'i']))
    );
    assert_eq!(
        start_call(&mut stream, EntryPoint::SetTimeout, &vec![number(true, 2, 0)]),
        Ok(Action::SetReadTimeout(Some(2)))
    );
    assert_eq!(
        start_call(&mut stream, EntryPoint::SetTimeout, &vec![DynValue::Integer(3)]),
        Ok(Action::SetReadTimeout(Some(3)))
    );
    assert_eq!(
        start_call(&mut stream, EntryPoint::SetTimeout, &vec![]),
        Ok(Action::SetReadTimeout(None))
    );
    assert_eq!(
        start_call(&mut stream, EntryPoint::Accept, &vec![]),
        refused(ErrorKind::State, "handle is not a listener")
    );
    assert!(stream.is_open());
    assert_eq!(start_call(&mut stream, EntryPoint::Close, &vec![]), Ok(Action::ShutDown));
    assert!(!stream.is_open());
    assert_eq!(
        start_call(&mut stream, EntryPoint::Close, &vec![]),
        refused(ErrorKind::State, "handle is closed")
    );
    assert_eq!(
        start_call(&mut stream, EntryPoint::Read, &vec![]),
        refused(ErrorKind::State, "handle is closed")
    );
}

#[test]
fn calls_on_a_listener_start_its_operations() {
    let mut listener = Handle::listener();
    assert_eq!(start_call(&mut listener, EntryPoint::Accept, &vec![]), Ok(Action::Accept));
    assert_eq!(
        start_call(&mut listener, EntryPoint::Read, &vec![]),
        refused(ErrorKind::State, "handle is not a stream")
    );
    assert_eq!(start_call(&mut listener, EntryPoint::Close, &vec![]), Ok(Action::StopListening));
    assert_eq!(
        start_call(&mut listener, EntryPoint::Accept, &vec![]),
        refused(ErrorKind::State, "handle is closed")
    );
}

#[test]
fn calls_check_arguments_before_the_handle() {
    let mut stream = Handle::stream();
    assert_eq!(
        start_call(&mut stream, EntryPoint::Close, &vec![DynValue::Nil]),
        refused(ErrorKind::Type, "no argument expected")
    );
    assert!(stream.is_open());
    assert_eq!(
        start_call(&mut stream, EntryPoint::Write, &vec![]),
        refused(ErrorKind::Type, "one text argument expected")
    );
    assert_eq!(
        start_call(&mut stream, EntryPoint::SetTimeout, &vec![number(true, 5, -1)]),
        refused(ErrorKind::Type, "a whole number of seconds expected")
    );
    stream.close().unwrap();
    assert_eq!(
        start_call(&mut stream, EntryPoint::Read, &vec![text("x")]),
        refused(ErrorKind::Type, "no argument expected")
    );
}

#[test]
fn calls_of_other_entry_points_are_refused_on_a_handle() {
    let message = "no such entry point on this receiver";
    for entry in [
        EntryPoint::Open,
        EntryPoint::Bind,
        EntryPoint::ParseJson,
        EntryPoint::Ip,
        EntryPoint::Port,
    ] {
        let mut stream = Handle::stream();
        assert_eq!(start_call(&mut stream, entry, &vec![]), refused(ErrorKind::Type, message));
        assert!(stream.is_open());
    }
}

#[test]
fn calls_on_an_address_answer_ip_and_port() {
    let address = SocketAddress::new("10.1.2.3".to_string(), 4711);
    assert_eq!(answer_address(&address, EntryPoint::Ip, &vec![]), Ok(text("10.1.2.3")));
    assert_eq!(answer_address(&address, EntryPoint::Port, &vec![]), Ok(DynValue::Integer(4711)));
    let highest = SocketAddress::new("::1".to_string(), 65535);
    assert_eq!(answer_address(&highest, EntryPoint::Port, &vec![]), Ok(DynValue::Integer(65535)));
    let lowest = SocketAddress::new("::1".to_string(), 0);
    assert_eq!(answer_address(&lowest, EntryPoint::Port, &vec![]), Ok(DynValue::Integer(0)));
    assert_eq!(
        answer_address(&address, EntryPoint::Port, &vec![DynValue::Nil]),
        refused(ErrorKind::Type, "no argument expected")
    );
    assert_eq!(
        answer_address(&address, EntryPoint::Read, &vec![]),
        refused(ErrorKind::Type, "no such entry point on this receiver")
    );
}
