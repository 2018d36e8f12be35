use lsock::error::{ErrorKind, Failure};

#[test]
fn every_kind_has_its_tag() {
    assert_eq!(ErrorKind::Connect.tag(), "CONNECT");
    assert_eq!(ErrorKind::Bind.tag(), "BIND");
    assert_eq!(ErrorKind::Accept.tag(), "ACCEPT");
    assert_eq!(ErrorKind::Io.tag(), "IO");
    assert_eq!(ErrorKind::Timeout.tag(), "TIMEOUT");
    assert_eq!(ErrorKind::Decode.tag(), "DECODE");
    assert_eq!(ErrorKind::TooDeep.tag(), "STRUCTURE-TOO-DEEP");
    assert_eq!(ErrorKind::Type.tag(), "TYPE");
    assert_eq!(ErrorKind::State.tag(), "STATE");
}

#[test]
fn failure_new_keeps_kind_and_message() {
    let failure = Failure::new(ErrorKind::State, "handle is closed");
    assert_eq!(failure.kind, ErrorKind::State);
    assert_eq!(failure.message, "handle is closed");
}

#[test]
fn failure_renders_tag_colon_message() {
    assert_eq!(Failure::new(ErrorKind::State, "handle is closed").render(), "STATE: handle is closed");
    assert_eq!(Failure::new(ErrorKind::Timeout, "").render(), "TIMEOUT: ");
    assert_eq!(
        Failure::new(ErrorKind::TooDeep, "value nests deeper than 1000 levels").render(),
        "STRUCTURE-TOO-DEEP: value nests deeper than 1000 levels"
    );
}
