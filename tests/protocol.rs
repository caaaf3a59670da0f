use tcpline_trigger::connection::{ConnAction, ConnEvent, Connection, ConnectionError};
use tcpline_trigger::listener::{
    BindError, Listener, ListenerAction, ListenerError, ListenerEvent, ListenerPhase,
};

fn invoked(a: ConnAction) -> (String, String) {
    match a {
        ConnAction::Invoke { component_id, line } => (component_id, line),
        _ => panic!("expected a guest call"),
    }
}

fn written(a: ConnAction) -> Vec<u8> {
    match a {
        ConnAction::Write(b) => b,
        _ => panic!("expected a write"),
    }
}

fn closed_with(a: ConnAction) -> Result<(), ConnectionError> {
    match a {
        ConnAction::Close(r) => r,
        _ => panic!("expected the connection to close"),
    }
}

fn is_read(a: &ConnAction) -> bool {
    matches!(a, ConnAction::Read)
}

#[test]
fn line_is_answered_and_connection_closes() {
    let mut c = Connection::new("echo".to_string());
    let (component, line) = invoked(c.step(ConnEvent::Data(b"ping\n".to_vec())));
    assert_eq!(component, "echo");
    assert_eq!(line, "ping");
    let bytes = written(c.step(ConnEvent::Reply("ping\n".to_string())));
    assert_eq!(bytes, b"ping\n".to_vec());
    assert_eq!(closed_with(c.step(ConnEvent::Written)), Ok(()));
    assert!(c.is_closed());
}

#[test]
fn line_split_over_several_reads() {
    let mut c = Connection::new("echo".to_string());
    assert!(is_read(&c.step(ConnEvent::Data(b"he".to_vec()))));
    assert!(is_read(&c.step(ConnEvent::Data(Vec::new()))));
    assert!(is_read(&c.step(ConnEvent::Data(b"llo wor".to_vec()))));
    let (_, line) = invoked(c.step(ConnEvent::Data(b"ld\nignored\n".to_vec())));
    assert_eq!(line, "hello world");
}

#[test]
fn bytes_after_the_first_newline_are_ignored() {
    let mut c = Connection::new("c".to_string());
    let (_, line) = invoked(c.step(ConnEvent::Data(b"first\nsecond\n".to_vec())));
    assert_eq!(line, "first");
}

#[test]
fn empty_line_is_a_request() {
    let mut c = Connection::new("c".to_string());
    let (_, line) = invoked(c.step(ConnEvent::Data(b"\n".to_vec())));
    assert_eq!(line, "");
}

#[test]
fn carriage_return_stays_in_the_line() {
    let mut c = Connection::new("c".to_string());
    let (_, line) = invoked(c.step(ConnEvent::Data(b"ping\r\n".to_vec())));
    assert_eq!(line, "ping\r");
}

#[test]
fn non_ascii_line_is_decoded() {
    let mut c = Connection::new("c".to_string());
    let (_, line) = invoked(c.step(ConnEvent::Data("h\u{e9}llo\n".as_bytes().to_vec())));
    assert_eq!(line, "h\u{e9}llo");
    let bytes = written(c.step(ConnEvent::Reply("\u{a1}s\u{ed}!".to_string())));
    assert_eq!(bytes, "\u{a1}s\u{ed}!".as_bytes().to_vec());
}

#[test]
fn invalid_utf8_line_is_refused() {
    let mut c = Connection::new("c".to_string());
    let a = c.step(ConnEvent::Data(vec![0x66, 0xff, 0x6f, 10]));
    assert_eq!(closed_with(a), Err(ConnectionError::InvalidText));
    assert!(c.is_closed());
}

#[test]
fn unterminated_request_gets_no_answer() {
    let mut c = Connection::new("c".to_string());
    assert!(is_read(&c.step(ConnEvent::Data(b"no newline here".to_vec()))));
    let a = c.step(ConnEvent::EndOfStream);
    assert_eq!(closed_with(a), Err(ConnectionError::IncompleteRequest));
    // the listener keeps accepting, and the next connection is served
    let mut l = Listener {
        component_id: "c".to_string(),
        address: "127.0.0.1:9001".to_string(),
        phase: ListenerPhase::Accepting,
    };
    assert!(matches!(l.step(ListenerEvent::Accepted), ListenerAction::Serve));
    assert_eq!(l.phase, ListenerPhase::Accepting);
    let mut next = Connection::new("c".to_string());
    let (_, line) = invoked(next.step(ConnEvent::Data(b"again\n".to_vec())));
    assert_eq!(line, "again");
}

#[test]
fn read_failure_closes() {
    let mut c = Connection::new("c".to_string());
    assert_eq!(closed_with(c.step(ConnEvent::ReadFailed)), Err(ConnectionError::Io));
}

#[test]
fn failed_guest_call_writes_nothing() {
    let mut c = Connection::new("c".to_string());
    invoked(c.step(ConnEvent::Data(b"boom\n".to_vec())));
    let a = c.step(ConnEvent::InvokeFailed);
    assert_eq!(closed_with(a), Err(ConnectionError::Invocation));
    let mut next = Connection::new("c".to_string());
    invoked(next.step(ConnEvent::Data(b"fine\n".to_vec())));
    assert_eq!(written(next.step(ConnEvent::Reply("ok".to_string()))), b"ok".to_vec());
}

#[test]
fn failed_write_closes_with_io_error() {
    let mut c = Connection::new("c".to_string());
    invoked(c.step(ConnEvent::Data(b"x\n".to_vec())));
    written(c.step(ConnEvent::Reply("y".to_string())));
    assert_eq!(closed_with(c.step(ConnEvent::WriteFailed)), Err(ConnectionError::Io));
}

#[test]
fn event_out_of_order_closes() {
    let mut c = Connection::new("c".to_string());
    let a = c.step(ConnEvent::Reply("early".to_string()));
    assert_eq!(closed_with(a), Err(ConnectionError::OutOfOrder));
    let a = c.step(ConnEvent::Data(b"late\n".to_vec()));
    assert_eq!(closed_with(a), Err(ConnectionError::OutOfOrder));
}

#[test]
fn concurrent_connections_keep_their_own_answers() {
    let mut slow = Connection::new("echo".to_string());
    let mut fast = Connection::new("echo".to_string());
    assert!(is_read(&slow.step(ConnEvent::Data(b"sl".to_vec()))));
    let (_, fast_line) = invoked(fast.step(ConnEvent::Data(b"fast\n".to_vec())));
    let (_, slow_line) = invoked(slow.step(ConnEvent::Data(b"ow\n".to_vec())));
    assert_eq!(fast_line, "fast");
    assert_eq!(slow_line, "slow");
    // the fast call returns first
    assert_eq!(written(fast.step(ConnEvent::Reply("fast!".to_string()))), b"fast!".to_vec());
    assert_eq!(written(slow.step(ConnEvent::Reply("slow!".to_string()))), b"slow!".to_vec());
}

#[test]
fn listener_binds_then_serves() {
    let mut l = Listener {
        component_id: "c".to_string(),
        address: "127.0.0.1:9001".to_string(),
        phase: ListenerPhase::Binding,
    };
    assert!(matches!(l.step(ListenerEvent::Accepted), ListenerAction::Bind));
    assert!(matches!(l.step(ListenerEvent::Bound), ListenerAction::Accept));
    assert!(matches!(l.step(ListenerEvent::AcceptFailed), ListenerAction::Accept));
    assert!(matches!(l.step(ListenerEvent::Accepted), ListenerAction::Serve));
    assert_eq!(l.phase, ListenerPhase::Accepting);
}

#[test]
fn listener_bind_failure_ends_the_loop() {
    let mut l = Listener {
        component_id: "c".to_string(),
        address: "127.0.0.1:9001".to_string(),
        phase: ListenerPhase::Binding,
    };
    let a = l.step(ListenerEvent::BindFailed(BindError::AddressInUse));
    assert!(matches!(a, ListenerAction::Exit(ListenerError::Bind(BindError::AddressInUse))));
    let a = l.step(ListenerEvent::Accepted);
    assert!(matches!(a, ListenerAction::Exit(ListenerError::Bind(BindError::AddressInUse))));
    assert_eq!(l.phase, ListenerPhase::Failed(BindError::AddressInUse));
}
