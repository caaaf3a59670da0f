use tcpline_trigger::connection::{ConnAction, ConnEvent, Connection};
use tcpline_trigger::executor::Executor;
use tcpline_trigger::config::{RawField, RawValue};
use tcpline_trigger::guest::{greet, parse_command, Command};

#[test]
fn lines_map_to_commands() {
    assert_eq!(parse_command("tell me about cats"), Command::CatFact);
    assert_eq!(parse_command("hotdog"), Command::DogFact);
    assert_eq!(parse_command("dog or cat"), Command::CatFact);
    assert_eq!(parse_command("c a t"), Command::Unknown);
    assert_eq!(parse_command(""), Command::Unknown);
}

#[test]
fn fact_commands_fetch_from_their_category() {
    assert_eq!(Command::CatFact.category(), Some("animal/cat"));
    assert_eq!(
        Command::DogFact.fact_url(),
        Some("https://some-random-api.ml/animal/dog".to_string())
    );
    assert_eq!(Command::Unknown.fact_url(), None);
}

#[test]
fn fact_answers_end_with_a_newline() {
    assert_eq!(Command::CatFact.run("Cats sleep a lot."), "Cats sleep a lot.\n");
    assert_eq!(Command::Unknown.run("ignored"), "You have chosen... unwisely.\n");
}

#[test]
fn plain_guest_greets() {
    assert_eq!(greet("anything"), "\u{a1}HOLA FROM BARCELONA!\n");
}

fn component(name: &str, port: i64) -> Vec<RawField> {
    vec![
        RawField { key: "component".to_string(), value: RawValue::Text(name.to_string()) },
        RawField { key: "port".to_string(), value: RawValue::Integer(port) },
    ]
}

fn answer(c: &mut Connection, request: &[u8]) -> Vec<u8> {
    let (component_id, line) = match c.step(ConnEvent::Data(request.to_vec())) {
        ConnAction::Invoke { component_id, line } => (component_id, line),
        _ => panic!("expected a guest call"),
    };
    let reply = if component_id == "echo" { line } else { line.chars().rev().collect() };
    match c.step(ConnEvent::Reply(reply)) {
        ConnAction::Write(b) => b,
        _ => panic!("expected a write"),
    }
}

#[test]
fn echo_and_reverse_components_answer_independently() {
    let ex = Executor::from_entries(&vec![component("echo", 9001), component("reverse", 9002)])
        .unwrap();
    let ls = ex.listeners("127.0.0.1");
    assert_eq!(ls[0].address, "127.0.0.1:9001");
    assert_eq!(ls[1].address, "127.0.0.1:9002");
    let mut on_echo = Connection::new(ls[0].component_id.clone());
    let mut on_reverse = Connection::new(ls[1].component_id.clone());
    assert_eq!(answer(&mut on_reverse, b"pong\n"), b"gnop".to_vec());
    assert_eq!(answer(&mut on_echo, b"ping\n"), b"ping".to_vec());
}
