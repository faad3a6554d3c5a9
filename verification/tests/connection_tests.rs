use havokmud::connection::{Connection, RxStep, TxStep, UserMessage};
use havokmud::endpoint::Endpoint;
use havokmud::server::NetworkMessage;
use havokmud::template::{jinja_process, TemplateVar, TemplateVars};

fn peer() -> Endpoint {
    Endpoint { ip: 0x0000_0000_0000_0000_0000_ffff_7f00_0001, port: 4000, scope_id: 0 }
}

fn var(name: &str, value: &str) -> TemplateVar {
    TemplateVar { name: name.to_string(), value: value.to_string() }
}

fn table(vars: Vec<TemplateVar>) -> TemplateVars {
    TemplateVars::from_vec(vars)
}

fn inbound(data: &[u8]) -> NetworkMessage {
    NetworkMessage { dest: peer(), data: data.to_vec() }
}

fn line_texts(step: &RxStep) -> Vec<String> {
    step.lines.iter().map(|line| line.string.clone()).collect()
}

#[test]
fn new_connection_defaults() {
    let connection = Connection::new(peer());
    assert_eq!(connection.addr, peer());
    assert!(connection.ansi_mode);
    assert!(!connection.disconnected);
    assert!(!connection.started);
    assert!(connection.pending.is_empty());
    assert_eq!(connection.incoming_buffer.len(), 0);
}

#[test]
fn start_processing_is_idempotent() {
    let mut connection = Connection::new(peer());
    assert!(connection.start_processing());
    assert!(connection.started);
    assert!(!connection.start_processing());
    assert!(connection.started);
}

#[test]
fn send_raw_passes_bytes() {
    let connection = Connection::new(peer());
    let message = connection.send_raw(&[1, 2, 0xFF]);
    assert_eq!(message.dest, peer());
    assert_eq!(message.data, vec![1, 2, 0xFF]);
}

#[test]
fn set_echo_sends_will_or_wont() {
    let connection = Connection::new(peer());
    assert_eq!(connection.set_echo(true).data, vec![0xFF, 0xFB, 0x01]);
    assert_eq!(connection.set_echo(false).data, vec![0xFF, 0xFC, 0x01]);
    assert_eq!(connection.set_echo(true).dest, peer());
}

#[test]
fn send_string_compiles_for_the_ansi_mode() {
    let mut connection = Connection::new(peer());
    assert_eq!(
        connection.send_string("$c0001hot".to_string()).data,
        b"\x1b[40;31mhot\x1b[0m".to_vec()
    );
    connection.ansi_mode = false;
    assert_eq!(connection.send_string("$c0001hot".to_string()).data, b"hot".to_vec());
}

#[test]
fn send_line_adds_the_line_end() {
    let mut connection = Connection::new(peer());
    assert_eq!(
        connection.send_line("$c0001hot".to_string()).data,
        b"\x1b[40;31mhot\x1b[0m\r\n".to_vec()
    );
    connection.ansi_mode = false;
    assert_eq!(connection.send_line("bye".to_string()).data, b"bye\r\n".to_vec());
    assert_eq!(connection.send_line(String::new()).data, b"\r\n".to_vec());
}

#[test]
fn disconnect_sends_farewell_then_sentinel() {
    let mut connection = Connection::new(peer());
    connection.ansi_mode = false;
    let out = connection.disconnect("Server shutting down".to_string());
    assert!(connection.disconnected);
    assert_eq!(out.len(), 2);
    assert_eq!(out[0].dest, peer());
    assert_eq!(out[0].data, b"Server shutting down\r\n".to_vec());
    assert_eq!(out[1].dest, peer());
    assert!(out[1].data.is_empty());
    assert!(out[1].is_disconnect());
}

#[test]
fn disconnect_without_reason_sends_sentinel_only() {
    let mut connection = Connection::new(peer());
    let out = connection.disconnect(String::new());
    assert!(connection.disconnected);
    assert_eq!(out.len(), 1);
    assert_eq!(out[0].dest, peer());
    assert!(out[0].data.is_empty());
}

#[test]
fn user_message_presentations() {
    assert!(UserMessage::disconnect().is_disconnect());
    assert!(!UserMessage::from_bytes(vec![1]).is_disconnect());
    assert!(!UserMessage::from_string("x".to_string()).is_disconnect());
    assert!(!UserMessage::from_template(TemplateVars::new()).is_disconnect());
    assert!(UserMessage::from_bytes(Vec::new()).is_disconnect());
    assert!(UserMessage::from_string(String::new()).is_disconnect());
    let message = UserMessage::from_template(table(vec![var("template", "x")]));
    assert!(message.bytes.is_empty() && message.string.is_empty());
    assert_eq!(message.jinja.map(|vars| vars.len()), Some(1));
}

#[test]
fn transmit_stops_on_the_sentinel() {
    let mut connection = Connection::new(peer());
    match connection.transmit(&UserMessage::disconnect()) {
        TxStep::Stop(message) => {
            assert_eq!(message.dest, peer());
            assert!(message.is_disconnect());
        }
        TxStep::Send(_) => panic!("the writer must stop"),
    }
    assert!(connection.disconnected);
}

#[test]
fn transmit_passes_raw_bytes() {
    let mut connection = Connection::new(peer());
    match connection.transmit(&UserMessage::from_bytes(b"$c0001raw".to_vec())) {
        TxStep::Send(message) => {
            assert_eq!(message.dest, peer());
            assert_eq!(message.data, b"$c0001raw".to_vec());
        }
        TxStep::Stop(_) => panic!("raw bytes must be sent"),
    }
}

#[test]
fn transmit_compiles_text() {
    let mut connection = Connection::new(peer());
    match connection.transmit(&UserMessage::from_string("$c0002ok".to_string())) {
        TxStep::Send(message) => assert_eq!(message.data, b"\x1b[40;32mok\x1b[0m".to_vec()),
        TxStep::Stop(_) => panic!("text must be sent"),
    }
}

#[test]
fn transmit_prefers_bytes_over_text() {
    let mut connection = Connection::new(peer());
    let message = UserMessage { bytes: b"raw".to_vec(), string: "text".to_string(), jinja: None };
    match connection.transmit(&message) {
        TxStep::Send(message) => assert_eq!(message.data, b"raw".to_vec()),
        TxStep::Stop(_) => panic!("bytes must be sent"),
    }
}

#[test]
fn transmit_renders_a_template() {
    let mut connection = Connection::new(peer());
    connection.ansi_mode = false;
    let message = UserMessage::from_template(table(vec![
        var("name", "Bob"),
        var("template", "Hello {{ jinjamap.name }}, $c0001welcome"),
    ]));
    match connection.transmit(&message) {
        TxStep::Send(message) => assert_eq!(message.data, b"Hello Bob, welcome".to_vec()),
        TxStep::Stop(_) => panic!("a template must be sent"),
    }
}

#[test]
fn jinja_process_renders_with_the_other_variables() {
    let vars = table(vec![
        var("template", "{{ jinjamap.a }}-{{ jinjamap.b }}"),
        var("a", "1"),
        var("b", "2"),
    ]);
    assert_eq!(jinja_process(&vars), "1-2");
    // The template variable itself is not among those that the template sees.
    let vars = table(vec![var("template", "[{{ jinjamap.template }}]"), var("a", "1")]);
    assert_eq!(jinja_process(&vars), "[]");
}

#[test]
fn jinja_process_without_template_is_empty() {
    assert_eq!(jinja_process(&TemplateVars::new()), "");
    assert_eq!(jinja_process(&table(vec![var("name", "Bob")])), "");
    assert_eq!(jinja_process(&table(vec![var("template", ""), var("name", "Bob")])), "");
}

#[test]
fn later_value_of_a_name_takes_the_place_of_the_former() {
    let vars = table(vec![
        var("template", "one"),
        var("a", "1"),
        var("template", "two {{ jinjamap.a }}"),
    ]);
    assert_eq!(vars.len(), 2);
    assert_eq!(jinja_process(&vars), "two 1");
}

#[test]
fn template_variables_are_a_table() {
    let mut vars = TemplateVars::new();
    assert_eq!(vars.len(), 0);
    assert_eq!(vars.insert("a".to_string(), "1".to_string()), None);
    assert_eq!(vars.insert("b".to_string(), "2".to_string()), None);
    assert_eq!(vars.insert("a".to_string(), "3".to_string()), Some("1".to_string()));
    assert_eq!(vars.len(), 2);
    assert_eq!(vars.get(&"a".to_string()), Some(&"3".to_string()));
    assert_eq!(vars.get(&"b".to_string()), Some(&"2".to_string()));
    assert_eq!(vars.get(&"c".to_string()), None);
    let names: Vec<&str> = vars.vars().iter().map(|var| var.name.as_str()).collect();
    assert_eq!(names, vec!["a", "b"]);
    let copy = vars.clone();
    assert_eq!(copy.len(), 2);
    assert_eq!(copy.get(&"a".to_string()), Some(&"3".to_string()));
}

#[test]
fn jinja_process_error_is_empty() {
    assert_eq!(jinja_process(&table(vec![var("template", "{{ unclosed")])), "");
    assert_eq!(jinja_process(&table(vec![var("template", "{% for %}")])), "");
}

#[test]
fn transmit_all_keeps_the_order() {
    let mut connection = Connection::new(peer());
    connection.ansi_mode = false;
    let queue = vec![
        UserMessage::from_string("one ".to_string()),
        UserMessage::from_bytes(b"two ".to_vec()),
        UserMessage::from_template(table(vec![var("template", "three")])),
    ];
    let (out, stopped) = connection.transmit_all(&queue);
    assert!(!stopped);
    assert!(!connection.disconnected);
    assert_eq!(out.len(), 3);
    let total: Vec<u8> = out.iter().flat_map(|message| message.data.clone()).collect();
    assert_eq!(total, b"one two three".to_vec());
    assert!(out.iter().all(|message| message.dest == peer()));
}

#[test]
fn transmit_all_stops_at_the_sentinel() {
    let mut connection = Connection::new(peer());
    connection.ansi_mode = false;
    let queue = vec![
        UserMessage::from_string("kept".to_string()),
        UserMessage::disconnect(),
        UserMessage::from_string("lost".to_string()),
    ];
    let (out, stopped) = connection.transmit_all(&queue);
    assert!(stopped);
    assert!(connection.disconnected);
    assert_eq!(out.len(), 2);
    assert_eq!(out[0].data, b"kept".to_vec());
    assert_eq!(out[1].dest, peer());
    assert!(out[1].is_disconnect());
}

#[test]
fn negotiation_is_stripped_from_a_received_line() {
    let mut connection = Connection::new(peer());
    let step = connection.receive(&inbound(b"\xFF\xFB\x01hi\r\n"));
    assert!(!step.stop);
    assert!(step.outbound.is_empty());
    assert_eq!(step.lines.len(), 1);
    assert_eq!(step.lines[0].string, "hi");
    assert!(step.lines[0].bytes.is_empty());
    assert!(step.lines[0].jinja.is_none());
}

#[test]
fn backspace_is_applied_to_a_received_line() {
    let mut connection = Connection::new(peer());
    let step = connection.receive(&inbound(b"abc\x08d\r\n"));
    assert_eq!(line_texts(&step), vec!["abd".to_string()]);
}

#[test]
fn iac_iac_reaches_the_framer_as_one_byte() {
    let mut connection = Connection::new(peer());
    let step = connection.receive(&inbound(b"a\xFF\xFFb"));
    assert!(step.lines.is_empty());
    assert_eq!(connection.incoming_buffer.residual(), b"a\xFFb");
    let step = connection.receive(&inbound(b"\r\n"));
    assert_eq!(line_texts(&step), vec!["a\u{fffd}b".to_string()]);
}

#[test]
fn receive_holds_a_cut_command_back() {
    let mut connection = Connection::new(peer());
    let step = connection.receive(&inbound(b"he\xFF"));
    assert!(step.lines.is_empty());
    assert_eq!(connection.pending, vec![0xFF]);
    assert_eq!(connection.incoming_buffer.residual(), b"he");
    let step = connection.receive(&inbound(b"\xFD"));
    assert!(step.lines.is_empty());
    assert_eq!(connection.pending, vec![0xFF, 0xFD]);
    let step = connection.receive(&inbound(b"\x03llo\r\nnext"));
    assert_eq!(line_texts(&step), vec!["hello".to_string()]);
    assert!(connection.pending.is_empty());
    assert_eq!(connection.incoming_buffer.residual(), b"next");
}

#[test]
fn receive_emits_every_complete_line() {
    let mut connection = Connection::new(peer());
    let step = connection.receive(&inbound(b"north\r\n\r\nsay h\xc3\xa9\r\nhalf"));
    assert_eq!(
        line_texts(&step),
        vec!["north".to_string(), String::new(), "say h\u{e9}".to_string()]
    );
    assert!(step.lines.iter().all(|line| line.bytes.is_empty() && line.jinja.is_none()));
    assert!(step.lines[1].is_disconnect());
    assert_eq!(connection.incoming_buffer.residual(), b"half");
}

#[test]
fn receive_of_the_sentinel_disconnects() {
    let mut connection = Connection::new(peer());
    connection.receive(&inbound(b"unfinished"));
    let step = connection.receive(&inbound(b""));
    assert!(step.stop);
    assert!(step.lines.is_empty());
    assert_eq!(step.outbound.len(), 1);
    assert_eq!(step.outbound[0].dest, peer());
    assert!(step.outbound[0].is_disconnect());
    assert!(connection.disconnected);
    assert_eq!(connection.incoming_buffer.residual(), b"unfinished");
}

#[test]
fn clone_keeps_the_session() {
    let mut connection = Connection::new(peer());
    connection.start_processing();
    connection.ansi_mode = false;
    let copy = connection.clone();
    assert_eq!(copy.addr, peer());
    assert!(copy.started);
    assert!(!copy.ansi_mode);
    assert!(!copy.disconnected);
}

#[test]
fn lines_do_not_depend_on_the_chunks() {
    let stream = b"look\r\n\r\nsay hello\r\nget all\r\nhalf a li";
    for first in 0..=stream.len() {
        for second in first..=stream.len() {
            let mut connection = Connection::new(peer());
            let mut texts: Vec<String> = Vec::new();
            for chunk in [&stream[..first], &stream[first..second], &stream[second..]] {
                if !chunk.is_empty() {
                    texts.extend(line_texts(&connection.receive(&inbound(chunk))));
                }
            }
            assert_eq!(texts, vec!["look", "", "say hello", "get all"]);
            assert_eq!(connection.incoming_buffer.residual(), b"half a li");
            assert!(connection.pending.is_empty());
        }
    }
}
