use lamport_chat::server::{frame_line, is_blank, is_whitespace, Delivery, Registry};

struct MockStream {
    addr: String,
    buffer: Vec<u8>,
}

fn perform(clients: &mut [MockStream], deliveries: &[Delivery]) {
    for delivery in deliveries {
        clients[delivery.handle]
            .buffer
            .extend_from_slice(delivery.line.as_bytes());
    }
}

fn connect(registry: &mut Registry, clients: &mut Vec<MockStream>, addr: &str) -> usize {
    clients.push(MockStream {
        addr: addr.to_string(),
        buffer: Vec::new(),
    });
    registry.register(addr.to_string())
}

#[test]
fn test_broadcast() {
    const MESSAGE: &str = "Hello World!";
    const SENDER_ADDRESS: &str = "127.0.0.1:8080";
    const CLIENT_ADDRESS: &str = "127.0.0.1:8081";

    let mut registry = Registry::new();
    let mut clients = Vec::new();
    connect(&mut registry, &mut clients, CLIENT_ADDRESS);

    let deliveries = registry.broadcast(MESSAGE, SENDER_ADDRESS);
    perform(&mut clients, &deliveries);

    let data = String::from_utf8(clients[0].buffer.clone()).unwrap();
    assert_eq!(data.trim(), MESSAGE);
}

#[test]
fn registry_hands_out_handles_in_order() {
    let mut registry = Registry::new();
    assert_eq!(registry.len(), 0);
    assert_eq!(registry.identity(0), None);
    assert_eq!(registry.register("a:1".to_string()), 0);
    assert_eq!(registry.register("b:2".to_string()), 1);
    assert_eq!(registry.register("a:1".to_string()), 2);
    assert_eq!(registry.len(), 3);
    assert_eq!(registry.identity(0), Some("a:1"));
    assert_eq!(registry.identity(1), Some("b:2"));
    assert_eq!(registry.identity(2), Some("a:1"));
    assert_eq!(registry.identity(3), None);
}

#[test]
fn broadcast_leaves_the_sender_out() {
    let mut registry = Registry::new();
    let mut clients = Vec::new();
    let s = connect(&mut registry, &mut clients, "S");
    let c1 = connect(&mut registry, &mut clients, "C1");
    let c2 = connect(&mut registry, &mut clients, "C2");

    let deliveries = registry.broadcast("ping", "S");
    let handles: Vec<usize> = deliveries.iter().map(|d| d.handle).collect();
    assert_eq!(handles, vec![c1, c2]);
    perform(&mut clients, &deliveries);

    assert_eq!(clients[s].addr, "S");
    assert!(clients[s].buffer.is_empty());
    assert_eq!(clients[c1].buffer, b"ping\n");
    assert_eq!(clients[c2].buffer, b"ping\n");
}

#[test]
fn broadcast_reaches_every_other_peer_byte_for_byte() {
    let message = "{\"content\":\"h\u{00e9}llo \\\"x\\\"\",\"node_id\":\"A\",\"time\":1}";
    let mut registry = Registry::new();
    let mut clients = Vec::new();
    for port in 0..10 {
        connect(&mut registry, &mut clients, &format!("10.0.0.1:{}", port));
    }

    let deliveries = registry.broadcast(message, "10.0.0.1:4");
    assert_eq!(deliveries.len(), 9);
    perform(&mut clients, &deliveries);

    let mut expected = message.as_bytes().to_vec();
    expected.push(b'\n');
    for (handle, client) in clients.iter().enumerate() {
        if handle == 4 {
            assert!(client.buffer.is_empty());
        } else {
            assert_eq!(client.buffer, expected);
        }
    }
}

#[test]
fn broadcast_from_a_stranger_reaches_everyone() {
    let mut registry = Registry::new();
    registry.register("a".to_string());
    registry.register("b".to_string());
    let deliveries = registry.broadcast("x", "nobody");
    let handles: Vec<usize> = deliveries.iter().map(|d| d.handle).collect();
    assert_eq!(handles, vec![0, 1]);
}

#[test]
fn broadcast_skips_every_handle_of_the_sender() {
    let mut registry = Registry::new();
    for identity in ["s", "a", "s", "b", "s"] {
        registry.register(identity.to_string());
    }
    let deliveries = registry.broadcast("x", "s");
    let handles: Vec<usize> = deliveries.iter().map(|d| d.handle).collect();
    assert_eq!(handles, vec![1, 3]);
    for delivery in &deliveries {
        assert_eq!(delivery.line, "x\n");
    }
}

#[test]
fn broadcast_on_an_empty_registry_writes_nothing() {
    let registry = Registry::new();
    assert!(registry.broadcast("x", "s").is_empty());
    assert!(registry.relay_line("x", "s").is_empty());
}

#[test]
fn broadcast_does_not_change_the_registry() {
    let mut registry = Registry::new();
    registry.register("a".to_string());
    registry.register("b".to_string());
    registry.broadcast("x", "a");
    registry.relay_line("y", "b");
    assert_eq!(registry.len(), 2);
    assert_eq!(registry.identity(0), Some("a"));
    assert_eq!(registry.identity(1), Some("b"));
}

#[test]
fn empty_line_produces_no_broadcast() {
    let mut registry = Registry::new();
    registry.register("a".to_string());
    registry.register("b".to_string());
    assert!(registry.relay_line("", "a").is_empty());
    assert!(registry.relay_line("   ", "a").is_empty());
    assert!(registry.relay_line("\t\r", "a").is_empty());
    assert!(registry.relay_line("\u{3000}\u{a0}", "a").is_empty());
}

#[test]
fn any_other_line_is_relayed_as_it_came() {
    let mut registry = Registry::new();
    registry.register("a".to_string());
    registry.register("b".to_string());
    for line in ["{\"content\":\"x\",\"node_id\":\"A\",\"time\":1}", "  padded  ", "not json"] {
        let deliveries = registry.relay_line(line, "a");
        assert_eq!(deliveries.len(), 1);
        assert_eq!(deliveries[0].handle, 1);
        assert_eq!(deliveries[0].line, format!("{}\n", line));
    }
}

#[test]
fn frame_line_appends_one_terminator() {
    assert_eq!(frame_line(""), "\n");
    assert_eq!(frame_line("abc"), "abc\n");
    assert_eq!(frame_line("a\nb"), "a\nb\n");
    assert_eq!(frame_line("caf\u{e9}").as_bytes(), b"caf\xc3\xa9\n");
}

#[test]
fn is_blank_on_named_cases() {
    assert!(is_blank(""));
    assert!(is_blank(" "));
    assert!(is_blank(" \t\n\r\u{b}\u{c}"));
    assert!(is_blank("\u{85}\u{1680}\u{2000}\u{200a}\u{2028}\u{2029}\u{202f}\u{205f}"));
    assert!(!is_blank("a"));
    assert!(!is_blank("  a  "));
    assert!(!is_blank("\u{200b}"));
    assert!(!is_blank("\u{feff}"));
    assert!(!is_blank("\0"));
}

#[test]
fn white_space_is_what_trimming_removes() {
    let mut spaces = 0;
    for code in 0..=0x10FFFFu32 {
        if let Some(c) = char::from_u32(code) {
            let mut text = String::new();
            text.push(c);
            let expected = text.trim().is_empty();
            assert_eq!(is_whitespace(c), expected);
            assert_eq!(is_whitespace(c), c.is_whitespace());
            if expected {
                assert!(is_blank(&text));
                spaces += 1;
            }
        }
    }
    assert_eq!(spaces, 25);
}
