use runner::wire::{client_message, decode_message, encode_message, find_payload, SEPARATOR, TERMINATOR};
use runner::{Fault, Reply, Runner, State};

fn owned(words: &[&str]) -> Vec<String> {
    words.iter().map(|word| word.to_string()).collect()
}

#[test]
fn terminator_is_nul_and_separator_is_a_space() {
    assert_eq!(TERMINATOR, 0);
    assert_eq!(SEPARATOR, b' ');
}

#[test]
fn payload_ends_at_the_first_nul() {
    assert_eq!(find_payload(b""), 0);
    assert_eq!(find_payload(b"\0"), 0);
    assert_eq!(find_payload(b"STOP\0"), 4);
    assert_eq!(find_payload(b"STOP"), 4);
    assert_eq!(find_payload(b"DELAY 30\0START\0"), 8);
    assert_eq!(find_payload(b"\0STOP"), 0);
    assert_eq!(find_payload(&[1, 2, 3, 0, 0]), 3);
}

#[test]
fn decode_reads_the_text_before_the_terminator() {
    assert_eq!(decode_message(b"STOP\0"), Some("STOP".to_string()));
    assert_eq!(decode_message(b"DELAY 30\0"), Some("DELAY 30".to_string()));
    assert_eq!(decode_message(b"\0"), Some(String::new()));
    assert_eq!(decode_message(b""), Some(String::new()));
    assert_eq!(decode_message(b"STOP\0START\0"), Some("STOP".to_string()));
    assert_eq!(decode_message("caf\u{00E9} \u{1F600}\0".as_bytes()), Some("caf\u{00E9} \u{1F600}".to_string()));
}

#[test]
fn decode_reads_a_stream_that_ended_without_terminator() {
    assert_eq!(decode_message(b"STOP"), Some("STOP".to_string()));
    assert_eq!(decode_message(b"DELAY 30"), Some("DELAY 30".to_string()));
}

#[test]
fn decode_refuses_what_is_no_utf8() {
    assert_eq!(decode_message(&[0xFF, 0x00]), None);
    assert_eq!(decode_message(&[b'S', 0x80, b'T', 0x00]), None);
    assert_eq!(decode_message(&[0xC3]), None);
    assert_eq!(decode_message(&[0xC0, 0xAF, 0x00]), None);
    assert_eq!(decode_message(&[0xED, 0xA0, 0x80, 0x00]), None);
    assert_eq!(decode_message(&[0xF4, 0x90, 0x80, 0x80]), None);
    assert_eq!(decode_message(&[b'O', b'K', 0x00, 0xFF]), Some("OK".to_string()));
}

#[test]
fn receive_applies_the_message() {
    let mut runner = Runner::new("prog");
    runner.record_spawn(12);
    assert_eq!(runner.receive(b"DELAY 30\0"), Reply { wake: false, terminate: None, fault: None });
    assert_eq!(runner.receive(b"STOP\0"), Reply { wake: true, terminate: Some(12), fault: None });
    assert_eq!(runner.snapshot(), State { running: false, pid: Some(12), delay: 30 });
    assert_eq!(runner.receive(b"START"), Reply { wake: true, terminate: None, fault: None });
    assert_eq!(runner.snapshot(), State { running: true, pid: Some(12), delay: 30 });
}

#[test]
fn receive_reports_each_protocol_fault() {
    let mut runner = Runner::new("prog");
    let fault = |fault: Fault| Reply { wake: false, terminate: None, fault: Some(fault) };
    assert_eq!(runner.receive(&[0xFF, 0xFE, 0x00]), fault(Fault::Undecodable));
    assert_eq!(runner.receive(b"\0"), fault(Fault::InvalidData));
    assert_eq!(runner.receive(b""), fault(Fault::InvalidData));
    assert_eq!(runner.receive(b"  \0"), fault(Fault::InvalidData));
    assert_eq!(runner.receive(b"PING\0"), fault(Fault::UnknownCommand));
    assert_eq!(runner.receive(b"DELAY x\0"), fault(Fault::UnknownCommand));
    assert_eq!(runner.receive(b"RESTART\0"), fault(Fault::NoActiveProcess));
    assert_eq!(runner.snapshot(), State { running: true, pid: None, delay: 15 });
    assert_eq!(
        runner.receive(b"STOP\0"),
        Reply { wake: true, terminate: None, fault: Some(Fault::NoActiveProcess) }
    );
    assert_eq!(runner.snapshot(), State { running: false, pid: None, delay: 15 });
}

#[test]
fn encode_joins_with_spaces_and_ends_with_nul() {
    assert_eq!(encode_message(&owned(&[])), b"\0".to_vec());
    assert_eq!(encode_message(&owned(&["STOP"])), b"STOP\0".to_vec());
    assert_eq!(encode_message(&owned(&["DELAY", "30"])), b"DELAY 30\0".to_vec());
    assert_eq!(encode_message(&owned(&["a", "", "b"])), b"a  b\0".to_vec());
    assert_eq!(encode_message(&owned(&["caf\u{00E9}"])), "caf\u{00E9}\0".as_bytes().to_vec());
}

#[test]
fn client_sends_its_arguments_in_upper_case() {
    assert_eq!(client_message(&owned(&["runner", "DELAY", "30"])), Some(b"DELAY 30\0".to_vec()));
    assert_eq!(client_message(&owned(&["runner", "delay", "30"])), Some(b"DELAY 30\0".to_vec()));
    assert_eq!(client_message(&owned(&["runner.exe", "stop"])), Some(b"STOP\0".to_vec()));
    assert_eq!(client_message(&owned(&["x", "Re", "start"])), Some(b"RE START\0".to_vec()));
    assert_eq!(
        client_message(&owned(&["x", "stra\u{00DF}e"])),
        Some("STRASSE\0".as_bytes().to_vec())
    );
}

#[test]
fn client_without_a_command_sends_nothing() {
    assert_eq!(client_message(&owned(&[])), None);
    assert_eq!(client_message(&owned(&["runner"])), None);
}

#[test]
fn what_the_client_sends_the_server_reads() {
    let mut runner = Runner::new("prog");
    let bytes = client_message(&owned(&["runner", "delay", "30"])).unwrap();
    assert_eq!(bytes, b"DELAY 30\0".to_vec());
    assert_eq!(runner.receive(&bytes), Reply { wake: false, terminate: None, fault: None });
    assert_eq!(runner.snapshot().delay, 30);
}
