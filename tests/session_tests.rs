use hydro_template::binding::Session;
use hydro_template::framing::{encode_line, LineDecoder};

#[test]
fn decoder_splits_lines() {
    let mut d = LineDecoder::new();
    let lines = d.feed(b"one\ntwo\n");
    assert_eq!(lines, vec!["one".to_string(), "two".to_string()]);
}

#[test]
fn decoder_buffers_partial_line() {
    let mut d = LineDecoder::new();
    assert!(d.feed(b"hel").is_empty());
    let lines = d.feed(b"lo\nwor");
    assert_eq!(lines, vec!["hello".to_string()]);
    let lines = d.feed(b"ld\n");
    assert_eq!(lines, vec!["world".to_string()]);
}

#[test]
fn decoder_strips_carriage_return() {
    let mut d = LineDecoder::new();
    let lines = d.feed(b"a\r\nb\n\r\n");
    assert_eq!(lines, vec!["a".to_string(), "b".to_string(), String::new()]);
}

#[test]
fn decoder_drops_malformed_line() {
    let mut d = LineDecoder::new();
    let lines = d.feed(&[0xff, 0xfe, b'\n', b'o', b'k', b'\n']);
    assert_eq!(lines, vec!["ok".to_string()]);
}

#[test]
fn decoder_decodes_utf8() {
    let mut d = LineDecoder::new();
    let lines = d.feed("héllo\n".as_bytes());
    assert_eq!(lines, vec!["héllo".to_string()]);
}

#[test]
fn decoder_discards_unfinished_line_on_disconnect() {
    let mut d = LineDecoder::new();
    assert!(d.feed(b"partial").is_empty());
    assert_eq!(d.disconnect(), 7);
    assert!(d.feed(b"\n").len() == 1);
}

#[test]
fn encode_line_appends_line_feed() {
    assert_eq!(encode_line("HI"), b"HI\n".to_vec());
    assert_eq!(encode_line(""), b"\n".to_vec());
    assert_eq!(encode_line("É"), "É\n".as_bytes().to_vec());
}

#[test]
fn session_serves_in_order() {
    let mut s = Session::new();
    assert!(s.connect(1));
    let reply = s.serve(1, b"hello\nworld\n");
    assert_eq!(reply, b"HELLO\nWORLD\n".to_vec());
}

#[test]
fn session_answers_across_chunks() {
    let mut s = Session::new();
    assert!(s.connect(1));
    assert!(s.serve(1, b"ab").is_empty());
    assert_eq!(s.serve(1, b"c\nd"), b"ABC\n".to_vec());
    assert_eq!(s.serve(1, b"e\n"), b"DE\n".to_vec());
}

#[test]
fn session_rejects_second_client() {
    let mut s = Session::new();
    assert!(s.connect(1));
    assert!(s.serve(1, b"hel").is_empty());
    assert!(!s.connect(2));
    assert!(s.serve(2, b"intruder\n").is_empty());
    assert!(!s.disconnect(2));
    assert_eq!(s.serve(1, b"lo\n"), b"HELLO\n".to_vec());
}

#[test]
fn session_ignores_bytes_without_client() {
    let mut s = Session::new();
    assert!(s.receive(5, b"x\n").is_empty());
}

#[test]
fn session_accepts_after_disconnect() {
    let mut s = Session::new();
    assert!(s.connect(1));
    assert!(s.serve(1, b"left over").is_empty());
    assert!(s.disconnect(1));
    assert!(s.connect(2));
    assert_eq!(s.serve(2, b"new\n"), b"NEW\n".to_vec());
}

#[test]
fn session_receive_returns_lines() {
    let mut s = Session::new();
    assert!(s.connect(9));
    assert_eq!(s.receive(9, b"q\n"), vec!["q".to_string()]);
}
