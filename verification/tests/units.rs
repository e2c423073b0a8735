use budgetchat::events::{event_for, render_event, roster_line, RoomEvent};
use budgetchat::framer::{AsciiLinesCodec, FrameError, MAX_LINE_LEN};
use budgetchat::names::valid_name;
use budgetchat::primes::is_prime;
use budgetchat::registry::Registry;

#[test]
fn valid_name_accepts_alphanumerics() {
    assert!(valid_name("bob"));
    assert!(valid_name("Bob123"));
    assert!(valid_name("7"));
}

#[test]
fn valid_name_rejects_empty() {
    assert!(!valid_name(""));
}

#[test]
fn valid_name_rejects_punctuation_and_spaces() {
    assert!(!valid_name("bob smith"));
    assert!(!valid_name("bob!"));
    assert!(!valid_name("a_b"));
}

#[test]
fn valid_name_rejects_non_ascii() {
    assert!(!valid_name("b\u{f6}b"));
}

#[test]
fn decode_returns_complete_line() {
    let mut codec = AsciiLinesCodec::new();
    let mut buf: Vec<u8> = b"bob\n".to_vec();
    assert_eq!(codec.decode(&mut buf), Ok(Some(String::from("bob"))));
    assert!(buf.is_empty());
    assert_eq!(codec.decode(&mut buf), Ok(None));
}

#[test]
fn decode_buffers_partial_lines() {
    let mut codec = AsciiLinesCodec::new();
    let mut buf: Vec<u8> = b"bo".to_vec();
    assert_eq!(codec.decode(&mut buf), Ok(None));
    buf.extend_from_slice(b"b\nrest");
    assert_eq!(codec.decode(&mut buf), Ok(Some(String::from("bob"))));
    assert_eq!(buf, b"rest".to_vec());
}

#[test]
fn decode_strips_carriage_return() {
    let mut codec = AsciiLinesCodec::new();
    let mut buf: Vec<u8> = b"hi\r\nx".to_vec();
    assert_eq!(codec.decode(&mut buf), Ok(Some(String::from("hi"))));
    assert_eq!(buf, b"x".to_vec());
}

#[test]
fn decode_rejects_long_line() {
    let mut codec = AsciiLinesCodec::new();
    let mut buf: Vec<u8> = vec![b'a'; MAX_LINE_LEN + 1];
    buf.push(b'\n');
    assert_eq!(codec.decode(&mut buf), Err(FrameError::LineTooLong));
}

#[test]
fn decode_rejects_unterminated_overflow() {
    let mut codec = AsciiLinesCodec::new();
    let mut buf: Vec<u8> = vec![b'a'; MAX_LINE_LEN + 1];
    assert_eq!(codec.decode(&mut buf), Err(FrameError::LineTooLong));
}

#[test]
fn decode_accepts_line_at_limit() {
    let mut codec = AsciiLinesCodec::new();
    let mut buf: Vec<u8> = vec![b'a'; MAX_LINE_LEN];
    buf.push(b'\n');
    let got = codec.decode(&mut buf).unwrap().unwrap();
    assert_eq!(got.len(), MAX_LINE_LEN);
}

#[test]
fn decode_reports_first_invalid_byte() {
    let mut codec = AsciiLinesCodec::new();
    let mut buf: Vec<u8> = vec![b'o', b'k', 0xc3, 0xa9, b'\n'];
    assert_eq!(
        codec.decode(&mut buf),
        Err(FrameError::InvalidCharacter { offset: 2 })
    );
}

#[test]
fn decode_eof_delivers_trailing_line() {
    let mut codec = AsciiLinesCodec::new();
    let mut buf: Vec<u8> = b"tail".to_vec();
    assert_eq!(codec.decode(&mut buf), Ok(None));
    assert_eq!(codec.decode_eof(&mut buf), Ok(Some(String::from("tail"))));
    assert!(buf.is_empty());
    assert_eq!(codec.decode_eof(&mut buf), Ok(None));
}

#[test]
fn try_join_admits_valid_new_name() {
    let mut reg = Registry::new();
    assert!(reg.try_join(&String::from("alice")));
    assert_eq!(reg.len(), 1);
    let roster = reg.snapshot(&String::from("someoneelse"));
    assert_eq!(roster, vec![String::from("alice")]);
}

#[test]
fn try_join_refuses_duplicate() {
    let mut reg = Registry::new();
    assert!(reg.try_join(&String::from("alice")));
    assert!(!reg.try_join(&String::from("alice")));
    assert_eq!(reg.len(), 1);
}

#[test]
fn try_join_refuses_invalid_name() {
    let mut reg = Registry::new();
    assert!(!reg.try_join(&String::from("")));
    assert!(!reg.try_join(&String::from("bad name")));
    assert_eq!(reg.len(), 0);
}

#[test]
fn leave_frees_name_for_reuse() {
    let mut reg = Registry::new();
    assert!(reg.try_join(&String::from("carol")));
    reg.leave(&String::from("carol"));
    assert!(reg.try_join(&String::from("carol")));
}

#[test]
fn leave_of_absent_name_changes_nothing() {
    let mut reg = Registry::new();
    assert!(reg.try_join(&String::from("alice")));
    reg.leave(&String::from("nobody"));
    assert_eq!(reg.len(), 1);
    assert!(!reg.try_join(&String::from("alice")));
}

#[test]
fn snapshot_excludes_only_the_asker() {
    let mut reg = Registry::new();
    assert!(reg.try_join(&String::from("alice")));
    assert!(reg.try_join(&String::from("bob")));
    assert!(reg.try_join(&String::from("carol")));
    let roster = reg.snapshot(&String::from("bob"));
    assert_eq!(roster, vec![String::from("alice"), String::from("carol")]);
}

#[test]
fn render_joined_event() {
    let line = render_event(&RoomEvent::Joined { user: String::from("carol") });
    assert_eq!(line, "* carol has entered the room");
}

#[test]
fn render_left_event() {
    let line = render_event(&RoomEvent::Left { user: String::from("carol") });
    assert_eq!(line, "* carol has left the room");
}

#[test]
fn render_said_event() {
    let line = render_event(&RoomEvent::Said {
        user: String::from("carol"),
        text: String::from("hi there"),
    });
    assert_eq!(line, "[carol] hi there");
}

#[test]
fn event_for_skips_own_events() {
    let me = String::from("carol");
    let ev = RoomEvent::Said { user: String::from("carol"), text: String::from("hello") };
    assert_eq!(event_for(&me, &ev), None);
    let other = String::from("bob");
    assert_eq!(event_for(&other, &ev), Some(String::from("[carol] hello")));
}

#[test]
fn roster_line_empty_room() {
    let names: Vec<String> = Vec::new();
    assert_eq!(roster_line(&names), "* The room contains: ");
}

#[test]
fn roster_line_joins_names() {
    let names = vec![String::from("alice")];
    assert_eq!(roster_line(&names), "* The room contains: alice");
    let names = vec![String::from("alice"), String::from("bob"), String::from("carol")];
    assert_eq!(roster_line(&names), "* The room contains: alice, bob, carol");
}

#[test]
fn is_prime_small_values() {
    assert!(!is_prime(0));
    assert!(!is_prime(1));
    assert!(is_prime(2));
    assert!(is_prime(3));
    assert!(!is_prime(4));
    assert!(is_prime(7));
    assert!(!is_prime(9));
}

#[test]
fn is_prime_square_needs_full_root() {
    assert!(!is_prime(25));
    assert!(!is_prime(49));
    assert!(!is_prime(121));
}

#[test]
fn is_prime_larger_values() {
    assert!(is_prime(997));
    assert!(is_prime(1000003));
    assert!(!is_prime(1000001));
}
