use wydy::protocol::{Action, Event, Next, Outcome, ProtocolError, Session};
use wydy::text::{parse_i32, parse_u8};

fn connected() -> Session {
    let mut s = Session::new();
    let a = s.step(Event::Opened);
    assert_eq!(a.send, b"WYDY".to_vec());
    assert!(matches!(a.next, Next::Read(4)));
    let a = s.step(Event::Bytes(b"WYDY".to_vec()));
    assert!(matches!(a.next, Next::Done(Outcome::Connected)));
    assert!(s.is_idle());
    s
}

fn request(s: &mut Session, command: &str, locally: bool) -> Action {
    let a = s.step(Event::Request(command.to_string(), locally));
    assert_eq!(a.send, vec![1]);
    let a = s.step(Event::Bytes(vec![1]));
    let mut expected = command.as_bytes().to_vec();
    expected.push(b'\n');
    expected.push(if locally { 2 } else { 1 });
    assert_eq!(a.send, expected);
    assert!(matches!(a.next, Next::Read(1)));
    a
}

#[test]
fn remote_run_reports_status() {
    let mut s = connected();
    request(&mut s, "echo test", false);
    let a = s.step(Event::Bytes(vec![1]));
    assert_eq!(a.send, vec![1]);
    let a = s.step(Event::Bytes(vec![1]));
    assert!(a.send.is_empty());
    let a = s.step(Event::Bytes(vec![2]));
    assert!(matches!(a.next, Next::ReadLine));
    let a = s.step(Event::Line("echo test\n".to_string()));
    assert_eq!(a.show, Some("echo test\n".to_string()));
    assert_eq!(a.send, vec![1]);
    let a = s.step(Event::Bytes(vec![1]));
    assert!(matches!(a.next, Next::ReadLine));
    let a = s.step(Event::Line("0\n".to_string()));
    assert!(matches!(a.next, Next::Done(Outcome::Executed(0))));
    assert!(a.send.is_empty());
    assert!(s.is_idle());
}

#[test]
fn selection_of_second_candidate() {
    let mut s = connected();
    request(&mut s, "edit update", true);
    let a = s.step(Event::Bytes(vec![2]));
    assert!(a.send.is_empty());
    assert!(matches!(a.next, Next::Read(1)));
    let a = s.step(Event::Bytes(vec![2]));
    assert!(matches!(a.next, Next::ReadLine));
    let a = s.step(Event::Line("edit file update\n".to_string()));
    assert!(matches!(a.next, Next::ReadLine));
    let a = s.step(Event::Line("search for edit update\n".to_string()));
    match a.next {
        Next::Choose(m) => assert_eq!(
            m,
            vec!["edit file update".to_string(), "search for edit update".to_string()]
        ),
        _ => panic!("no menu"),
    }
    let a = s.step(Event::Choice(" 2\n".to_string()));
    assert_eq!(a.send, vec![2, 1]);
    assert!(matches!(a.next, Next::Read(1)));
    let a = s.step(Event::Bytes(vec![1]));
    assert!(matches!(a.next, Next::Read(1)));
    let a = s.step(Event::Bytes(vec![1]));
    assert!(matches!(a.next, Next::ReadLine));
    let a = s.step(Event::Line("firefox https://duckduckgo.com/?q=edit%20update\n".to_string()));
    assert!(matches!(a.next, Next::ReadLine));
    let a = s.step(Event::Line("search for edit update\n".to_string()));
    match &a.next {
        Next::Run(c) => {
            assert_eq!(c.command(), "firefox https://duckduckgo.com/?q=edit%20update\n");
            assert_eq!(c.desc(), "search for edit update\n");
        }
        _ => panic!("no run"),
    }
    let a = s.step(Event::Exited(3));
    assert!(matches!(a.next, Next::Done(Outcome::Executed(3))));
    assert!(s.is_idle());
}

fn at_menu() -> Session {
    let mut s = connected();
    request(&mut s, "x", false);
    s.step(Event::Bytes(vec![2]));
    s.step(Event::Bytes(vec![2]));
    s.step(Event::Line("a\n".to_string()));
    s.step(Event::Line("b\n".to_string()));
    s
}

#[test]
fn out_of_range_choice_cancels() {
    for answer in ["3", "0", "256", "-1"].iter() {
        let mut s = at_menu();
        let a = s.step(Event::Choice(answer.to_string()));
        assert_eq!(a.send, vec![255]);
        assert!(matches!(a.next, Next::Done(Outcome::Cancelled)));
        assert!(s.is_idle());
    }
}

#[test]
fn non_numeric_choice_cancels() {
    let mut s = at_menu();
    let a = s.step(Event::Choice("two\n".to_string()));
    assert_eq!(a.send, vec![255]);
    assert!(matches!(a.next, Next::Done(Outcome::Cancelled)));
    assert!(s.is_idle());
}

#[test]
fn handshake_mismatch_fails() {
    let mut s = Session::new();
    s.step(Event::Opened);
    let a = s.step(Event::Bytes(b"WYDX".to_vec()));
    assert!(matches!(a.next, Next::Done(Outcome::Failed(ProtocolError::HandshakeFailed))));
    assert_eq!(s.failure(), Some(ProtocolError::HandshakeFailed));
    let a = s.step(Event::Request("ls".to_string(), false));
    assert!(a.send.is_empty());
    assert_eq!(s.failure(), Some(ProtocolError::HandshakeFailed));
}

#[test]
fn presence_mismatch_fails() {
    let mut s = connected();
    s.step(Event::Request("ls".to_string(), false));
    let a = s.step(Event::Bytes(vec![0]));
    assert!(a.send.is_empty());
    assert_eq!(s.failure(), Some(ProtocolError::PresenceMismatch));
}

#[test]
fn output_only_and_invalid_codes_return_to_idle() {
    let mut s = connected();
    request(&mut s, "list", false);
    let a = s.step(Event::Bytes(vec![3]));
    assert!(matches!(a.next, Next::Done(Outcome::OutputOnly)));
    assert!(s.is_idle());
    request(&mut s, "list", false);
    let a = s.step(Event::Bytes(vec![9]));
    assert!(matches!(a.next, Next::Done(Outcome::InvalidResponse(9))));
    assert!(s.is_idle());
}

#[test]
fn malformed_status_fails() {
    let mut s = connected();
    request(&mut s, "ls", false);
    s.step(Event::Bytes(vec![1]));
    s.step(Event::Bytes(vec![1]));
    s.step(Event::Bytes(vec![2]));
    s.step(Event::Line("ls\n".to_string()));
    s.step(Event::Bytes(vec![1]));
    let a = s.step(Event::Line("zero\n".to_string()));
    assert!(matches!(a.next, Next::Done(Outcome::Failed(ProtocolError::MalformedStatus))));
    assert_eq!(s.failure(), Some(ProtocolError::MalformedStatus));
}

#[test]
fn out_of_turn_event_fails() {
    let mut s = connected();
    let a = s.step(Event::Line("hello\n".to_string()));
    assert!(matches!(a.next, Next::Done(Outcome::Failed(ProtocolError::Unexpected))));
}

#[test]
fn decimal_parsing() {
    assert_eq!(parse_u8("2"), Some(2));
    assert_eq!(parse_u8("+255"), Some(255));
    assert_eq!(parse_u8("256"), None);
    assert_eq!(parse_u8("-1"), None);
    assert_eq!(parse_u8(""), None);
    assert_eq!(parse_u8("+"), None);
    assert_eq!(parse_i32("-2147483648"), Some(i32::MIN));
    assert_eq!(parse_i32("2147483647"), Some(i32::MAX));
    assert_eq!(parse_i32("2147483648"), None);
    assert_eq!(parse_i32("-12"), Some(-12));
    assert_eq!(parse_i32("1x"), None);
}
