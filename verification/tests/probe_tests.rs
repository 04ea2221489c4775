use aqueira::probe::{header_bytes_valid, ProbeAction, ProbeEvent, ProbeSession, READ_CAPACITY};
use aqueira::Features;

fn connect_endpoint(a: &ProbeAction) -> String {
    match a {
        ProbeAction::Connect { endpoint } => endpoint.clone(),
        other => panic!("expected a connection, got {:?}", other),
    }
}

#[test]
fn ftp_session_probes_both_ports_in_order() {
    let mut s = ProbeSession::ftp("10.1.1.1");
    assert_eq!(connect_endpoint(&s.next_action()), "10.1.1.1:20");
    let a = s.step(ProbeEvent::ConnectFailed);
    assert_eq!(connect_endpoint(&a), "10.1.1.1:21");
    let a = s.step(ProbeEvent::Connected);
    match a {
        ProbeAction::Write { request } => assert_eq!(request, b"USER anonymous\r\n".to_vec()),
        other => panic!("unexpected {:?}", other),
    }
    let a = s.step(ProbeEvent::Written);
    match a {
        ProbeAction::Read { capacity } => assert_eq!(capacity, READ_CAPACITY),
        other => panic!("unexpected {:?}", other),
    }
    let a = s.step(ProbeEvent::Received(b"530 No anonymous login\r\n".to_vec()));
    assert!(matches!(a, ProbeAction::Finish));
    assert!(s.is_done());
    assert_eq!(
        s.into_features(),
        vec![Features::FTPAuth("Authorization Rejected -> 10.1.1.1:21".to_string())]
    );
}

#[test]
fn ftp_session_ignores_a_failed_write_and_empty_answer_is_accepted() {
    let mut s = ProbeSession::ftp("h");
    s.step(ProbeEvent::Connected);
    let a = s.step(ProbeEvent::WriteFailed);
    assert!(matches!(a, ProbeAction::Read { .. }));
    s.step(ProbeEvent::Received(Vec::new()));
    s.step(ProbeEvent::Connected);
    s.step(ProbeEvent::Written);
    let a = s.step(ProbeEvent::ReceiveFailed);
    assert!(matches!(a, ProbeAction::Finish));
    assert_eq!(
        s.into_features(),
        vec![Features::FTPAuth("Authorization Accepted -> h:20".to_string())]
    );
}

#[test]
fn ssh_session_reports_the_version() {
    let mut s = ProbeSession::ssh("192.0.2.7");
    assert_eq!(connect_endpoint(&s.next_action()), "192.0.2.7:22");
    s.step(ProbeEvent::Connected);
    match s.next_action() {
        ProbeAction::Write { request } => assert_eq!(request, b"SSH-2.0\n".to_vec()),
        other => panic!("unexpected {:?}", other),
    }
    s.step(ProbeEvent::Written);
    let a = s.step(ProbeEvent::Received(b"SSH-2.0-dropbear_2022.83\r\n".to_vec()));
    assert!(matches!(a, ProbeAction::Finish));
    assert_eq!(
        s.into_features(),
        vec![Features::SSHVersion("SSH-2.0-dropbear_2022.83".to_string())]
    );
}

#[test]
fn ssh_session_with_empty_answer_reports_nothing() {
    let mut s = ProbeSession::ssh("h");
    s.step(ProbeEvent::Connected);
    s.step(ProbeEvent::Written);
    s.step(ProbeEvent::Received(Vec::new()));
    assert!(s.is_done());
    assert_eq!(s.into_features(), Vec::<Features>::new());
}

#[test]
fn http_session_requests_each_port() {
    let mut s = ProbeSession::http("h", &vec![80, 8080, 443]);
    match s.next_action() {
        ProbeAction::Get { url } => assert_eq!(url, "http://h:80"),
        other => panic!("unexpected {:?}", other),
    }
    let a = s.step(ProbeEvent::Responded(Some(b"Apache".to_vec())));
    match a {
        ProbeAction::Get { url } => assert_eq!(url, "http://h:8080"),
        other => panic!("unexpected {:?}", other),
    }
    s.step(ProbeEvent::Responded(None));
    let a = s.step(ProbeEvent::RequestFailed);
    assert!(matches!(a, ProbeAction::Finish));
    assert_eq!(
        s.into_features(),
        vec![Features::HttpVersion("h:80 -> version: \"Apache\"".to_string())]
    );
}

#[test]
fn http_session_without_ports_is_done() {
    let s = ProbeSession::http("h", &Vec::new());
    assert!(s.is_done());
    assert!(matches!(s.next_action(), ProbeAction::Finish));
}

#[test]
fn sessions_accept_only_the_events_of_their_stage() {
    let s = ProbeSession::ftp("h");
    assert!(s.accepts(&ProbeEvent::Connected));
    assert!(!s.accepts(&ProbeEvent::Written));
    assert!(!s.accepts(&ProbeEvent::Responded(None)));
    let h = ProbeSession::http("h", &vec![80]);
    assert!(h.accepts(&ProbeEvent::Responded(Some(b"ok".to_vec()))));
    assert!(!h.accepts(&ProbeEvent::Responded(Some(vec![0x7f]))));
    assert!(!h.accepts(&ProbeEvent::Connected));
}

#[test]
fn header_byte_validity() {
    assert!(header_bytes_valid(&b"nginx\t1.0\xff".to_vec()));
    assert!(!header_bytes_valid(&vec![b'a', 0x0a]));
    assert!(!header_bytes_valid(&vec![0x7f]));
}

#[test]
fn sessions_finish_within_three_events_per_port() {
    let mut s = ProbeSession::ftp("h");
    let mut steps = 0;
    while !s.is_done() {
        let event = match s.next_action() {
            ProbeAction::Connect { .. } => ProbeEvent::Connected,
            ProbeAction::Write { .. } => ProbeEvent::Written,
            ProbeAction::Read { .. } => ProbeEvent::Received(b"x".to_vec()),
            other => panic!("unexpected {:?}", other),
        };
        s.step(event);
        steps += 1;
    }
    assert_eq!(steps, 6);
    assert_eq!(s.into_features().len(), 2);
}
