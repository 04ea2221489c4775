use aqueira::ports::{Port, PortType};
use aqueira::scan::{open_ports, ports_in_range, scan_result};

#[test]
fn port_from_known_services() {
    let cases: Vec<(u16, &str, PortType)> = vec![
        (20, "FTP", PortType::FTP),
        (21, "Secure FTP", PortType::FTP),
        (22, "SSH", PortType::SSH),
        (23, "Telnet", PortType::Telnet),
        (25, "SMTP", PortType::SMTP),
        (53, "DNS", PortType::DNS),
        (80, "HTTP", PortType::HTTP),
        (110, "POP3", PortType::POP3),
        (139, "SMB", PortType::SMB),
        (143, "IMAP", PortType::IMAP),
        (389, "LDAP", PortType::LDAP),
        (443, "HTTPS", PortType::HTTPS),
        (445, "SMB", PortType::SMB),
        (3306, "MySQL", PortType::MYSQL),
        (3389, "RDP", PortType::RDP),
        (5432, "PostgreSQL", PortType::PostgreSQL),
        (8080, "HTTP", PortType::HTTP),
        (8443, "HTTP", PortType::HTTP),
        (8880, "HTTP", PortType::HTTP),
    ];
    for (num, name, port_type) in cases {
        let p = Port::from(num);
        assert_eq!(p.num, num);
        assert_eq!(p.name, name);
        assert_eq!(p.port_type, port_type);
    }
}

#[test]
fn port_from_unknown_is_other() {
    for num in [0u16, 1, 24, 8081, 65535] {
        let p = Port::from(num);
        assert_eq!(p.num, num);
        assert_eq!(p.name, "Other");
        assert_eq!(p.port_type, PortType::Other);
    }
}

#[test]
fn port_new_keeps_its_parts() {
    let p = Port::new(7, "Echo", PortType::Other);
    assert_eq!(p.num, 7);
    assert_eq!(p.name, "Echo");
    assert_eq!(p.port_type, PortType::Other);
}

#[test]
fn range_is_inclusive_and_ordered() {
    let ports = ports_in_range(20, 23);
    let nums: Vec<u16> = ports.iter().map(|p| p.num).collect();
    assert_eq!(nums, vec![20, 21, 22, 23]);
    assert_eq!(ports[2].name, "SSH");
}

#[test]
fn range_single_and_empty() {
    assert_eq!(ports_in_range(80, 80).len(), 1);
    assert_eq!(ports_in_range(81, 80).len(), 0);
}

#[test]
fn range_reaches_the_last_port() {
    let ports = ports_in_range(65533, 65535);
    let nums: Vec<u16> = ports.iter().map(|p| p.num).collect();
    assert_eq!(nums, vec![65533, 65534, 65535]);
}

#[test]
fn scan_result_reports_only_reachable_ports() {
    let p = Port::from(443);
    assert_eq!(scan_result(&p, true), Some(443));
    assert_eq!(scan_result(&p, false), None);
}

#[test]
fn open_ports_keeps_order_and_drops_closed() {
    let results = vec![Some(22), None, Some(80), None, Some(443)];
    assert_eq!(open_ports(&results), vec![22, 80, 443]);
    assert_eq!(open_ports(&vec![None, None]), Vec::<u16>::new());
}

#[test]
fn scan_of_a_range_reports_exactly_the_connected_ports() {
    let ports = ports_in_range(1000, 1004);
    let connected = [false, true, true, false, true];
    let results: Vec<Option<u16>> = ports
        .iter()
        .zip(connected.iter())
        .map(|(p, c)| scan_result(p, *c))
        .collect();
    assert_eq!(open_ports(&results), vec![1001, 1002, 1004]);
}
