use std::borrow::Cow;
use aqueira::features::{get_features, report_lines};
use aqueira::ftp::{convert_text_to_string, ftp_feature, get_status_auth};
use aqueira::http::{create_proxy, get_header, http_url};
use aqueira::ssh::ssh_version_from_response;
use aqueira::{Features, ProtocolOperation, ProtocolOperations};

#[test]
fn status_auth_rejected_when_refused() {
    let f = get_status_auth("530 No anonymous login allowed\r\n", "10.0.0.5", 21);
    assert_eq!(f, Features::FTPAuth("Authorization Rejected -> 10.0.0.5:21".to_string()));
}

#[test]
fn status_auth_accepted_otherwise() {
    let f = get_status_auth("331 Please specify the password.\r\n", "10.0.0.5", 20);
    assert_eq!(f, Features::FTPAuth("Authorization Accepted -> 10.0.0.5:20".to_string()));
    let g = get_status_auth("", "h", 21);
    assert_eq!(g, Features::FTPAuth("Authorization Accepted -> h:21".to_string()));
}

#[test]
fn convert_text_takes_the_read_prefix() {
    let buffer = b"220 ready\r\nJUNK";
    assert_eq!(convert_text_to_string(buffer, 11), "220 ready\r\n");
    assert_eq!(convert_text_to_string(buffer, 0), "");
}

#[test]
fn convert_text_replaces_invalid_utf8() {
    let buffer = [b'a', 0xff, b'b', 0xe2, 0x82];
    assert_eq!(convert_text_to_string(&buffer, 5), "a\u{FFFD}b\u{FFFD}");
    assert_eq!(ProtocolOperation::get_converted_response_to_utf8(&buffer, 2), "a\u{FFFD}");
}

#[test]
fn ftp_feature_reads_the_whole_reply() {
    let f = ftp_feature("h", 21, b"530 No anonymous login\r\n");
    assert_eq!(f, Features::FTPAuth("Authorization Rejected -> h:21".to_string()));
}

#[test]
fn ssh_version_is_the_first_line() {
    let reply = b"SSH-2.0-OpenSSH_9.6\r\nProtocol mismatch.\n";
    assert_eq!(
        ssh_version_from_response(reply, reply.len()),
        Some(Features::SSHVersion("SSH-2.0-OpenSSH_9.6".to_string()))
    );
}

#[test]
fn ssh_version_of_empty_reply_is_none() {
    let buffer = [0u8; 16];
    assert_eq!(ssh_version_from_response(&buffer, 0), None);
}

#[test]
fn http_url_and_header() {
    assert_eq!(http_url("1.2.3.4", 8080), "http://1.2.3.4:8080");
    assert_eq!(
        get_header(Some(b"nginx/1.18.0"), "1.2.3.4", 80),
        Some("1.2.3.4:80 -> version: \"nginx/1.18.0\"".to_string())
    );
    assert_eq!(get_header(None, "1.2.3.4", 80), None);
}

#[test]
fn header_rendering_escapes_like_debug() {
    let shown = get_header(Some(b"a\"b\xe9\tc"), "h", 1).unwrap();
    let value = reqwest::header::HeaderValue::from_bytes(b"a\"b\xe9\tc").unwrap();
    assert_eq!(shown, format!("h:1 -> version: {:?}", value));
    assert_eq!(shown, "h:1 -> version: \"a\\\"b\\xe9\tc\"");
}

#[test]
fn proxy_address_is_accepted() {
    let proxy = create_proxy().unwrap();
    let expected = reqwest::Proxy::https("116.203.207.197:8080").unwrap();
    assert_eq!(format!("{:?}", proxy.proxy), format!("{:?}", expected));
}

#[test]
fn features_keep_http_ssh_ftp_order() {
    let http = vec![Features::HttpVersion("h".to_string())];
    let ssh = vec![Features::SSHVersion("s".to_string())];
    let ftp = vec![Features::FTPAuth("f1".to_string()), Features::FTPAuth("f2".to_string())];
    let all = get_features(http, ssh, ftp);
    assert_eq!(
        all,
        vec![
            Features::HttpVersion("h".to_string()),
            Features::SSHVersion("s".to_string()),
            Features::FTPAuth("f1".to_string()),
            Features::FTPAuth("f2".to_string()),
        ]
    );
}

#[test]
fn report_has_a_line_per_feature_and_skips_empty() {
    let features = vec![
        Features::FTPAuth("Authorization Accepted -> h:21".to_string()),
        Features::Empty(),
        Features::HttpVersion("h:80 -> version: \"x\"".to_string()),
        Features::SSHVersion("SSH-2.0-x".to_string()),
    ];
    assert_eq!(
        report_lines(&features),
        vec![
            "├─ [FTP] Аутентификация: Authorization Accepted -> h:21".to_string(),
            "├─ [HTTP] Версия: h:80 -> version: \"x\"".to_string(),
            "├─ [SSH] Версия: SSH-2.0-x".to_string(),
        ]
    );
}

#[test]
fn converted_response_is_borrowed_exactly_when_valid() {
    let valid = b"SSH-2.0-x\r\n";
    match ProtocolOperation::get_converted_response_to_utf8(valid, valid.len()) {
        Cow::Borrowed(s) => assert_eq!(s.as_bytes(), &valid[..]),
        Cow::Owned(_) => panic!("valid UTF-8 should be borrowed"),
    }
    let invalid = [b'x', 0xff];
    assert!(matches!(
        ProtocolOperation::get_converted_response_to_utf8(&invalid, 2),
        Cow::Owned(_)
    ));
    assert!(matches!(
        ProtocolOperation::get_converted_response_to_utf8(&invalid, 1),
        Cow::Borrowed("x")
    ));
}

#[test]
fn any_non_empty_ssh_reply_gives_a_version() {
    assert_eq!(
        ssh_version_from_response(b"\n", 1),
        Some(Features::SSHVersion(String::new()))
    );
    assert_eq!(
        ssh_version_from_response(&[0xff], 1),
        Some(Features::SSHVersion("\u{FFFD}".to_string()))
    );
}
