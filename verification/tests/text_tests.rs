use aqueira::text::{chars_of, contains, endpoint, first_line, port_text, trim};

#[test]
fn port_text_matches_display() {
    for n in [0u16, 7, 10, 99, 100, 8080, 65535] {
        assert_eq!(port_text(n), n.to_string());
    }
}

#[test]
fn endpoint_joins_host_and_port() {
    assert_eq!(endpoint("192.168.0.1", 21), "192.168.0.1:21");
    assert_eq!(endpoint("::1", 22), "::1:22");
}

#[test]
fn contains_matches_std() {
    let cases = [
        ("530 No anonymous login allowed", "No anonymous login"),
        ("220 Welcome", "No anonymous login"),
        ("", ""),
        ("abc", ""),
        ("", "a"),
        ("aaab", "aab"),
        ("Привет мир", "мир"),
        ("ab", "abc"),
    ];
    for (text, pattern) in cases {
        assert_eq!(contains(text, pattern), text.contains(pattern), "{:?} {:?}", text, pattern);
    }
}

#[test]
fn chars_of_keeps_every_character() {
    assert_eq!(chars_of("aЖ€\u{1F600}"), vec!['a', 'Ж', '€', '\u{1F600}']);
}

#[test]
fn first_line_matches_lines_next() {
    let cases = [
        "SSH-2.0-OpenSSH_8.9p1 Ubuntu-3\r\n",
        "SSH-2.0-dropbear\n",
        "no newline",
        "",
        "\n",
        "\r\n",
        "a\rb\nc",
        "trailing bare cr\r",
        "line\r\r\nnext",
        "first\nsecond\nthird",
    ];
    for text in cases {
        assert_eq!(first_line(text), text.lines().next().map(|l| l.to_string()), "{:?}", text);
    }
}

#[test]
fn first_line_never_holds_a_line_feed() {
    let line = first_line("a\nb").unwrap();
    assert!(!line.contains('\n'));
}

#[test]
fn trim_matches_std() {
    let cases = [
        "  192.168.1.1\n",
        "\t80\r\n",
        "",
        "   ",
        "x",
        "\u{3000}全角\u{2003}",
        "\u{85}a b\u{a0}",
        "\u{200b}zero width\u{200b}",
        "\u{1680}\u{2028}\u{2029}\u{202f}\u{205f}q\u{b}\u{c}",
    ];
    for text in cases {
        assert_eq!(trim(text), text.trim(), "{:?}", text);
    }
}

#[test]
fn trim_is_idempotent_on_examples() {
    for text in ["  a  ", "\n\tb c\t\n", "   "] {
        let once = trim(text);
        assert_eq!(trim(&once), once);
    }
}
