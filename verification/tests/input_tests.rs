use aqueira::input::{failure_message, parse_u16, trim_input, ParseFailure, ParseInput};
use aqueira::text::port_text;
use aqueira::Errors;

fn std_kind(text: &str) -> Result<u16, ParseFailure> {
    match text.parse::<u16>() {
        Ok(v) => Ok(v),
        Err(e) => match e.kind() {
            std::num::IntErrorKind::Empty => Err(ParseFailure::Empty),
            std::num::IntErrorKind::InvalidDigit => Err(ParseFailure::InvalidDigit),
            std::num::IntErrorKind::PosOverflow => Err(ParseFailure::PosOverflow),
            other => panic!("unexpected kind {:?}", other),
        },
    }
}

#[test]
fn parse_u16_matches_std() {
    let cases = [
        "0", "80", "+80", "65535", "65536", "70000", "99999a", "7000a", "", "+", "-", "-1", "+-1",
        " 1", "1 ", "00000000000080", "1_000", "٣", "12é", "4294967296",
    ];
    for text in cases {
        assert_eq!(parse_u16(text), std_kind(text), "{:?}", text);
    }
}

#[test]
fn parse_u16_error_kinds() {
    assert_eq!(parse_u16(""), Err(ParseFailure::Empty));
    assert_eq!(parse_u16("8o"), Err(ParseFailure::InvalidDigit));
    assert_eq!(parse_u16("65536"), Err(ParseFailure::PosOverflow));
}

#[test]
fn failure_messages_match_std() {
    assert_eq!(failure_message(ParseFailure::Empty), "".parse::<u16>().unwrap_err().to_string());
    assert_eq!(
        failure_message(ParseFailure::InvalidDigit),
        "x".parse::<u16>().unwrap_err().to_string()
    );
    assert_eq!(
        failure_message(ParseFailure::PosOverflow),
        "70000".parse::<u16>().unwrap_err().to_string()
    );
}

#[test]
fn port_text_round_trips_through_parse() {
    for n in [0u16, 1, 9, 10, 443, 8080, 65535] {
        assert_eq!(parse_u16(&port_text(n)), Ok(n));
    }
}

#[test]
fn parse_input_on_string_and_str() {
    let typed = String::from("8080");
    let v: Result<u16, Errors> = typed.parse_input();
    assert_eq!(v.unwrap(), 8080);
    let w: Result<u16, Errors> = "22".parse_input();
    assert_eq!(w.unwrap(), 22);
}

#[test]
fn parse_input_failure_names_the_cause() {
    let r: Result<u16, Errors> = "port".parse_input();
    match r {
        Err(Errors::Error(text)) => {
            assert_eq!(text, "Ошибка парсинга -> invalid digit found in string")
        }
        other => panic!("unexpected {:?}", other),
    }
    let r: Result<u16, Errors> = String::new().parse_input();
    match r {
        Err(Errors::Error(text)) => {
            assert_eq!(text, "Ошибка парсинга -> cannot parse integer from empty string")
        }
        other => panic!("unexpected {:?}", other),
    }
}

#[test]
fn trim_input_drops_the_line_end() {
    assert_eq!(trim_input("  10.0.0.1\r\n"), "10.0.0.1");
    assert_eq!(trim_input("\n"), "");
}
