use aqueira::Errors;

#[test]
fn error_joins_message_and_cause() {
    match Errors::error("Ошибка получения", "timed out") {
        Errors::Error(text) => assert_eq!(text, "Ошибка получения -> timed out"),
        other => panic!("unexpected {:?}", other),
    }
}

#[test]
fn error_from_unit() {
    match Errors::from(()) {
        Errors::Error(text) => assert_eq!(text, "An unexpected error occurred"),
        other => panic!("unexpected {:?}", other),
    }
}

#[test]
fn errors_carry_outside_causes() {
    let e = "x".parse::<u16>().unwrap_err();
    let wrapped = Errors::ParseIntError(e.clone());
    match wrapped {
        Errors::ParseIntError(inner) => assert_eq!(inner, e),
        other => panic!("unexpected {:?}", other),
    }
    let io = Errors::STDIOError(std::io::Error::new(std::io::ErrorKind::Other, "boom"));
    assert!(matches!(io, Errors::STDIOError(_)));
}
