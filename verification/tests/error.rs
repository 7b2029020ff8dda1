use crosspoint_api::{check_status, Error, StatusCode};

#[test]
fn success_range() {
    assert!(StatusCode::new(200).is_success());
    assert!(StatusCode::new(204).is_success());
    assert!(StatusCode::new(299).is_success());
    assert!(!StatusCode::new(199).is_success());
    assert!(!StatusCode::new(300).is_success());
    assert!(!StatusCode::new(404).is_success());
}

#[test]
fn status_code_round_trip() {
    assert_eq!(StatusCode::new(418).as_u16(), 418);
    assert_eq!(StatusCode(500), StatusCode::new(500));
}

#[test]
fn status_code_displays_in_decimal() {
    assert_eq!(StatusCode(404).to_string(), "404");
    assert_eq!(StatusCode(0).to_string(), "0");
    assert_eq!(StatusCode(7).to_string(), "7");
    assert_eq!(StatusCode(65535).to_string(), "65535");
    assert_eq!(StatusCode(100).to_string(), "100");
}

#[test]
fn check_status_accepts_success() {
    assert!(check_status(StatusCode(200), "whatever").is_ok());
    assert!(check_status(StatusCode(201), "").is_ok());
}

#[test]
fn check_status_reports_trimmed_message() {
    match check_status(StatusCode(404), "  File not found \r\n") {
        Err(Error::Http { status, message }) => {
            assert_eq!(status, StatusCode(404));
            assert_eq!(message, "File not found");
        }
        other => panic!("unexpected: {:?}", other),
    }
}

#[test]
fn check_status_with_blank_body() {
    match check_status(StatusCode(500), " \t\n ") {
        Err(Error::Http { status, message }) => {
            assert_eq!(status.as_u16(), 500);
            assert_eq!(message, "");
        }
        other => panic!("unexpected: {:?}", other),
    }
}

#[test]
fn check_status_keeps_inner_white_space() {
    match check_status(StatusCode(400), "\u{A0}bad  request\u{A0}") {
        Err(Error::Http { message, .. }) => assert_eq!(message, "bad  request"),
        other => panic!("unexpected: {:?}", other),
    }
}

#[test]
fn error_messages() {
    assert_eq!(Error::Network("timeout".to_string()).to_string(), "network error: timeout");
    assert_eq!(Error::Url(url::ParseError::EmptyHost).to_string(), "Invalid URL");
    let json = serde_json::from_str::<u8>("x").unwrap_err();
    assert_eq!(Error::Json(json).to_string(), "Serialization error");
    assert_eq!(
        Error::Http { status: StatusCode(404), message: "missing".to_string() }.to_string(),
        "HTTP 404: missing"
    );
    assert_eq!(Error::Protocol("invalid path".to_string()).to_string(), "Device protocol error: invalid path");
    assert_eq!(Error::Js("boom".to_string()).to_string(), "Javascript error: boom");
}

#[test]
fn errors_convert_from_outside_errors() {
    let e: Error = url::ParseError::RelativeUrlWithoutBase.into();
    assert!(matches!(e, Error::Url(url::ParseError::RelativeUrlWithoutBase)));
    let json = serde_json::from_str::<u8>("x").unwrap_err();
    let e: Error = json.into();
    assert!(matches!(e, Error::Json(_)));
}

#[test]
fn status_error_carries_trimmed_body() {
    match crosspoint_api::status_error(StatusCode(503), "\n busy\t") {
        Error::Http { status, message } => {
            assert_eq!(status, StatusCode(503));
            assert_eq!(message, "busy");
        }
        other => panic!("unexpected: {:?}", other),
    }
}

#[test]
fn white_space_matches_std() {
    for code in 0u32..=0x10FFFF {
        if let Some(c) = char::from_u32(code) {
            assert_eq!(crosspoint_api::text::is_whitespace(c), c.is_whitespace(), "{:#x}", code);
        }
    }
}
