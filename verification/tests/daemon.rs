use jackstay::daemon::{
    c_string_bytes, http_request, open_request, opened, parse_http_response, parse_pixel_format, session_from_wire,
    session_path, OpenReply, PixelFormat, ReplyReader, SessionInfo, SessionInfoWire, MAX_REPLY,
};
use jackstay::json::json_string;

fn info(token: Option<&str>) -> SessionInfo {
    SessionInfo {
        session_id: "session-1".to_string(),
        source_id: 1,
        track_id: 7,
        width: 2,
        height: 1,
        stride: 8,
        pixel_format: PixelFormat::Bgra8Unorm,
        fd_socket_path: "/tmp/capture-fd.sock".to_string(),
        bearer_token: token.map(str::to_string),
    }
}

#[test]
fn parses_http_body() {
    let body = parse_http_response("HTTP/1.1 200 OK\r\ncontent-length: 2\r\n\r\n{}").unwrap();
    assert_eq!(body, "{}");
}

#[test]
fn rejects_non_200_status_without_substring_match() {
    let error = parse_http_response("HTTP/1.1 1200 Weird\r\ncontent-length: 2\r\n\r\n{}").unwrap_err();
    assert!(error.message().contains("1200 Weird"));
}

#[test]
fn session_info_debug_redacts_bearer_token() {
    let info = info(Some("pta_agent.secret"));
    let output = info.describe();
    assert!(output.contains("<redacted>"));
    assert!(!output.contains("pta_agent.secret"));
}

#[test]
fn session_descriptions_quote_their_texts() {
    let mut session = info(None);
    session.session_id = "a\"b".to_string();
    let output = session.describe();
    assert!(output.starts_with("SessionInfo { session_id: \"a\\\"b\", source_id: 1, track_id: 7,"));
    assert!(output.contains("bearer_token: None"));
}

#[test]
fn responses_without_a_separator_are_refused() {
    assert!(parse_http_response("HTTP/1.1 200 OK\r\n").is_err());
    assert!(parse_http_response("").is_err());
}

#[test]
fn pixel_formats_are_known_by_name() {
    assert_eq!(parse_pixel_format("bgra8_unorm").unwrap(), PixelFormat::Bgra8Unorm);
    assert_eq!(parse_pixel_format("rgba8_unorm").unwrap(), PixelFormat::Rgba8Unorm);
    assert!(parse_pixel_format("yuv").is_err());
}

#[test]
fn sessions_come_from_their_wire_form_without_a_token() {
    let wire = SessionInfoWire {
        session_id: "session-1".to_string(),
        source_id: 1,
        track_id: 7,
        width: 2,
        height: 1,
        stride: 8,
        pixel_format: "rgba8_unorm".to_string(),
        fd_socket_path: "/tmp/capture-fd.sock".to_string(),
    };
    let session = session_from_wire(wire).unwrap();
    assert_eq!(session.pixel_format, PixelFormat::Rgba8Unorm);
    assert_eq!(session.bearer_token, None);
}

#[test]
fn requests_name_their_path() {
    let request = http_request("GET", &session_path("session-1"));
    assert!(request.starts_with("GET /"));
    assert!(request.contains("session-1"));
    assert!(request.ends_with("\r\n\r\n"));
}

#[test]
fn json_strings_are_escaped() {
    assert_eq!(json_string("plain"), "\"plain\"");
    assert_eq!(json_string("a\"b\\c\nd\u{1}é"), "\"a\\\"b\\\\c\\nd\\u0001é\"");
}

#[test]
fn open_requests_are_one_line_of_json() {
    let line = open_request(&info(Some("to\"ken\n")));
    assert_eq!(line.matches('\n').count(), 1);
    assert!(line.ends_with('\n'));
    let value: serde_json::Value = serde_json::from_str(&line).unwrap();
    assert_eq!(value["op"], "open_cpu_acquisition");
    assert_eq!(value["session_id"], "session-1");
    assert_eq!(value["track_id"], 7);
    assert_eq!(value["bearer_token"], "to\"ken\n");
    let value: serde_json::Value = serde_json::from_str(&open_request(&info(None))).unwrap();
    assert!(value["bearer_token"].is_null());
}

#[test]
fn replies_end_with_their_line_and_are_bounded() {
    let mut reader = ReplyReader::new();
    for byte in b"{}\n" {
        assert!(reader.wants().unwrap());
        reader.took(*byte);
    }
    assert!(!reader.wants().unwrap());
    assert_eq!(reader.reply().as_slice(), b"{}");

    let mut endless = ReplyReader::new();
    for _ in 0..MAX_REPLY {
        assert!(endless.wants().unwrap());
        endless.took(b'x');
    }
    assert_eq!(endless.wants().unwrap_err().message(), "oversized reply");
}

#[test]
fn rejected_sessions_say_why() {
    assert!(opened(OpenReply::CpuOpened).is_ok());
    let error = opened(OpenReply::Rejected { message: "no such track".to_string() }).unwrap_err();
    assert_eq!(error.message(), "no such track");
}

#[test]
fn c_strings_need_room_for_their_terminator() {
    assert_eq!(c_string_bytes("abc", 4).unwrap(), b"abc\0");
    assert!(c_string_bytes("abc", 3).is_none());
    assert!(c_string_bytes("a\0c", 8).is_none());
    assert!(c_string_bytes("", 0).is_none());
}
