use light_for_all_agent::http::{
    apply_status, handle_http, http_response, post_status, request_target, route_request, status_reply,
    BodyReader, HttpReply, ReadStep, Route, StatusRequest,
};
use light_for_all_agent::status::{get_state, AppData, LightState, Orientation, Settings};

fn fresh_data() -> AppData {
    AppData {
        current_state: LightState {
            mode: "idle".to_string(),
            received_at: "1".to_string(),
            message: "等待 Agent 连接".to_string(),
        },
        settings: Settings { orientation: Orientation::Horizontal, auto_start: false },
    }
}

fn request(mode: Option<&str>, message: Option<&str>) -> StatusRequest {
    StatusRequest { mode: mode.map(String::from), message: message.map(String::from) }
}

/// Feeds the chunks in order, then the end of the stream, and returns the
/// first `Done`.
fn read_all(chunks: &[&[u8]]) -> Option<StatusRequest> {
    let mut reader = BodyReader::new();
    for chunk in chunks {
        if let ReadStep::Done(r) = reader.feed(chunk) {
            return r;
        }
    }
    match reader.feed(&[]) {
        ReadStep::Done(r) => r,
        ReadStep::ReadMore => panic!("the end of the stream must finish the read"),
    }
}

#[test]
fn request_target_reads_method_and_path() {
    let (m, p) = request_target(b"POST /status HTTP/1.1\r\nHost: 127.0.0.1\r\n\r\n");
    assert_eq!(m, "POST");
    assert_eq!(p, "/status");
}

#[test]
fn request_target_of_short_lines() {
    assert_eq!(request_target(b""), (String::new(), String::new()));
    assert_eq!(request_target(b"GET"), ("GET".to_string(), String::new()));
    assert_eq!(request_target(b"  GET\t/status  \r\nX: y"), ("GET".to_string(), "/status".to_string()));
    assert_eq!(request_target(b"\r\nGET /status"), (String::new(), String::new()));
}

#[test]
fn request_target_replaces_invalid_utf8() {
    let (m, p) = request_target(b"G\xffT /st\xc3\xa4tus HTTP/1.1\r\n");
    assert_eq!(m, "G\u{FFFD}T");
    assert_eq!(p, "/stätus");
}

#[test]
fn routes() {
    assert_eq!(route_request("GET", "/status"), Route::GetStatus);
    assert_eq!(route_request("POST", "/status"), Route::PostStatus);
    assert_eq!(route_request("PUT", "/status"), Route::NotFound);
    assert_eq!(route_request("GET", "/"), Route::NotFound);
    assert_eq!(route_request("get", "/status"), Route::NotFound);
    assert_eq!(route_request("", ""), Route::NotFound);
}

#[test]
fn reply_status_lines_and_errors() {
    let p = get_state(&fresh_data(), false);
    assert_eq!(HttpReply::Status(p).status_line(), "200 OK");
    assert_eq!(HttpReply::Updated { mode: "idle".to_string() }.status_line(), "200 OK");
    assert_eq!(HttpReply::InvalidBody.status_line(), "400 Bad Request");
    assert_eq!(HttpReply::NoRoute.status_line(), "404 Not Found");
    assert_eq!(HttpReply::InvalidBody.error_text(), Some("无效的 JSON 请求体"));
    assert_eq!(HttpReply::NoRoute.error_text(), Some("未找到路由"));
    assert_eq!(HttpReply::Updated { mode: "idle".to_string() }.error_text(), None);
}

#[test]
fn status_reply_shows_current_state() {
    let d = fresh_data();
    match status_reply(&d, true) {
        HttpReply::Status(p) => {
            assert_eq!(p.current_state.mode, "idle");
            assert_eq!(p.current_state.message, "等待 Agent 连接");
            assert_eq!(p.orientation, "horizontal");
            assert!(p.auto_start);
        }
        other => panic!("unexpected reply {other:?}"),
    }
}

#[test]
fn apply_status_records_report() {
    let mut d = fresh_data();
    let c = apply_status(&mut d, &request(Some("Working"), Some("正在安装依赖")), "55".to_string(), false);
    assert_eq!(d.current_state.mode, "working");
    assert_eq!(d.current_state.message, "正在安装依赖");
    assert_eq!(d.current_state.received_at, "55");
    assert_eq!(c.event.current_state.mode, "working");
    assert_eq!(c.event.current_state.received_at, "55");
    assert_eq!(c.event.orientation, "horizontal");
    assert!(!c.event.auto_start);
    match c.reply {
        HttpReply::Updated { mode } => assert_eq!(mode, "working"),
        other => panic!("unexpected reply {other:?}"),
    }
}

#[test]
fn apply_status_defaults() {
    let mut d = fresh_data();
    d.settings.orientation = Orientation::Vertical;
    let c = apply_status(&mut d, &request(None, None), "9".to_string(), true);
    assert_eq!(d.current_state.mode, "idle");
    assert_eq!(d.current_state.message, "");
    assert_eq!(d.settings.orientation, Orientation::Vertical);
    assert_eq!(c.event.orientation, "vertical");
    assert!(c.event.auto_start);
}

#[test]
fn read_after_report() {
    let mut d = fresh_data();
    handle_http(&mut d, &request(Some("waiting"), Some("等待用户选择")), false);
    match status_reply(&d, false) {
        HttpReply::Status(p) => {
            assert_eq!(p.current_state.mode, "waiting");
            assert_eq!(p.current_state.message, "等待用户选择");
            assert!(p.current_state.received_at.parse::<u64>().is_ok());
        }
        other => panic!("unexpected reply {other:?}"),
    }
}

#[test]
fn last_report_wins() {
    let mut d = fresh_data();
    apply_status(&mut d, &request(Some("error"), Some("boom")), "1".to_string(), false);
    apply_status(&mut d, &request(Some("idle"), None), "2".to_string(), false);
    assert_eq!(d.current_state.mode, "idle");
    assert_eq!(d.current_state.message, "");
    assert_eq!(d.current_state.received_at, "2");
}

#[test]
fn response_framing() {
    let r = http_response("200 OK", "{\"ok\":true}");
    assert_eq!(
        r,
        "HTTP/1.1 200 OK\r\nContent-Type: application/json\r\nContent-Length: 11\r\nConnection: close\r\nAccess-Control-Allow-Origin: *\r\n\r\n{\"ok\":true}"
    );
}

#[test]
fn response_length_counts_utf8_bytes() {
    let body = "{\"error\":\"未找到路由\"}";
    let r = http_response("404 Not Found", body);
    assert!(r.contains(&format!("Content-Length: {}\r\n", body.len())));
    assert!(r.contains("Content-Length: 27\r\n"));
    assert!(r.ends_with(body));
    let empty = http_response("200 OK", "");
    assert!(empty.contains("Content-Length: 0\r\n"));
}

#[test]
fn body_in_one_chunk() {
    let r = read_all(&[b"POST /status HTTP/1.1\r\nContent-Type: application/json\r\nContent-Length: 33\r\n\r\n{\"mode\":\"working\",\"message\":\"go\"}"]).unwrap();
    assert_eq!(r.mode.as_deref(), Some("working"));
    assert_eq!(r.message.as_deref(), Some("go"));
}

#[test]
fn body_finishes_without_end_of_stream() {
    let mut reader = BodyReader::new();
    let step = reader.feed(b"POST /status HTTP/1.1\r\nContent-Length: 16\r\n\r\n{\"mode\":\"error\"}");
    match step {
        ReadStep::Done(Some(r)) => {
            assert_eq!(r.mode.as_deref(), Some("error"));
            assert_eq!(r.message, None);
        }
        other => panic!("unexpected step {other:?}"),
    }
}

#[test]
fn body_split_over_chunks() {
    let mut reader = BodyReader::new();
    assert!(matches!(reader.feed(b"POST /status HTTP/1.1\r\nCont"), ReadStep::ReadMore));
    assert!(matches!(reader.feed(b"ent-length: 18\r\n\r"), ReadStep::ReadMore));
    assert!(matches!(reader.feed(b"\n{\"mode\":"), ReadStep::ReadMore));
    match reader.feed(b"\"waiting\"}") {
        ReadStep::Done(Some(r)) => assert_eq!(r.mode.as_deref(), Some("waiting")),
        other => panic!("unexpected step {other:?}"),
    }
}

#[test]
fn content_length_header_any_case_and_spacing() {
    let r = read_all(&[b"POST /status HTTP/1.1\r\nCONTENT-LENGTH:\t +16 \r\n\r\n", b"{\"mode\":\"error\"}"]).unwrap();
    assert_eq!(r.mode.as_deref(), Some("error"));
}

#[test]
fn missing_content_length_reads_what_came_with_headers() {
    let r = read_all(&[b"POST /status HTTP/1.1\r\n\r\n{\"mode\":\"idle\",\"message\":\"done\"}"]).unwrap();
    assert_eq!(r.mode.as_deref(), Some("idle"));
    assert_eq!(r.message.as_deref(), Some("done"));
    let mut reader = BodyReader::new();
    match reader.feed(b"POST /status HTTP/1.1\r\n\r\n") {
        ReadStep::Done(r) => assert!(r.is_none()),
        other => panic!("unexpected step {other:?}"),
    }
}

#[test]
fn malformed_content_length_counts_as_zero() {
    let mut reader = BodyReader::new();
    match reader.feed(b"POST / HTTP/1.1\r\nContent-Length: 1x\r\nContent-Length: 99999999999999999999999\r\n\r\n{}") {
        ReadStep::Done(Some(r)) => {
            assert_eq!(r.mode, None);
            assert_eq!(r.message, None);
        }
        other => panic!("unexpected step {other:?}"),
    }
}

#[test]
fn later_header_line_is_used_when_first_is_malformed() {
    let mut reader = BodyReader::new();
    assert!(matches!(
        reader.feed(b"POST / HTTP/1.1\r\nContent-Length: abc\r\ncontent-length: 16\r\n\r\n{\"mode\":"),
        ReadStep::ReadMore
    ));
    match reader.feed(b"\"error\"}") {
        ReadStep::Done(Some(r)) => assert_eq!(r.mode.as_deref(), Some("error")),
        other => panic!("unexpected step {other:?}"),
    }
}

#[test]
fn stream_ending_before_headers_gives_nothing() {
    assert!(read_all(&[]).is_none());
    assert!(read_all(&[b"POST /status HTTP/1.1\r\nContent-Length: 2\r\n"]).is_none());
}

#[test]
fn stream_ending_early_parses_partial_body() {
    assert!(read_all(&[b"POST /status HTTP/1.1\r\nContent-Length: 40\r\n\r\n{\"mode\":\"error\"}"]).is_some());
    assert!(read_all(&[b"POST /status HTTP/1.1\r\nContent-Length: 40\r\n\r\n{\"mode\":"]).is_none());
}

#[test]
fn invalid_json_body_gives_nothing() {
    assert!(read_all(&[b"POST /status HTTP/1.1\r\nContent-Length: 8\r\n\r\nnot json"]).is_none());
}

#[test]
fn non_string_members_are_absent() {
    let r = read_all(&[b"POST /status HTTP/1.1\r\nContent-Length: 28\r\n\r\n{\"mode\":3,\"message\":[\"x\"]}  "]).unwrap();
    assert_eq!(r.mode, None);
    assert_eq!(r.message, None);
}

#[test]
fn body_with_multibyte_text() {
    let body = "{\"mode\":\"working\",\"message\":\"正在安装依赖\"}";
    let head = format!("POST /status HTTP/1.1\r\nContent-Length: {}\r\n\r\n", body.len());
    let bytes = body.as_bytes();
    let (a, b) = bytes.split_at(34);
    let r = read_all(&[head.as_bytes(), a, b]).unwrap();
    assert_eq!(r.message.as_deref(), Some("正在安装依赖"));
}

#[test]
fn invalid_utf8_in_body_is_replaced() {
    let r = read_all(&[b"POST /status HTTP/1.1\r\nContent-Length: 30\r\n\r\n{\"mode\":\"error\",\"message\":\"\xff\"}"]).unwrap();
    assert_eq!(r.mode.as_deref(), Some("error"));
    assert_eq!(r.message.as_deref(), Some("\u{FFFD}"));
}

#[test]
fn unreadable_post_is_refused_and_changes_nothing() {
    let mut d = fresh_data();
    let (reply, event) = post_status(&mut d, None, true);
    assert!(matches!(reply, HttpReply::InvalidBody));
    assert_eq!(reply.status_line(), "400 Bad Request");
    assert!(event.is_none());
    assert_eq!(d.current_state.mode, "idle");
    assert_eq!(d.current_state.message, "等待 Agent 连接");
    assert_eq!(d.current_state.received_at, "1");
}

#[test]
fn readable_post_is_recorded() {
    let mut d = fresh_data();
    let (reply, event) = post_status(&mut d, Some(request(Some("error"), Some("命令失败"))), false);
    match reply {
        HttpReply::Updated { mode } => assert_eq!(mode, "error"),
        other => panic!("unexpected reply {other:?}"),
    }
    let e = event.unwrap();
    assert_eq!(e.current_state.mode, "error");
    assert_eq!(e.current_state.message, "命令失败");
    assert_eq!(d.current_state.mode, "error");
}

#[test]
fn unicode_whitespace_separates_and_trims() {
    assert_eq!(
        request_target("GET\u{3000}/status\u{A0}HTTP/1.1".as_bytes()),
        ("GET".to_string(), "/status".to_string())
    );
    let head = "POST /status HTTP/1.1\r\nContent-Length:\u{3000}16\u{2003}\r\n\r\n";
    let mut reader = BodyReader::new();
    assert!(matches!(reader.feed(head.as_bytes()), ReadStep::ReadMore));
    match reader.feed(b"{\"mode\":\"error\"}") {
        ReadStep::Done(Some(r)) => assert_eq!(r.mode.as_deref(), Some("error")),
        other => panic!("unexpected step {other:?}"),
    }
}
