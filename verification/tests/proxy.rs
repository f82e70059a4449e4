use coding_plan_manager::db::{self, CodingPlan};
use coding_plan_manager::proxy::{
    admission, bearer_value, buffered_record, cap_store, decode_sse_stored, error_body,
    forward_request_header, forward_response_header, is_authorized, presented_token, read_failed,
    record_exchange, response_fits, route_step, send_failed, sends_body, stored_request, streamed_record,
    upstream_url, ErrorReply, ExchangeRecord, Step, StreamCapture, MAX_STORED_BODY,
};
use coding_plan_manager::strategy::StrategyPick;
use coding_plan_manager::usage::Usage;

#[test]
fn cap_store_short_untouched() {
    assert_eq!(cap_store("hello"), "hello");
    assert_eq!(cap_store(""), "");
}

#[test]
fn cap_store_truncates_multibyte_on_boundary() {
    let s = "汉".repeat(MAX_STORED_BODY / 3 + 10);
    assert!(s.len() > MAX_STORED_BODY);
    let out = cap_store(&s);
    assert!(out.len() < s.len());
    assert!(out.ends_with("\n…[已截断]"), "应带截断标记");
    let body = out.strip_suffix("\n…[已截断]").unwrap();
    assert!(body.chars().all(|c| c == '汉'), "截断不应撕裂多字节字符");
}

#[test]
fn cap_store_keeps_the_longest_fitting_prefix() {
    let s = "汉".repeat(MAX_STORED_BODY / 3 + 10);
    let out = cap_store(&s);
    let body = out.strip_suffix("\n…[已截断]").unwrap();
    // 2097152 = 3 * 699050 + 2: the last whole character ends at byte 2097150.
    assert_eq!(body.len(), 2097150);
    let exact = "a".repeat(MAX_STORED_BODY);
    assert_eq!(cap_store(&exact), exact);
    let over = "a".repeat(MAX_STORED_BODY + 1);
    assert_eq!(cap_store(&over), format!("{}\n…[已截断]", "a".repeat(MAX_STORED_BODY)));
}

#[test]
fn decode_sse_stored_multibyte_intact() {
    assert_eq!(decode_sse_stored("abc汉def".as_bytes(), false), "abc汉def");
    assert_eq!(decode_sse_stored(b"", false), "");
}

#[test]
fn decode_sse_stored_truncated_mid_char() {
    let out = decode_sse_stored(b"abc\xe6\xb1", true);
    assert_eq!(out, "abc\n…[已截断]");
    assert!(!out.contains('\u{FFFD}'), "不应残留替换符: {out:?}");
}

#[test]
fn decode_sse_stored_truncated_on_boundary() {
    assert_eq!(decode_sse_stored("abc汉".as_bytes(), true), "abc汉\n…[已截断]");
}

#[test]
fn capture_keeps_the_stream_prefix_across_chunks() {
    let mut c = StreamCapture::new();
    let part = vec![b'x'; MAX_STORED_BODY - 2];
    c.push(&part);
    c.push("汉".as_bytes());
    let text = c.stored_text();
    // The cut tears the character; its replacement character is dropped and the marker added.
    assert_eq!(text, format!("{}\n…[已截断]", "x".repeat(MAX_STORED_BODY - 2)));
    let mut whole = StreamCapture::new();
    whole.push(b"data: 1\n");
    whole.push(b"data: 2\n");
    assert_eq!(whole.stored_text(), "data: 1\ndata: 2\n");
}

#[test]
fn capture_marks_a_chunk_arriving_when_full() {
    let mut c = StreamCapture::new();
    c.push(&vec![b'y'; MAX_STORED_BODY]);
    assert!(!c.stored_text().ends_with("[已截断]"));
    c.push(b"");
    assert!(c.stored_text().ends_with("\n…[已截断]"));
}

#[test]
fn presented_token_prefers_authorization() {
    assert_eq!(presented_token(Some("Bearer  abc "), Some("k")), Some("abc".to_string()));
    assert_eq!(presented_token(Some("bEaReR xyz"), None), Some("xyz".to_string()));
    assert_eq!(presented_token(Some(" raw "), None), Some("raw".to_string()));
    assert_eq!(presented_token(Some("Bearer "), None), Some("Bearer".to_string()));
    assert_eq!(presented_token(None, Some(" key ")), Some("key".to_string()));
    assert_eq!(presented_token(None, None), None);
    assert!(is_authorized(&Some("t".into()), &"t".to_string()));
    assert!(!is_authorized(&None, &"t".to_string()));
}

#[test]
fn headers_forwarded_and_skipped() {
    for h in ["host", "authorization", "x-api-key", "accept-encoding", "connection", "te"] {
        assert!(!forward_request_header(h), "{h}");
    }
    for h in ["anthropic-version", "anthropic-beta", "x-custom-header", "content-type"] {
        assert!(forward_request_header(h), "{h}");
    }
    assert!(!forward_response_header("content-length"));
    assert!(!forward_response_header("transfer-encoding"));
    assert!(forward_response_header("content-type"));
    assert!(forward_response_header("host"));
}

#[test]
fn upstream_request_shape() {
    assert_eq!(upstream_url("https://a.example/api//", "/v1/messages?beta=true"), "https://a.example/api/v1/messages?beta=true");
    assert_eq!(upstream_url("http://x", "/"), "http://x/");
    assert_eq!(bearer_value("tok"), "Bearer tok");
    assert!(sends_body(0, "POST"));
    assert!(sends_body(0, "PATCH"));
    assert!(!sends_body(0, "GET"));
    assert!(sends_body(3, "GET"));
    assert!(response_fits(0, 67108864));
    assert!(!response_fits(1, 67108864));
}

#[test]
fn error_bodies_and_replies() {
    assert_eq!(
        error_body("api_error", "x\"y"),
        r#"{"error":{"message":"x\"y","type":"api_error"}}"#
    );
    let r = ErrorReply::unauthorized();
    assert_eq!((r.status, r.err_type.as_str()), (401, "authentication_error"));
    assert_eq!(r.body(), r#"{"error":{"message":"无效的 AUTH_TOKEN","type":"authentication_error"}}"#);
    assert_eq!(ErrorReply::no_plan().status, 503);
    assert_eq!(ErrorReply::bad_method().status, 405);
    assert_eq!(ErrorReply::strategy_failed("boom").message, "转发策略执行失败: boom");
    assert_eq!(ErrorReply::bad_request_body("eof").message, "请求体读取失败: eof");
}

fn agg(token: &str) -> db::Aggregator {
    db::Aggregator {
        id: 7,
        name: "g".into(),
        port: 8300,
        auth_token: token.into(),
        strategy: "threshold_rotation".into(),
        token_threshold: 100,
        current_plan_id: None,
        created_at: "2020-01-01 00:00:00".into(),
    }
}

fn pick() -> StrategyPick {
    StrategyPick {
        binding_id: 3,
        plan: CodingPlan {
            id: 5,
            name: "p".into(),
            base_url: "https://a".into(),
            auth_token: "t".into(),
            remark: "".into(),
            enabled: true,
            models: vec![],
            created_at: "".into(),
        },
    }
}

#[test]
fn admission_decisions() {
    match admission(7, &None, &Some("x".into())) {
        Step::Refuse { reply, record } => {
            assert_eq!(reply.status, 500);
            assert!(record.is_none());
        }
        Step::Proceed => panic!("an unreadable configuration must be refused"),
    }
    match admission(7, &Some(agg("cpm-a")), &Some("wrong".into())) {
        Step::Refuse { reply, record } => {
            assert_eq!(reply.status, 401);
            let rec = record.unwrap();
            assert_eq!((rec.status, rec.aggregator_id, rec.plan_id), (401, 7, None));
            assert_eq!(rec.response_body, "鉴权失败：无效的 AUTH_TOKEN");
        }
        Step::Proceed => panic!("a wrong token must be refused"),
    }
    assert!(matches!(admission(7, &Some(agg("cpm-a")), &Some("cpm-a".into())), Step::Proceed));
}

#[test]
fn routing_and_failure_records() {
    let req = r#"{"model":"glm-4.7"}"#.to_string();
    match route_step(7, &Ok(None), &req) {
        Step::Refuse { reply, record } => {
            assert_eq!((reply.status, reply.err_type.as_str()), (503, "overloaded_error"));
            let rec = record.unwrap();
            assert_eq!(rec.model, "glm-4.7");
            assert_eq!(rec.request_body, req);
        }
        Step::Proceed => panic!("no plan must be refused"),
    }
    assert!(matches!(route_step(7, &Ok(Some(pick())), &req), Step::Proceed));
    match route_step(7, &Err("locked".into()), &req) {
        Step::Refuse { reply, record } => {
            assert_eq!(reply.message, "转发策略执行失败: locked");
            assert!(record.is_none());
        }
        Step::Proceed => panic!(),
    }
    let (reply, rec) = send_failed(7, 5, &req, "refused");
    assert_eq!(reply.message, "上游请求失败: refused");
    assert_eq!((rec.status, rec.plan_id, rec.binding_id), (502, Some(5), None));
    let (reply, rec) = read_failed(7, &pick(), &req, "上游响应过大".into());
    assert_eq!(reply.status, 502);
    assert_eq!(rec.binding_id, Some(3));
}

#[test]
fn answered_records_parse_usage_and_model() {
    let req = String::new();
    let body = r#"{"model":"m","usage":{"input_tokens":2,"output_tokens":3}}"#;
    let rec = buffered_record(7, &pick(), 200, "application/json", &req, body);
    assert_eq!(rec.usage.total_tokens, 5);
    assert_eq!(rec.model, "m");
    assert_eq!(rec.response_body, body);
    let mut c = StreamCapture::new();
    c.push(b"data: {\"usage\":{\"input_tokens\":3,");
    c.push(b"\"output_tokens\":4}}\n");
    let rec = streamed_record(7, &pick(), 200, &req, &c);
    assert_eq!(rec.usage.total_tokens, 7);
    assert_eq!(rec.binding_id, Some(3));
}

#[test]
fn recording_counts_usage_on_the_binding() {
    let mut conn = db::init_db(":memory:").unwrap();
    let p = db::create_plan(&mut conn, "p", "https://a", "t", "", &[]).unwrap();
    let a = db::create_aggregator(&mut conn, "g", 8300, "cpm", 100, db::STRATEGY_THRESHOLD_ROTATION).unwrap();
    db::set_aggregator_plans(&mut conn, a.id, &[p.id]).unwrap();
    let b = db::list_bindings(&mut conn, a.id).unwrap().remove(0);
    let rec = ExchangeRecord {
        aggregator_id: a.id,
        plan_id: Some(p.id),
        binding_id: Some(b.binding_id),
        status: 200,
        request_body: "req".into(),
        response_body: "resp".into(),
        model: "m".into(),
        usage: Usage { prompt_tokens: 1, completion_tokens: 2, cache_read_tokens: 0, cache_creation_tokens: 0, total_tokens: 3 },
    };
    let row = record_exchange(&mut conn, "POST", "/v1/messages", rec, 12).unwrap();
    assert_eq!((row.status, row.total_tokens, row.duration_ms), (200, 3, 12));
    assert_eq!(row.plan_name.as_deref(), Some("p"));
    assert_eq!(row.aggregator_name.as_deref(), Some("g"));
    assert_eq!(db::list_bindings(&mut conn, a.id).unwrap()[0].used_tokens, 3);
}

#[test]
fn decode_keeps_a_genuine_replacement_character() {
    assert_eq!(decode_sse_stored("ab\u{FFFD}".as_bytes(), true), "ab\u{FFFD}\n…[已截断]");
    // A four-byte character cut after three bytes is torn.
    assert_eq!(decode_sse_stored(b"ab\xf0\x9f\x98", true), "ab\n…[已截断]");
    // A stray continuation byte is not a torn character: its replacement stays.
    assert_eq!(decode_sse_stored(b"ab\x80", true), "ab\u{FFFD}\n…[已截断]");
}

#[test]
fn recording_a_refusal_leaves_usage_alone() {
    let mut conn = db::init_db(":memory:").unwrap();
    let p = db::create_plan(&mut conn, "p", "https://a", "t", "", &[]).unwrap();
    let a = db::create_aggregator(&mut conn, "g", 8300, "cpm", 100, db::STRATEGY_THRESHOLD_ROTATION).unwrap();
    db::set_aggregator_plans(&mut conn, a.id, &[p.id]).unwrap();
    let b = db::list_bindings(&mut conn, a.id).unwrap().remove(0);
    db::add_binding_usage(&mut conn, b.binding_id, 40).unwrap();
    let rec = ExchangeRecord {
        aggregator_id: a.id,
        plan_id: None,
        binding_id: None,
        status: 401,
        request_body: String::new(),
        response_body: "denied".into(),
        model: String::new(),
        usage: Usage { prompt_tokens: 0, completion_tokens: 0, cache_read_tokens: 0, cache_creation_tokens: 0, total_tokens: 0 },
    };
    let row = record_exchange(&mut conn, "POST", "/v1/messages", rec, 1).unwrap();
    assert_eq!((row.status, row.total_tokens, row.plan_id), (401, 0, None));
    assert_eq!(db::list_bindings(&mut conn, a.id).unwrap()[0].used_tokens, 40);
    let (total, _) = db::list_messages(&mut conn, Some(a.id), 10, 0).unwrap();
    assert_eq!(total, 1);
}

#[test]
fn streamed_usage_counts_beyond_the_stored_cap() {
    let req = String::new();
    let mut c = StreamCapture::new();
    c.push(b"data: {\"type\":\"message_start\",\"message\":{\"usage\":{\"input_tokens\":5}}}\n");
    let filler = ": keep-alive\n".repeat(MAX_STORED_BODY / 13 + 1000);
    c.push(filler.as_bytes());
    c.push(b"data: {\"type\":\"message_delta\",\"usage\":{\"output_tokens\":9}}\n");
    let rec = streamed_record(7, &pick(), 200, &req, &c);
    assert!(rec.response_body.ends_with("\n…[已截断]"));
    assert_eq!(rec.usage.prompt_tokens, 5);
    assert_eq!(rec.usage.completion_tokens, 9);
    assert_eq!(rec.usage.total_tokens, 14);
}

#[test]
fn stored_request_decodes_lossily() {
    assert_eq!(stored_request(b"ab\xffc"), "ab\u{FFFD}c");
    assert_eq!(stored_request(b"{}"), "{}");
}
