use coding_plan_manager::usage::{extract_model, parse_json_usage, parse_sse_usage, parse_usage, SseUsageTracker};

#[test]
fn openai_json() {
    let body = r#"{"id":"x","choices":[],"usage":{"prompt_tokens":12,"completion_tokens":34,"total_tokens":46}}"#;
    let u = parse_json_usage(body);
    assert_eq!(u.prompt_tokens, 12);
    assert_eq!(u.completion_tokens, 34);
    assert_eq!(u.total_tokens, 46);
}

#[test]
fn anthropic_json() {
    let body = r#"{"id":"msg","usage":{"input_tokens":7,"output_tokens":9}}"#;
    let u = parse_json_usage(body);
    assert_eq!(u.prompt_tokens, 7);
    assert_eq!(u.completion_tokens, 9);
    assert_eq!(u.total_tokens, 16);
}

#[test]
fn anthropic_json_with_cache() {
    let body = r#"{"id":"msg","usage":{"input_tokens":1200,"cache_creation_input_tokens":8000,"cache_read_input_tokens":91000,"output_tokens":500}}"#;
    let u = parse_json_usage(body);
    assert_eq!(u.prompt_tokens, 1200);
    assert_eq!(u.completion_tokens, 500);
    assert_eq!(u.cache_creation_tokens, 8000);
    assert_eq!(u.cache_read_tokens, 91000);
    assert_eq!(u.total_tokens, 1200 + 8000 + 91000 + 500);
}

#[test]
fn no_usage() {
    let u = parse_json_usage(r#"{"ok":true}"#);
    assert_eq!(u.total_tokens, 0);
    let u = parse_json_usage("not json");
    assert_eq!(u.total_tokens, 0);
}

#[test]
fn anthropic_sse() {
    let body = "\
event: message_start\n\
data: {\"type\":\"message_start\",\"message\":{\"usage\":{\"input_tokens\":100,\"output_tokens\":2}}}\n\
\n\
event: content_block_delta\n\
data: {\"type\":\"content_block_delta\",\"delta\":{\"type\":\"text_delta\",\"text\":\"hi\"}}\n\
\n\
event: message_delta\n\
data: {\"type\":\"message_delta\",\"delta\":{\"stop_reason\":\"end_turn\"},\"usage\":{\"output_tokens\":57}}\n\
\n\
event: message_stop\n\
data: {\"type\":\"message_stop\"}\n";
    let u = parse_sse_usage(body);
    assert_eq!(u.prompt_tokens, 100);
    assert_eq!(u.completion_tokens, 57);
    assert_eq!(u.total_tokens, 157);
}

#[test]
fn anthropic_sse_with_cache() {
    let body = "\
data: {\"type\":\"message_start\",\"message\":{\"usage\":{\"input_tokens\":1000,\"cache_read_input_tokens\":50000,\"cache_creation_input_tokens\":2000,\"output_tokens\":1}}}\n\
\n\
data: {\"type\":\"message_delta\",\"delta\":{},\"usage\":{\"output_tokens\":300}}\n";
    let u = parse_sse_usage(body);
    assert_eq!(u.prompt_tokens, 1000);
    assert_eq!(u.completion_tokens, 300);
    assert_eq!(u.cache_read_tokens, 50000);
    assert_eq!(u.cache_creation_tokens, 2000);
    assert_eq!(u.total_tokens, 1000 + 50000 + 2000 + 300);
}

#[test]
fn openai_sse() {
    let body = "\
data: {\"choices\":[{\"delta\":{\"content\":\"a\"}}]}\n\
\n\
data: {\"choices\":[],\"usage\":{\"prompt_tokens\":8,\"completion_tokens\":20,\"total_tokens\":28}}\n\
\n\
data: [DONE]\n";
    let u = parse_sse_usage(body);
    assert_eq!(u.prompt_tokens, 8);
    assert_eq!(u.completion_tokens, 20);
    assert_eq!(u.total_tokens, 28);
}

#[test]
fn sse_tracker_incremental_across_chunks() {
    let full = "data: {\"type\":\"message_start\",\"message\":{\"usage\":{\"input_tokens\":30,\"output_tokens\":1}}}\n\
                \n\
                data: {\"type\":\"content_block_delta\",\"delta\":{\"text\":\"汉字\"}}\n\
                \n\
                data: {\"type\":\"message_delta\",\"usage\":{\"output_tokens\":9}}\n\n";
    let mut t = SseUsageTracker::new();
    for b in full.as_bytes() {
        t.feed(std::slice::from_ref(b));
    }
    let u = t.finish();
    assert_eq!(u.prompt_tokens, 30);
    assert_eq!(u.completion_tokens, 9);
    assert_eq!(u.total_tokens, 39);
}

#[test]
fn sse_tracker_unterminated_last_line() {
    let mut t = SseUsageTracker::new();
    t.feed(b"data: {\"usage\":{\"prompt_tokens\":5,\"completion_tokens\":6,\"total_tokens\":11}}");
    let u = t.finish();
    assert_eq!(u.total_tokens, 11);
}

#[test]
fn dispatch_by_content_type() {
    let sse = "data: {\"usage\":{\"input_tokens\":3,\"output_tokens\":4}}";
    assert_eq!(parse_usage("text/event-stream", sse).total_tokens, 7);
    assert_eq!(parse_usage("application/json", sse).total_tokens, 0);
    assert_eq!(parse_usage("application/json", "{}").total_tokens, 0);
    assert_eq!(parse_usage("text/event-stream", "").total_tokens, 0);
}

#[test]
fn model_extraction() {
    assert_eq!(extract_model(r#"{"model":"glm-4.7","messages":[]}"#, r#"{"model":"other"}"#), "glm-4.7");
    assert_eq!(extract_model("", r#"{"model":"sonnet-5"}"#), "sonnet-5");
    let sse = "data: {\"type\":\"message_start\",\"message\":{\"model\":\"haiku-4.5\"}}";
    assert_eq!(extract_model("", sse), "haiku-4.5");
    assert_eq!(extract_model("", ""), "");
}

#[test]
fn chunking_does_not_change_the_usage() {
    let body = "data: {\"usage\":{\"input_tokens\":4,\"output_tokens\":6}}\r\n\r\ndata: [DONE]\n";
    let whole = parse_sse_usage(body);
    for split in 0..body.len() {
        let mut t = SseUsageTracker::new();
        t.feed(&body.as_bytes()[..split]);
        t.feed(&body.as_bytes()[split..]);
        let u = t.finish();
        assert_eq!((u.prompt_tokens, u.completion_tokens, u.total_tokens), (whole.prompt_tokens, whole.completion_tokens, whole.total_tokens));
    }
    assert_eq!(whole.total_tokens, 10);
}

#[test]
fn later_usage_fields_override_earlier_ones() {
    let body = "data: {\"usage\":{\"prompt_tokens\":1,\"completion_tokens\":1}}\n\
data: {\"usage\":{\"completion_tokens\":5}}\n";
    let u = parse_sse_usage(body);
    assert_eq!((u.prompt_tokens, u.completion_tokens, u.total_tokens), (1, 5, 6));
}

#[test]
fn inserted_ignored_lines_change_nothing() {
    let body = "data: {\"usage\":{\"input_tokens\":3}}\ndata: {\"usage\":{\"output_tokens\":4}}\n";
    let with_lines = "event: ping\ndata: {\"usage\":{\"input_tokens\":3}}\n: keep-alive\n\ndata: [DONE]\ndata: {\"type\":\"ping\"}\ndata: {\"usage\":{\"output_tokens\":4}}\n";
    let a = parse_sse_usage(body);
    let b = parse_sse_usage(with_lines);
    assert_eq!(
        (a.prompt_tokens, a.completion_tokens, a.cache_read_tokens, a.cache_creation_tokens, a.total_tokens),
        (b.prompt_tokens, b.completion_tokens, b.cache_read_tokens, b.cache_creation_tokens, b.total_tokens)
    );
    assert_eq!(a.total_tokens, 7);
}

#[test]
fn unterminated_line_counts_as_terminated() {
    let x = b"data: {\"usage\":{\"input_tokens\":2,\"output_tokens\":\xe2\x80\x9c}}";
    let y = b"data: {\"usage\":{\"input_tokens\":2,\"output_tokens\":5}}";
    for line in [&x[..], &y[..]] {
        let mut t1 = SseUsageTracker::new();
        t1.feed(line);
        let mut t2 = SseUsageTracker::new();
        t2.feed(&[line, b"\n"].concat());
        let (a, b) = (t1.finish(), t2.finish());
        assert_eq!(
            (a.prompt_tokens, a.completion_tokens, a.cache_read_tokens, a.cache_creation_tokens, a.total_tokens),
            (b.prompt_tokens, b.completion_tokens, b.cache_read_tokens, b.cache_creation_tokens, b.total_tokens)
        );
    }
    let mut t = SseUsageTracker::new();
    t.feed(y);
    assert_eq!(t.finish().total_tokens, 7);
}
