use clipboard_history::history::History;
use clipboard_history::protocol::{encode_response, parse_request, respond, serve_line};

fn serve(h: &History, line: &str) -> Option<String> {
    serve_line(h, line)
}

#[test]
fn protocol_round_trip() {
    let mut h = History::new();
    h.insert("x");
    h.insert("y");
    h.insert("z");
    assert_eq!(parse_request("{\"count\":2}"), Some(2));
    assert_eq!(serve(&h, "{\"count\":2}"), Some("[\"z\",\"y\"]\n".to_string()));
}

#[test]
fn malformed_request_resilience() {
    let mut h = History::new();
    h.insert("only");
    let replies: Vec<String> = ["hello", "{\"count\":1}"]
        .iter()
        .filter_map(|line| serve(&h, line))
        .collect();
    assert_eq!(replies, vec!["[\"only\"]\n".to_string()]);
}

#[test]
fn request_parsing() {
    assert_eq!(parse_request("{\"count\": 0}"), Some(0));
    assert_eq!(parse_request("{\"count\":-1}"), None);
    assert_eq!(parse_request("{\"other\":1}"), None);
    assert_eq!(parse_request("not json"), None);
    assert_eq!(parse_request(""), None);
}

#[test]
fn respond_clamps_large_counts() {
    let mut h = History::new();
    h.insert("a");
    h.insert("b");
    let r = respond(&h, u64::MAX);
    assert_eq!(r, vec!["b".to_string(), "a".to_string()]);
    assert_eq!(serve(&h, "{\"count\":0}"), Some("[]\n".to_string()));
}

#[test]
fn encode_escapes_strings() {
    let items = vec!["say \"hi\"".to_string()];
    assert_eq!(encode_response(&items), "[\"say \\\"hi\\\"\"]\n".to_string());
    assert_eq!(encode_response(&Vec::new()), "[]\n".to_string());
}

#[test]
fn parts_compose_like_serve_line() {
    let mut h = History::new();
    h.insert("x");
    h.insert("y");
    let count = parse_request("{\"count\":5}").unwrap();
    assert_eq!(encode_response(&respond(&h, count)), "[\"y\",\"x\"]\n".to_string());
}
