//! The request-log records: timestamp rendering, field extraction, the two
//! output modes, escaping, and one-record-per-line discipline.
use serve::clock::{format_timestamp, Timestamp};
use serve::http::{Header, Request};
use serve::log_record::{json_log_record, text_log_record};

fn bytes(s: &str) -> Vec<u8> {
    s.as_bytes().to_vec()
}

fn request(method: &str, uri: &str, headers: &[(&str, &str)], remote: Option<&str>) -> Request {
    Request {
        method: bytes(method),
        uri: bytes(uri),
        headers: headers
            .iter()
            .map(|(n, v)| Header { name: bytes(n), value: bytes(v) })
            .collect(),
        remote: remote.map(bytes),
    }
}

fn ts_2024() -> Timestamp {
    Timestamp { year: 2024, month: 1, day: 2, hour: 3, minute: 4, second: 5, milli: 678 }
}

#[test]
fn timestamp_renders_iso8601_millis() {
    assert_eq!(format_timestamp(&ts_2024()), bytes("2024-01-02T03:04:05.678Z"));
}

#[test]
fn timestamp_pads_every_component() {
    let t = Timestamp { year: 33, month: 12, day: 31, hour: 23, minute: 59, second: 59, milli: 7 };
    assert_eq!(format_timestamp(&t), bytes("0033-12-31T23:59:59.007Z"));
}

#[test]
fn timestamp_handles_leap_second_millis() {
    let t = Timestamp { year: 2016, month: 12, day: 31, hour: 23, minute: 59, second: 59, milli: 1999 };
    assert_eq!(format_timestamp(&t), bytes("2016-12-31T23:59:59.1999Z"));
}

#[test]
fn timestamp_signs_negative_years() {
    let t = Timestamp { year: -44, month: 3, day: 15, hour: 12, minute: 0, second: 0, milli: 0 };
    assert_eq!(format_timestamp(&t), bytes("-0044-03-15T12:00:00.000Z"));
}

#[test]
fn json_record_carries_request_and_headers() {
    let req = request(
        "GET",
        "/ping",
        &[("Host", "example.com"), ("User-Agent", "curl/8"), ("X-Dup", "a"), ("X-Dup", "b")],
        Some("127.0.0.1"),
    );
    let ts = format_timestamp(&ts_2024());
    let rec = json_log_record(&ts, &req);
    let v: serde_json::Value = serde_json::from_slice(&rec).expect("record must parse");
    assert_eq!(v["ts"], "2024-01-02T03:04:05.678Z");
    assert_eq!(v["remote_addr"], "127.0.0.1");
    assert_eq!(v["method"], "GET");
    assert_eq!(v["uri"], "/ping");
    assert_eq!(v["headers"]["Host"], "example.com");
    assert_eq!(v["headers"]["User-Agent"], "curl/8");
    assert_eq!(v["headers"]["X-Dup"], "b");
    assert_eq!(v["headers"].as_object().unwrap().len(), 3);
}

#[test]
fn json_record_dashes_unknown_remote() {
    let req = request("GET", "/x", &[], None);
    let ts = bytes("2024-01-02T03:04:05.678Z");
    let v: serde_json::Value = serde_json::from_slice(&json_log_record(&ts, &req)).unwrap();
    assert_eq!(v["remote_addr"], "-");
    assert_eq!(v["headers"].as_object().unwrap().len(), 0);
}

#[test]
fn json_record_escapes_and_round_trips() {
    let tricky = "a\"b\\c\nd\te";
    let req = request("POST", "/dump", &[("X-Odd", tricky)], Some("::1"));
    let ts = bytes("2024-01-02T03:04:05.678Z");
    let rec = json_log_record(&ts, &req);
    assert!(!rec.contains(&b'\n'), "an emitted record is one line");
    let v: serde_json::Value = serde_json::from_slice(&rec).unwrap();
    assert_eq!(v["headers"]["X-Odd"], tricky);
}

#[test]
fn text_record_fixed_order_and_dashes() {
    let req = request("GET", "/ping", &[("User-Agent", "curl/8")], Some("127.0.0.1"));
    let ts = format_timestamp(&ts_2024());
    let line = text_log_record(&ts, &req);
    assert_eq!(
        line,
        bytes("2024-01-02T03:04:05.678Z \"127.0.0.1\" \"GET\" \"/ping\" \"-\" \"curl/8\" \"-\" \"-\"")
    );
}

#[test]
fn text_record_extracts_all_fields() {
    let req = request(
        "POST",
        "/dump",
        &[
            ("Referer", "http://example.com/"),
            ("user-agent", "curl/8"),
            ("Cookie", "a=1"),
            ("cookie", "b=2"),
            ("Authorization", "Basic demo"),
        ],
        None,
    );
    let ts = bytes("t");
    let line = text_log_record(&ts, &req);
    assert_eq!(
        line,
        bytes(
            "t \"-\" \"POST\" \"/dump\" \"http://example.com/\" \"curl/8\" \"a=1,b=2\" \"Basic demo\""
        )
    );
}

#[test]
fn text_record_dashes_empty_referrer_and_authorization() {
    let req = request("GET", "/x", &[("Referer", ""), ("Authorization", "")], None);
    let line = text_log_record(&bytes("t"), &req);
    assert_eq!(line, bytes("t \"-\" \"GET\" \"/x\" \"-\" \"-\" \"-\" \"-\""));
}

#[test]
fn many_records_stay_one_line_each() {
    let ts = format_timestamp(&ts_2024());
    let mut sink: Vec<u8> = Vec::new();
    let n = 16;
    for i in 0..n {
        let value = format!("agent-{}\nwith-newline", i);
        let req = request(
            "GET",
            "/ping",
            &[("User-Agent", &value), ("X-N", &format!("{}", i))],
            Some("10.0.0.1"),
        );
        let rec = json_log_record(&ts, &req);
        assert!(!rec.contains(&b'\n'));
        sink.extend_from_slice(&rec);
        sink.push(b'\n');
    }
    let text = String::from_utf8(sink).unwrap();
    let lines: Vec<&str> = text.lines().collect();
    assert_eq!(lines.len(), n);
    for (i, line) in lines.iter().enumerate() {
        let v: serde_json::Value = serde_json::from_str(line).expect("each line parses");
        assert_eq!(v["headers"]["X-N"], format!("{}", i));
    }
}

#[test]
fn live_clock_record_parses_with_a_real_timestamp() {
    let req = request("GET", "/ping", &[("Host", "h")], Some("127.0.0.1"));
    let rec = serve::log_record::json_log_record_now(&req);
    assert!(!rec.contains(&b'\n'));
    let v: serde_json::Value = serde_json::from_slice(&rec).unwrap();
    let ts = v["ts"].as_str().unwrap();
    assert!(ts.ends_with('Z'));
    assert!(ts.len() >= 24);
    assert_eq!(&ts[4..5], "-");
    assert_eq!(&ts[7..8], "-");
    assert_eq!(&ts[10..11], "T");
    assert!(ts[..4].chars().all(|c| c.is_ascii_digit()));
    assert_eq!(v["headers"]["Host"], "h");
}
