use serde_json::Value;
use vstp_log::{decimal_string, encode_line, is_number_text, quote, PersistenceFailure, VstpLog};

fn seconds(x: f64) -> String {
    serde_json::to_string(&x).unwrap()
}

fn example() -> VstpLog {
    VstpLog {
        timestamp: "2024-01-01T00:00:00Z".to_string(),
        flow_id: "f1".to_string(),
        src_ip: "10.0.0.1".to_string(),
        dst_ip: "10.0.0.2".to_string(),
        src_port: 443,
        dst_port: 51000,
        protocol: "TCP".to_string(),
        packets: 10,
        bytes: 1500,
        duration: seconds(1.23),
        checksum_errors: 0,
        dropped_packets: 0,
        retransmissions: 1,
        flags: vec!["SYN".to_string(), "ACK".to_string()],
        packet_sizes: None,
        inter_arrivals: None,
    }
}

fn parse(line: &str) -> Value {
    assert!(line.ends_with('\n'));
    assert_eq!(line.matches('\n').count(), 1);
    serde_json::from_str(line.trim_end_matches('\n')).unwrap()
}

fn strings(v: &Value) -> Vec<String> {
    v.as_array().unwrap().iter().map(|s| s.as_str().unwrap().to_string()).collect()
}

#[test]
fn example_scenario() {
    let line = encode_line(&example()).unwrap();
    let v = parse(&line);
    let obj = v.as_object().unwrap();
    assert_eq!(obj.len(), 16);
    assert_eq!(v["timestamp"], "2024-01-01T00:00:00Z");
    assert_eq!(v["flow_id"], "f1");
    assert_eq!(v["src_ip"], "10.0.0.1");
    assert_eq!(v["dst_ip"], "10.0.0.2");
    assert_eq!(v["src_port"].as_u64(), Some(443));
    assert_eq!(v["dst_port"].as_u64(), Some(51000));
    assert_eq!(v["protocol"], "TCP");
    assert_eq!(v["packets"].as_u64(), Some(10));
    assert_eq!(v["bytes"].as_u64(), Some(1500));
    assert_eq!(v["duration"].as_f64(), Some(1.23));
    assert_eq!(v["checksum_errors"].as_u64(), Some(0));
    assert_eq!(v["dropped_packets"].as_u64(), Some(0));
    assert_eq!(v["retransmissions"].as_u64(), Some(1));
    assert_eq!(strings(&v["flags"]), vec!["SYN", "ACK"]);
    assert!(obj.contains_key("packet_sizes"));
    assert!(v["packet_sizes"].is_null());
    assert!(obj.contains_key("inter_arrivals"));
    assert!(v["inter_arrivals"].is_null());
}

#[test]
fn example_exact_line() {
    let line = encode_line(&example()).unwrap();
    assert_eq!(
        line,
        "{\"timestamp\":\"2024-01-01T00:00:00Z\",\"flow_id\":\"f1\",\"src_ip\":\"10.0.0.1\",\
         \"dst_ip\":\"10.0.0.2\",\"src_port\":443,\"dst_port\":51000,\"protocol\":\"TCP\",\
         \"packets\":10,\"bytes\":1500,\"duration\":1.23,\"checksum_errors\":0,\
         \"dropped_packets\":0,\"retransmissions\":1,\"flags\":[\"SYN\",\"ACK\"],\
         \"packet_sizes\":null,\"inter_arrivals\":null}\n"
    );
}

#[test]
fn round_trip_every_field() {
    let r = VstpLog {
        timestamp: "2025-06-30T23:59:59.999Z".to_string(),
        flow_id: "id \"quoted\" \\ back\nslash\ttab \u{1} é ✓".to_string(),
        src_ip: "fe80::1".to_string(),
        dst_ip: "".to_string(),
        src_port: 0,
        dst_port: u16::MAX,
        protocol: "UDP".to_string(),
        packets: u32::MAX,
        bytes: u64::MAX,
        duration: seconds(0.000125),
        checksum_errors: 3,
        dropped_packets: 4,
        retransmissions: 5,
        flags: vec!["ACK".to_string(), "SYN".to_string(), "ACK".to_string()],
        packet_sizes: Some(vec![64, 1500, 0]),
        inter_arrivals: Some(vec![seconds(0.5), seconds(1e-7), seconds(12345.678)]),
    };
    let line = encode_line(&r).unwrap();
    let v = parse(&line);
    assert_eq!(v["timestamp"].as_str().unwrap(), r.timestamp);
    assert_eq!(v["flow_id"].as_str().unwrap(), r.flow_id);
    assert_eq!(v["src_ip"].as_str().unwrap(), r.src_ip);
    assert_eq!(v["dst_ip"].as_str().unwrap(), r.dst_ip);
    assert_eq!(v["src_port"].as_u64(), Some(0));
    assert_eq!(v["dst_port"].as_u64(), Some(65535));
    assert_eq!(v["protocol"].as_str().unwrap(), r.protocol);
    assert_eq!(v["packets"].as_u64(), Some(u32::MAX as u64));
    assert_eq!(v["bytes"].as_u64(), Some(u64::MAX));
    assert_eq!(v["duration"].as_f64(), Some(0.000125));
    assert_eq!(v["checksum_errors"].as_u64(), Some(3));
    assert_eq!(v["dropped_packets"].as_u64(), Some(4));
    assert_eq!(v["retransmissions"].as_u64(), Some(5));
    assert_eq!(strings(&v["flags"]), r.flags);
    let sizes: Vec<u64> = v["packet_sizes"].as_array().unwrap().iter().map(|n| n.as_u64().unwrap()).collect();
    assert_eq!(sizes, vec![64, 1500, 0]);
    let gaps: Vec<f64> = v["inter_arrivals"].as_array().unwrap().iter().map(|n| n.as_f64().unwrap()).collect();
    assert_eq!(gaps, vec![0.5, 1e-7, 12345.678]);
}

#[test]
fn packet_sizes_null_when_absent() {
    let line = encode_line(&example()).unwrap();
    assert!(line.contains("\"packet_sizes\":null"));
}

#[test]
fn packet_sizes_array_in_order() {
    let mut r = example();
    r.packet_sizes = Some(vec![64, 128]);
    let line = encode_line(&r).unwrap();
    assert!(line.contains("\"packet_sizes\":[64,128]"));
    assert!(line.contains("\"inter_arrivals\":null"));
}

#[test]
fn empty_arrays_are_written_empty() {
    let mut r = example();
    r.flags = vec![];
    r.packet_sizes = Some(vec![]);
    r.inter_arrivals = Some(vec![]);
    let line = encode_line(&r).unwrap();
    assert!(line.contains("\"flags\":[],\"packet_sizes\":[],\"inter_arrivals\":[]}"));
}

#[test]
fn flags_keep_their_order() {
    let line = encode_line(&example()).unwrap();
    assert!(line.contains("\"flags\":[\"SYN\",\"ACK\"]"));
    let mut r = example();
    r.flags = vec!["ACK".to_string(), "SYN".to_string(), "ACK".to_string()];
    let line = encode_line(&r).unwrap();
    assert!(line.contains("\"flags\":[\"ACK\",\"SYN\",\"ACK\"]"));
}

#[test]
fn appended_lines_split_back_in_call_order() {
    let mut log = String::from("{\"earlier\":1}\n");
    let mut ids = Vec::new();
    for i in 0..5u32 {
        let mut r = example();
        r.flow_id = format!("f{}\nx", i);
        r.packets = i;
        ids.push(r.flow_id.clone());
        log.push_str(&encode_line(&r).unwrap());
    }
    let lines: Vec<&str> = log.lines().collect();
    assert_eq!(lines.len(), 6);
    assert_eq!(lines[0], "{\"earlier\":1}");
    for i in 0..5usize {
        let v: Value = serde_json::from_str(lines[i + 1]).unwrap();
        assert_eq!(v["flow_id"].as_str().unwrap(), ids[i]);
        assert_eq!(v["packets"].as_u64(), Some(i as u64));
    }
}

#[test]
fn non_finite_seconds_are_null() {
    let mut r = example();
    r.duration = seconds(f64::NAN);
    r.inter_arrivals = Some(vec![seconds(f64::INFINITY), seconds(2.0)]);
    let v = parse(&encode_line(&r).unwrap());
    assert!(v["duration"].is_null());
    assert!(v["inter_arrivals"][0].is_null());
    assert_eq!(v["inter_arrivals"][1].as_f64(), Some(2.0));
}

#[test]
fn bad_duration_text_is_refused() {
    let mut r = example();
    r.duration = "".to_string();
    assert_eq!(encode_line(&r), Err(PersistenceFailure));
    r.duration = "1.5\n".to_string();
    assert_eq!(encode_line(&r), Err(PersistenceFailure));
}

#[test]
fn bad_inter_arrival_text_is_refused() {
    let mut r = example();
    r.inter_arrivals = Some(vec!["0.5".to_string(), "\"x\"".to_string()]);
    assert_eq!(encode_line(&r), Err(PersistenceFailure));
}

#[test]
fn number_texts() {
    assert!(is_number_text("1.23"));
    assert!(is_number_text("-4e-7"));
    assert!(is_number_text("1E+10"));
    assert!(is_number_text("null"));
    assert!(!is_number_text(""));
    assert!(!is_number_text("nul"));
    assert!(!is_number_text("1 "));
    assert!(!is_number_text("abc"));
}

#[test]
fn decimal_texts() {
    assert_eq!(decimal_string(0), "0");
    assert_eq!(decimal_string(7), "7");
    assert_eq!(decimal_string(10), "10");
    assert_eq!(decimal_string(51000), "51000");
    assert_eq!(decimal_string(u64::MAX), "18446744073709551615");
}

#[test]
fn quoting_escapes() {
    assert_eq!(quote("SYN"), "\"SYN\"");
    assert_eq!(quote(""), "\"\"");
    assert_eq!(quote("a\"b\\c\nd"), "\"a\\\"b\\\\c\\nd\"");
    assert!(!quote("x\ny\r\u{0}").contains('\n'));
}
