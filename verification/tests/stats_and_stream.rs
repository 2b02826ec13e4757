use sharkd_bridge::api::{build_capture_stats_response, build_stream_response, count_protocols};
use sharkd_bridge::json_in::parse_json;
use sharkd_bridge::stats::{capture_stats_from_value, CaptureStats, ProtocolNode};
use sharkd_bridge::stream::stream_from_value;

fn proto_fingerprint(n: &ProtocolNode) -> String {
    let children: Vec<String> = n.children.iter().map(proto_fingerprint).collect();
    format!("{}#{}#{}[{}]", n.protocol, n.frames, n.bytes, children.join(","))
}

fn stats_fingerprint(s: &CaptureStats) -> String {
    let protos: Vec<String> = s.protocol_hierarchy.iter().map(proto_fingerprint).collect();
    let tcp: Vec<String> = s
        .tcp_conversations
        .iter()
        .map(|c| format!("{}>{}:{}:{}:{}:{}", c.saddr, c.daddr, c.rxf, c.rxb, c.txf, c.txb))
        .collect();
    let udp: Vec<String> = s
        .udp_conversations
        .iter()
        .map(|c| format!("{}>{}:{}:{}:{}:{}", c.saddr, c.daddr, c.rxf, c.rxb, c.txf, c.txb))
        .collect();
    let hosts: Vec<String> = s
        .endpoints
        .iter()
        .map(|e| format!("{}:{}:{}:{}:{}", e.host, e.rxf, e.rxb, e.txf, e.txb))
        .collect();
    format!(
        "p[{}]t[{}]u[{}]h[{}]",
        protos.join(";"),
        tcp.join(";"),
        udp.join(";"),
        hosts.join(";")
    )
}

const PHS: &str = "{\"tap\":\"phs\",\"type\":\"stats\",\"protos\":[{\"proto\":\"eth\",\"frames\":10,\"bytes\":900,\"protos\":[{\"proto\":\"ip\",\"frames\":8,\"bytes\":700}]}]}";
const TCP: &str = "{\"tap\":\"conv:TCP\",\"type\":\"conv\",\"convs\":[{\"saddr\":\"10.0.0.1\",\"daddr\":\"10.0.0.2\",\"rxf\":3,\"rxb\":300,\"txf\":4,\"txb\":400}]}";
const UDP: &str = "{\"tap\":\"conv:UDP\",\"type\":\"conv\",\"convs\":[{\"saddr\":\"10.0.0.3\",\"daddr\":\"10.0.0.4\",\"rxf\":1,\"rxb\":90,\"txf\":2,\"txb\":120}]}";
const HOSTS: &str = "{\"tap\":\"endpt:IPv4\",\"type\":\"host\",\"hosts\":[{\"host\":\"10.0.0.1\",\"rxf\":5,\"rxb\":500,\"txf\":6,\"txb\":600}]}";

fn stats_of(taps: &[&str]) -> CaptureStats {
    let body = format!("{{\"taps\":[{}]}}", taps.join(","));
    let v = parse_json(&body).expect("tap reply parses");
    capture_stats_from_value(&v)
}

#[test]
fn demux_reads_each_tap_by_its_tag() {
    let s = stats_of(&[PHS, TCP, UDP, HOSTS]);
    assert_eq!(s.protocol_hierarchy.len(), 1);
    assert_eq!(s.protocol_hierarchy[0].protocol, "eth");
    assert_eq!(s.protocol_hierarchy[0].children[0].protocol, "ip");
    assert_eq!(s.tcp_conversations.len(), 1);
    assert_eq!(s.tcp_conversations[0].saddr, "10.0.0.1");
    assert_eq!(s.udp_conversations.len(), 1);
    assert_eq!(s.udp_conversations[0].daddr, "10.0.0.4");
    assert_eq!(s.endpoints.len(), 1);
    assert_eq!(s.endpoints[0].host, "10.0.0.1");
}

#[test]
fn demux_is_order_independent() {
    let reference = stats_fingerprint(&stats_of(&[PHS, TCP, UDP, HOSTS]));
    let permutations: [[&str; 4]; 5] = [
        [TCP, PHS, HOSTS, UDP],
        [HOSTS, UDP, TCP, PHS],
        [UDP, HOSTS, PHS, TCP],
        [PHS, HOSTS, TCP, UDP],
        [HOSTS, TCP, PHS, UDP],
    ];
    for p in permutations {
        assert_eq!(stats_fingerprint(&stats_of(&p)), reference);
    }
}

#[test]
fn empty_capture_yields_empty_statistics_never_an_error() {
    let empty = stats_of(&[]);
    assert!(empty.protocol_hierarchy.is_empty());
    assert!(empty.tcp_conversations.is_empty());
    assert!(empty.udp_conversations.is_empty());
    assert!(empty.endpoints.is_empty());

    let no_taps = capture_stats_from_value(&parse_json("{}").expect("parses"));
    assert!(no_taps.protocol_hierarchy.is_empty());
    assert!(no_taps.endpoints.is_empty());

    let only_tcp = stats_of(&[TCP]);
    assert_eq!(only_tcp.tcp_conversations.len(), 1);
    assert!(only_tcp.udp_conversations.is_empty());
    assert!(only_tcp.protocol_hierarchy.is_empty());
    assert!(only_tcp.endpoints.is_empty());
}

#[test]
fn counts_protocols_across_the_tree() {
    let s = stats_of(&[PHS]);
    assert_eq!(count_protocols(&s.protocol_hierarchy), 2);
}

#[test]
fn builds_the_stats_response() {
    let s = stats_of(&[PHS, TCP, UDP, HOSTS]);
    let status_v = parse_json("{\"frames\":10,\"duration\":1.25}").expect("parses");
    let status = sharkd_bridge::decode::status_from_value(&status_v);
    let r = build_capture_stats_response(&status, &s);
    assert_eq!(r.summary.total_frames, 10);
    assert_eq!(r.summary.duration.as_deref(), Some("1.25"));
    assert_eq!(r.summary.protocol_count, 2);
    assert_eq!(r.summary.tcp_conversation_count, 1);
    assert_eq!(r.summary.udp_conversation_count, 1);
    assert_eq!(r.summary.endpoint_count, 1);
    assert_eq!(r.protocol_hierarchy[0].protocol, "eth");
    assert_eq!(r.tcp_conversations[0].src_addr, "10.0.0.1");
    assert_eq!(r.endpoints[0].host, "10.0.0.1");
}

#[test]
fn decodes_stream_data() {
    let v = parse_json(
        "{\"shost\":\"10.0.0.2\",\"sport\":\"80\",\"chost\":\"10.0.0.1\",\"cport\":\"50000\",\"sbytes\":5,\"cbytes\":7,\"payloads\":[{\"n\":5,\"d\":\"SGVsbG8=\",\"s\":0},{\"n\":2,\"d\":\"SGk=\",\"s\":1}]}",
    )
    .expect("parses");
    let s = stream_from_value(&v).expect("decodes");
    assert_eq!(s.shost, "10.0.0.2");
    assert_eq!(s.cport, "50000");
    assert_eq!(s.sbytes, 5);
    assert_eq!(s.payloads.len(), 2);
    assert_eq!(s.payloads[0].s, 0);
    assert_eq!(s.payloads[1].d, "SGk=");
}

#[test]
fn stream_defaults_fill_absent_members() {
    let s = stream_from_value(&parse_json("{}").expect("parses")).expect("decodes");
    assert_eq!(s.shost, "");
    assert_eq!(s.sbytes, 0);
    assert!(s.payloads.is_empty());
}

#[test]
fn stream_response_renders_ascii_with_combined_text() {
    let v = parse_json(
        "{\"shost\":\"s\",\"sport\":\"80\",\"chost\":\"c\",\"cport\":\"1\",\"payloads\":[{\"n\":5,\"d\":\"SGVsbG8=\",\"s\":0},{\"n\":2,\"d\":\"SGk=\",\"s\":1}]}",
    )
    .expect("parses");
    let s = stream_from_value(&v).expect("decodes");
    let r = build_stream_response(&s, "ascii");
    assert_eq!(r.segments[0].direction, "client_to_server");
    assert_eq!(r.segments[0].data, "Hello");
    assert_eq!(r.segments[1].direction, "server_to_client");
    assert_eq!(r.segments[1].data, "Hi");
    assert_eq!(
        r.combined_text.as_deref(),
        Some("[client_to_server]\nHello\n\n[server_to_client]\nHi")
    );
}

#[test]
fn stream_response_renders_hex_and_raw() {
    let v = parse_json("{\"payloads\":[{\"n\":5,\"d\":\"SGVsbG8=\",\"s\":0}]}").expect("parses");
    let s = stream_from_value(&v).expect("decodes");
    let hex = build_stream_response(&s, "hex");
    assert_eq!(hex.segments[0].data, "48 65 6c 6c 6f");
    assert!(hex.combined_text.is_none());
    let raw = build_stream_response(&s, "raw");
    assert_eq!(raw.segments[0].data, "SGVsbG8=");
    assert!(raw.combined_text.is_none());
}

#[test]
fn undecodable_payloads_fall_back() {
    let v = parse_json("{\"payloads\":[{\"n\":1,\"d\":\"%%%\",\"s\":0}]}").expect("parses");
    let s = stream_from_value(&v).expect("decodes");
    let hex = build_stream_response(&s, "hex");
    assert_eq!(hex.segments[0].data, "%%%");
    let ascii = build_stream_response(&s, "ascii");
    assert_eq!(ascii.segments[0].data, "[binary data]");
}

#[test]
fn hierarchies_nested_beyond_the_depth_bound_decode_empty() {
    let mut node = "{\"proto\":\"leaf\"}".to_string();
    for _ in 0..70 {
        node = format!("{{\"proto\":\"wrap\",\"protos\":[{}]}}", node);
    }
    let deep = stats_of(&[&format!("{{\"tap\":\"phs\",\"type\":\"stats\",\"protos\":[{}]}}", node)]);
    assert!(deep.protocol_hierarchy.is_empty());

    let mut shallow = "{\"proto\":\"leaf\"}".to_string();
    for _ in 0..10 {
        shallow = format!("{{\"proto\":\"wrap\",\"protos\":[{}]}}", shallow);
    }
    let ok = stats_of(&[&format!("{{\"tap\":\"phs\",\"type\":\"stats\",\"protos\":[{}]}}", shallow)]);
    assert_eq!(ok.protocol_hierarchy.len(), 1);
    assert_eq!(count_protocols(&ok.protocol_hierarchy), 11);
}
