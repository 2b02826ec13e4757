use sharkd_bridge::api::{
    apply_filter_outcome, build_frames_result, build_search_result, default_format, default_limit,
    default_protocol, FrameData,
};
use sharkd_bridge::decode::{
    check_filter_verdict, direction_label, filter_accepted, frames_from_value, load_verdict,
    search_from_value, status_from_value,
};
use sharkd_bridge::json_in::parse_json;
use sharkd_bridge::json_out::render_json;
use sharkd_bridge::params::{
    ascii_lower, ascii_upper, check_params, follow_filter, follow_params, frame_bytes_params,
    frame_detail_params, frames_params, load_params, search_params, tap_params,
};

#[test]
fn zero_skip_is_omitted_entirely() {
    assert_eq!(render_json(&frames_params(0, 100)), "{\"limit\":100}");
    assert_eq!(
        render_json(&search_params("tcp", 0, 50)),
        "{\"filter\":\"tcp\",\"limit\":50}"
    );
}

#[test]
fn positive_skip_is_included_verbatim() {
    assert_eq!(render_json(&frames_params(25, 100)), "{\"skip\":25,\"limit\":100}");
    assert_eq!(
        render_json(&search_params("tcp", 25, 50)),
        "{\"filter\":\"tcp\",\"skip\":25,\"limit\":50}"
    );
}

#[test]
fn load_and_frame_and_check_params() {
    assert_eq!(render_json(&load_params("/tmp/a.pcap")), "{\"file\":\"/tmp/a.pcap\"}");
    assert_eq!(
        render_json(&frame_detail_params(9)),
        "{\"frame\":9,\"proto\":true,\"bytes\":true}"
    );
    assert_eq!(render_json(&frame_bytes_params(9)), "{\"frame\":9,\"bytes\":true}");
    assert_eq!(render_json(&check_params("ip.addr==1.1.1.1")), "{\"filter\":\"ip.addr==1.1.1.1\"}");
}

#[test]
fn follow_stream_builds_filter_and_follow_type() {
    assert_eq!(follow_filter("tcp", 0), "tcp.stream==0");
    assert_eq!(follow_filter("TCP", 7), "tcp.stream==7");
    assert_eq!(
        render_json(&follow_params("tcp", 0)),
        "{\"follow\":\"TCP\",\"filter\":\"tcp.stream==0\"}"
    );
    assert_eq!(direction_label(0), "client_to_server");
    assert_eq!(direction_label(1), "server_to_client");
}

#[test]
fn ascii_case_mapping() {
    assert_eq!(ascii_upper("udp"), "UDP");
    assert_eq!(ascii_lower("HtTp2"), "http2");
}

#[test]
fn batched_tap_request_names_four_taps() {
    assert_eq!(
        render_json(&tap_params()),
        "{\"tap0\":\"phs\",\"tap1\":\"conv:TCP\",\"tap2\":\"conv:UDP\",\"tap3\":\"endpt:IPv4\"}"
    );
}

#[test]
fn filter_verdict_follows_err_member() {
    let ok = parse_json("{\"filter\":\"ip\"}").expect("parses");
    let bad = parse_json("{\"err\":\"Filter is invalid\"}").expect("parses");
    assert!(check_filter_verdict(&ok));
    assert!(!check_filter_verdict(&bad));
}

#[test]
fn empty_filter_is_always_accepted() {
    assert!(filter_accepted("", false));
    assert!(filter_accepted("", true));
    assert!(!filter_accepted("bogus ===", false));
    assert!(filter_accepted("tcp", true));
    assert!(matches!(apply_filter_outcome(true, Some(9)), Ok(9)));
    assert!(matches!(apply_filter_outcome(true, None), Ok(0)));
    match apply_filter_outcome(false, Some(9)) {
        Err(m) => assert_eq!(m, "Invalid filter expression"),
        Ok(_) => panic!("expected rejection"),
    }
}

#[test]
fn status_keeps_duration_as_text() {
    let v = parse_json("{\"frames\":120,\"duration\":12.5,\"filename\":\"a.pcap\"}").expect("parses");
    let s = status_from_value(&v).expect("decodes");
    assert_eq!(s.frames, Some(120));
    assert_eq!(s.duration.as_deref(), Some("12.5"));
    assert_eq!(s.filename.as_deref(), Some("a.pcap"));
}

#[test]
fn absent_frame_count_is_not_an_error() {
    let v = parse_json("{}").expect("parses");
    let s = status_from_value(&v).expect("decodes");
    assert_eq!(s.frames, None);
    assert_eq!(s.duration, None);
    assert_eq!(s.filename, None);
}

#[test]
fn malformed_status_member_refuses_the_record() {
    let v = parse_json("{\"frames\":\"many\"}").expect("parses");
    assert!(status_from_value(&v).is_none());
}

#[test]
fn decodes_frame_records() {
    let v = parse_json(
        "[{\"c\":[\"1\",\"0.0\",\"10.0.0.1\",\"10.0.0.2\",\"TCP\",\"60\",\"syn\"],\"num\":1,\"bg\":\"ffffff\"}]",
    )
    .expect("parses");
    let frames = frames_from_value(&v).expect("decodes");
    assert_eq!(frames.len(), 1);
    assert_eq!(frames[0].number, 1);
    assert_eq!(frames[0].columns[4], "TCP");
    assert_eq!(frames[0].background.as_deref(), Some("ffffff"));
    assert_eq!(frames[0].foreground, None);
}

#[test]
fn frame_without_number_refuses_the_list() {
    let v = parse_json("[{\"c\":[\"1\"]}]").expect("parses");
    assert!(frames_from_value(&v).is_none());
}

#[test]
fn search_accepts_bare_array_and_wrapped_page() {
    let bare = parse_json("[{\"c\":[\"1\"],\"num\":1},{\"c\":[\"2\"],\"num\":2}]").expect("parses");
    let (frames, total) = search_from_value(&bare).expect("decodes");
    assert_eq!(frames.len(), 2);
    assert_eq!(total, 2);

    let wrapped = parse_json("{\"frames\":[{\"c\":[\"1\"],\"num\":1}]}").expect("parses");
    let (frames, total) = search_from_value(&wrapped).expect("decodes");
    assert_eq!(frames.len(), 1);
    assert_eq!(total, 1);

    let neither = parse_json("{\"something\":1}").expect("parses");
    let (frames, total) = search_from_value(&neither).expect("decodes");
    assert_eq!(frames.len(), 0);
    assert_eq!(total, 0);
}

#[test]
fn load_verdict_reads_status_and_error() {
    let ok = parse_json("{\"status\":\"OK\"}").expect("parses");
    assert!(load_verdict(&ok).is_ok());
    let silent = parse_json("{}").expect("parses");
    assert!(load_verdict(&silent).is_ok());
    let failed = parse_json("{\"err\":2}").expect("parses");
    match load_verdict(&failed) {
        Err(m) => assert_eq!(m, "Failed to load file: error code 2"),
        Ok(()) => panic!("expected a load failure"),
    }
}

#[test]
fn frame_data_pulls_columns_by_position() {
    let v = parse_json(
        "[{\"c\":[\"1\",\"0.1\",\"src\",\"dst\",\"UDP\",\"90\",\"info text\"],\"num\":4}]",
    )
    .expect("parses");
    let frames = frames_from_value(&v).expect("decodes");
    let d = FrameData::from_frame(&frames[0]);
    assert_eq!(d.number, 4);
    assert_eq!(d.time, "0.1");
    assert_eq!(d.source, "src");
    assert_eq!(d.destination, "dst");
    assert_eq!(d.protocol, "UDP");
    assert_eq!(d.length, "90");
    assert_eq!(d.info, "info text");
}

#[test]
fn short_records_leave_columns_empty() {
    let v = parse_json("[{\"c\":[\"1\",\"0.1\"],\"num\":4}]").expect("parses");
    let frames = frames_from_value(&v).expect("decodes");
    let d = FrameData::from_frame(&frames[0]);
    assert_eq!(d.time, "0.1");
    assert_eq!(d.source, "");
    assert_eq!(d.info, "");
}

#[test]
fn result_builders_carry_totals() {
    let v = parse_json("[{\"c\":[\"1\"],\"num\":1}]").expect("parses");
    let frames = frames_from_value(&v).expect("decodes");
    let page = build_frames_result(&frames, Some(500));
    assert_eq!(page.total, 500);
    assert_eq!(page.frames.len(), 1);
    let none = build_frames_result(&frames, None);
    assert_eq!(none.total, 0);
    let sr = build_search_result(&frames, 1, "tcp".to_string());
    assert_eq!(sr.total_matching, 1);
    assert_eq!(sr.filter_applied, "tcp");
}

#[test]
fn request_defaults() {
    assert_eq!(default_limit(), 100);
    assert_eq!(default_protocol(), "TCP");
    assert_eq!(default_format(), "ascii");
}
