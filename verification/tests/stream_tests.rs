use pulse_player::stream::{
    extract_file_param, parse_range_tauri_style, route_request, Route, stream_url, decode_file_param,
    ServeFailure, preflight_response, text_response, partial_response, whole_file_response,
    failure_response, plan_file_response, FilePlan, ResponseBody, ResponsePlan, route_response,
    serving_mime_type, file_plan_response,
};

fn headers(p: &ResponsePlan) -> Vec<(String, String)> {
    p.headers.iter().map(|h| (h.name.clone(), h.value.clone())).collect()
}

fn has_cors(p: &ResponsePlan) -> bool {
    headers(p).contains(&("Access-Control-Allow-Origin".to_string(), "*".to_string()))
}

#[test]
fn file_param_simple() {
    assert_eq!(extract_file_param("/audio?file=abc"), Some("abc".to_string()));
}

#[test]
fn file_param_stops_at_ampersand() {
    assert_eq!(extract_file_param("/audio?file=a%20b&x=1"), Some("a%20b".to_string()));
}

#[test]
fn file_param_missing() {
    assert_eq!(extract_file_param("/audio"), None);
    assert_eq!(extract_file_param("/audio?x=1&file=2"), None);
}

#[test]
fn file_param_empty_value() {
    assert_eq!(extract_file_param("/audio?file="), Some(String::new()));
    assert_eq!(extract_file_param("/audio?file=&"), Some(String::new()));
}

#[test]
fn file_param_first_marker_wins() {
    assert_eq!(extract_file_param("/a?file=one?file=two"), Some("one?file=two".to_string()));
}

#[test]
fn range_closed() {
    assert_eq!(parse_range_tauri_style("bytes=0-99", 1000), Some((0, 99)));
}

#[test]
fn range_open_ended_reaches_end_of_small_file() {
    assert_eq!(parse_range_tauri_style("bytes=100-", 1000), Some((100, 999)));
}

#[test]
fn range_open_ended_reaches_five_mebibytes() {
    assert_eq!(parse_range_tauri_style("bytes=0-", 10_000_000), Some((0, 5 * 1024 * 1024)));
    assert_eq!(parse_range_tauri_style("bytes=10-", 10_000_000), Some((10, 10 + 5 * 1024 * 1024)));
}

#[test]
fn range_end_clipped_to_file() {
    assert_eq!(parse_range_tauri_style("bytes=0-5000", 1000), Some((0, 999)));
}

#[test]
fn range_rejected() {
    assert_eq!(parse_range_tauri_style("bytes=500-100", 1000), None);
    assert_eq!(parse_range_tauri_style("bytes=2000-3000", 1000), None);
    assert_eq!(parse_range_tauri_style("items=0-1", 1000), None);
    assert_eq!(parse_range_tauri_style("bytes=1-2-3", 1000), None);
    assert_eq!(parse_range_tauri_style("bytes=-5", 1000), None);
    assert_eq!(parse_range_tauri_style("bytes=a-5", 1000), None);
    assert_eq!(parse_range_tauri_style("bytes=5", 1000), None);
    assert_eq!(parse_range_tauri_style("bytes=0-x", 1000), None);
    assert_eq!(parse_range_tauri_style("bytes=18446744073709551616-1", 1000), None);
    assert_eq!(parse_range_tauri_style("bytes=0-99", 0), None);
}

#[test]
fn range_plus_sign_accepted() {
    assert_eq!(parse_range_tauri_style("bytes=+5-+9", 1000), Some((5, 9)));
}

#[test]
fn routing() {
    assert!(matches!(route_request(true, "/anything"), Route::Preflight));
    assert!(matches!(route_request(false, "/audio?file=x"), Route::ServeFile(ref p) if p == "x"));
    assert!(matches!(route_request(false, "/audio"), Route::MissingFileParam));
    assert!(matches!(route_request(false, "/other?file=x"), Route::NotFound));
}

#[test]
fn route_responses() {
    let r = route_response(&Route::MissingFileParam).unwrap();
    assert_eq!(r.status, 400);
    assert!(matches!(r.body, ResponseBody::Text(ref t) if t == "Missing file param"));
    let r = route_response(&Route::NotFound).unwrap();
    assert_eq!(r.status, 404);
    assert!(has_cors(&r));
    assert!(route_response(&Route::ServeFile("x".to_string())).is_none());
}

#[test]
fn stream_url_encodes_path() {
    assert_eq!(
        stream_url(8080, "/music/a b.mp3"),
        "http://127.0.0.1:8080/audio?file=%2Fmusic%2Fa%20b.mp3"
    );
    assert_eq!(stream_url(0, "x&y"), "http://127.0.0.1:0/audio?file=x%26y");
}

#[test]
fn stream_url_leads_back_to_file() {
    let path = "/home/ana/Música/canción & más.flac";
    let url = stream_url(41234, path);
    let target = url.strip_prefix("http://127.0.0.1:41234").unwrap();
    match route_request(false, target) {
        Route::ServeFile(encoded) => {
            assert_eq!(decode_file_param(&encoded).ok(), Some(path.to_string()));
        }
        _ => panic!("not routed to a file"),
    }
}

#[test]
fn decoding_file_param() {
    assert_eq!(decode_file_param("a%20b").ok(), Some("a b".to_string()));
    assert_eq!(decode_file_param("%zz").ok(), Some("%zz".to_string()));
    assert_eq!(decode_file_param("a+b").ok(), Some("a+b".to_string()));
    assert!(matches!(decode_file_param("%FF"), Err(ServeFailure::BadEncoding)));
}

#[test]
fn preflight() {
    let r = preflight_response();
    assert_eq!(r.status, 200);
    assert!(matches!(r.body, ResponseBody::Empty));
    assert_eq!(
        headers(&r),
        vec![
            ("Access-Control-Allow-Origin".to_string(), "*".to_string()),
            ("Access-Control-Allow-Methods".to_string(), "GET, OPTIONS".to_string()),
            ("Access-Control-Allow-Headers".to_string(), "*".to_string()),
        ]
    );
}

#[test]
fn partial_content() {
    let r = partial_response(0, 99, 1000, "audio/mpeg");
    assert_eq!(r.status, 206);
    assert!(matches!(r.body, ResponseBody::FileRange { start: 0, end: 99 }));
    assert_eq!(
        headers(&r),
        vec![
            ("Content-Range".to_string(), "bytes 0-99/1000".to_string()),
            ("Accept-Ranges".to_string(), "bytes".to_string()),
            ("Content-Type".to_string(), "audio/mpeg".to_string()),
            ("Access-Control-Allow-Origin".to_string(), "*".to_string()),
        ]
    );
}

#[test]
fn whole_file() {
    let r = whole_file_response("video/mp4");
    assert_eq!(r.status, 200);
    assert!(matches!(r.body, ResponseBody::WholeFile));
    assert_eq!(headers(&r)[0], ("Content-Type".to_string(), "video/mp4".to_string()));
    assert!(has_cors(&r));
}

#[test]
fn failures() {
    let cases = [
        (ServeFailure::BadEncoding, 400, "Invalid file path encoding"),
        (ServeFailure::FileMissing, 404, "File not found"),
        (ServeFailure::NoMetadata, 500, "Error getting file metadata"),
        (ServeFailure::OpenFailed, 500, "Error opening file"),
        (ServeFailure::SeekFailed, 500, "Error seeking file"),
        (ServeFailure::ReadRangeFailed, 500, "Error reading file range"),
        (ServeFailure::ReadFailed, 500, "Error reading file"),
    ];
    for (f, status, msg) in cases {
        let r = failure_response(f);
        assert_eq!(r.status, status);
        assert!(matches!(r.body, ResponseBody::Text(ref t) if t == msg));
        assert!(has_cors(&r));
    }
}

#[test]
fn file_plans() {
    assert!(matches!(plan_file_response(None, 10), FilePlan::Whole));
    assert!(matches!(plan_file_response(Some("bytes=2-4"), 10), FilePlan::Partial { start: 2, end: 4 }));
    assert!(matches!(plan_file_response(Some("bytes=20-"), 10), FilePlan::Unsatisfiable));
    let r = file_plan_response(FilePlan::Unsatisfiable, 10, "audio/ogg");
    assert_eq!(r.status, 416);
    assert!(matches!(r.body, ResponseBody::Text(ref t) if t == "Range Not Satisfiable"));
}

#[test]
fn text_responses_allow_any_origin() {
    let r = text_response(418, "teapot");
    assert_eq!(r.status, 418);
    assert_eq!(headers(&r), vec![("Access-Control-Allow-Origin".to_string(), "*".to_string())]);
}

#[test]
fn mime_for_serving() {
    assert_eq!(serving_mime_type("/m/song.mp3"), "audio/mpeg");
    assert_eq!(serving_mime_type("/m/noext"), "application/octet-stream");
    assert_eq!(serving_mime_type("/m/file.xyz"), "application/octet-stream");
}
