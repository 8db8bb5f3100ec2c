use musicabgleich::form::parse_query_bytes;
use musicabgleich::{resolve, ApiConfig, ApiError, ParameterMap, Reply, Resolution, TrackSearchQuery};

#[test]
fn endpoint_url_joins_base_and_name() {
    let c = ApiConfig::new("k");
    assert_eq!(c.endpoint_url("track.search"), "https://api.musixmatch.com/ws/1.1/track.search");
    assert_eq!(c.api_key(), "k");
}

#[test]
fn request_url_with_no_parameters_carries_the_key() {
    let c = ApiConfig::new("secret key");
    let url = c.request_url("music.genres.get", &ParameterMap::new());
    assert_eq!(url, "https://api.musixmatch.com/ws/1.1/music.genres.get?apikey=secret+key");
}

#[test]
fn request_url_puts_the_key_first_then_the_parameters() {
    let c = ApiConfig::new("abc");
    let q = TrackSearchQuery::new().song_title(Some("Hey Jude")).page(Some(2));
    let url = c.request_url("track.search", q.parameters());
    assert_eq!(
        url,
        "https://api.musixmatch.com/ws/1.1/track.search?apikey=abc&q_track=Hey+Jude&page=2"
    );
}

#[test]
fn caller_cannot_replace_the_key() {
    let c = ApiConfig::new("real");
    let mut m = ParameterMap::new();
    m.insert("q", "x".to_string());
    m.insert("apikey", "forged".to_string());
    m.insert("page", "1".to_string());
    let r = c.request_parameters(&m);
    assert_eq!(
        r.pairs(),
        vec![
            ("apikey".to_string(), "real".to_string()),
            ("q".to_string(), "x".to_string()),
            ("page".to_string(), "1".to_string())
        ]
    );
}

#[test]
fn key_present_whatever_the_parameters() {
    let c = ApiConfig::new("K");
    let mut maps = vec![ParameterMap::new()];
    let mut m = ParameterMap::new();
    for i in 0..20u64 {
        m.set_number(&format!("p{}", i), Some(i));
        let mut copy = ParameterMap::new();
        for (k, v) in m.pairs() {
            copy.insert(&k, v);
        }
        maps.push(copy);
    }
    for m in &maps {
        let url = c.request_url("track.search", m);
        let query = url.split_once('?').unwrap().1;
        let parsed = parse_query_bytes(query);
        assert_eq!(parsed[0], (b"apikey".to_vec(), b"K".to_vec()));
        assert_eq!(parsed.len(), m.len() + 1);
    }
}

#[test]
fn success_envelope_is_delivered() {
    let r = resolve(&Reply::Received { http_status: 200, header_status: Some(200), has_body: true });
    assert_eq!(r, Resolution::Deliver);
}

#[test]
fn error_status_is_reported_once_and_not_decoded() {
    let r = resolve(&Reply::Received { http_status: 200, header_status: Some(401), has_body: true });
    assert_eq!(r, Resolution::Report(ApiError { status_code: 401 }));
    let r = resolve(&Reply::Received { http_status: 200, header_status: Some(404), has_body: false });
    assert_eq!(r, Resolution::Report(ApiError { status_code: 404 }));
}

#[test]
fn http_status_decides_without_an_envelope_header() {
    let r = resolve(&Reply::Received { http_status: 503, header_status: None, has_body: false });
    assert_eq!(r, Resolution::Report(ApiError { status_code: 503 }));
}

#[test]
fn transport_failure_bypasses_the_callback() {
    assert_eq!(resolve(&Reply::TransportFailed), Resolution::TransportFailure);
}

#[test]
fn success_without_payload_is_a_schema_violation() {
    let r = resolve(&Reply::Received { http_status: 200, header_status: Some(200), has_body: false });
    assert_eq!(r, Resolution::SchemaViolation);
    let r = resolve(&Reply::Received { http_status: 200, header_status: None, has_body: true });
    assert_eq!(r, Resolution::SchemaViolation);
}

#[test]
fn status_range_edges() {
    let at = |code: u64| resolve(&Reply::Received { http_status: 200, header_status: Some(code), has_body: true });
    assert_eq!(at(199), Resolution::Report(ApiError { status_code: 199 }));
    assert_eq!(at(299), Resolution::Deliver);
    assert_eq!(at(300), Resolution::Report(ApiError { status_code: 300 }));
}
