//! Kafka wire framing, and request and response correlation.

use krabka::ids::{ApiKey, ApiVersion};
use krabka::tap::frame::{parse_request_prefix, read_correlation_id, Pending, RequestPrefix};
use krabka::tap::relay::{after_forward, before_forward, frame_length};

fn req_frame(api_key: i16, api_version: i16, corr: i32, payload: &[u8]) -> Vec<u8> {
    let mut b = Vec::new();
    b.extend_from_slice(&api_key.to_be_bytes());
    b.extend_from_slice(&api_version.to_be_bytes());
    b.extend_from_slice(&corr.to_be_bytes());
    b.extend_from_slice(payload);
    b
}

#[test]
fn parses_request_header_prefix() {
    let body = req_frame(18, 3, 7, &[0xaa, 0xbb]);
    let p = parse_request_prefix(&body).unwrap();
    assert_eq!(
        p,
        RequestPrefix { api_key: ApiKey(18), api_version: ApiVersion(3), correlation_id: 7 }
    );
}

#[test]
fn correlation_id_needs_exactly_four_bytes() {
    assert_eq!(read_correlation_id(&7_i32.to_be_bytes()), Some(7));
    assert_eq!(read_correlation_id(&[0, 0, 0]), None);
    assert_eq!(read_correlation_id(&[]), None);
    assert_eq!(read_correlation_id(&[0, 0, 0, 9, 0xaa, 0xbb]), Some(9));
}

#[test]
fn correlation_id_needs_four_bytes_and_four_is_enough() {
    assert_eq!(read_correlation_id(&7i32.to_be_bytes()), Some(7));
    assert_eq!(read_correlation_id(&[0, 0, 0, 1, 0xff]), Some(1));
    assert_eq!(read_correlation_id(&[0, 0, 0]), None);
    assert_eq!(read_correlation_id(&[]), None);
}

#[test]
fn correlates_response_by_id() {
    let mut pending = Pending::default();
    let body = req_frame(1, 11, 42, &[]);
    let p = parse_request_prefix(&body).unwrap();
    pending.record(p.correlation_id, p.api_key, p.api_version);
    let mut resp = Vec::new();
    resp.extend_from_slice(&42i32.to_be_bytes());
    resp.extend_from_slice(&[0x01]);
    let got = pending.take(read_correlation_id(&resp).unwrap()).unwrap();
    assert_eq!(got, (ApiKey(1), ApiVersion(11)));
}

#[test]
fn a_prefix_needs_eight_bytes_and_reads_signed_values() {
    assert_eq!(parse_request_prefix(&[0; 7]), None);
    let p = parse_request_prefix(&req_frame(-1, -2, -3, &[])).unwrap();
    assert_eq!(
        p,
        RequestPrefix { api_key: ApiKey(-1), api_version: ApiVersion(-2), correlation_id: -3 }
    );
}

#[test]
fn a_taken_request_answers_one_response_only() {
    let mut pending = Pending::default();
    pending.record(5, ApiKey(3), ApiVersion(12));
    assert_eq!(pending.take(5), Some((ApiKey(3), ApiVersion(12))));
    assert_eq!(pending.take(5), None);
}

#[test]
fn the_frame_length_guard_stops_only_on_a_negative_length() {
    assert_eq!(frame_length(0i32.to_be_bytes()), Some(0));
    assert_eq!(frame_length(8i32.to_be_bytes()), Some(8));
    assert_eq!(frame_length((-1i32).to_be_bytes()), None);
    assert_eq!(frame_length(i32::MIN.to_be_bytes()), None);
}

#[test]
fn the_relay_records_a_request_then_correlates_its_response() {
    let mut pending = Pending::default();
    let request = req_frame(18, 3, 7, &[]);
    let prefix = before_forward(&mut pending, true, &request);
    assert_eq!(
        prefix,
        Some(RequestPrefix { api_key: ApiKey(18), api_version: ApiVersion(3), correlation_id: 7 })
    );
    let captured = after_forward(&mut pending, prefix, request.clone()).unwrap();
    assert_eq!((captured.api_key, captured.version, captured.is_request), (ApiKey(18), ApiVersion(3), true));
    assert_eq!(captured.body, request);

    let response = 7i32.to_be_bytes().to_vec();
    assert_eq!(before_forward(&mut pending, false, &response), None);
    let captured = after_forward(&mut pending, None, response.clone()).unwrap();
    assert_eq!(
        (captured.api_key, captured.version, captured.is_request),
        (ApiKey(18), ApiVersion(3), false)
    );
    // The request is no longer in flight, so a second response is not recorded.
    assert!(after_forward(&mut pending, None, response).is_none());
    // A short response names no request.
    assert!(after_forward(&mut pending, None, vec![0, 0]).is_none());
}
