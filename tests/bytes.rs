use httpbin_router::http::{Body, ChunkedBody, MediaType, Method, Request, RequestHead};
use httpbin_router::path::{PathSegment, Route};
use httpbin_router::query::{parse_decimal, BytesQueryParams};
use httpbin_router::service::bytes::{bytes, iter_bytes, stream_bytes, stream_response};

fn request(path: &str, query: Option<&str>) -> Request {
    let h = RequestHead {
        method: Some(Method::Get),
        path: path.to_string(),
        query: query.map(|q| q.to_string()),
    };
    let route = Route::new(
        Some(Method::Get),
        vec![PathSegment::Literal("bytes".to_string()), PathSegment::Capture("n".to_string())],
    );
    let params = route.matches(&h).unwrap();
    Request::new(h, None, params)
}

fn drain(mut c: ChunkedBody) -> Vec<Vec<u8>> {
    let mut out = Vec::new();
    while let Some(piece) = c.next_chunk() {
        out.push(piece);
    }
    out
}

#[test]
fn chunks_keep_production_order() {
    for n in 0..5usize {
        for m in 1..4usize {
            let data: Vec<u8> = (0..n * m).map(|i| i as u8).collect();
            let pieces = drain(ChunkedBody::new(data.clone(), m));
            assert_eq!(pieces.len(), n);
            assert!(pieces.iter().all(|p| p.len() == m));
            assert_eq!(pieces.concat(), data);
        }
    }
}

#[test]
fn chunks_last_piece_may_be_short() {
    let pieces = drain(ChunkedBody::new(vec![1, 2, 3, 4, 5], 2));
    assert_eq!(pieces, vec![vec![1, 2], vec![3, 4], vec![5]]);
}

#[test]
fn empty_stream_gives_empty_body() {
    let resp = stream_response(Vec::new(), Some(3)).ok().unwrap();
    assert_eq!(resp.content_length, Some(0));
    assert!(resp.body.collect().is_empty());
}

#[test]
fn stream_response_cuts_by_chunk_size() {
    let resp = stream_response(vec![9, 8, 7, 6], Some(3)).ok().unwrap();
    assert_eq!(resp.status, 200);
    assert_eq!(resp.content_type, Some(MediaType::OctetStream));
    assert_eq!(resp.content_length, Some(4));
    match resp.body {
        Body::Chunked(c) => assert_eq!(drain(c), vec![vec![9, 8, 7], vec![6]]),
        Body::Full(_) => panic!("expected a chunked body"),
    }
}

#[test]
fn stream_response_defaults_to_single_bytes() {
    let resp = stream_response(vec![1, 2], None).ok().unwrap();
    match resp.body {
        Body::Chunked(c) => assert_eq!(drain(c), vec![vec![1], vec![2]]),
        Body::Full(_) => panic!("expected a chunked body"),
    }
}

#[test]
fn zero_chunk_size_is_internal_error() {
    let e = stream_response(vec![1], Some(0)).err().unwrap();
    assert_eq!(e.status, 500);
}

#[test]
fn same_seed_same_bytes() {
    let a = bytes(&request("/bytes/64", Some("seed=42"))).ok().unwrap();
    let b = bytes(&request("/bytes/64", Some("seed=42"))).ok().unwrap();
    let a = a.body.collect();
    assert_eq!(a.len(), 64);
    assert_eq!(a, b.body.collect());
    let s = stream_bytes(&request("/bytes/64", Some("seed=42&chunk_size=5"))).ok().unwrap();
    assert_eq!(s.body.collect(), a);
}

#[test]
fn seeded_bytes_are_not_the_seed_echoed() {
    let a = iter_bytes(32, Some(1));
    let b = iter_bytes(32, Some(2));
    assert_eq!(a.len(), 32);
    assert_ne!(a, b);
    assert_ne!(a, vec![0u8; 32]);
}

#[test]
fn unseeded_bytes_have_the_count() {
    assert_eq!(iter_bytes(10, None).len(), 10);
    assert!(iter_bytes(0, None).is_empty());
}

#[test]
fn bytes_serves_whole_body() {
    let resp = bytes(&request("/bytes/16", None)).ok().unwrap();
    assert_eq!(resp.status, 200);
    assert_eq!(resp.content_type, Some(MediaType::OctetStream));
    assert_eq!(resp.content_length, None);
    assert_eq!(resp.body.collect().len(), 16);
}

#[test]
fn bytes_rejects_bad_count() {
    for p in ["/bytes/x", "/bytes/4294967296", "/bytes/-1"] {
        assert_eq!(bytes(&request(p, None)).err().unwrap().status, 400);
    }
}

#[test]
fn bytes_rejects_bad_query() {
    for q in ["seed=abc", "seed=4294967296", "chunk_size=", "seed"] {
        assert_eq!(bytes(&request("/bytes/4", Some(q))).err().unwrap().status, 400);
        assert_eq!(stream_bytes(&request("/bytes/4", Some(q))).err().unwrap().status, 400);
    }
}

#[test]
fn stream_bytes_declares_length() {
    let resp = stream_bytes(&request("/bytes/10", Some("chunk_size=4"))).ok().unwrap();
    assert_eq!(resp.content_length, Some(10));
    match resp.body {
        Body::Chunked(c) => {
            let pieces = drain(c);
            assert_eq!(pieces.iter().map(|p| p.len()).collect::<Vec<_>>(), vec![4, 4, 2]);
        }
        Body::Full(_) => panic!("expected a chunked body"),
    }
}

#[test]
fn stream_bytes_zero_chunk_is_internal_error() {
    let e = stream_bytes(&request("/bytes/10", Some("chunk_size=0"))).err().unwrap();
    assert_eq!(e.status, 500);
}

#[test]
fn parse_decimal_cases() {
    assert_eq!(parse_decimal("0", 10), Some(0));
    assert_eq!(parse_decimal("+7", 10), Some(7));
    assert_eq!(parse_decimal("10", 10), Some(10));
    assert_eq!(parse_decimal("11", 10), None);
    assert_eq!(parse_decimal("", 10), None);
    assert_eq!(parse_decimal("+", 10), None);
    assert_eq!(parse_decimal("1a", 10), None);
    assert_eq!(parse_decimal("4294967295", 0xffff_ffff), Some(4294967295));
    assert_eq!(parse_decimal("99999999999999999999999", u64::MAX), None);
}

#[test]
fn query_parse_cases() {
    let none = BytesQueryParams { seed: None, chunk_size: None };
    assert_eq!(BytesQueryParams::parse(None), Some(none));
    assert_eq!(BytesQueryParams::parse(Some("")), Some(none));
    assert_eq!(
        BytesQueryParams::parse(Some("seed=3&chunk_size=8&other=x")),
        Some(BytesQueryParams { seed: Some(3), chunk_size: Some(8) })
    );
    assert_eq!(
        BytesQueryParams::parse(Some("seed=1&seed=2")),
        Some(BytesQueryParams { seed: Some(2), chunk_size: None })
    );
    assert_eq!(BytesQueryParams::parse(Some("chunk_size=-1")), None);
}
