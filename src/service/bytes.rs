use vstd::prelude::*;
use rand::Rng;
use rand::SeedableRng;
use crate::http::{bad_request, chunks_of, internal_server_error, Body, ChunkedBody, Error, MediaType, Request, Response};
use crate::path::lookup;
use crate::query::{decimal, query_params};
pub use crate::query::BytesQueryParams;

verus! {

/// The bytes that a generator seeded with `seed` yields in its first `count` draws.
pub uninterp spec fn seeded_bytes_of(seed: u32, count: u32) -> Seq<u8>;

/// Relies on rand's `StdRng::seed_from_u64` and `Rng::sample_iter` with the
/// `Standard` distribution: `count` bytes drawn from a generator that the seed
/// alone determines.
#[verifier::external_body]
fn seeded_random_bytes(count: u32, seed: u32) -> (r: Vec<u8>)
    ensures
        r@ == seeded_bytes_of(seed, count),
        r@.len() == count,
{
    let rng = rand::rngs::StdRng::seed_from_u64(seed as u64);
    rng.sample_iter(rand::distributions::Standard).take(count as usize).collect()
}

/// Relies on rand's `thread_rng` and `Rng::sample_iter` with the `Standard`
/// distribution: `count` bytes from the thread's generator.
#[verifier::external_body]
fn fresh_random_bytes(count: u32) -> (r: Vec<u8>)
    ensures
        r@.len() == count,
{
    rand::thread_rng().sample_iter(rand::distributions::Standard).take(count as usize).collect()
}

/// `count` pseudo-random bytes; with a seed, the same ones on every call.
pub fn iter_bytes(count: u32, seed: Option<u32>) -> (r: Vec<u8>)
    ensures
        r@.len() == count,
        seed matches Some(s) ==> r@ == seeded_bytes_of(s, count),
{
    match seed {
        Some(s) => seeded_random_bytes(count, s),
        None => fresh_random_bytes(count),
    }
}

/// The byte count that a request names in its `n` segment.
pub open spec fn requested_count(req: Request) -> Option<u32> {
    match lookup(req.params@, "n"@) {
        Some(v) => match decimal(v, u32::MAX as nat) {
            Some(x) => Some(x as u32),
            None => None,
        },
        None => None,
    }
}

pub open spec fn request_query(req: Request) -> Option<BytesQueryParams> {
    query_params(
        match req.head.query {
            Some(q) => Some(q@),
            None => None,
        },
    )
}

/// Two requests that name the same count and the same seed are owed the same
/// bytes, by `bytes` and by `stream_bytes` alike.
pub proof fn lemma_same_seed_same_bytes(r1: Request, r2: Request)
    requires
        requested_count(r1) is Some,
        requested_count(r1) == requested_count(r2),
        request_query(r1) is Some,
        request_query(r2) is Some,
        request_query(r1).unwrap().seed is Some,
        request_query(r1).unwrap().seed == request_query(r2).unwrap().seed,
    ensures
        seeded_bytes_of(request_query(r1).unwrap().seed.unwrap(), requested_count(r1).unwrap())
            == seeded_bytes_of(
            request_query(r2).unwrap().seed.unwrap(),
            requested_count(r2).unwrap(),
        ),
{
}

/// Reads the byte count and the query parameters of a request.
fn read_params(req: &Request) -> (r: Option<(u32, BytesQueryParams)>)
    ensures
        r is None <==> requested_count(*req) is None || request_query(*req) is None,
        r matches Some(p) ==> Some(p.0) == requested_count(*req) && Some(p.1) == request_query(
            *req,
        ),
{
    let n = match req.param("n") {
        Some(v) => match crate::query::parse_decimal(v.as_str(), 0xffff_ffff) {
            Some(x) => x as u32,
            None => {
                return None;
            },
        },
        None => {
            return None;
        },
    };
    let query = match &req.head.query {
        Some(q) => BytesQueryParams::parse(Some(q.as_str())),
        None => BytesQueryParams::parse(None),
    };
    match query {
        Some(q) => Some((n, q)),
        None => None,
    }
}

/// The response that carries `data` whole, as an octet stream.
pub fn bytes_response(data: Vec<u8>) -> (r: Response)
    ensures
        r.status == 200,
        r.content_type == Some(MediaType::OctetStream),
        r.content_length is None,
        r.body == Body::Full(data),
{
    Response {
        status: 200,
        content_type: Some(MediaType::OctetStream),
        content_length: None,
        body: Body::Full(data),
    }
}

/// The response that hands `data` out in pieces of `chunk_size` bytes (one
/// byte each where no size is given), declaring its length up front; an
/// internal server error for a size of zero.
pub fn stream_response(data: Vec<u8>, chunk_size: Option<usize>) -> (r: Result<Response, Error>)
    ensures
        chunk_size == Some(0usize) ==> (r matches Err(e) && e.status == 500),
        chunk_size != Some(0usize) ==> (r matches Ok(resp) && resp.status == 200
            && resp.content_type == Some(MediaType::OctetStream)
            && resp.content_length == Some(data@.len() as u64)
            && resp.body.wf()
            && resp.body.bytes() == data@
            && (resp.body matches Body::Chunked(c) && c.pending() == chunks_of(
                data@,
                (match chunk_size {
                    Some(k) => k,
                    None => 1usize,
                }) as nat,
            ))),
{
    let size: usize = match chunk_size {
        Some(k) => k,
        None => 1,
    };
    if size == 0 {
        return Err(internal_server_error());
    }
    let len = data.len() as u64;
    let ghost d = data@;
    let body = ChunkedBody::new(data, size);
    proof {
        crate::http::lemma_chunks_concat(d, size as nat);
    }
    Ok(
        Response {
            status: 200,
            content_type: Some(MediaType::OctetStream),
            content_length: Some(len),
            body: Body::Chunked(body),
        },
    )
}

/// Serves `n` pseudo-random bytes at once, seeded by the query's `seed`
/// where it has one; a bad request where `n` or the query does not parse.
pub fn bytes(req: &Request) -> (r: Result<Response, Error>)
    ensures
        r is Err <==> requested_count(*req) is None || request_query(*req) is None,
        r matches Err(e) ==> e.status == 400,
        r matches Ok(resp) ==> resp.status == 200 && resp.content_type == Some(
            MediaType::OctetStream,
        ) && resp.content_length is None && resp.body.bytes().len() == requested_count(*req).unwrap() && (request_query(
            *req,
        ).unwrap().seed matches Some(s) ==> resp.body.bytes() == seeded_bytes_of(
            s,
            requested_count(*req).unwrap(),
        )),
{
    let (n, query) = match read_params(req) {
        Some(p) => p,
        None => {
            return Err(bad_request());
        },
    };
    let data = iter_bytes(n, query.seed);
    Ok(bytes_response(data))
}

/// Serves `n` pseudo-random bytes in pieces of the query's `chunk_size`
/// (one byte each by default), seeded by the query's `seed` where it has one.
pub fn stream_bytes(req: &Request) -> (r: Result<Response, Error>)
    ensures
        (requested_count(*req) is None || request_query(*req) is None) ==> (r matches Err(e)
            && e.status == 400),
        (requested_count(*req) is Some && request_query(*req) is Some && request_query(
            *req,
        ).unwrap().chunk_size == Some(0usize)) ==> (r matches Err(e) && e.status == 500),
        r matches Ok(resp) ==> resp.status == 200 && resp.body.wf() && resp.content_type == Some(
            MediaType::OctetStream,
        )
            && resp.body.bytes().len() == requested_count(*req).unwrap()
            && resp.content_length == Some(requested_count(*req).unwrap() as u64)
            && (request_query(*req).unwrap().seed matches Some(s) ==> resp.body.bytes()
            == seeded_bytes_of(s, requested_count(*req).unwrap())),
        (requested_count(*req) is Some && request_query(*req) is Some && request_query(
            *req,
        ).unwrap().chunk_size != Some(0usize)) ==> r is Ok,
{
    let (n, query) = match read_params(req) {
        Some(p) => p,
        None => {
            return Err(bad_request());
        },
    };
    let data = iter_bytes(n, query.seed);
    stream_response(data, query.chunk_size)
}

} // verus!
