use vstd::prelude::*;
use vstd::string::*;
use crate::path::{lookup, PathMatch};

verus! {

/// The request methods that a route can name.
#[derive(PartialEq, Eq, Structural, Clone, Copy, Debug)]
pub enum Method {
    Get,
    Head,
    Post,
    Put,
    Delete,
    Connect,
    Options,
    Trace,
    Patch,
}

/// What the transport hands over of one inbound request: its method (`None`
/// for an extension method that no route can name), its path and its query.
pub struct RequestHead {
    pub method: Option<Method>,
    pub path: String,
    pub query: Option<String>,
}

/// The address of the peer of a connection.
#[derive(PartialEq, Eq, Structural, Clone, Copy, Debug)]
pub enum PeerIp {
    V4(u32),
    V6(u128),
}

#[derive(PartialEq, Eq, Structural, Clone, Copy, Debug)]
pub struct PeerAddr {
    pub ip: PeerIp,
    pub port: u16,
}

/// A request as a handler sees it: what the transport handed over, the
/// connection's peer, and what the matched route captured.
pub struct Request {
    pub head: RequestHead,
    pub client_addr: Option<PeerAddr>,
    pub params: PathMatch,
}

impl Request {
    pub fn new(head: RequestHead, client_addr: Option<PeerAddr>, params: PathMatch) -> (r: Request)
        ensures
            r.head == head,
            r.client_addr == client_addr,
            r.params == params,
    {
        Request { head, client_addr, params }
    }

    /// The path segment captured under `name`.
    pub fn param(&self, name: &str) -> (r: Option<String>)
        ensures
            r matches Some(v) ==> lookup(self.params@, name@) == Some(v@),
            r is None ==> lookup(self.params@, name@) is None,
    {
        self.params.get(name)
    }
}

/// The content types that responses of this library declare.
#[derive(PartialEq, Eq, Structural, Clone, Copy, Debug)]
pub enum MediaType {
    OctetStream,
    PlainText,
}

/// The bytes of `d` cut into pieces of `m` bytes, in order; the last piece
/// may be shorter, and no piece is empty.
pub open spec fn chunks_of(d: Seq<u8>, m: nat) -> Seq<Seq<u8>>
    decreases d.len(),
{
    if m == 0 || d.len() == 0 {
        Seq::empty()
    } else if d.len() <= m {
        seq![d]
    } else {
        seq![d.take(m as int)] + chunks_of(d.skip(m as int), m)
    }
}

/// A body handed out piece by piece: each pull yields the next `chunk_size`
/// bytes of the data, in order, until none is left.
pub struct ChunkedBody {
    data: Vec<u8>,
    chunk_size: usize,
    pos: usize,
}

impl ChunkedBody {
    pub closed spec fn wf(&self) -> bool {
        self.chunk_size > 0 && self.pos <= self.data@.len()
    }

    /// The pieces that are still to come.
    pub closed spec fn pending(&self) -> Seq<Seq<u8>> {
        chunks_of(self.data@.skip(self.pos as int), self.chunk_size as nat)
    }

    pub fn new(data: Vec<u8>, chunk_size: usize) -> (r: ChunkedBody)
        requires
            chunk_size > 0,
        ensures
            r.wf(),
            r.pending() == chunks_of(data@, chunk_size as nat),
    {
        let r = ChunkedBody { data, chunk_size, pos: 0 };
        assert(r.data@.skip(0) =~= r.data@);
        r
    }

    /// The next piece, or `None` once all were handed out.
    pub fn next_chunk(&mut self) -> (r: Option<Vec<u8>>)
        requires
            old(self).wf(),
        ensures
            final(self).wf(),
            old(self).pending().len() == 0 ==> r is None && final(self).pending().len() == 0,
            old(self).pending().len() > 0 ==> (r matches Some(c) && c@ == old(self).pending()[0]
                && final(self).pending() == old(self).pending().drop_first()),
    {
        let n = self.data.len();
        if self.pos == n {
            return None;
        }
        let ghost rest = self.data@.skip(self.pos as int);
        let end: usize = if n - self.pos <= self.chunk_size {
            n
        } else {
            self.pos + self.chunk_size
        };
        let mut c: Vec<u8> = Vec::new();
        let mut i: usize = self.pos;
        while i < end
            invariant
                self.pos <= i <= end <= n,
                n == self.data@.len(),
                c@ =~= self.data@.subrange(self.pos as int, i as int),
            decreases end - i,
        {
            c.push(self.data[i]);
            i = i + 1;
        }
        proof {
            if rest.len() <= self.chunk_size {
                assert(c@ =~= rest);
            } else {
                assert(c@ =~= rest.take(self.chunk_size as int));
                assert(rest.skip(self.chunk_size as int) =~= self.data@.skip(end as int));
            }
        }
        self.pos = end;
        proof {
            if rest.len() <= old(self).chunk_size {
                assert(self.data@.skip(self.pos as int).len() == 0);
            }
        }
        Some(c)
    }
}

/// A response body: all of it at once, or handed out piece by piece.
pub enum Body {
    Full(Vec<u8>),
    Chunked(ChunkedBody),
}

impl Body {
    pub open spec fn wf(&self) -> bool {
        match self {
            Body::Full(_) => true,
            Body::Chunked(c) => c.wf(),
        }
    }

    /// The bytes that the body carries, in the order in which they go out.
    pub open spec fn bytes(&self) -> Seq<u8> {
        match self {
            Body::Full(v) => v@,
            Body::Chunked(c) => c.pending().flatten(),
        }
    }

    /// Pulls every piece of the body and joins them.
    pub fn collect(self) -> (r: Vec<u8>)
        requires
            self.wf(),
        ensures
            r@ == self.bytes(),
    {
        match self {
            Body::Full(v) => v,
            Body::Chunked(c) => {
                let ghost all = self.bytes();
                let mut c = c;
                assert(all == c.pending().flatten());
                let mut out: Vec<u8> = Vec::new();
                loop
                    invariant
                        c.wf(),
                        all == self.bytes(),
                        out@ + c.pending().flatten() == all,
                    decreases c.pending().len(),
                {
                    let ghost before = c.pending();
                    match c.next_chunk() {
                        None => {
                            assert(c.pending().flatten() =~= Seq::<u8>::empty());
                            assert(out@ =~= all);
                            return out;
                        },
                        Some(piece) => {
                            proof {
                                assert(before =~= seq![before[0]] + before.drop_first());
                                vstd::seq_lib::lemma_flatten_concat(seq![before[0]], before.drop_first());
                                assert(seq![before[0]].flatten() =~= before[0]);
                            }
                            let mut piece = piece;
                            out.append(&mut piece);
                            assert(out@ + c.pending().flatten() =~= all);
                        },
                    }
                }
            },
        }
    }
}

/// Cutting bytes into pieces of a positive size loses, adds and reorders
/// nothing: joined again, the pieces are the bytes.
pub proof fn lemma_chunks_concat(d: Seq<u8>, m: nat)
    requires
        m > 0,
    ensures
        chunks_of(d, m).flatten() == d,
    decreases d.len(),
{
    if d.len() == 0 {
        assert(chunks_of(d, m).flatten() =~= d);
    } else if d.len() <= m {
        seq![d].lemma_flatten_one_element();
    } else {
        let rest = d.skip(m as int);
        lemma_chunks_concat(rest, m);
        vstd::seq_lib::lemma_flatten_concat(seq![d.take(m as int)], chunks_of(rest, m));
        seq![d.take(m as int)].lemma_flatten_one_element();
        assert(d.take(m as int) + rest =~= d);
    }
}

/// `n * m` bytes cut into pieces of `m` bytes give `n` pieces of `m` bytes each.
pub proof fn lemma_chunks_count(d: Seq<u8>, m: nat, n: nat)
    requires
        m > 0,
        d.len() == n * m,
    ensures
        chunks_of(d, m).len() == n,
        forall|i: int| 0 <= i < n ==> (#[trigger] chunks_of(d, m)[i]).len() == m,
    decreases n,
{
    if n == 0 {
        assert(d.len() == 0) by (nonlinear_arith)
            requires d.len() == n * m, n == 0;
    } else if n == 1 {
        assert(d.len() == m) by (nonlinear_arith)
            requires d.len() == n * m, n == 1;
    } else {
        assert(n * m >= 2 * m) by (nonlinear_arith)
            requires n >= 2, m > 0;
        let rest = d.skip(m as int);
        assert(rest.len() == (n - 1) as nat * m) by (nonlinear_arith)
            requires rest.len() == d.len() - m, d.len() == n * m, n >= 1;
        lemma_chunks_count(rest, m, (n - 1) as nat);
        let c = chunks_of(d, m);
        assert forall|i: int| 0 <= i < n implies (#[trigger] c[i]).len() == m by {
            if i > 0 {
                assert(c[i] == chunks_of(rest, m)[i - 1]);
            }
        }
    }
}

/// A response: status, declared content type and length, and body.
pub struct Response {
    pub status: u16,
    pub content_type: Option<MediaType>,
    pub content_length: Option<u64>,
    pub body: Body,
}

/// An error that a handler reports: a status and, optionally, a message for
/// the client.
pub struct Error {
    pub status: u16,
    pub message: Option<String>,
}

pub open spec fn error_body(message: Option<String>) -> Seq<u8> {
    match message {
        Some(m) => vstd::utf8::encode_utf8(m@),
        None => Seq::empty(),
    }
}

impl Error {
    pub fn new(status: u16, message: Option<String>) -> (r: Error)
        ensures
            r.status == status,
            r.message == message,
    {
        Error { status, message }
    }

    /// The response that reports this error: its status, and its message as
    /// a plain-text body.
    pub fn into_response(self) -> (r: Response)
        ensures
            r.status == self.status,
            (r.body matches Body::Full(b) && b@ == error_body(self.message)),
            r.content_type == (if self.message is Some { Some(MediaType::PlainText) } else { None::<MediaType> }),
            r.content_length is None,
    {
        match self.message {
            Some(m) => Response {
                status: self.status,
                content_type: Some(MediaType::PlainText),
                content_length: None,
                body: Body::Full(m.as_str().as_bytes_vec()),
            },
            None => Response {
                status: self.status,
                content_type: None,
                content_length: None,
                body: Body::Full(Vec::new()),
            },
        }
    }
}

pub fn not_found() -> (r: Error)
    ensures
        r.status == 404,
        r.message is None,
{
    Error { status: 404, message: None }
}

pub fn bad_request() -> (r: Error)
    ensures
        r.status == 400,
        r.message is None,
{
    Error { status: 400, message: None }
}

pub fn internal_server_error() -> (r: Error)
    ensures
        r.status == 500,
        r.message is None,
{
    Error { status: 500, message: None }
}

} // verus!
