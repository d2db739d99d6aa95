//! Builders for ExtProc `ProcessingResponse` messages.
//!
//! Constructs well-formed responses for each ExtProc phase (headers,
//! body, trailers) and splits bodies into chunks at the 62 KiB boundary
//! that Envoy accepts for a streamed body chunk.
//!
//! The message types here hold, as plain values, the fields of the Envoy
//! `envoy.service.ext_proc.v3` messages that this server reads or fills;
//! every field left out keeps its protobuf default.

use vstd::prelude::*;

verus! {

// -----------------------------------------------------------------------------
// Constants
// -----------------------------------------------------------------------------

/// Maximum body chunk size for streamed responses.
///
/// Envoy enforces a ~64 KiB limit per streamed body chunk. Using 62 KiB
/// provides a safety margin.
pub const BODY_CHUNK_LIMIT: usize = 63488;

// -----------------------------------------------------------------------------
// Message types
// -----------------------------------------------------------------------------

/// A single HTTP header (`envoy.config.core.v3.HeaderValue`).
#[derive(Debug)]
pub struct HeaderValue {
    /// Header name.
    pub key: String,
    /// Header value as text.
    pub value: String,
    /// Header value as raw bytes.
    pub raw_value: Vec<u8>,
}

impl View for HeaderValue {
    type V = (Seq<char>, Seq<char>, Seq<u8>);

    open spec fn view(&self) -> (Seq<char>, Seq<char>, Seq<u8>) {
        (self.key@, self.value@, self.raw_value@)
    }
}

/// The headers of a list, each by its view.
pub open spec fn header_views(headers: Seq<HeaderValue>) -> Seq<(Seq<char>, Seq<char>, Seq<u8>)> {
    headers.map_values(|h: HeaderValue| h@)
}

/// Copy a header: name, text value and raw bytes.
pub fn copy_header_value(h: &HeaderValue) -> (r: HeaderValue)
    ensures
        r@ == h@,
{
    let raw = h.raw_value.clone();
    proof {
        assert forall|i: int| 0 <= i < raw@.len() implies raw@[i] == h.raw_value@[i] by {
            assert(cloned::<u8>(h.raw_value[i], raw[i]));
        }
        assert(raw@ =~= h.raw_value@);
    }
    HeaderValue { key: h.key.clone(), value: h.value.clone(), raw_value: raw }
}

/// A header to add or overwrite (`envoy.config.core.v3.HeaderValueOption`).
#[derive(Debug)]
pub struct HeaderValueOption {
    /// The header itself.
    pub header: Option<HeaderValue>,
    /// Whether to append to an existing value (deprecated in favour of `append_action`).
    pub append: Option<bool>,
    /// How to treat an existing header of that name (`HeaderAppendAction`, as its number).
    pub append_action: i32,
    /// Whether to keep the header when its value is empty.
    pub keep_empty_value: bool,
}

/// Header additions and removals (`ext_proc.v3.HeaderMutation`).
#[derive(Debug)]
pub struct HeaderMutation {
    /// Headers to set.
    pub set_headers: Vec<HeaderValueOption>,
    /// Names of headers to remove.
    pub remove_headers: Vec<String>,
}

/// Processing status of a phase response (`CommonResponse.ResponseStatus`).
#[derive(PartialEq, Eq, Structural, Clone, Copy, Debug)]
pub enum ResponseStatus {
    /// Apply the mutations and continue.
    Continue,
    /// Replace the message and continue.
    ContinueAndReplace,
}

/// A replacement of a message body (`ext_proc.v3.BodyMutation`).
#[derive(Debug)]
pub enum BodyMutation {
    /// Replace the body with these bytes.
    Body(Vec<u8>),
    /// Clear the body, when set.
    ClearBody(bool),
}

/// The part shared by header and body phase responses (`ext_proc.v3.CommonResponse`).
#[derive(Debug)]
pub struct CommonResponse {
    /// How Envoy continues after this response.
    pub status: ResponseStatus,
    /// Header changes to apply.
    pub header_mutation: Option<HeaderMutation>,
    /// Body change to apply.
    pub body_mutation: Option<BodyMutation>,
}

/// Response to a headers phase (`ext_proc.v3.HeadersResponse`).
#[derive(Debug)]
pub struct HeadersResponse {
    /// The common part.
    pub response: Option<CommonResponse>,
}

/// Response to a body phase (`ext_proc.v3.BodyResponse`).
#[derive(Debug)]
pub struct BodyResponse {
    /// The common part.
    pub response: Option<CommonResponse>,
}

/// Response to a trailers phase (`ext_proc.v3.TrailersResponse`).
#[derive(Debug)]
pub struct TrailersResponse {
    /// Trailer changes to apply.
    pub header_mutation: Option<HeaderMutation>,
}

/// An HTTP status code (`envoy.type.v3.HttpStatus`).
#[derive(PartialEq, Eq, Structural, Clone, Copy, Debug)]
pub struct HttpStatus {
    /// The numeric code.
    pub code: i32,
}

/// A gRPC status code (`ext_proc.v3.GrpcStatus`).
#[derive(PartialEq, Eq, Structural, Clone, Copy, Debug)]
pub struct GrpcStatus {
    /// The numeric code.
    pub status: u32,
}

/// A response that Envoy sends to the client at once (`ext_proc.v3.ImmediateResponse`).
#[derive(Debug)]
pub struct ImmediateResponse {
    /// HTTP status of the reply.
    pub status: Option<HttpStatus>,
    /// Headers of the reply.
    pub headers: Option<HeaderMutation>,
    /// Body of the reply.
    pub body: String,
    /// gRPC status of the reply, for a gRPC request.
    pub grpc_status: Option<GrpcStatus>,
    /// Details recorded in Envoy's access log.
    pub details: String,
}

impl Default for ImmediateResponse {
    fn default() -> (r: ImmediateResponse)
        ensures
            r.status.is_none(),
            r.headers.is_none(),
            r.body@ == Seq::<char>::empty(),
            r.grpc_status.is_none(),
            r.details@ == Seq::<char>::empty(),
    {
        ImmediateResponse {
            status: None,
            headers: None,
            body: String::new(),
            grpc_status: None,
            details: String::new(),
        }
    }
}

/// The phase that a `ProcessingResponse` answers (`ProcessingResponse.response`).
#[derive(Debug)]
pub enum Response {
    /// Answer to the request headers phase.
    RequestHeaders(HeadersResponse),
    /// Answer to the response headers phase.
    ResponseHeaders(HeadersResponse),
    /// Answer to the request body phase.
    RequestBody(BodyResponse),
    /// Answer to the response body phase.
    ResponseBody(BodyResponse),
    /// Answer to the request trailers phase.
    RequestTrailers(TrailersResponse),
    /// Answer to the response trailers phase.
    ResponseTrailers(TrailersResponse),
    /// Stop processing and reply to the client.
    ImmediateResponse(ImmediateResponse),
}

/// One message of the server's side of an ExtProc stream (`ext_proc.v3.ProcessingResponse`).
#[derive(Debug)]
pub struct ProcessingResponse {
    /// What the message answers.
    pub response: Option<Response>,
}

// -----------------------------------------------------------------------------
// Specifications
// -----------------------------------------------------------------------------

/// The common part of a phase response that continues with the given
/// header mutation and leaves the body as it is.
pub open spec fn continue_with(mutation: Option<HeaderMutation>) -> CommonResponse {
    CommonResponse { status: ResponseStatus::Continue, header_mutation: mutation, body_mutation: None }
}

/// Continuing with a header mutation carries exactly that mutation and
/// leaves the body as it is.
pub proof fn lemma_continue_with_contents(mutation: Option<HeaderMutation>)
    ensures
        continue_with(mutation).status == ResponseStatus::Continue,
        continue_with(mutation).header_mutation == mutation,
        continue_with(mutation).body_mutation.is_none(),
{
}

/// The bytes of an optional body.
pub open spec fn body_view(body: Option<&[u8]>) -> Option<Seq<u8>> {
    match body {
        Some(b) => Some(b@),
        None => None,
    }
}

/// `c` continues with the header mutation `mutation`, and replaces the
/// body with `body` when there is one, leaving it as it is otherwise.
pub open spec fn continues_replacing(c: CommonResponse, mutation: Option<HeaderMutation>, body: Option<Seq<u8>>) -> bool {
    &&& c.status == ResponseStatus::Continue
    &&& c.header_mutation == mutation
    &&& match body {
        Some(b) => c.body_mutation matches Some(BodyMutation::Body(v)) && v@ == b,
        None => c.body_mutation.is_none(),
    }
}

/// `r` answers the request body phase (when `is_request`) or the response
/// body phase (otherwise), continuing with `mutation` and replacing the
/// body with `body` when there is one.
pub open spec fn is_body_reply(
    r: ProcessingResponse,
    is_request: bool,
    mutation: Option<HeaderMutation>,
    body: Option<Seq<u8>>,
) -> bool {
    match r.response {
        Some(Response::RequestBody(BodyResponse { response: Some(c) })) => is_request && continues_replacing(
            c,
            mutation,
            body,
        ),
        Some(Response::ResponseBody(BodyResponse { response: Some(c) })) => !is_request
            && continues_replacing(c, mutation, body),
        _ => false,
    }
}

/// The response that replies to the client at once with `imm`.
pub open spec fn immediate_reply(imm: ImmediateResponse) -> ProcessingResponse {
    ProcessingResponse { response: Some(Response::ImmediateResponse(imm)) }
}

/// The body phase response that continues with `common`, for the request
/// side when `is_request` holds and for the response side otherwise.
pub open spec fn body_phase(common: CommonResponse, is_request: bool) -> ProcessingResponse {
    if is_request {
        ProcessingResponse { response: Some(Response::RequestBody(BodyResponse { response: Some(common) })) }
    } else {
        ProcessingResponse { response: Some(Response::ResponseBody(BodyResponse { response: Some(common) })) }
    }
}

/// The number of chunks that `chunk_body` cuts a body of `len` bytes into.
pub open spec fn chunk_count(len: nat) -> nat {
    if len == 0 {
        1
    } else {
        ((len + BODY_CHUNK_LIMIT - 1) / (BODY_CHUNK_LIMIT as int)) as nat
    }
}

/// Where chunk `i` of a body of `len` bytes ends.
pub open spec fn chunk_end(len: nat, i: int) -> int {
    if (i + 1) * BODY_CHUNK_LIMIT <= len {
        (i + 1) * BODY_CHUNK_LIMIT
    } else {
        len as int
    }
}

/// The chunks of `data`, each with its end-of-stream flag: consecutive
/// pieces of at most `BODY_CHUNK_LIMIT` bytes, all but the last of exactly
/// that size, and only the last one flagged.
pub open spec fn chunks_of(data: Seq<u8>) -> Seq<(Seq<u8>, bool)> {
    Seq::new(
        chunk_count(data.len()),
        |i: int|
            (
                data.subrange(i * BODY_CHUNK_LIMIT, chunk_end(data.len(), i)),
                i == chunk_count(data.len()) - 1,
            ),
    )
}

/// The bytes of a sequence of chunks, put back together in order.
pub open spec fn concat_chunks(chunks: Seq<(Seq<u8>, bool)>) -> Seq<u8>
    decreases chunks.len(),
{
    if chunks.len() == 0 {
        Seq::empty()
    } else {
        concat_chunks(chunks.drop_last()) + chunks.last().0
    }
}

/// The chunks of a `chunk_body` result, as byte sequences with their flags.
pub open spec fn chunk_views(chunks: Seq<(&[u8], bool)>) -> Seq<(Seq<u8>, bool)> {
    chunks.map_values(|c: (&[u8], bool)| (c.0@, c.1))
}

// -----------------------------------------------------------------------------
// Header Responses
// -----------------------------------------------------------------------------

/// Build a `ProcessingResponse` for the request headers phase.
pub fn request_headers(mutation: Option<HeaderMutation>) -> (r: ProcessingResponse)
    ensures
        r == (ProcessingResponse {
            response: Some(Response::RequestHeaders(HeadersResponse { response: Some(continue_with(mutation)) })),
        }),
{
    ProcessingResponse {
        response: Some(Response::RequestHeaders(HeadersResponse {
            response: Some(
                CommonResponse { status: ResponseStatus::Continue, header_mutation: mutation, body_mutation: None },
            ),
        })),
    }
}

/// Build a `ProcessingResponse` for the response headers phase.
pub fn response_headers(mutation: Option<HeaderMutation>) -> (r: ProcessingResponse)
    ensures
        r == (ProcessingResponse {
            response: Some(Response::ResponseHeaders(HeadersResponse { response: Some(continue_with(mutation)) })),
        }),
{
    ProcessingResponse {
        response: Some(Response::ResponseHeaders(HeadersResponse {
            response: Some(
                CommonResponse { status: ResponseStatus::Continue, header_mutation: mutation, body_mutation: None },
            ),
        })),
    }
}

// -----------------------------------------------------------------------------
// Body Responses
// -----------------------------------------------------------------------------

/// Build the `ProcessingResponse` messages for the request body phase.
///
/// A single continue response carries the header mutation and, when there
/// is a (filtered) body, replaces the body with it, whatever its size;
/// without a body it leaves the body as it is.
pub fn request_body(body: Option<&[u8]>, mutation: Option<HeaderMutation>) -> (r: Vec<ProcessingResponse>)
    ensures
        r@.len() == 1,
        is_body_reply(r@[0], true, mutation, body_view(body)),
{
    body_responses(body, mutation, true)
}

/// Build the `ProcessingResponse` messages for the response body phase.
///
/// Same as `request_body` but wraps the answer in `ResponseBody`.
pub fn response_body(body: Option<&[u8]>, mutation: Option<HeaderMutation>) -> (r: Vec<ProcessingResponse>)
    ensures
        r@.len() == 1,
        is_body_reply(r@[0], false, mutation, body_view(body)),
{
    body_responses(body, mutation, false)
}

// -----------------------------------------------------------------------------
// Trailer Responses
// -----------------------------------------------------------------------------

/// Build a passthrough `ProcessingResponse` for request trailers.
pub fn request_trailers() -> (r: ProcessingResponse)
    ensures
        r == (ProcessingResponse {
            response: Some(Response::RequestTrailers(TrailersResponse { header_mutation: None })),
        }),
{
    ProcessingResponse { response: Some(Response::RequestTrailers(TrailersResponse { header_mutation: None })) }
}

/// Build a passthrough `ProcessingResponse` for response trailers.
pub fn response_trailers() -> (r: ProcessingResponse)
    ensures
        r == (ProcessingResponse {
            response: Some(Response::ResponseTrailers(TrailersResponse { header_mutation: None })),
        }),
{
    ProcessingResponse { response: Some(Response::ResponseTrailers(TrailersResponse { header_mutation: None })) }
}

// -----------------------------------------------------------------------------
// Immediate Response
// -----------------------------------------------------------------------------

/// Wrap an `ImmediateResponse` in a `ProcessingResponse`.
pub fn immediate(imm: ImmediateResponse) -> (r: ProcessingResponse)
    ensures
        r == immediate_reply(imm),
{
    ProcessingResponse { response: Some(Response::ImmediateResponse(imm)) }
}

// -----------------------------------------------------------------------------
// Body Chunking
// -----------------------------------------------------------------------------

/// Split body bytes into chunks of 62 KiB (the Envoy safety limit).
///
/// Returns `(chunk, end_of_stream)` pairs. The last chunk has
/// `end_of_stream` set to `true`; an empty body gives one empty chunk.
pub fn chunk_body(data: &[u8]) -> (chunks: Vec<(&[u8], bool)>)
    ensures
        chunk_views(chunks@) == chunks_of(data@),
{
    if data.len() == 0 {
        let mut single: Vec<(&[u8], bool)> = Vec::new();
        single.push((data, true));
        proof {
            assert(data@.subrange(0, 0) =~= data@);
            assert(chunk_views(single@) =~= chunks_of(data@));
        }
        return single;
    }

    let ghost len = data@.len();
    let mut chunks: Vec<(&[u8], bool)> = Vec::new();
    let mut offset: usize = 0;

    while offset < data.len()
        invariant
            len == data@.len(),
            len > 0,
            offset <= len,
            offset as int == chunks@.len() * BODY_CHUNK_LIMIT || offset == len,
            offset == len ==> chunks@.len() == chunk_count(len),
            offset < len ==> chunks@.len() < chunk_count(len),
            offset < len ==> offset as int == chunks@.len() * BODY_CHUNK_LIMIT,
            forall|i: int|
                #![trigger chunks@[i]]
                0 <= i < chunks@.len() ==> chunks@[i].0@ == data@.subrange(
                    i * BODY_CHUNK_LIMIT,
                    chunk_end(len, i),
                ) && chunks@[i].1 == (i == chunk_count(len) - 1),
        decreases len - offset,
    {
        let ghost k = chunks@.len() as int;
        let end: usize = if data.len() - offset <= BODY_CHUNK_LIMIT {
            data.len()
        } else {
            offset + BODY_CHUNK_LIMIT
        };
        let eos = end == data.len();
        proof {
            assert(end as int == chunk_end(len, k));
            lemma_chunk_index(len, k);
            assert(eos == (k == chunk_count(len) - 1));
        }
        let slice = &data[offset..end];
        chunks.push((slice, eos));
        offset = end;
    }

    proof {
        assert(chunk_views(chunks@) =~= chunks_of(data@));
    }
    chunks
}

/// The chunk that starts at `k * BODY_CHUNK_LIMIT` is the last one exactly
/// when it reaches the end of the body.
proof fn lemma_chunk_index(len: nat, k: int)
    requires
        len > 0,
        0 <= k,
        k * BODY_CHUNK_LIMIT < len,
    ensures
        k < chunk_count(len),
        (chunk_end(len, k) == len) <==> (k == chunk_count(len) - 1),
{
    let l = BODY_CHUNK_LIMIT as int;
    let q = (len + l - 1) / l;
    assert(q * l <= len + l - 1 < q * l + l) by (nonlinear_arith)
        requires
            q == (len + l - 1) / l,
            l > 0,
            len > 0,
    ;
    assert(k < q) by (nonlinear_arith)
        requires
            k * l < len,
            q * l + l > len + l - 1,
            l > 0,
    ;
    if (k + 1) * l >= len {
        assert(k + 1 >= q) by (nonlinear_arith)
            requires
                (k + 1) * l >= len,
                q * l <= len + l - 1,
                l > 0,
        ;
    } else {
        assert(k + 1 < q) by (nonlinear_arith)
            requires
                (k + 1) * l < len,
                q * l + l > len + l - 1,
                l > 0,
        ;
    }
}

/// Putting the chunks of a body back together in order gives the body.
pub proof fn lemma_chunks_reassemble(data: Seq<u8>)
    ensures
        concat_chunks(chunks_of(data)) == data,
{
    let chunks = chunks_of(data);
    let len = data.len();
    if len == 0 {
        assert(chunks.drop_last() =~= Seq::<(Seq<u8>, bool)>::empty());
        assert(concat_chunks(chunks.drop_last()) == Seq::<u8>::empty());
        assert(data.subrange(0, 0) =~= data);
        assert(concat_chunks(chunks) =~= data);
    } else {
        let n = chunk_count(len) as int;
        lemma_chunk_index(len, 0);
        lemma_concat_prefix(data, n);
        assert(chunks.take(n) =~= chunks);
        lemma_last_chunk_end(len);
        assert(data.subrange(0, len as int) =~= data);
    }
}

/// The last chunk of a non-empty body ends where the body ends.
proof fn lemma_last_chunk_end(len: nat)
    requires
        len > 0,
    ensures
        chunk_end(len, chunk_count(len) - 1) == len,
        (chunk_count(len) - 1) * BODY_CHUNK_LIMIT < len,
{
    let l = BODY_CHUNK_LIMIT as int;
    let n = chunk_count(len) as int;
    assert(n * l <= len + l - 1 < n * l + l) by (nonlinear_arith)
        requires
            n == (len + l - 1) / l,
            l > 0,
            len > 0,
    ;
    assert((n - 1) * l == n * l - l) by (nonlinear_arith);
}

/// The first `k` chunks of a non-empty body put together are the body up to
/// where chunk `k - 1` ends.
proof fn lemma_concat_prefix(data: Seq<u8>, k: int)
    requires
        data.len() > 0,
        1 <= k <= chunk_count(data.len()),
    ensures
        concat_chunks(chunks_of(data).take(k)) == data.subrange(0, chunk_end(data.len(), k - 1)),
    decreases k,
{
    let chunks = chunks_of(data);
    let len = data.len();
    let l = BODY_CHUNK_LIMIT as int;
    let prefix = chunks.take(k);
    assert(prefix.drop_last() =~= chunks.take(k - 1));
    assert(prefix.last() == chunks[k - 1]);
    assert((k - 1) * l < len) by {
        lemma_last_chunk_end(len);
        assert((k - 1) * l <= (chunk_count(len) - 1) * l) by (nonlinear_arith)
            requires
                k - 1 <= chunk_count(len) - 1,
                l > 0,
        ;
    }
    if k == 1 {
        assert(chunks.take(0) =~= Seq::<(Seq<u8>, bool)>::empty());
        assert(concat_chunks(prefix.drop_last()) == Seq::<u8>::empty());
        assert(chunks[0].0 == data.subrange(0, chunk_end(len, 0)));
        assert(concat_chunks(prefix) =~= data.subrange(0, chunk_end(len, 0)));
    } else {
        lemma_concat_prefix(data, k - 1);
        assert(chunk_end(len, k - 2) == (k - 1) * l) by {
            assert((k - 1) * l == (k - 2 + 1) * l);
        }
        assert(concat_chunks(prefix) =~= data.subrange(0, chunk_end(len, k - 1)));
    }
}

/// Every chunk holds at most `BODY_CHUNK_LIMIT` bytes, every chunk but the
/// last holds exactly that many, no chunk of a non-empty body is empty, and
/// exactly the last chunk carries the end-of-stream flag.
pub proof fn lemma_chunk_shape(data: Seq<u8>, i: int)
    requires
        0 <= i < chunks_of(data).len(),
    ensures
        chunks_of(data)[i].0.len() <= BODY_CHUNK_LIMIT,
        i < chunks_of(data).len() - 1 ==> chunks_of(data)[i].0.len() == BODY_CHUNK_LIMIT,
        data.len() > 0 ==> chunks_of(data)[i].0.len() > 0,
        chunks_of(data)[i].1 <==> i == chunks_of(data).len() - 1,
        chunks_of(data).len() >= 1,
{
    let len = data.len();
    let l = BODY_CHUNK_LIMIT as int;
    if len > 0 {
        lemma_last_chunk_end(len);
        let n = chunk_count(len) as int;
        assert(i * l <= (n - 1) * l) by (nonlinear_arith)
            requires
                i <= n - 1,
                l > 0,
        ;
        lemma_chunk_index(len, i);
        if i < n - 1 {
            assert(chunk_end(len, i) == (i + 1) * l);
            assert((i + 1) * l == i * l + l) by (nonlinear_arith);
        }
    }
}

// -----------------------------------------------------------------------------
// Utilities
// -----------------------------------------------------------------------------

/// Build a single body response with optional header mutation, replacing
/// the body with `body` when there is one.
fn body_responses(body: Option<&[u8]>, mutation: Option<HeaderMutation>, is_request: bool) -> (r: Vec<
    ProcessingResponse,
>)
    ensures
        r@.len() == 1,
        is_body_reply(r@[0], is_request, mutation, body_view(body)),
{
    let body_mutation = match body {
        Some(b) => Some(BodyMutation::Body(vstd::slice::slice_to_vec(b))),
        None => None,
    };
    let common = CommonResponse { status: ResponseStatus::Continue, header_mutation: mutation, body_mutation };
    let mut responses: Vec<ProcessingResponse> = Vec::new();
    responses.push(wrap_body_response(common, is_request));
    responses
}

/// Wrap a `CommonResponse` as either request or response body.
fn wrap_body_response(common: CommonResponse, is_request: bool) -> (r: ProcessingResponse)
    ensures
        r == body_phase(common, is_request),
{
    let response = if is_request {
        Response::RequestBody(BodyResponse { response: Some(common) })
    } else {
        Response::ResponseBody(BodyResponse { response: Some(common) })
    };

    ProcessingResponse { response: Some(response) }
}

} // verus!
