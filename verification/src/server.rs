//! Per-stream decisions of the ExtProc `ExternalProcessor` service.
//!
//! An ExtProc stream carries the phases of one HTTP exchange: request
//! headers, request body chunks, response headers, response body chunks
//! and trailers. `StreamState` accumulates what the phases deliver and
//! decides, for each incoming message, whether to answer at once or to run
//! the filter pipeline; the pipeline itself runs outside this module, and
//! its verdicts come back through the `finish_*` methods.
//!
//! `StreamState` is generic in the converted request (`Req`), the converted
//! response (`Resp`) and the filter state that the request phase hands on
//! to the response phase (`Carry`); it only stores them.

use vstd::prelude::*;

use crate::response::{
    continue_with, copy_header_value, header_views, immediate, immediate_reply, is_body_reply,
    request_body, request_headers, request_trailers, response_body, response_headers,
    response_trailers, HeaderMutation, HeaderValue, HeadersResponse, ImmediateResponse,
    ProcessingResponse, Response, TrailersResponse, CommonResponse, ResponseStatus, BodyResponse,
    BodyMutation,
};

verus! {

// -----------------------------------------------------------------------------
// Constants
// -----------------------------------------------------------------------------

/// Maximum accumulated body size before rejecting (10 MiB).
pub const MAX_BODY_ACCUMULATION: usize = 10485760;

/// Channel buffer size for the response stream.
pub const RESPONSE_CHANNEL_SIZE: usize = 16;

// -----------------------------------------------------------------------------
// Request messages
// -----------------------------------------------------------------------------

/// A list of headers (`envoy.config.core.v3.HeaderMap`).
#[derive(Debug)]
pub struct HeaderMap {
    /// The headers, in order.
    pub headers: Vec<HeaderValue>,
}

/// A headers phase message (`ext_proc.v3.HttpHeaders`).
#[derive(Debug)]
pub struct HttpHeaders {
    /// The headers, when Envoy sent any.
    pub headers: Option<HeaderMap>,
    /// Whether no body follows.
    pub end_of_stream: bool,
}

/// A body phase message (`ext_proc.v3.HttpBody`).
#[derive(Debug)]
pub struct HttpBody {
    /// The bytes of this chunk.
    pub body: Vec<u8>,
    /// Whether this is the last chunk.
    pub end_of_stream: bool,
}

/// A trailers phase message (`ext_proc.v3.HttpTrailers`).
#[derive(Debug)]
pub struct HttpTrailers {
    /// The trailers, when Envoy sent any.
    pub trailers: Option<HeaderMap>,
}

/// The phase that a `ProcessingRequest` carries (`ProcessingRequest.request`).
#[derive(Debug)]
pub enum Request {
    /// Request headers.
    RequestHeaders(HttpHeaders),
    /// A request body chunk.
    RequestBody(HttpBody),
    /// Response headers.
    ResponseHeaders(HttpHeaders),
    /// A response body chunk.
    ResponseBody(HttpBody),
    /// Request trailers.
    RequestTrailers(HttpTrailers),
    /// Response trailers.
    ResponseTrailers(HttpTrailers),
}

// -----------------------------------------------------------------------------
// Status
// -----------------------------------------------------------------------------

/// The gRPC status codes that this service ends a stream with.
#[derive(PartialEq, Eq, Structural, Clone, Copy, Debug)]
pub enum StatusCode {
    /// An invariant of the stream was broken.
    Internal,
    /// A body grew past the accumulation limit.
    ResourceExhausted,
    /// A filter rejected the response at header time.
    Aborted,
}

/// A gRPC status that ends the stream.
#[derive(Debug)]
pub struct Status {
    /// The status code.
    pub code: StatusCode,
    /// The message sent with it.
    pub message: String,
}

impl Status {
    /// An `Internal` status with the given message.
    pub fn internal(message: &str) -> (s: Status)
        ensures
            s.code == StatusCode::Internal,
            s.message@ == message@,
    {
        Status { code: StatusCode::Internal, message: message.to_owned() }
    }

    /// A `ResourceExhausted` status with the given message.
    pub fn resource_exhausted(message: &str) -> (s: Status)
        ensures
            s.code == StatusCode::ResourceExhausted,
            s.message@ == message@,
    {
        Status { code: StatusCode::ResourceExhausted, message: message.to_owned() }
    }

    /// An `Aborted` status with the given message.
    pub fn aborted(message: String) -> (s: Status)
        ensures
            s.code == StatusCode::Aborted,
            s.message == message,
    {
        Status { code: StatusCode::Aborted, message }
    }

    /// The code and the message, as plain values.
    pub open spec fn parts(&self) -> (StatusCode, Seq<char>) {
        (self.code, self.message@)
    }
}

// -----------------------------------------------------------------------------
// Events and steps
// -----------------------------------------------------------------------------

/// An incoming phase message, with its headers already converted for the
/// filter pipeline.
#[derive(Debug)]
pub enum StreamEvent<Req, Resp> {
    /// Request headers, converted.
    RequestHeaders { request: Req, end_of_stream: bool },
    /// A request body chunk.
    RequestBody(HttpBody),
    /// Response headers, converted.
    ResponseHeaders { response: Resp, end_of_stream: bool },
    /// A response body chunk.
    ResponseBody(HttpBody),
    /// Request trailers.
    RequestTrailers,
    /// Response trailers.
    ResponseTrailers,
}

/// What the stream handler does after an incoming message.
#[derive(Debug)]
pub enum NextStep {
    /// Send these responses (possibly none) and wait for the next message.
    Reply(Vec<ProcessingResponse>),
    /// Run the request phase of the pipeline.
    RunRequestPipeline,
    /// Run the response phase of the pipeline (headers and body).
    RunResponsePipeline,
    /// Run the response filters at header time, before the body arrives.
    RunResponseHeaderFilters,
}

/// `NextStep` as a plain value.
pub enum StepView {
    /// Send these responses.
    Reply(Seq<ProcessingResponse>),
    /// Run the request phase.
    RunRequestPipeline,
    /// Run the response phase.
    RunResponsePipeline,
    /// Run the response filters at header time.
    RunResponseHeaderFilters,
}

impl View for NextStep {
    type V = StepView;

    open spec fn view(&self) -> StepView {
        match self {
            NextStep::Reply(v) => StepView::Reply(v@),
            NextStep::RunRequestPipeline => StepView::RunRequestPipeline,
            NextStep::RunResponsePipeline => StepView::RunResponsePipeline,
            NextStep::RunResponseHeaderFilters => StepView::RunResponseHeaderFilters,
        }
    }
}

/// `StreamEvent` as a plain value.
pub enum EventView<Req, Resp> {
    /// Request headers and their end-of-stream flag.
    RequestHeaders(Req, bool),
    /// A request body chunk and its end-of-stream flag.
    RequestBody(Seq<u8>, bool),
    /// Response headers and their end-of-stream flag.
    ResponseHeaders(Resp, bool),
    /// A response body chunk and its end-of-stream flag.
    ResponseBody(Seq<u8>, bool),
    /// Request trailers.
    RequestTrailers,
    /// Response trailers.
    ResponseTrailers,
}

impl<Req, Resp> View for StreamEvent<Req, Resp> {
    type V = EventView<Req, Resp>;

    open spec fn view(&self) -> EventView<Req, Resp> {
        match self {
            StreamEvent::RequestHeaders { request, end_of_stream } => EventView::RequestHeaders(
                *request,
                *end_of_stream,
            ),
            StreamEvent::RequestBody(b) => EventView::RequestBody(b.body@, b.end_of_stream),
            StreamEvent::ResponseHeaders { response, end_of_stream } => EventView::ResponseHeaders(
                *response,
                *end_of_stream,
            ),
            StreamEvent::ResponseBody(b) => EventView::ResponseBody(b.body@, b.end_of_stream),
            StreamEvent::RequestTrailers => EventView::RequestTrailers,
            StreamEvent::ResponseTrailers => EventView::ResponseTrailers,
        }
    }
}

// -----------------------------------------------------------------------------
// StreamState
// -----------------------------------------------------------------------------

/// Per-stream state accumulated across ExtProc phases.
#[derive(Debug)]
pub struct StreamState<Req, Resp, Carry> {
    /// Filter state from the request phase (executed filters, branch
    /// re-entrance counters, metadata), handed on to the response phase.
    pub carried: Option<Carry>,
    /// Converted request from the headers phase.
    pub request: Option<Req>,
    /// Accumulated request body bytes.
    pub request_body: Vec<u8>,
    /// Converted response from the response headers phase.
    pub response: Option<Resp>,
    /// Accumulated response body bytes.
    pub response_body: Vec<u8>,
    /// Whether response-phase filters already ran at header time.
    pub response_filters_executed: bool,
}

/// `StreamState` as plain values.
pub struct StreamView<Req, Resp, Carry> {
    /// Filter state handed on from the request phase.
    pub carried: Option<Carry>,
    /// Converted request.
    pub request: Option<Req>,
    /// Accumulated request body.
    pub request_body: Seq<u8>,
    /// Converted response.
    pub response: Option<Resp>,
    /// Accumulated response body.
    pub response_body: Seq<u8>,
    /// Whether response filters ran at header time.
    pub response_filters_executed: bool,
}

impl<Req, Resp, Carry> View for StreamState<Req, Resp, Carry> {
    type V = StreamView<Req, Resp, Carry>;

    open spec fn view(&self) -> StreamView<Req, Resp, Carry> {
        StreamView {
            carried: self.carried,
            request: self.request,
            request_body: self.request_body@,
            response: self.response,
            response_body: self.response_body@,
            response_filters_executed: self.response_filters_executed,
        }
    }
}

/// No accumulated body exceeds `MAX_BODY_ACCUMULATION`.
pub open spec fn bodies_within_limit<Req, Resp, Carry>(s: StreamView<Req, Resp, Carry>) -> bool {
    &&& s.request_body.len() <= MAX_BODY_ACCUMULATION
    &&& s.response_body.len() <= MAX_BODY_ACCUMULATION
}

/// The status that refuses a body chunk past the accumulation limit.
pub open spec fn body_too_large() -> (StatusCode, Seq<char>) {
    (StatusCode::ResourceExhausted, "body exceeds maximum size"@)
}

/// Whether a chunk of `incoming` bytes still fits after `current` bytes.
pub open spec fn fits(current: int, incoming: int) -> bool {
    current + incoming <= MAX_BODY_ACCUMULATION
}

/// How a stream moves on an incoming message: the next state, and either the
/// step to take or the status that ends the stream.
pub open spec fn transition<Req, Resp, Carry>(
    s: StreamView<Req, Resp, Carry>,
    e: EventView<Req, Resp>,
) -> (StreamView<Req, Resp, Carry>, Result<StepView, (StatusCode, Seq<char>)>) {
    match e {
        EventView::RequestHeaders(req, eos) => (
            StreamView { request: Some(req), ..s },
            Ok(
                if eos {
                    StepView::RunRequestPipeline
                } else {
                    StepView::Reply(seq![request_headers_spec(None)])
                },
            ),
        ),
        EventView::RequestBody(chunk, eos) => if fits(s.request_body.len() as int, chunk.len() as int) {
            (
                StreamView { request_body: s.request_body + chunk, ..s },
                Ok(
                    if eos {
                        StepView::RunRequestPipeline
                    } else {
                        StepView::Reply(Seq::empty())
                    },
                ),
            )
        } else {
            (s, Err(body_too_large()))
        },
        EventView::ResponseHeaders(resp, eos) => (
            StreamView { response: Some(resp), ..s },
            Ok(
                if eos {
                    StepView::RunResponsePipeline
                } else {
                    StepView::RunResponseHeaderFilters
                },
            ),
        ),
        EventView::ResponseBody(chunk, eos) => if fits(
            s.response_body.len() as int,
            chunk.len() as int,
        ) {
            (
                StreamView { response_body: s.response_body + chunk, ..s },
                Ok(
                    if eos {
                        StepView::RunResponsePipeline
                    } else {
                        StepView::Reply(Seq::empty())
                    },
                ),
            )
        } else {
            (s, Err(body_too_large()))
        },
        EventView::RequestTrailers => (s, Ok(StepView::Reply(seq![request_trailers_spec()]))),
        EventView::ResponseTrailers => (s, Ok(StepView::Reply(seq![response_trailers_spec()]))),
    }
}

/// The response to the request headers phase that continues with `mutation`.
pub open spec fn request_headers_spec(mutation: Option<HeaderMutation>) -> ProcessingResponse {
    ProcessingResponse {
        response: Some(Response::RequestHeaders(HeadersResponse { response: Some(continue_with(mutation)) })),
    }
}

/// The response to the response headers phase that continues with `mutation`.
pub open spec fn response_headers_spec(mutation: Option<HeaderMutation>) -> ProcessingResponse {
    ProcessingResponse {
        response: Some(Response::ResponseHeaders(HeadersResponse { response: Some(continue_with(mutation)) })),
    }
}

/// The passthrough response to request trailers.
pub open spec fn request_trailers_spec() -> ProcessingResponse {
    ProcessingResponse { response: Some(Response::RequestTrailers(TrailersResponse { header_mutation: None })) }
}

/// The passthrough response to response trailers.
pub open spec fn response_trailers_spec() -> ProcessingResponse {
    ProcessingResponse { response: Some(Response::ResponseTrailers(TrailersResponse { header_mutation: None })) }
}

/// What a step returned by a handler looks like as plain values.
pub open spec fn outcome_view(r: Result<NextStep, Status>) -> Result<StepView, (StatusCode, Seq<char>)> {
    match r {
        Ok(step) => Ok(step@),
        Err(status) => Err(status.parts()),
    }
}

impl<Req, Resp, Carry> StreamState<Req, Resp, Carry> {
    /// Create a new empty stream state.
    pub fn new() -> (s: Self)
        ensures
            s.carried.is_none(),
            s.request.is_none(),
            s.request_body@ == Seq::<u8>::empty(),
            s.response.is_none(),
            s.response_body@ == Seq::<u8>::empty(),
            !s.response_filters_executed,
    {
        StreamState {
            carried: None,
            request: None,
            request_body: Vec::new(),
            response: None,
            response_body: Vec::new(),
            response_filters_executed: false,
        }
    }

    /// Handle request headers: store the converted request, and answer at
    /// once unless the message ends the stream.
    ///
    /// When a body is expected, the pipeline runs later when the body
    /// arrives; Envoy still waits for a headers response before sending it.
    pub fn handle_request_headers(&mut self, request: Req, end_of_stream: bool) -> (step: NextStep)
        ensures
            (final(self)@, Ok::<StepView, (StatusCode, Seq<char>)>(step@)) == transition(
                old(self)@,
                EventView::RequestHeaders(request, end_of_stream),
            ),
    {
        self.request = Some(request);
        if end_of_stream {
            return NextStep::RunRequestPipeline;
        }
        let mut replies: Vec<ProcessingResponse> = Vec::new();
        replies.push(request_headers(None));
        proof {
            assert(replies@ =~= seq![request_headers_spec(None)]);
        }
        NextStep::Reply(replies)
    }

    /// Handle a request body chunk: accumulate it, and ask for the pipeline
    /// when it is the last one.
    pub fn handle_request_body(&mut self, body: HttpBody) -> (r: Result<NextStep, Status>)
        ensures
            (final(self)@, outcome_view(r)) == transition(
                old(self)@,
                EventView::RequestBody(body.body@, body.end_of_stream),
            ),
    {
        let checked = check_body_limit(self.request_body.len(), body.body.len());
        if let Err(status) = checked {
            return Err(status);
        }
        let mut chunk = body.body;
        self.request_body.append(&mut chunk);
        if !body.end_of_stream {
            return Ok(NextStep::Reply(Vec::new()));
        }
        Ok(NextStep::RunRequestPipeline)
    }

    /// Handle response headers: store the converted response; run the
    /// whole response phase when no body follows, or only the header-time
    /// response filters otherwise.
    ///
    /// Response header mutations must be sent in this phase because Envoy
    /// sends headers to the client after receiving the reply.
    pub fn handle_response_headers(&mut self, response: Resp, end_of_stream: bool) -> (step: NextStep)
        ensures
            (final(self)@, Ok::<StepView, (StatusCode, Seq<char>)>(step@)) == transition(
                old(self)@,
                EventView::ResponseHeaders(response, end_of_stream),
            ),
    {
        self.response = Some(response);
        if end_of_stream {
            return NextStep::RunResponsePipeline;
        }
        NextStep::RunResponseHeaderFilters
    }

    /// Handle a response body chunk: accumulate it, and ask for the
    /// response phase when it is the last one.
    pub fn handle_response_body(&mut self, body: HttpBody) -> (r: Result<NextStep, Status>)
        ensures
            (final(self)@, outcome_view(r)) == transition(
                old(self)@,
                EventView::ResponseBody(body.body@, body.end_of_stream),
            ),
    {
        let checked = check_body_limit(self.response_body.len(), body.body.len());
        if let Err(status) = checked {
            return Err(status);
        }
        let mut chunk = body.body;
        self.response_body.append(&mut chunk);
        if !body.end_of_stream {
            return Ok(NextStep::Reply(Vec::new()));
        }
        Ok(NextStep::RunResponsePipeline)
    }

    /// Dispatch a single incoming message to the handler of its phase.
    pub fn dispatch_request(&mut self, event: StreamEvent<Req, Resp>) -> (r: Result<NextStep, Status>)
        ensures
            (final(self)@, outcome_view(r)) == transition(old(self)@, event@),
    {
        match event {
            StreamEvent::RequestHeaders { request, end_of_stream } => Ok(
                self.handle_request_headers(request, end_of_stream),
            ),
            StreamEvent::RequestBody(b) => self.handle_request_body(b),
            StreamEvent::ResponseHeaders { response, end_of_stream } => Ok(
                self.handle_response_headers(response, end_of_stream),
            ),
            StreamEvent::ResponseBody(b) => self.handle_response_body(b),
            StreamEvent::RequestTrailers => {
                let mut replies: Vec<ProcessingResponse> = Vec::new();
                replies.push(request_trailers());
                proof {
                    assert(replies@ =~= seq![request_trailers_spec()]);
                }
                Ok(NextStep::Reply(replies))
            },
            StreamEvent::ResponseTrailers => {
                let mut replies: Vec<ProcessingResponse> = Vec::new();
                replies.push(response_trailers());
                proof {
                    assert(replies@ =~= seq![response_trailers_spec()]);
                }
                Ok(NextStep::Reply(replies))
            },
        }
    }

    /// The guard of the request phase: the request headers must have come.
    pub fn check_request_present(&self) -> (r: Result<(), Status>)
        ensures
            r is Ok <==> self.request.is_some(),
            r matches Err(s) ==> s.parts() == (StatusCode::Internal, "no request headers"@),
    {
        if self.request.is_none() {
            return Err(Status::internal("no request headers"));
        }
        Ok(())
    }

    /// The guard of the response phase: both the request and the response
    /// headers must have come. On success the response is taken out of the
    /// state, to be handed to the filters.
    pub fn take_response_for_pipeline(&mut self) -> (r: Result<Resp, Status>)
        ensures
            old(self).request.is_none() ==> (r matches Err(s) && s.parts() == (
                StatusCode::Internal,
                "no request headers"@,
            ) && final(self)@ == old(self)@),
            old(self).request.is_some() && old(self).response.is_none() ==> (r matches Err(s)
                && s.parts() == (StatusCode::Internal, "no response headers"@) && final(self)@
                == old(self)@),
            old(self).request.is_some() && old(self).response.is_some() ==> r == Ok::<Resp, Status>(
                old(self).response.unwrap(),
            ) && final(self)@ == (StreamView { response: None, ..old(self)@ }),
    {
        if self.request.is_none() {
            return Err(Status::internal("no request headers"));
        }
        match self.response.take() {
            Some(resp) => Ok(resp),
            None => Err(Status::internal("no response headers")),
        }
    }

    /// Finish the request phase. A rejection by the header-phase filters,
    /// or else by the body filters, is answered with exactly one immediate
    /// response and leaves the stream state as it was. Without a rejection,
    /// the answer is a body response carrying `mutation` and replacing the
    /// body with the accumulated (filtered) body when there is one, and a
    /// headers response carrying `mutation` otherwise; the filter state is
    /// kept for the response phase.
    pub fn finish_request_pipeline(
        &mut self,
        header_rejection: Option<ImmediateResponse>,
        body_rejection: Option<ImmediateResponse>,
        mutation: Option<HeaderMutation>,
        carried: Carry,
    ) -> (r: Vec<ProcessingResponse>)
        ensures
            match first_rejection(header_rejection, body_rejection) {
                Some(imm) => r@ == seq![immediate_reply(imm)] && final(self)@ == old(self)@,
                None => {
                    &&& r@.len() == 1
                    &&& if old(self).request_body@.len() > 0 {
                        is_body_reply(r@[0], true, mutation, Some(old(self).request_body@))
                    } else {
                        r@[0] == (ProcessingResponse {
                            response: Some(Response::RequestHeaders(HeadersResponse {
                                response: Some(CommonResponse {
                                    status: ResponseStatus::Continue,
                                    header_mutation: mutation,
                                    body_mutation: None,
                                }),
                            })),
                        })
                    }
                    &&& final(self)@ == (StreamView { carried: Some(carried), ..old(self)@ })
                },
            },
    {
        if let Some(imm) = header_rejection {
            return reject_with(imm);
        }
        if let Some(imm) = body_rejection {
            return reject_with(imm);
        }
        let body_data = body_data_if_present(self.request_body.as_slice());
        let responses = if body_data.is_some() {
            request_body(body_data, mutation)
        } else {
            let mut single: Vec<ProcessingResponse> = Vec::new();
            single.push(request_headers(mutation));
            single
        };
        self.carried = Some(carried);
        responses
    }

    /// Finish the response phase. A rejection by the response filters, or
    /// else by the body filters, is answered with exactly one immediate
    /// response. Without a rejection, the answer is a body response
    /// carrying `mutation` and replacing the body with the accumulated
    /// (filtered) body when there is one, and a headers response carrying
    /// `mutation` otherwise.
    pub fn finish_response_pipeline(
        &self,
        header_rejection: Option<ImmediateResponse>,
        body_rejection: Option<ImmediateResponse>,
        mutation: Option<HeaderMutation>,
    ) -> (r: Vec<ProcessingResponse>)
        ensures
            match first_rejection(header_rejection, body_rejection) {
                Some(imm) => r@ == seq![immediate_reply(imm)],
                None => {
                    &&& r@.len() == 1
                    &&& if self.response_body@.len() > 0 {
                        is_body_reply(r@[0], false, mutation, Some(self.response_body@))
                    } else {
                        r@[0] == (ProcessingResponse {
                            response: Some(Response::ResponseHeaders(HeadersResponse {
                                response: Some(CommonResponse {
                                    status: ResponseStatus::Continue,
                                    header_mutation: mutation,
                                    body_mutation: None,
                                }),
                            })),
                        })
                    }
                },
            },
    {
        if let Some(imm) = header_rejection {
            return reject_with(imm);
        }
        if let Some(imm) = body_rejection {
            return reject_with(imm);
        }
        let body_data = body_data_if_present(self.response_body.as_slice());
        if body_data.is_some() {
            response_body(body_data, mutation)
        } else {
            let mut single: Vec<ProcessingResponse> = Vec::new();
            single.push(response_headers(mutation));
            single
        }
    }

    /// Whether the header-time response filters apply: both the request
    /// and the response headers have come. Otherwise the response headers
    /// are answered without a mutation.
    pub fn response_header_filters_apply(&self) -> (r: bool)
        ensures
            r == (self.request.is_some() && self.response.is_some()),
    {
        self.request.is_some() && self.response.is_some()
    }

    /// Whether the response phase still has to run the response filters,
    /// that is, whether they did not already run at header time.
    pub fn needs_response_filters(&self) -> (r: bool)
        ensures
            r == !self.response_filters_executed,
    {
        !self.response_filters_executed
    }

    /// Finish the header-time response filters: a rejection ends the stream
    /// with an `Aborted` status carrying the rejection's body; otherwise the
    /// response filters are marked as done, so that the response phase
    /// does not run them again.
    pub fn finish_response_header_filters(&mut self, rejection: Option<ImmediateResponse>) -> (r: Result<
        (),
        Status,
    >)
        ensures
            match rejection {
                Some(imm) => r matches Err(s) && s.code == StatusCode::Aborted && s.message == imm.body
                    && final(self)@ == old(self)@,
                None => r is Ok && final(self)@ == (StreamView {
                    response_filters_executed: true,
                    ..old(self)@
                }),
            },
    {
        if let Some(imm) = rejection {
            return Err(Status::aborted(imm.body));
        }
        self.response_filters_executed = true;
        Ok(())
    }
}

// -----------------------------------------------------------------------------
// Laws
// -----------------------------------------------------------------------------

/// Whatever message comes, a stream whose bodies are within the
/// accumulation limit stays within it.
pub proof fn lemma_transition_keeps_limit<Req, Resp, Carry>(
    s: StreamView<Req, Resp, Carry>,
    e: EventView<Req, Resp>,
)
    requires
        bodies_within_limit(s),
    ensures
        bodies_within_limit(transition(s, e).0),
{
}

/// A message that the stream refuses leaves the stream state as it was,
/// and only an oversized body chunk is refused.
pub proof fn lemma_refusal_changes_nothing<Req, Resp, Carry>(
    s: StreamView<Req, Resp, Carry>,
    e: EventView<Req, Resp>,
)
    ensures
        transition(s, e).1 is Err ==> transition(s, e).0 == s && transition(s, e).1 == Err::<
            StepView,
            (StatusCode, Seq<char>),
        >(body_too_large()),
{
}

/// A request body chunk that fits under the limit is appended to the
/// request body, whatever its end-of-stream flag and whatever was
/// accumulated before; nothing else of the state changes, and the last
/// chunk asks for the request pipeline while the others are answered with
/// nothing.
pub proof fn lemma_request_chunk_appended<Req, Resp, Carry>(
    s: StreamView<Req, Resp, Carry>,
    chunk: Seq<u8>,
    eos: bool,
)
    requires
        s.request_body.len() + chunk.len() <= MAX_BODY_ACCUMULATION,
    ensures
        transition(s, EventView::RequestBody(chunk, eos)).0.request_body == s.request_body + chunk,
        transition(s, EventView::RequestBody(chunk, eos)).0.request_body.len() == s.request_body.len()
            + chunk.len(),
        transition(s, EventView::RequestBody(chunk, eos)).0.response_body == s.response_body,
        transition(s, EventView::RequestBody(chunk, eos)).0.request == s.request,
        transition(s, EventView::RequestBody(chunk, eos)).0.response == s.response,
        eos ==> transition(s, EventView::RequestBody(chunk, eos)).1 matches Ok(StepView::RunRequestPipeline),
        !eos ==> (transition(s, EventView::RequestBody(chunk, eos)).1 matches Ok(StepView::Reply(v)) && v.len() == 0),
{
}

/// A response body chunk that fits under the limit is appended to the
/// response body, whatever its end-of-stream flag and whatever was
/// accumulated before; nothing else of the state changes, and the last
/// chunk asks for the response pipeline while the others are answered with
/// nothing.
pub proof fn lemma_response_chunk_appended<Req, Resp, Carry>(
    s: StreamView<Req, Resp, Carry>,
    chunk: Seq<u8>,
    eos: bool,
)
    requires
        s.response_body.len() + chunk.len() <= MAX_BODY_ACCUMULATION,
    ensures
        transition(s, EventView::ResponseBody(chunk, eos)).0.response_body == s.response_body + chunk,
        transition(s, EventView::ResponseBody(chunk, eos)).0.response_body.len() == s.response_body.len()
            + chunk.len(),
        transition(s, EventView::ResponseBody(chunk, eos)).0.request_body == s.request_body,
        transition(s, EventView::ResponseBody(chunk, eos)).0.request == s.request,
        transition(s, EventView::ResponseBody(chunk, eos)).0.response == s.response,
        eos ==> transition(s, EventView::ResponseBody(chunk, eos)).1 matches Ok(StepView::RunResponsePipeline),
        !eos ==> (transition(s, EventView::ResponseBody(chunk, eos)).1 matches Ok(StepView::Reply(v)) && v.len() == 0),
{
}

/// A body reply carries exactly the header mutation it was built with,
/// continues, and replaces the body with exactly the given bytes (or
/// leaves it when there are none), in the phase it answers.
pub proof fn lemma_body_reply_contents(
    r: ProcessingResponse,
    is_request: bool,
    mutation: Option<HeaderMutation>,
    body: Option<Seq<u8>>,
)
    requires
        is_body_reply(r, is_request, mutation, body),
    ensures
        is_request ==> (r.response matches Some(Response::RequestBody(BodyResponse { response: Some(c) }))
            && c.status == ResponseStatus::Continue && c.header_mutation == mutation),
        !is_request ==> (r.response matches Some(Response::ResponseBody(BodyResponse { response: Some(c) }))
            && c.status == ResponseStatus::Continue && c.header_mutation == mutation),
        forall|c: CommonResponse|
            (r.response == Some(Response::RequestBody(BodyResponse { response: Some(c) })) || r.response
                == Some(Response::ResponseBody(BodyResponse { response: Some(c) }))) ==> match body {
                Some(b) => c.body_mutation matches Some(BodyMutation::Body(v)) && v@ == b,
                None => c.body_mutation.is_none(),
            },
{
}

/// The answer to headers without a body continues with exactly the given
/// header mutation and leaves the body as it is.
pub proof fn lemma_headers_reply_contents(mutation: Option<HeaderMutation>)
    ensures
        request_headers_spec(mutation).response matches Some(Response::RequestHeaders(HeadersResponse { response: Some(c) }))
            && c.status == ResponseStatus::Continue && c.header_mutation == mutation && c.body_mutation.is_none(),
        response_headers_spec(mutation).response matches Some(Response::ResponseHeaders(HeadersResponse { response: Some(c) }))
            && c.status == ResponseStatus::Continue && c.header_mutation == mutation && c.body_mutation.is_none(),
{
}

/// Incoming messages never touch the filter state handed on from the
/// request phase, nor whether the response filters already ran.
pub proof fn lemma_messages_keep_filter_state<Req, Resp, Carry>(
    s: StreamView<Req, Resp, Carry>,
    e: EventView<Req, Resp>,
)
    ensures
        transition(s, e).0.carried == s.carried,
        transition(s, e).0.response_filters_executed == s.response_filters_executed,
{
}

/// The request body chunks of a stream, one message after another.
pub open spec fn request_chunks<Req, Resp>(chunks: Seq<Seq<u8>>) -> Seq<EventView<Req, Resp>> {
    chunks.map_values(|c: Seq<u8>| EventView::<Req, Resp>::RequestBody(c, false))
}

/// The state after a sequence of messages, or the state at which the
/// first refusal stopped the stream.
pub open spec fn run_events<Req, Resp, Carry>(
    s: StreamView<Req, Resp, Carry>,
    events: Seq<EventView<Req, Resp>>,
) -> StreamView<Req, Resp, Carry>
    decreases events.len(),
{
    if events.len() == 0 {
        s
    } else {
        let (next, out) = transition(s, events[0]);
        if out is Err {
            next
        } else {
            run_events(next, events.drop_first())
        }
    }
}

/// The bytes of a sequence of chunks, in order.
pub open spec fn concat_all(chunks: Seq<Seq<u8>>) -> Seq<u8>
    decreases chunks.len(),
{
    if chunks.len() == 0 {
        Seq::empty()
    } else {
        chunks[0] + concat_all(chunks.drop_first())
    }
}

/// Request body chunks that together stay within the limit are accumulated
/// in the order they arrive: the request body is what was there, followed
/// by all the chunks.
pub proof fn lemma_request_chunks_accumulate<Req, Resp, Carry>(
    s: StreamView<Req, Resp, Carry>,
    chunks: Seq<Seq<u8>>,
)
    requires
        s.request_body.len() + concat_all(chunks).len() <= MAX_BODY_ACCUMULATION,
    ensures
        run_events(s, request_chunks::<Req, Resp>(chunks)).request_body == s.request_body + concat_all(
            chunks,
        ),
    decreases chunks.len(),
{
    let events = request_chunks::<Req, Resp>(chunks);
    if chunks.len() == 0 {
        assert(s.request_body + concat_all(chunks) =~= s.request_body);
    } else {
        let next = transition(s, events[0]).0;
        lemma_concat_all_len(chunks);
        assert(events.drop_first() =~= request_chunks::<Req, Resp>(chunks.drop_first()));
        lemma_request_chunks_accumulate(next, chunks.drop_first());
        assert(next.request_body + concat_all(chunks.drop_first()) =~= s.request_body + concat_all(chunks));
    }
}

/// The response body chunks of a stream, one message after another.
pub open spec fn response_chunks<Req, Resp>(chunks: Seq<Seq<u8>>) -> Seq<EventView<Req, Resp>> {
    chunks.map_values(|c: Seq<u8>| EventView::<Req, Resp>::ResponseBody(c, false))
}

/// Response body chunks that together stay within the limit are
/// accumulated in the order they arrive.
pub proof fn lemma_response_chunks_accumulate<Req, Resp, Carry>(
    s: StreamView<Req, Resp, Carry>,
    chunks: Seq<Seq<u8>>,
)
    requires
        s.response_body.len() + concat_all(chunks).len() <= MAX_BODY_ACCUMULATION,
    ensures
        run_events(s, response_chunks::<Req, Resp>(chunks)).response_body == s.response_body
            + concat_all(chunks),
    decreases chunks.len(),
{
    let events = response_chunks::<Req, Resp>(chunks);
    if chunks.len() == 0 {
        assert(s.response_body + concat_all(chunks) =~= s.response_body);
    } else {
        let next = transition(s, events[0]).0;
        lemma_concat_all_len(chunks);
        assert(events.drop_first() =~= response_chunks::<Req, Resp>(chunks.drop_first()));
        lemma_response_chunks_accumulate(next, chunks.drop_first());
        assert(next.response_body + concat_all(chunks.drop_first()) =~= s.response_body + concat_all(
            chunks,
        ));
    }
}

/// The first chunk of a non-empty sequence is part of their concatenation.
proof fn lemma_concat_all_len(chunks: Seq<Seq<u8>>)
    requires
        chunks.len() > 0,
    ensures
        concat_all(chunks).len() == chunks[0].len() + concat_all(chunks.drop_first()).len(),
{
}

// -----------------------------------------------------------------------------
// Filters
// -----------------------------------------------------------------------------

/// Take a body out of its buffer to hand it to the body filters. The body
/// filters do not run, and the buffer stays as it is, when an earlier
/// filter already rejected the phase or when the body is empty.
pub fn take_body_for_filters(body_buf: &mut Vec<u8>, rejection: &Option<ImmediateResponse>) -> (r: Option<
    Vec<u8>,
>)
    ensures
        rejection.is_some() || old(body_buf)@.len() == 0 ==> r.is_none() && final(body_buf)@ == old(
            body_buf,
        )@,
        rejection.is_none() && old(body_buf)@.len() > 0 ==> (r matches Some(b) && b@ == old(body_buf)@
            && final(body_buf)@.len() == 0),
{
    if rejection.is_some() || body_buf.len() == 0 {
        return None;
    }
    let mut taken: Vec<u8> = Vec::new();
    std::mem::swap(&mut taken, body_buf);
    Some(taken)
}

/// The answer to a rejected phase: exactly one immediate response.
fn reject_with(imm: ImmediateResponse) -> (r: Vec<ProcessingResponse>)
    ensures
        r@ == seq![immediate_reply(imm)],
{
    let mut single: Vec<ProcessingResponse> = Vec::new();
    single.push(immediate(imm));
    proof {
        assert(single@ =~= seq![immediate_reply(imm)]);
    }
    single
}

/// The rejection that decides a phase: that of the earlier filters when
/// there is one, and that of the body filters otherwise.
pub open spec fn first_rejection(
    header_rejection: Option<ImmediateResponse>,
    body_rejection: Option<ImmediateResponse>,
) -> Option<ImmediateResponse> {
    if header_rejection is Some {
        header_rejection
    } else {
        body_rejection
    }
}

/// Put back the body that the body filters returned, if they returned one,
/// and pass on their rejection.
pub fn restore_filtered_body(
    body_buf: &mut Vec<u8>,
    filtered: Option<Vec<u8>>,
    rejection: Option<ImmediateResponse>,
) -> (r: Option<ImmediateResponse>)
    ensures
        r == rejection,
        match filtered {
            Some(b) => final(body_buf)@ == b@,
            None => final(body_buf)@ == old(body_buf)@,
        },
{
    if let Some(b) = filtered {
        *body_buf = b;
    }
    rejection
}

// -----------------------------------------------------------------------------
// Utilities
// -----------------------------------------------------------------------------

/// Extract the header list from an `HttpHeaders` message.
pub fn extract_header_list(headers: &HttpHeaders) -> (r: Vec<HeaderValue>)
    ensures
        header_views(r@) == (match headers.headers {
            Some(hm) => header_views(hm.headers@),
            None => Seq::empty(),
        }),
{
    match &headers.headers {
        Some(hm) => {
            let mut out: Vec<HeaderValue> = Vec::new();
            let n = hm.headers.len();
            for i in 0..n
                invariant
                    n == hm.headers@.len(),
                    out@.len() == i,
                    forall|j: int| 0 <= j < i ==> #[trigger] out@[j]@ == hm.headers@[j]@,
            {
                out.push(copy_header_value(&hm.headers[i]));
            }
            proof {
                assert(header_views(out@) =~= header_views(hm.headers@));
            }
            out
        },
        None => {
            let out: Vec<HeaderValue> = Vec::new();
            proof {
                assert(header_views(out@) =~= Seq::<(Seq<char>, Seq<char>, Seq<u8>)>::empty());
            }
            out
        },
    }
}

/// Reject body accumulation past `MAX_BODY_ACCUMULATION`.
pub fn check_body_limit(current: usize, incoming: usize) -> (r: Result<(), Status>)
    ensures
        r is Ok <==> fits(current as int, incoming as int),
        r matches Err(s) ==> s.parts() == body_too_large(),
{
    if current > MAX_BODY_ACCUMULATION || incoming > MAX_BODY_ACCUMULATION - current {
        return Err(Status::resource_exhausted("body exceeds maximum size"));
    }
    Ok(())
}

/// Return the body if the buffer is non-empty.
pub fn body_data_if_present(buf: &[u8]) -> (r: Option<&[u8]>)
    ensures
        buf@.len() == 0 ==> r.is_none(),
        buf@.len() > 0 ==> (r matches Some(b) && b@ == buf@),
{
    if buf.len() == 0 {
        None
    } else {
        Some(buf)
    }
}

/// The label of a request phase, used in logging.
pub open spec fn phase_label(req: Request) -> Seq<char> {
    match req {
        Request::RequestHeaders(_) => "request_headers"@,
        Request::RequestBody(_) => "request_body"@,
        Request::ResponseHeaders(_) => "response_headers"@,
        Request::ResponseBody(_) => "response_body"@,
        Request::RequestTrailers(_) => "request_trailers"@,
        Request::ResponseTrailers(_) => "response_trailers"@,
    }
}

/// Label string for a request variant, used in debug logging.
pub fn request_type_label(req: &Request) -> (r: &'static str)
    ensures
        r@ == phase_label(*req),
{
    match req {
        Request::RequestHeaders(_) => "request_headers",
        Request::RequestBody(_) => "request_body",
        Request::ResponseHeaders(_) => "response_headers",
        Request::ResponseBody(_) => "response_body",
        Request::RequestTrailers(_) => "request_trailers",
        Request::ResponseTrailers(_) => "response_trailers",
    }
}

} // verus!
