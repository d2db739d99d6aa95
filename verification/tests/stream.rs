use praxis_extproc::response::{BodyMutation, HeaderMutation, HeaderValue, ImmediateResponse, Response};
use praxis_extproc::server::{
    body_data_if_present, check_body_limit, extract_header_list, request_type_label,
    restore_filtered_body, take_body_for_filters, HeaderMap, HttpBody, HttpHeaders, HttpTrailers,
    NextStep, Request, StatusCode, StreamEvent, StreamState, MAX_BODY_ACCUMULATION,
};

type State = StreamState<String, String, u32>;

fn body(bytes: &[u8], eos: bool) -> HttpBody {
    HttpBody { body: bytes.to_vec(), end_of_stream: eos }
}

#[test]
fn headers_without_eos_reply_continue() {
    let mut state = State::new();
    let step = state
        .dispatch_request(StreamEvent::RequestHeaders { request: "GET /".to_owned(), end_of_stream: false })
        .ok()
        .expect("headers accepted");
    match step {
        NextStep::Reply(v) => {
            assert_eq!(v.len(), 1);
            assert!(matches!(v[0].response, Some(Response::RequestHeaders(_))));
        }
        _ => panic!("headers with a body to come should be answered at once"),
    }
    assert_eq!(state.request.as_deref(), Some("GET /"));
}

#[test]
fn headers_with_eos_run_pipeline() {
    let mut state = State::new();
    let step = state
        .dispatch_request(StreamEvent::RequestHeaders { request: "GET /".to_owned(), end_of_stream: true })
        .ok()
        .expect("accepted");
    assert!(matches!(step, NextStep::RunRequestPipeline));
}

#[test]
fn body_chunks_accumulate_in_order() {
    let mut state = State::new();
    let step = state.dispatch_request(StreamEvent::RequestBody(body(b"hello ", false))).ok().expect("ok");
    assert!(matches!(step, NextStep::Reply(ref v) if v.is_empty()));
    let step = state.dispatch_request(StreamEvent::RequestBody(body(b"world", true))).ok().expect("ok");
    assert!(matches!(step, NextStep::RunRequestPipeline));
    assert_eq!(state.request_body, b"hello world".to_vec());
}

#[test]
fn oversized_body_is_refused_and_state_kept() {
    let mut state = State::new();
    state.request_body = vec![0u8; MAX_BODY_ACCUMULATION - 1];
    let status = state
        .dispatch_request(StreamEvent::RequestBody(body(b"ab", false)))
        .err()
        .expect("over the limit");
    assert_eq!(status.code, StatusCode::ResourceExhausted);
    assert_eq!(status.message, "body exceeds maximum size");
    assert_eq!(state.request_body.len(), MAX_BODY_ACCUMULATION - 1);

    let step = state.dispatch_request(StreamEvent::RequestBody(body(b"a", true))).ok().expect("fits");
    assert!(matches!(step, NextStep::RunRequestPipeline));
    assert_eq!(state.request_body.len(), MAX_BODY_ACCUMULATION);
}

#[test]
fn response_headers_pick_the_phase() {
    let mut state = State::new();
    let step = state
        .dispatch_request(StreamEvent::ResponseHeaders { response: "200".to_owned(), end_of_stream: false })
        .ok()
        .expect("ok");
    assert!(matches!(step, NextStep::RunResponseHeaderFilters));
    let step = state
        .dispatch_request(StreamEvent::ResponseHeaders { response: "204".to_owned(), end_of_stream: true })
        .ok()
        .expect("ok");
    assert!(matches!(step, NextStep::RunResponsePipeline));
    assert_eq!(state.response.as_deref(), Some("204"));
}

#[test]
fn trailers_passthrough() {
    let mut state = State::new();
    match state.dispatch_request(StreamEvent::RequestTrailers).ok().expect("ok") {
        NextStep::Reply(v) => {
            assert_eq!(v.len(), 1);
            assert!(matches!(v[0].response, Some(Response::RequestTrailers(_))), "should echo back request trailers response");
        }
        _ => panic!("trailers should be answered at once"),
    }
    match state.dispatch_request(StreamEvent::ResponseTrailers).ok().expect("ok") {
        NextStep::Reply(v) => assert!(matches!(v[0].response, Some(Response::ResponseTrailers(_)))),
        _ => panic!("trailers should be answered at once"),
    }
}

#[test]
fn request_pipeline_needs_headers() {
    let state = State::new();
    let status = state.check_request_present().err().expect("no headers yet");
    assert_eq!(status.code, StatusCode::Internal);
    assert_eq!(status.message, "no request headers");
}

#[test]
fn response_pipeline_guards() {
    let mut state = State::new();
    let status = state.take_response_for_pipeline().err().expect("no request");
    assert_eq!(status.message, "no request headers");
    state.request = Some("GET /".to_owned());
    let status = state.take_response_for_pipeline().err().expect("no response");
    assert_eq!(status.message, "no response headers");
    state.response = Some("200".to_owned());
    assert_eq!(state.take_response_for_pipeline().ok(), Some("200".to_owned()));
    assert!(state.response.is_none());
}

#[test]
fn finish_request_pipeline_by_body_presence() {
    let mut state = State::new();
    let out = state.finish_request_pipeline(None, None, None, 7);
    assert_eq!(out.len(), 1);
    assert!(matches!(out[0].response, Some(Response::RequestHeaders(_))));
    assert_eq!(state.carried, Some(7));

    state.request_body = b"payload".to_vec();
    let m = HeaderMutation { set_headers: vec![], remove_headers: vec!["x-a".to_owned()] };
    let out = state.finish_request_pipeline(None, None, Some(m), 8);
    match &out[0].response {
        Some(Response::RequestBody(b)) => {
            let common = b.response.as_ref().expect("common response");
            assert!(matches!(&common.body_mutation, Some(BodyMutation::Body(v)) if v == b"payload"));
            assert_eq!(common.header_mutation.as_ref().expect("mutation").remove_headers, vec!["x-a".to_owned()]);
        }
        _ => panic!("a body response should answer a request with a body"),
    }
    assert_eq!(state.carried, Some(8));
}

#[test]
fn finish_response_pipeline_by_body_presence() {
    let mut state = State::new();
    assert!(matches!(state.finish_response_pipeline(None, None, None)[0].response, Some(Response::ResponseHeaders(_))));
    state.response_body = b"x".to_vec();
    assert!(matches!(state.finish_response_pipeline(None, None, None)[0].response, Some(Response::ResponseBody(_))));
}

#[test]
fn header_time_rejection_aborts() {
    let mut state = State::new();
    let imm = ImmediateResponse { body: "blocked".to_owned(), ..Default::default() };
    let status = state.finish_response_header_filters(Some(imm)).err().expect("aborted");
    assert_eq!(status.code, StatusCode::Aborted);
    assert_eq!(status.message, "blocked");
    assert!(!state.response_filters_executed);
    assert!(state.finish_response_header_filters(None).is_ok());
    assert!(state.response_filters_executed);
}

#[test]
fn body_filters_take_and_restore() {
    let mut buf: Vec<u8> = vec![];
    assert!(take_body_for_filters(&mut buf, &None).is_none());
    let mut buf = b"abc".to_vec();
    assert!(take_body_for_filters(&mut buf, &Some(ImmediateResponse::default())).is_none());
    assert_eq!(buf, b"abc".to_vec(), "a rejected phase keeps its body");
    let taken = take_body_for_filters(&mut buf, &None).expect("non-empty body");
    assert_eq!(taken, b"abc".to_vec());
    assert!(buf.is_empty());
    assert!(restore_filtered_body(&mut buf, Some(b"xyz".to_vec()), None).is_none());
    assert_eq!(buf, b"xyz".to_vec());
    let rej = restore_filtered_body(&mut buf, None, Some(ImmediateResponse::default()));
    assert!(rej.is_some());
    assert_eq!(buf, b"xyz".to_vec());
}

#[test]
fn body_limit_boundaries() {
    assert!(check_body_limit(0, MAX_BODY_ACCUMULATION).is_ok());
    assert!(check_body_limit(MAX_BODY_ACCUMULATION, 0).is_ok());
    assert!(check_body_limit(MAX_BODY_ACCUMULATION, 1).is_err());
    assert!(check_body_limit(usize::MAX, usize::MAX).is_err());
    assert!(check_body_limit(5, MAX_BODY_ACCUMULATION - 5).is_ok());
}

#[test]
fn body_data_presence() {
    assert!(body_data_if_present(&[]).is_none());
    assert_eq!(body_data_if_present(b"ab"), Some(&b"ab"[..]));
}

#[test]
fn labels_name_each_phase() {
    let headers = || HttpHeaders { headers: None, end_of_stream: false };
    assert_eq!(request_type_label(&Request::RequestHeaders(headers())), "request_headers");
    assert_eq!(request_type_label(&Request::RequestBody(body(b"", true))), "request_body");
    assert_eq!(request_type_label(&Request::ResponseHeaders(headers())), "response_headers");
    assert_eq!(request_type_label(&Request::ResponseBody(body(b"", true))), "response_body");
    assert_eq!(request_type_label(&Request::RequestTrailers(HttpTrailers { trailers: None })), "request_trailers");
    assert_eq!(request_type_label(&Request::ResponseTrailers(HttpTrailers { trailers: None })), "response_trailers");
}

#[test]
fn header_list_is_copied() {
    let h = HeaderValue { key: ":method".to_owned(), value: "GET".to_owned(), raw_value: b"GET".to_vec() };
    let msg = HttpHeaders { headers: Some(HeaderMap { headers: vec![h] }), end_of_stream: true };
    let list = extract_header_list(&msg);
    assert_eq!(list.len(), 1);
    assert_eq!(list[0].key, ":method");
    assert_eq!(list[0].value, "GET");
    assert_eq!(list[0].raw_value, b"GET".to_vec());
    assert!(extract_header_list(&HttpHeaders { headers: None, end_of_stream: false }).is_empty());
}

#[test]
fn rejected_request_phase_answers_immediately() {
    let mut state = State::new();
    state.request_body = b"DROP TABLE users".to_vec();
    let header = ImmediateResponse { body: "header".to_owned(), ..Default::default() };
    let body = ImmediateResponse { body: "body".to_owned(), ..Default::default() };
    let out = state.finish_request_pipeline(Some(header), Some(body), None, 1);
    assert_eq!(out.len(), 1);
    match &out[0].response {
        Some(Response::ImmediateResponse(i)) => assert_eq!(i.body, "header"),
        _ => panic!("a rejection should be answered with an immediate response"),
    }
    assert!(state.carried.is_none(), "a rejected phase keeps the state as it was");

    let body = ImmediateResponse { body: "body".to_owned(), ..Default::default() };
    let out = state.finish_request_pipeline(None, Some(body), None, 2);
    assert!(matches!(&out[0].response, Some(Response::ImmediateResponse(i)) if i.body == "body"));
    assert!(state.carried.is_none());
}

#[test]
fn rejected_response_phase_answers_immediately() {
    let mut state = State::new();
    state.response_body = b"secret".to_vec();
    let imm = ImmediateResponse { body: "no".to_owned(), ..Default::default() };
    let out = state.finish_response_pipeline(None, Some(imm), None);
    assert_eq!(out.len(), 1);
    assert!(matches!(&out[0].response, Some(Response::ImmediateResponse(i)) if i.body == "no"));
}

#[test]
fn header_time_filters_need_both_headers() {
    let mut state = State::new();
    assert!(!state.response_header_filters_apply());
    state.response = Some("200".to_owned());
    assert!(!state.response_header_filters_apply());
    state.request = Some("GET /".to_owned());
    assert!(state.response_header_filters_apply());
}
