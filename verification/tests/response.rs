use praxis_extproc::response::{
    BodyMutation, chunk_body, immediate, request_body, request_headers, request_trailers, response_body,
    response_headers, response_trailers, HeaderMutation, HttpStatus, ImmediateResponse, Response,
    ResponseStatus, BODY_CHUNK_LIMIT,
};

#[test]
fn chunk_body_empty() {
    let chunks = chunk_body(&[]);

    assert_eq!(chunks.len(), 1, "empty body should produce one chunk");
    assert!(chunks[0].0.is_empty(), "chunk should be empty");
    assert!(chunks[0].1, "single chunk should be EOS");
}

#[test]
fn chunk_body_small() {
    let data = vec![0u8; 100];
    let chunks = chunk_body(&data);

    assert_eq!(chunks.len(), 1, "small body should produce one chunk");
    assert_eq!(chunks[0].0.len(), 100, "chunk should contain all data");
    assert!(chunks[0].1, "single chunk should be EOS");
}

#[test]
fn chunk_body_exact_boundary() {
    let data = vec![0u8; BODY_CHUNK_LIMIT];
    let chunks = chunk_body(&data);

    assert_eq!(chunks.len(), 1, "exact boundary should produce one chunk");
    assert!(chunks[0].1, "single chunk should be EOS");
}

#[test]
fn chunk_body_exceeds_boundary() {
    let data = vec![0u8; BODY_CHUNK_LIMIT + 1];
    let chunks = chunk_body(&data);

    assert_eq!(chunks.len(), 2, "should split into two chunks");
    assert_eq!(chunks[0].0.len(), BODY_CHUNK_LIMIT, "first chunk at limit");
    assert!(!chunks[0].1, "first chunk is not EOS");
    assert_eq!(chunks[1].0.len(), 1, "second chunk has remainder");
    assert!(chunks[1].1, "second chunk is EOS");
}

#[test]
fn chunk_body_multiple_chunks() {
    let size = BODY_CHUNK_LIMIT * 3 + 42;
    let data = vec![0u8; size];
    let chunks = chunk_body(&data);

    assert_eq!(chunks.len(), 4, "should split into four chunks");

    for (i, (chunk, eos)) in chunks.iter().enumerate() {
        if i < 3 {
            assert_eq!(chunk.len(), BODY_CHUNK_LIMIT, "full chunk at index {i}");
            assert!(!eos, "non-final chunk at index {i} should not be EOS");
        } else {
            assert_eq!(chunk.len(), 42, "last chunk has remainder");
            assert!(eos, "last chunk should be EOS");
        }
    }
}

#[test]
fn chunk_body_reassembles_in_order() {
    let data: Vec<u8> = (0..(BODY_CHUNK_LIMIT * 2 + 7)).map(|i| (i % 251) as u8).collect();
    let chunks = chunk_body(&data);

    let mut joined = Vec::new();
    for (chunk, _) in &chunks {
        joined.extend_from_slice(chunk);
    }
    assert_eq!(joined, data, "chunks should put back together into the body");
    assert_eq!(chunks.iter().filter(|c| c.1).count(), 1, "exactly one EOS chunk");
}

#[test]
fn chunk_body_one_byte() {
    let chunks = chunk_body(&[9u8]);
    assert_eq!(chunks.len(), 1);
    assert_eq!(chunks[0].0, &[9u8][..]);
    assert!(chunks[0].1);
}

fn mutation_removing(name: &str) -> HeaderMutation {
    HeaderMutation {
        set_headers: vec![],
        remove_headers: vec![name.to_owned()],
    }
}

#[test]
fn request_headers_response_with_mutation() {
    let mutation = mutation_removing("x-remove");
    let resp = request_headers(Some(mutation));

    assert!(resp.response.is_some(), "response should be present");
    match resp.response {
        Some(Response::RequestHeaders(h)) => {
            let common = h.response.expect("common response");
            assert_eq!(common.status, ResponseStatus::Continue);
            let m = common.header_mutation.expect("mutation kept");
            assert_eq!(m.remove_headers, vec!["x-remove".to_owned()]);
        }
        _ => panic!("should be RequestHeaders variant"),
    }
}

#[test]
fn request_headers_response_without_mutation() {
    let resp = request_headers(None);

    assert!(resp.response.is_some(), "response should be present");
}

#[test]
fn immediate_wraps_correctly() {
    let imm = ImmediateResponse {
        status: Some(HttpStatus { code: 403 }),
        body: "forbidden".to_owned(),
        ..Default::default()
    };
    let resp = immediate(imm);

    assert!(
        matches!(resp.response, Some(Response::ImmediateResponse(_))),
        "should wrap as ImmediateResponse"
    );
    if let Some(Response::ImmediateResponse(i)) = resp.response {
        assert_eq!(i.status, Some(HttpStatus { code: 403 }));
        assert_eq!(i.body, "forbidden");
    }
}

#[test]
fn request_body_no_mutation() {
    let responses = request_body(None, None);

    assert_eq!(responses.len(), 1, "no body should produce one response");
    match &responses[0].response {
        Some(Response::RequestBody(b)) => {
            assert!(b.response.as_ref().expect("common response").body_mutation.is_none());
        }
        _ => panic!("should be RequestBody"),
    }
}

#[test]
fn request_body_with_data() {
    let data = vec![0u8; 100];
    let responses = request_body(Some(&data), None);

    assert_eq!(responses.len(), 1, "should produce single body response");
    match &responses[0].response {
        Some(Response::RequestBody(b)) => {
            let common = b.response.as_ref().expect("common response");
            assert!(matches!(&common.body_mutation, Some(BodyMutation::Body(v)) if *v == data));
        }
        _ => panic!("should be RequestBody"),
    }
}

#[test]
fn response_body_no_mutation() {
    let responses = response_body(None, None);

    assert_eq!(responses.len(), 1, "no body should produce one response");
    assert!(
        matches!(responses[0].response, Some(Response::ResponseBody(_))),
        "should be ResponseBody variant"
    );
}

#[test]
fn response_body_with_data() {
    let data = vec![0u8; 200];
    let responses = response_body(Some(&data), None);

    assert_eq!(responses.len(), 1, "should produce single body response");
    assert!(
        matches!(responses[0].response, Some(Response::ResponseBody(_))),
        "should be ResponseBody"
    );
}

#[test]
fn response_headers_with_mutation() {
    let mutation = mutation_removing("x-internal");
    let resp = response_headers(Some(mutation));

    assert!(
        matches!(resp.response, Some(Response::ResponseHeaders(_))),
        "should be ResponseHeaders variant"
    );
}

#[test]
fn response_headers_without_mutation() {
    let resp = response_headers(None);

    assert!(
        matches!(resp.response, Some(Response::ResponseHeaders(_))),
        "should be ResponseHeaders variant"
    );
}

#[test]
fn request_trailers_response() {
    let resp = request_trailers();

    assert!(
        matches!(resp.response, Some(Response::RequestTrailers(_))),
        "should be RequestTrailers variant"
    );
}

#[test]
fn response_trailers_response() {
    let resp = response_trailers();

    assert!(
        matches!(resp.response, Some(Response::ResponseTrailers(_))),
        "should be ResponseTrailers variant"
    );
}

#[test]
fn request_body_with_mutation_and_data() {
    let mutation = mutation_removing("x-strip");
    let data = vec![0u8; 50];
    let responses = request_body(Some(&data), Some(mutation));

    assert_eq!(responses.len(), 1, "should produce single body response with mutation");
    match &responses[0].response {
        Some(Response::RequestBody(b)) => {
            let common = b.response.as_ref().expect("common response");
            assert_eq!(common.status, ResponseStatus::Continue);
            let m = common.header_mutation.as_ref().expect("mutation kept");
            assert_eq!(m.remove_headers, vec!["x-strip".to_owned()]);
        }
        _ => panic!("should be RequestBody"),
    }
}

#[test]
fn large_body_single_response() {
    let data = vec![0u8; BODY_CHUNK_LIMIT * 2 + 100];
    let responses = request_body(Some(&data), None);

    assert_eq!(
        responses.len(),
        1,
        "large body should produce single response with body replacement"
    );
    match &responses[0].response {
        Some(Response::RequestBody(b)) => {
            let common = b.response.as_ref().expect("common response");
            assert!(matches!(&common.body_mutation, Some(BodyMutation::Body(v)) if *v == data));
        }
        _ => panic!("should be RequestBody"),
    }
}

#[test]
fn chunk_body_doc_example() {
    let data = vec![0u8; 130_000];
    let chunks = chunk_body(&data);
    assert_eq!(chunks.len(), 3, "130KB should split into 3 chunks");
    assert!(!chunks[0].1, "first chunk is not EOS");
    assert!(chunks[chunks.len() - 1].1, "last chunk is EOS");
}
