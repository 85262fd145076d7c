use std::cell::Cell;
use std::sync::Arc;

use tonic_interceptor::{
    complete, interceptor, short_circuit_response, CallOutcome, Code, FutStep, InterceptorFn,
    InterceptorFut, InterceptorService, MetadataMap, OnRequest, Request, Response, Status,
};

struct Dummy(&'static str);

#[test]
fn should_propagate_status_on_request() {
    const MSG: &str = "BAD";
    let expected: Response<(), ()> =
        short_circuit_response(&Status::permission_denied(MSG), (), ());

    let handler = |_req: Request<(), ()>| -> Result<Response<(), ()>, Status> {
        panic!("handler must never run")
    };

    let policy = OnRequest(|m: MetadataMap, x: ()| (m, x, Some(Status::permission_denied(MSG))));
    let service = InterceptorService::new(policy, handler);
    let request = Request {
        metadata: MetadataMap::new(),
        extensions: (),
        body: (),
    };

    let response = match service.call(request) {
        CallOutcome::ShortCircuit { status } => {
            let fut: InterceptorFut<_, Result<Response<(), ()>, Status>> =
                InterceptorFut::status(service.interceptor, status);
            match fut.step((), ()) {
                FutStep::Ready { response } => response,
                FutStep::Delegated { .. } => unreachable!("short-circuit must resolve in one step"),
            }
        }
        CallOutcome::Forward { .. } => unreachable!("the call must not be forwarded"),
    };

    assert_eq!(expected.metadata, response.metadata);
    assert_eq!(expected.body, response.body);
    assert_eq!(expected.extensions, response.extensions);
}

#[test]
fn should_modify_request_parts() {
    const MSG: &str = "BAD";
    const BIN: &str = "BIN";
    const EXT: &str = "EXT";
    let expected: Response<(), Vec<Dummy>> = Response {
        metadata: MetadataMap::new(),
        extensions: Vec::new(),
        body: (),
    };

    let handler = |req: Request<(), Vec<Dummy>>| -> Result<Response<(), Vec<Dummy>>, Status> {
        assert_eq!(req.extensions.len(), 1);
        let dummy = req.extensions.first().expect("To have Dummy extensions");
        assert_eq!(dummy.0, EXT);

        let bin = req.metadata.get_bin("x-msg-bin").expect("to have x-msg-bin");
        assert_eq!(BIN.as_bytes(), bin.as_slice());

        let msg = req.metadata.get("x-msg").expect("to have x-msg");
        assert_eq!(MSG.as_bytes(), msg.as_slice());

        Ok(Response {
            metadata: MetadataMap::new(),
            extensions: Vec::new(),
            body: (),
        })
    };

    let policy = InterceptorFn {
        on_request: |mut m: MetadataMap, mut x: Vec<Dummy>| {
            m.insert_bin("x-msg-bin", BIN.as_bytes().to_vec());
            m.insert("x-msg", MSG.as_bytes().to_vec());
            x.push(Dummy(EXT));
            (m, x, None::<Status>)
        },
        on_response: |m: MetadataMap, _x: &Vec<Dummy>| m,
    };

    let service = InterceptorService::new(policy, handler);
    let request = Request {
        metadata: MetadataMap::new(),
        extensions: Vec::new(),
        body: (),
    };

    let response = match service.call(request) {
        CallOutcome::Forward { request } => {
            let outcome = (service.inner)(request);
            let fut = InterceptorFut::fut(service.interceptor, outcome);
            match fut.step((), Vec::<Dummy>::new()) {
                FutStep::Delegated {
                    interceptor,
                    computation,
                } => complete(&interceptor, computation).expect("Response"),
                FutStep::Ready { .. } => unreachable!("a delegated call is not resolved by step"),
            }
        }
        CallOutcome::ShortCircuit { .. } => unreachable!("the call must not be rejected"),
    };

    assert_eq!(expected.metadata, response.metadata);
    assert_eq!(expected.body, response.body);
    assert_eq!(expected.extensions.len(), response.extensions.len());
}

#[test]
fn short_circuit_wire_shape() {
    let status = Status::new(Code::Aborted, String::from("a b"));
    let response: Response<(), ()> = short_circuit_response(&status, (), ());

    assert_eq!(response.metadata.len(), 3);
    assert_eq!(
        response
            .metadata
            .get("content-type")
            .expect("to have content-type")
            .as_slice(),
        b"application/grpc"
    );
    assert_eq!(
        response
            .metadata
            .get("grpc-status")
            .expect("to have grpc-status")
            .as_slice(),
        b"10"
    );
    assert_eq!(
        response
            .metadata
            .get("grpc-message")
            .expect("to have grpc-message")
            .as_slice(),
        b"a%20b"
    );
}

#[test]
fn empty_message_has_no_message_header() {
    let status = Status::new(Code::Internal, String::new());
    let response: Response<(), ()> = short_circuit_response(&status, (), ());

    assert_eq!(response.metadata.len(), 2);
    assert_eq!(
        response
            .metadata
            .get("grpc-status")
            .expect("to have grpc-status")
            .as_slice(),
        b"13"
    );
    assert!(response.metadata.get("grpc-message").is_none());
}

#[test]
fn message_escaping_is_exact() {
    let status = Status::new(Code::Unknown, String::from("100% \"sure\"?"));
    let mut headers = MetadataMap::new();
    status.add_header(&mut headers);
    assert_eq!(
        headers
            .get("grpc-message")
            .expect("to have grpc-message")
            .as_slice(),
        b"100%25%20%22sure%22%3F"
    );

    let accent = Status::new(Code::Unknown, String::from("\u{e9}"));
    let mut headers = MetadataMap::new();
    accent.add_header(&mut headers);
    assert_eq!(
        headers
            .get("grpc-message")
            .expect("to have grpc-message")
            .as_slice(),
        b"%C3%A9"
    );
}

#[test]
fn status_code_digits_cover_both_widths() {
    assert_eq!(Code::Okay.digits(), b"0".to_vec());
    assert_eq!(Code::PermissionDenied.digits(), b"7".to_vec());
    assert_eq!(Code::FailedPrecondition.digits(), b"9".to_vec());
    assert_eq!(Code::Aborted.digits(), b"10".to_vec());
    assert_eq!(Code::Unauthenticated.digits(), b"16".to_vec());
    assert_eq!(Code::PermissionDenied.number(), 7);
}

#[test]
fn handler_error_passes_through_untouched() {
    let policy = InterceptorFn {
        on_request: |m: MetadataMap, x: ()| (m, x, None::<Status>),
        on_response: |_m: MetadataMap, _x: &()| panic!("the response hook must not run"),
    };

    let outcome: Result<Response<(), ()>, &'static str> = Err("boom");
    let r = complete(&policy, outcome);
    match r {
        Err(e) => assert_eq!(e, "boom"),
        Ok(_) => unreachable!("an error must stay an error"),
    }
}

#[test]
fn response_hook_runs_once_on_success() {
    let runs = Cell::new(0u32);
    let policy = InterceptorFn {
        on_request: |m: MetadataMap, x: ()| (m, x, None::<Status>),
        on_response: |mut m: MetadataMap, _x: &()| {
            runs.set(runs.get() + 1);
            m.insert("x-seen", b"yes".to_vec());
            m
        },
    };

    let outcome: Result<Response<(), ()>, Status> = Ok(Response {
        metadata: MetadataMap::new(),
        extensions: (),
        body: (),
    });
    let r = complete(&policy, outcome).expect("Response");
    assert_eq!(runs.get(), 1);
    assert_eq!(
        r.metadata.get("x-seen").expect("to have x-seen").as_slice(),
        b"yes"
    );
}

#[test]
fn insert_replaces_entries_under_the_same_key() {
    let mut m = MetadataMap::new();
    m.insert("k", b"one".to_vec());
    m.insert("k", b"two".to_vec());
    assert_eq!(m.len(), 1);
    assert_eq!(m.get("k").expect("to have k").as_slice(), b"two");
}

#[test]
fn text_and_binary_tags_are_distinct() {
    let mut m = MetadataMap::new();
    m.insert("k", b"text".to_vec());
    assert!(m.get_bin("k").is_none());
    m.insert_bin("k-bin", b"\x01\x02".to_vec());
    assert!(m.get("k-bin").is_none());
    assert_eq!(
        m.get_bin("k-bin").expect("to have k-bin").as_slice(),
        b"\x01\x02"
    );
}

#[test]
fn layer_wraps_services_with_the_policy() {
    const MSG: &str = "denied by layer";
    let layer = interceptor(OnRequest(|m: MetadataMap, x: u32| {
        (m, x, Some(Status::permission_denied(MSG)))
    }));
    let handler = |_req: Request<(), u32>| -> Result<Response<(), u32>, Status> {
        panic!("handler must never run")
    };
    let service = layer.layer(handler);

    let request = Request {
        metadata: MetadataMap::new(),
        extensions: 7u32,
        body: (),
    };
    match service.call(request) {
        CallOutcome::ShortCircuit { status } => {
            assert_eq!(status.code(), Code::PermissionDenied);
            assert_eq!(status.message(), MSG);
        }
        CallOutcome::Forward { .. } => unreachable!("the call must not be forwarded"),
    }
}

#[test]
fn forwarded_request_keeps_the_body() {
    let policy = OnRequest(|mut m: MetadataMap, x: ()| {
        m.insert("stamp", b"v1".to_vec());
        (m, x, None::<Status>)
    });
    let service = InterceptorService::new(policy, ());
    let request = Request {
        metadata: MetadataMap::new(),
        extensions: (),
        body: vec![1u8, 2, 3],
    };
    match service.call(request) {
        CallOutcome::Forward { request } => {
            assert_eq!(request.body, vec![1u8, 2, 3]);
            assert_eq!(
                request.metadata.get("stamp").expect("to have stamp").as_slice(),
                b"v1"
            );
        }
        CallOutcome::ShortCircuit { .. } => unreachable!("the call must not be rejected"),
    }
}

#[test]
fn arc_shared_policy_intercepts() {
    let policy = Arc::new(OnRequest(|m: MetadataMap, x: ()| {
        (m, x, Some(Status::permission_denied("shared")))
    }));
    let service = InterceptorService::new(policy.clone(), ());
    let request = Request {
        metadata: MetadataMap::new(),
        extensions: (),
        body: (),
    };
    match service.call(request) {
        CallOutcome::ShortCircuit { status } => {
            assert_eq!(status.code(), Code::PermissionDenied);
            assert_eq!(status.message(), "shared");
        }
        CallOutcome::Forward { .. } => unreachable!("the call must not be forwarded"),
    }
}

#[test]
fn request_only_policy_keeps_response_untouched() {
    let policy = OnRequest(|m: MetadataMap, x: ()| (m, x, None::<Status>));
    let mut metadata = MetadataMap::new();
    metadata.insert("set-by-handler", b"1".to_vec());
    let outcome: Result<Response<(), ()>, Status> = Ok(Response {
        metadata,
        extensions: (),
        body: (),
    });
    let r = complete(&policy, outcome).expect("Response");
    assert_eq!(r.metadata.len(), 1);
    assert_eq!(
        r.metadata
            .get("set-by-handler")
            .expect("to have set-by-handler")
            .as_slice(),
        b"1"
    );
}
