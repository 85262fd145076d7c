//! An interception layer for gRPC-style services: a pluggable policy may
//! inspect and mutate request metadata before a call reaches its handler,
//! short-circuit the call with a terminal status, and post-process response
//! metadata after the handler resolves.
//!
//! The layer never looks at a message body: a request or response body, and
//! the typed extension store that accompanies it, pass through opaquely.
use vstd::prelude::*;
use vstd::slice::slice_to_vec;
use vstd::string::StringSliceAdditionalSpecFns;

pub mod metadata;
pub mod status;

verus! {

pub use crate::metadata::MetadataMap;
pub use crate::metadata::MetadataEntry;
pub use crate::metadata::MetadataEntryView;
pub use crate::metadata::insert_view;
pub use crate::metadata::first_value;
pub use crate::status::Status;
pub use crate::status::StatusView;
pub use crate::status::Code;

use crate::metadata::without_key;
use crate::status::with_status_headers;
use crate::status::{grpc_status_key, grpc_message_key, grpc_status_entry, grpc_message_entry};
use crate::status::code_digits;

/// A request as the interception layer sees it: a metadata map, an opaque
/// extension store `X`, and an opaque body `B`. The layer reads and writes
/// only the metadata; extensions are handed to the policy, the body is
/// never touched.
pub struct Request<B, X> {
    pub metadata: MetadataMap,
    pub extensions: X,
    pub body: B,
}

/// A response as the interception layer sees it, shaped like [`Request`].
pub struct Response<B, X> {
    pub metadata: MetadataMap,
    pub extensions: X,
    pub body: B,
}

/// An interception policy: a read-only object whose request hook runs
/// before a call is forwarded and may short-circuit it, and whose response
/// hook runs once a forwarded call has succeeded.
///
/// Each implementation describes its hooks with the two `..._ensures`
/// relations; the layer's own contracts are stated over those relations,
/// whatever the policy does. `wf` says when the hooks may be invoked at
/// all; for the closure adapters it asks the closures to be total.
pub trait Interceptor<X>: Sized {
    /// Whether the hooks of this policy may be invoked.
    spec fn wf(&self) -> bool;

    /// Everything this policy guarantees of one `on_request` invocation:
    /// from metadata `m0` and extensions `x0` it produced metadata `m1`,
    /// extensions `x1` and the verdict.
    spec fn on_request_ensures(
        &self,
        m0: MetadataMap,
        x0: X,
        m1: MetadataMap,
        x1: X,
        verdict: Option<Status>,
    ) -> bool;

    /// Everything this policy guarantees of one `on_response` invocation:
    /// from response metadata `m0`, beside read-only extensions `x`, it
    /// produced metadata `m1`.
    spec fn on_response_ensures(&self, m0: MetadataMap, x: X, m1: MetadataMap) -> bool;

    /// The request hook: inspect and rework the request's metadata and
    /// extensions; returning a status short-circuits the call.
    fn on_request(&self, headers: MetadataMap, extensions: X) -> (r: (
        MetadataMap,
        X,
        Option<Status>,
    ))
        requires
            self.wf(),
        ensures
            self.on_request_ensures(headers, extensions, r.0, r.1, r.2),
    ;

    /// The response hook: rework the metadata of a successful response;
    /// the response's extensions are read-only at this point.
    fn on_response(&self, headers: MetadataMap, extensions: &X) -> (r: MetadataMap)
        requires
            self.wf(),
        ensures
            self.on_response_ensures(headers, *extensions, r),
    ;
}

impl<X, I: Interceptor<X>> Interceptor<X> for std::sync::Arc<I> {
    open spec fn wf(&self) -> bool {
        (**self).wf()
    }

    open spec fn on_request_ensures(
        &self,
        m0: MetadataMap,
        x0: X,
        m1: MetadataMap,
        x1: X,
        verdict: Option<Status>,
    ) -> bool {
        (**self).on_request_ensures(m0, x0, m1, x1, verdict)
    }

    open spec fn on_response_ensures(&self, m0: MetadataMap, x: X, m1: MetadataMap) -> bool {
        (**self).on_response_ensures(m0, x, m1)
    }

    fn on_request(&self, headers: MetadataMap, extensions: X) -> (r: (
        MetadataMap,
        X,
        Option<Status>,
    )) {
        (**self).on_request(headers, extensions)
    }

    fn on_response(&self, headers: MetadataMap, extensions: &X) -> (r: MetadataMap) {
        (**self).on_response(headers, extensions)
    }
}

/// An interception policy given by a request hook alone; responses pass
/// through untouched.
#[derive(Clone)]
pub struct OnRequest<F>(pub F);

impl<X, F: Fn(MetadataMap, X) -> (MetadataMap, X, Option<Status>)> Interceptor<X> for OnRequest<
    F,
> {
    open spec fn wf(&self) -> bool {
        forall|m: MetadataMap, x: X| #[trigger] call_requires(self.0, (m, x))
    }

    open spec fn on_request_ensures(
        &self,
        m0: MetadataMap,
        x0: X,
        m1: MetadataMap,
        x1: X,
        verdict: Option<Status>,
    ) -> bool {
        call_ensures(self.0, (m0, x0), (m1, x1, verdict))
    }

    open spec fn on_response_ensures(&self, m0: MetadataMap, x: X, m1: MetadataMap) -> bool {
        m1 == m0
    }

    fn on_request(&self, headers: MetadataMap, extensions: X) -> (r: (
        MetadataMap,
        X,
        Option<Status>,
    )) {
        (self.0)(headers, extensions)
    }

    fn on_response(&self, headers: MetadataMap, _extensions: &X) -> (r: MetadataMap) {
        headers
    }
}

/// An interception policy given by a pair of hooks.
#[derive(Clone)]
pub struct InterceptorFn<OnReq, OnResp> {
    /// Invoked on each incoming request.
    pub on_request: OnReq,
    /// Invoked on each successful response.
    pub on_response: OnResp,
}

impl<
    X,
    OnReq: Fn(MetadataMap, X) -> (MetadataMap, X, Option<Status>),
    OnResp: Fn(MetadataMap, &X) -> MetadataMap,
> Interceptor<X> for InterceptorFn<OnReq, OnResp> {
    open spec fn wf(&self) -> bool {
        &&& forall|m: MetadataMap, x: X| #[trigger] call_requires(self.on_request, (m, x))
        &&& forall|m: MetadataMap, x: X| #[trigger] call_requires(self.on_response, (m, &x))
    }

    open spec fn on_request_ensures(
        &self,
        m0: MetadataMap,
        x0: X,
        m1: MetadataMap,
        x1: X,
        verdict: Option<Status>,
    ) -> bool {
        call_ensures(self.on_request, (m0, x0), (m1, x1, verdict))
    }

    open spec fn on_response_ensures(&self, m0: MetadataMap, x: X, m1: MetadataMap) -> bool {
        call_ensures(self.on_response, (m0, &x), m1)
    }

    fn on_request(&self, headers: MetadataMap, extensions: X) -> (r: (
        MetadataMap,
        X,
        Option<Status>,
    )) {
        (self.on_request)(headers, extensions)
    }

    fn on_response(&self, headers: MetadataMap, extensions: &X) -> (r: MetadataMap) {
        (self.on_response)(headers, extensions)
    }
}

/// The service that applies an interception policy around an inner
/// handler. The handler itself is opaque to this layer: `call` decides,
/// per request, whether the call is forwarded to it or short-circuited.
pub struct InterceptorService<I, S> {
    pub interceptor: I,
    pub inner: S,
}

/// What one dispatch decided: either the call goes on to the inner handler
/// with the request as the request hook left it — the only way a handler
/// invocation can arise, and it carries the request exactly once — or the
/// call is short-circuited and no request survives to be handled.
pub enum CallOutcome<B, X> {
    /// Forward the enclosed request to the inner handler.
    Forward { request: Request<B, X> },
    /// The policy rejected the call before the handler saw it.
    ShortCircuit { status: Status },
}

impl<I, S> InterceptorService<I, S> {
    /// Wrap `inner` with the given interception policy.
    pub fn new(interceptor: I, inner: S) -> (s: Self)
        ensures
            s.interceptor == interceptor,
            s.inner == inner,
    {
        InterceptorService { interceptor, inner }
    }

    /// Dispatch one call: run the request hook on the request's metadata
    /// and extensions, and either hand back the (possibly reworked)
    /// request for the inner handler, or the status that short-circuits
    /// the call. The request's body is never inspected and survives
    /// unchanged on the forward path; on the short-circuit path the
    /// request is discarded entirely.
    pub fn call<B, X>(&self, req: Request<B, X>) -> (c: CallOutcome<B, X>) where
        I: Interceptor<X>

        requires
            self.interceptor.wf(),
        ensures
            exists|m: MetadataMap, x: X, v: Option<Status>|
                {
                    &&& #[trigger] self.interceptor.on_request_ensures(
                        req.metadata,
                        req.extensions,
                        m,
                        x,
                        v,
                    )
                    &&& (match v {
                        None => c == (CallOutcome::Forward {
                            request: Request { metadata: m, extensions: x, body: req.body },
                        }),
                        Some(s) => c == (CallOutcome::ShortCircuit::<B, X> { status: s }),
                    })
                },
    {
        let Request { metadata, extensions, body } = req;
        let (m2, x2, verdict) = self.interceptor.on_request(metadata, extensions);
        match verdict {
            None => {
                proof {
                    assert(self.interceptor.on_request_ensures(
                        req.metadata,
                        req.extensions,
                        m2,
                        x2,
                        None::<Status>,
                    ));
                }
                CallOutcome::Forward {
                    request: Request { metadata: m2, extensions: x2, body },
                }
            },
            Some(status) => {
                proof {
                    assert(self.interceptor.on_request_ensures(
                        req.metadata,
                        req.extensions,
                        m2,
                        x2,
                        Some(status),
                    ));
                }
                CallOutcome::ShortCircuit { status }
            },
        }
    }
}

/// The completion of one intercepted call: it either already holds the
/// terminal status of a short-circuited call, or it holds the inner
/// handler's still-pending computation `F`, which this layer never looks
/// into. The branch is fixed at construction and never changes; resolving
/// the completion consumes it, so a resolved completion cannot be polled
/// again.
pub struct InterceptorFut<I, F> {
    pub interceptor: I,
    pub inner: Result<F, Status>,
}

impl<I, F> InterceptorFut<I, F> {
    /// A completion that is already terminally failed: the short-circuit
    /// branch.
    pub fn status(interceptor: I, status: Status) -> (r: Self)
        ensures
            r.interceptor == interceptor,
            r.inner == Result::<F, Status>::Err(status),
    {
        InterceptorFut { interceptor, inner: Err(status) }
    }

    /// A completion that wraps the inner handler's pending computation:
    /// the delegate branch.
    pub fn fut(interceptor: I, fut: F) -> (r: Self)
        ensures
            r.interceptor == interceptor,
            r.inner == Result::<F, Status>::Ok(fut),
    {
        InterceptorFut { interceptor, inner: Ok(fut) }
    }

    /// One resolution step, driven by whoever polls the completion. On the
    /// short-circuit branch the completion resolves immediately into the
    /// synthesized terminal response, built around the empty body and
    /// fresh extensions the poller supplies. On the delegate branch the
    /// poller receives the pending computation back, to drive it and then
    /// conclude with [`complete`].
    pub fn step<B, X>(self, body: B, extensions: X) -> (s: FutStep<I, F, B, X>)
        ensures
            (match self.inner {
                Err(st) => s matches FutStep::Ready { response }
                    && response.metadata@ == short_circuit_headers(st@)
                    && response.extensions == extensions && response.body == body,
                Ok(f) => s == (FutStep::Delegated::<I, F, B, X> {
                    interceptor: self.interceptor,
                    computation: f,
                }),
            }),
    {
        let InterceptorFut { interceptor, inner } = self;
        match inner {
            Err(status) => FutStep::Ready {
                response: short_circuit_response(&status, body, extensions),
            },
            Ok(computation) => FutStep::Delegated { interceptor, computation },
        }
    }
}

/// The two ways a completion steps forward, mirroring the two branches of
/// [`InterceptorFut`].
pub enum FutStep<I, F, B, X> {
    /// The completion resolved in one step with this response.
    Ready { response: Response<B, X> },
    /// The completion waits on the inner computation; whoever drives it to
    /// an outcome concludes the call with [`complete`].
    Delegated { interceptor: I, computation: F },
}

/// The metadata of a synthesized short-circuit response: the gRPC content
/// type header, then whatever headers the status serializes itself into.
pub open spec fn short_circuit_headers(st: StatusView) -> Seq<MetadataEntryView> {
    with_status_headers(seq![content_type_entry()], st)
}

/// The header that marks a synthesized response as gRPC wire traffic.
pub open spec fn content_type_entry() -> MetadataEntryView {
    MetadataEntryView {
        key: "content-type".spec_bytes(),
        value: "application/grpc".spec_bytes(),
        binary: false,
    }
}

/// Build the terminal response for a short-circuited call: an empty body
/// (the poller supplies the empty value), fresh extensions, the gRPC
/// content type header and the status's own headers — the wire shape of a
/// call the policy rejected.
pub fn short_circuit_response<B, X>(status: &Status, body: B, extensions: X) -> (r: Response<
    B,
    X,
>)
    ensures
        r.metadata@ == short_circuit_headers(status@),
        r.body == body,
        r.extensions == extensions,
{
    let mut metadata = MetadataMap::new();
    metadata.insert("content-type", slice_to_vec("application/grpc".as_bytes()));
    proof {
        assert(metadata@ =~= seq![content_type_entry()]);
    }
    status.add_header(&mut metadata);
    Response { metadata, extensions, body }
}

/// Conclude a delegated call from the outcome of the inner computation: a
/// successful response has the response hook applied to its metadata,
/// exactly once, before anyone else sees it; a handler error is
/// propagated untouched and the response hook never runs.
pub fn complete<I: Interceptor<X>, B, X, E>(
    interceptor: &I,
    outcome: Result<Response<B, X>, E>,
) -> (r: Result<Response<B, X>, E>)
    requires
        interceptor.wf(),
    ensures
        (match outcome {
            Ok(resp) => r matches Ok(out) && interceptor.on_response_ensures(
                resp.metadata,
                resp.extensions,
                out.metadata,
            ) && out.extensions == resp.extensions && out.body == resp.body,
            Err(e) => r matches Err(e2) && e2 == e,
        }),
{
    match outcome {
        Ok(resp) => {
            let Response { metadata, extensions, body } = resp;
            let new_metadata = interceptor.on_response(metadata, &extensions);
            Ok(Response { metadata: new_metadata, extensions, body })
        },
        Err(e) => Err(e),
    }
}

proof fn lemma_wire_keys_distinct()
    ensures
        content_type_entry().key != grpc_status_key(),
        content_type_entry().key != grpc_message_key(),
        grpc_status_key() != grpc_message_key(),
{
    broadcast use vstd::string::is_ascii_spec_bytes;

    reveal_strlit("content-type");
    reveal_strlit("grpc-status");
    reveal_strlit("grpc-message");
    assert(vstd::string::is_ascii("content-type"));
    assert(vstd::string::is_ascii("grpc-status"));
    assert(vstd::string::is_ascii("grpc-message"));
    assert("content-type".spec_bytes().len() == 12);
    assert("grpc-status".spec_bytes().len() == 11);
    assert("grpc-message".spec_bytes().len() == 12);
    assert("content-type".spec_bytes()[0] == 'c' as u8);
    assert("grpc-message".spec_bytes()[0] == 'g' as u8);
    assert(('c' as u8) != ('g' as u8));
}

/// The exact metadata of a short-circuited response: the content type
/// header, the status code header, and — only for a non-empty message —
/// the escaped message header, in this order and nothing else.
pub proof fn lemma_short_circuit_headers_shape(st: StatusView)
    ensures
        st.message.len() == 0 ==> short_circuit_headers(st) == seq![
            content_type_entry(),
            grpc_status_entry(st.code),
        ],
        st.message.len() != 0 ==> short_circuit_headers(st) == seq![
            content_type_entry(),
            grpc_status_entry(st.code),
            grpc_message_entry(st.message),
        ],
{
    lemma_wire_keys_distinct();
    let s0 = seq![content_type_entry()];
    assert(s0.drop_last() =~= Seq::<MetadataEntryView>::empty());
    assert(without_key(Seq::<MetadataEntryView>::empty(), grpc_status_key())
        =~= Seq::<MetadataEntryView>::empty());
    assert(without_key(s0, grpc_status_key()) =~= s0);
    let s1 = insert_view(s0, grpc_status_key(), code_digits(st.code), false);
    assert(s1 =~= seq![content_type_entry(), grpc_status_entry(st.code)]);
    if st.message.len() != 0 {
        assert(s1.drop_last() =~= s0);
        assert(without_key(Seq::<MetadataEntryView>::empty(), grpc_message_key())
            =~= Seq::<MetadataEntryView>::empty());
        assert(without_key(s0, grpc_message_key()) =~= s0);
        assert(without_key(s1, grpc_message_key()) =~= s1);
        assert(short_circuit_headers(st) =~= seq![
            content_type_entry(),
            grpc_status_entry(st.code),
            grpc_message_entry(st.message),
        ]);
    }
}

/// A reusable layer: it holds a policy and wraps any inner handler into an
/// [`InterceptorService`] carrying a clone of that policy.
#[derive(Clone)]
pub struct InterceptorLayer<I>(pub I);

impl<I: Clone> InterceptorLayer<I> {
    /// Wrap `inner` with this layer's policy.
    pub fn layer<S>(&self, inner: S) -> (s: InterceptorService<I, S>)
        ensures
            cloned(self.0, s.interceptor),
            s.inner == inner,
    {
        InterceptorService::new(self.0.clone(), inner)
    }
}

/// Package a policy as a reusable layer.
pub fn interceptor<I>(policy: I) -> (l: InterceptorLayer<I>)
    ensures
        l.0 == policy,
{
    InterceptorLayer(policy)
}

} // verus!
