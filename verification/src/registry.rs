//! The handler registry: wire names bound to handlers.
//!
//! A handler couples a deserializer, a user function and a treatment of the
//! function's output. The registry stores handlers behind one interface,
//! keeps the order in which they were registered, and binds each name once.

use crate::errors::{DispatchError, ErrorKind};
use bytes::Bytes;
use core::marker::PhantomData;
use prost::DecodeError;
use vstd::prelude::*;
use vstd::string::StringExecFns;

verus! {

/// `bytes::Bytes`, the buffer type that deserializers take.
#[verifier::external_type_specification]
#[verifier::external_body]
pub struct ExBytes(Bytes);

/// `prost::DecodeError`, the error that deserializers return.
#[verifier::external_type_specification]
#[verifier::external_body]
pub struct ExDecodeError(DecodeError);

/// The bytes that a `bytes::Bytes` buffer holds.
pub uninterp spec fn bytes_contents(bytes: Bytes) -> Seq<u8>;

/// Hands a byte vector to a `bytes::Bytes` buffer.
///
/// Trusted: the body calls `<Bytes as From<Vec<u8>>>::from`, which takes over
/// the vector's allocation and keeps its length and contents.
#[verifier::external_body]
pub(crate) fn bytes_from_vec(buf: Vec<u8>) -> (bytes: Bytes)
    ensures
        bytes_contents(bytes) == buf@,
{
    Bytes::from(buf)
}

/// Takes the bytes out of a `bytes::Bytes` buffer.
///
/// Trusted: the body calls `<Vec<u8> as From<Bytes>>::from`, which returns
/// the bytes that the buffer holds, in order.
#[verifier::external_body]
pub(crate) fn vec_from_bytes(bytes: Bytes) -> (buf: Vec<u8>)
    ensures
        buf@ == bytes_contents(bytes),
{
    Vec::from(bytes)
}

/// Makes a decode error that carries `description`.
///
/// Trusted: the body calls `prost::DecodeError::new`. The error is opaque,
/// so nothing is stated of it.
#[verifier::external_body]
pub(crate) fn decode_error(description: String) -> (error: DecodeError) {
    DecodeError::new(description)
}

/// Renders a decode error.
///
/// Trusted: the body calls `<prost::DecodeError as Display>::to_string`. The
/// text is a best-effort description, so nothing is stated of it.
#[verifier::external_body]
pub(crate) fn decode_error_text(error: &DecodeError) -> (text: String) {
    error.to_string()
}

/// A handler as the registry stores it: given the bytes of a message and a
/// context, it fails, completes without output, or yields an output.
pub trait SubscriptionHandle<C, W>: Send + Sync {
    /// Whether `outcome` is a possible result of handling `buf` in `ctx`.
    /// Unless a handler says more, every outcome is possible.
    open spec fn handles(&self, buf: Seq<u8>, ctx: &C, outcome: Result<Option<W>, DispatchError>) -> bool {
        true
    }

    /// Whether `name` is a possible answer of the handler to the question
    /// for its name. Unless a handler says more, every name is.
    open spec fn is_named(&self, name: Seq<char>) -> bool {
        true
    }

    /// The wire name that the handler was made for.
    fn name(&self) -> (name: String)
        ensures
            self.is_named(name@),
    ;

    /// Decodes `buf` and handles the message in `ctx`.
    fn handle(&self, buf: Vec<u8>, ctx: &C) -> (outcome: Result<Option<W>, DispatchError>)
        ensures
            self.handles(buf@, ctx, outcome),
    ;
}

/// Whether `decoded` is a possible result of `deserializer` on a buffer that
/// holds `buf`.
pub open spec fn decodes<T, D: Fn(Bytes) -> Result<T, DecodeError>>(
    deserializer: D,
    buf: Seq<u8>,
    decoded: Result<T, DecodeError>,
) -> bool {
    exists|bytes: Bytes| bytes_contents(bytes) == buf && call_ensures(deserializer, (bytes,), decoded)
}

/// Whether `outcome` reports a failure of class `kind`.
pub open spec fn fails_with<W>(outcome: Result<Option<W>, DispatchError>, kind: ErrorKind) -> bool {
    outcome matches Err(error) && error.kind == kind
}

/// Whether `outcome` reports that a handler failed with `text`.
pub open spec fn fails_in_handler<W>(outcome: Result<Option<W>, DispatchError>, text: Seq<char>) -> bool {
    outcome matches Err(error) && error.kind == ErrorKind::HandlerFailure && error.detail@ == text
}

/// Whether `outcome` is a possible result of a handler without output on
/// `message`: the handler's own failure, or completion without output.
pub open spec fn void_handled<T, C, W, F: Fn(T, &C) -> Result<(), String>>(
    handler: F,
    message: T,
    ctx: &C,
    outcome: Result<Option<W>, DispatchError>,
) -> bool {
    exists|handled: Result<(), String>| #[trigger]
        call_ensures(handler, (message, ctx), handled) && match handled {
            Err(text) => fails_in_handler(outcome, text@),
            Ok(_) => outcome == Ok::<Option<W>, DispatchError>(None),
        }
}

/// The possible outcomes of a handler without output: a decode failure, or
/// what the handler does with the decoded message.
pub open spec fn void_outcome<T, C, W, D: Fn(Bytes) -> Result<T, DecodeError>, F: Fn(T, &C) -> Result<(), String>>(
    deserializer: D,
    handler: F,
    buf: Seq<u8>,
    ctx: &C,
    outcome: Result<Option<W>, DispatchError>,
) -> bool {
    exists|decoded: Result<T, DecodeError>| #[trigger]
        decodes(deserializer, buf, decoded) && match decoded {
            Err(_) => fails_with(outcome, ErrorKind::Decode),
            Ok(message) => void_handled(handler, message, ctx, outcome),
        }
}

/// Whether `outcome` is a possible result of a handler whose output is
/// dropped on `message`: the handler's own failure, or completion without
/// output.
pub open spec fn ignoring_handled<T, R, C, W, F: Fn(T, &C) -> Result<Option<R>, String>>(
    handler: F,
    message: T,
    ctx: &C,
    outcome: Result<Option<W>, DispatchError>,
) -> bool {
    exists|handled: Result<Option<R>, String>| #[trigger]
        call_ensures(handler, (message, ctx), handled) && match handled {
            Err(text) => fails_in_handler(outcome, text@),
            Ok(_) => outcome == Ok::<Option<W>, DispatchError>(None),
        }
}

/// The possible outcomes of a handler whose output is dropped: a decode
/// failure, or what the handler does with the decoded message.
pub open spec fn ignoring_outcome<T, R, C, W, D: Fn(Bytes) -> Result<T, DecodeError>, F: Fn(T, &C) -> Result<Option<R>, String>>(
    deserializer: D,
    handler: F,
    buf: Seq<u8>,
    ctx: &C,
    outcome: Result<Option<W>, DispatchError>,
) -> bool {
    exists|decoded: Result<T, DecodeError>| #[trigger]
        decodes(deserializer, buf, decoded) && match decoded {
            Err(_) => fails_with(outcome, ErrorKind::Decode),
            Ok(message) => ignoring_handled::<T, R, C, W, F>(handler, message, ctx, outcome),
        }
}

/// Whether `outcome` is a possible result, on `message`, of a handler whose
/// output is the worker's own response type: the handler's own failure, or
/// its output, unchanged.
pub open spec fn direct_handled<T, C, W, F: Fn(T, &C) -> Result<Option<W>, String>>(
    handler: F,
    message: T,
    ctx: &C,
    outcome: Result<Option<W>, DispatchError>,
) -> bool {
    exists|handled: Result<Option<W>, String>| #[trigger]
        call_ensures(handler, (message, ctx), handled) && match handled {
            Err(text) => fails_in_handler(outcome, text@),
            Ok(output) => outcome == Ok::<Option<W>, DispatchError>(output),
        }
}

/// The possible outcomes of a handler whose output is the worker's own
/// response type: a decode failure, or what the handler does with the
/// decoded message.
pub open spec fn direct_outcome<T, C, W, D: Fn(Bytes) -> Result<T, DecodeError>, F: Fn(T, &C) -> Result<Option<W>, String>>(
    deserializer: D,
    handler: F,
    buf: Seq<u8>,
    ctx: &C,
    outcome: Result<Option<W>, DispatchError>,
) -> bool {
    exists|decoded: Result<T, DecodeError>| #[trigger]
        decodes(deserializer, buf, decoded) && match decoded {
            Err(_) => fails_with(outcome, ErrorKind::Decode),
            Ok(message) => direct_handled(handler, message, ctx, outcome),
        }
}

/// Whether `outcome` is a possible result, on `message`, of a handler whose
/// output is wrapped: the handler's own failure; nothing, where the handler
/// yields nothing; or else what the wrapper makes of the output and the name
/// of the response type, be it a failure or the worker's response.
pub open spec fn mapped_handled<T, R, C, W, F: Fn(T, &C) -> Result<Option<R>, String>, M: Fn(&str, &R) -> Result<W, String>>(
    handler: F,
    response_type: Seq<char>,
    wrapper: M,
    message: T,
    ctx: &C,
    outcome: Result<Option<W>, DispatchError>,
) -> bool {
    exists|handled: Result<Option<R>, String>| #[trigger]
        call_ensures(handler, (message, ctx), handled) && match handled {
            Err(text) => fails_in_handler(outcome, text@),
            Ok(None) => outcome == Ok::<Option<W>, DispatchError>(None),
            Ok(Some(output)) => exists|name: &str, wrapped: Result<W, String>|
                name@ == response_type && #[trigger] call_ensures(wrapper, (name, &output), wrapped)
                    && match wrapped {
                    Err(text) => fails_in_handler(outcome, text@),
                    Ok(response) => outcome == Ok::<Option<W>, DispatchError>(Some(response)),
                },
        }
}

/// The possible outcomes of a handler whose output is wrapped: a decode
/// failure, or what handler and wrapper do with the decoded message.
pub open spec fn mapped_outcome<T, R, C, W, D: Fn(Bytes) -> Result<T, DecodeError>, F: Fn(T, &C) -> Result<Option<R>, String>, M: Fn(&str, &R) -> Result<W, String>>(
    deserializer: D,
    handler: F,
    response_type: Seq<char>,
    wrapper: M,
    buf: Seq<u8>,
    ctx: &C,
    outcome: Result<Option<W>, DispatchError>,
) -> bool {
    exists|decoded: Result<T, DecodeError>| #[trigger]
        decodes(deserializer, buf, decoded) && match decoded {
            Err(_) => fails_with(outcome, ErrorKind::Decode),
            Ok(message) => mapped_handled(handler, response_type, wrapper, message, ctx, outcome),
        }
}

/// A handler without output.
#[verifier::reject_recursive_types(T)]
#[verifier::reject_recursive_types(C)]
#[verifier::reject_recursive_types(W)]
#[verifier::reject_recursive_types(D)]
#[verifier::reject_recursive_types(F)]
pub struct SubscriptionVoid<T, C, W, D: Fn(Bytes) -> Result<T, DecodeError>, F: Fn(T, &C) -> Result<(), String>> {
    name: String,
    deserializer: D,
    handler: F,
    marker: PhantomData<(T, C, W)>,
}

impl<T, C, W, D: Fn(Bytes) -> Result<T, DecodeError>, F: Fn(T, &C) -> Result<(), String>> SubscriptionVoid<T, C, W, D, F> {
    #[verifier::type_invariant]
    spec fn callable(&self) -> bool {
        &&& forall|bytes: Bytes| call_requires(self.deserializer, (bytes,))
        &&& forall|message: T, ctx: &C| call_requires(self.handler, (message, ctx))
    }

    /// The wire name that the handler was made for.
    pub closed spec fn wire_name(&self) -> Seq<char> {
        self.name@
    }

    /// The deserializer of the handler.
    pub closed spec fn spec_deserializer(&self) -> D {
        self.deserializer
    }

    /// The user function of the handler.
    pub closed spec fn spec_handler(&self) -> F {
        self.handler
    }

    /// A handler for `name` that decodes with `deserializer` and then calls
    /// `handler`.
    pub fn new(name: String, deserializer: D, handler: F) -> (subscription: Self)
        requires
            forall|bytes: Bytes| call_requires(deserializer, (bytes,)),
            forall|message: T, ctx: &C| call_requires(handler, (message, ctx)),
        ensures
            subscription.wire_name() == name@,
            subscription.spec_deserializer() == deserializer,
            subscription.spec_handler() == handler,
    {
        SubscriptionVoid { name, deserializer, handler, marker: PhantomData }
    }
}

impl<T: Send + Sync, C: Send + Sync, W: Send + Sync, D: Fn(Bytes) -> Result<T, DecodeError> + Send + Sync, F: Fn(T, &C) -> Result<(), String> + Send + Sync> SubscriptionHandle<C, W> for SubscriptionVoid<T, C, W, D, F> {
    open spec fn handles(&self, buf: Seq<u8>, ctx: &C, outcome: Result<Option<W>, DispatchError>) -> bool {
        void_outcome(self.spec_deserializer(), self.spec_handler(), buf, ctx, outcome)
    }

    open spec fn is_named(&self, name: Seq<char>) -> bool {
        name == self.wire_name()
    }

    fn name(&self) -> (name: String) {
        self.name.clone()
    }

    fn handle(&self, buf: Vec<u8>, ctx: &C) -> (outcome: Result<Option<W>, DispatchError>) {
        proof {
            use_type_invariant(self);
        }
        let bytes = bytes_from_vec(buf);
        let decoded = (self.deserializer)(bytes);
        assert(decodes(self.deserializer, buf@, decoded));
        match decoded {
            Err(error) => {
                let text = decode_error_text(&error);
                Err(DispatchError { kind: ErrorKind::Decode, detail: text })
            },
            Ok(message) => {
                let handled = (self.handler)(message, ctx);
                match handled {
                    Err(text) => Err(DispatchError { kind: ErrorKind::HandlerFailure, detail: text }),
                    Ok(_) => Ok(None),
                }
            },
        }
    }
}

/// A handler whose output is dropped.
#[verifier::reject_recursive_types(T)]
#[verifier::reject_recursive_types(R)]
#[verifier::reject_recursive_types(C)]
#[verifier::reject_recursive_types(W)]
#[verifier::reject_recursive_types(D)]
#[verifier::reject_recursive_types(F)]
pub struct SubscriptionIgnoring<T, R, C, W, D: Fn(Bytes) -> Result<T, DecodeError>, F: Fn(T, &C) -> Result<Option<R>, String>> {
    name: String,
    deserializer: D,
    handler: F,
    marker: PhantomData<(T, R, C, W)>,
}

impl<T, R, C, W, D: Fn(Bytes) -> Result<T, DecodeError>, F: Fn(T, &C) -> Result<Option<R>, String>> SubscriptionIgnoring<T, R, C, W, D, F> {
    #[verifier::type_invariant]
    spec fn callable(&self) -> bool {
        &&& forall|bytes: Bytes| call_requires(self.deserializer, (bytes,))
        &&& forall|message: T, ctx: &C| call_requires(self.handler, (message, ctx))
    }

    /// The wire name that the handler was made for.
    pub closed spec fn wire_name(&self) -> Seq<char> {
        self.name@
    }

    /// The deserializer of the handler.
    pub closed spec fn spec_deserializer(&self) -> D {
        self.deserializer
    }

    /// The user function of the handler.
    pub closed spec fn spec_handler(&self) -> F {
        self.handler
    }

    /// A handler for `name` that decodes with `deserializer`, calls `handler`
    /// and drops what it yields.
    pub fn new(name: String, deserializer: D, handler: F) -> (subscription: Self)
        requires
            forall|bytes: Bytes| call_requires(deserializer, (bytes,)),
            forall|message: T, ctx: &C| call_requires(handler, (message, ctx)),
        ensures
            subscription.wire_name() == name@,
            subscription.spec_deserializer() == deserializer,
            subscription.spec_handler() == handler,
    {
        SubscriptionIgnoring { name, deserializer, handler, marker: PhantomData }
    }
}

impl<T: Send + Sync, R: Send + Sync, C: Send + Sync, W: Send + Sync, D: Fn(Bytes) -> Result<T, DecodeError> + Send + Sync, F: Fn(T, &C) -> Result<Option<R>, String> + Send + Sync> SubscriptionHandle<C, W> for SubscriptionIgnoring<T, R, C, W, D, F> {
    open spec fn handles(&self, buf: Seq<u8>, ctx: &C, outcome: Result<Option<W>, DispatchError>) -> bool {
        ignoring_outcome(self.spec_deserializer(), self.spec_handler(), buf, ctx, outcome)
    }

    open spec fn is_named(&self, name: Seq<char>) -> bool {
        name == self.wire_name()
    }

    fn name(&self) -> (name: String) {
        self.name.clone()
    }

    fn handle(&self, buf: Vec<u8>, ctx: &C) -> (outcome: Result<Option<W>, DispatchError>) {
        proof {
            use_type_invariant(self);
        }
        let bytes = bytes_from_vec(buf);
        let decoded = (self.deserializer)(bytes);
        assert(decodes(self.deserializer, buf@, decoded));
        match decoded {
            Err(error) => {
                let text = decode_error_text(&error);
                Err(DispatchError { kind: ErrorKind::Decode, detail: text })
            },
            Ok(message) => {
                let handled = (self.handler)(message, ctx);
                match handled {
                    Err(text) => Err(DispatchError { kind: ErrorKind::HandlerFailure, detail: text }),
                    Ok(_) => Ok(None),
                }
            },
        }
    }
}

/// A handler whose output is the worker's own response type.
#[verifier::reject_recursive_types(T)]
#[verifier::reject_recursive_types(C)]
#[verifier::reject_recursive_types(W)]
#[verifier::reject_recursive_types(D)]
#[verifier::reject_recursive_types(F)]
pub struct SubscriptionDirect<T, C, W, D: Fn(Bytes) -> Result<T, DecodeError>, F: Fn(T, &C) -> Result<Option<W>, String>> {
    name: String,
    deserializer: D,
    handler: F,
    marker: PhantomData<(T, C, W)>,
}

impl<T, C, W, D: Fn(Bytes) -> Result<T, DecodeError>, F: Fn(T, &C) -> Result<Option<W>, String>> SubscriptionDirect<T, C, W, D, F> {
    #[verifier::type_invariant]
    spec fn callable(&self) -> bool {
        &&& forall|bytes: Bytes| call_requires(self.deserializer, (bytes,))
        &&& forall|message: T, ctx: &C| call_requires(self.handler, (message, ctx))
    }

    /// The wire name that the handler was made for.
    pub closed spec fn wire_name(&self) -> Seq<char> {
        self.name@
    }

    /// The deserializer of the handler.
    pub closed spec fn spec_deserializer(&self) -> D {
        self.deserializer
    }

    /// The user function of the handler.
    pub closed spec fn spec_handler(&self) -> F {
        self.handler
    }

    /// A handler for `name` that decodes with `deserializer`, calls `handler`
    /// and hands on what it yields.
    pub fn new(name: String, deserializer: D, handler: F) -> (subscription: Self)
        requires
            forall|bytes: Bytes| call_requires(deserializer, (bytes,)),
            forall|message: T, ctx: &C| call_requires(handler, (message, ctx)),
        ensures
            subscription.wire_name() == name@,
            subscription.spec_deserializer() == deserializer,
            subscription.spec_handler() == handler,
    {
        SubscriptionDirect { name, deserializer, handler, marker: PhantomData }
    }
}

impl<T: Send + Sync, C: Send + Sync, W: Send + Sync, D: Fn(Bytes) -> Result<T, DecodeError> + Send + Sync, F: Fn(T, &C) -> Result<Option<W>, String> + Send + Sync> SubscriptionHandle<C, W> for SubscriptionDirect<T, C, W, D, F> {
    open spec fn handles(&self, buf: Seq<u8>, ctx: &C, outcome: Result<Option<W>, DispatchError>) -> bool {
        direct_outcome(self.spec_deserializer(), self.spec_handler(), buf, ctx, outcome)
    }

    open spec fn is_named(&self, name: Seq<char>) -> bool {
        name == self.wire_name()
    }

    fn name(&self) -> (name: String) {
        self.name.clone()
    }

    fn handle(&self, buf: Vec<u8>, ctx: &C) -> (outcome: Result<Option<W>, DispatchError>) {
        proof {
            use_type_invariant(self);
        }
        let bytes = bytes_from_vec(buf);
        let decoded = (self.deserializer)(bytes);
        assert(decodes(self.deserializer, buf@, decoded));
        match decoded {
            Err(error) => {
                let text = decode_error_text(&error);
                Err(DispatchError { kind: ErrorKind::Decode, detail: text })
            },
            Ok(message) => {
                let handled = (self.handler)(message, ctx);
                match handled {
                    Err(text) => Err(DispatchError { kind: ErrorKind::HandlerFailure, detail: text }),
                    Ok(output) => Ok(output),
                }
            },
        }
    }
}

/// The treatment of a handler's output: the name of the response type and
/// the function that wraps the output under that name.
#[verifier::reject_recursive_types(M)]
pub struct ResponseWrapper<M> {
    pub response_type: String,
    pub convert: M,
}

/// A handler whose output is wrapped into the worker's response type.
#[verifier::reject_recursive_types(T)]
#[verifier::reject_recursive_types(R)]
#[verifier::reject_recursive_types(C)]
#[verifier::reject_recursive_types(W)]
#[verifier::reject_recursive_types(D)]
#[verifier::reject_recursive_types(F)]
#[verifier::reject_recursive_types(M)]
pub struct Subscription<T, R, C, W, D: Fn(Bytes) -> Result<T, DecodeError>, F: Fn(T, &C) -> Result<Option<R>, String>, M: Fn(&str, &R) -> Result<W, String>> {
    name: String,
    deserializer: D,
    handler: F,
    wrapper: ResponseWrapper<M>,
    marker: PhantomData<(T, R, C, W)>,
}

impl<T, R, C, W, D: Fn(Bytes) -> Result<T, DecodeError>, F: Fn(T, &C) -> Result<Option<R>, String>, M: Fn(&str, &R) -> Result<W, String>> Subscription<T, R, C, W, D, F, M> {
    #[verifier::type_invariant]
    spec fn callable(&self) -> bool {
        &&& forall|bytes: Bytes| call_requires(self.deserializer, (bytes,))
        &&& forall|message: T, ctx: &C| call_requires(self.handler, (message, ctx))
        &&& forall|name: &str, output: &R| call_requires(self.wrapper.convert, (name, output))
    }

    /// The wire name that the handler was made for.
    pub closed spec fn wire_name(&self) -> Seq<char> {
        self.name@
    }

    /// The deserializer of the handler.
    pub closed spec fn spec_deserializer(&self) -> D {
        self.deserializer
    }

    /// The user function of the handler.
    pub closed spec fn spec_handler(&self) -> F {
        self.handler
    }

    /// The name of the response type that the wrapper is given.
    pub closed spec fn spec_response_type(&self) -> Seq<char> {
        self.wrapper.response_type@
    }

    /// The function that wraps the output.
    pub closed spec fn spec_wrapper(&self) -> M {
        self.wrapper.convert
    }

    /// A handler for `name` that decodes with `deserializer`, calls `handler`
    /// and wraps what it yields with `wrapper`.
    pub fn new(name: String, deserializer: D, handler: F, wrapper: ResponseWrapper<M>) -> (subscription: Self)
        requires
            forall|bytes: Bytes| call_requires(deserializer, (bytes,)),
            forall|message: T, ctx: &C| call_requires(handler, (message, ctx)),
            forall|name: &str, output: &R| call_requires(wrapper.convert, (name, output)),
        ensures
            subscription.wire_name() == name@,
            subscription.spec_deserializer() == deserializer,
            subscription.spec_handler() == handler,
            subscription.spec_response_type() == wrapper.response_type@,
            subscription.spec_wrapper() == wrapper.convert,
    {
        Subscription { name, deserializer, handler, wrapper, marker: PhantomData }
    }
}

impl<T: Send + Sync, R: Send + Sync, C: Send + Sync, W: Send + Sync, D: Fn(Bytes) -> Result<T, DecodeError> + Send + Sync, F: Fn(T, &C) -> Result<Option<R>, String> + Send + Sync, M: Fn(&str, &R) -> Result<W, String> + Send + Sync> SubscriptionHandle<C, W> for Subscription<T, R, C, W, D, F, M> {
    open spec fn handles(&self, buf: Seq<u8>, ctx: &C, outcome: Result<Option<W>, DispatchError>) -> bool {
        mapped_outcome(
            self.spec_deserializer(),
            self.spec_handler(),
            self.spec_response_type(),
            self.spec_wrapper(),
            buf,
            ctx,
            outcome,
        )
    }

    open spec fn is_named(&self, name: Seq<char>) -> bool {
        name == self.wire_name()
    }

    fn name(&self) -> (name: String) {
        self.name.clone()
    }

    fn handle(&self, buf: Vec<u8>, ctx: &C) -> (outcome: Result<Option<W>, DispatchError>) {
        proof {
            use_type_invariant(self);
        }
        let bytes = bytes_from_vec(buf);
        let decoded = (self.deserializer)(bytes);
        assert(decodes(self.deserializer, buf@, decoded));
        match decoded {
            Err(error) => {
                let text = decode_error_text(&error);
                Err(DispatchError { kind: ErrorKind::Decode, detail: text })
            },
            Ok(message) => {
                let handled = (self.handler)(message, ctx);
                match handled {
                    Err(text) => Err(DispatchError { kind: ErrorKind::HandlerFailure, detail: text }),
                    Ok(None) => Ok(None),
                    Ok(Some(output)) => {
                        let wrapped = (self.wrapper.convert)(self.wrapper.response_type.as_str(), &output);
                        match wrapped {
                            Err(text) => Err(DispatchError { kind: ErrorKind::HandlerFailure, detail: text }),
                            Ok(response) => Ok(Some(response)),
                        }
                    },
                }
            },
        }
    }
}

/// A handler of any kind, held by value, so that it can be stored behind the
/// registry's one interface.
struct Installed<H> {
    inner: H,
}

impl<C, W, H: SubscriptionHandle<C, W>> SubscriptionHandle<C, W> for Installed<H> {
    closed spec fn handles(&self, buf: Seq<u8>, ctx: &C, outcome: Result<Option<W>, DispatchError>) -> bool {
        self.inner.handles(buf, ctx, outcome)
    }

    closed spec fn is_named(&self, name: Seq<char>) -> bool {
        self.inner.is_named(name)
    }

    fn name(&self) -> (name: String) {
        self.inner.name()
    }

    fn handle(&self, buf: Vec<u8>, ctx: &C) -> (outcome: Result<Option<W>, DispatchError>) {
        self.inner.handle(buf, ctx)
    }
}

/// One binding of the registry: a wire name and its handler.
#[verifier::reject_recursive_types(C)]
#[verifier::reject_recursive_types(W)]
pub struct HandlerEntry<C, W> {
    pub name: String,
    pub handle: Box<dyn SubscriptionHandle<C, W>>,
}

/// Whether `second` does what `first` does: both have the same possible
/// outcomes on every input.
pub open spec fn same_outcomes<C, W, A: SubscriptionHandle<C, W> + ?Sized, B: SubscriptionHandle<C, W> + ?Sized>(
    first: &A,
    second: &B,
) -> bool {
    forall|buf: Seq<u8>, ctx: &C, outcome: Result<Option<W>, DispatchError>|
        #![trigger first.handles(buf, ctx, outcome)]
        #![trigger second.handles(buf, ctx, outcome)]
        first.handles(buf, ctx, outcome) == second.handles(buf, ctx, outcome)
}

/// Whether `second` answers to the names that `first` answers to.
pub open spec fn same_name<C, W, A: SubscriptionHandle<C, W> + ?Sized, B: SubscriptionHandle<C, W> + ?Sized>(
    first: &A,
    second: &B,
) -> bool {
    forall|name: Seq<char>|
        #![trigger first.is_named(name)]
        #![trigger second.is_named(name)]
        first.is_named(name) == second.is_named(name)
}

/// Binds `name` to `handle`.
fn bind<C, W, H: SubscriptionHandle<C, W> + 'static>(name: String, handle: H) -> (entry: HandlerEntry<C, W>)
    ensures
        entry.name == name,
        same_outcomes::<C, W, _, _>(&*entry.handle, &handle),
        same_name::<C, W, _, _>(&*entry.handle, &handle),
{
    let installed = Installed { inner: handle };
    let entry = HandlerEntry::<C, W> { name, handle: Box::new(installed) };
    assert(same_outcomes::<C, W, _, _>(&*entry.handle, &installed));
    assert(same_name::<C, W, _, _>(&*entry.handle, &installed));
    entry
}

/// Whether no two of `entries` have the same name.
pub open spec fn distinct_names<C, W>(entries: Seq<HandlerEntry<C, W>>) -> bool {
    forall|i: int, j: int|
        #![trigger entries[i], entries[j]]
        0 <= i < j < entries.len() ==> entries[i].name@ != entries[j].name@
}

/// Whether `name` is bound in `entries`.
pub open spec fn bound<C, W>(entries: Seq<HandlerEntry<C, W>>, name: Seq<char>) -> bool {
    exists|i: int| 0 <= i < entries.len() && #[trigger] entries[i].name@ == name
}

/// The place of `name` in `entries`, where it is bound.
pub open spec fn place<C, W>(entries: Seq<HandlerEntry<C, W>>, name: Seq<char>) -> int {
    choose|i: int| 0 <= i < entries.len() && #[trigger] entries[i].name@ == name
}

/// A name is bound at one place only.
pub proof fn lemma_at_most_one_entry<C, W>(entries: Seq<HandlerEntry<C, W>>, i: int, j: int)
    requires
        distinct_names(entries),
        0 <= i < entries.len(),
        0 <= j < entries.len(),
        entries[i].name@ == entries[j].name@,
    ensures
        i == j,
{
    if i < j {
        assert(entries[i].name@ != entries[j].name@);
    } else if j < i {
        assert(entries[j].name@ != entries[i].name@);
    }
}

/// What an insertion of `name` does to the bindings: it is refused where the
/// name is bound already, and appends one binding for it otherwise.
pub open spec fn inserts<C, W>(
    before: Seq<HandlerEntry<C, W>>,
    after: Seq<HandlerEntry<C, W>>,
    name: Seq<char>,
    result: Result<(), DispatchError>,
) -> bool {
    &&& distinct_names(after)
    &&& match result {
        Ok(_) => {
            &&& !bound(before, name)
            &&& after.len() == before.len() + 1
            &&& after.subrange(0, before.len() as int) == before
            &&& after.last().name@ == name
        },
        Err(error) => {
            &&& bound(before, name)
            &&& error.kind == ErrorKind::DuplicateHandler
            &&& error.detail@ == name
            &&& after == before
        },
    }
}

/// After an insertion of `name` that was accepted, `name` is bound to the
/// binding that was appended, and every other name is bound as before.
pub proof fn lemma_insertion_binds_the_name<C, W>(
    before: Seq<HandlerEntry<C, W>>,
    after: Seq<HandlerEntry<C, W>>,
    name: Seq<char>,
    other: Seq<char>,
)
    requires
        inserts(before, after, name, Ok(())),
    ensures
        bound(after, name),
        after[place(after, name)] == after.last(),
        bound(after, other) == (other == name || bound(before, other)),
        other != name && bound(before, other) ==> after[place(after, other)] == before[place(before, other)],
{
    let last = after.len() - 1;
    assert(after[last].name@ == name);
    lemma_at_most_one_entry(after, place(after, name), last);
    assert forall|i: int| 0 <= i < before.len() implies after[i] == before[i] by {
        assert(after.subrange(0, before.len() as int)[i] == after[i]);
    }
    if bound(before, other) {
        let at = place(before, other);
        assert(after[at].name@ == other);
        if other != name {
            lemma_at_most_one_entry(after, place(after, other), at);
        }
    }
    if bound(after, other) && other != name {
        let at = place(after, other);
        assert(at < before.len());
        assert(before[at].name@ == other);
    }
}

/// The handlers of one worker, by wire name, in the order of registration.
#[verifier::reject_recursive_types(C)]
#[verifier::reject_recursive_types(W)]
pub struct TheHandlerRegistry<C, W> {
    handlers: Vec<HandlerEntry<C, W>>,
}

/// A registry without handlers.
pub fn empty_handler_registry<C, W>() -> (registry: TheHandlerRegistry<C, W>)
    ensures
        registry.entries().len() == 0,
{
    TheHandlerRegistry { handlers: Vec::new() }
}

impl<C, W> TheHandlerRegistry<C, W> {
    #[verifier::type_invariant]
    spec fn binds_each_name_once(&self) -> bool {
        distinct_names(self.handlers@)
    }

    /// The bindings, in the order of registration.
    pub closed spec fn entries(&self) -> Seq<HandlerEntry<C, W>> {
        self.handlers@
    }

    /// The registered names, in the order of registration.
    pub open spec fn names(&self) -> Seq<Seq<char>> {
        Seq::new(self.entries().len(), |i: int| self.entries()[i].name@)
    }

    /// Whether a handler is registered under `name`.
    pub open spec fn contains(&self, name: Seq<char>) -> bool {
        bound(self.entries(), name)
    }

    /// Whether `outcome` is a possible result of the handler registered
    /// under `name` on `buf` in `ctx`.
    pub open spec fn dispatches(
        &self,
        name: Seq<char>,
        buf: Seq<u8>,
        ctx: &C,
        outcome: Result<Option<W>, DispatchError>,
    ) -> bool {
        self.contains(name) && self.entries()[place(self.entries(), name)].handle.handles(buf, ctx, outcome)
    }

    /// The place of `name` among the bindings.
    fn find(&self, name: &str) -> (found: Option<usize>)
        ensures
            distinct_names(self.entries()),
            found.is_some() == self.contains(name@),
            found matches Some(i) ==> i < self.entries().len() && self.entries()[i as int].name@ == name@
                && i == place(self.entries(), name@),
    {
        proof {
            use_type_invariant(self);
        }
        let key = String::from_str(name);
        let mut i: usize = 0;
        while i < self.handlers.len()
            invariant
                i <= self.handlers@.len(),
                key@ == name@,
                distinct_names(self.handlers@),
                forall|j: int| 0 <= j < i ==> (#[trigger] self.handlers@[j]).name@ != name@,
            decreases self.handlers@.len() - i,
        {
            if self.handlers[i].name == key {
                proof {
                    lemma_at_most_one_entry(self.handlers@, i as int, place(self.handlers@, name@));
                }
                return Some(i);
            }
            i += 1;
        }
        None
    }

    /// The number of registered handlers.
    pub fn len(&self) -> (count: usize)
        ensures
            count == self.entries().len(),
    {
        self.handlers.len()
    }

    /// The registered names, in the order of registration; no name occurs
    /// twice.
    pub fn names_in_order(&self) -> (names: Vec<String>)
        ensures
            names@.len() == self.names().len(),
            forall|i: int| 0 <= i < names@.len() ==> (#[trigger] names@[i])@ == self.names()[i],
            distinct_names(self.entries()),
    {
        proof {
            use_type_invariant(self);
        }
        let mut names: Vec<String> = Vec::new();
        let mut i: usize = 0;
        while i < self.handlers.len()
            invariant
                i <= self.handlers@.len(),
                names@.len() == i,
                forall|j: int| 0 <= j < i ==> (#[trigger] names@[j])@ == self.handlers@[j].name@,
            decreases self.handlers@.len() - i,
        {
            names.push(self.handlers[i].name.clone());
            i += 1;
        }
        names
    }

    /// The handler registered under `name`, if there is one.
    pub fn get(&self, name: &str) -> (found: Option<&Box<dyn SubscriptionHandle<C, W>>>)
        ensures
            found.is_some() == self.contains(name@),
            found matches Some(handle) ==> *handle == self.entries()[place(self.entries(), name@)].handle,
            distinct_names(self.entries()),
    {
        match self.find(name) {
            Some(i) => Some(&self.handlers[i].handle),
            None => None,
        }
    }

    /// Registers `handle` under `name`, unless the name is bound already.
    pub fn insert_handle<H: SubscriptionHandle<C, W> + 'static>(&mut self, name: &str, handle: H) -> (result: Result<(), DispatchError>)
        ensures
            inserts(old(self).entries(), final(self).entries(), name@, result),
            result.is_ok() ==> same_outcomes::<C, W, _, _>(&*final(self).entries().last().handle, &handle),
            result.is_ok() ==> same_name::<C, W, _, _>(&*final(self).entries().last().handle, &handle),
    {
        if self.find(name).is_some() {
            return Err(DispatchError::new(ErrorKind::DuplicateHandler, name));
        }
        let entry = bind(String::from_str(name), handle);
        let ghost before = self.handlers@;
        let mut handlers: Vec<HandlerEntry<C, W>> = Vec::new();
        core::mem::swap(&mut self.handlers, &mut handlers);
        handlers.push(entry);
        proof {
            assert(handlers@.subrange(0, before.len() as int) =~= before);
            assert forall|i: int, j: int| 0 <= i < j < handlers@.len() implies handlers@[i].name@
                != handlers@[j].name@ by {
                if j < before.len() {
                    assert(before[i].name@ != before[j].name@);
                } else {
                    assert(before[i].name@ != name@);
                }
            }
        }
        self.handlers = handlers;
        Ok(())
    }

    /// Registers under `name` a handler without output.
    pub fn insert<T: Send + Sync + 'static, D: Fn(Bytes) -> Result<T, DecodeError> + Send + Sync + 'static, F: Fn(T, &C) -> Result<(), String> + Send + Sync + 'static>(
        &mut self,
        name: &str,
        deserializer: D,
        handler: F,
    ) -> (result: Result<(), DispatchError>) where C: Send + Sync + 'static, W: Send + Sync + 'static
        requires
            forall|bytes: Bytes| call_requires(deserializer, (bytes,)),
            forall|message: T, ctx: &C| call_requires(handler, (message, ctx)),
        ensures
            inserts(old(self).entries(), final(self).entries(), name@, result),
            result.is_ok() ==> forall|other: Seq<char>| #[trigger]
                final(self).entries().last().handle.is_named(other) == (other == name@),
            result.is_ok() ==> forall|buf: Seq<u8>, ctx: &C, outcome: Result<Option<W>, DispatchError>| #[trigger]
                final(self).entries().last().handle.handles(buf, ctx, outcome) == void_outcome(
                    deserializer,
                    handler,
                    buf,
                    ctx,
                    outcome,
                ),
    {
        let subscription = SubscriptionVoid::new(String::from_str(name), deserializer, handler);
        self.insert_handle(name, subscription)
    }

    /// Registers under `name` a handler whose output is dropped.
    pub fn insert_ignoring_output<T: Send + Sync + 'static, R: Send + Sync + 'static, D: Fn(Bytes) -> Result<T, DecodeError> + Send + Sync + 'static, F: Fn(T, &C) -> Result<Option<R>, String> + Send + Sync + 'static>(
        &mut self,
        name: &str,
        deserializer: D,
        handler: F,
    ) -> (result: Result<(), DispatchError>) where C: Send + Sync + 'static, W: Send + Sync + 'static
        requires
            forall|bytes: Bytes| call_requires(deserializer, (bytes,)),
            forall|message: T, ctx: &C| call_requires(handler, (message, ctx)),
        ensures
            inserts(old(self).entries(), final(self).entries(), name@, result),
            result.is_ok() ==> forall|other: Seq<char>| #[trigger]
                final(self).entries().last().handle.is_named(other) == (other == name@),
            result.is_ok() ==> forall|buf: Seq<u8>, ctx: &C, outcome: Result<Option<W>, DispatchError>| #[trigger]
                final(self).entries().last().handle.handles(buf, ctx, outcome) == ignoring_outcome(
                    deserializer,
                    handler,
                    buf,
                    ctx,
                    outcome,
                ),
    {
        let subscription = SubscriptionIgnoring::new(String::from_str(name), deserializer, handler);
        self.insert_handle(name, subscription)
    }

    /// Registers under `name` a handler whose output is the worker's own
    /// response type.
    pub fn insert_with_output<T: Send + Sync + 'static, D: Fn(Bytes) -> Result<T, DecodeError> + Send + Sync + 'static, F: Fn(T, &C) -> Result<Option<W>, String> + Send + Sync + 'static>(
        &mut self,
        name: &str,
        deserializer: D,
        handler: F,
    ) -> (result: Result<(), DispatchError>) where C: Send + Sync + 'static, W: Send + Sync + 'static
        requires
            forall|bytes: Bytes| call_requires(deserializer, (bytes,)),
            forall|message: T, ctx: &C| call_requires(handler, (message, ctx)),
        ensures
            inserts(old(self).entries(), final(self).entries(), name@, result),
            result.is_ok() ==> forall|other: Seq<char>| #[trigger]
                final(self).entries().last().handle.is_named(other) == (other == name@),
            result.is_ok() ==> forall|buf: Seq<u8>, ctx: &C, outcome: Result<Option<W>, DispatchError>| #[trigger]
                final(self).entries().last().handle.handles(buf, ctx, outcome) == direct_outcome(
                    deserializer,
                    handler,
                    buf,
                    ctx,
                    outcome,
                ),
    {
        let subscription = SubscriptionDirect::new(String::from_str(name), deserializer, handler);
        self.insert_handle(name, subscription)
    }

    /// Registers under `name` a handler whose output `wrapper` turns, with
    /// the name `response_type`, into the worker's response type.
    pub fn insert_with_mapped_output<T: Send + Sync + 'static, R: Send + Sync + 'static, D: Fn(Bytes) -> Result<T, DecodeError> + Send + Sync + 'static, F: Fn(T, &C) -> Result<Option<R>, String> + Send + Sync + 'static, M: Fn(&str, &R) -> Result<W, String> + Send + Sync + 'static>(
        &mut self,
        name: &str,
        deserializer: D,
        handler: F,
        response_type: &str,
        wrapper: M,
    ) -> (result: Result<(), DispatchError>) where C: Send + Sync + 'static, W: Send + Sync + 'static
        requires
            forall|bytes: Bytes| call_requires(deserializer, (bytes,)),
            forall|message: T, ctx: &C| call_requires(handler, (message, ctx)),
            forall|text: &str, output: &R| call_requires(wrapper, (text, output)),
        ensures
            inserts(old(self).entries(), final(self).entries(), name@, result),
            result.is_ok() ==> forall|other: Seq<char>| #[trigger]
                final(self).entries().last().handle.is_named(other) == (other == name@),
            result.is_ok() ==> forall|buf: Seq<u8>, ctx: &C, outcome: Result<Option<W>, DispatchError>| #[trigger]
                final(self).entries().last().handle.handles(buf, ctx, outcome) == mapped_outcome(
                    deserializer,
                    handler,
                    response_type@,
                    wrapper,
                    buf,
                    ctx,
                    outcome,
                ),
    {
        let wrapper = ResponseWrapper { response_type: String::from_str(response_type), convert: wrapper };
        let subscription = Subscription::new(String::from_str(name), deserializer, handler, wrapper);
        self.insert_handle(name, subscription)
    }
}

} // verus!

