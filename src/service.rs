//! The service abstraction: a unit that turns a request, in a context, into a
//! response or an error, and layers that wrap one service into another.

use crate::header::HeaderMap;
use vstd::prelude::*;

verus! {

/// Per-call state handed down a chain of services together with the request.
#[derive(Debug, Clone)]
pub struct Context<State> {
    pub state: State,
}

impl<State> Context<State> {
    pub fn new(state: State) -> (r: Context<State>)
        ensures
            r.state == state,
    {
        Context { state }
    }
}

/// A request: its headers and an opaque body.
#[derive(Debug)]
pub struct Request<B> {
    pub headers: HeaderMap,
    pub body: B,
}

impl<B> Request<B> {
    /// A request with no header.
    pub fn new(body: B) -> (r: Request<B>)
        ensures
            r.headers@.len() == 0,
            r.body == body,
    {
        Request { headers: HeaderMap::new(), body }
    }
}

/// A response: its headers and an opaque body.
#[derive(Debug)]
pub struct Response<B> {
    pub headers: HeaderMap,
    pub body: B,
}

impl<B> Response<B> {
    /// A response with no header.
    pub fn new(body: B) -> (r: Response<B>)
        ensures
            r.headers@.len() == 0,
            r.body == body,
    {
        Response { headers: HeaderMap::new(), body }
    }
}

/// A failure that can describe itself in text.
pub trait Describe {
    spec fn description(&self) -> Seq<char>;

    fn describe(&self) -> (r: String)
        ensures
            r@ == self.description(),
    ;
}

/// The one error kind that services normalise their failures into: it keeps
/// the failure's description.
#[derive(Debug, Clone)]
pub struct BoxError {
    message: String,
}

impl View for BoxError {
    type V = Seq<char>;

    closed spec fn view(&self) -> Seq<char> {
        self.message@
    }
}

impl BoxError {
    /// An error with the given message.
    pub fn new(message: String) -> (r: BoxError)
        ensures
            r@ == message@,
    {
        BoxError { message }
    }

    /// The normalised form of `e`.
    pub fn from_error<E: Describe>(e: &E) -> (r: BoxError)
        ensures
            r@ == e.description(),
    {
        BoxError { message: e.describe() }
    }

    /// The error's message.
    pub fn message(&self) -> (r: &String)
        ensures
            r@ == self@,
    {
        &self.message
    }
}

impl Describe for BoxError {
    open spec fn description(&self) -> Seq<char> {
        self@
    }

    fn describe(&self) -> (r: String) {
        self.message.clone()
    }
}

/// A unit that serves requests of type `Req` in a context carrying `State`.
pub trait Service<State, Req> {
    type Response;

    type Error;

    /// Whether `r` is an outcome this unit may give when serving `req` in `ctx`.
    open spec fn may_serve(
        &self,
        ctx: Context<State>,
        req: Req,
        r: Result<Self::Response, Self::Error>,
    ) -> bool {
        true
    }

    fn serve(&self, ctx: Context<State>, req: Req) -> (r: Result<Self::Response, Self::Error>)
        ensures
            self.may_serve(ctx, req, r),
    ;
}

/// Wraps one service into another.
pub trait Layer<S> {
    type Service;

    fn layer(&self, inner: S) -> Self::Service;
}

} // verus!
