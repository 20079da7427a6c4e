//! Makes sure that the server identity and date headers are set before a
//! request goes on to the inner service, without changing values already set.

use crate::date::{format_http_date, http_date, unix_time_now, MAX_HTTP_DATE_SECS};
use crate::header::{
    ascii, has_name, lemma_has_name_values, lemma_push_values, lower_bytes, push_ascii, values_of,
    HeaderMap, HeaderName, Headers,
};
use crate::service::{BoxError, Context, Describe, Layer, Request, Service};
use vstd::prelude::*;

verus! {

/// Layer that wraps a service into a [`RequiredResponseHeader`].
#[derive(Debug, Clone, Copy, Default)]
pub struct RequiredResponseHeaderLayer;

impl RequiredResponseHeaderLayer {
    /// A new layer; it has no configuration.
    pub fn new() -> (r: RequiredResponseHeaderLayer) {
        RequiredResponseHeaderLayer
    }
}

/// Middleware that sets the server identity and date headers on the request,
/// where they are missing, before handing it to the inner service.
#[derive(Debug, Clone)]
pub struct RequiredResponseHeader<S> {
    inner: S,
}

impl<S> RequiredResponseHeader<S> {
    /// The wrapped service.
    pub closed spec fn inner_spec(&self) -> S {
        self.inner
    }

    pub fn new(inner: S) -> (r: RequiredResponseHeader<S>)
        ensures
            r.inner_spec() == inner,
    {
        RequiredResponseHeader { inner }
    }

    pub fn get_ref(&self) -> (r: &S)
        ensures
            *r == self.inner_spec(),
    {
        &self.inner
    }

    pub fn into_inner(self) -> (r: S)
        ensures
            r == self.inner_spec(),
    {
        self.inner
    }
}

impl<S> Layer<S> for RequiredResponseHeaderLayer {
    type Service = RequiredResponseHeader<S>;

    fn layer(&self, inner: S) -> (r: RequiredResponseHeader<S>)
        ensures
            r.inner_spec() == inner,
    {
        RequiredResponseHeader { inner }
    }
}

/// The name of the server identity header, `server`.
pub open spec fn server_name() -> Seq<u8> {
    ascii("server"@)
}

/// The name of the date header, `date`.
pub open spec fn date_name() -> Seq<u8> {
    ascii("date"@)
}

/// The value this middleware gives the server identity header.
pub open spec fn server_identity() -> Seq<u8> {
    ascii("required-header"@)
}

/// The headers after the server identity and date headers were ensured, the
/// clock reading `now` (seconds since the epoch; `None` where the clock reads
/// before the epoch). The date is added only where the format can hold it.
pub open spec fn with_required_headers(h: Headers, now: Option<u64>) -> Headers {
    let h1 = if has_name(h, server_name()) {
        h
    } else {
        h.push((server_name(), server_identity()))
    };
    if has_name(h1, date_name()) {
        h1
    } else {
        match now {
            Some(secs) => if secs < MAX_HTTP_DATE_SECS {
                h1.push((date_name(), http_date(secs as nat)))
            } else {
                h1
            },
            None => h1,
        }
    }
}

/// The header name `server`.
pub fn server_header_name() -> (r: HeaderName)
    ensures
        r@ == server_name(),
{
    let mut b: Vec<u8> = Vec::new();
    push_ascii(&mut b, "server");
    proof {
        reveal_strlit("server");
        assert(lower_bytes(b@) =~= b@);
    }
    HeaderName::from_bytes(b.as_slice()).unwrap()
}

/// The header name `date`.
pub fn date_header_name() -> (r: HeaderName)
    ensures
        r@ == date_name(),
{
    let mut b: Vec<u8> = Vec::new();
    push_ascii(&mut b, "date");
    proof {
        reveal_strlit("date");
        assert(lower_bytes(b@) =~= b@);
    }
    HeaderName::from_bytes(b.as_slice()).unwrap()
}

/// The value of the server identity header.
pub fn server_identity_value() -> (r: Vec<u8>)
    ensures
        r@ == server_identity(),
{
    let mut b: Vec<u8> = Vec::new();
    push_ascii(&mut b, "required-header");
    b
}

/// Adds the server identity header and then the date header, each only where
/// no value of it is set yet; `now` is the clock reading for the date.
pub fn add_required_headers(headers: &mut HeaderMap, now: Option<u64>)
    ensures
        final(headers)@ == with_required_headers(old(headers)@, now),
{
    headers.insert_if_absent(server_header_name(), server_identity_value());
    let date = date_header_name();
    if !headers.contains_key(&date) {
        if let Some(secs) = now {
            if let Some(value) = format_http_date(secs) {
                headers.append(date, value);
            }
        }
    }
}

impl<State, B, S> Service<State, Request<B>> for RequiredResponseHeader<S> where
    S: Service<State, Request<B>>,
    S::Error: Describe,
{
    type Response = S::Response;

    type Error = BoxError;

    /// The inner service was handed the request with the required headers
    /// ensured, for some clock reading, and its outcome is passed on, an error
    /// in its normalised form.
    open spec fn may_serve(
        &self,
        ctx: Context<State>,
        req: Request<B>,
        r: Result<S::Response, BoxError>,
    ) -> bool {
        exists|now: Option<u64>, fwd: Request<B>, out: Result<S::Response, S::Error>|
            #[trigger] self.inner_spec().may_serve(ctx, fwd, out)
                && #[trigger] forwards(req, now, fwd) && passes_on(out, r)
    }

    fn serve(&self, ctx: Context<State>, req: Request<B>) -> (r: Result<S::Response, BoxError>) {
        let mut req = req;
        let ghost orig = req;
        let now = if req.headers.contains_key(&date_header_name()) {
            None
        } else {
            unix_time_now()
        };
        add_required_headers(&mut req.headers, now);
        assert(forwards(orig, now, req));
        let ghost fwd = req;
        let ghost c = ctx;
        let out = self.inner.serve(ctx, req);
        assert(self.inner_spec().may_serve(c, fwd, out));
        let r = match out {
            Ok(resp) => Ok(resp),
            Err(e) => Err(BoxError::from_error(&e)),
        };
        assert(passes_on(out, r));
        r
    }
}

/// `fwd` is `req` with the required headers ensured for the clock reading `now`.
pub open spec fn forwards<B>(req: Request<B>, now: Option<u64>, fwd: Request<B>) -> bool {
    fwd.body == req.body && fwd.headers@ == with_required_headers(req.headers@, now)
}

/// `r` is the inner outcome `out`, with an error in its normalised form.
pub open spec fn passes_on<T, E: Describe>(out: Result<T, E>, r: Result<T, BoxError>) -> bool {
    match out {
        Ok(v) => r == Ok::<T, BoxError>(v),
        Err(e) => r is Err && r->Err_0@ == e.description(),
    }
}

/// Whether the clock reading `now` gives a date header.
pub open spec fn dates(now: Option<u64>) -> bool {
    now matches Some(secs) && secs < MAX_HTTP_DATE_SECS
}

/// The server identity and date header names are distinct.
pub proof fn lemma_names_differ()
    ensures
        server_name() != date_name(),
{
    reveal_strlit("server");
    reveal_strlit("date");
    assert(server_name().len() != date_name().len());
}

/// Which names are set after the required headers were ensured.
proof fn lemma_required_names(h: Headers, now: Option<u64>, n: Seq<u8>)
    ensures
        has_name(with_required_headers(h, now), n) <==> (has_name(h, n) || n == server_name() || (
        n == date_name() && dates(now))),
{
    lemma_names_differ();
    let h1 = if has_name(h, server_name()) {
        h
    } else {
        h.push((server_name(), server_identity()))
    };
    if !has_name(h, server_name()) {
        lemma_push_values(h, (server_name(), server_identity()), n);
        lemma_push_values(h, (server_name(), server_identity()), date_name());
    }
    if !has_name(h1, date_name()) && dates(now) {
        lemma_push_values(h1, (date_name(), http_date(now->Some_0 as nat)), n);
    }
}

/// Ensuring the required headers never changes the values of a name that
/// already has one: after the call a name set before holds exactly the values
/// it held, and the old entries stay in place, in order, before any new one.
pub proof fn law_non_clobbering(h: Headers, now: Option<u64>, n: Seq<u8>)
    requires
        has_name(h, n),
    ensures
        values_of(with_required_headers(h, now), n) == values_of(h, n),
        h.is_prefix_of(with_required_headers(h, now)),
{
    lemma_names_differ();
    let h1 = if has_name(h, server_name()) {
        h
    } else {
        h.push((server_name(), server_identity()))
    };
    if !has_name(h, server_name()) {
        lemma_push_values(h, (server_name(), server_identity()), n);
        lemma_push_values(h, (server_name(), server_identity()), date_name());
        assert(n != server_name());
    }
    if !has_name(h1, date_name()) && dates(now) {
        lemma_push_values(h1, (date_name(), http_date(now->Some_0 as nat)), n);
        if !has_name(h, server_name()) {
            lemma_push_values(h, (server_name(), server_identity()), n);
        }
        assert(n != date_name());
    }
}

/// On headers with neither a server identity nor a date, and a readable
/// clock, ensuring the required headers sets exactly one value of each.
pub proof fn law_one_value_each(h: Headers, now: Option<u64>)
    requires
        !has_name(h, server_name()),
        !has_name(h, date_name()),
        dates(now),
    ensures
        values_of(with_required_headers(h, now), server_name()) == seq![server_identity()],
        values_of(with_required_headers(h, now), date_name()) == seq![
            http_date(now->Some_0 as nat),
        ],
{
    lemma_names_differ();
    lemma_has_name_values(h, server_name());
    lemma_has_name_values(h, date_name());
    let e1 = (server_name(), server_identity());
    let h1 = h.push(e1);
    let e2 = (date_name(), http_date(now->Some_0 as nat));
    lemma_push_values(h, e1, server_name());
    lemma_push_values(h, e1, date_name());
    lemma_push_values(h1, e2, server_name());
    lemma_push_values(h1, e2, date_name());
    assert(values_of(h, server_name()) == Seq::<Seq<u8>>::empty());
    assert(values_of(h, date_name()) == Seq::<Seq<u8>>::empty());
    assert(Seq::<Seq<u8>>::empty().push(server_identity()) == seq![server_identity()]);
    assert(Seq::<Seq<u8>>::empty().push(http_date(now->Some_0 as nat)) == seq![
        http_date(now->Some_0 as nat),
    ]);
}

/// Ensuring the required headers a second time changes nothing, once the
/// first time found the clock readable.
pub proof fn law_idempotent(h: Headers, now: Option<u64>, later: Option<u64>)
    requires
        dates(now),
    ensures
        with_required_headers(with_required_headers(h, now), later) == with_required_headers(
            h,
            now,
        ),
{
    lemma_required_names(h, now, server_name());
    lemma_required_names(h, now, date_name());
}

/// Ensuring the required headers twice is ensuring them once, with the first
/// reading where it gave a date and the second otherwise.
proof fn lemma_twice(h: Headers, first: Option<u64>, second: Option<u64>)
    ensures
        with_required_headers(with_required_headers(h, first), second) == with_required_headers(
            h,
            if dates(first) {
                first
            } else {
                second
            },
        ),
{
    lemma_required_names(h, first, server_name());
    lemma_required_names(h, first, date_name());
    if !dates(first) {
        lemma_names_differ();
        if !has_name(h, server_name()) {
            lemma_push_values(h, (server_name(), server_identity()), date_name());
        }
    }
}

/// An inner service that gives the same response whatever it is handed:
/// wrapped, it gives that response for every request.
pub proof fn law_pass_through<State, B, S>(
    svc: RequiredResponseHeader<S>,
    resp: S::Response,
    ctx: Context<State>,
    req: Request<B>,
    r: Result<S::Response, BoxError>,
) where S: Service<State, Request<B>>, S::Error: Describe
    requires
        forall|c: Context<State>, q: Request<B>, o: Result<S::Response, S::Error>|
            #[trigger] svc.inner_spec().may_serve(c, q, o) ==> o == Ok::<S::Response, S::Error>(
                resp,
            ),
        svc.may_serve(ctx, req, r),
    ensures
        r == Ok::<S::Response, BoxError>(resp),
{
    let (n, f, o) = choose|n: Option<u64>, f: Request<B>, o: Result<S::Response, S::Error>|
        #[trigger] svc.inner_spec().may_serve(ctx, f, o) && #[trigger] forwards(req, n, f) && passes_on(
            o,
            r,
        );
}

/// An inner service that always fails with the error `e`: wrapped, it fails
/// for every request with the normalised form of `e`.
pub proof fn law_error_propagation<State, B, S>(
    svc: RequiredResponseHeader<S>,
    e: S::Error,
    ctx: Context<State>,
    req: Request<B>,
    r: Result<S::Response, BoxError>,
) where S: Service<State, Request<B>>, S::Error: Describe
    requires
        forall|c: Context<State>, q: Request<B>, o: Result<S::Response, S::Error>|
            #[trigger] svc.inner_spec().may_serve(c, q, o) ==> o == Err::<S::Response, S::Error>(
                e,
            ),
        svc.may_serve(ctx, req, r),
    ensures
        r is Err,
        r->Err_0@ == e.description(),
{
    let (n, f, o) = choose|n: Option<u64>, f: Request<B>, o: Result<S::Response, S::Error>|
        #[trigger] svc.inner_spec().may_serve(ctx, f, o) && #[trigger] forwards(req, n, f) && passes_on(
            o,
            r,
        );
}

/// Two of these layers stacked over a service serve as one layer over it
/// does: every outcome of the stack is an outcome of the single layer, so the
/// inner service never sees a required header twice.
pub proof fn law_stacked<State, B, S>(
    svc: RequiredResponseHeader<RequiredResponseHeader<S>>,
    ctx: Context<State>,
    req: Request<B>,
    r: Result<S::Response, BoxError>,
) where S: Service<State, Request<B>>, S::Error: Describe
    requires
        svc.may_serve(ctx, req, r),
    ensures
        svc.inner_spec().may_serve(ctx, req, r),
{
    let mid = svc.inner_spec();
    let (n1, fwd1, out1) = choose|
        n: Option<u64>,
        f: Request<B>,
        o: Result<S::Response, BoxError>,
    | #[trigger] mid.may_serve(ctx, f, o) && #[trigger] forwards(req, n, f) && passes_on(o, r);
    let (n2, fwd2, out2) = choose|
        n: Option<u64>,
        f: Request<B>,
        o: Result<S::Response, S::Error>,
    | #[trigger] mid.inner_spec().may_serve(ctx, f, o) && #[trigger] forwards(fwd1, n, f) && passes_on(
        o,
        out1,
    );
    lemma_twice(req.headers@, n1, n2);
    let m = if dates(n1) {
        n1
    } else {
        n2
    };
    assert(forwards(req, m, fwd2));
    assert(passes_on(out2, r));
}

} // verus!
