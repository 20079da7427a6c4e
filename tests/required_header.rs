use required_header::date::{format_http_date, unix_time_now, MAX_HTTP_DATE_SECS};
use required_header::header::{HeaderMap, HeaderName};
use required_header::required_header::{
    add_required_headers, date_header_name, server_header_name, server_identity_value,
    RequiredResponseHeader, RequiredResponseHeaderLayer,
};
use required_header::service::{BoxError, Context, Layer, Request, Response, Service};

/// Terminal handler that answers with the request it was handed.
struct Echo;

impl Service<(), Request<()>> for Echo {
    type Response = Request<()>;
    type Error = BoxError;

    fn serve(&self, _ctx: Context<()>, req: Request<()>) -> Result<Request<()>, BoxError> {
        Ok(req)
    }
}

/// Terminal handler that answers every request with the same response.
struct Fixed;

impl Service<(), Request<()>> for Fixed {
    type Response = Response<u32>;
    type Error = BoxError;

    fn serve(&self, _ctx: Context<()>, _req: Request<()>) -> Result<Response<u32>, BoxError> {
        let mut resp = Response::new(42);
        resp.headers.append(name("x-fixed"), b"yes".to_vec());
        Ok(resp)
    }
}

/// Terminal handler that always fails.
struct Failing;

impl Service<(), Request<()>> for Failing {
    type Response = Request<()>;
    type Error = BoxError;

    fn serve(&self, _ctx: Context<()>, _req: Request<()>) -> Result<Request<()>, BoxError> {
        Err(BoxError::new("backend unavailable".to_string()))
    }
}

fn name(s: &str) -> HeaderName {
    HeaderName::from_bytes(s.as_bytes()).unwrap()
}

fn served(req: Request<()>) -> HeaderMap {
    let svc = RequiredResponseHeaderLayer::new().layer(Echo);
    svc.serve(Context::new(()), req).unwrap().headers
}

fn assert_http_date_shape(v: &[u8]) {
    assert_eq!(v.len(), 29);
    assert_eq!(&v[3..5], b", ");
    assert!(v.ends_with(b" GMT"));
    assert_eq!(v[19], b':');
    assert_eq!(v[22], b':');
}

#[test]
fn empty_request_gets_server_and_date() {
    let h = served(Request::new(()));
    assert_eq!(h.get_all(&name("Server")), vec![b"required-header".to_vec()]);
    let dates = h.get_all(&name("Date"));
    assert_eq!(dates.len(), 1);
    assert_http_date_shape(&dates[0]);
    assert_eq!(h.len(), 2);
}

#[test]
fn preset_server_is_kept_and_date_added() {
    let mut req = Request::new(());
    req.headers.append(name("Server"), b"my-custom-proxy".to_vec());
    let h = served(req);
    assert_eq!(h.get_all(&name("server")), vec![b"my-custom-proxy".to_vec()]);
    assert_eq!(h.get_all(&name("date")).len(), 1);
}

#[test]
fn preset_date_is_kept() {
    let mut req = Request::new(());
    req.headers.append(name("Date"), b"Sun, 06 Nov 1994 08:49:37 GMT".to_vec());
    let h = served(req);
    assert_eq!(h.get_all(&name("date")), vec![b"Sun, 06 Nov 1994 08:49:37 GMT".to_vec()]);
    assert_eq!(h.get_all(&name("server")), vec![b"required-header".to_vec()]);
}

#[test]
fn preset_values_of_both_are_kept_in_place() {
    let mut req = Request::new(());
    req.headers.append(name("server"), b"a".to_vec());
    req.headers.append(name("Server"), b"b".to_vec());
    req.headers.append(name("DATE"), b"today".to_vec());
    let h = served(req);
    assert_eq!(h.len(), 3);
    assert_eq!(h.get_all(&name("server")), vec![b"a".to_vec(), b"b".to_vec()]);
    assert_eq!(h.get_all(&name("date")), vec![b"today".to_vec()]);
}

#[test]
fn stacked_layers_do_not_duplicate() {
    let layer = RequiredResponseHeaderLayer::new();
    let svc = layer.layer(layer.layer(Echo));
    let h = svc.serve(Context::new(()), Request::new(())).unwrap().headers;
    assert_eq!(h.get_all(&name("server")).len(), 1);
    assert_eq!(h.get_all(&name("date")).len(), 1);
    assert_eq!(h.len(), 2);
}

#[test]
fn ensuring_twice_changes_nothing() {
    let mut h = HeaderMap::new();
    add_required_headers(&mut h, Some(784111777));
    add_required_headers(&mut h, Some(0));
    assert_eq!(h.len(), 2);
    assert_eq!(h.get_all(&name("server")), vec![b"required-header".to_vec()]);
    assert_eq!(h.get_all(&name("date")), vec![b"Sun, 06 Nov 1994 08:49:37 GMT".to_vec()]);
}

#[test]
fn unreadable_clock_adds_no_date() {
    let mut h = HeaderMap::new();
    add_required_headers(&mut h, None);
    assert_eq!(h.len(), 1);
    assert!(!h.contains_key(&name("date")));
    let mut h = HeaderMap::new();
    add_required_headers(&mut h, Some(MAX_HTTP_DATE_SECS));
    assert_eq!(h.len(), 1);
    add_required_headers(&mut h, Some(0));
    assert_eq!(h.get_all(&name("date")), vec![b"Thu, 01 Jan 1970 00:00:00 GMT".to_vec()]);
}

#[test]
fn fixed_response_passes_through() {
    let svc = RequiredResponseHeader::new(Fixed);
    let mut req = Request::new(());
    req.headers.append(name("accept"), b"*/*".to_vec());
    let resp = svc.serve(Context::new(()), req).unwrap();
    assert_eq!(resp.body, 42);
    assert_eq!(resp.headers.len(), 1);
    assert_eq!(resp.headers.get_all(&name("x-fixed")), vec![b"yes".to_vec()]);
    assert!(!resp.headers.contains_key(&name("server")));
}

#[test]
fn inner_error_is_passed_on() {
    let svc = RequiredResponseHeaderLayer::new().layer(Failing);
    let err = svc.serve(Context::new(()), Request::new(())).unwrap_err();
    assert_eq!(err.message(), "backend unavailable");
    let stacked = RequiredResponseHeader::new(RequiredResponseHeader::new(Failing));
    let err = stacked.serve(Context::new(()), Request::new(())).unwrap_err();
    assert_eq!(err.message(), "backend unavailable");
    assert_eq!(BoxError::from_error(&err).message(), "backend unavailable");
}

#[test]
fn accessors_return_the_inner_service() {
    let svc = RequiredResponseHeader::new(RequiredResponseHeaderLayer::new());
    let _: &RequiredResponseHeaderLayer = svc.get_ref();
    let _: RequiredResponseHeaderLayer = svc.clone().into_inner();
    let ctx = Context::new(7u8);
    assert_eq!(ctx.state, 7);
}

#[test]
fn http_date_examples() {
    let f = |s: u64| String::from_utf8(format_http_date(s).unwrap()).unwrap();
    assert_eq!(f(0), "Thu, 01 Jan 1970 00:00:00 GMT");
    assert_eq!(f(784111777), "Sun, 06 Nov 1994 08:49:37 GMT");
    assert_eq!(f(951782400), "Tue, 29 Feb 2000 00:00:00 GMT");
    assert_eq!(f(1709251199), "Thu, 29 Feb 2024 23:59:59 GMT");
    assert_eq!(f(1735689599), "Tue, 31 Dec 2024 23:59:59 GMT");
    assert_eq!(f(4107542400), "Mon, 01 Mar 2100 00:00:00 GMT");
    assert_eq!(f(MAX_HTTP_DATE_SECS - 1), "Fri, 31 Dec 9999 23:59:59 GMT");
    assert!(format_http_date(MAX_HTTP_DATE_SECS).is_none());
    assert!(format_http_date(u64::MAX).is_none());
}

#[test]
fn clock_reads_after_the_epoch() {
    let now = unix_time_now().unwrap();
    assert!(now > 1_600_000_000);
    assert_http_date_shape(&format_http_date(now).unwrap());
}

#[test]
fn header_names_fold_case_and_reject_non_tokens() {
    assert_eq!(name("Content-Type").as_bytes(), b"content-type");
    assert!(HeaderName::from_bytes(b"").is_none());
    assert!(HeaderName::from_bytes(b"bad name").is_none());
    assert!(HeaderName::from_bytes(b"colon:").is_none());
    assert_eq!(name("X_Odd~!#").as_bytes(), b"x_odd~!#");
    assert_eq!(server_header_name().as_bytes(), b"server");
    assert_eq!(date_header_name().as_bytes(), b"date");
    assert_eq!(server_identity_value(), b"required-header".to_vec());
    assert_eq!(name("Accept").clone().as_bytes(), b"accept");
}

#[test]
fn header_map_keeps_order_and_all_values() {
    let mut h = HeaderMap::new();
    assert!(h.is_empty());
    h.append(name("Accept"), b"a".to_vec());
    h.append(name("Host"), b"h".to_vec());
    h.append(name("ACCEPT"), b"b".to_vec());
    assert_eq!(h.len(), 3);
    assert!(h.contains_key(&name("accept")));
    assert!(!h.contains_key(&name("cookie")));
    assert_eq!(h.get_all(&name("accept")), vec![b"a".to_vec(), b"b".to_vec()]);
    assert_eq!(h.get(&name("Accept")), Some(b"a".to_vec()));
    assert_eq!(h.get(&name("cookie")), None);
    assert!(!h.insert_if_absent(name("host"), b"other".to_vec()));
    assert_eq!(h.get_all(&name("host")), vec![b"h".to_vec()]);
    assert!(h.insert_if_absent(name("cookie"), b"c".to_vec()));
    assert_eq!(h.len(), 4);
}
