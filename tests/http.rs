use krill::http::{
    bearer_token, is_authorized, BodyError, BodyReader, ContentType, HttpResponse, Method, Request,
    RequestPath,
};
use krill::options::{Error, ReportError, ReportFormat};

#[test]
fn content_types() {
    assert_eq!(ContentType::Json.as_ref(), "application/json");
    assert_eq!(ContentType::Rfc8181.as_ref(), "application/rpki-publication");
    assert_eq!(ContentType::Rfc6492.as_ref(), "application/rpki-updown");
    assert_eq!(ContentType::Woff2.as_ref(), "font/woff2");
}

#[test]
fn responses() {
    let r = HttpResponse::xml_with_cache(b"<x/>".to_vec(), 60);
    assert_eq!(r.status, 200);
    assert_eq!(r.max_age, Some(60));
    assert_eq!(r.content_type, ContentType::Xml);
    let r = HttpResponse::css(b"a{}");
    assert_eq!(r.body, b"a{}".to_vec());
    assert_eq!(r.content_type, ContentType::Css);
    assert_eq!(HttpResponse::not_found().status, 404);
    assert_eq!(HttpResponse::forbidden().status, 403);
    assert!(HttpResponse::ok().body.is_empty());
}

#[test]
fn body_within_limit_is_collected() {
    let mut reader = BodyReader::start(10, 2).unwrap();
    reader.push_chunk(b"abcd", 3).unwrap();
    reader.push_chunk(b"efg", 0).unwrap();
    assert_eq!(reader.finish(), b"abcdefg".to_vec());
}

#[test]
fn body_over_limit_is_refused() {
    assert!(matches!(BodyReader::start(10, 11), Err(BodyError::PostTooBig)));
    let mut reader = BodyReader::start(10, 0).unwrap();
    reader.push_chunk(b"abcdef", 0).unwrap();
    assert_eq!(reader.push_chunk(b"ab", 3), Err(BodyError::PostTooBig));
    assert_eq!(reader.push_chunk(b"abcde", 0), Err(BodyError::PostTooBig));
    assert_eq!(reader.finish(), b"abcdef".to_vec());
}

#[test]
fn bearer_tokens() {
    assert_eq!(bearer_token(&b"Bearer  secret \t".to_vec()), Some(b"secret".to_vec()));
    assert_eq!(bearer_token(&b"bearer secret".to_vec()), None);
    assert_eq!(bearer_token(&b"Bearer".to_vec()), None);
    assert_eq!(bearer_token(&b"Bearer sec\x01ret".to_vec()), None);
    let token = b"secret".to_vec();
    assert!(is_authorized(Some(&b"Bearer secret".to_vec()), &token));
    assert!(!is_authorized(Some(&b"Bearer Secret".to_vec()), &token));
    assert!(!is_authorized(None, &token));
    let req = Request::new(Method::Post, b"/api/v1".to_vec(), Some(b"Bearer secret".to_vec()));
    assert!(req.is_authorized(&token));
    assert!(req.is_post() && !req.is_get() && !req.is_delete());
    assert_eq!(req.method(), Method::Post);
}

#[test]
fn path_segments() {
    let mut path = RequestPath::from_path(b"//api/v1//cas/ta".to_vec());
    assert_eq!(path.segment(), b"api".to_vec());
    assert_eq!(path.remaining(), b"/v1//cas/ta".to_vec());
    assert_eq!(path.next(), Some(b"v1".to_vec()));
    assert_eq!(path.next(), Some(b"cas".to_vec()));
    assert_eq!(path.next(), Some(b"ta".to_vec()));
    assert_eq!(path.next(), None);
    assert_eq!(path.full(), &b"//api/v1//cas/ta".to_vec());
    let req = Request::new(Method::Get, b"/".to_vec(), None);
    assert!(req.is_get());
    assert_eq!(req.path().segment(), Vec::<u8>::new());
}

#[test]
fn report_error_converts() {
    let e: Error = ReportError::UnrecognisedFormat.into();
    assert_eq!(e, Error::ReportError(ReportError::UnrecognisedFormat));
    assert_eq!(Error::ServerUriError.message(), "Cannot parse server URI.");
}

#[test]
fn report_format_names() {
    assert_eq!(ReportFormat::from_name(b"json"), Ok(ReportFormat::Json));
    assert_eq!(ReportFormat::from_name(b"none"), Ok(ReportFormat::NoOutput));
    assert_eq!(ReportFormat::from_name(b"text"), Ok(ReportFormat::Text));
    assert_eq!(ReportFormat::from_name(b"xml"), Ok(ReportFormat::Xml));
    assert_eq!(ReportFormat::from_name(b"XML"), Err(ReportError::UnrecognisedFormat));
    assert_eq!(ReportFormat::from_name(b""), Err(ReportError::UnrecognisedFormat));
}

#[test]
fn request_starts_at_first_segment() {
    let req = Request::new(Method::Get, b"/api/v1/cas".to_vec(), None);
    assert_eq!(req.path().segment(), b"api".to_vec());
    assert_eq!(req.path().remaining(), b"/v1/cas".to_vec());
}
