use portal_core::api::{
    bad_request, decode_error, decode_option, decode_request, decode_response, encode_error,
    encode_request, forbidden, internal_error, invalid_method, is_ok, unknown_path, Cbor, Error,
    Id, Method, Request, Response, Status,
};

#[test]
fn test_request_wire_bytes_exact() {
    let req = Request {
        id: Id(7),
        path: "/a".to_string(),
        method: Some(Method::Post),
        has_body: true,
    };
    let mut buf: Vec<u8> = Vec::new();
    encode_request(&req, &mut buf);
    assert_eq!(
        buf,
        vec![0xa4, 0x01, 0x07, 0x02, 0x62, 0x2f, 0x61, 0x03, 0x01, 0x04, 0xf5]
    );
}

#[test]
fn test_request_round_trip() {
    let req = Request {
        id: Id(123456789),
        path: "/node/inlet/web".to_string(),
        method: Some(Method::Delete),
        has_body: false,
    };
    let mut buf: Vec<u8> = Vec::new();
    encode_request(&req, &mut buf);
    let (back, used) = decode_request(buf.as_slice(), 0).expect("header must decode");
    assert_eq!(used, buf.len());
    assert_eq!(back.id, Id(123456789));
    assert_eq!(back.path, "/node/inlet/web");
    assert_eq!(back.method, Some(Method::Delete));
    assert!(!back.has_body);
}

#[test]
fn test_request_without_method_round_trip() {
    let req = Request {
        id: Id(1),
        path: "/x".to_string(),
        method: None,
        has_body: true,
    };
    let mut buf: Vec<u8> = Vec::new();
    encode_request(&req, &mut buf);
    assert_eq!(buf[0], 0xa3);
    let (back, _) = decode_request(buf.as_slice(), 0).expect("header must decode");
    assert_eq!(back.method, None);
    assert!(back.has_body);
}

#[test]
fn test_response_round_trip() {
    let res = Response {
        id: Id(9),
        re: Id(3),
        status: Some(Status::NotFound),
        has_body: false,
    };
    let mut buf: Vec<u8> = Vec::new();
    portal_core::api::encode_response(&res, &mut buf);
    let (back, used) = decode_response(buf.as_slice(), 0).expect("header must decode");
    assert_eq!(used, buf.len());
    assert_eq!(back.id, Id(9));
    assert_eq!(back.re, Id(3));
    assert_eq!(back.status, Some(Status::NotFound));
    assert!(!back.has_body);
}

#[test]
fn test_minicbor_decodes_our_response() {
    let res = Response {
        id: Id(9),
        re: Id(3),
        status: Some(Status::Okay),
        has_body: false,
    };
    let mut buf: Vec<u8> = Vec::new();
    portal_core::api::encode_response(&res, &mut buf);
    let mut d = minicbor::Decoder::new(buf.as_slice());
    assert_eq!(d.map().unwrap(), Some(4));
    assert_eq!(d.u32().unwrap(), 1);
    assert_eq!(d.u32().unwrap(), 9);
    assert_eq!(d.u32().unwrap(), 2);
    assert_eq!(d.u32().unwrap(), 3);
    assert_eq!(d.u32().unwrap(), 3);
    assert_eq!(d.u32().unwrap(), 200);
    assert_eq!(d.u32().unwrap(), 4);
    assert!(!d.bool().unwrap());
    assert_eq!(d.position(), buf.len());
}

#[test]
fn test_our_decoder_reads_minicbor_output() {
    let mut e = minicbor::Encoder::new(Vec::<u8>::new());
    e.map(4).unwrap();
    e.u32(1).unwrap();
    e.u32(77).unwrap();
    e.u32(2).unwrap();
    e.str("/v0/spaces/abc").unwrap();
    e.u32(3).unwrap();
    e.u32(3).unwrap();
    e.u32(4).unwrap();
    e.bool(false).unwrap();
    let buf = e.into_writer();
    let (back, used) = decode_request(buf.as_slice(), 0).expect("header must decode");
    assert_eq!(used, buf.len());
    assert_eq!(back.id, Id(77));
    assert_eq!(back.path, "/v0/spaces/abc");
    assert_eq!(back.method, Some(Method::Delete));
    assert!(!back.has_body);
}

#[test]
fn test_unknown_status_code_decodes_to_none() {
    let mut e = minicbor::Encoder::new(Vec::<u8>::new());
    e.map(4).unwrap();
    e.u32(1).unwrap();
    e.u32(5).unwrap();
    e.u32(2).unwrap();
    e.u32(6).unwrap();
    e.u32(3).unwrap();
    e.u32(299).unwrap();
    e.u32(4).unwrap();
    e.bool(true).unwrap();
    let buf = e.into_writer();
    let (back, _) = decode_response(buf.as_slice(), 0).expect("header must decode");
    assert_eq!(back.status, None);
    assert!(back.has_body);
}

#[test]
fn test_error_body_round_trip() {
    let e = Error::new("/node/inlet").with_method(Method::Get).with_message("no such inlet");
    let mut buf: Vec<u8> = Vec::new();
    encode_error(&e, &mut buf);
    let (back, used) = decode_error(buf.as_slice(), 0).expect("body must decode");
    assert_eq!(used, buf.len());
    assert_eq!(back.path(), Some("/node/inlet"));
    assert_eq!(back.method(), Some(Method::Get));
    assert_eq!(back.message(), Some("no such inlet"));
}

#[test]
fn test_empty_error_body_round_trip() {
    let e = Error::default();
    let mut buf: Vec<u8> = Vec::new();
    encode_error(&e, &mut buf);
    assert_eq!(buf, vec![0xa0]);
    let (back, _) = decode_error(buf.as_slice(), 0).expect("body must decode");
    assert_eq!(back.path(), None);
    assert_eq!(back.method(), None);
    assert_eq!(back.message(), None);
}

#[test]
fn test_is_ok_on_ok_response() {
    let bytes = Response::ok(Id(11)).to_vec();
    assert!(is_ok("probe", bytes.as_slice()).is_ok());
}

#[test]
fn test_is_ok_reports_error_message() {
    let body = Error::new("/spaces").with_message("space is busy");
    let bytes = Response::bad_request(Id(11)).body(body).to_vec();
    let err = is_ok("probe", bytes.as_slice()).unwrap_err();
    assert_eq!(err.message, "space is busy");
}

#[test]
fn test_is_ok_falls_back_to_label() {
    let bytes = Response::internal_error(Id(2)).to_vec();
    let err = is_ok("probe", bytes.as_slice()).unwrap_err();
    assert_eq!(err.message, "probe");
}

#[test]
fn test_is_ok_on_garbage_is_error() {
    let err = is_ok("probe", &[0xff, 0x00]).unwrap_err();
    assert_eq!(err.message, "probe");
}

#[test]
fn test_decode_option_hands_back_body_bytes() {
    let payload = vec![0x43u8, 1, 2, 3];
    let bytes = Response::ok(Id(8)).body(Cbor(payload.clone())).to_vec();
    let got = decode_option("probe", bytes.as_slice()).unwrap();
    assert_eq!(got, Some(payload));
}

#[test]
fn test_decode_option_not_found_is_none() {
    let bytes = Response::not_found(Id(8)).to_vec();
    let got = decode_option("probe", bytes.as_slice()).unwrap();
    assert_eq!(got, None);
}

#[test]
fn test_id_fresh_is_never_zero() {
    for _ in 0..64 {
        assert_ne!(Id::fresh().0, 0);
    }
}

#[test]
fn test_method_text() {
    assert_eq!(Method::Get.text(), "GET");
    assert_eq!(Method::Post.text(), "POST");
    assert_eq!(Method::Put.text(), "PUT");
    assert_eq!(Method::Delete.text(), "DELETE");
    assert_eq!(Method::Patch.text(), "PATCH");
}

#[test]
fn test_status_codes() {
    assert_eq!(Status::Okay.code(), 200);
    assert_eq!(Status::BadRequest.code(), 400);
    assert_eq!(Status::NotFound.code(), 404);
    assert_eq!(Status::MethodNotAllowed.code(), 405);
    assert_eq!(Status::InternalServerError.code(), 500);
    assert_eq!(Status::NotImplemented.code(), 501);
    assert_eq!(Status::of_code(401), Some(Status::Unauthorized));
    assert_eq!(Status::of_code(403), Some(Status::Forbidden));
    assert_eq!(Status::of_code(409), Some(Status::Conflict));
    assert_eq!(Status::of_code(999), None);
}

#[test]
fn test_request_builders_set_method_and_path() {
    let b = Request::get("/alpha");
    assert_eq!(b.header.method, Some(Method::Get));
    assert_eq!(b.header.path, "/alpha");
    assert!(!b.header.has_body);
    let b = Request::post("/alpha").path("/beta").method(Method::Put).id(Id(42));
    assert_eq!(b.header.method, Some(Method::Put));
    assert_eq!(b.header.path, "/beta");
    assert_eq!(b.header.id, Id(42));
}

#[test]
fn test_request_builder_body_appends_bytes() {
    let body = vec![0x41u8, 0xaa];
    let b = Request::put("/data").id(Id(1)).body(Cbor(body.clone()));
    assert!(b.header.has_body);
    let bytes = b.to_vec();
    assert_eq!(&bytes[bytes.len() - 2..], body.as_slice());
    let (hdr, used) = decode_request(bytes.as_slice(), 0).expect("header must decode");
    assert!(hdr.has_body);
    assert_eq!(&bytes[used..], body.as_slice());
}

#[test]
fn test_response_builder_chain() {
    let b = Response::builder(Id(5), Status::Conflict).re(Id(6)).status(Status::Okay).id(Id(9));
    assert_eq!(b.header.id, Id(9));
    assert_eq!(b.header.re, Id(6));
    assert_eq!(b.header.status, Some(Status::Okay));
}

#[test]
fn test_unknown_path_response() {
    let req = Request {
        id: Id(4),
        path: "/nope".to_string(),
        method: Some(Method::Get),
        has_body: false,
    };
    let b = unknown_path(&req);
    assert_eq!(b.header.re, Id(4));
    assert_eq!(b.header.status, Some(Status::BadRequest));
    let e = b.body.unwrap();
    assert_eq!(e.message(), Some("unknown path"));
    assert_eq!(e.path(), Some("/nope"));
}

#[test]
fn test_invalid_method_with_and_without_method() {
    let req = Request {
        id: Id(4),
        path: "/p".to_string(),
        method: Some(Method::Patch),
        has_body: false,
    };
    let b = invalid_method(&req);
    assert_eq!(b.header.status, Some(Status::MethodNotAllowed));
    assert_eq!(b.body.unwrap().method(), Some(Method::Patch));

    let req = Request { id: Id(4), path: "/p".to_string(), method: None, has_body: false };
    let b = invalid_method(&req);
    assert_eq!(b.header.status, Some(Status::NotImplemented));
    assert_eq!(b.body.unwrap().message(), Some("unknown method"));
}

#[test]
fn test_error_response_helpers() {
    let req = Request {
        id: Id(4),
        path: "/p".to_string(),
        method: Some(Method::Get),
        has_body: false,
    };
    let b = bad_request(&req, "bad");
    assert_eq!(b.header.status, Some(Status::BadRequest));
    assert_eq!(b.body.unwrap().message(), Some("bad"));
    let b = forbidden(&req, "halt");
    assert_eq!(b.header.status, Some(Status::Forbidden));
    assert_eq!(b.body.unwrap().message(), Some("halt"));
    let b = internal_error(&req, "boom");
    assert_eq!(b.header.status, Some(Status::InternalServerError));
    assert_eq!(b.body.unwrap().message(), Some("boom"));
}

#[test]
fn test_error_response_encodes_and_decodes() {
    let req = Request {
        id: Id(21),
        path: "/portal".to_string(),
        method: Some(Method::Delete),
        has_body: false,
    };
    let bytes = bad_request(&req, "no portal").to_vec();
    let (res, used) = decode_response(bytes.as_slice(), 0).expect("header must decode");
    assert_eq!(res.re, Id(21));
    assert_eq!(res.status, Some(Status::BadRequest));
    assert!(res.has_body);
    let (e, _) = decode_error(bytes.as_slice(), used).expect("body must decode");
    assert_eq!(e.message(), Some("no portal"));
    assert_eq!(e.path(), Some("/portal"));
    assert_eq!(e.method(), Some(Method::Delete));
}

#[test]
fn test_long_path_and_wide_id_round_trip() {
    let req = Request {
        id: Id(0x12345678),
        path: "/node/portal/inlet/with/a/rather/long/path".to_string(),
        method: Some(Method::Get),
        has_body: false,
    };
    let mut buf: Vec<u8> = Vec::new();
    encode_request(&req, &mut buf);
    // The identifier takes the four-byte form, the path the one-byte-length
    // text form.
    assert_eq!(&buf[2..7], &[0x1a, 0x12, 0x34, 0x56, 0x78]);
    assert_eq!(buf[8], 0x78);
    let (back, used) = decode_request(buf.as_slice(), 0).expect("header must decode");
    assert_eq!(used, buf.len());
    assert_eq!(back.id, Id(0x12345678));
    assert_eq!(back.path, req.path);

    let mut d = minicbor::Decoder::new(buf.as_slice());
    assert_eq!(d.map().unwrap(), Some(4));
    assert_eq!(d.u32().unwrap(), 1);
    assert_eq!(d.u32().unwrap(), 0x12345678);
    assert_eq!(d.u32().unwrap(), 2);
    assert_eq!(d.str().unwrap(), req.path);
}

#[test]
fn test_non_ascii_path_round_trip() {
    let req = Request {
        id: Id(2),
        path: "/caf\u{e9}/\u{3b7}".to_string(),
        method: None,
        has_body: false,
    };
    let mut buf: Vec<u8> = Vec::new();
    encode_request(&req, &mut buf);
    let (back, _) = decode_request(buf.as_slice(), 0).expect("header must decode");
    assert_eq!(back.path, "/caf\u{e9}/\u{3b7}");
    let mut d = minicbor::Decoder::new(buf.as_slice());
    assert_eq!(d.map().unwrap(), Some(3));
    assert_eq!(d.u32().unwrap(), 1);
    assert_eq!(d.u32().unwrap(), 2);
    assert_eq!(d.u32().unwrap(), 2);
    assert_eq!(d.str().unwrap(), "/caf\u{e9}/\u{3b7}");
}

#[test]
fn test_header_getters() {
    let req = Request {
        id: Id(12),
        path: "/g".to_string(),
        method: Some(Method::Put),
        has_body: true,
    };
    assert_eq!(req.id(), Id(12));
    assert_eq!(req.path(), "/g");
    assert_eq!(req.method(), Some(Method::Put));
    assert!(req.has_body());
    let res = Response { id: Id(1), re: Id(2), status: Some(Status::Okay), has_body: false };
    assert_eq!(res.id(), Id(1));
    assert_eq!(res.re(), Id(2));
    assert_eq!(res.status(), Some(Status::Okay));
    assert!(!res.has_body());
    let mut e = Error::new("/e");
    e.set_method(Method::Get);
    assert_eq!(e.method(), Some(Method::Get));
    assert_eq!(e.path(), Some("/e"));
    assert_eq!(e.message(), None);
}

#[test]
fn test_response_and_error_helpers_on_bytes() {
    let body = Error::new("/r").with_message("stop");
    let bytes = Response::forbidden(Id(30)).body(body).to_vec();
    let (res, used) = portal_core::api::response("probe", bytes.as_slice()).unwrap();
    assert_eq!(res.re, Id(30));
    assert_eq!(res.status, Some(Status::Forbidden));
    let err = portal_core::api::error("probe", &res, bytes.as_slice(), used);
    assert_eq!(err.message, "stop");
    assert!(portal_core::api::response("probe", &[0x01]).is_err());
}

#[test]
fn test_builder_headers_and_parts() {
    let b = Request::get("/h");
    assert_eq!(b.header().path, "/h");
    let (hdr, body) = b.into_parts();
    assert_eq!(hdr.path, "/h");
    assert!(body.is_none());
    let rb = Response::ok(Id(2));
    assert_eq!(rb.header().re, Id(2));
    let (hdr, body) = rb.into_parts();
    assert_eq!(hdr.re, Id(2));
    assert!(body.is_none());
}
