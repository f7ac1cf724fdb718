use actix_http::codec::{Codec, Decoded, Message};
use actix_http::config::{KeepAlive, ServiceConfig};
use actix_http::encoder::ResponseHead;
use actix_http::message::{BodySize, ConnectionType, Header, Method, ParseError, PayloadType, Version};
use bytes::BytesMut;

fn decode_head(codec: &mut Codec, buf: &mut BytesMut) -> (actix_http::decoder::RequestHead, PayloadType) {
    match codec.decode(buf).unwrap().unwrap() {
        Decoded::Message(h, p) => (h, p),
        other => panic!("expected a request head, got {:?}", other),
    }
}

fn response(status: u16, reason: &str, headers: &[(&str, &str)]) -> ResponseHead {
    ResponseHead {
        status,
        reason: reason.as_bytes().to_vec(),
        headers: headers
            .iter()
            .map(|(n, v)| Header { name: n.as_bytes().to_vec(), value: v.as_bytes().to_vec() })
            .collect(),
        ctype: None,
    }
}

fn dated(config: ServiceConfig) -> Codec {
    let mut codec = Codec::new(config);
    codec.set_date(b"Thu, 01 Jan 1970 00:00:00 GMT".to_vec());
    codec
}

#[test]
fn test_http_request_chunked_payload_and_next_message() {
    let mut codec = Codec::new(ServiceConfig::default());

    let mut buf = BytesMut::from(
        "GET /test HTTP/1.1\r\n\
         transfer-encoding: chunked\r\n\r\n",
    );
    let item = codec.decode(&mut buf).unwrap().unwrap();
    let req = item.message();

    assert_eq!(*req.method(), Method::Get);
    assert!(req.chunked());

    buf.extend(
        b"4\r\ndata\r\n4\r\nline\r\n0\r\n\r\n\
           POST /test2 HTTP/1.1\r\n\
           transfer-encoding: chunked\r\n\r\n"
            .iter(),
    );

    let msg = codec.decode(&mut buf).unwrap().unwrap();
    assert_eq!(msg.chunk().as_slice(), b"data");

    let msg = codec.decode(&mut buf).unwrap().unwrap();
    assert_eq!(msg.chunk().as_slice(), b"line");

    let msg = codec.decode(&mut buf).unwrap().unwrap();
    assert!(msg.eof());

    // decode next message
    let item = codec.decode(&mut buf).unwrap().unwrap();
    let req = item.message();
    assert_eq!(*req.method(), Method::Post);
    assert!(req.chunked());
}

#[test]
fn connection_close_is_honoured() {
    let mut codec = Codec::new(ServiceConfig::default());
    let mut buf = BytesMut::from("GET / HTTP/1.1\r\nConnection: close\r\n\r\n");
    let (_, payload) = decode_head(&mut codec, &mut buf);
    assert_eq!(payload, PayloadType::Absent);
    assert!(!codec.keepalive());
    assert_eq!(codec.ctype().0, ConnectionType::Close);
    assert!(buf.is_empty());
}

#[test]
fn http10_closes_by_default() {
    let mut codec = Codec::new(ServiceConfig::default());
    let mut buf = BytesMut::from("GET / HTTP/1.0\r\n\r\n");
    let (head, _) = decode_head(&mut codec, &mut buf);
    assert_eq!(head.version, Version::Http10);
    assert!(!codec.keepalive());
}

#[test]
fn http10_keep_alive_is_echoed() {
    let mut codec = dated(ServiceConfig::default());
    let mut buf = BytesMut::from("GET / HTTP/1.0\r\nConnection: keep-alive\r\n\r\n");
    decode_head(&mut codec, &mut buf);
    assert!(codec.keepalive());
    let mut out = BytesMut::new();
    codec.encode(Message::Item(response(200, "OK", &[]), BodySize::Sized(0)), &mut out).unwrap();
    let text = String::from_utf8(out.to_vec()).unwrap();
    assert!(text.starts_with("HTTP/1.0 200 OK\r\n"));
    assert!(text.to_ascii_lowercase().contains("connection: keep-alive\r\n"));
}

#[test]
fn head_request_suppresses_body() {
    let mut codec = dated(ServiceConfig::default());
    let mut buf = BytesMut::from("HEAD / HTTP/1.1\r\n\r\n");
    decode_head(&mut codec, &mut buf);
    let mut out = BytesMut::new();
    codec
        .encode(Message::Item(response(200, "OK", &[]), BodySize::Sized(11)), &mut out)
        .unwrap();
    codec.encode(Message::Chunk(Some(b"hello world".to_vec())), &mut out).unwrap();
    codec.encode(Message::Chunk(None), &mut out).unwrap();
    let text = String::from_utf8(out.to_vec()).unwrap();
    assert!(text.to_ascii_lowercase().contains("content-length: 11\r\n"));
    assert!(text.ends_with("\r\n\r\n"));
    assert!(!text.contains("hello"));
}

#[test]
fn upgrade_request_keeps_trailing_bytes() {
    let mut codec = dated(ServiceConfig::default());
    let mut buf = BytesMut::from(
        "GET /ws HTTP/1.1\r\nConnection: upgrade\r\nUpgrade: websocket\r\n\r\n\x01\x05hello",
    );
    let (_, payload) = decode_head(&mut codec, &mut buf);
    assert_eq!(payload, PayloadType::Upgrade);
    assert!(codec.upgrade());
    let mut out = BytesMut::new();
    let mut res = response(101, "Switching Protocols", &[("upgrade", "websocket")]);
    res.ctype = Some(ConnectionType::Upgrade);
    codec.encode(Message::Item(res, BodySize::Absent), &mut out).unwrap();
    assert!(codec.upgrade());
    assert_eq!(&buf[..], b"\x01\x05hello");
    let text = String::from_utf8(out.to_vec()).unwrap();
    assert!(text.starts_with("HTTP/1.1 101 Switching Protocols\r\n"));
    assert!(text.contains("connection: upgrade\r\n"));
}

#[test]
fn pipelined_requests_decode_in_order() {
    let mut codec = Codec::new(ServiceConfig::default());
    let mut buf = BytesMut::from(
        "GET /a HTTP/1.1\r\n\r\nGET /b HTTP/1.1\r\n\r\nGET /c HTTP/1.1\r\n\r\n",
    );
    let mut paths = Vec::new();
    for _ in 0..3 {
        let (head, _) = decode_head(&mut codec, &mut buf);
        paths.push(String::from_utf8(head.path.clone()).unwrap());
    }
    assert_eq!(paths, vec!["/a", "/b", "/c"]);
    assert!(codec.decode(&mut buf).unwrap().is_none());
}

#[test]
fn split_head_decodes_like_whole() {
    let whole = "POST /up HTTP/1.1\r\nHost: x\r\nContent-Length: 3\r\n\r\nabc";
    for cut in 0..whole.len() {
        let mut codec = Codec::new(ServiceConfig::default());
        let mut buf = BytesMut::from(&whole[..cut]);
        let first = codec.decode(&mut buf).unwrap();
        if first.is_none() {
            assert_eq!(buf.len(), cut);
        }
        buf.extend_from_slice(whole[cut..].as_bytes());
        let d = match first {
            Some(d) => d,
            None => codec.decode(&mut buf).unwrap().unwrap(),
        };
        let head = d.message();
        assert_eq!(*head.method(), Method::Post);
        assert_eq!(head.path, b"/up".to_vec());
        assert_eq!(head.framing.content_length, Some(3));
        let body = codec.decode(&mut buf).unwrap().unwrap();
        assert_eq!(body.chunk().as_slice(), b"abc");
        assert!(codec.decode(&mut buf).unwrap().unwrap().eof());
    }
}

#[test]
fn chunked_response_body_frames() {
    let mut codec = dated(ServiceConfig::default());
    let mut buf = BytesMut::from("GET / HTTP/1.1\r\n\r\n");
    decode_head(&mut codec, &mut buf);
    let mut out = BytesMut::new();
    codec.encode(Message::Item(response(200, "OK", &[]), BodySize::Stream), &mut out).unwrap();
    let head_len = out.len();
    assert!(String::from_utf8(out.to_vec()).unwrap().contains("transfer-encoding: chunked\r\n"));
    codec.encode(Message::Chunk(Some(b"data".to_vec())), &mut out).unwrap();
    codec.encode(Message::Chunk(Some(Vec::new())), &mut out).unwrap();
    codec.encode(Message::Chunk(Some(vec![b'x'; 26])), &mut out).unwrap();
    codec.encode(Message::Chunk(None), &mut out).unwrap();
    let body = &out[head_len..];
    let mut expected = b"4\r\ndata\r\n1a\r\n".to_vec();
    expected.extend_from_slice(&[b'x'; 26]);
    expected.extend_from_slice(b"\r\n0\r\n\r\n");
    assert_eq!(body, &expected[..]);
}

#[test]
fn empty_chunk_writes_nothing() {
    let mut codec = dated(ServiceConfig::default());
    let mut buf = BytesMut::from("GET / HTTP/1.1\r\n\r\n");
    decode_head(&mut codec, &mut buf);
    let mut out = BytesMut::new();
    codec.encode(Message::Item(response(200, "OK", &[]), BodySize::Stream), &mut out).unwrap();
    let before = out.len();
    codec.encode(Message::Chunk(Some(Vec::new())), &mut out).unwrap();
    assert_eq!(out.len(), before);
    codec.encode(Message::Chunk(Some(b"ab".to_vec())), &mut out).unwrap();
    assert_eq!(&out[before..], b"2\r\nab\r\n");
}

#[test]
fn eof_then_next_response_head() {
    let mut codec = dated(ServiceConfig::default());
    let mut buf = BytesMut::from("GET / HTTP/1.1\r\n\r\nGET /2 HTTP/1.1\r\n\r\n");
    decode_head(&mut codec, &mut buf);
    let mut out = BytesMut::new();
    codec.encode(Message::Item(response(200, "OK", &[]), BodySize::Sized(2)), &mut out).unwrap();
    codec.encode(Message::Chunk(Some(b"hi".to_vec())), &mut out).unwrap();
    codec.encode(Message::Chunk(None), &mut out).unwrap();
    decode_head(&mut codec, &mut buf);
    let mut out2 = BytesMut::new();
    codec.encode(Message::Item(response(404, "Not Found", &[]), BodySize::Empty), &mut out2).unwrap();
    assert_eq!(
        &out2[..],
        &b"HTTP/1.1 404 Not Found\r\ndate: Thu, 01 Jan 1970 00:00:00 GMT\r\n\r\n"[..]
    );
}

#[test]
fn keepalive_disabled_never_keeps_alive() {
    let mut codec = dated(ServiceConfig::new(KeepAlive::Disabled, 0, 0));
    assert!(!codec.keepalive_enabled());
    let mut buf = BytesMut::from("GET / HTTP/1.1\r\nConnection: keep-alive\r\n\r\n");
    decode_head(&mut codec, &mut buf);
    assert!(!codec.keepalive());
    let mut res = response(200, "OK", &[]);
    res.ctype = Some(ConnectionType::KeepAlive);
    let mut out = BytesMut::new();
    codec.encode(Message::Item(res, BodySize::Empty), &mut out).unwrap();
    assert!(!codec.keepalive());
    assert!(String::from_utf8(out.to_vec()).unwrap().contains("connection: close\r\n"));
}

#[test]
fn sized_response_exact_bytes() {
    let mut codec = dated(ServiceConfig::default());
    let mut buf = BytesMut::from("GET / HTTP/1.1\r\n\r\n");
    decode_head(&mut codec, &mut buf);
    let mut out = BytesMut::new();
    let res = response(200, "OK", &[("Server", "t"), ("Content-Length", "99"), ("Date", "now")]);
    codec.encode(Message::Item(res, BodySize::Sized(11)), &mut out).unwrap();
    codec.encode(Message::Chunk(Some(b"hello world!!".to_vec())), &mut out).unwrap();
    codec.encode(Message::Chunk(None), &mut out).unwrap();
    assert_eq!(
        &out[..],
        &b"HTTP/1.1 200 OK\r\nServer: t\r\nDate: now\r\ncontent-length: 11\r\n\r\nhello world"[..]
    );
}

#[test]
fn request_round_trip_with_body() {
    let mut codec = Codec::new(ServiceConfig::default());
    let mut buf = BytesMut::from(
        "PUT /item?id=7 HTTP/1.1\r\nHost:  example.org \r\nContent-Length: 10\r\n\r\n0123456789",
    );
    let (head, payload) = decode_head(&mut codec, &mut buf);
    assert_eq!(payload, PayloadType::Payload);
    assert_eq!(*head.method(), Method::Put);
    assert_eq!(head.path, b"/item?id=7".to_vec());
    assert_eq!(head.version, Version::Http11);
    assert_eq!(head.headers.len(), 2);
    assert_eq!(head.headers[0].name, b"Host".to_vec());
    assert_eq!(head.headers[0].value, b"example.org".to_vec());
    let body = codec.decode(&mut buf).unwrap().unwrap();
    assert_eq!(body.chunk().as_slice(), b"0123456789");
    assert!(codec.decode(&mut buf).unwrap().unwrap().eof());
    assert!(buf.is_empty());
}

#[test]
fn http10_post_body_until_close() {
    let mut codec = Codec::new(ServiceConfig::default());
    let mut buf = BytesMut::from("POST / HTTP/1.0\r\n\r\nabc");
    let (_, payload) = decode_head(&mut codec, &mut buf);
    assert_eq!(payload, PayloadType::Stream);
    assert_eq!(codec.decode(&mut buf).unwrap().unwrap().chunk().as_slice(), b"abc");
    assert!(codec.decode(&mut buf).unwrap().is_none());
}

#[test]
fn extension_method_is_kept() {
    let mut codec = Codec::new(ServiceConfig::default());
    let mut buf = BytesMut::from("PURGE /x HTTP/1.1\r\n\r\n");
    let (head, _) = decode_head(&mut codec, &mut buf);
    assert_eq!(head.method, Method::Extension(b"PURGE".to_vec()));
}

fn decode_error(text: &str) -> ParseError {
    let mut codec = Codec::new(ServiceConfig::default());
    let mut buf = BytesMut::from(text);
    codec.decode(&mut buf).unwrap_err()
}

#[test]
fn parse_errors() {
    assert_eq!(decode_error("G(T / HTTP/1.1\r\n\r\n"), ParseError::Method);
    assert_eq!(decode_error("GET\r\n\r\n"), ParseError::Method);
    assert_eq!(decode_error("GET  HTTP/1.1\r\n\r\n"), ParseError::Uri);
    assert_eq!(decode_error("GET /\r\n\r\n"), ParseError::Uri);
    assert_eq!(decode_error("GET / HTTP/2.0\r\n\r\n"), ParseError::Version);
    assert_eq!(decode_error("GET / HTTP/1.1\r\nbad header\r\n\r\n"), ParseError::Header);
    assert_eq!(
        decode_error("POST / HTTP/1.1\r\ncontent-length: 2\r\ntransfer-encoding: chunked\r\n\r\n"),
        ParseError::Header
    );
    assert_eq!(
        decode_error("POST / HTTP/1.1\r\ncontent-length: 2\r\ncontent-length: 3\r\n\r\n"),
        ParseError::Header
    );
    assert_eq!(decode_error("POST / HTTP/1.1\r\ncontent-length: x\r\n\r\n"), ParseError::Header);
}

#[test]
fn agreeing_content_lengths_are_accepted() {
    let mut codec = Codec::new(ServiceConfig::default());
    let mut buf = BytesMut::from("POST / HTTP/1.1\r\ncontent-length: 2\r\nContent-Length: 2\r\n\r\nok");
    let (head, _) = decode_head(&mut codec, &mut buf);
    assert_eq!(head.framing.content_length, Some(2));
}

#[test]
fn oversized_heads_are_refused() {
    let mut config = ServiceConfig::default();
    config.max_head_size = 32;
    config.max_headers = 1;
    let mut codec = Codec::new(config.clone());
    let mut buf = BytesMut::from("GET / HTTP/1.1\r\nx-long: aaaaaaaaaaaaaaaaaaaaaa");
    assert_eq!(codec.decode(&mut buf).unwrap_err(), ParseError::TooLarge);
    let mut codec = Codec::new(config);
    let mut buf = BytesMut::from("GET / HTTP/1.1\r\na: 1\r\nb: 2\r\n\r\n");
    assert_eq!(codec.decode(&mut buf).unwrap_err(), ParseError::TooLarge);
}

#[test]
fn bad_chunk_is_a_payload_error() {
    let mut codec = Codec::new(ServiceConfig::default());
    let mut buf = BytesMut::from("POST / HTTP/1.1\r\ntransfer-encoding: chunked\r\n\r\nzz\r\n");
    decode_head(&mut codec, &mut buf);
    assert_eq!(codec.decode(&mut buf).unwrap_err(), ParseError::Payload);
    let mut codec = Codec::new(ServiceConfig::default());
    let mut buf = BytesMut::from("POST / HTTP/1.1\r\ntransfer-encoding: chunked\r\n\r\n2\r\nabXY");
    decode_head(&mut codec, &mut buf);
    assert_eq!(codec.decode(&mut buf).unwrap_err(), ParseError::Payload);
}

#[test]
fn chunk_trailers_end_the_body() {
    let mut codec = Codec::new(ServiceConfig::default());
    let mut buf = BytesMut::from(
        "POST / HTTP/1.1\r\ntransfer-encoding: chunked\r\n\r\n1\r\na\r\n0\r\nx-sum: 1\r\n\r\nGET / HTTP/1.1\r\n\r\n",
    );
    decode_head(&mut codec, &mut buf);
    assert_eq!(codec.decode(&mut buf).unwrap().unwrap().chunk().as_slice(), b"a");
    assert!(codec.decode(&mut buf).unwrap().unwrap().eof());
    let (head, _) = decode_head(&mut codec, &mut buf);
    assert_eq!(*head.method(), Method::Get);
}


#[test]
fn default_codec_allows_keep_alive() {
    let codec = Codec::default();
    assert!(codec.keepalive_enabled());
    assert!(!codec.keepalive());
    assert!(!codec.upgrade());
    assert_eq!(codec.config().max_headers, actix_http::config::MAX_HEADERS);
}

#[test]
fn config_is_kept_whole() {
    let config = ServiceConfig::new(KeepAlive::Os, 1234, 77);
    let codec = Codec::new(config.clone());
    let got = codec.config();
    assert_eq!(got.keep_alive, KeepAlive::Os);
    assert_eq!(got.client_timeout, 1234);
    assert_eq!(got.client_shutdown, 77);
    assert_eq!(got.max_head_size, config.max_head_size);
    assert_eq!(got.max_headers, config.max_headers);
    assert_eq!(got.date, config.date);
}

#[test]
fn streamed_request_gets_unchunked_stream_response() {
    let mut codec = dated(ServiceConfig::default());
    let mut buf = BytesMut::from("POST / HTTP/1.0\r\nConnection: keep-alive\r\n\r\n");
    let (_, payload) = decode_head(&mut codec, &mut buf);
    assert_eq!(payload, PayloadType::Stream);
    let mut out = BytesMut::new();
    let mut res = response(200, "OK", &[]);
    res.ctype = Some(ConnectionType::Close);
    codec.encode(Message::Item(res, BodySize::Stream), &mut out).unwrap();
    let head_len = out.len();
    assert!(!String::from_utf8(out.to_vec()).unwrap().contains("transfer-encoding"));
    codec.encode(Message::Chunk(Some(b"abc".to_vec())), &mut out).unwrap();
    codec.encode(Message::Chunk(None), &mut out).unwrap();
    assert_eq!(&out[head_len..], b"abc");
}
