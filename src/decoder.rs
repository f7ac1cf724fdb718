//! Incremental parsing of request heads and of request bodies.
use vstd::prelude::*;
use crate::lits;
use crate::message::{
    copy_range, headers_view, slice_is, ConnectionType, Header, Method, ParseError, PayloadType, Version,
};
use crate::text::{
    bytes_eq_ignore_case, eq_ignore_case, find, find_from, is_token, lemma_find_from_bounds,
    number, parse_number, token_at, trim, trim_bounds,
};

verus! {

pub open spec fn crlf() -> Seq<u8> {
    seq![13u8, 10]
}

pub open spec fn crlf2() -> Seq<u8> {
    seq![13u8, 10, 13, 10]
}

pub fn crlf_bytes() -> (r: Vec<u8>)
    ensures
        r@ == crlf(),
{
    let r: Vec<u8> = vec![13u8, 10];
    assert(r@ =~= crlf());
    r
}

pub fn crlf2_bytes() -> (r: Vec<u8>)
    ensures
        r@ == crlf2(),
{
    let r: Vec<u8> = vec![13u8, 10, 13, 10];
    assert(r@ =~= crlf2());
    r
}

/// What the headers of a request say about its framing and connection.
#[derive(Clone, Copy, Debug)]
pub struct Framing {
    /// The agreed value of every `Content-Length` header.
    pub content_length: Option<u64>,
    /// A `Transfer-Encoding` header is present.
    pub te: bool,
    /// The last `Transfer-Encoding` header names `chunked`.
    pub chunked: bool,
    /// The last recognised `Connection` header value.
    pub conn: Option<ConnectionType>,
    /// The last `Expect` header asks for `100-continue`.
    pub expect: bool,
}

pub open spec fn initial_framing() -> Framing {
    Framing { content_length: None, te: false, chunked: false, conn: None, expect: false }
}

/// The connection disposition that a `Connection` header value names.
pub open spec fn conn_value(v: Seq<u8>, prev: Option<ConnectionType>) -> Option<ConnectionType> {
    if eq_ignore_case(v, lits::value_close()) {
        Some(ConnectionType::Close)
    } else if eq_ignore_case(v, lits::value_keep_alive()) {
        Some(ConnectionType::KeepAlive)
    } else if eq_ignore_case(v, lits::value_upgrade()) {
        Some(ConnectionType::Upgrade)
    } else {
        prev
    }
}

/// The effect of one header on the framing gathered so far.
pub open spec fn framing_step(f: Framing, h: (Seq<u8>, Seq<u8>)) -> Result<Framing, ParseError> {
    let n = h.0;
    let v = h.1;
    if eq_ignore_case(n, lits::name_content_length()) {
        match number(v, 10) {
            None => Err(ParseError::Header),
            Some(x) => {
                if f.content_length is Some && f.content_length != Some(x) {
                    Err(ParseError::Header)
                } else {
                    Ok(Framing { content_length: Some(x), ..f })
                }
            },
        }
    } else if eq_ignore_case(n, lits::name_transfer_encoding()) {
        Ok(Framing { te: true, chunked: eq_ignore_case(v, lits::value_chunked()), ..f })
    } else if eq_ignore_case(n, lits::name_connection()) {
        Ok(Framing { conn: conn_value(v, f.conn), ..f })
    } else if eq_ignore_case(n, lits::name_expect()) {
        Ok(Framing { expect: eq_ignore_case(v, lits::value_continue()), ..f })
    } else {
        Ok(f)
    }
}

/// The framing of headers `hs[i..]`, starting from `f`.
pub open spec fn scan_framing(hs: Seq<(Seq<u8>, Seq<u8>)>, i: int, f: Framing) -> Result<
    Framing,
    ParseError,
>
    decreases hs.len() - i,
{
    if i < 0 || i >= hs.len() {
        Ok(f)
    } else {
        match framing_step(f, hs[i]) {
            Err(e) => Err(e),
            Ok(g) => scan_framing(hs, i + 1, g),
        }
    }
}

/// The framing of a whole header list; both length and transfer coding
/// together are refused.
pub open spec fn framing_of(hs: Seq<(Seq<u8>, Seq<u8>)>) -> Result<Framing, ParseError> {
    match scan_framing(hs, 0, initial_framing()) {
        Err(e) => Err(e),
        Ok(f) => if f.content_length is Some && f.te { Err(ParseError::Header) } else { Ok(f) },
    }
}

fn framing_step_exec(f: Framing, h: &Header) -> (r: Result<Framing, ParseError>)
    ensures
        r == framing_step(f, h@),
{
    let n = h.name.as_slice();
    let v = h.value.as_slice();
    if bytes_eq_ignore_case(n, lits::name_content_length_bytes().as_slice()) {
        match parse_number(v, 0, v.len(), 10) {
            None => {
                assert(v@.subrange(0, v@.len() as int) =~= v@);
                Err(ParseError::Header)
            },
            Some(x) => {
                assert(v@.subrange(0, v@.len() as int) =~= v@);
                let clash = match f.content_length {
                    Some(y) => y != x,
                    None => false,
                };
                if clash {
                    Err(ParseError::Header)
                } else {
                    Ok(Framing { content_length: Some(x), ..f })
                }
            },
        }
    } else if bytes_eq_ignore_case(n, lits::name_transfer_encoding_bytes().as_slice()) {
        let c = bytes_eq_ignore_case(v, lits::value_chunked_bytes().as_slice());
        Ok(Framing { te: true, chunked: c, ..f })
    } else if bytes_eq_ignore_case(n, lits::name_connection_bytes().as_slice()) {
        let conn = if bytes_eq_ignore_case(v, lits::value_close_bytes().as_slice()) {
            Some(ConnectionType::Close)
        } else if bytes_eq_ignore_case(v, lits::value_keep_alive_bytes().as_slice()) {
            Some(ConnectionType::KeepAlive)
        } else if bytes_eq_ignore_case(v, lits::value_upgrade_bytes().as_slice()) {
            Some(ConnectionType::Upgrade)
        } else {
            f.conn
        };
        Ok(Framing { conn, ..f })
    } else if bytes_eq_ignore_case(n, lits::name_expect_bytes().as_slice()) {
        let e = bytes_eq_ignore_case(v, lits::value_continue_bytes().as_slice());
        Ok(Framing { expect: e, ..f })
    } else {
        Ok(f)
    }
}

/// Gathers the framing of a header list.
pub fn scan_headers(hs: &Vec<Header>) -> (r: Result<Framing, ParseError>)
    ensures
        r == framing_of(headers_view(hs@)),
{
    let ghost v = headers_view(hs@);
    let mut f = Framing { content_length: None, te: false, chunked: false, conn: None, expect: false };
    let mut i: usize = 0;
    while i < hs.len()
        invariant
            i <= hs@.len(),
            v == headers_view(hs@),
            scan_framing(v, 0, initial_framing()) == scan_framing(v, i as int, f),
        decreases hs@.len() - i,
    {
        assert(v[i as int] == hs@[i as int]@);
        match framing_step_exec(f, &hs[i]) {
            Err(e) => {
                return Err(e);
            },
            Ok(g) => {
                f = g;
            },
        }
        i = i + 1;
    }
    if f.content_length.is_some() && f.te {
        Err(ParseError::Header)
    } else {
        Ok(f)
    }
}

/// A parsed request head.
#[derive(Clone, Debug)]
pub struct RequestHead {
    pub method: Method,
    pub path: Vec<u8>,
    pub version: Version,
    pub headers: Vec<Header>,
    pub framing: Framing,
}

/// The model of a request head.
pub struct RequestModel {
    pub method: Seq<u8>,
    pub path: Seq<u8>,
    pub version: Version,
    pub headers: Seq<(Seq<u8>, Seq<u8>)>,
    pub framing: Framing,
}

impl View for RequestHead {
    type V = RequestModel;

    open spec fn view(&self) -> RequestModel {
        RequestModel {
            method: self.method.token(),
            path: self.path@,
            version: self.version,
            headers: headers_view(self.headers@),
            framing: self.framing,
        }
    }
}

/// The request line: method token, target and version.
pub open spec fn parse_request_line(l: Seq<u8>) -> Result<(Seq<u8>, Seq<u8>, Version), ParseError> {
    match find_from(l, seq![32u8], 0) {
        None => Err(ParseError::Method),
        Some(a) => {
            if !is_token(l.subrange(0, a)) {
                Err(ParseError::Method)
            } else {
                match find_from(l, seq![32u8], a + 1) {
                    None => Err(ParseError::Uri),
                    Some(b) => {
                        if b == a + 1 {
                            Err(ParseError::Uri)
                        } else {
                            let v = l.subrange(b + 1, l.len() as int);
                            if v == lits::version_11() {
                                Ok((l.subrange(0, a), l.subrange(a + 1, b), Version::Http11))
                            } else if v == lits::version_10() {
                                Ok((l.subrange(0, a), l.subrange(a + 1, b), Version::Http10))
                            } else {
                                Err(ParseError::Version)
                            }
                        }
                    },
                }
            }
        },
    }
}

/// One header line: a token name, a colon, and a value.
pub open spec fn parse_header_line(l: Seq<u8>) -> Option<(Seq<u8>, Seq<u8>)> {
    match find_from(l, seq![58u8], 0) {
        None => None,
        Some(c) => {
            if is_token(l.subrange(0, c)) {
                Some((l.subrange(0, c), trim(l.subrange(c + 1, l.len() as int))))
            } else {
                None
            }
        },
    }
}

/// The header lines of `r` from index `p`, each ended by CRLF.
pub open spec fn parse_headers(r: Seq<u8>, p: int) -> Option<Seq<(Seq<u8>, Seq<u8>)>>
    decreases r.len() - p,
{
    if p < 0 || p >= r.len() {
        Some(seq![])
    } else {
        match find_from(r, crlf(), p) {
            None => None,
            Some(e) => {
                if e < p || e + 2 > r.len() {
                    None
                } else {
                    match parse_header_line(r.subrange(p, e)) {
                        None => None,
                        Some(h) => match parse_headers(r, e + 2) {
                            None => None,
                            Some(t) => Some(seq![h] + t),
                        },
                    }
                }
            },
        }
    }
}

/// What decoding a request head from the start of a buffer gives.
pub enum HeadOutcome {
    /// No complete head yet.
    NeedMore,
    Failed(ParseError),
    /// A head, and the number of bytes it took (blank line included).
    Parsed(RequestModel, nat),
}

/// Decoding a request head from `s`, with the configured bounds on the
/// head's size and its number of headers.
pub open spec fn decode_head(s: Seq<u8>, max_size: nat, max_headers: nat) -> HeadOutcome {
    match find_from(s, crlf2(), 0) {
        None => if s.len() > max_size { HeadOutcome::Failed(ParseError::TooLarge) } else { HeadOutcome::NeedMore },
        Some(e) => {
            if e + 4 > max_size {
                HeadOutcome::Failed(ParseError::TooLarge)
            } else {
                let r = s.subrange(0, e + 2);
                match find_from(r, crlf(), 0) {
                    None => HeadOutcome::Failed(ParseError::Method),
                    Some(le) => match parse_request_line(r.subrange(0, le)) {
                        Err(x) => HeadOutcome::Failed(x),
                        Ok(line) => match parse_headers(r, le + 2) {
                            None => HeadOutcome::Failed(ParseError::Header),
                            Some(hs) => {
                                if hs.len() > max_headers {
                                    HeadOutcome::Failed(ParseError::TooLarge)
                                } else {
                                    match framing_of(hs) {
                                        Err(x) => HeadOutcome::Failed(x),
                                        Ok(f) => HeadOutcome::Parsed(
                                            RequestModel {
                                                method: line.0,
                                                path: line.1,
                                                version: line.2,
                                                headers: hs,
                                                framing: f,
                                            },
                                            (e + 4) as nat,
                                        ),
                                    }
                                }
                            },
                        },
                    },
                }
            }
        },
    }
}

fn request_line(s: &[u8], lo: usize, hi: usize) -> (r: Result<(Method, Vec<u8>, Version), ParseError>)
    requires
        lo <= hi <= s@.len(),
    ensures
        match (r, parse_request_line(s@.subrange(lo as int, hi as int))) {
            (Err(x), Err(y)) => x == y,
            (Ok((m, p, v)), Ok((sm, sp, sv))) => m.token() == sm && p@ == sp && v == sv,
            _ => false,
        },
{
    let ghost l = s@.subrange(lo as int, hi as int);
    let sp = vec![32u8];
    assert(sp@ =~= seq![32u8]);
    let line = copy_range(s, lo, hi);
    let ls = line.as_slice();
    assert(ls@ == l);
    let a = match find(ls, sp.as_slice(), 0) {
        None => {
            return Err(ParseError::Method);
        },
        Some(a) => a,
    };
    proof {
        lemma_find_from_bounds(l, seq![32u8], 0);
    }
    if !token_at(ls, 0, a) {
        return Err(ParseError::Method);
    }
    let b = match find(ls, sp.as_slice(), a + 1) {
        None => {
            return Err(ParseError::Uri);
        },
        Some(b) => b,
    };
    proof {
        lemma_find_from_bounds(l, seq![32u8], a + 1);
    }
    if b == a + 1 {
        return Err(ParseError::Uri);
    }
    let version = if slice_is(ls, b + 1, ls.len(), &lits::version_11_bytes()) {
        Version::Http11
    } else if slice_is(ls, b + 1, ls.len(), &lits::version_10_bytes()) {
        Version::Http10
    } else {
        return Err(ParseError::Version);
    };
    let m = Method::from_token(ls, 0, a);
    let p = copy_range(ls, a + 1, b);
    Ok((m, p, version))
}

fn header_line(s: &[u8], lo: usize, hi: usize) -> (r: Option<Header>)
    requires
        lo <= hi <= s@.len(),
    ensures
        match (r, parse_header_line(s@.subrange(lo as int, hi as int))) {
            (None, None) => true,
            (Some(h), Some(sh)) => h@ == sh,
            _ => false,
        },
{
    let ghost l = s@.subrange(lo as int, hi as int);
    let line = copy_range(s, lo, hi);
    let ls = line.as_slice();
    assert(ls@ == l);
    let colon = vec![58u8];
    assert(colon@ =~= seq![58u8]);
    let c = match find(ls, colon.as_slice(), 0) {
        None => {
            return None;
        },
        Some(c) => c,
    };
    proof {
        lemma_find_from_bounds(l, seq![58u8], 0);
    }
    if !token_at(ls, 0, c) {
        return None;
    }
    let (a, b) = trim_bounds(ls, c + 1, ls.len());
    Some(Header { name: copy_range(ls, 0, c), value: copy_range(ls, a, b) })
}

/// Parses a request head at the start of `s`: `Ok(None)` while no complete
/// head is there, else the head and the number of bytes it took.
pub fn parse_head(s: &[u8], max_size: usize, max_headers: usize) -> (r: Result<
    Option<(RequestHead, usize)>,
    ParseError,
>)
    ensures
        match (r, decode_head(s@, max_size as nat, max_headers as nat)) {
            (Ok(None), HeadOutcome::NeedMore) => true,
            (Err(x), HeadOutcome::Failed(y)) => x == y,
            (Ok(Some((h, n))), HeadOutcome::Parsed(m, k)) => h@ == m && n == k,
            _ => false,
        },
{
    let e = match find(s, crlf2_bytes().as_slice(), 0) {
        None => {
            if s.len() > max_size {
                return Err(ParseError::TooLarge);
            } else {
                return Ok(None);
            }
        },
        Some(e) => e,
    };
    proof {
        lemma_find_from_bounds(s@, crlf2(), 0);
    }
    if e > max_size || max_size - e < 4 {
        return Err(ParseError::TooLarge);
    }
    let region = copy_range(s, 0, e + 2);
    let r = region.as_slice();
    let ghost rs = s@.subrange(0, e + 2);
    assert(r@ == rs);
    assert(rs.subrange(e as int, e + 2) =~= crlf()) by {
        assert(s@.subrange(e as int, e + 4) == crlf2());
        assert(rs.subrange(e as int, e + 2) =~= s@.subrange(e as int, e + 4).subrange(0, 2));
    }
    let crlf_v = crlf_bytes();
    let le = match find(r, crlf_v.as_slice(), 0) {
        None => {
            proof {
                assert(find_from(rs, crlf(), e as int) == Some(e as int));
                lemma_find_reaches(rs, crlf(), 0, e as int);
            }
            return Err(ParseError::Method);
        },
        Some(le) => le,
    };
    proof {
        lemma_find_from_bounds(rs, crlf(), 0);
    }
    let (method, path, version) = match request_line(r, 0, le) {
        Err(x) => {
            return Err(x);
        },
        Ok(line) => line,
    };
    let mut headers: Vec<Header> = Vec::new();
    let mut p: usize = le + 2;
    while p < r.len()
        invariant
            r@ == rs,
            rs.len() == e + 2,
            rs == s@.subrange(0, e + 2),
            find_from(s@, crlf2(), 0) == Some(e as int),
            e + 4 <= max_size,
            find_from(rs, crlf(), 0) == Some(le as int),
            parse_request_line(rs.subrange(0, le as int)) is Ok,
            le + 2 <= p <= rs.len(),
            crlf_v@ == crlf(),
            parse_headers(rs, le + 2) == match parse_headers(rs, p as int) {
                None => None::<Seq<(Seq<u8>, Seq<u8>)>>,
                Some(t) => Some(headers_view(headers@) + t),
            },
        decreases rs.len() - p,
    {
        let q = match find(r, crlf_v.as_slice(), p) {
            None => {
                assert(parse_headers(rs, p as int) is None);
                assert(parse_headers(rs, le + 2) is None);
                return Err(ParseError::Header);
            },
            Some(q) => q,
        };
        proof {
            lemma_find_from_bounds(rs, crlf(), p as int);
        }
        let h = match header_line(r, p, q) {
            None => {
                assert(parse_headers(rs, p as int) is None);
                assert(parse_headers(rs, le + 2) is None);
                return Err(ParseError::Header);
            },
            Some(h) => h,
        };
        let ghost before = headers_view(headers@);
        headers.push(h);
        proof {
            assert(headers_view(headers@) =~= before.push(h@));
            match parse_headers(rs, q + 2) {
                None => {},
                Some(t) => {
                    assert(before + (seq![h@] + t) =~= headers_view(headers@) + t);
                },
            }
        }
        p = q + 2;
    }
    assert(headers_view(headers@) + seq![] =~= headers_view(headers@));
    if headers.len() > max_headers {
        return Err(ParseError::TooLarge);
    }
    let framing = match scan_headers(&headers) {
        Err(x) => {
            return Err(x);
        },
        Ok(f) => f,
    };
    Ok(Some((RequestHead { method, path, version, headers, framing }, e + 4)))
}

/// A search from `i` finds an occurrence at `j` or one before it.
proof fn lemma_find_reaches(s: Seq<u8>, pat: Seq<u8>, i: int, j: int)
    requires
        0 <= i <= j,
        j + pat.len() <= s.len(),
        s.subrange(j, j + pat.len()) == pat,
    ensures
        find_from(s, pat, i) is Some,
    decreases j - i,
{
    if s.subrange(i, i + pat.len()) != pat {
        lemma_find_reaches(s, pat, i + 1, j);
    }
}

/// The state of the decoder of a request body.
#[derive(Clone, Copy, PartialEq, Eq, Debug, Structural)]
pub enum BodyDecoder {
    /// This many bytes of a sized body are still to come.
    Length(u64),
    /// A chunked body, at the start of a chunk.
    Chunked,
    /// Every further byte belongs to the body.
    Raw,
}

/// The connection disposition that a request asks for.
pub open spec fn connection_type(m: RequestModel) -> ConnectionType {
    if m.method == lits::method_connect() {
        ConnectionType::Upgrade
    } else {
        match m.framing.conn {
            Some(c) => c,
            None => if m.version == Version::Http11 { ConnectionType::KeepAlive } else { ConnectionType::Close },
        }
    }
}

/// Whether a method may carry a body that the close of the connection ends.
pub open spec fn token_allows_body(t: Seq<u8>) -> bool {
    t == lits::method_post() || t == lits::method_put() || t == lits::method_patch()
}

/// The payload kind of a request and the decoder of its body, if any.
pub open spec fn payload_of(m: RequestModel) -> (PayloadType, Option<BodyDecoder>) {
    if connection_type(m) == ConnectionType::Upgrade {
        (PayloadType::Upgrade, Some(BodyDecoder::Raw))
    } else if m.framing.te && m.framing.chunked {
        (PayloadType::Payload, Some(BodyDecoder::Chunked))
    } else {
        match m.framing.content_length {
            Some(n) => if n > 0 { (PayloadType::Payload, Some(BodyDecoder::Length(n))) } else { (PayloadType::Absent, None) },
            None => {
                if m.version == Version::Http10 && token_allows_body(m.method) {
                    (PayloadType::Stream, Some(BodyDecoder::Raw))
                } else {
                    (PayloadType::Absent, None)
                }
            },
        }
    }
}

impl RequestHead {
    /// The connection disposition that this request asks for.
    pub fn connection_type(&self) -> (r: ConnectionType)
        ensures
            r == connection_type(self@),
    {
        if self.method.is_connect() {
            ConnectionType::Upgrade
        } else {
            match self.framing.conn {
                Some(c) => c,
                None => match self.version {
                    Version::Http11 => ConnectionType::KeepAlive,
                    Version::Http10 => ConnectionType::Close,
                },
            }
        }
    }

    /// The payload kind of this request and the decoder of its body.
    pub fn payload(&self) -> (r: (PayloadType, Option<BodyDecoder>))
        ensures
            r == payload_of(self@),
    {
        let ct = self.connection_type();
        if ct == ConnectionType::Upgrade {
            (PayloadType::Upgrade, Some(BodyDecoder::Raw))
        } else if self.framing.te && self.framing.chunked {
            (PayloadType::Payload, Some(BodyDecoder::Chunked))
        } else {
            match self.framing.content_length {
                Some(n) => if n > 0 {
                    (PayloadType::Payload, Some(BodyDecoder::Length(n)))
                } else {
                    (PayloadType::Absent, None)
                },
                None => {
                    if self.version == Version::Http10 && self.method.allows_body() {
                        (PayloadType::Stream, Some(BodyDecoder::Raw))
                    } else {
                        (PayloadType::Absent, None)
                    }
                },
            }
        }
    }

    pub fn method(&self) -> (r: &Method)
        ensures
            r == &self.method,
    {
        &self.method
    }

    /// Whether the body comes in chunks.
    pub fn chunked(&self) -> (r: bool)
        ensures
            r == (self.framing.te && self.framing.chunked),
    {
        self.framing.te && self.framing.chunked
    }

    /// Whether the client waits for `100 Continue` before sending the body.
    pub fn expect(&self) -> (r: bool)
        ensures
            r == self.framing.expect,
    {
        self.framing.expect
    }
}

/// What decoding a piece of a request body gives.
pub enum BodyOutcome {
    NeedMore,
    Failed(ParseError),
    /// Body bytes, the number of buffer bytes used, and the decoder's next state.
    Chunk(Seq<u8>, nat, BodyDecoder),
    /// The end of the body, and the number of buffer bytes used.
    Eof(nat),
}

/// The end of a chunked body from index `p` (just past `0 CRLF`): a blank
/// line, or trailer lines and a blank line.
pub open spec fn chunked_end(s: Seq<u8>, p: int) -> BodyOutcome {
    if s.len() < p + 2 {
        BodyOutcome::NeedMore
    } else if s.subrange(p, p + 2) == crlf() {
        BodyOutcome::Eof((p + 2) as nat)
    } else {
        match find_from(s, crlf2(), p) {
            None => BodyOutcome::NeedMore,
            Some(q) => BodyOutcome::Eof((q + 4) as nat),
        }
    }
}

/// Decoding body bytes from the start of `s` in state `d`.
pub open spec fn decode_body(d: BodyDecoder, s: Seq<u8>) -> BodyOutcome {
    match d {
        BodyDecoder::Length(n) => {
            if n == 0 {
                BodyOutcome::Eof(0)
            } else if s.len() == 0 {
                BodyOutcome::NeedMore
            } else {
                let k = if n < s.len() { n as int } else { s.len() as int };
                BodyOutcome::Chunk(s.subrange(0, k), k as nat, BodyDecoder::Length((n - k) as u64))
            }
        },
        BodyDecoder::Raw => {
            if s.len() == 0 {
                BodyOutcome::NeedMore
            } else {
                BodyOutcome::Chunk(s, s.len(), BodyDecoder::Raw)
            }
        },
        BodyDecoder::Chunked => match find_from(s, crlf(), 0) {
            None => BodyOutcome::NeedMore,
            Some(e) => match number(s.subrange(0, e), 16) {
                None => BodyOutcome::Failed(ParseError::Payload),
                Some(n) => {
                    if n == 0 {
                        chunked_end(s, e + 2)
                    } else if s.len() < e + 4 + n {
                        BodyOutcome::NeedMore
                    } else if s.subrange(e + 2 + n, e + 4 + n) != crlf() {
                        BodyOutcome::Failed(ParseError::Payload)
                    } else {
                        BodyOutcome::Chunk(
                            s.subrange(e + 2, e + 2 + n),
                            (e + 4 + n) as nat,
                            BodyDecoder::Chunked,
                        )
                    }
                },
            },
        },
    }
}

/// The exec form of a body outcome: `Ok(None)` while more bytes are needed,
/// `Ok(Some((Some(bytes), used, next)))` for body bytes, and
/// `Ok(Some((None, used, _)))` at the end of the body.
pub open spec fn body_result_is(
    r: Result<Option<(Option<Vec<u8>>, usize, BodyDecoder)>, ParseError>,
    o: BodyOutcome,
) -> bool {
    match (r, o) {
        (Ok(None), BodyOutcome::NeedMore) => true,
        (Err(x), BodyOutcome::Failed(y)) => x == y,
        (Ok(Some((Some(b), n, d))), BodyOutcome::Chunk(sb, k, sd)) => b@ == sb && n == k && d == sd,
        (Ok(Some((None, n, _))), BodyOutcome::Eof(k)) => n == k,
        _ => false,
    }
}

/// Decodes body bytes from the start of `s`.
pub fn decode_body_exec(d: BodyDecoder, s: &[u8]) -> (r: Result<
    Option<(Option<Vec<u8>>, usize, BodyDecoder)>,
    ParseError,
>)
    ensures
        body_result_is(r, decode_body(d, s@)),
{
    match d {
        BodyDecoder::Length(n) => {
            if n == 0 {
                Ok(Some((None, 0, d)))
            } else if s.len() == 0 {
                Ok(None)
            } else {
                let k: usize = if n < s.len() as u64 { n as usize } else { s.len() };
                Ok(Some((Some(copy_range(s, 0, k)), k, BodyDecoder::Length(n - k as u64))))
            }
        },
        BodyDecoder::Raw => {
            if s.len() == 0 {
                Ok(None)
            } else {
                assert(s@.subrange(0, s@.len() as int) =~= s@);
                Ok(Some((Some(copy_range(s, 0, s.len())), s.len(), BodyDecoder::Raw)))
            }
        },
        BodyDecoder::Chunked => {
            let len = s.len();
            let crlf_v = crlf_bytes();
            let e = match find(s, crlf_v.as_slice(), 0) {
                None => {
                    return Ok(None);
                },
                Some(e) => e,
            };
            proof {
                lemma_find_from_bounds(s@, crlf(), 0);
                assert(crlf().len() == 2);
            }
            let n = match parse_number(s, 0, e, 16) {
                None => {
                    return Err(ParseError::Payload);
                },
                Some(n) => n,
            };
            if n == 0 {
                let p = e + 2;
                if s.len() < 2 || p > s.len() - 2 {
                    return Ok(None);
                }
                if slice_is(s, p, p + 2, &crlf_v) {
                    return Ok(Some((None, p + 2, d)));
                }
                match find(s, crlf2_bytes().as_slice(), p) {
                    None => Ok(None),
                    Some(q) => {
                        proof {
                            lemma_find_from_bounds(s@, crlf2(), p as int);
                        }
                        Ok(Some((None, q + 4, d)))
                    },
                }
            } else {
                let avail = s.len() - e;
                if (avail as u64) < 4 || n > (avail as u64) - 4 {
                    return Ok(None);
                }
                let start = e + 2;
                let stop = start + n as usize;
                if !slice_is(s, stop, stop + 2, &crlf_v) {
                    return Err(ParseError::Payload);
                }
                Ok(Some((Some(copy_range(s, start, stop)), stop + 2, d)))
            }
        },
    }
}

/// A decoded head takes no more bytes than the buffer holds.
pub proof fn lemma_head_consumed(s: Seq<u8>, max_size: nat, max_headers: nat)
    ensures
        match decode_head(s, max_size, max_headers) {
            HeadOutcome::Parsed(_, k) => k <= s.len(),
            _ => true,
        },
{
    lemma_find_from_bounds(s, crlf2(), 0);
}

/// A decoded piece of body takes no more bytes than the buffer holds.
pub proof fn lemma_body_consumed(d: BodyDecoder, s: Seq<u8>)
    ensures
        match decode_body(d, s) {
            BodyOutcome::Chunk(_, k, _) => k <= s.len(),
            BodyOutcome::Eof(k) => k <= s.len(),
            _ => true,
        },
{
    lemma_find_from_bounds(s, crlf(), 0);
    if let Some(e) = find_from(s, crlf(), 0) {
        lemma_find_from_bounds(s, crlf2(), e + 2);
    }
}

} // verus!
