//! Serialisation of response heads and of response bodies.
use vstd::prelude::*;
use crate::decoder::crlf;
use crate::lits;
use crate::message::{headers_view, BodySize, ConnectionType, Header, Version};
use crate::text::{bytes_eq_ignore_case, eq_ignore_case, num_text, write_number};

verus! {

/// A response head as the application hands it over.
#[derive(Clone, Debug)]
pub struct ResponseHead {
    pub status: u16,
    pub reason: Vec<u8>,
    pub headers: Vec<Header>,
    /// A connection disposition that the application asks for, if any.
    pub ctype: Option<ConnectionType>,
}

/// The model of a response head.
pub struct ResponseModel {
    pub status: u16,
    pub reason: Seq<u8>,
    pub headers: Seq<(Seq<u8>, Seq<u8>)>,
    pub ctype: Option<ConnectionType>,
}

impl View for ResponseHead {
    type V = ResponseModel;

    open spec fn view(&self) -> ResponseModel {
        ResponseModel {
            status: self.status,
            reason: self.reason@,
            headers: headers_view(self.headers@),
            ctype: self.ctype,
        }
    }
}

pub open spec fn version_text(v: Version) -> Seq<u8> {
    match v {
        Version::Http10 => lits::version_10(),
        Version::Http11 => lits::version_11(),
    }
}

/// One header line on the wire.
pub open spec fn field(n: Seq<u8>, v: Seq<u8>) -> Seq<u8> {
    n + seq![58u8, 32] + v + crlf()
}

pub open spec fn status_line(v: Version, status: u16, reason: Seq<u8>) -> Seq<u8> {
    version_text(v) + seq![32u8] + num_text(status as nat, false) + seq![32u8] + reason + crlf()
}

/// A header that the encoder writes itself, from the codec's state.
pub open spec fn is_managed(n: Seq<u8>) -> bool {
    eq_ignore_case(n, lits::name_content_length()) || eq_ignore_case(
        n,
        lits::name_transfer_encoding(),
    ) || eq_ignore_case(n, lits::name_connection())
}

/// The application's headers from index `i`, but for the managed ones.
pub open spec fn user_fields(hs: Seq<(Seq<u8>, Seq<u8>)>, i: int) -> Seq<u8>
    decreases hs.len() - i,
{
    if i < 0 || i >= hs.len() {
        seq![]
    } else {
        (if is_managed(hs[i].0) { seq![] } else { field(hs[i].0, hs[i].1) }) + user_fields(hs, i + 1)
    }
}

pub open spec fn has_date(hs: Seq<(Seq<u8>, Seq<u8>)>) -> bool {
    exists|i: int| 0 <= i < hs.len() && eq_ignore_case(#[trigger] hs[i].0, lits::name_date())
}

/// The `Connection` header for a version and a disposition; the default
/// of the version is left out.
pub open spec fn connection_field(v: Version, ct: ConnectionType) -> Seq<u8> {
    match ct {
        ConnectionType::Upgrade => field(lits::name_connection(), lits::value_upgrade()),
        ConnectionType::Close => if v == Version::Http11 {
            field(lits::name_connection(), lits::value_close())
        } else {
            seq![]
        },
        ConnectionType::KeepAlive => if v == Version::Http10 {
            field(lits::name_connection(), lits::value_keep_alive())
        } else {
            seq![]
        },
    }
}

/// The header that frames the body. A streamed body is chunked only on
/// HTTP/1.1, and not while the request's own body runs until the close of
/// the connection (`stream`): then the response body, too, ends with the close.
pub open spec fn length_field(v: Version, stream: bool, size: BodySize) -> Seq<u8> {
    match size {
        BodySize::Sized(n) => field(lits::name_content_length(), num_text(n as nat, false)),
        BodySize::Stream => if v == Version::Http11 && !stream {
            field(lits::name_transfer_encoding(), lits::value_chunked())
        } else {
            seq![]
        },
        _ => seq![],
    }
}

pub open spec fn date_field(hs: Seq<(Seq<u8>, Seq<u8>)>, date: Seq<u8>) -> Seq<u8> {
    if has_date(hs) { seq![] } else { field(lits::name_date(), date) }
}

/// A whole response head on the wire, blank line included.
pub open spec fn head_bytes(
    r: ResponseModel,
    v: Version,
    stream: bool,
    ct: ConnectionType,
    size: BodySize,
    date: Seq<u8>,
) -> Seq<u8> {
    status_line(v, r.status, r.reason) + user_fields(r.headers, 0) + connection_field(v, ct)
        + length_field(v, stream, size) + date_field(r.headers, date) + crlf()
}

fn push_field(out: &mut Vec<u8>, n: &[u8], v: &[u8])
    ensures
        final(out)@ == old(out)@ + field(n@, v@),
{
    out.extend_from_slice(n);
    out.push(58u8);
    out.push(32u8);
    out.extend_from_slice(v);
    out.push(13u8);
    out.push(10u8);
    assert(out@ =~= old(out)@ + field(n@, v@));
}

fn is_managed_exec(n: &[u8]) -> (r: bool)
    ensures
        r == is_managed(n@),
{
    bytes_eq_ignore_case(n, lits::name_content_length_bytes().as_slice()) || bytes_eq_ignore_case(
        n,
        lits::name_transfer_encoding_bytes().as_slice(),
    ) || bytes_eq_ignore_case(n, lits::name_connection_bytes().as_slice())
}

fn has_date_exec(hs: &Vec<Header>) -> (r: bool)
    ensures
        r == has_date(headers_view(hs@)),
{
    let ghost v = headers_view(hs@);
    let date = lits::name_date_bytes();
    let mut i: usize = 0;
    while i < hs.len()
        invariant
            i <= hs@.len(),
            v == headers_view(hs@),
            date@ == lits::name_date(),
            forall|k: int| 0 <= k < i ==> !eq_ignore_case(#[trigger] v[k].0, lits::name_date()),
        decreases hs@.len() - i,
    {
        assert(v[i as int] == hs@[i as int]@);
        if bytes_eq_ignore_case(hs[i].name.as_slice(), date.as_slice()) {
            assert(eq_ignore_case(v[i as int].0, lits::name_date()));
            return true;
        }
        i = i + 1;
    }
    false
}

fn push_status_line(out: &mut Vec<u8>, v: Version, status: u16, reason: &[u8])
    ensures
        final(out)@ == old(out)@ + status_line(v, status, reason@),
{
    let vt = match v {
        Version::Http10 => lits::version_10_bytes(),
        Version::Http11 => lits::version_11_bytes(),
    };
    out.extend_from_slice(vt.as_slice());
    out.push(32u8);
    let ghost mid = out@;
    write_number(status as u64, false, out);
    out.push(32u8);
    out.extend_from_slice(reason);
    out.push(13u8);
    out.push(10u8);
    assert(out@ =~= old(out)@ + status_line(v, status, reason@));
}

fn push_user_fields(out: &mut Vec<u8>, hs: &Vec<Header>)
    ensures
        final(out)@ == old(out)@ + user_fields(headers_view(hs@), 0),
{
    let ghost hv = headers_view(hs@);
    let ghost base = out@;
    let mut i: usize = 0;
    while i < hs.len()
        invariant
            i <= hs@.len(),
            hv == headers_view(hs@),
            out@ + user_fields(hv, i as int) == base + user_fields(hv, 0),
        decreases hs@.len() - i,
    {
        let h = &hs[i];
        assert(hv[i as int] == h@);
        let ghost pre = out@;
        if !is_managed_exec(h.name.as_slice()) {
            push_field(out, h.name.as_slice(), h.value.as_slice());
        }
        assert(pre + user_fields(hv, i as int) =~= out@ + user_fields(hv, i + 1));
        i = i + 1;
    }
    assert(out@ + user_fields(hv, i as int) =~= out@);
}

fn push_connection_field(out: &mut Vec<u8>, v: Version, ct: ConnectionType)
    ensures
        final(out)@ == old(out)@ + connection_field(v, ct),
{
    match ct {
        ConnectionType::Upgrade => {
            push_field(out, lits::name_connection_bytes().as_slice(), lits::value_upgrade_bytes().as_slice());
        },
        ConnectionType::Close => {
            if v == Version::Http11 {
                push_field(out, lits::name_connection_bytes().as_slice(), lits::value_close_bytes().as_slice());
            }
        },
        ConnectionType::KeepAlive => {
            if v == Version::Http10 {
                push_field(out, lits::name_connection_bytes().as_slice(), lits::value_keep_alive_bytes().as_slice());
            }
        },
    }
    assert(out@ =~= old(out)@ + connection_field(v, ct));
}

fn push_length_field(out: &mut Vec<u8>, v: Version, stream: bool, size: BodySize)
    ensures
        final(out)@ == old(out)@ + length_field(v, stream, size),
{
    match size {
        BodySize::Sized(n) => {
            let mut num: Vec<u8> = Vec::new();
            write_number(n, false, &mut num);
            assert(num@ =~= num_text(n as nat, false));
            push_field(out, lits::name_content_length_bytes().as_slice(), num.as_slice());
        },
        BodySize::Stream => {
            if v == Version::Http11 && !stream {
                push_field(out, lits::name_transfer_encoding_bytes().as_slice(), lits::value_chunked_bytes().as_slice());
            }
        },
        _ => {},
    }
    assert(out@ =~= old(out)@ + length_field(v, stream, size));
}

/// Appends a response head: status line, the application's headers, then
/// the connection, framing and date headers, and the blank line.
pub fn encode_head(
    r: &ResponseHead,
    v: Version,
    stream: bool,
    ct: ConnectionType,
    size: BodySize,
    date: &[u8],
    out: &mut Vec<u8>,
)
    ensures
        final(out)@ == old(out)@ + head_bytes(r@, v, stream, ct, size, date@),
{
    let ghost o = out@;
    push_status_line(out, v, r.status, r.reason.as_slice());
    let ghost a = out@;
    push_user_fields(out, &r.headers);
    let ghost b = out@;
    push_connection_field(out, v, ct);
    let ghost c = out@;
    push_length_field(out, v, stream, size);
    let ghost d = out@;
    if !has_date_exec(&r.headers) {
        push_field(out, lits::name_date_bytes().as_slice(), date);
    }
    let ghost e = out@;
    assert(e =~= d + date_field(headers_view(r.headers@), date@));
    out.push(13u8);
    out.push(10u8);
    assert(out@ =~= o + head_bytes(r@, v, stream, ct, size, date@));
}

} // verus!
