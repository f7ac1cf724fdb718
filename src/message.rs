//! Request and response heads, and the small enums that describe a message.
use vstd::prelude::*;
use crate::lits;

verus! {

/// HTTP protocol version of a message.
#[derive(Clone, Copy, PartialEq, Eq, Debug, Structural)]
pub enum Version {
    Http10,
    Http11,
}

/// What happens to the connection once the current exchange is over.
#[derive(Clone, Copy, PartialEq, Eq, Debug, Structural)]
pub enum ConnectionType {
    Close,
    KeepAlive,
    Upgrade,
}

/// What the decoder hands out beside a request head.
#[derive(Clone, Copy, PartialEq, Eq, Debug, Structural)]
pub enum PayloadType {
    /// No body.
    Absent,
    /// A body of known framing (sized or chunked).
    Payload,
    /// A body delimited by the close of the connection.
    Stream,
    /// Further bytes belong to another protocol.
    Upgrade,
}

/// The size hint of a response body, which picks its framing.
#[derive(Clone, Copy, PartialEq, Eq, Debug, Structural)]
pub enum BodySize {
    /// The response has no body at all (as for 204 or 304).
    Absent,
    Empty,
    Sized(u64),
    Stream,
}

/// Why a request head or body could not be parsed.
#[derive(Clone, Copy, PartialEq, Eq, Debug, Structural)]
pub enum ParseError {
    /// Malformed method in the request line.
    Method,
    /// Missing or malformed request target.
    Uri,
    /// A version other than HTTP/1.0 or HTTP/1.1.
    Version,
    /// A malformed or conflicting header.
    Header,
    /// The head is larger, or has more headers, than configured.
    TooLarge,
    /// A malformed chunk in a chunked body.
    Payload,
}

/// A request method; methods outside the standard set keep their token.
#[derive(Clone, PartialEq, Eq, Debug)]
pub enum Method {
    Get,
    Head,
    Post,
    Put,
    Delete,
    Connect,
    Options,
    Trace,
    Patch,
    Extension(Vec<u8>),
}

impl Method {
    /// The token that names the method on the wire.
    pub open spec fn token(&self) -> Seq<u8> {
        match self {
            Method::Get => lits::method_get(),
            Method::Head => lits::method_head(),
            Method::Post => lits::method_post(),
            Method::Put => lits::method_put(),
            Method::Delete => lits::method_delete(),
            Method::Connect => lits::method_connect(),
            Method::Options => lits::method_options(),
            Method::Trace => lits::method_trace(),
            Method::Patch => lits::method_patch(),
            Method::Extension(t) => t@,
        }
    }

    /// The method that a token names.
    pub open spec fn spec_from_token(t: Seq<u8>) -> Method {
        if t == lits::method_get() {
            Method::Get
        } else if t == lits::method_head() {
            Method::Head
        } else if t == lits::method_post() {
            Method::Post
        } else if t == lits::method_put() {
            Method::Put
        } else if t == lits::method_delete() {
            Method::Delete
        } else if t == lits::method_connect() {
            Method::Connect
        } else if t == lits::method_options() {
            Method::Options
        } else if t == lits::method_trace() {
            Method::Trace
        } else if t == lits::method_patch() {
            Method::Patch
        } else {
            Method::Extension(arbitrary())
        }
    }

    /// The method that `s[lo..hi]` names.
    pub fn from_token(s: &[u8], lo: usize, hi: usize) -> (r: Method)
        requires
            lo <= hi <= s@.len(),
        ensures
            r.token() == s@.subrange(lo as int, hi as int),
            r is Extension <==> Self::spec_from_token(s@.subrange(lo as int, hi as int)) is Extension,
            !(r is Extension) ==> r == Self::spec_from_token(s@.subrange(lo as int, hi as int)),
    {
        let ghost t = s@.subrange(lo as int, hi as int);
        if slice_is(s, lo, hi, &lits::method_get_bytes()) {
            Method::Get
        } else if slice_is(s, lo, hi, &lits::method_head_bytes()) {
            Method::Head
        } else if slice_is(s, lo, hi, &lits::method_post_bytes()) {
            Method::Post
        } else if slice_is(s, lo, hi, &lits::method_put_bytes()) {
            Method::Put
        } else if slice_is(s, lo, hi, &lits::method_delete_bytes()) {
            Method::Delete
        } else if slice_is(s, lo, hi, &lits::method_connect_bytes()) {
            Method::Connect
        } else if slice_is(s, lo, hi, &lits::method_options_bytes()) {
            Method::Options
        } else if slice_is(s, lo, hi, &lits::method_trace_bytes()) {
            Method::Trace
        } else if slice_is(s, lo, hi, &lits::method_patch_bytes()) {
            Method::Patch
        } else {
            Method::Extension(copy_range(s, lo, hi))
        }
    }

    /// Whether this is the method of `w`.
    fn token_is(&self, w: &Vec<u8>) -> (r: bool)
        ensures
            r == (self.token() == w@),
    {
        let t = self.token_bytes();
        assert(t@.subrange(0, t@.len() as int) =~= t@);
        slice_is(t.as_slice(), 0, t.len(), w)
    }

    /// The token that names the method on the wire.
    pub fn token_bytes(&self) -> (r: Vec<u8>)
        ensures
            r@ == self.token(),
    {
        match self {
            Method::Get => lits::method_get_bytes(),
            Method::Head => lits::method_head_bytes(),
            Method::Post => lits::method_post_bytes(),
            Method::Put => lits::method_put_bytes(),
            Method::Delete => lits::method_delete_bytes(),
            Method::Connect => lits::method_connect_bytes(),
            Method::Options => lits::method_options_bytes(),
            Method::Trace => lits::method_trace_bytes(),
            Method::Patch => lits::method_patch_bytes(),
            Method::Extension(t) => t.clone(),
        }
    }

    /// Whether a request with this method may carry a body delimited by
    /// the close of the connection.
    pub fn allows_body(&self) -> (r: bool)
        ensures
            r == (self.token() == lits::method_post() || self.token() == lits::method_put()
                || self.token() == lits::method_patch()),
    {
        self.token_is(&lits::method_post_bytes()) || self.token_is(&lits::method_put_bytes())
            || self.token_is(&lits::method_patch_bytes())
    }

    pub fn is_head(&self) -> (r: bool)
        ensures
            r == (self.token() == lits::method_head()),
    {
        self.token_is(&lits::method_head_bytes())
    }

    pub fn is_connect(&self) -> (r: bool)
        ensures
            r == (self.token() == lits::method_connect()),
    {
        self.token_is(&lits::method_connect_bytes())
    }
}

/// Whether `s[lo..hi]` is exactly `w`.
pub fn slice_is(s: &[u8], lo: usize, hi: usize, w: &Vec<u8>) -> (r: bool)
    requires
        lo <= hi <= s@.len(),
    ensures
        r == (s@.subrange(lo as int, hi as int) == w@),
{
    if hi - lo != w.len() {
        return false;
    }
    let mut i: usize = 0;
    while i < w.len()
        invariant
            hi - lo == w@.len(),
            lo <= hi <= s@.len(),
            i <= w@.len(),
            forall|k: int| 0 <= k < i ==> s@[lo + k] == w@[k],
        decreases w@.len() - i,
    {
        if s[lo + i] != w[i] {
            assert(s@.subrange(lo as int, hi as int)[i as int] != w@[i as int]);
            return false;
        }
        i = i + 1;
    }
    assert(s@.subrange(lo as int, hi as int) =~= w@);
    true
}

/// A copy of `s[lo..hi]`.
pub fn copy_range(s: &[u8], lo: usize, hi: usize) -> (r: Vec<u8>)
    requires
        lo <= hi <= s@.len(),
    ensures
        r@ == s@.subrange(lo as int, hi as int),
{
    let mut r: Vec<u8> = Vec::new();
    let mut i: usize = lo;
    while i < hi
        invariant
            lo <= i <= hi <= s@.len(),
            r@ == s@.subrange(lo as int, i as int),
        decreases hi - i,
    {
        r.push(s[i]);
        i = i + 1;
        assert(r@ =~= s@.subrange(lo as int, i as int));
    }
    r
}

/// One header field: its name and its value, whitespace trimmed.
#[derive(Clone, PartialEq, Eq, Debug)]
pub struct Header {
    pub name: Vec<u8>,
    pub value: Vec<u8>,
}

impl View for Header {
    type V = (Seq<u8>, Seq<u8>);

    open spec fn view(&self) -> (Seq<u8>, Seq<u8>) {
        (self.name@, self.value@)
    }
}

/// The model of a header list.
pub open spec fn headers_view(hs: Seq<Header>) -> Seq<(Seq<u8>, Seq<u8>)> {
    hs.map_values(|h: Header| h@)
}

} // verus!
