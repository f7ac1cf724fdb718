//! The per-connection HTTP/1 codec: the decoder and the encoder, bound
//! together by the connection's version, disposition and flags.
use vstd::prelude::*;
use crate::buffer::{buf_advance, buf_as_slice, buf_contents, buf_extend};
use crate::config::{KeepAlive, ServiceConfig};
use crate::decoder::{
    connection_type, crlf, decode_body, decode_body_exec, lemma_body_consumed, lemma_head_consumed, decode_head, parse_head,
    payload_of, BodyDecoder, BodyOutcome, HeadOutcome, RequestHead, RequestModel,
};
use crate::encoder::{encode_head, head_bytes, ResponseHead, ResponseModel};
use crate::lits;
use crate::message::{copy_range, BodySize, ConnectionType, ParseError, PayloadType, Version};
use crate::text::{find_from, lemma_find_first, lemma_hex_text_value, num_text, number, write_number};

verus! {

/// The current request's method is HEAD.
pub const FLAG_HEAD: u8 = 1;

/// The server's policy permits reusing connections.
pub const FLAG_KEEPALIVE_ENABLED: u8 = 2;

/// The current request's body is delimited by the close of the connection.
pub const FLAG_STREAM: u8 = 4;

pub open spec fn has_flag(f: u8, bit: u8) -> bool {
    f & bit != 0
}

/// `f` with `bit` set to `on`, the other flags kept.
fn set_flag(f: u8, bit: u8, on: bool) -> (r: u8)
    requires
        bit == FLAG_HEAD || bit == FLAG_KEEPALIVE_ENABLED || bit == FLAG_STREAM,
    ensures
        has_flag(r, bit) == on,
        bit != FLAG_HEAD ==> has_flag(r, FLAG_HEAD) == has_flag(f, FLAG_HEAD),
        bit != FLAG_KEEPALIVE_ENABLED ==> has_flag(r, FLAG_KEEPALIVE_ENABLED) == has_flag(f, FLAG_KEEPALIVE_ENABLED),
        bit != FLAG_STREAM ==> has_flag(r, FLAG_STREAM) == has_flag(f, FLAG_STREAM),
{
    if on {
        let r = f | bit;
        assert((r & bit != 0) && (bit != 1u8 ==> ((r & 1u8 != 0) == (f & 1u8 != 0))) && (bit != 2u8
            ==> ((r & 2u8 != 0) == (f & 2u8 != 0))) && (bit != 4u8 ==> ((r & 4u8 != 0) == (f & 4u8
            != 0)))) by (bit_vector)
            requires
                r == f | bit,
                bit == 1u8 || bit == 2u8 || bit == 4u8,
        ;
        r
    } else {
        let r = f & !bit;
        assert((r & bit == 0) && (bit != 1u8 ==> ((r & 1u8 != 0) == (f & 1u8 != 0))) && (bit != 2u8
            ==> ((r & 2u8 != 0) == (f & 2u8 != 0))) && (bit != 4u8 ==> ((r & 4u8 != 0) == (f & 4u8
            != 0)))) by (bit_vector)
            requires
                r == f & !bit,
                bit == 1u8 || bit == 2u8 || bit == 4u8,
        ;
        r
    }
}

fn get_flag(f: u8, bit: u8) -> (r: bool)
    ensures
        r == has_flag(f, bit),
{
    f & bit != 0
}

/// The state of the encoder of a response body.
#[derive(Clone, Copy, PartialEq, Eq, Debug, Structural)]
pub enum BodyEncoder {
    /// Awaiting the next response head.
    Idle,
    /// A sized body with this many bytes still to write.
    Length(u64),
    /// A chunked body.
    Chunked,
    /// A body delimited by the close of the connection.
    Raw,
    /// A body that is not written (a response to HEAD, or one without a body).
    Discard,
}

/// The body encoder that a response head starts.
/// A streamed body is chunked on HTTP/1.1 unless the request's body runs
/// until the close of the connection (`stream`).
pub open spec fn body_encoder_for(is_head: bool, stream: bool, v: Version, size: BodySize) -> BodyEncoder {
    if is_head {
        BodyEncoder::Discard
    } else {
        match size {
            BodySize::Sized(n) => BodyEncoder::Length(n),
            BodySize::Stream => if v == Version::Http11 && !stream { BodyEncoder::Chunked } else { BodyEncoder::Raw },
            _ => BodyEncoder::Discard,
        }
    }
}

/// One chunk of a chunked body on the wire.
pub open spec fn chunk_frame(b: Seq<u8>) -> Seq<u8> {
    num_text(b.len(), true) + crlf() + b + crlf()
}

/// The end of a chunked body on the wire.
pub open spec fn last_chunk() -> Seq<u8> {
    seq![48u8, 13, 10, 13, 10]
}

/// Encoding body bytes `b`: the encoder's next state and the bytes written.
pub open spec fn chunk_out(e: BodyEncoder, b: Seq<u8>) -> (BodyEncoder, Seq<u8>) {
    match e {
        BodyEncoder::Length(n) => {
            let k = if n < b.len() { n as int } else { b.len() as int };
            (BodyEncoder::Length((n - k) as u64), b.subrange(0, k))
        },
        BodyEncoder::Chunked => if b.len() == 0 { (e, seq![]) } else { (e, chunk_frame(b)) },
        BodyEncoder::Raw => (e, b),
        _ => (e, seq![]),
    }
}

/// Encoding the end of a body: the bytes written.
pub open spec fn eof_out(e: BodyEncoder) -> Seq<u8> {
    if e is Chunked { last_chunk() } else { seq![] }
}

/// A request, or a piece of a request body, out of the decoder.
#[derive(Debug)]
pub enum Decoded {
    Message(RequestHead, PayloadType),
    Chunk(Vec<u8>),
    Eof,
}

impl Decoded {
    pub fn message(&self) -> (r: &RequestHead)
        requires
            self is Message,
        ensures
            self matches Decoded::Message(h, _) && *r == h,
    {
        match self {
            Decoded::Message(h, _) => h,
            _ => vstd::pervasive::unreached(),
        }
    }

    pub fn chunk(&self) -> (r: &Vec<u8>)
        requires
            self is Chunk,
        ensures
            self matches Decoded::Chunk(b) && *r == b,
    {
        match self {
            Decoded::Chunk(b) => b,
            _ => vstd::pervasive::unreached(),
        }
    }

    pub fn eof(&self) -> (r: bool)
        ensures
            r == (self is Eof),
    {
        match self {
            Decoded::Eof => true,
            _ => false,
        }
    }
}

/// The model of what the decoder hands out.
pub enum DecodedModel {
    Message(RequestModel, PayloadType),
    Chunk(Seq<u8>),
    Eof,
}

pub open spec fn decoded_view(d: Decoded) -> DecodedModel {
    match d {
        Decoded::Message(h, p) => DecodedModel::Message(h@, p),
        Decoded::Chunk(b) => DecodedModel::Chunk(b@),
        Decoded::Eof => DecodedModel::Eof,
    }
}

pub open spec fn decode_result_view(r: Result<Option<Decoded>, ParseError>) -> Result<
    Option<DecodedModel>,
    ParseError,
> {
    match r {
        Ok(Some(d)) => Ok(Some(decoded_view(d))),
        Ok(None) => Ok(None),
        Err(e) => Err(e),
    }
}

/// What is written into the encoder.
#[derive(Debug)]
pub enum Message {
    /// A response head and the size hint of its body.
    Item(ResponseHead, BodySize),
    /// A piece of the body, or its end.
    Chunk(Option<Vec<u8>>),
}

pub enum MessageModel {
    Item(ResponseModel, BodySize),
    Chunk(Option<Seq<u8>>),
}

pub open spec fn message_view(m: Message) -> MessageModel {
    match m {
        Message::Item(r, s) => MessageModel::Item(r@, s),
        Message::Chunk(Some(b)) => MessageModel::Chunk(Some(b@)),
        Message::Chunk(None) => MessageModel::Chunk(None),
    }
}

/// The model of a codec.
pub struct CodecModel {
    pub keepalive_enabled: bool,
    pub head: bool,
    pub stream: bool,
    pub version: Version,
    pub ctype: ConnectionType,
    pub decoder: Option<BodyDecoder>,
    pub encoder: BodyEncoder,
    pub max_size: nat,
    pub max_headers: nat,
    pub date: Seq<u8>,
    pub keep_alive: KeepAlive,
    pub client_timeout: u64,
    pub client_shutdown: u64,
}

/// A codec state that the codec can reach: it keeps a connection alive only
/// where the policy permits it.
pub open spec fn codec_wf(c: CodecModel) -> bool {
    c.ctype == ConnectionType::KeepAlive ==> c.keepalive_enabled
}

/// The disposition that a decoded request leaves, under the server's policy.
pub open spec fn decoded_ctype(m: RequestModel, keepalive_enabled: bool) -> ConnectionType {
    if connection_type(m) == ConnectionType::KeepAlive && !keepalive_enabled {
        ConnectionType::Close
    } else {
        connection_type(m)
    }
}

/// One decode on the buffer `s`: the codec's next state, what is left in
/// the buffer, and the result.
pub open spec fn decode_step(c: CodecModel, s: Seq<u8>) -> (
    CodecModel,
    Seq<u8>,
    Result<Option<DecodedModel>, ParseError>,
) {
    match c.decoder {
        Some(d) => match decode_body(d, s) {
            BodyOutcome::NeedMore => (c, s, Ok(None)),
            BodyOutcome::Failed(e) => (c, s, Err(e)),
            BodyOutcome::Chunk(b, k, next) => (
                CodecModel { decoder: Some(next), ..c },
                s.subrange(k as int, s.len() as int),
                Ok(Some(DecodedModel::Chunk(b))),
            ),
            BodyOutcome::Eof(k) => (
                CodecModel { decoder: None, ..c },
                s.subrange(k as int, s.len() as int),
                Ok(Some(DecodedModel::Eof)),
            ),
        },
        None => match decode_head(s, c.max_size, c.max_headers) {
            HeadOutcome::NeedMore => (c, s, Ok(None)),
            HeadOutcome::Failed(e) => (c, s, Err(e)),
            HeadOutcome::Parsed(m, k) => (
                CodecModel {
                    head: m.method == lits::method_head(),
                    stream: payload_of(m).0 == PayloadType::Stream,
                    version: m.version,
                    ctype: decoded_ctype(m, c.keepalive_enabled),
                    decoder: payload_of(m).1,
                    ..c
                },
                s.subrange(k as int, s.len() as int),
                Ok(Some(DecodedModel::Message(m, payload_of(m).0))),
            ),
        },
    }
}

/// The disposition after a response head: the application's explicit
/// choice, except that asking for keep-alive keeps the codec's decision.
pub open spec fn response_ctype(current: ConnectionType, asked: Option<ConnectionType>) -> ConnectionType {
    match asked {
        Some(ConnectionType::Close) => ConnectionType::Close,
        Some(ConnectionType::Upgrade) => ConnectionType::Upgrade,
        _ => current,
    }
}

/// One encode of `m`: the codec's next state and the bytes written.
pub open spec fn encode_step(c: CodecModel, m: MessageModel) -> (CodecModel, Seq<u8>) {
    match m {
        MessageModel::Item(r, size) => {
            let ct = response_ctype(c.ctype, r.ctype);
            (
                CodecModel { ctype: ct, encoder: body_encoder_for(c.head, c.stream, c.version, size), ..c },
                head_bytes(r, c.version, c.stream, ct, size, c.date),
            )
        },
        MessageModel::Chunk(Some(b)) => {
            let (e, out) = chunk_out(c.encoder, b);
            (CodecModel { encoder: e, ..c }, out)
        },
        MessageModel::Chunk(None) => (CodecModel { encoder: BodyEncoder::Idle, ..c }, eof_out(c.encoder)),
    }
}

/// Why an encode failed: the output buffer cannot grow any further.
#[derive(Clone, Copy, PartialEq, Eq, Debug, Structural)]
pub enum EncodeError {
    BufferFull,
}

/// HTTP/1 codec of one connection.
#[derive(Debug)]
pub struct Codec {
    config: ServiceConfig,
    flags: u8,
    version: Version,
    ctype: ConnectionType,
    decoder: Option<BodyDecoder>,
    encoder: BodyEncoder,
}

impl Codec {
    /// The keep-alive flag follows the policy, and the connection is kept
    /// alive only where the policy permits it.
    #[verifier::type_invariant]
    spec fn inv(&self) -> bool {
        &&& has_flag(self.flags, FLAG_KEEPALIVE_ENABLED) == self.config.spec_keep_alive_enabled()
        &&& (self.ctype == ConnectionType::KeepAlive ==> has_flag(self.flags, FLAG_KEEPALIVE_ENABLED))
    }
}

impl View for Codec {
    type V = CodecModel;

    closed spec fn view(&self) -> CodecModel {
        CodecModel {
            keepalive_enabled: has_flag(self.flags, FLAG_KEEPALIVE_ENABLED),
            head: has_flag(self.flags, FLAG_HEAD),
            stream: has_flag(self.flags, FLAG_STREAM),
            version: self.version,
            ctype: self.ctype,
            decoder: self.decoder,
            encoder: self.encoder,
            max_size: self.config.max_head_size as nat,
            max_headers: self.config.max_headers as nat,
            date: self.config.date@,
            keep_alive: self.config.keep_alive,
            client_timeout: self.config.client_timeout,
            client_shutdown: self.config.client_shutdown,
        }
    }
}

impl Default for Codec {
    /// A codec under the default configuration.
    fn default() -> (r: Codec)
        ensures
            r@.keepalive_enabled,
            r@.version == Version::Http11,
            r@.ctype == ConnectionType::Close,
            r@.decoder is None,
            r@.encoder == BodyEncoder::Idle,
            codec_wf(r@),
    {
        Codec::new(ServiceConfig::default())
    }
}

/// Appends body bytes `b` in state `e`; returns the next state.
fn encode_chunk(e: BodyEncoder, b: &[u8], out: &mut Vec<u8>) -> (r: BodyEncoder)
    ensures
        r == chunk_out(e, b@).0,
        final(out)@ == old(out)@ + chunk_out(e, b@).1,
{
    match e {
        BodyEncoder::Length(n) => {
            let k: usize = if n < b.len() as u64 { n as usize } else { b.len() };
            let part = copy_range(b, 0, k);
            out.extend_from_slice(part.as_slice());
            BodyEncoder::Length(n - k as u64)
        },
        BodyEncoder::Chunked => {
            if b.len() > 0 {
                write_number(b.len() as u64, true, out);
                out.push(13u8);
                out.push(10u8);
                out.extend_from_slice(b);
                out.push(13u8);
                out.push(10u8);
                assert(out@ =~= old(out)@ + chunk_frame(b@));
            } else {
                assert(out@ =~= old(out)@ + seq![]);
            }
            e
        },
        BodyEncoder::Raw => {
            out.extend_from_slice(b);
            e
        },
        _ => {
            assert(out@ =~= old(out)@ + seq![]);
            e
        },
    }
}

impl Codec {
    /// A codec for a new connection under `config`.
    pub fn new(config: ServiceConfig) -> (r: Codec)
        ensures
            r@.keepalive_enabled == config.spec_keep_alive_enabled(),
            !r@.head,
            !r@.stream,
            r@.version == Version::Http11,
            r@.ctype == ConnectionType::Close,
            r@.decoder is None,
            r@.encoder == BodyEncoder::Idle,
            r@.max_size == config.max_head_size,
            r@.max_headers == config.max_headers,
            r@.date == config.date@,
            r@.keep_alive == config.keep_alive,
            r@.client_timeout == config.client_timeout,
            r@.client_shutdown == config.client_shutdown,
            codec_wf(r@),
    {
        let flags = if config.keep_alive_enabled() { FLAG_KEEPALIVE_ENABLED } else { 0 };
        assert(has_flag(2u8, 2u8) && !has_flag(2u8, 1u8) && !has_flag(2u8, 4u8)) by (bit_vector);
        assert(!has_flag(0u8, 2u8) && !has_flag(0u8, 1u8) && !has_flag(0u8, 4u8)) by (bit_vector);
        Codec {
            config,
            flags,
            version: Version::Http11,
            ctype: ConnectionType::Close,
            decoder: None,
            encoder: BodyEncoder::Idle,
        }
    }

    /// Whether the current request upgrades the connection.
    pub fn upgrade(&self) -> (r: bool)
        ensures
            r == (self@.ctype == ConnectionType::Upgrade),
    {
        self.ctype == ConnectionType::Upgrade
    }

    /// Whether the connection stays open after the current exchange.
    pub fn keepalive(&self) -> (r: bool)
        ensures
            r == (self@.ctype == ConnectionType::KeepAlive),
            codec_wf(self@),
    {
        proof {
            use_type_invariant(self);
        }
        self.ctype == ConnectionType::KeepAlive
    }

    /// Whether the server's policy permits keep-alive.
    pub fn keepalive_enabled(&self) -> (r: bool)
        ensures
            r == self@.keepalive_enabled,
            r == !(self@.keep_alive is Disabled),
            codec_wf(self@),
    {
        proof {
            use_type_invariant(self);
        }
        get_flag(self.flags, FLAG_KEEPALIVE_ENABLED)
    }

    /// The configuration that the codec was made with (with the current date).
    pub fn config(&self) -> (r: &ServiceConfig)
        ensures
            r.keep_alive == self@.keep_alive,
            r.client_timeout == self@.client_timeout,
            r.client_shutdown == self@.client_shutdown,
            r.max_head_size == self@.max_size,
            r.max_headers == self@.max_headers,
            r.date@ == self@.date,
    {
        &self.config
    }

    /// The connection disposition, and the version of the current request.
    pub fn ctype(&self) -> (r: (ConnectionType, Version))
        ensures
            r == (self@.ctype, self@.version),
    {
        (self.ctype, self.version)
    }

    /// Replaces the value of the `Date` header written from now on.
    pub fn set_date(&mut self, date: Vec<u8>)
        ensures
            final(self)@ == (CodecModel { date: date@, ..old(self)@ }),
    {
        proof {
            use_type_invariant(&*self);
        }
        self.config.date = date;
    }

    /// Decodes what the buffer holds: a request head, a piece of the current
    /// request's body, or its end; `Ok(None)` while more bytes are needed.
    /// What is decoded is removed from the buffer.
    pub fn decode(&mut self, src: &mut bytes::BytesMut) -> (r: Result<Option<Decoded>, ParseError>)
        ensures
            (final(self)@, buf_contents(*final(src)), decode_result_view(r)) == decode_step(
                old(self)@,
                buf_contents(*old(src)),
            ),
    {
        proof {
            use_type_invariant(&*self);
        }
        let s = buf_as_slice(src);
        match self.decoder {
            Some(d) => {
                let o = decode_body_exec(d, s);
                proof {
                    lemma_body_consumed(d, s@);
                }
                match o {
                    Err(e) => Err(e),
                    Ok(None) => Ok(None),
                    Ok(Some((Some(b), k, next))) => {
                        buf_advance(src, k);
                        self.decoder = Some(next);
                        Ok(Some(Decoded::Chunk(b)))
                    },
                    Ok(Some((None, k, _))) => {
                        buf_advance(src, k);
                        self.decoder = None;
                        Ok(Some(Decoded::Eof))
                    },
                }
            },
            None => {
                let o = parse_head(s, self.config.max_head_size, self.config.max_headers);
                match o {
                    Err(e) => Err(e),
                    Ok(None) => Ok(None),
                    Ok(Some((head, k))) => {
                        let is_head = head.method.is_head();
                        self.flags = set_flag(self.flags, FLAG_HEAD, is_head);
                        self.version = head.version;
                        let mut ct = head.connection_type();
                        if ct == ConnectionType::KeepAlive && !get_flag(self.flags, FLAG_KEEPALIVE_ENABLED) {
                            ct = ConnectionType::Close;
                        }
                        self.ctype = ct;
                        let (pt, bd) = head.payload();
                        self.flags = set_flag(self.flags, FLAG_STREAM, pt == PayloadType::Stream);
                        self.decoder = bd;
                        proof {
                            lemma_head_consumed(s@, self.config.max_head_size as nat, self.config.max_headers as nat);
                        }
                        buf_advance(src, k);
                        Ok(Some(Decoded::Message(head, pt)))
                    },
                }
            },
        }
    }

    /// Encodes a response head, a piece of its body, or its end, into `dst`.
    /// Fails, changing nothing, only where the buffer cannot take the bytes.
    pub fn encode(&mut self, item: Message, dst: &mut bytes::BytesMut) -> (r: Result<(), EncodeError>)
        ensures
            r is Ok <==> buf_contents(*old(dst)).len() + encode_step(old(self)@, message_view(item)).1.len()
                <= isize::MAX,
            r is Ok ==> final(self)@ == encode_step(old(self)@, message_view(item)).0,
            r is Ok ==> buf_contents(*final(dst)) == buf_contents(*old(dst)) + encode_step(
                old(self)@,
                message_view(item),
            ).1,
            r is Err ==> final(self)@ == old(self)@ && buf_contents(*final(dst)) == buf_contents(*old(dst)),
            buf_contents(*old(dst)).len() <= isize::MAX,
    {
        proof {
            use_type_invariant(&*self);
        }
        let mut out: Vec<u8> = Vec::new();
        let ghost m = message_view(item);
        let (ctype, enc) = match &item {
            Message::Item(res, size) => {
                let ct = match res.ctype {
                    Some(ConnectionType::Close) => ConnectionType::Close,
                    Some(ConnectionType::Upgrade) => ConnectionType::Upgrade,
                    _ => self.ctype,
                };
                let stream = get_flag(self.flags, FLAG_STREAM);
                encode_head(res, self.version, stream, ct, *size, self.config.date.as_slice(), &mut out);
                let is_head = get_flag(self.flags, FLAG_HEAD);
                let enc = if is_head {
                    BodyEncoder::Discard
                } else {
                    match size {
                        BodySize::Sized(n) => BodyEncoder::Length(*n),
                        BodySize::Stream => if self.version == Version::Http11 && !stream {
                            BodyEncoder::Chunked
                        } else {
                            BodyEncoder::Raw
                        },
                        _ => BodyEncoder::Discard,
                    }
                };
                (ct, enc)
            },
            Message::Chunk(Some(b)) => {
                let enc = encode_chunk(self.encoder, b.as_slice(), &mut out);
                (self.ctype, enc)
            },
            Message::Chunk(None) => {
                if self.encoder == BodyEncoder::Chunked {
                    out.push(48u8);
                    out.push(13u8);
                    out.push(10u8);
                    out.push(13u8);
                    out.push(10u8);
                }
                assert(out@ =~= seq![] + eof_out(self.encoder));
                (self.ctype, BodyEncoder::Idle)
            },
        };
        assert(out@ =~= encode_step(self@, m).1);
        let len = buf_as_slice(dst).len();
        if len > isize::MAX as usize || out.len() > isize::MAX as usize - len {
            return Err(EncodeError::BufferFull);
        }
        buf_extend(dst, out.as_slice());
        self.ctype = ctype;
        self.encoder = enc;
        Ok(())
    }
}

/// Decoding and encoding keep a codec well formed: a connection is only kept
/// alive where the policy permits it.
pub proof fn lemma_wf_preserved(c: CodecModel, s: Seq<u8>, m: MessageModel)
    requires
        codec_wf(c),
    ensures
        codec_wf(decode_step(c, s).0),
        codec_wf(encode_step(c, m).0),
        decode_step(c, s).0.keepalive_enabled == c.keepalive_enabled,
        encode_step(c, m).0.keepalive_enabled == c.keepalive_enabled,
{
}

/// With keep-alive disabled by the server, a decode followed by an encode
/// never leaves the connection to be kept alive.
pub proof fn lemma_keepalive_disabled(c: CodecModel, s: Seq<u8>, m: MessageModel)
    requires
        codec_wf(c),
        !c.keepalive_enabled,
    ensures
        encode_step(decode_step(c, s).0, m).0.ctype != ConnectionType::KeepAlive,
{
    lemma_wf_preserved(c, s, m);
    lemma_wf_preserved(decode_step(c, s).0, s, m);
}

/// After the end of a body the encoder awaits a new head, and a response
/// head is then written whole, with no reset in between.
pub proof fn lemma_eof_then_item(c: CodecModel, r: ResponseModel, size: BodySize)
    ensures
        encode_step(c, MessageModel::Chunk(None)).0.encoder == BodyEncoder::Idle,
        encode_step(encode_step(c, MessageModel::Chunk(None)).0, MessageModel::Item(r, size)).1
            == head_bytes(r, c.version, c.stream, response_ctype(c.ctype, r.ctype), size, c.date),
        encode_step(encode_step(c, MessageModel::Chunk(None)).0, MessageModel::Item(r, size)).0.encoder
            == body_encoder_for(c.head, c.stream, c.version, size),
{
}

/// After a HEAD request is decoded and the response head is encoded, a piece
/// of body writes nothing and leaves the codec as it was, however many come.
pub proof fn lemma_head_request_has_no_body(
    c: CodecModel,
    s: Seq<u8>,
    r: ResponseModel,
    size: BodySize,
    b: Seq<u8>,
)
    requires
        decode_step(c, s).2 matches Ok(Some(DecodedModel::Message(m, _))) && m.method
            == lits::method_head(),
    ensures
        ({
            let c2 = encode_step(decode_step(c, s).0, MessageModel::Item(r, size)).0;
            encode_step(c2, MessageModel::Chunk(Some(b))).1 == Seq::<u8>::empty()
                && encode_step(c2, MessageModel::Chunk(Some(b))).0 == c2
        }),
{
}

/// A piece of body with no bytes writes nothing and changes nothing, in
/// every encoder state: in particular it does not end a chunked body.
pub proof fn lemma_empty_chunk(c: CodecModel)
    ensures
        encode_step(c, MessageModel::Chunk(Some(Seq::<u8>::empty()))).1 == Seq::<u8>::empty(),
        encode_step(c, MessageModel::Chunk(Some(Seq::<u8>::empty()))).0 == c,
{
    assert(Seq::<u8>::empty().subrange(0, 0) =~= Seq::<u8>::empty());
}

/// Encoding the pieces `cs` in turn: the codec's next state and the bytes written.
pub open spec fn encode_chunks(c: CodecModel, cs: Seq<Seq<u8>>) -> (CodecModel, Seq<u8>)
    decreases cs.len(),
{
    if cs.len() == 0 {
        (c, seq![])
    } else {
        let first = encode_step(c, MessageModel::Chunk(Some(cs[0])));
        let rest = encode_chunks(first.0, cs.drop_first());
        (rest.0, first.1 + rest.1)
    }
}

/// The frames of the non-empty pieces of `cs`, in order.
pub open spec fn chunk_frames(cs: Seq<Seq<u8>>) -> Seq<u8>
    decreases cs.len(),
{
    if cs.len() == 0 {
        seq![]
    } else {
        (if cs[0].len() == 0 { seq![] } else { chunk_frame(cs[0]) }) + chunk_frames(cs.drop_first())
    }
}

/// In a chunked body, the pieces `cs` and then the end are written as
/// `hex(len) CRLF bytes CRLF` for each non-empty piece, then `0 CRLF CRLF`.
pub proof fn lemma_chunked_body(c: CodecModel, cs: Seq<Seq<u8>>)
    requires
        c.encoder == BodyEncoder::Chunked,
    ensures
        encode_chunks(c, cs).0.encoder == BodyEncoder::Chunked,
        encode_chunks(c, cs).1 + encode_step(encode_chunks(c, cs).0, MessageModel::Chunk(None)).1
            == chunk_frames(cs) + last_chunk(),
    decreases cs.len(),
{
    if cs.len() > 0 {
        let first = encode_step(c, MessageModel::Chunk(Some(cs[0])));
        lemma_chunked_body(first.0, cs.drop_first());
        assert(encode_chunks(c, cs).1 + last_chunk() =~= first.1 + (encode_chunks(
            first.0,
            cs.drop_first(),
        ).1 + last_chunk()));
    } else {
        assert(encode_chunks(c, cs).1 + last_chunk() =~= chunk_frames(cs) + last_chunk());
    }
}

/// A buffer that holds no complete head yet is left as it is, so a head
/// that arrives in two parts decodes as if it had arrived whole.
pub proof fn lemma_split_head(c: CodecModel, p: Seq<u8>, q: Seq<u8>)
    requires
        c.decoder is None,
        find_from(p, crate::decoder::crlf2(), 0) is None,
        p.len() <= c.max_size,
    ensures
        decode_step(c, p) == (c, p, Ok::<Option<DecodedModel>, ParseError>(None)),
        decode_step(decode_step(c, p).0, decode_step(c, p).1 + q) == decode_step(c, p + q),
{
}

/// A complete request head `h`, cut anywhere into a first part and the
/// rest: the first part alone leaves the codec and the buffer as they were,
/// so once the rest arrives the head decodes as if it had arrived whole.
pub proof fn lemma_split_complete_head(c: CodecModel, h: Seq<u8>, k: int, more: Seq<u8>)
    requires
        c.decoder is None,
        h.len() >= 4,
        find_from(h, crate::decoder::crlf2(), 0) == Some(h.len() - 4),
        h.len() <= c.max_size,
        0 <= k < h.len(),
    ensures
        decode_step(c, h.subrange(0, k)) == (c, h.subrange(0, k), Ok::<Option<DecodedModel>, ParseError>(None)),
        decode_step(c, h.subrange(0, k) + (h.subrange(k, h.len() as int) + more)) == decode_step(c, h + more),
{
    crate::text::lemma_find_none_in_prefix(h, crate::decoder::crlf2(), 0, h.len() - 4, k);
    assert(h.subrange(0, k) + (h.subrange(k, h.len() as int) + more) =~= h + more);
}

/// A chunk frame that the encoder writes decodes back to the same bytes,
/// whatever follows it.
pub proof fn lemma_chunk_frame_decodes(b: Seq<u8>, rest: Seq<u8>)
    requires
        0 < b.len() <= u64::MAX,
    ensures
        decode_body(BodyDecoder::Chunked, chunk_frame(b) + rest) == BodyOutcome::Chunk(
            b,
            chunk_frame(b).len(),
            BodyDecoder::Chunked,
        ),
{
    let h = num_text(b.len(), true);
    let s = chunk_frame(b) + rest;
    let k = h.len() as int;
    let n = b.len() as int;
    lemma_hex_text_value(b.len());
    assert forall|j: int| 0 <= j < k implies s[j] != crlf()[0] by {
        assert(s[j] == h[j]);
        assert(crate::text::is_digit(h[j], 16));
    }
    assert(s.subrange(k, k + 2) =~= crlf());
    lemma_find_first(s, crlf(), 0, k);
    assert(s.subrange(0, k) =~= h);
    assert(number(h, 16) == Some(b.len() as u64));
    assert(s.subrange(k + 2 + n, k + 4 + n) =~= crlf());
    assert(s.subrange(k + 2, k + 2 + n) =~= b);
}

/// The end of a chunked body that the encoder writes ends the body at the
/// decoder, and leaves what follows in the buffer.
pub proof fn lemma_last_chunk_decodes(rest: Seq<u8>)
    ensures
        decode_body(BodyDecoder::Chunked, last_chunk() + rest) == BodyOutcome::Eof(5),
{
    let s = last_chunk() + rest;
    assert(s.subrange(1, 3) =~= crlf());
    lemma_find_first(s, crlf(), 0, 1);
    assert(s.subrange(0, 1) =~= seq![48u8]);
    assert(seq![48u8].drop_last() =~= Seq::<u8>::empty());
    assert(crate::text::num_value(seq![48u8], 16) == crate::text::num_value(Seq::<u8>::empty(), 16) * 16 + 0);
    assert(crate::text::is_number(seq![48u8], 16));
    assert(number(s.subrange(0, 1), 16) == Some(0u64));
    assert(s.subrange(3, 5) =~= crlf());
}

/// A sized body of `n` bytes decodes as those bytes and then its end, and
/// leaves what follows in the buffer.
pub proof fn lemma_sized_body_decodes(b: Seq<u8>, rest: Seq<u8>)
    requires
        0 < b.len() <= u64::MAX,
    ensures
        decode_body(BodyDecoder::Length(b.len() as u64), b + rest) == BodyOutcome::Chunk(
            b,
            b.len(),
            BodyDecoder::Length(0),
        ),
        decode_body(BodyDecoder::Length(0), rest) == BodyOutcome::Eof(0),
{
    assert((b + rest).subrange(0, b.len() as int) =~= b);
}

/// A valid request whose framing gives the length of its body `body`,
/// decoded from its wire form followed by the body, comes out as that request
/// and then exactly that body and its end.
pub proof fn lemma_request_round_trip(c: CodecModel, r: RequestModel, body: Seq<u8>)
    requires
        c.decoder is None,
        crate::wire::valid_request(r),
        crate::wire::request_text(r).len() <= c.max_size,
        r.headers.len() <= c.max_headers,
        body.len() <= u64::MAX,
        payload_of(r).1 == (if body.len() == 0 {
            None
        } else {
            Some(BodyDecoder::Length(body.len() as u64))
        }),
    ensures
        ({
            let (c1, s1, o1) = decode_step(c, crate::wire::request_text(r) + body);
            &&& o1 == Ok::<_, ParseError>(Some(DecodedModel::Message(r, payload_of(r).0)))
            &&& s1 == body
            &&& body.len() == 0 ==> c1.decoder is None
            &&& body.len() > 0 ==> {
                let (c2, s2, o2) = decode_step(c1, s1);
                &&& o2 == Ok::<_, ParseError>(Some(DecodedModel::Chunk(body)))
                &&& s2 == Seq::<u8>::empty()
                &&& decode_step(c2, s2).2 == Ok::<_, ParseError>(Some(DecodedModel::Eof))
            }
        }),
{
    let text = crate::wire::request_text(r);
    crate::wire::lemma_head_round_trip(r, body, c.max_size, c.max_headers);
    assert((text + body).subrange(text.len() as int, (text + body).len() as int) =~= body);
    if body.len() > 0 {
        lemma_sized_body_decodes(body, Seq::<u8>::empty());
        assert(body + Seq::<u8>::empty() =~= body);
        assert(body.subrange(body.len() as int, body.len() as int) =~= Seq::<u8>::empty());
    }
}

/// A response with a sized body, to a request other than HEAD, goes on the
/// wire as its head (which carries `content-length: n`) followed by exactly
/// the `n` body bytes, and nothing at its end.
pub proof fn lemma_sized_response(c: CodecModel, r: ResponseModel, b: Seq<u8>)
    requires
        !c.head,
        b.len() <= u64::MAX,
    ensures
        ({
            let size = BodySize::Sized(b.len() as u64);
            let (c1, o1) = encode_step(c, MessageModel::Item(r, size));
            let (c2, o2) = encode_step(c1, MessageModel::Chunk(Some(b)));
            let (c3, o3) = encode_step(c2, MessageModel::Chunk(None));
            &&& o1 == head_bytes(r, c.version, c.stream, response_ctype(c.ctype, r.ctype), size, c.date)
            &&& o2 == b
            &&& o3 == Seq::<u8>::empty()
            &&& c3.encoder == BodyEncoder::Idle
        }),
{
    assert(b.subrange(0, b.len() as int) =~= b);
}

/// Decoding `n` times in turn: the codec's next state, what is left in the
/// buffer, and the results in order.
pub open spec fn decode_times(c: CodecModel, s: Seq<u8>, n: nat) -> (
    CodecModel,
    Seq<u8>,
    Seq<Result<Option<DecodedModel>, ParseError>>,
)
    decreases n,
{
    if n == 0 {
        (c, s, seq![])
    } else {
        let first = decode_step(c, s);
        let rest = decode_times(first.0, first.1, (n - 1) as nat);
        (rest.0, rest.1, seq![first.2] + rest.2)
    }
}

/// The results of decoding the pieces `cs` of a body, then its end.
pub open spec fn body_results(cs: Seq<Seq<u8>>) -> Seq<Result<Option<DecodedModel>, ParseError>> {
    cs.map_values(|b: Seq<u8>| Ok::<_, ParseError>(Some(DecodedModel::Chunk(b)))) + seq![
        Ok::<_, ParseError>(Some(DecodedModel::Eof)),
    ]
}

/// A chunked body in the form that the encoder writes decodes as its pieces
/// and then its end, and leaves what follows in the buffer.
pub proof fn lemma_chunked_body_decodes(c: CodecModel, cs: Seq<Seq<u8>>, rest: Seq<u8>)
    requires
        c.decoder == Some(BodyDecoder::Chunked),
        forall|i: int| 0 <= i < cs.len() ==> 0 < (#[trigger] cs[i]).len() <= u64::MAX,
    ensures
        decode_times(c, chunk_frames(cs) + last_chunk() + rest, cs.len() + 1) == (
            CodecModel { decoder: None, ..c },
            rest,
            body_results(cs),
        ),
    decreases cs.len(),
{
    let s = chunk_frames(cs) + last_chunk() + rest;
    if cs.len() == 0 {
        assert(s =~= last_chunk() + rest);
        lemma_last_chunk_decodes(rest);
        assert(s.subrange(5, s.len() as int) =~= rest);
        let first = decode_step(c, s);
        assert(first.0 == CodecModel { decoder: None, ..c });
        assert(first.1 == rest);
        assert(decode_times(first.0, first.1, 0) == (first.0, first.1, Seq::<Result<Option<DecodedModel>, ParseError>>::empty()));
        assert(seq![first.2] + Seq::<Result<Option<DecodedModel>, ParseError>>::empty() =~= seq![first.2]);
        assert(body_results(cs) =~= seq![Ok::<_, ParseError>(Some(DecodedModel::Eof))]);
    } else {
        let tl = cs.drop_first();
        assert(0 < cs[0].len() <= u64::MAX);
        assert forall|i: int| 0 <= i < tl.len() implies 0 < (#[trigger] tl[i]).len() <= u64::MAX by {
            assert(tl[i] == cs[i + 1]);
        }
        let after = chunk_frames(tl) + last_chunk() + rest;
        assert(s =~= chunk_frame(cs[0]) + after);
        lemma_chunk_frame_decodes(cs[0], after);
        assert(s.subrange(chunk_frame(cs[0]).len() as int, s.len() as int) =~= after);
        lemma_chunked_body_decodes(c, tl, rest);
        assert(body_results(cs) =~= seq![Ok::<_, ParseError>(Some(DecodedModel::Chunk(cs[0])))] + body_results(tl));
    }
}

/// A valid request with a chunked body, decoded from its wire form followed
/// by the body in chunked form, comes out as that request, then exactly the
/// pieces of the body, then its end, with nothing left over.
pub proof fn lemma_chunked_request_round_trip(c: CodecModel, r: RequestModel, cs: Seq<Seq<u8>>)
    requires
        c.decoder is None,
        crate::wire::valid_request(r),
        crate::wire::request_text(r).len() <= c.max_size,
        r.headers.len() <= c.max_headers,
        payload_of(r).1 == Some(BodyDecoder::Chunked),
        forall|i: int| 0 <= i < cs.len() ==> 0 < (#[trigger] cs[i]).len() <= u64::MAX,
    ensures
        ({
            let res = decode_times(c, crate::wire::request_text(r) + (chunk_frames(cs) + last_chunk()), cs.len() + 2);
            &&& res.0.decoder is None
            &&& res.1 == Seq::<u8>::empty()
            &&& res.2 == seq![Ok::<_, ParseError>(Some(DecodedModel::Message(r, payload_of(r).0)))] + body_results(cs)
        }),
{
    let text = crate::wire::request_text(r);
    let body = chunk_frames(cs) + last_chunk();
    let s = text + body;
    crate::wire::lemma_head_round_trip(r, body, c.max_size, c.max_headers);
    assert(s.subrange(text.len() as int, s.len() as int) =~= body);
    let c1 = decode_step(c, s).0;
    assert(body =~= chunk_frames(cs) + last_chunk() + Seq::<u8>::empty());
    lemma_chunked_body_decodes(c1, cs, Seq::<u8>::empty());
    assert(decode_times(c, s, cs.len() + 2).2 =~= seq![decode_step(c, s).2] + decode_times(c1, body, cs.len() + 1).2);
}

/// Three valid requests without a body, pipelined in one buffer, decode in
/// order as those three requests, each without a payload, and leave the
/// buffer empty.
pub proof fn lemma_pipelined_requests(c: CodecModel, r1: RequestModel, r2: RequestModel, r3: RequestModel)
    requires
        c.decoder is None,
        crate::wire::valid_request(r1),
        crate::wire::valid_request(r2),
        crate::wire::valid_request(r3),
        crate::wire::request_text(r1).len() <= c.max_size,
        crate::wire::request_text(r2).len() <= c.max_size,
        crate::wire::request_text(r3).len() <= c.max_size,
        r1.headers.len() <= c.max_headers,
        r2.headers.len() <= c.max_headers,
        r3.headers.len() <= c.max_headers,
        payload_of(r1) == (PayloadType::Absent, None::<BodyDecoder>),
        payload_of(r2) == (PayloadType::Absent, None::<BodyDecoder>),
        payload_of(r3) == (PayloadType::Absent, None::<BodyDecoder>),
    ensures
        ({
            let t1 = crate::wire::request_text(r1);
            let t2 = crate::wire::request_text(r2);
            let t3 = crate::wire::request_text(r3);
            let res = decode_times(c, t1 + t2 + t3, 3);
            &&& res.1 == Seq::<u8>::empty()
            &&& res.2 == seq![
                Ok::<_, ParseError>(Some(DecodedModel::Message(r1, PayloadType::Absent))),
                Ok::<_, ParseError>(Some(DecodedModel::Message(r2, PayloadType::Absent))),
                Ok::<_, ParseError>(Some(DecodedModel::Message(r3, PayloadType::Absent))),
            ]
        }),
{
    let t1 = crate::wire::request_text(r1);
    let t2 = crate::wire::request_text(r2);
    let t3 = crate::wire::request_text(r3);
    let s = t1 + t2 + t3;
    assert(s =~= t1 + (t2 + t3));
    crate::wire::lemma_head_round_trip(r1, t2 + t3, c.max_size, c.max_headers);
    let d1 = decode_step(c, s);
    assert(s.subrange(t1.len() as int, s.len() as int) =~= t2 + t3);
    let c1 = d1.0;
    crate::wire::lemma_head_round_trip(r2, t3, c1.max_size, c1.max_headers);
    let d2 = decode_step(c1, t2 + t3);
    assert((t2 + t3).subrange(t2.len() as int, (t2 + t3).len() as int) =~= t3);
    let c2 = d2.0;
    crate::wire::lemma_head_round_trip(r3, Seq::<u8>::empty(), c2.max_size, c2.max_headers);
    assert(t3 + Seq::<u8>::empty() =~= t3);
    let d3 = decode_step(c2, t3);
    assert(t3.subrange(t3.len() as int, t3.len() as int) =~= Seq::<u8>::empty());
    let empty_results = Seq::<Result<Option<DecodedModel>, ParseError>>::empty();
    assert(decode_times(d3.0, d3.1, 0).2 == empty_results);
    assert(decode_times(c2, t3, 1).2 =~= seq![d3.2]);
    assert(decode_times(c1, t2 + t3, 2).2 =~= seq![d2.2, d3.2]);
    assert(decode_times(c, s, 3).2 =~= seq![d1.2, d2.2, d3.2]);
}

} // verus!
