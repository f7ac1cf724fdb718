//! The wire form of a request head, and the law that the decoder reads a
//! request back from it, with the body that follows.
use vstd::prelude::*;
use crate::decoder::{
    crlf, crlf2, decode_head, framing_of, parse_header_line, parse_headers, parse_request_line,
    HeadOutcome, RequestModel,
};
use crate::encoder::{field, version_text};
use crate::lits;
use crate::message::Version;
use crate::text::{
    is_ows, is_tchar, is_token, lemma_find_at, lemma_find_first, lemma_trim_after_space,
};

verus! {

pub open spec fn no_cr(s: Seq<u8>) -> bool {
    forall|i: int| 0 <= i < s.len() ==> s[i] != 13u8
}

/// A header that the wire form carries unchanged: a token name, and a value
/// without CR and without surrounding whitespace.
pub open spec fn valid_field(h: (Seq<u8>, Seq<u8>)) -> bool {
    is_token(h.0) && no_cr(h.1) && (h.1.len() > 0 ==> !is_ows(h.1[0]) && !is_ows(h.1.last()))
}

/// The header lines of `hs`, in order.
pub open spec fn header_text(hs: Seq<(Seq<u8>, Seq<u8>)>) -> Seq<u8>
    decreases hs.len(),
{
    if hs.len() == 0 {
        seq![]
    } else {
        field(hs[0].0, hs[0].1) + header_text(hs.drop_first())
    }
}

pub open spec fn request_line_text(m: Seq<u8>, path: Seq<u8>, v: Version) -> Seq<u8> {
    m + seq![32u8] + path + seq![32u8] + version_text(v)
}

/// A request head on the wire, blank line included.
pub open spec fn request_text(r: RequestModel) -> Seq<u8> {
    request_line_text(r.method, r.path, r.version) + crlf() + header_text(r.headers) + crlf()
}

/// A request that its wire form carries unchanged.
pub open spec fn valid_request(r: RequestModel) -> bool {
    &&& is_token(r.method)
    &&& r.path.len() > 0
    &&& forall|i: int| 0 <= i < r.path.len() ==> r.path[i] != 32u8 && r.path[i] != 13u8
    &&& forall|i: int| 0 <= i < r.headers.len() ==> valid_field(#[trigger] r.headers[i])
    &&& framing_of(r.headers) == Ok::<_, crate::message::ParseError>(r.framing)
}

proof fn lemma_token_no_cr(t: Seq<u8>)
    requires
        is_token(t),
    ensures
        no_cr(t),
        forall|i: int| 0 <= i < t.len() ==> t[i] != 32u8 && t[i] != 58u8,
{
}

proof fn lemma_request_line(m: Seq<u8>, path: Seq<u8>, v: Version)
    requires
        is_token(m),
        path.len() > 0,
        forall|i: int| 0 <= i < path.len() ==> path[i] != 32u8 && path[i] != 13u8,
    ensures
        parse_request_line(request_line_text(m, path, v)) == Ok::<_, crate::message::ParseError>((m, path, v)),
        no_cr(request_line_text(m, path, v)),
{
    let l = request_line_text(m, path, v);
    let a = m.len() as int;
    let b = a + 1 + path.len();
    lemma_token_no_cr(m);
    assert(l.subrange(a, a + 1) =~= seq![32u8]);
    lemma_find_first(l, seq![32u8], 0, a);
    assert(l.subrange(0, a) =~= m);
    assert(l.subrange(b, b + 1) =~= seq![32u8]);
    lemma_find_first(l, seq![32u8], a + 1, b);
    assert(l.subrange(a + 1, b) =~= path);
    assert(l.subrange(b + 1, l.len() as int) =~= version_text(v));
    assert(lits::version_10()[7] != lits::version_11()[7]);
}

proof fn lemma_header_line(h: (Seq<u8>, Seq<u8>))
    requires
        valid_field(h),
    ensures
        parse_header_line(h.0 + seq![58u8, 32] + h.1) == Some(h),
        no_cr(h.0 + seq![58u8, 32] + h.1),
{
    let l = h.0 + seq![58u8, 32] + h.1;
    let c = h.0.len() as int;
    lemma_token_no_cr(h.0);
    assert(l.subrange(c, c + 1) =~= seq![58u8]);
    lemma_find_first(l, seq![58u8], 0, c);
    assert(l.subrange(0, c) =~= h.0);
    assert(l.subrange(c + 1, l.len() as int) =~= seq![32u8] + h.1);
    lemma_trim_after_space(h.1);
}

proof fn lemma_parse_headers(r: Seq<u8>, p: int, hs: Seq<(Seq<u8>, Seq<u8>)>)
    requires
        0 <= p <= r.len(),
        r.subrange(p, r.len() as int) == header_text(hs),
        forall|i: int| 0 <= i < hs.len() ==> valid_field(#[trigger] hs[i]),
    ensures
        parse_headers(r, p) == Some(hs),
    decreases hs.len(),
{
    if hs.len() == 0 {
        assert(hs =~= Seq::<(Seq<u8>, Seq<u8>)>::empty());
    } else {
        let h = hs[0];
        assert(valid_field(hs[0]));
        let l = h.0 + seq![58u8, 32] + h.1;
        lemma_header_line(h);
        let ll = l.len() as int;
        let e = p + ll;
        assert(field(h.0, h.1) =~= l + crlf());
        assert(header_text(hs) == field(h.0, h.1) + header_text(hs.drop_first()));
        assert(r.len() - p == header_text(hs).len());
        assert(e + 2 <= r.len());
        assert(r.subrange(p, e + 2) =~= l + crlf()) by {
            assert(r.subrange(p, e + 2) =~= r.subrange(p, r.len() as int).subrange(0, ll + 2));
        }
        assert(r.subrange(e, e + 2) =~= crlf()) by {
            assert(r.subrange(e, e + 2) =~= r.subrange(p, e + 2).subrange(ll, ll + 2));
        }
        assert forall|j: int| p <= j < e implies r[j] != crlf()[0] by {
            assert(r[j] == r.subrange(p, e + 2)[j - p]);
        }
        lemma_find_first(r, crlf(), p, e);
        assert(r.subrange(p, e) =~= l) by {
            assert(r.subrange(p, e) =~= r.subrange(p, e + 2).subrange(0, ll));
        }
        assert forall|i: int| 0 <= i < hs.drop_first().len() implies valid_field(#[trigger] hs.drop_first()[i]) by {
            assert(hs.drop_first()[i] == hs[i + 1]);
        }
        assert(r.subrange(e + 2, r.len() as int) =~= header_text(hs.drop_first())) by {
            assert(r.subrange(e + 2, r.len() as int) =~= r.subrange(p, r.len() as int).subrange(
                ll + 2,
                r.len() - p,
            ));
        }
        lemma_parse_headers(r, e + 2, hs.drop_first());
        assert(seq![h] + hs.drop_first() =~= hs);
    }
}

/// A blank line (CR LF CR LF) starts at index `j` of `s`.
pub open spec fn blank_at(s: Seq<u8>, j: int) -> bool {
    s[j] == 13u8 && s[j + 1] == 10u8 && s[j + 2] == 13u8 && s[j + 3] == 10u8
}

proof fn lemma_no_blank_in_headers(hs: Seq<(Seq<u8>, Seq<u8>)>, rest: Seq<u8>)
    requires
        rest.len() > 0,
        forall|i: int| 0 <= i < hs.len() ==> valid_field(#[trigger] hs[i]),
    ensures
        forall|j: int| 0 <= j && j + 2 < header_text(hs).len() ==> !blank_at(header_text(hs) + rest, j),
    decreases hs.len(),
{
    if hs.len() > 0 {
        let h = hs[0];
        assert(valid_field(hs[0]));
        let tl = hs.drop_first();
        assert forall|i: int| 0 <= i < tl.len() implies valid_field(#[trigger] tl[i]) by {
            assert(tl[i] == hs[i + 1]);
        }
        lemma_no_blank_in_headers(tl, rest);
        lemma_header_line(h);
        let l = h.0 + seq![58u8, 32] + h.1;
        let f0 = field(h.0, h.1);
        assert(f0 =~= l + crlf());
        let tail = header_text(tl);
        let y = header_text(hs) + rest;
        let y2 = tail + rest;
        assert(y =~= f0 + y2);
        let n0 = f0.len() as int;
        assert forall|j: int| 0 <= j && j + 2 < header_text(hs).len() implies !blank_at(y, j) by {
            if j < n0 - 2 {
                assert(y[j] == l[j]);
            } else if j == n0 - 2 {
                assert(tl.len() > 0);
                assert(valid_field(tl[0]));
                assert(tail == field(tl[0].0, tl[0].1) + header_text(tl.drop_first()));
                assert(y[j + 2] == tl[0].0[0]);
                assert(is_tchar(tl[0].0[0]));
            } else if j == n0 - 1 {
                assert(y[j] == 10u8);
            } else {
                let k = j - n0;
                assert(y[j] == y2[k] && y[j + 1] == y2[k + 1] && y[j + 2] == y2[k + 2] && y[j + 3] == y2[k + 3]);
                assert(!blank_at(y2, k));
            }
        }
    }
}

/// A valid request head on the wire decodes as that request, and takes just
/// its own bytes, whatever follows it.
pub proof fn lemma_head_round_trip(r: RequestModel, rest: Seq<u8>, max_size: nat, max_headers: nat)
    requires
        valid_request(r),
        request_text(r).len() <= max_size,
        r.headers.len() <= max_headers,
    ensures
        decode_head(request_text(r) + rest, max_size, max_headers) == HeadOutcome::Parsed(
            r,
            request_text(r).len(),
        ),
{
    let line = request_line_text(r.method, r.path, r.version);
    let ht = header_text(r.headers);
    let s = request_text(r) + rest;
    let ln = line.len() as int;
    let hn = ht.len() as int;
    let e = ln + hn;
    lemma_request_line(r.method, r.path, r.version);
    lemma_no_blank_in_headers(r.headers, crlf() + rest);
    let y = ht + (crlf() + rest);
    assert(s =~= line + crlf() + y);
    assert(s.subrange(e, e + 4) =~= crlf2()) by {
        if hn == 0 {
            assert(s.subrange(e, e + 4) =~= crlf2());
        } else {
            assert(r.headers.len() > 0);
            let h = r.headers[0];
            assert(valid_field(r.headers[0]));
            let last = r.headers.last();
            lemma_fields_end(r.headers);
            assert(s[e] == 13u8 && s[e + 1] == 10u8);
            assert(s.subrange(e, e + 4) =~= crlf2());
        }
    }
    assert forall|j: int| 0 <= j < e implies #[trigger] s.subrange(j, j + crlf2().len()) != crlf2() by {
        if s.subrange(j, j + 4) == crlf2() {
            assert(s[j] == s.subrange(j, j + 4)[0]);
            assert(s[j + 1] == s.subrange(j, j + 4)[1]);
            assert(s[j + 2] == s.subrange(j, j + 4)[2]);
            assert(s[j + 3] == s.subrange(j, j + 4)[3]);
            if j < ln {
                assert(s[j] == line[j]);
            } else if j == ln {
                lemma_fields_start(r.headers);
                assert(s[j + 2] == ht[0]);
            } else if j == ln + 1 {
                assert(s[j] == 10u8);
            } else {
                let k = j - ln - 2;
                assert(s[j] == y[k] && s[j + 1] == y[k + 1] && s[j + 2] == y[k + 2] && s[j + 3] == y[k + 3]);
                assert(!blank_at(y, k));
            }
        }
    }
    lemma_find_at(s, crlf2(), 0, e);
    let rr = s.subrange(0, e + 2);
    assert(rr =~= line + crlf() + ht);
    assert(rr.subrange(ln, ln + 2) =~= crlf());
    assert forall|j: int| 0 <= j < ln implies rr[j] != crlf()[0] by {
        assert(rr[j] == line[j]);
    }
    lemma_find_first(rr, crlf(), 0, ln);
    assert(rr.subrange(0, ln) =~= line);
    assert(rr.subrange(ln + 2, rr.len() as int) =~= ht);
    lemma_parse_headers(rr, ln + 2, r.headers);
}

/// The header lines, where there are any, end with CR LF.
proof fn lemma_fields_end(hs: Seq<(Seq<u8>, Seq<u8>)>)
    requires
        hs.len() > 0,
    ensures
        header_text(hs).len() >= 2,
        header_text(hs)[header_text(hs).len() - 2] == 13u8,
        header_text(hs)[header_text(hs).len() - 1] == 10u8,
    decreases hs.len(),
{
    let f0 = field(hs[0].0, hs[0].1);
    let tl = hs.drop_first();
    if tl.len() > 0 {
        lemma_fields_end(tl);
    } else {
        assert(header_text(tl) =~= Seq::<u8>::empty());
    }
    assert(header_text(hs) == f0 + header_text(tl));
}

/// The header lines, where there are any, start with a token byte.
proof fn lemma_fields_start(hs: Seq<(Seq<u8>, Seq<u8>)>)
    requires
        hs.len() > 0,
        valid_field(hs[0]),
    ensures
        header_text(hs).len() > 0,
        header_text(hs)[0] != 13u8,
{
    assert(header_text(hs) == field(hs[0].0, hs[0].1) + header_text(hs.drop_first()));
    assert(header_text(hs)[0] == hs[0].0[0]);
    assert(is_tchar(hs[0].0[0]));
}

} // verus!
