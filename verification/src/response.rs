//! Response descriptors and their wire encoding.
//!
//! A handler produces a [`ResponseDescriptor`]; [`encode_response`] turns it
//! into bytes. A response is either the bodyless two-line form (status line,
//! CRLF, CRLF) or the full form with `Content-Type` and `Content-Length`
//! headers followed by the body. `Content-Length` is the exact byte length of
//! the body.

use vstd::prelude::*;

use crate::bytes::{append_bytes, ascii_bytes, lit_bytes, subvec};

verus! {

/// The status of a response: 200, 201 or 404.
#[derive(Clone, Copy, PartialEq, Eq, Structural, Debug)]
pub enum Status {
    Okay,
    Created,
    NotFound,
}

/// What a handler decided to send: a status, and for a full response a
/// content type and a body.
#[derive(Debug)]
pub struct ResponseDescriptor {
    pub status: Status,
    pub content_type: Option<Vec<u8>>,
    pub body: Option<Vec<u8>>,
}

/// The mathematical content of a [`ResponseDescriptor`].
pub ghost struct DescView {
    pub status: Status,
    pub content_type: Option<Seq<u8>>,
    pub body: Option<Seq<u8>>,
}

impl View for ResponseDescriptor {
    type V = DescView;

    open spec fn view(&self) -> DescView {
        DescView {
            status: self.status,
            content_type: match self.content_type {
                Some(ct) => Some(ct@),
                None => None,
            },
            body: match self.body {
                Some(b) => Some(b@),
                None => None,
            },
        }
    }
}

/// The two-byte CRLF line terminator.
pub open spec fn crlf() -> Seq<u8> {
    seq![13u8, 10u8]
}

/// The status line for `s`, without its terminator.
pub open spec fn status_line(s: Status) -> Seq<u8> {
    match s {
        Status::Okay => ascii_bytes("HTTP/1.1 200 OK"@),
        Status::Created => ascii_bytes("HTTP/1.1 201 CREATED"@),
        Status::NotFound => ascii_bytes("HTTP/1.1 404 Not Found"@),
    }
}

/// The decimal digits of `n`, most significant first.
pub open spec fn dec_rep(n: nat) -> Seq<u8>
    decreases n,
{
    if n < 10 {
        seq![(48 + n) as u8]
    } else {
        dec_rep(n / 10) + seq![(48 + n % 10) as u8]
    }
}

/// The number that a sequence of decimal digit bytes denotes.
pub open spec fn dec_val(ds: Seq<u8>) -> int
    decreases ds.len(),
{
    if ds.len() == 0 {
        0
    } else {
        dec_val(ds.drop_last()) * 10 + (ds.last() - 48)
    }
}

/// `dec_rep` really is the decimal representation: at least one byte, every
/// byte an ASCII digit, and the digits read back to `n`.
pub proof fn lemma_dec_rep_value(n: nat)
    ensures
        dec_rep(n).len() >= 1,
        forall|i: int| 0 <= i < dec_rep(n).len() ==> 48 <= #[trigger] dec_rep(n)[i] <= 57,
        dec_val(dec_rep(n)) == n,
    decreases n,
{
    if n < 10 {
        assert(dec_rep(n).drop_last() =~= Seq::<u8>::empty());
        assert(dec_rep(n).last() == (48 + n) as u8);
        assert(dec_val(dec_rep(n)) == dec_val(Seq::<u8>::empty()) * 10 + n);
        assert(dec_val(Seq::<u8>::empty()) == 0);
        assert(dec_val(dec_rep(n)) == n);
    } else {
        lemma_dec_rep_value(n / 10);
        assert(dec_rep(n).drop_last() =~= dec_rep(n / 10));
        assert(dec_rep(n).last() == (48 + n % 10) as u8);
        assert(dec_val(dec_rep(n)) == dec_val(dec_rep(n / 10)) * 10 + n % 10);
        assert(n == (n / 10) * 10 + n % 10);
        assert(dec_val(dec_rep(n)) == n);
        assert forall|i: int| 0 <= i < dec_rep(n).len() implies 48 <= #[trigger] dec_rep(
            n,
        )[i] <= 57 by {
            if i < dec_rep(n / 10).len() {
                assert(dec_rep(n)[i] == dec_rep(n / 10)[i]);
            }
        }
    }
}

/// The decimal digits of `n`, most significant first.
pub fn usize_to_dec(n: usize) -> (r: Vec<u8>)
    ensures
        r@ == dec_rep(n as nat),
    decreases n,
{
    if n < 10 {
        let mut r: Vec<u8> = Vec::new();
        r.push(48 + n as u8);
        proof {
            assert(r@ =~= dec_rep(n as nat));
        }
        r
    } else {
        let mut r = usize_to_dec(n / 10);
        r.push(48 + (n % 10) as u8);
        proof {
            assert(r@ =~= dec_rep(n as nat));
        }
        r
    }
}

/// A well-formed descriptor: a 404 never carries a content type or a body.
pub open spec fn desc_wf(d: DescView) -> bool {
    d.status == Status::NotFound ==> d.content_type is None && d.body is None
}

/// Whether `d` encodes in the full form, with headers and a body: a
/// non-missing, non-empty content type and body, and a status other than 404.
pub open spec fn encodes_with_body(d: DescView) -> bool {
    &&& d.status != Status::NotFound
    &&& d.content_type matches Some(ct) && ct.len() > 0
    &&& d.body matches Some(b) && b.len() > 0
}

/// The wire bytes of `d`: either the bodyless two-line form, or the status
/// line, a `Content-Type` header, a `Content-Length` header with the body's
/// exact byte length, a blank line, and the body.
pub open spec fn spec_encode(d: DescView) -> Seq<u8> {
    if encodes_with_body(d) {
        status_line(d.status) + crlf() + ascii_bytes("Content-Type: "@) + d.content_type.unwrap()
            + crlf() + ascii_bytes("Content-Length: "@) + dec_rep(d.body.unwrap().len()) + crlf()
            + crlf() + d.body.unwrap()
    } else {
        status_line(d.status) + crlf() + crlf()
    }
}

/// The encoded bodyless 404 response.
pub open spec fn not_found_bytes() -> Seq<u8> {
    status_line(Status::NotFound) + crlf() + crlf()
}

/// The encoded bodyless 201 response.
pub open spec fn created_bytes() -> Seq<u8> {
    status_line(Status::Created) + crlf() + crlf()
}

fn status_line_vec(s: Status) -> (r: Vec<u8>)
    ensures
        r@ == status_line(s),
{
    match s {
        Status::Okay => {
            proof {
                reveal_strlit("HTTP/1.1 200 OK");
            }
            lit_bytes("HTTP/1.1 200 OK")
        },
        Status::Created => {
            proof {
                reveal_strlit("HTTP/1.1 201 CREATED");
            }
            lit_bytes("HTTP/1.1 201 CREATED")
        },
        Status::NotFound => {
            proof {
                reveal_strlit("HTTP/1.1 404 Not Found");
            }
            lit_bytes("HTTP/1.1 404 Not Found")
        },
    }
}

fn push_crlf(r: &mut Vec<u8>)
    ensures
        final(r)@ == old(r)@ + crlf(),
{
    r.push(13);
    r.push(10);
    proof {
        assert(r@ =~= old(r)@ + crlf());
    }
}

/// Serializes `d` to wire bytes.
pub fn encode_response(d: &ResponseDescriptor) -> (r: Vec<u8>)
    ensures
        r@ == spec_encode(d@),
{
    let mut r = status_line_vec(d.status);
    push_crlf(&mut r);
    let with_body: bool = match (&d.status, &d.content_type, &d.body) {
        (Status::NotFound, _, _) => false,
        (_, Some(ct), Some(b)) => ct.len() > 0 && b.len() > 0,
        _ => false,
    };
    if with_body {
        proof {
            assert(encodes_with_body(d@));
        }
        let ct = match &d.content_type {
            Some(ct) => ct,
            None => unreached(),
        };
        let b = match &d.body {
            Some(b) => b,
            None => unreached(),
        };
        proof {
            reveal_strlit("Content-Type: ");
        }
        let header_ct = lit_bytes("Content-Type: ");
        append_bytes(&mut r, &header_ct);
        append_bytes(&mut r, ct);
        push_crlf(&mut r);
        proof {
            reveal_strlit("Content-Length: ");
        }
        let header_cl = lit_bytes("Content-Length: ");
        append_bytes(&mut r, &header_cl);
        let len_dec = usize_to_dec(b.len());
        append_bytes(&mut r, &len_dec);
        push_crlf(&mut r);
        push_crlf(&mut r);
        append_bytes(&mut r, b);
        proof {
            assert(r@ =~= spec_encode(d@));
        }
        r
    } else {
        push_crlf(&mut r);
        proof {
            assert(!encodes_with_body(d@));
            assert(r@ =~= spec_encode(d@));
        }
        r
    }
}

/// The whole 200 response for the given content type and content; an empty
/// content or content type yields the bodyless form.
pub fn response_ok(content_type: &Vec<u8>, content: &Vec<u8>) -> (r: Vec<u8>)
    ensures
        r@ == spec_encode(
            DescView {
                status: Status::Okay,
                content_type: Some(content_type@),
                body: Some(content@),
            },
        ),
{
    let ct = subvec(content_type, 0, content_type.len());
    let b = subvec(content, 0, content.len());
    proof {
        assert(ct@ =~= content_type@);
        assert(b@ =~= content@);
    }
    let d = ResponseDescriptor { status: Status::Okay, content_type: Some(ct), body: Some(b) };
    encode_response(&d)
}

/// The exact bodyless 201 response.
pub fn response_created() -> (r: Vec<u8>)
    ensures
        r@ == created_bytes(),
{
    let d = ResponseDescriptor { status: Status::Created, content_type: None, body: None };
    encode_response(&d)
}

/// The exact bodyless 404 response.
pub fn response_not_found() -> (r: Vec<u8>)
    ensures
        r@ == not_found_bytes(),
{
    let d = ResponseDescriptor { status: Status::NotFound, content_type: None, body: None };
    encode_response(&d)
}

} // verus!
