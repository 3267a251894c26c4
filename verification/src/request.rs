//! The frame parser: from the raw bytes read off a connection to a
//! structured [`Request`], and the startup scan for the `--directory` flag.
//!
//! Raw bytes are decoded as text with invalid sequences replaced, trimmed,
//! and split on CRLF into lines. The first line is the request line, split on
//! whitespace into tokens; fewer than two tokens is a parse failure. The line
//! at index 2, when present, is taken as the `User-Agent` header line (a
//! fixed position, not a header-name search), and the last line of the buffer
//! as the body. This positional reading is a deliberate simplification and is
//! wrong for requests with a different number of headers.

use vstd::prelude::*;

use crate::bytes::{all_ascii_bytes, ascii_bytes, bytes_eq, copy_bytes, lit_bytes};
use crate::split::{split_crlf, split_crlf_vec, split_ws, trim_bytes, trim_ws, ws_tokens};

verus! {

/// A parsed request: a method, a path, the line at the `User-Agent`
/// position when the request had one, and the last line as body.
#[derive(Debug)]
pub struct Request {
    pub method: Vec<u8>,
    pub path: Vec<u8>,
    pub user_agent: Option<Vec<u8>>,
    pub body: Vec<u8>,
}

/// The mathematical content of a [`Request`].
pub ghost struct ReqView {
    pub method: Seq<u8>,
    pub path: Seq<u8>,
    pub user_agent: Option<Seq<u8>>,
    pub body: Seq<u8>,
}

impl View for Request {
    type V = ReqView;

    open spec fn view(&self) -> ReqView {
        ReqView {
            method: self.method@,
            path: self.path@,
            user_agent: match self.user_agent {
                Some(ua) => Some(ua@),
                None => None,
            },
            body: self.body@,
        }
    }
}

/// The text that the raw bytes of a connection decode to, with invalid UTF-8
/// sequences replaced; left without a definition, since its value comes from
/// the decoder alone.
pub uninterp spec fn lossy_of(b: Seq<u8>) -> Seq<u8>;

/// Relies on `String::from_utf8_lossy`: the decoded text is a function of the
/// bytes alone, and valid UTF-8 — in particular pure ASCII — comes back
/// unchanged.
#[verifier::external_body]
pub(crate) fn decode_lossy(b: &Vec<u8>) -> (r: Vec<u8>)
    ensures
        r@ == lossy_of(b@),
        all_ascii_bytes(b@) ==> r@ == b@,
{
    String::from_utf8_lossy(b.as_slice()).into_owned().into_bytes()
}

/// The lines of a decoded request buffer: trimmed, then split on CRLF.
pub open spec fn request_lines(decoded: Seq<u8>) -> Seq<Seq<u8>> {
    split_crlf(trim_ws(decoded))
}

/// What parsing a sequence of request lines yields: `None` exactly when the
/// request line has fewer than two whitespace-separated tokens (or there are
/// no lines at all); otherwise the first token is the method, the second the
/// path, the line at index 2 (if present) the user-agent line, and the last
/// line the body.
pub open spec fn spec_parse(lines: Seq<Seq<u8>>) -> Option<ReqView> {
    if lines.len() == 0 {
        None
    } else {
        let toks = ws_tokens(lines[0]);
        if toks.len() < 2 {
            None
        } else {
            Some(
                ReqView {
                    method: toks[0],
                    path: toks[1],
                    user_agent: if lines.len() > 2 {
                        Some(lines[2])
                    } else {
                        None
                    },
                    body: lines.last(),
                },
            )
        }
    }
}

/// Parses the given lines into a [`Request`], failing exactly when the first
/// line has fewer than two whitespace-separated tokens.
pub fn parse_request(lines: &Vec<Vec<u8>>) -> (r: Result<Request, ()>)
    ensures
        match r {
            Ok(req) => spec_parse(lines.deep_view()) == Some(req@),
            Err(_) => spec_parse(lines.deep_view()) is None,
        },
{
    let ghost dlines = lines.deep_view();
    if lines.len() == 0 {
        return Err(());
    }
    proof {
        assert(dlines[0] =~= lines@[0]@);
    }
    let toks = split_ws(&lines[0]);
    if toks.len() < 2 {
        return Err(());
    }
    proof {
        assert(ws_tokens(dlines[0])[0] =~= toks@[0]@);
        assert(ws_tokens(dlines[0])[1] =~= toks@[1]@);
        assert(dlines.last() =~= lines@.last()@);
    }
    let method = copy_bytes(&toks[0]);
    let path = copy_bytes(&toks[1]);
    let user_agent = if lines.len() > 2 {
        proof {
            assert(dlines[2] =~= lines@[2]@);
        }
        Some(copy_bytes(&lines[2]))
    } else {
        None
    };
    let body = copy_bytes(&lines[lines.len() - 1]);
    let req = Request { method, path, user_agent, body };
    proof {
        assert(spec_parse(dlines) == Some(req@));
    }
    Ok(req)
}

/// Parses the raw bytes read off a connection: decodes them with invalid
/// sequences replaced, trims, splits into lines and parses those.
pub fn parse_request_bytes(raw: &Vec<u8>) -> (r: Result<Request, ()>)
    ensures
        match r {
            Ok(req) => spec_parse(request_lines(lossy_of(raw@))) == Some(req@),
            Err(_) => spec_parse(request_lines(lossy_of(raw@))) is None,
        },
{
    let decoded = decode_lossy(raw);
    let trimmed = trim_bytes(&decoded);
    let lines = split_crlf_vec(&trimmed);
    parse_request(&lines)
}

/// The directory named after the first `--directory` flag that a further
/// argument follows, or empty when there is none.
pub open spec fn spec_parse_dir(args: Seq<Seq<u8>>) -> Seq<u8>
    decreases args.len(),
{
    if args.len() == 0 {
        Seq::empty()
    } else if args[0] == ascii_bytes("--directory"@) && args.len() >= 2 {
        args[1]
    } else {
        spec_parse_dir(args.drop_first())
    }
}

/// Scans the command-line arguments for `--directory <path>` and returns the
/// path, or an empty directory when the flag is absent or is the last
/// argument.
pub fn parse_directory_arg(args: &Vec<Vec<u8>>) -> (dir: Vec<u8>)
    ensures
        dir@ == spec_parse_dir(args.deep_view()),
{
    let ghost dargs = args.deep_view();
    proof {
        reveal_strlit("--directory");
        assert(dargs.skip(0) =~= dargs);
    }
    let flag = lit_bytes("--directory");
    let mut i: usize = 0;
    while i < args.len()
        invariant
            i <= args@.len(),
            dargs == args.deep_view(),
            flag@ == ascii_bytes("--directory"@),
            spec_parse_dir(dargs) == spec_parse_dir(dargs.skip(i as int)),
        decreases args@.len() - i,
    {
        proof {
            assert(dargs[i as int] =~= args@[i as int]@);
            assert(dargs.skip(i as int).drop_first() =~= dargs.skip(i + 1));
        }
        if bytes_eq(&args[i], &flag) && i + 1 < args.len() {
            proof {
                assert(dargs.skip(i as int)[1] =~= args@[i + 1]@);
            }
            return copy_bytes(&args[i + 1]);
        }
        i += 1;
    }
    proof {
        assert(spec_parse_dir(dargs.skip(args@.len() as int)) =~= Seq::<u8>::empty());
    }
    Vec::new()
}

} // verus!
