//! The router and the handlers.
//!
//! [`handle_request`] matches (method, path) against the routing rules in
//! priority order — root, echo, user-agent, file read, file write, catch-all
//! 404 — and either finishes with a response descriptor or asks the caller to
//! read or write a file at a computed path. Prefix matching is a literal
//! string prefix, not segment-aware, so `/echoXYZ` also reaches the echo
//! handler. File paths are the plain concatenation of the configured base
//! directory and the last `/`-separated path segment, with no separator
//! inserted and no traversal sanitization: the directory value itself must
//! end with a separator for paths to come out right.

use vstd::prelude::*;

use crate::bytes::{append_bytes, ascii_bytes, bytes_eq, copy_bytes, is_prefix, lit_bytes};
use crate::request::{lossy_of, parse_request_bytes, request_lines, spec_parse, ReqView, Request};
use crate::response::{desc_wf, DescView, ResponseDescriptor, Status};
use crate::split::{join_byte, last_token, split_byte, split_byte_vec, split_ws, SLASH};

verus! {

/// What a routed request asks of the connection worker: send a finished
/// response, or read or write the file at the given path first.
#[derive(Debug)]
pub enum HandlerOutcome {
    Done(ResponseDescriptor),
    ReadFile(Vec<u8>),
    WriteFile(Vec<u8>, Vec<u8>),
}

/// The mathematical content of a [`HandlerOutcome`].
pub ghost enum OutcomeView {
    Done(DescView),
    ReadFile(Seq<u8>),
    WriteFile(Seq<u8>, Seq<u8>),
}

impl View for HandlerOutcome {
    type V = OutcomeView;

    open spec fn view(&self) -> OutcomeView {
        match self {
            HandlerOutcome::Done(d) => OutcomeView::Done(d@),
            HandlerOutcome::ReadFile(p) => OutcomeView::ReadFile(p@),
            HandlerOutcome::WriteFile(p, b) => OutcomeView::WriteFile(p@, b@),
        }
    }
}

/// The 404 descriptor: no content type, no body.
pub open spec fn not_found_desc() -> DescView {
    DescView { status: Status::NotFound, content_type: None, body: None }
}

/// The bodyless 200 descriptor of the root handler.
pub open spec fn ok_bodyless_desc() -> DescView {
    DescView { status: Status::Okay, content_type: None, body: None }
}

/// What the echo handler returns for `path`: with more than two
/// `/`-separated segments, a 200 whose body is the segments after the first
/// two rejoined with `/`; otherwise a 404.
pub open spec fn spec_echo(path: Seq<u8>) -> DescView {
    let parts = split_byte(path, SLASH);
    if parts.len() > 2 {
        DescView {
            status: Status::Okay,
            content_type: Some(ascii_bytes("text/plain"@)),
            body: Some(join_byte(parts.skip(2), SLASH)),
        }
    } else {
        not_found_desc()
    }
}

/// What the user-agent handler returns: with a user-agent line present, a
/// 200 whose body is the last whitespace-delimited token of that whole line;
/// without one, a 404.
pub open spec fn spec_user_agent(ua: Option<Seq<u8>>) -> DescView {
    match ua {
        Some(u) => DescView {
            status: Status::Okay,
            content_type: Some(ascii_bytes("text/plain"@)),
            body: Some(last_token(u)),
        },
        None => not_found_desc(),
    }
}

/// What the file-read handler returns for the outcome of the read: the file's
/// bytes as a 200 with `application/octet-stream`, or a 404 on any failure.
pub open spec fn spec_read_file(content: Option<Seq<u8>>) -> DescView {
    match content {
        Some(c) => DescView {
            status: Status::Okay,
            content_type: Some(ascii_bytes("application/octet-stream"@)),
            body: Some(c),
        },
        None => not_found_desc(),
    }
}

/// What the file-write handler returns for the outcome of the write: a
/// bodyless 201 on success, a 404 on any failure.
pub open spec fn spec_write_file(write_ok: bool) -> DescView {
    if write_ok {
        DescView { status: Status::Created, content_type: None, body: None }
    } else {
        not_found_desc()
    }
}

/// The file name a `/files` path selects: its last `/`-separated segment.
pub open spec fn file_name_of(path: Seq<u8>) -> Seq<u8> {
    split_byte(path, SLASH).last()
}

/// The full file path: the base directory and the file name, concatenated
/// with no separator inserted.
pub open spec fn file_path_of(path: Seq<u8>, dir: Seq<u8>) -> Seq<u8> {
    dir + file_name_of(path)
}

/// The routing decision for a parsed request, rules in priority order.
pub open spec fn spec_handle(req: ReqView, dir: Seq<u8>) -> OutcomeView {
    if req.method == ascii_bytes("GET"@) && req.path == ascii_bytes("/"@) {
        OutcomeView::Done(ok_bodyless_desc())
    } else if req.method == ascii_bytes("GET"@) && is_prefix(req.path, ascii_bytes("/echo"@)) {
        OutcomeView::Done(spec_echo(req.path))
    } else if req.method == ascii_bytes("GET"@) && is_prefix(
        req.path,
        ascii_bytes("/user-agent"@),
    ) {
        OutcomeView::Done(spec_user_agent(req.user_agent))
    } else if req.method == ascii_bytes("GET"@) && is_prefix(req.path, ascii_bytes("/files"@)) {
        OutcomeView::ReadFile(file_path_of(req.path, dir))
    } else if req.method == ascii_bytes("POST"@) && is_prefix(req.path, ascii_bytes("/files"@)) {
        OutcomeView::WriteFile(file_path_of(req.path, dir), req.body)
    } else {
        OutcomeView::Done(not_found_desc())
    }
}

/// What a whole connection decides once its raw bytes are decoded: a failed
/// parse is a 404; a parsed request is routed.
pub open spec fn spec_connection_action(decoded: Seq<u8>, dir: Seq<u8>) -> OutcomeView {
    match spec_parse(request_lines(decoded)) {
        Some(rv) => spec_handle(rv, dir),
        None => OutcomeView::Done(not_found_desc()),
    }
}

/// Joins the pieces of `parts` from index `from` on with `/` between them.
fn join_from(parts: &Vec<Vec<u8>>, from: usize) -> (r: Vec<u8>)
    requires
        from <= parts@.len(),
    ensures
        r@ == join_byte(parts.deep_view().skip(from as int), SLASH),
    decreases parts@.len() - from,
{
    let ghost dparts = parts.deep_view();
    if from == parts.len() {
        proof {
            assert(dparts.skip(from as int) =~= Seq::<Seq<u8>>::empty());
        }
        Vec::new()
    } else if from + 1 == parts.len() {
        proof {
            assert(dparts.skip(from as int) =~= seq![dparts[from as int]]);
            assert(dparts[from as int] =~= parts@[from as int]@);
        }
        copy_bytes(&parts[from])
    } else {
        let mut r = copy_bytes(&parts[from]);
        r.push(SLASH);
        let rest = join_from(parts, from + 1);
        append_bytes(&mut r, &rest);
        proof {
            assert(dparts.skip(from as int).drop_first() =~= dparts.skip(from + 1));
            assert(dparts.skip(from as int)[0] =~= parts@[from as int]@);
            assert(r@ =~= join_byte(dparts.skip(from as int), SLASH));
        }
        r
    }
}

/// The echo handler, on the whole path.
pub fn handle_echo(path: &Vec<u8>) -> (r: ResponseDescriptor)
    ensures
        r@ == spec_echo(path@),
        desc_wf(r@),
{
    let parts = split_byte_vec(path, SLASH);
    if parts.len() > 2 {
        let body = join_from(&parts, 2);
        proof {
            reveal_strlit("text/plain");
        }
        let ct = lit_bytes("text/plain");
        ResponseDescriptor { status: Status::Okay, content_type: Some(ct), body: Some(body) }
    } else {
        ResponseDescriptor { status: Status::NotFound, content_type: None, body: None }
    }
}

/// The user-agent handler, on the line at the user-agent position.
pub fn handle_user_agent(user_agent: &Option<Vec<u8>>) -> (r: ResponseDescriptor)
    ensures
        r@ == spec_user_agent(
            match user_agent {
                Some(u) => Some(u@),
                None => None,
            },
        ),
        desc_wf(r@),
{
    match user_agent {
        Some(u) => {
            let toks = split_ws(u);
            let body: Vec<u8> = if toks.len() == 0 {
                Vec::new()
            } else {
                proof {
                    assert(toks.deep_view().last() =~= toks@.last()@);
                }
                copy_bytes(&toks[toks.len() - 1])
            };
            proof {
                reveal_strlit("text/plain");
                assert(body@ == last_token(u@));
            }
            let ct = lit_bytes("text/plain");
            ResponseDescriptor { status: Status::Okay, content_type: Some(ct), body: Some(body) }
        },
        None => ResponseDescriptor { status: Status::NotFound, content_type: None, body: None },
    }
}

/// The file-read handler, on the outcome of the read that the caller
/// performed: the file's bytes, or `None` on any read failure.
pub fn handle_read_file(content: Option<Vec<u8>>) -> (r: ResponseDescriptor)
    ensures
        r@ == spec_read_file(
            match content {
                Some(c) => Some(c@),
                None => None,
            },
        ),
        desc_wf(r@),
{
    match content {
        Some(c) => {
            proof {
                reveal_strlit("application/octet-stream");
            }
            let ct = lit_bytes("application/octet-stream");
            ResponseDescriptor { status: Status::Okay, content_type: Some(ct), body: Some(c) }
        },
        None => ResponseDescriptor { status: Status::NotFound, content_type: None, body: None },
    }
}

/// The file-write handler, on the outcome of the write that the caller
/// performed.
pub fn handle_write_file(write_ok: bool) -> (r: ResponseDescriptor)
    ensures
        r@ == spec_write_file(write_ok),
        desc_wf(r@),
{
    if write_ok {
        ResponseDescriptor { status: Status::Created, content_type: None, body: None }
    } else {
        ResponseDescriptor { status: Status::NotFound, content_type: None, body: None }
    }
}

/// The full file path for a `/files` request: base directory, then the last
/// path segment, concatenated directly.
pub fn file_path(path: &Vec<u8>, dir: &Vec<u8>) -> (r: Vec<u8>)
    ensures
        r@ == file_path_of(path@, dir@),
{
    let parts = split_byte_vec(path, SLASH);
    proof {
        assert(parts.deep_view().last() =~= parts@.last()@);
    }
    let name = copy_bytes(&parts[parts.len() - 1]);
    let mut r = copy_bytes(dir);
    append_bytes(&mut r, &name);
    r
}

/// The router: matches the parsed request against the rules in priority
/// order and runs the matching handler, or hands back the file operation the
/// caller must perform.
pub fn handle_request(req: &Request, dir: &Vec<u8>) -> (r: HandlerOutcome)
    ensures
        r@ == spec_handle(req@, dir@),
{
    proof {
        reveal_strlit("GET");
        reveal_strlit("POST");
        reveal_strlit("/");
        reveal_strlit("/echo");
        reveal_strlit("/user-agent");
        reveal_strlit("/files");
    }
    let get = lit_bytes("GET");
    let root = lit_bytes("/");
    let is_get = bytes_eq(&req.method, &get);
    if is_get && bytes_eq(&req.path, &root) {
        return HandlerOutcome::Done(
            ResponseDescriptor { status: Status::Okay, content_type: None, body: None },
        );
    }
    let echo = lit_bytes("/echo");
    if is_get && crate::bytes::starts_with_bytes(&req.path, &echo) {
        return HandlerOutcome::Done(handle_echo(&req.path));
    }
    let agent = lit_bytes("/user-agent");
    if is_get && crate::bytes::starts_with_bytes(&req.path, &agent) {
        return HandlerOutcome::Done(handle_user_agent(&req.user_agent));
    }
    let files = lit_bytes("/files");
    if is_get && crate::bytes::starts_with_bytes(&req.path, &files) {
        return HandlerOutcome::ReadFile(file_path(&req.path, dir));
    }
    let post = lit_bytes("POST");
    if bytes_eq(&req.method, &post) && crate::bytes::starts_with_bytes(&req.path, &files) {
        return HandlerOutcome::WriteFile(file_path(&req.path, dir), copy_bytes(&req.body));
    }
    HandlerOutcome::Done(
        ResponseDescriptor { status: Status::NotFound, content_type: None, body: None },
    )
}

/// One connection's whole decision, from the raw bytes read off the socket:
/// parse, and route; a failed parse is answered with the 404 descriptor.
pub fn connection_action(raw: &Vec<u8>, dir: &Vec<u8>) -> (r: HandlerOutcome)
    ensures
        r@ == spec_connection_action(lossy_of(raw@), dir@),
{
    match parse_request_bytes(raw) {
        Ok(req) => handle_request(&req, dir),
        Err(_) => HandlerOutcome::Done(
            ResponseDescriptor { status: Status::NotFound, content_type: None, body: None },
        ),
    }
}

} // verus!
