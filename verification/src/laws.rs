//! Laws of the routing and encoding pipeline, stated and proved over the
//! specification functions that the executable functions' contracts use.

use vstd::prelude::*;

use crate::bytes::{ascii_bytes, is_prefix};
use crate::handlers::{
    file_path_of, not_found_desc, ok_bodyless_desc, spec_connection_action, spec_echo,
    spec_handle, spec_read_file, spec_user_agent, OutcomeView,
};
use crate::request::{request_lines, spec_parse, ReqView};
use crate::response::{dec_rep, spec_encode, DescView, Status};
use crate::split::{
    last_token, lemma_join_split, lemma_seg_len_char, lemma_ws_tokens_nonempty, split_byte,
    ws_tokens, SLASH,
};

verus! {

/// Every request whose method is `GET` and whose path is exactly `/` is
/// answered with the bodyless 200 response, and that response's wire bytes
/// are exactly `HTTP/1.1 200 OK\r\n\r\n`.
pub proof fn lemma_root_response(req: ReqView, dir: Seq<u8>)
    requires
        req.method == ascii_bytes("GET"@),
        req.path == ascii_bytes("/"@),
    ensures
        spec_handle(req, dir) == OutcomeView::Done(ok_bodyless_desc()),
        spec_encode(ok_bodyless_desc()) == ascii_bytes("HTTP/1.1 200 OK\r\n\r\n"@),
{
    reveal_strlit("HTTP/1.1 200 OK");
    reveal_strlit("HTTP/1.1 200 OK\r\n\r\n");
    assert(spec_encode(ok_bodyless_desc()) =~= ascii_bytes("HTTP/1.1 200 OK\r\n\r\n"@));
}

/// A full-form 200 response encodes to the status line, the two headers with
/// the body's exact decimal length, a blank line and the body.
pub proof fn lemma_encode_ok_full(ct: Seq<u8>, b: Seq<u8>)
    requires
        ct.len() > 0,
        b.len() > 0,
    ensures
        spec_encode(DescView { status: Status::Okay, content_type: Some(ct), body: Some(b) })
            == ascii_bytes("HTTP/1.1 200 OK\r\nContent-Type: "@) + ct + ascii_bytes(
            "\r\nContent-Length: "@,
        ) + dec_rep(b.len()) + ascii_bytes("\r\n\r\n"@) + b,
{
    reveal_strlit("HTTP/1.1 200 OK");
    reveal_strlit("Content-Type: ");
    reveal_strlit("Content-Length: ");
    reveal_strlit("HTTP/1.1 200 OK\r\nContent-Type: ");
    reveal_strlit("\r\nContent-Length: ");
    reveal_strlit("\r\n\r\n");
    let d = DescView { status: Status::Okay, content_type: Some(ct), body: Some(b) };
    assert(spec_encode(d) =~= ascii_bytes("HTTP/1.1 200 OK\r\nContent-Type: "@) + ct + ascii_bytes(
        "\r\nContent-Length: "@,
    ) + dec_rep(b.len()) + ascii_bytes("\r\n\r\n"@) + b);
}

/// Splitting `/echo/` followed by `s` on `/` yields the empty first segment,
/// the segment `echo`, and then the split of `s` itself.
proof fn lemma_split_echo_prefix(s: Seq<u8>)
    ensures
        split_byte(ascii_bytes("/echo/"@) + s, SLASH) == seq![Seq::<u8>::empty(), ascii_bytes("echo"@)]
            + split_byte(s, SLASH),
{
    reveal_strlit("/echo/");
    reveal_strlit("echo");
    let p = ascii_bytes("/echo/"@) + s;
    lemma_seg_len_char(p, SLASH, 0);
    let p1 = p.skip(1);
    assert(split_byte(p, SLASH) == seq![p.take(0)] + split_byte(p1, SLASH));
    lemma_seg_len_char(p1, SLASH, 4);
    assert(split_byte(p1, SLASH) == seq![p1.take(4)] + split_byte(p1.skip(5), SLASH));
    assert(p1.take(4) =~= ascii_bytes("echo"@));
    assert(p1.skip(5) =~= s);
    assert(p.take(0) =~= Seq::<u8>::empty());
    assert(seq![p.take(0)] + (seq![p1.take(4)] + split_byte(s, SLASH)) =~= seq![
        Seq::<u8>::empty(),
        ascii_bytes("echo"@),
    ] + split_byte(s, SLASH));
}

/// For every non-empty `s`, `GET /echo/{s}` is routed to the echo handler and
/// answered with a 200, content type `text/plain`, a `Content-Length` of
/// exactly `s`'s length, and body exactly `s`. (With an empty `s` the encoder
/// falls back to the bodyless 200 form instead.)
pub proof fn lemma_echo_response(req: ReqView, dir: Seq<u8>, s: Seq<u8>)
    requires
        req.method == ascii_bytes("GET"@),
        req.path == ascii_bytes("/echo/"@) + s,
        s.len() > 0,
    ensures
        spec_handle(req, dir) == OutcomeView::Done(
            DescView {
                status: Status::Okay,
                content_type: Some(ascii_bytes("text/plain"@)),
                body: Some(s),
            },
        ),
        spec_encode(
            DescView {
                status: Status::Okay,
                content_type: Some(ascii_bytes("text/plain"@)),
                body: Some(s),
            },
        ) == ascii_bytes("HTTP/1.1 200 OK\r\nContent-Type: text/plain\r\nContent-Length: "@)
            + dec_rep(s.len()) + ascii_bytes("\r\n\r\n"@) + s,
{
    reveal_strlit("GET");
    reveal_strlit("/");
    reveal_strlit("/echo");
    reveal_strlit("/echo/");
    reveal_strlit("text/plain");
    assert(req.path.len() >= 6);
    assert(req.path != ascii_bytes("/"@));
    assert(req.path.take(5) =~= ascii_bytes("/echo"@));
    assert(is_prefix(req.path, ascii_bytes("/echo"@)));
    lemma_split_echo_prefix(s);
    let parts = split_byte(req.path, SLASH);
    assert(parts.len() == 2 + split_byte(s, SLASH).len());
    assert(parts.len() > 2);
    assert(parts.skip(2) =~= split_byte(s, SLASH));
    lemma_join_split(s, SLASH);
    assert(spec_echo(req.path) == DescView {
        status: Status::Okay,
        content_type: Some(ascii_bytes("text/plain"@)),
        body: Some(s),
    });
    lemma_encode_ok_full(ascii_bytes("text/plain"@), s);
    reveal_strlit("HTTP/1.1 200 OK\r\nContent-Type: ");
    reveal_strlit("\r\nContent-Length: ");
    reveal_strlit("HTTP/1.1 200 OK\r\nContent-Type: text/plain\r\nContent-Length: ");
    assert(ascii_bytes("HTTP/1.1 200 OK\r\nContent-Type: "@) + ascii_bytes("text/plain"@)
        + ascii_bytes("\r\nContent-Length: "@) + dec_rep(s.len()) + ascii_bytes("\r\n\r\n"@) + s
        =~= ascii_bytes("HTTP/1.1 200 OK\r\nContent-Type: text/plain\r\nContent-Length: "@)
        + dec_rep(s.len()) + ascii_bytes("\r\n\r\n"@) + s);
}

/// A request that parses successfully has a non-empty method and a non-empty
/// path: whitespace-delimited tokens are never empty.
pub proof fn lemma_parsed_request_nonempty(lines: Seq<Seq<u8>>)
    ensures
        spec_parse(lines) matches Some(rv) ==> rv.method.len() > 0 && rv.path.len() > 0,
{
    if lines.len() > 0 {
        lemma_ws_tokens_nonempty(lines[0]);
    }
}

/// A parsed connection is answered exactly as its request is routed: the
/// decisions of the whole connection and of the router coincide whenever
/// parsing succeeds.
pub proof fn lemma_connection_routes(decoded: Seq<u8>, dir: Seq<u8>, rv: ReqView)
    requires
        spec_parse(request_lines(decoded)) == Some(rv),
    ensures
        spec_connection_action(decoded, dir) == spec_handle(rv, dir),
{
}

/// `GET` under the `/user-agent` prefix with a user-agent line present is
/// answered with a 200 whose body is the last whitespace-delimited token of
/// that whole line, with its exact length. (With no token on the line the
/// encoder falls back to the bodyless 200 form instead.)
pub proof fn lemma_user_agent_response(req: ReqView, dir: Seq<u8>, u: Seq<u8>)
    requires
        req.method == ascii_bytes("GET"@),
        is_prefix(req.path, ascii_bytes("/user-agent"@)),
        req.user_agent == Some(u),
        last_token(u).len() > 0,
    ensures
        spec_handle(req, dir) == OutcomeView::Done(spec_user_agent(Some(u))),
        spec_encode(spec_user_agent(Some(u))) == ascii_bytes(
            "HTTP/1.1 200 OK\r\nContent-Type: text/plain\r\nContent-Length: "@,
        ) + dec_rep(last_token(u).len()) + ascii_bytes("\r\n\r\n"@) + last_token(u),
{
    reveal_strlit("GET");
    reveal_strlit("/");
    reveal_strlit("/echo");
    reveal_strlit("/user-agent");
    reveal_strlit("text/plain");
    let p = req.path;
    assert(p.len() >= 11);
    assert(p != ascii_bytes("/"@));
    assert(p[1] == ('u' as u8)) by {
        assert(p.take(11)[1] == p[1]);
    }
    assert(!is_prefix(p, ascii_bytes("/echo"@))) by {
        if is_prefix(p, ascii_bytes("/echo"@)) {
            assert(p.take(5)[1] == p[1]);
        }
    }
    lemma_encode_ok_full(ascii_bytes("text/plain"@), last_token(u));
    reveal_strlit("HTTP/1.1 200 OK\r\nContent-Type: ");
    reveal_strlit("\r\nContent-Length: ");
    reveal_strlit("HTTP/1.1 200 OK\r\nContent-Type: text/plain\r\nContent-Length: ");
    assert(ascii_bytes("HTTP/1.1 200 OK\r\nContent-Type: "@) + ascii_bytes("text/plain"@)
        + ascii_bytes("\r\nContent-Length: "@) + dec_rep(last_token(u).len()) + ascii_bytes(
        "\r\n\r\n"@,
    ) + last_token(u) =~= ascii_bytes(
        "HTTP/1.1 200 OK\r\nContent-Type: text/plain\r\nContent-Length: "@,
    ) + dec_rep(last_token(u).len()) + ascii_bytes("\r\n\r\n"@) + last_token(u));
}

/// Every request whose request line has fewer than two whitespace-separated
/// tokens is answered with exactly `HTTP/1.1 404 Not Found\r\n\r\n`; the
/// router is never reached.
pub proof fn lemma_malformed_request(decoded: Seq<u8>, dir: Seq<u8>)
    requires
        ws_tokens(request_lines(decoded)[0]).len() < 2,
    ensures
        spec_connection_action(decoded, dir) == OutcomeView::Done(not_found_desc()),
        spec_encode(not_found_desc()) == ascii_bytes("HTTP/1.1 404 Not Found\r\n\r\n"@),
{
    assert(request_lines(decoded).len() >= 1);
    assert(spec_parse(request_lines(decoded)) is None);
    lemma_not_found_bytes();
}

/// The 404 descriptor encodes to exactly `HTTP/1.1 404 Not Found\r\n\r\n`.
pub proof fn lemma_not_found_bytes()
    ensures
        spec_encode(not_found_desc()) == ascii_bytes("HTTP/1.1 404 Not Found\r\n\r\n"@),
{
    reveal_strlit("HTTP/1.1 404 Not Found");
    reveal_strlit("HTTP/1.1 404 Not Found\r\n\r\n");
    assert(spec_encode(not_found_desc()) =~= ascii_bytes("HTTP/1.1 404 Not Found\r\n\r\n"@));
}

/// A write via `POST /files/{name}` and a read via `GET /files/{name}` are
/// routed to the file handlers and address the same file path; when the read
/// then yields exactly the bytes `b` that were written (non-empty), the read
/// is answered with a 200, content type `application/octet-stream`, and body
/// exactly `b`.
pub proof fn lemma_file_round_trip(write_req: ReqView, read_req: ReqView, dir: Seq<u8>, b: Seq<u8>)
    requires
        write_req.method == ascii_bytes("POST"@),
        read_req.method == ascii_bytes("GET"@),
        read_req.path == write_req.path,
        is_prefix(write_req.path, ascii_bytes("/files"@)),
        b.len() > 0,
    ensures
        spec_handle(write_req, dir) == OutcomeView::WriteFile(
            file_path_of(write_req.path, dir),
            write_req.body,
        ),
        spec_handle(read_req, dir) == OutcomeView::ReadFile(file_path_of(write_req.path, dir)),
        spec_encode(spec_read_file(Some(b))) == ascii_bytes(
            "HTTP/1.1 200 OK\r\nContent-Type: application/octet-stream\r\nContent-Length: "@,
        ) + dec_rep(b.len()) + ascii_bytes("\r\n\r\n"@) + b,
{
    reveal_strlit("GET");
    reveal_strlit("POST");
    reveal_strlit("/");
    reveal_strlit("/echo");
    reveal_strlit("/user-agent");
    reveal_strlit("/files");
    reveal_strlit("application/octet-stream");
    let p = write_req.path;
    assert(ascii_bytes("POST"@).len() == 4);
    assert(ascii_bytes("GET"@).len() == 3);
    assert(write_req.method != ascii_bytes("GET"@));
    assert(p.len() >= 6);
    assert(p != ascii_bytes("/"@));
    assert(p[1] == ('f' as u8)) by {
        assert(p.take(6)[1] == p[1]);
    }
    assert(!is_prefix(p, ascii_bytes("/echo"@))) by {
        if is_prefix(p, ascii_bytes("/echo"@)) {
            assert(p.take(5)[1] == p[1]);
        }
    }
    assert(!is_prefix(p, ascii_bytes("/user-agent"@))) by {
        if is_prefix(p, ascii_bytes("/user-agent"@)) {
            assert(p.take(11)[1] == p[1]);
        }
    }
    lemma_encode_ok_full(ascii_bytes("application/octet-stream"@), b);
    reveal_strlit("HTTP/1.1 200 OK\r\nContent-Type: ");
    reveal_strlit("\r\nContent-Length: ");
    reveal_strlit("HTTP/1.1 200 OK\r\nContent-Type: application/octet-stream\r\nContent-Length: ");
    assert(ascii_bytes("HTTP/1.1 200 OK\r\nContent-Type: "@) + ascii_bytes(
        "application/octet-stream"@,
    ) + ascii_bytes("\r\nContent-Length: "@) + dec_rep(b.len()) + ascii_bytes("\r\n\r\n"@) + b
        =~= ascii_bytes(
        "HTTP/1.1 200 OK\r\nContent-Type: application/octet-stream\r\nContent-Length: "@,
    ) + dec_rep(b.len()) + ascii_bytes("\r\n\r\n"@) + b);
}

/// Reading a file that does not exist (or fails to read for any reason) is
/// answered with exactly the 404 response, with no distinguishing detail.
pub proof fn lemma_missing_file_response()
    ensures
        spec_read_file(None) == not_found_desc(),
        spec_encode(spec_read_file(None)) == ascii_bytes("HTTP/1.1 404 Not Found\r\n\r\n"@),
{
    lemma_not_found_bytes();
}

/// `GET /echo{t}` with no further `/` in `t` is routed to the echo handler —
/// prefix matching is literal, not segment-aware — and, lacking a third path
/// segment, that handler itself answers 404: matched, then rejected, not
/// passed to the catch-all.
pub proof fn lemma_echo_prefix_match_rejected(req: ReqView, dir: Seq<u8>, t: Seq<u8>)
    requires
        req.method == ascii_bytes("GET"@),
        req.path == ascii_bytes("/echo"@) + t,
        t.len() > 0,
        forall|i: int| 0 <= i < t.len() ==> t[i] != SLASH,
    ensures
        is_prefix(req.path, ascii_bytes("/echo"@)),
        spec_echo(req.path) == not_found_desc(),
        spec_handle(req, dir) == OutcomeView::Done(not_found_desc()),
{
    reveal_strlit("GET");
    reveal_strlit("/");
    reveal_strlit("/echo");
    let p = req.path;
    assert(p.take(5) =~= ascii_bytes("/echo"@));
    assert(p != ascii_bytes("/"@));
    lemma_seg_len_char(p, SLASH, 0);
    assert(split_byte(p, SLASH) == seq![p.take(0)] + split_byte(p.skip(1), SLASH));
    lemma_seg_len_char(p.skip(1), SLASH, p.len() - 1);
    assert(split_byte(p.skip(1), SLASH) == seq![p.skip(1)]);
    assert(split_byte(p, SLASH).len() == 2);
}

/// A (method, path) pair that no routing rule matches is answered with
/// exactly the 404 response: in particular any method other than `GET` and
/// `POST`, and any `GET` outside the four routed path shapes.
pub proof fn lemma_no_rule_not_found(req: ReqView, dir: Seq<u8>)
    requires
        !(req.method == ascii_bytes("GET"@) && req.path == ascii_bytes("/"@)),
        !(req.method == ascii_bytes("GET"@) && is_prefix(req.path, ascii_bytes("/echo"@))),
        !(req.method == ascii_bytes("GET"@) && is_prefix(req.path, ascii_bytes("/user-agent"@))),
        !(req.method == ascii_bytes("GET"@) && is_prefix(req.path, ascii_bytes("/files"@))),
        !(req.method == ascii_bytes("POST"@) && is_prefix(req.path, ascii_bytes("/files"@))),
    ensures
        spec_handle(req, dir) == OutcomeView::Done(not_found_desc()),
        spec_encode(not_found_desc()) == ascii_bytes("HTTP/1.1 404 Not Found\r\n\r\n"@),
{
    lemma_not_found_bytes();
}

} // verus!
