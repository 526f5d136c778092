//! The routing table and its handlers.
//!
//! Routing is a pure decision: it turns a parsed request and the configured
//! file root into either a finished response or a file action for the caller
//! to perform against the filesystem. The file handlers then turn the
//! action's outcome back into a response. Every response carries the
//! request's `Connection` value, so the connection loop can decide
//! persistence from the response alone.

use vstd::prelude::*;

use crate::ascii_of;
use crate::codec::Encoder;
use crate::push_ascii;
use crate::request::Request;
use crate::request::SpecRequest;
use crate::request::Verb;
use crate::response::Response;
use crate::response::ResponseHeaders;
use crate::response::SpecResponse;
use crate::response::SpecResponseHeaders;
use crate::status::StatusCode;

verus! {

use vstd::slice::slice_subrange;
use vstd::slice::slice_to_vec;
use vstd::string::StringSliceAdditionalSpecFns;

/// Whether `s` begins with `p`.
pub open spec fn starts_with(s: Seq<u8>, p: Seq<u8>) -> bool {
    s.len() >= p.len() && s.subrange(0, p.len() as int) == p
}

/// Whether the byte slice `s` begins with `p`.
pub fn starts_with_bytes(s: &[u8], p: &[u8]) -> (r: bool)
    ensures
        r == starts_with(s@, p@),
{
    let p_len = p.len();
    if p_len > s.len() {
        return false;
    }
    crate::request::bytes_eq(slice_subrange(s, 0, p_len), p)
}

/// What routing decided: a finished response, or a file to read or write
/// before the response can be built. The caller performs the file action and
/// hands its outcome to [`Request::handle_get_file`] or
/// [`Request::handle_post_file`].
pub enum Dispatch {
    Ready(Response),
    GetFile(Vec<u8>),
    PostFile(Vec<u8>, Vec<u8>),
}

/// The mathematical model of [`Dispatch`].
pub enum SpecDispatch {
    Ready(SpecResponse),
    GetFile(Seq<u8>),
    PostFile(Seq<u8>, Seq<u8>),
}

impl View for Dispatch {
    type V = SpecDispatch;

    open spec fn view(&self) -> SpecDispatch {
        match self {
            Dispatch::Ready(r) => SpecDispatch::Ready(r@),
            Dispatch::GetFile(p) => SpecDispatch::GetFile(p@),
            Dispatch::PostFile(p, b) => SpecDispatch::PostFile(p@, b@),
        }
    }
}

/// The response for the exact path `/`: ok, empty, no content type.
pub open spec fn spec_root_response(req: SpecRequest) -> SpecResponse {
    SpecResponse {
        status_line: StatusCode::_200,
        headers: SpecResponseHeaders {
            content_type: None,
            content_length: None,
            content_encoding: None,
            connection: req.headers.connection,
        },
        body: None,
    }
}

/// The response for any path outside the routing table: not found, empty, no
/// content type.
pub open spec fn spec_not_found_response(req: SpecRequest) -> SpecResponse {
    SpecResponse {
        status_line: StatusCode::_404,
        headers: SpecResponseHeaders {
            content_type: None,
            content_length: None,
            content_encoding: None,
            connection: req.headers.connection,
        },
        body: None,
    }
}

/// The response for `/user-agent`: the request's `User-Agent` value as the
/// body (empty when absent), plain text, with the requested encoding.
pub open spec fn spec_user_agent_response(req: SpecRequest) -> SpecResponse {
    let ua: Seq<u8> = match req.headers.user_agent {
        Some(v) => v,
        None => Seq::empty(),
    };
    SpecResponse {
        status_line: StatusCode::_200,
        headers: SpecResponseHeaders {
            content_type: Some(ascii_of("text/plain"@)),
            content_length: Some(ua.len()),
            content_encoding: req.headers.accept_encoding,
            connection: req.headers.connection,
        },
        body: Some(ua),
    }
}

/// The response for `/echo/<message>`: the remainder of the path after the
/// prefix, verbatim, as a plain-text body, with the requested encoding.
pub open spec fn spec_echo_response(req: SpecRequest) -> SpecResponse {
    let msg = req.request_line.endpoint.subrange(6, req.request_line.endpoint.len() as int);
    SpecResponse {
        status_line: StatusCode::_200,
        headers: SpecResponseHeaders {
            content_type: Some(ascii_of("text/plain"@)),
            content_length: Some(msg.len()),
            content_encoding: req.headers.accept_encoding,
            connection: req.headers.connection,
        },
        body: Some(msg),
    }
}

/// The file path of a `/files/<name>` target: the configured root directory
/// with the remainder of the path appended, verbatim.
pub open spec fn spec_file_path(dir: Seq<u8>, target: Seq<u8>) -> Seq<u8> {
    dir + target.subrange(7, target.len() as int)
}

/// The response for `GET /files/<name>`, given what reading the file
/// produced: the file's bytes as an octet-stream body with the requested
/// encoding, or not found.
pub open spec fn spec_get_file_response(req: SpecRequest, file: Option<Seq<u8>>) -> SpecResponse {
    match file {
        Some(data) => SpecResponse {
            status_line: StatusCode::_200,
            headers: SpecResponseHeaders {
                content_type: Some(ascii_of("application/octet-stream"@)),
                content_length: Some(data.len()),
                content_encoding: req.headers.accept_encoding,
                connection: req.headers.connection,
            },
            body: Some(data),
        },
        None => spec_not_found_response(req),
    }
}

/// The response for `POST /files/<name>`: created, empty.
pub open spec fn spec_post_file_response(req: SpecRequest) -> SpecResponse {
    SpecResponse {
        status_line: StatusCode::_201,
        headers: SpecResponseHeaders {
            content_type: None,
            content_length: None,
            content_encoding: None,
            connection: req.headers.connection,
        },
        body: None,
    }
}

/// The routing table, matched in precedence order: the exact path `/`, the
/// exact path `/user-agent`, the prefix `/echo/`, the prefix `/files/`
/// (a read for `GET`, a write of the request body for `POST`), and not found
/// for everything else.
pub open spec fn spec_dispatch(req: SpecRequest, dir: Seq<u8>) -> SpecDispatch {
    let t = req.request_line.endpoint;
    if t == ascii_of("/"@) {
        SpecDispatch::Ready(spec_root_response(req))
    } else if t == ascii_of("/user-agent"@) {
        SpecDispatch::Ready(spec_user_agent_response(req))
    } else if starts_with(t, ascii_of("/echo/"@)) {
        SpecDispatch::Ready(spec_echo_response(req))
    } else if starts_with(t, ascii_of("/files/"@)) {
        match req.request_line.verb {
            Verb::GET => SpecDispatch::GetFile(spec_file_path(dir, t)),
            Verb::POST => SpecDispatch::PostFile(spec_file_path(dir, t), req.body),
        }
    } else {
        SpecDispatch::Ready(spec_not_found_response(req))
    }
}

/// The response of a whole exchange, whatever routing decided: the finished
/// response itself, or the file handler's response built from what the file
/// action produced (`file` being what a read returned, ignored by the other
/// routes).
pub open spec fn spec_response_of(req: SpecRequest, dir: Seq<u8>, file: Option<Seq<u8>>) -> SpecResponse {
    match spec_dispatch(req, dir) {
        SpecDispatch::Ready(r) => r,
        SpecDispatch::GetFile(_) => spec_get_file_response(req, file),
        SpecDispatch::PostFile(_, _) => spec_post_file_response(req),
    }
}

/// Whether a response's declared length is right: when a body is present,
/// `content_length` equals its byte length.
pub open spec fn spec_length_consistent(r: SpecResponse) -> bool {
    match r.body {
        Some(b) => r.headers.content_length == Some(b.len()),
        None => true,
    }
}

/// Every route answers with a consistent declared length, whatever the
/// request and whatever the filesystem produced.
pub proof fn lemma_response_length_consistent(req: SpecRequest, dir: Seq<u8>, file: Option<Seq<u8>>)
    ensures
        spec_length_consistent(spec_response_of(req, dir, file)),
{
}

/// Echoing round-trips: a `GET` of `/echo/` followed by a message without a
/// slash answers ok with exactly that message as the body and its length as
/// the content length.
pub proof fn lemma_echo_round_trip(req: SpecRequest, dir: Seq<u8>, msg: Seq<u8>)
    requires
        req.request_line.verb == Verb::GET,
        req.request_line.endpoint == ascii_of("/echo/"@) + msg,
        !msg.contains(47u8),
    ensures
        spec_dispatch(req, dir) matches SpecDispatch::Ready(r) && {
            &&& r.status_line == StatusCode::_200
            &&& r.body == Some(msg)
            &&& r.headers.content_length == Some(msg.len())
        },
{
    reveal_strlit("/");
    reveal_strlit("/user-agent");
    reveal_strlit("/echo/");
    let t = req.request_line.endpoint;
    assert(t.len() >= 6);
    assert(t != ascii_of("/"@));
    assert(t[5] == 47u8);
    assert(t != ascii_of("/user-agent"@)) by {
        assert(ascii_of("/user-agent"@)[5] == 45u8);
    }
    assert(starts_with(t, ascii_of("/echo/"@))) by {
        assert(t.subrange(0, 6) =~= ascii_of("/echo/"@));
    }
    assert(spec_echo_response(req).body == Some(msg)) by {
        assert(t.subrange(6, t.len() as int) =~= msg);
    }
}

/// An unknown path — anything the routing table does not name — answers not
/// found, with an empty body and no content type.
pub proof fn lemma_unknown_path_not_found(req: SpecRequest, dir: Seq<u8>)
    requires
        req.request_line.endpoint != ascii_of("/"@),
        req.request_line.endpoint != ascii_of("/user-agent"@),
        !starts_with(req.request_line.endpoint, ascii_of("/echo/"@)),
        !starts_with(req.request_line.endpoint, ascii_of("/files/"@)),
    ensures
        spec_dispatch(req, dir) matches SpecDispatch::Ready(r) && {
            &&& r.status_line == StatusCode::_404
            &&& r.body is None
            &&& r.headers.content_type is None
        },
{
}

/// A request that accepts gzip is answered with a gzip content encoding by
/// every route that produces a non-empty body.
pub proof fn lemma_gzip_selected(req: SpecRequest, dir: Seq<u8>, file: Option<Seq<u8>>)
    requires
        req.headers.accept_encoding == Some(Encoder::Gzip),
        spec_response_of(req, dir, file).body matches Some(b) && b.len() > 0,
    ensures
        spec_response_of(req, dir, file).headers.content_encoding == Some(Encoder::Gzip),
{
}

/// Writing and then fetching the same `/files/` target touch the same file
/// path: the write stores exactly the request body, and the fetch returns
/// exactly what the filesystem holds there, as an octet stream.
pub proof fn lemma_files_round_trip(
    post: SpecRequest,
    get: SpecRequest,
    dir: Seq<u8>,
    data: Seq<u8>,
)
    requires
        post.request_line.verb == Verb::POST,
        get.request_line.verb == Verb::GET,
        post.request_line.endpoint == get.request_line.endpoint,
        starts_with(post.request_line.endpoint, ascii_of("/files/"@)),
    ensures
        spec_dispatch(post, dir) == SpecDispatch::PostFile(
            spec_file_path(dir, post.request_line.endpoint),
            post.body,
        ),
        spec_dispatch(get, dir) == SpecDispatch::GetFile(
            spec_file_path(dir, get.request_line.endpoint),
        ),
        spec_file_path(dir, post.request_line.endpoint) == spec_file_path(
            dir,
            get.request_line.endpoint,
        ),
        spec_post_file_response(post).status_line == StatusCode::_201,
        spec_post_file_response(post).body is None,
        spec_get_file_response(get, Some(data)).status_line == StatusCode::_200,
        spec_get_file_response(get, Some(data)).body == Some(data),
        spec_get_file_response(get, Some(data)).headers.content_type == Some(
            ascii_of("application/octet-stream"@),
        ),
{
    reveal_strlit("/");
    reveal_strlit("/user-agent");
    reveal_strlit("/echo/");
    reveal_strlit("/files/");
    let t = post.request_line.endpoint;
    assert(t.len() >= 7);
    assert(t[1] == 102u8) by {
        assert(t.subrange(0, 7)[1] == t[1]);
    }
    assert(t != ascii_of("/"@));
    assert(t != ascii_of("/user-agent"@)) by {
        assert(ascii_of("/user-agent"@)[1] == 117u8);
    }
    assert(!starts_with(t, ascii_of("/echo/"@))) by {
        if starts_with(t, ascii_of("/echo/"@)) {
            assert(t.subrange(0, 6)[1] == t[1]);
            assert(ascii_of("/echo/"@)[1] == 101u8);
        }
    }
}

/// Copies an optional byte value.
fn clone_opt_bytes(v: &Option<Vec<u8>>) -> (r: Option<Vec<u8>>)
    ensures
        match r {
            Some(b) => *v matches Some(w) && b@ == w@,
            None => *v is None,
        },
{
    match v {
        Some(b) => Some(slice_to_vec(b.as_slice())),
        None => None,
    }
}

impl Request {
    /// Routes this request: either a finished response, or the file action
    /// the caller must perform at the path built from the configured root.
    pub fn handle_request(&self, dir: &str) -> (r: Dispatch)
        ensures
            r@ == spec_dispatch(self@, dir.spec_bytes()),
    {
        let mut root_lit: Vec<u8> = Vec::new();
        proof {
            reveal_strlit("/");
        }
        assert(vstd::string::is_ascii("/"));
        push_ascii(&mut root_lit, "/");
        let mut ua_lit: Vec<u8> = Vec::new();
        proof {
            reveal_strlit("/user-agent");
        }
        assert(vstd::string::is_ascii("/user-agent"));
        push_ascii(&mut ua_lit, "/user-agent");
        let mut echo_lit: Vec<u8> = Vec::new();
        proof {
            reveal_strlit("/echo/");
        }
        assert(vstd::string::is_ascii("/echo/"));
        push_ascii(&mut echo_lit, "/echo/");
        let mut files_lit: Vec<u8> = Vec::new();
        proof {
            reveal_strlit("/files/");
        }
        assert(vstd::string::is_ascii("/files/"));
        push_ascii(&mut files_lit, "/files/");
        let target = &self.request_line.endpoint;
        if crate::request::bytes_eq(target.as_slice(), root_lit.as_slice()) {
            Dispatch::Ready(self.handle_root())
        } else if crate::request::bytes_eq(target.as_slice(), ua_lit.as_slice()) {
            Dispatch::Ready(self.handle_user_agent())
        } else if starts_with_bytes(target.as_slice(), echo_lit.as_slice()) {
            Dispatch::Ready(self.handle_echo())
        } else if starts_with_bytes(target.as_slice(), files_lit.as_slice()) {
            let mut path = dir.as_bytes_vec();
            let target_len = target.len();
            path.extend_from_slice(slice_subrange(target.as_slice(), 7, target_len));
            assert(path@ =~= spec_file_path(dir.spec_bytes(), target@));
            match self.request_line.verb {
                Verb::GET => Dispatch::GetFile(path),
                Verb::POST => Dispatch::PostFile(path, slice_to_vec(self.body.as_slice())),
            }
        } else {
            Dispatch::Ready(self.not_found())
        }
    }

    /// The response for the exact path `/`.
    pub fn handle_root(&self) -> (r: Response)
        ensures
            r@ == spec_root_response(self@),
    {
        Response {
            status_line: StatusCode::_200,
            headers: ResponseHeaders {
                content_type: None,
                content_length: None,
                content_encoding: None,
                connection: clone_opt_bytes(&self.headers.connection),
            },
            body: None,
        }
    }

    /// The response for a path outside the routing table.
    fn not_found(&self) -> (r: Response)
        ensures
            r@ == spec_not_found_response(self@),
    {
        Response {
            status_line: StatusCode::_404,
            headers: ResponseHeaders {
                content_type: None,
                content_length: None,
                content_encoding: None,
                connection: clone_opt_bytes(&self.headers.connection),
            },
            body: None,
        }
    }

    /// The response for `/user-agent`.
    pub fn handle_user_agent(&self) -> (r: Response)
        ensures
            r@ == spec_user_agent_response(self@),
    {
        let body: Vec<u8> = match &self.headers.user_agent {
            Some(v) => slice_to_vec(v.as_slice()),
            None => Vec::new(),
        };
        let content_length = body.len();
        let mut text_plain: Vec<u8> = Vec::new();
        proof {
            reveal_strlit("text/plain");
        }
        assert(vstd::string::is_ascii("text/plain"));
        push_ascii(&mut text_plain, "text/plain");
        Response {
            status_line: StatusCode::_200,
            headers: ResponseHeaders {
                content_type: Some(text_plain),
                content_length: Some(content_length),
                content_encoding: self.headers.accept_encoding,
                connection: clone_opt_bytes(&self.headers.connection),
            },
            body: Some(body),
        }
    }

    /// The response for an `/echo/<message>` path.
    pub fn handle_echo(&self) -> (r: Response)
        requires
            starts_with(self.request_line.endpoint@, ascii_of("/echo/"@)),
        ensures
            r@ == spec_echo_response(self@),
    {
        let target_len = self.request_line.endpoint.len();
        proof {
            reveal_strlit("/echo/");
        }
        let body = slice_to_vec(
            slice_subrange(self.request_line.endpoint.as_slice(), 6, target_len),
        );
        let content_length = body.len();
        let mut text_plain: Vec<u8> = Vec::new();
        proof {
            reveal_strlit("text/plain");
        }
        assert(vstd::string::is_ascii("text/plain"));
        push_ascii(&mut text_plain, "text/plain");
        Response {
            status_line: StatusCode::_200,
            headers: ResponseHeaders {
                content_type: Some(text_plain),
                content_length: Some(content_length),
                content_encoding: self.headers.accept_encoding,
                connection: clone_opt_bytes(&self.headers.connection),
            },
            body: Some(body),
        }
    }

    /// The response for `GET /files/<name>`, from what reading the file at
    /// the dispatched path produced: its bytes, or nothing.
    pub fn handle_get_file(&self, file: Option<Vec<u8>>) -> (r: Response)
        ensures
            r@ == spec_get_file_response(
                self@,
                match file {
                    Some(data) => Some(data@),
                    None => None,
                },
            ),
    {
        match file {
            Some(data) => {
                let content_length = data.len();
                let mut octet_stream: Vec<u8> = Vec::new();
                proof {
                    reveal_strlit("application/octet-stream");
                }
                assert(vstd::string::is_ascii("application/octet-stream"));
                push_ascii(&mut octet_stream, "application/octet-stream");
                Response {
                    status_line: StatusCode::_200,
                    headers: ResponseHeaders {
                        content_type: Some(octet_stream),
                        content_length: Some(content_length),
                        content_encoding: self.headers.accept_encoding,
                        connection: clone_opt_bytes(&self.headers.connection),
                    },
                    body: Some(data),
                }
            },
            None => self.not_found(),
        }
    }

    /// The response for `POST /files/<name>`, after the caller wrote the
    /// request body to the dispatched path.
    pub fn handle_post_file(&self) -> (r: Response)
        ensures
            r@ == spec_post_file_response(self@),
    {
        Response {
            status_line: StatusCode::_201,
            headers: ResponseHeaders {
                content_type: None,
                content_length: None,
                content_encoding: None,
                connection: clone_opt_bytes(&self.headers.connection),
            },
            body: None,
        }
    }
}

} // verus!
