use vstd::prelude::*;
use vstd::slice::slice_to_vec;
use vstd::utf8::encode_utf8;
use crate::request::{Method, Request, RequestError, parse_request, parse_spec};

verus! {

/// Capacity of the buffer a connection's request is read into.
pub const REQUEST_BUFFER_SIZE: usize = 1028;

/// Server configuration, shared read-only by every connection.
pub struct Setting {
    pub ws_port: String,
    pub root_dir: String,
    pub default_file: String,
}

impl Default for Setting {
    fn default() -> (r: Setting)
        ensures
            r.ws_port@ == "8082"@,
            r.root_dir@ == "./"@,
            r.default_file@ == "hello-world.html"@,
    {
        Setting {
            ws_port: String::from_str("8082"),
            root_dir: String::from_str("./"),
            default_file: String::from_str("hello-world.html"),
        }
    }
}

/// What a connection needs next: a file read, whose contents then go to
/// `file_response`, or a reply that is already complete.
#[derive(Debug, PartialEq, Eq)]
pub enum Action {
    ReadFile(String),
    Reply(String),
}

/// The kinds of error reply.
#[derive(Debug, Clone, Copy, PartialEq, Eq, Structural)]
pub enum Failure {
    BadRequest,
    NotFound,
    UnsupportedMethod,
    UnrecognizedMethod,
    RequestTooLarge,
}

/// The reply to a successful GET, as bytes: the status line, a blank line,
/// then the file's contents verbatim.
pub open spec fn ok_response(body: Seq<u8>) -> Seq<u8> {
    encode_utf8("HTTP/1.1 200 OK \r\n\r\n"@) + body
}

/// The reply for each kind of failure.
pub open spec fn failure_response(f: Failure) -> Seq<char> {
    match f {
        Failure::BadRequest => "HTTP/1.1 400 BAD REQUEST\r\n\r\n"@,
        Failure::NotFound => "HTTP/1.1 404 NOT FOUND\r\n\r\n"@,
        Failure::UnsupportedMethod => "HTTP/1.1 405 METHOD NOT ALLOWED\r\n\r\n"@,
        Failure::UnrecognizedMethod => "HTTP/1.1 501 NOT IMPLEMENTED\r\n\r\n"@,
        Failure::RequestTooLarge => "HTTP/1.1 431 REQUEST HEADER FIELDS TOO LARGE\r\n\r\n"@,
    }
}

/// `rel` appended to `base` as a path component: an absolute `rel`
/// replaces `base`; otherwise one `/` separates them unless `base` is empty
/// or already ends in one.
pub open spec fn join_path(base: Seq<char>, rel: Seq<char>) -> Seq<char> {
    if rel.len() > 0 && rel[0] == '/' {
        rel
    } else if base.len() == 0 || base.last() == '/' {
        base + rel
    } else {
        base + seq!['/'] + rel
    }
}

/// The file a GET for `path` reads: the default file for `/`, otherwise the
/// path without its leading `/`, under the root directory.
pub open spec fn target_spec(root: Seq<char>, default_file: Seq<char>, path: Seq<char>) -> Seq<
    char,
> {
    if path == seq!['/'] {
        join_path(root, default_file)
    } else if path.len() > 0 && path[0] == '/' {
        join_path(root, path.drop_first())
    } else {
        join_path(root, path)
    }
}

/// The action for a parsed request: GET reads its target file; any other
/// method is answered as unsupported.
pub open spec fn handle_spec(
    m: Method,
    path: Seq<char>,
    root: Seq<char>,
    default_file: Seq<char>,
) -> (bool, Seq<char>) {
    match m {
        Method::GET => (true, target_spec(root, default_file, path)),
        _ => (false, failure_response(Failure::UnsupportedMethod)),
    }
}

/// The action for a request text: a reply for a missing, malformed or
/// unrecognised request line, otherwise the action for the parsed request.
/// The boolean says whether the action is a file read.
pub open spec fn route_spec(text: Seq<char>, root: Seq<char>, default_file: Seq<char>) -> (
    bool,
    Seq<char>,
) {
    match parse_spec(text) {
        Ok(None) => (false, failure_response(Failure::BadRequest)),
        Err(RequestError::Malformed) => (false, failure_response(Failure::BadRequest)),
        Err(RequestError::UnrecognizedMethod) => (
            false,
            failure_response(Failure::UnrecognizedMethod),
        ),
        Ok(Some((m, p))) => handle_spec(m, p, root, default_file),
    }
}

/// The content of an `Action`, with whether it is a file read.
pub open spec fn action_spec(a: &Action) -> (bool, Seq<char>) {
    match a {
        Action::ReadFile(p) => (true, p@),
        Action::Reply(r) => (false, r@),
    }
}

/// Whether the raw bytes of a request hold a line break.
pub open spec fn has_line_break(raw: Seq<u8>) -> bool {
    exists|i: int| 0 <= i < raw.len() && raw[i] == 10u8
}

/// The text that lossy UTF-8 decoding makes of some bytes.
pub uninterp spec fn lossy_text(b: Seq<u8>) -> Seq<char>;

/// Relies on `String::from_utf8_lossy`: decodes the bytes, substituting
/// U+FFFD for invalid sequences; the result depends on the bytes alone.
#[verifier::external_body]
fn decode_lossy(raw: &[u8]) -> (r: String)
    ensures
        r@ == lossy_text(raw@),
{
    String::from_utf8_lossy(raw).into_owned()
}

/// The reply for a failure kind.
pub fn failure_reply(f: Failure) -> (r: String)
    ensures
        r@ == failure_response(f),
{
    match f {
        Failure::BadRequest => String::from_str("HTTP/1.1 400 BAD REQUEST\r\n\r\n"),
        Failure::NotFound => String::from_str("HTTP/1.1 404 NOT FOUND\r\n\r\n"),
        Failure::UnsupportedMethod => String::from_str("HTTP/1.1 405 METHOD NOT ALLOWED\r\n\r\n"),
        Failure::UnrecognizedMethod => String::from_str("HTTP/1.1 501 NOT IMPLEMENTED\r\n\r\n"),
        Failure::RequestTooLarge => String::from_str(
            "HTTP/1.1 431 REQUEST HEADER FIELDS TOO LARGE\r\n\r\n",
        ),
    }
}

/// Joins `rel` onto `base` as a path component.
pub fn join(base: &str, rel: &str) -> (r: String)
    ensures
        r@ == join_path(base@, rel@),
{
    let bn = base.unicode_len();
    let rn = rel.unicode_len();
    if rn > 0 && rel.get_char(0) == '/' {
        String::from_str(rel)
    } else if bn == 0 || base.get_char(bn - 1) == '/' {
        String::from_str(base).concat(rel)
    } else {
        proof {
            reveal_strlit("/");
            assert("/"@ =~= seq!['/']);
        }
        String::from_str(base).concat("/").concat(rel)
    }
}

/// The file that a GET for `path` reads under the given setting.
pub fn target_path(setting: &Setting, path: &str) -> (r: String)
    ensures
        r@ == target_spec(setting.root_dir@, setting.default_file@, path@),
{
    let n = path.unicode_len();
    if n == 1 && path.get_char(0) == '/' {
        assert(path@ == seq!['/']);
        join(setting.root_dir.as_str(), setting.default_file.as_str())
    } else if n > 0 && path.get_char(0) == '/' {
        join(setting.root_dir.as_str(), path.substring_char(1, n))
    } else {
        join(setting.root_dir.as_str(), path)
    }
}

/// Decides what to do for a parsed request: a GET reads the file its path
/// names; PUT and POST get the unsupported-method reply.
pub fn handle_request(req: &Request, setting: &Setting) -> (r: Action)
    ensures
        action_spec(&r) == handle_spec(
            req.method,
            req.path@,
            setting.root_dir@,
            setting.default_file@,
        ),
{
    match req.method {
        Method::GET => Action::ReadFile(target_path(setting, req.path.as_str())),
        _ => Action::Reply(failure_reply(Failure::UnsupportedMethod)),
    }
}

/// The reply once the file has been read, as bytes: its contents verbatim
/// after the success status line, or the not-found reply when it could not
/// be read.
pub fn file_response(contents: Option<Vec<u8>>) -> (r: Vec<u8>)
    ensures
        r@ == match contents {
            Some(c) => ok_response(c@),
            None => encode_utf8(failure_response(Failure::NotFound)),
        },
{
    match contents {
        Some(c) => {
            let mut body = c;
            let mut r = slice_to_vec("HTTP/1.1 200 OK \r\n\r\n".as_bytes());
            r.append(&mut body);
            r
        },
        None => {
            let text = failure_reply(Failure::NotFound);
            slice_to_vec(text.as_str().as_bytes())
        },
    }
}

/// Decides what to do for a request text: parse its request line, reply to
/// what cannot be served, and hand a GET on to its file read.
pub fn route(text: String, setting: &Setting) -> (r: Action)
    ensures
        action_spec(&r) == route_spec(text@, setting.root_dir@, setting.default_file@),
{
    match parse_request(text) {
        Ok(None) => Action::Reply(failure_reply(Failure::BadRequest)),
        Err(RequestError::Malformed) => Action::Reply(failure_reply(Failure::BadRequest)),
        Err(RequestError::UnrecognizedMethod) => Action::Reply(
            failure_reply(Failure::UnrecognizedMethod),
        ),
        Ok(Some(req)) => handle_request(&req, setting),
    }
}

fn holds_line_break(raw: &[u8]) -> (r: bool)
    ensures
        r == has_line_break(raw@),
{
    let mut i: usize = 0;
    while i < raw.len()
        invariant
            i <= raw@.len(),
            forall|k: int| 0 <= k < i ==> raw@[k] != 10u8,
        decreases raw@.len() - i,
    {
        if raw[i] == 10u8 {
            return true;
        }
        i = i + 1;
    }
    false
}

/// Decides what to do for the bytes read from one connection. A read that
/// filled the whole buffer without ending the request line is refused as too
/// large; otherwise the bytes are decoded, substituting for invalid
/// sequences, and routed. Nothing but these bytes and the setting is read.
pub fn plan_connection(raw: &[u8], setting: &Setting) -> (r: Action)
    ensures
        raw@.len() >= REQUEST_BUFFER_SIZE && !has_line_break(raw@) ==> action_spec(&r) == (
            false,
            failure_response(Failure::RequestTooLarge),
        ),
        !(raw@.len() >= REQUEST_BUFFER_SIZE && !has_line_break(raw@)) ==> action_spec(&r)
            == route_spec(lossy_text(raw@), setting.root_dir@, setting.default_file@),
{
    if raw.len() >= REQUEST_BUFFER_SIZE && !holds_line_break(raw) {
        return Action::Reply(failure_reply(Failure::RequestTooLarge));
    }
    route(decode_lossy(raw), setting)
}

} // verus!
