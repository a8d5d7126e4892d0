use vstd::prelude::*;

verus! {

/// The request methods this server recognises.
#[derive(Debug, Clone, Copy, PartialEq, Eq, Structural)]
pub enum Method {
    GET,
    PUT,
    POST,
}

/// A parsed request line: its method and its path, taken verbatim.
#[derive(Debug, PartialEq, Eq)]
pub struct Request {
    pub method: Method,
    pub path: String,
}

/// Why a request line could not be parsed.
#[derive(Debug, Clone, Copy, PartialEq, Eq, Structural)]
pub enum RequestError {
    /// The first line lacks a method token or a path token.
    Malformed,
    /// The method token is none of `GET`, `PUT`, `POST`.
    UnrecognizedMethod,
}

/// The characters that `split_ascii_whitespace` splits on.
pub open spec fn is_ascii_ws(c: char) -> bool {
    c == ' ' || c == '\t' || c == '\n' || c == '\r' || c == '\x0C'
}

/// The index of the first `'\n'` at or after `i`, or the length.
pub open spec fn line_end(s: Seq<char>, i: int) -> int
    decreases s.len() - i,
{
    if i < 0 || i >= s.len() || s[i] == '\n' {
        i
    } else {
        line_end(s, i + 1)
    }
}

/// The first line of `s`, without its line break.
pub open spec fn first_line(s: Seq<char>) -> Seq<char> {
    s.take(line_end(s, 0))
}

/// The index of the first non-whitespace character at or after `i`.
pub open spec fn skip_ws(s: Seq<char>, i: int) -> int
    decreases s.len() - i,
{
    if 0 <= i < s.len() && is_ascii_ws(s[i]) {
        skip_ws(s, i + 1)
    } else {
        i
    }
}

/// The index just past the token that starts at `i`.
pub open spec fn token_end(s: Seq<char>, i: int) -> int
    decreases s.len() - i,
{
    if 0 <= i < s.len() && !is_ascii_ws(s[i]) {
        token_end(s, i + 1)
    } else {
        i
    }
}

/// The method that a token names, matched case-sensitively.
pub open spec fn method_of(t: Seq<char>) -> Option<Method> {
    if t == seq!['G', 'E', 'T'] {
        Some(Method::GET)
    } else if t == seq!['P', 'U', 'T'] {
        Some(Method::PUT)
    } else if t == seq!['P', 'O', 'S', 'T'] {
        Some(Method::POST)
    } else {
        None
    }
}

/// What parsing the text `s` yields: nothing for empty text; otherwise the
/// method (first token) and path (second token) of the first line.
pub open spec fn parse_spec(s: Seq<char>) -> Result<Option<(Method, Seq<char>)>, RequestError> {
    if s.len() == 0 {
        Ok(None)
    } else {
        let l = first_line(s);
        let a = skip_ws(l, 0);
        let b = token_end(l, a);
        let c = skip_ws(l, b);
        let d = token_end(l, c);
        if a == b {
            Err(RequestError::Malformed)
        } else {
            match method_of(l.subrange(a, b)) {
                None => Err(RequestError::UnrecognizedMethod),
                Some(m) => if c == d {
                    Err(RequestError::Malformed)
                } else {
                    Ok(Some((m, l.subrange(c, d))))
                },
            }
        }
    }
}

impl Method {
    /// The method's name as it appears on the wire.
    pub fn name(&self) -> (r: &'static str)
        ensures
            method_of(r@) == Some(*self),
    {
        proof {
            reveal_strlit("GET");
            reveal_strlit("PUT");
            reveal_strlit("POST");
            assert("GET"@ =~= seq!['G', 'E', 'T']);
            assert("PUT"@ =~= seq!['P', 'U', 'T']);
            assert("POST"@ =~= seq!['P', 'O', 'S', 'T']);
        }
        match self {
            Method::GET => "GET",
            Method::PUT => "PUT",
            Method::POST => "POST",
        }
    }
}

fn find_line_end(s: &str, n: usize) -> (r: usize)
    requires
        n == s@.len(),
    ensures
        r == line_end(s@, 0),
        r <= n,
{
    let mut i: usize = 0;
    while i < n && s.get_char(i) != '\n'
        invariant
            n == s@.len(),
            i <= n,
            line_end(s@, i as int) == line_end(s@, 0),
        decreases n - i,
    {
        i = i + 1;
    }
    i
}

fn is_ws(c: char) -> (r: bool)
    ensures
        r == is_ascii_ws(c),
{
    c == ' ' || c == '\t' || c == '\n' || c == '\r' || c == '\x0C'
}

fn skip_whitespace(s: &str, n: usize, from: usize) -> (r: usize)
    requires
        n == s@.len(),
        from <= n,
    ensures
        r == skip_ws(s@, from as int),
        from <= r <= n,
{
    let mut i = from;
    while i < n && is_ws(s.get_char(i))
        invariant
            n == s@.len(),
            from <= i <= n,
            skip_ws(s@, i as int) == skip_ws(s@, from as int),
        decreases n - i,
    {
        i = i + 1;
    }
    i
}

fn end_of_token(s: &str, n: usize, from: usize) -> (r: usize)
    requires
        n == s@.len(),
        from <= n,
    ensures
        r == token_end(s@, from as int),
        from <= r <= n,
{
    let mut i = from;
    while i < n && !is_ws(s.get_char(i))
        invariant
            n == s@.len(),
            from <= i <= n,
            token_end(s@, i as int) == token_end(s@, from as int),
        decreases n - i,
    {
        i = i + 1;
    }
    i
}

fn match_method(t: &str) -> (r: Option<Method>)
    ensures
        r == method_of(t@),
{
    let n = t.unicode_len();
    if n == 3 && t.get_char(0) == 'G' && t.get_char(1) == 'E' && t.get_char(2) == 'T' {
        assert(t@ == seq!['G', 'E', 'T']);
        Some(Method::GET)
    } else if n == 3 && t.get_char(0) == 'P' && t.get_char(1) == 'U' && t.get_char(2) == 'T' {
        assert(t@ == seq!['P', 'U', 'T']);
        Some(Method::PUT)
    } else if n == 4 && t.get_char(0) == 'P' && t.get_char(1) == 'O' && t.get_char(2) == 'S'
        && t.get_char(3) == 'T' {
        assert(t@ == seq!['P', 'O', 'S', 'T']);
        Some(Method::POST)
    } else {
        None
    }
}

/// Parses the request line: the first line of `req`, split on ASCII
/// whitespace, gives the method (first token) and the path (second token,
/// verbatim). Empty text has no request line and yields `Ok(None)`.
pub fn parse_request(req: String) -> (r: Result<Option<Request>, RequestError>)
    ensures
        match parse_spec(req@) {
            Ok(None) => r matches Ok(None),
            Ok(Some((m, p))) => r matches Ok(Some(q)) && q.method == m && q.path@ == p,
            Err(e) => r == Err::<Option<Request>, RequestError>(e),
        },
{
    let total = req.as_str().unicode_len();
    if total == 0 {
        return Ok(None);
    }
    let e = find_line_end(req.as_str(), total);
    let line = req.as_str().substring_char(0, e);
    let n = line.unicode_len();
    let a = skip_whitespace(line, n, 0);
    let b = end_of_token(line, n, a);
    let c = skip_whitespace(line, n, b);
    let d = end_of_token(line, n, c);
    if a == b {
        return Err(RequestError::Malformed);
    }
    match match_method(line.substring_char(a, b)) {
        None => Err(RequestError::UnrecognizedMethod),
        Some(method) => {
            if c == d {
                Err(RequestError::Malformed)
            } else {
                let path = String::from_str(line.substring_char(c, d));
                Ok(Some(Request { method, path }))
            }
        },
    }
}

} // verus!
