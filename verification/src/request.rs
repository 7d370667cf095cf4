//! The request definition: what is sent on every call, and the grammar of
//! the request file that defines it.
//!
//! A request file is plain bytes:
//!
//! * a request line — a method token (`GET`, `POST`, `PUT`, `DELETE`,
//!   `HEAD` or `PATCH`, uppercase), one space, and a nonempty URL without
//!   spaces — ended by a line feed;
//! * zero or more header lines, each `name: value` — a nonempty name
//!   without a colon, then a colon and a single space, then the value —
//!   each ended by a line feed, with duplicate names (byte for byte)
//!   rejected;
//! * one blank line;
//! * the body: every remaining byte, verbatim (it may be empty).
//!
//! The file is read outside this crate; its bytes are parsed here. Once
//! built, a `RequestSpec` is immutable and shared read-only across all
//! workers.

use vstd::prelude::*;

verus! {

/// The HTTP methods a request file may name.
#[derive(Clone, Copy, Debug, PartialEq, Eq, Structural)]
pub enum Method {
    Get,
    Post,
    Put,
    Delete,
    Head,
    Patch,
}

/// The resolved request: method, URL, headers and body, as parsed from
/// the request file. URL, names and values are kept as the file's bytes.
pub struct RequestSpec {
    pub method: Method,
    pub url: Vec<u8>,
    pub headers: Vec<(Vec<u8>, Vec<u8>)>,
    pub body: Vec<u8>,
}

/// The mathematical value of a request: the same fields over sequences.
pub ghost struct RequestModel {
    pub method: Method,
    pub url: Seq<u8>,
    pub headers: Seq<(Seq<u8>, Seq<u8>)>,
    pub body: Seq<u8>,
}

/// The headers of a parsed request, as sequences.
pub open spec fn headers_view(hs: Seq<(Vec<u8>, Vec<u8>)>) -> Seq<(Seq<u8>, Seq<u8>)> {
    hs.map_values(|h: (Vec<u8>, Vec<u8>)| (h.0@, h.1@))
}

impl View for RequestSpec {
    type V = RequestModel;

    open spec fn view(&self) -> RequestModel {
        RequestModel {
            method: self.method,
            url: self.url@,
            headers: headers_view(self.headers@),
            body: self.body@,
        }
    }
}

/// Why a request file was rejected.
#[derive(Clone, Copy, Debug, PartialEq, Eq, Structural)]
pub enum ParseError {
    /// The file holds no bytes at all.
    EmptyInput,
    /// The request line does not begin with a known method token.
    BadMethod,
    /// The request line has no URL, or the URL contains a space.
    BadUrl,
    /// A header line has no colon, an empty name, or no space after the
    /// colon.
    BadHeader,
    /// Two header lines carry the same name.
    DuplicateHeader,
    /// The file ends before the blank line that separates the headers
    /// from the body.
    MissingBlankLine,
}

/// The first index at or after `from` holding byte `b`, or -1.
pub open spec fn find_byte(s: Seq<u8>, b: u8, from: int) -> int
    decreases s.len() - from,
{
    if from < 0 || from >= s.len() {
        -1
    } else if s[from] == b {
        from
    } else {
        find_byte(s, b, from + 1)
    }
}

/// Where the line that starts at `from` ends: the next line feed, or the
/// end of the input.
pub open spec fn line_end(s: Seq<u8>, from: int) -> int {
    if find_byte(s, 10, from) == -1 {
        s.len() as int
    } else {
        find_byte(s, 10, from)
    }
}

/// The bytes of a method's token in the request line.
pub open spec fn method_token(m: Method) -> Seq<u8> {
    match m {
        Method::Get => seq![71u8, 69u8, 84u8],
        Method::Post => seq![80u8, 79u8, 83u8, 84u8],
        Method::Put => seq![80u8, 85u8, 84u8],
        Method::Delete => seq![68u8, 69u8, 76u8, 69u8, 84u8, 69u8],
        Method::Head => seq![72u8, 69u8, 65u8, 68u8],
        Method::Patch => seq![80u8, 65u8, 84u8, 67u8, 72u8],
    }
}

/// The method a token names, if any.
pub open spec fn method_of(t: Seq<u8>) -> Option<Method> {
    if t == method_token(Method::Get) {
        Some(Method::Get)
    } else if t == method_token(Method::Post) {
        Some(Method::Post)
    } else if t == method_token(Method::Put) {
        Some(Method::Put)
    } else if t == method_token(Method::Delete) {
        Some(Method::Delete)
    } else if t == method_token(Method::Head) {
        Some(Method::Head)
    } else if t == method_token(Method::Patch) {
        Some(Method::Patch)
    } else {
        None
    }
}

/// A URL is nonempty and holds no space.
pub open spec fn valid_url(u: Seq<u8>) -> bool {
    u.len() > 0 && forall|i: int| 0 <= i < u.len() ==> u[i] != 32
}

/// Parse the request line: a method token, one space, the URL.
pub open spec fn parse_request_line_spec(s: Seq<u8>) -> Result<(Method, Seq<u8>), ParseError> {
    let e = line_end(s, 0);
    let k = find_byte(s, 32, 0);
    let method_end = if k == -1 || k > e {
        e
    } else {
        k
    };
    match method_of(s.subrange(0, method_end)) {
        None => Err(ParseError::BadMethod),
        Some(m) => if method_end >= e {
            Err(ParseError::BadUrl)
        } else {
            let url = s.subrange(method_end + 1, e);
            if valid_url(url) {
                Ok((m, url))
            } else {
                Err(ParseError::BadUrl)
            }
        },
    }
}

/// Parse one header line, the bytes `pos .. e`: a nonempty name, a colon,
/// a single space, the value.
pub open spec fn parse_header_line_spec(s: Seq<u8>, pos: int, e: int) -> Result<
    (Seq<u8>, Seq<u8>),
    ParseError,
> {
    let k = find_byte(s, 58, pos);
    if k == -1 || k >= e || k == pos {
        Err(ParseError::BadHeader)
    } else if k + 1 >= e || s[k + 1] != 32 {
        Err(ParseError::BadHeader)
    } else {
        Ok((s.subrange(pos, k), s.subrange(k + 2, e)))
    }
}

/// Whether some already-parsed header carries `name`.
pub open spec fn has_name(acc: Seq<(Seq<u8>, Seq<u8>)>, name: Seq<u8>) -> bool {
    exists|i: int| 0 <= i < acc.len() && acc[i].0 == name
}

/// Parse header lines from `pos` until the blank line, accumulating into
/// `acc`; yields the headers and the index where the body begins.
pub open spec fn parse_headers_from(s: Seq<u8>, pos: int, acc: Seq<(Seq<u8>, Seq<u8>)>) -> Result<
    (Seq<(Seq<u8>, Seq<u8>)>, int),
    ParseError,
>
    decreases s.len() - pos,
{
    if pos >= s.len() {
        Err(ParseError::MissingBlankLine)
    } else {
        let e = line_end(s, pos);
        if e <= pos {
            Ok((acc, pos + 1))
        } else {
            match parse_header_line_spec(s, pos, e) {
                Err(err) => Err(err),
                Ok(h) => if has_name(acc, h.0) {
                    Err(ParseError::DuplicateHeader)
                } else {
                    parse_headers_from(
                        s,
                        if e >= s.len() {
                            s.len() as int
                        } else {
                            e + 1
                        },
                        acc.push(h),
                    )
                },
            }
        }
    }
}

/// Parse a whole request file.
pub open spec fn parse_spec(s: Seq<u8>) -> Result<RequestModel, ParseError> {
    if s.len() == 0 {
        Err(ParseError::EmptyInput)
    } else {
        match parse_request_line_spec(s) {
            Err(e) => Err(e),
            Ok((m, url)) => {
                let e0 = line_end(s, 0);
                let hstart = if e0 >= s.len() {
                    s.len() as int
                } else {
                    e0 + 1
                };
                match parse_headers_from(s, hstart, Seq::empty()) {
                    Err(err) => Err(err),
                    Ok((hs, bodystart)) => Ok(
                        RequestModel {
                            method: m,
                            url,
                            headers: hs,
                            body: s.subrange(bodystart, s.len() as int),
                        },
                    ),
                }
            },
        }
    }
}

/// When `find_byte` reports no hit, no index at or after `from` holds `b`.
pub proof fn lemma_find_byte_none(s: Seq<u8>, b: u8, from: int)
    requires
        0 <= from,
        find_byte(s, b, from) == -1,
    ensures
        forall|i: int| from <= i < s.len() ==> s[i] != b,
    decreases s.len() - from,
{
    if from < s.len() {
        lemma_find_byte_none(s, b, from + 1);
    }
}

/// Find the first occurrence of `b` at or after `from`.
fn find_byte_exec(s: &Vec<u8>, b: u8, from: usize) -> (r: Option<usize>)
    requires
        from <= s@.len(),
    ensures
        match r {
            Some(i) => find_byte(s@, b, from as int) == i && from <= i < s@.len() && s@[i as int]
                == b,
            None => find_byte(s@, b, from as int) == -1,
        },
{
    let n: usize = s.len();
    let mut i: usize = from;
    while i < n
        invariant
            n == s@.len(),
            from <= i <= n,
            find_byte(s@, b, from as int) == find_byte(s@, b, i as int),
        decreases n - i,
    {
        if s[i] == b {
            return Some(i);
        }
        i = i + 1;
    }
    None
}

/// Find where the line starting at `from` ends.
fn line_end_exec(s: &Vec<u8>, from: usize) -> (r: usize)
    requires
        from <= s@.len(),
    ensures
        r == line_end(s@, from as int),
        from <= r <= s@.len(),
    {
    match find_byte_exec(s, 10, from) {
        Some(i) => i,
        None => s.len(),
    }
}

/// Copy the bytes `a .. b` of `s`.
fn copy_range(s: &Vec<u8>, a: usize, b: usize) -> (r: Vec<u8>)
    requires
        a <= b <= s@.len(),
    ensures
        r@ == s@.subrange(a as int, b as int),
{
    let mut r: Vec<u8> = Vec::new();
    let mut i: usize = a;
    while i < b
        invariant
            a <= i <= b <= s@.len(),
            r@ =~= s@.subrange(a as int, i as int),
        decreases b - i,
    {
        r.push(s[i]);
        proof {
            assert(r@ =~= s@.subrange(a as int, i as int + 1));
        }
        i = i + 1;
    }
    proof {
        assert(r@ =~= s@.subrange(a as int, b as int));
    }
    r
}

/// Whether two byte strings hold the same bytes.
fn bytes_eq(a: &Vec<u8>, b: &Vec<u8>) -> (r: bool)
    ensures
        r == (a@ == b@),
{
    let n: usize = a.len();
    if n != b.len() {
        return false;
    }
    let mut i: usize = 0;
    while i < n
        invariant
            n == a@.len() == b@.len(),
            i <= n,
            forall|j: int| 0 <= j < i ==> a@[j] == b@[j],
        decreases n - i,
    {
        if a[i] != b[i] {
            return false;
        }
        i = i + 1;
    }
    proof {
        assert(a@ =~= b@);
    }
    true
}

/// The method a token names, if any.
fn method_of_bytes(t: &Vec<u8>) -> (r: Option<Method>)
    ensures
        r == method_of(t@),
{
    if t.len() == 3 && t[0] == 71 && t[1] == 69 && t[2] == 84 {
        proof {
            assert(t@ =~= method_token(Method::Get));
        }
        Some(Method::Get)
    } else if t.len() == 4 && t[0] == 80 && t[1] == 79 && t[2] == 83 && t[3] == 84 {
        proof {
            assert(t@ =~= method_token(Method::Post));
        }
        Some(Method::Post)
    } else if t.len() == 3 && t[0] == 80 && t[1] == 85 && t[2] == 84 {
        proof {
            assert(t@ =~= method_token(Method::Put));
        }
        Some(Method::Put)
    } else if t.len() == 6 && t[0] == 68 && t[1] == 69 && t[2] == 76 && t[3] == 69 && t[4] == 84
        && t[5] == 69 {
        proof {
            assert(t@ =~= method_token(Method::Delete));
        }
        Some(Method::Delete)
    } else if t.len() == 4 && t[0] == 72 && t[1] == 69 && t[2] == 65 && t[3] == 68 {
        proof {
            assert(t@ =~= method_token(Method::Head));
        }
        Some(Method::Head)
    } else if t.len() == 5 && t[0] == 80 && t[1] == 65 && t[2] == 84 && t[3] == 67 && t[4] == 72 {
        proof {
            assert(t@ =~= method_token(Method::Patch));
        }
        Some(Method::Patch)
    } else {
        proof {
            assert(t@ != method_token(Method::Get));
            assert(t@ != method_token(Method::Post));
            assert(t@ != method_token(Method::Put));
            assert(t@ != method_token(Method::Delete));
            assert(t@ != method_token(Method::Head));
            assert(t@ != method_token(Method::Patch));
        }
        None
    }
}

/// Whether an already-parsed header carries `name`.
fn contains_name(headers: &Vec<(Vec<u8>, Vec<u8>)>, name: &Vec<u8>) -> (r: bool)
    ensures
        r == has_name(headers_view(headers@), name@),
{
    let n: usize = headers.len();
    let mut i: usize = 0;
    while i < n
        invariant
            n == headers@.len(),
            i <= n,
            forall|j: int| 0 <= j < i ==> headers_view(headers@)[j].0 != name@,
        decreases n - i,
    {
        if bytes_eq(&headers[i].0, name) {
            proof {
                assert(headers_view(headers@)[i as int].0 == name@);
            }
            return true;
        }
        i = i + 1;
    }
    false
}

/// Parse a request file. The result is exactly what the grammar's
/// reading (`parse_spec`) gives on the same bytes: the parsed request on
/// a well-formed file, and the first error the grammar finds otherwise.
#[verifier::loop_isolation(false)]
pub fn parse_request(input: &Vec<u8>) -> (r: Result<RequestSpec, ParseError>)
    ensures
        match r {
            Ok(spec) => parse_spec(input@) == Ok::<RequestModel, ParseError>(spec@),
            Err(e) => parse_spec(input@) == Err::<RequestModel, ParseError>(e),
        },
{
    let n: usize = input.len();
    if n == 0 {
        return Err(ParseError::EmptyInput);
    }
    let e0 = line_end_exec(input, 0);
    let k = find_byte_exec(input, 32, 0);
    let method_end: usize = match k {
        None => e0,
        Some(kk) => if kk > e0 {
            e0
        } else {
            kk
        },
    };
    let token = copy_range(input, 0, method_end);
    let m = match method_of_bytes(&token) {
        None => {
            return Err(ParseError::BadMethod);
        },
        Some(m) => m,
    };
    if method_end >= e0 {
        return Err(ParseError::BadUrl);
    }
    let url = copy_range(input, method_end + 1, e0);
    if url.len() == 0 {
        return Err(ParseError::BadUrl);
    }
    match find_byte_exec(&url, 32, 0) {
        Some(_) => {
            return Err(ParseError::BadUrl);
        },
        None => {
            proof {
                lemma_find_byte_none(url@, 32, 0);
            }
        },
    }
    assert(parse_request_line_spec(input@) == Ok::<(Method, Seq<u8>), ParseError>((m, url@)));
    let ghost hstart: int = if e0 >= n {
        n as int
    } else {
        e0 as int + 1
    };
    let mut headers: Vec<(Vec<u8>, Vec<u8>)> = Vec::new();
    let mut pos: usize = if e0 >= n {
        n
    } else {
        e0 + 1
    };
    proof {
        assert(headers_view(headers@) =~= Seq::<(Seq<u8>, Seq<u8>)>::empty());
    }
    loop
        invariant
            pos <= n,
            parse_headers_from(input@, hstart, Seq::empty()) == parse_headers_from(
                input@,
                pos as int,
                headers_view(headers@),
            ),
        decreases n - pos,
    {
        if pos >= n {
            return Err(ParseError::MissingBlankLine);
        }
        let e = line_end_exec(input, pos);
        if e == pos {
            let body = copy_range(input, pos + 1, n);
            let req = RequestSpec { method: m, url, headers, body };
            return Ok(req);
        }
        let kk = match find_byte_exec(input, 58, pos) {
            None => {
                return Err(ParseError::BadHeader);
            },
            Some(kk) => kk,
        };
        if kk >= e || kk == pos {
            return Err(ParseError::BadHeader);
        }
        if kk + 1 >= e || input[kk + 1] != 32 {
            return Err(ParseError::BadHeader);
        }
        let name = copy_range(input, pos, kk);
        let value = copy_range(input, kk + 2, e);
        if contains_name(&headers, &name) {
            return Err(ParseError::DuplicateHeader);
        }
        let ghost old_headers = headers@;
        let ghost gname = name@;
        let ghost gvalue = value@;
        headers.push((name, value));
        proof {
            assert(headers_view(headers@) =~= headers_view(old_headers).push((gname, gvalue)));
        }
        pos = if e >= n {
            n
        } else {
            e + 1
        };
    }
}

} // verus!
