//! The fixed control-plane header protocol.
//!
//! Every exchange between a node and its control client is a fixed header,
//! optionally followed by an encoded body. A request header carries an
//! identifier, a resource path, a method and a body-present flag; a response
//! header carries its own identifier, the identifier of the request it
//! answers, a status code and a body-present flag. Headers are framed as
//! CBOR maps whose keys are small integers; optional fields are omitted
//! when unset.
//!
//! Decoding is deliberately strict about framing: a header map is accepted
//! exactly in the fixed field order the encoders of every protocol
//! revision emit, with no unknown keys. Forwards compatibility lies in the
//! values: an absent method or status entry, an unknown method index and
//! an unknown status code all decode, as `None`.

use crate::cbor::{
    dec_bool, dec_text, dec_uint, push_bool, push_map, push_text, push_uint, read_bool, read_head,
    read_text, read_uint, spec_bool, spec_map, spec_text, spec_uint,
};
use crate::cbor;
use vstd::prelude::*;
use vstd::string::StrSliceExecFns;

verus! {

/// Relies on `rand::random`: a value drawn from the thread-local generator.
/// Nothing is promised of the value.
pub assume_specification<T>[ rand::random::<T> ]() -> (r: T)
    where rand::distributions::Standard: rand::distributions::Distribution<T>,
;

/// A request/response identifier.
#[derive(Debug, Default, Copy, Clone, PartialEq, Eq, Structural, Hash)]
pub struct Id(pub u32);

impl Id {
    /// A fresh, random identifier, never equal to zero (the default).
    pub fn fresh() -> (r: Self)
        ensures
            r.0 != 0,
    {
        let v: u32 = rand::random();
        Id(v.saturating_add(1))
    }
}

/// Request methods.
#[derive(Debug, Copy, Clone, PartialEq, Eq, Structural)]
pub enum Method {
    Get,
    Post,
    Put,
    Delete,
    Patch,
}

/// The wire index of a method.
pub open spec fn spec_method_index(m: Method) -> u64 {
    match m {
        Method::Get => 0,
        Method::Post => 1,
        Method::Put => 2,
        Method::Delete => 3,
        Method::Patch => 4,
    }
}

/// The method a wire index denotes; indices added by later protocol
/// revisions decode to `None`.
pub open spec fn spec_method_of_index(v: u64) -> Option<Method> {
    if v == 0 {
        Some(Method::Get)
    } else if v == 1 {
        Some(Method::Post)
    } else if v == 2 {
        Some(Method::Put)
    } else if v == 3 {
        Some(Method::Delete)
    } else if v == 4 {
        Some(Method::Patch)
    } else {
        None
    }
}

impl Method {
    /// The wire index of this method.
    pub fn index(&self) -> (r: u64)
        ensures
            r == spec_method_index(*self),
    {
        match self {
            Method::Get => 0,
            Method::Post => 1,
            Method::Put => 2,
            Method::Delete => 3,
            Method::Patch => 4,
        }
    }

    /// The method a wire index denotes.
    pub fn of_index(v: u64) -> (r: Option<Method>)
        ensures
            r == spec_method_of_index(v),
    {
        if v == 0 {
            Some(Method::Get)
        } else if v == 1 {
            Some(Method::Post)
        } else if v == 2 {
            Some(Method::Put)
        } else if v == 3 {
            Some(Method::Delete)
        } else if v == 4 {
            Some(Method::Patch)
        } else {
            None
        }
    }

    /// The textual name of this method.
    pub fn text(&self) -> (r: &'static str)
        ensures
            r@ == spec_method_text(*self),
    {
        match self {
            Method::Get => "GET",
            Method::Post => "POST",
            Method::Put => "PUT",
            Method::Delete => "DELETE",
            Method::Patch => "PATCH",
        }
    }
}

/// The textual name of a method.
pub open spec fn spec_method_text(m: Method) -> Seq<char> {
    match m {
        Method::Get => "GET"@,
        Method::Post => "POST"@,
        Method::Put => "PUT"@,
        Method::Delete => "DELETE"@,
        Method::Patch => "PATCH"@,
    }
}

/// The response status codes.
#[derive(Debug, Copy, Clone, PartialEq, Eq, Structural, Hash)]
pub enum Status {
    Okay,
    BadRequest,
    Unauthorized,
    Forbidden,
    NotFound,
    Conflict,
    MethodNotAllowed,
    InternalServerError,
    NotImplemented,
}

/// The numeric wire code of a status.
pub open spec fn spec_status_code(s: Status) -> u64 {
    match s {
        Status::Okay => 200,
        Status::BadRequest => 400,
        Status::Unauthorized => 401,
        Status::Forbidden => 403,
        Status::NotFound => 404,
        Status::Conflict => 409,
        Status::MethodNotAllowed => 405,
        Status::InternalServerError => 500,
        Status::NotImplemented => 501,
    }
}

/// The status a wire code denotes; codes added by later protocol revisions
/// decode to `None`.
pub open spec fn spec_status_of_code(v: u64) -> Option<Status> {
    if v == 200 {
        Some(Status::Okay)
    } else if v == 400 {
        Some(Status::BadRequest)
    } else if v == 401 {
        Some(Status::Unauthorized)
    } else if v == 403 {
        Some(Status::Forbidden)
    } else if v == 404 {
        Some(Status::NotFound)
    } else if v == 409 {
        Some(Status::Conflict)
    } else if v == 405 {
        Some(Status::MethodNotAllowed)
    } else if v == 500 {
        Some(Status::InternalServerError)
    } else if v == 501 {
        Some(Status::NotImplemented)
    } else {
        None
    }
}

impl Status {
    /// The numeric wire code of this status.
    pub fn code(&self) -> (r: u64)
        ensures
            r == spec_status_code(*self),
    {
        match self {
            Status::Okay => 200,
            Status::BadRequest => 400,
            Status::Unauthorized => 401,
            Status::Forbidden => 403,
            Status::NotFound => 404,
            Status::Conflict => 409,
            Status::MethodNotAllowed => 405,
            Status::InternalServerError => 500,
            Status::NotImplemented => 501,
        }
    }

    /// The status a wire code denotes.
    pub fn of_code(v: u64) -> (r: Option<Status>)
        ensures
            r == spec_status_of_code(v),
    {
        if v == 200 {
            Some(Status::Okay)
        } else if v == 400 {
            Some(Status::BadRequest)
        } else if v == 401 {
            Some(Status::Unauthorized)
        } else if v == 403 {
            Some(Status::Forbidden)
        } else if v == 404 {
            Some(Status::NotFound)
        } else if v == 409 {
            Some(Status::Conflict)
        } else if v == 405 {
            Some(Status::MethodNotAllowed)
        } else if v == 500 {
            Some(Status::InternalServerError)
        } else if v == 501 {
            Some(Status::NotImplemented)
        } else {
            None
        }
    }
}

/// A request header.
#[derive(Debug, Clone)]
pub struct Request {
    /// The request identifier.
    pub id: Id,
    /// The resource path.
    pub path: String,
    /// The request method; `None` preserves an unknown method seen on the
    /// wire.
    pub method: Option<Method>,
    /// Whether a request body follows this header.
    pub has_body: bool,
}

/// A response header.
#[derive(Debug, Clone)]
pub struct Response {
    /// The response identifier.
    pub id: Id,
    /// The identifier of the request this response answers.
    pub re: Id,
    /// The status code; `None` preserves an unknown code seen on the wire.
    pub status: Option<Status>,
    /// Whether a response body follows this header.
    pub has_body: bool,
}

/// An error body, carried by failure responses.
#[derive(Debug, Clone)]
pub struct Error {
    /// The resource path the failing request addressed.
    pub path: Option<String>,
    /// The method of the failing request.
    pub method: Option<Method>,
    /// A human-readable message.
    pub message: Option<String>,
}

impl Default for Error {
    /// An empty error body.
    fn default() -> (r: Self)
        ensures
            r.path is None && r.method is None && r.message is None,
    {
        Error { path: None, method: None, message: None }
    }
}

impl Request {
    /// A new request header with a fresh identifier.
    pub fn new(method: Method, path: &str, has_body: bool) -> (r: Self)
        ensures
            r.id.0 != 0,
            r.path@ == path@,
            r.method == Some(method),
            r.has_body == has_body,
    {
        Request { id: Id::fresh(), path: path.to_owned(), method: Some(method), has_body }
    }

    /// A builder for a request with the given method and path and no body.
    pub fn builder(method: Method, path: &str) -> (r: RequestBuilder<()>)
        ensures
            r.header.id.0 != 0,
            r.header.path@ == path@,
            r.header.method == Some(method),
            !r.header.has_body,
            r.body is None,
    {
        RequestBuilder { header: Request::new(method, path, false), body: None }
    }

    /// A GET request builder.
    pub fn get(path: &str) -> (r: RequestBuilder<()>)
        ensures
            r.header.id.0 != 0,
            r.header.path@ == path@,
            r.header.method == Some(Method::Get),
            !r.header.has_body,
            r.body is None,
    {
        Request::builder(Method::Get, path)
    }

    /// A POST request builder.
    pub fn post(path: &str) -> (r: RequestBuilder<()>)
        ensures
            r.header.id.0 != 0,
            r.header.path@ == path@,
            r.header.method == Some(Method::Post),
            !r.header.has_body,
            r.body is None,
    {
        Request::builder(Method::Post, path)
    }

    /// A PUT request builder.
    pub fn put(path: &str) -> (r: RequestBuilder<()>)
        ensures
            r.header.id.0 != 0,
            r.header.path@ == path@,
            r.header.method == Some(Method::Put),
            !r.header.has_body,
            r.body is None,
    {
        Request::builder(Method::Put, path)
    }

    /// A DELETE request builder.
    pub fn delete(path: &str) -> (r: RequestBuilder<()>)
        ensures
            r.header.id.0 != 0,
            r.header.path@ == path@,
            r.header.method == Some(Method::Delete),
            !r.header.has_body,
            r.body is None,
    {
        Request::builder(Method::Delete, path)
    }

    /// A PATCH request builder.
    pub fn patch(path: &str) -> (r: RequestBuilder<()>)
        ensures
            r.header.id.0 != 0,
            r.header.path@ == path@,
            r.header.method == Some(Method::Patch),
            !r.header.has_body,
            r.body is None,
    {
        Request::builder(Method::Patch, path)
    }

    /// The request identifier.
    pub fn id(&self) -> (r: Id)
        ensures
            r == self.id,
    {
        self.id
    }

    /// The resource path.
    pub fn path(&self) -> (r: &str)
        ensures
            r@ == self.path@,
    {
        self.path.as_str()
    }

    /// The resource path split into at most `n` `'/'`-separated segments.
    pub fn path_segments(&self, n: usize) -> (r: Segments)
        requires
            n >= 1,
        ensures
            r.parts@.map_values(|p: String| p@) == spec_splitn(
                spec_trim_slashes(self.path@),
                n as nat,
            ),
    {
        Segments::parse(self.path.as_str(), n)
    }

    /// The request method.
    pub fn method(&self) -> (r: Option<Method>)
        ensures
            r == self.method,
    {
        self.method
    }

    /// Whether a body follows this header.
    pub fn has_body(&self) -> (r: bool)
        ensures
            r == self.has_body,
    {
        self.has_body
    }
}

impl Response {
    /// A new response header with a fresh identifier.
    pub fn new(re: Id, status: Status, has_body: bool) -> (r: Self)
        ensures
            r.id.0 != 0,
            r.re == re,
            r.status == Some(status),
            r.has_body == has_body,
    {
        Response { id: Id::fresh(), re, status: Some(status), has_body }
    }

    /// A builder for a response answering `re` with the given status.
    pub fn builder(re: Id, status: Status) -> (r: ResponseBuilder<()>)
        ensures
            r.header.id.0 != 0,
            r.header.re == re,
            r.header.status == Some(status),
            !r.header.has_body,
            r.body is None,
    {
        ResponseBuilder { header: Response::new(re, status, false), body: None }
    }

    /// A `200 Ok` response builder.
    pub fn ok(re: Id) -> (r: ResponseBuilder<()>)
        ensures
            r.header.re == re,
            r.header.status == Some(Status::Okay),
            !r.header.has_body,
            r.body is None,
    {
        Response::builder(re, Status::Okay)
    }

    /// A `400 BadRequest` response builder.
    pub fn bad_request(re: Id) -> (r: ResponseBuilder<()>)
        ensures
            r.header.re == re,
            r.header.status == Some(Status::BadRequest),
            !r.header.has_body,
            r.body is None,
    {
        Response::builder(re, Status::BadRequest)
    }

    /// A `404 NotFound` response builder.
    pub fn not_found(re: Id) -> (r: ResponseBuilder<()>)
        ensures
            r.header.re == re,
            r.header.status == Some(Status::NotFound),
            !r.header.has_body,
            r.body is None,
    {
        Response::builder(re, Status::NotFound)
    }

    /// A `501 NotImplemented` response builder.
    pub fn not_implemented(re: Id) -> (r: ResponseBuilder<()>)
        ensures
            r.header.re == re,
            r.header.status == Some(Status::NotImplemented),
            !r.header.has_body,
            r.body is None,
    {
        Response::builder(re, Status::NotImplemented)
    }

    /// A `401 Unauthorized` response builder.
    pub fn unauthorized(re: Id) -> (r: ResponseBuilder<()>)
        ensures
            r.header.re == re,
            r.header.status == Some(Status::Unauthorized),
            !r.header.has_body,
            r.body is None,
    {
        Response::builder(re, Status::Unauthorized)
    }

    /// A `403 Forbidden` response builder.
    pub fn forbidden(re: Id) -> (r: ResponseBuilder<()>)
        ensures
            r.header.re == re,
            r.header.status == Some(Status::Forbidden),
            !r.header.has_body,
            r.body is None,
    {
        Response::builder(re, Status::Forbidden)
    }

    /// A `500 InternalServerError` response builder.
    pub fn internal_error(re: Id) -> (r: ResponseBuilder<()>)
        ensures
            r.header.re == re,
            r.header.status == Some(Status::InternalServerError),
            !r.header.has_body,
            r.body is None,
    {
        Response::builder(re, Status::InternalServerError)
    }

    /// The response identifier.
    pub fn id(&self) -> (r: Id)
        ensures
            r == self.id,
    {
        self.id
    }

    /// The identifier of the request this response answers.
    pub fn re(&self) -> (r: Id)
        ensures
            r == self.re,
    {
        self.re
    }

    /// The status code.
    pub fn status(&self) -> (r: Option<Status>)
        ensures
            r == self.status,
    {
        self.status
    }

    /// Whether a body follows this header.
    pub fn has_body(&self) -> (r: bool)
        ensures
            r == self.has_body,
    {
        self.has_body
    }
}

impl Error {
    /// A new error body for the given resource path.
    pub fn new(path: &str) -> (r: Self)
        ensures
            r.path matches Some(p) && p@ == path@,
            r.method is None,
            r.message is None,
    {
        Error { path: Some(path.to_owned()), method: None, message: None }
    }

    /// This error with its method set.
    pub fn with_method(self, m: Method) -> (r: Self)
        ensures
            r.path == self.path,
            r.method == Some(m),
            r.message == self.message,
    {
        Error { method: Some(m), ..self }
    }

    /// Sets the method of this error.
    pub fn set_method(&mut self, m: Method)
        ensures
            final(self).path == old(self).path,
            final(self).method == Some(m),
            final(self).message == old(self).message,
    {
        self.method = Some(m);
    }

    /// This error with its message set.
    pub fn with_message(self, m: &str) -> (r: Self)
        ensures
            r.path == self.path,
            r.method == self.method,
            r.message matches Some(s) && s@ == m@,
    {
        Error { message: Some(m.to_owned()), ..self }
    }

    /// The resource path of this error.
    pub fn path(&self) -> (r: Option<&str>)
        ensures
            match r {
                Some(p) => self.path matches Some(q) && p@ == q@,
                None => self.path is None,
            },
    {
        match &self.path {
            Some(p) => Some(p.as_str()),
            None => None,
        }
    }

    /// The method of this error.
    pub fn method(&self) -> (r: Option<Method>)
        ensures
            r == self.method,
    {
        self.method
    }

    /// The message of this error.
    pub fn message(&self) -> (r: Option<&str>)
        ensures
            match r {
                Some(p) => self.message matches Some(q) && p@ == q@,
                None => self.message is None,
            },
    {
        match &self.message {
            Some(p) => Some(p.as_str()),
            None => None,
        }
    }
}

/// The position of the first `'/'` in `s`; negative when there is none.
pub open spec fn spec_find_slash(s: Seq<char>) -> int
    decreases s.len(),
{
    if s.len() == 0 {
        -1
    } else if s[0] == '/' {
        0
    } else if spec_find_slash(s.drop_first()) < 0 {
        -1
    } else {
        1 + spec_find_slash(s.drop_first())
    }
}

/// `s` without its leading `'/'` characters.
pub open spec fn spec_trim_slashes(s: Seq<char>) -> Seq<char>
    decreases s.len(),
{
    if s.len() > 0 && s[0] == '/' {
        spec_trim_slashes(s.drop_first())
    } else {
        s
    }
}

/// `s` split on `'/'` into at most `n` pieces; the last piece keeps
/// whatever remains, separators included.
pub open spec fn spec_splitn(s: Seq<char>, n: nat) -> Seq<Seq<char>>
    decreases n,
{
    if n <= 1 {
        seq![s]
    } else {
        let i = spec_find_slash(s);
        if i < 0 {
            seq![s]
        } else {
            seq![s.take(i)] + spec_splitn(s.skip(i + 1), (n - 1) as nat)
        }
    }
}

/// Where the first slash of `s` stands, characterized: a found position
/// holds a slash and nothing before it does; a miss means there is none.
proof fn lemma_find_slash_at(s: Seq<char>, k: int)
    requires
        0 <= k < s.len(),
        s[k] == '/',
        forall|c: int| 0 <= c < k ==> s[c] != '/',
    ensures
        spec_find_slash(s) == k,
    decreases s.len(),
{
    if k > 0 {
        assert(forall|c: int| 0 <= c < k - 1 ==> #[trigger] s.drop_first()[c] == s[c + 1]);
        assert(s.drop_first()[k - 1] == s[k]);
        lemma_find_slash_at(s.drop_first(), k - 1);
    }
}

/// A string without slashes has no first slash.
proof fn lemma_find_slash_none(s: Seq<char>)
    requires
        forall|c: int| 0 <= c < s.len() ==> s[c] != '/',
    ensures
        spec_find_slash(s) < 0,
    decreases s.len(),
{
    if s.len() > 0 {
        assert(forall|c: int|
            0 <= c < s.drop_first().len() ==> #[trigger] s.drop_first()[c] == s[c + 1]);
        lemma_find_slash_none(s.drop_first());
    }
}

/// Path segments: the `'/'`-separated pieces of a resource path.
#[derive(Debug)]
pub struct Segments {
    /// The pieces, in order.
    pub parts: Vec<String>,
}

impl Segments {
    /// Parses a resource path into at most `n` segments: leading `'/'`
    /// characters are dropped first, the remainder splits on `'/'`, and the
    /// last segment keeps whatever is left.
    pub fn parse(s: &str, n: usize) -> (r: Segments)
        requires
            n >= 1,
        ensures
            r.parts@.map_values(|p: String| p@) == spec_splitn(
                spec_trim_slashes(s@),
                n as nat,
            ),
    {
        let len = s.unicode_len();
        proof {
            assert(s@.skip(0) =~= s@);
        }
        let mut start: usize = 0;
        while start < len && s.get_char(start) == '/'
            invariant
                0 <= start <= len,
                len == s@.len(),
                spec_trim_slashes(s@) == spec_trim_slashes(s@.skip(start as int)),
            decreases len - start,
        {
            proof {
                assert(s@.skip(start as int)[0] == s@[start as int]);
                assert(s@.skip(start as int).drop_first() =~= s@.skip(start + 1));
            }
            start = start + 1;
        }
        proof {
            if start < len {
                assert(s@.skip(start as int)[0] == s@[start as int]);
            }
        }
        let t = s.substring_char(start, len);
        proof {
            assert(s@.subrange(start as int, len as int) =~= s@.skip(start as int));
            assert(t@ == spec_trim_slashes(s@));
        }
        let tlen = t.unicode_len();
        let mut parts: Vec<String> = Vec::new();
        let mut pos: usize = 0;
        proof {
            assert(t@.skip(0) =~= t@);
            assert(parts@.map_values(|p: String| p@) + spec_splitn(t@.skip(0), n as nat)
                =~= spec_splitn(t@, n as nat));
        }
        while parts.len() + 1 < n
            invariant
                n >= 1,
                0 <= pos <= tlen,
                tlen == t@.len(),
                parts@.len() + 1 <= n,
                parts@.map_values(|p: String| p@) + spec_splitn(
                    t@.skip(pos as int),
                    (n - parts@.len()) as nat,
                ) == spec_splitn(t@, n as nat),
            ensures
                0 <= pos <= tlen,
                parts@.len() + 1 <= n,
                parts@.map_values(|p: String| p@) + spec_splitn(
                    t@.skip(pos as int),
                    (n - parts@.len()) as nat,
                ) == spec_splitn(t@, n as nat),
                spec_splitn(t@.skip(pos as int), (n - parts@.len()) as nat) == seq![
                    t@.skip(pos as int),
                ],
            decreases n - parts@.len(),
        {
            let ghost rem = t@.skip(pos as int);
            let ghost m = (n - parts@.len()) as nat;
            let mut j: usize = pos;
            while j < tlen && t.get_char(j) != '/'
                invariant
                    pos <= j <= tlen,
                    tlen == t@.len(),
                    forall|c: int| pos <= c < j ==> t@[c] != '/',
                decreases tlen - j,
            {
                j = j + 1;
            }
            proof {
                assert(forall|c: int|
                    0 <= c < rem.len() ==> #[trigger] rem[c] == t@[pos + c]);
            }
            if j == tlen {
                proof {
                    lemma_find_slash_none(rem);
                }
                break ;
            }
            proof {
                lemma_find_slash_at(rem, j - pos);
                assert(rem.take(j - pos) =~= t@.subrange(pos as int, j as int));
                assert(rem.skip(j - pos + 1) =~= t@.skip(j + 1));
            }
            let piece = t.substring_char(pos, j).to_owned();
            let ghost pre = parts@.map_values(|p: String| p@);
            parts.push(piece);
            proof {
                assert(parts@.map_values(|p: String| p@) =~= pre.push(piece@));
                assert(spec_splitn(rem, m) == seq![rem.take(j - pos)] + spec_splitn(
                    rem.skip(j - pos + 1),
                    (m - 1) as nat,
                ));
                assert(pre.push(piece@) + spec_splitn(t@.skip(j + 1), (m - 1) as nat) =~= pre
                    + (seq![rem.take(j - pos)] + spec_splitn(
                    rem.skip(j - pos + 1),
                    (m - 1) as nat,
                )));
            }
            pos = j + 1;
        }
        proof {
            // One piece remains: either the budget is down to one, or the
            // rest holds no slash; both read as the single remaining piece.
            assert(spec_splitn(t@.skip(pos as int), (n - parts@.len()) as nat) =~= seq![
                t@.skip(pos as int),
            ]);
        }
        let last = t.substring_char(pos, tlen).to_owned();
        let ghost pre = parts@.map_values(|p: String| p@);
        parts.push(last);
        proof {
            assert(t@.subrange(pos as int, tlen as int) =~= t@.skip(pos as int));
            assert(parts@.map_values(|p: String| p@) =~= pre.push(last@));
            assert(pre.push(last@) =~= pre + seq![t@.skip(pos as int)]);
        }
        Segments { parts }
    }

    /// The segments, as a slice.
    pub fn as_slice(&self) -> (r: &[String])
        ensures
            r@ == self.parts@,
    {
        self.parts.as_slice()
    }
}

/// A byte string already holding an encoded body; it is framed after a
/// header as it stands.
#[derive(Debug, Clone)]
pub struct Cbor(pub Vec<u8>);

/// A request header under construction, together with an optional body.
#[derive(Debug)]
pub struct RequestBuilder<T> {
    /// The header built so far.
    pub header: Request,
    /// The body, if one was attached.
    pub body: Option<T>,
}

/// A response header under construction, together with an optional body.
#[derive(Debug)]
pub struct ResponseBuilder<T> {
    /// The header built so far.
    pub header: Response,
    /// The body, if one was attached.
    pub body: Option<T>,
}

impl<T> RequestBuilder<T> {
    /// Replaces the request identifier.
    pub fn id(self, id: Id) -> (r: Self)
        ensures
            r.header.id == id,
            r.header.path == self.header.path,
            r.header.method == self.header.method,
            r.header.has_body == self.header.has_body,
            r.body == self.body,
    {
        let RequestBuilder { header, body } = self;
        RequestBuilder { header: Request { id, ..header }, body }
    }

    /// Replaces the resource path.
    pub fn path(self, path: &str) -> (r: Self)
        ensures
            r.header.id == self.header.id,
            r.header.path@ == path@,
            r.header.method == self.header.method,
            r.header.has_body == self.header.has_body,
            r.body == self.body,
    {
        let RequestBuilder { header, body } = self;
        RequestBuilder { header: Request { path: path.to_owned(), ..header }, body }
    }

    /// Replaces the method.
    pub fn method(self, m: Method) -> (r: Self)
        ensures
            r.header.id == self.header.id,
            r.header.path == self.header.path,
            r.header.method == Some(m),
            r.header.has_body == self.header.has_body,
            r.body == self.body,
    {
        let RequestBuilder { header, body } = self;
        RequestBuilder { header: Request { method: Some(m), ..header }, body }
    }

    /// The header built so far.
    pub fn header(&self) -> (r: &Request)
        ensures
            r == &self.header,
    {
        &self.header
    }

    /// Takes the builder apart.
    pub fn into_parts(self) -> (r: (Request, Option<T>))
        ensures
            r.0 == self.header,
            r.1 == self.body,
    {
        (self.header, self.body)
    }
}

impl RequestBuilder<()> {
    /// Attaches an already-encoded body and marks the header accordingly.
    pub fn body(self, b: Cbor) -> (r: RequestBuilder<Cbor>)
        ensures
            r.header.id == self.header.id,
            r.header.path == self.header.path,
            r.header.method == self.header.method,
            r.header.has_body,
            r.body matches Some(c) && c.0@ == b.0@,
    {
        let RequestBuilder { header, body: _ } = self;
        RequestBuilder { header: Request { has_body: true, ..header }, body: Some(b) }
    }

    /// Appends the encoded request (header only) to `buf`.
    pub fn encode(&self, buf: &mut Vec<u8>)
        ensures
            final(buf)@ == old(buf)@ + spec_encode_request(self.header),
    {
        encode_request(&self.header, buf);
    }

    /// The encoded request: the header alone.
    pub fn to_vec(&self) -> (r: Vec<u8>)
        ensures
            r@ == spec_encode_request(self.header),
    {
        let mut buf: Vec<u8> = Vec::new();
        self.encode(&mut buf);
        buf
    }
}

impl RequestBuilder<Cbor> {
    /// Appends the encoded request (header, then body bytes) to `buf`.
    pub fn encode(&self, buf: &mut Vec<u8>)
        ensures
            final(buf)@ == old(buf)@ + spec_encode_request(self.header) + match self.body {
                Some(c) => c.0@,
                None => Seq::empty(),
            },
    {
        encode_request(&self.header, buf);
        match &self.body {
            Some(c) => {
                let slice: &[u8] = c.0.as_slice();
                buf.extend_from_slice(slice);
            },
            None => {},
        }
        assert(buf@ =~= old(buf)@ + spec_encode_request(self.header) + match self.body {
            Some(c) => c.0@,
            None => Seq::<u8>::empty(),
        });
    }

    /// The encoded request: the header, then the body bytes.
    pub fn to_vec(&self) -> (r: Vec<u8>)
        ensures
            r@ == spec_encode_request(self.header) + match self.body {
                Some(c) => c.0@,
                None => Seq::empty(),
            },
    {
        let mut buf: Vec<u8> = Vec::new();
        self.encode(&mut buf);
        assert(buf@ =~= spec_encode_request(self.header) + match self.body {
            Some(c) => c.0@,
            None => Seq::<u8>::empty(),
        });
        buf
    }
}

impl<T> ResponseBuilder<T> {
    /// Replaces the response identifier.
    pub fn id(self, id: Id) -> (r: Self)
        ensures
            r.header.id == id,
            r.header.re == self.header.re,
            r.header.status == self.header.status,
            r.header.has_body == self.header.has_body,
            r.body == self.body,
    {
        let ResponseBuilder { header, body } = self;
        ResponseBuilder { header: Response { id, ..header }, body }
    }

    /// Replaces the identifier of the request answered.
    pub fn re(self, re: Id) -> (r: Self)
        ensures
            r.header.id == self.header.id,
            r.header.re == re,
            r.header.status == self.header.status,
            r.header.has_body == self.header.has_body,
            r.body == self.body,
    {
        let ResponseBuilder { header, body } = self;
        ResponseBuilder { header: Response { re, ..header }, body }
    }

    /// Replaces the status.
    pub fn status(self, s: Status) -> (r: Self)
        ensures
            r.header.id == self.header.id,
            r.header.re == self.header.re,
            r.header.status == Some(s),
            r.header.has_body == self.header.has_body,
            r.body == self.body,
    {
        let ResponseBuilder { header, body } = self;
        ResponseBuilder { header: Response { status: Some(s), ..header }, body }
    }

    /// The header built so far.
    pub fn header(&self) -> (r: &Response)
        ensures
            r == &self.header,
    {
        &self.header
    }

    /// Takes the builder apart.
    pub fn into_parts(self) -> (r: (Response, Option<T>))
        ensures
            r.0 == self.header,
            r.1 == self.body,
    {
        (self.header, self.body)
    }
}

impl ResponseBuilder<()> {
    /// Attaches a body and marks the header accordingly.
    pub fn body<T>(self, b: T) -> (r: ResponseBuilder<T>)
        ensures
            r.header.id == self.header.id,
            r.header.re == self.header.re,
            r.header.status == self.header.status,
            r.header.has_body,
            r.body == Some(b),
    {
        let ResponseBuilder { header, body: _ } = self;
        ResponseBuilder { header: Response { has_body: true, ..header }, body: Some(b) }
    }

    /// Appends the encoded response (header only) to `buf`.
    pub fn encode(&self, buf: &mut Vec<u8>)
        ensures
            final(buf)@ == old(buf)@ + spec_encode_response(self.header),
    {
        encode_response(&self.header, buf);
    }

    /// The encoded response: the header alone.
    pub fn to_vec(&self) -> (r: Vec<u8>)
        ensures
            r@ == spec_encode_response(self.header),
    {
        let mut buf: Vec<u8> = Vec::new();
        self.encode(&mut buf);
        buf
    }
}

impl ResponseBuilder<Cbor> {
    /// Appends the encoded response (header, then body bytes) to `buf`.
    pub fn encode(&self, buf: &mut Vec<u8>)
        ensures
            final(buf)@ == old(buf)@ + spec_encode_response(self.header) + match self.body {
                Some(c) => c.0@,
                None => Seq::empty(),
            },
    {
        encode_response(&self.header, buf);
        match &self.body {
            Some(c) => {
                let slice: &[u8] = c.0.as_slice();
                buf.extend_from_slice(slice);
            },
            None => {},
        }
        assert(buf@ =~= old(buf)@ + spec_encode_response(self.header) + match self.body {
            Some(c) => c.0@,
            None => Seq::<u8>::empty(),
        });
    }

    /// The encoded response: the header, then the body bytes.
    pub fn to_vec(&self) -> (r: Vec<u8>)
        ensures
            r@ == spec_encode_response(self.header) + match self.body {
                Some(c) => c.0@,
                None => Seq::empty(),
            },
    {
        let mut buf: Vec<u8> = Vec::new();
        self.encode(&mut buf);
        assert(buf@ =~= spec_encode_response(self.header) + match self.body {
            Some(c) => c.0@,
            None => Seq::<u8>::empty(),
        });
        buf
    }
}

impl ResponseBuilder<Error> {
    /// Appends the encoded response (header, then error body) to `buf`.
    pub fn encode(&self, buf: &mut Vec<u8>)
        ensures
            final(buf)@ == old(buf)@ + spec_encode_response(self.header) + match self.body {
                Some(e) => spec_encode_error(e),
                None => Seq::empty(),
            },
    {
        encode_response(&self.header, buf);
        match &self.body {
            Some(e) => {
                encode_error(e, buf);
            },
            None => {},
        }
        assert(buf@ =~= old(buf)@ + spec_encode_response(self.header) + match self.body {
            Some(e) => spec_encode_error(e),
            None => Seq::<u8>::empty(),
        });
    }

    /// The encoded response: the header, then the error body.
    pub fn to_vec(&self) -> (r: Vec<u8>)
        ensures
            r@ == spec_encode_response(self.header) + match self.body {
                Some(e) => spec_encode_error(e),
                None => Seq::empty(),
            },
    {
        let mut buf: Vec<u8> = Vec::new();
        self.encode(&mut buf);
        assert(buf@ =~= spec_encode_response(self.header) + match self.body {
            Some(e) => spec_encode_error(e),
            None => Seq::<u8>::empty(),
        });
        buf
    }
}

/// The wire form of a request header: a CBOR map keyed 1 (identifier),
/// 2 (path), 3 (method, omitted when unset) and 4 (body flag).
pub open spec fn spec_encode_request(r: Request) -> Seq<u8> {
    match r.method {
        Some(m) => spec_map(4) + spec_uint(1) + spec_uint(r.id.0 as u64) + spec_uint(2) + spec_text(
            r.path@,
        ) + spec_uint(3) + spec_uint(spec_method_index(m)) + spec_uint(4) + spec_bool(r.has_body),
        None => spec_map(3) + spec_uint(1) + spec_uint(r.id.0 as u64) + spec_uint(2) + spec_text(
            r.path@,
        ) + spec_uint(4) + spec_bool(r.has_body),
    }
}

/// The wire form of a response header: a CBOR map keyed 1 (identifier),
/// 2 (request answered), 3 (status, omitted when unset) and 4 (body flag).
pub open spec fn spec_encode_response(r: Response) -> Seq<u8> {
    match r.status {
        Some(s) => spec_map(4) + spec_uint(1) + spec_uint(r.id.0 as u64) + spec_uint(2) + spec_uint(
            r.re.0 as u64,
        ) + spec_uint(3) + spec_uint(spec_status_code(s)) + spec_uint(4) + spec_bool(r.has_body),
        None => spec_map(3) + spec_uint(1) + spec_uint(r.id.0 as u64) + spec_uint(2) + spec_uint(
            r.re.0 as u64,
        ) + spec_uint(4) + spec_bool(r.has_body),
    }
}

/// The number of entries in the wire form of an error body.
pub open spec fn spec_error_count(e: Error) -> u64 {
    (((if e.path is Some {
        1 as u64
    } else {
        0 as u64
    }) + (if e.method is Some {
        1 as u64
    } else {
        0 as u64
    }) + (if e.message is Some {
        1 as u64
    } else {
        0 as u64
    })) as u64)
}

/// The wire form of an error body: a CBOR map keyed 1 (path), 2 (method)
/// and 3 (message), each omitted when unset.
pub open spec fn spec_encode_error(e: Error) -> Seq<u8> {
    spec_map(spec_error_count(e)) + (match e.path {
        Some(p) => spec_uint(1) + spec_text(p@),
        None => Seq::empty(),
    }) + (match e.method {
        Some(m) => spec_uint(2) + spec_uint(spec_method_index(m)),
        None => Seq::empty(),
    }) + (match e.message {
        Some(m) => spec_uint(3) + spec_text(m@),
        None => Seq::empty(),
    })
}

/// Appends the wire form of a request header to `buf`.
pub fn encode_request(r: &Request, buf: &mut Vec<u8>)
    ensures
        final(buf)@ == old(buf)@ + spec_encode_request(*r),
{
    match r.method {
        Some(m) => {
            push_map(buf, 4);
            push_uint(buf, 1);
            push_uint(buf, r.id.0 as u64);
            push_uint(buf, 2);
            push_text(buf, r.path.as_str());
            push_uint(buf, 3);
            push_uint(buf, m.index());
            push_uint(buf, 4);
            push_bool(buf, r.has_body);
        },
        None => {
            push_map(buf, 3);
            push_uint(buf, 1);
            push_uint(buf, r.id.0 as u64);
            push_uint(buf, 2);
            push_text(buf, r.path.as_str());
            push_uint(buf, 4);
            push_bool(buf, r.has_body);
        },
    }
    assert(buf@ =~= old(buf)@ + spec_encode_request(*r));
}

/// Appends the wire form of a response header to `buf`.
pub fn encode_response(r: &Response, buf: &mut Vec<u8>)
    ensures
        final(buf)@ == old(buf)@ + spec_encode_response(*r),
{
    match r.status {
        Some(s) => {
            push_map(buf, 4);
            push_uint(buf, 1);
            push_uint(buf, r.id.0 as u64);
            push_uint(buf, 2);
            push_uint(buf, r.re.0 as u64);
            push_uint(buf, 3);
            push_uint(buf, s.code());
            push_uint(buf, 4);
            push_bool(buf, r.has_body);
        },
        None => {
            push_map(buf, 3);
            push_uint(buf, 1);
            push_uint(buf, r.id.0 as u64);
            push_uint(buf, 2);
            push_uint(buf, r.re.0 as u64);
            push_uint(buf, 4);
            push_bool(buf, r.has_body);
        },
    }
    assert(buf@ =~= old(buf)@ + spec_encode_response(*r));
}

/// Appends the wire form of an error body to `buf`.
pub fn encode_error(e: &Error, buf: &mut Vec<u8>)
    ensures
        final(buf)@ == old(buf)@ + spec_encode_error(*e),
{
    let mut n: u64 = 0;
    if e.path.is_some() {
        n = n + 1;
    }
    if e.method.is_some() {
        n = n + 1;
    }
    if e.message.is_some() {
        n = n + 1;
    }
    push_map(buf, n);
    match &e.path {
        Some(p) => {
            push_uint(buf, 1);
            push_text(buf, p.as_str());
        },
        None => {},
    }
    match &e.method {
        Some(m) => {
            push_uint(buf, 2);
            push_uint(buf, m.index());
        },
        None => {},
    }
    match &e.message {
        Some(m) => {
            push_uint(buf, 3);
            push_text(buf, m.as_str());
        },
        None => {},
    }
    assert(buf@ =~= old(buf)@ + spec_encode_error(*e));
}

/// Reads the trailing body-flag entry (key 4) of a header map.
pub open spec fn spec_decode_flag(b: Seq<u8>, i: int) -> Option<(bool, int)> {
    match dec_uint(b, i) {
        Some((k, j)) => {
            if k == 4 {
                dec_bool(b, j)
            } else {
                None
            }
        },
        None => None,
    }
}

/// Reads a request header at position `i`: identifier, path, method, body
/// flag, and the position just past the header. The entries must stand in
/// the fixed field order, with no unknown keys — the shape every encoder
/// of this protocol emits; the method entry may be absent, and an unknown
/// method index reads as `None`.
pub open spec fn spec_decode_request(b: Seq<u8>, i: int) -> Option<
    (u32, Seq<char>, Option<Method>, bool, int),
> {
    match cbor::dec_head(b, i) {
        Some((base, n, j0)) => {
            if base == cbor::MAJOR_MAP && (n == 3 || n == 4) {
                match dec_uint(b, j0) {
                    Some((k1, j1)) => {
                        if k1 == 1 {
                            match dec_uint(b, j1) {
                                Some((idv, j2)) => {
                                    if idv <= u32::MAX as u64 {
                                        match dec_uint(b, j2) {
                                            Some((k2, j3)) => {
                                                if k2 == 2 {
                                                    match dec_text(b, j3) {
                                                        Some((path, j4)) => {
                                                            if n == 4 {
                                                                match dec_uint(b, j4) {
                                                                    Some((k3, j5)) => {
                                                                        if k3 == 3 {
                                                                            match dec_uint(b, j5) {
                                                                                Some((mi, j6)) => {
                                                                                    match spec_decode_flag(b, j6) {
                                                                                        Some((hb, j7)) => Some(
                                                                                            (idv as u32, path, spec_method_of_index(mi), hb, j7),
                                                                                        ),
                                                                                        None => None,
                                                                                    }
                                                                                },
                                                                                None => None,
                                                                            }
                                                                        } else {
                                                                            None
                                                                        }
                                                                    },
                                                                    None => None,
                                                                }
                                                            } else {
                                                                match spec_decode_flag(b, j4) {
                                                                    Some((hb, j7)) => Some(
                                                                        (idv as u32, path, None, hb, j7),
                                                                    ),
                                                                    None => None,
                                                                }
                                                            }
                                                        },
                                                        None => None,
                                                    }
                                                } else {
                                                    None
                                                }
                                            },
                                            None => None,
                                        }
                                    } else {
                                        None
                                    }
                                },
                                None => None,
                            }
                        } else {
                            None
                        }
                    },
                    None => None,
                }
            } else {
                None
            }
        },
        None => None,
    }
}

/// Reads a response header at position `i`: identifier, request answered,
/// status, body flag, and the position just past the header. The entries
/// must stand in the fixed field order, with no unknown keys — the shape
/// every encoder of this protocol emits; the status entry may be absent,
/// and an unknown status code reads as `None`.
pub open spec fn spec_decode_response(b: Seq<u8>, i: int) -> Option<
    (u32, u32, Option<Status>, bool, int),
> {
    match cbor::dec_head(b, i) {
        Some((base, n, j0)) => {
            if base == cbor::MAJOR_MAP && (n == 3 || n == 4) {
                match dec_uint(b, j0) {
                    Some((k1, j1)) => {
                        if k1 == 1 {
                            match dec_uint(b, j1) {
                                Some((idv, j2)) => {
                                    if idv <= u32::MAX as u64 {
                                        match dec_uint(b, j2) {
                                            Some((k2, j3)) => {
                                                if k2 == 2 {
                                                    match dec_uint(b, j3) {
                                                        Some((rev, j4)) => {
                                                            if rev <= u32::MAX as u64 {
                                                                if n == 4 {
                                                                    match dec_uint(b, j4) {
                                                                        Some((k3, j5)) => {
                                                                            if k3 == 3 {
                                                                                match dec_uint(b, j5) {
                                                                                    Some((sc, j6)) => {
                                                                                        match spec_decode_flag(b, j6) {
                                                                                            Some((hb, j7)) => Some(
                                                                                                (
                                                                                                    idv as u32,
                                                                                                    rev as u32,
                                                                                                    spec_status_of_code(sc),
                                                                                                    hb,
                                                                                                    j7,
                                                                                                ),
                                                                                            ),
                                                                                            None => None,
                                                                                        }
                                                                                    },
                                                                                    None => None,
                                                                                }
                                                                            } else {
                                                                                None
                                                                            }
                                                                        },
                                                                        None => None,
                                                                    }
                                                                } else {
                                                                    match spec_decode_flag(b, j4) {
                                                                        Some((hb, j7)) => Some(
                                                                            (idv as u32, rev as u32, None, hb, j7),
                                                                        ),
                                                                        None => None,
                                                                    }
                                                                }
                                                            } else {
                                                                None
                                                            }
                                                        },
                                                        None => None,
                                                    }
                                                } else {
                                                    None
                                                }
                                            },
                                            None => None,
                                        }
                                    } else {
                                        None
                                    }
                                },
                                None => None,
                            }
                        } else {
                            None
                        }
                    },
                    None => None,
                }
            } else {
                None
            }
        },
        None => None,
    }
}

/// Reads the remaining `n` entries of an error body, whose keys must ascend
/// strictly and stay above `lo`.
pub open spec fn spec_decode_error_entries(b: Seq<u8>, i: int, n: int, lo: u64) -> Option<
    (Option<Seq<char>>, Option<Method>, Option<Seq<char>>, int),
>
    decreases n,
{
    if n <= 0 {
        Some((None, None, None, i))
    } else {
        match dec_uint(b, i) {
            Some((k, j)) => {
                if lo < k <= 3 {
                    if k == 1 {
                        match dec_text(b, j) {
                            Some((p, j2)) => {
                                match spec_decode_error_entries(b, j2, n - 1, 1) {
                                    Some((_, m, msg, e)) => Some((Some(p), m, msg, e)),
                                    None => None,
                                }
                            },
                            None => None,
                        }
                    } else if k == 2 {
                        match dec_uint(b, j) {
                            Some((mi, j2)) => {
                                match spec_decode_error_entries(b, j2, n - 1, 2) {
                                    Some((p, _, msg, e)) => Some(
                                        (p, spec_method_of_index(mi), msg, e),
                                    ),
                                    None => None,
                                }
                            },
                            None => None,
                        }
                    } else {
                        match dec_text(b, j) {
                            Some((msg, j2)) => {
                                match spec_decode_error_entries(b, j2, n - 1, 3) {
                                    Some((p, m, _, e)) => Some((p, m, Some(msg), e)),
                                    None => None,
                                }
                            },
                            None => None,
                        }
                    }
                } else {
                    None
                }
            },
            None => None,
        }
    }
}

/// Reads an error body at position `i`: path, method, message, and the
/// position just past the body. Every entry is optional.
pub open spec fn spec_decode_error(b: Seq<u8>, i: int) -> Option<
    (Option<Seq<char>>, Option<Method>, Option<Seq<char>>, int),
> {
    match cbor::dec_head(b, i) {
        Some((base, n, j0)) => {
            if base == cbor::MAJOR_MAP && n <= 3 {
                spec_decode_error_entries(b, j0, n as int, 0)
            } else {
                None
            }
        },
        None => None,
    }
}

/// Reads a request header, as [`spec_decode_request`] describes.
pub fn decode_request(buf: &[u8], i: usize) -> (r: Option<(Request, usize)>)
    ensures
        match r {
            Some((req, j)) => spec_decode_request(buf@, i as int) == Some(
                (req.id.0, req.path@, req.method, req.has_body, j as int),
            ),
            None => spec_decode_request(buf@, i as int) is None,
        },
{
    let (base, n, j0) = match read_head(buf, i) {
        Some(t) => t,
        None => {
            return None;
        },
    };
    if !(base == cbor::MAJOR_MAP && (n == 3 || n == 4)) {
        return None;
    }
    let (k1, j1) = match read_uint(buf, j0) {
        Some(t) => t,
        None => {
            return None;
        },
    };
    if k1 != 1 {
        return None;
    }
    let (idv, j2) = match read_uint(buf, j1) {
        Some(t) => t,
        None => {
            return None;
        },
    };
    if idv > u32::MAX as u64 {
        return None;
    }
    let (k2, j3) = match read_uint(buf, j2) {
        Some(t) => t,
        None => {
            return None;
        },
    };
    if k2 != 2 {
        return None;
    }
    let (path, j4) = match read_text(buf, j3) {
        Some(t) => t,
        None => {
            return None;
        },
    };
    let (method, j5): (Option<Method>, usize) = if n == 4 {
        let (k3, j5a) = match read_uint(buf, j4) {
            Some(t) => t,
            None => {
                return None;
            },
        };
        if k3 != 3 {
            return None;
        }
        let (mi, j5b) = match read_uint(buf, j5a) {
            Some(t) => t,
            None => {
                return None;
            },
        };
        (Method::of_index(mi), j5b)
    } else {
        (None, j4)
    };
    let (k4, j6) = match read_uint(buf, j5) {
        Some(t) => t,
        None => {
            return None;
        },
    };
    if k4 != 4 {
        return None;
    }
    let (hb, j7) = match read_bool(buf, j6) {
        Some(t) => t,
        None => {
            return None;
        },
    };
    Some((Request { id: Id(idv as u32), path, method, has_body: hb }, j7))
}

/// Reads a response header, as [`spec_decode_response`] describes.
pub fn decode_response(buf: &[u8], i: usize) -> (r: Option<(Response, usize)>)
    ensures
        match r {
            Some((res, j)) => spec_decode_response(buf@, i as int) == Some(
                (res.id.0, res.re.0, res.status, res.has_body, j as int),
            ) && i <= j <= buf@.len(),
            None => spec_decode_response(buf@, i as int) is None,
        },
{
    let (base, n, j0) = match read_head(buf, i) {
        Some(t) => t,
        None => {
            return None;
        },
    };
    if !(base == cbor::MAJOR_MAP && (n == 3 || n == 4)) {
        return None;
    }
    let (k1, j1) = match read_uint(buf, j0) {
        Some(t) => t,
        None => {
            return None;
        },
    };
    if k1 != 1 {
        return None;
    }
    let (idv, j2) = match read_uint(buf, j1) {
        Some(t) => t,
        None => {
            return None;
        },
    };
    if idv > u32::MAX as u64 {
        return None;
    }
    let (k2, j3) = match read_uint(buf, j2) {
        Some(t) => t,
        None => {
            return None;
        },
    };
    if k2 != 2 {
        return None;
    }
    let (rev, j4) = match read_uint(buf, j3) {
        Some(t) => t,
        None => {
            return None;
        },
    };
    if rev > u32::MAX as u64 {
        return None;
    }
    let (status, j5): (Option<Status>, usize) = if n == 4 {
        let (k3, j5a) = match read_uint(buf, j4) {
            Some(t) => t,
            None => {
                return None;
            },
        };
        if k3 != 3 {
            return None;
        }
        let (sc, j5b) = match read_uint(buf, j5a) {
            Some(t) => t,
            None => {
                return None;
            },
        };
        (Status::of_code(sc), j5b)
    } else {
        (None, j4)
    };
    let (k4, j6) = match read_uint(buf, j5) {
        Some(t) => t,
        None => {
            return None;
        },
    };
    if k4 != 4 {
        return None;
    }
    let (hb, j7) = match read_bool(buf, j6) {
        Some(t) => t,
        None => {
            return None;
        },
    };
    Some((Response { id: Id(idv as u32), re: Id(rev as u32), status, has_body: hb }, j7))
}

/// Reads the remaining entries of an error body, as
/// [`spec_decode_error_entries`] describes.
fn decode_error_entries(buf: &[u8], i: usize, n: u64, lo: u64) -> (r: Option<
    (Option<String>, Option<Method>, Option<String>, usize),
>)
    ensures
        match r {
            Some((p, m, msg, j)) => spec_decode_error_entries(buf@, i as int, n as int, lo)
                matches Some((sp, sm, smsg, sj)) && sm == m && sj == j as int && (match (p, sp) {
                (Some(x), Some(y)) => x@ == y,
                (None, None) => true,
                _ => false,
            }) && (match (msg, smsg) {
                (Some(x), Some(y)) => x@ == y,
                (None, None) => true,
                _ => false,
            }),
            None => spec_decode_error_entries(buf@, i as int, n as int, lo) is None,
        },
    decreases n,
{
    if n == 0 {
        return Some((None, None, None, i));
    }
    let (k, j) = match read_uint(buf, i) {
        Some(t) => t,
        None => {
            return None;
        },
    };
    if !(lo < k && k <= 3) {
        return None;
    }
    if k == 1 {
        let (p, j2) = match read_text(buf, j) {
            Some(t) => t,
            None => {
                return None;
            },
        };
        match decode_error_entries(buf, j2, n - 1, 1) {
            Some((_, m, msg, e)) => Some((Some(p), m, msg, e)),
            None => None,
        }
    } else if k == 2 {
        let (mi, j2) = match read_uint(buf, j) {
            Some(t) => t,
            None => {
                return None;
            },
        };
        match decode_error_entries(buf, j2, n - 1, 2) {
            Some((p, _, msg, e)) => Some((p, Method::of_index(mi), msg, e)),
            None => None,
        }
    } else {
        let (msg, j2) = match read_text(buf, j) {
            Some(t) => t,
            None => {
                return None;
            },
        };
        match decode_error_entries(buf, j2, n - 1, 3) {
            Some((p, m, _, e)) => Some((p, m, Some(msg), e)),
            None => None,
        }
    }
}

/// Reads an error body, as [`spec_decode_error`] describes.
pub fn decode_error(buf: &[u8], i: usize) -> (r: Option<(Error, usize)>)
    ensures
        match r {
            Some((e, j)) => spec_decode_error(buf@, i as int) matches Some((sp, sm, smsg, sj))
                && sm == e.method && sj == j as int && (match (e.path, sp) {
                (Some(x), Some(y)) => x@ == y,
                (None, None) => true,
                _ => false,
            }) && (match (e.message, smsg) {
                (Some(x), Some(y)) => x@ == y,
                (None, None) => true,
                _ => false,
            }),
            None => spec_decode_error(buf@, i as int) is None,
        },
{
    let (base, n, j0) = match read_head(buf, i) {
        Some(t) => t,
        None => {
            return None;
        },
    };
    if !(base == cbor::MAJOR_MAP && n <= 3) {
        return None;
    }
    match decode_error_entries(buf, j0, n, 0) {
        Some((p, m, msg, j)) => Some((Error { path: p, method: m, message: msg }, j)),
        None => None,
    }
}

/// Decoding an encoded request header recovers the header exactly: wire
/// framing loses nothing.
pub proof fn lemma_request_round_trip(r: Request)
    requires
        vstd::utf8::encode_utf8(r.path@).len() <= u64::MAX,
    ensures
        spec_decode_request(spec_encode_request(r), 0) == Some(
            (r.id.0, r.path@, r.method, r.has_body, spec_encode_request(r).len() as int),
        ),
{
    match r.method {
        Some(m) => lemma_request_round_trip_with_method(r, m),
        None => lemma_request_round_trip_without_method(r),
    }
}

/// The positioned reads of each wire piece of a request header that
/// carries a method.
#[verifier::rlimit(100)]
proof fn lemma_request_parts_with_method(r: Request, m: Method)
    requires
        vstd::utf8::encode_utf8(r.path@).len() <= u64::MAX,
        r.method == Some(m),
    ensures
        ({
            let b = spec_encode_request(r);
            let l1 = cbor::head_len(r.id.0 as u64);
            let lp = spec_text(r.path@).len() as int;
            &&& cbor::dec_head(b, 0) == Some((cbor::MAJOR_MAP, 4u64, 1int))
            &&& dec_uint(b, 1) == Some((1u64, 2int))
            &&& dec_uint(b, 2) == Some((r.id.0 as u64, 2 + l1))
            &&& dec_uint(b, 2 + l1) == Some((2u64, 3 + l1))
            &&& dec_text(b, 3 + l1) == Some((r.path@, 3 + l1 + lp))
            &&& dec_uint(b, 3 + l1 + lp) == Some((3u64, 4 + l1 + lp))
            &&& dec_uint(b, 4 + l1 + lp) == Some((spec_method_index(m), 5 + l1 + lp))
            &&& dec_uint(b, 5 + l1 + lp) == Some((4u64, 6 + l1 + lp))
            &&& dec_bool(b, 6 + l1 + lp) == Some((r.has_body, 7 + l1 + lp))
            &&& b.len() == 7 + l1 + lp
        }),
{
    broadcast use cbor::lemma_spec_head_len;

    let b = spec_encode_request(r);
    let p0 = spec_map(4);
    let p1 = spec_uint(1);
    let p2 = spec_uint(r.id.0 as u64);
    let p3 = spec_uint(2);
    let p4 = spec_text(r.path@);
    let p5 = spec_uint(3);
    let p6 = spec_uint(spec_method_index(m));
    let p7 = spec_uint(4);
    let p8 = spec_bool(r.has_body);
    let x1 = p0 + p1;
    let x2 = x1 + p2;
    let x3 = x2 + p3;
    let x4 = x3 + p4;
    let x5 = x4 + p5;
    let x6 = x5 + p6;
    let x7 = x6 + p7;
    let x8 = x7 + p8;
    assert(b == x8);
    assert(p2.len() == cbor::head_len(r.id.0 as u64));
    assert(spec_method_index(m) < 24);
    assert(p6.len() == 1);
    assert(b.subrange(0, b.len() as int) =~= b);
    cbor::lemma_concat_parts(b, 0, x7, p8);
    cbor::lemma_concat_parts(b, 0, x6, p7);
    cbor::lemma_concat_parts(b, 0, x5, p6);
    cbor::lemma_concat_parts(b, 0, x4, p5);
    cbor::lemma_concat_parts(b, 0, x3, p4);
    cbor::lemma_concat_parts(b, 0, x2, p3);
    cbor::lemma_concat_parts(b, 0, x1, p2);
    cbor::lemma_concat_parts(b, 0, p0, p1);
    cbor::lemma_dec_head_of_spec_head(b, 0, cbor::MAJOR_MAP, 4);
    cbor::lemma_dec_uint_of_spec_uint(b, p0.len() as int, 1);
    cbor::lemma_dec_uint_of_spec_uint(b, x1.len() as int, r.id.0 as u64);
    cbor::lemma_dec_uint_of_spec_uint(b, x2.len() as int, 2);
    cbor::lemma_dec_text_of_spec_text(b, x3.len() as int, r.path@);
    cbor::lemma_dec_uint_of_spec_uint(b, x4.len() as int, 3);
    cbor::lemma_dec_uint_of_spec_uint(b, x5.len() as int, spec_method_index(m));
    cbor::lemma_dec_uint_of_spec_uint(b, x6.len() as int, 4);
    cbor::lemma_dec_bool_of_spec_bool(b, x7.len() as int, r.has_body);
}

/// The round trip for a request header that carries a method.
#[verifier::rlimit(100)]
proof fn lemma_request_round_trip_with_method(r: Request, m: Method)
    requires
        vstd::utf8::encode_utf8(r.path@).len() <= u64::MAX,
        r.method == Some(m),
    ensures
        spec_decode_request(spec_encode_request(r), 0) == Some(
            (r.id.0, r.path@, r.method, r.has_body, spec_encode_request(r).len() as int),
        ),
{
    lemma_request_parts_with_method(r, m);
    assert(spec_method_of_index(spec_method_index(m)) == Some(m));
}

/// The round trip for a request header without a method.
#[verifier::rlimit(100)]
proof fn lemma_request_round_trip_without_method(r: Request)
    requires
        vstd::utf8::encode_utf8(r.path@).len() <= u64::MAX,
        r.method is None,
    ensures
        spec_decode_request(spec_encode_request(r), 0) == Some(
            (r.id.0, r.path@, r.method, r.has_body, spec_encode_request(r).len() as int),
        ),
{
    broadcast use cbor::lemma_spec_head_len;

    let b = spec_encode_request(r);
    {
        {
            let p0 = spec_map(3);
            let p1 = spec_uint(1);
            let p2 = spec_uint(r.id.0 as u64);
            let p3 = spec_uint(2);
            let p4 = spec_text(r.path@);
            let p5 = spec_uint(4);
            let p6 = spec_bool(r.has_body);
            let x1 = p0 + p1;
            let x2 = x1 + p2;
            let x3 = x2 + p3;
            let x4 = x3 + p4;
            let x5 = x4 + p5;
            let x6 = x5 + p6;
            assert(b == x6);
            assert(b.subrange(0, b.len() as int) =~= b);
            cbor::lemma_concat_parts(b, 0, x5, p6);
            cbor::lemma_concat_parts(b, 0, x4, p5);
            cbor::lemma_concat_parts(b, 0, x3, p4);
            cbor::lemma_concat_parts(b, 0, x2, p3);
            cbor::lemma_concat_parts(b, 0, x1, p2);
            cbor::lemma_concat_parts(b, 0, p0, p1);
            cbor::lemma_dec_head_of_spec_head(b, 0, cbor::MAJOR_MAP, 3);
            cbor::lemma_dec_uint_of_spec_uint(b, p0.len() as int, 1);
            cbor::lemma_dec_uint_of_spec_uint(b, x1.len() as int, r.id.0 as u64);
            cbor::lemma_dec_uint_of_spec_uint(b, x2.len() as int, 2);
            cbor::lemma_dec_text_of_spec_text(b, x3.len() as int, r.path@);
            cbor::lemma_dec_uint_of_spec_uint(b, x4.len() as int, 4);
            cbor::lemma_dec_bool_of_spec_bool(b, x5.len() as int, r.has_body);
        }
    }
}

/// Decoding an encoded response header recovers the header exactly: wire
/// framing loses nothing.
pub proof fn lemma_response_round_trip(r: Response)
    ensures
        spec_decode_response(spec_encode_response(r), 0) == Some(
            (r.id.0, r.re.0, r.status, r.has_body, spec_encode_response(r).len() as int),
        ),
{
    match r.status {
        Some(s) => lemma_response_round_trip_with_status(r, s),
        None => lemma_response_round_trip_without_status(r),
    }
}

/// The positioned reads of each wire piece of a response header that
/// carries a status.
#[verifier::rlimit(100)]
proof fn lemma_response_parts_with_status(r: Response, s: Status)
    requires
        r.status == Some(s),
    ensures
        ({
            let b = spec_encode_response(r);
            let l1 = cbor::head_len(r.id.0 as u64);
            let l2 = cbor::head_len(r.re.0 as u64);
            let lc = cbor::head_len(spec_status_code(s));
            &&& cbor::dec_head(b, 0) == Some((cbor::MAJOR_MAP, 4u64, 1int))
            &&& dec_uint(b, 1) == Some((1u64, 2int))
            &&& dec_uint(b, 2) == Some((r.id.0 as u64, 2 + l1))
            &&& dec_uint(b, 2 + l1) == Some((2u64, 3 + l1))
            &&& dec_uint(b, 3 + l1) == Some((r.re.0 as u64, 3 + l1 + l2))
            &&& dec_uint(b, 3 + l1 + l2) == Some((3u64, 4 + l1 + l2))
            &&& dec_uint(b, 4 + l1 + l2) == Some((spec_status_code(s), 4 + l1 + l2 + lc))
            &&& dec_uint(b, 4 + l1 + l2 + lc) == Some((4u64, 5 + l1 + l2 + lc))
            &&& dec_bool(b, 5 + l1 + l2 + lc) == Some((r.has_body, 6 + l1 + l2 + lc))
            &&& b.len() == 6 + l1 + l2 + lc
        }),
{
    broadcast use cbor::lemma_spec_head_len;

    let b = spec_encode_response(r);
    let p0 = spec_map(4);
    let p1 = spec_uint(1);
    let p2 = spec_uint(r.id.0 as u64);
    let p3 = spec_uint(2);
    let p4 = spec_uint(r.re.0 as u64);
    let p5 = spec_uint(3);
    let p6 = spec_uint(spec_status_code(s));
    let p7 = spec_uint(4);
    let p8 = spec_bool(r.has_body);
    let x1 = p0 + p1;
    let x2 = x1 + p2;
    let x3 = x2 + p3;
    let x4 = x3 + p4;
    let x5 = x4 + p5;
    let x6 = x5 + p6;
    let x7 = x6 + p7;
    let x8 = x7 + p8;
    assert(b == x8);
    assert(p2.len() == cbor::head_len(r.id.0 as u64));
    assert(p4.len() == cbor::head_len(r.re.0 as u64));
    assert(p6.len() == cbor::head_len(spec_status_code(s)));
    assert(b.subrange(0, b.len() as int) =~= b);
    cbor::lemma_concat_parts(b, 0, x7, p8);
    cbor::lemma_concat_parts(b, 0, x6, p7);
    cbor::lemma_concat_parts(b, 0, x5, p6);
    cbor::lemma_concat_parts(b, 0, x4, p5);
    cbor::lemma_concat_parts(b, 0, x3, p4);
    cbor::lemma_concat_parts(b, 0, x2, p3);
    cbor::lemma_concat_parts(b, 0, x1, p2);
    cbor::lemma_concat_parts(b, 0, p0, p1);
    cbor::lemma_dec_head_of_spec_head(b, 0, cbor::MAJOR_MAP, 4);
    cbor::lemma_dec_uint_of_spec_uint(b, p0.len() as int, 1);
    cbor::lemma_dec_uint_of_spec_uint(b, x1.len() as int, r.id.0 as u64);
    cbor::lemma_dec_uint_of_spec_uint(b, x2.len() as int, 2);
    cbor::lemma_dec_uint_of_spec_uint(b, x3.len() as int, r.re.0 as u64);
    cbor::lemma_dec_uint_of_spec_uint(b, x4.len() as int, 3);
    cbor::lemma_dec_uint_of_spec_uint(b, x5.len() as int, spec_status_code(s));
    cbor::lemma_dec_uint_of_spec_uint(b, x6.len() as int, 4);
    cbor::lemma_dec_bool_of_spec_bool(b, x7.len() as int, r.has_body);
}

/// The round trip for a response header that carries a status.
#[verifier::rlimit(100)]
proof fn lemma_response_round_trip_with_status(r: Response, s: Status)
    requires
        r.status == Some(s),
    ensures
        spec_decode_response(spec_encode_response(r), 0) == Some(
            (r.id.0, r.re.0, r.status, r.has_body, spec_encode_response(r).len() as int),
        ),
{
    lemma_response_parts_with_status(r, s);
    assert(spec_status_of_code(spec_status_code(s)) == Some(s));
}

/// The positioned reads of each wire piece of a response header without a
/// status.
#[verifier::rlimit(100)]
proof fn lemma_response_parts_without_status(r: Response)
    requires
        r.status is None,
    ensures
        ({
            let b = spec_encode_response(r);
            let l1 = cbor::head_len(r.id.0 as u64);
            let l2 = cbor::head_len(r.re.0 as u64);
            &&& cbor::dec_head(b, 0) == Some((cbor::MAJOR_MAP, 3u64, 1int))
            &&& dec_uint(b, 1) == Some((1u64, 2int))
            &&& dec_uint(b, 2) == Some((r.id.0 as u64, 2 + l1))
            &&& dec_uint(b, 2 + l1) == Some((2u64, 3 + l1))
            &&& dec_uint(b, 3 + l1) == Some((r.re.0 as u64, 3 + l1 + l2))
            &&& dec_uint(b, 3 + l1 + l2) == Some((4u64, 4 + l1 + l2))
            &&& dec_bool(b, 4 + l1 + l2) == Some((r.has_body, 5 + l1 + l2))
            &&& b.len() == 5 + l1 + l2
        }),
{
    broadcast use cbor::lemma_spec_head_len;

    let b = spec_encode_response(r);
    let p0 = spec_map(3);
    let p1 = spec_uint(1);
    let p2 = spec_uint(r.id.0 as u64);
    let p3 = spec_uint(2);
    let p4 = spec_uint(r.re.0 as u64);
    let p5 = spec_uint(4);
    let p6 = spec_bool(r.has_body);
    let x1 = p0 + p1;
    let x2 = x1 + p2;
    let x3 = x2 + p3;
    let x4 = x3 + p4;
    let x5 = x4 + p5;
    let x6 = x5 + p6;
    assert(b == x6);
    assert(p2.len() == cbor::head_len(r.id.0 as u64));
    assert(p4.len() == cbor::head_len(r.re.0 as u64));
    assert(b.subrange(0, b.len() as int) =~= b);
    cbor::lemma_concat_parts(b, 0, x5, p6);
    cbor::lemma_concat_parts(b, 0, x4, p5);
    cbor::lemma_concat_parts(b, 0, x3, p4);
    cbor::lemma_concat_parts(b, 0, x2, p3);
    cbor::lemma_concat_parts(b, 0, x1, p2);
    cbor::lemma_concat_parts(b, 0, p0, p1);
    cbor::lemma_dec_head_of_spec_head(b, 0, cbor::MAJOR_MAP, 3);
    cbor::lemma_dec_uint_of_spec_uint(b, p0.len() as int, 1);
    cbor::lemma_dec_uint_of_spec_uint(b, x1.len() as int, r.id.0 as u64);
    cbor::lemma_dec_uint_of_spec_uint(b, x2.len() as int, 2);
    cbor::lemma_dec_uint_of_spec_uint(b, x3.len() as int, r.re.0 as u64);
    cbor::lemma_dec_uint_of_spec_uint(b, x4.len() as int, 4);
    cbor::lemma_dec_bool_of_spec_bool(b, x5.len() as int, r.has_body);
}

/// The round trip for a response header without a status.
#[verifier::rlimit(100)]
proof fn lemma_response_round_trip_without_status(r: Response)
    requires
        r.status is None,
    ensures
        spec_decode_response(spec_encode_response(r), 0) == Some(
            (r.id.0, r.re.0, r.status, r.has_body, spec_encode_response(r).len() as int),
        ),
{
    lemma_response_parts_without_status(r);
}

/// Decoding an encoded error body all of whose fields are set recovers the
/// body exactly.
#[verifier::rlimit(100)]
pub proof fn lemma_error_round_trip_full(e: Error, p: String, m: Method, msg: String)
    requires
        e.path == Some(p),
        e.method == Some(m),
        e.message == Some(msg),
        vstd::utf8::encode_utf8(p@).len() <= u64::MAX,
        vstd::utf8::encode_utf8(msg@).len() <= u64::MAX,
    ensures
        spec_decode_error(spec_encode_error(e), 0) matches Some((sp, sm, smsg, j)) && sp == Some(
            p@,
        ) && sm == Some(m) && smsg == Some(msg@) && j == spec_encode_error(e).len(),
{
    broadcast use cbor::lemma_spec_head_len;

    let b = spec_encode_error(e);
    let p0 = spec_map(3);
    let p1 = spec_uint(1);
    let p2 = spec_text(p@);
    let p3 = spec_uint(2);
    let p4 = spec_uint(spec_method_index(m));
    let p5 = spec_uint(3);
    let p6 = spec_text(msg@);
    let x1 = p0 + p1;
    let x2 = x1 + p2;
    let x3 = x2 + p3;
    let x4 = x3 + p4;
    let x5 = x4 + p5;
    let x6 = x5 + p6;
    assert(spec_error_count(e) == 3);
    assert(b =~= x6);
    assert(b.subrange(0, b.len() as int) =~= b);
    cbor::lemma_concat_parts(b, 0, x5, p6);
    cbor::lemma_concat_parts(b, 0, x4, p5);
    cbor::lemma_concat_parts(b, 0, x3, p4);
    cbor::lemma_concat_parts(b, 0, x2, p3);
    cbor::lemma_concat_parts(b, 0, x1, p2);
    cbor::lemma_concat_parts(b, 0, p0, p1);
    cbor::lemma_dec_head_of_spec_head(b, 0, cbor::MAJOR_MAP, 3);
    cbor::lemma_dec_uint_of_spec_uint(b, p0.len() as int, 1);
    cbor::lemma_dec_text_of_spec_text(b, x1.len() as int, p@);
    cbor::lemma_dec_uint_of_spec_uint(b, x2.len() as int, 2);
    cbor::lemma_dec_uint_of_spec_uint(b, x3.len() as int, spec_method_index(m));
    cbor::lemma_dec_uint_of_spec_uint(b, x4.len() as int, 3);
    cbor::lemma_dec_text_of_spec_text(b, x5.len() as int, msg@);
    assert(spec_method_of_index(spec_method_index(m)) == Some(m));
    reveal_with_fuel(spec_decode_error_entries, 5);
}

/// Decoding an encoded error body without any field set recovers the empty
/// body.
pub proof fn lemma_error_round_trip_empty(e: Error)
    requires
        e.path is None,
        e.method is None,
        e.message is None,
    ensures
        spec_decode_error(spec_encode_error(e), 0) matches Some((sp, sm, smsg, j))
            && sp is None && sm is None && smsg is None && j == spec_encode_error(e).len(),
{
    broadcast use cbor::lemma_spec_head_len;

    let b = spec_encode_error(e);
    assert(spec_error_count(e) == 0);
    assert(b =~= spec_map(0));
    assert(b.subrange(0, b.len() as int) =~= b);
    cbor::lemma_dec_head_of_spec_head(b, 0, cbor::MAJOR_MAP, 0);
    reveal_with_fuel(spec_decode_error_entries, 2);
}

/// A failure reported by the client-side response helpers.
#[derive(Debug, Clone)]
pub struct ApiError {
    /// A human-readable message.
    pub message: String,
}

/// The message that [`error`] extracts from a failure response whose header
/// ends at `i`: the error body's message when one is present, else `label`.
pub open spec fn spec_error_message(label: Seq<char>, has_body: bool, b: Seq<u8>, i: int) -> Seq<
    char,
> {
    if has_body {
        match spec_decode_error(b, i) {
            Some((_, _, Some(msg), _)) => msg,
            _ => label,
        }
    } else {
        label
    }
}

/// Reads the response header at the start of `buf`. `label` names the
/// exchange and becomes the error message when the header is malformed.
pub fn response(label: &str, buf: &[u8]) -> (r: Result<(Response, usize), ApiError>)
    ensures
        match r {
            Ok((res, j)) => spec_decode_response(buf@, 0) == Some(
                (res.id.0, res.re.0, res.status, res.has_body, j as int),
            ) && j <= buf@.len(),
            Err(e) => spec_decode_response(buf@, 0) is None && e.message@ == label@,
        },
{
    match decode_response(buf, 0) {
        Some((res, j)) => Ok((res, j)),
        None => Err(ApiError { message: label.to_owned() }),
    }
}

/// Turns a failure response into an [`ApiError`]: the message of the error
/// body that follows the header at `i`, when the header announces one and it
/// carries a message, else `label`.
pub fn error(label: &str, res: &Response, buf: &[u8], i: usize) -> (r: ApiError)
    ensures
        r.message@ == spec_error_message(label@, res.has_body, buf@, i as int),
{
    if res.has_body() {
        match decode_error(buf, i) {
            Some((e, _)) => {
                match e.message {
                    Some(m) => ApiError { message: m },
                    None => ApiError { message: label.to_owned() },
                }
            },
            None => ApiError { message: label.to_owned() },
        }
    } else {
        ApiError { message: label.to_owned() }
    }
}

/// Reads the response header at the start of `buf` and reports success
/// exactly when it decodes with status `200 Ok`.
pub fn is_ok(label: &str, buf: &[u8]) -> (r: Result<(), ApiError>)
    ensures
        r is Ok <==> (spec_decode_response(buf@, 0) matches Some((_, _, st, _, _)) && st == Some(
            Status::Okay,
        )),
        match spec_decode_response(buf@, 0) {
            Some((_, _, st, hb, j)) => st != Some(Status::Okay) ==> (r matches Err(e)
                && e.message@ == spec_error_message(label@, hb, buf@, j)),
            None => r matches Err(e) && e.message@ == label@,
        },
{
    let (res, j) = match response(label, buf) {
        Ok(t) => t,
        Err(e) => {
            return Err(e);
        },
    };
    match res.status() {
        Some(Status::Okay) => Ok(()),
        _ => Err(error(label, &res, buf, j)),
    }
}

/// Reads the response header at the start of `buf` and hands back the body
/// bytes on `200 Ok`, nothing on `404 NotFound`, and the failure otherwise.
pub fn decode_option(label: &str, buf: &[u8]) -> (r: Result<Option<Vec<u8>>, ApiError>)
    ensures
        match spec_decode_response(buf@, 0) {
            Some((_, _, st, hb, j)) => {
                if st == Some(Status::Okay) {
                    r matches Ok(Some(body)) && body@ == buf@.subrange(j, buf@.len() as int)
                } else if st == Some(Status::NotFound) {
                    r == Ok::<Option<Vec<u8>>, ApiError>(None)
                } else {
                    r matches Err(e) && e.message@ == spec_error_message(label@, hb, buf@, j)
                }
            },
            None => r matches Err(e) && e.message@ == label@,
        },
{
    let (res, j) = match response(label, buf) {
        Ok(t) => t,
        Err(e) => {
            return Err(e);
        },
    };
    match res.status() {
        Some(Status::Okay) => {
            let rest = vstd::slice::slice_subrange(buf, j, buf.len());
            Ok(Some(vstd::slice::slice_to_vec(rest)))
        },
        Some(Status::NotFound) => Ok(None),
        _ => Err(error(label, &res, buf, j)),
    }
}

/// An error response for a request whose path was unknown.
pub fn unknown_path(r: &Request) -> (b: ResponseBuilder<Error>)
    ensures
        b.header.re == r.id,
        b.header.status == Some(Status::BadRequest),
        b.header.has_body,
        b.body matches Some(e) && (e.path matches Some(p) && p@ == r.path@) && e.method == r.method
            && (e.message matches Some(m) && m@ == "unknown path"@),
{
    bad_request(r, "unknown path")
}

/// An error response for a request whose method was unknown or not allowed.
pub fn invalid_method(r: &Request) -> (b: ResponseBuilder<Error>)
    ensures
        b.header.re == r.id,
        b.header.has_body,
        match r.method {
            Some(m) => b.header.status == Some(Status::MethodNotAllowed) && (b.body matches Some(e)
                && (e.path matches Some(p) && p@ == r.path@) && e.method == Some(m)
                && e.message is None),
            None => b.header.status == Some(Status::NotImplemented) && (b.body matches Some(e) && (
            e.path matches Some(p) && p@ == r.path@) && e.method is None && (e.message matches Some(
                m,
            ) && m@ == "unknown method"@)),
        },
{
    match r.method() {
        Some(m) => {
            let e = Error::new(r.path()).with_method(m);
            Response::builder(r.id(), Status::MethodNotAllowed).body(e)
        },
        None => {
            let e = Error::new(r.path()).with_message("unknown method");
            Response::not_implemented(r.id()).body(e)
        },
    }
}

/// An error response with status `403 Forbidden` and the given message.
pub fn forbidden<'a>(r: &Request, m: &'a str) -> (b: ResponseBuilder<Error>)
    ensures
        b.header.re == r.id,
        b.header.status == Some(Status::Forbidden),
        b.header.has_body,
        b.body matches Some(e) && (e.path matches Some(p) && p@ == r.path@) && e.method == r.method
            && (e.message matches Some(s) && s@ == m@),
{
    let mut e = Error::new(r.path()).with_message(m);
    match r.method() {
        Some(m) => {
            e.set_method(m);
        },
        None => {},
    }
    Response::builder(r.id(), Status::Forbidden).body(e)
}

/// A generic `400 BadRequest` response with the given message.
pub fn bad_request<'a>(r: &Request, msg: &'a str) -> (b: ResponseBuilder<Error>)
    ensures
        b.header.re == r.id,
        b.header.status == Some(Status::BadRequest),
        b.header.has_body,
        b.body matches Some(e) && (e.path matches Some(p) && p@ == r.path@) && e.method == r.method
            && (e.message matches Some(s) && s@ == msg@),
{
    let mut e = Error::new(r.path()).with_message(msg);
    match r.method() {
        Some(m) => {
            e.set_method(m);
        },
        None => {},
    }
    Response::bad_request(r.id()).body(e)
}

/// A `500 InternalServerError` response with the given message.
pub fn internal_error<'a>(r: &Request, msg: &'a str) -> (b: ResponseBuilder<Error>)
    ensures
        b.header.re == r.id,
        b.header.status == Some(Status::InternalServerError),
        b.header.has_body,
        b.body matches Some(e) && (e.path matches Some(p) && p@ == r.path@) && e.method == r.method
            && (e.message matches Some(s) && s@ == msg@),
{
    let mut e = Error::new(r.path()).with_message(msg);
    match r.method() {
        Some(m) => {
            e.set_method(m);
        },
        None => {},
    }
    Response::internal_error(r.id()).body(e)
}

} // verus!

