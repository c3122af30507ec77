//! Methods, statuses, requests and responses, and what each looks like on
//! the wire.

use crate::table::{Table, TableModel};
use crate::text::{decimal, numeral_of_decimal, numeral_value, push_decimal, same_text};
use vstd::prelude::*;
use vstd::string::*;
use vstd::utf8::encode_utf8;

verus! {

/// The header fields of a message: names to values, names compared exactly.
pub type Headers = Table<String>;

/// The name of the header that announces the length of the body.
pub open spec fn content_length_name() -> Seq<char> {
    "Content-Length"@
}

/// The name of the header that tells the kind of the body.
pub open spec fn content_type_name() -> Seq<char> {
    "Content-Type"@
}

/// The end of a line on the wire.
pub open spec fn crlf() -> Seq<char> {
    "\r\n"@
}

/// How many bytes `text` takes on the wire.
pub open spec fn byte_len(text: Seq<char>) -> nat {
    encode_utf8(text).len()
}

/// One header field as a line on the wire.
pub open spec fn header_line(name: Seq<char>, value: Seq<char>) -> Seq<char> {
    name + ": "@ + value + crlf()
}

/// The lines of the first `n` header fields, in the order of the names.
pub open spec fn header_lines(headers: TableModel<Seq<char>>, n: nat) -> Seq<char>
    decreases n,
{
    if n == 0 {
        Seq::empty()
    } else {
        header_lines(headers, (n - 1) as nat) + header_line(
            headers.keys[n - 1],
            headers.map[headers.keys[n - 1]],
        )
    }
}

/// The request methods that the server knows.
#[derive(Clone, Copy, Debug, PartialEq, Eq, Structural)]
pub enum HttpMethod {
    Get,
    Post,
}

impl HttpMethod {
    /// The method's name on the wire.
    pub open spec fn token(self) -> Seq<char> {
        match self {
            HttpMethod::Get => "GET"@,
            HttpMethod::Post => "POST"@,
        }
    }

    /// The method that `token` names, if it names one.
    pub open spec fn of_token(token: Seq<char>) -> Option<HttpMethod> {
        if token == "GET"@ {
            Some(HttpMethod::Get)
        } else if token == "POST"@ {
            Some(HttpMethod::Post)
        } else {
            None
        }
    }

    /// Each method is the one that its own name names.
    pub proof fn token_names_method(self)
        ensures
            HttpMethod::of_token(self.token()) == Some(self),
    {
        reveal_strlit("GET");
        reveal_strlit("POST");
        assert("GET"@.len() == 3);
        assert("POST"@.len() == 4);
    }

    /// The method's name on the wire.
    pub fn as_str(&self) -> (s: &'static str)
        ensures
            s@ == self.token(),
    {
        match self {
            HttpMethod::Get => "GET",
            HttpMethod::Post => "POST",
        }
    }

    /// Reads a method name. A name that is not known comes back in the
    /// error.
    pub fn from_str(s: &str) -> (r: Result<HttpMethod, ParseError>)
        ensures
            match r {
                Ok(m) => HttpMethod::of_token(s@) == Some(m),
                Err(e) => HttpMethod::of_token(s@) is None && e@ == ParseFault::UnknownMethod(
                    s@,
                ),
            },
    {
        if same_text(s, "GET") {
            Ok(HttpMethod::Get)
        } else if same_text(s, "POST") {
            Ok(HttpMethod::Post)
        } else {
            Err(ParseError::UnknownMethod(s.to_owned()))
        }
    }
}

impl AsRef<str> for HttpMethod {
    fn as_ref(&self) -> (s: &str)
        ensures
            s@ == self.token(),
    {
        self.as_str()
    }
}

impl core::str::FromStr for HttpMethod {
    type Err = ParseError;

    fn from_str(s: &str) -> (r: Result<Self, ParseError>)
        ensures
            match r {
                Ok(m) => HttpMethod::of_token(s@) == Some(m),
                Err(e) => HttpMethod::of_token(s@) is None && e@ == ParseFault::UnknownMethod(
                    s@,
                ),
            },
    {
        HttpMethod::from_str(s)
    }
}

/// Why a request could not be read, as a plain value.
pub enum ParseFault {
    MalformedStartLine,
    MalformedHeader,
    MalformedContentLength,
    TruncatedBody,
    UnknownMethod(Seq<char>),
}

/// Why a request could not be read.
#[derive(Debug)]
pub enum ParseError {
    /// The start line is no text in UTF-8, or does not hold exactly three
    /// tokens.
    MalformedStartLine,
    /// A header line is no text in UTF-8 or lacks the separator, or the
    /// header fields end without an empty line.
    MalformedHeader,
    /// The announced length of the body is not a number.
    MalformedContentLength,
    /// The input ends before the announced length of the body.
    TruncatedBody,
    /// The method is not one that the server knows; the token is kept.
    UnknownMethod(String),
}

impl View for ParseError {
    type V = ParseFault;

    open spec fn view(&self) -> ParseFault {
        match self {
            ParseError::MalformedStartLine => ParseFault::MalformedStartLine,
            ParseError::MalformedHeader => ParseFault::MalformedHeader,
            ParseError::MalformedContentLength => ParseFault::MalformedContentLength,
            ParseError::TruncatedBody => ParseFault::TruncatedBody,
            ParseError::UnknownMethod(token) => ParseFault::UnknownMethod(token@),
        }
    }
}

impl ParseFault {
    /// A short description of the fault.
    pub open spec fn text(self) -> Seq<char> {
        match self {
            ParseFault::MalformedStartLine => "Malformed start line"@,
            ParseFault::MalformedHeader => "Malformed header"@,
            ParseFault::MalformedContentLength => "Malformed content length"@,
            ParseFault::TruncatedBody => "Truncated body"@,
            ParseFault::UnknownMethod(_) => "Unknown method"@,
        }
    }
}

impl ParseError {
    /// A short description of the error.
    pub fn message(&self) -> (s: &'static str)
        ensures
            s@ == self@.text(),
    {
        match self {
            ParseError::MalformedStartLine => "Malformed start line",
            ParseError::MalformedHeader => "Malformed header",
            ParseError::MalformedContentLength => "Malformed content length",
            ParseError::TruncatedBody => "Truncated body",
            ParseError::UnknownMethod(_) => "Unknown method",
        }
    }
}

/// The statuses that the server answers with.
#[derive(Clone, Copy, Debug, PartialEq, Eq, Structural)]
pub enum HttpStatus {
    OK,
    BadRequest,
    NotFound,
    MethodNotAllowed,
    InternalServerError,
}

impl HttpStatus {
    /// The status code.
    pub open spec fn spec_code(self) -> nat {
        match self {
            HttpStatus::OK => 200,
            HttpStatus::BadRequest => 400,
            HttpStatus::NotFound => 404,
            HttpStatus::MethodNotAllowed => 405,
            HttpStatus::InternalServerError => 500,
        }
    }

    /// The reason phrase that goes with the code.
    pub open spec fn phrase(self) -> Seq<char> {
        match self {
            HttpStatus::OK => "OK"@,
            HttpStatus::BadRequest => "Bad Request"@,
            HttpStatus::NotFound => "Not Found"@,
            HttpStatus::MethodNotAllowed => "Method Not Allowed"@,
            HttpStatus::InternalServerError => "Internal Server Error"@,
        }
    }

    /// The first line of a response with this status.
    pub open spec fn line(self) -> Seq<char> {
        "HTTP/1.1 "@ + decimal(self.spec_code()) + " "@ + self.phrase() + crlf()
    }

    /// The status code.
    pub fn code(&self) -> (c: u16)
        ensures
            c == self.spec_code(),
    {
        match self {
            HttpStatus::OK => 200,
            HttpStatus::BadRequest => 400,
            HttpStatus::NotFound => 404,
            HttpStatus::MethodNotAllowed => 405,
            HttpStatus::InternalServerError => 500,
        }
    }

    /// The reason phrase that goes with the code.
    pub fn reason(&self) -> (s: &'static str)
        ensures
            s@ == self.phrase(),
    {
        match self {
            HttpStatus::OK => "OK",
            HttpStatus::BadRequest => "Bad Request",
            HttpStatus::NotFound => "Not Found",
            HttpStatus::MethodNotAllowed => "Method Not Allowed",
            HttpStatus::InternalServerError => "Internal Server Error",
        }
    }
}

impl AsRef<str> for HttpStatus {
    fn as_ref(&self) -> (s: &str)
        ensures
            s@ == self.phrase(),
    {
        self.reason()
    }
}

/// What a request holds, as plain values.
pub struct RequestModel {
    pub method: HttpMethod,
    pub path: Seq<char>,
    pub version: Seq<char>,
    pub headers: TableModel<Seq<char>>,
    pub body: Seq<char>,
}

impl RequestModel {
    /// The request as text on the wire.
    pub open spec fn wire(self) -> Seq<char> {
        self.method.token() + " "@ + self.path + " "@ + self.version + crlf() + header_lines(
            self.headers,
            self.headers.keys.len(),
        ) + crlf() + self.body
    }
}

/// A request as it was read: the path is kept as it came, the names of the
/// header fields are kept letter for letter.
pub struct HttpRequest {
    method: HttpMethod,
    path: String,
    version: String,
    headers: Headers,
    body: String,
}

impl View for HttpRequest {
    type V = RequestModel;

    closed spec fn view(&self) -> RequestModel {
        RequestModel {
            method: self.method,
            path: self.path@,
            version: self.version@,
            headers: self.headers@,
            body: self.body@,
        }
    }
}

impl HttpRequest {
    pub fn new(
        method: HttpMethod,
        path: String,
        version: String,
        headers: Headers,
        body: String,
    ) -> (req: Self)
        ensures
            req@ == (RequestModel {
                method,
                path: path@,
                version: version@,
                headers: headers@,
                body: body@,
            }),
    {
        Self { method, path, version, headers, body }
    }

    pub fn method(&self) -> (m: &HttpMethod)
        ensures
            *m == self@.method,
    {
        &self.method
    }

    pub fn headers(&self) -> (h: &Headers)
        ensures
            h@ == self@.headers,
            self@.headers.wf(),
    {
        proof {
            use_type_invariant(&self.headers);
            self.headers.valid_is_wf();
        }
        &self.headers
    }

    pub fn body(&self) -> (b: &String)
        ensures
            b@ == self@.body,
    {
        &self.body
    }

    pub fn path(&self) -> (p: &String)
        ensures
            p@ == self@.path,
    {
        &self.path
    }

    pub fn version(&self) -> (v: &String)
        ensures
            v@ == self@.version,
    {
        &self.version
    }

    /// The request as text on the wire: the request line, one line for each
    /// header field in the order of the names, an empty line, the body.
    pub fn serialize(&self) -> (out: String)
        ensures
            out@ == self@.wire(),
    {
        let mut out = String::new();
        out.append(self.method.as_str());
        out.append(" ");
        out.append(self.path.as_str());
        out.append(" ");
        out.append(self.version.as_str());
        out.append("\r\n");
        assert(out@ =~= self@.method.token() + " "@ + self@.path + " "@ + self@.version + crlf());
        push_header_lines(&mut out, &self.headers);
        out.append("\r\n");
        out.append(self.body.as_str());
        out
    }
}

/// Appends one line for each header field, in the order of the names.
fn push_header_lines(out: &mut String, headers: &Headers)
    ensures
        final(out)@ == old(out)@ + header_lines(headers@, headers@.keys.len()),
{
    let n = headers.len();
    let mut i: usize = 0;
    assert(out@ =~= old(out)@ + header_lines(headers@, 0));
    while i < n
        invariant
            n == headers@.keys.len(),
            i <= n,
            out@ == old(out)@ + header_lines(headers@, i as nat),
        decreases n - i,
    {
        let ghost before = out@;
        let name = headers.key(i);
        let value = headers.value(i);
        out.append(name.as_str());
        out.append(": ");
        out.append(value.as_str());
        out.append("\r\n");
        assert(out@ =~= before + header_line(name@, value@));
        assert(out@ =~= old(out)@ + header_lines(headers@, (i + 1) as nat));
        i = i + 1;
    }
}

/// What a response holds, as plain values.
pub struct ResponseModel {
    pub status: HttpStatus,
    pub headers: TableModel<Seq<char>>,
    pub body: Seq<char>,
}

impl ResponseModel {
    /// A response with the given status, no body, and the length of that
    /// body announced.
    pub open spec fn fresh(status: HttpStatus) -> Self {
        ResponseModel {
            status,
            headers: TableModel::empty().insert(content_length_name(), "0"@),
            body: Seq::empty(),
        }
    }

    /// The header that announces the length agrees with the body: its value
    /// is the decimal numeral of the length of the body in bytes.
    pub open spec fn consistent(self) -> bool {
        self.headers.get(content_length_name()) == Some(decimal(byte_len(self.body)))
    }

    /// The response after a header field was set. The header that announces
    /// the length is not set this way: for that name the response stays as
    /// it is.
    pub open spec fn with_header(self, name: Seq<char>, value: Seq<char>) -> Self {
        if name == content_length_name() {
            self
        } else {
            ResponseModel { headers: self.headers.insert(name, value), ..self }
        }
    }

    /// The response after a header field was taken out. The header that
    /// announces the length is not taken out: for that name the response
    /// stays as it is.
    pub open spec fn without_header(self, name: Seq<char>) -> Self {
        if name == content_length_name() {
            self
        } else {
            ResponseModel { headers: self.headers.remove(name), ..self }
        }
    }

    /// The response after its body was set: the new length is announced.
    pub open spec fn with_body(self, body: Seq<char>) -> Self {
        ResponseModel {
            status: self.status,
            headers: self.headers.insert(content_length_name(), decimal(byte_len(body))),
            body,
        }
    }

    /// A plain-text response with status 200 and the given body.
    pub open spec fn text(body: Seq<char>) -> Self {
        Self::plain(HttpStatus::OK, body)
    }

    /// A plain-text response with the given status and body.
    pub open spec fn plain(status: HttpStatus, body: Seq<char>) -> Self {
        Self::fresh(status).with_header(content_type_name(), "text/plain"@).with_body(body)
    }

    /// The length that the response announces for its body.
    pub open spec fn announced_length(self) -> Option<nat> {
        match self.headers.get(content_length_name()) {
            Some(value) => numeral_value(value),
            None => None,
        }
    }

    /// The response as text on the wire.
    pub open spec fn wire(self) -> Seq<char> {
        self.status.line() + header_lines(self.headers, self.headers.keys.len()) + crlf()
            + self.body
    }

    /// A new response is consistent: it announces the length of its empty
    /// body.
    pub proof fn fresh_is_consistent(status: HttpStatus)
        ensures
            Self::fresh(status).body.len() == 0,
            Self::fresh(status).consistent(),
            Self::fresh(status).headers.wf(),
            Self::fresh(status).announced_length() == Some(0nat),
    {
        reveal_strlit("0");
        assert("0"@ =~= decimal(0));
        assert(byte_len(Seq::<char>::empty()) == 0);
        numeral_of_decimal(0);
        TableModel::<Seq<char>>::empty().insert_keeps_wf(content_length_name(), "0"@);
    }

    /// Setting the body makes a response consistent, whatever it held before,
    /// and setting the same body once more changes nothing.
    pub proof fn body_makes_consistent(self, body: Seq<char>)
        ensures
            self.with_body(body).consistent(),
            self.with_body(body).with_body(body) == self.with_body(body),
    {
        let once = self.with_body(body);
        let twice = once.with_body(body);
        assert(twice.headers.map =~= once.headers.map);
    }

    /// Setting a header field and taking one out keep a response consistent,
    /// whatever the name is.
    pub proof fn headers_keep_consistent(self, name: Seq<char>, value: Seq<char>)
        requires
            self.consistent(),
        ensures
            self.with_header(name, value).consistent(),
            self.without_header(name).consistent(),
    {
    }

    /// A consistent response announces the length of its body in bytes.
    pub proof fn consistent_announces_length(self)
        requires
            self.consistent(),
        ensures
            self.announced_length() == Some(byte_len(self.body)),
    {
        numeral_of_decimal(byte_len(self.body));
    }

    /// Each header field of a response stands on the wire as its own line.
    pub proof fn header_is_sent(self, name: Seq<char>)
        requires
            self.headers.wf(),
            self.headers.get(name) is Some,
        ensures
            holds_line(self.wire(), header_line(name, self.headers.map[name])),
    {
        let n = self.headers.keys.len();
        assert(self.headers.keys.contains(name));
        let i = choose|i: int| 0 <= i < n && self.headers.keys[i] == name;
        line_is_among(self.headers, i, n);
        let line = header_line(name, self.headers.map[name]);
        let block = header_lines(self.headers, n);
        let (a, b) = choose|a: Seq<char>, b: Seq<char>| block == a + line + b;
        assert(self.wire() =~= (self.status.line() + a) + line + (b + crlf() + self.body));
    }

    /// A consistent response sends the length of its body: exactly one of
    /// its header fields has the name that announces the length, and the line
    /// of that field, with the length of the body in bytes, stands on the
    /// wire.
    pub proof fn length_is_sent(self)
        requires
            self.headers.wf(),
            self.consistent(),
        ensures
            self.announces_once(),
            holds_line(
                self.wire(),
                header_line(content_length_name(), decimal(byte_len(self.body))),
            ),
    {
        self.header_is_sent(content_length_name());
        assert(self.headers.keys.contains(content_length_name()));
    }

    /// Exactly one header field has the name that announces the length.
    pub open spec fn announces_once(self) -> bool {
        &&& exists|i: int|
            0 <= i < self.headers.keys.len() && self.headers.keys[i] == content_length_name()
        &&& forall|i: int, j: int|
            0 <= i < self.headers.keys.len() && 0 <= j < self.headers.keys.len()
                && self.headers.keys[i] == content_length_name() && self.headers.keys[j]
                == content_length_name() ==> i == j
    }
}

/// Whether `line` stands somewhere in `text`.
pub open spec fn holds_line(text: Seq<char>, line: Seq<char>) -> bool {
    exists|before: Seq<char>, after: Seq<char>| text == before + line + after
}

/// The line of the header field at position `i` stands among the lines of
/// the first `n` fields, for every `n` beyond `i`.
pub proof fn line_is_among(headers: TableModel<Seq<char>>, i: int, n: nat)
    requires
        0 <= i < n <= headers.keys.len(),
    ensures
        holds_line(
            header_lines(headers, n),
            header_line(headers.keys[i], headers.map[headers.keys[i]]),
        ),
    decreases n,
{
    let line = header_line(headers.keys[i], headers.map[headers.keys[i]]);
    let before = header_lines(headers, (n - 1) as nat);
    if i == n - 1 {
        assert(header_lines(headers, n) =~= before + line + Seq::<char>::empty());
    } else {
        line_is_among(headers, i, (n - 1) as nat);
        let (a, b) = choose|a: Seq<char>, b: Seq<char>| before == a + line + b;
        let last = header_line(headers.keys[n - 1], headers.map[headers.keys[n - 1]]);
        assert(header_lines(headers, n) =~= a + line + (b + last));
    }
}

/// The header fields and the body of a response.
struct Content {
    headers: Headers,
    body: String,
}

impl Content {
    /// The header that announces the length always agrees with the body.
    #[verifier::type_invariant]
    spec fn agrees(&self) -> bool {
        self.headers@.get(content_length_name()) == Some(decimal(byte_len(self.body@)))
    }

    /// No header fields but the announced length, and an empty body.
    fn fresh() -> (content: Self)
        ensures
            content.headers@ == TableModel::<Seq<char>>::empty().insert(
                content_length_name(),
                "0"@,
            ),
            content.body@ == Seq::<char>::empty(),
    {
        let mut headers: Headers = Table::new();
        headers.insert("Content-Length".to_owned(), "0".to_owned());
        let body = String::new();
        proof {
            ResponseModel::fresh_is_consistent(HttpStatus::OK);
        }
        Content { headers, body }
    }

    /// Sets a header field, unless it is the one that announces the length.
    fn set_header(self, header: &str, val: &str) -> (r: (Self, Option<String>))
        ensures
            r.0.body@ == self.body@,
            r.0.headers@ == if header@ == content_length_name() {
                self.headers@
            } else {
                self.headers@.insert(header@, val@)
            },
            match r.1 {
                Some(v) => self.headers@.get(header@) == Some(v@),
                None => self.headers@.get(header@) is None,
            },
    {
        proof {
            use_type_invariant(&self);
        }
        if same_text(header, "Content-Length") {
            let old = match self.headers.get(header) {
                Some(value) => Some(value.clone()),
                None => None,
            };
            (self, old)
        } else {
            let Content { headers, body } = self;
            let mut headers = headers;
            let old = headers.insert(header.to_owned(), val.to_owned());
            (Content { headers, body }, old)
        }
    }

    /// Takes a header field out, unless it is the one that announces the
    /// length.
    fn remove_header(self, header: &str) -> (r: (Self, Option<String>))
        ensures
            r.0.body@ == self.body@,
            r.0.headers@ == if header@ == content_length_name() {
                self.headers@
            } else {
                self.headers@.remove(header@)
            },
            match r.1 {
                Some(v) => self.headers@.get(header@) == Some(v@),
                None => self.headers@.get(header@) is None,
            },
    {
        proof {
            use_type_invariant(&self);
        }
        if same_text(header, "Content-Length") {
            let old = match self.headers.get(header) {
                Some(value) => Some(value.clone()),
                None => None,
            };
            (self, old)
        } else {
            let Content { headers, body } = self;
            let mut headers = headers;
            let old = headers.remove(header);
            (Content { headers, body }, old)
        }
    }

    /// Sets the body and announces its length in bytes.
    fn set_body(self, body: &str) -> (content: Self)
        ensures
            content.body@ == body@,
            content.headers@ == self.headers@.insert(
                content_length_name(),
                decimal(byte_len(body@)),
            ),
    {
        let Content { headers, body: _ } = self;
        let mut headers = headers;
        let mut length = String::new();
        push_decimal(&mut length, body.as_bytes().len());
        assert(length@ =~= decimal(byte_len(body@)));
        headers.insert("Content-Length".to_owned(), length);
        Content { headers, body: body.to_owned() }
    }
}

/// A response under construction. The header that announces the length of
/// the body always agrees with the body: setting the body sets it, and
/// nothing else changes it.
pub struct HttpResponse {
    pub status: HttpStatus,
    content: Content,
}

impl View for HttpResponse {
    type V = ResponseModel;

    closed spec fn view(&self) -> ResponseModel {
        ResponseModel {
            status: self.status,
            headers: self.content.headers@,
            body: self.content.body@,
        }
    }
}

impl HttpResponse {
    /// A response with the given status and an empty body.
    pub fn new(status: HttpStatus) -> (res: Self)
        ensures
            res@ == ResponseModel::fresh(status),
            res@.consistent(),
    {
        let res = HttpResponse { status, content: Content::fresh() };
        proof {
            ResponseModel::fresh_is_consistent(status);
        }
        res
    }

    /// Sets a header field and returns the value that it had. The header
    /// that announces the length is left as it is, and its value is returned.
    pub fn set_header(&mut self, header: &str, val: &str) -> (r: Option<String>)
        ensures
            final(self)@ == old(self)@.with_header(header@, val@),
            final(self)@.consistent(),
            match r {
                Some(v) => old(self)@.headers.get(header@) == Some(v@),
                None => old(self)@.headers.get(header@) is None,
            },
    {
        let mut content = Content::fresh();
        core::mem::swap(&mut self.content, &mut content);
        let (content, had) = content.set_header(header, val);
        proof {
            use_type_invariant(&content);
        }
        self.content = content;
        had
    }

    /// Takes a header field out and returns the value that it had. The
    /// header that announces the length is left in, and its value is
    /// returned.
    pub fn remove_header(&mut self, header: &str) -> (r: Option<String>)
        ensures
            final(self)@ == old(self)@.without_header(header@),
            final(self)@.consistent(),
            match r {
                Some(v) => old(self)@.headers.get(header@) == Some(v@),
                None => old(self)@.headers.get(header@) is None,
            },
    {
        let mut content = Content::fresh();
        core::mem::swap(&mut self.content, &mut content);
        let (content, had) = content.remove_header(header);
        proof {
            use_type_invariant(&content);
        }
        self.content = content;
        had
    }

    /// Sets the body, and the header that announces its length in bytes.
    pub fn set_body(&mut self, body: &str)
        ensures
            final(self)@ == old(self)@.with_body(body@),
            final(self)@.consistent(),
    {
        let mut content = Content::fresh();
        core::mem::swap(&mut self.content, &mut content);
        let content = content.set_body(body);
        proof {
            use_type_invariant(&content);
        }
        self.content = content;
    }

    /// The status.
    pub fn status(&self) -> (s: HttpStatus)
        ensures
            s == self@.status,
    {
        self.status
    }

    /// The header fields.
    pub fn headers(&self) -> (h: &Headers)
        ensures
            h@ == self@.headers,
            self@.headers.wf(),
            self@.consistent(),
    {
        proof {
            use_type_invariant(&self.content);
            use_type_invariant(&self.content.headers);
            self.content.headers.valid_is_wf();
        }
        &self.content.headers
    }

    /// The body.
    pub fn body(&self) -> (b: &String)
        ensures
            b@ == self@.body,
    {
        &self.content.body
    }

    /// The response as text on the wire: the status line, one line for each
    /// header field in the order of the names, an empty line, the body.
    /// Among the lines is the one that announces the length of the body.
    pub fn serialize(&self) -> (out: String)
        ensures
            out@ == self@.wire(),
            self@.consistent(),
            self@.announces_once(),
            holds_line(
                out@,
                header_line(content_length_name(), decimal(byte_len(self@.body))),
            ),
    {
        proof {
            use_type_invariant(&self.content);
            use_type_invariant(&self.content.headers);
            self.content.headers.valid_is_wf();
            self@.length_is_sent();
        }
        let mut out = String::new();
        out.append("HTTP/1.1 ");
        push_decimal(&mut out, self.status.code() as usize);
        out.append(" ");
        out.append(self.status.reason());
        out.append("\r\n");
        assert(out@ =~= self.status.line());
        push_header_lines(&mut out, &self.content.headers);
        out.append("\r\n");
        out.append(self.content.body.as_str());
        out
    }
}

/// What a handler may return: anything that can be made into a response.
pub trait IntoResponse: Sized {
    /// The response that the value becomes.
    spec fn response(&self) -> ResponseModel;

    fn into_response(self) -> (res: HttpResponse)
        ensures
            res@ == self.response(),
    ;
}

impl IntoResponse for HttpResponse {
    open spec fn response(&self) -> ResponseModel {
        self@
    }

    fn into_response(self) -> (res: HttpResponse) {
        self
    }
}

impl<'a> IntoResponse for &'a str {
    open spec fn response(&self) -> ResponseModel {
        ResponseModel::text(self@)
    }

    fn into_response(self) -> (res: HttpResponse) {
        let mut res = HttpResponse::new(HttpStatus::OK);
        res.set_header("Content-Type", "text/plain");
        res.set_body(self);
        res
    }
}

impl IntoResponse for String {
    open spec fn response(&self) -> ResponseModel {
        ResponseModel::text(self@)
    }

    fn into_response(self) -> (res: HttpResponse) {
        self.as_str().into_response()
    }
}

} // verus!
