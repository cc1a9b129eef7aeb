use vstd::prelude::*;

verus! {

/// The media type of a response body.
#[derive(Clone, Copy, Debug, PartialEq, Eq, Structural)]
pub enum ContentType {
    Cert,
    Json,
    Rfc8181,
    Rfc6492,
    Text,
    Xml,
    Html,
    Fav,
    Js,
    Css,
    Svg,
    Woff,
    Woff2,
}

/// The media type of the publication protocol.
pub const PUBLICATION_CONTENT_TYPE: &'static str = "application/rpki-publication";

/// The media type of the provisioning protocol.
pub const PROVISIONING_CONTENT_TYPE: &'static str = "application/rpki-updown";

pub open spec fn content_type_text(c: ContentType) -> &'static str {
    match c {
        ContentType::Cert => "application/x-x509-ca-cert",
        ContentType::Json => "application/json",
        ContentType::Rfc8181 => PUBLICATION_CONTENT_TYPE,
        ContentType::Rfc6492 => PROVISIONING_CONTENT_TYPE,
        ContentType::Text => "text/plain",
        ContentType::Xml => "application/xml",
        ContentType::Html => "text/html",
        ContentType::Fav => "image/x-icon",
        ContentType::Js => "application/javascript",
        ContentType::Css => "text/css",
        ContentType::Svg => "image/svg+xml",
        ContentType::Woff => "font/woff",
        ContentType::Woff2 => "font/woff2",
    }
}

impl ContentType {
    /// The value of the Content-Type header.
    pub fn as_ref(&self) -> (r: &'static str)
        ensures
            r == content_type_text(*self),
    {
        match self {
            ContentType::Cert => "application/x-x509-ca-cert",
            ContentType::Json => "application/json",
            ContentType::Rfc8181 => PUBLICATION_CONTENT_TYPE,
            ContentType::Rfc6492 => PROVISIONING_CONTENT_TYPE,
            ContentType::Text => "text/plain",
            ContentType::Xml => "application/xml",
            ContentType::Html => "text/html",
            ContentType::Fav => "image/x-icon",
            ContentType::Js => "application/javascript",
            ContentType::Css => "text/css",
            ContentType::Svg => "image/svg+xml",
            ContentType::Woff => "font/woff",
            ContentType::Woff2 => "font/woff2",
        }
    }
}

pub const STATUS_OK: u16 = 200;
pub const STATUS_FORBIDDEN: u16 = 403;
pub const STATUS_NOT_FOUND: u16 = 404;

/// A response as the transport sends it: status, content type, an optional
/// cache lifetime in seconds, and the body.
pub struct HttpResponse {
    pub status: u16,
    pub content_type: ContentType,
    pub max_age: Option<usize>,
    pub body: Vec<u8>,
}

/// Copies a byte slice into a vector.
pub fn bytes_of(content: &[u8]) -> (r: Vec<u8>)
    ensures
        r@ == content@,
{
    let mut r: Vec<u8> = Vec::new();
    let mut i: usize = 0;
    while i < content.len()
        invariant
            i <= content.len(),
            r@ == content@.subrange(0, i as int),
        decreases content.len() - i,
    {
        r.push(content[i]);
        i += 1;
    }
    assert(r@ =~= content@);
    r
}

impl HttpResponse {
    pub open spec fn is_ok_with(&self, c: ContentType, body: Seq<u8>) -> bool {
        &&& self.status == STATUS_OK
        &&& self.content_type == c
        &&& self.max_age is None
        &&& self.body@ == body
    }

    fn ok_response(content_type: ContentType, body: Vec<u8>) -> (r: HttpResponse)
        ensures
            r.is_ok_with(content_type, body@),
    {
        HttpResponse { status: STATUS_OK, content_type, max_age: None, body }
    }

    fn empty(status: u16) -> (r: HttpResponse)
        ensures
            r.status == status,
            r.content_type == ContentType::Text,
            r.max_age is None,
            r.body@.len() == 0,
    {
        HttpResponse { status, content_type: ContentType::Text, max_age: None, body: Vec::new() }
    }

    pub fn text(body: Vec<u8>) -> (r: HttpResponse)
        ensures
            r.is_ok_with(ContentType::Text, body@),
    {
        Self::ok_response(ContentType::Text, body)
    }

    pub fn xml(body: Vec<u8>) -> (r: HttpResponse)
        ensures
            r.is_ok_with(ContentType::Xml, body@),
    {
        Self::ok_response(ContentType::Xml, body)
    }

    /// An XML response that may be cached for the given number of seconds.
    pub fn xml_with_cache(body: Vec<u8>, seconds: usize) -> (r: HttpResponse)
        ensures
            r.status == STATUS_OK,
            r.content_type == ContentType::Xml,
            r.max_age == Some(seconds),
            r.body@ == body@,
    {
        HttpResponse { status: STATUS_OK, content_type: ContentType::Xml, max_age: Some(seconds), body }
    }

    pub fn rfc8181(body: Vec<u8>) -> (r: HttpResponse)
        ensures
            r.is_ok_with(ContentType::Rfc8181, body@),
    {
        Self::ok_response(ContentType::Rfc8181, body)
    }

    pub fn rfc6492(body: Vec<u8>) -> (r: HttpResponse)
        ensures
            r.is_ok_with(ContentType::Rfc6492, body@),
    {
        Self::ok_response(ContentType::Rfc6492, body)
    }

    pub fn cert(body: Vec<u8>) -> (r: HttpResponse)
        ensures
            r.is_ok_with(ContentType::Cert, body@),
    {
        Self::ok_response(ContentType::Cert, body)
    }

    pub fn html(content: &[u8]) -> (r: HttpResponse)
        ensures
            r.is_ok_with(ContentType::Html, content@),
    {
        Self::ok_response(ContentType::Html, bytes_of(content))
    }

    pub fn fav(content: &[u8]) -> (r: HttpResponse)
        ensures
            r.is_ok_with(ContentType::Fav, content@),
    {
        Self::ok_response(ContentType::Fav, bytes_of(content))
    }

    pub fn js(content: &[u8]) -> (r: HttpResponse)
        ensures
            r.is_ok_with(ContentType::Js, content@),
    {
        Self::ok_response(ContentType::Js, bytes_of(content))
    }

    pub fn css(content: &[u8]) -> (r: HttpResponse)
        ensures
            r.is_ok_with(ContentType::Css, content@),
    {
        Self::ok_response(ContentType::Css, bytes_of(content))
    }

    pub fn svg(content: &[u8]) -> (r: HttpResponse)
        ensures
            r.is_ok_with(ContentType::Svg, content@),
    {
        Self::ok_response(ContentType::Svg, bytes_of(content))
    }

    pub fn woff(content: &[u8]) -> (r: HttpResponse)
        ensures
            r.is_ok_with(ContentType::Woff, content@),
    {
        Self::ok_response(ContentType::Woff, bytes_of(content))
    }

    pub fn woff2(content: &[u8]) -> (r: HttpResponse)
        ensures
            r.is_ok_with(ContentType::Woff2, content@),
    {
        Self::ok_response(ContentType::Woff2, bytes_of(content))
    }

    /// An empty 200 response.
    pub fn ok() -> (r: HttpResponse)
        ensures
            r.status == STATUS_OK,
            r.content_type == ContentType::Text,
            r.max_age is None,
            r.body@.len() == 0,
    {
        Self::empty(STATUS_OK)
    }

    /// An empty 404 response.
    pub fn not_found() -> (r: HttpResponse)
        ensures
            r.status == STATUS_NOT_FOUND,
            r.content_type == ContentType::Text,
            r.max_age is None,
            r.body@.len() == 0,
    {
        Self::empty(STATUS_NOT_FOUND)
    }

    /// An empty 403 response.
    pub fn forbidden() -> (r: HttpResponse)
        ensures
            r.status == STATUS_FORBIDDEN,
            r.content_type == ContentType::Text,
            r.max_age is None,
            r.body@.len() == 0,
    {
        Self::empty(STATUS_FORBIDDEN)
    }
}

/// Why a request body was not read.
#[derive(Clone, Copy, Debug, PartialEq, Eq, Structural)]
pub enum BodyError {
    /// The body is, or announces to be, larger than the limit.
    PostTooBig,
    /// A chunk of the body could not be read.
    PostCannotRead,
}

/// Reads a request body chunk by chunk, refusing it as soon as what was read
/// plus what the transport announces still to come exceeds the limit. No
/// chunk is kept that would take the body past the limit.
pub struct BodyReader {
    pub limit: u64,
    pub body: Vec<u8>,
}

impl BodyReader {
    pub open spec fn wf(&self) -> bool {
        self.body@.len() <= self.limit
    }

    /// Starts reading a body of which the transport announces at least
    /// `lower_hint` bytes.
    pub fn start(limit: u64, lower_hint: u64) -> (r: Result<BodyReader, BodyError>)
        ensures
            match r {
                Ok(b) => lower_hint <= limit && b.wf() && b.limit == limit && b.body@.len() == 0,
                Err(e) => lower_hint > limit && e == BodyError::PostTooBig,
            },
    {
        if lower_hint > limit {
            Err(BodyError::PostTooBig)
        } else {
            Ok(BodyReader { limit, body: Vec::new() })
        }
    }

    /// Takes one chunk, after which the transport announces at least
    /// `lower_hint` more bytes.
    pub fn push_chunk(&mut self, chunk: &[u8], lower_hint: u64) -> (r: Result<(), BodyError>)
        requires
            old(self).wf(),
        ensures
            final(self).wf(),
            final(self).limit == old(self).limit,
            match r {
                Ok(()) => old(self).body@.len() + chunk@.len() + lower_hint <= old(self).limit
                    && final(self).body@ == old(self).body@ + chunk@,
                Err(e) => e == BodyError::PostTooBig && old(self).body@.len() + chunk@.len()
                    + lower_hint > old(self).limit && final(self).body@ == old(self).body@,
            },
    {
        let room: u64 = self.limit - self.body.len() as u64;
        if chunk.len() as u64 > room || lower_hint > room - chunk.len() as u64 {
            return Err(BodyError::PostTooBig);
        }
        let mut i: usize = 0;
        let ghost start = self.body@;
        while i < chunk.len()
            invariant
                i <= chunk.len(),
                self.limit == old(self).limit,
                start == old(self).body@,
                self.body@ == start + chunk@.subrange(0, i as int),
                start.len() + chunk@.len() <= self.limit,
            decreases chunk.len() - i,
        {
            self.body.push(chunk[i]);
            assert(start + chunk@.subrange(0, i + 1) =~= (start + chunk@.subrange(0, i as int)).push(
                chunk@[i as int],
            ));
            i += 1;
        }
        assert(chunk@.subrange(0, chunk.len() as int) =~= chunk@);
        Ok(())
    }

    /// The body read so far.
    pub fn finish(self) -> (r: Vec<u8>)
        ensures
            r@ == self.body@,
    {
        self.body
    }
}

/// Whether a header byte is one that a header value given as text may hold:
/// visible ASCII, space or tab.
pub open spec fn is_header_char(b: u8) -> bool {
    b == 9 || (32 <= b && b < 127)
}

pub open spec fn is_ws(b: u8) -> bool {
    b == 9 || b == 10 || b == 11 || b == 12 || b == 13 || b == 32
}

/// The bytes without leading white space.
pub open spec fn trim_start(s: Seq<u8>) -> Seq<u8>
    decreases s.len(),
{
    if s.len() > 0 && is_ws(s[0]) {
        trim_start(s.drop_first())
    } else {
        s
    }
}

/// The bytes without trailing white space.
pub open spec fn trim_end(s: Seq<u8>) -> Seq<u8>
    decreases s.len(),
{
    if s.len() > 0 && is_ws(s.last()) {
        trim_end(s.drop_last())
    } else {
        s
    }
}

pub open spec fn trim(s: Seq<u8>) -> Seq<u8> {
    trim_end(trim_start(s))
}

pub open spec fn bearer_word() -> Seq<u8> {
    seq![66u8, 101u8, 97u8, 114u8, 101u8, 114u8]
}

/// The token of an `Authorization` header of the form `Bearer <token>`, with
/// white space around the token taken off.
pub open spec fn bearer_token_of(h: Seq<u8>) -> Option<Seq<u8>> {
    if (forall|i: int| 0 <= i < h.len() ==> is_header_char(#[trigger] h[i])) && h.len() > 6
        && h.subrange(0, 6) == bearer_word() {
        Some(trim(h.subrange(6, h.len() as int)))
    } else {
        None
    }
}

fn is_ws_byte(b: u8) -> (r: bool)
    ensures
        r == is_ws(b),
{
    b == 9 || b == 10 || b == 11 || b == 12 || b == 13 || b == 32
}

/// Takes white space off both ends of `s[from..]`.
pub fn trim_bytes(s: &Vec<u8>, from: usize) -> (r: Vec<u8>)
    requires
        from <= s@.len(),
    ensures
        r@ == trim(s@.subrange(from as int, s@.len() as int)),
{
    let mut a: usize = from;
    while a < s.len() && is_ws_byte(s[a])
        invariant
            from <= a <= s@.len(),
            trim_start(s@.subrange(from as int, s@.len() as int)) == trim_start(
                s@.subrange(a as int, s@.len() as int),
            ),
        decreases s.len() - a,
    {
        assert(s@.subrange(a as int, s@.len() as int).drop_first() =~= s@.subrange(
            a + 1,
            s@.len() as int,
        ));
        a += 1;
    }
    let mut b: usize = s.len();
    while b > a && is_ws_byte(s[b - 1])
        invariant
            a <= b <= s@.len(),
            trim_end(s@.subrange(a as int, s@.len() as int)) == trim_end(
                s@.subrange(a as int, b as int),
            ),
        decreases b - a,
    {
        assert(s@.subrange(a as int, b as int).drop_last() =~= s@.subrange(a as int, b - 1));
        b -= 1;
    }
    let mut r: Vec<u8> = Vec::new();
    let mut i: usize = a;
    while i < b
        invariant
            a <= i <= b,
            b <= s@.len(),
            r@ == s@.subrange(a as int, i as int),
        decreases b - i,
    {
        r.push(s[i]);
        assert(s@.subrange(a as int, i + 1) =~= s@.subrange(a as int, i as int).push(s@[i as int]));
        i += 1;
    }
    proof {
        let t = s@.subrange(a as int, s@.len() as int);
        if a == s@.len() {
            assert(t.len() == 0);
        } else {
            assert(!is_ws(t[0]));
        }
        assert(trim_start(t) == t);
        let u = s@.subrange(a as int, b as int);
        if b > a {
            assert(u.last() == s@[b - 1]);
        }
        assert(trim_end(u) == u);
    }
    r
}

/// The token that an `Authorization` header value carries, if it is a bearer
/// token.
pub fn bearer_token(header: &Vec<u8>) -> (r: Option<Vec<u8>>)
    ensures
        match (r, bearer_token_of(header@)) {
            (Some(t), Some(m)) => t@ == m,
            (None, None) => true,
            _ => false,
        },
{
    let mut i: usize = 0;
    while i < header.len()
        invariant
            i <= header.len(),
            forall|j: int| 0 <= j < i ==> is_header_char(#[trigger] header@[j]),
        decreases header.len() - i,
    {
        let b = header[i];
        if !(b == 9 || (32 <= b && b < 127)) {
            assert(!is_header_char(header@[i as int]));
            return None;
        }
        i += 1;
    }
    if header.len() <= 6 {
        return None;
    }
    let word = header[0] == 66 && header[1] == 101 && header[2] == 97 && header[3] == 114
        && header[4] == 101 && header[5] == 114;
    if !word {
        assert(header@.subrange(0, 6) != bearer_word()) by {
            if header@.subrange(0, 6) == bearer_word() {
                assert(header@.subrange(0, 6)[0] == header@[0]);
                assert(header@.subrange(0, 6)[1] == header@[1]);
                assert(header@.subrange(0, 6)[2] == header@[2]);
                assert(header@.subrange(0, 6)[3] == header@[3]);
                assert(header@.subrange(0, 6)[4] == header@[4]);
                assert(header@.subrange(0, 6)[5] == header@[5]);
            }
        }
        return None;
    }
    assert(header@.subrange(0, 6) =~= bearer_word());
    Some(trim_bytes(header, 6))
}

/// Whether an `Authorization` header value is a bearer token equal to the
/// admin token.
pub fn is_authorized(header: Option<&Vec<u8>>, admin_token: &Vec<u8>) -> (r: bool)
    ensures
        r == match header {
            Some(h) => bearer_token_of(h@) == Some(admin_token@),
            None => false,
        },
{
    match header {
        None => false,
        Some(h) => match bearer_token(h) {
            None => false,
            Some(t) => crate::publication::same_bytes(&t, admin_token),
        },
    }
}

/// The method of a request.
#[derive(Clone, Copy, Debug, PartialEq, Eq, Structural)]
pub enum Method {
    Get,
    Post,
    Put,
    Delete,
    Other,
}

/// The parts of a request that routing and authorisation read.
pub struct Request {
    pub method: Method,
    pub path: RequestPath,
    pub authorization: Option<Vec<u8>>,
}

impl Request {
    pub fn new(method: Method, path: Vec<u8>, authorization: Option<Vec<u8>>) -> (r: Request)
        ensures
            r.method == method,
            r.path.wf(),
            r.path.path@ == path@,
            path@.len() == 0 ==> r.path.segment == (0usize, 0usize),
            path@.len() > 0 ==> RequestPath::next_bounds(
                path@,
                0,
                r.path.segment.0 as int,
                r.path.segment.1 as int,
            ),
            r.authorization == authorization,
    {
        Request { method, path: RequestPath::from_path(path), authorization }
    }

    pub fn path(&self) -> (r: &RequestPath)
        ensures
            r == &self.path,
    {
        &self.path
    }

    pub fn method(&self) -> (r: Method)
        ensures
            r == self.method,
    {
        self.method
    }

    pub fn is_get(&self) -> (r: bool)
        ensures
            r == (self.method == Method::Get),
    {
        self.method == Method::Get
    }

    pub fn is_post(&self) -> (r: bool)
        ensures
            r == (self.method == Method::Post),
    {
        self.method == Method::Post
    }

    pub fn is_delete(&self) -> (r: bool)
        ensures
            r == (self.method == Method::Delete),
    {
        self.method == Method::Delete
    }

    /// Whether the request carries the admin token as a bearer token.
    pub fn is_authorized(&self, admin_token: &Vec<u8>) -> (r: bool)
        ensures
            r == match self.authorization {
                Some(h) => bearer_token_of(h@) == Some(admin_token@),
                None => false,
            },
    {
        match &self.authorization {
            Some(h) => is_authorized(Some(h), admin_token),
            None => false,
        }
    }
}

pub open spec fn is_slash(b: u8) -> bool {
    b == 47
}

/// The path of a request, walked segment by segment. Runs of slashes count
/// as one separator.
pub struct RequestPath {
    pub path: Vec<u8>,
    pub segment: (usize, usize),
}

impl RequestPath {
    pub open spec fn wf(&self) -> bool {
        self.segment.0 <= self.segment.1 <= self.path@.len()
    }

    /// Whether `(start, end)` is the segment that follows position `from`:
    /// slashes from `from` up to `start`, no slash from `start` up to `end`,
    /// and a slash or the end of the path at `end`.
    pub open spec fn next_bounds(p: Seq<u8>, from: int, start: int, end: int) -> bool {
        &&& from <= start <= end <= p.len()
        &&& forall|k: int| from <= k < start ==> is_slash(#[trigger] p[k])
        &&& (start == p.len() || !is_slash(p[start]))
        &&& forall|k: int| start <= k < end ==> !is_slash(#[trigger] p[k])
        &&& (end == p.len() || is_slash(p[end]))
    }

    /// A path positioned at its first segment.
    pub fn from_path(path: Vec<u8>) -> (r: RequestPath)
        ensures
            r.wf(),
            r.path@ == path@,
            path@.len() == 0 ==> r.segment == (0usize, 0usize),
            path@.len() > 0 ==> Self::next_bounds(path@, 0, r.segment.0 as int, r.segment.1 as int),
    {
        let mut res = RequestPath { path, segment: (0, 0) };
        res.next_segment();
        res
    }

    pub fn full(&self) -> (r: &Vec<u8>)
        ensures
            r@ == self.path@,
    {
        &self.path
    }

    /// What follows the current segment.
    pub fn remaining(&self) -> (r: Vec<u8>)
        requires
            self.wf(),
        ensures
            r@ == self.path@.subrange(self.segment.1 as int, self.path@.len() as int),
    {
        copy_range(&self.path, self.segment.1, self.path.len())
    }

    /// The current segment.
    pub fn segment(&self) -> (r: Vec<u8>)
        requires
            self.wf(),
        ensures
            r@ == self.path@.subrange(self.segment.0 as int, self.segment.1 as int),
    {
        copy_range(&self.path, self.segment.0, self.segment.1)
    }

    /// Moves to the next segment; false, with nothing changed, at the end.
    pub fn next_segment(&mut self) -> (r: bool)
        requires
            old(self).wf(),
        ensures
            final(self).wf(),
            final(self).path@ == old(self).path@,
            r == (old(self).segment.1 < old(self).path@.len()),
            !r ==> final(self).segment == old(self).segment,
            r ==> Self::next_bounds(
                old(self).path@,
                old(self).segment.1 as int,
                final(self).segment.0 as int,
                final(self).segment.1 as int,
            ),
    {
        let from = self.segment.1;
        if from >= self.path.len() {
            return false;
        }
        let mut start = from;
        while start < self.path.len() && self.path[start] == 47
            invariant
                from <= start <= self.path@.len(),
                forall|k: int| from <= k < start ==> is_slash(#[trigger] self.path@[k]),
            decreases self.path.len() - start,
        {
            start += 1;
        }
        let mut end = start;
        while end < self.path.len() && self.path[end] != 47
            invariant
                start <= end <= self.path@.len(),
                forall|k: int| start <= k < end ==> !is_slash(#[trigger] self.path@[k]),
            decreases self.path.len() - end,
        {
            end += 1;
        }
        self.segment = (start, end);
        true
    }

    /// Moves to the next segment and returns it.
    pub fn next(&mut self) -> (r: Option<Vec<u8>>)
        requires
            old(self).wf(),
        ensures
            final(self).wf(),
            final(self).path@ == old(self).path@,
            match r {
                Some(s) => old(self).segment.1 < old(self).path@.len() && Self::next_bounds(
                    old(self).path@,
                    old(self).segment.1 as int,
                    final(self).segment.0 as int,
                    final(self).segment.1 as int,
                ) && s@ == final(self).path@.subrange(
                    final(self).segment.0 as int,
                    final(self).segment.1 as int,
                ),
                None => old(self).segment.1 >= old(self).path@.len() && final(self).segment == old(
                    self,
                ).segment,
            },
    {
        if self.next_segment() {
            Some(self.segment())
        } else {
            None
        }
    }
}

/// Copies `v[from..to]`.
fn copy_range(v: &Vec<u8>, from: usize, to: usize) -> (r: Vec<u8>)
    requires
        from <= to <= v@.len(),
    ensures
        r@ == v@.subrange(from as int, to as int),
{
    let mut r: Vec<u8> = Vec::new();
    let mut i: usize = from;
    while i < to
        invariant
            from <= i <= to,
            to <= v@.len(),
            r@ == v@.subrange(from as int, i as int),
        decreases to - i,
    {
        r.push(v[i]);
        assert(v@.subrange(from as int, i + 1) =~= v@.subrange(from as int, i as int).push(v@[i as int]));
        i += 1;
    }
    r
}

} // verus!
