use vstd::prelude::*;
use crate::headers::{
    grouped, headers_well_formed, is_value_byte, valid_headers, valid_value, valid_value_bytes, views,
    Header,
};
use crate::text::{append_bytes, bytes_eq_ignore_case, decimal, eq_ignore_case, lemma_decimal_digits, push_decimal};

verus! {

/// The protocol version of a message.
#[derive(Clone, Copy, PartialEq, Eq, Structural)]
pub enum HttpVersion {
    Http09,
    Http10,
    Http11,
    H2,
    H3,
}

/// How a version is written at the head of a message.
pub open spec fn version_text(v: HttpVersion) -> Seq<u8> {
    match v {
        HttpVersion::Http09 => seq![72u8, 84, 84, 80, 47, 48, 46, 57],
        HttpVersion::Http10 => seq![72u8, 84, 84, 80, 47, 49, 46, 48],
        HttpVersion::Http11 => seq![72u8, 84, 84, 80, 47, 49, 46, 49],
        HttpVersion::H2 => seq![72u8, 84, 84, 80, 47, 50, 46, 48],
        HttpVersion::H3 => seq![72u8, 84, 84, 80, 47, 51, 46, 48],
    }
}

/// The text of a version, such as `HTTP/1.1`.
pub fn version_bytes(v: HttpVersion) -> (r: Vec<u8>)
    ensures
        r@ == version_text(v),
{
    let minor: (u8, u8) = match v {
        HttpVersion::Http09 => (48u8, 57u8),
        HttpVersion::Http10 => (49u8, 48u8),
        HttpVersion::Http11 => (49u8, 49u8),
        HttpVersion::H2 => (50u8, 48u8),
        HttpVersion::H3 => (51u8, 48u8),
    };
    let r: Vec<u8> = vec![72u8, 84, 84, 80, 47, minor.0, 46, minor.1];
    assert(r@ =~= version_text(v));
    r
}

/// The reason phrase that http registers for a status code, if any.
pub uninterp spec fn status_reason(code: u16) -> Option<Seq<u8>>;

/// Relies on http's `StatusCode::canonical_reason`: the registered reason phrase
/// of a code, a function of the code alone.
#[verifier::external_body]
fn canonical_reason(code: u16) -> (r: Option<Vec<u8>>)
    requires
        100 <= code < 1000,
    ensures
        r matches Some(v) ==> status_reason(code) == Some(v@),
        r is None ==> status_reason(code) is None,
{
    let status = reqwest::StatusCode::from_u16(code).expect("code checked by the caller");
    status.canonical_reason().map(|s| s.as_bytes().to_vec())
}

/// What stands for a reason phrase that http does not know.
pub open spec fn unknown_reason() -> Seq<u8> {
    seq![60u8, 117, 110, 107, 110, 111, 119, 110, 32, 115, 116, 97, 116, 117, 115, 32, 99, 111, 100, 101, 62]
}

/// A request as it is about to be sent.
pub struct Request {
    pub method: Vec<u8>,
    pub path: Vec<u8>,
    pub query: Option<Vec<u8>>,
    pub host: Option<Vec<u8>>,
    pub port: Option<u16>,
    pub headers: Vec<Header>,
    /// The body, where it is already held as bytes.
    pub body: Option<Vec<u8>>,
}

/// A response whose body has not been read yet.
pub struct Response {
    pub version: HttpVersion,
    pub status: u16,
    pub headers: Vec<Header>,
}

impl Request {
    /// The header values, and the host that may become one, are valid header
    /// values, and headers of one name stand together.
    pub open spec fn wf(&self) -> bool {
        &&& valid_headers(views(self.headers@))
        &&& grouped(views(self.headers@))
        &&& (self.host matches Some(h) ==> valid_value(h@))
    }

    /// Whether the request is well formed.
    pub fn is_wf(&self) -> (r: bool)
        ensures
            r == self.wf(),
    {
        let host_ok = match &self.host {
            Some(h) => valid_value_bytes(h.as_slice()),
            None => true,
        };
        host_ok && headers_well_formed(&self.headers)
    }
}

impl Response {
    /// The status is a three-digit code, the header values are valid, and
    /// headers of one name stand together.
    pub open spec fn wf(&self) -> bool {
        &&& 100 <= self.status < 1000
        &&& valid_headers(views(self.headers@))
        &&& grouped(views(self.headers@))
    }

    /// Whether the response is well formed.
    pub fn is_wf(&self) -> (r: bool)
        ensures
            r == self.wf(),
    {
        100 <= self.status && self.status < 1000 && headers_well_formed(&self.headers)
    }
}

/// `content-length`
pub open spec fn content_length_name() -> Seq<u8> {
    seq![99u8, 111, 110, 116, 101, 110, 116, 45, 108, 101, 110, 103, 116, 104]
}

/// `host`
pub open spec fn host_name() -> Seq<u8> {
    seq![104u8, 111, 115, 116]
}

/// The host written in test mode, so that output does not depend on the target.
pub open spec fn mock_host() -> Seq<u8> {
    seq![104u8, 116, 116, 112, 46, 109, 111, 99, 107]
}

/// Some header of `hs` has this name, compared without case.
pub open spec fn has_header(hs: Seq<(Seq<u8>, Seq<u8>)>, name: Seq<u8>) -> bool {
    exists|i: int| 0 <= i < hs.len() && eq_ignore_case(#[trigger] hs[i].0, name)
}

/// The value of the synthesized `Host` header.
pub open spec fn host_value(host: Seq<u8>, port: Option<u16>, test_mode: bool) -> Seq<u8> {
    if test_mode {
        mock_host()
    } else if port is Some {
        host + seq![58u8] + decimal(port->0 as nat)
    } else {
        host
    }
}

/// The request's headers with `content-length` and `host` added where the
/// client would add them on sending and they are not there yet.
pub open spec fn request_headers(req: &Request, test_mode: bool) -> Seq<(Seq<u8>, Seq<u8>)> {
    let hs = views(req.headers@);
    let with_length = if req.body is Some && !has_header(hs, content_length_name()) {
        hs.push((content_length_name(), decimal(req.body->0@.len())))
    } else {
        hs
    };
    if req.host is Some && !has_header(with_length, host_name()) {
        with_length.push((host_name(), host_value(req.host->0@, req.port, test_mode)))
    } else {
        with_length
    }
}

/// `METHOD path[?query] HTTP/1.1`
pub open spec fn request_line(req: &Request) -> Seq<u8> {
    let query = match req.query {
        Some(q) => seq![63u8] + q@,
        None => Seq::empty(),
    };
    req.method@ + seq![32u8] + req.path@ + query + seq![32u8] + version_text(HttpVersion::Http11)
}

/// `VERSION code reason`
pub open spec fn status_line(resp: &Response) -> Seq<u8> {
    let reason = match status_reason(resp.status) {
        Some(r) => r,
        None => unknown_reason(),
    };
    version_text(resp.version) + seq![32u8] + decimal(resp.status as nat) + seq![32u8] + reason
}

/// Whether some header has this name, compared without case.
pub fn find_header(headers: &Vec<Header>, name: &[u8]) -> (r: bool)
    ensures
        r == has_header(views(headers@), name@),
{
    let mut i: usize = 0;
    while i < headers.len()
        invariant
            i <= headers@.len(),
            forall|k: int| 0 <= k < i ==> !eq_ignore_case(#[trigger] views(headers@)[k].0, name@),
        decreases headers@.len() - i,
    {
        assert(views(headers@)[i as int] == headers@[i as int]@);
        if bytes_eq_ignore_case(headers[i].name.as_slice(), name) {
            assert(eq_ignore_case(views(headers@)[i as int].0, name@));
            return true;
        }
        i = i + 1;
    }
    false
}

/// The request's headers with the ones the client adds on sending:
/// `content-length` for a body held as bytes and `host` for a target with a
/// host, each only where no header of that name is present. In test mode the
/// host is a fixed name.
pub fn synthesize_headers(request: &Request, test_mode: bool) -> (r: Vec<Header>)
    requires
        request.wf(),
    ensures
        views(r@) == request_headers(request, test_mode),
        valid_headers(views(r@)),
        grouped(views(r@)),
{
    let mut hs: Vec<Header> = Vec::new();
    let mut i: usize = 0;
    while i < request.headers.len()
        invariant
            i <= request.headers@.len(),
            views(hs@) == views(request.headers@).subrange(0, i as int),
        decreases request.headers@.len() - i,
    {
        let ghost prev = hs@;
        let h = request.headers[i].copy();
        assert(h@ == views(request.headers@)[i as int]);
        hs.push(h);
        assert(views(hs@) =~= views(prev).push(h@));
        i = i + 1;
        assert(views(hs@) =~= views(request.headers@).subrange(0, i as int));
    }
    assert(views(request.headers@).subrange(0, i as int) =~= views(request.headers@));
    let ghost base = views(hs@);
    let content_length: Vec<u8> = vec![99u8, 111, 110, 116, 101, 110, 116, 45, 108, 101, 110, 103, 116, 104];
    let host: Vec<u8> = vec![104u8, 111, 115, 116];
    assert(content_length@ =~= content_length_name());
    assert(host@ =~= host_name());
    match &request.body {
        Some(body) => {
            if !find_header(&hs, content_length.as_slice()) {
                let len = crate::text::decimal_bytes(body.len());
                let ghost hv = (content_length@, len@);
                hs.push(Header { name: content_length, value: len });
                assert(views(hs@) =~= base.push(hv));
            }
        },
        None => {},
    }
    let ghost with_length = views(hs@);
    assert(with_length =~= {
        if request.body is Some && !has_header(base, content_length_name()) {
            base.push((content_length_name(), decimal(request.body->0@.len())))
        } else {
            base
        }
    });
    match &request.host {
        Some(h) => {
            if !find_header(&hs, host.as_slice()) {
                let mut value: Vec<u8> = Vec::new();
                if test_mode {
                    value = vec![104u8, 116, 116, 112, 46, 109, 111, 99, 107];
                } else {
                    append_bytes(&mut value, h.as_slice());
                    match request.port {
                        Some(p) => {
                            value.push(58u8);
                            push_decimal(&mut value, p as usize);
                        },
                        None => {},
                    }
                }
                assert(value@ =~= host_value(h@, request.port, test_mode));
                let ghost hv = (host@, value@);
                hs.push(Header { name: host, value });
                assert(views(hs@) =~= with_length.push(hv));
            }
        },
        None => {},
    }
    proof {
        let r = views(hs@);
        assert forall|a: int, b: int|
            0 <= a < b < r.len() && eq_ignore_case(#[trigger] r[a].0, #[trigger] r[b].0)
                implies eq_ignore_case(r[b - 1].0, r[b].0) by {
            if b < base.len() {
                assert(r[a] == base[a] && r[b] == base[b] && r[b - 1] == base[b - 1]);
            } else if b < with_length.len() {
                assert(r[b].0 == content_length_name());
                assert(r[a] == base[a]);
                assert(has_header(base, content_length_name()));
            } else {
                assert(r[b].0 == host_name());
                assert(r[a] == with_length[a]);
                assert(has_header(with_length, host_name()));
            }
        }
        let blen = request.body->0@.len();
        lemma_decimal_digits(blen);
        if request.port is Some {
            lemma_decimal_digits(request.port->0 as nat);
        }
        assert forall|k: int| 0 <= k < r.len() implies valid_value(#[trigger] r[k].1) by {
            if k < base.len() {
                assert(r[k] == base[k]);
                assert(valid_value(views(request.headers@)[k].1));
            } else if r[k].0 == content_length_name() && k < with_length.len() {
                assert(r[k].1 == decimal(blen));
                assert forall|j: int| 0 <= j < r[k].1.len() implies is_value_byte(#[trigger] r[k].1[j]) by {
                    assert(48 <= decimal(blen)[j] <= 57);
                }
            } else {
                assert(k == r.len() - 1);
                assert(r[k].1 == host_value(request.host->0@, request.port, test_mode));
                assert(valid_value(request.host->0@));
                let v = r[k].1;
                let hv = request.host->0@;
                assert forall|j: int| 0 <= j < v.len() implies is_value_byte(#[trigger] v[j]) by {
                    if !test_mode && request.port is Some {
                        let d = decimal(request.port->0 as nat);
                        if j < hv.len() {
                            assert(v[j] == hv[j]);
                        } else if j > hv.len() {
                            assert(v[j] == d[j - hv.len() - 1]);
                            assert(48 <= d[j - hv.len() - 1] <= 57);
                        }
                    } else if !test_mode {
                        assert(v[j] == hv[j]);
                    }
                }
            }
        }
    }
    hs
}

/// The first line of a request block, without its newline.
pub fn request_line_bytes(request: &Request) -> (r: Vec<u8>)
    ensures
        r@ == request_line(request),
{
    let mut out: Vec<u8> = Vec::new();
    append_bytes(&mut out, request.method.as_slice());
    out.push(32u8);
    append_bytes(&mut out, request.path.as_slice());
    match &request.query {
        Some(q) => {
            out.push(63u8);
            append_bytes(&mut out, q.as_slice());
        },
        None => {},
    }
    out.push(32u8);
    let v = version_bytes(HttpVersion::Http11);
    append_bytes(&mut out, v.as_slice());
    assert(out@ =~= request_line(request));
    out
}

/// The first line of a response block, without its newline.
pub fn status_line_bytes(response: &Response) -> (r: Vec<u8>)
    requires
        response.wf(),
    ensures
        r@ == status_line(response),
{
    let mut out = version_bytes(response.version);
    out.push(32u8);
    push_decimal(&mut out, response.status as usize);
    out.push(32u8);
    match canonical_reason(response.status) {
        Some(reason) => append_bytes(&mut out, reason.as_slice()),
        None => {
            let unknown: Vec<u8> = vec![60u8, 117, 110, 107, 110, 111, 119, 110, 32, 115, 116, 97, 116, 117, 115, 32, 99, 111, 100, 101, 62];
            assert(unknown@ =~= unknown_reason());
            append_bytes(&mut out, unknown.as_slice());
        },
    }
    assert(out@ =~= status_line(response));
    out
}

} // verus!
