//! HTTP request/response values and the request builder for the WSMan endpoint.
use vstd::prelude::*;
use vstd::string::*;
use vstd::utf8::*;

use crate::connector::auth::{base64_encoding, base64_encode, str_trim, trimmed};
use crate::connector::connection_pool::{AuthenticatedHttpChannel, ConnectionId};
use crate::connector::transport::Scheme;
use crate::error::PwshCoreError;
use crate::text::{decimal, decimal_string};

verus! {

/// The multipart boundary used for SSPI-sealed bodies.
pub const ENCRYPTION_BOUNDARY: &'static str = "Encrypted Boundary";

/// Address of the WinRM server: an IP address (held in its display form) or a host name.
#[derive(Debug, Clone)]
pub enum ServerAddress {
    Ip(String),
    Domain(String),
}

impl ServerAddress {
    /// The display form of the address.
    pub open spec fn text(&self) -> Seq<char> {
        match self {
            ServerAddress::Ip(ip) => ip@,
            ServerAddress::Domain(d) => d@,
        }
    }

    /// The address a server value names, given `ip_display`: what the value reads as when
    /// it parses as an IP address (the address as it displays), or `None` when it does not.
    /// An IP address comes first; else any value that is not blank is a host name; a blank
    /// value is refused.
    pub fn parse(value: &str, ip_display: Option<String>) -> (r: Result<Self, PwshCoreError>)
        ensures
            ip_display is Some ==> r == Ok::<ServerAddress, PwshCoreError>(ServerAddress::Ip(ip_display->0)),
            ip_display is None && trimmed(value@).len() > 0 ==> (r matches Ok(a) && a is Domain && a.text()
                == value@),
            ip_display is None && trimmed(value@).len() == 0 ==> r == Err::<ServerAddress, PwshCoreError>(
                PwshCoreError::InvalidServerAddress("server address cannot be empty"),
            ),
    {
        match ip_display {
            Some(ip) => Ok(ServerAddress::Ip(ip)),
            None => {
                let t = str_trim(value);
                let n = t.as_bytes().len();
                proof {
                    if t@.len() > 0 {
                        assert(encode_utf8(t@) =~= encode_scalar(t@[0] as u32) + encode_utf8(t@.drop_first()));
                        assert(encode_scalar(t@[0] as u32).len() >= 1);
                    }
                }
                if n > 0 {
                    Ok(ServerAddress::Domain(String::from_str(value)))
                } else {
                    Err(PwshCoreError::InvalidServerAddress("server address cannot be empty"))
                }
            },
        }
    }

    /// The display form of the address, as `Display` prints it.
    pub fn to_text(&self) -> (s: String)
        ensures
            s@ == self.text(),
    {
        match self {
            ServerAddress::Ip(ip) => ip.clone(),
            ServerAddress::Domain(d) => d.clone(),
        }
    }
}

#[derive(Debug, Clone, Copy, PartialEq, Eq, Structural)]
pub enum Method {
    Get,
    Post,
    Put,
    Delete,
}

#[derive(Debug, Clone)]
pub enum HttpBody {
    Xml(String),
    Encrypted(Vec<u8>),
    Text(String),
    Empty,
}

/// `Content-Type` of an XML body.
pub open spec fn xml_content_type() -> Seq<char> {
    "application/soap+xml; charset=utf-8"@
}

/// `Content-Type` of a sealed (multipart/encrypted) body.
pub open spec fn encrypted_content_type() -> Seq<char> {
    "multipart/encrypted;protocol=\"application/HTTP-SPNEGO-session-encrypted\";boundary=\"Encrypted Boundary\""@
}

/// `Content-Type` of a text (or absent) body.
pub open spec fn text_content_type() -> Seq<char> {
    "text/plain; charset=utf-8"@
}

impl HttpBody {
    /// The content bytes of the body, as sent on the wire.
    pub open spec fn bytes(&self) -> Seq<u8> {
        match self {
            HttpBody::Xml(c) => encode_utf8(c@),
            HttpBody::Encrypted(c) => c@,
            HttpBody::Text(c) => encode_utf8(c@),
            HttpBody::Empty => Seq::empty(),
        }
    }

    pub open spec fn spec_content_type(&self) -> Seq<char> {
        match self {
            HttpBody::Xml(_) => xml_content_type(),
            HttpBody::Encrypted(_) => encrypted_content_type(),
            HttpBody::Text(_) => text_content_type(),
            HttpBody::Empty => text_content_type(),
        }
    }

    pub fn is_encrypted(&self) -> (r: bool)
        ensures
            r == (self is Encrypted),
    {
        match self {
            HttpBody::Encrypted(_) => true,
            _ => false,
        }
    }

    pub fn empty() -> (b: HttpBody)
        ensures
            b is Empty,
    {
        HttpBody::Empty
    }

    pub fn content_type(&self) -> (r: &'static str)
        ensures
            r@ == self.spec_content_type(),
    {
        proof {
            reveal_strlit("application/soap+xml; charset=utf-8");
            reveal_strlit(
                "multipart/encrypted;protocol=\"application/HTTP-SPNEGO-session-encrypted\";boundary=\"Encrypted Boundary\"",
            );
            reveal_strlit("text/plain; charset=utf-8");
        }
        match self {
            HttpBody::Xml(_) => "application/soap+xml; charset=utf-8",
            HttpBody::Encrypted(_) => {
                "multipart/encrypted;protocol=\"application/HTTP-SPNEGO-session-encrypted\";boundary=\"Encrypted Boundary\""
            },
            HttpBody::Text(_) => "text/plain; charset=utf-8",
            HttpBody::Empty => "text/plain; charset=utf-8",
        }
    }

    pub fn is_empty(&self) -> (r: bool)
        ensures
            r == (self.bytes().len() == 0),
    {
        match self {
            HttpBody::Xml(content) => {
                proof {
                    encode_utf8_empty_iff(content@);
                }
                content.as_str().is_empty()
            },
            HttpBody::Encrypted(content) => content.len() == 0,
            HttpBody::Text(content) => {
                proof {
                    encode_utf8_empty_iff(content@);
                }
                content.as_str().is_empty()
            },
            HttpBody::Empty => true,
        }
    }

    /// Returns the length of the body content in bytes.
    pub fn len(&self) -> (r: usize)
        ensures
            r == self.bytes().len(),
    {
        match self {
            HttpBody::Xml(content) => content.as_str().as_bytes().len(),
            HttpBody::Encrypted(content) => content.len(),
            HttpBody::Text(content) => content.as_str().as_bytes().len(),
            HttpBody::Empty => 0,
        }
    }

    /// Returns the body content as a string: the XML or text, the empty string for no
    /// body, and an error for a sealed (binary) body.
    /// The text of a body that is not sealed.
    pub open spec fn text(&self) -> Option<Seq<char>> {
        match self {
            HttpBody::Xml(c) => Some(c@),
            HttpBody::Text(c) => Some(c@),
            HttpBody::Empty => Some(Seq::empty()),
            HttpBody::Encrypted(_) => None,
        }
    }

    pub fn as_str(&self) -> (r: Result<&str, PwshCoreError>)
        ensures
            match self.text() {
                Some(t) => r matches Ok(s) && s@ == t,
                None => r matches Err(PwshCoreError::InternalError(_)),
            },
    {
        match self {
            HttpBody::Xml(content) => Ok(content.as_str()),
            HttpBody::Encrypted(_) => Err(
                PwshCoreError::InternalError(
                    String::from_str("Cannot convert binary encrypted content to &str"),
                ),
            ),
            HttpBody::Text(content) => Ok(content.as_str()),
            HttpBody::Empty => {
                proof {
                    reveal_strlit("");
                }
                Ok("")
            },
        }
    }
}

/// An empty character sequence encodes to no bytes, and only it does.
/// A body that is not sealed reads as its content: the text `as_str` gives encodes to
/// the body's bytes, so its byte length is the body's `len`, and the body is empty
/// exactly when that text is; only a sealed body has no text.
pub proof fn lemma_text_is_content(b: HttpBody)
    ensures
        b.text() is None <==> b is Encrypted,
        b.text() matches Some(t) ==> encode_utf8(t) == b.bytes() && (b.bytes().len() == 0 <==> t.len() == 0),
{
    if let Some(t) = b.text() {
        encode_utf8_empty_iff(t);
        if b is Empty {
            assert(encode_utf8(t) =~= Seq::<u8>::empty());
        }
    }
}

pub proof fn encode_utf8_empty_iff(s: Seq<char>)
    ensures
        (encode_utf8(s).len() == 0) <==> (s.len() == 0),
    decreases s.len(),
{
    if s.len() > 0 {
        lemma_encode_utf8_nonempty(s);
    }
}

proof fn lemma_encode_utf8_nonempty(s: Seq<char>)
    requires
        s.len() > 0,
    ensures
        encode_utf8(s).len() > 0,
{
    reveal_with_fuel(encode_utf8, 2);
}

/// The view of a header list: pairs of name and value.
pub open spec fn headers_view(h: Seq<(String, String)>) -> Seq<(Seq<char>, Seq<char>)> {
    h.map_values(|p: (String, String)| (p.0@, p.1@))
}

#[derive(Debug)]
pub struct HttpRequestAction {
    pub connection_id: ConnectionId,
    pub request: HttpRequest,
}

#[derive(Debug, Clone)]
pub struct HttpRequest {
    pub method: Method,
    pub url: String,
    pub headers: Vec<(String, String)>,
    pub body: Option<HttpBody>,
    pub cookie: Option<String>,
}

impl HttpRequest {
    /// Appends the given headers after the existing ones.
    pub fn with_headers(self, headers: Vec<(String, String)>) -> (r: Self)
        ensures
            r.method == self.method,
            r.url == self.url,
            r.headers@ == self.headers@ + headers@,
            r.body == self.body,
            r.cookie == self.cookie,
    {
        let mut me = self;
        let mut extra = headers;
        me.headers.append(&mut extra);
        me
    }
}

/// A body kind with its MIME type.
pub trait Body {
    /// The MIME type of the body kind.
    spec fn spec_body_type() -> Seq<char>;

    /// The text of the body.
    spec fn spec_inner(&self) -> Seq<char>;

    fn body_type() -> (r: &'static str)
        ensures
            r@ == Self::spec_body_type(),
    ;

    fn inner(&self) -> (r: &str)
        ensures
            r@ == self.spec_inner(),
    ;
}

#[derive(Debug)]
pub struct Xml {
    inner: String,
}

impl Xml {
    pub closed spec fn content(&self) -> Seq<char> {
        self.inner@
    }

    pub fn new(content: String) -> (r: Self)
        ensures
            r.content() == content@,
    {
        Self { inner: content }
    }
}

impl Body for Xml {
    open spec fn spec_body_type() -> Seq<char> {
        "application/soap+xml; charset=utf-8"@
    }

    open spec fn spec_inner(&self) -> Seq<char> {
        self.content()
    }

    fn body_type() -> &'static str {
        "application/soap+xml; charset=utf-8"
    }

    fn inner(&self) -> &str {
        self.inner.as_str()
    }
}

#[derive(Debug)]
pub struct Encrypted {
    inner: String,
}

impl Encrypted {
    pub closed spec fn content(&self) -> Seq<char> {
        self.inner@
    }

    pub fn new(content: String) -> (r: Self)
        ensures
            r.content() == content@,
    {
        Self { inner: content }
    }
}

impl Body for Encrypted {
    open spec fn spec_body_type() -> Seq<char> {
        "multipart/encrypted;protocol=\"application/HTTP-SPNEGO-session-encrypted\";boundary=\"Encrypted Boundary\""@
    }

    open spec fn spec_inner(&self) -> Seq<char> {
        self.content()
    }

    fn body_type() -> &'static str {
        "multipart/encrypted;protocol=\"application/HTTP-SPNEGO-session-encrypted\";boundary=\"Encrypted Boundary\""
    }

    fn inner(&self) -> &str {
        self.inner.as_str()
    }
}

/// An HTTP response as the transport received it.
#[derive(Debug, Clone)]
pub struct HttpResponse {
    pub status_code: u16,
    pub headers: Vec<(String, String)>,
    pub body: HttpBody,
    /// DER of the server's TLS certificate, when the response came over TLS.
    pub peer_cert_der: Option<Vec<u8>>,
}

/// A response together with the connection it came from, and, for the last leg of an
/// SSPI handshake, the sealing channel that the handshake established.
pub struct HttpResponseTargeted {
    pub response: HttpResponse,
    pub connection_id: ConnectionId,
    pub authenticated: Option<AuthenticatedHttpChannel>,
}

impl HttpResponseTargeted {
    pub fn new(
        response: HttpResponse,
        connection_id: ConnectionId,
        authentication_cert: Option<AuthenticatedHttpChannel>,
    ) -> (r: Self)
        ensures
            r.response == response,
            r.connection_id == connection_id,
            r.authenticated == authentication_cert,
    {
        Self { response, connection_id, authenticated: authentication_cert }
    }

    /// Gets a reference to the HTTP response data.
    pub fn response(&self) -> (r: &HttpResponse)
        ensures
            *r == self.response,
    {
        &self.response
    }

    /// Gets the connection ID this response came from.
    pub fn connection_id(&self) -> (r: ConnectionId)
        ensures
            r == self.connection_id,
    {
        self.connection_id
    }

    /// Destructures into the contained response and connection ID.
    pub fn into_parts(self) -> (r: (HttpResponse, ConnectionId))
        ensures
            r.0 == self.response,
            r.1 == self.connection_id,
    {
        (self.response, self.connection_id)
    }
}

/// Builds requests to the WSMan endpoint of one server.
#[derive(Debug)]
pub struct HttpBuilder {
    pub server: ServerAddress,
    pub port: u16,
    pub scheme: Scheme,
    pub cookie: Option<String>,
    pub headers: Vec<(String, String)>,
}

/// `http` or `https`.
pub open spec fn scheme_text(scheme: Scheme) -> Seq<char> {
    match scheme {
        Scheme::Http => "http"@,
        Scheme::Https => "https"@,
    }
}

/// The endpoint URL: `{scheme}://{server}:{port}/wsman?PSVersion=7.4.11`.
pub open spec fn endpoint_url(scheme: Scheme, server: Seq<char>, port: u16) -> Seq<char> {
    scheme_text(scheme) + "://"@ + server + ":"@ + decimal(port as nat) + "/wsman?PSVersion=7.4.11"@
}

/// The `Host` header value: `{server}:{port}`.
pub open spec fn host_header(server: Seq<char>, port: u16) -> Seq<char> {
    server + ":"@ + decimal(port as nat)
}

/// The headers of a request: `Host`, then `Content-Type` and `Content-Length` of the
/// body, then `Cookie` when one is set, then the builder's queued headers.
pub open spec fn request_headers(
    server: Seq<char>,
    port: u16,
    body: Option<HttpBody>,
    cookie: Option<Seq<char>>,
    queued: Seq<(Seq<char>, Seq<char>)>,
) -> Seq<(Seq<char>, Seq<char>)> {
    let host = seq![("Host"@, host_header(server, port))];
    let with_body = match body {
        Some(b) => host + seq![
            ("Content-Type"@, b.spec_content_type()),
            ("Content-Length"@, decimal(b.bytes().len() as usize as nat)),
        ],
        None => host,
    };
    let with_cookie = match cookie {
        Some(c) => with_body.push(("Cookie"@, c)),
        None => with_body,
    };
    with_cookie + queued
}

impl HttpBuilder {
    pub fn new(server: ServerAddress, port: u16, scheme: Scheme) -> (r: Self)
        ensures
            r.server == server,
            r.port == port,
            r.scheme == scheme,
            r.cookie is None,
            r.headers@.len() == 0,
    {
        Self { server, port, scheme, headers: Vec::new(), cookie: None }
    }

    pub fn with_cookie(&mut self, cookie: String)
        ensures
            final(self).server == old(self).server,
            final(self).port == old(self).port,
            final(self).scheme == old(self).scheme,
            final(self).headers == old(self).headers,
            final(self).cookie == Some(cookie),
    {
        self.cookie = Some(cookie);
    }

    /// Queues an `Authorization` header for the next request.
    pub fn with_auth_header(&mut self, header: String)
        ensures
            final(self).server == old(self).server,
            final(self).port == old(self).port,
            final(self).scheme == old(self).scheme,
            final(self).cookie == old(self).cookie,
            headers_view(final(self).headers@) == headers_view(old(self).headers@).push(("Authorization"@, header@)),
    {
        let name = String::from_str("Authorization");
        proof {
            reveal_strlit("Authorization");
        }
        let ghost old_headers = self.headers@;
        self.headers.push((name, header));
        proof {
            assert(headers_view(self.headers@) =~= headers_view(old_headers).push(("Authorization"@, header@)));
        }
    }

    /// Queues `Authorization: Basic <base64(username:password)>` for the next request.
    pub fn with_basic(&mut self, username: &str, password: &str)
        ensures
            final(self).server == old(self).server,
            final(self).port == old(self).port,
            final(self).scheme == old(self).scheme,
            final(self).cookie == old(self).cookie,
            headers_view(final(self).headers@) == headers_view(old(self).headers@).push(
                ("Authorization"@, crate::connector::auth::basic_auth_header(username@, password@)),
            ),
    {
        let value = crate::connector::auth::basic_auth_header_value(username, password);
        self.with_auth_header(value);
    }

    fn build_url(&self) -> (r: String)
        ensures
            r@ == endpoint_url(self.scheme, self.server.text(), self.port),
    {
        proof {
            reveal_strlit("http");
            reveal_strlit("https");
            reveal_strlit("://");
            reveal_strlit(":");
            reveal_strlit("/wsman?PSVersion=7.4.11");
        }
        let scheme = match self.scheme {
            Scheme::Http => String::from_str("http"),
            Scheme::Https => String::from_str("https"),
        };
        let server = self.server.to_text();
        let port = decimal_string(self.port as u64);
        let url = scheme.concat("://").concat(server.as_str()).concat(":").concat(port.as_str()).concat(
            "/wsman?PSVersion=7.4.11",
        );
        url
    }

    fn build_host_header(&self) -> (r: String)
        ensures
            r@ == host_header(self.server.text(), self.port),
    {
        proof {
            reveal_strlit(":");
        }
        let server = self.server.to_text();
        let port = decimal_string(self.port as u64);
        server.concat(":").concat(port.as_str())
    }

    fn build_headers(&mut self, body: Option<&HttpBody>) -> (r: Vec<(String, String)>)
        ensures
            headers_view(r@) == request_headers(
                old(self).server.text(),
                old(self).port,
                match body {
                    Some(b) => Some(*b),
                    None => None,
                },
                match old(self).cookie {
                    Some(c) => Some(c@),
                    None => None,
                },
                headers_view(old(self).headers@),
            ),
            final(self).server == old(self).server,
            final(self).port == old(self).port,
            final(self).scheme == old(self).scheme,
            final(self).cookie == old(self).cookie,
            final(self).headers@.len() == 0,
    {
        proof {
            reveal_strlit("Host");
            reveal_strlit("Content-Type");
            reveal_strlit("Content-Length");
            reveal_strlit("Cookie");
        }
        let mut headers: Vec<(String, String)> = Vec::new();
        headers.push((String::from_str("Host"), self.build_host_header()));
        if let Some(body_content) = body {
            let ct = String::from_str(body_content.content_type());
            headers.push((String::from_str("Content-Type"), ct));
            let len = body_content.len();
            headers.push((String::from_str("Content-Length"), decimal_string(len as u64)));
        }
        if let Some(cookie) = &self.cookie {
            headers.push((String::from_str("Cookie"), cookie.clone()));
        }
        let ghost before = headers@;
        let ghost queued = self.headers@;
        headers.append(&mut self.headers);
        proof {
            assert(headers_view(headers@) =~= headers_view(before) + headers_view(queued));
        }
        headers
    }

    /// Builds a `POST` of `body` to the endpoint; the queued headers go with it and are
    /// cleared from the builder.
    pub fn post(&mut self, body: HttpBody) -> (r: HttpRequest)
        ensures
            r.method == Method::Post,
            r.url@ == endpoint_url(old(self).scheme, old(self).server.text(), old(self).port),
            headers_view(r.headers@) == request_headers(
                old(self).server.text(),
                old(self).port,
                Some(body),
                match old(self).cookie {
                    Some(c) => Some(c@),
                    None => None,
                },
                headers_view(old(self).headers@),
            ),
            r.body == Some(body),
            r.cookie == old(self).cookie,
            final(self).server == old(self).server,
            final(self).port == old(self).port,
            final(self).scheme == old(self).scheme,
            final(self).cookie == old(self).cookie,
            final(self).headers@.len() == 0,
    {
        let url = self.build_url();
        let headers = self.build_headers(Some(&body));
        HttpRequest { method: Method::Post, url, headers, body: Some(body), cookie: self.cookie.clone() }
    }
}

} // verus!
