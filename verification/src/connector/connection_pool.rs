//! Pool of HTTP connections, each authenticated once and then reused.
//!
//! A connection is `PreAuth` while its SSPI handshake runs, `Pending` while a request is
//! in flight on it, `Idle` when it can carry the next request, and `Closed` once it can
//! no longer be used.
use vstd::prelude::*;
use vstd::string::*;
use vstd::utf8::*;

use std::collections::HashMap;

use sha2::Digest;

use crate::connector::auth::{basic_auth_header, basic_auth_header_value, negotiate_header, ActionReqired, SspiStatus, Token};
use crate::connector::config::{AuthenticatorConfig, SspiAuthConfig};
use crate::connector::encryption::{ascii, decrypt_spec, le32, sealed_into, AuthContext, EncryptionProvider};
use crate::connector::http::{
    headers_view, request_headers, HttpBody, HttpBuilder, HttpRequest, HttpRequestAction,
    HttpResponse, HttpResponseTargeted, ServerAddress,
};
use crate::connector::sspi_context::SspiContext;
use crate::connector::transport::Scheme;
use crate::error::PwshCoreError;
use crate::text::eq_ignore_ascii_case;

verus! {

broadcast use vstd::std_specs::hash::group_hash_axioms;

// ============================== ConnectionId ===============================

/// Identifies one HTTP connection of the pool.
#[derive(Debug, PartialEq, Eq, Hash, Clone, Copy)]
pub struct ConnectionId {
    id: u32,
}

impl ConnectionId {
    pub closed spec fn spec_id(self) -> u32 {
        self.id
    }

    /// Two connection ids are the same exactly when their numbers are.
    pub proof fn lemma_id_injective(a: ConnectionId, b: ConnectionId)
        ensures
            a.spec_id() == b.spec_id() <==> a == b,
    {
    }

    fn new(id: u32) -> (r: Self)
        ensures
            r.spec_id() == id,
    {
        Self { id }
    }

    pub fn inner(&self) -> (r: u32)
        ensures
            r == self.spec_id(),
    {
        self.id
    }

    /// Builds an id directly (for tests and mock transports).
    pub fn test_new(id: u32) -> (r: Self)
        ensures
            r.spec_id() == id,
    {
        Self { id }
    }
}

// ============================= Auth sequences ==============================

/// What a pool needs to start authenticating a connection.
#[derive(Debug, Clone)]
pub struct AuthSequenceConfig {
    pub authenticator_config: AuthenticatorConfig,
    /// Whether SSPI sealing is used after authentication (plain HTTP).
    pub require_encryption: bool,
}

impl AuthSequenceConfig {
    /// An identical copy.
    pub fn duplicate(&self) -> (r: Self)
        ensures
            r == *self,
    {
        AuthSequenceConfig {
            authenticator_config: self.authenticator_config.duplicate(),
            require_encryption: self.require_encryption,
        }
    }

    pub fn new(config: AuthenticatorConfig, require_encryption: bool) -> (r: Self)
        ensures
            r.authenticator_config == config,
            r.require_encryption == require_encryption,
    {
        AuthSequenceConfig { authenticator_config: config, require_encryption }
    }
}

/// An SSPI handshake to run on one fresh connection: the SSPI context made from `config`,
/// whose `InitializeSecurityContext` rounds the caller runs, and what the library decides
/// around them.
#[derive(Debug)]
pub struct SspiAuthSequence {
    pub config: SspiAuthConfig,
    pub context: SspiContext,
    pub http_builder: HttpBuilder,
    pub require_encryption: bool,
    /// `SEC_CHANNEL_BINDINGS` bytes to hand to the SSPI package (EPA), when known.
    pub channel_binding: Option<Vec<u8>>,
}

/// The body of a handshake leg.
pub open spec fn leg_body(body: Option<String>) -> Option<HttpBody> {
    match body {
        Some(x) => Some(HttpBody::Xml(x)),
        None => Some(HttpBody::Empty),
    }
}

impl SspiAuthSequence {
    pub fn require_encryption(&self) -> (r: bool)
        ensures
            r == self.require_encryption,
    {
        self.require_encryption
    }

    /// The request of the next round: a `POST` carrying the client token, with `body` as
    /// XML when there is one (the operation rides the legs over TLS) and empty otherwise.
    pub fn continue_request(&mut self, token: Token, body: Option<String>) -> (r: HttpRequest)
        ensures
            r.body == leg_body(body),
            headers_view(r.headers@) == request_headers(
                old(self).http_builder.server.text(),
                old(self).http_builder.port,
                leg_body(body),
                opt_view(old(self).http_builder.cookie),
                headers_view(old(self).http_builder.headers@).push(("Authorization"@, token.0@)),
            ),
            final(self).config == old(self).config,
            final(self).context == old(self).context,
            final(self).require_encryption == old(self).require_encryption,
            final(self).http_builder.headers@.len() == 0,
    {
        let Token(value) = token;
        self.http_builder.with_auth_header(value);
        let b = match body {
            Some(x) => HttpBody::Xml(x),
            None => HttpBody::Empty,
        };
        self.http_builder.post(b)
    }

    /// Starts the handshake for `xml` on connection `conn_id`.
    pub fn start(self, xml: &str, conn_id: ConnectionId) -> (r: TrySend)
        ensures
            r matches TrySend::AuthNeeded { auth_sequence } && auth_sequence.conn_id == conn_id
                && auth_sequence.queued_xml@ == xml@ && auth_sequence.auth_sequence == self,
    {
        TrySend::AuthNeeded {
            auth_sequence: PostConAuthSequence {
                auth_sequence: self,
                queued_xml: String::from_str(xml),
                conn_id,
            },
        }
    }
}

/// Basic authentication: no rounds, the header rides the request itself.
#[derive(Debug)]
pub struct BasicAuthSequence {
    pub username: String,
    pub password: String,
    pub http_builder: HttpBuilder,
}

impl BasicAuthSequence {
    pub fn get_auth_header(&self) -> (r: String)
        ensures
            r@ == basic_auth_header(self.username@, self.password@),
    {
        basic_auth_header_value(self.username.as_str(), self.password.as_str())
    }

    /// Sends `xml` with the Basic `Authorization` header on `connection_id`.
    pub fn start(&mut self, xml: &str, connection_id: ConnectionId) -> (r: TrySend)
        ensures
            r matches TrySend::JustSend { request, conn_id } && conn_id == connection_id
                && (request.body matches Some(HttpBody::Xml(x)) && x@ == xml@)
                && headers_view(request.headers@) == request_headers(
                    old(self).http_builder.server.text(),
                    old(self).http_builder.port,
                    request.body,
                    opt_view(old(self).http_builder.cookie),
                    headers_view(old(self).http_builder.headers@).push(
                        ("Authorization"@, basic_auth_header(old(self).username@, old(self).password@)),
                    ),
                ),
            r matches TrySend::JustSend { request, .. } && request.method == crate::connector::http::Method::Post
                && request.url@ == crate::connector::http::endpoint_url(
                    old(self).http_builder.scheme,
                    old(self).http_builder.server.text(),
                    old(self).http_builder.port,
                ) && request.cookie == old(self).http_builder.cookie,
            final(self).username == old(self).username,
            final(self).password == old(self).password,
    {
        let header = self.get_auth_header();
        self.http_builder.with_auth_header(header);
        let request = self.http_builder.post(HttpBody::Xml(String::from_str(xml)));
        TrySend::JustSend { request, conn_id: connection_id }
    }
}

/// Drives auth for a newly created connection.
#[derive(Debug)]
pub enum AuthSequence {
    Sspi(SspiAuthSequence),
    Basic(BasicAuthSequence),
}

/// Whether an authentication could not start because its SSPI context could not be made.
pub open spec fn sspi_start_failed(cfg: AuthSequenceConfig, e: PwshCoreError) -> bool {
    cfg.authenticator_config is Sspi && (e is SspiError || e is InternalError)
}

impl AuthSequence {
    /// The handshake that the configuration asks for: Basic, or SSPI with a fresh context
    /// (which may fail to be made).
    pub fn new(cfg: &AuthSequenceConfig, http: HttpBuilder, channel_binding: Option<Vec<u8>>) -> (r: Result<
        Self,
        PwshCoreError,
    >)
        ensures
            match cfg.authenticator_config {
                AuthenticatorConfig::Basic { username, password } => r matches Ok(AuthSequence::Basic(b))
                    && b.username@ == username@ && b.password@ == password@ && b.http_builder == http,
                AuthenticatorConfig::Sspi(c) => match r {
                    Ok(AuthSequence::Sspi(s)) => s.config == c && s.require_encryption == cfg.require_encryption
                        && s.http_builder == http && s.channel_binding == channel_binding && s.context.out@.len() == 0
                        && s.context.inbuf is None,
                    Ok(_) => false,
                    Err(e) => sspi_start_failed(*cfg, e),
                },
            },
    {
        match &cfg.authenticator_config {
            AuthenticatorConfig::Sspi(sspi) => {
                let context = SspiContext::new(sspi.duplicate())?;
                Ok(
                    AuthSequence::Sspi(
                        SspiAuthSequence {
                            config: sspi.duplicate(),
                            context,
                            http_builder: http,
                            require_encryption: cfg.require_encryption,
                            channel_binding,
                        },
                    ),
                )
            },
            AuthenticatorConfig::Basic { username, password } => Ok(
                AuthSequence::Basic(
                    BasicAuthSequence {
                        username: username.clone(),
                        password: password.clone(),
                        http_builder: http,
                    },
                ),
            ),
        }
    }
}

/// The per-connection handshake state handed to the caller.
#[derive(Debug)]
pub struct PostConAuthSequence {
    pub auth_sequence: SspiAuthSequence,
    pub queued_xml: String,
    pub conn_id: ConnectionId,
}

/// How the handshake of a connection ends.
pub enum SecContextInited {
    /// Another round is needed on the same connection.
    Continue { request: HttpRequestAction, sequence: PostConAuthSequence },
    /// Send the queued operation as the final request.
    SendRequest { request: HttpRequestAction, authenticated_http_channel_cert: AuthenticatedHttpChannel },
    /// HTTPS without a final token: the operation already rode the handshake legs and its
    /// response is the last response of the handshake.
    AlreadyComplete { authenticated_http_channel_cert: AuthenticatedHttpChannel },
}

/// The continuation of a handshake after a round that produced `token`: the next leg
/// goes on the same connection with the token and, over TLS, the queued operation.
pub open spec fn continued(seq: PostConAuthSequence, token: Seq<char>, r: SecContextInited) -> bool {
    let body = if seq.auth_sequence.require_encryption { None } else { Some(seq.queued_xml) };
    &&& r matches SecContextInited::Continue { request, sequence }
    &&& request.connection_id == seq.conn_id
    &&& request.request.body == leg_body(body)
    &&& headers_view(request.request.headers@) == request_headers(
        seq.auth_sequence.http_builder.server.text(),
        seq.auth_sequence.http_builder.port,
        leg_body(body),
        opt_view(seq.auth_sequence.http_builder.cookie),
        headers_view(seq.auth_sequence.http_builder.headers@).push(("Authorization"@, token)),
    )
    &&& sequence.conn_id == seq.conn_id
    &&& sequence.queued_xml == seq.queued_xml
    &&& sequence.auth_sequence.config == seq.auth_sequence.config
    &&& sequence.auth_sequence.require_encryption == seq.auth_sequence.require_encryption
}

/// The end of a handshake whose last round produced `token`: over TLS without a final
/// token nothing more is sent; otherwise the queued operation is sent (sealed over plain
/// HTTP), with the token as `Authorization` header when there is one.
pub open spec fn completed(
    seq: PostConAuthSequence,
    token: Option<Seq<char>>,
    r: Result<SecContextInited, PwshCoreError>,
) -> bool {
    let sealing = seq.auth_sequence.require_encryption;
    let b = seq.auth_sequence.http_builder;
    if !sealing && token is None {
        r matches Ok(SecContextInited::AlreadyComplete { authenticated_http_channel_cert: ch })
            && ch.conn_id == seq.conn_id && !ch.encryption_provider.requires_encryption()
    } else {
        match r {
            Ok(SecContextInited::SendRequest { request, authenticated_http_channel_cert: ch }) => {
                &&& request.connection_id == seq.conn_id
                &&& ch.conn_id == seq.conn_id
                &&& ch.encryption_provider.requires_encryption() == sealing
                &&& !sealing ==> (request.request.body matches Some(HttpBody::Xml(x)) && x@ == seq.queued_xml@)
                &&& headers_view(request.request.headers@) == request_headers(
                    b.server.text(),
                    b.port,
                    request.request.body,
                    opt_view(b.cookie),
                    match token {
                        Some(t) => headers_view(b.headers@).push(("Authorization"@, t)),
                        None => headers_view(b.headers@),
                    },
                )
            },
            Ok(_) => false,
            Err(e) => sealing && (e is SspiError || e is Auth),
        }
    }
}

impl PostConAuthSequence {
    /// The body that rides each handshake leg: over HTTPS (no sealing) the queued SOAP,
    /// over sealed HTTP nothing.
    pub fn operation_body(&self) -> (r: Option<String>)
        ensures
            self.auth_sequence.require_encryption ==> r is None,
            !self.auth_sequence.require_encryption ==> (r matches Some(x) && x == self.queued_xml),
    {
        if self.auth_sequence.require_encryption {
            None
        } else {
            Some(self.queued_xml.clone())
        }
    }

    /// Readies the SSPI context for the next round: no produced token, and the server's
    /// Negotiate token from `response` when there is one (a response without a valid
    /// token is refused).
    pub fn prepare_round(&mut self, response: Option<&HttpResponse>) -> (r: Result<(), PwshCoreError>)
        ensures
            final(self).conn_id == old(self).conn_id,
            final(self).queued_xml == old(self).queued_xml,
            final(self).auth_sequence.config == old(self).auth_sequence.config,
            final(self).auth_sequence.require_encryption == old(self).auth_sequence.require_encryption,
            final(self).auth_sequence.http_builder == old(self).auth_sequence.http_builder,
            final(self).auth_sequence.context.package == old(self).auth_sequence.context.package,
            final(self).auth_sequence.context.out@.len() == 0,
            match response {
                None => r is Ok && final(self).auth_sequence.context.inbuf is None,
                Some(resp) => match crate::connector::auth::first_negotiate_token(headers_view(resp.headers@)) {
                    Some(t) => r is Ok && (final(self).auth_sequence.context.inbuf matches Some(b) && b@ == t),
                    None => r == Err::<(), PwshCoreError>(PwshCoreError::Auth("no Negotiate token"))
                        && final(self).auth_sequence.context.inbuf is None,
                },
            },
    {
        self.auth_sequence.context.clear_for_next_round();
        self.auth_sequence.context.take_input(response)
    }

    /// Another round of the handshake on the same connection.
    fn next_round(self, token: Token) -> (r: SecContextInited)
        ensures
            continued(self, token.0@, r),
    {
        let body = self.operation_body();
        let PostConAuthSequence { mut auth_sequence, queued_xml, conn_id } = self;
        let req = auth_sequence.continue_request(token, body);
        SecContextInited::Continue {
            request: HttpRequestAction { connection_id: conn_id, request: req },
            sequence: PostConAuthSequence { auth_sequence, queued_xml, conn_id },
        }
    }

    /// Finishes the handshake with its established SSPI context and the final client token.
    fn complete(self, token: Option<Token>) -> (r: Result<SecContextInited, PwshCoreError>)
        ensures
            completed(self, match token { Some(t) => Some(t.0@), None => None }, r),
    {
        let PostConAuthSequence { auth_sequence, queued_xml, conn_id } = self;
        let sealing = auth_sequence.require_encryption;
        let SspiAuthSequence { config: _, context, http_builder, require_encryption: _, channel_binding: _ } = auth_sequence;
        let mut encryption_provider = EncryptionProvider::new(context.into_auth_context(), sealing);
        let mut http_builder = http_builder;
        if !sealing && token.is_none() {
            return Ok(
                SecContextInited::AlreadyComplete {
                    authenticated_http_channel_cert: AuthenticatedHttpChannel {
                        encryption_provider,
                        conn_id,
                    },
                },
            );
        }
        let body = encryption_provider.encrypt(queued_xml.as_str())?;
        if let Some(t) = token {
            let Token(value) = t;
            http_builder.with_auth_header(value);
        }
        let request = HttpRequestAction { connection_id: conn_id, request: http_builder.post(body) };
        Ok(
            SecContextInited::SendRequest {
                request,
                authenticated_http_channel_cert: AuthenticatedHttpChannel {
                    encryption_provider,
                    conn_id,
                },
            },
        )
    }

    /// After an `InitializeSecurityContext` round on the context ended with `status`: a
    /// round asking for more sends its token on the next leg; a complete context finishes
    /// the handshake; any other status, or a round asking for more without a token, is an
    /// authentication error.
    pub fn process_sec_ctx_init(self, status: SspiStatus) -> (r: Result<SecContextInited, PwshCoreError>)
        ensures
            match status {
                SspiStatus::ContinueNeeded => match negotiate_header(self.auth_sequence.context.out@) {
                    Some(h) => r matches Ok(s) && continued(self, h, s),
                    None => r matches Err(PwshCoreError::Auth(_)),
                },
                SspiStatus::Complete => completed(self, negotiate_header(self.auth_sequence.context.out@), r),
                SspiStatus::Other => r matches Err(PwshCoreError::Auth(_)),
            },
    {
        let mut seq = self;
        let action = seq.auth_sequence.context.finish_round(status)?;
        match action {
            ActionReqired::TryInitSecContextAgain { token } => Ok(seq.next_round(token)),
            ActionReqired::Done { token } => seq.complete(token),
        }
    }
}

/// The view of an optional string.
pub open spec fn opt_view(o: Option<String>) -> Option<Seq<char>> {
    match o {
        Some(s) => Some(s@),
        None => None,
    }
}

/// A connection whose SSPI handshake has completed, with its sealing provider.
pub struct AuthenticatedHttpChannel {
    pub encryption_provider: EncryptionProvider,
    pub conn_id: ConnectionId,
}

impl AuthenticatedHttpChannel {
    /// Gets the connection ID for this authenticated channel.
    pub fn connection_id(&self) -> (r: ConnectionId)
        ensures
            r == self.conn_id,
    {
        self.conn_id
    }

    /// Extracts the encryption provider and connection ID, consuming the channel.
    pub fn into_parts(self) -> (r: (EncryptionProvider, ConnectionId))
        ensures
            r.0 == self.encryption_provider,
            r.1 == self.conn_id,
    {
        (self.encryption_provider, self.conn_id)
    }
}

// ============================= ConnectionState =============================

/// How requests on an authenticated connection are protected.
pub enum EncryptionOptions {
    /// SSPI: bodies are sealed (plain HTTP) or sent as is (HTTPS).
    Sspi { encryption_provider: EncryptionProvider },
    /// Basic: every request carries this `Authorization` header.
    IncludeHeader { header: String },
}

pub enum ConnectionState {
    /// SSPI handshake running; keeps the queued SOAP so a TLS channel-binding challenge
    /// can restart authentication on a fresh connection.
    PreAuth { queued_xml: String },
    Idle { enc: EncryptionOptions },
    Pending { enc: EncryptionOptions, queued_xml: String },
    Closed,
}

pub enum ConnectionPoolAccept {
    /// Plaintext SOAP envelope.
    Body(String),
    /// The response could not be accepted as is; the caller must send these.
    SendBack(Vec<TrySend>),
}

// =============================== TrySend API ===============================

pub enum TrySend {
    /// An idle connection carries the request; send it on `conn_id`.
    JustSend { request: HttpRequest, conn_id: ConnectionId },
    /// A fresh connection must authenticate first; drive the handshake.
    AuthNeeded { auth_sequence: PostConAuthSequence },
}

impl TrySend {
    pub open spec fn conn(&self) -> ConnectionId {
        match self {
            TrySend::JustSend { conn_id, .. } => *conn_id,
            TrySend::AuthNeeded { auth_sequence } => auth_sequence.conn_id,
        }
    }

    pub fn get_connection_id(&self) -> (r: ConnectionId)
        ensures
            r == self.conn(),
    {
        match self {
            TrySend::JustSend { conn_id, .. } => *conn_id,
            TrySend::AuthNeeded { auth_sequence } => auth_sequence.conn_id,
        }
    }
}

/// Unwraps a `TrySend` that is known to be a `JustSend`.
pub trait TrySendExt: Sized {
    spec fn is_just_send(&self) -> bool;

    fn expect_just_send(self) -> (r: JustSendOut)
        requires
            self.is_just_send(),
    ;
}

#[derive(Debug)]
pub struct JustSendOut {
    pub request: HttpRequest,
    pub conn_id: ConnectionId,
}

impl TrySendExt for TrySend {
    open spec fn is_just_send(&self) -> bool {
        self is JustSend
    }

    fn expect_just_send(self) -> (r: JustSendOut)
        ensures
            match self {
                TrySend::JustSend { request, conn_id } => r.request == request && r.conn_id == conn_id,
                TrySend::AuthNeeded { .. } => false,
            },
    {
        match self {
            TrySend::JustSend { request, conn_id } => JustSendOut { request, conn_id },
            TrySend::AuthNeeded { auth_sequence } => {
                proof {
                    assert(false);
                }
                JustSendOut {
                    request: HttpRequest {
                        method: crate::connector::http::Method::Post,
                        url: String::new(),
                        headers: Vec::new(),
                        body: None,
                        cookie: None,
                    },
                    conn_id: auth_sequence.conn_id,
                }
            },
        }
    }
}

// ============================== ConnectionPool =============================

#[derive(Debug, Clone)]
pub struct ConnectionPoolConfig {
    pub server: ServerAddress,
    pub port: u16,
    pub scheme: Scheme,
}

impl ConnectionPoolConfig {
    /// An identical copy.
    pub fn duplicate(&self) -> (r: Self)
        ensures
            r == *self,
    {
        let server = match &self.server {
            ServerAddress::Ip(s) => ServerAddress::Ip(s.clone()),
            ServerAddress::Domain(s) => ServerAddress::Domain(s.clone()),
        };
        ConnectionPoolConfig { server, port: self.port, scheme: self.scheme }
    }

    /// The pool settings of a WinRM configuration.
    pub fn from_config(w: &crate::connector::transport::WinRmConfig) -> (r: Self)
        ensures
            r.server.text() == w.server.0.text(),
            r.port == w.server.1,
            r.scheme == w.transport.spec_scheme(),
    {
        let server = match &w.server.0 {
            ServerAddress::Ip(s) => ServerAddress::Ip(s.clone()),
            ServerAddress::Domain(s) => ServerAddress::Domain(s.clone()),
        };
        Self { server, port: w.server.1, scheme: w.transport.scheme() }
    }
}

/// A summary of one connection's state.
#[derive(Debug, Clone, Copy)]
pub enum ConnKind {
    PreAuth,
    Idle,
    Pending,
    Closed,
}

impl ConnectionState {
    pub open spec fn kind(&self) -> ConnKind {
        match self {
            ConnectionState::PreAuth { .. } => ConnKind::PreAuth,
            ConnectionState::Idle { .. } => ConnKind::Idle,
            ConnectionState::Pending { .. } => ConnKind::Pending,
            ConnectionState::Closed => ConnKind::Closed,
        }
    }

    /// The SOAP retained by a `PreAuth` or `Pending` connection.
    pub open spec fn queued(&self) -> Seq<char> {
        match self {
            ConnectionState::PreAuth { queued_xml } => queued_xml@,
            ConnectionState::Pending { queued_xml, .. } => queued_xml@,
            _ => Seq::empty(),
        }
    }
}

/// `SEC_CHANNEL_BINDINGS` for `tls-server-end-point` (RFC 5929): eight little-endian
/// `u32` header fields (initiator and acceptor empty, application data of `n` bytes at
/// offset 32) followed by the application data.
pub open spec fn channel_bindings(app_data: Seq<u8>) -> Seq<u8> {
    le32(0) + le32(0) + le32(0) + le32(0) + le32(0) + le32(0) + le32(app_data.len() as u32) + le32(32)
        + app_data
}

/// The SHA-256 digest of `data`.
pub uninterp spec fn sha256(data: Seq<u8>) -> Seq<u8>;

/// `sha2::Sha256::digest`: the digest of the input (named by `sha256`).
#[verifier::external_body]
fn sha256_digest(data: &[u8]) -> (r: Vec<u8>)
    ensures
        r@ == sha256(data@),
{
    sha2::Sha256::digest(data).to_vec()
}

/// The channel bindings for a server certificate: `tls-server-end-point:` followed by the
/// SHA-256 digest of the certificate's DER.
pub fn tls_server_end_point_channel_bindings(cert_der: &[u8]) -> (r: Vec<u8>)
    ensures
        r@ == channel_bindings(ascii("tls-server-end-point:"@) + sha256(cert_der@)),
{
    let mut app: Vec<u8> = Vec::new();
    crate::connector::encryption::write_str(&mut app, "tls-server-end-point:");
    let digest = sha256_digest(cert_der);
    let mut d = digest;
    let ghost app0 = app@;
    app.append(&mut d);
    let mut out: Vec<u8> = Vec::new();
    let mut k: usize = 0;
    while k < 6
        invariant
            k <= 6,
            out@.len() == 4 * k,
            forall|i: int| 0 <= i < out@.len() ==> out@[i] == 0u8,
        decreases 6 - k,
    {
        out.push(0u8);
        out.push(0u8);
        out.push(0u8);
        out.push(0u8);
        k = k + 1;
    }
    let n = app.len() as u32;
    out.push((n % 256) as u8);
    out.push(((n / 256) % 256) as u8);
    out.push(((n / 65536) % 256) as u8);
    out.push(((n / 16777216) % 256) as u8);
    out.push(32u8);
    out.push(0u8);
    out.push(0u8);
    out.push(0u8);
    let ghost hdr = out@;
    out.append(&mut app);
    proof {
        assert(le32(0) =~= seq![0u8, 0u8, 0u8, 0u8]);
        assert(le32(32) =~= seq![32u8, 0u8, 0u8, 0u8]);
        assert(hdr =~= le32(0) + le32(0) + le32(0) + le32(0) + le32(0) + le32(0) + le32(n) + le32(32));
    }
    out
}

/// The connections of one server, authenticated once and then reused.
pub struct ConnectionPool {
    connections: HashMap<u32, ConnectionState>,
    auth_seq_conf: AuthSequenceConfig,
    next_id: u32,
    server_config: ConnectionPoolConfig,
    channel_binding: Option<Vec<u8>>,
}

impl ConnectionPool {
    /// The connections by id.
    pub closed spec fn conns(&self) -> Map<u32, ConnectionState> {
        self.connections@
    }

    /// The id the next fresh connection gets.
    pub closed spec fn next(&self) -> u32 {
        self.next_id
    }

    pub closed spec fn binding(&self) -> Option<Seq<u8>> {
        match self.channel_binding {
            Some(b) => Some(b@),
            None => None,
        }
    }

    pub closed spec fn config(&self) -> AuthSequenceConfig {
        self.auth_seq_conf
    }

    pub closed spec fn server(&self) -> ConnectionPoolConfig {
        self.server_config
    }

    /// Every connection id lies below the next id to hand out.
    pub closed spec fn wf(&self) -> bool {
        &&& self.next_id >= 1
        &&& forall|k: u32| #[trigger] self.connections@.contains_key(k) ==> 1 <= k < self.next_id
    }

    pub fn new(cfg: ConnectionPoolConfig, sspi_cfg: AuthSequenceConfig) -> (r: Self)
        ensures
            r.wf(),
            r.conns() == Map::<u32, ConnectionState>::empty(),
            r.next() == 1,
            r.binding() is None,
            r.config() == sspi_cfg,
            r.server() == cfg,
    {
        Self {
            connections: HashMap::new(),
            auth_seq_conf: sspi_cfg,
            next_id: 1,
            server_config: cfg,
            channel_binding: None,
        }
    }

    fn http_builder(&self) -> (r: HttpBuilder)
        ensures
            r.server.text() == self.server_config.server.text(),
            r.port == self.server_config.port,
            r.scheme == self.server_config.scheme,
            r.cookie is None,
            r.headers@.len() == 0,
    {
        let server = match &self.server_config.server {
            ServerAddress::Ip(s) => ServerAddress::Ip(s.clone()),
            ServerAddress::Domain(s) => ServerAddress::Domain(s.clone()),
        };
        HttpBuilder::new(server, self.server_config.port, self.server_config.scheme)
    }

    /// Allocates a fresh connection id in `PreAuth` state.
    fn alloc_new(&mut self) -> (r: Result<ConnectionId, PwshCoreError>)
        requires
            old(self).wf(),
        ensures
            final(self).wf(),
            final(self).config() == old(self).config(),
            final(self).server() == old(self).server(),
            final(self).binding() == old(self).binding(),
            match r {
                Ok(id) => {
                    &&& id.spec_id() == old(self).next()
                    &&& final(self).next() == old(self).next() + 1
                    &&& !old(self).conns().contains_key(id.spec_id())
                    &&& final(self).conns().contains_key(id.spec_id())
                    &&& final(self).conns()[id.spec_id()] is PreAuth
                    &&& final(self).conns()[id.spec_id()].queued().len() == 0
                    &&& final(self).conns().remove(id.spec_id()) == old(self).conns()
                },
                Err(e) => old(self).next() == u32::MAX && e is UnlikelyToHappen
                    && final(self).conns() == old(self).conns() && final(self).next() == old(self).next(),
            },
    {
        if self.next_id == u32::MAX {
            return Err(PwshCoreError::UnlikelyToHappen("connection id space exhausted"));
        }
        let id = ConnectionId::new(self.next_id);
        self.next_id = self.next_id + 1;
        let empty = String::new();
        self.connections.insert(id.inner(), ConnectionState::PreAuth { queued_xml: empty });
        Ok(id)
    }
}


/// The `Authorization` header of the Basic configuration, when it is one.
pub open spec fn basic_header_of(cfg: AuthenticatorConfig) -> Option<Seq<char>> {
    match cfg {
        AuthenticatorConfig::Basic { username, password } => Some(basic_auth_header(username@, password@)),
        AuthenticatorConfig::Sspi(_) => None,
    }
}

/// A request built by the pool's builder for `body`, with the given queued headers.
pub open spec fn built_request(
    server: ConnectionPoolConfig,
    body: HttpBody,
    queued: Seq<(Seq<char>, Seq<char>)>,
    req: HttpRequest,
) -> bool {
    &&& req.method == crate::connector::http::Method::Post
    &&& req.url@ == crate::connector::http::endpoint_url(server.scheme, server.server.text(), server.port)
    &&& req.body == Some(body)
    &&& req.cookie is None
    &&& headers_view(req.headers@) == request_headers(server.server.text(), server.port, Some(body), None, queued)
}

/// What starting authentication for `xml` on the fresh connection `id` yields: the new
/// connection's state and the request (or handshake) for the caller.
pub open spec fn fresh_auth(
    cfg: AuthSequenceConfig,
    server: ConnectionPoolConfig,
    binding: Option<Seq<u8>>,
    xml: Seq<char>,
    id: u32,
    state: ConnectionState,
    ts: TrySend,
) -> bool {
    &&& ts.conn().spec_id() == id
    &&& match cfg.authenticator_config {
        AuthenticatorConfig::Sspi(c) => {
            &&& state is PreAuth
            &&& state.queued() == xml
            &&& ts matches TrySend::AuthNeeded { auth_sequence }
            &&& auth_sequence.queued_xml@ == xml
            &&& auth_sequence.auth_sequence.config == c
            &&& auth_sequence.auth_sequence.require_encryption == cfg.require_encryption
            &&& match auth_sequence.auth_sequence.channel_binding {
                Some(b) => binding == Some(b@),
                None => binding is None,
            }
        },
        AuthenticatorConfig::Basic { username, password } => {
            &&& state matches ConnectionState::Pending { enc: EncryptionOptions::IncludeHeader { header }, queued_xml }
            &&& header@ == basic_auth_header(username@, password@)
            &&& queued_xml@ == xml
            &&& ts matches TrySend::JustSend { request, .. }
            &&& request.body matches Some(HttpBody::Xml(x))
            &&& x@ == xml
            &&& built_request(server, request.body.unwrap(), seq![("Authorization"@, header@)], request)
        },
    }
}

/// A fresh connection was allocated (`PreAuth`, nothing queued yet) but its SSPI context
/// could not be made.
pub open spec fn failed_fresh(
    cfg: AuthSequenceConfig,
    old_conns: Map<u32, ConnectionState>,
    old_next: u32,
    new_conns: Map<u32, ConnectionState>,
    new_next: u32,
    e: PwshCoreError,
) -> bool {
    &&& sspi_start_failed(cfg, e)
    &&& new_next == old_next + 1
    &&& !old_conns.contains_key(old_next)
    &&& new_conns.contains_key(old_next)
    &&& new_conns[old_next] is PreAuth
    &&& new_conns[old_next].queued().len() == 0
    &&& new_conns.remove(old_next) == old_conns
}

/// A server response that is a bare re-challenge: 401, empty body, `WWW-Authenticate`.
pub open spec fn is_rechallenge(r: HttpResponse) -> bool {
    &&& r.status_code == 401
    &&& r.body.bytes().len() == 0
    &&& exists|i: int|
        0 <= i < r.headers@.len() && crate::text::eq_ignore_ascii_case_spec(
            #[trigger] r.headers@[i].0@,
            "www-authenticate"@,
        )
}

impl ConnectionPool {
    /// Starts authentication for `xml` on a freshly allocated connection.
    fn start_auth(&mut self, xml: String) -> (r: Result<TrySend, PwshCoreError>)
        requires
            old(self).wf(),
        ensures
            final(self).wf(),
            final(self).config() == old(self).config(),
            final(self).server() == old(self).server(),
            final(self).binding() == old(self).binding(),
            match r {
                Ok(ts) => {
                    let id = old(self).next();
                    &&& final(self).next() == id + 1
                    &&& !old(self).conns().contains_key(id)
                    &&& final(self).conns().contains_key(id)
                    &&& final(self).conns().remove(id) == old(self).conns()
                    &&& fresh_auth(old(self).config(), old(self).server(), old(self).binding(), xml@, id, final(self).conns()[id], ts)
                },
                Err(e) => (old(self).next() == u32::MAX && e is UnlikelyToHappen && final(self).conns() == old(self).conns())
                    || failed_fresh(old(self).config(), old(self).conns(), old(self).next(), final(self).conns(), final(self).next(), e),
            },
    {
        let id = self.alloc_new()?;
        let binding = match &self.channel_binding {
            Some(b) => Some(b.clone()),
            None => None,
        };
        let builder = self.http_builder();
        proof {
            assert(headers_view(builder.headers@) =~= Seq::empty());
        }
        let seq = match AuthSequence::new(&self.auth_seq_conf, builder, binding) {
            Ok(s) => s,
            Err(e) => return Err(e),
        };
        let ghost before = self.connections@;
        match seq {
            AuthSequence::Sspi(sspi_auth_sequence) => {
                let ghost cb = sspi_auth_sequence.channel_binding;
                let ghost cf = sspi_auth_sequence.config;
                let ghost re = sspi_auth_sequence.require_encryption;
                let ts = sspi_auth_sequence.start(xml.as_str(), id);
                self.connections.insert(id.inner(), ConnectionState::PreAuth { queued_xml: xml });
                proof {
                    assert(self.connections@.remove(id.spec_id()) =~= before.remove(id.spec_id()));
                    assert(self.connections@[id.spec_id()].queued() == xml@);
                    assert(ts.conn().spec_id() == id.spec_id());
                    assert(old(self).config().authenticator_config == AuthenticatorConfig::Sspi(cf));
                    assert(re == old(self).config().require_encryption);
                    assert(match cb { Some(b) => old(self).binding() == Some(b@), None => old(self).binding() is None });
                }
                Ok(ts)
            },
            AuthSequence::Basic(mut basic_auth_sequence) => {
                let ghost bb = basic_auth_sequence.http_builder;
                let header = basic_auth_sequence.get_auth_header();
                let ts = basic_auth_sequence.start(xml.as_str(), id);
                self.connections.insert(
                    id.inner(),
                    ConnectionState::Pending {
                        enc: EncryptionOptions::IncludeHeader { header },
                        queued_xml: xml,
                    },
                );
                proof {
                    assert(self.connections@.remove(id.spec_id()) =~= before.remove(id.spec_id()));
                    assert(headers_view(bb.headers@).push(("Authorization"@, header@))
                        =~= seq![("Authorization"@, header@)]);
                    let st = self.connections@[id.spec_id()];
                    assert(ts.conn().spec_id() == id.spec_id());
                    match ts {
                        TrySend::JustSend { ref request, .. } => {
                            assert(request.body matches Some(HttpBody::Xml(x)) && x@ == xml@);
                            assert(built_request(old(self).server(), request.body.unwrap(), seq![("Authorization"@, header@)], *request));
                        },
                        _ => {},
                    }
                }
                Ok(ts)
            },
        }
    }

    /// Removes one `Idle` connection from the pool, the one with the lowest id.
    fn take_idle(&mut self) -> (r: Option<(ConnectionId, EncryptionOptions)>)
        requires
            old(self).wf(),
        ensures
            final(self).wf(),
            final(self).next() == old(self).next(),
            final(self).config() == old(self).config(),
            final(self).server() == old(self).server(),
            final(self).binding() == old(self).binding(),
            match r {
                Some((id, enc)) => {
                    &&& old(self).conns().contains_key(id.spec_id())
                    &&& old(self).conns()[id.spec_id()] == ConnectionState::Idle { enc }
                    &&& final(self).conns() == old(self).conns().remove(id.spec_id())
                    &&& forall|k: u32| #[trigger] old(self).conns().contains_key(k) && k < id.spec_id()
                        ==> !(old(self).conns()[k] is Idle)
                },
                None => {
                    &&& final(self).conns() == old(self).conns()
                    &&& forall|k: u32| #[trigger] old(self).conns().contains_key(k) ==> !(old(self).conns()[k] is Idle)
                },
            },
    {
        let mut k: u32 = 1;
        while k < self.next_id
            invariant
                self.wf(),
                1 <= k <= self.next_id,
                self.connections@ == old(self).connections@,
                self.next_id == old(self).next_id,
                self.auth_seq_conf == old(self).auth_seq_conf,
                self.server_config == old(self).server_config,
                self.channel_binding == old(self).channel_binding,
                forall|j: u32| #[trigger] self.connections@.contains_key(j) && j < k ==> !(self.connections@[j] is Idle),
            decreases self.next_id - k,
        {
            let idle = match self.connections.get(&k) {
                Some(ConnectionState::Idle { .. }) => true,
                _ => false,
            };
            if idle {
                match self.connections.remove(&k) {
                    Some(ConnectionState::Idle { enc }) => {
                        return Some((ConnectionId::new(k), enc));
                    },
                    _ => {
                        proof {
                            assert(false);
                        }
                        return None;
                    },
                }
            }
            k = k + 1;
        }
        None
    }

    /// Drops a connection's state without processing a response (a connection retired at
    /// disconnect time, whose straggler is ignored).
    pub fn discard(&mut self, conn_id: ConnectionId)
        requires
            old(self).wf(),
        ensures
            final(self).wf(),
            final(self).next() == old(self).next(),
            final(self).config() == old(self).config(),
            final(self).server() == old(self).server(),
            final(self).binding() == old(self).binding(),
            final(self).conns() == old(self).conns().remove(conn_id.spec_id()),
    {
        let _ = self.connections.remove(&conn_id.inner());
    }

    /// Sends `unencrypted_xml`: on the idle connection with the lowest id when there is
    /// one (sealed for SSPI, with the Basic header otherwise; the connection becomes
    /// `Pending`), else on a fresh connection that must authenticate first.
    pub fn send(&mut self, unencrypted_xml: &str) -> (r: Result<TrySend, PwshCoreError>)
        requires
            old(self).wf(),
        ensures
            final(self).wf(),
            final(self).config() == old(self).config(),
            final(self).server() == old(self).server(),
            final(self).binding() == old(self).binding(),
            send_outcome(*old(self), *final(self), unencrypted_xml@, r),
    {
        if let Some((id, enc_opt)) = self.take_idle() {
            let builder = self.http_builder();
            let mut b = builder;
            proof {
                assert(headers_view(b.headers@) =~= Seq::empty());
            }
            let (req, enc) = match enc_opt {
                EncryptionOptions::Sspi { mut encryption_provider } => {
                    let body = match encryption_provider.encrypt(unencrypted_xml) {
                        Ok(b) => b,
                        Err(e) => {
                            proof {
                                assert(lowest_idle(old(self).conns(), id.spec_id()));
                                assert(idle_sealed(old(self).conns()[id.spec_id()]));
                            }
                            return Err(e);
                        },
                    };
                    (b.post(body), EncryptionOptions::Sspi { encryption_provider })
                },
                EncryptionOptions::IncludeHeader { header } => {
                    b.with_auth_header(header.clone());
                    (b.post(HttpBody::Xml(String::from_str(unencrypted_xml))), EncryptionOptions::IncludeHeader { header })
                },
            };
            let ghost before = self.connections@;
            self.connections.insert(
                id.inner(),
                ConnectionState::Pending { enc, queued_xml: String::from_str(unencrypted_xml) },
            );
            proof {
                assert(self.connections@.remove(id.spec_id()) =~= before);
                assert(headers_view(Seq::<(String, String)>::empty()).push(("Authorization"@, final_header(enc)))
                    =~= seq![("Authorization"@, final_header(enc))]);
            }
            return Ok(TrySend::JustSend { request: req, conn_id: id });
        }
        self.start_auth(String::from_str(unencrypted_xml))
    }
}

/// What `send` does with `xml`: on the idle connection with the lowest id when there is
/// one, else on a fresh connection that must authenticate first.
/// `k` is the idle connection with the lowest id.
pub open spec fn lowest_idle(conns: Map<u32, ConnectionState>, k: u32) -> bool {
    &&& conns.contains_key(k)
    &&& conns[k] is Idle
    &&& forall|j: u32| #[trigger] conns.contains_key(j) && j < k ==> !(conns[j] is Idle)
}

/// An idle connection authenticated by SSPI (as opposed to one carrying a Basic header).
pub open spec fn idle_sealed(st: ConnectionState) -> bool {
    st matches ConnectionState::Idle { enc: EncryptionOptions::Sspi { .. } }
}

pub open spec fn send_outcome(
    old_pool: ConnectionPool,
    new_pool: ConnectionPool,
    xml: Seq<char>,
    r: Result<TrySend, PwshCoreError>,
) -> bool {
    &&& new_pool.wf()
    &&& new_pool.config() == old_pool.config()
    &&& new_pool.server() == old_pool.server()
    &&& new_pool.binding() == old_pool.binding()
    &&& (exists|k: u32| #[trigger] old_pool.conns().contains_key(k) && old_pool.conns()[k] is Idle) ==> {
        &&& new_pool.next() == old_pool.next()
        &&& match r {
            Ok(ts) => {
                let id = ts.conn().spec_id();
                &&& ts is JustSend
                &&& old_pool.conns().contains_key(id)
                &&& old_pool.conns()[id] is Idle
                &&& forall|k: u32| #[trigger] old_pool.conns().contains_key(k) && k < id
                    ==> !(old_pool.conns()[k] is Idle)
                &&& new_pool.conns().contains_key(id)
                &&& new_pool.conns()[id] is Pending
                &&& new_pool.conns()[id].queued() == xml
                &&& new_pool.conns().remove(id) == old_pool.conns().remove(id)
                &&& idle_send(old_pool.server(), old_pool.conns()[id], new_pool.conns()[id], xml, ts)
            },
            Err(e) => {
                &&& e is SspiError || e is Auth
                &&& exists|k: u32|
                    #[trigger] lowest_idle(old_pool.conns(), k) && idle_sealed(old_pool.conns()[k])
                        && new_pool.conns() == old_pool.conns().remove(k)
            },
        }
        &&& forall|k: u32|
            #[trigger] lowest_idle(old_pool.conns(), k) && !idle_sealed(old_pool.conns()[k]) ==> r is Ok
    }
    &&& (forall|k: u32| #[trigger] old_pool.conns().contains_key(k) ==> !(old_pool.conns()[k] is Idle)) ==> match r {
        Ok(ts) => {
            let id = old_pool.next();
            &&& new_pool.next() == id + 1
            &&& new_pool.conns().contains_key(id)
            &&& new_pool.conns().remove(id) == old_pool.conns()
            &&& fresh_auth(old_pool.config(), old_pool.server(), old_pool.binding(), xml, id, new_pool.conns()[id], ts)
        },
        Err(e) => (old_pool.next() == u32::MAX && e is UnlikelyToHappen && new_pool.conns() == old_pool.conns())
            || failed_fresh(old_pool.config(), old_pool.conns(), old_pool.next(), new_pool.conns(), new_pool.next(), e),
    }
}

/// The Basic header an `IncludeHeader` option carries.
pub open spec fn final_header(enc: EncryptionOptions) -> Seq<char> {
    match enc {
        EncryptionOptions::IncludeHeader { header } => header@,
        EncryptionOptions::Sspi { .. } => Seq::empty(),
    }
}

/// Sending `xml` on an idle connection: with SSPI the body is what the provider produced
/// (the XML itself without sealing) and the provider moves on by one send; with Basic the
/// request carries the connection's header and the XML.
pub open spec fn idle_send(
    server: ConnectionPoolConfig,
    before: ConnectionState,
    after: ConnectionState,
    xml: Seq<char>,
    ts: TrySend,
) -> bool {
    &&& ts matches TrySend::JustSend { request, .. }
    &&& match before {
        ConnectionState::Idle { enc: EncryptionOptions::Sspi { encryption_provider: p0 } } => {
            &&& after matches ConnectionState::Pending { enc: EncryptionOptions::Sspi { encryption_provider: p1 }, .. }
            &&& p1.requires_encryption() == p0.requires_encryption()
            &&& p1.recv_seq() == p0.recv_seq()
            &&& request.body matches Some(b)
            &&& built_request(server, b, Seq::empty(), request)
            &&& !p0.requires_encryption() ==> (b matches HttpBody::Xml(x) && x@ == xml)
            &&& p1.opened_log() == p0.opened_log()
            &&& p0.requires_encryption() ==> (b matches HttpBody::Encrypted(v) && sealed_into(p0, p1, xml, v@))
        },
        ConnectionState::Idle { enc: EncryptionOptions::IncludeHeader { header } } => {
            &&& after matches ConnectionState::Pending { enc: EncryptionOptions::IncludeHeader { header: h1 }, .. }
            &&& h1 == header
            &&& request.body matches Some(HttpBody::Xml(x))
            &&& x@ == xml
            &&& built_request(server, request.body.unwrap(), seq![("Authorization"@, header@)], request)
        },
        _ => false,
    }
}


/// Surfaces a terminal `401` as an authentication error.
fn reject_terminal_401(conn_id: ConnectionId, status_code: u16, detail: &'static str) -> (r: Result<
    ConnectionPoolAccept,
    PwshCoreError,
>)
    ensures
        r == Err::<ConnectionPoolAccept, PwshCoreError>(PwshCoreError::Auth(detail)),
{
    Err(PwshCoreError::Auth(detail))
}

fn has_www_authenticate(headers: &Vec<(String, String)>) -> (r: bool)
    ensures
        r == exists|i: int|
            0 <= i < headers@.len() && crate::text::eq_ignore_ascii_case_spec(
                #[trigger] headers@[i].0@,
                "www-authenticate"@,
            ),
{
    let mut i: usize = 0;
    while i < headers.len()
        invariant
            i <= headers@.len(),
            forall|j: int|
                0 <= j < i ==> !crate::text::eq_ignore_ascii_case_spec(
                    #[trigger] headers@[j].0@,
                    "www-authenticate"@,
                ),
        decreases headers@.len() - i,
    {
        proof {
            reveal_strlit("www-authenticate");
        }
        if eq_ignore_ascii_case(headers[i].0.as_str(), "www-authenticate") {
            return true;
        }
        i = i + 1;
    }
    false
}

/// The state of connection `id` after a successful unseal on it: `Idle` with the
/// provider as the unseal left it.
pub open spec fn idle_after(p0: EncryptionProvider, st: ConnectionState) -> bool {
    st matches ConnectionState::Idle { enc: EncryptionOptions::Sspi { encryption_provider: p1 } }
        && p1.requires_encryption() == p0.requires_encryption() && p1.seq() == p0.seq()
        && p1.recv_seq() == (if p0.recv_seq() == u32::MAX { 0 } else { (p0.recv_seq() + 1) as u32 })
}

/// Accepting a response on a connection whose SSPI provider `p0` unseals it: an unseal
/// error or a terminal 401 leaves the connection `Closed`; otherwise it becomes `Idle`
/// and the plaintext is returned.
pub open spec fn unseal_outcome(
    p0: EncryptionProvider,
    resp: HttpResponse,
    id: u32,
    old_conns: Map<u32, ConnectionState>,
    new_conns: Map<u32, ConnectionState>,
    r: Result<ConnectionPoolAccept, PwshCoreError>,
) -> bool {
    ||| exists|p1: EncryptionProvider, d: Result<String, PwshCoreError>| {
        &&& #[trigger] decrypt_spec(p0, resp.body, p1, d)
        &&& d is Err
        &&& r == Err::<ConnectionPoolAccept, PwshCoreError>(d->Err_0)
        &&& new_conns == old_conns.insert(id, ConnectionState::Closed)
    }
    ||| exists|p1: EncryptionProvider, d: Result<String, PwshCoreError>| {
        &&& #[trigger] decrypt_spec(p0, resp.body, p1, d)
        &&& d is Ok
        &&& resp.status_code == 401
        &&& r == Err::<ConnectionPoolAccept, PwshCoreError>(PwshCoreError::Auth("server rejected authentication (HTTP 401)"))
        &&& new_conns == old_conns.insert(id, ConnectionState::Closed)
    }
    ||| exists|p1: EncryptionProvider, d: Result<String, PwshCoreError>| {
        &&& #[trigger] decrypt_spec(p0, resp.body, p1, d)
        &&& d matches Ok(text)
        &&& resp.status_code != 401
        &&& r matches Ok(ConnectionPoolAccept::Body(b)) && b == text
        &&& new_conns.contains_key(id)
        &&& idle_after(p0, new_conns[id])
        &&& new_conns.remove(id) == old_conns.remove(id)
    }
}

/// Restarting authentication of `queued` on a fresh connection after connection `id`
/// was closed.
pub open spec fn restart_outcome(
    old_pool: ConnectionPool,
    new_pool: ConnectionPool,
    id: u32,
    queued: Seq<char>,
    r: Result<ConnectionPoolAccept, PwshCoreError>,
) -> bool {
    let closed = old_pool.conns().insert(id, ConnectionState::Closed);
    let fresh = old_pool.next();
    match r {
        Ok(ConnectionPoolAccept::SendBack(v)) => {
            &&& v@.len() == 1
            &&& new_pool.next() == fresh + 1
            &&& !closed.contains_key(fresh)
            &&& new_pool.conns().contains_key(fresh)
            &&& new_pool.conns().remove(fresh) == closed
            &&& fresh_auth(new_pool.config(), new_pool.server(), new_pool.binding(), queued, fresh, new_pool.conns()[fresh], v@[0])
        },
        Ok(_) => false,
        Err(e) => (fresh == u32::MAX && e is UnlikelyToHappen && new_pool.conns() == closed)
            || failed_fresh(new_pool.config(), closed, fresh, new_pool.conns(), new_pool.next(), e),
    }
}

/// What `accept` does with a response on connection `id` (see `ConnectionPool::accept`).
pub open spec fn accept_outcome(
    old_pool: ConnectionPool,
    resp: HttpResponseTargeted,
    new_pool: ConnectionPool,
    r: Result<ConnectionPoolAccept, PwshCoreError>,
) -> bool {
    let id = resp.connection_id.spec_id();
    let closed = old_pool.conns().insert(id, ConnectionState::Closed);
    let same_next = new_pool.next() == old_pool.next();
    let same_binding = new_pool.binding() == old_pool.binding();
    if !old_pool.conns().contains_key(id) {
        &&& r == Err::<ConnectionPoolAccept, PwshCoreError>(PwshCoreError::InvalidState("Unknown connection"))
        &&& new_pool.conns() == old_pool.conns() && same_next && same_binding
    } else {
        match old_pool.conns()[id] {
            ConnectionState::Closed => {
                &&& r == Err::<ConnectionPoolAccept, PwshCoreError>(PwshCoreError::InvalidState("Connection already closed"))
                &&& new_pool.conns() == old_pool.conns() && same_next && same_binding
            },
            ConnectionState::Idle { .. } => {
                &&& r == Err::<ConnectionPoolAccept, PwshCoreError>(PwshCoreError::InvalidState("Connection was idle"))
                &&& new_pool.conns() == closed && same_next && same_binding
            },
            ConnectionState::PreAuth { queued_xml } => {
                if resp.response.status_code == 401 && old_pool.binding() is None
                    && resp.response.peer_cert_der is Some {
                    &&& new_pool.binding() == Some(
                        channel_bindings(
                            ascii("tls-server-end-point:"@) + sha256(resp.response.peer_cert_der->Some_0@),
                        ),
                    )
                    &&& restart_outcome(old_pool, new_pool, id, queued_xml@, r)
                } else {
                    &&& same_next && same_binding
                    &&& match resp.authenticated {
                        Some(ch) => unseal_outcome(
                            ch.encryption_provider,
                            resp.response,
                            id,
                            old_pool.conns(),
                            new_pool.conns(),
                            r,
                        ),
                        None => r == Err::<ConnectionPoolAccept, PwshCoreError>(
                            PwshCoreError::InvalidState("PreAuth response missing encryption provider"),
                        ) && new_pool.conns() == closed,
                    }
                }
            },
            ConnectionState::Pending {
                enc: EncryptionOptions::Sspi { encryption_provider: p0 },
                queued_xml,
            } => {
                if is_rechallenge(resp.response) {
                    &&& same_binding
                    &&& restart_outcome(old_pool, new_pool, id, queued_xml@, r)
                } else {
                    &&& same_next && same_binding
                    &&& unseal_outcome(p0, resp.response, id, old_pool.conns(), new_pool.conns(), r)
                }
            },
            ConnectionState::Pending { enc: EncryptionOptions::IncludeHeader { header }, .. } => {
                &&& same_next && same_binding
                &&& if resp.response.status_code == 401 {
                    &&& r == Err::<ConnectionPoolAccept, PwshCoreError>(
                        PwshCoreError::Auth("server rejected Basic authentication (HTTP 401)"),
                    )
                    &&& new_pool.conns() == closed
                } else {
                    match resp.response.body {
                        HttpBody::Encrypted(_) => r matches Err(PwshCoreError::InternalError(_))
                            && new_pool.conns() == closed,
                        _ => {
                            &&& r matches Ok(ConnectionPoolAccept::Body(b))
                            &&& encode_utf8(b@) == resp.response.body.bytes()
                            &&& new_pool.conns() == old_pool.conns().insert(
                                id,
                                ConnectionState::Idle { enc: EncryptionOptions::IncludeHeader { header } },
                            )
                        },
                    }
                }
            },
        }
    }
}

impl ConnectionPool {
    /// Accepts a response on the connection it came from.
    ///
    /// - A `PreAuth` connection rejected with 401 over TLS before any channel binding is
    ///   known learns the binding from the server certificate and restarts authentication
    ///   on a fresh connection (once).
    /// - A `PreAuth` connection that completed its handshake unseals the response and
    ///   becomes `Idle`.
    /// - A `Pending` SSPI connection re-challenged (401, empty body, `WWW-Authenticate`)
    ///   is closed and the queued SOAP restarts on a fresh connection; otherwise the
    ///   response is unsealed and the connection becomes `Idle`.
    /// - A `Pending` Basic connection returns the body text and becomes `Idle`.
    /// - Any remaining 401 is a terminal authentication error; responses on `Idle`,
    ///   `Closed` or unknown connections are errors.
    pub fn accept(&mut self, response: HttpResponseTargeted) -> (r: Result<ConnectionPoolAccept, PwshCoreError>)
        requires
            old(self).wf(),
        ensures
            final(self).wf(),
            final(self).config() == old(self).config(),
            final(self).server() == old(self).server(),
            accept_outcome(*old(self), response, *final(self), r),
    {
        let ghost resp0 = response;
        let HttpResponseTargeted { response, connection_id, authenticated } = response;
        let key = connection_id.inner();
        let state = match self.connections.remove(&key) {
            Some(s) => s,
            None => {
                proof {
                    assert(self.connections@ =~= old(self).connections@);
                }
                return Err(PwshCoreError::InvalidState("Unknown connection"));
            },
        };
        self.connections.insert(key, ConnectionState::Closed);
        let ghost closed = self.connections@;
        proof {
            assert(closed =~= old(self).conns().insert(key, ConnectionState::Closed));
            assert(old(self).conns().contains_key(key));
            assert(old(self).conns()[key] == state);
        }
        match state {
            ConnectionState::PreAuth { queued_xml } => {
                if response.status_code == 401 && self.channel_binding.is_none()
                    && response.peer_cert_der.is_some() {
                    let cert = match &response.peer_cert_der {
                        Some(c) => c,
                        None => {
                            proof {
                                assert(false);
                            }
                            return Err(PwshCoreError::InvalidState("missing certificate"));
                        },
                    };
                    let binding = tls_server_end_point_channel_bindings(cert.as_slice());
                    self.channel_binding = Some(binding);
                    let ts = self.start_auth(queued_xml)?;
                    return Ok(ConnectionPoolAccept::SendBack(vec![ts]));
                }
                match authenticated {
                    Some(channel) => {
                        let AuthenticatedHttpChannel { mut encryption_provider, conn_id: _ } = channel;
                        let ghost p0 = encryption_provider;
                        let dec = encryption_provider.decrypt(response.body);
                        proof {
                            assert(decrypt_spec(p0, response.body, encryption_provider, dec));
                        }
                        let body = match dec {
                            Ok(b) => b,
                            Err(e) => return Err(e),
                        };
                        if response.status_code == 401 {
                            return reject_terminal_401(
                                connection_id,
                                response.status_code,
                                "server rejected authentication (HTTP 401)",
                            );
                        }
                        self.connections.insert(
                            key,
                            ConnectionState::Idle { enc: EncryptionOptions::Sspi { encryption_provider } },
                        );
                        proof {
                            assert(self.connections@.remove(key) =~= old(self).conns().remove(key));
                        }
                        Ok(ConnectionPoolAccept::Body(body))
                    },
                    None => {
                        let res = Err(PwshCoreError::InvalidState("PreAuth response missing encryption provider"));
                        proof {
                            assert(accept_outcome(*old(self), resp0, *self, res));
                        }
                        res
                    },
                }
            },
            ConnectionState::Pending { enc: EncryptionOptions::Sspi { mut encryption_provider }, queued_xml } => {
                let empty = response.body.is_empty();
                if response.status_code == 401 && empty && has_www_authenticate(&response.headers) {
                    let ts = self.start_auth(queued_xml)?;
                    return Ok(ConnectionPoolAccept::SendBack(vec![ts]));
                }
                let ghost p0 = encryption_provider;
                let dec = encryption_provider.decrypt(response.body);
                proof {
                    assert(decrypt_spec(p0, response.body, encryption_provider, dec));
                }
                let body = match dec {
                    Ok(b) => b,
                    Err(e) => return Err(e),
                };
                if response.status_code == 401 {
                    return reject_terminal_401(
                        connection_id,
                        response.status_code,
                        "server rejected authentication (HTTP 401)",
                    );
                }
                self.connections.insert(
                    key,
                    ConnectionState::Idle { enc: EncryptionOptions::Sspi { encryption_provider } },
                );
                proof {
                    assert(self.connections@.remove(key) =~= old(self).conns().remove(key));
                }
                Ok(ConnectionPoolAccept::Body(body))
            },
            ConnectionState::Pending { enc: EncryptionOptions::IncludeHeader { header }, queued_xml: _ } => {
                if response.status_code == 401 {
                    return reject_terminal_401(
                        connection_id,
                        response.status_code,
                        "server rejected Basic authentication (HTTP 401)",
                    );
                }
                let text = match response.body.as_str() {
                    Ok(t) => String::from_str(t),
                    Err(e) => return Err(e),
                };
                proof {
                    crate::connector::http::encode_utf8_empty_iff(text@);
                    assert(encode_utf8(text@) == response.body.bytes());
                }
                self.connections.insert(
                    key,
                    ConnectionState::Idle { enc: EncryptionOptions::IncludeHeader { header } },
                );
                proof {
                    assert(self.connections@ =~= old(self).conns().insert(
                        key,
                        ConnectionState::Idle { enc: EncryptionOptions::IncludeHeader { header } },
                    ));
                }
                Ok(ConnectionPoolAccept::Body(text))
            },
            ConnectionState::Closed => {
                let res = Err(PwshCoreError::InvalidState("Connection already closed"));
                proof {
                    assert(self.connections@ =~= old(self).connections@);
                    assert(accept_outcome(*old(self), resp0, *self, res));
                }
                res
            },
            ConnectionState::Idle { .. } => {
                let res = Err(PwshCoreError::InvalidState("Connection was idle"));
                proof {
                    assert(accept_outcome(*old(self), resp0, *self, res));
                }
                res
            },
        }
    }
}
/// A connection whose response was accepted carries the next request: once a response
/// is read on a connection, sending again opens no new connection and goes out at once.
pub proof fn lemma_answered_connection_is_reused(
    p0: ConnectionPool,
    resp: HttpResponseTargeted,
    p1: ConnectionPool,
    body: String,
    p2: ConnectionPool,
    xml: Seq<char>,
    r: Result<TrySend, PwshCoreError>,
)
    requires
        accept_outcome(p0, resp, p1, Ok(ConnectionPoolAccept::Body(body))),
        send_outcome(p1, p2, xml, r),
    ensures
        p2.next() == p1.next(),
        r matches Ok(ts) ==> ts is JustSend,
{
    let id = resp.connection_id.spec_id();
    assert(p1.conns().contains_key(id) && p1.conns()[id] is Idle);
}

/// A Basic connection that was answered with other than 401 hands out the body and
/// carries the next request: with no other idle connection, the next send succeeds on
/// that very connection, without a new one.
pub proof fn lemma_basic_connection_is_reused(
    p0: ConnectionPool,
    resp: HttpResponseTargeted,
    p1: ConnectionPool,
    r1: Result<ConnectionPoolAccept, PwshCoreError>,
    p2: ConnectionPool,
    xml: Seq<char>,
    r: Result<TrySend, PwshCoreError>,
)
    requires
        p0.conns().contains_key(resp.connection_id.spec_id()),
        p0.conns()[resp.connection_id.spec_id()] matches ConnectionState::Pending {
            enc: EncryptionOptions::IncludeHeader { .. },
            ..
        },
        none_idle(p0.conns()),
        resp.response.status_code != 401,
        !(resp.response.body is Encrypted),
        accept_outcome(p0, resp, p1, r1),
        send_outcome(p1, p2, xml, r),
    ensures
        r1 matches Ok(ConnectionPoolAccept::Body(b)) && encode_utf8(b@) == resp.response.body.bytes(),
        p2.next() == p1.next(),
        r matches Ok(ts) && ts is JustSend && ts.conn().spec_id() == resp.connection_id.spec_id(),
{
    let id = resp.connection_id.spec_id();
    assert(p1.conns().contains_key(id) && p1.conns()[id] is Idle);
    assert forall|j: u32| #[trigger] p1.conns().contains_key(j) && j != id implies !(p1.conns()[j] is Idle) by {
        assert(p0.conns().contains_key(j));
    }
    assert(lowest_idle(p1.conns(), id));
    assert(!idle_sealed(p1.conns()[id]));
}

/// An SSPI connection that the server re-challenges is closed for good: the queued SOAP
/// restarts on a fresh connection (when one can be opened), and any later response on
/// the old connection is refused as closed.
pub proof fn lemma_rechallenged_connection_stays_closed(
    p0: ConnectionPool,
    resp: HttpResponseTargeted,
    p1: ConnectionPool,
    r1: Result<ConnectionPoolAccept, PwshCoreError>,
    later: HttpResponseTargeted,
    p2: ConnectionPool,
    r2: Result<ConnectionPoolAccept, PwshCoreError>,
)
    requires
        p0.conns().contains_key(resp.connection_id.spec_id()),
        p0.conns()[resp.connection_id.spec_id()] matches ConnectionState::Pending {
            enc: EncryptionOptions::Sspi { .. },
            ..
        },
        is_rechallenge(resp.response),
        accept_outcome(p0, resp, p1, r1),
        later.connection_id.spec_id() == resp.connection_id.spec_id(),
        accept_outcome(p1, later, p2, r2),
    ensures
        r1 matches Ok(ConnectionPoolAccept::SendBack(v)) ==> v@.len() == 1 && v@[0].conn().spec_id()
            == p0.next() && p0.next() != resp.connection_id.spec_id() && p1.conns()[p0.next()].queued()
            == p0.conns()[resp.connection_id.spec_id()].queued(),
        r2 == Err::<ConnectionPoolAccept, PwshCoreError>(PwshCoreError::InvalidState("Connection already closed")),
{
    let id = resp.connection_id.spec_id();
    let closed = p0.conns().insert(id, ConnectionState::Closed);
    assert(closed.contains_key(id));
    if p1.conns() != closed {
        let f = p0.next();
        assert(p1.conns().remove(f) == closed);
        assert(!closed.contains_key(f));
        assert(f != id);
        assert(p1.conns().remove(f).contains_key(id));
        assert(p1.conns().remove(f)[id] == p1.conns()[id]);
    }
    assert(p1.conns().contains_key(id) && p1.conns()[id] is Closed);
}

/// An SSPI connection that the server answers with a 401 whose body is empty and that
/// carries a `WWW-Authenticate` header (its name compared ignoring ASCII case) is
/// re-challenged, not refused: the connection is closed, a fresh connection is opened, and
/// unless opening it failed the SOAP queued on the old connection is sent again on it in a
/// new authentication; no other error than failing to open the fresh connection comes back.
pub proof fn lemma_empty_401_with_challenge_restarts(
    p0: ConnectionPool,
    resp: HttpResponseTargeted,
    p1: ConnectionPool,
    r: Result<ConnectionPoolAccept, PwshCoreError>,
)
    requires
        p0.conns().contains_key(resp.connection_id.spec_id()),
        p0.conns()[resp.connection_id.spec_id()] matches ConnectionState::Pending {
            enc: EncryptionOptions::Sspi { .. },
            ..
        },
        resp.response.status_code == 401,
        resp.response.body.bytes().len() == 0,
        exists|i: int|
            0 <= i < resp.response.headers@.len() && crate::text::eq_ignore_ascii_case_spec(
                #[trigger] resp.response.headers@[i].0@,
                "www-authenticate"@,
            ),
        accept_outcome(p0, resp, p1, r),
    ensures
        p1.conns().contains_key(resp.connection_id.spec_id()),
        p1.conns()[resp.connection_id.spec_id()] is Closed,
        p0.next() < u32::MAX ==> p1.next() == p0.next() + 1,
        r is Ok ==> (r matches Ok(ConnectionPoolAccept::SendBack(v)) && v@.len() == 1 && v@[0].conn().spec_id()
            == p0.next() && p1.conns()[p0.next()].queued() == p0.conns()[resp.connection_id.spec_id()].queued()),
        r matches Err(e) ==> (p0.next() == u32::MAX && e is UnlikelyToHappen) || sspi_start_failed(p1.config(), e),
{
    let id = resp.connection_id.spec_id();
    let closed = p0.conns().insert(id, ConnectionState::Closed);
    assert(is_rechallenge(resp.response));
    if p1.conns() != closed {
        let f = p0.next();
        assert(p1.conns().remove(f) == closed);
        assert(!closed.contains_key(f));
        assert(p1.conns().remove(f).contains_key(id));
        assert(p1.conns().remove(f)[id] == p1.conns()[id]);
    }
}

/// A TLS channel binding is learned at most once per pool: after a 401 with a server
/// certificate has restarted authentication with the binding, a second such 401 on a
/// connection that is still authenticating is an error, never another restart.
pub proof fn lemma_channel_binding_learned_once(
    p0: ConnectionPool,
    resp1: HttpResponseTargeted,
    p1: ConnectionPool,
    r1: Result<ConnectionPoolAccept, PwshCoreError>,
    resp2: HttpResponseTargeted,
    p2: ConnectionPool,
    r2: Result<ConnectionPoolAccept, PwshCoreError>,
)
    requires
        p0.binding() is None,
        p0.conns().contains_key(resp1.connection_id.spec_id()),
        p0.conns()[resp1.connection_id.spec_id()] is PreAuth,
        resp1.response.status_code == 401,
        resp1.response.peer_cert_der is Some,
        accept_outcome(p0, resp1, p1, r1),
        p1.conns().contains_key(resp2.connection_id.spec_id()),
        p1.conns()[resp2.connection_id.spec_id()] is PreAuth,
        resp2.response.status_code == 401,
        accept_outcome(p1, resp2, p2, r2),
    ensures
        p1.binding() is Some,
        p2.binding() == p1.binding(),
        r2 is Err,
{
}

/// `p1` holds the connections of `p0` as they were, and a new connection `id`.
pub open spec fn only_added(p0: ConnectionPool, p1: ConnectionPool, id: u32) -> bool {
    &&& !p0.conns().contains_key(id)
    &&& p1.conns().contains_key(id)
    &&& p1.conns().remove(id) == p0.conns()
}

/// No connection of the map is idle.
pub open spec fn none_idle(conns: Map<u32, ConnectionState>) -> bool {
    forall|k: u32| #[trigger] conns.contains_key(k) ==> !(conns[k] is Idle)
}

/// Sends on a fresh pool, with no response accepted in between, open connections
/// numbered 1, 2, 3, ...: the `i`-th successful send goes out on connection `i + 1`, the
/// pool's next id follows, no connection becomes idle, and each send adds its new
/// connection while keeping the earlier ones as they were.
pub proof fn lemma_fresh_ids_count_up(
    pools: Seq<ConnectionPool>,
    xmls: Seq<Seq<char>>,
    rs: Seq<Result<TrySend, PwshCoreError>>,
)
    requires
        pools.len() == rs.len() + 1,
        xmls.len() == rs.len(),
        pools[0].conns() == Map::<u32, ConnectionState>::empty(),
        pools[0].next() == 1,
        forall|i: int| 0 <= i < rs.len() ==> send_outcome(pools[i], pools[i + 1], xmls[i], #[trigger] rs[i]),
        forall|i: int| 0 <= i < rs.len() ==> #[trigger] rs[i] is Ok,
    ensures
        forall|i: int| 0 <= i < rs.len() ==> (#[trigger] rs[i])->Ok_0.conn().spec_id() == i + 1,
        forall|i: int| 0 <= i < pools.len() ==> (#[trigger] pools[i]).next() == i + 1,
        forall|i: int| 0 <= i < pools.len() ==> none_idle((#[trigger] pools[i]).conns()),
        forall|i: int| 0 <= i < rs.len() ==> #[trigger] only_added(pools[i], pools[i + 1], (i + 1) as u32),
    decreases rs.len(),
{
    if rs.len() > 0 {
        let n = rs.len() - 1;
        lemma_fresh_ids_count_up(pools.take(n + 1), xmls.take(n), rs.take(n));
        assert forall|i: int| 0 <= i < n implies #[trigger] rs[i]->Ok_0.conn().spec_id() == i + 1 by {
            assert(rs.take(n)[i] == rs[i]);
        }
        assert forall|i: int| 0 <= i <= n implies (#[trigger] pools[i]).next() == i + 1 && none_idle(pools[i].conns()) by {
            assert(pools.take(n + 1)[i] == pools[i]);
        }
        assert forall|i: int| 0 <= i < n implies #[trigger] only_added(pools[i], pools[i + 1], (i + 1) as u32) by {
            assert(pools.take(n + 1)[i] == pools[i]);
            assert(pools.take(n + 1)[i + 1] == pools[i + 1]);
        }
        let p = pools[n];
        let q = pools[n + 1];
        assert(send_outcome(p, q, xmls[n], rs[n]));
        if n > 0 {
            assert(send_outcome(pools[n - 1], pools[n], xmls[n - 1], rs[n - 1]));
        }
        let id = p.next();
        assert(!p.conns().contains_key(id));
        assert(id == (n + 1) as u32);
        assert(q.conns().remove(id) == p.conns());
        assert(q.conns().contains_key(id));
        assert forall|k: u32| #[trigger] q.conns().contains_key(k) implies !(q.conns()[k] is Idle) by {
            if k != id {
                assert(q.conns().remove(id).contains_key(k));
            }
        }
        assert forall|i: int| 0 <= i < rs.len() implies #[trigger] only_added(pools[i], pools[i + 1], (i + 1) as u32) by {
            if i < n {
                assert(pools.take(n + 1)[i] == pools[i]);
                assert(pools.take(n + 1)[i + 1] == pools[i + 1]);
            }
        }
    }
}

} // verus!
