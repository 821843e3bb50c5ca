//! Transport security configuration and endpoint addressing.
use vstd::prelude::*;
use vstd::string::*;

use crate::connector::config::{AuthenticatorConfig, TlsOptions};
use crate::connector::http::{scheme_text, ServerAddress};
use crate::text::{decimal, decimal_string};

verus! {

/// Internal scheme type for URL building.
#[derive(Debug, Clone, Copy, PartialEq, Eq, Structural)]
pub enum Scheme {
    Http,
    Https,
}

/// Transport security configuration; the variants leave no invalid combination.
///
/// - `Http`: HTTP with SSPI message sealing.
/// - `Https`: HTTPS; TLS protects the messages, so SSPI sealing is not used.
/// - `HttpInsecure`: HTTP without SSPI sealing (testing and debugging only).
#[derive(Debug, Clone, Copy, PartialEq, Eq, Structural)]
pub enum TransportSecurity {
    Http,
    Https,
    HttpInsecure,
}

impl TransportSecurity {
    pub open spec fn spec_scheme(self) -> Scheme {
        match self {
            TransportSecurity::Http | TransportSecurity::HttpInsecure => Scheme::Http,
            TransportSecurity::Https => Scheme::Https,
        }
    }

    /// The HTTP scheme used for URLs.
    pub fn scheme(&self) -> (r: Scheme)
        ensures
            r == self.spec_scheme(),
    {
        match self {
            TransportSecurity::Http | TransportSecurity::HttpInsecure => Scheme::Http,
            TransportSecurity::Https => Scheme::Https,
        }
    }

    /// Whether SSPI message sealing (wrap/unwrap) is used: only over plain HTTP with sealing.
    pub fn requires_sspi_sealing(&self) -> (r: bool)
        ensures
            r == (*self == TransportSecurity::Http),
    {
        match self {
            TransportSecurity::Http => true,
            _ => false,
        }
    }

    /// Whether the configuration is considered secure: all but `HttpInsecure`.
    pub fn is_secure(&self) -> (r: bool)
        ensures
            r == (*self != TransportSecurity::HttpInsecure),
    {
        match self {
            TransportSecurity::HttpInsecure => false,
            _ => true,
        }
    }
}

/// The WSMan address `{scheme}://{server}:{port}/wsman`, followed by `?{query}` when a
/// query is given (leading `?` characters of the query are dropped).
pub open spec fn wsman_address(
    scheme: Scheme,
    server: Seq<char>,
    port: u16,
    query: Option<Seq<char>>,
) -> Seq<char> {
    let base = scheme_text(scheme) + "://"@ + server + ":"@ + decimal(port as nat) + "/wsman"@;
    match query {
        Some(q) => base + "?"@ + trim_leading_question_marks(q),
        None => base,
    }
}

/// `q` without its leading `?` characters.
pub open spec fn trim_leading_question_marks(q: Seq<char>) -> Seq<char>
    decreases q.len(),
{
    if q.len() > 0 && q[0] == '?' {
        trim_leading_question_marks(q.drop_first())
    } else {
        q
    }
}

/// The shell resource URI of a PowerShell session configuration (JEA endpoint);
/// `Microsoft.PowerShell` when none is configured.
pub open spec fn shell_resource_uri_spec(configuration_name: Option<Seq<char>>) -> Seq<char> {
    "http://schemas.microsoft.com/powershell/"@ + match configuration_name {
        Some(n) => n,
        None => "Microsoft.PowerShell"@,
    }
}

/// The WinRM client configuration (the host description and the operation timeout are
/// held by the message layer that renders the SOAP envelopes).
#[derive(Debug)]
pub struct WinRmConfig {
    pub server: (ServerAddress, u16),
    pub transport: TransportSecurity,
    pub authentication: AuthenticatorConfig,
    /// TLS behaviour for HTTPS transports; ignored for plain HTTP.
    pub tls: TlsOptions,
    /// PowerShell session configuration (JEA endpoint) name; `None` means
    /// `Microsoft.PowerShell`.
    pub configuration_name: Option<String>,
}

fn trim_question_marks(q: &str) -> (r: &str)
    ensures
        r@ == trim_leading_question_marks(q@),
{
    let n = q.unicode_len();
    let mut i: usize = 0;
    proof {
        assert(q@.subrange(0, n as int) =~= q@);
    }
    while i < n && q.get_char(i) == '?'
        invariant
            n == q@.len(),
            i <= n,
            trim_leading_question_marks(q@) == trim_leading_question_marks(q@.subrange(i as int, n as int)),
        decreases n - i,
    {
        proof {
            let s = q@.subrange(i as int, n as int);
            assert(s.drop_first() =~= q@.subrange(i + 1, n as int));
        }
        i = i + 1;
    }
    proof {
        assert(q@.subrange(i as int, n as int) =~= q@.skip(i as int));
        if i < n {
            assert(q@[i as int] != '?');
        }
    }
    q.substring_char(i, n)
}

impl WinRmConfig {
    /// The WSMan address of the endpoint, with an optional query.
    pub fn wsman_to(&self, query: Option<&str>) -> (r: String)
        ensures
            r@ == wsman_address(
                self.transport.spec_scheme(),
                self.server.0.text(),
                self.server.1,
                match query {
                    Some(q) => Some(q@),
                    None => None,
                },
            ),
    {
        proof {
            reveal_strlit("http");
            reveal_strlit("https");
            reveal_strlit("://");
            reveal_strlit(":");
            reveal_strlit("/wsman");
            reveal_strlit("?");
        }
        let scheme = match self.transport.scheme() {
            Scheme::Http => String::from_str("http"),
            Scheme::Https => String::from_str("https"),
        };
        let server = self.server.0.to_text();
        let port = decimal_string(self.server.1 as u64);
        let base = scheme.concat("://").concat(server.as_str()).concat(":").concat(port.as_str()).concat(
            "/wsman",
        );
        match query {
            Some(q) => base.concat("?").concat(trim_question_marks(q)),
            None => base,
        }
    }

    /// The shell resource URI for the configured session configuration.
    pub fn shell_resource_uri(&self) -> (r: String)
        ensures
            r@ == shell_resource_uri_spec(
                match self.configuration_name {
                    Some(n) => Some(n@),
                    None => None,
                },
            ),
    {
        proof {
            reveal_strlit("http://schemas.microsoft.com/powershell/");
            reveal_strlit("Microsoft.PowerShell");
        }
        let base = String::from_str("http://schemas.microsoft.com/powershell/");
        match &self.configuration_name {
            Some(name) => base.concat(name.as_str()),
            None => base.concat("Microsoft.PowerShell"),
        }
    }
}

} // verus!
