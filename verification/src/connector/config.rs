//! Authentication and TLS configuration.
use vstd::prelude::*;

use crate::credentials::ClientAuthIdentity;

verus! {

/// Kerberos settings.
#[derive(Debug, Clone)]
pub struct KerberosConfig {
    /// Optional KDC URL; when absent the KDC is discovered through DNS SRV records.
    pub kdc_url: Option<String>,
    /// Client computer name.
    pub client_computer_name: String,
}


#[allow(inconsistent_fields)]
#[derive(Debug, Clone)]
pub enum SspiAuthConfig {
    NTLM { target: String, identity: ClientAuthIdentity },
    Kerberos { target: String, identity: ClientAuthIdentity, kerberos_config: KerberosConfig },
    Negotiate {
        target: String,
        identity: ClientAuthIdentity,
        kerberos_config: Option<KerberosConfig>,
    },
}

#[derive(Debug, Clone)]
pub enum AuthenticatorConfig {
    Basic { username: String, password: String },
    /// SSPI authentication (NTLM, Kerberos or Negotiate); sealing is decided by the
    /// transport security.
    Sspi(SspiAuthConfig),
}

impl AuthenticatorConfig {
    /// An identical copy.
    pub fn duplicate(&self) -> (r: Self)
        ensures
            r == *self,
    {
        match self {
            AuthenticatorConfig::Basic { username, password } => AuthenticatorConfig::Basic {
                username: username.clone(),
                password: password.clone(),
            },
            AuthenticatorConfig::Sspi(c) => AuthenticatorConfig::Sspi(c.duplicate()),
        }
    }
}

fn copy_opt_string(o: &Option<String>) -> (r: Option<String>)
    ensures
        r == *o,
{
    match o {
        Some(s) => Some(s.clone()),
        None => None,
    }
}

impl KerberosConfig {
    /// An identical copy.
    pub fn duplicate(&self) -> (r: Self)
        ensures
            r == *self,
    {
        KerberosConfig {
            kdc_url: copy_opt_string(&self.kdc_url),
            client_computer_name: self.client_computer_name.clone(),
        }
    }
}

impl SspiAuthConfig {
    /// An identical copy.
    pub fn duplicate(&self) -> (r: Self)
        ensures
            r == *self,
    {
        match self {
            SspiAuthConfig::NTLM { target, identity } => SspiAuthConfig::NTLM {
                target: target.clone(),
                identity: identity.duplicate(),
            },
            SspiAuthConfig::Kerberos { target, identity, kerberos_config } => SspiAuthConfig::Kerberos {
                target: target.clone(),
                identity: identity.duplicate(),
                kerberos_config: kerberos_config.duplicate(),
            },
            SspiAuthConfig::Negotiate { target, identity, kerberos_config } => {
                let kc = match kerberos_config {
                    Some(k) => Some(k.duplicate()),
                    None => None,
                };
                SspiAuthConfig::Negotiate { target: target.clone(), identity: identity.duplicate(), kerberos_config: kc }
            },
        }
    }
}

/// TLS behaviour for HTTPS transports.
#[derive(Debug, Clone)]
pub struct TlsOptions {
    /// Accept any server certificate (self-signed labs). Dangerous outside test use.
    pub accept_invalid_certs: bool,
    /// Skip hostname verification only.
    pub accept_invalid_hostnames: bool,
    /// Additional root CA certificate, PEM-encoded (a single certificate).
    pub extra_ca_pem: Option<Vec<u8>>,
}

impl Default for TlsOptions {
    /// The secure default: certificates and host names are verified, no extra CA.
    fn default() -> (r: Self)
        ensures
            !r.accept_invalid_certs,
            !r.accept_invalid_hostnames,
            r.extra_ca_pem is None,
    {
        TlsOptions { accept_invalid_certs: false, accept_invalid_hostnames: false, extra_ca_pem: None }
    }
}

} // verus!
