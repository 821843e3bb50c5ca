//! The client side of an SSPI handshake: the package with its outbound credentials, the
//! target name, and the token buffers of the current `InitializeSecurityContext` round.
use vstd::prelude::*;
use vstd::string::*;

use sspi::{CredentialUse, Sspi};

use crate::connector::auth::{
    first_negotiate_token, negotiate_header, parse_negotiate_token, sspi_target_name, ActionReqired, SspiAuthenticator,
    SspiConfig, SspiStatus,
};
use crate::connector::config::SspiAuthConfig;
use crate::connector::encryption::{AuthContext, SealingContext};
use crate::connector::http::{headers_view, HttpResponse};
use crate::credentials::ClientAuthIdentity;
use crate::error::PwshCoreError;

verus! {

#[verifier::external_type_specification]
#[verifier::external_body]
pub struct ExAuthIdentityBuffers(sspi::AuthIdentityBuffers);

#[verifier::external_type_specification]
#[verifier::external_body]
pub struct ExCredentialsBuffers(sspi::CredentialsBuffers);

/// `sspi::Ntlm::new`: a fresh NTLM client package. Nothing is stated of it.
#[verifier::external_body]
fn ntlm_package() -> (r: sspi::Ntlm) {
    sspi::Ntlm::new()
}

/// `sspi::Kerberos::new_client_from_config` on `sspi::KerberosConfig::new_with_kdc_url`:
/// the KDC is the given address (`tcp://` is assumed without a scheme; an address that is
/// no URL leaves the KDC to DNS discovery). A package or sspi's error; nothing is stated
/// of which.
#[verifier::external_body]
fn kerberos_package_with_kdc(kdc_url: &str, client_computer_name: String) -> (r: Result<sspi::Kerberos, sspi::Error>) {
    sspi::Kerberos::new_client_from_config(sspi::KerberosConfig::new_with_kdc_url(kdc_url, client_computer_name))
}

/// `sspi::Kerberos::new_client_from_config` with the KDC found through DNS
/// (`KdcResolution::KdcUrl(None)`). A package or sspi's error; nothing is stated of which.
#[verifier::external_body]
fn kerberos_package_discovering(client_computer_name: String) -> (r: Result<sspi::Kerberos, sspi::Error>) {
    let config = sspi::KerberosConfig { kdc_resolution: sspi::KdcResolution::KdcUrl(None), client_computer_name };
    sspi::Kerberos::new_client_from_config(config)
}

/// `sspi::Negotiate::new_client` on `NegotiateConfig::from_protocol_config` with Kerberos
/// (`KerberosConfig::new_with_kdc_url`) as the preferred protocol. A package or sspi's
/// error; nothing is stated of which.
#[verifier::external_body]
fn negotiate_package_kerberos_with_kdc(kdc_url: &str, kerberos_computer_name: String, client_computer_name: String) -> (r:
    Result<sspi::Negotiate, sspi::Error>) {
    let kerberos = sspi::KerberosConfig::new_with_kdc_url(kdc_url, kerberos_computer_name);
    sspi::Negotiate::new_client(sspi::NegotiateConfig::from_protocol_config(Box::new(kerberos), client_computer_name))
}

/// `sspi::Negotiate::new_client` on `NegotiateConfig::from_protocol_config` with Kerberos,
/// its KDC found through DNS, as the preferred protocol. A package or sspi's error;
/// nothing is stated of which.
#[verifier::external_body]
fn negotiate_package_kerberos_discovering(kerberos_computer_name: String, client_computer_name: String) -> (r: Result<
    sspi::Negotiate,
    sspi::Error,
>) {
    let kerberos = sspi::KerberosConfig { kdc_resolution: sspi::KdcResolution::KdcUrl(None), client_computer_name: kerberos_computer_name };
    sspi::Negotiate::new_client(sspi::NegotiateConfig::from_protocol_config(Box::new(kerberos), client_computer_name))
}

/// `sspi::Negotiate::new_client` on `NegotiateConfig::from_protocol_config` with NTLM
/// (`NtlmConfig::new` on the computer name). A package or sspi's error; nothing is stated
/// of which.
#[verifier::external_body]
fn negotiate_package_ntlm(client_computer_name: String) -> (r: Result<sspi::Negotiate, sspi::Error>) {
    let ntlm = sspi::ntlm::NtlmConfig::new(client_computer_name.clone());
    sspi::Negotiate::new_client(sspi::NegotiateConfig::from_protocol_config(Box::new(ntlm), client_computer_name))
}

/// `whoami::hostname`, with the error turned into its message. What comes back depends
/// on the machine; nothing is stated of it.
#[verifier::external_body]
fn local_hostname() -> (r: Result<String, String>) {
    whoami::hostname().map_err(|e| e.to_string())
}

/// `Sspi::acquire_credentials_handle` for outbound use on an NTLM package, with the
/// identity whose user name is `sspi::Username::parse(username)`. Nothing is stated of
/// the handle or of sspi's error.
#[verifier::external_body]
fn ntlm_credentials(provider: &mut sspi::Ntlm, username: &str, password: &str) -> (r: Result<
    Option<sspi::AuthIdentityBuffers>,
    sspi::Error,
>) {
    let id = sspi::AuthIdentity { username: sspi::Username::parse(username)?, password: password.to_owned().into() };
    let acq = provider.acquire_credentials_handle().with_credential_use(CredentialUse::Outbound).with_auth_data(&id);
    Ok(acq.execute(provider)?.credentials_handle)
}

/// `Sspi::acquire_credentials_handle` for outbound use on a Kerberos package, with
/// `Credentials::AuthIdentity` of the parsed user name and the password. Nothing is
/// stated of the handle or of sspi's error.
#[verifier::external_body]
fn kerberos_credentials(provider: &mut sspi::Kerberos, username: &str, password: &str) -> (r: Result<
    Option<sspi::CredentialsBuffers>,
    sspi::Error,
>) {
    let id = sspi::AuthIdentity { username: sspi::Username::parse(username)?, password: password.to_owned().into() };
    let creds = sspi::Credentials::AuthIdentity(id);
    let acq = provider.acquire_credentials_handle().with_credential_use(CredentialUse::Outbound).with_auth_data(&creds);
    Ok(acq.execute(provider)?.credentials_handle)
}

/// `Sspi::acquire_credentials_handle` for outbound use on a Negotiate package, with
/// `Credentials::AuthIdentity` of the parsed user name and the password. Nothing is
/// stated of the handle or of sspi's error.
#[verifier::external_body]
fn negotiate_credentials(provider: &mut sspi::Negotiate, username: &str, password: &str) -> (r: Result<
    Option<sspi::CredentialsBuffers>,
    sspi::Error,
>) {
    let id = sspi::AuthIdentity { username: sspi::Username::parse(username)?, password: password.to_owned().into() };
    let creds = sspi::Credentials::AuthIdentity(id);
    let acq = provider.acquire_credentials_handle().with_credential_use(CredentialUse::Outbound).with_auth_data(&creds);
    Ok(acq.execute(provider)?.credentials_handle)
}

/// An SSPI package together with the outbound credentials handle acquired on it.
#[derive(Debug)]
pub enum SspiPackage {
    Ntlm { provider: sspi::Ntlm, cred: Option<sspi::AuthIdentityBuffers> },
    Kerberos { provider: sspi::Kerberos, cred: Option<sspi::CredentialsBuffers> },
    Negotiate { provider: sspi::Negotiate, cred: Option<sspi::CredentialsBuffers> },
}

/// The package tag of an `SspiPackage`.
#[derive(Debug, Clone, Copy, PartialEq, Eq, Structural)]
pub enum PackageKind {
    Ntlm,
    Kerberos,
    Negotiate,
}

impl SspiPackage {
    pub open spec fn kind(&self) -> PackageKind {
        match self {
            SspiPackage::Ntlm { .. } => PackageKind::Ntlm,
            SspiPackage::Kerberos { .. } => PackageKind::Kerberos,
            SspiPackage::Negotiate { .. } => PackageKind::Negotiate,
        }
    }
}

/// The `ISC_REQ_*` bits that `InitializeSecurityContext` is asked for.
pub const ISC_REQ_MUTUAL_AUTH: u32 = 0x2;
pub const ISC_REQ_CONFIDENTIALITY: u32 = 0x10;
pub const ISC_REQ_ALLOCATE_MEMORY: u32 = 0x100;
pub const ISC_REQ_INTEGRITY: u32 = 0x1_0000;

/// The context requirements of a round: memory allocated by the package and mutual
/// authentication, and, when the session is sealed, confidentiality and integrity.
pub open spec fn context_requirements_spec(require_encryption: bool) -> u32 {
    if require_encryption {
        (ISC_REQ_ALLOCATE_MEMORY | ISC_REQ_MUTUAL_AUTH | ISC_REQ_CONFIDENTIALITY | ISC_REQ_INTEGRITY) as u32
    } else {
        (ISC_REQ_ALLOCATE_MEMORY | ISC_REQ_MUTUAL_AUTH) as u32
    }
}

pub fn context_requirements(require_encryption: bool) -> (r: u32)
    ensures
        r == context_requirements_spec(require_encryption),
{
    if require_encryption {
        ISC_REQ_ALLOCATE_MEMORY | ISC_REQ_MUTUAL_AUTH | ISC_REQ_CONFIDENTIALITY | ISC_REQ_INTEGRITY
    } else {
        ISC_REQ_ALLOCATE_MEMORY | ISC_REQ_MUTUAL_AUTH
    }
}

/// What the caller holds between `InitializeSecurityContext` rounds: the package with
/// its credentials, the token the package produced last (`out`), the server token for
/// the next round (`inbuf`) and the target.
#[derive(Debug)]
pub struct SspiContext {
    pub package: SspiPackage,
    pub out: Vec<u8>,
    pub inbuf: Option<Vec<u8>>,
    pub sspi_auth_config: SspiConfig,
}

/// The error that an sspi failure becomes.
fn sspi_failure(e: sspi::Error) -> (r: PwshCoreError)
    ensures
        r is SspiError,
{
    PwshCoreError::SspiError(e)
}

impl SspiContext {
    /// A context on a fresh NTLM package with credentials for `id`.
    pub fn new_ntlm(id: ClientAuthIdentity, config: SspiConfig) -> (r: Result<Self, PwshCoreError>)
        ensures
            match r {
                Ok(c) => c.package.kind() == PackageKind::Ntlm && c.out@.len() == 0 && c.inbuf is None
                    && c.sspi_auth_config == config,
                Err(e) => e is SspiError,
            },
    {
        let mut provider = ntlm_package();
        match ntlm_credentials(&mut provider, id.username.inner(), id.password.as_str()) {
            Ok(cred) => Ok(
                SspiContext {
                    package: SspiPackage::Ntlm { provider, cred },
                    out: Vec::new(),
                    inbuf: None,
                    sspi_auth_config: config,
                },
            ),
            Err(e) => Err(sspi_failure(e)),
        }
    }

    /// A context on a Kerberos package with the given KDC settings (a KDC address, or
    /// discovery through DNS without one), with credentials for `id`.
    pub fn new_kerberos(
        id: ClientAuthIdentity,
        kerberos_config: crate::connector::config::KerberosConfig,
        config: SspiConfig,
    ) -> (r: Result<Self, PwshCoreError>)
        ensures
            match r {
                Ok(c) => c.package.kind() == PackageKind::Kerberos && c.out@.len() == 0 && c.inbuf is None
                    && c.sspi_auth_config == config,
                Err(e) => e is SspiError,
            },
    {
        let made = match kerberos_config.kdc_url {
            Some(url) => kerberos_package_with_kdc(url.as_str(), kerberos_config.client_computer_name),
            None => kerberos_package_discovering(kerberos_config.client_computer_name),
        };
        let mut provider = match made {
            Ok(p) => p,
            Err(e) => return Err(sspi_failure(e)),
        };
        match kerberos_credentials(&mut provider, id.username.inner(), id.password.as_str()) {
            Ok(cred) => Ok(
                SspiContext {
                    package: SspiPackage::Kerberos { provider, cred },
                    out: Vec::new(),
                    inbuf: None,
                    sspi_auth_config: config,
                },
            ),
            Err(e) => Err(sspi_failure(e)),
        }
    }

    /// A context on a Negotiate package on behalf of `client_computer_name`, which prefers
    /// Kerberos (with its KDC settings) when Kerberos settings are given and uses NTLM
    /// otherwise, with credentials for `id`.
    pub fn new_negotiate(
        id: ClientAuthIdentity,
        kerberos_config: Option<crate::connector::config::KerberosConfig>,
        client_computer_name: String,
        config: SspiConfig,
    ) -> (r: Result<Self, PwshCoreError>)
        ensures
            match r {
                Ok(c) => c.package.kind() == PackageKind::Negotiate && c.out@.len() == 0 && c.inbuf is None
                    && c.sspi_auth_config == config,
                Err(e) => e is SspiError,
            },
    {
        let made = match kerberos_config {
            Some(kc) => match kc.kdc_url {
                Some(url) => negotiate_package_kerberos_with_kdc(url.as_str(), kc.client_computer_name, client_computer_name),
                None => negotiate_package_kerberos_discovering(kc.client_computer_name, client_computer_name),
            },
            None => negotiate_package_ntlm(client_computer_name),
        };
        let mut provider = match made {
            Ok(p) => p,
            Err(e) => return Err(sspi_failure(e)),
        };
        match negotiate_credentials(&mut provider, id.username.inner(), id.password.as_str()) {
            Ok(cred) => Ok(
                SspiContext {
                    package: SspiPackage::Negotiate { provider, cred },
                    out: Vec::new(),
                    inbuf: None,
                    sspi_auth_config: config,
                },
            ),
            Err(e) => Err(sspi_failure(e)),
        }
    }

    /// The context that an SSPI configuration asks for: NTLM, Kerberos, or Negotiate on
    /// behalf of the local host name. The target becomes the SPN.
    pub fn new(sspi_config: SspiAuthConfig) -> (r: Result<Self, PwshCoreError>)
        ensures
            match r {
                Ok(c) => c.out@.len() == 0 && c.inbuf is None && match sspi_config {
                        SspiAuthConfig::NTLM { target, .. } => c.package.kind() == PackageKind::Ntlm
                            && c.sspi_auth_config.target_name@ == sspi_target_name(target@),
                        SspiAuthConfig::Kerberos { target, .. } => c.package.kind() == PackageKind::Kerberos
                            && c.sspi_auth_config.target_name@ == sspi_target_name(target@),
                        SspiAuthConfig::Negotiate { target, .. } => c.package.kind() == PackageKind::Negotiate
                            && c.sspi_auth_config.target_name@ == sspi_target_name(target@),
                    },
                Err(e) => e is SspiError || (sspi_config is Negotiate && e is InternalError),
            },
    {
        match sspi_config {
            SspiAuthConfig::NTLM { target, identity } => Self::new_ntlm(identity, SspiConfig::new(target)),
            SspiAuthConfig::Kerberos { target, identity, kerberos_config } => {
                Self::new_kerberos(identity, kerberos_config, SspiConfig::new(target))
            },
            SspiAuthConfig::Negotiate { target, identity, kerberos_config } => {
                let sspi_cfg = SspiConfig::new(target);
                let client_computer_name = match local_hostname() {
                    Ok(h) => h,
                    Err(msg) => {
                        proof {
                            reveal_strlit("Failed to get local hostname: ");
                        }
                        return Err(
                            PwshCoreError::InternalError(
                                String::from_str("Failed to get local hostname: ").concat(msg.as_str()),
                            ),
                        );
                    },
                };
                Self::new_negotiate(identity, kerberos_config, client_computer_name, sspi_cfg)
            },
        }
    }

    /// Readies the context for the next round: no server token, no produced token.
    pub fn clear_for_next_round(&mut self)
        ensures
            final(self).inbuf is None,
            final(self).out@.len() == 0,
            final(self).package == old(self).package,
            final(self).sspi_auth_config == old(self).sspi_auth_config,
    {
        self.inbuf = None;
        self.out.clear();
    }

    /// Takes the server's Negotiate token from a response, when there is a response. A
    /// response without a valid token is refused; without a response nothing changes.
    pub fn take_input(&mut self, response: Option<&HttpResponse>) -> (r: Result<(), PwshCoreError>)
        ensures
            final(self).package == old(self).package,
            final(self).out == old(self).out,
            final(self).sspi_auth_config == old(self).sspi_auth_config,
            match response {
                None => r is Ok && final(self).inbuf == old(self).inbuf,
                Some(resp) => match first_negotiate_token(headers_view(resp.headers@)) {
                    Some(t) => r is Ok && (final(self).inbuf matches Some(b) && b@ == t),
                    None => r == Err::<(), PwshCoreError>(PwshCoreError::Auth("no Negotiate token"))
                        && final(self).inbuf == old(self).inbuf,
                },
            },
    {
        if let Some(resp) = response {
            match parse_negotiate_token(&resp.headers) {
                Some(token) => {
                    self.inbuf = Some(token);
                },
                None => {
                    return Err(PwshCoreError::Auth("no Negotiate token"));
                },
            }
        }
        Ok(())
    }

    /// After a round completed with `status`: hands the produced token over (the buffer
    /// is left empty) and decides what the handshake needs next.
    pub fn finish_round(&mut self, status: SspiStatus) -> (r: Result<ActionReqired, PwshCoreError>)
        ensures
            final(self).out@.len() == 0,
            final(self).package == old(self).package,
            final(self).inbuf == old(self).inbuf,
            final(self).sspi_auth_config == old(self).sspi_auth_config,
            match status {
                SspiStatus::ContinueNeeded => match negotiate_header(old(self).out@) {
                    Some(h) => r matches Ok(ActionReqired::TryInitSecContextAgain { token }) && token.0@ == h,
                    None => r matches Err(PwshCoreError::Auth(_)),
                },
                SspiStatus::Complete => r matches Ok(ActionReqired::Done { token }) && match negotiate_header(
                    old(self).out@,
                ) {
                    Some(h) => token matches Some(t) && t.0@ == h,
                    None => token is None,
                },
                SspiStatus::Other => r matches Err(PwshCoreError::Auth(_)),
            },
    {
        let mut produced: Vec<u8> = Vec::new();
        std::mem::swap(&mut produced, &mut self.out);
        SspiAuthenticator::process_initialized_sec_context(produced.as_slice(), status)
    }

    /// The established package, for sealing once the handshake is over.
    pub fn into_auth_context(self) -> (r: AuthContext)
        ensures
            r.sealed_log().len() == 0,
            r.opened_log().len() == 0,
            match self.package {
                SspiPackage::Ntlm { provider, .. } => r matches AuthContext::Ntlm(c) && c.provider() == provider,
                SspiPackage::Kerberos { provider, .. } => r matches AuthContext::Kerberos(c) && c.provider()
                    == provider,
                SspiPackage::Negotiate { provider, .. } => r matches AuthContext::Negotiate(c) && c.provider()
                    == provider,
            },
    {
        match self.package {
            SspiPackage::Ntlm { provider, .. } => AuthContext::Ntlm(SealingContext::new(provider)),
            SspiPackage::Kerberos { provider, .. } => AuthContext::Kerberos(SealingContext::new(provider)),
            SspiPackage::Negotiate { provider, .. } => AuthContext::Negotiate(SealingContext::new(provider)),
        }
    }
}

} // verus!
