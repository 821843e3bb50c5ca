//! Client credentials: user names in the two Windows formats, and the identity (user
//! name and password) handed to the SSPI packages.
use vstd::prelude::*;

use crate::error::PwshCoreError;

verus! {

/// The two Windows user name formats.
#[derive(Debug, Clone, Copy, PartialEq, Eq, Structural)]
pub enum UserNameFormat {
    /// `account@suffix`.
    UserPrincipalName,
    /// `DOMAIN\account`, or a bare account name.
    DownLevelLogonName,
}

/// A user name as the SSPI packages read it: its text, its format, the account name and
/// the domain part (the UPN suffix or the NetBIOS domain).
#[derive(Debug, Clone)]
pub struct ClientUserName {
    value: String,
    format: UserNameFormat,
    account: String,
    domain: Option<String>,
}

/// Whether `s` holds the character `c`.
pub open spec fn holds(s: Seq<char>, c: char) -> bool {
    s.contains(c)
}

/// The view of an optional string.
pub open spec fn opt_text(o: Option<String>) -> Option<Seq<char>> {
    match o {
        Some(s) => Some(s@),
        None => None,
    }
}

/// Whether `sspi::Username::new_upn` accepts the two parts.
pub open spec fn upn_accepted(account: Seq<char>, suffix: Seq<char>) -> bool {
    !holds(account, '\\') && !holds(suffix, '\\') && !holds(suffix, '@')
}

/// Whether `sspi::Username::new_down_level_logon_name` accepts the two parts.
pub open spec fn down_level_accepted(account: Seq<char>, domain: Seq<char>) -> bool {
    &&& !holds(account, '\\')
    &&& !(domain.len() == 0 && holds(account, '@'))
    &&& !holds(domain, '\\')
    &&& !holds(domain, '@')
}

/// A text without `\` and `@`.
pub open spec fn is_bare_name(value: Seq<char>) -> bool {
    !holds(value, '\\') && !holds(value, '@')
}

/// The parts of a bare down-level account name.
pub open spec fn bare_name_parts(value: Seq<char>) -> (Seq<char>, bool, Seq<char>, Option<Seq<char>>) {
    (value, false, value, None)
}

/// The index of the first `c` in `s`.
pub open spec fn first_index_of(s: Seq<char>, c: char) -> Option<int>
    decreases s.len(),
{
    if s.len() == 0 {
        None
    } else if s[0] == c {
        Some(0)
    } else {
        match first_index_of(s.drop_first(), c) {
            Some(i) => Some(i + 1),
            None => None,
        }
    }
}

/// The index of the last `c` in `s`.
pub open spec fn last_index_of(s: Seq<char>, c: char) -> Option<int>
    decreases s.len(),
{
    if s.len() == 0 {
        None
    } else if s.last() == c {
        Some(s.len() - 1)
    } else {
        last_index_of(s.drop_last(), c)
    }
}

/// The text `sspi::Username::parse` reads: a leading `.\` is dropped when what follows
/// holds another `\`.
pub open spec fn without_local_qualifier(value: Seq<char>) -> Seq<char> {
    if value.len() >= 2 && value[0] == '.' && value[1] == '\\' && holds(value.skip(2), '\\') {
        value.skip(2)
    } else {
        value
    }
}

/// What `sspi::Username::parse` makes of a text, as (text, is a UPN, account name,
/// domain part), or `None` when it refuses the text: split at the first `\` into a
/// NetBIOS domain and an account name (a down-level logon name); else at the last `@`
/// into an account name and a UPN suffix; else the text is a bare account name.
pub open spec fn sspi_username_parse(value: Seq<char>) -> Option<(Seq<char>, bool, Seq<char>, Option<Seq<char>>)> {
    let v = without_local_qualifier(value);
    match first_index_of(v, '\\') {
        Some(i) => {
            let domain = v.take(i);
            let account = v.skip(i + 1);
            if down_level_accepted(account, domain) {
                Some(
                    if domain.len() == 0 {
                        (account, false, account, None)
                    } else {
                        (domain + "\\"@ + account, false, account, Some(domain))
                    },
                )
            } else {
                None
            }
        },
        None => match last_index_of(v, '@') {
            Some(j) => {
                let account = v.take(j);
                let suffix = v.skip(j + 1);
                if upn_accepted(account, suffix) {
                    Some((account + "@"@ + suffix, true, account, Some(suffix)))
                } else {
                    None
                }
            },
            None => Some((v, false, v, None)),
        },
    }
}

proof fn lemma_absent_has_no_index(s: Seq<char>, c: char)
    requires
        !holds(s, c),
    ensures
        first_index_of(s, c) is None,
        last_index_of(s, c) is None,
    decreases s.len(),
{
    if s.len() > 0 {
        assert(s[0] != c && s.last() != c) by {
            assert(s[0] == c ==> s.contains(c));
            assert(s.last() == c ==> s.contains(c));
        }
        assert(!holds(s.drop_first(), c)) by {
            if s.drop_first().contains(c) {
                let k = choose|k: int| 0 <= k < s.drop_first().len() && s.drop_first()[k] == c;
                assert(s[k + 1] == c);
            }
        }
        assert(!holds(s.drop_last(), c)) by {
            if s.drop_last().contains(c) {
                let k = choose|k: int| 0 <= k < s.drop_last().len() && s.drop_last()[k] == c;
                assert(s[k] == c);
            }
        }
        lemma_absent_has_no_index(s.drop_first(), c);
        lemma_absent_has_no_index(s.drop_last(), c);
    }
}

/// A text without `\` and `@` parses as the bare account name it is.
pub proof fn lemma_bare_name_parses(value: Seq<char>)
    requires
        is_bare_name(value),
    ensures
        sspi_username_parse(value) == Some(bare_name_parts(value)),
{
    if value.len() >= 2 && value[1] == '\\' {
        assert(value.contains('\\'));
    }
    assert(without_local_qualifier(value) == value);
    lemma_absent_has_no_index(value, '\\');
    lemma_absent_has_no_index(value, '@');
}

impl ClientUserName {
    /// The text of the name.
    pub closed spec fn spec_value(&self) -> Seq<char> {
        self.value@
    }

    /// The format of the name.
    pub closed spec fn spec_format(&self) -> UserNameFormat {
        self.format
    }

    /// The account name.
    pub closed spec fn spec_account(&self) -> Seq<char> {
        self.account@
    }

    /// The UPN suffix or NetBIOS domain, when the name has one.
    pub closed spec fn spec_domain(&self) -> Option<Seq<char>> {
        opt_text(self.domain)
    }

    /// The four parts, as `sspi_username_parse` gives them.
    pub open spec fn spec_parts(&self) -> (Seq<char>, bool, Seq<char>, Option<Seq<char>>) {
        (self.spec_value(), self.spec_format() == UserNameFormat::UserPrincipalName, self.spec_account(), self.spec_domain())
    }
}

/// `sspi::Username::new_upn`: refuses an account name holding `\` and a suffix holding
/// `\` or `@`; otherwise gives `account@suffix` in UPN format, whose account name is the
/// account and whose domain part is the suffix.
#[verifier::external_body]
#[allow(deprecated)]
fn sspi_new_upn(account_name: &str, upn_suffix: &str) -> (r: Result<ClientUserName, sspi::Error>)
    ensures
        r is Ok <==> upn_accepted(account_name@, upn_suffix@),
        r matches Ok(n) ==> n.spec_parts() == (account_name@ + "@"@ + upn_suffix@, true, account_name@, Some(upn_suffix@)),
{
    match sspi::Username::new_upn(account_name, upn_suffix) {
        Ok(u) => Ok(ClientUserName {
            value: u.inner().to_owned(),
            format: match u.format() {
                sspi::UserNameFormat::UserPrincipalName => UserNameFormat::UserPrincipalName,
                sspi::UserNameFormat::DownLevelLogonName => UserNameFormat::DownLevelLogonName,
            },
            account: u.account_name().to_owned(),
            domain: u.domain_name().map(|d| d.to_owned()),
        }),
        Err(e) => Err(sspi::Error::from(e)),
    }
}

/// `sspi::Username::new_down_level_logon_name`: refuses an account name holding `\`, an
/// account name holding `@` without a domain, and a domain holding `\` or `@`. Otherwise
/// an empty domain gives the bare account name, and a domain gives `DOMAIN\account`.
#[verifier::external_body]
#[allow(deprecated)]
fn sspi_new_down_level(account_name: &str, netbios_domain_name: &str) -> (r: Result<ClientUserName, sspi::Error>)
    ensures
        r is Ok <==> down_level_accepted(account_name@, netbios_domain_name@),
        r matches Ok(n) ==> n.spec_parts() == (if netbios_domain_name@.len() == 0 {
            (account_name@, false, account_name@, None)
        } else {
            (netbios_domain_name@ + "\\"@ + account_name@, false, account_name@, Some(netbios_domain_name@))
        }),
{
    match sspi::Username::new_down_level_logon_name(account_name, netbios_domain_name) {
        Ok(u) => Ok(ClientUserName {
            value: u.inner().to_owned(),
            format: match u.format() {
                sspi::UserNameFormat::UserPrincipalName => UserNameFormat::UserPrincipalName,
                sspi::UserNameFormat::DownLevelLogonName => UserNameFormat::DownLevelLogonName,
            },
            account: u.account_name().to_owned(),
            domain: u.domain_name().map(|d| d.to_owned()),
        }),
        Err(e) => Err(sspi::Error::from(e)),
    }
}

/// `sspi::Username::parse`: the name that the text denotes (named by
/// `sspi_username_parse`). A text without `\` and `@` is a bare down-level account name.
#[verifier::external_body]
#[allow(deprecated)]
fn sspi_parse(value: &str) -> (r: Result<ClientUserName, sspi::Error>)
    ensures
        match r {
            Ok(n) => sspi_username_parse(value@) == Some(n.spec_parts()),
            Err(_) => sspi_username_parse(value@) is None,
        },
{
    match sspi::Username::parse(value) {
        Ok(u) => Ok(ClientUserName {
            value: u.inner().to_owned(),
            format: match u.format() {
                sspi::UserNameFormat::UserPrincipalName => UserNameFormat::UserPrincipalName,
                sspi::UserNameFormat::DownLevelLogonName => UserNameFormat::DownLevelLogonName,
            },
            account: u.account_name().to_owned(),
            domain: u.domain_name().map(|d| d.to_owned()),
        }),
        Err(e) => Err(sspi::Error::from(e)),
    }
}

impl ClientUserName {
    /// A user principal name `account@suffix`.
    pub fn new_upn(account_name: &str, upn_suffix: &str) -> (r: Result<Self, PwshCoreError>)
        ensures
            match r {
                Ok(n) => upn_accepted(account_name@, upn_suffix@) && n.spec_parts() == (
                    account_name@ + "@"@ + upn_suffix@,
                    true,
                    account_name@,
                    Some(upn_suffix@),
                ),
                Err(e) => !upn_accepted(account_name@, upn_suffix@) && e == PwshCoreError::UsernameError(
                    "failed to create UPN username",
                ),
            },
    {
        match sspi_new_upn(account_name, upn_suffix) {
            Ok(n) => Ok(n),
            Err(_) => Err(PwshCoreError::UsernameError("failed to create UPN username")),
        }
    }

    /// A down-level logon name `DOMAIN\account`.
    pub fn new_down_level_logon_name(account_name: &str, netbios_domain_name: &str) -> (r: Result<Self, PwshCoreError>)
        ensures
            match r {
                Ok(n) => down_level_accepted(account_name@, netbios_domain_name@) && n.spec_parts() == (
                    if netbios_domain_name@.len() == 0 {
                        (account_name@, false, account_name@, None)
                    } else {
                        (netbios_domain_name@ + "\\"@ + account_name@, false, account_name@, Some(netbios_domain_name@))
                    }),
                Err(e) => !down_level_accepted(account_name@, netbios_domain_name@) && e == PwshCoreError::UsernameError(
                    "failed to create down-level logon name",
                ),
            },
    {
        match sspi_new_down_level(account_name, netbios_domain_name) {
            Ok(n) => Ok(n),
            Err(_) => Err(PwshCoreError::UsernameError("failed to create down-level logon name")),
        }
    }

    /// With a non-empty NetBIOS domain, the down-level logon name `DOMAIN\account`;
    /// otherwise the account name is parsed as either format.
    pub fn new(account_name: &str, netbios_domain_name: Option<&str>) -> (r: Result<Self, PwshCoreError>)
        ensures
            match netbios_domain_name {
                Some(d) if d@.len() > 0 => match r {
                    Ok(n) => down_level_accepted(account_name@, d@) && n.spec_parts() == (
                        d@ + "\\"@ + account_name@,
                        false,
                        account_name@,
                        Some(d@),
                    ),
                    Err(e) => !down_level_accepted(account_name@, d@) && e == PwshCoreError::UsernameError(
                        "failed to create down-level logon name",
                    ),
                },
                _ => match r {
                    Ok(n) => sspi_username_parse(account_name@) == Some(n.spec_parts()),
                    Err(e) => sspi_username_parse(account_name@) is None && e == PwshCoreError::UsernameError(
                        "failed to parse username",
                    ),
                },
            },
    {
        match netbios_domain_name {
            Some(d) => {
                if d.unicode_len() > 0 {
                    return Self::new_down_level_logon_name(account_name, d);
                }
            },
            None => {},
        }
        Self::parse(account_name)
    }

    /// Reads `value` as a user principal name or a down-level logon name; without `\` or
    /// `@` it is a bare down-level account name.
    pub fn parse(value: &str) -> (r: Result<Self, PwshCoreError>)
        ensures
            match r {
                Ok(n) => sspi_username_parse(value@) == Some(n.spec_parts()),
                Err(e) => sspi_username_parse(value@) is None && e == PwshCoreError::UsernameError(
                    "failed to parse username",
                ),
            },
            is_bare_name(value@) ==> (r matches Ok(n) && n.spec_parts() == bare_name_parts(value@)),
    {
        proof {
            if is_bare_name(value@) {
                lemma_bare_name_parses(value@);
            }
        }
        match sspi_parse(value) {
            Ok(n) => Ok(n),
            Err(_) => Err(PwshCoreError::UsernameError("failed to parse username")),
        }
    }

    /// The text of the name, as it is.
    pub fn inner(&self) -> (r: &str)
        ensures
            r@ == self.spec_value(),
    {
        self.value.as_str()
    }

    /// The format of the name.
    pub fn format(&self) -> (r: UserNameFormat)
        ensures
            r == self.spec_format(),
    {
        self.format
    }

    /// The UPN suffix or the NetBIOS domain, depending on the format.
    pub fn domain_name(&self) -> (r: Option<&str>)
        ensures
            match r {
                Some(d) => self.spec_domain() == Some(d@),
                None => self.spec_domain() is None,
            },
    {
        match &self.domain {
            Some(d) => Some(d.as_str()),
            None => None,
        }
    }

    /// The account name.
    pub fn account_name(&self) -> (r: &str)
        ensures
            r@ == self.spec_account(),
    {
        self.account.as_str()
    }

    /// An identical copy.
    pub fn duplicate(&self) -> (r: Self)
        ensures
            r == *self,
    {
        let domain = match &self.domain {
            Some(d) => Some(d.clone()),
            None => None,
        };
        ClientUserName { value: self.value.clone(), format: self.format, account: self.account.clone(), domain }
    }
}

/// Credentials of the client: a user name and its password.
#[derive(Debug, Clone)]
pub struct ClientAuthIdentity {
    pub username: ClientUserName,
    pub password: String,
}

impl ClientAuthIdentity {
    pub fn new(username: ClientUserName, password: String) -> (r: Self)
        ensures
            r.username == username,
            r.password == password,
    {
        ClientAuthIdentity { username, password }
    }

    /// An identical copy.
    pub fn duplicate(&self) -> (r: Self)
        ensures
            r == *self,
    {
        ClientAuthIdentity { username: self.username.duplicate(), password: self.password.clone() }
    }
}

} // verus!
