//! Authorization header values: Basic credentials, SPNEGO tokens and SSPI targets.
use vstd::prelude::*;

use crate::error::PwshCoreError;
use vstd::string::*;
use vstd::utf8::*;

use base64::Engine;

use crate::text::{eq_ignore_ascii_case, eq_ignore_ascii_case_spec};

verus! {

#[verifier::external_type_specification]
#[verifier::external_body]
pub struct ExDecodeError(base64::DecodeError);

/// The standard (RFC 4648, padded) base64 encoding of `bytes`.
pub uninterp spec fn base64_encoding(bytes: Seq<u8>) -> Seq<char>;

/// The bytes that the standard base64 text `s` decodes to, or `None` when `s` is not
/// valid standard base64.
pub uninterp spec fn base64_decoding(s: Seq<char>) -> Option<Seq<u8>>;

/// `base64::engine::general_purpose::STANDARD.encode`: the result is the standard
/// base64 encoding of the input (named by `base64_encoding`).
#[verifier::external_body]
pub(crate) fn base64_encode(bytes: &[u8]) -> (r: String)
    ensures
        r@ == base64_encoding(bytes@),
{
    base64::engine::general_purpose::STANDARD.encode(bytes)
}

/// `base64::engine::general_purpose::STANDARD.decode`: `Ok` exactly when the text is
/// valid standard base64, with the decoded bytes (named by `base64_decoding`).
#[verifier::external_body]
pub(crate) fn base64_decode(s: &str) -> (r: Result<Vec<u8>, base64::DecodeError>)
    ensures
        match r {
            Ok(v) => base64_decoding(s@) == Some(v@),
            Err(_) => base64_decoding(s@) is None,
        },
{
    base64::engine::general_purpose::STANDARD.decode(s)
}

/// Whether `c` has the Unicode `White_Space` property.
pub open spec fn is_white_space(c: char) -> bool {
    ||| '\u{9}' <= c <= '\u{d}'
    ||| c == ' '
    ||| c == '\u{85}'
    ||| c == '\u{a0}'
    ||| c == '\u{1680}'
    ||| '\u{2000}' <= c <= '\u{200a}'
    ||| c == '\u{2028}'
    ||| c == '\u{2029}'
    ||| c == '\u{202f}'
    ||| c == '\u{205f}'
    ||| c == '\u{3000}'
}

/// `s` without its leading white space.
pub open spec fn trim_start_spec(s: Seq<char>) -> Seq<char>
    decreases s.len(),
{
    if s.len() > 0 && is_white_space(s[0]) {
        trim_start_spec(s.drop_first())
    } else {
        s
    }
}

/// `s` without its trailing white space.
pub open spec fn trim_end_spec(s: Seq<char>) -> Seq<char>
    decreases s.len(),
{
    if s.len() > 0 && is_white_space(s.last()) {
        trim_end_spec(s.drop_last())
    } else {
        s
    }
}

/// `s` with leading and trailing white space removed (what `str::trim` returns).
pub open spec fn trimmed(s: Seq<char>) -> Seq<char> {
    trim_end_spec(trim_start_spec(s))
}

/// `str::trim`: the result is `s` without its leading and trailing characters of the
/// Unicode `White_Space` property.
#[verifier::external_body]
pub(crate) fn str_trim(s: &str) -> (r: &str)
    ensures
        r@ == trimmed(s@),
{
    s.trim()
}

/// Trimming the end keeps a prefix, and keeps every character up to one that is not
/// white space.
proof fn lemma_trim_end_keeps(s: Seq<char>, k: int)
    requires
        0 <= k < s.len(),
        !is_white_space(s[k]),
    ensures
        k < trim_end_spec(s).len() <= s.len(),
        trim_end_spec(s) == s.subrange(0, trim_end_spec(s).len() as int),
    decreases s.len(),
{
    if s.len() > 0 && is_white_space(s.last()) {
        assert(k < s.len() - 1);
        lemma_trim_end_keeps(s.drop_last(), k);
        assert(s.drop_last().subrange(0, trim_end_spec(s).len() as int) =~= s.subrange(
            0,
            trim_end_spec(s).len() as int,
        ));
    } else {
        assert(s.subrange(0, s.len() as int) =~= s);
    }
}

/// A target name that already starts with `HTTP/` is kept as it is.
proof fn lemma_http_prefix_survives_trim(t: Seq<char>)
    ensures
        has_prefix(trimmed("HTTP/"@ + t), "HTTP/"@),
{
    reveal_strlit("HTTP/");
    let s = "HTTP/"@ + t;
    assert(!is_white_space(s[0]));
    assert(trim_start_spec(s) == s);
    assert(!is_white_space(s[4]));
    lemma_trim_end_keeps(s, 4);
    let e = trim_end_spec(s);
    assert(e.subrange(0, 5) =~= s.subrange(0, 5));
    assert(s.subrange(0, 5) =~= "HTTP/"@);
}

/// Whether `p` is a prefix of `s`.
pub open spec fn has_prefix(s: Seq<char>, p: Seq<char>) -> bool {
    p.len() <= s.len() && s.subrange(0, p.len() as int) == p
}

/// `str::strip_prefix`: the rest of `s` after `p`, when `s` starts with `p`.
pub fn strip_prefix<'a>(s: &'a str, p: &str) -> (r: Option<&'a str>)
    ensures
        match r {
            Some(rest) => has_prefix(s@, p@) && rest@ == s@.skip(p@.len() as int),
            None => !has_prefix(s@, p@),
        },
{
    let n = s.unicode_len();
    let m = p.unicode_len();
    if m > n {
        return None;
    }
    let mut i: usize = 0;
    while i < m
        invariant
            n == s@.len(),
            m == p@.len(),
            m <= n,
            i <= m,
            forall|j: int| 0 <= j < i ==> s@[j] == p@[j],
        decreases m - i,
    {
        if s.get_char(i) != p.get_char(i) {
            proof {
                assert(s@.subrange(0, m as int)[i as int] != p@[i as int]);
            }
            return None;
        }
        i = i + 1;
    }
    proof {
        assert(s@.subrange(0, m as int) =~= p@);
        assert(s@.subrange(m as int, n as int) =~= s@.skip(m as int));
    }
    Some(s.substring_char(m, n))
}

/// `Basic <base64(username:password)>`.
pub open spec fn basic_auth_header(username: Seq<char>, password: Seq<char>) -> Seq<char> {
    "Basic "@ + base64_encoding(encode_utf8(username + ":"@ + password))
}

/// The value of a Basic `Authorization` header for the given credentials.
pub fn basic_auth_header_value(username: &str, password: &str) -> (r: String)
    ensures
        r@ == basic_auth_header(username@, password@),
{
    proof {
        reveal_strlit(":");
        reveal_strlit("Basic ");
    }
    let creds = String::from_str(username).concat(":").concat(password);
    let b64 = base64_encode(creds.as_str().as_bytes());
    String::from_str("Basic ").concat(b64.as_str())
}

/// An `Authorization` header value produced by an SSPI round.
#[derive(Debug, Clone)]
pub struct Token(pub String);

/// `Negotiate <base64(token)>`, or nothing for an empty token.
pub open spec fn negotiate_header(bytes: Seq<u8>) -> Option<Seq<char>> {
    if bytes.len() == 0 {
        None
    } else {
        Some("Negotiate "@ + base64_encoding(bytes))
    }
}

/// Creates an `Authorization` header value if a token exists.
pub fn token_header_from(bytes: &[u8]) -> (r: Option<String>)
    ensures
        match r {
            Some(h) => negotiate_header(bytes@) == Some(h@),
            None => negotiate_header(bytes@) is None,
        },
{
    proof {
        reveal_strlit("Negotiate ");
    }
    if bytes.len() == 0 {
        None
    } else {
        let b64 = base64_encode(bytes);
        Some(String::from_str("Negotiate ").concat(b64.as_str()))
    }
}

/// The token that one header carries: a `WWW-Authenticate` header (any ASCII case) whose
/// value starts with `Negotiate ` or `negotiate ` and whose rest, trimmed, is valid base64.
pub open spec fn negotiate_token_of(name: Seq<char>, value: Seq<char>) -> Option<Seq<u8>> {
    if !eq_ignore_ascii_case_spec(name, "www-authenticate"@) {
        None
    } else {
        let rest = if has_prefix(value, "Negotiate "@) {
            Some(value.skip(10))
        } else if has_prefix(value, "negotiate "@) {
            Some(value.skip(10))
        } else {
            None
        };
        match rest {
            Some(r) => base64_decoding(trimmed(r)),
            None => None,
        }
    }
}

/// The server token among the headers: that of the first header that carries one.
pub open spec fn first_negotiate_token(headers: Seq<(Seq<char>, Seq<char>)>) -> Option<Seq<u8>>
    decreases headers.len(),
{
    if headers.len() == 0 {
        None
    } else {
        match negotiate_token_of(headers[0].0, headers[0].1) {
            Some(t) => Some(t),
            None => first_negotiate_token(headers.drop_first()),
        }
    }
}

/// Parses the server's `WWW-Authenticate: Negotiate <base64>` header; the first header
/// that carries a valid token wins.
pub fn parse_negotiate_token(headers: &Vec<(String, String)>) -> (r: Option<Vec<u8>>)
    ensures
        match r {
            Some(v) => first_negotiate_token(crate::connector::http::headers_view(headers@))
                == Some(v@),
            None => first_negotiate_token(crate::connector::http::headers_view(headers@)) is None,
        },
{
    proof {
        reveal_strlit("www-authenticate");
        reveal_strlit("Negotiate ");
        reveal_strlit("negotiate ");
    }
    let ghost hv = crate::connector::http::headers_view(headers@);
    let mut i: usize = 0;
    proof {
        assert(hv.skip(0) =~= hv);
    }
    while i < headers.len()
        invariant
            hv == crate::connector::http::headers_view(headers@),
            i <= headers.len(),
            first_negotiate_token(hv) == first_negotiate_token(hv.skip(i as int)),
        decreases headers.len() - i,
    {
        let (key, value) = &headers[i];
        proof {
            assert(hv.skip(i as int)[0] == (key@, value@));
            assert(hv.skip(i as int).drop_first() =~= hv.skip(i + 1));
        }
        let ghost tok = negotiate_token_of(key@, value@);
        proof {
            reveal_strlit("www-authenticate");
            reveal_strlit("Negotiate ");
            reveal_strlit("negotiate ");
        }
        if eq_ignore_ascii_case(key.as_str(), "www-authenticate") {
            let rest = match strip_prefix(value.as_str(), "Negotiate ") {
                Some(r) => {
                    assert(r@ == value@.skip(10));
                    Some(r)
                },
                None => {
                    let r2 = strip_prefix(value.as_str(), "negotiate ");
                    assert(r2 matches Some(x) ==> x@ == value@.skip(10));
                    r2
                },
            };
            if let Some(r) = rest {
                if let Ok(bytes) = base64_decode(str_trim(r)) {
                    assert(tok == Some(bytes@));
                    return Some(bytes);
                }
                assert(tok is None);
            } else {
                assert(tok is None);
            }
        } else {
            assert(tok is None);
        }
        i = i + 1;
    }
    proof {
        assert(hv.skip(i as int).len() == 0);
    }
    None
}

/// The SSPI target name: `target`, prefixed with `HTTP/` unless its trimmed form already
/// starts with `HTTP/`.
pub open spec fn sspi_target_name(target: Seq<char>) -> Seq<char> {
    if has_prefix(trimmed(target), "HTTP/"@) {
        target
    } else {
        "HTTP/"@ + target
    }
}

#[derive(Debug)]
pub struct SspiConfig {
    pub target_name: String,
}

/// Naming the target a second time changes nothing: a name that `new` produced already
/// starts with `HTTP/` once trimmed.
pub proof fn lemma_target_name_is_stable(target: Seq<char>)
    ensures
        sspi_target_name(sspi_target_name(target)) == sspi_target_name(target),
{
    if !has_prefix(trimmed(target), "HTTP/"@) {
        lemma_http_prefix_survives_trim(target);
    }
}

impl SspiConfig {
    pub fn new(target: String) -> (r: Self)
        ensures
            r.target_name@ == sspi_target_name(target@),
    {
        proof {
            reveal_strlit("HTTP/");
        }
        let has = strip_prefix(str_trim(target.as_str()), "HTTP/").is_some();
        if has {
            Self { target_name: target }
        } else {
            Self { target_name: String::from_str("HTTP/").concat(target.as_str()) }
        }
    }
}

/// What the SSPI package reported for a round of `InitializeSecurityContext`.
#[derive(Debug, Clone, Copy, PartialEq, Eq, Structural)]
pub enum SspiStatus {
    /// The context is complete.
    Complete,
    /// Another round with the server's answer is needed.
    ContinueNeeded,
    /// Any other status.
    Other,
}

/// What the handshake needs after a round.
#[derive(Debug)]
pub enum ActionReqired {
    /// Send this token and run another round with the server's answer.
    TryInitSecContextAgain { token: Token },
    /// The context is complete; a last token may remain to be sent.
    Done { token: Option<Token> },
}

/// The handshake's own decisions between SSPI rounds.
#[derive(Debug, Default)]
pub struct SspiAuthenticator {}

impl SspiAuthenticator {
    /// After a round completed: the produced bytes become an `Authorization`
    /// token (none for no bytes). A status asking for another round must come
    /// with a token; a complete context is done; any other status is not handled.
    pub fn process_initialized_sec_context(produced: &[u8], status: SspiStatus) -> (r: Result<ActionReqired, PwshCoreError>)
        ensures
            match status {
                SspiStatus::ContinueNeeded => match negotiate_header(produced@) {
                    Some(h) => r matches Ok(ActionReqired::TryInitSecContextAgain { token }) && token.0@ == h,
                    None => r matches Err(PwshCoreError::Auth(_)),
                },
                SspiStatus::Complete => r matches Ok(ActionReqired::Done { token }) && match negotiate_header(produced@) {
                    Some(h) => token matches Some(t) && t.0@ == h,
                    None => token is None,
                },
                SspiStatus::Other => r matches Err(PwshCoreError::Auth(_)),
            },
    {
        let token = match token_header_from(produced) {
            Some(h) => Some(Token(h)),
            None => None,
        };
        match status {
            SspiStatus::ContinueNeeded => match token {
                Some(t) => Ok(ActionReqired::TryInitSecContextAgain { token: t }),
                None => Err(PwshCoreError::Auth("SSPI ContinueNeeded but no token produced")),
            },
            SspiStatus::Complete => Ok(ActionReqired::Done { token }),
            SspiStatus::Other => Err(PwshCoreError::Auth("SSPI InitializeSecurityContext status needs to be handled")),
        }
    }
}

} // verus!
