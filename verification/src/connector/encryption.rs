//! SSPI message sealing of SOAP bodies (`multipart/encrypted`, HTTP-SPNEGO-session-encrypted).
use vstd::prelude::*;
use vstd::string::*;
use vstd::utf8::*;

use sspi::{EncryptionFlags, SecurityBufferFlags, SecurityBufferRef, SecurityStatus, Sspi};

use crate::connector::http::HttpBody;
use crate::error::PwshCoreError;
use crate::text::{decimal, decimal_string, lemma_decimal_digits};

verus! {

#[verifier::external_type_specification]
#[verifier::external_body]
pub struct ExSspiError(sspi::Error);

#[verifier::external_type_specification]
#[verifier::external_body]
pub struct ExNtlm(sspi::Ntlm);

#[verifier::external_type_specification]
#[verifier::external_body]
pub struct ExKerberos(sspi::Kerberos);

#[verifier::external_type_specification]
#[verifier::external_body]
pub struct ExNegotiate(sspi::Negotiate);

/// An SSPI package's security context, with a record of the calls that sealed and
/// unsealed messages with it:
/// - `sealed`: for each `EncryptMessage`, the data buffer handed to it, then the data
///   buffer and the token buffer as the call left them;
/// - `opened`: for each `DecryptMessage`, the token and data buffers handed to it, then
///   the plaintext it gave (`None` when it failed).
pub struct SealingContext<P> {
    provider: P,
    sealed: Ghost<Seq<(Seq<u8>, Seq<u8>, Seq<u8>)>>,
    opened: Ghost<Seq<(Seq<u8>, Seq<u8>, Option<Seq<u8>>)>>,
}

impl<P> SealingContext<P> {
    pub closed spec fn provider(&self) -> P {
        self.provider
    }

    pub closed spec fn sealed_log(&self) -> Seq<(Seq<u8>, Seq<u8>, Seq<u8>)> {
        self.sealed@
    }

    pub closed spec fn opened_log(&self) -> Seq<(Seq<u8>, Seq<u8>, Option<Seq<u8>>)> {
        self.opened@
    }

    /// A context that has sealed and unsealed nothing yet.
    pub fn new(provider: P) -> (r: Self)
        ensures
            r.provider() == provider,
            r.sealed_log().len() == 0,
            r.opened_log().len() == 0,
    {
        SealingContext { provider, sealed: Ghost(Seq::empty()), opened: Ghost(Seq::empty()) }
    }
}

/// An established SSPI security context, by package.
pub enum AuthContext {
    Ntlm(SealingContext<sspi::Ntlm>),
    Kerberos(SealingContext<sspi::Kerberos>),
    Negotiate(SealingContext<sspi::Negotiate>),
}

impl AuthContext {
    /// The record of the sealing calls made with the context.
    pub open spec fn sealed_log(&self) -> Seq<(Seq<u8>, Seq<u8>, Seq<u8>)> {
        match self {
            AuthContext::Ntlm(c) => c.sealed_log(),
            AuthContext::Kerberos(c) => c.sealed_log(),
            AuthContext::Negotiate(c) => c.sealed_log(),
        }
    }

    /// The record of the unsealing calls made with the context.
    pub open spec fn opened_log(&self) -> Seq<(Seq<u8>, Seq<u8>, Option<Seq<u8>>)> {
        match self {
            AuthContext::Ntlm(c) => c.opened_log(),
            AuthContext::Kerberos(c) => c.opened_log(),
            AuthContext::Negotiate(c) => c.opened_log(),
        }
    }
}

/// `Sspi::query_context_sizes` on an NTLM context; the result is the size of the
/// security trailer. Nothing is stated of its value.
#[verifier::external_body]
fn ntlm_trailer_size(provider: &mut sspi::Ntlm) -> (r: Result<u32, sspi::Error>) {
    provider.query_context_sizes().map(|s| s.security_trailer)
}

/// `Sspi::query_context_sizes` on a Kerberos context (security trailer size).
#[verifier::external_body]
fn kerberos_trailer_size(provider: &mut sspi::Kerberos) -> (r: Result<u32, sspi::Error>) {
    provider.query_context_sizes().map(|s| s.security_trailer)
}

/// `Sspi::query_context_sizes` on a Negotiate context (security trailer size).
#[verifier::external_body]
fn negotiate_trailer_size(provider: &mut sspi::Negotiate) -> (r: Result<u32, sspi::Error>) {
    provider.query_context_sizes().map(|s| s.security_trailer)
}

/// `Sspi::encrypt_message` on an NTLM context with a token buffer and a data buffer;
/// `Ok(true)` when the status is `SecurityStatus::Ok`. The buffers are rewritten in
/// place, so their lengths stay; the call is recorded in the context's `sealed` log
/// with the buffers it left. What it writes into them (SSPI's sealing, which depends on
/// the context's keys and counters) is not stated.
#[verifier::external_body]
fn ntlm_encrypt(ctx: &mut SealingContext<sspi::Ntlm>, token: &mut Vec<u8>, data: &mut Vec<u8>) -> (r: Result<
    bool,
    sspi::Error,
>)
    ensures
        final(token)@.len() == old(token)@.len(),
        final(data)@.len() == old(data)@.len(),
        final(ctx).sealed_log() == old(ctx).sealed_log().push((old(data)@, final(data)@, final(token)@)),
        final(ctx).opened_log() == old(ctx).opened_log(),
{
    let mut buffers = [
        SecurityBufferRef::token_buf(token),
        SecurityBufferRef::data_buf(data).with_flags(SecurityBufferFlags::NONE),
    ];
    ctx.provider.encrypt_message(EncryptionFlags::empty(), &mut buffers).map(|s| match s {
        SecurityStatus::Ok => true,
        _ => false,
    })
}

/// `Sspi::encrypt_message` on a Kerberos context (as `ntlm_encrypt`).
#[verifier::external_body]
fn kerberos_encrypt(ctx: &mut SealingContext<sspi::Kerberos>, token: &mut Vec<u8>, data: &mut Vec<u8>) -> (r:
    Result<bool, sspi::Error>)
    ensures
        final(token)@.len() == old(token)@.len(),
        final(data)@.len() == old(data)@.len(),
        final(ctx).sealed_log() == old(ctx).sealed_log().push((old(data)@, final(data)@, final(token)@)),
        final(ctx).opened_log() == old(ctx).opened_log(),
{
    let mut buffers = [
        SecurityBufferRef::token_buf(token),
        SecurityBufferRef::data_buf(data).with_flags(SecurityBufferFlags::NONE),
    ];
    ctx.provider.encrypt_message(EncryptionFlags::empty(), &mut buffers).map(|s| match s {
        SecurityStatus::Ok => true,
        _ => false,
    })
}

/// `Sspi::encrypt_message` on a Negotiate context (as `ntlm_encrypt`).
#[verifier::external_body]
fn negotiate_encrypt(ctx: &mut SealingContext<sspi::Negotiate>, token: &mut Vec<u8>, data: &mut Vec<u8>) -> (r:
    Result<bool, sspi::Error>)
    ensures
        final(token)@.len() == old(token)@.len(),
        final(data)@.len() == old(data)@.len(),
        final(ctx).sealed_log() == old(ctx).sealed_log().push((old(data)@, final(data)@, final(token)@)),
        final(ctx).opened_log() == old(ctx).opened_log(),
{
    let mut buffers = [
        SecurityBufferRef::token_buf(token),
        SecurityBufferRef::data_buf(data).with_flags(SecurityBufferFlags::NONE),
    ];
    ctx.provider.encrypt_message(EncryptionFlags::empty(), &mut buffers).map(|s| match s {
        SecurityStatus::Ok => true,
        _ => false,
    })
}

/// The plaintext an unsealing call gave, if it gave one.
pub open spec fn plaintext_of<E>(r: Result<Vec<u8>, E>) -> Option<Seq<u8>> {
    match r {
        Ok(v) => Some(v@),
        Err(_) => None,
    }
}

/// `Sspi::decrypt_message` on an NTLM context with a token buffer and a data buffer;
/// on success the result is the data buffer's contents. The call is recorded in the
/// context's `opened` log with the buffers handed to it and what it gave; the plaintext
/// itself (SSPI's unsealing) is not stated.
#[verifier::external_body]
fn ntlm_decrypt(ctx: &mut SealingContext<sspi::Ntlm>, token: &mut Vec<u8>, data: &mut Vec<u8>) -> (r: Result<
    Vec<u8>,
    sspi::Error,
>)
    ensures
        final(ctx).opened_log() == old(ctx).opened_log().push((old(token)@, old(data)@, plaintext_of(r))),
        final(ctx).sealed_log() == old(ctx).sealed_log(),
{
    let mut buffers = [SecurityBufferRef::token_buf(token), SecurityBufferRef::data_buf(data)];
    match ctx.provider.decrypt_message(&mut buffers) {
        Ok(_) => Ok(buffers[1].data().to_vec()),
        Err(e) => Err(e),
    }
}

/// `Sspi::decrypt_message` on a Kerberos context (as `ntlm_decrypt`).
#[verifier::external_body]
fn kerberos_decrypt(ctx: &mut SealingContext<sspi::Kerberos>, token: &mut Vec<u8>, data: &mut Vec<u8>) -> (r:
    Result<Vec<u8>, sspi::Error>)
    ensures
        final(ctx).opened_log() == old(ctx).opened_log().push((old(token)@, old(data)@, plaintext_of(r))),
        final(ctx).sealed_log() == old(ctx).sealed_log(),
{
    let mut buffers = [SecurityBufferRef::token_buf(token), SecurityBufferRef::data_buf(data)];
    match ctx.provider.decrypt_message(&mut buffers) {
        Ok(_) => Ok(buffers[1].data().to_vec()),
        Err(e) => Err(e),
    }
}

/// `Sspi::decrypt_message` on a Negotiate context (as `ntlm_decrypt`).
#[verifier::external_body]
fn negotiate_decrypt(ctx: &mut SealingContext<sspi::Negotiate>, token: &mut Vec<u8>, data: &mut Vec<u8>) -> (r:
    Result<Vec<u8>, sspi::Error>)
    ensures
        final(ctx).opened_log() == old(ctx).opened_log().push((old(token)@, old(data)@, plaintext_of(r))),
        final(ctx).sealed_log() == old(ctx).sealed_log(),
{
    let mut buffers = [SecurityBufferRef::token_buf(token), SecurityBufferRef::data_buf(data)];
    match ctx.provider.decrypt_message(&mut buffers) {
        Ok(_) => Ok(buffers[1].data().to_vec()),
        Err(e) => Err(e),
    }
}

/// `String::from_utf8`: `Ok` exactly when the bytes are valid UTF-8, with the decoded text.
#[verifier::external_body]
fn string_from_utf8(bytes: Vec<u8>) -> (r: Option<String>)
    ensures
        match r {
            Some(s) => valid_utf8(bytes@) && s@ == decode_utf8(bytes@),
            None => !valid_utf8(bytes@),
        },
{
    String::from_utf8(bytes).ok()
}

/// The text of an unsealed body: its bytes decoded as UTF-8; bytes that are not UTF-8
/// are an internal error.
pub fn text_of_unsealed(items: Vec<u8>) -> (r: Result<String, PwshCoreError>)
    ensures
        match r {
            Ok(s) => valid_utf8(items@) && s@ == decode_utf8(items@),
            Err(e) => !valid_utf8(items@) && (e matches PwshCoreError::InternalError(m) && m@
                == "Failed to decode decrypted body"@),
        },
{
    match string_from_utf8(items) {
        Some(s) => Ok(s),
        None => Err(PwshCoreError::InternalError(String::from_str("Failed to decode decrypted body"))),
    }
}

impl AuthContext {
    /// Seals `data` in place and returns the security trailer (token). When it succeeds,
    /// the sealing call that produced the trailer and the sealed data is the last one
    /// recorded, and it was handed `data` as it came.
    fn seal(&mut self, data: &mut Vec<u8>) -> (r: Result<Vec<u8>, PwshCoreError>)
        ensures
            final(data)@.len() == old(data)@.len(),
            final(self).opened_log() == old(self).opened_log(),
            match r {
                Ok(token) => final(self).sealed_log() == old(self).sealed_log().push(
                    (old(data)@, final(data)@, token@),
                ),
                Err(e) => (e is SspiError || e == PwshCoreError::Auth("SSPI EncryptMessage failed")) && (
                final(self).sealed_log() == old(self).sealed_log() || (final(self).sealed_log().len()
                    == old(self).sealed_log().len() + 1 && final(self).sealed_log().drop_last()
                    == old(self).sealed_log() && final(self).sealed_log().last().0 == old(data)@)),
            },
    {
        let trailer = match self {
            AuthContext::Ntlm(c) => ntlm_trailer_size(&mut c.provider),
            AuthContext::Kerberos(c) => kerberos_trailer_size(&mut c.provider),
            AuthContext::Negotiate(c) => negotiate_trailer_size(&mut c.provider),
        };
        let trailer = match trailer {
            Ok(t) => t,
            Err(e) => return Err(PwshCoreError::SspiError(e)),
        };
        let mut token: Vec<u8> = Vec::new();
        let mut i: u32 = 0;
        while i < trailer
            invariant
                i <= trailer,
                token@.len() == i,
            decreases trailer - i,
        {
            token.push(0u8);
            i = i + 1;
        }
        let status = match self {
            AuthContext::Ntlm(c) => ntlm_encrypt(c, &mut token, data),
            AuthContext::Kerberos(c) => kerberos_encrypt(c, &mut token, data),
            AuthContext::Negotiate(c) => negotiate_encrypt(c, &mut token, data),
        };
        match status {
            Ok(true) => Ok(token),
            Ok(false) => Err(PwshCoreError::Auth("SSPI EncryptMessage failed")),
            Err(e) => Err(PwshCoreError::SspiError(e)),
        }
    }

    /// Unseals `data` with the given security trailer: the unsealing call is recorded
    /// with the trailer and the data handed to it, and its plaintext is the result.
    fn unseal(&mut self, token: &[u8], data: &mut Vec<u8>) -> (r: Result<Vec<u8>, PwshCoreError>)
        ensures
            final(self).sealed_log() == old(self).sealed_log(),
            final(self).opened_log() == old(self).opened_log().push((token@, old(data)@, plaintext_of(r))),
            r matches Err(e) ==> e is SspiError,
    {
        let mut token_buffer: Vec<u8> = Vec::new();
        token_buffer.extend_from_slice(token);
        assert(token_buffer@ =~= token@);
        let res = match self {
            AuthContext::Ntlm(c) => ntlm_decrypt(c, &mut token_buffer, data),
            AuthContext::Kerberos(c) => kerberos_decrypt(c, &mut token_buffer, data),
            AuthContext::Negotiate(c) => negotiate_decrypt(c, &mut token_buffer, data),
        };
        match res {
            Ok(v) => Ok(v),
            Err(e) => Err(PwshCoreError::SspiError(e)),
        }
    }
}

/// Seals outgoing and unseals incoming SOAP bodies on one authenticated connection.
pub struct EncryptionProvider {
    context: AuthContext,
    sequence_number: u32,
    recv_sequence_number: u32,
    require_encryption: bool,
}

#[derive(Debug)]
pub enum EncryptionResult {
    Encrypted { token: Vec<u8> },
    EncryptionNotPerformed,
}

#[derive(Debug)]
pub enum DecryptionResult {
    Decrypted(Vec<u8>),
    DecryptionNotPerformed,
}

// ---------------------------------------------------------------------------
// Byte-level framing of the multipart/encrypted body.
// ---------------------------------------------------------------------------

/// The bytes of an ASCII text.
pub open spec fn ascii(s: Seq<char>) -> Seq<u8> {
    encode_utf8(s)
}

/// `--Encrypted Boundary`
pub open spec fn boundary_marker() -> Seq<u8> {
    ascii("--Encrypted Boundary"@)
}

/// `--Encrypted Boundary--`
pub open spec fn closing_marker() -> Seq<u8> {
    ascii("--Encrypted Boundary--"@)
}

/// `Content-Type: application/octet-stream`
pub open spec fn octet_header() -> Seq<u8> {
    ascii("Content-Type: application/octet-stream"@)
}

/// `Content-Type:application/octet-stream` (tolerated variant).
pub open spec fn octet_header_compact() -> Seq<u8> {
    ascii("Content-Type:application/octet-stream"@)
}

/// The four little-endian bytes of `n`.
pub open spec fn le32(n: u32) -> Seq<u8> {
    seq![
        (n % 256) as u8,
        ((n / 256) % 256) as u8,
        ((n / 65536) % 256) as u8,
        ((n / 16777216) % 256) as u8,
    ]
}

/// The value of four little-endian bytes.
pub open spec fn le32_value(b: Seq<u8>) -> nat
    recommends
        b.len() >= 4,
{
    (b[0] as nat) + 256 * (b[1] as nat) + 65536 * (b[2] as nat) + 16777216 * (b[3] as nat)
}

/// Head of the sealed body, up to the declared plaintext length.
pub open spec fn part1_head() -> Seq<u8> {
    ascii(
        "--Encrypted Boundary\r\nContent-Type: application/HTTP-SPNEGO-session-encrypted\r\nOriginalContent: type=application/soap+xml;charset=UTF-8;Length="@,
    )
}

/// Between the declared length and the binary payload.
pub open spec fn part2_head() -> Seq<u8> {
    ascii("\r\n--Encrypted Boundary\r\nContent-Type: application/octet-stream\r\n"@)
}

/// Tail of the sealed body.
pub open spec fn body_tail() -> Seq<u8> {
    ascii("--Encrypted Boundary--\r\n"@)
}

/// The binary payload: the 4-byte little-endian token length, the token, the sealed data.
pub open spec fn sealed_payload(token: Seq<u8>, sealed: Seq<u8>) -> Seq<u8> {
    le32(token.len() as u32) + token + sealed
}

/// The whole `multipart/encrypted` body for a plaintext of `plain_len` bytes.
pub open spec fn sealed_body(plain_len: nat, token: Seq<u8>, sealed: Seq<u8>) -> Seq<u8> {
    part1_head() + ascii(decimal(plain_len)) + part2_head() + sealed_payload(token, sealed) + body_tail()
}

/// Whether `needle` occurs in `hay` at `i`.
pub open spec fn matches_at(hay: Seq<u8>, needle: Seq<u8>, i: int) -> bool {
    0 <= i && i + needle.len() <= hay.len() && hay.subrange(i, i + needle.len()) == needle
}

/// The first occurrence of `needle` in `hay` at or after `k`.
pub open spec fn find_from(hay: Seq<u8>, needle: Seq<u8>, k: int) -> Option<int>
    decreases hay.len() + 1 - k,
{
    if k < 0 || k + needle.len() > hay.len() {
        None
    } else if matches_at(hay, needle, k) {
        Some(k)
    } else {
        find_from(hay, needle, k + 1)
    }
}

/// A found occurrence is a match at or after the start.
pub proof fn lemma_find_from_some(hay: Seq<u8>, needle: Seq<u8>, k: int)
    ensures
        find_from(hay, needle, k) matches Some(i) ==> k <= i && matches_at(hay, needle, i),
    decreases hay.len() + 1 - k,
{
    if k < 0 || k + needle.len() > hay.len() {
    } else if matches_at(hay, needle, k) {
    } else {
        lemma_find_from_some(hay, needle, k + 1);
    }
}

/// The first occurrence of `needle` in `hay`.
pub open spec fn find_spec(hay: Seq<u8>, needle: Seq<u8>) -> Option<int> {
    find_from(hay, needle, 0)
}

/// The payload that one header pattern designates: it starts two bytes (the CRLF) after
/// the first occurrence of the pattern and ends at the next boundary marker (or at the end
/// of the data). `None` when the pattern is absent or the range is empty.
pub open spec fn payload_for_pattern(data: Seq<u8>, pattern: Seq<u8>) -> Option<Seq<u8>> {
    match find_spec(data, pattern) {
        None => None,
        Some(pos) => {
            let start = pos + pattern.len() + 2;
            let rest = data.skip(start);
            let end = match find_spec(rest, boundary_marker()) {
                Some(q) => start + q,
                None => match find_spec(rest, closing_marker()) {
                    Some(q) => start + q,
                    None => data.len() as int,
                },
            };
            if end > start {
                Some(data.subrange(start, end))
            } else {
                None
            }
        },
    }
}

/// The binary payload of a `multipart/encrypted` body: by the strict header, else by
/// the compact one.
pub open spec fn extract_payload_spec(data: Seq<u8>) -> Option<Seq<u8>> {
    match payload_for_pattern(data, octet_header()) {
        Some(p) => Some(p),
        None => payload_for_pattern(data, octet_header_compact()),
    }
}

/// Whether the two bytes after a found header pattern lie within the data.
pub open spec fn header_fits(data: Seq<u8>, pattern: Seq<u8>) -> bool {
    match find_spec(data, pattern) {
        Some(pos) => pos + pattern.len() + 2 <= data.len(),
        None => true,
    }
}

/// The token and the sealed data of a binary payload, when it is long enough.
pub open spec fn split_payload(payload: Seq<u8>) -> Option<(Seq<u8>, Seq<u8>)> {
    if payload.len() < 4 {
        None
    } else {
        let tl = le32_value(payload);
        if payload.len() < 4 + tl {
            None
        } else {
            Some((payload.subrange(4, 4 + tl as int), payload.skip(4 + tl as int)))
        }
    }
}

/// The four bytes `le32` writes read back as the number written.
pub proof fn lemma_le32_roundtrip(n: u32)
    ensures
        le32(n).len() == 4,
        le32_value(le32(n)) == n as nat,
{
    let b = le32(n);
    assert(b[0] as nat == (n % 256) as nat);
    assert(b[1] as nat == ((n / 256) % 256) as nat);
    assert(b[2] as nat == ((n / 65536) % 256) as nat);
    assert(b[3] as nat == ((n / 16777216) % 256) as nat);
    assert((n % 256) + 256 * ((n / 256) % 256) + 65536 * ((n / 65536) % 256) + 16777216 * ((n / 16777216) % 256)
        == n) by (bit_vector);
}

/// The binary payload that the sealing writes splits back into the very security
/// trailer and sealed data it was made of.
pub proof fn lemma_sealed_payload_splits_back(token: Seq<u8>, sealed: Seq<u8>)
    requires
        token.len() <= u32::MAX,
    ensures
        split_payload(sealed_payload(token, sealed)) == Some((token, sealed)),
{
    let n = token.len() as u32;
    lemma_le32_roundtrip(n);
    let p = sealed_payload(token, sealed);
    assert(p.subrange(0, 4) =~= le32(n));
    assert(le32_value(p) == le32_value(le32(n))) by {
        assert(p[0] == le32(n)[0]);
        assert(p[1] == le32(n)[1]);
        assert(p[2] == le32(n)[2]);
        assert(p[3] == le32(n)[3]);
    }
    assert(p.subrange(4, 4 + token.len() as int) =~= token);
    assert(p.skip(4 + token.len() as int) =~= sealed);
}

/// A found match at `pos` with none between `k` and it is what the search from `k` finds.
proof fn lemma_find_from_first(hay: Seq<u8>, needle: Seq<u8>, k: int, pos: int)
    requires
        0 <= k <= pos,
        matches_at(hay, needle, pos),
        forall|j: int| k <= j < pos ==> !#[trigger] matches_at(hay, needle, j),
    ensures
        find_from(hay, needle, k) == Some(pos),
    decreases pos - k,
{
    if k < pos {
        lemma_find_from_first(hay, needle, k + 1, pos);
    }
}

/// Whether the boundary marker begins nowhere inside a binary payload followed by the
/// body's tail (sealed bytes holding the marker would end the binary part early).
pub open spec fn marker_free(payload: Seq<u8>) -> bool {
    forall|i: int| 0 <= i < payload.len() ==> !#[trigger] matches_at(payload + body_tail(), boundary_marker(), i)
}

/// The first occurrence of the octet-stream header in a sealed body is the one in the
/// head of its binary part.
proof fn lemma_sealed_body_header(plain_len: nat, rest: Seq<u8>)
    ensures
        ({
            let body = part1_head() + ascii(decimal(plain_len)) + part2_head() + rest;
            let pos = (part1_head().len() + ascii(decimal(plain_len)).len() + 24) as int;
            &&& find_spec(body, octet_header()) == Some(pos)
            &&& pos + octet_header().len() + 2 == part1_head().len() + ascii(decimal(plain_len)).len()
                + part2_head().len()
        }),
{
    reveal_strlit(
        "--Encrypted Boundary\r\nContent-Type: application/HTTP-SPNEGO-session-encrypted\r\nOriginalContent: type=application/soap+xml;charset=UTF-8;Length=",
    );
    reveal_strlit("\r\n--Encrypted Boundary\r\nContent-Type: application/octet-stream\r\n");
    reveal_strlit("Content-Type: application/octet-stream");
    let c1 = "--Encrypted Boundary\r\nContent-Type: application/HTTP-SPNEGO-session-encrypted\r\nOriginalContent: type=application/soap+xml;charset=UTF-8;Length="@;
    let c2 = "\r\n--Encrypted Boundary\r\nContent-Type: application/octet-stream\r\n"@;
    let ch = "Content-Type: application/octet-stream"@;
    let dc = decimal(plain_len);
    lemma_decimal_digits(plain_len);
    assert(is_ascii_chars(c1));
    assert(is_ascii_chars(c2));
    assert(is_ascii_chars(ch));
    assert(is_ascii_chars(dc));
    is_ascii_chars_encode_utf8(c1);
    is_ascii_chars_encode_utf8(c2);
    is_ascii_chars_encode_utf8(ch);
    is_ascii_chars_encode_utf8(dc);
    let h1 = part1_head();
    let d = ascii(dc);
    let h2 = part2_head();
    let oh = octet_header();
    let body = h1 + d + h2 + rest;
    assert(h1.len() == 143);
    assert(h2.len() == 64);
    assert(oh.len() == 38);
    let dl = d.len() as int;
    let pos = 143 + dl + 24;
    assert forall|i: int| 0 <= i < 38 implies #[trigger] body[pos + i] == oh[i] by {
        assert(body[pos + i] == h2[24 + i]);
        assert(h2[24 + i] == c2[24 + i] as u8);
        assert(oh[i] == ch[i] as u8);
        assert(c2[24 + i] == ch[i]);
    }
    assert(body.subrange(pos, pos + 38) =~= oh);
    assert(matches_at(body, oh, pos));
    assert forall|k: int| 0 <= k < pos implies !#[trigger] matches_at(body, oh, k) by {
        if matches_at(body, oh, k) {
            assert(body.subrange(k, k + 38)[0] == oh[0]);
            assert(oh[0] == ch[0] as u8);
            assert(body[k] == 67u8);
            if k < 143 {
                assert(body[k] == c1[k] as u8);
                assert(c1[k] == 'C');
                assert(k == 22 || k == 87);
                if k == 22 {
                    assert(body.subrange(k, k + 38)[26] == oh[26]);
                    assert(body[48] == c1[48] as u8);
                    assert(oh[26] == ch[26] as u8);
                } else {
                    assert(body.subrange(k, k + 38)[7] == oh[7]);
                    assert(body[94] == c1[94] as u8);
                    assert(oh[7] == ch[7] as u8);
                }
            } else if k < 143 + dl {
                assert(body[k] == d[k - 143]);
                assert(d[k - 143] == dc[k - 143] as u8);
            } else {
                assert(body[k] == h2[k - 143 - dl]);
                assert(h2[k - 143 - dl] == c2[k - 143 - dl] as u8);
            }
        }
    }
    lemma_find_from_first(body, oh, 0, pos);
}

/// A sealed body reads back: the binary payload extracted from the framing that sealing
/// writes is the payload that went in, and it splits into the very security trailer and
/// sealed data, whenever the boundary marker does not begin inside that payload.
pub proof fn lemma_sealed_body_reads_back(plain_len: nat, token: Seq<u8>, sealed: Seq<u8>)
    requires
        token.len() <= u32::MAX,
        marker_free(sealed_payload(token, sealed)),
    ensures
        extract_guard(sealed_body(plain_len, token, sealed)),
        extract_payload_spec(sealed_body(plain_len, token, sealed)) == Some(sealed_payload(token, sealed)),
        split_payload(sealed_payload(token, sealed)) == Some((token, sealed)),
{
    reveal_strlit("--Encrypted Boundary--\r\n");
    reveal_strlit("--Encrypted Boundary");
    let bt = "--Encrypted Boundary--\r\n"@;
    let bm = "--Encrypted Boundary"@;
    assert(is_ascii_chars(bt));
    assert(is_ascii_chars(bm));
    is_ascii_chars_encode_utf8(bt);
    is_ascii_chars_encode_utf8(bm);
    let p = sealed_payload(token, sealed);
    let t = body_tail();
    let rest = p + t;
    lemma_sealed_body_header(plain_len, rest);
    let a = part1_head() + ascii(decimal(plain_len)) + part2_head();
    let body = sealed_body(plain_len, token, sealed);
    assert(body =~= part1_head() + ascii(decimal(plain_len)) + part2_head() + rest);
    let start = a.len() as int;
    assert(body.skip(start) =~= rest);
    lemma_le32_roundtrip(token.len() as u32);
    assert(p.len() >= 4);
    assert forall|i: int| 0 <= i < 20 implies #[trigger] rest[p.len() + i] == boundary_marker()[i] by {
        assert(rest[p.len() + i] == t[i]);
        assert(t[i] == bt[i] as u8);
        assert(boundary_marker()[i] == bm[i] as u8);
    }
    assert(rest.subrange(p.len() as int, p.len() + 20int) =~= boundary_marker());
    lemma_find_from_first(rest, boundary_marker(), 0, p.len() as int);
    assert(body.subrange(start, start + p.len() as int) =~= p);
    lemma_sealed_payload_splits_back(token, sealed);
}

pub fn write_str(buf: &mut Vec<u8>, s: &str)
    ensures
        final(buf)@ == old(buf)@ + ascii(s@),
{
    let bytes = s.as_bytes();
    buf.extend_from_slice(bytes);
    proof {
        assert(final(buf)@ =~= old(buf)@ + ascii(s@));
    }
}

pub fn write_crlf(buf: &mut Vec<u8>)
    ensures
        final(buf)@ == old(buf)@ + ascii("\r\n"@),
{
    write_str(buf, "\r\n");
}

fn write_bytes(buf: &mut Vec<u8>, b: &[u8])
    ensures
        final(buf)@ == old(buf)@ + b@,
{
    buf.extend_from_slice(b);
    proof {
        assert(final(buf)@ =~= old(buf)@ + b@);
    }
}

fn le32_bytes(n: u32) -> (r: Vec<u8>)
    ensures
        r@ == le32(n),
{
    let mut v: Vec<u8> = Vec::new();
    v.push((n % 256) as u8);
    v.push(((n / 256) % 256) as u8);
    v.push(((n / 65536) % 256) as u8);
    v.push(((n / 16777216) % 256) as u8);
    proof {
        assert(v@ =~= le32(n));
    }
    v
}

/// Assembles the `multipart/encrypted` body around a security trailer and sealed data.
pub fn frame_sealed_body(plain_len: usize, token: &[u8], sealed: &[u8]) -> (r: Vec<u8>)
    ensures
        r@ == sealed_body(plain_len as nat, token@, sealed@),
{
    proof {
        reveal_strlit("--");
        reveal_strlit("Encrypted Boundary");
    }
    let mut body: Vec<u8> = Vec::new();
    write_str(
        &mut body,
        "--Encrypted Boundary\r\nContent-Type: application/HTTP-SPNEGO-session-encrypted\r\nOriginalContent: type=application/soap+xml;charset=UTF-8;Length=",
    );
    let len_text = decimal_string(plain_len as u64);
    write_str(&mut body, len_text.as_str());
    write_str(&mut body, "\r\n--Encrypted Boundary\r\nContent-Type: application/octet-stream\r\n");
    let prefix = le32_bytes(token.len() as u32);
    write_bytes(&mut body, prefix.as_slice());
    write_bytes(&mut body, token);
    write_bytes(&mut body, sealed);
    write_str(&mut body, "--Encrypted Boundary--\r\n");
    proof {
        assert(body@ =~= sealed_body(plain_len as nat, token@, sealed@));
    }
    body
}

/// Finds the first position of `needle` in `haystack` (an empty needle is found at 0).
pub fn find_subsequence(haystack: &[u8], needle: &[u8]) -> (r: Option<usize>)
    ensures
        match r {
            Some(i) => find_spec(haystack@, needle@) == Some(i as int),
            None => find_spec(haystack@, needle@) is None,
        },
{
    let h = haystack.len();
    let n = needle.len();
    if h < n {
        proof {
            assert(find_from(haystack@, needle@, 0) is None);
        }
        return None;
    }
    let mut i: usize = 0;
    while i <= h - n
        invariant
            h == haystack@.len(),
            n == needle@.len(),
            n <= h,
            i <= h - n + 1,
            find_spec(haystack@, needle@) == find_from(haystack@, needle@, i as int),
        decreases h - n + 1 - i,
    {
        let mut j: usize = 0;
        let mut same = true;
        while j < n
            invariant
                h == haystack@.len(),
                n == needle@.len(),
                i + n <= h,
                j <= n,
                same == (forall|k: int| 0 <= k < j ==> haystack@[i + k] == needle@[k]),
            decreases n - j,
        {
            if haystack[i + j] != needle[j] {
                same = false;
            }
            j = j + 1;
        }
        proof {
            if same {
                assert(haystack@.subrange(i as int, i + n) =~= needle@);
            } else {
                let k = choose|k: int| 0 <= k < n && haystack@[i + k] != needle@[k];
                assert(haystack@.subrange(i as int, i + n)[k] != needle@[k]);
            }
        }
        if same {
            return Some(i);
        }
        i = i + 1;
    }
    None
}

/// Whether extracting the payload stays within the data: the strict header, when found,
/// is followed by its CRLF, and so is the compact one when the strict one yields nothing.
pub open spec fn extract_guard(data: Seq<u8>) -> bool {
    &&& header_fits(data, octet_header())
    &&& payload_for_pattern(data, octet_header()) is None ==> header_fits(data, octet_header_compact())
}

/// Extracts the binary payload from a `multipart/encrypted` body.
pub fn extract_binary_payload(data: &[u8]) -> (r: Result<Vec<u8>, PwshCoreError>)
    requires
        extract_guard(data@),
    ensures
        match r {
            Ok(p) => extract_payload_spec(data@) == Some(p@),
            Err(e) => extract_payload_spec(data@) is None && e is InternalError,
        },
{
    proof {
        reveal_strlit("Content-Type: application/octet-stream");
        reveal_strlit("Content-Type:application/octet-stream");
    }
    let first = payload_for(data, "Content-Type: application/octet-stream");
    match first {
        Some(p) => Ok(p),
        None => match payload_for(data, "Content-Type:application/octet-stream") {
            Some(p) => Ok(p),
            None => Err(
                PwshCoreError::InternalError(
                    String::from_str("Could not find binary payload in multipart body"),
                ),
            ),
        },
    }
}

/// Checks `extract_guard`.
fn extract_guard_exec(data: &[u8]) -> (r: bool)
    ensures
        r == extract_guard(data@),
{
    proof {
        reveal_strlit("Content-Type: application/octet-stream");
        reveal_strlit("Content-Type:application/octet-stream");
    }
    if !header_fits_exec(data, "Content-Type: application/octet-stream") {
        return false;
    }
    match payload_for(data, "Content-Type: application/octet-stream") {
        Some(_) => true,
        None => header_fits_exec(data, "Content-Type:application/octet-stream"),
    }
}

fn payload_for(data: &[u8], pattern: &str) -> (r: Option<Vec<u8>>)
    requires
        header_fits(data@, ascii(pattern@)),
    ensures
        match r {
            Some(p) => payload_for_pattern(data@, ascii(pattern@)) == Some(p@),
            None => payload_for_pattern(data@, ascii(pattern@)) is None,
        },
{
    let pat = pattern.as_bytes();
    assert(pat@ == ascii(pattern@));
    let dl = data.len();
    let header_pos = match find_subsequence(data, pat) {
        Some(p) => p,
        None => return None,
    };
    proof {
        lemma_find_from_some(data@, pat@, 0);
        assert(find_from(data@, pat@, 0) == Some(header_pos as int));
        assert(matches_at(data@, pat@, header_pos as int));
        assert(header_pos + pat@.len() + 2 <= data@.len());
    }
    let binary_start = header_pos + pat.len() + 2;
    let rest = slice_from(data, binary_start);
    let boundary = "--Encrypted Boundary".as_bytes();
    let closing = "--Encrypted Boundary--".as_bytes();
    proof {
        reveal_strlit("--Encrypted Boundary");
        reveal_strlit("--Encrypted Boundary--");
        lemma_find_from_some(rest@, boundary@, 0);
        lemma_find_from_some(rest@, closing@, 0);
    }
    let binary_end = match find_subsequence(rest.as_slice(), boundary) {
        Some(q) => binary_start + q,
        None => match find_subsequence(rest.as_slice(), closing) {
            Some(q) => binary_start + q,
            None => dl,
        },
    };
    if binary_end > binary_start {
        Some(slice_range(data, binary_start, binary_end))
    } else {
        None
    }
}

fn slice_from(data: &[u8], start: usize) -> (r: Vec<u8>)
    requires
        start <= data@.len(),
    ensures
        r@ == data@.skip(start as int),
{
    slice_range(data, start, data.len())
}

fn slice_range(data: &[u8], start: usize, end: usize) -> (r: Vec<u8>)
    requires
        start <= end <= data@.len(),
    ensures
        r@ == data@.subrange(start as int, end as int),
{
    let mut v: Vec<u8> = Vec::new();
    let mut i = start;
    while i < end
        invariant
            start <= i <= end,
            end <= data@.len(),
            v@ == data@.subrange(start as int, i as int),
        decreases end - i,
    {
        v.push(data[i]);
        proof {
            assert(data@.subrange(start as int, i + 1) =~= data@.subrange(start as int, i as int).push(data@[i as int]));
        }
        i = i + 1;
    }
    v
}

/// The message of the error for a payload shorter than its length prefix says:
/// the total length the prefix asks for, and the length at hand.
pub open spec fn short_payload_message(expected: nat, actual: nat) -> Seq<char> {
    "Binary payload too short: expected at least "@ + decimal(expected) + " bytes, got "@
        + decimal(actual)
}

/// Splits a binary payload into the security trailer and the sealed data.
pub fn split_binary_payload(payload: &[u8]) -> (r: Result<(Vec<u8>, Vec<u8>), PwshCoreError>)
    ensures
        match r {
            Ok((t, d)) => split_payload(payload@) == Some((t@, d@)),
            Err(e) => split_payload(payload@) is None && if payload@.len() < 4 {
                e matches PwshCoreError::InternalError(m) && m@
                    == "Binary payload too short to contain length prefix"@
            } else {
                e matches PwshCoreError::InternalError(m) && m@ == short_payload_message(
                    (4 + le32_value(payload@)) as nat,
                    payload@.len(),
                )
            },
        },
{
    let n = payload.len();
    if n < 4 {
        return Err(
            PwshCoreError::InternalError(
                String::from_str("Binary payload too short to contain length prefix"),
            ),
        );
    }
    let tl: u64 = payload[0] as u64 + 256 * (payload[1] as u64) + 65536 * (payload[2] as u64)
        + 16777216 * (payload[3] as u64);
    if (n as u64) < 4 + tl {
        let m = String::from_str("Binary payload too short: expected at least ").concat(
            decimal_string(4 + tl).as_str(),
        ).concat(" bytes, got ").concat(decimal_string(n as u64).as_str());
        return Err(PwshCoreError::InternalError(m));
    }
    let t = slice_range(payload, 4, (4 + tl) as usize);
    let d = slice_from(payload, (4 + tl) as usize);
    Ok((t, d))
}

impl EncryptionProvider {
    pub closed spec fn seq(&self) -> u32 {
        self.sequence_number
    }

    pub closed spec fn recv_seq(&self) -> u32 {
        self.recv_sequence_number
    }

    pub closed spec fn requires_encryption(&self) -> bool {
        self.require_encryption
    }

    /// The sealing calls made on this connection (see `SealingContext`).
    pub closed spec fn sealed_log(&self) -> Seq<(Seq<u8>, Seq<u8>, Seq<u8>)> {
        self.context.sealed_log()
    }

    /// The unsealing calls made on this connection (see `SealingContext`).
    pub closed spec fn opened_log(&self) -> Seq<(Seq<u8>, Seq<u8>, Option<Seq<u8>>)> {
        self.context.opened_log()
    }

    pub fn new(context: AuthContext, require_encryption: bool) -> (r: Self)
        ensures
            r.seq() == 0,
            r.recv_seq() == 0,
            r.requires_encryption() == require_encryption,
            r.sealed_log() == context.sealed_log(),
            r.opened_log() == context.opened_log(),
    {
        Self { context, sequence_number: 0, recv_sequence_number: 0, require_encryption }
    }

    /// Whether bodies are sealed on this connection.
    pub fn require_encryption(&self) -> (r: bool)
        ensures
            r == self.requires_encryption(),
    {
        self.require_encryption
    }

    fn next_sequence_number(&mut self) -> (r: u32)
        ensures
            r == old(self).seq(),
            final(self).seq() == (if old(self).seq() == u32::MAX { 0 } else { (old(self).seq() + 1) as u32 }),
            final(self).recv_seq() == old(self).recv_seq(),
            final(self).requires_encryption() == old(self).requires_encryption(),
            final(self).sealed_log() == old(self).sealed_log(),
            final(self).opened_log() == old(self).opened_log(),
    {
        let seq = self.sequence_number;
        self.sequence_number = self.sequence_number.wrapping_add(1);
        seq
    }

    fn next_recv_sequence_number(&mut self) -> (r: u32)
        ensures
            r == old(self).recv_seq(),
            final(self).recv_seq() == (if old(self).recv_seq() == u32::MAX { 0 } else { (old(self).recv_seq() + 1) as u32 }),
            final(self).seq() == old(self).seq(),
            final(self).requires_encryption() == old(self).requires_encryption(),
            final(self).sealed_log() == old(self).sealed_log(),
            final(self).opened_log() == old(self).opened_log(),
    {
        let seq = self.recv_sequence_number;
        self.recv_sequence_number = self.recv_sequence_number.wrapping_add(1);
        seq
    }

    /// Seals `data` in place when sealing is required. `sequence_number` is not used: the
    /// SSPI packages of this `sspi` version keep their own message sequence numbers.
    pub fn wrap(&mut self, data: &mut Vec<u8>, sequence_number: u32) -> (r: Result<EncryptionResult, PwshCoreError>)
        ensures
            final(data)@.len() == old(data)@.len(),
            !old(self).requires_encryption() ==> (r matches Ok(EncryptionResult::EncryptionNotPerformed)
                && final(data)@ == old(data)@),
            old(self).requires_encryption() ==> !(r matches Ok(EncryptionResult::EncryptionNotPerformed)),
            r matches Err(e) ==> (e is SspiError || e is Auth),
            final(self).seq() == old(self).seq(),
            final(self).recv_seq() == old(self).recv_seq(),
            final(self).requires_encryption() == old(self).requires_encryption(),
            final(self).opened_log() == old(self).opened_log(),
            r matches Ok(EncryptionResult::Encrypted { token }) ==> final(self).sealed_log()
                == old(self).sealed_log().push((old(data)@, final(data)@, token@)),
            !old(self).requires_encryption() ==> final(self).sealed_log() == old(self).sealed_log(),
            !(r matches Ok(EncryptionResult::Encrypted { .. })) ==> (final(self).sealed_log() == old(self).sealed_log()
                || (final(self).sealed_log().len() == old(self).sealed_log().len() + 1
                    && final(self).sealed_log().drop_last() == old(self).sealed_log()
                    && final(self).sealed_log().last().0 == old(data)@)),
    {
        if !self.require_encryption {
            return Ok(EncryptionResult::EncryptionNotPerformed);
        }
        let token = self.context.seal(data)?;
        Ok(EncryptionResult::Encrypted { token })
    }

    /// Unseals `data` with `token` when sealing is required. `sequence_number` is not
    /// used: the SSPI packages of this `sspi` version keep their own sequence numbers.
    pub fn unwrap(&mut self, token: &[u8], data: &mut Vec<u8>, sequence_number: u32) -> (r: Result<DecryptionResult, PwshCoreError>)
        ensures
            !old(self).requires_encryption() ==> r matches Ok(DecryptionResult::DecryptionNotPerformed),
            old(self).requires_encryption() ==> !(r matches Ok(DecryptionResult::DecryptionNotPerformed)),
            r matches Err(e) ==> e is SspiError,
            final(self).seq() == old(self).seq(),
            final(self).recv_seq() == old(self).recv_seq(),
            final(self).requires_encryption() == old(self).requires_encryption(),
            final(self).sealed_log() == old(self).sealed_log(),
            !old(self).requires_encryption() ==> final(self).opened_log() == old(self).opened_log(),
            old(self).requires_encryption() ==> final(self).opened_log() == old(self).opened_log().push(
                (token@, old(data)@, match r {
                    Ok(DecryptionResult::Decrypted(v)) => Some(v@),
                    _ => None,
                }),
            ),
    {
        if !self.require_encryption {
            return Ok(DecryptionResult::DecryptionNotPerformed);
        }
        let decrypted = self.context.unseal(token, data)?;
        Ok(DecryptionResult::Decrypted(decrypted))
    }

    /// Encrypts a SOAP string into an HTTP body: over a sealing connection the UTF-8 bytes
    /// of the XML are handed to the SSPI package's `EncryptMessage`, and the result is the
    /// `multipart/encrypted` framing of the trailer and the data that call left; otherwise
    /// the XML itself.
    pub fn encrypt(&mut self, data: &str) -> (r: Result<HttpBody, PwshCoreError>)
        ensures
            final(self).seq() == (if old(self).seq() == u32::MAX { 0 } else { (old(self).seq() + 1) as u32 }),
            final(self).recv_seq() == old(self).recv_seq(),
            final(self).requires_encryption() == old(self).requires_encryption(),
            final(self).opened_log() == old(self).opened_log(),
            !old(self).requires_encryption() ==> (r matches Ok(HttpBody::Xml(s)) && s@ == data@
                && final(self).sealed_log() == old(self).sealed_log()),
            old(self).requires_encryption() ==> match r {
                Ok(HttpBody::Encrypted(b)) => sealed_into(*old(self), *final(self), data@, b@),
                Ok(_) => false,
                Err(e) => (e is SspiError || e is Auth) && (final(self).sealed_log() == old(self).sealed_log()
                    || (final(self).sealed_log().len() == old(self).sealed_log().len() + 1
                        && final(self).sealed_log().drop_last() == old(self).sealed_log()
                        && final(self).sealed_log().last().0 == encode_utf8(data@))),
            },
    {
        let sequence_number = self.next_sequence_number();
        let plain_len = data.as_bytes().len();
        let mut sealed_bytes: Vec<u8> = Vec::new();
        sealed_bytes.extend_from_slice(data.as_bytes());
        proof {
            assert(sealed_bytes@ =~= encode_utf8(data@));
        }
        let token = match self.wrap(&mut sealed_bytes, sequence_number) {
            Ok(EncryptionResult::Encrypted { token }) => token,
            Ok(EncryptionResult::EncryptionNotPerformed) => {
                return Ok(HttpBody::Xml(String::from_str(data)));
            },
            Err(e) => return Err(e),
        };
        let body = frame_sealed_body(plain_len, token.as_slice(), sealed_bytes.as_slice());
        assert(self.sealed_log().drop_last() == old(self).sealed_log());
        Ok(HttpBody::Encrypted(body))
    }

    /// Decrypts an HTTP body into a string: a non-sealed body is returned as its text; a
    /// sealed one has its binary payload extracted, split into trailer and data, unsealed
    /// and decoded as UTF-8. A sealed body that ends inside its binary-part header is
    /// rejected.
    pub fn decrypt(&mut self, data: HttpBody) -> (r: Result<String, PwshCoreError>)
        ensures
            decrypt_spec(*old(self), data, *final(self), r),
    {
        let sequence_number = self.next_recv_sequence_number();
        let encrypted_data = match data {
            HttpBody::Encrypted(encrypted_data) => encrypted_data,
            HttpBody::Xml(c) => return Ok(c),
            HttpBody::Text(c) => return Ok(c),
            HttpBody::Empty => return Ok(String::new()),
        };
        if !extract_guard_exec(encrypted_data.as_slice()) {
            return Err(
                PwshCoreError::InternalError(
                    String::from_str("Multipart body ends inside the binary part header"),
                ),
            );
        }
        let binary_payload = extract_binary_payload(encrypted_data.as_slice())?;
        let (token, mut sealed) = split_binary_payload(binary_payload.as_slice())?;
        match self.unwrap(token.as_slice(), &mut sealed, sequence_number)? {
            DecryptionResult::Decrypted(items) => text_of_unsealed(items),
            DecryptionResult::DecryptionNotPerformed => Err(
                PwshCoreError::InvalidState("Decryption was not performed"),
            ),
        }
    }
}

/// `p1` is `p0` after sealing `xml` into `body`: one more sealing call, handed the UTF-8
/// bytes of `xml`, and `body` frames the trailer and the data that call left.
pub open spec fn sealed_into(p0: EncryptionProvider, p1: EncryptionProvider, xml: Seq<char>, body: Seq<u8>) -> bool {
    let entry = p1.sealed_log().last();
    &&& p1.sealed_log().len() == p0.sealed_log().len() + 1
    &&& p1.sealed_log().drop_last() == p0.sealed_log()
    &&& entry.0 == encode_utf8(xml)
    &&& entry.1.len() == encode_utf8(xml).len()
    &&& body == sealed_body(encode_utf8(xml).len(), entry.2, entry.1)
}

/// `decrypt` of `data` by provider `p0`, leaving it as `p1` with result `r`: the receive
/// counter moves on by one (wrapping); a non-sealed body gives its text.
pub open spec fn decrypt_spec(
    p0: EncryptionProvider,
    data: HttpBody,
    p1: EncryptionProvider,
    r: Result<String, PwshCoreError>,
) -> bool {
    &&& p1.recv_seq() == (if p0.recv_seq() == u32::MAX { 0 } else { (p0.recv_seq() + 1) as u32 })
    &&& p1.seq() == p0.seq()
    &&& p1.requires_encryption() == p0.requires_encryption()
    &&& p1.sealed_log() == p0.sealed_log()
    &&& match data {
        HttpBody::Xml(c) => r matches Ok(s) && s@ == c@ && p1.opened_log() == p0.opened_log(),
        HttpBody::Text(c) => r matches Ok(s) && s@ == c@ && p1.opened_log() == p0.opened_log(),
        HttpBody::Empty => r matches Ok(s) && s@.len() == 0 && p1.opened_log() == p0.opened_log(),
        HttpBody::Encrypted(b) => decrypt_outcome(b@, p0, p1, r),
    }
}

/// What `decrypt` gives for a sealed body `b`, taking provider `p0` to `p1`: the framing
/// errors come first, then the missing-sealing error; these make no unsealing call. A
/// well-framed body on a sealing connection has its trailer and sealed data handed to
/// one unsealing call; its failure is an SSPI error, and its plaintext gives the text it
/// decodes to as UTF-8 (bytes that are not UTF-8 are an internal error).
pub open spec fn decrypt_outcome(
    b: Seq<u8>,
    p0: EncryptionProvider,
    p1: EncryptionProvider,
    r: Result<String, PwshCoreError>,
) -> bool {
    let unchanged = p1.opened_log() == p0.opened_log();
    if !extract_guard(b) {
        unchanged && (r matches Err(PwshCoreError::InternalError(_)))
    } else {
        match extract_payload_spec(b) {
            None => unchanged && (r matches Err(PwshCoreError::InternalError(_))),
            Some(p) => match split_payload(p) {
                None => unchanged && (r matches Err(e) && e is InternalError),
                Some((t, d)) => if !p0.requires_encryption() {
                    unchanged && (r matches Err(PwshCoreError::InvalidState(_)))
                } else {
                    &&& p1.opened_log() == p0.opened_log().push((t, d, p1.opened_log().last().2))
                    &&& match p1.opened_log().last().2 {
                        None => r matches Err(e) && e is SspiError,
                        Some(u) => if valid_utf8(u) {
                            r matches Ok(s) && s@ == decode_utf8(u)
                        } else {
                            r matches Err(PwshCoreError::InternalError(m)) && m@ == "Failed to decode decrypted body"@
                        },
                    }
                },
            },
        }
    }
}

fn header_fits_exec(data: &[u8], pattern: &str) -> (r: bool)
    ensures
        r == header_fits(data@, ascii(pattern@)),
{
    let pat = pattern.as_bytes();
    assert(pat@ == ascii(pattern@));
    let dl = data.len();
    match find_subsequence(data, pat) {
        Some(pos) => {
            proof {
                lemma_find_from_some(data@, pat@, 0);
                assert(find_from(data@, pat@, 0) == Some(pos as int));
                assert(matches_at(data@, pat@, pos as int));
            }
            let end = pos + pat.len();
            data.len() >= 2 && end <= data.len() - 2
        },
        None => true,
    }
}

} // verus!
