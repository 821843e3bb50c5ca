//! PSRP session-key exchange: the client's RSA public key blob (`PUBLIC_KEY`), the
//! server's `ENCRYPTED_SESSION_KEY`, and SecureString encryption with the session key
//! (AES-256-CBC, zero IV, PKCS#7).
use vstd::prelude::*;
use vstd::string::*;

use cipher::block_padding::Pkcs7;
use cipher::{BlockModeEncrypt, KeyIvInit};
use rsa::traits::PublicKeyParts;

use crate::connector::auth::{base64_decode, base64_decoding, base64_encode, base64_encoding};
use crate::error::PwshCoreError;
use self::decryptions::RsaDecryptions;
use crate::text::{decimal, decimal_string};

pub mod decryptions;

verus! {

#[verifier::external_type_specification]
#[verifier::external_body]
pub struct ExRsaPrivateKey(rsa::RsaPrivateKey);

#[verifier::external_type_specification]
#[verifier::external_body]
pub struct ExRsaError(rsa::Error);

/// `rsa::RsaPrivateKey::new` with a 2048-bit modulus and the thread-local RNG; the key is
/// random, so nothing is stated of it.
#[verifier::external_body]
fn generate_private_key() -> (r: Result<rsa::RsaPrivateKey, rsa::Error>) {
    let mut rng = rand::thread_rng();
    rsa::RsaPrivateKey::new(&mut rng, 2048)
}

/// `PublicKeyParts::e` of the key, as big-endian bytes (`BigUint::to_bytes_be`).
/// Nothing is stated of the value (the key is random).
#[verifier::external_body]
fn public_exponent_be(key: &rsa::RsaPrivateKey) -> (r: Vec<u8>) {
    key.e().to_bytes_be()
}

/// `PublicKeyParts::n` of the key, as big-endian bytes (`BigUint::to_bytes_be`).
/// Nothing is stated of the value (the key is random).
#[verifier::external_body]
fn public_modulus_be(key: &rsa::RsaPrivateKey) -> (r: Vec<u8>) {
    key.n().to_bytes_be()
}

/// `RsaPrivateKey::decrypt` with PKCS#1 v1.5 padding. The call is recorded in `log` with
/// the ciphertext handed to it and the plaintext it gave; the plaintext itself depends on
/// the random key, so nothing more is stated of it.
#[verifier::external_body]
fn rsa_decrypt_pkcs1v15(key: &rsa::RsaPrivateKey, ciphertext: &[u8], log: &mut RsaDecryptions) -> (r: Result<
    Vec<u8>,
    rsa::Error,
>)
    ensures
        final(log).tried() == old(log).tried().push((ciphertext@, plaintext_of_decryption(r))),
{
    key.decrypt(rsa::Pkcs1v15Encrypt, ciphertext)
}

/// The plaintext a decryption gave, if it gave one.
pub open spec fn plaintext_of_decryption(r: Result<Vec<u8>, rsa::Error>) -> Option<Seq<u8>> {
    match r {
        Ok(p) => Some(p@),
        Err(_) => None,
    }
}

/// AES-256-CBC with a zero IV and PKCS#7 padding of `plaintext` under `key`.
pub uninterp spec fn aes256_cbc_zero_iv_pkcs7(key: Seq<u8>, plaintext: Seq<u8>) -> Seq<u8>;

/// The length of a PKCS#7-padded message of `n` bytes in 16-byte blocks.
pub open spec fn padded_len(n: nat) -> nat {
    (n / 16 + 1) * 16
}

/// `cbc::Encryptor::<aes::Aes256>::new_from_slices` with a zero IV, then
/// `encrypt_padded::<Pkcs7>` over the first `msg_len` bytes of `buf`: the ciphertext
/// (named by `aes256_cbc_zero_iv_pkcs7`), of the padded length. With a 32-byte key and a
/// buffer of at least the padded length neither call fails.
#[verifier::external_body]
fn aes256_cbc_encrypt(key: &[u8], buf: &mut Vec<u8>, msg_len: usize) -> (r: Vec<u8>)
    requires
        key@.len() == 32,
        msg_len <= old(buf)@.len(),
        padded_len(msg_len as nat) <= old(buf)@.len(),
    ensures
        r@ == aes256_cbc_zero_iv_pkcs7(key@, old(buf)@.take(msg_len as int)),
        r@.len() == padded_len(msg_len as nat),
{
    let iv = [0u8; 16];
    let encryptor = cbc::Encryptor::<aes::Aes256>::new_from_slices(key, &iv).unwrap();
    encryptor.encrypt_padded::<Pkcs7>(buf.as_mut_slice(), msg_len).unwrap().to_vec()
}

/// The state of the key exchange: the client's key pair, the big-endian bytes of its
/// public exponent and modulus, and, once the server sent it, the session key.
#[derive(Debug)]
pub struct KeyExchangeState {
    pub private_key: rsa::RsaPrivateKey,
    pub public_exponent: Vec<u8>,
    pub public_modulus: Vec<u8>,
    pub session_key: Option<Vec<u8>>,
}

impl KeyExchangeState {
    /// The state of a key pair with no session key yet; the public exponent and modulus
    /// are read from the key.
    pub fn from_key(private_key: rsa::RsaPrivateKey) -> (s: Self)
        ensures
            s.session_key is None,
    {
        let public_exponent = public_exponent_be(&private_key);
        let public_modulus = public_modulus_be(&private_key);
        KeyExchangeState { private_key, public_exponent, public_modulus, session_key: None }
    }

    /// Generates the client's key pair.
    pub fn new() -> (r: Result<Self, PwshCoreError>)
        ensures
            r matches Ok(s) ==> s.session_key is None,
            r matches Err(e) ==> (e matches PwshCoreError::InternalError(m) && m@ == "failed to generate RSA keypair"@),
    {
        match generate_private_key() {
            Ok(private_key) => Ok(KeyExchangeState::from_key(private_key)),
            Err(_) => Err(PwshCoreError::InternalError(String::from_str("failed to generate RSA keypair"))),
        }
    }
}

/// The CAPI `PUBLICKEYBLOB` header of a 2048-bit RSA key: `PUBLICKEYBLOB`, version 2,
/// `CALG_RSA_KEYX`, `RSA1`, bit length 2048.
pub open spec fn blob_header() -> Seq<u8> {
    seq![
        0x06u8, 0x02, 0x00, 0x00,
        0x00, 0xA4, 0x00, 0x00,
        0x52, 0x53, 0x41, 0x31,
        0x00, 0x08, 0x00, 0x00,
    ]
}

/// The value of big-endian bytes.
pub open spec fn be_value(b: Seq<u8>) -> nat
    decreases b.len(),
{
    if b.len() == 0 {
        0
    } else {
        be_value(b.drop_last()) * 256 + b.last() as nat
    }
}

/// `b` left-padded with zeros to `n` bytes.
pub open spec fn left_pad(b: Seq<u8>, n: nat) -> Seq<u8> {
    Seq::new((n - b.len()) as nat, |i: int| 0u8) + b
}

/// The public key blob for an exponent and a modulus (both big-endian): the header, the
/// exponent as a little-endian `u32`, and the modulus padded to 256 bytes in
/// little-endian order.
pub open spec fn public_key_blob(exponent_be: Seq<u8>, modulus_be: Seq<u8>) -> Seq<u8> {
    blob_header() + crate::connector::encryption::le32(be_value(exponent_be) as u32) + left_pad(
        modulus_be,
        256,
    ).reverse()
}

proof fn lemma_be_value_bound(b: Seq<u8>)
    ensures
        be_value(b) < pow256(b.len()),
    decreases b.len(),
{
    if b.len() > 0 {
        lemma_be_value_bound(b.drop_last());
        let v = be_value(b.drop_last());
        let p = pow256((b.len() - 1) as nat);
        assert(v * 256 + (b.last() as nat) < p * 256) by (nonlinear_arith)
            requires
                v < p,
                b.last() < 256,
        ;
    }
}

/// `256^n`.
pub open spec fn pow256(n: nat) -> nat
    decreases n,
{
    if n == 0 {
        1
    } else {
        256 * pow256((n - 1) as nat)
    }
}

/// Builds the `PUBLIC_KEY` blob; an exponent of no or more than four bytes, or a modulus
/// of more than 256 bytes, is an error.
pub fn build_public_key_blob(exponent_be: &[u8], modulus_be: &[u8]) -> (r: Result<Vec<u8>, PwshCoreError>)
    ensures
        (exponent_be@.len() == 0 || exponent_be@.len() > 4 || modulus_be@.len() > 256) ==> r matches Err(
            PwshCoreError::InternalError(_),
        ),
        !(exponent_be@.len() == 0 || exponent_be@.len() > 4 || modulus_be@.len() > 256) ==> (r matches Ok(
            blob,
        ) && blob@ == public_key_blob(exponent_be@, modulus_be@)),
{
    if exponent_be.len() == 0 || exponent_be.len() > 4 {
        return Err(PwshCoreError::InternalError(String::from_str("unexpected RSA exponent length")));
    }
    if modulus_be.len() > 256 {
        return Err(PwshCoreError::InternalError(String::from_str("RSA modulus too large")));
    }
    let mut blob: Vec<u8> = Vec::new();
    blob.push(0x06u8);
    blob.push(0x02u8);
    blob.push(0x00u8);
    blob.push(0x00u8);
    blob.push(0x00u8);
    blob.push(0xA4u8);
    blob.push(0x00u8);
    blob.push(0x00u8);
    blob.push(0x52u8);
    blob.push(0x53u8);
    blob.push(0x41u8);
    blob.push(0x31u8);
    blob.push(0x00u8);
    blob.push(0x08u8);
    blob.push(0x00u8);
    blob.push(0x00u8);
    proof {
        assert(blob@ =~= blob_header());
    }
    // The exponent, big-endian, as a number.
    let mut e: u32 = 0;
    let mut i: usize = 0;
    while i < exponent_be.len()
        invariant
            exponent_be@.len() <= 4,
            i <= exponent_be@.len(),
            e as nat == be_value(exponent_be@.take(i as int)),
        decreases exponent_be@.len() - i,
    {
        proof {
            assert(exponent_be@.take(i + 1).drop_last() =~= exponent_be@.take(i as int));
            lemma_be_value_bound(exponent_be@.take(i as int));
            assert(pow256(i as nat) <= pow256(3)) by {
                lemma_pow256_mono(i as nat, 3);
            }
            assert(pow256(3) == 16777216) by {
                reveal_with_fuel(pow256, 4);
            }
            assert(e * 256 + exponent_be@[i as int] < 4294967296) by (nonlinear_arith)
                requires
                    e < 16777216,
                    exponent_be@[i as int] < 256,
            ;
        }
        e = e * 256 + exponent_be[i] as u32;
        i = i + 1;
    }
    proof {
        assert(exponent_be@.take(i as int) =~= exponent_be@);
    }
    let ghost before_e = blob@;
    blob.push((e % 256) as u8);
    blob.push(((e / 256) % 256) as u8);
    blob.push(((e / 65536) % 256) as u8);
    blob.push(((e / 16777216) % 256) as u8);
    proof {
        assert(blob@ =~= before_e + crate::connector::encryption::le32(e));
    }
    // The modulus, zero-padded to 256 bytes, in little-endian order.
    let ghost before_m = blob@;
    let ghost padded = left_pad(modulus_be@, 256);
    let ml = modulus_be.len();
    let mut k: usize = 0;
    while k < ml
        invariant
            ml == modulus_be@.len(),
            ml <= 256,
            k <= ml,
            padded == left_pad(modulus_be@, 256),
            blob@ == before_m + padded.reverse().take(k as int),
        decreases ml - k,
    {
        proof {
            assert(padded.reverse().take(k + 1) =~= padded.reverse().take(k as int).push(padded.reverse()[k as int]));
            assert(padded.reverse()[k as int] == modulus_be@[ml - 1 - k]);
        }
        blob.push(modulus_be[ml - 1 - k]);
        k = k + 1;
    }
    while k < 256
        invariant
            ml == modulus_be@.len(),
            ml <= k <= 256,
            padded == left_pad(modulus_be@, 256),
            blob@ == before_m + padded.reverse().take(k as int),
        decreases 256 - k,
    {
        proof {
            assert(padded.reverse().take(k + 1) =~= padded.reverse().take(k as int).push(padded.reverse()[k as int]));
            assert(padded.reverse()[k as int] == 0u8);
        }
        blob.push(0u8);
        k = k + 1;
    }
    proof {
        assert(padded.reverse().take(256) =~= padded.reverse());
    }
    Ok(blob)
}

proof fn lemma_pow256_mono(a: nat, b: nat)
    requires
        a <= b,
    ensures
        pow256(a) <= pow256(b),
    decreases b,
{
    if a < b {
        lemma_pow256_mono(a, (b - 1) as nat);
    }
}

/// What building the base64 `PUBLIC_KEY` blob from an exponent and a modulus gives: an
/// exponent of no or more than four bytes, or a modulus of more than 256 bytes, is an
/// internal error; otherwise the base64 text of the blob.
pub open spec fn public_key_blob_text_outcome(e: Seq<u8>, m: Seq<u8>, r: Result<String, PwshCoreError>) -> bool {
    if e.len() == 0 || e.len() > 4 || m.len() > 256 {
        r matches Err(PwshCoreError::InternalError(_))
    } else {
        r matches Ok(s) && s@ == base64_encoding(public_key_blob(e, m))
    }
}

/// The `PUBLIC_KEY` blob of the client's key, base64-encoded: the blob of the key's
/// public exponent and modulus.
pub fn build_public_key_blob_base64(state: &KeyExchangeState) -> (r: Result<String, PwshCoreError>)
    ensures
        public_key_blob_text_outcome(state.public_exponent@, state.public_modulus@, r),
{
    match build_public_key_blob(state.public_exponent.as_slice(), state.public_modulus.as_slice()) {
        Ok(blob) => Ok(base64_encode(blob.as_slice())),
        Err(err) => Err(err),
    }
}

/// The message for an `ENCRYPTED_SESSION_KEY` blob of `n` bytes, too short to hold its
/// header and ciphertext.
pub open spec fn blob_too_short_message(n: nat) -> Seq<char> {
    "EncryptedSessionKey blob too short: "@ + decimal(n) + " bytes"@
}

/// The message for a decrypted session key of `n` bytes (not 32).
pub open spec fn key_length_message(n: nat) -> Seq<char> {
    "Unexpected decrypted PSRP session key length: "@ + decimal(n) + " bytes"@
}

/// The 256 encrypted bytes of an `ENCRYPTED_SESSION_KEY` blob (after its 12-byte
/// header), when the base64 text decodes to at least 268 bytes.
pub open spec fn encrypted_session_key_bytes(encoded: Seq<char>) -> Option<Seq<u8>> {
    match base64_decoding(encoded) {
        Some(d) => if d.len() >= 268 {
            Some(d.subrange(12, 268))
        } else {
            None
        },
        None => None,
    }
}

/// The ciphertext of an `ENCRYPTED_SESSION_KEY` blob: bytes 12 to 268 of its base64
/// decoding. Text that is no base64, or decodes to fewer than 268 bytes, is an invalid
/// response.
pub fn encrypted_session_key_ciphertext(encoded: &str) -> (r: Result<Vec<u8>, PwshCoreError>)
    ensures
        match base64_decoding(encoded@) {
            None => r matches Err(PwshCoreError::InvalidResponse(m)) && m@ == "Invalid base64 EncryptedSessionKey"@,
            Some(d) => if d.len() < 268 {
                r matches Err(PwshCoreError::InvalidResponse(m)) && m@ == blob_too_short_message(d.len())
            } else {
                r matches Ok(c) && encrypted_session_key_bytes(encoded@) == Some(c@)
            },
        },
{
    let decoded = match base64_decode(encoded) {
        Ok(d) => d,
        Err(_) => return Err(PwshCoreError::InvalidResponse(String::from_str("Invalid base64 EncryptedSessionKey"))),
    };
    if decoded.len() < 268 {
        let m = String::from_str("EncryptedSessionKey blob too short: ").concat(
            decimal_string(decoded.len() as u64).as_str(),
        ).concat(" bytes");
        return Err(PwshCoreError::InvalidResponse(m));
    }
    let mut encrypted: Vec<u8> = Vec::new();
    let mut i: usize = 12;
    while i < 268
        invariant
            12 <= i <= 268,
            decoded@.len() >= 268,
            encrypted@ == decoded@.subrange(12, i as int),
        decreases 268 - i,
    {
        encrypted.push(decoded[i]);
        proof {
            assert(decoded@.subrange(12, i + 1) =~= decoded@.subrange(12, i as int).push(decoded@[i as int]));
        }
        i = i + 1;
    }
    Ok(encrypted)
}

/// The bytes in reverse order.
pub fn reversed_bytes(v: &Vec<u8>) -> (r: Vec<u8>)
    ensures
        r@ == v@.reverse(),
{
    let mut out: Vec<u8> = Vec::new();
    let mut j: usize = v.len();
    while j > 0
        invariant
            j <= v@.len(),
            out@.len() == v@.len() - j,
            forall|k: int| 0 <= k < out@.len() ==> #[trigger] out@[k] == v@[v@.len() - 1 - k],
        decreases j,
    {
        out.push(v[j - 1]);
        j = j - 1;
    }
    assert(out@ =~= v@.reverse());
    out
}

/// What a decrypted session key gives: the key when it is 32 bytes, an invalid response
/// otherwise.
pub open spec fn session_key_of(p: Seq<u8>, r: Result<Vec<u8>, PwshCoreError>) -> bool {
    if p.len() == 32 {
        r matches Ok(k) && k@ == p
    } else {
        r matches Err(PwshCoreError::InvalidResponse(m)) && m@ == key_length_message(p.len())
    }
}

/// The session key from the RSA decryptions of the ciphertext as given (`first`) and,
/// when that failed, byte-reversed (`second`): the first plaintext obtained must be 32
/// bytes; when neither decryption succeeded the key could not be decrypted.
pub fn session_key_from_decryptions(
    first: Result<Vec<u8>, rsa::Error>,
    second: Option<Result<Vec<u8>, rsa::Error>>,
) -> (r: Result<Vec<u8>, PwshCoreError>)
    ensures
        match first {
            Ok(p) => session_key_of(p@, r),
            Err(_) => match second {
                Some(Ok(p)) => session_key_of(p@, r),
                _ => r matches Err(PwshCoreError::InternalError(m)) && m@ == "failed to decrypt EncryptedSessionKey"@,
            },
        },
{
    let plain = match first {
        Ok(p) => p,
        Err(_) => match second {
            Some(Ok(p)) => p,
            _ => {
                return Err(PwshCoreError::InternalError(String::from_str("failed to decrypt EncryptedSessionKey")));
            },
        },
    };
    if plain.len() != 32 {
        return Err(
            PwshCoreError::InvalidResponse(
                String::from_str("Unexpected decrypted PSRP session key length: ").concat(
                    decimal_string(plain.len() as u64).as_str(),
                ).concat(" bytes"),
            ),
        );
    }
    Ok(plain)
}

/// What decrypting a session key can give: a 32-byte key, a failed decryption, or a
/// plaintext of another length.
pub open spec fn decryption_outcome(r: Result<Vec<u8>, PwshCoreError>) -> bool {
    ||| r matches Ok(k) && k@.len() == 32
    ||| r matches Err(PwshCoreError::InternalError(m)) && m@ == "failed to decrypt EncryptedSessionKey"@
    ||| r matches Err(PwshCoreError::InvalidResponse(m)) && exists|n: nat| n != 32 && m@ == #[trigger] key_length_message(n)
}

/// The decryptions made for session-key ciphertext `c`, in order (`tried`), and the
/// result `r` they lead to: `c` as given is decrypted first; only when that fails is the
/// byte-reversed `c` decrypted; the session key is the first plaintext obtained (see
/// `session_key_of`), and when both fail the key could not be decrypted.
pub open spec fn session_key_decryptions(
    c: Seq<u8>,
    tried: Seq<(Seq<u8>, Option<Seq<u8>>)>,
    r: Result<Vec<u8>, PwshCoreError>,
) -> bool {
    &&& tried.len() >= 1
    &&& tried[0].0 == c
    &&& match tried[0].1 {
        Some(p) => tried.len() == 1 && session_key_of(p, r),
        None => {
            &&& tried.len() == 2
            &&& tried[1].0 == c.reverse()
            &&& match tried[1].1 {
                Some(p) => session_key_of(p, r),
                None => r matches Err(PwshCoreError::InternalError(m)) && m@ == "failed to decrypt EncryptedSessionKey"@,
            }
        },
    }
}

/// Decrypts the session-key ciphertext with the client's key: as given and, when that
/// fails, byte-reversed (see `session_key_from_decryptions`). The decryptions are recorded
/// in `log`.
pub fn decrypt_session_key(encrypted: &Vec<u8>, key: &rsa::RsaPrivateKey, log: &mut RsaDecryptions) -> (r: Result<
    Vec<u8>,
    PwshCoreError,
>)
    ensures
        final(log).tried().take(old(log).tried().len() as int) == old(log).tried(),
        session_key_decryptions(encrypted@, final(log).tried().skip(old(log).tried().len() as int), r),
        decryption_outcome(r),
{
    let ghost before = log.tried();
    let first = rsa_decrypt_pkcs1v15(key, encrypted.as_slice(), log);
    let second = match &first {
        Ok(_) => None,
        Err(_) => {
            let reversed = reversed_bytes(encrypted);
            Some(rsa_decrypt_pkcs1v15(key, reversed.as_slice(), log))
        },
    };
    proof {
        assert(log.tried().take(before.len() as int) =~= before);
    }
    session_key_from_decryptions(first, second)
}

/// Decodes the server's `ENCRYPTED_SESSION_KEY`: base64, a 12-byte header, 256 bytes of
/// RSA (PKCS#1 v1.5) ciphertext, decrypted as given and, when that fails, byte-reversed;
/// the session key must be 32 bytes. Only a blob that is no base64 or too short is
/// refused before decryption.
pub fn decode_encrypted_session_key(encoded: &str, key: &rsa::RsaPrivateKey) -> (r: Result<Vec<u8>, PwshCoreError>)
    ensures
        match base64_decoding(encoded@) {
            None => r matches Err(PwshCoreError::InvalidResponse(m)) && m@ == "Invalid base64 EncryptedSessionKey"@,
            Some(d) => if d.len() < 268 {
                r matches Err(PwshCoreError::InvalidResponse(m)) && m@ == blob_too_short_message(d.len())
            } else {
                decryption_outcome(r)
            },
        },
{
    let encrypted = encrypted_session_key_ciphertext(encoded)?;
    let mut log = RsaDecryptions::new();
    decrypt_session_key(&encrypted, key, &mut log)
}

/// Encrypts a SecureString payload (UTF-16LE bytes) with the 32-byte session key; any
/// other key length is an error.
pub fn encrypt_secure_string_bytes(bytes: &Vec<u8>, session_key: &[u8]) -> (r: Result<Vec<u8>, PwshCoreError>)
    ensures
        session_key@.len() != 32 ==> r matches Err(PwshCoreError::InvalidResponse(_)),
        session_key@.len() == 32 ==> (r matches Ok(c) && c@ == aes256_cbc_zero_iv_pkcs7(session_key@, bytes@)
            && c@.len() == padded_len(bytes@.len())),
{
    if session_key.len() != 32 {
        return Err(
            PwshCoreError::InvalidResponse(
                String::from_str("PSRP SecureString encryption requires 32-byte session key"),
            ),
        );
    }
    let msg_len = bytes.len();
    let pad = 16 - (msg_len % 16);
    let mut buf: Vec<u8> = Vec::new();
    buf.extend_from_slice(bytes.as_slice());
    let mut k: usize = 0;
    while k < pad
        invariant
            k <= pad,
            pad <= 16,
            buf@.len() == msg_len + k,
            buf@.take(msg_len as int) == bytes@,
            msg_len == bytes@.len(),
        decreases pad - k,
    {
        buf.push(0u8);
        proof {
            assert(buf@.take(msg_len as int) =~= bytes@);
        }
        k = k + 1;
    }
    proof {
        assert(buf@.take(msg_len as int) =~= bytes@);
        assert(msg_len + pad == padded_len(msg_len as nat)) by (nonlinear_arith)
            requires
                pad == 16 - (msg_len % 16),
        ;
    }
    let out = aes256_cbc_encrypt(session_key, &mut buf, msg_len);
    Ok(out)
}

} // verus!
