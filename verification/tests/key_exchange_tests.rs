use ironposh_client_core::host::call::{HostCall, HostCallScope};
use ironposh_client_core::runspace_pool::enums::{PsInvocationState, RunspacePoolState};
use ironposh_client_core::runspace_pool::incoming::{
    AcceptResponsResult, GateDecision, HostCallGate, PsrpAction, PsrpMessage,
};
use ironposh_client_core::runspace_pool::lifecycle::{PipelineEntry, RunspacePool};
use ironposh_client_core::runspace_pool::key_exchange::{
    build_public_key_blob, build_public_key_blob_base64, decode_encrypted_session_key,
    encrypt_secure_string_bytes, encrypted_session_key_ciphertext, reversed_bytes,
    session_key_from_decryptions, KeyExchangeState,
};
use ironposh_client_core::PwshCoreError;
use base64::Engine;
use rsa::{BigUint, RsaPrivateKey};

/// A 2048-bit RSA key (public exponent 65537): modulus, private exponent and the two primes, as
/// big-endian hex.
const MODULUS_HEX: &str = "\
    c1726a6098556c818d8a283dc5cd30dd21d06c25283d0670fbd1050d3ba4c8517e17101959fc83b2483ae2304d63b8aa\
    77b29ad566a6dfb5c50fd46dbb81ee626b36884bf44680c48a9ae046726a3e6a1d2d59b77c5fbfa5b44d68d4a43680cd\
    9974f542cb2b4c039a78125b44678a973d281dce4b9bfffcdd7235efd500b421011db32cfd03eecb3720d203df949474\
    136c8660298eff3e5cecf39c1b2e45a8064af8a0eca052e920de33ee67643d432e113ca4c76452c3b788f26387cdd69e\
    26ffefcae6971a50485c2a295f06cf7f25d2c84f4615f21419966575143f88c70d0d18be24b013fa336d7ea50e0219d9\
    679640809ea37480adc178a180198893";
const PRIVATE_EXPONENT_HEX: &str = "\
    5ccf3a77468eb164c495f4b1925d5c24b3cced9db41cf722acc5ff00f6cd1ba87170ba321788bd5c8327f10e108b17f5\
    7d410ce4f67f78541a8bfa347d621c8f4e75d6d56e08874e045bc2df39947c8667a232e983bbe2542b597a428ed8715a\
    72d5f8b7878729cc8ec72db368f1ae3dda430d6dc4bbbf08bfebc431e10519e5e741d32ae4e2ba685b497e1f4b2e0569\
    89acae256b94d20fdaef7e72326eefd3d210b51234d0c11045a8644eb5ef2f28cda8f9639f48c4fcd9ba3ce7553a251c\
    7228e10ce1f9208b74c4e310eada85595b0fee284186e991d548ef78da9268e8d7e603d52a9571479dcdfdeca889d71c\
    52f1b52da42b5e81266502714d59657d";
const PRIME_P_HEX: &str = "\
    f4e89ccbb8718e3d2f22adc915a8ff1eab33e22776532de56f7dd644d3b6710ce8acc1b4b4ed2d2e011c84488936bef2\
    ed5daefa2796f32570d11c567288d22cb15a7e2cca5df8b04d05ab06f2fbfdd33a53d9695ab713a1f3146313691fc51d\
    645482f90c66af30434ea1ebd009349c7ec49422aa432a31e0264599c0631117";
const PRIME_Q_HEX: &str = "\
    ca352c6c16832a728e12ea8ad640a92aab7bbc5f9aa5bbdf2fc13295e5202e6fd7b8551d0763f5f55d6cf872891ff0c7\
    a14501cf24a0088e789e676d613467bd8c068ab13f59e0b16a3d3efb7d06d2e4d2f117a158e7d16cd2a0dc593dc4cfd8\
    4e25f1c67deba4369c4eb8e0be17a4557808aa99f9344411233b9533bdb019e5";

/// An ENCRYPTED_SESSION_KEY blob: a 12-byte header and the RSA ciphertext of the
/// session key 1, 2, ..., 32 in little-endian byte order.
const ENCRYPTED_SESSION_KEY: &str = "AQIAABBmAAAApAAAl8C7FevAZXEb5clrSvT4EYYmvD3ybJZg5Q2/J2XAa0b8IRQEgO7CgTZaZNIAPhr7iK9+fY5djmIlhT+NzPKggfkRhW346w5kreSlDtpxXV0JTsbaJ0XfoafGrGyaNP26krTIJPLn7RzST3+77migGLJku1+qMScU81XD4E4ZWW0rRSB7waZMwk4WB5JVGVQr9YpjaA00SmT+G5IlgAFfY98ZJx1rvfAkQDkNHyaeSAFW6IQ5/FGSCanXNrp7ek5Y23KYHs30RHyUhBsIRNwx1AsQtlqKHXKKiHFpBm8VqJKvolXVXgZLnEvI7iHnekkFSgdcrs7rWZHdRW8fLiKwCA==";

fn hex(s: &str) -> Vec<u8> {
    (0..s.len()).step_by(2).map(|i| u8::from_str_radix(&s[i..i + 2], 16).unwrap()).collect()
}

fn private_key() -> RsaPrivateKey {
    let big = |h: &str| BigUint::from_bytes_be(&hex(h));
    RsaPrivateKey::from_components(
        big(MODULUS_HEX),
        BigUint::from(65537u32),
        big(PRIVATE_EXPONENT_HEX),
        vec![big(PRIME_P_HEX), big(PRIME_Q_HEX)],
    )
    .unwrap()
}

#[test]
fn public_key_blob_layout() {
    let modulus = vec![0xAAu8, 0xBB, 0xCC];
    let blob = build_public_key_blob(&[0x01, 0x00, 0x01], &modulus).unwrap();
    assert_eq!(blob.len(), 16 + 4 + 256);
    assert_eq!(&blob[..16], &[0x06, 0x02, 0x00, 0x00, 0x00, 0xA4, 0x00, 0x00, 0x52, 0x53, 0x41, 0x31, 0x00, 0x08, 0x00, 0x00]);
    assert_eq!(&blob[16..20], &[0x01, 0x00, 0x01, 0x00]);
    assert_eq!(&blob[20..23], &[0xCC, 0xBB, 0xAA]);
    assert!(blob[23..].iter().all(|b| *b == 0));
}

#[test]
fn public_key_blob_rejects_bad_sizes() {
    assert!(matches!(build_public_key_blob(&[], &[1]), Err(PwshCoreError::InternalError(_))));
    assert!(matches!(build_public_key_blob(&[1, 2, 3, 4, 5], &[1]), Err(PwshCoreError::InternalError(_))));
    assert!(matches!(build_public_key_blob(&[1], &[0u8; 257]), Err(PwshCoreError::InternalError(_))));
}

#[test]
fn public_key_blob_of_a_real_key() {
    let modulus = hex(MODULUS_HEX);
    assert_eq!(modulus.len(), 256);
    let blob = build_public_key_blob(&[0x01, 0x00, 0x01], &modulus).unwrap();
    assert_eq!(blob.len(), 16 + 4 + 256);
    assert_eq!(&blob[16..20], &[0x01, 0x00, 0x01, 0x00]);
    let mut le = modulus.clone();
    le.reverse();
    assert_eq!(&blob[20..], &le[..]);
}

#[test]
fn session_key_is_decrypted_from_its_blob() {
    let key = private_key();
    let session_key = decode_encrypted_session_key(ENCRYPTED_SESSION_KEY, &key).unwrap();
    assert_eq!(session_key, (1..=32).collect::<Vec<u8>>());
    assert!(matches!(decode_encrypted_session_key("!!", &key), Err(PwshCoreError::InvalidResponse(_))));
    assert!(matches!(decode_encrypted_session_key("AAAA", &key), Err(PwshCoreError::InvalidResponse(_))));
}

#[test]
fn secure_strings_are_sealed_with_the_session_key() {
    let key: Vec<u8> = (1..=32).collect();
    let plain: Vec<u8> = "secret".encode_utf16().flat_map(|u| u.to_le_bytes()).collect();
    let sealed = encrypt_secure_string_bytes(&plain, &key).unwrap();
    assert_eq!(sealed, hex("15df05e006e9c0ca6074e5aac3a695f2"));
    assert!(matches!(encrypt_secure_string_bytes(&plain, &key[..16]), Err(PwshCoreError::InvalidResponse(_))));
    let whole_block = vec![0u8; 16];
    assert_eq!(encrypt_secure_string_bytes(&whole_block, &key).unwrap().len(), 32);
}

#[test]
fn session_key_ciphertext_is_bytes_12_to_268() {
    let c = encrypted_session_key_ciphertext(ENCRYPTED_SESSION_KEY).unwrap();
    assert_eq!(c.len(), 256);
    match encrypted_session_key_ciphertext("!!") {
        Err(PwshCoreError::InvalidResponse(m)) => assert_eq!(m, "Invalid base64 EncryptedSessionKey"),
        other => panic!("unexpected: {}", other.is_ok()),
    }
    match encrypted_session_key_ciphertext("AAAA") {
        Err(PwshCoreError::InvalidResponse(m)) => assert_eq!(m, "EncryptedSessionKey blob too short: 3 bytes"),
        other => panic!("unexpected: {}", other.is_ok()),
    }
}

#[test]
fn reversed_bytes_reverses() {
    assert_eq!(reversed_bytes(&vec![1u8, 2, 3]), vec![3u8, 2, 1]);
    assert_eq!(reversed_bytes(&vec![]), Vec::<u8>::new());
}

#[test]
fn session_key_comes_from_the_first_successful_decryption() {
    let key: Vec<u8> = (1..=32).collect();
    assert_eq!(session_key_from_decryptions(Ok(key.clone()), None).unwrap(), key);
    assert_eq!(
        session_key_from_decryptions(Err(rsa::Error::Decryption), Some(Ok(key.clone()))).unwrap(),
        key
    );
    match session_key_from_decryptions(Err(rsa::Error::Decryption), Some(Err(rsa::Error::Decryption))) {
        Err(PwshCoreError::InternalError(m)) => assert_eq!(m, "failed to decrypt EncryptedSessionKey"),
        other => panic!("unexpected: {}", other.is_ok()),
    }
    match session_key_from_decryptions(Ok(vec![1u8; 16]), None) {
        Err(PwshCoreError::InvalidResponse(m)) => {
            assert_eq!(m, "Unexpected decrypted PSRP session key length: 16 bytes")
        }
        other => panic!("unexpected: {}", other.is_ok()),
    }
}

#[test]
fn public_key_blob_base64_is_the_blob_of_the_key() {
    let st = KeyExchangeState::from_key(private_key());
    assert_eq!(st.public_exponent, vec![0x01u8, 0x00, 0x01]);
    assert_eq!(st.public_modulus, hex(MODULUS_HEX));
    let text = build_public_key_blob_base64(&st).unwrap();
    let blob = build_public_key_blob(&st.public_exponent, &st.public_modulus).unwrap();
    assert_eq!(base64::engine::general_purpose::STANDARD.decode(text).unwrap(), blob);
}

#[test]
fn gate_decrypts_the_session_key_and_releases_waiting_calls() {
    let mut gate = HostCallGate::new();
    gate.key_exchange = Some(KeyExchangeState::from_key(private_key()));
    let secure = HostCall::try_from_pipeline(HostCallScope::RunspacePool, 12, 1, vec![]).unwrap();
    assert!(matches!(gate.accept_host_call(secure), GateDecision::DeferredStartKeyExchange));
    let plain: Vec<u8> = "secret".encode_utf16().flat_map(|u| u.to_le_bytes()).collect();
    match gate.encrypt_secure_string(&plain) {
        Err(PwshCoreError::InvalidResponse(m)) => {
            assert_eq!(m, "SecureString encountered but PSRP session key is not established")
        }
        other => panic!("unexpected: {}", other.is_ok()),
    }
    let released = gate.accept_encrypted_session_key(ENCRYPTED_SESSION_KEY).unwrap();
    assert_eq!(released.len(), 1);
    assert!(matches!(&released[0], AcceptResponsResult::HostCall(hc) if hc.call_id == 1));
    assert!(gate.has_session_key);
    assert!(!gate.psrp_key_exchange_pending);
    let st = gate.key_exchange.as_ref().unwrap();
    assert_eq!(st.session_key, Some((1..=32).collect::<Vec<u8>>()));
    assert_eq!(gate.encrypt_secure_string(&plain).unwrap(), hex("15df05e006e9c0ca6074e5aac3a695f2"));
}

#[test]
fn gate_refuses_a_bad_session_key_blob_and_keeps_its_state() {
    let mut gate = HostCallGate::new();
    assert!(matches!(gate.accept_encrypted_session_key("!!"), Err(PwshCoreError::InvalidResponse(_))));
    assert!(gate.key_exchange.is_none());
    assert!(!gate.has_session_key);
}

#[test]
fn psrp_messages_are_handled_in_order() {
    let mut pool = RunspacePool::new(1);
    pool.pipelines.push(PipelineEntry { id: 7, state: PsInvocationState::Running });
    let mut gate = HostCallGate::new();
    let msgs = vec![
        (None, PsrpMessage::RunspacePoolState { value: 2 }),
        (Some(7), PsrpMessage::PipelineOutput { rendered: "hello".to_string() }),
        (None, PsrpMessage::Record { rendered: "dropped".to_string() }),
        (Some(7), PsrpMessage::PipelineState { state: PsInvocationState::Completed }),
        (None, PsrpMessage::SessionCapability),
    ];
    let actions = pool.handle_psrp_messages(&mut gate, msgs).unwrap();
    assert_eq!(actions.len(), 1);
    assert!(matches!(&actions[0],
        PsrpAction::Accept(AcceptResponsResult::PipelineOutput { output, handle }) if output == "hello" && handle.id == 7));
    assert_eq!(pool.state, RunspacePoolState::Opened);
    assert_eq!(pool.pipelines[0].state, PsInvocationState::Completed);
}

#[test]
fn psrp_handling_stops_at_the_first_error() {
    let mut pool = RunspacePool::new(1);
    let mut gate = HostCallGate::new();
    let msgs = vec![
        (None, PsrpMessage::ErrorRecord { rendered: "boom".to_string() }),
        (None, PsrpMessage::RunspacePoolState { value: 2 }),
    ];
    match pool.handle_psrp_messages(&mut gate, msgs) {
        Err(PwshCoreError::InvalidResponse(m)) => assert_eq!(m, "ErrorRecord message must have a command_id"),
        other => panic!("unexpected: {}", other.is_ok()),
    }
    assert_eq!(pool.state, RunspacePoolState::BeforeOpen);
}

#[test]
fn public_key_request_sends_the_public_key() {
    let mut pool = RunspacePool::new(1);
    let mut gate = HostCallGate::new();
    gate.key_exchange = Some(KeyExchangeState::from_key(private_key()));
    let expected = build_public_key_blob_base64(gate.key_exchange.as_ref().unwrap()).unwrap();
    let actions = pool.handle_psrp_messages(&mut gate, vec![(None, PsrpMessage::PublicKeyRequest)]).unwrap();
    assert_eq!(actions.len(), 1);
    assert!(matches!(&actions[0], PsrpAction::SendPublicKey { public_key } if *public_key == expected));
    let actions = pool
        .handle_psrp_messages(&mut gate, vec![(None, PsrpMessage::EncryptedSessionKey { encoded: ENCRYPTED_SESSION_KEY.to_string() })])
        .unwrap();
    assert!(actions.is_empty());
    assert!(gate.has_session_key);
}
