use ironposh_client_core::connector::encryption::{
    extract_binary_payload, find_subsequence, frame_sealed_body, split_binary_payload, text_of_unsealed,
};
use ironposh_client_core::connector::http::HttpBody;
use ironposh_client_core::connector::http::ENCRYPTION_BOUNDARY;
use ironposh_client_core::PwshCoreError;

/// A sealed `multipart/encrypted` SOAP body as a WinRM server sends it: a
/// 16-byte SSPI token and 96 bytes of sealed data.
const REAL_ENCRYPTED_SOAP: &str = "2d2d456e6372797074656420426f756e646172790d0a436f6e74656e742d547970653a206170706c69636174696f6e2f485454502d53504e45474f2d73657373696f6e2d656e637279707465640d0a4f726967696e616c436f6e74656e743a20747970653d6170706c69636174696f6e2f736f61702b786d6c3b636861727365743d5554462d383b4c656e6774683d39360d0a2d2d456e6372797074656420426f756e646172790d0a436f6e74656e742d547970653a206170706c69636174696f6e2f6f637465742d73747265616d0d0a100000000b30557a9fc4e90e33587da2c7ec11360762bd1873ce2984df3a95f04ba6015cb7126dc8237ed9348fea45a0fb56b10c67c21d78d32e89e43f9af550ab0661bc1772cd2883de3994ef4aa5005bb6116cc7227dd8338ee9449ffa55b00b66c11c77d22d88e33e99f44faa0560bb1671cc2d2d456e6372797074656420426f756e646172792d2d0d0a";

fn hex_decode(hex_str: &str) -> Vec<u8> {
    (0..hex_str.len())
        .step_by(2)
        .map(|i| u8::from_str_radix(&hex_str[i..i + 2], 16))
        .collect::<Result<Vec<u8>, _>>()
        .expect("Invalid hex string")
}

#[test]
fn test_extract_binary_payload_from_real_data() {
    let encrypted_data = hex_decode(REAL_ENCRYPTED_SOAP.trim());
    println!("Total encrypted data length: {} bytes", encrypted_data.len());

    let result = extract_binary_payload(&encrypted_data);

    match result {
        Ok(binary_payload) => {
            println!("Successfully extracted binary payload: {} bytes", binary_payload.len());
            assert!(binary_payload.len() >= 4, "Binary payload too short");
            let token_len = u32::from_le_bytes([
                binary_payload[0],
                binary_payload[1],
                binary_payload[2],
                binary_payload[3],
            ]) as usize;
            println!("Token length: {} bytes", token_len);
            assert!(token_len > 0, "Token length should be greater than 0");
            assert!(
                binary_payload.len() >= 4 + token_len,
                "Payload should contain token + encrypted data"
            );
            let encrypted_data_len = binary_payload.len() - 4 - token_len;
            println!("Encrypted data length: {} bytes", encrypted_data_len);
            println!(
                "First 16 bytes of binary payload: {:02x?}",
                &binary_payload[..16.min(binary_payload.len())]
            );
            if binary_payload.len() > 4 + token_len {
                let encrypted_start = 4 + token_len;
                let encrypted_end = (encrypted_start + 16).min(binary_payload.len());
                println!(
                    "First 16 bytes of encrypted data: {:02x?}",
                    &binary_payload[encrypted_start..encrypted_end]
                );
            }
        }
        Err(e) => {
            panic!("Failed to extract binary payload: {:?}", e);
        }
    }
}

#[test]
fn test_multipart_structure_parsing() {
    let encrypted_data = hex_decode(REAL_ENCRYPTED_SOAP.trim());
    let data_str = String::from_utf8_lossy(&encrypted_data);
    println!("Multipart structure:");
    println!("{}", data_str);

    let boundary = format!("--{}", ENCRYPTION_BOUNDARY);
    println!("Looking for boundary: '{}'", boundary);

    let parts: Vec<&str> = data_str.split(&boundary).collect();
    println!("Found {} parts", parts.len());
    for (i, part) in parts.iter().enumerate() {
        println!("Part {}: '{}'", i, part.chars().take(100).collect::<String>());
    }

    let octet_stream_header = "Content-Type: application/octet-stream";
    if data_str.contains(octet_stream_header) {
        println!("Found octet-stream header");
    } else {
        println!("octet-stream header NOT found");
    }
}

#[test]
fn real_data_payload_splits_into_token_and_sealed_data() {
    let encrypted_data = hex_decode(REAL_ENCRYPTED_SOAP);
    let payload = extract_binary_payload(&encrypted_data).unwrap();
    let (token, sealed) = split_binary_payload(&payload).unwrap();
    let expected_token: Vec<u8> = (0..16u32).map(|i| ((i * 37 + 11) % 256) as u8).collect();
    let expected_sealed: Vec<u8> = (0..96u32).map(|i| ((i * 91 + 7) % 256) as u8).collect();
    assert_eq!(token, expected_token);
    assert_eq!(sealed, expected_sealed);
}

#[test]
fn framed_body_extracts_back_to_its_payload() {
    let token = vec![1u8, 2, 3, 4, 5];
    let sealed = vec![9u8; 40];
    let body = frame_sealed_body(40, &token, &sealed);
    let text = String::from_utf8_lossy(&body).to_string();
    assert!(text.starts_with("--Encrypted Boundary\r\nContent-Type: application/HTTP-SPNEGO-session-encrypted\r\n"));
    assert!(text.contains("Length=40\r\n"));
    assert!(text.ends_with("--Encrypted Boundary--\r\n"));
    let payload = extract_binary_payload(&body).unwrap();
    let (t, s) = split_binary_payload(&payload).unwrap();
    assert_eq!(t, token);
    assert_eq!(s, sealed);
}

#[test]
fn compact_octet_header_is_tolerated() {
    let mut body = b"--Encrypted Boundary\r\nContent-Type:application/octet-stream\r\n".to_vec();
    body.extend_from_slice(&[2, 0, 0, 0, 0xaa, 0xbb, 0xcc]);
    body.extend_from_slice(b"--Encrypted Boundary--\r\n");
    let payload = extract_binary_payload(&body).unwrap();
    assert_eq!(payload, vec![2, 0, 0, 0, 0xaa, 0xbb, 0xcc]);
}

#[test]
fn body_without_octet_stream_part_is_an_error() {
    let body = b"--Encrypted Boundary\r\nContent-Type: text/plain\r\nhello".to_vec();
    let result = extract_binary_payload(&body);
    assert!(matches!(result, Err(PwshCoreError::InternalError(_))));
}

#[test]
fn payload_shorter_than_its_token_is_an_error() {
    let payload = vec![10u8, 0, 0, 0, 1, 2];
    let result = split_binary_payload(&payload);
    match result {
        Err(PwshCoreError::InternalError(m)) => {
            assert_eq!(m, "Binary payload too short: expected at least 14 bytes, got 6")
        }
        other => panic!("unexpected result: {:?}", other.is_ok()),
    }
    let result = split_binary_payload(&[1u8, 2]);
    assert!(matches!(result, Err(PwshCoreError::InternalError(_))));
}

#[test]
fn find_subsequence_finds_first_occurrence() {
    assert_eq!(find_subsequence(b"abcabc", b"bc"), Some(1));
    assert_eq!(find_subsequence(b"abc", b""), Some(0));
    assert_eq!(find_subsequence(b"ab", b"abc"), None);
    assert_eq!(find_subsequence(b"abcabc", b"cab"), Some(2));
}

#[test]
fn unsealed_bytes_are_read_as_utf8() {
    assert_eq!(text_of_unsealed("<s:Envelope/> é".as_bytes().to_vec()).unwrap(), "<s:Envelope/> é");
    match text_of_unsealed(vec![0x3c, 0xff, 0x3e]) {
        Err(PwshCoreError::InternalError(m)) => assert_eq!(m, "Failed to decode decrypted body"),
        other => panic!("unexpected result: {:?}", other.is_ok()),
    }
}

#[test]
fn body_length_counts_utf8_bytes() {
    let xml = HttpBody::Xml("é<a/>".to_string());
    assert_eq!(xml.len(), 6);
    assert!(!xml.is_empty());
    assert_eq!(xml.as_str().unwrap().len(), xml.len());
    let empty = HttpBody::Empty;
    assert_eq!(empty.len(), 0);
    assert!(empty.is_empty());
    assert_eq!(empty.as_str().unwrap(), "");
    let sealed = HttpBody::Encrypted(vec![1, 2, 3]);
    assert_eq!(sealed.len(), 3);
    assert!(matches!(sealed.as_str(), Err(PwshCoreError::InternalError(_))));
}
