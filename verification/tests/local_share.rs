use aes_gcm::aead::{Aead, KeyInit};
use filet::share::{
    content_disposition, encode_key_b64, mime_for_path, random_bytes, seal_chunk, share_link,
    SharedFile,
};

#[test]
fn seal_chunk_round_trips_through_aes_gcm() {
    let key: Vec<u8> = vec![7u8; 32];
    let nonce: Vec<u8> = vec![9u8; 12];
    let plain: Vec<u8> = b"hello".to_vec();
    let framed = seal_chunk(&key, &nonce, &plain).expect("sealing must succeed");
    assert_eq!(framed.len(), 12 + plain.len() + 16);
    assert_eq!(&framed[..12], nonce.as_slice());

    let cipher = aes_gcm::Aes256Gcm::new_from_slice(&key).unwrap();
    let opened = cipher
        .decrypt(aes_gcm::Nonce::from_slice(&framed[..12]), &framed[12..])
        .expect("the frame must decrypt");
    assert_eq!(opened, plain);
}

#[test]
fn seal_chunk_full_chunk_succeeds() {
    // One full 1 MiB read of the streaming loop is far inside GCM's limit,
    // so sealing is owed, not just described.
    let key: Vec<u8> = vec![3u8; 32];
    let nonce: Vec<u8> = vec![4u8; 12];
    let plain: Vec<u8> = vec![0xA5u8; 1024 * 1024];
    let framed = seal_chunk(&key, &nonce, &plain).expect("a 1 MiB chunk must seal");
    assert_eq!(framed.len(), 12 + plain.len() + 16);
}

#[test]
fn seal_chunk_empty_plaintext() {
    let key: Vec<u8> = vec![1u8; 32];
    let nonce: Vec<u8> = vec![2u8; 12];
    let framed = seal_chunk(&key, &nonce, &Vec::new()).expect("sealing must succeed");
    assert_eq!(framed.len(), 28);
}

#[test]
fn key_encoding_is_unpadded_url_safe() {
    assert_eq!(encode_key_b64(&Vec::new()).as_str(), "");
    assert_eq!(encode_key_b64(&vec![0, 0, 0]).as_str(), "AAAA");
    assert_eq!(encode_key_b64(&vec![251, 239]).as_str(), "--8");
    let key = encode_key_b64(&vec![0u8; 32]);
    assert_eq!(key.len(), 43);
    assert_eq!(key.as_str(), "A".repeat(43));
}

#[test]
fn mime_guessing() {
    assert_eq!(mime_for_path("notes.txt").as_str(), "text/plain");
    assert_eq!(
        mime_for_path("blob.bin_unknown_ext").as_str(),
        "application/octet-stream"
    );
}

#[test]
fn share_links() {
    assert_eq!(
        share_link("example.org", 80, "tok_123", "KEY").as_str(),
        "http://example.org/d/tok_123#KEY"
    );
    assert_eq!(
        share_link("10.0.0.5", 4010, "tok_123", "KEY").as_str(),
        "http://10.0.0.5:4010/d/tok_123#KEY"
    );
}

#[test]
fn content_disposition_escapes_quotes() {
    assert_eq!(
        content_disposition("plain.bin").as_str(),
        "attachment; filename=\"plain.bin\""
    );
    assert_eq!(
        content_disposition("we\"ird.bin").as_str(),
        "attachment; filename=\"we\\\"ird.bin\""
    );
}

#[test]
fn random_bytes_length_and_freshness() {
    let a = random_bytes(32);
    let b = random_bytes(32);
    assert_eq!(a.len(), 32);
    assert_eq!(b.len(), 32);
    assert_ne!(a, b);
}

#[test]
fn shared_file_holds_fields() {
    let f = SharedFile::new(
        "/tmp/a.bin".to_string(),
        "a.bin".to_string(),
        5,
        "application/octet-stream".to_string(),
        vec![0u8; 32],
    );
    assert_eq!(f.path.as_str(), "/tmp/a.bin");
    assert_eq!(f.filename.as_str(), "a.bin");
    assert_eq!(f.size, 5);
    assert_eq!(f.enc_key.len(), 32);
}
