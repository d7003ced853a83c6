use rpilot::digest::{digest, generate_file_hash};

#[test]
fn test_generate_file_hash() {
    let body: Vec<u8> = b"ENV=test".to_vec();
    let hash = generate_file_hash(&body);
    assert_eq!(hash, "rD8zF37DCZD0fKKUYLqmHj5yyfwSYAlZPalJ7nbUDAQ=");
}

#[test]
fn test_digest_empty_input() {
    let body: Vec<u8> = Vec::new();
    assert_eq!(digest(&body, 1024), "47DEQpj8HBSa+/TImW+5JCeuQeRkm5NMpJWZG3hSuFU=");
}

#[test]
fn test_digest_chunk_size_does_not_matter() {
    let body: Vec<u8> = b"hello world".to_vec();
    let expected = "uU0nuZNNPgilLlLX2n2r+sSE7+N6U4DukIj3rOLvzek=";
    assert_eq!(digest(&body, 1), expected);
    assert_eq!(digest(&body, 2), expected);
    assert_eq!(digest(&body, 3), expected);
    assert_eq!(digest(&body, 1024), expected);
}
