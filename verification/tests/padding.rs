use darkrelay::protocol::crypto::{add_padding, add_padding_with, generate_padding, remove_padding};

#[test]
fn test_padding_roundtrip() {
    let plaintext = b"Hello, world!";
    let padded = add_padding(plaintext);
    let recovered = remove_padding(&padded).unwrap();
    assert_eq!(plaintext, recovered.as_slice());
}

#[test]
fn test_padding_varies() {
    let plaintext = b"test";
    let padded1 = add_padding(plaintext);
    let padded2 = add_padding(plaintext);
    // Padding should make different sizes (most of the time)
    // At least verify they decode to same plaintext
    assert_eq!(remove_padding(&padded1).unwrap(), plaintext);
    assert_eq!(remove_padding(&padded2).unwrap(), plaintext);
}

#[test]
fn padding_has_the_stated_layout() {
    let padded = add_padding_with(b"abc", &[9, 9]);
    assert_eq!(padded, vec![0, 0, 0, 3, b'a', b'b', b'c', 9, 9]);
}

#[test]
fn padding_is_bounded() {
    for _ in 0..50 {
        assert!(generate_padding().len() <= 256);
        let padded = add_padding(b"xy");
        assert!(padded.len() >= 6 && padded.len() <= 6 + 256);
        assert_eq!(&padded[..6], &[0, 0, 0, 2, b'x', b'y']);
    }
}

#[test]
fn remove_padding_rejects_short_input() {
    assert_eq!(remove_padding(&[0, 0, 1]), Err("padded data too short".to_string()));
}

#[test]
fn remove_padding_rejects_overlong_length() {
    assert_eq!(remove_padding(&[0, 0, 0, 5, 1, 2]), Err("invalid plaintext length".to_string()));
}

#[test]
fn remove_padding_of_empty_plaintext() {
    assert_eq!(remove_padding(&[0, 0, 0, 0, 7, 7, 7]), Ok(Vec::new()));
}
