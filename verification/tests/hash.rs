use cork_core::hash::sha256;
use cork_core::hex::bytes_to_hex;

#[test]
fn sha256_matches_known_vector() {
    let digest = sha256(b"hello");
    let expected = [
        0x2c, 0xf2, 0x4d, 0xba, 0x5f, 0xb0, 0xa3, 0x0e, 0x26, 0xe8, 0x3b, 0x2a, 0xc5, 0xb9,
        0xe2, 0x9e, 0x1b, 0x16, 0x1e, 0x5c, 0x1f, 0xa7, 0x42, 0x5e, 0x73, 0x04, 0x33, 0x62,
        0x93, 0x8b, 0x98, 0x24,
    ];
    assert_eq!(digest, expected);
}

#[test]
fn sha256_of_empty_input() {
    assert_eq!(
        bytes_to_hex(&sha256(b"")),
        "e3b0c44298fc1c149afbf4c8996fb92427ae41e4649b934ca495991b7852b855"
    );
}

#[test]
fn sha256_of_abc() {
    assert_eq!(
        bytes_to_hex(&sha256(b"abc")),
        "ba7816bf8f01cfea414140de5dae2223b00361a396177a9cb410ff61f20015ad"
    );
}

#[test]
fn sha256_is_a_function_of_the_input() {
    assert_eq!(sha256(b"same bytes"), sha256(b"same bytes"));
    assert_ne!(sha256(b"same bytes"), sha256(b"same bytez"));
}

#[test]
fn sha256_does_not_echo_its_input() {
    let input = [7u8; 32];
    assert_ne!(sha256(&input), input);
}
