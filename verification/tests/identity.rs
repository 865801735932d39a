use rstream::identity::identity;

#[test]
fn identity_is_the_base64_of_the_md5() {
    assert_eq!(identity(b""), "1B2M2Y8AsgTpgAmY7PhCfg==");
    assert_eq!(identity(b"hello world"), "XrY7u+Ae7tCTyyK7j1rNww==");
    assert_eq!(identity(b"abc"), "kAFQmDzST7DWlj99KOF/cg==");
}

#[test]
fn identity_depends_on_the_bytes_alone() {
    let a = vec![1u8, 2, 3, 4];
    let b = vec![1u8, 2, 3, 4];
    assert_eq!(identity(&a), identity(&b));
    assert_ne!(identity(&a), identity(&[1u8, 2, 3, 5]));
    assert_ne!(identity(&a), identity(&[1u8, 2, 3]));
}

#[test]
fn identity_is_printable_and_of_fixed_length() {
    let big = vec![0xabu8; 100_000];
    for content in [&b""[..], &b"x"[..], &big[..]] {
        let id = identity(content);
        assert_eq!(id.len(), 24);
        assert!(id.chars().all(|c| c.is_ascii_alphanumeric() || c == '+' || c == '/' || c == '='));
    }
}
