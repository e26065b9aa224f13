use lookahead::scanner::Scanner;

#[test]
fn test_scanner_positions() {
    let data = b"abcdef";
    let mut scanner = Scanner::new(data);
    assert_eq!(scanner.current_position(), 0);
    assert_eq!(scanner.remaining(), b"abcdef");
    assert!(!scanner.is_empty());

    scanner.bump_by(2);
    assert_eq!(scanner.current_position(), 2);
    assert_eq!(scanner.remaining(), b"cdef");
    assert_eq!(scanner.data(), b"abcdef");

    scanner.rewind(1);
    assert_eq!(scanner.current_position(), 1);

    scanner.jump_to(6);
    assert!(scanner.is_empty());
    assert_eq!(scanner.remaining(), b"");
}

#[test]
fn test_scanner_into_data() {
    let data = b"abcdef";
    let mut scanner = Scanner::new(data);
    scanner.bump_by(3);
    assert_eq!(scanner.into_data(), b"def");
}

#[test]
fn test_scanner_copies_share_data() {
    let data = b"xyz";
    let mut scanner = Scanner::new(data);
    let copy = scanner;
    scanner.bump_by(2);
    assert_eq!(copy.current_position(), 0);
    assert_eq!(scanner.current_position(), 2);
    assert_eq!(copy.data(), scanner.data());
}
