use packler::fingerprint::{fingerprint, hash_to_hex, hashed_path_of, stylesheet_file_name_of};

#[test]
fn hex_is_sixteen_lower_case_digits() {
    assert_eq!(hash_to_hex(0x1a2b3c4d5e6f7890), "1a2b3c4d5e6f7890");
    assert_eq!(hash_to_hex(0), "0000000000000000");
    assert_eq!(hash_to_hex(0xabc), "0000000000000abc");
    assert_eq!(hash_to_hex(u64::MAX), "ffffffffffffffff");
}

#[test]
fn logo_example() {
    assert_eq!(
        hashed_path_of("images/logo.png", 0x1a2b3c4d5e6f7890),
        "images/logo-1a2b3c4d5e6f7890.png"
    );
}

#[test]
fn internal_dots_are_kept() {
    assert_eq!(
        hashed_path_of("images/archive.tar.gz", 1),
        "images/archive.tar-0000000000000001.gz"
    );
    assert_eq!(
        hashed_path_of("a.b/c.d/e.f.g", 0xff),
        "a.b/c.d/e.f-00000000000000ff.g"
    );
}

#[test]
fn names_without_extension() {
    assert_eq!(hashed_path_of("images/README", 2), "images/README-0000000000000002");
    assert_eq!(hashed_path_of(".hidden", 2), ".hidden-0000000000000002");
    assert_eq!(hashed_path_of("x/name.", 2), "x/name-0000000000000002.");
}

#[test]
fn stylesheet_names_end_in_css() {
    assert_eq!(stylesheet_file_name_of("main.scss", 0x10), "main-0000000000000010.css");
    assert_eq!(stylesheet_file_name_of("theme.dark.sass", 0x10), "theme.dark-0000000000000010.css");
    assert_eq!(stylesheet_file_name_of("plain", 0x10), "plain-0000000000000010.css");
}

#[test]
fn fingerprint_is_seahash() {
    assert_eq!(fingerprint(b"to be or not to be"), 1988685042348123509);
    assert_eq!(fingerprint(b"to be or not to be"), seahash::hash(b"to be or not to be"));
    assert_ne!(fingerprint(b"a"), fingerprint(b"b"));
    assert_eq!(fingerprint(b""), seahash::hash(b""));
}
