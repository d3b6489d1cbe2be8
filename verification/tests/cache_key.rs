use thumbnail_purge::cache_key::{compute_thumbnail_hash, file_uri_of, to_hex_lower};

#[test]
fn key_of_a_known_path() {
    assert_eq!(compute_thumbnail_hash(b"/home/user/photo.jpg"), "ae93eb3af87cf8cb077d50ab28c6eded");
}

#[test]
fn key_is_the_md5_of_the_file_uri() {
    let digest = md5::compute("file:///home/user/photo.jpg");
    assert_eq!(compute_thumbnail_hash(b"/home/user/photo.jpg"), format!("{:x}", digest));
    let digest = md5::compute("file:///home/u/caf\u{e9}.png");
    assert_eq!(compute_thumbnail_hash("/home/u/caf\u{e9}.png".as_bytes()), format!("{:x}", digest));
    assert_eq!(compute_thumbnail_hash("/home/u/caf\u{e9}.png".as_bytes()), "ae4c2b0c870e5848485825e5211d7f37");
}

#[test]
fn key_is_the_same_for_the_same_path() {
    let first = compute_thumbnail_hash(b"/home/u/a.jpg");
    let second = compute_thumbnail_hash(b"/home/u/a.jpg");
    assert_eq!(first, second);
    assert_eq!(first, "0fb3e5ae9585de7c772a0049f49c3ca9");
}

#[test]
fn key_differs_with_the_path() {
    assert_ne!(compute_thumbnail_hash(b"/home/u/a.jpg"), compute_thumbnail_hash(b"/home/u/b.jpg"));
    assert_eq!(compute_thumbnail_hash(b"/home/u/b.JPG"), "1002208b997d39515dcd08646e4aaa6e");
}

#[test]
fn key_of_the_empty_path() {
    assert_eq!(compute_thumbnail_hash(b""), "8fac1f8e1858745191f2db8612565d3d");
}

#[test]
fn key_takes_the_path_as_it_stands() {
    assert_eq!(compute_thumbnail_hash(b"/home/user/photo.jpg/"), "9c28f21f7f4459b8652d1497e2101260");
    assert_ne!(
        compute_thumbnail_hash(b"/home/user/photo.jpg/"),
        compute_thumbnail_hash(b"/home/user/photo.jpg")
    );
    assert_ne!(
        compute_thumbnail_hash(b"/home/user/./photo.jpg"),
        compute_thumbnail_hash(b"/home/user/photo.jpg")
    );
}

#[test]
fn key_of_a_path_that_is_no_text() {
    // The ill-formed byte is read as U+FFFD, whose encoding is EF BF BD.
    assert_eq!(compute_thumbnail_hash(b"/tmp/\xff.jpg"), "7c9509bbe52ae3318f185e3ec8f81d36");
    assert_eq!(
        compute_thumbnail_hash(b"/tmp/\xff.jpg"),
        compute_thumbnail_hash("/tmp/\u{fffd}.jpg".as_bytes())
    );
}

#[test]
fn key_is_32_lowercase_hex_digits() {
    for path in [&b""[..], b"/", b"/home/u/a.jpg", b"/tmp/\xff\xfe", b"relative/path.PNG"] {
        let key = compute_thumbnail_hash(path);
        assert_eq!(key.len(), 32);
        assert!(key.chars().all(|c| matches!(c, '0'..='9' | 'a'..='f')), "{}", key);
    }
}

#[test]
fn uri_has_the_scheme_before_the_path() {
    assert_eq!(file_uri_of("/home/user/photo.jpg"), "file:///home/user/photo.jpg");
    assert_eq!(file_uri_of(""), "file://");
    assert_eq!(file_uri_of("relative"), "file://relative");
}

#[test]
fn hex_of_bytes() {
    assert_eq!(to_hex_lower(&[]), "");
    assert_eq!(to_hex_lower(&[0x00, 0x0f, 0xa5, 0xff, 0x10]), "000fa5ff10");
    assert_eq!(to_hex_lower(&md5::compute(b"abcdefghijklmnopqrstuvwxyz").0), "c3fcd3d76192e4007dfb496cca67e13b");
}

#[test]
fn hex_of_every_byte_agrees_with_the_formatter() {
    for byte in 0..=255u8 {
        assert_eq!(to_hex_lower(&[byte]), format!("{:02x}", byte));
    }
}
