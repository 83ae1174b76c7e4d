use web_fetch::error::ErrorKind;
use web_fetch::hex::to_hex;
use web_fetch::url::{extract_path, Url};

#[test]
fn extract_path_defaults_to_root() {
    assert_eq!(extract_path("proto://host"), "/");
}

#[test]
fn extract_path_keeps_everything_after_the_authority() {
    assert_eq!(extract_path("proto://host/a/b"), "/a/b");
}

#[test]
fn extract_path_of_web_urls() {
    assert_eq!(extract_path("web://example.test/resource"), "/resource");
    assert_eq!(extract_path("web://example.test:4433"), "/");
    assert_eq!(extract_path("web://example.test:4433/"), "/");
    assert_eq!(extract_path("web://example.test/a/b?c=d#e"), "/a/b?c=d#e");
    assert_eq!(extract_path("web://example.test//double"), "//double");
}

#[test]
fn extract_path_without_a_scheme() {
    assert_eq!(extract_path("host/a"), "/a");
    assert_eq!(extract_path("host"), "/");
    assert_eq!(extract_path(""), "/");
    assert_eq!(extract_path("/"), "/");
    assert_eq!(extract_path("/only/a/path"), "/only/a/path");
}

#[test]
fn extract_path_sees_a_separator_only_at_the_first_slash() {
    // The first slash is not part of `://`, so nothing is skipped.
    assert_eq!(extract_path("host/a://b/c"), "/a://b/c");
    // A lone `:/` is no separator either.
    assert_eq!(extract_path("web:/host/x"), "/host/x");
    // `://` at the very end leaves no authority and no path.
    assert_eq!(extract_path("web://"), "/");
}

#[test]
fn extract_path_counts_characters_not_bytes() {
    assert_eq!(extract_path("web://h\u{f4}st/p\u{e4}th/\u{1f600}"), "/p\u{e4}th/\u{1f600}");
    assert_eq!(extract_path("w\u{e9}b://host"), "/");
}

#[test]
fn extract_path_always_starts_with_a_slash() {
    for url in ["", "a", "web://", "web://h", "web://h/", "x/y", "://", ":///", "a:/"] {
        assert!(extract_path(url).starts_with('/'), "{url:?}");
    }
}

#[test]
fn url_parse_splits_the_parts() {
    let url = Url::parse("web://example.test:4433/resource").unwrap();
    assert_eq!(url.scheme, "web");
    assert_eq!(url.host, "example.test");
    assert_eq!(url.port, Some(4433));
    assert_eq!(url.path, "/resource");
}

#[test]
fn url_parse_without_port_or_path() {
    let url = Url::parse("proto://example.test").unwrap();
    assert_eq!(url.scheme, "proto");
    assert_eq!(url.host, "example.test");
    assert_eq!(url.port, None);
    assert_eq!(url.path, "/");
}

#[test]
fn url_parse_port_bounds() {
    assert_eq!(Url::parse("web://h:0/").unwrap().port, Some(0));
    assert_eq!(Url::parse("web://h:65535/").unwrap().port, Some(65535));
    assert_eq!(Url::parse("web://h:00080/").unwrap().port, Some(80));
    assert_eq!(Url::parse("web://h:65536/").unwrap_err().kind, ErrorKind::AddressError);
    assert_eq!(
        Url::parse("web://h:99999999999999999999/").unwrap_err().kind,
        ErrorKind::AddressError
    );
}

#[test]
fn url_parse_rejects_what_names_no_peer() {
    for bad in [
        "",
        "example.test/resource",
        "://host/x",
        "web:///x",
        "web://",
        "web://:80/x",
        "web://host:/x",
        "web://host:12a/x",
        "web://host:-1/x",
        "web://host:1:2/x",
        "web:/host/x",
    ] {
        let err = Url::parse(bad).unwrap_err();
        assert_eq!(err.kind, ErrorKind::AddressError, "{bad:?}");
        assert_eq!(err.message, "invalid address", "{bad:?}");
    }
}

#[test]
fn url_parse_agrees_with_extract_path() {
    for url in ["web://a", "web://a/", "web://a:1/b/c", "x://y/z?q"] {
        assert_eq!(Url::parse(url).unwrap().path, extract_path(url));
    }
}

#[test]
fn to_hex_of_nothing_is_empty() {
    assert_eq!(to_hex(&[]), "");
}

#[test]
fn to_hex_is_lowercase_two_digits_per_byte() {
    assert_eq!(to_hex(&[0x00]), "00");
    assert_eq!(to_hex(&[0x0f]), "0f");
    assert_eq!(to_hex(&[0xa0]), "a0");
    assert_eq!(to_hex(&[0xff]), "ff");
    assert_eq!(to_hex(&[0x00, 0x01, 0x7f, 0x80, 0xab, 0xcd, 0xef]), "00017f80abcdef");
}

#[test]
fn to_hex_of_every_byte() {
    for b in 0..=255u8 {
        assert_eq!(to_hex(&[b]), format!("{b:02x}"));
    }
}

#[test]
fn to_hex_of_a_public_key_has_sixty_four_digits() {
    let mut key = [0u8; 32];
    for (i, byte) in key.iter_mut().enumerate() {
        *byte = (i * 8 + 3) as u8;
    }
    let hex = to_hex(&key);
    assert_eq!(hex.len(), 64);
    assert_eq!(
        hex,
        "030b131b232b333b434b535b636b737b838b939ba3abb3bbc3cbd3dbe3ebf3fb"
    );
}

#[test]
fn to_hex_tells_different_inputs_apart() {
    assert_ne!(to_hex(&[0x01, 0x10]), to_hex(&[0x10, 0x01]));
    assert_ne!(to_hex(&[0x00]), to_hex(&[0x00, 0x00]));
}

#[test]
fn extract_path_of_a_long_url() {
    let path = format!("/{}", "segment/".repeat(40_000));
    let url = format!("web://{}{}", "h".repeat(10_000), path);
    assert_eq!(extract_path(&url), path);
    assert_eq!(Url::parse(&url).unwrap().path, path);
}
