use jmap_dumper::parse::{parse_engine_version, parse_hex_u64};

#[test]
fn hex_with_and_without_prefix() {
    assert_eq!(parse_hex_u64("0x10"), Ok(16));
    assert_eq!(parse_hex_u64("0X10"), Ok(16));
    assert_eq!(parse_hex_u64("10"), Ok(16));
    assert_eq!(parse_hex_u64("0x7ff6A0000000"), Ok(0x7ff6a0000000));
    assert_eq!(parse_hex_u64("ff"), Ok(255));
    assert_eq!(parse_hex_u64("+ff"), Ok(255));
    assert_eq!(parse_hex_u64("0xFFFFFFFFFFFFFFFF"), Ok(u64::MAX));
    assert_eq!(parse_hex_u64("0"), Ok(0));
}

#[test]
fn hex_prefix_is_stripped_once() {
    // "0x0x10" leaves "0x10", whose 'x' is no hexadecimal digit
    assert_eq!(
        parse_hex_u64("0x0x10"),
        Err("invalid hex u64 \"0x0x10\": invalid digit found in string".to_string())
    );
    // a lone "0x" leaves nothing
    assert_eq!(
        parse_hex_u64("0x"),
        Err("invalid hex u64 \"0x\": cannot parse integer from empty string".to_string())
    );
}

#[test]
fn hex_errors() {
    assert_eq!(
        parse_hex_u64(""),
        Err("invalid hex u64 \"\": cannot parse integer from empty string".to_string())
    );
    assert_eq!(
        parse_hex_u64("zz"),
        Err("invalid hex u64 \"zz\": invalid digit found in string".to_string())
    );
    assert_eq!(
        parse_hex_u64("0x10000000000000000"),
        Err("invalid hex u64 \"0x10000000000000000\": number too large to fit in target type"
            .to_string())
    );
    assert_eq!(
        parse_hex_u64("0x1_0"),
        Err("invalid hex u64 \"0x1_0\": invalid digit found in string".to_string())
    );
    assert!(parse_hex_u64(" 0x10").is_err());
    assert!(parse_hex_u64("-1").is_err());
}

#[test]
fn engine_versions() {
    assert_eq!(parse_engine_version("5.4"), Ok((5, 4)));
    assert_eq!(parse_engine_version("4.27"), Ok((4, 27)));
    assert_eq!(parse_engine_version("5.08"), Ok((5, 8)));
    assert_eq!(parse_engine_version("65535.0"), Ok((65535, 0)));
}

#[test]
fn engine_version_errors() {
    assert_eq!(
        parse_engine_version("5"),
        Err("expected MAJOR.MINOR, got \"5\"".to_string())
    );
    assert_eq!(
        parse_engine_version("a.1"),
        Err("major: invalid digit found in string".to_string())
    );
    assert_eq!(
        parse_engine_version(".1"),
        Err("major: cannot parse integer from empty string".to_string())
    );
    assert_eq!(
        parse_engine_version("5.x"),
        Err("minor: invalid digit found in string".to_string())
    );
    // the text is cut at its first '.', so "4.1" is the minor part
    assert_eq!(
        parse_engine_version("5.4.1"),
        Err("minor: invalid digit found in string".to_string())
    );
    assert_eq!(
        parse_engine_version("70000.1"),
        Err("major: number too large to fit in target type".to_string())
    );
    // both parts bad: the major part is reported
    assert_eq!(
        parse_engine_version("x.y"),
        Err("major: invalid digit found in string".to_string())
    );
}
