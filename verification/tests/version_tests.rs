use clap_wrapper_bundler::version::{parse_u8, parse_version_auv2};

#[test]
fn plain_versions() {
    assert_eq!(parse_version_auv2("1.2.3"), 0x010203);
    assert_eq!(parse_version_auv2("0.0.0"), 0);
    assert_eq!(parse_version_auv2("255.255.255"), 0xffffff);
    assert_eq!(parse_version_auv2("10.20.30"), (10 << 16) | (20 << 8) | 30);
}

#[test]
fn non_numeric_prefix_is_ignored() {
    assert_eq!(parse_version_auv2("v1.2.3"), 0x010203);
    assert_eq!(parse_version_auv2("V2.0.1"), 0x020001);
    assert_eq!(parse_version_auv2("é2.0.1"), 0x020001);
    assert_eq!(parse_version_auv2("vv1.2.3"), 0x010203);
    assert_eq!(parse_version_auv2("release-2.5"), 0x020500);
    assert_eq!(parse_version_auv2("+5.0.0"), 0x050000);
}

#[test]
fn non_numeric_suffix_is_ignored() {
    assert_eq!(parse_version_auv2("1.2.3-beta"), 0x010203);
    assert_eq!(parse_version_auv2("version 1.2.3 (build)"), 0x010203);
    // The suffix starts after the last digit: "3 (build 7" is no number.
    assert_eq!(parse_version_auv2("version 1.2.3 (build 7)"), 0x010200);
    assert_eq!(parse_version_auv2("1.2x.3"), 0x010003);
    assert_eq!(parse_version_auv2("1.2.3+build5"), 0x010200);
    assert_eq!(parse_version_auv2("1.2.3+build"), 0x010203);
}

#[test]
fn parts_may_carry_a_plus_sign() {
    assert_eq!(parse_version_auv2("1.+2.3"), 0x010203);
    assert_eq!(parse_version_auv2("1.++2.3"), 0x010003);
}

#[test]
fn missing_or_bad_parts_count_as_zero() {
    assert_eq!(parse_version_auv2("1.2"), 0x010200);
    assert_eq!(parse_version_auv2("1"), 0x010000);
    assert_eq!(parse_version_auv2(""), 0);
    assert_eq!(parse_version_auv2("256.1.1"), 0x000101);
    assert_eq!(parse_version_auv2("1..3"), 0x010003);
    assert_eq!(parse_version_auv2("1.2.3.4"), 0x010203);
}

#[test]
fn parts_are_read_as_u8() {
    for text in ["0", "7", "+7", "007", "255", "256", "", "+", "-1", "1a", " 1", "99999999999999999999"] {
        assert_eq!(parse_u8(text), text.parse::<u8>().ok(), "{text:?}");
    }
}

#[test]
fn version_bytes_are_recoverable() {
    let v = parse_version_auv2("12.34.56");
    assert_eq!(v >> 16, 12);
    assert_eq!((v >> 8) & 0xff, 34);
    assert_eq!(v & 0xff, 56);
}
