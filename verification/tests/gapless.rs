use bbt::gapless::parse_itunsmpb;

#[test]
fn parse_dbpoweramp_fixture() {
    let tag = "00000000 00000840 000003C8 0000000000AE13F8";
    let smpb = parse_itunsmpb(tag).expect("should parse");
    assert_eq!(smpb.encoder_delay, 2112);
    assert_eq!(smpb.trailing_padding, 968);
    assert_eq!(smpb.total_pcm_samples, Some(11408376));
}

#[test]
fn parse_without_total_pcm() {
    let tag = "00000000 00000840 000003C8";
    let smpb = parse_itunsmpb(tag).expect("should parse");
    assert_eq!(smpb.encoder_delay, 2112);
    assert_eq!(smpb.trailing_padding, 968);
    assert_eq!(smpb.total_pcm_samples, None);
}

#[test]
fn parse_zero_trailing_padding() {
    let tag = "00000000 00000840 00000000 0000000000AE13F8";
    let smpb = parse_itunsmpb(tag).expect("should parse");
    assert_eq!(smpb.trailing_padding, 0);
}

#[test]
fn parse_too_few_words_returns_none() {
    assert!(parse_itunsmpb("00000000 00000840").is_none());
}

#[test]
fn parse_invalid_hex_returns_none() {
    assert!(parse_itunsmpb("00000000 GGGGGGGG 000003C8").is_none());
}

#[test]
fn parse_empty_returns_none() {
    assert!(parse_itunsmpb("").is_none());
}

#[test]
fn total_pcm_matches_afconvert_contract() {
    let tag = "00000000 00000840 000003C8 0000000000AE13F8";
    let smpb = parse_itunsmpb(tag).unwrap();
    assert_eq!(smpb.total_pcm_samples, Some(11408376));
}

#[test]
fn written_tags_are_read_back() {
    for (a, b, c) in [(0, 0, 0), (2112, 968, 11408376), (u64::MAX, 1, u64::MAX - 1)] {
        for tag in [
            format!("00000000 {a:08X} {b:08X} {c:016X}"),
            format!("\t00000000\u{2003}{a:08x} \n{b:08x}  {c:016x}  "),
            format!("0 {a:X} {b:X} {c:X} 00000000 00000000"),
        ] {
            let smpb = parse_itunsmpb(&tag).expect("should parse");
            assert_eq!(smpb.encoder_delay, a);
            assert_eq!(smpb.trailing_padding, b);
            assert_eq!(smpb.total_pcm_samples, Some(c));
        }
    }
}

#[test]
fn one_word_that_is_not_hexadecimal_spoils_the_tag() {
    assert!(parse_itunsmpb("00000000 00000840 000003C8 XYZ").is_none());
    assert!(parse_itunsmpb("XYZ 00000840 000003C8").is_none());
    assert!(parse_itunsmpb("0 840 3C8 10000000000000000").is_none());
    assert!(parse_itunsmpb("0 840 3C8 AE13F8 0 zero").is_none());
    assert!(parse_itunsmpb("0 840 3C8 AE13F8 0 0 0 0").is_some());
}

#[test]
fn hex_words_like_the_standard_library_reads_them() {
    let a = parse_itunsmpb("0 +a fFfFfFfFfFfFfFfF\u{a0}1f").unwrap();
    assert_eq!(a.encoder_delay, 10);
    assert_eq!(a.trailing_padding, u64::MAX);
    assert_eq!(a.total_pcm_samples, Some(31));
    for word in ["+", "-1", "0x10", "", "_1"] {
        let tag = format!("0 {word}  1");
        assert_eq!(
            parse_itunsmpb(&tag).map(|s| s.encoder_delay),
            tag.split_whitespace()
                .nth(2)
                .and_then(|_| u64::from_str_radix(word, 16).ok())
        );
    }
}
