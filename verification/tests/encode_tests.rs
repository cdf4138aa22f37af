use ip_preimage::candidate::format_candidate;
use ip_preimage::encode::encode_digit;

fn encoded(digit: u64) -> String {
    let mut buf = Vec::new();
    encode_digit(digit, &mut buf);
    String::from_utf8(buf).unwrap()
}

fn formatted(candidate: u64) -> String {
    let mut buf = Vec::new();
    format_candidate(candidate, &mut buf);
    String::from_utf8(buf).unwrap()
}

#[test]
fn zero_is_a_single_digit() {
    assert_eq!(encoded(0), "0");
}

#[test]
fn digits_at_the_width_boundaries() {
    assert_eq!(encoded(9), "9");
    assert_eq!(encoded(10), "10");
    assert_eq!(encoded(99), "99");
    assert_eq!(encoded(100), "100");
    assert_eq!(encoded(101), "101");
    assert_eq!(encoded(110), "110");
    assert_eq!(encoded(200), "200");
    assert_eq!(encoded(255), "255");
}

#[test]
fn every_octet_reads_as_std_prints_it() {
    for digit in 0..=255u64 {
        assert_eq!(encoded(digit), format!("{}", digit));
    }
}

#[test]
fn no_octet_is_empty_or_has_a_leading_zero() {
    for digit in 0..=255u64 {
        let text = encoded(digit);
        assert!(!text.is_empty());
        assert!(text.len() <= 3);
        assert!(text.bytes().all(|b| b.is_ascii_digit()));
        if digit != 0 {
            assert_ne!(text.as_bytes()[0], b'0');
        }
        assert_eq!(text.parse::<u64>().unwrap(), digit);
    }
}

#[test]
fn encode_digit_appends_to_what_the_buffer_holds() {
    let mut buf = vec![b'x', b'.'];
    encode_digit(42, &mut buf);
    assert_eq!(buf, b"x.42".to_vec());
    encode_digit(0, &mut buf);
    assert_eq!(buf, b"x.420".to_vec());
}

#[test]
fn format_lowest_candidate() {
    assert_eq!(formatted(0), "0.0.0.0");
}

#[test]
fn format_highest_candidate() {
    assert_eq!(formatted(0xffff_ffff), "255.255.255.255");
}

#[test]
fn format_distinct_octets() {
    assert_eq!(formatted(0x0102_0304), "1.2.3.4");
}

#[test]
fn format_loopback() {
    assert_eq!(formatted(0x7f00_0001), "127.0.0.1");
}

#[test]
fn format_mixed_widths() {
    assert_eq!(formatted(0x0a00_64c8), "10.0.100.200");
    assert_eq!(formatted(0xc0a8_0001), "192.168.0.1");
}

#[test]
fn format_reads_the_low_32_bits_only() {
    assert_eq!(formatted(0x1_0000_0000), "0.0.0.0");
    assert_eq!(formatted(0xabcd_0102_0304_0506), "3.4.5.6");
}

#[test]
fn format_clears_the_buffer_and_keeps_its_allocation() {
    let mut buf = Vec::with_capacity(64);
    buf.extend_from_slice(b"left over from the last call");
    let capacity = buf.capacity();
    format_candidate(0xffff_ffff, &mut buf);
    assert_eq!(buf, b"255.255.255.255".to_vec());
    format_candidate(0, &mut buf);
    assert_eq!(buf, b"0.0.0.0".to_vec());
    assert_eq!(buf.capacity(), capacity);
}

#[test]
fn format_matches_the_four_octets_of_sampled_candidates() {
    let mut candidate: u64 = 0;
    while candidate <= 0xffff_ffff {
        let expected = format!(
            "{}.{}.{}.{}",
            candidate >> 24 & 0xff,
            candidate >> 16 & 0xff,
            candidate >> 8 & 0xff,
            candidate & 0xff
        );
        assert_eq!(formatted(candidate), expected);
        candidate += 16_777_619;
    }
}
