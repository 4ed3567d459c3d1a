use uuidgen::source::UuidValue;

fn is_lower_hex(c: char) -> bool {
    c.is_ascii_digit() || ('a'..='f').contains(&c)
}

#[test]
fn v4_layout_bits() {
    for _ in 0..256 {
        let u = UuidValue::new_v4();
        assert_eq!(u.bytes[6] >> 4, 4, "version nibble");
        assert_eq!(u.bytes[8] >> 6, 0b10, "variant bits");
    }
}

#[test]
fn v4_draws_do_not_collide() {
    let mut seen: Vec<[u8; 16]> = (0..10_000).map(|_| UuidValue::new_v4().bytes).collect();
    seen.sort();
    for w in seen.windows(2) {
        assert_ne!(w[0], w[1], "two draws in one run must differ");
    }
}

#[test]
fn v7_layout_bits() {
    for _ in 0..64 {
        let u = UuidValue::new_v7_now().expect("clock is readable");
        assert_eq!(u.bytes[6] >> 4, 7, "version nibble");
        assert_eq!(u.bytes[8] >> 6, 0b10, "variant bits");
    }
}

#[test]
fn v7_embeds_the_given_timestamp() {
    // a fixed, known instant: 1_700_000_000 s and 987_654_321 ns into it
    let u = UuidValue::new_v7_at(1_700_000_000, 987_654_321);
    let expected_millis: u64 = 1_700_000_000 * 1000 + 987;
    assert_eq!(u.v7_timestamp_millis(), expected_millis);
    assert_eq!(u.bytes[6] >> 4, 7);
}

#[test]
fn v7_timestamp_decode_reads_the_prefix() {
    let u = UuidValue {
        bytes: [0x01, 0x02, 0x03, 0x04, 0x05, 0x06, 0x70, 0, 0x80, 0, 0, 0, 0, 0, 0, 0],
    };
    assert_eq!(u.v7_timestamp_millis(), 0x010203040506);
}

#[test]
fn v7_now_carries_a_recent_time() {
    let u = UuidValue::new_v7_now().expect("clock is readable");
    let ms = u.v7_timestamp_millis();
    // after 2023 and within the 48-bit range
    assert!(ms > 1_600_000_000_000);
    assert!(ms < 1 << 48);
}

#[test]
fn generated_values_render_as_lowercase_hex() {
    let u = UuidValue::new_v4();
    let (ld, _, _, _) = uuidgen::render::fmt_variants(&u);
    assert_eq!(ld.len(), 36);
    for (i, c) in ld.chars().enumerate() {
        if i == 8 || i == 13 || i == 18 || i == 23 {
            assert_eq!(c, '-');
        } else {
            assert!(is_lower_hex(c));
        }
    }
}

#[test]
fn matches_the_uuid_crate_rendering() {
    // the canonical rendering must agree with the uuid crate's own
    let raw = uuid::Uuid::new_v4();
    let u = UuidValue { bytes: *raw.as_bytes() };
    let (ld, _, _, _) = uuidgen::render::fmt_variants(&u);
    assert_eq!(ld, raw.to_string());
}
