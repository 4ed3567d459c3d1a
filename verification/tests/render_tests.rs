use uuidgen::config::{OutputFormat, UuidType};
use uuidgen::render::{fmt_variants, quiet_line, verbose_block};
use uuidgen::source::UuidValue;

const SAMPLE: [u8; 16] = [
    0x00, 0x11, 0x22, 0x33, 0x44, 0x55, 0x66, 0x77, 0x88, 0x99, 0xaa, 0xbb, 0xcc, 0xdd, 0xee,
    0xff,
];

#[test]
fn variants_of_known_bytes() {
    let u = UuidValue { bytes: SAMPLE };
    let (ld, ud, ln, un) = fmt_variants(&u);
    assert_eq!(ld, "00112233-4455-6677-8899-aabbccddeeff");
    assert_eq!(ud, "00112233-4455-6677-8899-AABBCCDDEEFF");
    assert_eq!(ln, "00112233445566778899aabbccddeeff");
    assert_eq!(un, "00112233445566778899AABBCCDDEEFF");
}

#[test]
fn variants_are_transforms_of_the_canonical_form() {
    let u = UuidValue::new_v4();
    let (ld, ud, ln, un) = fmt_variants(&u);
    assert_eq!(ud, ld.to_uppercase());
    assert_eq!(ln, ld.replace('-', ""));
    assert_eq!(un, ln.to_uppercase());
}

#[test]
fn quiet_line_per_format() {
    let u = UuidValue { bytes: SAMPLE };
    assert_eq!(quiet_line(OutputFormat::LowerDash, &u), "00112233-4455-6677-8899-aabbccddeeff");
    assert_eq!(quiet_line(OutputFormat::UpperDash, &u), "00112233-4455-6677-8899-AABBCCDDEEFF");
    assert_eq!(quiet_line(OutputFormat::LowerNoDash, &u), "00112233445566778899aabbccddeeff");
    assert_eq!(quiet_line(OutputFormat::UpperNoDash, &u), "00112233445566778899AABBCCDDEEFF");
    // selecting every encoding falls back to the canonical form
    assert_eq!(quiet_line(OutputFormat::All, &u), "00112233-4455-6677-8899-aabbccddeeff");
}

#[test]
fn verbose_block_single_format() {
    let u = UuidValue { bytes: SAMPLE };
    let block = verbose_block(UuidType::V4, OutputFormat::UpperDash, &u);
    assert_eq!(
        block,
        vec![
            "UUIDv4".to_string(),
            "".to_string(),
            "UPPER-dash: 00112233-4455-6677-8899-AABBCCDDEEFF".to_string(),
        ]
    );
}

#[test]
fn verbose_block_all_formats() {
    let u = UuidValue { bytes: SAMPLE };
    let block = verbose_block(UuidType::V7, OutputFormat::All, &u);
    assert_eq!(
        block,
        vec![
            "UUIDv7".to_string(),
            "".to_string(),
            "lower-dash:   00112233-4455-6677-8899-aabbccddeeff".to_string(),
            "UPPER-dash:   00112233-4455-6677-8899-AABBCCDDEEFF".to_string(),
            "lower-nodash: 00112233445566778899aabbccddeeff".to_string(),
            "UPPER-nodash: 00112233445566778899AABBCCDDEEFF".to_string(),
        ]
    );
}

#[test]
fn verbose_single_format_has_exactly_one_data_line() {
    let u = UuidValue { bytes: SAMPLE };
    for f in [
        OutputFormat::LowerDash,
        OutputFormat::UpperDash,
        OutputFormat::LowerNoDash,
        OutputFormat::UpperNoDash,
    ] {
        let block = verbose_block(UuidType::V4, f, &u);
        assert_eq!(block.len(), 3);
        assert_eq!(block[1], "");
        assert!(!block[2].is_empty());
    }
}
