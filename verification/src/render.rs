//! Rendering one identifier into its textual encodings and into the
//! exact output lines: a bare value in quiet mode, or a header and
//! labelled lines in verbose mode.

use vstd::prelude::*;
use vstd::string::*;
use crate::config::{OutputFormat, UuidType};
use crate::hexfmt::{
    add_dashes, hex_lower, hex_lower_of_bytes, hex_upper, hex_upper_of_bytes, lemma_hex_lower_len,
    lemma_hex_upper_len, lemma_variant_transforms, lower_dash_of, strip_dashes, to_upper,
    upper_dash_of,
};
use crate::source::UuidValue;

verus! {

/// Relies on `String`'s `FromIterator<char>` implementation:
/// collecting characters concatenates exactly those characters in
/// order.
#[verifier::external_body]
fn string_from_chars(v: &Vec<char>) -> (s: String)
    ensures
        s@ == v@,
{
    v.iter().collect()
}

/// A label glued onto a rendered value.
fn labeled_line(label: &str, value: String) -> (s: String)
    ensures
        s@ == label@ + value@,
{
    label.to_owned().concat(value.as_str())
}

/// The four textual encodings of one identifier, in the order
/// lowercase hyphenated, uppercase hyphenated, lowercase bare,
/// uppercase bare. The first is the canonical rendering; the ensures
/// also state the other three as pure transforms of it: case fold,
/// hyphen removal, and both composed.
pub fn fmt_variants(u: &UuidValue) -> (r: (String, String, String, String))
    ensures
        r.0@ == lower_dash_of(u@),
        r.1@ == upper_dash_of(u@),
        r.2@ == hex_lower(u@),
        r.3@ == hex_upper(u@),
        r.1@ == to_upper(r.0@),
        r.2@ == strip_dashes(r.0@),
        r.3@ == to_upper(r.2@),
{
    let lo = hex_lower_of_bytes(vstd::array::array_as_slice(&u.bytes));
    let up = hex_upper_of_bytes(vstd::array::array_as_slice(&u.bytes));
    proof {
        lemma_hex_lower_len(u@);
        lemma_hex_upper_len(u@);
        lemma_variant_transforms(u@);
    }
    let lod = add_dashes(&lo);
    let upd = add_dashes(&up);
    (string_from_chars(&lod), string_from_chars(&upd), string_from_chars(&lo), string_from_chars(
        &up,
    ))
}

/// The verbose header line for a UUID type.
pub open spec fn header_spec(t: UuidType) -> Seq<char> {
    match t {
        UuidType::V4 => "UUIDv4"@,
        UuidType::V7 => "UUIDv7"@,
    }
}

/// The single line that quiet mode prints for one identifier: the
/// bare value in the selected encoding, where selecting every
/// encoding falls back to the canonical lowercase hyphenated one.
pub open spec fn quiet_line_spec(f: OutputFormat, bs: Seq<u8>) -> Seq<char> {
    match f {
        OutputFormat::LowerDash => lower_dash_of(bs),
        OutputFormat::UpperDash => upper_dash_of(bs),
        OutputFormat::LowerNoDash => hex_lower(bs),
        OutputFormat::UpperNoDash => hex_upper(bs),
        OutputFormat::All => lower_dash_of(bs),
    }
}

/// The labelled data lines that verbose mode prints for one
/// identifier: one line for a single selected encoding, or all four
/// in a fixed order with the labels padded to one width.
pub open spec fn data_lines_spec(f: OutputFormat, bs: Seq<u8>) -> Seq<Seq<char>> {
    match f {
        OutputFormat::LowerDash => seq!["lower-dash: "@ + lower_dash_of(bs)],
        OutputFormat::UpperDash => seq!["UPPER-dash: "@ + upper_dash_of(bs)],
        OutputFormat::LowerNoDash => seq!["lower-nodash: "@ + hex_lower(bs)],
        OutputFormat::UpperNoDash => seq!["UPPER-nodash: "@ + hex_upper(bs)],
        OutputFormat::All => seq![
            "lower-dash:   "@ + lower_dash_of(bs),
            "UPPER-dash:   "@ + upper_dash_of(bs),
            "lower-nodash: "@ + hex_lower(bs),
            "UPPER-nodash: "@ + hex_upper(bs),
        ],
    }
}

/// How many data lines verbose mode prints per identifier.
pub open spec fn data_count(f: OutputFormat) -> int {
    if f == OutputFormat::All {
        4
    } else {
        1
    }
}

/// The whole verbose block for one identifier: header line, blank
/// line, then the labelled data lines.
pub open spec fn block_spec(t: UuidType, f: OutputFormat, bs: Seq<u8>) -> Seq<Seq<char>> {
    seq![header_spec(t), Seq::<char>::empty()] + data_lines_spec(f, bs)
}

/// The quiet-mode line for one identifier.
pub fn quiet_line(f: OutputFormat, u: &UuidValue) -> (s: String)
    ensures
        s@ == quiet_line_spec(f, u@),
{
    let v = fmt_variants(u);
    match f {
        OutputFormat::LowerDash => v.0,
        OutputFormat::UpperDash => v.1,
        OutputFormat::LowerNoDash => v.2,
        OutputFormat::UpperNoDash => v.3,
        OutputFormat::All => v.0,
    }
}

/// The verbose block for one identifier.
pub fn verbose_block(t: UuidType, f: OutputFormat, u: &UuidValue) -> (r: Vec<String>)
    ensures
        r.deep_view() == block_spec(t, f, u@),
{
    let mut out: Vec<String> = Vec::new();
    match t {
        UuidType::V4 => out.push("UUIDv4".to_owned()),
        UuidType::V7 => out.push("UUIDv7".to_owned()),
    }
    out.push(String::new());
    let v = fmt_variants(u);
    match f {
        OutputFormat::LowerDash => out.push(labeled_line("lower-dash: ", v.0)),
        OutputFormat::UpperDash => out.push(labeled_line("UPPER-dash: ", v.1)),
        OutputFormat::LowerNoDash => out.push(labeled_line("lower-nodash: ", v.2)),
        OutputFormat::UpperNoDash => out.push(labeled_line("UPPER-nodash: ", v.3)),
        OutputFormat::All => {
            out.push(labeled_line("lower-dash:   ", v.0));
            out.push(labeled_line("UPPER-dash:   ", v.1));
            out.push(labeled_line("lower-nodash: ", v.2));
            out.push(labeled_line("UPPER-nodash: ", v.3));
        },
    }
    proof {
        assert(out.deep_view() =~= block_spec(t, f, u@));
    }
    out
}

/// Verbose output for a single selected encoding is exactly a header
/// line, one blank line, and one data line; the data line is never
/// blank, so no blank line belonging to another encoding's block
/// appears.
pub proof fn lemma_verbose_single_block(t: UuidType, f: OutputFormat, bs: Seq<u8>)
    requires
        f != OutputFormat::All,
        bs.len() == 16,
    ensures
        block_spec(t, f, bs).len() == 3,
        data_lines_spec(f, bs).len() == 1,
        block_spec(t, f, bs)[0] == header_spec(t),
        block_spec(t, f, bs)[1].len() == 0,
        block_spec(t, f, bs)[2].len() > 0,
{
    lemma_hex_lower_len(bs);
    lemma_hex_upper_len(bs);
    reveal_strlit("lower-dash: ");
    reveal_strlit("UPPER-dash: ");
    reveal_strlit("lower-nodash: ");
    reveal_strlit("UPPER-nodash: ");
}

/// A verbose block has two header lines followed by its data lines.
pub proof fn lemma_block_len(t: UuidType, f: OutputFormat, bs: Seq<u8>)
    ensures
        data_lines_spec(f, bs).len() == data_count(f),
        block_spec(t, f, bs).len() == 2 + data_count(f),
{
}

} // verus!
