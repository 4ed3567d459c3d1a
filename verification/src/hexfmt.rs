//! Hexadecimal rendering of byte sequences: the canonical lowercase
//! digit pair form, its uppercase counterpart, and the relation between
//! the two.

use vstd::prelude::*;

verus! {

/// The lowercase hexadecimal digit for a value below sixteen.
pub open spec fn hex_digit_lower(n: u8) -> char
    recommends
        n < 16,
{
    if n == 0 {
        '0'
    } else if n == 1 {
        '1'
    } else if n == 2 {
        '2'
    } else if n == 3 {
        '3'
    } else if n == 4 {
        '4'
    } else if n == 5 {
        '5'
    } else if n == 6 {
        '6'
    } else if n == 7 {
        '7'
    } else if n == 8 {
        '8'
    } else if n == 9 {
        '9'
    } else if n == 10 {
        'a'
    } else if n == 11 {
        'b'
    } else if n == 12 {
        'c'
    } else if n == 13 {
        'd'
    } else if n == 14 {
        'e'
    } else {
        'f'
    }
}

/// The two lowercase hexadecimal digits of one byte, high nibble first.
pub open spec fn hex_pair_lower(b: u8) -> Seq<char> {
    seq![hex_digit_lower(b / 16), hex_digit_lower(b % 16)]
}

/// The lowercase hexadecimal rendering of a byte sequence, two digits
/// per byte, high nibble first.
pub open spec fn hex_lower(bs: Seq<u8>) -> Seq<char>
    decreases bs.len(),
{
    if bs.len() == 0 {
        Seq::empty()
    } else {
        hex_pair_lower(bs[0]) + hex_lower(bs.drop_first())
    }
}

pub proof fn lemma_hex_lower_len(bs: Seq<u8>)
    ensures
        hex_lower(bs).len() == 2 * bs.len(),
    decreases bs.len(),
{
    if bs.len() > 0 {
        lemma_hex_lower_len(bs.drop_first());
    }
}

/// Rendering one more byte appends its digit pair.
proof fn lemma_hex_lower_push(bs: Seq<u8>, b: u8)
    ensures
        hex_lower(bs.push(b)) =~= hex_lower(bs) + hex_pair_lower(b),
    decreases bs.len(),
{
    if bs.len() == 0 {
        assert(bs.push(b).drop_first() =~= bs);
    } else {
        assert(bs.push(b).drop_first() =~= bs.drop_first().push(b));
        lemma_hex_lower_push(bs.drop_first(), b);
    }
}

/// The uppercase hexadecimal digit for a value below sixteen.
pub open spec fn hex_digit_upper(n: u8) -> char
    recommends
        n < 16,
{
    if n == 0 {
        '0'
    } else if n == 1 {
        '1'
    } else if n == 2 {
        '2'
    } else if n == 3 {
        '3'
    } else if n == 4 {
        '4'
    } else if n == 5 {
        '5'
    } else if n == 6 {
        '6'
    } else if n == 7 {
        '7'
    } else if n == 8 {
        '8'
    } else if n == 9 {
        '9'
    } else if n == 10 {
        'A'
    } else if n == 11 {
        'B'
    } else if n == 12 {
        'C'
    } else if n == 13 {
        'D'
    } else if n == 14 {
        'E'
    } else {
        'F'
    }
}

/// The two uppercase hexadecimal digits of one byte, high nibble first.
pub open spec fn hex_pair_upper(b: u8) -> Seq<char> {
    seq![hex_digit_upper(b / 16), hex_digit_upper(b % 16)]
}

/// The uppercase hexadecimal rendering of a byte sequence.
pub open spec fn hex_upper(bs: Seq<u8>) -> Seq<char>
    decreases bs.len(),
{
    if bs.len() == 0 {
        Seq::empty()
    } else {
        hex_pair_upper(bs[0]) + hex_upper(bs.drop_first())
    }
}

pub proof fn lemma_hex_upper_len(bs: Seq<u8>)
    ensures
        hex_upper(bs).len() == 2 * bs.len(),
    decreases bs.len(),
{
    if bs.len() > 0 {
        lemma_hex_upper_len(bs.drop_first());
    }
}

proof fn lemma_hex_upper_push(bs: Seq<u8>, b: u8)
    ensures
        hex_upper(bs.push(b)) =~= hex_upper(bs) + hex_pair_upper(b),
    decreases bs.len(),
{
    if bs.len() == 0 {
        assert(bs.push(b).drop_first() =~= bs);
    } else {
        assert(bs.push(b).drop_first() =~= bs.drop_first().push(b));
        lemma_hex_upper_push(bs.drop_first(), b);
    }
}

/// ASCII case folding of one character: a lowercase letter becomes its
/// uppercase counterpart, every other character is unchanged.
pub open spec fn to_upper_char(c: char) -> char {
    if 'a' <= c && c <= 'z' {
        (((c as u32 - 32) as u32) as char)
    } else {
        c
    }
}

/// ASCII case folding of a whole character sequence.
pub open spec fn to_upper(s: Seq<char>) -> Seq<char> {
    s.map_values(|c: char| to_upper_char(c))
}

/// Dropping every hyphen from a character sequence.
pub open spec fn strip_dashes(s: Seq<char>) -> Seq<char> {
    s.filter(|c: char| c != '-')
}

/// Hyphenation of a 32-digit rendering into the canonical 8-4-4-4-12
/// grouping.
pub open spec fn with_dashes(s: Seq<char>) -> Seq<char>
    recommends
        s.len() == 32,
{
    s.subrange(0, 8) + seq!['-'] + s.subrange(8, 12) + seq!['-'] + s.subrange(12, 16) + seq!['-']
        + s.subrange(16, 20) + seq!['-'] + s.subrange(20, 32)
}

/// The canonical lowercase, hyphen-grouped rendering of sixteen bytes.
pub open spec fn lower_dash_of(bs: Seq<u8>) -> Seq<char>
    recommends
        bs.len() == 16,
{
    with_dashes(hex_lower(bs))
}

/// The uppercase, hyphen-grouped rendering of sixteen bytes.
pub open spec fn upper_dash_of(bs: Seq<u8>) -> Seq<char>
    recommends
        bs.len() == 16,
{
    with_dashes(hex_upper(bs))
}

/// The lowercase hexadecimal digit of a nibble, as executable code.
pub fn hex_char_lower(n: u8) -> (c: char)
    requires
        n < 16,
    ensures
        c == hex_digit_lower(n),
{
    if n == 0 {
        '0'
    } else if n == 1 {
        '1'
    } else if n == 2 {
        '2'
    } else if n == 3 {
        '3'
    } else if n == 4 {
        '4'
    } else if n == 5 {
        '5'
    } else if n == 6 {
        '6'
    } else if n == 7 {
        '7'
    } else if n == 8 {
        '8'
    } else if n == 9 {
        '9'
    } else if n == 10 {
        'a'
    } else if n == 11 {
        'b'
    } else if n == 12 {
        'c'
    } else if n == 13 {
        'd'
    } else if n == 14 {
        'e'
    } else {
        'f'
    }
}

/// The lowercase digit-pair rendering of a whole byte slice.
pub fn hex_lower_of_bytes(bs: &[u8]) -> (v: Vec<char>)
    ensures
        v@ == hex_lower(bs@),
{
    let mut v: Vec<char> = Vec::new();
    let mut i: usize = 0;
    while i < bs.len()
        invariant
            i <= bs.len(),
            v@ =~= hex_lower(bs@.take(i as int)),
        decreases bs.len() - i,
    {
        let b = bs[i];
        v.push(hex_char_lower(b / 16));
        v.push(hex_char_lower(b % 16));
        proof {
            assert(bs@.take(i + 1) =~= bs@.take(i as int).push(b));
            lemma_hex_lower_push(bs@.take(i as int), b);
        }
        i = i + 1;
    }
    proof {
        assert(bs@.take(bs@.len() as int) =~= bs@);
    }
    v
}

/// The uppercase hexadecimal digit of a nibble, as executable code.
pub fn hex_char_upper(n: u8) -> (c: char)
    requires
        n < 16,
    ensures
        c == hex_digit_upper(n),
{
    if n == 0 {
        '0'
    } else if n == 1 {
        '1'
    } else if n == 2 {
        '2'
    } else if n == 3 {
        '3'
    } else if n == 4 {
        '4'
    } else if n == 5 {
        '5'
    } else if n == 6 {
        '6'
    } else if n == 7 {
        '7'
    } else if n == 8 {
        '8'
    } else if n == 9 {
        '9'
    } else if n == 10 {
        'A'
    } else if n == 11 {
        'B'
    } else if n == 12 {
        'C'
    } else if n == 13 {
        'D'
    } else if n == 14 {
        'E'
    } else {
        'F'
    }
}

/// The uppercase digit-pair rendering of a whole byte slice.
pub fn hex_upper_of_bytes(bs: &[u8]) -> (v: Vec<char>)
    ensures
        v@ == hex_upper(bs@),
{
    let mut v: Vec<char> = Vec::new();
    let mut i: usize = 0;
    while i < bs.len()
        invariant
            i <= bs.len(),
            v@ =~= hex_upper(bs@.take(i as int)),
        decreases bs.len() - i,
    {
        let b = bs[i];
        v.push(hex_char_upper(b / 16));
        v.push(hex_char_upper(b % 16));
        proof {
            assert(bs@.take(i + 1) =~= bs@.take(i as int).push(b));
            lemma_hex_upper_push(bs@.take(i as int), b);
        }
        i = i + 1;
    }
    proof {
        assert(bs@.take(bs@.len() as int) =~= bs@);
    }
    v
}

/// Hyphenation of a 32-digit rendering, as executable code.
pub fn add_dashes(s: &Vec<char>) -> (v: Vec<char>)
    requires
        s@.len() == 32,
    ensures
        v@ == with_dashes(s@),
{
    let mut v: Vec<char> = Vec::new();
    let mut i: usize = 0;
    while i < 32
        invariant
            i <= 32,
            s@.len() == 32,
            v@ =~= with_dashes(s@).take(v@.len() as int),
            v@.len() == i + (if i > 20 {
                4int
            } else if i > 16 {
                3int
            } else if i > 12 {
                2int
            } else if i > 8 {
                1int
            } else {
                0int
            }),
        decreases 32 - i,
    {
        if i == 8 || i == 12 || i == 16 || i == 20 {
            v.push('-');
        }
        v.push(s[i]);
        i = i + 1;
    }
    proof {
        assert(v@ =~= with_dashes(s@));
    }
    v
}

/// Case folding takes each lowercase hexadecimal digit to its
/// uppercase counterpart.
proof fn lemma_to_upper_digit(n: u8)
    requires
        n < 16,
    ensures
        to_upper_char(hex_digit_lower(n)) == hex_digit_upper(n),
{
    broadcast use vstd::utf8::char_u32_cast;

}

/// Case folding a lowercase rendering gives the uppercase rendering.
proof fn lemma_to_upper_hex(bs: Seq<u8>)
    ensures
        to_upper(hex_lower(bs)) =~= hex_upper(bs),
    decreases bs.len(),
{
    if bs.len() > 0 {
        lemma_to_upper_digit(bs[0] / 16);
        lemma_to_upper_digit(bs[0] % 16);
        lemma_to_upper_hex(bs.drop_first());
    }
}

/// Hexadecimal renderings contain digits only, never a hyphen.
proof fn lemma_hex_lower_no_dash(bs: Seq<u8>)
    ensures
        forall|i: int| 0 <= i < hex_lower(bs).len() ==> hex_lower(bs)[i] != '-',
    decreases bs.len(),
{
    if bs.len() > 0 {
        lemma_hex_lower_no_dash(bs.drop_first());
        assert forall|i: int| 0 <= i < hex_lower(bs).len() implies hex_lower(bs)[i] != '-' by {
            if i >= 2 {
                assert(hex_lower(bs)[i] == hex_lower(bs.drop_first())[i - 2]);
            }
        }
    }
}

/// Filtering keeps a sequence whole when every element satisfies the
/// predicate.
proof fn lemma_filter_all<A>(s: Seq<A>, pred: spec_fn(A) -> bool)
    requires
        forall|i: int| 0 <= i < s.len() ==> pred(s[i]),
    ensures
        s.filter(pred) =~= s,
    decreases s.len(),
{
    reveal(Seq::filter);
    if s.len() > 0 {
        lemma_filter_all(s.drop_last(), pred);
    }
}

/// Case folding distributes over concatenation.
proof fn lemma_to_upper_add(a: Seq<char>, b: Seq<char>)
    ensures
        to_upper(a + b) =~= to_upper(a) + to_upper(b),
{
}

/// Case folding commutes with taking a subrange.
proof fn lemma_to_upper_subrange(s: Seq<char>, i: int, j: int)
    requires
        0 <= i <= j <= s.len(),
    ensures
        to_upper(s.subrange(i, j)) =~= to_upper(s).subrange(i, j),
{
}

/// The four textual encodings of one identifier are transforms of the
/// canonical lowercase hyphenated one: the uppercase hyphenated form is
/// its ASCII case fold, the lowercase unhyphenated form drops exactly
/// its hyphens, and the uppercase unhyphenated form is the case fold of
/// that.
pub proof fn lemma_variant_transforms(bs: Seq<u8>)
    requires
        bs.len() == 16,
    ensures
        upper_dash_of(bs) == to_upper(lower_dash_of(bs)),
        hex_lower(bs) == strip_dashes(lower_dash_of(bs)),
        hex_upper(bs) == to_upper(hex_lower(bs)),
{
    lemma_hex_lower_len(bs);
    lemma_hex_upper_len(bs);
    lemma_to_upper_hex(bs);
    let lo = hex_lower(bs);
    let up = hex_upper(bs);
    let dash = seq!['-'];
    assert(to_upper(dash) =~= dash);
    let lo1 = lo.subrange(0, 8);
    let lo2 = lo.subrange(8, 12);
    let lo3 = lo.subrange(12, 16);
    let lo4 = lo.subrange(16, 20);
    let lo5 = lo.subrange(20, 32);
    lemma_to_upper_add(lo1, dash);
    lemma_to_upper_add(lo1 + dash, lo2);
    lemma_to_upper_add(lo1 + dash + lo2, dash);
    lemma_to_upper_add(lo1 + dash + lo2 + dash, lo3);
    lemma_to_upper_add(lo1 + dash + lo2 + dash + lo3, dash);
    lemma_to_upper_add(lo1 + dash + lo2 + dash + lo3 + dash, lo4);
    lemma_to_upper_add(lo1 + dash + lo2 + dash + lo3 + dash + lo4, dash);
    lemma_to_upper_add(lo1 + dash + lo2 + dash + lo3 + dash + lo4 + dash, lo5);
    lemma_to_upper_subrange(lo, 0, 8);
    lemma_to_upper_subrange(lo, 8, 12);
    lemma_to_upper_subrange(lo, 12, 16);
    lemma_to_upper_subrange(lo, 16, 20);
    lemma_to_upper_subrange(lo, 20, 32);
    assert(upper_dash_of(bs) =~= to_upper(lower_dash_of(bs)));
    let nondash = |c: char| c != '-';
    broadcast use Seq::filter_distributes_over_add;

    lemma_hex_lower_no_dash(bs);
    lemma_filter_all(lo1, nondash);
    lemma_filter_all(lo2, nondash);
    lemma_filter_all(lo3, nondash);
    lemma_filter_all(lo4, nondash);
    lemma_filter_all(lo5, nondash);
    assert(dash.filter(nondash) =~= Seq::<char>::empty()) by {
        reveal_with_fuel(Seq::filter, 2);
        assert(dash.drop_last() =~= Seq::<char>::empty());
    }
    assert(strip_dashes(lower_dash_of(bs)) =~= lo1 + lo2 + lo3 + lo4 + lo5);
    assert(lo1 + lo2 + lo3 + lo4 + lo5 =~= lo);
}

} // verus!
