//! The UUID source: fresh 128-bit identifiers drawn from the `uuid`
//! crate, held as plain bytes, with the version and variant bits that
//! the standard layouts prescribe.

use vstd::prelude::*;
use crate::config::UuidType;

verus! {

/// A 128-bit identifier, held as its sixteen bytes, most significant
/// byte first.
#[derive(Clone, Copy, Debug)]
pub struct UuidValue {
    pub bytes: [u8; 16],
}

impl View for UuidValue {
    type V = Seq<u8>;

    open spec fn view(&self) -> Seq<u8> {
        self.bytes@
    }
}

/// The version nibble of an identifier: the high nibble of byte six.
pub open spec fn version_nibble(bs: Seq<u8>) -> u8
    recommends
        bs.len() == 16,
{
    bs[6] >> 4
}

/// The two variant bits of an identifier: the high bits of byte eight.
pub open spec fn variant_bits(bs: Seq<u8>) -> u8
    recommends
        bs.len() == 16,
{
    bs[8] >> 6
}

/// The version nibble that each UUID type carries.
pub open spec fn version_of(t: UuidType) -> u8 {
    match t {
        UuidType::V4 => 4,
        UuidType::V7 => 7,
    }
}

/// An identifier is well laid out for a type when it is sixteen bytes
/// long, carries that type's version nibble, and carries the reserved
/// variant bit pattern `10`.
pub open spec fn layout_ok(t: UuidType, bs: Seq<u8>) -> bool {
    &&& bs.len() == 16
    &&& version_nibble(bs) == version_of(t)
    &&& variant_bits(bs) == 2
}

/// The big-endian value of a byte sequence.
pub open spec fn be_val(bs: Seq<u8>) -> nat
    decreases bs.len(),
{
    if bs.len() == 0 {
        0
    } else {
        (be_val(bs.drop_last()) * 256 + bs.last()) as nat
    }
}

/// The whole milliseconds in a Unix time given as seconds plus
/// nanoseconds.
pub open spec fn unix_millis(secs: u64, nanos: u32) -> int {
    secs * 1000 + nanos / 1_000_000
}

/// Relies on `uuid::Uuid::new_v4`: it draws a random 128-bit value,
/// masks in version nibble 4 and variant bits `10`, and leaves every
/// other bit random; `as_bytes` hands the value out most significant
/// byte first.
#[verifier::external_body]
fn uuid_v4_bytes() -> (r: [u8; 16])
    ensures
        r@[6] >> 4 == 4u8,
        r@[8] >> 6 == 2u8,
{
    *uuid::Uuid::new_v4().as_bytes()
}

/// Relies on `uuid::Timestamp::from_unix` with `uuid::NoContext` (which
/// keeps the given seconds and nanoseconds and a zero-width counter)
/// and on `uuid::Uuid::new_v7`: the first six bytes carry the whole
/// milliseconds of the timestamp big-endian (whenever they fit in
/// forty-eight bits), byte six carries version nibble 7, byte eight
/// carries variant bits `10`, and the remaining bits are random.
#[verifier::external_body]
fn uuid_v7_bytes(secs: u64, nanos: u32) -> (r: [u8; 16])
    ensures
        r@[6] >> 4 == 7u8,
        r@[8] >> 6 == 2u8,
        unix_millis(secs, nanos) < 0x1000000000000 ==> be_val(r@.take(6)) == unix_millis(
            secs,
            nanos,
        ),
{
    let ts = uuid::Timestamp::from_unix(uuid::NoContext, secs, nanos);
    *uuid::Uuid::new_v7(ts).as_bytes()
}

/// Relies on `std::time::SystemTime::now` and
/// `SystemTime::duration_since` against `UNIX_EPOCH`: the current wall
/// clock as whole seconds and the nanoseconds within the second, or
/// nothing when the clock reads before the epoch.
#[verifier::external_body]
fn clock_unix_now() -> (r: Option<(u64, u32)>)
    ensures
        r matches Some(t) ==> t.1 < 1_000_000_000,
{
    match std::time::SystemTime::now().duration_since(std::time::UNIX_EPOCH) {
        Ok(d) => Some((d.as_secs(), d.subsec_nanos())),
        Err(_) => None,
    }
}

impl UuidValue {
    /// One fresh random-based identifier.
    pub fn new_v4() -> (u: UuidValue)
        ensures
            layout_ok(UuidType::V4, u@),
    {
        UuidValue { bytes: uuid_v4_bytes() }
    }

    /// One fresh time-ordered identifier for the given Unix time.
    pub fn new_v7_at(secs: u64, nanos: u32) -> (u: UuidValue)
        ensures
            layout_ok(UuidType::V7, u@),
            unix_millis(secs, nanos) < 0x1000000000000 ==> be_val(u@.take(6)) == unix_millis(
                secs,
                nanos,
            ),
    {
        UuidValue { bytes: uuid_v7_bytes(secs, nanos) }
    }

    /// One fresh time-ordered identifier for the current wall clock,
    /// or nothing when the clock cannot be read.
    pub fn new_v7_now() -> (r: Option<UuidValue>)
        ensures
            r matches Some(u) ==> layout_ok(UuidType::V7, u@),
    {
        match clock_unix_now() {
            Some((secs, nanos)) => Some(Self::new_v7_at(secs, nanos)),
            None => None,
        }
    }

    /// One fresh identifier of the given type; fails only when the
    /// wall clock, which time-ordered generation needs, cannot be
    /// read.
    pub fn generate(t: UuidType) -> (r: Option<UuidValue>)
        ensures
            r matches Some(u) ==> layout_ok(t, u@),
            t == UuidType::V4 ==> r is Some,
    {
        match t {
            UuidType::V4 => Some(Self::new_v4()),
            UuidType::V7 => Self::new_v7_now(),
        }
    }

    /// The millisecond Unix timestamp embedded in a time-ordered
    /// identifier: the big-endian value of its first six bytes.
    pub fn v7_timestamp_millis(&self) -> (m: u64)
        ensures
            m == be_val(self@.take(6)),
    {
        let b = &self.bytes;
        let m0: u64 = b[0] as u64;
        let m1: u64 = m0 * 256 + b[1] as u64;
        let m2: u64 = m1 * 256 + b[2] as u64;
        let m3: u64 = m2 * 256 + b[3] as u64;
        let m4: u64 = m3 * 256 + b[4] as u64;
        let m5: u64 = m4 * 256 + b[5] as u64;
        proof {
            let s = self@;
            assert(s.take(1).drop_last() =~= s.take(0));
            assert(s.take(2).drop_last() =~= s.take(1));
            assert(s.take(3).drop_last() =~= s.take(2));
            assert(s.take(4).drop_last() =~= s.take(3));
            assert(s.take(5).drop_last() =~= s.take(4));
            assert(s.take(6).drop_last() =~= s.take(5));
            assert(be_val(s.take(0)) == 0);
            assert(m0 == be_val(s.take(1)));
            assert(m1 == be_val(s.take(2)));
            assert(m2 == be_val(s.take(3)));
            assert(m3 == be_val(s.take(4)));
            assert(m4 == be_val(s.take(5)));
            assert(m5 == be_val(s.take(6)));
        }
        m5
    }
}

} // verus!
