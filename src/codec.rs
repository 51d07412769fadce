use vstd::prelude::*;

use crate::error::TemperReadErr;

verus! {

/// Position of the big-endian raw sample inside an interrupt response.
pub const RAW_OFFSET: usize = 2;

/// The signed 16-bit value whose big-endian encoding is `hi`, `lo`
/// (two's complement).
pub open spec fn be_i16(hi: u8, lo: u8) -> int {
    let u = hi as int * 256 + lo as int;
    if u >= 32768 {
        u - 65536
    } else {
        u
    }
}

/// The big-endian two's-complement encoding of `v`, most significant byte first.
pub open spec fn be_bytes(v: i16) -> Seq<u8> {
    let u = if v < 0 { v as int + 65536 } else { v as int };
    seq![(u / 256) as u8, (u % 256) as u8]
}

/// Relies on byteorder's `BigEndian::read_i16`: it reads the first two bytes
/// of `b` as a big-endian two's-complement integer, and panics when `b` is
/// shorter than two bytes.
#[verifier::external_body]
fn read_i16_be(b: &[u8]) -> (r: i16)
    requires
        b@.len() >= 2,
    ensures
        r as int == be_i16(b@[0], b@[1]),
{
    <byteorder::BigEndian as byteorder::ByteOrder>::read_i16(b)
}

/// Extracts the raw sensor sample from an interrupt response: bytes 2 and 3,
/// big-endian. A response too short to hold them is malformed.
pub fn raw_from_response(buf: &[u8]) -> (r: Result<i16, TemperReadErr>)
    ensures
        buf@.len() >= RAW_OFFSET + 2 <==> r is Ok,
        r is Ok ==> r->Ok_0 as int == be_i16(buf@[2], buf@[3]),
        r is Err ==> r->Err_0 == TemperReadErr::MalformedResponse,
{
    if buf.len() < RAW_OFFSET + 2 {
        return Err(TemperReadErr::MalformedResponse);
    }
    let sample = vstd::slice::slice_subrange(buf, RAW_OFFSET, RAW_OFFSET + 2);
    Ok(read_i16_be(sample))
}

/// Decoding inverts encoding: a response whose bytes 2 and 3 are the
/// big-endian encoding of `v` yields exactly `v`, for every 16-bit `v`.
pub proof fn lemma_decode_round_trip(buf: Seq<u8>, v: i16)
    requires
        buf.len() >= RAW_OFFSET + 2,
        buf[2] == be_bytes(v)[0],
        buf[3] == be_bytes(v)[1],
    ensures
        be_i16(buf[2], buf[3]) == v as int,
{
    let u = if v < 0 { v as int + 65536 } else { v as int };
    assert(0 <= u < 65536);
    assert((u / 256) * 256 + u % 256 == u) by (nonlinear_arith)
        requires 0 <= u;
    assert(0 <= u / 256 < 256) by (nonlinear_arith)
        requires 0 <= u < 65536;
}

} // verus!
