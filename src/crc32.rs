use vstd::prelude::*;

verus! {

/// The CRC-32/MPEG-2 checksum of a byte sequence: polynomial 0x04C11DB7, initial value
/// 0xFFFFFFFF, no reflection, no final xor.
pub uninterp spec fn crc32_mpeg2_of(bytes: Seq<u8>) -> u32;

/// Relies on crc's `Crc::<u32>::checksum` with the `CRC_32_MPEG_2` algorithm: the checksum
/// depends on the bytes alone.
#[verifier::external_body]
pub(crate) fn crc32_mpeg2(bytes: &[u8]) -> (r: u32)
    ensures
        r == crc32_mpeg2_of(bytes@),
{
    crc::Crc::<u32>::new(&crc::CRC_32_MPEG_2).checksum(bytes)
}

} // verus!
