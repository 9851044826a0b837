use vstd::prelude::*;

verus! {

/// The CRC-16/IBM-3740 checksum of a byte sequence.
///
/// The checksum protects the data bytes of every frame on the device bus.
/// Its value is left unspecified here; the contracts of the frame-handling
/// functions speak of it by this name, and the reference vector for the
/// algorithm is checked by a test against the real implementation.
pub uninterp spec fn crc16_of(data: Seq<u8>) -> u16;

/// Relies on crc's `Crc::<u16>::checksum`, instantiated with the
/// `CRC_16_IBM_3740` parameters: the checksum is computed from the input
/// bytes and the (fixed) algorithm parameters alone.
#[verifier::external_body]
pub(crate) fn crc16_ibm_3740(data: &[u8]) -> (r: u16)
    ensures
        r == crc16_of(data@),
{
    crc::Crc::<u16>::new(&crc::CRC_16_IBM_3740).checksum(data)
}

} // verus!
