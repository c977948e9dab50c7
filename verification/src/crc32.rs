//! The running CRC-32 checksum of entry content.

use vstd::prelude::*;

verus! {

/// The CRC-32 (IEEE) checksum that results from feeding `bytes` to a
/// computation whose checksum so far is `prev`. The value is computed by the
/// `crc32fast` crate and not defined here.
pub uninterp spec fn crc32_checksum(prev: u32, bytes: Seq<u8>) -> u32;

/// The checksum of a whole content: zero for no bytes, else what a fresh
/// computation gives for them.
pub open spec fn content_crc32(content: Seq<u8>) -> u32 {
    if content.len() == 0 {
        0
    } else {
        crc32_checksum(0, content)
    }
}

/// Continues a checksum over `buf`.
///
/// Calls `crc32fast::Hasher::new_with_initial`, `update` and `finalize`. The
/// contract claims that the result is the checksum named above; that no
/// bytes leave the checksum as it was; and that the computation can be
/// resumed: if `prev` is the checksum of some bytes from some start, the
/// result is the checksum of those bytes followed by `buf` from the same
/// start.
#[verifier::external_body]
pub(crate) fn update(prev: u32, buf: &[u8]) -> (crc: u32)
    ensures
        crc == crc32_checksum(prev, buf@),
        buf@.len() == 0 ==> crc == prev,
        forall|start: u32, head: Seq<u8>|
            prev == #[trigger] crc32_checksum(start, head) ==> crc == crc32_checksum(
                start,
                head + buf@,
            ),
{
    let mut hasher = crc32fast::Hasher::new_with_initial(prev);
    hasher.update(buf);
    hasher.finalize()
}

/// Continues the checksum of `content` over `buf`.
pub(crate) fn extend(crc: u32, buf: &[u8], content: Ghost<Seq<u8>>) -> (next: u32)
    requires
        crc == content_crc32(content@),
    ensures
        next == content_crc32(content@ + buf@),
{
    let next = update(crc, buf);
    proof {
        if content@.len() == 0 {
            assert(content@ + buf@ =~= buf@);
        }
    }
    next
}

} // verus!
