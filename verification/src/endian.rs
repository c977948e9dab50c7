//! Little-endian encoding of the 16-bit and 32-bit header fields.

use vstd::prelude::*;

verus! {

/// The two bytes of `x`, least significant first.
pub open spec fn u16_le(x: u16) -> Seq<u8> {
    seq![(x % 256) as u8, (x / 256) as u8]
}

/// The four bytes of `x`, least significant first.
pub open spec fn u32_le(x: u32) -> Seq<u8> {
    seq![
        (x % 256) as u8,
        ((x / 256) % 256) as u8,
        ((x / 65536) % 256) as u8,
        (x / 16777216) as u8,
    ]
}

/// The 16-bit value whose little-endian bytes stand at `at` and `at + 1` in `bytes`.
pub open spec fn u16_at(bytes: Seq<u8>, at: int) -> u16
    recommends
        0 <= at,
        at + 2 <= bytes.len(),
{
    (bytes[at] as int + 256 * (bytes[at + 1] as int)) as u16
}

/// The 32-bit value whose little-endian bytes stand at `at .. at + 4` in `bytes`.
pub open spec fn u32_at(bytes: Seq<u8>, at: int) -> u32
    recommends
        0 <= at,
        at + 4 <= bytes.len(),
{
    (bytes[at] as int + 256 * (bytes[at + 1] as int) + 65536 * (bytes[at + 2] as int) + 16777216 * (
    bytes[at + 3] as int)) as u32
}

/// Decoding the encoding of a 16-bit value gives the value back, wherever the bytes stand.
pub proof fn lemma_u16_round_trip(bytes: Seq<u8>, at: int, x: u16)
    requires
        0 <= at,
        at + 2 <= bytes.len(),
        bytes.subrange(at, at + 2) == u16_le(x),
    ensures
        u16_at(bytes, at) == x,
{
    let field = bytes.subrange(at, at + 2);
    assert(bytes[at] == field[0]);
    assert(bytes[at + 1] == field[1]);
}

/// Decoding the encoding of a 32-bit value gives the value back, wherever the bytes stand.
pub proof fn lemma_u32_round_trip(bytes: Seq<u8>, at: int, x: u32)
    requires
        0 <= at,
        at + 4 <= bytes.len(),
        bytes.subrange(at, at + 4) == u32_le(x),
    ensures
        u32_at(bytes, at) == x,
{
    let field = bytes.subrange(at, at + 4);
    assert(bytes[at] == field[0]);
    assert(bytes[at + 1] == field[1]);
    assert(bytes[at + 2] == field[2]);
    assert(bytes[at + 3] == field[3]);
}

/// Encoding a decoded 32-bit field gives the field's bytes back.
pub proof fn lemma_u32_bytes_round_trip(bytes: Seq<u8>, at: int)
    requires
        0 <= at,
        at + 4 <= bytes.len(),
    ensures
        u32_le(u32_at(bytes, at)) == bytes.subrange(at, at + 4),
{
    assert(u32_le(u32_at(bytes, at)) =~= bytes.subrange(at, at + 4));
}

/// Fields of a record that stands at `pos` in `bytes` are read from `bytes`
/// as they are read from the record itself.
pub proof fn lemma_fields_within(bytes: Seq<u8>, pos: int, record: Seq<u8>)
    requires
        0 <= pos,
        pos + record.len() <= bytes.len(),
        bytes.subrange(pos, pos + record.len()) == record,
    ensures
        forall|k: int|
            0 <= k && k + 2 <= record.len() ==> u16_at(bytes, pos + k) == #[trigger] u16_at(
                record,
                k,
            ),
        forall|k: int|
            0 <= k && k + 4 <= record.len() ==> u32_at(bytes, pos + k) == #[trigger] u32_at(
                record,
                k,
            ),
        forall|a: int, b: int|
            0 <= a <= b <= record.len() ==> bytes.subrange(pos + a, pos + b)
                == #[trigger] record.subrange(a, b),
{
    let r = bytes.subrange(pos, pos + record.len());
    assert forall|k: int| 0 <= k && k + 2 <= record.len() implies u16_at(bytes, pos + k)
        == #[trigger] u16_at(record, k) by {
        assert(r[k] == bytes[pos + k]);
        assert(r[k + 1] == bytes[pos + k + 1]);
    }
    assert forall|k: int| 0 <= k && k + 4 <= record.len() implies u32_at(bytes, pos + k)
        == #[trigger] u32_at(record, k) by {
        assert(r[k] == bytes[pos + k]);
        assert(r[k + 1] == bytes[pos + k + 1]);
        assert(r[k + 2] == bytes[pos + k + 2]);
        assert(r[k + 3] == bytes[pos + k + 3]);
    }
    assert forall|a: int, b: int| 0 <= a <= b <= record.len() implies bytes.subrange(
        pos + a,
        pos + b,
    ) == #[trigger] record.subrange(a, b) by {
        assert(bytes.subrange(pos + a, pos + b) =~= r.subrange(a, b));
    }
}

/// Appends the little-endian bytes of `x` to `out`.
pub fn put_u16(out: &mut Vec<u8>, x: u16)
    ensures
        final(out)@ == old(out)@ + u16_le(x),
{
    out.push((x % 256) as u8);
    out.push((x / 256) as u8);
    assert(out@ =~= old(out)@ + u16_le(x));
}

/// Appends the little-endian bytes of `x` to `out`.
pub fn put_u32(out: &mut Vec<u8>, x: u32)
    ensures
        final(out)@ == old(out)@ + u32_le(x),
{
    out.push((x % 256) as u8);
    out.push(((x / 256) % 256) as u8);
    out.push(((x / 65536) % 256) as u8);
    out.push((x / 16777216) as u8);
    assert(out@ =~= old(out)@ + u32_le(x));
}

/// Appends a copy of `bytes` to `out`.
pub fn put_bytes(out: &mut Vec<u8>, bytes: &[u8])
    ensures
        final(out)@ == old(out)@ + bytes@,
{
    let mut i: usize = 0;
    while i < bytes.len()
        invariant
            i <= bytes.len(),
            out@ == old(out)@ + bytes@.subrange(0, i as int),
        decreases bytes.len() - i,
    {
        out.push(bytes[i]);
        i = i + 1;
        assert(out@ =~= old(out)@ + bytes@.subrange(0, i as int));
    }
    assert(bytes@.subrange(0, i as int) =~= bytes@);
}

/// Reads the 16-bit little-endian value at `at`.
pub fn get_u16(bytes: &[u8], at: usize) -> (x: u16)
    requires
        at + 2 <= bytes.len(),
    ensures
        x == u16_at(bytes@, at as int),
{
    bytes[at] as u16 + 256 * (bytes[at + 1] as u16)
}

/// Reads the 32-bit little-endian value at `at`.
pub fn get_u32(bytes: &[u8], at: usize) -> (x: u32)
    requires
        at + 4 <= bytes.len(),
    ensures
        x == u32_at(bytes@, at as int),
{
    bytes[at] as u32 + 256 * (bytes[at + 1] as u32) + 65536 * (bytes[at + 2] as u32) + 16777216 * (
    bytes[at + 3] as u32)
}

} // verus!
