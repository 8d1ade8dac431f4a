use vstd::prelude::*;

use crate::endian::{
    pad16, pad16_len, push_pad16, push_u32, push_u64, read_u32, read_u64, u32_at, u32_bytes,
    u64_at, u64_bytes, ByteOrder,
};
use crate::error::Error;
use crate::msbt::MSBTString;

verus! {

/// The optional attribute section. Its per-record payload is not understood;
/// only the declared size and record count are kept, and writing emits an
/// empty-but-present section carrying the count.
#[derive(Clone, Copy, Debug, PartialEq, Eq, Structural)]
pub struct ATR1 {
    /// Declared size of the section body; zero when the section is absent.
    pub section_size: u32,
    pub string_amount: u64,
}

/// The 4-byte tag `ATR1` that opens the section.
pub open spec fn spec_atr1_tag() -> Seq<u8> {
    seq![0x41u8, 0x54u8, 0x52u8, 0x31u8]
}

/// Serialized attribute section for `count` records: tag, fixed body size 8,
/// eight reserved zero bytes, the count as 64 bits, 0xD0 padding to the
/// 16-byte boundary (32 bytes in all).
pub open spec fn spec_atr1_bytes(count: u64, o: ByteOrder) -> Seq<u8> {
    spec_atr1_tag() + u32_bytes(8, o) + Seq::new(8, |i: int| 0u8) + u64_bytes(count, o) + pad16(
        24,
        0xD0,
    )
}

/// Reading the attribute section at `pos`. A missing tag is tolerated: the
/// section is recorded as absent with size and count zero and the position is
/// unchanged. When present, the declared size plus padding is skipped and the
/// 64-bit record count is kept.
pub open spec fn spec_read_atr1(bytes: Seq<u8>, pos: int, o: ByteOrder) -> Result<
    (ATR1, int),
    Error,
> {
    if !(pos + 4 <= bytes.len() && bytes.subrange(pos, pos + 4) == spec_atr1_tag()) {
        Ok((ATR1 { section_size: 0, string_amount: 0 }, pos))
    } else if pos + 24 > bytes.len() {
        Err(Error::MalformedSection)
    } else {
        let size = u32_at(bytes, pos + 4, o);
        let count = u64_at(bytes, pos + 16, o);
        let end = pos + 16 + size + pad16_len(size as int);
        if end > bytes.len() {
            Err(Error::MalformedSection)
        } else {
            Ok((ATR1 { section_size: size, string_amount: count }, end))
        }
    }
}

impl ATR1 {
    /// Reads the attribute section at `pos`, returning it with the position
    /// of the first byte after its padding (or `pos` itself when absent).
    pub fn read_from(bytes: &Vec<u8>, pos: usize, order: ByteOrder) -> (r: Result<
        (ATR1, usize),
        Error,
    >)
        ensures
            r matches Ok((a, p)) ==> spec_read_atr1(bytes@, pos as int, order) == Ok::<_, Error>(
                (a, p as int),
            ),
            r matches Err(e) ==> spec_read_atr1(bytes@, pos as int, order) == Err::<(ATR1, int),
                _,
            >(e),
    {
        let len: usize = bytes.len();
        if !(pos <= len && len - pos >= 4 && bytes[pos] == 0x41 && bytes[pos + 1] == 0x54
            && bytes[pos + 2] == 0x52 && bytes[pos + 3] == 0x31) {
            proof {
                if pos + 4 <= bytes@.len() {
                    let m = bytes@.subrange(pos as int, pos + 4);
                    if m == spec_atr1_tag() {
                        assert(bytes@[pos as int] == m[0]);
                        assert(bytes@[pos + 1] == m[1]);
                        assert(bytes@[pos + 2] == m[2]);
                        assert(bytes@[pos + 3] == m[3]);
                    }
                }
            }
            return Ok((ATR1 { section_size: 0, string_amount: 0 }, pos));
        }
        proof {
            assert(bytes@.subrange(pos as int, pos + 4) =~= spec_atr1_tag());
        }
        if len - pos < 24 {
            return Err(Error::MalformedSection);
        }
        let (size, _) = read_u32(bytes, pos + 4, order).unwrap();
        let (count, _) = read_u64(bytes, pos + 16, order).unwrap();
        let body: u64 = size as u64 + (16 - (size as u64) % 16);
        if ((len - pos - 16) as u64) < body {
            return Err(Error::MalformedSection);
        }
        let end: usize = pos + 16 + body as usize;
        Ok((ATR1 { section_size: size, string_amount: count }, end))
    }

    /// Writes the attribute section for the given records: an
    /// empty-but-present section that only carries the record count.
    pub fn write_binary(msbt_strings: &Vec<MSBTString>, order: ByteOrder) -> (r: Vec<u8>)
        ensures
            r@ == spec_atr1_bytes(msbt_strings@.len() as u64, order),
            r@.len() == 32,
    {
        let mut result: Vec<u8> = Vec::new();
        result.push(0x41);
        result.push(0x54);
        result.push(0x52);
        result.push(0x31);
        assert(result@ =~= spec_atr1_tag());
        push_u32(&mut result, 8, order);
        let mut i: usize = 0;
        while i < 8
            invariant
                i <= 8,
                result@ == spec_atr1_tag() + u32_bytes(8, order) + Seq::new(
                    i as nat,
                    |j: int| 0u8,
                ),
            decreases 8 - i,
        {
            result.push(0);
            i = i + 1;
            assert(result@ =~= spec_atr1_tag() + u32_bytes(8, order) + Seq::new(
                i as nat,
                |j: int| 0u8,
            ));
        }
        push_u64(&mut result, msbt_strings.len() as u64, order);
        assert(result@.len() == 24);
        push_pad16(&mut result, 0xD0);
        assert(result@ =~= spec_atr1_bytes(msbt_strings@.len() as u64, order));
        result
    }
}

/// Decoding a written attribute section yields the written count and the
/// fixed body size, and stops exactly at its end, whatever bytes follow.
pub proof fn lemma_atr1_roundtrip(count: u64, o: ByteOrder, rest: Seq<u8>)
    ensures
        spec_read_atr1(spec_atr1_bytes(count, o) + rest, 0, o) == Ok::<_, Error>(
            (ATR1 { section_size: 8, string_amount: count }, 32int),
        ),
{
    let s = spec_atr1_bytes(count, o);
    let bytes = s + rest;
    assert(s.len() == 32);
    assert(bytes.subrange(0, 4) =~= spec_atr1_tag());
    assert(bytes[4] == u32_bytes(8, o)[0]);
    assert(bytes[5] == u32_bytes(8, o)[1]);
    assert(bytes[6] == u32_bytes(8, o)[2]);
    assert(bytes[7] == u32_bytes(8, o)[3]);
    crate::endian::lemma_u32_roundtrip(8, o);
    assert(u32_at(bytes, 4, o) == 8);
    assert(bytes[16] == u64_bytes(count, o)[0]);
    assert(bytes[17] == u64_bytes(count, o)[1]);
    assert(bytes[18] == u64_bytes(count, o)[2]);
    assert(bytes[19] == u64_bytes(count, o)[3]);
    assert(bytes[20] == u64_bytes(count, o)[4]);
    assert(bytes[21] == u64_bytes(count, o)[5]);
    assert(bytes[22] == u64_bytes(count, o)[6]);
    assert(bytes[23] == u64_bytes(count, o)[7]);
    crate::endian::lemma_u64_roundtrip(count, o);
    assert(u64_at(bytes, 16, o) == count);
}

} // verus!
