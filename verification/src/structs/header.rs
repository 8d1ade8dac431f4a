use vstd::prelude::*;

use crate::endian::{
    pad16, push_all, push_pad16, push_u16, push_u32, read_u16, read_u32, u16_at, u16_bytes,
    u16_of, u32_at, u32_bytes, ByteOrder,
};
use crate::error::Error;

verus! {

/// The fixed container header: an 8-byte signature, a byte-order marker that
/// resolves the order of every later multi-byte field, a section count and
/// the declared total file size.
#[derive(Clone, Copy, Debug, PartialEq, Eq, Structural)]
pub struct Header {
    /// True when the byte-order marker declares big-endian.
    pub endianness: bool,
    pub section_amount: u16,
    pub filesize: u32,
}

/// The 8-byte signature `MsgStdBn` that every container must begin with.
pub open spec fn spec_magic() -> Seq<u8> {
    seq![0x4Du8, 0x73u8, 0x67u8, 0x53u8, 0x74u8, 0x64u8, 0x42u8, 0x6Eu8]
}

/// The resolved byte order of a header value.
pub open spec fn spec_header_order(h: Header) -> ByteOrder {
    if h.endianness {
        ByteOrder::BigEndian
    } else {
        ByteOrder::LittleEndian
    }
}

/// The serialized header for `section_amount` sections whose encoded sizes
/// sum to `section_sizes`: signature, byte-order marker, two reserved zero
/// bytes, encoding byte 1, version byte 3, section count, two reserved zero
/// bytes, total file size, zero-padded to the 16-byte boundary (32 bytes).
pub open spec fn spec_header_bytes(section_amount: u16, section_sizes: u32, o: ByteOrder) -> Seq<
    u8,
> {
    spec_magic() + u16_bytes(0xFEFF, o) + seq![0u8, 0u8, 1u8, 3u8] + u16_bytes(section_amount, o)
        + seq![0u8, 0u8] + u32_bytes((section_sizes + 0x20) as u32, o) + Seq::new(
        10,
        |i: int| 0u8,
    )
}

/// Reading a header from `bytes` at `pos`: rejects a missing signature as
/// `NotThisFormat` without reading further, resolves the byte order from the
/// marker (0xFEFF read big-endian means big-endian, anything else
/// little-endian), and takes the fixed-width fields in that order; the
/// returned position is past the 10 bytes of header padding.
pub open spec fn spec_read_header(bytes: Seq<u8>, pos: int) -> Result<(Header, int), Error> {
    if !(pos + 8 <= bytes.len() && bytes.subrange(pos, pos + 8) == spec_magic()) {
        Err(Error::NotThisFormat)
    } else if pos + 32 > bytes.len() {
        Err(Error::MalformedSection)
    } else {
        let big = u16_of(bytes[pos + 8], bytes[pos + 9], ByteOrder::BigEndian) == 0xFEFF;
        let o = if big {
            ByteOrder::BigEndian
        } else {
            ByteOrder::LittleEndian
        };
        Ok(
            (
                Header {
                    endianness: big,
                    section_amount: u16_at(bytes, pos + 14, o),
                    filesize: u32_at(bytes, pos + 18, o),
                },
                pos + 32,
            ),
        )
    }
}

impl Header {
    /// Reads the header section at `pos`, returning it with the position of
    /// the first byte after its padding.
    pub fn read_from(bytes: &Vec<u8>, pos: usize) -> (r: Result<(Header, usize), Error>)
        ensures
            r matches Ok((h, p)) ==> spec_read_header(bytes@, pos as int) == Ok::<_, Error>(
                (h, p as int),
            ),
            r matches Err(e) ==> spec_read_header(bytes@, pos as int) == Err::<(Header, int),
                _,
            >(e),
    {
        let len: usize = bytes.len();
        if !(pos <= len && len - pos >= 8 && bytes[pos] == 0x4D && bytes[pos + 1] == 0x73
            && bytes[pos + 2] == 0x67 && bytes[pos + 3] == 0x53 && bytes[pos + 4] == 0x74
            && bytes[pos + 5] == 0x64 && bytes[pos + 6] == 0x42 && bytes[pos + 7] == 0x6E) {
            proof {
                if pos + 8 <= bytes@.len() {
                    let m = bytes@.subrange(pos as int, pos + 8);
                    if m == spec_magic() {
                        assert(bytes@[pos as int] == m[0]);
                        assert(bytes@[pos + 1] == m[1]);
                        assert(bytes@[pos + 2] == m[2]);
                        assert(bytes@[pos + 3] == m[3]);
                        assert(bytes@[pos + 4] == m[4]);
                        assert(bytes@[pos + 5] == m[5]);
                        assert(bytes@[pos + 6] == m[6]);
                        assert(bytes@[pos + 7] == m[7]);
                    }
                }
            }
            return Err(Error::NotThisFormat);
        }
        proof {
            assert(bytes@.subrange(pos as int, pos + 8) =~= spec_magic());
        }
        if len - pos < 32 {
            return Err(Error::MalformedSection);
        }
        let (bom, _) = read_u16(bytes, pos + 8, ByteOrder::BigEndian).unwrap();
        let big: bool = bom == 0xFEFF;
        let o = if big {
            ByteOrder::BigEndian
        } else {
            ByteOrder::LittleEndian
        };
        let (section_amount, _) = read_u16(bytes, pos + 14, o).unwrap();
        let (filesize, _) = read_u32(bytes, pos + 18, o).unwrap();
        Ok((Header { endianness: big, section_amount, filesize }, pos + 32))
    }

    /// Writes the 32-byte header for `section_amount` sections totalling
    /// `section_sizes` encoded bytes; the declared file size adds the
    /// header's own 32 bytes.
    pub fn write_binary(section_amount: u16, section_sizes: u32, order: ByteOrder) -> (r: Vec<u8>)
        requires
            section_sizes + 0x20 <= u32::MAX,
        ensures
            r@ == spec_header_bytes(section_amount, section_sizes, order),
            r@.len() == 32,
    {
        let mut result: Vec<u8> = Vec::new();
        result.push(0x4D);
        result.push(0x73);
        result.push(0x67);
        result.push(0x53);
        result.push(0x74);
        result.push(0x64);
        result.push(0x42);
        result.push(0x6E);
        assert(result@ =~= spec_magic());
        push_u16(&mut result, 0xFEFF, order);
        result.push(0);
        result.push(0);
        result.push(1);
        result.push(3);
        push_u16(&mut result, section_amount, order);
        result.push(0);
        result.push(0);
        push_u32(&mut result, section_sizes + 0x20, order);
        assert(result@.len() == 22);
        push_pad16(&mut result, 0x00);
        assert(result@ =~= spec_header_bytes(section_amount, section_sizes, order)) by {
            assert(pad16(22, 0x00) =~= Seq::new(10, |i: int| 0u8));
        };
        result
    }
}

/// Decoding a written header yields the written section count and computed
/// file size, resolves the byte order it was written in, and stops exactly at
/// its end, whatever bytes follow.
pub proof fn lemma_header_roundtrip(
    section_amount: u16,
    section_sizes: u32,
    o: ByteOrder,
    rest: Seq<u8>,
)
    requires
        section_sizes + 0x20 <= u32::MAX,
    ensures
        spec_read_header(spec_header_bytes(section_amount, section_sizes, o) + rest, 0) == Ok::<
            _,
            Error,
        >(
            (
                Header {
                    endianness: o is BigEndian,
                    section_amount,
                    filesize: (section_sizes + 0x20) as u32,
                },
                32int,
            ),
        ),
{
    let h = spec_header_bytes(section_amount, section_sizes, o);
    let bytes = h + rest;
    assert(h.len() == 32);
    assert(bytes.subrange(0, 8) =~= spec_magic());
    assert(bytes[8] == u16_bytes(0xFEFF, o)[0]);
    assert(bytes[9] == u16_bytes(0xFEFF, o)[1]);
    if o is BigEndian {
        assert(u16_of(bytes[8], bytes[9], ByteOrder::BigEndian) == 0xFEFF);
    } else {
        assert(bytes[8] == 0xFF && bytes[9] == 0xFE);
        assert(u16_of(bytes[8], bytes[9], ByteOrder::BigEndian) == 0xFFFE);
    }
    assert(bytes[14] == u16_bytes(section_amount, o)[0]);
    assert(bytes[15] == u16_bytes(section_amount, o)[1]);
    crate::endian::lemma_u16_roundtrip(section_amount, o);
    let size = (section_sizes + 0x20) as u32;
    assert(bytes[18] == u32_bytes(size, o)[0]);
    assert(bytes[19] == u32_bytes(size, o)[1]);
    assert(bytes[20] == u32_bytes(size, o)[2]);
    assert(bytes[21] == u32_bytes(size, o)[3]);
    crate::endian::lemma_u32_roundtrip(size, o);
}

} // verus!
