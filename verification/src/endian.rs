use vstd::prelude::*;

verus! {

/// Byte order of every multi-byte field of the container, resolved once from
/// the header's byte-order marker and used uniformly downstream.
#[derive(Clone, Copy, Debug, PartialEq, Eq, Structural)]
pub enum ByteOrder {
    BigEndian,
    LittleEndian,
}

/// The two bytes of `v` in order `o`.
pub open spec fn u16_bytes(v: u16, o: ByteOrder) -> Seq<u8> {
    match o {
        ByteOrder::BigEndian => seq![(v / 0x100) as u8, (v % 0x100) as u8],
        ByteOrder::LittleEndian => seq![(v % 0x100) as u8, (v / 0x100) as u8],
    }
}

/// The four bytes of `v` in order `o`.
pub open spec fn u32_bytes(v: u32, o: ByteOrder) -> Seq<u8> {
    match o {
        ByteOrder::BigEndian => seq![
            ((v / 0x1000000) % 0x100) as u8,
            ((v / 0x10000) % 0x100) as u8,
            ((v / 0x100) % 0x100) as u8,
            (v % 0x100) as u8,
        ],
        ByteOrder::LittleEndian => seq![
            (v % 0x100) as u8,
            ((v / 0x100) % 0x100) as u8,
            ((v / 0x10000) % 0x100) as u8,
            ((v / 0x1000000) % 0x100) as u8,
        ],
    }
}

/// The eight bytes of `v` in order `o`.
pub open spec fn u64_bytes(v: u64, o: ByteOrder) -> Seq<u8> {
    match o {
        ByteOrder::BigEndian => seq![
            ((v / 0x100000000000000) % 0x100) as u8,
            ((v / 0x1000000000000) % 0x100) as u8,
            ((v / 0x10000000000) % 0x100) as u8,
            ((v / 0x100000000) % 0x100) as u8,
            ((v / 0x1000000) % 0x100) as u8,
            ((v / 0x10000) % 0x100) as u8,
            ((v / 0x100) % 0x100) as u8,
            (v % 0x100) as u8,
        ],
        ByteOrder::LittleEndian => seq![
            (v % 0x100) as u8,
            ((v / 0x100) % 0x100) as u8,
            ((v / 0x10000) % 0x100) as u8,
            ((v / 0x1000000) % 0x100) as u8,
            ((v / 0x100000000) % 0x100) as u8,
            ((v / 0x10000000000) % 0x100) as u8,
            ((v / 0x1000000000000) % 0x100) as u8,
            ((v / 0x100000000000000) % 0x100) as u8,
        ],
    }
}

/// The value carried by two bytes in order `o`.
pub open spec fn u16_of(b0: u8, b1: u8, o: ByteOrder) -> u16 {
    match o {
        ByteOrder::BigEndian => (b0 * 0x100 + b1) as u16,
        ByteOrder::LittleEndian => (b1 * 0x100 + b0) as u16,
    }
}

/// The value carried by the two bytes of `s` at `pos` in order `o`.
pub open spec fn u16_at(s: Seq<u8>, pos: int, o: ByteOrder) -> u16 {
    u16_of(s[pos], s[pos + 1], o)
}

/// The value carried by four bytes in order `o`.
pub open spec fn u32_of(b0: u8, b1: u8, b2: u8, b3: u8, o: ByteOrder) -> u32 {
    match o {
        ByteOrder::BigEndian => (b0 * 0x1000000 + b1 * 0x10000 + b2 * 0x100 + b3) as u32,
        ByteOrder::LittleEndian => (b3 * 0x1000000 + b2 * 0x10000 + b1 * 0x100 + b0) as u32,
    }
}

/// The value carried by the four bytes of `s` at `pos` in order `o`.
pub open spec fn u32_at(s: Seq<u8>, pos: int, o: ByteOrder) -> u32 {
    u32_of(s[pos], s[pos + 1], s[pos + 2], s[pos + 3], o)
}

/// The value carried by eight bytes in order `o`.
pub open spec fn u64_of(
    b0: u8,
    b1: u8,
    b2: u8,
    b3: u8,
    b4: u8,
    b5: u8,
    b6: u8,
    b7: u8,
    o: ByteOrder,
) -> u64 {
    match o {
        ByteOrder::BigEndian => (b0 * 0x100000000000000 + b1 * 0x1000000000000 + b2
            * 0x10000000000 + b3 * 0x100000000 + b4 * 0x1000000 + b5 * 0x10000 + b6 * 0x100
            + b7) as u64,
        ByteOrder::LittleEndian => (b7 * 0x100000000000000 + b6 * 0x1000000000000 + b5
            * 0x10000000000 + b4 * 0x100000000 + b3 * 0x1000000 + b2 * 0x10000 + b1 * 0x100
            + b0) as u64,
    }
}

/// The value carried by the eight bytes of `s` at `pos` in order `o`.
pub open spec fn u64_at(s: Seq<u8>, pos: int, o: ByteOrder) -> u64 {
    u64_of(s[pos], s[pos + 1], s[pos + 2], s[pos + 3], s[pos + 4], s[pos + 5], s[pos + 6],
        s[pos + 7], o)
}

/// Reading back the two bytes of a value yields the value, in either order.
pub proof fn lemma_u16_roundtrip(v: u16, o: ByteOrder)
    ensures
        u16_of(u16_bytes(v, o)[0], u16_bytes(v, o)[1], o) == v,
{
}

/// Reading back the four bytes of a value yields the value, in either order.
pub proof fn lemma_u32_roundtrip(v: u32, o: ByteOrder)
    ensures
        u32_of(u32_bytes(v, o)[0], u32_bytes(v, o)[1], u32_bytes(v, o)[2], u32_bytes(v, o)[3], o)
            == v,
{
    assert(v / 0x1000000 < 0x100) by (nonlinear_arith);
    assert((v / 0x1000000) % 0x100 * 0x1000000 + (v / 0x10000) % 0x100 * 0x10000 + (v / 0x100)
        % 0x100 * 0x100 + v % 0x100 == v) by (nonlinear_arith);
}

/// Reading back the eight bytes of a value yields the value, in either order.
pub proof fn lemma_u64_roundtrip(v: u64, o: ByteOrder)
    ensures
        u64_of(
            u64_bytes(v, o)[0],
            u64_bytes(v, o)[1],
            u64_bytes(v, o)[2],
            u64_bytes(v, o)[3],
            u64_bytes(v, o)[4],
            u64_bytes(v, o)[5],
            u64_bytes(v, o)[6],
            u64_bytes(v, o)[7],
            o,
        ) == v,
{
    let x = v as int;
    vstd::arithmetic::div_mod::lemma_fundamental_div_mod(x, 0x100);
    vstd::arithmetic::div_mod::lemma_fundamental_div_mod(x / 0x100, 0x100);
    vstd::arithmetic::div_mod::lemma_fundamental_div_mod(x / 0x10000, 0x100);
    vstd::arithmetic::div_mod::lemma_fundamental_div_mod(x / 0x1000000, 0x100);
    vstd::arithmetic::div_mod::lemma_fundamental_div_mod(x / 0x100000000, 0x100);
    vstd::arithmetic::div_mod::lemma_fundamental_div_mod(x / 0x10000000000, 0x100);
    vstd::arithmetic::div_mod::lemma_fundamental_div_mod(x / 0x1000000000000, 0x100);
    vstd::arithmetic::div_mod::lemma_div_denominator(x, 0x100, 0x100);
    vstd::arithmetic::div_mod::lemma_div_denominator(x, 0x10000, 0x100);
    vstd::arithmetic::div_mod::lemma_div_denominator(x, 0x1000000, 0x100);
    vstd::arithmetic::div_mod::lemma_div_denominator(x, 0x100000000, 0x100);
    vstd::arithmetic::div_mod::lemma_div_denominator(x, 0x10000000000, 0x100);
    vstd::arithmetic::div_mod::lemma_div_denominator(x, 0x1000000000000, 0x100);
    vstd::arithmetic::div_mod::lemma_multiply_divide_lt(x, 0x100000000000000, 0x100);
    vstd::arithmetic::div_mod::lemma_small_mod((x / 0x100000000000000) as nat, 0x100);
}

pub fn push_u16(out: &mut Vec<u8>, v: u16, o: ByteOrder)
    ensures
        final(out)@ == old(out)@ + u16_bytes(v, o),
{
    match o {
        ByteOrder::BigEndian => {
            out.push((v / 0x100) as u8);
            out.push((v % 0x100) as u8);
        },
        ByteOrder::LittleEndian => {
            out.push((v % 0x100) as u8);
            out.push((v / 0x100) as u8);
        },
    }
    assert(out@ =~= old(out)@ + u16_bytes(v, o));
}

pub fn push_u32(out: &mut Vec<u8>, v: u32, o: ByteOrder)
    ensures
        final(out)@ == old(out)@ + u32_bytes(v, o),
{
    match o {
        ByteOrder::BigEndian => {
            out.push(((v / 0x1000000) % 0x100) as u8);
            out.push(((v / 0x10000) % 0x100) as u8);
            out.push(((v / 0x100) % 0x100) as u8);
            out.push((v % 0x100) as u8);
        },
        ByteOrder::LittleEndian => {
            out.push((v % 0x100) as u8);
            out.push(((v / 0x100) % 0x100) as u8);
            out.push(((v / 0x10000) % 0x100) as u8);
            out.push(((v / 0x1000000) % 0x100) as u8);
        },
    }
    assert(out@ =~= old(out)@ + u32_bytes(v, o));
}

pub fn push_u64(out: &mut Vec<u8>, v: u64, o: ByteOrder)
    ensures
        final(out)@ == old(out)@ + u64_bytes(v, o),
{
    match o {
        ByteOrder::BigEndian => {
            out.push(((v / 0x100000000000000) % 0x100) as u8);
            out.push(((v / 0x1000000000000) % 0x100) as u8);
            out.push(((v / 0x10000000000) % 0x100) as u8);
            out.push(((v / 0x100000000) % 0x100) as u8);
            out.push(((v / 0x1000000) % 0x100) as u8);
            out.push(((v / 0x10000) % 0x100) as u8);
            out.push(((v / 0x100) % 0x100) as u8);
            out.push((v % 0x100) as u8);
        },
        ByteOrder::LittleEndian => {
            out.push((v % 0x100) as u8);
            out.push(((v / 0x100) % 0x100) as u8);
            out.push(((v / 0x10000) % 0x100) as u8);
            out.push(((v / 0x1000000) % 0x100) as u8);
            out.push(((v / 0x100000000) % 0x100) as u8);
            out.push(((v / 0x10000000000) % 0x100) as u8);
            out.push(((v / 0x1000000000000) % 0x100) as u8);
            out.push(((v / 0x100000000000000) % 0x100) as u8);
        },
    }
    assert(out@ =~= old(out)@ + u64_bytes(v, o));
}

/// Appends a copy of `src` to `out`.
pub fn push_all(out: &mut Vec<u8>, src: &Vec<u8>)
    ensures
        final(out)@ == old(out)@ + src@,
{
    let mut i: usize = 0;
    while i < src.len()
        invariant
            i <= src@.len(),
            out@ == old(out)@ + src@.subrange(0, i as int),
        decreases src@.len() - i,
    {
        out.push(src[i]);
        i = i + 1;
        assert(out@ =~= old(out)@ + src@.subrange(0, i as int));
    }
    assert(src@.subrange(0, src@.len() as int) =~= src@);
}

/// Appends a copy of the slice `src` to `out`.
pub fn push_slice(out: &mut Vec<u8>, src: &[u8])
    ensures
        final(out)@ == old(out)@ + src@,
{
    let n: usize = src.len();
    let mut i: usize = 0;
    while i < n
        invariant
            i <= n,
            n == src@.len(),
            out@ == old(out)@ + src@.subrange(0, i as int),
        decreases n - i,
    {
        out.push(src[i]);
        i = i + 1;
        assert(out@ =~= old(out)@ + src@.subrange(0, i as int));
    }
    assert(src@.subrange(0, src@.len() as int) =~= src@);
}

pub fn read_u8(bytes: &Vec<u8>, pos: usize) -> (r: Option<(u8, usize)>)
    ensures
        r is Some <==> pos + 1 <= bytes@.len(),
        r is Some ==> r.unwrap().0 == bytes@[pos as int] && r.unwrap().1 == pos + 1,
{
    if pos < bytes.len() {
        Some((bytes[pos], pos + 1))
    } else {
        None
    }
}

pub fn read_u16(bytes: &Vec<u8>, pos: usize, o: ByteOrder) -> (r: Option<(u16, usize)>)
    ensures
        r is Some <==> pos + 2 <= bytes@.len(),
        r is Some ==> r.unwrap().0 == u16_at(bytes@, pos as int, o) && r.unwrap().1 == pos + 2,
{
    if pos < bytes.len() && bytes.len() - pos >= 2 {
        let b0 = bytes[pos];
        let b1 = bytes[pos + 1];
        let v: u16 = match o {
            ByteOrder::BigEndian => (b0 as u16) * 0x100 + (b1 as u16),
            ByteOrder::LittleEndian => (b1 as u16) * 0x100 + (b0 as u16),
        };
        Some((v, pos + 2))
    } else {
        None
    }
}

pub fn read_u32(bytes: &Vec<u8>, pos: usize, o: ByteOrder) -> (r: Option<(u32, usize)>)
    ensures
        r is Some <==> pos + 4 <= bytes@.len(),
        r is Some ==> r.unwrap().0 == u32_at(bytes@, pos as int, o) && r.unwrap().1 == pos + 4,
{
    if pos < bytes.len() && bytes.len() - pos >= 4 {
        let b0 = bytes[pos];
        let b1 = bytes[pos + 1];
        let b2 = bytes[pos + 2];
        let b3 = bytes[pos + 3];
        let v: u32 = match o {
            ByteOrder::BigEndian => (b0 as u32) * 0x1000000 + (b1 as u32) * 0x10000 + (b2 as u32)
                * 0x100 + (b3 as u32),
            ByteOrder::LittleEndian => (b3 as u32) * 0x1000000 + (b2 as u32) * 0x10000 + (b1
                as u32) * 0x100 + (b0 as u32),
        };
        Some((v, pos + 4))
    } else {
        None
    }
}

pub fn read_u64(bytes: &Vec<u8>, pos: usize, o: ByteOrder) -> (r: Option<(u64, usize)>)
    ensures
        r is Some <==> pos + 8 <= bytes@.len(),
        r is Some ==> r.unwrap().0 == u64_at(bytes@, pos as int, o) && r.unwrap().1 == pos + 8,
{
    if pos < bytes.len() && bytes.len() - pos >= 8 {
        let b0 = bytes[pos];
        let b1 = bytes[pos + 1];
        let b2 = bytes[pos + 2];
        let b3 = bytes[pos + 3];
        let b4 = bytes[pos + 4];
        let b5 = bytes[pos + 5];
        let b6 = bytes[pos + 6];
        let b7 = bytes[pos + 7];
        let v: u64 = match o {
            ByteOrder::BigEndian => (b0 as u64) * 0x100000000000000 + (b1 as u64)
                * 0x1000000000000 + (b2 as u64) * 0x10000000000 + (b3 as u64) * 0x100000000 + (
            b4 as u64) * 0x1000000 + (b5 as u64) * 0x10000 + (b6 as u64) * 0x100 + (b7 as u64),
            ByteOrder::LittleEndian => (b7 as u64) * 0x100000000000000 + (b6 as u64)
                * 0x1000000000000 + (b5 as u64) * 0x10000000000 + (b4 as u64) * 0x100000000 + (
            b3 as u64) * 0x1000000 + (b2 as u64) * 0x10000 + (b1 as u64) * 0x100 + (b0 as u64),
        };
        Some((v, pos + 8))
    } else {
        None
    }
}

/// Copies `n` bytes of `bytes` starting at `pos`.
pub fn read_bytes(bytes: &Vec<u8>, pos: usize, n: usize) -> (r: Option<(Vec<u8>, usize)>)
    ensures
        r is Some <==> pos + n <= bytes@.len(),
        r is Some ==> r.unwrap().0@ == bytes@.subrange(pos as int, pos + n) && r.unwrap().1 == pos
            + n,
{
    let len: usize = bytes.len();
    if pos <= len && len - pos >= n {
        let mut v: Vec<u8> = Vec::new();
        let mut i: usize = 0;
        while i < n
            invariant
                i <= n,
                pos + n <= len,
                len == bytes@.len(),
                v@ == bytes@.subrange(pos as int, pos + i),
            decreases n - i,
        {
            v.push(bytes[pos + i]);
            i = i + 1;
            assert(v@ =~= bytes@.subrange(pos as int, pos + i));
        }
        Some((v, pos + n))
    } else {
        None
    }
}

/// Number of padding bytes that brings a stream of length `n` to the next
/// 16-byte boundary; always between 1 and 16.
pub open spec fn pad16_len(n: int) -> int {
    16 - n % 16
}

/// The padding itself: `pad16_len` copies of `fill`.
pub open spec fn pad16(n: int, fill: u8) -> Seq<u8> {
    Seq::new(pad16_len(n) as nat, |i: int| fill)
}

/// Pads `out` to the next 16-byte boundary with `fill` bytes, emitting a full
/// 16 bytes when the length is already a multiple of 16.
pub fn push_pad16(out: &mut Vec<u8>, fill: u8)
    ensures
        final(out)@ == old(out)@ + pad16(old(out)@.len() as int, fill),
        final(out)@.len() % 16 == 0,
{
    let n: usize = out.len() % 16;
    let count: usize = 16 - n;
    let mut i: usize = 0;
    while i < count
        invariant
            i <= count,
            count == 16 - old(out)@.len() % 16,
            out@ == old(out)@ + Seq::new(i as nat, |j: int| fill),
        decreases count - i,
    {
        out.push(fill);
        i = i + 1;
        assert(out@ =~= old(out)@ + Seq::new(i as nat, |j: int| fill));
    }
    assert(out@ == old(out)@ + pad16(old(out)@.len() as int, fill));
    assert(out@.len() % 16 == 0) by {
        assert(out@.len() == old(out)@.len() + 16 - old(out)@.len() % 16);
    };
}

} // verus!
