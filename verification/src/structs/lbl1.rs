use vstd::prelude::*;
use vstd::utf8::{decode_utf8, encode_utf8, valid_utf8};

use crate::endian::{
    pad16, pad16_len, push_all, push_pad16, push_slice, push_u32, read_u32, u32_at, u32_bytes,
    ByteOrder,
};
use crate::error::Error;
use crate::msbt::{MSBTString, MSBTStringV};

verus! {

/// One decoded label: the human-readable name and the slot of the string it
/// addresses in the text section.
#[derive(Debug, Clone, PartialEq, Eq)]
pub struct Label {
    pub label: String,
    pub string_index: u32,
}

/// Mathematical image of one label.
pub struct LabelV {
    pub label: Seq<char>,
    pub string_index: u32,
}

impl View for Label {
    type V = LabelV;

    open spec fn view(&self) -> LabelV {
        LabelV { label: self.label@, string_index: self.string_index }
    }
}

impl DeepView for Label {
    type V = LabelV;

    open spec fn deep_view(&self) -> LabelV {
        self@
    }
}

/// One bucket descriptor of the on-disk hash table: how many labels the
/// bucket holds and where, relative to the start of the hash-table block,
/// its first label lies.
#[derive(Clone, Copy, Debug, PartialEq, Eq, Structural)]
pub struct LabelDef {
    pub amount: u32,
    pub offset: u32,
}

/// The decoded label index section: the 101 bucket descriptors and the
/// labels of every bucket, in bucket order.
#[derive(Debug, Clone, PartialEq, Eq)]
pub struct LBL1 {
    pub offsets: Vec<LabelDef>,
    pub labels: Vec<Label>,
}

/// Mathematical image of the section.
pub struct LBL1V {
    pub offsets: Seq<LabelDef>,
    pub labels: Seq<LabelV>,
}

impl View for LBL1 {
    type V = LBL1V;

    open spec fn view(&self) -> LBL1V {
        LBL1V { offsets: self.offsets@, labels: self.labels.deep_view() }
    }
}

/// Number of buckets of the on-disk hash table.
pub const BUCKETS: u32 = 101;

/// Byte offset of the first label payload relative to the hash-table block:
/// the 4-byte bucket count plus 101 descriptors of 8 bytes each.
pub const LABELS_BASE: u32 = 0x32C;

/// The 4-byte tag `LBL1` that opens the section.
pub open spec fn spec_lbl1_tag() -> Seq<u8> {
    seq![0x4Cu8, 0x42u8, 0x4Cu8, 0x31u8]
}

/// The polynomial rolling hash of a byte string: each byte multiplies the
/// accumulator by 0x492 and is added, wrapping in 64 bits.
pub open spec fn spec_poly_hash(bytes: Seq<u8>) -> u64
    decreases bytes.len(),
{
    if bytes.len() == 0 {
        0u64
    } else {
        vstd::wrapping::u64_specs::wrapping_add(
            vstd::wrapping::u64_specs::wrapping_mul(spec_poly_hash(bytes.drop_last()), 0x492),
            bytes.last() as u64,
        )
    }
}

/// The bucket a label falls in: its polynomial hash truncated to 32 bits,
/// modulo the bucket count.
pub open spec fn spec_bucket(label: Seq<char>) -> u64 {
    (spec_poly_hash(encode_utf8(label)) % 0x100000000) % 101
}

/// The bucket is the truncated hash modulo the bucket count, stated with the
/// bit mask the truncation is usually written with, and is always below 101.
pub proof fn lemma_bucket_is_hash_mod(label: Seq<char>)
    ensures
        spec_bucket(label) == (spec_poly_hash(encode_utf8(label)) & 0xFFFFFFFF) % 101,
        spec_bucket(label) < 101,
{
    let h = spec_poly_hash(encode_utf8(label));
    assert(h & 0xFFFFFFFF == h % 0x100000000) by (bit_vector);
}

/// One serialized label: a length byte, the UTF-8 bytes of the name, and the
/// 32-bit string index.
pub open spec fn spec_label_entry(l: MSBTStringV, o: ByteOrder) -> Seq<u8> {
    let lb = encode_utf8(l.label);
    seq![lb.len() as u8] + lb + u32_bytes(l.index, o)
}

/// The records of `records` that fall in bucket `b`, in table order.
pub open spec fn spec_bucket_records(records: Seq<MSBTString>, b: int) -> Seq<MSBTString>
    decreases records.len(),
{
    if records.len() == 0 {
        Seq::empty()
    } else {
        let rest = spec_bucket_records(records.drop_last(), b);
        if spec_bucket(records.last().label@) == b as u64 {
            rest.push(records.last())
        } else {
            rest
        }
    }
}

/// The concatenated serialized labels of `rs`, in order.
pub open spec fn spec_entries_bytes(rs: Seq<MSBTString>, o: ByteOrder) -> Seq<u8>
    decreases rs.len(),
{
    if rs.len() == 0 {
        Seq::empty()
    } else {
        spec_entries_bytes(rs.drop_last(), o) + spec_label_entry(rs.last()@, o)
    }
}

/// The concatenated label payloads of buckets `0 .. b`.
pub open spec fn spec_buckets_bytes(records: Seq<MSBTString>, b: int, o: ByteOrder) -> Seq<u8>
    decreases b,
{
    if b <= 0 {
        Seq::empty()
    } else {
        spec_buckets_bytes(records, b - 1, o) + spec_entries_bytes(
            spec_bucket_records(records, b - 1),
            o,
        )
    }
}

/// The on-disk offset of bucket `b`'s labels relative to the hash-table
/// block: the fixed descriptor area plus the labels of all earlier buckets.
/// Empty buckets thereby repeat the offset at which the next non-empty
/// bucket's labels begin.
pub open spec fn spec_bucket_offset(records: Seq<MSBTString>, b: int, o: ByteOrder) -> int {
    LABELS_BASE + spec_buckets_bytes(records, b, o).len() as int
}

/// The concatenated bucket descriptors of buckets `0 .. b`: each bucket's
/// label count and label offset.
pub open spec fn spec_defs_bytes(records: Seq<MSBTString>, b: int, o: ByteOrder) -> Seq<u8>
    decreases b,
{
    if b <= 0 {
        Seq::empty()
    } else {
        spec_defs_bytes(records, b - 1, o) + u32_bytes(
            spec_bucket_records(records, b - 1).len() as u32,
            o,
        ) + u32_bytes(spec_bucket_offset(records, b - 1, o) as u32, o)
    }
}

/// Declared size of the section body: the bucket count field, the 101
/// descriptors, and every label.
pub open spec fn spec_lbl1_section_size(records: Seq<MSBTString>, o: ByteOrder) -> int {
    812 + spec_buckets_bytes(records, 101, o).len() as int
}

/// The serialized label index section: tag, section size, eight reserved
/// zero bytes, the bucket count, the 101 descriptors, the labels grouped by
/// bucket, and 0xD0 padding to the 16-byte boundary.
pub open spec fn spec_lbl1_bytes(records: Seq<MSBTString>, o: ByteOrder) -> Seq<u8> {
    let size = spec_lbl1_section_size(records, o);
    spec_lbl1_tag() + u32_bytes(size as u32, o) + Seq::new(8, |i: int| 0u8) + u32_bytes(101, o)
        + spec_defs_bytes(records, 101, o) + spec_buckets_bytes(records, 101, o) + pad16(
        16 + size,
        0xD0,
    )
}

/// Every serialized label takes at least five bytes.
proof fn lemma_entries_len_lb(rs: Seq<MSBTString>, o: ByteOrder)
    ensures
        spec_entries_bytes(rs, o).len() >= 5 * rs.len(),
    decreases rs.len(),
{
    if rs.len() > 0 {
        lemma_entries_len_lb(rs.drop_last(), o);
    }
}

/// The label payload grows with the bucket count.
proof fn lemma_buckets_len_mono(records: Seq<MSBTString>, b1: int, b2: int, o: ByteOrder)
    requires
        b1 <= b2,
    ensures
        spec_buckets_bytes(records, b1, o).len() <= spec_buckets_bytes(records, b2, o).len(),
    decreases b2 - b1,
{
    if b1 < b2 {
        lemma_buckets_len_mono(records, b1, b2 - 1, o);
    }
}

/// Bucket descriptor offsets never decrease, and an empty bucket's offset
/// equals the next bucket's: a run of empty buckets repeats the offset at
/// which the following non-empty bucket's labels start.
pub proof fn lemma_bucket_offsets_sentinel(records: Seq<MSBTString>, b: int, o: ByteOrder)
    requires
        0 <= b,
    ensures
        spec_bucket_offset(records, b, o) <= spec_bucket_offset(records, b + 1, o),
        spec_bucket_records(records, b).len() == 0 ==> spec_bucket_offset(records, b, o)
            == spec_bucket_offset(records, b + 1, o),
{
    assert(spec_buckets_bytes(records, b + 1, o) == spec_buckets_bytes(records, b, o)
        + spec_entries_bytes(spec_bucket_records(records, b), o));
}

/// Appends one serialized label to `out`.
fn push_label_entry(out: &mut Vec<u8>, rec: &MSBTString, order: ByteOrder)
    requires
        encode_utf8(rec.label@).len() <= 255,
    ensures
        final(out)@ == old(out)@ + spec_label_entry(rec@, order),
{
    let lb: &[u8] = rec.label.as_str().as_bytes();
    out.push(lb.len() as u8);
    push_slice(out, lb);
    push_u32(out, rec.index, order);
    assert(out@ =~= old(out)@ + spec_label_entry(rec@, order));
}

/// Extending the scanned prefix by one record extends its bucket exactly
/// when the record hashes into that bucket, and then appends exactly the
/// record's serialized label to the bucket's payload.
proof fn lemma_bucket_step(records: Seq<MSBTString>, j: int, b: int, o: ByteOrder)
    requires
        0 <= j < records.len(),
    ensures
        spec_bucket(records[j].label@) == b as u64 ==> spec_bucket_records(
            records.subrange(0, j + 1),
            b,
        ) == spec_bucket_records(records.subrange(0, j), b).push(records[j])
            && spec_entries_bytes(spec_bucket_records(records.subrange(0, j + 1), b), o)
            == spec_entries_bytes(spec_bucket_records(records.subrange(0, j), b), o)
            + spec_label_entry(records[j]@, o),
        spec_bucket(records[j].label@) != b as u64 ==> spec_bucket_records(
            records.subrange(0, j + 1),
            b,
        ) == spec_bucket_records(records.subrange(0, j), b),
{
    let pre = records.subrange(0, j);
    let cur = records.subrange(0, j + 1);
    assert(cur.drop_last() =~= pre);
    assert(cur.last() == records[j]);
    if spec_bucket(records[j].label@) == b as u64 {
        let bs = spec_bucket_records(pre, b).push(records[j]);
        assert(bs.drop_last() =~= spec_bucket_records(pre, b));
        assert(bs.last() == records[j]);
    }
}

impl LBL1 {
    /// The polynomial rolling hash of a label, truncated to 32 bits and
    /// reduced to its bucket number, as stored in the label index.
    pub fn calculate_hash(label: &str) -> (h: u64)
        ensures
            h == spec_bucket(label@),
            h < 101,
    {
        let bytes: &[u8] = label.as_bytes();
        let n: usize = bytes.len();
        let mut hash: u64 = 0;
        let mut i: usize = 0;
        while i < n
            invariant
                i <= n,
                n == bytes@.len(),
                bytes@ == encode_utf8(label@),
                hash == spec_poly_hash(bytes@.subrange(0, i as int)),
            decreases n - i,
        {
            hash = hash.wrapping_mul(0x492).wrapping_add(bytes[i] as u64);
            i = i + 1;
            proof {
                let pre = bytes@.subrange(0, i as int);
                assert(pre.drop_last() =~= bytes@.subrange(0, i - 1));
                assert(pre.last() == bytes@[i - 1]);
            }
        }
        proof {
            assert(bytes@.subrange(0, bytes@.len() as int) =~= bytes@);
        }
        (hash % 0x100000000) % 101
    }

    /// Serializes the label index for the given records: labels are grouped
    /// into the 101 buckets of the polynomial hash, in table order within a
    /// bucket, preceded by one descriptor per bucket.
    #[verifier::rlimit(100)]
    pub fn write_binary(msbt_strings: &Vec<MSBTString>, order: ByteOrder) -> (r: Vec<u8>)
        requires
            forall|i: int|
                0 <= i < msbt_strings@.len() ==> encode_utf8(
                    #[trigger] msbt_strings@[i].label@,
                ).len() <= 255,
            spec_lbl1_section_size(msbt_strings@, order) <= u32::MAX,
        ensures
            r@ == spec_lbl1_bytes(msbt_strings@, order),
    {
        let ghost records = msbt_strings@;
        let mut labels_raw: Vec<u8> = Vec::new();
        let mut defs_raw: Vec<u8> = Vec::new();
        let n: usize = msbt_strings.len();
        let mut b: u32 = 0;
        while b < 101
            invariant
                b <= 101,
                n == records.len(),
                records == msbt_strings@,
                forall|i: int|
                    0 <= i < records.len() ==> encode_utf8(#[trigger] records[i].label@).len()
                        <= 255,
                spec_lbl1_section_size(records, order) <= u32::MAX,
                labels_raw@ == spec_buckets_bytes(records, b as int, order),
                defs_raw@ == spec_defs_bytes(records, b as int, order),
            decreases 101 - b,
        {
            let mut bucket_raw: Vec<u8> = Vec::new();
            let mut count: usize = 0;
            let mut j: usize = 0;
            while j < n
                invariant
                    j <= n,
                    n == records.len(),
                    records == msbt_strings@,
                    forall|i: int|
                        0 <= i < records.len() ==> encode_utf8(#[trigger] records[i].label@).len()
                            <= 255,
                    bucket_raw@ == spec_entries_bytes(
                        spec_bucket_records(records.subrange(0, j as int), b as int),
                        order,
                    ),
                    count == spec_bucket_records(records.subrange(0, j as int), b as int).len(),
                    count <= j,
                    5 * count <= bucket_raw@.len(),
                decreases n - j,
            {
                let rec = &msbt_strings[j];
                let h = Self::calculate_hash(rec.label.as_str());
                if h == b as u64 {
                    push_label_entry(&mut bucket_raw, rec, order);
                    count = count + 1;
                }
                proof {
                    lemma_bucket_step(records, j as int, b as int, order);
                }
                j = j + 1;
            }
            proof {
                assert(records.subrange(0, n as int) =~= records);
                lemma_buckets_len_mono(records, b + 1, 101, order);
                lemma_entries_len_lb(spec_bucket_records(records, b as int), order);
            }
            let offset: u32 = LABELS_BASE + labels_raw.len() as u32;
            push_u32(&mut defs_raw, count as u32, order);
            push_u32(&mut defs_raw, offset, order);
            push_all(&mut labels_raw, &bucket_raw);
            b = b + 1;
        }
        let mut result: Vec<u8> = Vec::new();
        result.push(0x4C);
        result.push(0x42);
        result.push(0x4C);
        result.push(0x31);
        assert(result@ =~= spec_lbl1_tag());
        proof {
            lemma_buckets_len_mono(records, 0, 101, order);
        }
        let section_size: u32 = 812 + labels_raw.len() as u32;
        push_u32(&mut result, section_size, order);
        let mut z: usize = 0;
        while z < 8
            invariant
                z <= 8,
                result@ == spec_lbl1_tag() + u32_bytes(section_size, order) + Seq::new(
                    z as nat,
                    |i: int| 0u8,
                ),
            decreases 8 - z,
        {
            result.push(0);
            z = z + 1;
            assert(result@ =~= spec_lbl1_tag() + u32_bytes(section_size, order) + Seq::new(
                z as nat,
                |i: int| 0u8,
            ));
        }
        push_u32(&mut result, 101, order);
        push_all(&mut result, &defs_raw);
        push_all(&mut result, &labels_raw);
        assert(result@.len() == 16 + section_size) by {
            assert(defs_raw@.len() == 808) by {
                lemma_defs_len(records, 101, order);
            };
        };
        push_pad16(&mut result, 0xD0);
        assert(result@ =~= spec_lbl1_bytes(msbt_strings@, order));
        result
    }
}

/// Reading `count` consecutive labels at `p`: each is a length byte, that
/// many UTF-8 bytes, and a 32-bit string index. A read past the end of the
/// buffer is `MalformedSection`; a name that is not UTF-8 is
/// `TextEncodingError`.
pub open spec fn spec_read_labels_at(bytes: Seq<u8>, p: int, count: int, o: ByteOrder) -> Result<
    (Seq<LabelV>, int),
    Error,
>
    decreases count,
{
    if count <= 0 {
        Ok((Seq::empty(), p))
    } else if !(0 <= p && p + 1 <= bytes.len()) {
        Err(Error::MalformedSection)
    } else {
        let sz = bytes[p] as int;
        if p + 5 + sz > bytes.len() {
            Err(Error::MalformedSection)
        } else {
            let lb = bytes.subrange(p + 1, p + 1 + sz);
            if !valid_utf8(lb) {
                Err(Error::TextEncodingError)
            } else {
                let l = LabelV { label: decode_utf8(lb), string_index: u32_at(bytes, p + 1 + sz, o) };
                match spec_read_labels_at(bytes, p + 5 + sz, count - 1, o) {
                    Ok((rest, end)) => Ok((seq![l] + rest, end)),
                    Err(e) => Err(e),
                }
            }
        }
    }
}

/// Reading the labels of buckets `i ..` of the descriptor list `defs`, each
/// bucket's labels at its own offset relative to `base`, concatenated in
/// bucket order.
pub open spec fn spec_read_buckets(
    bytes: Seq<u8>,
    base: int,
    defs: Seq<LabelDef>,
    i: int,
    o: ByteOrder,
) -> Result<Seq<LabelV>, Error>
    decreases defs.len() - i,
{
    if i >= defs.len() {
        Ok(Seq::empty())
    } else {
        match spec_read_labels_at(bytes, base + defs[i].offset, defs[i].amount as int, o) {
            Ok((ls, _)) => match spec_read_buckets(bytes, base, defs, i + 1, o) {
                Ok(rest) => Ok(ls + rest),
                Err(e) => Err(e),
            },
            Err(e) => Err(e),
        }
    }
}

/// Reading the label index section at `pos`: tag, declared size, eight
/// reserved bytes, the bucket count, one descriptor per bucket, then every
/// bucket's labels; the returned position skips the declared size plus its
/// padding to the 16-byte boundary.
pub open spec fn spec_read_lbl1(bytes: Seq<u8>, pos: int, o: ByteOrder) -> Result<
    (LBL1V, int),
    Error,
> {
    if !(pos + 4 <= bytes.len() && bytes.subrange(pos, pos + 4) == spec_lbl1_tag()) {
        Err(Error::MalformedSection)
    } else if pos + 20 > bytes.len() {
        Err(Error::MalformedSection)
    } else {
        let size = u32_at(bytes, pos + 4, o);
        let amount = u32_at(bytes, pos + 16, o);
        if pos + 20 + 8 * amount > bytes.len() {
            Err(Error::MalformedSection)
        } else {
            let defs = Seq::new(
                amount as nat,
                |i: int|
                    LabelDef {
                        amount: u32_at(bytes, pos + 20 + 8 * i, o),
                        offset: u32_at(bytes, pos + 24 + 8 * i, o),
                    },
            );
            let end = pos + 16 + size + pad16_len(size as int);
            if end > bytes.len() {
                Err(Error::MalformedSection)
            } else {
                match spec_read_buckets(bytes, pos + 16, defs, 0, o) {
                    Ok(ls) => Ok((LBL1V { offsets: defs, labels: ls }, end)),
                    Err(e) => Err(e),
                }
            }
        }
    }
}

impl LBL1 {
    /// Reads the label index section at `pos`, returning it with the
    /// position of the first byte after its padding.
    pub fn read_from(bytes: &Vec<u8>, pos: usize, order: ByteOrder) -> (r: Result<
        (LBL1, usize),
        Error,
    >)
        ensures
            r matches Ok((l, p)) ==> spec_read_lbl1(bytes@, pos as int, order) == Ok::<_, Error>(
                (l@, p as int),
            ),
            r matches Err(e) ==> spec_read_lbl1(bytes@, pos as int, order) == Err::<(LBL1V, int),
                _,
            >(e),
    {
        let len: usize = bytes.len();
        if !(pos <= len && len - pos >= 4 && bytes[pos] == 0x4C && bytes[pos + 1] == 0x42
            && bytes[pos + 2] == 0x4C && bytes[pos + 3] == 0x31) {
            proof {
                if pos + 4 <= bytes@.len() {
                    let m = bytes@.subrange(pos as int, pos + 4);
                    if m == spec_lbl1_tag() {
                        assert(bytes@[pos as int] == m[0]);
                        assert(bytes@[pos + 1] == m[1]);
                        assert(bytes@[pos + 2] == m[2]);
                        assert(bytes@[pos + 3] == m[3]);
                    }
                }
            }
            return Err(Error::MalformedSection);
        }
        proof {
            assert(bytes@.subrange(pos as int, pos + 4) =~= spec_lbl1_tag());
        }
        if len - pos < 20 {
            return Err(Error::MalformedSection);
        }
        let (size, _) = read_u32(bytes, pos + 4, order).unwrap();
        let (amount, _) = read_u32(bytes, pos + 16, order).unwrap();
        if ((len - pos - 20) as u64) < 8 * (amount as u64) {
            return Err(Error::MalformedSection);
        }
        let defs = Self::get_offsets(bytes, pos + 20, order, amount);
        let ghost spec_defs = Seq::new(
            amount as nat,
            |i: int|
                LabelDef {
                    amount: u32_at(bytes@, pos + 20 + 8 * i, order),
                    offset: u32_at(bytes@, pos + 24 + 8 * i, order),
                },
        );
        proof {
            assert(defs@ =~= spec_defs);
        }
        let body: u64 = size as u64 + (16 - (size as u64) % 16);
        if ((len - pos - 16) as u64) < body {
            return Err(Error::MalformedSection);
        }
        let end: usize = pos + 16 + body as usize;
        match Self::get_labels(bytes, pos + 16, &defs, order) {
            Ok(labels) => Ok((LBL1 { offsets: defs, labels }, end)),
            Err(e) => Err(e),
        }
    }

    /// Reads the `amount` bucket descriptors that start at `pos`.
    fn get_offsets(bytes: &Vec<u8>, pos: usize, order: ByteOrder, amount: u32) -> (r: Vec<LabelDef>)
        requires
            pos + 8 * amount <= bytes@.len(),
        ensures
            r@.len() == amount,
            forall|i: int|
                0 <= i < amount ==> #[trigger] r@[i] == (LabelDef {
                    amount: u32_at(bytes@, pos + 8 * i, order),
                    offset: u32_at(bytes@, pos + 4 + 8 * i, order),
                }),
    {
        let len: usize = bytes.len();
        let mut defs: Vec<LabelDef> = Vec::new();
        let mut i: u32 = 0;
        while i < amount
            invariant
                i <= amount,
                len == bytes@.len(),
                pos + 8 * amount <= len,
                defs@.len() == i,
                forall|k: int|
                    0 <= k < i ==> #[trigger] defs@[k] == (LabelDef {
                        amount: u32_at(bytes@, pos + 8 * k, order),
                        offset: u32_at(bytes@, pos + 4 + 8 * k, order),
                    }),
            decreases amount - i,
        {
            let (a, _) = read_u32(bytes, pos + 8 * (i as usize), order).unwrap();
            let (off, _) = read_u32(bytes, pos + 4 + 8 * (i as usize), order).unwrap();
            defs.push(LabelDef { amount: a, offset: off });
            i = i + 1;
        }
        defs
    }

    /// Reads every bucket's labels, in bucket order, each bucket at its own
    /// offset relative to `base`.
    fn get_labels(bytes: &Vec<u8>, base: usize, defs: &Vec<LabelDef>, order: ByteOrder) -> (r:
        Result<Vec<Label>, Error>)
        requires
            base <= bytes@.len(),
        ensures
            r matches Ok(ls) ==> spec_read_buckets(bytes@, base as int, defs@, 0, order) == Ok::<
                _,
                Error,
            >(ls.deep_view()),
            r matches Err(e) ==> spec_read_buckets(bytes@, base as int, defs@, 0, order) == Err::<
                Seq<LabelV>,
                _,
            >(e),
    {
        let len: usize = bytes.len();
        let mut labels: Vec<Label> = Vec::new();
        let mut i: usize = 0;
        while i < defs.len()
            invariant
                i <= defs@.len(),
                len == bytes@.len(),
                base <= len,
                spec_read_buckets(bytes@, base as int, defs@, 0, order) == (match spec_read_buckets(
                    bytes@,
                    base as int,
                    defs@,
                    i as int,
                    order,
                ) {
                    Ok(rest) => Ok::<_, Error>(labels.deep_view() + rest),
                    Err(e) => Err::<Seq<LabelV>, _>(e),
                }),
            decreases defs@.len() - i,
        {
            let def = defs[i];
            let ghost p0 = base + def.offset;
            let mut bucket: Vec<Label> = Vec::new();
            if def.amount > 0 {
                if (def.offset as u64) > ((len - base) as u64) {
                    proof {
                        assert(spec_read_labels_at(bytes@, p0, def.amount as int, order) == Err::<
                            (Seq<LabelV>, int),
                            _,
                        >(Error::MalformedSection));
                        assert(spec_read_buckets(bytes@, base as int, defs@, i as int, order)
                            == Err::<Seq<LabelV>, _>(Error::MalformedSection));
                    }
                    return Err(Error::MalformedSection);
                }
                proof {
                    assert(def.offset as int <= len - base);
                }
                let mut p: usize = base + def.offset as usize;
                let mut k: u32 = 0;
                while k < def.amount
                    invariant
                        k <= def.amount,
                        len == bytes@.len(),
                        p <= len,
                        base <= len,
                        i < defs@.len(),
                        def == defs@[i as int],
                        p0 == base + def.offset,
                        spec_read_buckets(bytes@, base as int, defs@, 0, order) == (
                        match spec_read_buckets(bytes@, base as int, defs@, i as int, order) {
                            Ok(rest) => Ok::<_, Error>(labels.deep_view() + rest),
                            Err(e) => Err::<Seq<LabelV>, _>(e),
                        }),
                        spec_read_labels_at(bytes@, p0 as int, def.amount as int, order) == (
                        match spec_read_labels_at(bytes@, p as int, def.amount - k, order) {
                            Ok((ls, e)) => Ok::<_, Error>((bucket.deep_view() + ls, e)),
                            Err(e) => Err::<(Seq<LabelV>, int), _>(e),
                        }),
                    decreases def.amount - k,
                {
                    let ghost p_before = p as int;
                    let ghost bucket_before = bucket.deep_view();
                    if p >= len {
                        proof {
                            assert(spec_read_labels_at(bytes@, p as int, def.amount - k, order) == Err::<
                                (Seq<LabelV>, int),
                                _,
                            >(Error::MalformedSection));
                            assert(spec_read_labels_at(bytes@, p0 as int, def.amount as int, order)
                                == Err::<(Seq<LabelV>, int), _>(Error::MalformedSection));
                            assert(spec_read_buckets(bytes@, base as int, defs@, i as int, order)
                                == Err::<Seq<LabelV>, _>(Error::MalformedSection));
                        }
                        return Err(Error::MalformedSection);
                    }
                    let sz: u8 = bytes[p];
                    if ((len - p - 1) as u64) < (sz as u64) + 4 {
                        proof {
                            assert(p_before + 5 + sz > bytes@.len());
                            assert(spec_read_labels_at(bytes@, p as int, def.amount - k, order) == Err::<
                                (Seq<LabelV>, int),
                                _,
                            >(Error::MalformedSection));
                            assert(spec_read_labels_at(bytes@, p0 as int, def.amount as int, order)
                                == Err::<(Seq<LabelV>, int), _>(Error::MalformedSection));
                            assert(spec_read_buckets(bytes@, base as int, defs@, i as int, order)
                                == Err::<Seq<LabelV>, _>(Error::MalformedSection));
                        }
                        return Err(Error::MalformedSection);
                    }
                    let (lab_bytes, p1) = crate::endian::read_bytes(
                        bytes,
                        p + 1,
                        sz as usize,
                    ).unwrap();
                    let (idx, p2) = read_u32(bytes, p1, order).unwrap();
                    match crate::text::try_from_utf8(lab_bytes.as_slice()) {
                        Option::Some(s) => {
                            let lab = s.to_owned();
                            proof {
                                vstd::utf8::encode_utf8_decode_utf8(lab@);
                                assert(lab@ == decode_utf8(
                                    bytes@.subrange(p_before + 1, p_before + 1 + sz),
                                ));
                            }
                            bucket.push(Label { label: lab, string_index: idx });
                            p = p2;
                            k = k + 1;
                            proof {
                                let l = LabelV {
                                    label: decode_utf8(
                                        bytes@.subrange(p_before + 1, p_before + 1 + sz),
                                    ),
                                    string_index: idx,
                                };
                                assert(bucket.deep_view() =~= bucket_before + seq![l]);
                                assert(spec_read_labels_at(
                                    bytes@,
                                    p_before,
                                    def.amount - (k - 1),
                                    order,
                                ) == (match spec_read_labels_at(
                                    bytes@,
                                    p as int,
                                    def.amount - k,
                                    order,
                                ) {
                                    Ok((ls, e)) => Ok::<_, Error>((seq![l] + ls, e)),
                                    Err(e) => Err::<(Seq<LabelV>, int), _>(e),
                                }));
                                if spec_read_labels_at(bytes@, p as int, def.amount - k, order)
                                    is Ok {
                                    let (ls, _) = spec_read_labels_at(
                                        bytes@,
                                        p as int,
                                        def.amount - k,
                                        order,
                                    ).unwrap();
                                    assert(bucket_before + (seq![l] + ls) =~= (bucket_before
                                        + seq![l]) + ls);
                                }
                            }
                        },
                        Option::None => {
                            proof {
                                assert(!valid_utf8(bytes@.subrange(p_before + 1, p_before + 1 + sz)));
                                assert(spec_read_labels_at(bytes@, p as int, def.amount - k, order) == Err::<
                                    (Seq<LabelV>, int),
                                    _,
                                >(Error::TextEncodingError));
                                assert(spec_read_labels_at(bytes@, p0 as int, def.amount as int, order)
                                    == Err::<(Seq<LabelV>, int), _>(Error::TextEncodingError));
                                assert(spec_read_buckets(bytes@, base as int, defs@, i as int, order)
                                    == Err::<Seq<LabelV>, _>(Error::TextEncodingError));
                            }
                            return Err(Error::TextEncodingError);
                        },
                    }
                }
            }
            let ghost labels_before = labels.deep_view();
            let ghost bucket_view = bucket.deep_view();
            labels.append(&mut bucket);
            i = i + 1;
            proof {
                assert(labels.deep_view() =~= labels_before + bucket_view);
                let rest_all = spec_read_buckets(bytes@, base as int, defs@, i - 1, order);
                let rest_next = spec_read_buckets(bytes@, base as int, defs@, i as int, order);
                if rest_next is Ok {
                    let ls = rest_next.unwrap();
                    assert(labels_before + (bucket_view + ls) =~= (labels_before + bucket_view)
                        + ls);
                }
            }
        }
        proof {
            assert(labels.deep_view() + Seq::<LabelV>::empty() =~= labels.deep_view());
        }
        Ok(labels)
    }
}

/// The descriptor of bucket `b` inside the descriptor area: its label
/// count, then its label offset.
proof fn lemma_defs_bytes_index(records: Seq<MSBTString>, upto: int, o: ByteOrder, b: int)
    requires
        0 <= b < upto,
    ensures
        spec_defs_bytes(records, upto, o).subrange(8 * b, 8 * b + 8) == u32_bytes(
            spec_bucket_records(records, b).len() as u32,
            o,
        ) + u32_bytes(spec_bucket_offset(records, b, o) as u32, o),
    decreases upto,
{
    lemma_defs_len(records, upto, o);
    if b == upto - 1 {
        lemma_defs_len(records, upto - 1, o);
        assert(spec_defs_bytes(records, upto, o).subrange(8 * b, 8 * b + 8) =~= u32_bytes(
            spec_bucket_records(records, b).len() as u32,
            o,
        ) + u32_bytes(spec_bucket_offset(records, b, o) as u32, o));
    } else {
        lemma_defs_bytes_index(records, upto - 1, o, b);
        lemma_defs_len(records, upto - 1, o);
        assert(spec_defs_bytes(records, upto, o).subrange(8 * b, 8 * b + 8) =~= spec_defs_bytes(
            records,
            upto - 1,
            o,
        ).subrange(8 * b, 8 * b + 8));
    }
}

/// The descriptor table of a written label index carries, for every bucket,
/// exactly the bucket's label count and its computed label offset: the
/// on-disk form of the sentinel convention that empty buckets repeat the
/// next bucket's offset.
#[verifier::rlimit(100)]
pub proof fn lemma_lbl1_written_descriptors(
    records: Seq<MSBTString>,
    o: ByteOrder,
    prefix: Seq<u8>,
    b: int,
)
    requires
        0 <= b < 101,
    ensures
        ({
            let bytes = prefix + spec_lbl1_bytes(records, o);
            let p = prefix.len() as int;
            &&& u32_at(bytes, p + 20 + 8 * b, o) == spec_bucket_records(records, b).len() as u32
            &&& u32_at(bytes, p + 24 + 8 * b, o) == spec_bucket_offset(records, b, o) as u32
        }),
{
    let t = spec_lbl1_bytes(records, o);
    let bytes = prefix + t;
    let p = prefix.len() as int;
    let defs = spec_defs_bytes(records, 101, o);
    lemma_defs_len(records, 101, o);
    assert(t.subrange(20, 828) =~= defs);
    lemma_defs_bytes_index(records, 101, o, b);
    let chunk = defs.subrange(8 * b, 8 * b + 8);
    let cnt = spec_bucket_records(records, b).len() as u32;
    let off = spec_bucket_offset(records, b, o) as u32;
    assert forall|j: int| 0 <= j < 4 implies #[trigger] bytes[p + 20 + 8 * b + j] == u32_bytes(
        cnt,
        o,
    )[j] by {
        assert(bytes[p + 20 + 8 * b + j] == t[20 + 8 * b + j]);
        assert(t[20 + 8 * b + j] == t.subrange(20, 828)[8 * b + j]);
        assert(chunk[j] == defs[8 * b + j]);
    }
    assert forall|j: int| 0 <= j < 4 implies #[trigger] bytes[p + 24 + 8 * b + j] == u32_bytes(
        off,
        o,
    )[j] by {
        assert(bytes[p + 24 + 8 * b + j] == t[24 + 8 * b + j]);
        assert(t[24 + 8 * b + j] == t.subrange(20, 828)[8 * b + 4 + j]);
        assert(chunk[4 + j] == defs[8 * b + 4 + j]);
    }
    crate::endian::lemma_u32_roundtrip(cnt, o);
    crate::endian::lemma_u32_roundtrip(off, o);
    assert(bytes[p + 20 + 8 * b] == u32_bytes(cnt, o)[0]) by {
        assert(bytes[p + 20 + 8 * b + 0] == u32_bytes(cnt, o)[0]);
    };
    assert(bytes[p + 20 + 8 * b + 1] == u32_bytes(cnt, o)[1]);
    assert(bytes[p + 20 + 8 * b + 2] == u32_bytes(cnt, o)[2]);
    assert(bytes[p + 20 + 8 * b + 3] == u32_bytes(cnt, o)[3]);
    assert(bytes[p + 24 + 8 * b] == u32_bytes(off, o)[0]) by {
        assert(bytes[p + 24 + 8 * b + 0] == u32_bytes(off, o)[0]);
    };
    assert(bytes[p + 24 + 8 * b + 1] == u32_bytes(off, o)[1]);
    assert(bytes[p + 24 + 8 * b + 2] == u32_bytes(off, o)[2]);
    assert(bytes[p + 24 + 8 * b + 3] == u32_bytes(off, o)[3]);
}

/// The descriptor area of buckets `0 .. b` takes eight bytes per bucket.
proof fn lemma_defs_len(records: Seq<MSBTString>, b: int, o: ByteOrder)
    requires
        b >= 0,
    ensures
        spec_defs_bytes(records, b, o).len() == 8 * b,
    decreases b,
{
    if b > 0 {
        lemma_defs_len(records, b - 1, o);
    }
}

} // verus!
