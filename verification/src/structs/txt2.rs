use vstd::prelude::*;
use vstd::string::StrSliceExecFns;
use vstd::string::StringExecFns;

use crate::control_codes::{
    push_close_bytes, push_control_bytes, push_units, scan_token, spec_close_bytes,
    spec_control_bytes, spec_is_name_char, spec_read_close_body, spec_read_control_body,
    spec_scan_token, spec_units_from, token_abs, Token, TokenScan,
};
use crate::endian::{
    pad16, push_all, push_pad16, push_u16, push_u32, read_u16, read_u32, u16_at, u16_bytes,
    u16_of, u32_at, u32_bytes, ByteOrder,
};
use crate::error::Error;
use crate::escapes::{escape_code, escape_name, spec_escape_code, spec_escape_name};
use crate::msbt::MSBTString;
use crate::text::{push_char, str_chars};

verus! {

/// The decoded text section: one 32-bit offset per string (relative to the
/// section's string-data start) and the raw byte payload of every string,
/// recovered from the deltas between consecutive distinct offsets.
#[derive(Debug, Clone, PartialEq, Eq)]
pub struct TXT2 {
    pub offsets: Vec<u32>,
    pub strings: Vec<Vec<u8>>,
}

/// Mathematical image of the section.
pub struct TXT2V {
    pub offsets: Seq<u32>,
    pub strings: Seq<Seq<u8>>,
}

impl View for TXT2 {
    type V = TXT2V;

    open spec fn view(&self) -> TXT2V {
        TXT2V { offsets: self.offsets@, strings: self.strings.deep_view() }
    }
}

/// The 4-byte tag `TXT2` that opens the section.
pub open spec fn spec_txt2_tag() -> Seq<u8> {
    seq![0x54u8, 0x58u8, 0x54u8, 0x32u8]
}

/// Inserting a record into a sequence that is sorted by index, after every
/// record whose index is not larger, so that equal indices keep their order.
pub open spec fn spec_insert_by_index(s: Seq<MSBTString>, x: MSBTString) -> Seq<MSBTString>
    decreases s.len(),
{
    if s.len() == 0 || s.last().index <= x.index {
        s.push(x)
    } else {
        spec_insert_by_index(s.drop_last(), x).push(s.last())
    }
}

/// The records sorted by ascending index; records with equal indices keep
/// their original order.
pub open spec fn spec_sort_by_index(s: Seq<MSBTString>) -> Seq<MSBTString>
    decreases s.len(),
{
    if s.len() == 0 {
        s
    } else {
        spec_insert_by_index(spec_sort_by_index(s.drop_last()), s.last())
    }
}

/// Total byte length of the payloads of `rs`.
pub open spec fn spec_sum_len(rs: Seq<MSBTString>) -> int
    decreases rs.len(),
{
    if rs.len() == 0 {
        0
    } else {
        spec_sum_len(rs.drop_last()) + rs.last().string@.len()
    }
}

/// Insertion keeps the length and the payload total.
pub proof fn lemma_insert_by_index_facts(s: Seq<MSBTString>, x: MSBTString)
    ensures
        spec_insert_by_index(s, x).len() == s.len() + 1,
        spec_sum_len(spec_insert_by_index(s, x)) == spec_sum_len(s) + x.string@.len(),
    decreases s.len(),
{
    if s.len() == 0 || s.last().index <= x.index {
        assert(s.push(x).drop_last() =~= s);
    } else {
        lemma_insert_by_index_facts(s.drop_last(), x);
        let t = spec_insert_by_index(s.drop_last(), x).push(s.last());
        assert(t.drop_last() =~= spec_insert_by_index(s.drop_last(), x));
    }
}

/// Sorting keeps the length and the payload total.
pub proof fn lemma_sort_by_index_facts(s: Seq<MSBTString>)
    ensures
        spec_sort_by_index(s).len() == s.len(),
        spec_sum_len(spec_sort_by_index(s)) == spec_sum_len(s),
    decreases s.len(),
{
    if s.len() > 0 {
        lemma_sort_by_index_facts(s.drop_last());
        lemma_insert_by_index_facts(spec_sort_by_index(s.drop_last()), s.last());
    }
}

/// A prefix never has a larger payload total, and totals are nonnegative.
pub proof fn lemma_sum_len_prefix(s: Seq<MSBTString>, j: int)
    requires
        0 <= j <= s.len(),
    ensures
        0 <= spec_sum_len(s.subrange(0, j)) <= spec_sum_len(s),
    decreases s.len() - j,
{
    if j == s.len() {
        assert(s.subrange(0, j) =~= s);
        lemma_sum_len_nonneg(s);
    } else {
        lemma_sum_len_prefix(s, j + 1);
        lemma_sum_len_nonneg(s.subrange(0, j));
        let t = s.subrange(0, j + 1);
        assert(t.drop_last() =~= s.subrange(0, j));
        assert(spec_sum_len(s.subrange(0, j)) <= spec_sum_len(t));
    }
}

proof fn lemma_sum_len_nonneg(s: Seq<MSBTString>)
    ensures
        spec_sum_len(s) >= 0,
    decreases s.len(),
{
    if s.len() > 0 {
        lemma_sum_len_nonneg(s.drop_last());
    }
}

/// The offset table of the already-sorted records `rs`: one 32-bit value per
/// record, the cumulative payload length added to `first`, the offset of the
/// first string's data.
pub open spec fn spec_offsets_bytes(rs: Seq<MSBTString>, first: int, o: ByteOrder) -> Seq<u8>
    decreases rs.len(),
{
    if rs.len() == 0 {
        Seq::empty()
    } else {
        spec_offsets_bytes(rs.drop_last(), first, o) + u32_bytes(
            (first + spec_sum_len(rs.drop_last())) as u32,
            o,
        )
    }
}

/// The concatenated payloads of the already-sorted records `rs`.
pub open spec fn spec_payloads_bytes(rs: Seq<MSBTString>) -> Seq<u8>
    decreases rs.len(),
{
    if rs.len() == 0 {
        Seq::empty()
    } else {
        spec_payloads_bytes(rs.drop_last()) + rs.last().string@
    }
}

/// Declared size of the section body: the string count, the offset table and
/// every payload.
pub open spec fn spec_txt2_section_size(rs: Seq<MSBTString>) -> int {
    4 + 4 * rs.len() + spec_sum_len(rs)
}

/// The serialized text section of `records`: tag, section size, eight
/// reserved zero bytes, the string count, the offset table and the payloads
/// of the records in ascending index order, 0xD0-padded to the 16-byte
/// boundary.
pub open spec fn spec_txt2_bytes(records: Seq<MSBTString>, o: ByteOrder) -> Seq<u8> {
    let rs = spec_sort_by_index(records);
    let size = spec_txt2_section_size(rs);
    spec_txt2_tag() + u32_bytes(size as u32, o) + Seq::new(8, |i: int| 0u8) + u32_bytes(
        rs.len() as u32,
        o,
    ) + spec_offsets_bytes(rs, 4 * (rs.len() as int) + 4, o) + spec_payloads_bytes(rs) + pad16(
        16 + size,
        0xD0,
    )
}

/// `s` with every trailing byte that is not zero removed: the section is
/// padded with 0xD0 bytes, and a real string is contracted to end with an
/// explicit zero terminator, so stripping stops at the first zero byte.
pub open spec fn spec_trim(s: Seq<u8>) -> Seq<u8>
    decreases s.len(),
{
    if s.len() == 0 {
        s
    } else if s.last() != 0 {
        spec_trim(s.drop_last())
    } else {
        s
    }
}

/// Whether every offset lands inside the buffer and the offsets never
/// decrease.
pub open spec fn spec_txt2_offsets_ok(bytes: Seq<u8>, base: int, offs: Seq<u32>) -> bool {
    (forall|i: int| 0 <= i < offs.len() ==> base + #[trigger] offs[i] <= bytes.len())
        && (forall|i: int| 1 <= i < offs.len() ==> #[trigger] offs[i - 1] <= offs[i])
}

/// The string payloads cut out of `bytes` by the offsets `offs[i-1 ..]`:
/// each distinct pair of consecutive offsets delimits one string, a repeated
/// offset adds none, and the last string runs to the end of the buffer,
/// trimmed of trailing non-zero padding.
pub open spec fn spec_txt2_strings(bytes: Seq<u8>, base: int, offs: Seq<u32>, i: int) -> Seq<
    Seq<u8>,
>
    decreases offs.len() - i,
{
    if !(1 <= i <= offs.len()) {
        Seq::empty()
    } else if i == offs.len() {
        seq![spec_trim(bytes.subrange(base + offs[i - 1], bytes.len() as int))]
    } else if offs[i] == offs[i - 1] {
        spec_txt2_strings(bytes, base, offs, i + 1)
    } else {
        seq![bytes.subrange(base + offs[i - 1], base + offs[i])] + spec_txt2_strings(
            bytes,
            base,
            offs,
            i + 1,
        )
    }
}

/// Reading the text section at `pos`: tag, declared size, eight reserved
/// bytes, the string count, the offset table, then the payloads delimited by
/// the offsets; the section runs to the end of the buffer.
pub open spec fn spec_read_txt2(bytes: Seq<u8>, pos: int, o: ByteOrder) -> Result<
    (TXT2V, int),
    Error,
> {
    if !(pos + 4 <= bytes.len() && bytes.subrange(pos, pos + 4) == spec_txt2_tag()) {
        Err(Error::MalformedSection)
    } else if pos + 20 > bytes.len() {
        Err(Error::MalformedSection)
    } else {
        let count = u32_at(bytes, pos + 16, o);
        if pos + 20 + 4 * count > bytes.len() {
            Err(Error::MalformedSection)
        } else {
            let offs = Seq::new(count as nat, |i: int| u32_at(bytes, pos + 20 + 4 * i, o));
            if count == 0 {
                Ok((TXT2V { offsets: offs, strings: Seq::empty() }, bytes.len() as int))
            } else if !spec_txt2_offsets_ok(bytes, pos + 16, offs) {
                Err(Error::MalformedSection)
            } else {
                Ok(
                    (
                        TXT2V {
                            offsets: offs,
                            strings: spec_txt2_strings(bytes, pos + 16, offs, 1),
                        },
                        bytes.len() as int,
                    ),
                )
            }
        }
    }
}

impl TXT2 {
    /// Reads the text section at `pos`; the section is the last of the
    /// container, so reading consumes the buffer to its end.
    pub fn read_from(bytes: &Vec<u8>, pos: usize, order: ByteOrder) -> (r: Result<
        (TXT2, usize),
        Error,
    >)
        ensures
            r matches Ok((t, p)) ==> spec_read_txt2(bytes@, pos as int, order) == Ok::<_, Error>(
                (t@, p as int),
            ),
            r matches Err(e) ==> spec_read_txt2(bytes@, pos as int, order) == Err::<(TXT2V, int),
                _,
            >(e),
    {
        let len: usize = bytes.len();
        if !(pos <= len && len - pos >= 4 && bytes[pos] == 0x54 && bytes[pos + 1] == 0x58
            && bytes[pos + 2] == 0x54 && bytes[pos + 3] == 0x32) {
            proof {
                if pos + 4 <= bytes@.len() {
                    let m = bytes@.subrange(pos as int, pos + 4);
                    if m == spec_txt2_tag() {
                        assert(bytes@[pos as int] == m[0]);
                        assert(bytes@[pos + 1] == m[1]);
                        assert(bytes@[pos + 2] == m[2]);
                        assert(bytes@[pos + 3] == m[3]);
                    }
                }
            }
            return Err(Error::MalformedSection);
        }
        proof {
            assert(bytes@.subrange(pos as int, pos + 4) =~= spec_txt2_tag());
        }
        if len - pos < 20 {
            return Err(Error::MalformedSection);
        }
        let (count, _) = read_u32(bytes, pos + 16, order).unwrap();
        if ((len - pos - 20) as u64) < 4 * (count as u64) {
            return Err(Error::MalformedSection);
        }
        let ghost spec_offs = Seq::new(
            count as nat,
            |i: int| u32_at(bytes@, pos + 20 + 4 * i, order),
        );
        let mut offsets: Vec<u32> = Vec::new();
        let mut i: u32 = 0;
        while i < count
            invariant
                i <= count,
                len == bytes@.len(),
                pos + 20 + 4 * count <= len,
                offsets@.len() == i,
                forall|k: int|
                    0 <= k < i ==> #[trigger] offsets@[k] == u32_at(bytes@, pos + 20 + 4 * k, order),
            decreases count - i,
        {
            let (v, _) = read_u32(bytes, pos + 20 + 4 * (i as usize), order).unwrap();
            offsets.push(v);
            i = i + 1;
        }
        proof {
            assert(offsets@ =~= spec_offs);
        }
        if count == 0 {
            let strings: Vec<Vec<u8>> = Vec::new();
            proof {
                assert(strings.deep_view() =~~= Seq::<Seq<u8>>::empty());
            }
            return Ok((TXT2 { offsets, strings }, len));
        }
        let base: usize = pos + 16;
        if !Self::check_offsets(bytes, base, &offsets) {
            return Err(Error::MalformedSection);
        }
        let strings = Self::get_strings(bytes, base, &offsets);
        Ok((TXT2 { offsets, strings }, len))
    }

    /// Whether every offset lands inside the buffer and the offsets never
    /// decrease.
    fn check_offsets(bytes: &Vec<u8>, base: usize, offsets: &Vec<u32>) -> (r: bool)
        requires
            base <= bytes@.len(),
        ensures
            r == spec_txt2_offsets_ok(bytes@, base as int, offsets@),
    {
        let len: usize = bytes.len();
        let n: usize = offsets.len();
        let mut k: usize = 0;
        while k < n
            invariant
                k <= n,
                n == offsets@.len(),
                len == bytes@.len(),
                base <= len,
                forall|m: int| 0 <= m < k ==> base + #[trigger] offsets@[m] <= len,
                forall|m: int| 1 <= m < k ==> #[trigger] offsets@[m - 1] <= offsets@[m],
            decreases n - k,
        {
            if (offsets[k] as u64) > ((len - base) as u64) {
                return false;
            }
            if k > 0 && offsets[k] < offsets[k - 1] {
                return false;
            }
            k = k + 1;
        }
        true
    }

    /// Cuts the string payloads out of the buffer: one per delta between
    /// consecutive distinct offsets, the last running to the end of the
    /// buffer and trimmed of trailing non-zero padding.
    fn get_strings(bytes: &Vec<u8>, base: usize, offsets: &Vec<u32>) -> (r: Vec<Vec<u8>>)
        requires
            offsets@.len() > 0,
            base <= bytes@.len(),
            spec_txt2_offsets_ok(bytes@, base as int, offsets@),
        ensures
            r.deep_view() == spec_txt2_strings(bytes@, base as int, offsets@, 1),
    {
        let len: usize = bytes.len();
        let n: usize = offsets.len();
        let mut strings: Vec<Vec<u8>> = Vec::new();
        let mut i: usize = 1;
        while i < n
            invariant
                1 <= i <= n,
                n == offsets@.len(),
                len == bytes@.len(),
                base <= len,
                spec_txt2_offsets_ok(bytes@, base as int, offsets@),
                spec_txt2_strings(bytes@, base as int, offsets@, 1) == strings.deep_view()
                    + spec_txt2_strings(bytes@, base as int, offsets@, i as int),
            decreases n - i,
        {
            let ghost before = strings.deep_view();
            proof {
                assert(base + offsets@[i - 1] <= len);
                assert(base + offsets@[i as int] <= len);
                assert(offsets@[i - 1] <= offsets@[i as int]);
            }
            if offsets[i] != offsets[i - 1] {
                let start: usize = base + offsets[i - 1] as usize;
                let count: usize = (offsets[i] - offsets[i - 1]) as usize;
                let (s, _) = crate::endian::read_bytes(bytes, start, count).unwrap();
                strings.push(s);
                proof {
                    assert(strings.deep_view() =~~= before + seq![
                        bytes@.subrange(
                            base + offsets@[i - 1],
                            base + offsets@[i as int],
                        ),
                    ]);
                    let rest = spec_txt2_strings(bytes@, base as int, offsets@, i + 1);
                    assert(before + (seq![
                        bytes@.subrange(base + offsets@[i - 1], base + offsets@[i as int]),
                    ] + rest) =~= strings.deep_view() + rest);
                }
            }
            i = i + 1;
        }
        proof {
            assert(base + offsets@[n - 1] <= len);
        }
        let start: usize = base + offsets[n - 1] as usize;
        let (mut last, _) = crate::endian::read_bytes(bytes, start, len - start).unwrap();
        proof {
            assert(last@ == bytes@.subrange(base + offsets@[n - 1], len as int));
        }
        while last.len() > 0 && last[last.len() - 1] != 0
            invariant
                spec_trim(last@) == spec_trim(
                    bytes@.subrange(base + offsets@[n - 1], bytes@.len() as int),
                ),
            decreases last@.len(),
        {
            let ghost before = last@;
            last.pop();
            proof {
                assert(before.drop_last() =~= last@);
            }
        }
        proof {
            assert(spec_trim(last@) == last@);
        }
        let ghost before = strings.deep_view();
        let ghost last_view = last@;
        strings.push(last);
        proof {
            assert(strings.deep_view() =~~= before + seq![
                spec_trim(bytes@.subrange(base + offsets@[n - 1], bytes@.len() as int)),
            ]);
        }
        strings
    }

    /// Serializes the text section: the records are sorted by ascending
    /// index, offsets are accumulated from the payload lengths, and the
    /// payloads follow the offset table.
    pub fn write_binary(msbt_strings: Vec<MSBTString>, order: ByteOrder) -> (r: Vec<u8>)
        requires
            spec_txt2_section_size(msbt_strings@) <= u32::MAX,
        ensures
            r@ == spec_txt2_bytes(msbt_strings@, order),
    {
        let ghost input = msbt_strings@;
        let sorted = sort_by_index(msbt_strings);
        proof {
            lemma_sort_by_index_facts(input);
        }
        let n: usize = sorted.len();
        proof {
            lemma_sum_len_nonneg(sorted@);
        }
        let first: u32 = (4 * (n as u64) + 4) as u32;
        let mut offsets_raw: Vec<u8> = Vec::new();
        let mut strs_raw: Vec<u8> = Vec::new();
        let mut last_offset: u32 = first;
        let mut j: usize = 0;
        while j < n
            invariant
                j <= n,
                n == sorted@.len(),
                sorted@ == spec_sort_by_index(input),
                first == 4 * n + 4,
                spec_txt2_section_size(sorted@) <= u32::MAX,
                offsets_raw@ == spec_offsets_bytes(sorted@.subrange(0, j as int), first as int, order),
                strs_raw@ == spec_payloads_bytes(sorted@.subrange(0, j as int)),
                last_offset == first + spec_sum_len(sorted@.subrange(0, j as int)),
            decreases n - j,
        {
            proof {
                lemma_sum_len_prefix(sorted@, j + 1);
                let cur = sorted@.subrange(0, j + 1);
                assert(cur.drop_last() =~= sorted@.subrange(0, j as int));
                assert(cur.last() == sorted@[j as int]);
            }
            proof {
                lemma_sum_len_prefix(sorted@, j as int);
                assert(spec_sum_len(sorted@.subrange(0, j + 1)) == spec_sum_len(
                    sorted@.subrange(0, j as int),
                ) + sorted@[j as int].string@.len());
                assert(first + spec_sum_len(sorted@.subrange(0, j + 1)) <= first + spec_sum_len(
                    sorted@,
                ));
            }
            push_u32(&mut offsets_raw, last_offset, order);
            push_all(&mut strs_raw, &sorted[j].string);
            last_offset = last_offset + sorted[j].string.len() as u32;
            j = j + 1;
        }
        proof {
            assert(sorted@.subrange(0, n as int) =~= sorted@);
        }
        let section_size: u32 = last_offset;
        let mut result: Vec<u8> = Vec::new();
        result.push(0x54);
        result.push(0x58);
        result.push(0x54);
        result.push(0x32);
        assert(result@ =~= spec_txt2_tag());
        push_u32(&mut result, section_size, order);
        let mut z: usize = 0;
        while z < 8
            invariant
                z <= 8,
                result@ == spec_txt2_tag() + u32_bytes(section_size, order) + Seq::new(
                    z as nat,
                    |i: int| 0u8,
                ),
            decreases 8 - z,
        {
            result.push(0);
            z = z + 1;
            assert(result@ =~= spec_txt2_tag() + u32_bytes(section_size, order) + Seq::new(
                z as nat,
                |i: int| 0u8,
            ));
        }
        push_u32(&mut result, n as u32, order);
        push_all(&mut result, &offsets_raw);
        push_all(&mut result, &strs_raw);
        assert(result@.len() == 16 + section_size) by {
            lemma_offsets_bytes_len(sorted@, first as int, order);
        };
        push_pad16(&mut result, 0xD0);
        assert(result@ =~= spec_txt2_bytes(input, order));
        result
    }
}

/// The offset table takes four bytes per record.
proof fn lemma_offsets_bytes_len(rs: Seq<MSBTString>, first: int, o: ByteOrder)
    ensures
        spec_offsets_bytes(rs, first, o).len() == 4 * rs.len(),
        spec_payloads_bytes(rs).len() == spec_sum_len(rs),
    decreases rs.len(),
{
    if rs.len() > 0 {
        lemma_offsets_bytes_len(rs.drop_last(), first, o);
    }
}

/// Inserts `x` into the by-index sorted vector `out`, after every record
/// whose index is not larger.
fn insert_by_index(out: &mut Vec<MSBTString>, x: MSBTString)
    ensures
        final(out)@ == spec_insert_by_index(old(out)@, x),
{
    let ghost s = out@;
    let ghost xi = x.index;
    let mut j: usize = out.len();
    while j > 0 && out[j - 1].index > x.index
        invariant
            j <= out@.len(),
            out@ == s,
            xi == x.index,
            forall|m: int| j <= m < s.len() ==> #[trigger] s[m].index > xi,
        decreases j,
    {
        j = j - 1;
    }
    out.insert(j, x);
    proof {
        lemma_insert_by_index_split(s, x, j as int);
        assert(out@ =~= s.subrange(0, j as int) + seq![x] + s.subrange(j as int, s.len() as int));
    }
}

/// When every record from position `j` on has a larger index and the one
/// before does not, insertion places `x` exactly at position `j`.
proof fn lemma_insert_by_index_split(s: Seq<MSBTString>, x: MSBTString, j: int)
    requires
        0 <= j <= s.len(),
        forall|m: int| j <= m < s.len() ==> #[trigger] s[m].index > x.index,
        j > 0 ==> s[j - 1].index <= x.index,
    ensures
        spec_insert_by_index(s, x) == s.subrange(0, j) + seq![x] + s.subrange(j, s.len() as int),
    decreases s.len(),
{
    if j == s.len() {
        assert(s.subrange(0, j) =~= s);
        assert(spec_insert_by_index(s, x) =~= s.subrange(0, j) + seq![x] + s.subrange(
            j,
            s.len() as int,
        ));
    } else {
        assert(s.last().index > x.index);
        lemma_insert_by_index_split(s.drop_last(), x, j);
        assert(s.drop_last().subrange(0, j) =~= s.subrange(0, j));
        assert(s.drop_last().subrange(j, s.len() - 1) =~= s.subrange(j, s.len() - 1));
        assert(spec_insert_by_index(s, x) =~= s.subrange(0, j) + seq![x] + s.subrange(
            j,
            s.len() as int,
        ));
    }
}

/// Sorts the records by ascending index with a stable insertion sort.
fn sort_by_index(records: Vec<MSBTString>) -> (r: Vec<MSBTString>)
    ensures
        r@ == spec_sort_by_index(records@),
{
    let ghost input = records@;
    let mut rest = records;
    let total: usize = rest.len();
    let mut out: Vec<MSBTString> = Vec::new();
    let mut j: usize = 0;
    while rest.len() > 0
        invariant
            input.len() == total,
            j <= input.len(),
            rest@ == input.subrange(j as int, input.len() as int),
            out@ == spec_sort_by_index(input.subrange(0, j as int)),
        decreases rest@.len(),
    {
        let x = rest.remove(0);
        proof {
            assert(x == input[j as int]);
            assert(rest@ =~= input.subrange(j + 1, input.len() as int));
        }
        insert_by_index(&mut out, x);
        j = j + 1;
        proof {
            let cur = input.subrange(0, j as int);
            assert(cur.drop_last() =~= input.subrange(0, j - 1));
            assert(cur.last() == input[j - 1]);
        }
    }
    proof {
        assert(input.subrange(0, j as int) =~= input);
    }
    out
}

/// The text a lone UTF-16 code unit decodes to: a known private-use glyph
/// becomes its bracketed escape token, anything else the literal character.
pub open spec fn spec_escape_text(u: u16) -> Seq<char> {
    match spec_escape_name(u) {
        Some(n) => seq!['[', '!'] + n + seq![']'],
        None => seq![(u as u32) as char],
    }
}

/// The binary form an escape token encodes to: the glyph's code unit when
/// the name is known, else the token text itself as literal code units (a
/// preserved compatibility quirk).
pub open spec fn spec_esc_bytes(name: Seq<char>, o: ByteOrder) -> Seq<u8> {
    match spec_escape_code(name) {
        Some(c) => u16_bytes(c, o),
        None => match spec_units_from(seq!['[', '!'] + name + seq![']'], 0, o) {
            Ok(b) => b,
            Err(_) => Seq::empty(),
        },
    }
}

/// Decoding the UTF-16-with-embedded-codes payload `bytes[pos ..]` into its
/// bracketed textual form: the 0x000E and 0x000F markers open control-code
/// bodies, surrogate code units and truncated payloads are
/// `TextEncodingError`, and every other unit decodes through the escape
/// tables or as a literal character.
pub open spec fn spec_parse_binary_at(bytes: Seq<u8>, pos: int, o: ByteOrder) -> Result<
    Seq<char>,
    Error,
>
    decreases bytes.len() - pos,
{
    if pos >= bytes.len() || pos < 0 {
        Ok(Seq::empty())
    } else if pos + 2 > bytes.len() {
        Err(Error::TextEncodingError)
    } else {
        let u = u16_at(bytes, pos, o);
        if u == 0x0E {
            match spec_read_control_body(bytes, pos + 2, o) {
                Ok((txt, p2)) => if pos < p2 <= bytes.len() {
                    match spec_parse_binary_at(bytes, p2, o) {
                        Ok(r) => Ok(txt + r),
                        Err(e) => Err(e),
                    }
                } else {
                    Err(Error::TextEncodingError)
                },
                Err(e) => Err(e),
            }
        } else if u == 0x0F {
            match spec_read_close_body(bytes, pos + 2, o) {
                Ok((txt, p2)) => if pos < p2 <= bytes.len() {
                    match spec_parse_binary_at(bytes, p2, o) {
                        Ok(r) => Ok(txt + r),
                        Err(e) => Err(e),
                    }
                } else {
                    Err(Error::TextEncodingError)
                },
                Err(e) => Err(e),
            }
        } else if 0xD800 <= u < 0xE000 {
            Err(Error::TextEncodingError)
        } else {
            match spec_parse_binary_at(bytes, pos + 2, o) {
                Ok(r) => Ok(spec_escape_text(u) + r),
                Err(e) => Err(e),
            }
        }
    }
}

/// Encoding the bracketed textual form `s[pos ..]` back into binary: each
/// recognized token becomes its control, close or escape bytes, a
/// recognized tag head with a malformed body is `MalformedControlCode`, and
/// every other character becomes its literal UTF-16 code unit
/// (`TextEncodingError` beyond the basic plane).
pub open spec fn spec_parse_string_at(s: Seq<char>, pos: int, o: ByteOrder) -> Result<
    Seq<u8>,
    Error,
>
    decreases s.len() - pos,
{
    if pos >= s.len() || pos < 0 {
        Ok(Seq::empty())
    } else {
        match spec_scan_token(s, pos) {
            TokenScan::NoTok => if s[pos] as u32 >= 0x10000 {
                Err(Error::TextEncodingError)
            } else {
                match spec_parse_string_at(s, pos + 1, o) {
                    Ok(r) => Ok(u16_bytes((s[pos] as u32) as u16, o) + r),
                    Err(e) => Err(e),
                }
            },
            TokenScan::BadTok => Err(Error::MalformedControlCode),
            TokenScan::EscTok(name, end) => if pos < end <= s.len() {
                match spec_parse_string_at(s, end, o) {
                    Ok(r) => Ok(spec_esc_bytes(name, o) + r),
                    Err(e) => Err(e),
                }
            } else {
                Err(Error::MalformedControlCode)
            },
            TokenScan::RawTok(g, t, ps, end) => if pos < end <= s.len() {
                match spec_parse_string_at(s, end, o) {
                    Ok(r) => Ok(spec_control_bytes(g, t, ps, o) + r),
                    Err(e) => Err(e),
                }
            } else {
                Err(Error::MalformedControlCode)
            },
            TokenScan::ColourTok(ps, end) => if pos < end <= s.len() {
                match spec_parse_string_at(s, end, o) {
                    Ok(r) => Ok(spec_control_bytes(0, 3, ps, o) + r),
                    Err(e) => Err(e),
                }
            } else {
                Err(Error::MalformedControlCode)
            },
            TokenScan::SizeTok(ps, end) => if pos < end <= s.len() {
                match spec_parse_string_at(s, end, o) {
                    Ok(r) => Ok(spec_control_bytes(0, 2, ps, o) + r),
                    Err(e) => Err(e),
                }
            } else {
                Err(Error::MalformedControlCode)
            },
            TokenScan::CloseTok(g, t, end) => if pos < end <= s.len() {
                match spec_parse_string_at(s, end, o) {
                    Ok(r) => Ok(spec_close_bytes(g, t, o) + r),
                    Err(e) => Err(e),
                }
            } else {
                Err(Error::MalformedControlCode)
            },
        }
    }
}

/// Every token ends after the position it starts at and inside the text,
/// and an escape token's name holds only name characters.
pub proof fn lemma_scan_token_props(s: Seq<char>, pos: int)
    ensures
        spec_scan_token(s, pos) matches TokenScan::EscTok(name, end) ==> pos < end <= s.len()
            && (forall|i: int| 0 <= i < name.len() ==> spec_is_name_char(#[trigger] name[i])),
        spec_scan_token(s, pos) matches TokenScan::RawTok(g, t, ps, end) ==> pos < end <= s.len(),
        spec_scan_token(s, pos) matches TokenScan::ColourTok(ps, end) ==> pos < end <= s.len(),
        spec_scan_token(s, pos) matches TokenScan::SizeTok(ps, end) ==> pos < end <= s.len(),
        spec_scan_token(s, pos) matches TokenScan::CloseTok(g, t, end) ==> pos < end <= s.len(),
{
    if 0 <= pos < s.len() && s[pos] == '[' {
        if pos + 1 < s.len() && s[pos + 1] == '!' {
            crate::control_codes::lemma_name_end_char_props(s, pos + 2);
        } else if pos + 1 < s.len() && s[pos + 1] == '/' {
            crate::control_codes::lemma_alpha_end_props(s, pos + 2);
        } else {
            crate::control_codes::lemma_alpha_end_props(s, pos + 1);
            let he = crate::control_codes::spec_alpha_end(s, pos + 1);
            if he < s.len() && s[he] == ' ' {
                let head = s.subrange(pos + 1, he);
                if head == "RawCmd"@ {
                    match crate::control_codes::spec_parse_dec12(s, he + 1) {
                        Some((g, p1)) => {
                            if p1 < s.len() && s[p1] == '.' {
                                match crate::control_codes::spec_parse_dec12(s, p1 + 1) {
                                    Some((t, p2)) => {
                                        if p2 < s.len() && s[p2] == ' ' {
                                            crate::control_codes::lemma_hexjoin_props(s, p2 + 1);
                                        }
                                    },
                                    None => {},
                                }
                            }
                        },
                        None => {},
                    }
                } else {
                    crate::control_codes::lemma_hexrun_end_props(s, he + 1);
                    if he + 2 <= s.len() {
                        crate::control_codes::lemma_hexrun_end_props(s, he + 2);
                    }
                }
            }
        }
    }
}

impl TXT2 {
    /// Decodes one string payload into its bracketed human-editable text.
    #[verifier::rlimit(100)]
    pub fn parse_binary(string: Vec<u8>, order: ByteOrder) -> (r: Result<String, Error>)
        ensures
            r matches Ok(s) ==> spec_parse_binary_at(string@, 0, order) == Ok::<_, Error>(s@),
            r matches Err(e) ==> spec_parse_binary_at(string@, 0, order) == Err::<Seq<char>, _>(
                e,
            ),
    {
        let n: usize = string.len();
        let mut out = String::new();
        let mut pos: usize = 0;
        while pos < n
            invariant
                pos <= n,
                n == string@.len(),
                spec_parse_binary_at(string@, 0, order) == (match spec_parse_binary_at(
                    string@,
                    pos as int,
                    order,
                ) {
                    Ok(r) => Ok::<Seq<char>, Error>(out@ + r),
                    Err(e) => Err::<Seq<char>, Error>(e),
                }),
            decreases n - pos,
        {
            let ghost pos0 = pos as int;
            let ghost out0 = out@;
            let u = match read_u16(&string, pos, order) {
                Option::Some((u, _)) => u,
                Option::None => {
                    return Err(Error::TextEncodingError);
                },
            };
            if u == 0x0E {
                match crate::control_codes::convert_control_code_binary(&string, pos + 2, order) {
                    Result::Ok((txt, p2)) => {
                        out.append(txt.as_str());
                        pos = p2;
                        proof {
                            if spec_parse_binary_at(string@, pos as int, order) is Ok {
                                let r = spec_parse_binary_at(string@, pos as int, order).unwrap();
                                assert(out0 + (txt@ + r) =~= out@ + r);
                            }
                        }
                    },
                    Result::Err(e) => {
                        return Err(e);
                    },
                }
            } else if u == 0x0F {
                match crate::control_codes::convert_control_code_close_binary(
                    &string,
                    pos + 2,
                    order,
                ) {
                    Result::Ok((txt, p2)) => {
                        out.append(txt.as_str());
                        pos = p2;
                        proof {
                            if spec_parse_binary_at(string@, pos as int, order) is Ok {
                                let r = spec_parse_binary_at(string@, pos as int, order).unwrap();
                                assert(out0 + (txt@ + r) =~= out@ + r);
                            }
                        }
                    },
                    Result::Err(e) => {
                        return Err(e);
                    },
                }
            } else if 0xD800 <= u && u < 0xE000 {
                return Err(Error::TextEncodingError);
            } else {
                match Self::search_escape_code(u) {
                    Result::Ok(txt) => {
                        out.append(txt.as_str());
                        pos = pos + 2;
                        proof {
                            if spec_parse_binary_at(string@, pos as int, order) is Ok {
                                let r = spec_parse_binary_at(string@, pos as int, order).unwrap();
                                assert(out0 + (spec_escape_text(u) + r) =~= out@ + r);
                            }
                        }
                    },
                    Result::Err(e) => {
                        return Err(e);
                    },
                }
            }
        }
        proof {
            assert(out@ + Seq::<char>::empty() =~= out@);
        }
        Ok(out)
    }

    /// Decodes one UTF-16 code unit that is not a control marker: a known
    /// private-use glyph becomes its escape token, a surrogate is an error,
    /// anything else the literal character.
    pub fn search_escape_code(char: u16) -> (r: Result<String, Error>)
        ensures
            char < 0xD800 || char >= 0xE000 ==> (r matches Ok(s) && s@ == spec_escape_text(char)),
            0xD800 <= char < 0xE000 ==> r == Err::<String, Error>(Error::TextEncodingError),
    {
        if char >= 0xE000 {
            match escape_name(char) {
                Option::Some(nm) => {
                    let mut s = String::new();
                    push_char(&mut s, '[');
                    push_char(&mut s, '!');
                    s.append(nm);
                    push_char(&mut s, ']');
                    assert(s@ =~= spec_escape_text(char));
                    return Ok(s);
                },
                Option::None => {},
            }
        }
        match char::from_u32(char as u32) {
            Option::Some(c) => {
                let mut s = String::new();
                push_char(&mut s, c);
                proof {
                    vstd::utf8::char_u32_cast(c, char as u32);
                    if char < 0xD800 || char >= 0xE000 {
                        assert(s@ =~= spec_escape_text(char));
                    }
                }
                Ok(s)
            },
            Option::None => Err(Error::TextEncodingError),
        }
    }

    /// Encodes one full escape token back to binary: a known glyph name
    /// becomes its code unit, an unknown one the literal token text (a
    /// preserved compatibility quirk).
    pub fn convert_escape_code(code: &str, order: ByteOrder) -> (r: Result<Vec<u8>, Error>)
        ensures
            r matches Ok(v) ==> ({
                ||| (spec_scan_token(code@, 0) matches TokenScan::EscTok(name, end) && end
                    == code@.len() && v@ == spec_esc_bytes(name, order))
                ||| (!(spec_scan_token(code@, 0) matches TokenScan::EscTok(name, end) && end
                    == code@.len()) && spec_units_from(code@, 0, order) == Ok::<Seq<u8>, Error>(
                    v@,
                ))
            }),
            r matches Err(e) ==> spec_units_from(code@, 0, order) == Err::<Seq<u8>, _>(e),
    {
        let chars = str_chars(code);
        let tok = scan_token(&chars, 0);
        match tok {
            Token::EscTok(name, end) => {
                if end == chars.len() {
                    proof {
                        lemma_scan_token_props(code@, 0);
                    }
                    let mut out: Vec<u8> = Vec::new();
                    push_esc_bytes(&mut out, &name, order);
                    return Ok(out);
                }
            },
            _ => {},
        }
        let mut out: Vec<u8> = Vec::new();
        match push_units(&mut out, &chars, 0, order) {
            Result::Ok(_) => Ok(out),
            Result::Err(e) => Err(e),
        }
    }

    /// Encodes one bracketed human-editable text back into a binary string
    /// payload.
    #[verifier::rlimit(100)]
    pub fn parse_string(string: &str, order: ByteOrder) -> (r: Result<Vec<u8>, Error>)
        ensures
            r matches Ok(v) ==> spec_parse_string_at(string@, 0, order) == Ok::<_, Error>(v@),
            r matches Err(e) ==> spec_parse_string_at(string@, 0, order) == Err::<Seq<u8>, _>(e),
    {
        let chars = str_chars(string);
        let n: usize = chars.len();
        let mut out: Vec<u8> = Vec::new();
        let mut pos: usize = 0;
        while pos < n
            invariant
                pos <= n,
                n == chars@.len(),
                chars@ == string@,
                spec_parse_string_at(string@, 0, order) == (match spec_parse_string_at(
                    string@,
                    pos as int,
                    order,
                ) {
                    Ok(r) => Ok::<Seq<u8>, Error>(out@ + r),
                    Err(e) => Err::<Seq<u8>, Error>(e),
                }),
            decreases n - pos,
        {
            let ghost pos0 = pos as int;
            let ghost out0 = out@;
            proof {
                lemma_scan_token_props(string@, pos as int);
            }
            let tok = scan_token(&chars, pos);
            match tok {
                Token::NoTok => {
                    let c = chars[pos];
                    let u32v = c as u32;
                    if u32v >= 0x10000 {
                        return Err(Error::TextEncodingError);
                    }
                    push_u16(&mut out, u32v as u16, order);
                    pos = pos + 1;
                    proof {
                        if spec_parse_string_at(string@, pos as int, order) is Ok {
                            let r = spec_parse_string_at(string@, pos as int, order).unwrap();
                            assert(out0 + (u16_bytes(u32v as u16, order) + r) =~= out@ + r);
                        }
                    }
                },
                Token::BadTok => {
                    return Err(Error::MalformedControlCode);
                },
                Token::EscTok(name, end) => {
                    push_esc_bytes(&mut out, &name, order);
                    pos = end;
                    proof {
                        if spec_parse_string_at(string@, pos as int, order) is Ok {
                            let r = spec_parse_string_at(string@, pos as int, order).unwrap();
                            assert(out0 + (spec_esc_bytes(name@, order) + r) =~= out@ + r);
                        }
                    }
                },
                Token::RawTok(g, t, ps, end) => {
                    push_control_bytes(&mut out, g, t, &ps, order);
                    pos = end;
                    proof {
                        if spec_parse_string_at(string@, pos as int, order) is Ok {
                            let r = spec_parse_string_at(string@, pos as int, order).unwrap();
                            assert(out0 + (spec_control_bytes(g, t, ps@, order) + r) =~= out@
                                + r);
                        }
                    }
                },
                Token::ColourTok(ps, end) => {
                    push_control_bytes(&mut out, 0, 3, &ps, order);
                    pos = end;
                    proof {
                        if spec_parse_string_at(string@, pos as int, order) is Ok {
                            let r = spec_parse_string_at(string@, pos as int, order).unwrap();
                            assert(out0 + (spec_control_bytes(0, 3, ps@, order) + r) =~= out@
                                + r);
                        }
                    }
                },
                Token::SizeTok(ps, end) => {
                    push_control_bytes(&mut out, 0, 2, &ps, order);
                    pos = end;
                    proof {
                        if spec_parse_string_at(string@, pos as int, order) is Ok {
                            let r = spec_parse_string_at(string@, pos as int, order).unwrap();
                            assert(out0 + (spec_control_bytes(0, 2, ps@, order) + r) =~= out@
                                + r);
                        }
                    }
                },
                Token::CloseTok(g, t, end) => {
                    push_close_bytes(&mut out, g, t, order);
                    pos = end;
                    proof {
                        if spec_parse_string_at(string@, pos as int, order) is Ok {
                            let r = spec_parse_string_at(string@, pos as int, order).unwrap();
                            assert(out0 + (spec_close_bytes(g, t, order) + r) =~= out@ + r);
                        }
                    }
                },
            }
        }
        proof {
            assert(out@ + Seq::<u8>::empty() =~= out@);
        }
        Ok(out)
    }
}

/// Appends the binary form of one escape token whose name is `name`.
fn push_esc_bytes(out: &mut Vec<u8>, name: &String, order: ByteOrder)
    requires
        forall|i: int| 0 <= i < name@.len() ==> ((#[trigger] name@[i]) as u32) < 0x10000,
    ensures
        final(out)@ == old(out)@ + spec_esc_bytes(name@, order),
{
    match escape_code(name.as_str()) {
        Option::Some(c) => {
            push_u16(out, c, order);
        },
        Option::None => {
            let mut tok_chars: Vec<char> = Vec::new();
            tok_chars.push('[');
            tok_chars.push('!');
            let name_chars = str_chars(name.as_str());
            let mut k: usize = 0;
            while k < name_chars.len()
                invariant
                    k <= name_chars@.len(),
                    name_chars@ == name@,
                    tok_chars@ == seq!['[', '!'] + name@.subrange(0, k as int),
                decreases name_chars@.len() - k,
            {
                tok_chars.push(name_chars[k]);
                k = k + 1;
                assert(tok_chars@ =~= seq!['[', '!'] + name@.subrange(0, k as int));
            }
            proof {
                assert(name@.subrange(0, name@.len() as int) =~= name@);
            }
            tok_chars.push(']');
            proof {
                assert(tok_chars@ =~= seq!['[', '!'] + name@ + seq![']']);
                lemma_units_bmp_ok(tok_chars@, 0, order);
            }
            let r = push_units(out, &tok_chars, 0, order);
            proof {
                assert(r is Ok);
            }
        },
    }
}

/// A text whose characters all lie in the basic plane always encodes to
/// literal code units.
proof fn lemma_units_bmp_ok(s: Seq<char>, i: int, o: ByteOrder)
    requires
        0 <= i <= s.len(),
        forall|m: int| 0 <= m < s.len() ==> (#[trigger] s[m] as u32) < 0x10000,
    ensures
        spec_units_from(s, i, o) is Ok,
    decreases s.len() - i,
{
    if i < s.len() {
        lemma_units_bmp_ok(s, i + 1, o);
    }
}

/// The `i`-th entry of the offset table holds the `i`-th cumulative offset.
proof fn lemma_offsets_bytes_index(rs: Seq<MSBTString>, first: int, o: ByteOrder, i: int)
    requires
        0 <= i < rs.len(),
    ensures
        spec_offsets_bytes(rs, first, o).subrange(4 * i, 4 * i + 4) == u32_bytes(
            (first + spec_sum_len(rs.subrange(0, i))) as u32,
            o,
        ),
    decreases rs.len(),
{
    lemma_offsets_bytes_len(rs, first, o);
    if i == rs.len() - 1 {
        lemma_offsets_bytes_len(rs.drop_last(), first, o);
        assert(rs.subrange(0, i) =~= rs.drop_last());
        assert(spec_offsets_bytes(rs, first, o).subrange(4 * i, 4 * i + 4) =~= u32_bytes(
            (first + spec_sum_len(rs.drop_last())) as u32,
            o,
        ));
    } else {
        lemma_offsets_bytes_index(rs.drop_last(), first, o, i);
        lemma_offsets_bytes_len(rs.drop_last(), first, o);
        assert(rs.drop_last().subrange(0, i) =~= rs.subrange(0, i));
        assert(spec_offsets_bytes(rs, first, o).subrange(4 * i, 4 * i + 4) =~= spec_offsets_bytes(
            rs.drop_last(),
            first,
            o,
        ).subrange(4 * i, 4 * i + 4));
    }
}

/// The payload area between two consecutive cumulative offsets is exactly
/// the `i`-th record's payload.
proof fn lemma_payloads_bytes_index(rs: Seq<MSBTString>, i: int)
    requires
        0 <= i < rs.len(),
    ensures
        spec_payloads_bytes(rs).subrange(
            spec_sum_len(rs.subrange(0, i)),
            spec_sum_len(rs.subrange(0, i + 1)),
        ) == rs[i].string@,
    decreases rs.len(),
{
    lemma_offsets_bytes_len(rs, 0, ByteOrder::LittleEndian);
    lemma_sum_len_prefix(rs, i);
    lemma_sum_len_prefix(rs, i + 1);
    if i == rs.len() - 1 {
        assert(rs.subrange(0, i) =~= rs.drop_last());
        assert(rs.subrange(0, i + 1) =~= rs);
        lemma_offsets_bytes_len(rs.drop_last(), 0, ByteOrder::LittleEndian);
        assert(spec_sum_len(rs.subrange(0, i + 1)) == spec_sum_len(rs.drop_last())
            + rs[i].string@.len());
        assert(spec_payloads_bytes(rs).subrange(
            spec_sum_len(rs.subrange(0, i)),
            spec_sum_len(rs.subrange(0, i + 1)),
        ) =~= rs[i].string@);
    } else {
        lemma_payloads_bytes_index(rs.drop_last(), i);
        lemma_offsets_bytes_len(rs.drop_last(), 0, ByteOrder::LittleEndian);
        assert(rs.drop_last().subrange(0, i) =~= rs.subrange(0, i));
        assert(rs.drop_last().subrange(0, i + 1) =~= rs.subrange(0, i + 1));
        lemma_sum_len_prefix(rs.drop_last(), i + 1);
        lemma_sum_len_nonneg(rs.subrange(0, i));
        assert(rs.subrange(0, i + 1).drop_last() =~= rs.subrange(0, i));
        assert(rs.subrange(0, i + 1).last() == rs[i]);
        let a = spec_sum_len(rs.subrange(0, i));
        let b = spec_sum_len(rs.subrange(0, i + 1));
        assert(spec_payloads_bytes(rs) == spec_payloads_bytes(rs.drop_last())
            + rs.last().string@);
        assert(b <= spec_sum_len(rs.drop_last()));
        assert forall|m: int| 0 <= m < b - a implies #[trigger] spec_payloads_bytes(rs)[a + m]
            == spec_payloads_bytes(rs.drop_last())[a + m] by {}
        assert(spec_payloads_bytes(rs).subrange(a, b) =~= spec_payloads_bytes(
            rs.drop_last(),
        ).subrange(a, b));
    }
}

/// Trailing non-zero bytes after an explicit zero terminator trim away
/// exactly.
proof fn lemma_trim_append_nonzero(s: Seq<u8>, pad: Seq<u8>)
    requires
        s.len() >= 1,
        s.last() == 0,
        forall|i: int| 0 <= i < pad.len() ==> #[trigger] pad[i] != 0,
    ensures
        spec_trim(s + pad) == s,
    decreases pad.len(),
{
    if pad.len() == 0 {
        assert(s + pad =~= s);
    } else {
        assert((s + pad).last() == pad.last());
        assert((s + pad).drop_last() =~= s + pad.drop_last());
        lemma_trim_append_nonzero(s, pad.drop_last());
    }
}

/// The offset values a written text section carries: the data start plus
/// each cumulative payload length.
pub open spec fn spec_txt2_written_offsets(rs: Seq<MSBTString>) -> Seq<u32> {
    Seq::new(
        rs.len(),
        |i: int| (4 * (rs.len() as int) + 4 + spec_sum_len(rs.subrange(0, i))) as u32,
    )
}

/// Positions and single bytes of a written text section: every byte of the
/// serialized form, seen from a buffer that holds it after `prefix`.
proof fn lemma_txt2_layout(records: Seq<MSBTString>, o: ByteOrder, prefix: Seq<u8>)
    requires
        spec_txt2_section_size(spec_sort_by_index(records)) <= u32::MAX,
    ensures
        ({
            let rs = spec_sort_by_index(records);
            let n = rs.len() as int;
            let size = spec_txt2_section_size(rs);
            let t = spec_txt2_bytes(records, o);
            let bytes = prefix + t;
            let p = prefix.len() as int;
            &&& t.len() == 16 + size + crate::endian::pad16_len(16 + size)
            &&& bytes.len() == p + t.len()
            &&& bytes.subrange(p, p + 4) == spec_txt2_tag()
            &&& (forall|j: int|
                0 <= j < 4 ==> #[trigger] bytes[p + 16 + j] == u32_bytes(n as u32, o)[j])
            &&& (forall|i: int, j: int|
                0 <= i < n && 0 <= j < 4 ==> #[trigger] bytes[p + 20 + 4 * i + j]
                    == spec_offsets_bytes(rs, 4 * n + 4, o)[4 * i + j])
            &&& (forall|m: int|
                0 <= m < spec_sum_len(rs) ==> #[trigger] bytes[p + 20 + 4 * n + m]
                    == spec_payloads_bytes(rs)[m])
            &&& (forall|m: int|
                0 <= m < crate::endian::pad16_len(16 + size) ==> #[trigger] bytes[p + 20 + 4 * n
                    + spec_sum_len(rs) + m] == 0xD0u8)
        }),
{
    let rs = spec_sort_by_index(records);
    let n = rs.len() as int;
    let size = spec_txt2_section_size(rs);
    let t = spec_txt2_bytes(records, o);
    let bytes = prefix + t;
    let p = prefix.len() as int;
    lemma_offsets_bytes_len(rs, 4 * n + 4, o);
    lemma_sum_len_nonneg(rs);
    assert(bytes.subrange(p, p + 4) =~= spec_txt2_tag());
}

/// The strings a reader cuts out of a written text section, from the
/// `i`-th offset on, are exactly the payloads of the remaining records.
proof fn lemma_txt2_strings_written(
    records: Seq<MSBTString>,
    o: ByteOrder,
    prefix: Seq<u8>,
    i: int,
)
    requires
        spec_txt2_section_size(spec_sort_by_index(records)) <= u32::MAX,
        records.len() >= 1,
        forall|k: int|
            0 <= k < spec_sort_by_index(records).len() ==> (#[trigger] spec_sort_by_index(
                records,
            )[k]).string@.len() >= 1,
        spec_sort_by_index(records).last().string@.last() == 0,
        1 <= i <= records.len(),
    ensures
        ({
            let rs = spec_sort_by_index(records);
            let n = rs.len() as int;
            spec_txt2_strings(
                prefix + spec_txt2_bytes(records, o),
                prefix.len() as int + 16,
                spec_txt2_written_offsets(rs),
                i,
            ) == Seq::new((n - i + 1) as nat, |m: int| rs[i - 1 + m].string@)
        }),
    decreases records.len() - i,
{
    let rs = spec_sort_by_index(records);
    let n = rs.len() as int;
    let size = spec_txt2_section_size(rs);
    let t = spec_txt2_bytes(records, o);
    let bytes = prefix + t;
    let p = prefix.len() as int;
    let base = p + 16;
    let offs = spec_txt2_written_offsets(rs);
    lemma_sort_by_index_facts(records);
    lemma_txt2_layout(records, o, prefix);
    lemma_offsets_bytes_len(rs, 4 * n + 4, o);
    lemma_sum_len_prefix(rs, i - 1);
    lemma_sum_len_prefix(rs, i);
    assert(rs.subrange(0, i).drop_last() =~= rs.subrange(0, i - 1));
    assert(rs.subrange(0, i).last() == rs[i - 1]);
    lemma_payloads_bytes_index(rs, i - 1);
    assert(bytes.subrange(
        base + offs[i - 1],
        base + 4 * n + 4 + spec_sum_len(rs.subrange(0, i)),
    ) =~= rs[i - 1].string@);
    if i == n {
        assert(rs.subrange(0, n) =~= rs);
        let pad = crate::endian::pad16(16 + size, 0xD0);
        assert(bytes.subrange(base + offs[i - 1], bytes.len() as int) =~= rs[n - 1].string@
            + pad);
        lemma_trim_append_nonzero(rs[n - 1].string@, pad);
        assert(spec_txt2_strings(bytes, base, offs, i) =~= Seq::new(
            1,
            |m: int| rs[i - 1 + m].string@,
        ));
    } else {
        lemma_sum_len_prefix(rs, i + 1);
        assert(rs.subrange(0, i + 1).drop_last() =~= rs.subrange(0, i));
        assert(rs.subrange(0, i + 1).last() == rs[i]);
        assert(offs[i] != offs[i - 1]) by {
            assert(rs[i - 1].string@.len() >= 1);
        };
        lemma_txt2_strings_written(records, o, prefix, i + 1);
        assert(spec_txt2_strings(bytes, base, offs, i) =~= Seq::new(
            (n - i + 1) as nat,
            |m: int| rs[i - 1 + m].string@,
        ));
    }
}

/// Decoding a written text section yields the written offset table and
/// exactly the records' payloads in index order, and consumes the buffer to
/// its end. The records must have at least one payload byte each, and the
/// highest-indexed record's payload must end with its explicit zero
/// terminator, which keeps it apart from the section padding.
pub proof fn lemma_txt2_roundtrip(records: Seq<MSBTString>, o: ByteOrder, prefix: Seq<u8>)
    requires
        spec_txt2_section_size(spec_sort_by_index(records)) <= u32::MAX,
        records.len() >= 1,
        forall|k: int|
            0 <= k < spec_sort_by_index(records).len() ==> (#[trigger] spec_sort_by_index(
                records,
            )[k]).string@.len() >= 1,
        spec_sort_by_index(records).last().string@.last() == 0,
    ensures
        ({
            let rs = spec_sort_by_index(records);
            let bytes = prefix + spec_txt2_bytes(records, o);
            spec_read_txt2(bytes, prefix.len() as int, o) == Ok::<(TXT2V, int), Error>(
                (
                    TXT2V {
                        offsets: spec_txt2_written_offsets(rs),
                        strings: Seq::new(rs.len(), |m: int| rs[m].string@),
                    },
                    bytes.len() as int,
                ),
            )
        }),
{
    let rs = spec_sort_by_index(records);
    let n = rs.len() as int;
    let size = spec_txt2_section_size(rs);
    let t = spec_txt2_bytes(records, o);
    let bytes = prefix + t;
    let p = prefix.len() as int;
    let base = p + 16;
    lemma_sort_by_index_facts(records);
    lemma_txt2_layout(records, o, prefix);
    lemma_offsets_bytes_len(rs, 4 * n + 4, o);
    lemma_sum_len_nonneg(rs);
    crate::endian::lemma_u32_roundtrip(n as u32, o);
    assert(u32_at(bytes, p + 16, o) == n as u32);
    let offs_parsed = Seq::new(n as nat, |i: int| u32_at(bytes, p + 20 + 4 * i, o));
    let offs = spec_txt2_written_offsets(rs);
    assert forall|i: int| 0 <= i < n implies #[trigger] offs_parsed[i] == offs[i] by {
        lemma_offsets_bytes_index(rs, 4 * n + 4, o, i);
        lemma_sum_len_prefix(rs, i);
        let v = (4 * n + 4 + spec_sum_len(rs.subrange(0, i))) as u32;
        assert forall|j: int| 0 <= j < 4 implies bytes[p + 20 + 4 * i + j] == u32_bytes(v, o)[j]
            by {
            assert(bytes[p + 20 + 4 * i + j] == spec_offsets_bytes(rs, 4 * n + 4, o)[4 * i + j]);
            assert(spec_offsets_bytes(rs, 4 * n + 4, o).subrange(4 * i, 4 * i + 4)[j]
                == spec_offsets_bytes(rs, 4 * n + 4, o)[4 * i + j]);
        }
        crate::endian::lemma_u32_roundtrip(v, o);
    }
    assert(offs_parsed =~= offs);
    assert forall|i: int| 0 <= i < n implies base + #[trigger] offs[i] <= bytes.len() by {
        lemma_sum_len_prefix(rs, i);
    }
    assert forall|i: int| 1 <= i < n implies #[trigger] offs[i - 1] <= offs[i] by {
        lemma_sum_len_prefix(rs, i - 1);
        lemma_sum_len_prefix(rs, i);
        assert(rs.subrange(0, i).drop_last() =~= rs.subrange(0, i - 1));
        assert(rs.subrange(0, i).last() == rs[i - 1]);
    }
    assert(spec_txt2_offsets_ok(bytes, base, offs));
    lemma_txt2_strings_written(records, o, prefix, 1);
    assert(Seq::new((n - 1 + 1) as nat, |m: int| rs[1 - 1 + m].string@) =~= Seq::new(
        rs.len(),
        |m: int| rs[m].string@,
    ));
}

/// Reading a control-code body does not depend on what lies before it in
/// the buffer.
proof fn lemma_control_body_shift(w: Seq<u8>, t: Seq<u8>, k: int, o: ByteOrder)
    requires
        0 <= k <= t.len(),
    ensures
        spec_read_control_body(w + t, w.len() + k, o) == (match spec_read_control_body(t, k, o) {
            Ok((txt, p)) => Ok::<(Seq<char>, int), Error>((txt, p + w.len())),
            Err(e) => Err::<(Seq<char>, int), Error>(e),
        }),
{
    let c = w + t;
    let base = w.len() as int;
    assert forall|m: int| 0 <= m < t.len() implies c[base + m] == t[m] by {}
    if k + 6 <= t.len() {
        assert(u16_at(c, base + k, o) == u16_at(t, k, o));
        assert(u16_at(c, base + k + 2, o) == u16_at(t, k + 2, o));
        assert(u16_at(c, base + k + 4, o) == u16_at(t, k + 4, o));
        let n = u16_at(t, k + 4, o);
        if k + 6 + n <= t.len() {
            assert(c.subrange(base + k + 6, base + k + 6 + n) =~= t.subrange(k + 6, k + 6 + n));
        }
    }
}

/// Reading a closing-code body does not depend on what lies before it in
/// the buffer.
proof fn lemma_close_body_shift(w: Seq<u8>, t: Seq<u8>, k: int, o: ByteOrder)
    requires
        0 <= k <= t.len(),
    ensures
        spec_read_close_body(w + t, w.len() + k, o) == (match spec_read_close_body(t, k, o) {
            Ok((txt, p)) => Ok::<(Seq<char>, int), Error>((txt, p + w.len())),
            Err(e) => Err::<(Seq<char>, int), Error>(e),
        }),
{
    let c = w + t;
    let base = w.len() as int;
    assert forall|m: int| 0 <= m < t.len() implies c[base + m] == t[m] by {}
    if k + 4 <= t.len() {
        assert(u16_at(c, base + k, o) == u16_at(t, k, o));
        assert(u16_at(c, base + k + 2, o) == u16_at(t, k + 2, o));
    }
}

/// Decoding a payload suffix does not depend on what lies before it in the
/// buffer.
proof fn lemma_parse_binary_shift(w: Seq<u8>, t: Seq<u8>, k: int, o: ByteOrder)
    requires
        0 <= k <= t.len(),
    ensures
        spec_parse_binary_at(w + t, w.len() + k, o) == spec_parse_binary_at(t, k, o),
    decreases t.len() - k,
{
    let c = w + t;
    let base = w.len() as int;
    assert forall|m: int| 0 <= m < t.len() implies c[base + m] == t[m] by {}
    if k >= t.len() {
    } else if k + 2 > t.len() {
    } else {
        assert(u16_at(c, base + k, o) == u16_at(t, k, o));
        let u = u16_at(t, k, o);
        if u == 0x0E {
            lemma_control_body_shift(w, t, k + 2, o);
            match spec_read_control_body(t, k + 2, o) {
                Ok((txt, p2)) => {
                    if k < p2 <= t.len() {
                        lemma_parse_binary_shift(w, t, p2, o);
                    }
                },
                Err(_) => {},
            }
        } else if u == 0x0F {
            lemma_close_body_shift(w, t, k + 2, o);
            match spec_read_close_body(t, k + 2, o) {
                Ok((txt, p2)) => {
                    if k < p2 <= t.len() {
                        lemma_parse_binary_shift(w, t, p2, o);
                    }
                },
                Err(_) => {},
            }
        } else if 0xD800 <= u < 0xE000 {
        } else {
            lemma_parse_binary_shift(w, t, k + 2, o);
        }
    }
}

/// A text of literal characters only: nothing opens a bracket tag, every
/// character fits one UTF-16 code unit, and none collides with a control
/// marker or the private-use escape range.
pub open spec fn spec_literal_text(s: Seq<char>) -> bool {
    forall|i: int|
        0 <= i < s.len() ==> ((#[trigger] s[i]) != '[' && (s[i] as u32) < 0xE000 && s[i] as u32
            != 0x0E && s[i] as u32 != 0x0F)
}

#[verifier::rlimit(100)]
proof fn lemma_text_roundtrip_at(s: Seq<char>, pos: int, o: ByteOrder)
    requires
        spec_literal_text(s),
        0 <= pos <= s.len(),
    ensures
        spec_parse_string_at(s, pos, o) is Ok,
        spec_parse_binary_at(spec_parse_string_at(s, pos, o).unwrap(), 0, o) == Ok::<
            Seq<char>,
            Error,
        >(s.subrange(pos, s.len() as int)),
    decreases s.len() - pos,
{
    if pos == s.len() {
        let bs = spec_parse_string_at(s, pos, o).unwrap();
        assert(bs =~= Seq::<u8>::empty());
        assert(s.subrange(pos, s.len() as int) =~= Seq::<char>::empty());
    } else {
        let c = s[pos];
        assert(spec_scan_token(s, pos) is NoTok);
        vstd::utf8::char_is_scalar(c);
        let u: u16 = (c as u32) as u16;
        lemma_text_roundtrip_at(s, pos + 1, o);
        let bs1 = spec_parse_string_at(s, pos + 1, o).unwrap();
        let w = u16_bytes(u, o);
        let bs = spec_parse_string_at(s, pos, o).unwrap();
        assert(bs == w + bs1);
        assert(bs[0] == w[0] && bs[1] == w[1]);
        crate::endian::lemma_u16_roundtrip(u, o);
        assert(u16_at(bs, 0, o) == u);
        assert(u as u32 != 0x0E && u as u32 != 0x0F && (u as u32) < 0xD800);
        assert(spec_escape_name(u) is None);
        vstd::utf8::char_u32_cast(c, c as u32);
        assert(spec_escape_text(u) =~= seq![c]);
        lemma_parse_binary_shift(w, bs1, 0, o);
        assert(spec_parse_binary_at(bs, 2, o) == spec_parse_binary_at(bs1, 0, o));
        assert(seq![c] + s.subrange(pos + 1, s.len() as int) =~= s.subrange(
            pos,
            s.len() as int,
        ));
    }
}

/// Text round-trip: a text of literal characters only encodes to a binary
/// payload that decodes back to exactly the same text, in either byte
/// order.
pub proof fn lemma_text_roundtrip(s: Seq<char>, o: ByteOrder)
    requires
        spec_literal_text(s),
    ensures
        spec_parse_string_at(s, 0, o) is Ok,
        spec_parse_binary_at(spec_parse_string_at(s, 0, o).unwrap(), 0, o) == Ok::<
            Seq<char>,
            Error,
        >(s),
{
    lemma_text_roundtrip_at(s, 0, o);
    assert(s.subrange(0, s.len() as int) =~= s);
}

/// Reads one UTF-16 code unit out of its two bytes.
pub fn read_char(char_temp: [u8; 2], order: ByteOrder) -> (r: u16)
    ensures
        r == u16_of(char_temp@[0], char_temp@[1], order),
{
    let b0 = char_temp[0];
    let b1 = char_temp[1];
    match order {
        ByteOrder::BigEndian => (b0 as u16) * 0x100 + (b1 as u16),
        ByteOrder::LittleEndian => (b1 as u16) * 0x100 + (b0 as u16),
    }
}

/// Writes one basic-plane character as its UTF-16 code unit.
pub fn convert_char(char: char, order: ByteOrder) -> (r: Vec<u8>)
    requires
        (char as u32) < 0x10000,
    ensures
        r@ == u16_bytes((char as u32) as u16, order),
{
    let u = char as u32;
    let mut out: Vec<u8> = Vec::new();
    push_u16(&mut out, u as u16, order);
    assert(out@ =~= u16_bytes(u as u16, order));
    out
}

} // verus!
