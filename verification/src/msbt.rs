use vstd::prelude::*;
use vstd::string::StringExecFns;

use crate::endian::ByteOrder;
use crate::error::Error;
use crate::structs::atr1::{spec_atr1_bytes, spec_read_atr1, ATR1};
use crate::structs::header::{
    spec_header_bytes, spec_header_order, spec_read_header, Header,
};
use crate::structs::lbl1::{
    spec_lbl1_bytes, spec_lbl1_section_size, spec_read_lbl1, LBL1, LBL1V,
};
use crate::structs::txt2::{
    spec_read_txt2, spec_txt2_bytes, spec_txt2_section_size, TXT2, TXT2V,
};
use crate::control_codes::spec_units_from;
use vstd::utf8::encode_utf8;

verus! {

/// One record of the in-memory string table: a dense 0-based index equal to
/// the record's slot in the text section, a human-readable label, and the raw
/// UTF-16-with-embedded-codes payload.
#[derive(Debug, Clone, Eq, Ord, PartialEq, PartialOrd)]
pub struct MSBTString {
    pub index: u32,
    pub label: String,
    pub string: Vec<u8>,
}

/// Mathematical image of one record.
pub struct MSBTStringV {
    pub index: u32,
    pub label: Seq<char>,
    pub string: Seq<u8>,
}

impl View for MSBTString {
    type V = MSBTStringV;

    open spec fn view(&self) -> MSBTStringV {
        MSBTStringV { index: self.index, label: self.label@, string: self.string@ }
    }
}

impl DeepView for MSBTString {
    type V = MSBTStringV;

    open spec fn deep_view(&self) -> MSBTStringV {
        self@
    }
}

/// The whole decoded container: its four sections, the resolved byte order
/// and whether an attribute section was present.
#[derive(Debug, Clone, PartialEq, Eq)]
pub struct MSBT {
    pub header: Header,
    pub lbl1: LBL1,
    pub atr1: ATR1,
    pub txt2: TXT2,
    pub endianness: ByteOrder,
    pub has_attributes: bool,
}

/// Mathematical image of a decoded container.
pub struct MSBTV {
    pub header: Header,
    pub lbl1: LBL1V,
    pub atr1: ATR1,
    pub txt2: TXT2V,
    pub endianness: ByteOrder,
    pub has_attributes: bool,
}

impl View for MSBT {
    type V = MSBTV;

    open spec fn view(&self) -> MSBTV {
        MSBTV {
            header: self.header,
            lbl1: self.lbl1@,
            atr1: self.atr1,
            txt2: self.txt2@,
            endianness: self.endianness,
            has_attributes: self.has_attributes,
        }
    }
}

/// Decoding a whole container: the header resolves the byte order, then the
/// label index, the optional attribute section and the text section follow
/// in turn.
pub open spec fn spec_from_binary(bytes: Seq<u8>) -> Result<MSBTV, Error> {
    match spec_read_header(bytes, 0) {
        Ok((h, p1)) => {
            let o = spec_header_order(h);
            match spec_read_lbl1(bytes, p1, o) {
                Ok((l, p2)) => match spec_read_atr1(bytes, p2, o) {
                    Ok((a, p3)) => match spec_read_txt2(bytes, p3, o) {
                        Ok((t, _)) => Ok(
                            MSBTV {
                                header: h,
                                lbl1: l,
                                atr1: a,
                                txt2: t,
                                endianness: o,
                                has_attributes: a.section_size != 0,
                            },
                        ),
                        Err(e) => Err(e),
                    },
                    Err(e) => Err(e),
                },
                Err(e) => Err(e),
            }
        },
        Err(e) => Err(e),
    }
}

/// Decodes a binary container held in memory.
pub fn from_binary(buffer: &Vec<u8>) -> (r: Result<MSBT, Error>)
    ensures
        r matches Ok(m) ==> spec_from_binary(buffer@) == Ok::<_, Error>(m@),
        r matches Err(e) ==> spec_from_binary(buffer@) == Err::<MSBTV, _>(e),
{
    let (header, p1) = match Header::read_from(buffer, 0) {
        Result::Ok(hp) => hp,
        Result::Err(e) => {
            return Err(e);
        },
    };
    let byte_order = if header.endianness {
        ByteOrder::BigEndian
    } else {
        ByteOrder::LittleEndian
    };
    let (lbl1, p2) = match LBL1::read_from(buffer, p1, byte_order) {
        Result::Ok(lp) => lp,
        Result::Err(e) => {
            return Err(e);
        },
    };
    let (atr1, p3) = match ATR1::read_from(buffer, p2, byte_order) {
        Result::Ok(ap) => ap,
        Result::Err(e) => {
            return Err(e);
        },
    };
    let (txt2, _) = match TXT2::read_from(buffer, p3, byte_order) {
        Result::Ok(tp) => tp,
        Result::Err(e) => {
            return Err(e);
        },
    };
    let has_attributes = atr1.section_size != 0;
    Ok(MSBT { header, lbl1, atr1, txt2, endianness: byte_order, has_attributes })
}

/// A buffer that does not begin with the 8-byte signature is rejected as
/// `NotThisFormat`, whatever else it holds.
pub proof fn lemma_bad_magic_rejected(bytes: Seq<u8>)
    requires
        !(bytes.len() >= 8 && bytes.subrange(0, 8) == crate::structs::header::spec_magic()),
    ensures
        spec_from_binary(bytes) == Err::<MSBTV, Error>(Error::NotThisFormat),
{
}

/// Joining labels to payloads: each label addresses the text-section slot of
/// its stored index; an index with no slot is `IndexNotFound`.
pub open spec fn spec_join(
    labels: Seq<crate::structs::lbl1::LabelV>,
    strings: Seq<Seq<u8>>,
) -> Result<Seq<MSBTStringV>, Error>
    decreases labels.len(),
{
    if labels.len() == 0 {
        Ok(Seq::empty())
    } else {
        let l = labels[0];
        if l.string_index >= strings.len() {
            Err(Error::IndexNotFound)
        } else {
            match spec_join(labels.drop_first(), strings) {
                Ok(rest) => Ok(
                    seq![
                        MSBTStringV {
                            index: l.string_index,
                            label: l.label,
                            string: strings[l.string_index as int],
                        },
                    ] + rest,
                ),
                Err(e) => Err(e),
            }
        }
    }
}

/// Copies a byte vector.
pub(crate) fn clone_bytes(v: &Vec<u8>) -> (r: Vec<u8>)
    ensures
        r@ == v@,
{
    let mut out: Vec<u8> = Vec::new();
    let mut i: usize = 0;
    while i < v.len()
        invariant
            i <= v@.len(),
            out@ == v@.subrange(0, i as int),
        decreases v@.len() - i,
    {
        out.push(v[i]);
        i = i + 1;
        assert(out@ =~= v@.subrange(0, i as int));
    }
    assert(v@.subrange(0, v@.len() as int) =~= v@);
    out
}

/// Builds the record list of a decoded container: one record per label, in
/// label-index order, joined to its text-section payload.
pub fn get_strings(msbt: MSBT) -> (r: Result<Vec<MSBTString>, Error>)
    ensures
        r matches Ok(v) ==> spec_join(msbt@.lbl1.labels, msbt@.txt2.strings) == Ok::<_, Error>(
            v.deep_view(),
        ),
        r matches Err(e) ==> spec_join(msbt@.lbl1.labels, msbt@.txt2.strings) == Err::<
            Seq<MSBTStringV>,
            _,
        >(e),
{
    let mut msbt_strings: Vec<MSBTString> = Vec::new();
    let n: usize = msbt.lbl1.labels.len();
    proof {
        assert(msbt@.lbl1.labels.subrange(0, n as int) =~= msbt@.lbl1.labels);
    }
    let mut i: usize = 0;
    while i < n
        invariant
            i <= n,
            n == msbt@.lbl1.labels.len(),
            spec_join(msbt@.lbl1.labels, msbt@.txt2.strings) == (match spec_join(
                msbt@.lbl1.labels.subrange(i as int, n as int),
                msbt@.txt2.strings,
            ) {
                Ok(rest) => Ok::<Seq<MSBTStringV>, Error>(msbt_strings.deep_view() + rest),
                Err(e) => Err::<Seq<MSBTStringV>, Error>(e),
            }),
        decreases n - i,
    {
        let ghost before = msbt_strings.deep_view();
        let label = &msbt.lbl1.labels[i];
        proof {
            assert(msbt@.lbl1.labels.subrange(i as int, n as int)[0] == label@);
            assert(msbt@.lbl1.labels.subrange(i as int, n as int).drop_first()
                =~= msbt@.lbl1.labels.subrange(i + 1, n as int));
        }
        if label.string_index as usize >= msbt.txt2.strings.len() {
            return Err(Error::IndexNotFound);
        }
        let string = MSBTString {
            index: label.string_index,
            label: label.label.clone(),
            string: clone_bytes(&msbt.txt2.strings[label.string_index as usize]),
        };
        msbt_strings.push(string);
        i = i + 1;
        proof {
            let l = msbt@.lbl1.labels[i - 1];
            let rec = MSBTStringV {
                index: l.string_index,
                label: l.label,
                string: msbt@.txt2.strings[l.string_index as int],
            };
            assert(msbt_strings.deep_view()[before.len() as int].string =~= rec.string);
            assert(msbt_strings.deep_view()[before.len() as int] == rec);
            assert(msbt_strings.deep_view() =~= before + seq![rec]);
            if spec_join(msbt@.lbl1.labels.subrange(i as int, n as int), msbt@.txt2.strings)
                is Ok {
                let rest = spec_join(
                    msbt@.lbl1.labels.subrange(i as int, n as int),
                    msbt@.txt2.strings,
                ).unwrap();
                assert(before + (seq![rec] + rest) =~= (before + seq![rec]) + rest);
            }
        }
    }
    proof {
        assert(msbt@.lbl1.labels.subrange(n as int, n as int).len() == 0);
        assert(msbt_strings.deep_view() + Seq::<MSBTStringV>::empty() =~= msbt_strings.deep_view());
    }
    Ok(msbt_strings)
}

/// The largest record index of the table, zero when it is empty.
pub open spec fn spec_max_index(s: Seq<MSBTStringV>) -> int
    decreases s.len(),
{
    if s.len() == 0 {
        0
    } else {
        let m = spec_max_index(s.drop_last());
        if s.last().index > m {
            s.last().index as int
        } else {
            m
        }
    }
}

/// Finds the largest record index; the table must not be empty.
fn max_index(msbt_strings: &Vec<MSBTString>) -> (r: u32)
    requires
        msbt_strings@.len() > 0,
    ensures
        r == spec_max_index(msbt_strings.deep_view()),
{
    let mut m: u32 = 0;
    let mut i: usize = 0;
    while i < msbt_strings.len()
        invariant
            i <= msbt_strings@.len(),
            m == spec_max_index(msbt_strings.deep_view().subrange(0, i as int)),
        decreases msbt_strings@.len() - i,
    {
        if msbt_strings[i].index > m {
            m = msbt_strings[i].index;
        }
        i = i + 1;
        proof {
            let cur = msbt_strings.deep_view().subrange(0, i as int);
            assert(cur.drop_last() =~= msbt_strings.deep_view().subrange(0, i - 1));
            assert(cur.last() == msbt_strings.deep_view()[i - 1]);
        }
    }
    proof {
        assert(msbt_strings.deep_view().subrange(0, msbt_strings.deep_view().len() as int)
            =~= msbt_strings.deep_view());
    }
    m
}

/// Appends a record with an already-encoded payload: the new record takes
/// the largest existing index plus one; an empty table has no such index and
/// is `EmptyTableError`.
pub fn add_string_raw(msbt_strings: &mut Vec<MSBTString>, label: String, string: Vec<u8>) -> (r:
    Result<(), Error>)
    requires
        old(msbt_strings)@.len() > 0 ==> spec_max_index(old(msbt_strings).deep_view())
            < u32::MAX,
    ensures
        old(msbt_strings)@.len() == 0 ==> r == Err::<(), Error>(Error::EmptyTableError) && final(msbt_strings)@ == old(msbt_strings)@,
        old(msbt_strings)@.len() > 0 ==> r is Ok && final(msbt_strings).deep_view() == old(msbt_strings).deep_view().push(
            MSBTStringV {
                index: (spec_max_index(old(msbt_strings).deep_view()) + 1) as u32,
                label: label@,
                string: string@,
            },
        ),
{
    if msbt_strings.len() == 0 {
        return Err(Error::EmptyTableError);
    }
    let last = max_index(msbt_strings);
    let new_string = MSBTString { index: last + 1, label, string };
    let ghost before = msbt_strings.deep_view();
    msbt_strings.push(new_string);
    proof {
        assert(msbt_strings.deep_view() =~~= before.push(
            MSBTStringV { index: (spec_max_index(before) + 1) as u32, label: label@, string: string@ },
        ));
    }
    Ok(())
}

/// Appends a record from text: the text is encoded to literal UTF-16 code
/// units in the given order (`TextEncodingError` beyond the basic plane)
/// and the record takes the largest existing index plus one.
pub fn add_string(
    msbt_strings: &mut Vec<MSBTString>,
    label: String,
    string: String,
    order: ByteOrder,
) -> (r: Result<(), Error>)
    requires
        old(msbt_strings)@.len() > 0 ==> spec_max_index(old(msbt_strings).deep_view())
            < u32::MAX,
    ensures
        r is Ok <==> (old(msbt_strings)@.len() > 0 && spec_units_from(string@, 0, order) is Ok),
        r is Ok ==> final(msbt_strings).deep_view() == old(msbt_strings).deep_view().push(
            MSBTStringV {
                index: (spec_max_index(old(msbt_strings).deep_view()) + 1) as u32,
                label: label@,
                string: spec_units_from(string@, 0, order).unwrap(),
            },
        ),
        r is Err ==> final(msbt_strings)@ == old(msbt_strings)@,
        old(msbt_strings)@.len() == 0 ==> r == Err::<(), Error>(Error::EmptyTableError),
        old(msbt_strings)@.len() > 0 && spec_units_from(string@, 0, order) is Err ==> r == Err::<
            (),
            Error,
        >(Error::TextEncodingError),
{
    if msbt_strings.len() == 0 {
        return Err(Error::EmptyTableError);
    }
    let chars = crate::text::str_chars(string.as_str());
    let mut new_string: Vec<u8> = Vec::new();
    match crate::control_codes::push_units(&mut new_string, &chars, 0, order) {
        Result::Ok(_) => {},
        Result::Err(_) => {
            return Err(Error::TextEncodingError);
        },
    }
    let last = max_index(msbt_strings);
    let ghost before = msbt_strings.deep_view();
    proof {
        assert(new_string@ =~= spec_units_from(string@, 0, order).unwrap());
    }
    msbt_strings.push(MSBTString { index: last + 1, label, string: new_string });
    proof {
        assert(msbt_strings.deep_view() =~~= before.push(
            MSBTStringV {
                index: (spec_max_index(before) + 1) as u32,
                label: label@,
                string: spec_units_from(string@, 0, order).unwrap(),
            },
        ));
    }
    Ok(())
}

/// A record with its index lowered by one when it lies above `idx`.
pub open spec fn spec_dec_above(r: MSBTStringV, idx: u32) -> MSBTStringV {
    if r.index > idx {
        MSBTStringV { index: (r.index - 1) as u32, label: r.label, string: r.string }
    } else {
        r
    }
}

/// The table after removing the record at position `k`: every record whose
/// index lay above the removed one moves down by one, keeping the index
/// range dense.
pub open spec fn spec_delete_at(s: Seq<MSBTStringV>, k: int) -> Seq<MSBTStringV> {
    s.remove(k).map_values(|r: MSBTStringV| spec_dec_above(r, s[k].index))
}

/// Removes the record at table position `vec_index` and renumbers every
/// higher index down by one.
pub fn delete_string(msbt_strings: &mut Vec<MSBTString>, vec_index: usize)
    requires
        vec_index < old(msbt_strings)@.len(),
    ensures
        final(msbt_strings).deep_view() == spec_delete_at(
            old(msbt_strings).deep_view(),
            vec_index as int,
        ),
{
    let ghost before = msbt_strings.deep_view();
    let removed = msbt_strings.remove(vec_index);
    let msbt_index: u32 = removed.index;
    let n: usize = msbt_strings.len();
    let mut j: usize = 0;
    while j < n
        invariant
            j <= n,
            n == msbt_strings@.len(),
            n == before.len() - 1,
            msbt_index == before[vec_index as int].index,
            vec_index < before.len(),
            forall|m: int|
                0 <= m < j ==> msbt_strings.deep_view()[m] == spec_dec_above(
                    #[trigger] before.remove(vec_index as int)[m],
                    msbt_index,
                ),
            forall|m: int|
                j <= m < n ==> msbt_strings.deep_view()[m] == #[trigger] before.remove(
                    vec_index as int,
                )[m],
        decreases n - j,
    {
        if msbt_strings[j].index > msbt_index {
            let idx = msbt_strings[j].index;
            msbt_strings[j].index = idx - 1;
        }
        j = j + 1;
    }
    proof {
        assert(msbt_strings.deep_view() =~= spec_delete_at(before, vec_index as int));
    }
}

/// The position of the first record carrying `idx`, if any.
pub open spec fn spec_position_index(s: Seq<MSBTStringV>, idx: u32) -> Option<int>
    decreases s.len(),
{
    if s.len() == 0 {
        None
    } else if s[0].index == idx {
        Some(0)
    } else {
        match spec_position_index(s.drop_first(), idx) {
            Some(k) => Some(k + 1),
            None => None,
        }
    }
}

/// The position of the first record labelled `l`, if any.
pub open spec fn spec_position_label(s: Seq<MSBTStringV>, l: Seq<char>) -> Option<int>
    decreases s.len(),
{
    if s.len() == 0 {
        None
    } else if s[0].label == l {
        Some(0)
    } else {
        match spec_position_label(s.drop_first(), l) {
            Some(k) => Some(k + 1),
            None => None,
        }
    }
}

/// A found position lies in the table and carries the sought label.
pub proof fn lemma_position_label_props(s: Seq<MSBTStringV>, l: Seq<char>)
    ensures
        spec_position_label(s, l) matches Some(k) ==> 0 <= k < s.len() && s[k].label == l,
    decreases s.len(),
{
    if s.len() > 0 && s[0].label != l {
        lemma_position_label_props(s.drop_first(), l);
    }
}

/// Deletes the first record carrying the given index and renumbers the
/// higher indices down; an absent index is `IndexNotFound`.
pub fn delete_string_by_index(msbt_strings: &mut Vec<MSBTString>, index: u32) -> (r: Result<
    (),
    Error,
>)
    ensures
        spec_position_index(old(msbt_strings).deep_view(), index) matches Some(k) ==> r is Ok
            && final(msbt_strings).deep_view() == spec_delete_at(
            old(msbt_strings).deep_view(),
            k,
        ),
        spec_position_index(old(msbt_strings).deep_view(), index) is None ==> r == Err::<(), Error>(Error::IndexNotFound)
            && final(msbt_strings)@ == old(msbt_strings)@,
{
    match position_by_index(msbt_strings, index) {
        Option::Some(k) => {
            delete_string(msbt_strings, k);
            Ok(())
        },
        Option::None => Err(Error::IndexNotFound),
    }
}

/// Deletes the first record carrying the given label and renumbers the
/// higher indices down; an absent label is `LabelNotFound`.
pub fn delete_string_by_label(msbt_strings: &mut Vec<MSBTString>, label: String) -> (r: Result<
    (),
    Error,
>)
    ensures
        spec_position_label(old(msbt_strings).deep_view(), label@) matches Some(k) ==> r is Ok
            && final(msbt_strings).deep_view() == spec_delete_at(
            old(msbt_strings).deep_view(),
            k,
        ),
        spec_position_label(old(msbt_strings).deep_view(), label@) is None ==> r == Err::<(), Error>(Error::LabelNotFound)
            && final(msbt_strings)@ == old(msbt_strings)@,
{
    match position_by_label(msbt_strings, &label) {
        Option::Some(k) => {
            delete_string(msbt_strings, k);
            Ok(())
        },
        Option::None => Err(Error::LabelNotFound),
    }
}

/// Finds the first record carrying `index`.
pub fn position_by_index(msbt_strings: &Vec<MSBTString>, index: u32) -> (r: Option<usize>)
    ensures
        r matches Some(k) ==> spec_position_index(msbt_strings.deep_view(), index) == Some(
            k as int,
        ) && k < msbt_strings@.len(),
        r is None ==> spec_position_index(msbt_strings.deep_view(), index) is None,
{
    let n: usize = msbt_strings.len();
    proof {
        assert(msbt_strings.deep_view().subrange(0, n as int) =~= msbt_strings.deep_view());
    }
    let mut i: usize = 0;
    while i < n
        invariant
            i <= n,
            n == msbt_strings@.len(),
            spec_position_index(msbt_strings.deep_view(), index) == (match spec_position_index(
                msbt_strings.deep_view().subrange(i as int, n as int),
                index,
            ) {
                Some(k) => Some(k + i),
                None => None::<int>,
            }),
        decreases n - i,
    {
        proof {
            let suf = msbt_strings.deep_view().subrange(i as int, n as int);
            assert(suf[0] == msbt_strings.deep_view()[i as int]);
            assert(suf.drop_first() =~= msbt_strings.deep_view().subrange(i + 1, n as int));
        }
        if msbt_strings[i].index == index {
            return Some(i);
        }
        i = i + 1;
    }
    None
}

/// Finds the first record labelled `label`.
pub fn position_by_label(msbt_strings: &Vec<MSBTString>, label: &String) -> (r: Option<usize>)
    ensures
        r matches Some(k) ==> spec_position_label(msbt_strings.deep_view(), label@) == Some(
            k as int,
        ) && k < msbt_strings@.len(),
        r is None ==> spec_position_label(msbt_strings.deep_view(), label@) is None,
{
    let n: usize = msbt_strings.len();
    proof {
        assert(msbt_strings.deep_view().subrange(0, n as int) =~= msbt_strings.deep_view());
    }
    let mut i: usize = 0;
    while i < n
        invariant
            i <= n,
            n == msbt_strings@.len(),
            spec_position_label(msbt_strings.deep_view(), label@) == (match spec_position_label(
                msbt_strings.deep_view().subrange(i as int, n as int),
                label@,
            ) {
                Some(k) => Some(k + i),
                None => None::<int>,
            }),
        decreases n - i,
    {
        proof {
            let suf = msbt_strings.deep_view().subrange(i as int, n as int);
            assert(suf[0] == msbt_strings.deep_view()[i as int]);
            assert(suf.drop_first() =~= msbt_strings.deep_view().subrange(i + 1, n as int));
        }
        if msbt_strings[i].label == *label {
            return Some(i);
        }
        i = i + 1;
    }
    None
}

/// The table with the record at `k` carrying a new payload, its index and
/// label unchanged.
pub open spec fn spec_edit_at(s: Seq<MSBTStringV>, k: int, payload: Seq<u8>) -> Seq<
    MSBTStringV,
> {
    s.update(k, MSBTStringV { index: s[k].index, label: s[k].label, string: payload })
}

/// Replaces the payload of the first record labelled `label` with the text
/// encoded as literal UTF-16 code units, keeping the record's index. An
/// absent label is reported as `LabelNotFound` without touching the table,
/// so a caller can skip it and continue.
pub fn edit_string_by_label(
    msbt_strings: &mut Vec<MSBTString>,
    label: String,
    string: String,
    order: ByteOrder,
) -> (r: Result<(), Error>)
    ensures
        spec_units_from(string@, 0, order) is Err ==> r == Err::<(), Error>(
            Error::TextEncodingError,
        ) && final(msbt_strings)@ == old(msbt_strings)@,
        spec_units_from(string@, 0, order) is Ok && spec_position_label(
            old(msbt_strings).deep_view(),
            label@,
        ) is None ==> r == Err::<(), Error>(Error::LabelNotFound)
            && final(msbt_strings)@ == old(msbt_strings)@,
        spec_units_from(string@, 0, order) is Ok ==> (spec_position_label(
            old(msbt_strings).deep_view(),
            label@,
        ) matches Some(k) ==> r is Ok && final(msbt_strings).deep_view() == spec_edit_at(
            old(msbt_strings).deep_view(),
            k,
            spec_units_from(string@, 0, order).unwrap(),
        )),
{
    let chars = crate::text::str_chars(string.as_str());
    let mut new_string: Vec<u8> = Vec::new();
    match crate::control_codes::push_units(&mut new_string, &chars, 0, order) {
        Result::Ok(_) => {},
        Result::Err(_) => {
            return Err(Error::TextEncodingError);
        },
    }
    match position_by_label(msbt_strings, &label) {
        Option::Some(k) => {
            let ghost before = msbt_strings.deep_view();
            let ghost payload = spec_units_from(string@, 0, order).unwrap();
            let old_index = msbt_strings[k].index;
            proof {
                lemma_position_label_props(before, label@);
                assert(before[k as int].label == label@);
                assert(new_string@ =~= payload);
            }
            msbt_strings[k] = MSBTString { index: old_index, label, string: new_string };
            proof {
                assert(msbt_strings.deep_view()[k as int] == (MSBTStringV {
                    index: before[k as int].index,
                    label: before[k as int].label,
                    string: payload,
                }));
                assert(msbt_strings.deep_view() =~= spec_edit_at(before, k as int, payload));
            }
            Ok(())
        },
        Option::None => Err(Error::LabelNotFound),
    }
}

/// Every record's index is bounded by the table's largest index.
pub proof fn lemma_max_index_bounds(s: Seq<MSBTStringV>)
    ensures
        spec_max_index(s) >= 0,
        forall|i: int| 0 <= i < s.len() ==> (#[trigger] s[i]).index <= spec_max_index(s),
    decreases s.len(),
{
    if s.len() > 0 {
        lemma_max_index_bounds(s.drop_last());
        assert forall|i: int| 0 <= i < s.len() implies (#[trigger] s[i]).index <= spec_max_index(
            s,
        ) by {
            if i < s.len() - 1 {
                assert(s.drop_last()[i] == s[i]);
                assert(s.drop_last()[i].index <= spec_max_index(s.drop_last()));
            }
        }
    }
}

/// A bound on every record's index bounds the table's largest index.
pub proof fn lemma_max_index_ub(s: Seq<MSBTStringV>, b: int)
    requires
        b >= 0,
        forall|i: int| 0 <= i < s.len() ==> (#[trigger] s[i]).index <= b,
    ensures
        spec_max_index(s) <= b,
    decreases s.len(),
{
    if s.len() > 0 {
        assert(forall|i: int| 0 <= i < s.len() - 1 ==> #[trigger] s.drop_last()[i] == s[i]);
        lemma_max_index_ub(s.drop_last(), b);
    }
}

/// Deleting a record never raises the largest index.
pub proof fn lemma_max_index_delete(s: Seq<MSBTStringV>, k: int)
    requires
        0 <= k < s.len(),
    ensures
        spec_max_index(spec_delete_at(s, k)) <= spec_max_index(s),
{
    lemma_max_index_bounds(s);
    let t = spec_delete_at(s, k);
    assert forall|i: int| 0 <= i < t.len() implies (#[trigger] t[i]).index <= spec_max_index(
        s,
    ) by {
        let m = if i < k {
            i
        } else {
            i + 1
        };
        assert(s.remove(k)[i] == s[m]);
    }
    lemma_max_index_ub(t, spec_max_index(s));
}

/// Editing a payload keeps the largest index.
pub proof fn lemma_max_index_edit(s: Seq<MSBTStringV>, k: int, payload: Seq<u8>)
    requires
        0 <= k < s.len(),
    ensures
        spec_max_index(spec_edit_at(s, k, payload)) <= spec_max_index(s),
{
    lemma_max_index_bounds(s);
    let t = spec_edit_at(s, k, payload);
    assert forall|i: int| 0 <= i < t.len() implies (#[trigger] t[i]).index <= spec_max_index(
        s,
    ) by {
        assert(t[i].index == s[i].index);
    }
    lemma_max_index_ub(t, spec_max_index(s));
}

/// Appending a record raises the largest index at most to the appended
/// record's own index.
pub proof fn lemma_max_index_push(s: Seq<MSBTStringV>, x: MSBTStringV)
    ensures
        spec_max_index(s.push(x)) == (if x.index > spec_max_index(s) {
            x.index as int
        } else {
            spec_max_index(s)
        }),
{
    assert(s.push(x).drop_last() =~= s);
}

/// Building a table from the entries of a textual key-value document, from
/// position `i` on: each entry's text gains an explicit terminator, is
/// encoded through the bracket-tag sublanguage, and takes its position as
/// its index.
pub open spec fn spec_table_from_document(
    entries: Seq<(Seq<char>, Seq<char>)>,
    i: int,
    o: ByteOrder,
) -> Result<Seq<MSBTStringV>, Error>
    decreases entries.len() - i,
{
    if i >= entries.len() || i < 0 {
        Ok(Seq::empty())
    } else {
        match crate::structs::txt2::spec_parse_string_at(entries[i].1 + seq!['\0'], 0, o) {
            Ok(bs) => match spec_table_from_document(entries, i + 1, o) {
                Ok(rest) => Ok(
                    seq![MSBTStringV { index: i as u32, label: entries[i].0, string: bs }] + rest,
                ),
                Err(e) => Err(e),
            },
            Err(e) => Err(e),
        }
    }
}

/// Builds a table from the `(label, text)` entries of a textual key-value
/// document: entry `i` becomes the record with index `i`, its text
/// terminated and encoded through the bracket-tag sublanguage.
pub fn table_from_document(entries: Vec<(String, String)>, order: ByteOrder) -> (r: Result<
    Vec<MSBTString>,
    Error,
>)
    requires
        entries@.len() <= u32::MAX,
    ensures
        r matches Ok(v) ==> spec_table_from_document(entries.deep_view(), 0, order) == Ok::<
            _,
            Error,
        >(v.deep_view()),
        r matches Err(e) ==> spec_table_from_document(entries.deep_view(), 0, order) == Err::<
            Seq<MSBTStringV>,
            _,
        >(e),
{
    let ghost ev = entries.deep_view();
    let mut strings: Vec<MSBTString> = Vec::new();
    let n: usize = entries.len();
    let mut i: usize = 0;
    while i < n
        invariant
            i <= n,
            n == ev.len(),
            n <= u32::MAX,
            ev == entries.deep_view(),
            spec_table_from_document(ev, 0, order) == (match spec_table_from_document(
                ev,
                i as int,
                order,
            ) {
                Ok(rest) => Ok::<Seq<MSBTStringV>, Error>(strings.deep_view() + rest),
                Err(e) => Err::<Seq<MSBTStringV>, Error>(e),
            }),
        decreases n - i,
    {
        let ghost before = strings.deep_view();
        let entry = &entries[i];
        proof {
            assert(entries.deep_view()[i as int] == (entry.0@, entry.1@));
        }
        let mut corrected = entry.1.clone();
        crate::text::push_char(&mut corrected, '\0');
        proof {
            assert(corrected@ =~= ev[i as int].1 + seq!['\0']);
        }
        match TXT2::parse_string(corrected.as_str(), order) {
            Result::Ok(payload) => {
                strings.push(
                    MSBTString { index: i as u32, label: entry.0.clone(), string: payload },
                );
            },
            Result::Err(e) => {
                return Err(e);
            },
        }
        i = i + 1;
        proof {
            let rec = MSBTStringV {
                index: (i - 1) as u32,
                label: ev[i - 1].0,
                string: crate::structs::txt2::spec_parse_string_at(
                    ev[i - 1].1 + seq!['\0'],
                    0,
                    order,
                ).unwrap(),
            };
            assert(strings.deep_view() =~= before + seq![rec]);
            if spec_table_from_document(ev, i as int, order) is Ok {
                let rest = spec_table_from_document(ev, i as int, order).unwrap();
                assert(before + (seq![rec] + rest) =~= strings.deep_view() + rest);
            }
        }
    }
    proof {
        assert(strings.deep_view() + Seq::<MSBTStringV>::empty() =~= strings.deep_view());
    }
    Ok(strings)
}

/// Rendering a table into document entries, from record `i` on: each
/// payload is decoded into its bracketed text and the trailing terminator
/// character, when present, is dropped.
pub open spec fn spec_table_to_document(records: Seq<MSBTStringV>, i: int, o: ByteOrder) -> Result<
    Seq<(Seq<char>, Seq<char>)>,
    Error,
>
    decreases records.len() - i,
{
    if i >= records.len() || i < 0 {
        Ok(Seq::empty())
    } else {
        match crate::structs::txt2::spec_parse_binary_at(records[i].string, 0, o) {
            Ok(t) => {
                let text = if t.len() > 0 {
                    t.drop_last()
                } else {
                    t
                };
                match spec_table_to_document(records, i + 1, o) {
                    Ok(rest) => Ok(seq![(records[i].label, text)] + rest),
                    Err(e) => Err(e),
                }
            },
            Err(e) => Err(e),
        }
    }
}

/// Renders a table into the `(label, text)` entries of a textual key-value
/// document: each payload is decoded into its bracketed text, without its
/// trailing terminator character.
pub fn table_to_document(records: &Vec<MSBTString>, order: ByteOrder) -> (r: Result<
    Vec<(String, String)>,
    Error,
>)
    ensures
        r matches Ok(v) ==> spec_table_to_document(records.deep_view(), 0, order) == Ok::<
            _,
            Error,
        >(v.deep_view()),
        r matches Err(e) ==> spec_table_to_document(records.deep_view(), 0, order) == Err::<
            Seq<(Seq<char>, Seq<char>)>,
            _,
        >(e),
{
    let ghost rv = records.deep_view();
    let mut out: Vec<(String, String)> = Vec::new();
    let n: usize = records.len();
    let mut i: usize = 0;
    while i < n
        invariant
            i <= n,
            n == rv.len(),
            rv == records.deep_view(),
            spec_table_to_document(rv, 0, order) == (match spec_table_to_document(
                rv,
                i as int,
                order,
            ) {
                Ok(rest) => Ok::<Seq<(Seq<char>, Seq<char>)>, Error>(out.deep_view() + rest),
                Err(e) => Err::<Seq<(Seq<char>, Seq<char>)>, Error>(e),
            }),
        decreases n - i,
    {
        let ghost before = out.deep_view();
        let rec = &records[i];
        proof {
            assert(records.deep_view()[i as int] == rec@);
        }
        let payload = clone_bytes(&rec.string);
        match TXT2::parse_binary(payload, order) {
            Result::Ok(text) => {
                let chars = crate::text::str_chars(text.as_str());
                let mut trimmed = String::new();
                let keep: usize = if chars.len() > 0 {
                    chars.len() - 1
                } else {
                    0
                };
                let mut k: usize = 0;
                while k < keep
                    invariant
                        k <= keep,
                        keep <= chars@.len(),
                        trimmed@ == chars@.subrange(0, k as int),
                    decreases keep - k,
                {
                    crate::text::push_char(&mut trimmed, chars[k]);
                    k = k + 1;
                    assert(trimmed@ =~= chars@.subrange(0, k as int));
                }
                proof {
                    if chars@.len() > 0 {
                        assert(chars@.subrange(0, keep as int) =~= chars@.drop_last());
                    } else {
                        assert(chars@.subrange(0, 0) =~= chars@);
                    }
                }
                out.push((rec.label.clone(), trimmed));
            },
            Result::Err(e) => {
                return Err(e);
            },
        }
        i = i + 1;
        proof {
            let t = crate::structs::txt2::spec_parse_binary_at(rv[i - 1].string, 0, order).unwrap();
            let text = if t.len() > 0 {
                t.drop_last()
            } else {
                t
            };
            let rec_pair = (rv[i - 1].label, text);
            assert(out.deep_view() =~= before + seq![rec_pair]);
            if spec_table_to_document(rv, i as int, order) is Ok {
                let rest = spec_table_to_document(rv, i as int, order).unwrap();
                assert(before + (seq![rec_pair] + rest) =~= out.deep_view() + rest);
            }
        }
    }
    proof {
        assert(out.deep_view() + Seq::<(Seq<char>, Seq<char>)>::empty() =~= out.deep_view());
    }
    Ok(out)
}

/// The serialized container: header, label index, attribute section and
/// text section in that order, the header's declared size computed from the
/// three section lengths.
pub open spec fn spec_to_binary(records: Seq<MSBTString>, o: ByteOrder) -> Seq<u8> {
    let lbl1 = spec_lbl1_bytes(records, o);
    let atr1 = spec_atr1_bytes(records.len() as u64, o);
    let txt2 = spec_txt2_bytes(records, o);
    spec_header_bytes(3, (lbl1.len() + atr1.len() + txt2.len()) as u32, o) + lbl1 + atr1 + txt2
}

/// Whether the records stay inside the machine limits of the format: every
/// label fits its one-byte length field and every declared section size and
/// the declared file size fit 32 bits.
pub open spec fn spec_to_binary_ok(records: Seq<MSBTString>, o: ByteOrder) -> bool {
    &&& forall|i: int|
        0 <= i < records.len() ==> encode_utf8(#[trigger] records[i].label@).len() <= 255
    &&& spec_lbl1_section_size(records, o) <= u32::MAX
    &&& spec_txt2_section_size(crate::structs::txt2::spec_sort_by_index(records)) <= u32::MAX
    &&& spec_lbl1_bytes(records, o).len() + 32 + spec_txt2_bytes(records, o).len() + 0x20
        <= u32::MAX
}

/// Serializes the whole table back into a binary container.
pub fn to_binary(msbt_strings: Vec<MSBTString>, order: ByteOrder) -> (r: Result<Vec<u8>, Error>)
    requires
        spec_to_binary_ok(msbt_strings@, order),
    ensures
        r matches Ok(v) && v@ == spec_to_binary(msbt_strings@, order),
{
    let ghost records = msbt_strings@;
    let lbl1 = LBL1::write_binary(&msbt_strings, order);
    let atr1 = ATR1::write_binary(&msbt_strings, order);
    proof {
        crate::structs::txt2::lemma_sort_by_index_facts(records);
    }
    let txt2 = TXT2::write_binary(msbt_strings, order);
    let section_sizes: u32 = (lbl1.len() as u32) + (atr1.len() as u32) + (txt2.len() as u32);
    let mut file = Header::write_binary(3, section_sizes, order);
    crate::endian::push_all(&mut file, &lbl1);
    crate::endian::push_all(&mut file, &atr1);
    crate::endian::push_all(&mut file, &txt2);
    assert(file@ =~= spec_to_binary(records, order));
    Ok(file)
}

} // verus!
