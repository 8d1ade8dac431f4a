use vstd::prelude::*;
use vstd::string::StringExecFns;

use crate::endian::ByteOrder;
use crate::error::Error;
use crate::msbt::{
    add_string, edit_string_by_label, lemma_position_label_props,
    spec_delete_at, spec_edit_at, spec_max_index, spec_position_label, MSBTString, MSBTStringV,
};
use crate::control_codes::spec_units_from;
use crate::text::{push_char, str_chars};

verus! {

/// The edit state of one diff entry.
#[derive(Debug, Clone, Copy, PartialEq, Eq, Structural)]
pub enum State {
    Added,
    Deleted,
    Edited,
    Null,
}

/// One entry of a parsed diff: an edit state, the label it addresses and
/// the textual content that goes with it.
#[derive(Debug, Clone, PartialEq, Eq)]
pub struct StringDiff {
    pub state: State,
    pub label: String,
    pub string: String,
}

/// Mathematical image of one diff entry.
pub struct StringDiffV {
    pub state: State,
    pub label: Seq<char>,
    pub string: Seq<char>,
}

impl View for StringDiff {
    type V = StringDiffV;

    open spec fn view(&self) -> StringDiffV {
        StringDiffV { state: self.state, label: self.label@, string: self.string@ }
    }
}

impl DeepView for StringDiff {
    type V = StringDiffV;

    open spec fn deep_view(&self) -> StringDiffV {
        self@
    }
}

/// Whether some record of `s` carries the label `l`.
pub open spec fn spec_has_label(s: Seq<MSBTStringV>, l: Seq<char>) -> bool {
    exists|i: int| 0 <= i < s.len() && (#[trigger] s[i]).label == l
}

/// The records of `ed` whose labels appear nowhere in `orig`, in order.
pub open spec fn spec_added_one(orig: Seq<MSBTStringV>, ed: Seq<MSBTStringV>) -> Seq<
    MSBTStringV,
>
    decreases ed.len(),
{
    if ed.len() == 0 {
        Seq::empty()
    } else {
        let rest = spec_added_one(orig, ed.drop_last());
        if !spec_has_label(orig, ed.last().label) {
            rest.push(ed.last())
        } else {
            rest
        }
    }
}

/// The records added by each edited table, concatenated in table order.
pub open spec fn spec_added_all(orig: Seq<MSBTStringV>, eds: Seq<Seq<MSBTStringV>>) -> Seq<
    MSBTStringV,
>
    decreases eds.len(),
{
    if eds.len() == 0 {
        Seq::empty()
    } else {
        spec_added_all(orig, eds.drop_last()) + spec_added_one(orig, eds.last())
    }
}

/// The records of `orig` whose labels appear nowhere in `ed`, in order.
pub open spec fn spec_deleted_one(orig: Seq<MSBTStringV>, ed: Seq<MSBTStringV>) -> Seq<
    MSBTStringV,
>
    decreases orig.len(),
{
    if orig.len() == 0 {
        Seq::empty()
    } else {
        let rest = spec_deleted_one(orig.drop_last(), ed);
        if !spec_has_label(ed, orig.last().label) {
            rest.push(orig.last())
        } else {
            rest
        }
    }
}

/// The records deleted against each edited table, concatenated.
pub open spec fn spec_deleted_all(orig: Seq<MSBTStringV>, eds: Seq<Seq<MSBTStringV>>) -> Seq<
    MSBTStringV,
>
    decreases eds.len(),
{
    if eds.len() == 0 {
        Seq::empty()
    } else {
        spec_deleted_all(orig, eds.drop_last()) + spec_deleted_one(orig, eds.last())
    }
}

/// The records of `ed` whose label also stands in `orig` (first match) with
/// a different payload, in order.
pub open spec fn spec_edited_one(orig: Seq<MSBTStringV>, ed: Seq<MSBTStringV>) -> Seq<
    MSBTStringV,
>
    decreases ed.len(),
{
    if ed.len() == 0 {
        Seq::empty()
    } else {
        let rest = spec_edited_one(orig, ed.drop_last());
        let r = ed.last();
        match spec_position_label(orig, r.label) {
            Some(k) => if orig[k].string != r.string {
                rest.push(r)
            } else {
                rest
            },
            None => rest,
        }
    }
}

/// The records edited against each edited table, concatenated.
pub open spec fn spec_edited_all(orig: Seq<MSBTStringV>, eds: Seq<Seq<MSBTStringV>>) -> Seq<
    MSBTStringV,
>
    decreases eds.len(),
{
    if eds.len() == 0 {
        Seq::empty()
    } else {
        spec_edited_all(orig, eds.drop_last()) + spec_edited_one(orig, eds.last())
    }
}

/// Whether two byte vectors hold the same bytes.
fn bytes_eq(a: &Vec<u8>, b: &Vec<u8>) -> (r: bool)
    ensures
        r == (a@ == b@),
{
    if a.len() != b.len() {
        proof {
            assert(a@.len() != b@.len());
        }
        return false;
    }
    let n: usize = a.len();
    let mut i: usize = 0;
    while i < n
        invariant
            i <= n,
            n == a@.len(),
            n == b@.len(),
            forall|m: int| 0 <= m < i ==> a@[m] == b@[m],
        decreases n - i,
    {
        if a[i] != b[i] {
            return false;
        }
        i = i + 1;
    }
    proof {
        assert(a@ =~= b@);
    }
    true
}

/// Whether any record of the table carries the given label.
fn has_label(records: &Vec<MSBTString>, label: &String) -> (r: bool)
    ensures
        r == spec_has_label(records.deep_view(), label@),
{
    let n: usize = records.len();
    let mut i: usize = 0;
    while i < n
        invariant
            i <= n,
            n == records@.len(),
            forall|m: int| 0 <= m < i ==> (#[trigger] records.deep_view()[m]).label != label@,
        decreases n - i,
    {
        if records[i].label == *label {
            proof {
                assert(records.deep_view()[i as int].label == label@);
            }
            return true;
        }
        i = i + 1;
    }
    false
}

/// Copies one record.
fn clone_record(r: &MSBTString) -> (c: MSBTString)
    ensures
        c@ == r@,
{
    MSBTString {
        index: r.index,
        label: r.label.clone(),
        string: crate::msbt::clone_bytes(&r.string),
    }
}

/// The records of the edited tables whose labels the baseline does not
/// carry.
pub fn get_added(original: Vec<MSBTString>, vec_edited: Vec<Vec<MSBTString>>) -> (r: Vec<
    MSBTString,
>)
    ensures
        r.deep_view() == spec_added_all(original.deep_view(), vec_edited.deep_view()),
{
    let mut result: Vec<MSBTString> = Vec::new();
    let ghost origv = original.deep_view();
    let ghost edsv = vec_edited.deep_view();
    let ne: usize = vec_edited.len();
    proof {
        assert(result.deep_view() =~= spec_added_all(origv, edsv.subrange(0, 0)));
    }
    let mut e: usize = 0;
    while e < ne
        invariant
            e <= ne,
            ne == edsv.len(),
            origv == original.deep_view(),
            edsv == vec_edited.deep_view(),
            result.deep_view() == spec_added_all(origv, edsv.subrange(0, e as int)),
        decreases ne - e,
    {
        let edited = &vec_edited[e];
        let ghost edv = edsv[e as int];
        let n: usize = edited.len();
        proof {
            assert(result.deep_view() =~= spec_added_all(origv, edsv.subrange(0, e as int))
                + spec_added_one(origv, edv.subrange(0, 0)));
        }
        let mut j: usize = 0;
        while j < n
            invariant
                j <= n,
                n == edv.len(),
                n == edited@.len(),
                edited.deep_view() == edv,
                origv == original.deep_view(),
                edv == vec_edited.deep_view()[e as int],
                e < vec_edited.deep_view().len(),
                edsv == vec_edited.deep_view(),
                result.deep_view() == spec_added_all(origv, edsv.subrange(0, e as int))
                    + spec_added_one(origv, edv.subrange(0, j as int)),
            decreases n - j,
        {
            let ghost before = result.deep_view();
            let rec = &edited[j];
            let ghost recv = rec@;
            proof {
                assert(edited.deep_view()[j as int] == recv);
            }
            if !has_label(&original, &rec.label) {
                result.push(clone_record(rec));
                proof {
                    assert(result.deep_view() =~= before.push(recv));
                }
            }
            j = j + 1;
            proof {
                let cur = edv.subrange(0, j as int);
                assert(cur.drop_last() =~= edv.subrange(0, j - 1));
                assert(cur.last() == edv[j - 1]);
                assert(edv[j - 1] == recv);
                if !spec_has_label(origv, recv.label) {
                    assert(spec_added_one(origv, cur) == spec_added_one(
                        origv,
                        edv.subrange(0, j - 1),
                    ).push(recv));
                    assert(before.push(recv) =~= spec_added_all(origv, edsv.subrange(0, e as int))
                        + spec_added_one(origv, cur));
                }
                assert(result.deep_view() =~= spec_added_all(origv, edsv.subrange(0, e as int))
                    + spec_added_one(origv, cur));
            }
        }
        e = e + 1;
        proof {
            let cur = edsv.subrange(0, e as int);
            assert(cur.drop_last() =~= edsv.subrange(0, e - 1));
            assert(cur.last() == edsv[e - 1]);
            assert(edv.subrange(0, edv.len() as int) =~= edv);
            assert(result.deep_view() =~= spec_added_all(origv, cur));
        }
    }
    proof {
        assert(edsv.subrange(0, edsv.len() as int) =~= edsv);
    }
    result
}

/// The records of the baseline whose labels an edited table does not carry,
/// once per edited table.
pub fn get_deleted(original: Vec<MSBTString>, vec_edited: Vec<Vec<MSBTString>>) -> (r: Vec<
    MSBTString,
>)
    ensures
        r.deep_view() == spec_deleted_all(original.deep_view(), vec_edited.deep_view()),
{
    let mut result: Vec<MSBTString> = Vec::new();
    let ghost origv = original.deep_view();
    let ghost edsv = vec_edited.deep_view();
    let ne: usize = vec_edited.len();
    proof {
        assert(result.deep_view() =~= spec_deleted_all(origv, edsv.subrange(0, 0)));
    }
    let mut e: usize = 0;
    while e < ne
        invariant
            e <= ne,
            ne == edsv.len(),
            origv == original.deep_view(),
            edsv == vec_edited.deep_view(),
            result.deep_view() == spec_deleted_all(origv, edsv.subrange(0, e as int)),
        decreases ne - e,
    {
        let edited = &vec_edited[e];
        let ghost edv = edsv[e as int];
        let n: usize = original.len();
        proof {
            assert(result.deep_view() =~= spec_deleted_all(origv, edsv.subrange(0, e as int))
                + spec_deleted_one(origv.subrange(0, 0), edv));
        }
        let mut j: usize = 0;
        while j < n
            invariant
                j <= n,
                n == origv.len(),
                n == original@.len(),
                edited.deep_view() == edv,
                origv == original.deep_view(),
                edv == vec_edited.deep_view()[e as int],
                e < vec_edited.deep_view().len(),
                edsv == vec_edited.deep_view(),
                result.deep_view() == spec_deleted_all(origv, edsv.subrange(0, e as int))
                    + spec_deleted_one(origv.subrange(0, j as int), edv),
            decreases n - j,
        {
            let ghost before = result.deep_view();
            let rec = &original[j];
            let ghost recv = rec@;
            proof {
                assert(original.deep_view()[j as int] == recv);
            }
            if !has_label(edited, &rec.label) {
                result.push(clone_record(rec));
                proof {
                    assert(result.deep_view() =~= before.push(recv));
                }
            }
            j = j + 1;
            proof {
                let cur = origv.subrange(0, j as int);
                assert(cur.drop_last() =~= origv.subrange(0, j - 1));
                assert(cur.last() == origv[j - 1]);
                assert(origv[j - 1] == recv);
                if !spec_has_label(edv, recv.label) {
                    assert(spec_deleted_one(cur, edv) == spec_deleted_one(
                        origv.subrange(0, j - 1),
                        edv,
                    ).push(recv));
                    assert(before.push(recv) =~= spec_deleted_all(
                        origv,
                        edsv.subrange(0, e as int),
                    ) + spec_deleted_one(cur, edv));
                }
                assert(result.deep_view() =~= spec_deleted_all(origv, edsv.subrange(0, e as int))
                    + spec_deleted_one(cur, edv));
            }
        }
        e = e + 1;
        proof {
            let cur = edsv.subrange(0, e as int);
            assert(cur.drop_last() =~= edsv.subrange(0, e - 1));
            assert(cur.last() == edsv[e - 1]);
            assert(origv.subrange(0, origv.len() as int) =~= origv);
            assert(result.deep_view() =~= spec_deleted_all(origv, cur));
        }
    }
    proof {
        assert(edsv.subrange(0, edsv.len() as int) =~= edsv);
    }
    result
}

/// The records of the edited tables whose label the baseline carries with a
/// different payload.
pub fn get_edited(original: Vec<MSBTString>, vec_edited: Vec<Vec<MSBTString>>) -> (r: Vec<
    MSBTString,
>)
    ensures
        r.deep_view() == spec_edited_all(original.deep_view(), vec_edited.deep_view()),
{
    let mut result: Vec<MSBTString> = Vec::new();
    let ghost origv = original.deep_view();
    let ghost edsv = vec_edited.deep_view();
    let ne: usize = vec_edited.len();
    proof {
        assert(result.deep_view() =~= spec_edited_all(origv, edsv.subrange(0, 0)));
    }
    let mut e: usize = 0;
    while e < ne
        invariant
            e <= ne,
            ne == edsv.len(),
            origv == original.deep_view(),
            edsv == vec_edited.deep_view(),
            result.deep_view() == spec_edited_all(origv, edsv.subrange(0, e as int)),
        decreases ne - e,
    {
        let edited = &vec_edited[e];
        let ghost edv = edsv[e as int];
        let n: usize = edited.len();
        proof {
            assert(result.deep_view() =~= spec_edited_all(origv, edsv.subrange(0, e as int))
                + spec_edited_one(origv, edv.subrange(0, 0)));
        }
        let mut j: usize = 0;
        while j < n
            invariant
                j <= n,
                n == edv.len(),
                n == edited@.len(),
                edited.deep_view() == edv,
                origv == original.deep_view(),
                edv == vec_edited.deep_view()[e as int],
                e < vec_edited.deep_view().len(),
                edsv == vec_edited.deep_view(),
                result.deep_view() == spec_edited_all(origv, edsv.subrange(0, e as int))
                    + spec_edited_one(origv, edv.subrange(0, j as int)),
            decreases n - j,
        {
            let ghost before = result.deep_view();
            let rec = &edited[j];
            let ghost recv = rec@;
            proof {
                assert(edited.deep_view()[j as int] == recv);
            }
            match crate::msbt::position_by_label(&original, &rec.label) {
                Option::Some(k) => {
                    proof {
                        assert(original.deep_view()[k as int].string == original@[k as int]@.string);
                    }
                    if !bytes_eq(&original[k].string, &rec.string) {
                        result.push(clone_record(rec));
                        proof {
                            assert(result.deep_view() =~= before.push(recv));
                        }
                    }
                },
                Option::None => {},
            }
            j = j + 1;
            proof {
                let cur = edv.subrange(0, j as int);
                assert(cur.drop_last() =~= edv.subrange(0, j - 1));
                assert(cur.last() == edv[j - 1]);
                assert(edv[j - 1] == recv);
                match spec_position_label(origv, recv.label) {
                    Some(k) => {
                        if origv[k].string != recv.string {
                            assert(spec_edited_one(origv, cur) == spec_edited_one(
                                origv,
                                edv.subrange(0, j - 1),
                            ).push(recv));
                            assert(before.push(recv) =~= spec_edited_all(
                                origv,
                                edsv.subrange(0, e as int),
                            ) + spec_edited_one(origv, cur));
                        }
                    },
                    None => {},
                }
                assert(result.deep_view() =~= spec_edited_all(origv, edsv.subrange(0, e as int))
                    + spec_edited_one(origv, cur));
            }
        }
        e = e + 1;
        proof {
            let cur = edsv.subrange(0, e as int);
            assert(cur.drop_last() =~= edsv.subrange(0, e - 1));
            assert(cur.last() == edsv[e - 1]);
            assert(edv.subrange(0, edv.len() as int) =~= edv);
            assert(result.deep_view() =~= spec_edited_all(origv, cur));
        }
    }
    proof {
        assert(edsv.subrange(0, edsv.len() as int) =~= edsv);
    }
    result
}

/// Whether `c` is an ASCII whitespace character.
pub open spec fn spec_is_ws(c: char) -> bool {
    c == ' ' || c == '\t' || c == '\n' || c == '\r'
}

/// `s` without its trailing ASCII whitespace.
pub open spec fn spec_trim_end_ws(s: Seq<char>) -> Seq<char>
    decreases s.len(),
{
    if s.len() > 0 && spec_is_ws(s.last()) {
        spec_trim_end_ws(s.drop_last())
    } else {
        s
    }
}

/// `s` without its leading ASCII whitespace.
pub open spec fn spec_trim_start_ws(s: Seq<char>) -> Seq<char>
    decreases s.len(),
{
    if s.len() > 0 && spec_is_ws(s[0]) {
        spec_trim_start_ws(s.drop_first())
    } else {
        s
    }
}

/// `s` without leading and trailing ASCII whitespace.
pub open spec fn spec_trim_ws(s: Seq<char>) -> Seq<char> {
    spec_trim_start_ws(spec_trim_end_ws(s))
}

fn is_ws(c: char) -> (r: bool)
    ensures
        r == spec_is_ws(c),
{
    c == ' ' || c == '\t' || c == '\n' || c == '\r'
}

/// Strips leading and trailing ASCII whitespace.
fn trim_ws(s: &String) -> (r: String)
    ensures
        r@ == spec_trim_ws(s@),
{
    let chars = str_chars(s.as_str());
    let mut e: usize = chars.len();
    proof {
        assert(chars@.subrange(0, chars@.len() as int) =~= chars@);
    }
    while e > 0 && is_ws(chars[e - 1])
        invariant
            e <= chars@.len(),
            spec_trim_end_ws(chars@) == spec_trim_end_ws(chars@.subrange(0, e as int)),
        decreases e,
    {
        proof {
            let cur = chars@.subrange(0, e as int);
            assert(cur.drop_last() =~= chars@.subrange(0, e - 1));
        }
        e = e - 1;
    }
    proof {
        assert(spec_trim_end_ws(chars@.subrange(0, e as int)) == chars@.subrange(0, e as int));
    }
    let mut b: usize = 0;
    while b < e && is_ws(chars[b])
        invariant
            b <= e <= chars@.len(),
            spec_trim_start_ws(chars@.subrange(0, e as int)) == spec_trim_start_ws(
                chars@.subrange(b as int, e as int),
            ),
            spec_trim_end_ws(chars@) == chars@.subrange(0, e as int),
        decreases e - b,
    {
        proof {
            let cur = chars@.subrange(b as int, e as int);
            assert(cur.drop_first() =~= chars@.subrange(b + 1, e as int));
        }
        b = b + 1;
    }
    let mut out = String::new();
    let mut k: usize = b;
    while k < e
        invariant
            b <= k <= e <= chars@.len(),
            out@ == chars@.subrange(b as int, k as int),
        decreases e - k,
    {
        push_char(&mut out, chars[k]);
        k = k + 1;
        assert(out@ =~= chars@.subrange(b as int, k as int));
    }
    proof {
        assert(spec_trim_start_ws(chars@.subrange(b as int, e as int)) == chars@.subrange(
            b as int,
            e as int,
        ));
    }
    out
}

/// Parsing diff lines from position `i` on, with the pending entry
/// `(st, label, content)`: a blank line closes a pending entry, a line
/// starting `+`, `-` or `~` opens one (anything else in that position is
/// `MalformedDiffUnrecognizedState`), and any other line contributes its
/// text after the first character, plus a newline, to the pending content.
/// The pending entry is closed once more at the end, whatever its state.
pub open spec fn spec_convert_diff_at(
    lines: Seq<Seq<char>>,
    i: int,
    st: State,
    label: Seq<char>,
    content: Seq<char>,
) -> Result<Seq<StringDiffV>, Error>
    decreases lines.len() - i,
{
    if i >= lines.len() || i < 0 {
        Ok(seq![StringDiffV { state: st, label, string: spec_trim_ws(content) }])
    } else {
        let line = lines[i];
        if line.len() == 0 {
            if st != State::Null {
                match spec_convert_diff_at(lines, i + 1, State::Null, Seq::empty(), Seq::empty()) {
                    Ok(rest) => Ok(
                        seq![StringDiffV { state: st, label, string: spec_trim_ws(content) }]
                            + rest,
                    ),
                    Err(e) => Err(e),
                }
            } else {
                spec_convert_diff_at(lines, i + 1, st, label, content)
            }
        } else if st == State::Null {
            if line[0] == '+' {
                spec_convert_diff_at(lines, i + 1, State::Added, line.drop_first(), content)
            } else if line[0] == '-' {
                spec_convert_diff_at(lines, i + 1, State::Deleted, line.drop_first(), content)
            } else if line[0] == '~' {
                spec_convert_diff_at(lines, i + 1, State::Edited, line.drop_first(), content)
            } else {
                Err(Error::MalformedDiffUnrecognizedState)
            }
        } else {
            spec_convert_diff_at(
                lines,
                i + 1,
                st,
                label,
                content + line.drop_first() + seq!['\n'],
            )
        }
    }
}

/// Builds the string of the characters `chars[from ..]`.
fn collect_from(chars: &Vec<char>, from: usize) -> (r: String)
    requires
        from <= chars@.len(),
    ensures
        r@ == chars@.subrange(from as int, chars@.len() as int),
{
    let n: usize = chars.len();
    let mut out = String::new();
    let mut k: usize = from;
    while k < n
        invariant
            from <= k <= n,
            n == chars@.len(),
            out@ == chars@.subrange(from as int, k as int),
        decreases n - k,
    {
        push_char(&mut out, chars[k]);
        k = k + 1;
        assert(out@ =~= chars@.subrange(from as int, k as int));
    }
    out
}

/// Parses the lines of a textual diff into its entries.
pub fn convert_diff(diff: Vec<String>) -> (r: Result<Vec<StringDiff>, Error>)
    ensures
        r matches Ok(v) ==> spec_convert_diff_at(
            diff.deep_view(),
            0,
            State::Null,
            Seq::empty(),
            Seq::empty(),
        ) == Ok::<_, Error>(v.deep_view()),
        r matches Err(e) ==> spec_convert_diff_at(
            diff.deep_view(),
            0,
            State::Null,
            Seq::empty(),
            Seq::empty(),
        ) == Err::<Seq<StringDiffV>, _>(e),
{
    let ghost linesv = diff.deep_view();
    let mut result: Vec<StringDiff> = Vec::new();
    let mut st: State = State::Null;
    let mut label = String::new();
    let mut content = String::new();
    let n: usize = diff.len();
    let mut i: usize = 0;
    while i < n
        invariant
            i <= n,
            n == linesv.len(),
            linesv == diff.deep_view(),
            spec_convert_diff_at(linesv, 0, State::Null, Seq::empty(), Seq::empty()) == (
            match spec_convert_diff_at(linesv, i as int, st, label@, content@) {
                Ok(rest) => Ok::<Seq<StringDiffV>, Error>(result.deep_view() + rest),
                Err(e) => Err::<Seq<StringDiffV>, Error>(e),
            }),
        decreases n - i,
    {
        let line = &diff[i];
        let ghost linev = linesv[i as int];
        proof {
            assert(diff.deep_view()[i as int] == line@);
        }
        let line_chars = str_chars(line.as_str());
        if line_chars.len() == 0 {
            if !matches!(st, State::Null) {
                let ghost stold = st;
                let ghost labelv = label@;
                let ghost contentv = content@;
                let ghost before = result.deep_view();
                let done = StringDiff { state: st, label, string: trim_ws(&content) };
                result.push(done);
                st = State::Null;
                label = String::new();
                content = String::new();
                proof {
                    let rec = StringDiffV {
                        state: stold,
                        label: labelv,
                        string: spec_trim_ws(contentv),
                    };
                    assert(result.deep_view() =~= before + seq![rec]);
                    if spec_convert_diff_at(linesv, i + 1, State::Null, Seq::empty(), Seq::empty())
                        is Ok {
                        let rest = spec_convert_diff_at(
                            linesv,
                            i + 1,
                            State::Null,
                            Seq::empty(),
                            Seq::empty(),
                        ).unwrap();
                        assert(before + (seq![rec] + rest) =~= result.deep_view() + rest);
                    }
                }
            }
        } else if matches!(st, State::Null) {
            let c0 = line_chars[0];
            let rest_label = collect_from(&line_chars, 1);
            if c0 == '+' {
                st = State::Added;
                label = rest_label;
            } else if c0 == '-' {
                st = State::Deleted;
                label = rest_label;
            } else if c0 == '~' {
                st = State::Edited;
                label = rest_label;
            } else {
                return Err(Error::MalformedDiffUnrecognizedState);
            }
            proof {
                assert(label@ =~= linev.drop_first());
            }
        } else {
            let mut k: usize = 1;
            let ghost content0 = content@;
            while k < line_chars.len()
                invariant
                    1 <= k <= line_chars@.len(),
                    line_chars@ == linev,
                    content@ == content0 + linev.subrange(1, k as int),
                decreases line_chars@.len() - k,
            {
                push_char(&mut content, line_chars[k]);
                k = k + 1;
                assert(content@ =~= content0 + linev.subrange(1, k as int));
            }
            push_char(&mut content, '\n');
            proof {
                assert(linev.subrange(1, linev.len() as int) =~= linev.drop_first());
                assert(content@ =~= content0 + linev.drop_first() + seq!['\n']);
            }
        }
        i = i + 1;
    }
    let ghost stold = st;
    let ghost labelv = label@;
    let ghost contentv = content@;
    let ghost before = result.deep_view();
    let done = StringDiff { state: st, label, string: trim_ws(&content) };
    result.push(done);
    proof {
        let rec = StringDiffV { state: stold, label: labelv, string: spec_trim_ws(contentv) };
        assert(result.deep_view() =~= before + seq![rec]);
    }
    Ok(result)
}

/// Number of `Added` entries among the diff entries `d[i ..]`.
pub open spec fn spec_count_added(d: Seq<StringDiffV>, i: int) -> int
    decreases d.len() - i,
{
    if i >= d.len() || i < 0 {
        0
    } else {
        (if d[i].state == State::Added {
            1int
        } else {
            0int
        }) + spec_count_added(d, i + 1)
    }
}

/// The added-entry count is never negative.
pub proof fn lemma_count_added_nonneg(d: Seq<StringDiffV>, i: int)
    ensures
        spec_count_added(d, i) >= 0,
    decreases d.len() - i,
{
    if 0 <= i < d.len() {
        lemma_count_added_nonneg(d, i + 1);
    }
}

/// Applying the diff entries `d[i ..]` to the table: an added entry appends
/// its text (with a terminator) under the next free index, a deleted entry
/// removes its label (`LabelNotFound` when absent), an edited entry
/// replaces its label's payload and is skipped when the label is absent,
/// and a null entry does nothing. Text that cannot be encoded is
/// `TextEncodingError`; an add to an empty table is `EmptyTableError`.
pub open spec fn spec_patch_at(
    d: Seq<StringDiffV>,
    i: int,
    table: Seq<MSBTStringV>,
    o: ByteOrder,
) -> Result<Seq<MSBTStringV>, Error>
    decreases d.len() - i,
{
    if i >= d.len() || i < 0 {
        Ok(table)
    } else {
        let e = d[i];
        if e.state == State::Added {
            if table.len() == 0 {
                Err(Error::EmptyTableError)
            } else {
                match spec_units_from(e.string + seq!['\0'], 0, o) {
                    Ok(bs) => spec_patch_at(
                        d,
                        i + 1,
                        table.push(
                            MSBTStringV {
                                index: (spec_max_index(table) + 1) as u32,
                                label: e.label,
                                string: bs,
                            },
                        ),
                        o,
                    ),
                    Err(_) => Err(Error::TextEncodingError),
                }
            }
        } else if e.state == State::Deleted {
            match spec_position_label(table, e.label) {
                Some(k) => spec_patch_at(d, i + 1, spec_delete_at(table, k), o),
                None => Err(Error::LabelNotFound),
            }
        } else if e.state == State::Edited {
            match spec_units_from(e.string + seq!['\0'], 0, o) {
                Ok(bs) => match spec_position_label(table, e.label) {
                    Some(k) => spec_patch_at(d, i + 1, spec_edit_at(table, k, bs), o),
                    None => spec_patch_at(d, i + 1, table, o),
                },
                Err(_) => Err(Error::TextEncodingError),
            }
        } else {
            spec_patch_at(d, i + 1, table, o)
        }
    }
}

/// Applies a parsed diff to a baseline table.
pub fn patch_diff(diff: Vec<StringDiff>, msbt: Vec<MSBTString>, order: ByteOrder) -> (r: Result<
    Vec<MSBTString>,
    Error,
>)
    requires
        spec_max_index(msbt.deep_view()) + spec_count_added(diff.deep_view(), 0) < u32::MAX,
    ensures
        r matches Ok(v) ==> spec_patch_at(diff.deep_view(), 0, msbt.deep_view(), order) == Ok::<
            _,
            Error,
        >(v.deep_view()),
        r matches Err(e) ==> spec_patch_at(diff.deep_view(), 0, msbt.deep_view(), order) == Err::<
            Seq<MSBTStringV>,
            _,
        >(e),
{
    let ghost dv = diff.deep_view();
    let ghost tv = msbt.deep_view();
    let mut new_msbt = msbt;
    let n: usize = diff.len();
    let mut i: usize = 0;
    while i < n
        invariant
            i <= n,
            n == dv.len(),
            dv == diff.deep_view(),
            tv == msbt.deep_view(),
            spec_max_index(new_msbt.deep_view()) + spec_count_added(dv, i as int) < u32::MAX,
            spec_patch_at(dv, 0, tv, order) == spec_patch_at(
                dv,
                i as int,
                new_msbt.deep_view(),
                order,
            ),
        decreases n - i,
    {
        let ghost cur = new_msbt.deep_view();
        proof {
            lemma_count_added_nonneg(dv, i + 1);
            crate::msbt::lemma_max_index_bounds(cur);
        }
        let entry = &diff[i];
        proof {
            assert(diff.deep_view()[i as int] == entry@);
        }
        match entry.state {
            State::Added => {
                let mut corrected = entry.string.clone();
                push_char(&mut corrected, '\0');
                proof {
                    assert(corrected@ =~= entry@.string + seq!['\0']);
                }
                match add_string(&mut new_msbt, entry.label.clone(), corrected, order) {
                    Result::Ok(_) => {
                        proof {
                            assert(spec_patch_at(dv, i as int, cur, order) == spec_patch_at(
                                dv,
                                i + 1,
                                new_msbt.deep_view(),
                                order,
                            ));
                        }
                        proof {
                            crate::msbt::lemma_max_index_push(
                                cur,
                                MSBTStringV {
                                    index: (spec_max_index(cur) + 1) as u32,
                                    label: entry@.label,
                                    string: spec_units_from(entry@.string + seq!['\0'], 0, order).unwrap(),
                                },
                            );
                        }
                    },
                    Result::Err(e) => {
                        proof {
                            assert(spec_patch_at(dv, i as int, cur, order) == Err::<
                                Seq<MSBTStringV>,
                                Error,
                            >(e));
                        }
                        return Err(e);
                    },
                }
            },
            State::Deleted => {
                match crate::msbt::delete_string_by_label(&mut new_msbt, entry.label.clone()) {
                    Result::Ok(_) => {
                        proof {
                            lemma_position_label_props(cur, entry@.label);
                        }
                        proof {
                            lemma_position_label_props(cur, entry@.label);
                            if spec_position_label(cur, entry@.label) is Some {
                                let k = spec_position_label(cur, entry@.label).unwrap();
                                crate::msbt::lemma_max_index_delete(cur, k);
                            }
                        }
                    },
                    Result::Err(e) => {
                        proof {
                            assert(spec_patch_at(dv, i as int, cur, order) == Err::<
                                Seq<MSBTStringV>,
                                Error,
                            >(e));
                        }
                        return Err(e);
                    },
                }
            },
            State::Edited => {
                let mut corrected = entry.string.clone();
                push_char(&mut corrected, '\0');
                proof {
                    assert(corrected@ =~= entry@.string + seq!['\0']);
                }
                match edit_string_by_label(&mut new_msbt, entry.label.clone(), corrected, order) {
                    Result::Ok(_) => {
                        proof {
                            lemma_position_label_props(cur, entry@.label);
                            if spec_position_label(cur, entry@.label) is Some {
                                let k = spec_position_label(cur, entry@.label).unwrap();
                                crate::msbt::lemma_max_index_edit(
                                    cur,
                                    k,
                                    spec_units_from(entry@.string + seq!['\0'], 0, order).unwrap(),
                                );
                            }
                        }
                    },
                    Result::Err(e) => {
                        if matches!(e, Error::LabelNotFound) {
                            // A missing label is reported and skipped; the
                            // batch continues.
                        } else {
                            proof {
                                assert(spec_patch_at(dv, i as int, cur, order) == Err::<
                                    Seq<MSBTStringV>,
                                    Error,
                                >(e));
                            }
                            return Err(e);
                        }
                    },
                }
            },
            State::Null => {},
        }
        i = i + 1;
    }
    Ok(new_msbt)
}

/// The hexadecimal SHA-256 digest of a byte string; a function of the bytes
/// alone.
pub uninterp spec fn sha256_hex_of(bytes: Seq<u8>) -> Seq<char>;

/// Relies on sha256::digest: the hexadecimal digest depends on the input
/// bytes alone.
#[verifier::external_body]
fn sha256_hex(bytes: &Vec<u8>) -> (r: String)
    ensures
        r@ == sha256_hex_of(bytes@),
{
    sha256::digest(bytes.as_slice())
}

/// Compares the content hash recorded in a patch against the baseline
/// bytes; a disagreement is `HashMismatch` and fatal for the patch run.
pub fn check_patch_hash(recorded: &String, baseline: &Vec<u8>) -> (r: Result<(), Error>)
    ensures
        r is Ok <==> recorded@ == sha256_hex_of(baseline@),
        r matches Err(e) ==> e == Error::HashMismatch,
{
    let actual = sha256_hex(baseline);
    if actual == *recorded {
        Ok(())
    } else {
        Err(Error::HashMismatch)
    }
}

} // verus!
