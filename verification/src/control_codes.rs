use vstd::prelude::*;
use vstd::string::StringExecFns;

use crate::endian::{read_bytes, read_u16, u16_at, u16_bytes, ByteOrder};
use crate::error::Error;
use crate::text::push_char;

verus! {

/// One embedded control code: its group, its type within the group, the
/// declared parameter byte count and the raw parameter bytes.
#[derive(Debug, Clone, PartialEq, Eq)]
pub struct ControlCode {
    pub tag_group: u16,
    pub tag_type: u16,
    pub params_size: u16,
    pub params: Vec<u8>,
}

/// The decimal digit character for `d` (below ten).
pub open spec fn spec_dec_digit(d: u16) -> char {
    (48 + d) as char
}

/// The decimal notation of `v`, without leading zeros.
pub open spec fn spec_dec_u16(v: u16) -> Seq<char>
    decreases v,
{
    if v < 10 {
        seq![spec_dec_digit(v)]
    } else {
        spec_dec_u16(v / 10).push(spec_dec_digit(v % 10))
    }
}

/// The uppercase hexadecimal digit character for `d` (below sixteen).
pub open spec fn spec_hex_digit(d: u8) -> char {
    if d < 10 {
        (48 + d) as char
    } else {
        (55 + d) as char
    }
}

/// The two uppercase hexadecimal digits of one byte.
pub open spec fn spec_hex_byte(b: u8) -> Seq<char> {
    seq![spec_hex_digit(b / 16), spec_hex_digit(b % 16)]
}

/// The bytes of `ps` in hexadecimal, concatenated without separators.
pub open spec fn spec_hex_run(ps: Seq<u8>) -> Seq<char>
    decreases ps.len(),
{
    if ps.len() == 0 {
        Seq::empty()
    } else {
        spec_hex_run(ps.drop_last()) + spec_hex_byte(ps.last())
    }
}

/// The bytes of `ps` in hexadecimal, joined with underscores.
pub open spec fn spec_hex_join(ps: Seq<u8>) -> Seq<char>
    decreases ps.len(),
{
    if ps.len() == 0 {
        Seq::empty()
    } else if ps.len() == 1 {
        spec_hex_byte(ps[0])
    } else {
        spec_hex_join(ps.drop_last()) + "_"@ + spec_hex_byte(ps.last())
    }
}

/// The opaque bracket notation of a control code: group and type in decimal,
/// parameters in underscore-joined hexadecimal.
pub open spec fn spec_raw_text(g: u16, t: u16, params: Seq<u8>) -> Seq<char> {
    "[RawCmd "@ + spec_dec_u16(g) + "."@ + spec_dec_u16(t) + (if params.len() == 0 {
        Seq::<char>::empty()
    } else {
        " "@ + spec_hex_join(params)
    }) + "]"@
}

/// The bracket notation of a text-size code.
pub open spec fn spec_size_text(params: Seq<u8>) -> Seq<char> {
    "[Size "@ + spec_hex_run(params) + "]"@
}

/// The bracket notation of a color code.
pub open spec fn spec_colour_text(params: Seq<u8>) -> Seq<char> {
    "[Colour #"@ + spec_hex_run(params) + "]"@
}

/// The bracket notation of a group-0 control code: the four known global
/// types get their semantic tags, everything else the opaque notation.
pub open spec fn spec_global_text(t: u16, params: Seq<u8>) -> Seq<char> {
    if t == 0 {
        "[Ruby_to_document]"@
    } else if t == 1 {
        "[Font_to_document]"@
    } else if t == 2 {
        spec_size_text(params)
    } else if t == 3 {
        spec_colour_text(params)
    } else {
        spec_raw_text(0, t, params)
    }
}

/// The bracket notation of any control code.
pub open spec fn spec_control_text(g: u16, t: u16, params: Seq<u8>) -> Seq<char> {
    if g == 0 {
        spec_global_text(t, params)
    } else {
        spec_raw_text(g, t, params)
    }
}

/// The bracket notation of a closing control code.
pub open spec fn spec_close_text(g: u16, t: u16) -> Seq<char> {
    "[/RawCmd "@ + spec_dec_u16(g) + "."@ + spec_dec_u16(t) + "]"@
}

/// Appends the decimal notation of `v`.
fn push_dec_u16(s: &mut String, v: u16)
    ensures
        final(s)@ == old(s)@ + spec_dec_u16(v),
    decreases v,
{
    if v < 10 {
        push_char(s, (48 + v as u8) as char);
        assert(s@ =~= old(s)@ + spec_dec_u16(v));
    } else {
        push_dec_u16(s, v / 10);
        push_char(s, (48 + (v % 10) as u8) as char);
        assert(s@ =~= old(s)@ + spec_dec_u16(v));
    }
}

/// Appends the two hexadecimal digits of `b`.
fn push_hex_byte(s: &mut String, b: u8)
    ensures
        final(s)@ == old(s)@ + spec_hex_byte(b),
{
    let hi: u8 = b / 16;
    let lo: u8 = b % 16;
    push_char(
        s,
        if hi < 10 {
            (48 + hi) as char
        } else {
            (55 + hi) as char
        },
    );
    push_char(
        s,
        if lo < 10 {
            (48 + lo) as char
        } else {
            (55 + lo) as char
        },
    );
    assert(s@ =~= old(s)@ + spec_hex_byte(b));
}

/// Appends every byte of `ps` in hexadecimal, without separators.
fn push_hex_run(s: &mut String, ps: &Vec<u8>)
    ensures
        final(s)@ == old(s)@ + spec_hex_run(ps@),
{
    let mut i: usize = 0;
    while i < ps.len()
        invariant
            i <= ps@.len(),
            s@ == old(s)@ + spec_hex_run(ps@.subrange(0, i as int)),
        decreases ps@.len() - i,
    {
        push_hex_byte(s, ps[i]);
        i = i + 1;
        proof {
            let cur = ps@.subrange(0, i as int);
            assert(cur.drop_last() =~= ps@.subrange(0, i - 1));
            assert(s@ =~= old(s)@ + spec_hex_run(cur));
        }
    }
    assert(ps@.subrange(0, ps@.len() as int) =~= ps@);
}

/// Appends every byte of `ps` in hexadecimal, joined with underscores.
fn push_hex_join(s: &mut String, ps: &Vec<u8>)
    ensures
        final(s)@ == old(s)@ + spec_hex_join(ps@),
{
    let mut i: usize = 0;
    while i < ps.len()
        invariant
            i <= ps@.len(),
            s@ == old(s)@ + spec_hex_join(ps@.subrange(0, i as int)),
        decreases ps@.len() - i,
    {
        if i > 0 {
            s.append("_");
        }
        push_hex_byte(s, ps[i]);
        i = i + 1;
        proof {
            let cur = ps@.subrange(0, i as int);
            assert(cur.drop_last() =~= ps@.subrange(0, i - 1));
            if i > 1 {
                assert(s@ =~= old(s)@ + spec_hex_join(cur));
            } else {
                assert(cur.len() == 1);
                assert(cur[0] == ps@[0]);
                assert(s@ =~= old(s)@ + spec_hex_join(cur));
            }
        }
    }
    assert(ps@.subrange(0, ps@.len() as int) =~= ps@);
}

/// Renders a control code in the opaque bracket notation.
pub fn write_raw_code(code: ControlCode) -> (r: String)
    ensures
        r@ == spec_raw_text(code.tag_group, code.tag_type, code.params@),
{
    let mut control_string = String::from_str("[RawCmd ");
    push_dec_u16(&mut control_string, code.tag_group);
    control_string.append(".");
    push_dec_u16(&mut control_string, code.tag_type);
    if code.params.len() > 0 {
        control_string.append(" ");
        push_hex_join(&mut control_string, &code.params);
    }
    control_string.append("]");
    assert(control_string@ =~= spec_raw_text(code.tag_group, code.tag_type, code.params@));
    control_string
}

/// Renders a text-size code.
pub fn write_size_code(code: ControlCode) -> (r: String)
    ensures
        r@ == spec_size_text(code.params@),
{
    let mut control_string = String::from_str("[Size ");
    push_hex_run(&mut control_string, &code.params);
    control_string.append("]");
    assert(control_string@ =~= spec_size_text(code.params@));
    control_string
}

/// Renders a color code.
pub fn write_colour_code(code: ControlCode) -> (r: String)
    ensures
        r@ == spec_colour_text(code.params@),
{
    let mut control_string = String::from_str("[Colour #");
    push_hex_run(&mut control_string, &code.params);
    control_string.append("]");
    assert(control_string@ =~= spec_colour_text(code.params@));
    control_string
}

/// Renders a group-0 control code: the known global types get semantic tags,
/// unknown types fall back to the opaque notation.
pub fn write_global(code: ControlCode) -> (r: String)
    ensures
        r@ == spec_global_text(code.tag_type, code.params@),
{
    if code.tag_type == 0 {
        String::from_str("[Ruby_to_document]")
    } else if code.tag_type == 1 {
        String::from_str("[Font_to_document]")
    } else if code.tag_type == 2 {
        write_size_code(code)
    } else if code.tag_type == 3 {
        write_colour_code(code)
    } else {
        let t = code.tag_type;
        let ghost ps = code.params@;
        let r = write_raw_code(ControlCode { tag_group: 0, ..code });
        r
    }
}

/// Reading the body of an opening control code at `pos` (after its marker):
/// group, type, parameter count, then that many raw parameter bytes, mapped
/// to their bracket notation.
pub open spec fn spec_read_control_body(bytes: Seq<u8>, pos: int, o: ByteOrder) -> Result<
    (Seq<char>, int),
    Error,
> {
    if pos + 6 > bytes.len() {
        Err(Error::TextEncodingError)
    } else {
        let g = u16_at(bytes, pos, o);
        let t = u16_at(bytes, pos + 2, o);
        let n = u16_at(bytes, pos + 4, o);
        if pos + 6 + n > bytes.len() {
            Err(Error::TextEncodingError)
        } else {
            Ok((spec_control_text(g, t, bytes.subrange(pos + 6, pos + 6 + n)), pos + 6 + n))
        }
    }
}

/// Reading the body of a closing control code at `pos` (after its marker):
/// group and type only.
pub open spec fn spec_read_close_body(bytes: Seq<u8>, pos: int, o: ByteOrder) -> Result<
    (Seq<char>, int),
    Error,
> {
    if pos + 4 > bytes.len() {
        Err(Error::TextEncodingError)
    } else {
        Ok((spec_close_text(u16_at(bytes, pos, o), u16_at(bytes, pos + 2, o)), pos + 4))
    }
}

/// Decodes the body of an opening control code that starts at `pos`, just
/// past its 0x000E marker, and returns its bracket notation with the
/// position after the last parameter byte.
pub fn convert_control_code_binary(bytes: &Vec<u8>, pos: usize, order: ByteOrder) -> (r: Result<
    (String, usize),
    Error,
>)
    ensures
        r matches Ok((s, p)) ==> spec_read_control_body(bytes@, pos as int, order) == Ok::<
            _,
            Error,
        >((s@, p as int)),
        r matches Err(e) ==> spec_read_control_body(bytes@, pos as int, order) == Err::<
            (Seq<char>, int),
            _,
        >(e),
{
    let g = match read_u16(bytes, pos, order) {
        Option::Some((g, _)) => g,
        Option::None => {
            return Err(Error::TextEncodingError);
        },
    };
    let t = match read_u16(bytes, pos + 2, order) {
        Option::Some((t, _)) => t,
        Option::None => {
            return Err(Error::TextEncodingError);
        },
    };
    let n = match read_u16(bytes, pos + 4, order) {
        Option::Some((n, _)) => n,
        Option::None => {
            return Err(Error::TextEncodingError);
        },
    };
    let (params, end) = match read_bytes(bytes, pos + 6, n as usize) {
        Option::Some(pr) => pr,
        Option::None => {
            return Err(Error::TextEncodingError);
        },
    };
    let control_code = ControlCode { tag_group: g, tag_type: t, params_size: n, params };
    let text = if g == 0 {
        write_global(control_code)
    } else {
        write_raw_code(control_code)
    };
    Ok((text, end))
}

/// Decodes the body of a closing control code that starts at `pos`, just
/// past its 0x000F marker.
pub fn convert_control_code_close_binary(bytes: &Vec<u8>, pos: usize, order: ByteOrder) -> (r:
    Result<(String, usize), Error>)
    ensures
        r matches Ok((s, p)) ==> spec_read_close_body(bytes@, pos as int, order) == Ok::<
            _,
            Error,
        >((s@, p as int)),
        r matches Err(e) ==> spec_read_close_body(bytes@, pos as int, order) == Err::<
            (Seq<char>, int),
            _,
        >(e),
{
    let g = match read_u16(bytes, pos, order) {
        Option::Some((g, _)) => g,
        Option::None => {
            return Err(Error::TextEncodingError);
        },
    };
    let t = match read_u16(bytes, pos + 2, order) {
        Option::Some((t, _)) => t,
        Option::None => {
            return Err(Error::TextEncodingError);
        },
    };
    let mut control_string = String::from_str("[/RawCmd ");
    push_dec_u16(&mut control_string, g);
    control_string.append(".");
    push_dec_u16(&mut control_string, t);
    control_string.append("]");
    assert(control_string@ =~= spec_close_text(g, t));
    Ok((control_string, pos + 4))
}

/// Whether `c` is a decimal digit.
pub open spec fn spec_is_dec(c: char) -> bool {
    48 <= c as u32 <= 57
}

/// The value of a decimal digit character.
pub open spec fn spec_dec_val(c: char) -> u16 {
    (c as u32 - 48) as u16
}

/// Whether `c` is an uppercase hexadecimal digit.
pub open spec fn spec_is_hex(c: char) -> bool {
    spec_is_dec(c) || (65 <= c as u32 <= 70)
}

/// The value of an uppercase hexadecimal digit character.
pub open spec fn spec_hex_val(c: char) -> u8 {
    if spec_is_dec(c) {
        (c as u32 - 48) as u8
    } else {
        (c as u32 - 55) as u8
    }
}

/// Whether `c` may appear in a glyph name.
pub open spec fn spec_is_name_char(c: char) -> bool {
    spec_is_dec(c) || (65 <= c as u32 <= 90) || (97 <= c as u32 <= 122) || c == '_'
}

/// Whether `c` is an ASCII letter.
pub open spec fn spec_is_alpha(c: char) -> bool {
    (65 <= c as u32 <= 90) || (97 <= c as u32 <= 122)
}

/// A one- or two-digit decimal number read at `pos`, with the position after
/// it; two digits are taken when present.
pub open spec fn spec_parse_dec12(s: Seq<char>, pos: int) -> Option<(u16, int)> {
    if 0 <= pos < s.len() && spec_is_dec(s[pos]) {
        if pos + 1 < s.len() && spec_is_dec(s[pos + 1]) {
            Some(((10 * spec_dec_val(s[pos]) + spec_dec_val(s[pos + 1])) as u16, pos + 2))
        } else {
            Some((spec_dec_val(s[pos]), pos + 1))
        }
    } else {
        None
    }
}

/// An underscore-joined run of two-digit hexadecimal bytes read at `pos`,
/// with the position after it.
pub open spec fn spec_parse_hexjoin(s: Seq<char>, pos: int) -> Option<(Seq<u8>, int)>
    decreases s.len() - pos,
{
    if 0 <= pos && pos + 2 <= s.len() && spec_is_hex(s[pos]) && spec_is_hex(s[pos + 1]) {
        let b = (16 * spec_hex_val(s[pos]) + spec_hex_val(s[pos + 1])) as u8;
        if pos + 2 < s.len() && s[pos + 2] == '_' {
            match spec_parse_hexjoin(s, pos + 3) {
                Some((rest, end)) => Some((seq![b] + rest, end)),
                None => None,
            }
        } else {
            Some((seq![b], pos + 2))
        }
    } else {
        None
    }
}

/// The position of the first character at or after `pos` that is not an
/// uppercase hexadecimal digit.
pub open spec fn spec_hexrun_end(s: Seq<char>, pos: int) -> int
    decreases s.len() - pos,
{
    if 0 <= pos < s.len() && spec_is_hex(s[pos]) {
        spec_hexrun_end(s, pos + 1)
    } else {
        pos
    }
}

/// The bytes named by the hexadecimal digit pairs of `s[q .. e]`.
pub open spec fn spec_hex_parse_run(s: Seq<char>, q: int, e: int) -> Seq<u8>
    decreases e - q,
{
    if q + 2 <= e && q >= 0 && e <= s.len() {
        seq![(16 * spec_hex_val(s[q]) + spec_hex_val(s[q + 1])) as u8] + spec_hex_parse_run(
            s,
            q + 2,
            e,
        )
    } else {
        Seq::empty()
    }
}

/// The position of the first character at or after `pos` that may not stand
/// in a glyph name.
pub open spec fn spec_name_end(s: Seq<char>, pos: int) -> int
    decreases s.len() - pos,
{
    if 0 <= pos < s.len() && spec_is_name_char(s[pos]) {
        spec_name_end(s, pos + 1)
    } else {
        pos
    }
}

/// The position of the first character at or after `pos` that is not an
/// ASCII letter.
pub open spec fn spec_alpha_end(s: Seq<char>, pos: int) -> int
    decreases s.len() - pos,
{
    if 0 <= pos < s.len() && spec_is_alpha(s[pos]) {
        spec_alpha_end(s, pos + 1)
    } else {
        pos
    }
}

/// One token recognized at a `[` in the text: what it carries and the
/// position just after its closing `]`. `BadTok` marks a recognized tag head
/// whose body cannot be parsed; `NoTok` leaves the bracket to the literal
/// character path.
pub enum TokenScan {
    NoTok,
    BadTok,
    EscTok(Seq<char>, int),
    RawTok(u16, u16, Seq<u8>, int),
    ColourTok(Seq<u8>, int),
    SizeTok(Seq<u8>, int),
    CloseTok(u16, u16, int),
}

/// The body of a color or size tag after its head: an optional `#`, then an
/// even run of hexadecimal digits up to the closing `]`.
pub open spec fn spec_scan_params_body(s: Seq<char>, p: int) -> Option<(Seq<u8>, int)> {
    if !(0 <= p <= s.len()) {
        None
    } else {
        let q = if p < s.len() && s[p] == '#' {
            p + 1
        } else {
            p
        };
        let e = spec_hexrun_end(s, q);
        if e < s.len() && s[e] == ']' && (e - q) % 2 == 0 && (e - q) / 2 <= 0xFFFF {
            Some((spec_hex_parse_run(s, q, e), e + 1))
        } else {
            None
        }
    }
}

/// The body of an opaque tag after its head: group `.` type, optionally a
/// space and underscore-joined parameter bytes, then the closing `]`.
pub open spec fn spec_scan_raw_body(s: Seq<char>, p: int) -> Option<(u16, u16, Seq<u8>, int)> {
    match spec_parse_dec12(s, p) {
        Some((g, p1)) => {
            if p1 < s.len() && s[p1] == '.' {
                match spec_parse_dec12(s, p1 + 1) {
                    Some((t, p2)) => {
                        if p2 < s.len() && s[p2] == ']' {
                            Some((g, t, Seq::empty(), p2 + 1))
                        } else if p2 < s.len() && s[p2] == ' ' {
                            match spec_parse_hexjoin(s, p2 + 1) {
                                Some((ps, p3)) => {
                                    if p3 < s.len() && s[p3] == ']' && ps.len() <= 0xFFFF {
                                        Some((g, t, ps, p3 + 1))
                                    } else {
                                        None
                                    }
                                },
                                None => None,
                            }
                        } else {
                            None
                        }
                    },
                    None => None,
                }
            } else {
                None
            }
        },
        None => None,
    }
}

/// The token recognized at position `pos` of the text, which the caller has
/// found to hold `[`. An escape or close form that does not parse falls back
/// to `NoTok` (literal text); a recognized head (`RawCmd`, `Colour`,
/// `Color`, `Size`) with an unparseable body is `BadTok`.
pub open spec fn spec_scan_token(s: Seq<char>, pos: int) -> TokenScan {
    if !(0 <= pos < s.len() && s[pos] == '[') {
        TokenScan::NoTok
    } else if pos + 1 < s.len() && s[pos + 1] == '!' {
        let ne = spec_name_end(s, pos + 2);
        if ne > pos + 2 && ne < s.len() && s[ne] == ']' {
            TokenScan::EscTok(s.subrange(pos + 2, ne), ne + 1)
        } else {
            TokenScan::NoTok
        }
    } else if pos + 1 < s.len() && s[pos + 1] == '/' {
        let he = spec_alpha_end(s, pos + 2);
        if he < s.len() && s[he] == ' ' && s.subrange(pos + 2, he) == "RawCmd"@ {
            match spec_parse_dec12(s, he + 1) {
                Some((g, p1)) => {
                    if p1 < s.len() && s[p1] == '.' {
                        match spec_parse_dec12(s, p1 + 1) {
                            Some((t, p2)) => {
                                if p2 < s.len() && s[p2] == ']' {
                                    TokenScan::CloseTok(g, t, p2 + 1)
                                } else {
                                    TokenScan::BadTok
                                }
                            },
                            None => TokenScan::BadTok,
                        }
                    } else {
                        TokenScan::BadTok
                    }
                },
                None => TokenScan::BadTok,
            }
        } else {
            TokenScan::NoTok
        }
    } else {
        let he = spec_alpha_end(s, pos + 1);
        if he < s.len() && s[he] == ' ' {
            let head = s.subrange(pos + 1, he);
            if head == "RawCmd"@ {
                match spec_scan_raw_body(s, he + 1) {
                    Some((g, t, ps, end)) => TokenScan::RawTok(g, t, ps, end),
                    None => TokenScan::BadTok,
                }
            } else if head == "Colour"@ || head == "Color"@ {
                match spec_scan_params_body(s, he + 1) {
                    Some((ps, end)) => TokenScan::ColourTok(ps, end),
                    None => TokenScan::BadTok,
                }
            } else if head == "Size"@ {
                match spec_scan_params_body(s, he + 1) {
                    Some((ps, end)) => TokenScan::SizeTok(ps, end),
                    None => TokenScan::BadTok,
                }
            } else {
                TokenScan::NoTok
            }
        } else {
            TokenScan::NoTok
        }
    }
}

/// The position bounds of a hexadecimal run, and that every character in it
/// is a hexadecimal digit.
pub proof fn lemma_hexrun_end_props(s: Seq<char>, pos: int)
    requires
        0 <= pos <= s.len(),
    ensures
        pos <= spec_hexrun_end(s, pos) <= s.len(),
        forall|m: int| pos <= m < spec_hexrun_end(s, pos) ==> spec_is_hex(#[trigger] s[m]),
    decreases s.len() - pos,
{
    if pos < s.len() && spec_is_hex(s[pos]) {
        lemma_hexrun_end_props(s, pos + 1);
    }
}

/// The position bounds of a glyph-name run, and that every character in it
/// may stand in a glyph name.
pub proof fn lemma_name_end_char_props(s: Seq<char>, pos: int)
    requires
        0 <= pos <= s.len(),
    ensures
        pos <= spec_name_end(s, pos) <= s.len(),
        forall|m: int| pos <= m < spec_name_end(s, pos) ==> spec_is_name_char(#[trigger] s[m]),
    decreases s.len() - pos,
{
    if pos < s.len() && spec_is_name_char(s[pos]) {
        lemma_name_end_char_props(s, pos + 1);
    }
}

/// A parsed hexadecimal join ends after where it starts and inside the
/// text.
pub proof fn lemma_hexjoin_props(s: Seq<char>, pos: int)
    ensures
        spec_parse_hexjoin(s, pos) matches Some((ps, e)) ==> pos < e <= s.len(),
    decreases s.len() - pos,
{
    if 0 <= pos && pos + 2 <= s.len() && spec_is_hex(s[pos]) && spec_is_hex(s[pos + 1]) {
        if pos + 2 < s.len() && s[pos + 2] == '_' {
            lemma_hexjoin_props(s, pos + 3);
        }
    }
}

/// The position bounds of a letter run.
pub proof fn lemma_alpha_end_props(s: Seq<char>, pos: int)
    requires
        0 <= pos <= s.len(),
    ensures
        pos <= spec_alpha_end(s, pos) <= s.len(),
    decreases s.len() - pos,
{
    if pos < s.len() && spec_is_alpha(s[pos]) {
        lemma_alpha_end_props(s, pos + 1);
    }
}

fn is_dec(c: char) -> (r: bool)
    ensures
        r == spec_is_dec(c),
{
    let u = c as u32;
    48 <= u && u <= 57
}

fn is_hex(c: char) -> (r: bool)
    ensures
        r == spec_is_hex(c),
{
    let u = c as u32;
    (48 <= u && u <= 57) || (65 <= u && u <= 70)
}

fn is_name_char(c: char) -> (r: bool)
    ensures
        r == spec_is_name_char(c),
{
    let u = c as u32;
    (48 <= u && u <= 57) || (65 <= u && u <= 90) || (97 <= u && u <= 122) || u == 95
}

fn is_alpha(c: char) -> (r: bool)
    ensures
        r == spec_is_alpha(c),
{
    let u = c as u32;
    (65 <= u && u <= 90) || (97 <= u && u <= 122)
}

fn hex_val(c: char) -> (r: u8)
    requires
        spec_is_hex(c),
    ensures
        r == spec_hex_val(c),
{
    let u = c as u32;
    if u <= 57 {
        (u - 48) as u8
    } else {
        (u - 55) as u8
    }
}

fn parse_dec12(chars: &Vec<char>, pos: usize) -> (r: Option<(u16, usize)>)
    ensures
        r is Some <==> spec_parse_dec12(chars@, pos as int) is Some,
        r matches Some((v, p)) ==> spec_parse_dec12(chars@, pos as int) == Some(
            (v, p as int),
        ),
{
    let n = chars.len();
    if pos < n && is_dec(chars[pos]) {
        let d0: u16 = (chars[pos] as u32 - 48) as u16;
        if pos + 1 < n && is_dec(chars[pos + 1]) {
            let d1: u16 = (chars[pos + 1] as u32 - 48) as u16;
            Some((10 * d0 + d1, pos + 2))
        } else {
            Some((d0, pos + 1))
        }
    } else {
        None
    }
}

fn parse_hexjoin(chars: &Vec<char>, pos: usize) -> (r: Option<(Vec<u8>, usize)>)
    ensures
        r is Some <==> spec_parse_hexjoin(chars@, pos as int) is Some,
        r matches Some((ps, p)) ==> spec_parse_hexjoin(chars@, pos as int) == Some(
            (ps@, p as int),
        ),
    decreases chars@.len() - pos,
{
    let n = chars.len();
    if pos < n && n - pos >= 2 && is_hex(chars[pos]) && is_hex(chars[pos + 1]) {
        let b: u8 = 16 * hex_val(chars[pos]) + hex_val(chars[pos + 1]);
        if pos + 2 < n && chars[pos + 2] == '_' {
            match parse_hexjoin(chars, pos + 3) {
                Option::Some((rest, end)) => {
                    let mut v: Vec<u8> = Vec::new();
                    v.push(b);
                    let mut rest = rest;
                    let ghost rest_view = rest@;
                    v.append(&mut rest);
                    proof {
                        assert(v@ =~= seq![b] + rest_view);
                    }
                    Some((v, end))
                },
                Option::None => None,
            }
        } else {
            let mut v: Vec<u8> = Vec::new();
            v.push(b);
            proof {
                assert(v@ =~= seq![b]);
            }
            Some((v, pos + 2))
        }
    } else {
        None
    }
}

fn hexrun_end(chars: &Vec<char>, pos: usize) -> (r: usize)
    requires
        pos <= chars@.len(),
    ensures
        r == spec_hexrun_end(chars@, pos as int),
        pos <= r <= chars@.len(),
    decreases chars@.len() - pos,
{
    if pos < chars.len() && is_hex(chars[pos]) {
        hexrun_end(chars, pos + 1)
    } else {
        pos
    }
}

fn name_end(chars: &Vec<char>, pos: usize) -> (r: usize)
    requires
        pos <= chars@.len(),
    ensures
        r == spec_name_end(chars@, pos as int),
        pos <= r <= chars@.len(),
    decreases chars@.len() - pos,
{
    if pos < chars.len() && is_name_char(chars[pos]) {
        name_end(chars, pos + 1)
    } else {
        pos
    }
}

fn alpha_end(chars: &Vec<char>, pos: usize) -> (r: usize)
    requires
        pos <= chars@.len(),
    ensures
        r == spec_alpha_end(chars@, pos as int),
        pos <= r <= chars@.len(),
    decreases chars@.len() - pos,
{
    if pos < chars.len() && is_alpha(chars[pos]) {
        alpha_end(chars, pos + 1)
    } else {
        pos
    }
}

fn parse_hex_run(chars: &Vec<char>, q: usize, e: usize) -> (r: Vec<u8>)
    requires
        q <= e <= chars@.len(),
        forall|m: int| q <= m < e ==> spec_is_hex(#[trigger] chars@[m]),
    ensures
        r@ == spec_hex_parse_run(chars@, q as int, e as int),
{
    let mut v: Vec<u8> = Vec::new();
    let mut c: usize = q;
    while e - c >= 2
        invariant
            q <= c <= e <= chars@.len(),
            forall|m: int| q <= m < e ==> spec_is_hex(#[trigger] chars@[m]),
            spec_hex_parse_run(chars@, q as int, e as int) == v@ + spec_hex_parse_run(
                chars@,
                c as int,
                e as int,
            ),
        decreases e - c,
    {
        let b: u8 = 16 * hex_val(chars[c]) + hex_val(chars[c + 1]);
        let ghost before = v@;
        v.push(b);
        c = c + 2;
        proof {
            assert(before + (seq![b] + spec_hex_parse_run(chars@, c as int, e as int)) =~= v@
                + spec_hex_parse_run(chars@, c as int, e as int));
        }
    }
    v
}

/// Builds the string of the characters `chars[from .. to]`.
fn collect_chars(chars: &Vec<char>, from: usize, to: usize) -> (r: String)
    requires
        from <= to <= chars@.len(),
    ensures
        r@ == chars@.subrange(from as int, to as int),
{
    let mut s = String::new();
    let mut k: usize = from;
    while k < to
        invariant
            from <= k <= to <= chars@.len(),
            s@ == chars@.subrange(from as int, k as int),
        decreases to - k,
    {
        push_char(&mut s, chars[k]);
        k = k + 1;
        assert(s@ =~= chars@.subrange(from as int, k as int));
    }
    s
}

/// One recognized token, the executable image of `TokenScan`.
pub enum Token {
    NoTok,
    BadTok,
    EscTok(String, usize),
    RawTok(u16, u16, Vec<u8>, usize),
    ColourTok(Vec<u8>, usize),
    SizeTok(Vec<u8>, usize),
    CloseTok(u16, u16, usize),
}

/// The mathematical image of a token.
pub open spec fn token_abs(t: Token) -> TokenScan {
    match t {
        Token::NoTok => TokenScan::NoTok,
        Token::BadTok => TokenScan::BadTok,
        Token::EscTok(n, e) => TokenScan::EscTok(n@, e as int),
        Token::RawTok(g, tt, ps, e) => TokenScan::RawTok(g, tt, ps@, e as int),
        Token::ColourTok(ps, e) => TokenScan::ColourTok(ps@, e as int),
        Token::SizeTok(ps, e) => TokenScan::SizeTok(ps@, e as int),
        Token::CloseTok(g, tt, e) => TokenScan::CloseTok(g, tt, e as int),
    }
}

fn scan_params_body(chars: &Vec<char>, p: usize) -> (r: Option<(Vec<u8>, usize)>)
    requires
        p <= chars@.len(),
    ensures
        r is Some <==> spec_scan_params_body(chars@, p as int) is Some,
        r matches Some((ps, e)) ==> spec_scan_params_body(chars@, p as int) == Some(
            (ps@, e as int),
        ) && ps@.len() <= 0xFFFF,
{
    let n = chars.len();
    let q: usize = if p < n && chars[p] == '#' {
        p + 1
    } else {
        p
    };
    let e = hexrun_end(chars, q);
    proof {
        lemma_hexrun_end_props(chars@, q as int);
    }
    if e < n && chars[e] == ']' && (e - q) % 2 == 0 && (e - q) / 2 <= 0xFFFF {
        let ps = parse_hex_run(chars, q, e);
        proof {
            lemma_hex_parse_run_count(chars@, q as int, e as int);
        }
        Some((ps, e + 1))
    } else {
        None
    }
}

/// Recognizes the token that starts at position `pos` of the text.
pub fn scan_token(chars: &Vec<char>, pos: usize) -> (r: Token)
    ensures
        token_abs(r) == spec_scan_token(chars@, pos as int),
        r matches Token::RawTok(g, t, ps, e) ==> ps@.len() <= 0xFFFF,
        r matches Token::ColourTok(ps, e) ==> ps@.len() <= 0xFFFF,
        r matches Token::SizeTok(ps, e) ==> ps@.len() <= 0xFFFF,
        r matches Token::EscTok(name, e) ==> forall|i: int|
            0 <= i < name@.len() ==> ((#[trigger] name@[i]) as u32) < 0x10000,
{
    let n = chars.len();
    if !(pos < n && chars[pos] == '[') {
        return Token::NoTok;
    }
    if pos + 1 < n && chars[pos + 1] == '!' {
        let ne = name_end(chars, pos + 2);
        if ne > pos + 2 && ne < n && chars[ne] == ']' {
            let name = collect_chars(chars, pos + 2, ne);
            proof {
                lemma_name_end_char_props(chars@, pos + 2);
                assert forall|i: int| 0 <= i < name@.len() implies ((#[trigger] name@[i]) as u32) < 0x10000 by {
                    assert(name@[i] == chars@[pos + 2 + i]);
                    assert(spec_is_name_char(chars@[pos + 2 + i]));
                }
            }
            return Token::EscTok(name, ne + 1);
        }
        return Token::NoTok;
    }
    if pos + 1 < n && chars[pos + 1] == '/' {
        let he = alpha_end(chars, pos + 2);
        if !(he < n && chars[he] == ' ') {
            return Token::NoTok;
        }
        let head = collect_chars(chars, pos + 2, he);
        if !crate::text::str_eq(head.as_str(), "RawCmd") {
            return Token::NoTok;
        }
        match parse_dec12(chars, he + 1) {
            Option::Some((g, p1)) => {
                if p1 < n && chars[p1] == '.' {
                    match parse_dec12(chars, p1 + 1) {
                        Option::Some((t, p2)) => {
                            if p2 < n && chars[p2] == ']' {
                                return Token::CloseTok(g, t, p2 + 1);
                            }
                            return Token::BadTok;
                        },
                        Option::None => {
                            return Token::BadTok;
                        },
                    }
                }
                return Token::BadTok;
            },
            Option::None => {
                return Token::BadTok;
            },
        }
    }
    let he = alpha_end(chars, pos + 1);
    if !(he < n && chars[he] == ' ') {
        return Token::NoTok;
    }
    let head = collect_chars(chars, pos + 1, he);
    if crate::text::str_eq(head.as_str(), "RawCmd") {
        match parse_dec12(chars, he + 1) {
            Option::Some((g, p1)) => {
                if p1 < n && chars[p1] == '.' {
                    match parse_dec12(chars, p1 + 1) {
                        Option::Some((t, p2)) => {
                            if p2 < n && chars[p2] == ']' {
                                return Token::RawTok(g, t, Vec::new(), p2 + 1);
                            }
                            if p2 < n && chars[p2] == ' ' {
                                match parse_hexjoin(chars, p2 + 1) {
                                    Option::Some((ps, p3)) => {
                                        if p3 < n && chars[p3] == ']' && ps.len() <= 0xFFFF {
                                            return Token::RawTok(g, t, ps, p3 + 1);
                                        }
                                        return Token::BadTok;
                                    },
                                    Option::None => {
                                        return Token::BadTok;
                                    },
                                }
                            }
                            return Token::BadTok;
                        },
                        Option::None => {
                            return Token::BadTok;
                        },
                    }
                }
                return Token::BadTok;
            },
            Option::None => {
                return Token::BadTok;
            },
        }
    }
    if crate::text::str_eq(head.as_str(), "Colour") || crate::text::str_eq(
        head.as_str(),
        "Color",
    ) {
        match scan_params_body(chars, he + 1) {
            Option::Some((ps, end)) => {
                return Token::ColourTok(ps, end);
            },
            Option::None => {
                return Token::BadTok;
            },
        }
    }
    if crate::text::str_eq(head.as_str(), "Size") {
        match scan_params_body(chars, he + 1) {
            Option::Some((ps, end)) => {
                return Token::SizeTok(ps, end);
            },
            Option::None => {
                return Token::BadTok;
            },
        }
    }
    Token::NoTok
}

/// Appends the serialized form of an opening control code.
pub fn push_control_bytes(out: &mut Vec<u8>, g: u16, t: u16, params: &Vec<u8>, order: ByteOrder)
    requires
        params@.len() <= 0xFFFF,
    ensures
        final(out)@ == old(out)@ + spec_control_bytes(g, t, params@, order),
{
    crate::endian::push_u16(out, 0x0E, order);
    crate::endian::push_u16(out, g, order);
    crate::endian::push_u16(out, t, order);
    crate::endian::push_u16(out, params.len() as u16, order);
    crate::endian::push_all(out, params);
    assert(out@ =~= old(out)@ + spec_control_bytes(g, t, params@, order));
}

/// Appends the serialized form of a closing control code.
pub fn push_close_bytes(out: &mut Vec<u8>, g: u16, t: u16, order: ByteOrder)
    ensures
        final(out)@ == old(out)@ + spec_close_bytes(g, t, order),
{
    crate::endian::push_u16(out, 0x0F, order);
    crate::endian::push_u16(out, g, order);
    crate::endian::push_u16(out, t, order);
    assert(out@ =~= old(out)@ + spec_close_bytes(g, t, order));
}

/// The serialized form of an opening control code: the 0x000E marker, the
/// group, the type, the parameter count, then the raw parameter bytes.
pub open spec fn spec_control_bytes(g: u16, t: u16, params: Seq<u8>, o: ByteOrder) -> Seq<u8> {
    u16_bytes(0x0E, o) + u16_bytes(g, o) + u16_bytes(t, o) + u16_bytes(params.len() as u16, o)
        + params
}

/// The serialized form of a closing control code: the 0x000F marker, the
/// group and the type.
pub open spec fn spec_close_bytes(g: u16, t: u16, o: ByteOrder) -> Seq<u8> {
    u16_bytes(0x0F, o) + u16_bytes(g, o) + u16_bytes(t, o)
}

/// Converting a dotted group-and-type pair with an optional hexadecimal
/// argument run into an opening control code: `ct` must be exactly
/// `group.type` in decimal, `args` empty or exactly underscore-joined
/// hexadecimal byte pairs.
pub open spec fn spec_convert_raw(ct: Seq<char>, args: Seq<char>, o: ByteOrder) -> Result<
    Seq<u8>,
    Error,
> {
    match spec_parse_dec12(ct, 0) {
        Some((g, p1)) => {
            if p1 < ct.len() && ct[p1] == '.' {
                match spec_parse_dec12(ct, p1 + 1) {
                    Some((t, p2)) => {
                        if p2 == ct.len() {
                            if args.len() == 0 {
                                Ok(spec_control_bytes(g, t, Seq::empty(), o))
                            } else {
                                match spec_parse_hexjoin(args, 0) {
                                    Some((ps, e)) => {
                                        if e == args.len() && ps.len() <= 0xFFFF {
                                            Ok(spec_control_bytes(g, t, ps, o))
                                        } else {
                                            Err(Error::MalformedControlCode)
                                        }
                                    },
                                    None => Err(Error::MalformedControlCode),
                                }
                            }
                        } else {
                            Err(Error::MalformedControlCode)
                        }
                    },
                    None => Err(Error::MalformedControlCode),
                }
            } else {
                Err(Error::MalformedControlCode)
            }
        },
        None => Err(Error::MalformedControlCode),
    }
}

/// Converting a color or size argument into parameter bytes: an optional
/// `#`, then an even run of hexadecimal digits.
pub open spec fn spec_convert_params(args: Seq<char>) -> Result<Seq<u8>, Error> {
    let q: int = if args.len() > 0 && args[0] == '#' {
        1
    } else {
        0
    };
    let e = spec_hexrun_end(args, q);
    if e == args.len() && (e - q) % 2 == 0 && (e - q) / 2 <= 0xFFFF {
        Ok(spec_hex_parse_run(args, q, e))
    } else {
        Err(Error::MalformedControlCode)
    }
}

/// Reconstructs an opening control code from its textual group-and-type and
/// argument parts.
pub fn convert_raw_code(code_type: &str, args: &str, order: ByteOrder) -> (r: Result<
    Vec<u8>,
    Error,
>)
    ensures
        r matches Ok(v) ==> spec_convert_raw(code_type@, args@, order) == Ok::<_, Error>(v@),
        r matches Err(e) ==> spec_convert_raw(code_type@, args@, order) == Err::<Seq<u8>, _>(e),
{
    let ct = crate::text::str_chars(code_type);
    let ar = crate::text::str_chars(args);
    match parse_dec12(&ct, 0) {
        Option::Some((g, p1)) => {
            if p1 < ct.len() && ct[p1] == '.' {
                match parse_dec12(&ct, p1 + 1) {
                    Option::Some((t, p2)) => {
                        if p2 == ct.len() {
                            if ar.len() == 0 {
                                let mut out: Vec<u8> = Vec::new();
                                let params: Vec<u8> = Vec::new();
                                push_control_bytes(&mut out, g, t, &params, order);
                                assert(out@ =~= spec_control_bytes(
                                    g,
                                    t,
                                    Seq::empty(),
                                    order,
                                ));
                                Ok(out)
                            } else {
                                match parse_hexjoin(&ar, 0) {
                                    Option::Some((ps, e)) => {
                                        if e == ar.len() && ps.len() <= 0xFFFF {
                                            let mut out: Vec<u8> = Vec::new();
                                            push_control_bytes(&mut out, g, t, &ps, order);
                                            Ok(out)
                                        } else {
                                            Err(Error::MalformedControlCode)
                                        }
                                    },
                                    Option::None => Err(Error::MalformedControlCode),
                                }
                            }
                        } else {
                            Err(Error::MalformedControlCode)
                        }
                    },
                    Option::None => Err(Error::MalformedControlCode),
                }
            } else {
                Err(Error::MalformedControlCode)
            }
        },
        Option::None => Err(Error::MalformedControlCode),
    }
}

/// Parses a color or size argument into its parameter bytes.
fn convert_params(args: &str) -> (r: Result<Vec<u8>, Error>)
    ensures
        r matches Ok(v) ==> spec_convert_params(args@) == Ok::<_, Error>(v@),
        r matches Err(e) ==> spec_convert_params(args@) == Err::<Seq<u8>, _>(e),
{
    let ar = crate::text::str_chars(args);
    let q: usize = if ar.len() > 0 && ar[0] == '#' {
        1
    } else {
        0
    };
    let e = hexrun_end(&ar, q);
    proof {
        lemma_hexrun_end_props(ar@, q as int);
    }
    if e == ar.len() && (e - q) % 2 == 0 && (e - q) / 2 <= 0xFFFF {
        Ok(parse_hex_run(&ar, q, e))
    } else {
        Err(Error::MalformedControlCode)
    }
}

/// Reconstructs a color code (group 0, type 3) from its textual argument.
pub fn convert_colour_code(args: &str, order: ByteOrder) -> (r: Result<Vec<u8>, Error>)
    ensures
        r matches Ok(v) ==> (spec_convert_params(args@) matches Ok(ps) && v@
            == spec_control_bytes(0, 3, ps, order)),
        r matches Err(e) ==> spec_convert_params(args@) == Err::<Seq<u8>, _>(e),
{
    match convert_params(args) {
        Result::Ok(ps) => {
            proof {
                lemma_hex_parse_run_len(args@);
            }
            let mut out: Vec<u8> = Vec::new();
            push_control_bytes(&mut out, 0, 3, &ps, order);
            Ok(out)
        },
        Result::Err(e) => Err(e),
    }
}

/// Reconstructs a text-size code (group 0, type 2) from its textual
/// argument.
pub fn convert_size_code(args: &str, order: ByteOrder) -> (r: Result<Vec<u8>, Error>)
    ensures
        r matches Ok(v) ==> (spec_convert_params(args@) matches Ok(ps) && v@
            == spec_control_bytes(0, 2, ps, order)),
        r matches Err(e) ==> spec_convert_params(args@) == Err::<Seq<u8>, _>(e),
{
    match convert_params(args) {
        Result::Ok(ps) => {
            proof {
                lemma_hex_parse_run_len(args@);
            }
            let mut out: Vec<u8> = Vec::new();
            push_control_bytes(&mut out, 0, 2, &ps, order);
            Ok(out)
        },
        Result::Err(e) => Err(e),
    }
}

/// The parameter count of a parsed argument run never exceeds a 16-bit
/// count.
proof fn lemma_hex_parse_run_len(args: Seq<char>)
    ensures
        spec_convert_params(args) matches Ok(ps) ==> ps.len() <= 0xFFFF,
{
    let q: int = if args.len() > 0 && args[0] == '#' {
        1
    } else {
        0
    };
    let e = spec_hexrun_end(args, q);
    lemma_hexrun_end_props(args, q);
    if e == args.len() && (e - q) % 2 == 0 && (e - q) / 2 <= 0xFFFF {
        lemma_hex_parse_run_count(args, q, e);
    }
}

/// A run of `e - q` hexadecimal digits parses to `(e - q) / 2` bytes.
proof fn lemma_hex_parse_run_count(s: Seq<char>, q: int, e: int)
    requires
        0 <= q,
        e <= s.len(),
    ensures
        (e - q) % 2 == 0 ==> spec_hex_parse_run(s, q, e).len() * 2 == (if e >= q {
            e - q
        } else {
            0
        }),
    decreases e - q,
{
    if q + 2 <= e {
        lemma_hex_parse_run_count(s, q + 2, e);
    }
}

/// The converted form of a full opening bracket tag: a recognized head with
/// a well-formed body becomes its control code, a recognized head with a
/// malformed body is an error, and anything else is encoded as literal
/// text.
pub open spec fn spec_convert_control(s: Seq<char>, o: ByteOrder) -> Result<Seq<u8>, Error> {
    match spec_scan_token(s, 0) {
        TokenScan::RawTok(g, t, ps, end) => if end == s.len() {
            Ok(spec_control_bytes(g, t, ps, o))
        } else {
            spec_units_from(s, 0, o)
        },
        TokenScan::ColourTok(ps, end) => if end == s.len() {
            Ok(spec_control_bytes(0, 3, ps, o))
        } else {
            spec_units_from(s, 0, o)
        },
        TokenScan::SizeTok(ps, end) => if end == s.len() {
            Ok(spec_control_bytes(0, 2, ps, o))
        } else {
            spec_units_from(s, 0, o)
        },
        TokenScan::BadTok => Err(Error::MalformedControlCode),
        _ => spec_units_from(s, 0, o),
    }
}

/// The converted form of a full closing bracket tag: only `[/RawCmd g.t]`
/// becomes a closing code; anything else unrecognized is encoded as literal
/// text, and a malformed body of the recognized form is an error.
pub open spec fn spec_convert_close(s: Seq<char>, o: ByteOrder) -> Result<Seq<u8>, Error> {
    match spec_scan_token(s, 0) {
        TokenScan::CloseTok(g, t, end) => if end == s.len() {
            Ok(spec_close_bytes(g, t, o))
        } else {
            spec_units_from(s, 0, o)
        },
        TokenScan::BadTok => Err(Error::MalformedControlCode),
        _ => spec_units_from(s, 0, o),
    }
}

/// Reconstructs the binary form of one full opening bracket tag.
pub fn convert_control_code(code: &str, order: ByteOrder) -> (r: Result<Vec<u8>, Error>)
    ensures
        r matches Ok(v) ==> spec_convert_control(code@, order) == Ok::<_, Error>(v@),
        r matches Err(e) ==> spec_convert_control(code@, order) == Err::<Seq<u8>, _>(e),
{
    let chars = crate::text::str_chars(code);
    let tok = scan_token(&chars, 0);
    match tok {
        Token::RawTok(g, t, ps, end) => {
            if end == chars.len() {
                let mut out: Vec<u8> = Vec::new();
                push_control_bytes(&mut out, g, t, &ps, order);
                return Ok(out);
            }
        },
        Token::ColourTok(ps, end) => {
            if end == chars.len() {
                let mut out: Vec<u8> = Vec::new();
                push_control_bytes(&mut out, 0, 3, &ps, order);
                return Ok(out);
            }
        },
        Token::SizeTok(ps, end) => {
            if end == chars.len() {
                let mut out: Vec<u8> = Vec::new();
                push_control_bytes(&mut out, 0, 2, &ps, order);
                return Ok(out);
            }
        },
        Token::BadTok => {
            return Err(Error::MalformedControlCode);
        },
        _ => {},
    }
    let mut out: Vec<u8> = Vec::new();
    match push_units(&mut out, &chars, 0, order) {
        Result::Ok(_) => Ok(out),
        Result::Err(e) => Err(e),
    }
}

/// Reconstructs the binary form of one full closing bracket tag.
pub fn convert_control_code_close(code: &str, order: ByteOrder) -> (r: Result<Vec<u8>, Error>)
    ensures
        r matches Ok(v) ==> spec_convert_close(code@, order) == Ok::<_, Error>(v@),
        r matches Err(e) ==> spec_convert_close(code@, order) == Err::<Seq<u8>, _>(e),
{
    let chars = crate::text::str_chars(code);
    let tok = scan_token(&chars, 0);
    match tok {
        Token::CloseTok(g, t, end) => {
            if end == chars.len() {
                let mut out: Vec<u8> = Vec::new();
                push_close_bytes(&mut out, g, t, order);
                return Ok(out);
            }
        },
        Token::BadTok => {
            return Err(Error::MalformedControlCode);
        },
        _ => {},
    }
    let mut out: Vec<u8> = Vec::new();
    match push_units(&mut out, &chars, 0, order) {
        Result::Ok(_) => Ok(out),
        Result::Err(e) => Err(e),
    }
}

/// The characters of `s[i ..]` encoded as literal UTF-16 code units; a
/// character beyond the basic plane has no single code unit and is a
/// `TextEncodingError`.
pub open spec fn spec_units_from(s: Seq<char>, i: int, o: ByteOrder) -> Result<Seq<u8>, Error>
    decreases s.len() - i,
{
    if i >= s.len() || i < 0 {
        Ok(Seq::empty())
    } else if s[i] as u32 >= 0x10000 {
        Err(Error::TextEncodingError)
    } else {
        match spec_units_from(s, i + 1, o) {
            Ok(r) => Ok(u16_bytes((s[i] as u32) as u16, o) + r),
            Err(e) => Err(e),
        }
    }
}

/// Appends the literal UTF-16 code units of `chars[from ..]`; fails without
/// a useful buffer state on a character beyond the basic plane.
pub(crate) fn push_units(out: &mut Vec<u8>, chars: &Vec<char>, from: usize, o: ByteOrder) -> (r:
    Result<(), Error>)
    requires
        from <= chars@.len(),
    ensures
        r is Ok <==> spec_units_from(chars@, from as int, o) is Ok,
        r is Ok ==> final(out)@ == old(out)@ + spec_units_from(chars@, from as int, o).unwrap(),
        r matches Err(e) ==> spec_units_from(chars@, from as int, o) == Err::<Seq<u8>, _>(e),
{
    let n = chars.len();
    let ghost base = old(out)@;
    let mut i: usize = from;
    while i < n
        invariant
            from <= i <= n,
            n == chars@.len(),
            base == old(out)@,
            out@.len() >= base.len(),
            out@.subrange(0, base.len() as int) == base,
            spec_units_from(chars@, from as int, o) == (match spec_units_from(
                chars@,
                i as int,
                o,
            ) {
                Ok(r) => Ok::<Seq<u8>, Error>(
                    out@.subrange(base.len() as int, out@.len() as int) + r,
                ),
                Err(e) => Err::<Seq<u8>, Error>(e),
            }),
        decreases n - i,
    {
        let c = chars[i];
        let u32v = c as u32;
        if u32v >= 0x10000 {
            return Err(Error::TextEncodingError);
        }
        let ghost prev = out@;
        crate::endian::push_u16(out, u32v as u16, o);
        i = i + 1;
        proof {
            assert(out@.subrange(0, base.len() as int) =~= base);
            assert(out@.subrange(base.len() as int, out@.len() as int) =~= prev.subrange(
                base.len() as int,
                prev.len() as int,
            ) + u16_bytes(u32v as u16, o));
            if spec_units_from(chars@, i as int, o) is Ok {
                let r = spec_units_from(chars@, i as int, o).unwrap();
                assert(prev.subrange(base.len() as int, prev.len() as int) + (u16_bytes(
                    u32v as u16,
                    o,
                ) + r) =~= out@.subrange(base.len() as int, out@.len() as int) + r);
            }
        }
    }
    proof {
        assert(out@ =~= base + out@.subrange(base.len() as int, out@.len() as int));
    }
    Ok(())
}

} // verus!
