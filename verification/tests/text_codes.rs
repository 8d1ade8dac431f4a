use msbt::endian::ByteOrder;
use msbt::error::Error;
use msbt::control_codes::convert_colour_code;
use msbt::control_codes::convert_control_code;
use msbt::control_codes::convert_control_code_close;
use msbt::control_codes::convert_raw_code;
use msbt::control_codes::convert_size_code;
use msbt::structs::TXT2;

fn le() -> ByteOrder {
    ByteOrder::LittleEndian
}

fn be() -> ByteOrder {
    ByteOrder::BigEndian
}

#[test]
fn literal_text_roundtrip() {
    let text = "Hello, world!";
    let bytes = TXT2::parse_string(text, le()).unwrap();
    assert_eq!(bytes.len(), 2 * text.len());
    assert_eq!(TXT2::parse_binary(bytes, le()).unwrap(), text);
    let bytes_be = TXT2::parse_string(text, be()).unwrap();
    assert_eq!(TXT2::parse_binary(bytes_be, be()).unwrap(), text);
}

#[test]
fn raw_command_roundtrip() {
    // The opaque tag decodes from its little-endian bytes and re-encodes
    // to the identical sequence.
    let bytes = vec![0x0E, 0x00, 0x03, 0x00, 0x07, 0x00, 0x02, 0x00, 0x0A, 0xFF];
    let text = TXT2::parse_binary(bytes.clone(), le()).unwrap();
    assert_eq!(text, "[RawCmd 3.7 0A_FF]");
    assert_eq!(TXT2::parse_string(&text, le()).unwrap(), bytes);
}

#[test]
fn raw_command_big_endian() {
    let bytes = TXT2::parse_string("[RawCmd 3.7 0A_FF]", be()).unwrap();
    assert_eq!(bytes, vec![0x00, 0x0E, 0x00, 0x03, 0x00, 0x07, 0x00, 0x02, 0x0A, 0xFF]);
    let text = TXT2::parse_binary(bytes, be()).unwrap();
    assert_eq!(text, "[RawCmd 3.7 0A_FF]");
}

#[test]
fn raw_command_without_params() {
    let bytes = TXT2::parse_string("[RawCmd 1.2]", le()).unwrap();
    assert_eq!(bytes, vec![0x0E, 0x00, 0x01, 0x00, 0x02, 0x00, 0x00, 0x00]);
    assert_eq!(TXT2::parse_binary(bytes, le()).unwrap(), "[RawCmd 1.2]");
}

#[test]
fn colour_tag_roundtrip() {
    // group 0, type 3, four RGBA parameter bytes.
    let bytes = TXT2::parse_string("[Colour #FF0000FF]", le()).unwrap();
    assert_eq!(
        bytes,
        vec![0x0E, 0x00, 0x00, 0x00, 0x03, 0x00, 0x04, 0x00, 0xFF, 0x00, 0x00, 0xFF]
    );
    assert_eq!(TXT2::parse_binary(bytes, le()).unwrap(), "[Colour #FF0000FF]");
}

#[test]
fn color_spelling_accepted() {
    let a = TXT2::parse_string("[Color #FF0000FF]", le()).unwrap();
    let b = TXT2::parse_string("[Colour #FF0000FF]", le()).unwrap();
    assert_eq!(a, b);
}

#[test]
fn size_tag_roundtrip() {
    let bytes = TXT2::parse_string("[Size 0064]", le()).unwrap();
    assert_eq!(bytes, vec![0x0E, 0x00, 0x00, 0x00, 0x02, 0x00, 0x02, 0x00, 0x00, 0x64]);
    assert_eq!(TXT2::parse_binary(bytes, le()).unwrap(), "[Size 0064]");
}

#[test]
fn close_tag_roundtrip() {
    let bytes = TXT2::parse_string("[/RawCmd 3.7]", le()).unwrap();
    assert_eq!(bytes, vec![0x0F, 0x00, 0x03, 0x00, 0x07, 0x00]);
    assert_eq!(TXT2::parse_binary(bytes, le()).unwrap(), "[/RawCmd 3.7]");
}

#[test]
fn ruby_and_font_tags_decode() {
    let ruby = vec![0x0E, 0x00, 0x00, 0x00, 0x00, 0x00, 0x00, 0x00];
    assert_eq!(TXT2::parse_binary(ruby, le()).unwrap(), "[Ruby_to_document]");
    let font = vec![0x0E, 0x00, 0x00, 0x00, 0x01, 0x00, 0x00, 0x00];
    assert_eq!(TXT2::parse_binary(font, le()).unwrap(), "[Font_to_document]");
}

#[test]
fn escape_code_roundtrip() {
    let text = TXT2::search_escape_code(0xE000).unwrap();
    assert_eq!(text, "[!A_button_3DS]");
    let bytes = TXT2::parse_string("[!A_button_3DS]", le()).unwrap();
    assert_eq!(bytes, vec![0x00, 0xE0]);
    assert_eq!(TXT2::parse_binary(bytes, le()).unwrap(), "[!A_button_3DS]");
}

#[test]
fn shared_code_point_prefers_the_3ds_name() {
    // One code unit is shared between two family tables; the 3DS table is
    // searched first.
    assert_eq!(TXT2::search_escape_code(0xE01E).unwrap(), "[!Camera_3DS]");
    // Both names still encode to the same unit.
    let a = TXT2::parse_string("[!Camera_3DS]", le()).unwrap();
    let b = TXT2::parse_string("[!Camera_DS]", le()).unwrap();
    assert_eq!(a, vec![0x1E, 0xE0]);
    assert_eq!(a, b);
}

#[test]
fn unknown_escape_name_falls_back_to_literal_text() {
    // A name in no family table is encoded character by character.
    let bytes = TXT2::parse_string("[!NoSuchGlyph]", le()).unwrap();
    assert_eq!(bytes.len(), 2 * "[!NoSuchGlyph]".len());
    assert_eq!(bytes[0], b'[');
    assert_eq!(TXT2::parse_binary(bytes, le()).unwrap(), "[!NoSuchGlyph]");
}

#[test]
fn unknown_code_point_decodes_to_its_character() {
    // A private-use unit outside every table decodes as a literal
    // character.
    let bytes = vec![0xFF, 0xEF];
    let text = TXT2::parse_binary(bytes, le()).unwrap();
    assert_eq!(text, "\u{EFFF}");
}

#[test]
fn unknown_tag_head_is_literal_text() {
    let text = "[Wave 1.2]";
    let bytes = TXT2::parse_string(text, le()).unwrap();
    assert_eq!(bytes.len(), 2 * text.len());
    assert_eq!(TXT2::parse_binary(bytes, le()).unwrap(), text);
}

#[test]
fn malformed_raw_command_is_rejected() {
    assert_eq!(
        TXT2::parse_string("[RawCmd 1.2 0A_]", le()).unwrap_err(),
        Error::MalformedControlCode
    );
    assert_eq!(
        TXT2::parse_string("[Colour #FF0]", le()).unwrap_err(),
        Error::MalformedControlCode
    );
}

#[test]
fn surrogate_unit_is_a_text_encoding_error() {
    let bytes = vec![0x00, 0xD8];
    assert_eq!(TXT2::parse_binary(bytes, le()).unwrap_err(), Error::TextEncodingError);
}

#[test]
fn odd_payload_is_a_text_encoding_error() {
    let bytes = vec![0x61, 0x00, 0x62];
    assert_eq!(TXT2::parse_binary(bytes, le()).unwrap_err(), Error::TextEncodingError);
}

#[test]
fn truncated_control_code_is_a_text_encoding_error() {
    let bytes = vec![0x0E, 0x00, 0x03, 0x00];
    assert_eq!(TXT2::parse_binary(bytes, le()).unwrap_err(), Error::TextEncodingError);
}

#[test]
fn astral_character_is_a_text_encoding_error() {
    assert_eq!(TXT2::parse_string("\u{1F600}", le()).unwrap_err(), Error::TextEncodingError);
}

#[test]
fn char_helpers() {
    assert_eq!(msbt::structs::txt2::read_char([0x0E, 0x00], le()), 0x0E);
    assert_eq!(msbt::structs::txt2::read_char([0x00, 0x0E], be()), 0x0E);
    assert_eq!(msbt::structs::txt2::convert_char('a', le()), vec![0x61, 0x00]);
    assert_eq!(msbt::structs::txt2::convert_char('a', be()), vec![0x00, 0x61]);
}

#[test]
fn converter_functions_match_the_tokenizer() {
    assert_eq!(
        convert_control_code("[RawCmd 3.7 0A_FF]", le()).unwrap(),
        TXT2::parse_string("[RawCmd 3.7 0A_FF]", le()).unwrap()
    );
    assert_eq!(
        convert_raw_code("3.7", "0A_FF", le()).unwrap(),
        vec![0x0E, 0x00, 0x03, 0x00, 0x07, 0x00, 0x02, 0x00, 0x0A, 0xFF]
    );
    assert_eq!(
        convert_colour_code("#FF0000FF", le()).unwrap(),
        vec![0x0E, 0x00, 0x00, 0x00, 0x03, 0x00, 0x04, 0x00, 0xFF, 0x00, 0x00, 0xFF]
    );
    assert_eq!(
        convert_size_code("0064", le()).unwrap(),
        vec![0x0E, 0x00, 0x00, 0x00, 0x02, 0x00, 0x02, 0x00, 0x00, 0x64]
    );
    assert_eq!(
        convert_control_code_close("[/RawCmd 3.7]", le()).unwrap(),
        vec![0x0F, 0x00, 0x03, 0x00, 0x07, 0x00]
    );
}
