use toml_lsp_core::mapper::Mapper;
use toml_lsp_core::mapper::Position;

#[test]
fn round_trip_every_offset() {
    let text = "a = 1\nb = [1,2,]";
    let m = Mapper::new(text);
    let n = text.chars().count();
    for o in 0..=n {
        let p = m.offset_to_position(o);
        assert_eq!(m.position_to_offset(p), o);
    }
}

#[test]
fn round_trip_multibyte() {
    let text = "\u{e9}\u{1F600}x\nb";
    let m = Mapper::new(text);
    let n = text.chars().count();
    assert_eq!(n, 5);
    for o in 0..=n {
        let p = m.offset_to_position(o);
        assert_eq!(m.position_to_offset(p), o);
    }
}

#[test]
fn utf16_columns() {
    // One two-unit character: the column after it advances by two.
    let text = "\u{e9}\u{1F600}x\nb";
    let m = Mapper::new(text);
    let p = m.offset_to_position(2);
    assert_eq!(p, Position { line: 0, character: 3 });
    assert_eq!(m.position_to_offset(Position { line: 0, character: 3 }), 2);
    let p = m.offset_to_position(4);
    assert_eq!(p, Position { line: 1, character: 0 });
}

#[test]
fn clamping() {
    let text = "ab\ncd";
    let m = Mapper::new(text);
    // Offset past the end clamps to the end position.
    assert_eq!(m.offset_to_position(99), Position { line: 1, character: 2 });
    // Column past the line's end clamps to the line break.
    assert_eq!(m.position_to_offset(Position { line: 0, character: 99 }), 2);
    // Line past the last clamps to the end of the text.
    assert_eq!(m.position_to_offset(Position { line: 9, character: 0 }), 5);
}

#[test]
fn whole_document() {
    let text = "a = 1\nb = 2\n";
    let m = Mapper::new(text);
    assert_eq!(m.whole_document_range(), (0, 12));
    let r = m.all_range();
    assert_eq!(r.start, Position { line: 0, character: 0 });
    assert_eq!(r.end, Position { line: 2, character: 0 });
    assert_eq!(m.len(), 12);
}

#[test]
fn byte_offsets_of_multibyte_text() {
    // 'é' is two bytes, so byte offset 2 is the second character.
    let text = "\u{e9}x";
    let m = Mapper::new(text);
    assert_eq!(m.char_offset_of_byte(0), 0);
    assert_eq!(m.char_offset_of_byte(2), 1);
    assert_eq!(m.char_offset_of_byte(3), 2);
    assert_eq!(m.char_offset_of_byte(99), 2);
}
