use kidl::position::{
    byte_to_position, position_in_text, position_to_byte, position_to_char, Position,
};
use ropey::Rope;

fn at(line: u32, character: u32) -> Position {
    Position { line, character }
}

#[test]
fn a_position_behind_an_astral_character_maps_behind_its_bytes() {
    let rope = Rope::from_str("a\u{1F600}bc");
    // 'a' is one unit, the emoji two: unit 4 is 'c', behind 'a' (1 byte),
    // the emoji (4 bytes) and 'b' (1 byte).
    assert_eq!(position_to_char(&rope, at(0, 4)), 3);
    assert_eq!(position_to_byte(&rope, at(0, 4)), 6);
    assert_eq!(position_to_byte(&rope, at(0, 3)), 5);
    // A unit in the middle of the emoji belongs to the emoji.
    assert_eq!(position_to_char(&rope, at(0, 2)), 1);
    assert_eq!(position_to_byte(&rope, at(0, 2)), 1);
    assert_eq!(position_to_byte(&rope, at(0, 1)), 1);
    assert_eq!(position_to_byte(&rope, at(0, 5)), 7);
}

#[test]
fn positions_count_lines_and_units() {
    let rope = Rope::from_str("ab\n\u{e9}\u{1F600}x\r\ny");
    assert_eq!(position_to_byte(&rope, at(0, 0)), 0);
    assert_eq!(position_to_byte(&rope, at(1, 0)), 3);
    assert_eq!(position_to_byte(&rope, at(1, 1)), 5);
    assert_eq!(position_to_byte(&rope, at(1, 3)), 9);
    assert_eq!(position_to_byte(&rope, at(2, 0)), 12);
    assert_eq!(position_to_byte(&rope, at(2, 1)), 13);
    assert_eq!(byte_to_position(&rope, 0), at(0, 0));
    assert_eq!(byte_to_position(&rope, 2), at(0, 2));
    assert_eq!(byte_to_position(&rope, 3), at(1, 0));
    assert_eq!(byte_to_position(&rope, 5), at(1, 1));
    assert_eq!(byte_to_position(&rope, 9), at(1, 3));
    // Between the carriage return and the line feed the line has not ended.
    assert_eq!(byte_to_position(&rope, 11), at(1, 5));
    assert_eq!(byte_to_position(&rope, 12), at(2, 0));
    assert_eq!(byte_to_position(&rope, 13), at(2, 1));
    // A byte in the middle of a character belongs to that character.
    assert_eq!(byte_to_position(&rope, 6), at(1, 1));
}

#[test]
fn every_boundary_comes_back_from_its_position() {
    for text in [
        "",
        "plain",
        "a\nb\n",
        "\n\n\n",
        "crlf\r\nlone\rcr\nend",
        "\u{1F600}\u{1F600}\n\u{e9}\u{4e2d}\u{1F600}",
        "nel\u{85}ls\u{2028}ps\u{2029}vt\u{0B}ff\u{0C}x",
        "struct Foo { a: Int, b?: String }\n// \u{1F600}\n",
    ] {
        let rope = Rope::from_str(text);
        for (byte, _) in text.char_indices().chain(std::iter::once((text.len(), ' '))) {
            let position = byte_to_position(&rope, byte);
            assert!(position_in_text(&rope, position));
            assert_eq!(position_to_byte(&rope, position), byte);
        }
    }
}

#[test]
fn positions_outside_the_text_are_told_apart() {
    let rope = Rope::from_str("ab\ncd");
    assert!(position_in_text(&rope, at(0, 0)));
    assert!(position_in_text(&rope, at(1, 2)));
    assert!(!position_in_text(&rope, at(1, 3)));
    // The line behind the last starts at the end of the text.
    assert!(position_in_text(&rope, at(2, 0)));
    assert!(!position_in_text(&rope, at(2, 1)));
    assert!(!position_in_text(&rope, at(3, 0)));
    // A column behind the end of its line is a place on a later line.
    assert!(position_in_text(&rope, at(0, 5)));
    assert_eq!(position_to_byte(&rope, at(0, 5)), 5);
    assert!(!position_in_text(&rope, at(0, 6)));
}

#[test]
fn every_kind_of_line_break_ends_a_line() {
    let text = "a\u{85}b\u{2028}c\u{2029}d\u{0B}e\u{0C}f\rg\r\nh\n";
    let rope = Rope::from_str(text);
    for (line, letter) in "abcdefgh".chars().enumerate() {
        let byte = text.find(letter).unwrap();
        assert_eq!(byte_to_position(&rope, byte), at(line as u32, 0));
        assert_eq!(position_to_byte(&rope, at(line as u32, 0)), byte);
        assert_eq!(byte_to_position(&rope, byte + 1), at(line as u32, 1));
    }
    // The text ends with a line break: the last line is empty.
    assert_eq!(byte_to_position(&rope, text.len()), at(8, 0));
    assert_eq!(position_to_byte(&rope, at(8, 0)), text.len());
    assert!(position_in_text(&rope, at(9, 0)));
    assert_eq!(position_to_byte(&rope, at(9, 0)), text.len());
    assert!(!position_in_text(&rope, at(10, 0)));
}
