use miniterm::character::{
    cells_as_bytes, Character, CELL_BYTES, CELL_WORDS, CHANNEL_MAX, CHANNEL_MIN,
};

fn words_in_memory(words: &[u32]) -> Vec<u8> {
    let mut bytes: Vec<u8> = Vec::new();
    for word in words {
        bytes.extend_from_slice(&word.to_ne_bytes());
    }
    bytes
}

#[test]
fn channel_constants_are_the_bits_of_zero_and_one() {
    assert_eq!(CHANNEL_MIN, 0.0f32.to_bits());
    assert_eq!(CHANNEL_MAX, 1.0f32.to_bits());
}

#[test]
fn a_cell_is_eight_words_of_four_bytes() {
    assert_eq!(CELL_WORDS, 8);
    assert_eq!(CELL_BYTES, 32);
    assert_eq!(CELL_WORDS * 4, CELL_BYTES);
}

#[test]
fn new_keeps_colours_and_code_and_zeroes_the_padding() {
    let cell = Character::new([1, 2, 3], [4, 5, 6], 0x41);
    assert_eq!(cell.bg, [1, 2, 3]);
    assert_eq!(cell.fg, [4, 5, 6]);
    assert_eq!(cell.code, 0x41);
    assert_eq!(cell._padding, 0);
}

#[test]
fn glyph_holds_the_code_point_of_the_character() {
    let cell = Character::glyph([0, 0, 0], [7, 8, 9], 'é');
    assert_eq!(cell, Character::new([0, 0, 0], [7, 8, 9], 0xe9));
    let wide = Character::glyph([0, 0, 0], [7, 8, 9], '\u{1F600}');
    assert_eq!(wide.code, 0x1f600);
}

#[test]
fn push_words_appends_the_fields_in_layout_order() {
    let cell = Character::new([1, 2, 3], [4, 5, 6], 7);
    let mut out: Vec<u32> = vec![99];
    cell.push_words(&mut out);
    assert_eq!(out, vec![99, 1, 2, 3, 0, 4, 5, 6, 7]);
}

#[test]
fn bytes_of_no_cells_are_empty() {
    assert_eq!(cells_as_bytes(&[]), Vec::<u8>::new());
}

#[test]
fn bytes_of_cells_are_their_words_in_memory() {
    let first = Character::new([0x0102_0304, 2, 3], [4, 5, 6], 0x41);
    let second = Character::new([11, 12, 13], [14, 15, 16], 0x1f600);
    let bytes = cells_as_bytes(&[first, second]);
    let expected = words_in_memory(&[
        0x0102_0304, 2, 3, 0, 4, 5, 6, 0x41, 11, 12, 13, 0, 14, 15, 16, 0x1f600,
    ]);
    assert_eq!(bytes.len(), 2 * CELL_BYTES);
    assert_eq!(bytes, expected);
}

#[test]
fn bytes_of_a_word_follow_the_byte_order_of_the_machine() {
    let cell = Character::new([0x0102_0304, 0, 0], [0, 0, 0], 0);
    let bytes = cells_as_bytes(&[cell]);
    if 1u32.to_ne_bytes()[0] == 1 {
        assert_eq!(&bytes[0..4], &[4u8, 3, 2, 1]);
    } else {
        assert_eq!(&bytes[0..4], &[1u8, 2, 3, 4]);
    }
}

#[test]
fn bytes_are_not_the_words_handed_back() {
    let cell = Character::new([300, 0, 0], [0, 0, 0], 0);
    let bytes = cells_as_bytes(&[cell]);
    let low: u8 = 300u32.to_ne_bytes()[0];
    assert_eq!(bytes[0], low);
    assert_eq!(bytes.len(), 32);
}
