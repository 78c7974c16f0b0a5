use synacor_vm::word::{add_words, and_words, mod_words, mult_words, not_word, or_words};

#[test]
fn add_wraps_modulo() {
    assert_eq!(add_words(4, 6), 10);
    assert_eq!(add_words(32758, 15), 5);
    assert_eq!(add_words(32767, 32767), 32766);
    assert_eq!(add_words(0, 0), 0);
}

#[test]
fn mult_wraps_modulo() {
    assert_eq!(mult_words(3, 7), 21);
    assert_eq!(mult_words(32767, 32767), 1);
    assert_eq!(mult_words(256, 256), 0);
    assert_eq!(mult_words(200, 200), 7232);
}

#[test]
fn not_is_fifteen_bit_complement() {
    assert_eq!(not_word(0), 32767);
    assert_eq!(not_word(32767), 0);
    assert_eq!(not_word(1), 32766);
    for b in [5u16, 100, 12345, 16384] {
        assert_eq!(not_word(b), 32767 - b);
    }
}

#[test]
fn mod_is_remainder_and_zero_divisor_is_none() {
    assert_eq!(mod_words(17, 5), Some(2));
    assert_eq!(mod_words(4, 9), Some(4));
    assert_eq!(mod_words(32767, 1), Some(0));
    assert_eq!(mod_words(7, 0), None);
}

#[test]
fn and_or_bitwise() {
    assert_eq!(and_words(0b1100, 0b1010), 0b1000);
    assert_eq!(or_words(0b1100, 0b1010), 0b1110);
    assert_eq!(or_words(32767, 1), 32767);
}
