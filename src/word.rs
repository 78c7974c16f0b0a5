use vstd::prelude::*;

verus! {

/// The largest value a word can hold.
pub const WORD_MAX: u16 = 32767;

/// Arithmetic on words is taken modulo this number.
pub const MODULUS: u32 = 32768;

/// The first field value that names a register rather than a literal.
pub const REG_BASE: u16 = 32768;

/// The number of registers.
pub const NUM_REGS: usize = 8;

/// A word is a 15-bit unsigned value.
pub open spec fn is_word(x: int) -> bool {
    0 <= x <= 32767
}

/// A raw field in `[32768, 32775]` names one of the eight registers.
pub open spec fn is_reg_field(x: u16) -> bool {
    32768 <= x <= 32775
}

/// The register that a register field names.
pub open spec fn reg_index(x: u16) -> int {
    x - 32768
}

/// `(b + c) mod 32768`, computed without overflow.
pub fn add_words(b: u16, c: u16) -> (r: u16)
    requires
        is_word(b as int),
        is_word(c as int),
    ensures
        r as int == (b + c) % 32768,
        is_word(r as int),
{
    ((b as u32 + c as u32) % MODULUS) as u16
}

/// `(b * c) mod 32768`, computed in 32 bits without overflow.
pub fn mult_words(b: u16, c: u16) -> (r: u16)
    requires
        is_word(b as int),
        is_word(c as int),
    ensures
        r as int == (b * c) % 32768,
        is_word(r as int),
{
    assert(b as u32 * c as u32 <= 32767 * 32767) by (nonlinear_arith)
        requires
            b <= 32767,
            c <= 32767,
    ;
    ((b as u32 * c as u32) % MODULUS) as u16
}

/// The remainder of `b` divided by `c`; a zero divisor gives `None`.
pub fn mod_words(b: u16, c: u16) -> (r: Option<u16>)
    requires
        is_word(b as int),
        is_word(c as int),
    ensures
        c == 0 <==> r is None,
        c != 0 ==> r == Some((b % c) as u16),
        r matches Some(v) ==> is_word(v as int),
{
    if c == 0 {
        None
    } else {
        Some(b % c)
    }
}

/// Bitwise and of two words, which is again a word.
pub fn and_words(b: u16, c: u16) -> (r: u16)
    requires
        is_word(b as int),
        is_word(c as int),
    ensures
        r == b & c,
        is_word(r as int),
{
    assert(b & c <= b) by (bit_vector);
    b & c
}

/// Bitwise or of two words, which is again a word.
pub fn or_words(b: u16, c: u16) -> (r: u16)
    requires
        is_word(b as int),
        is_word(c as int),
    ensures
        r == b | c,
        is_word(r as int),
{
    assert((b | c) <= 32767) by (bit_vector)
        requires
            b <= 32767,
            c <= 32767,
    ;
    b | c
}

/// The 15-bit complement of a word: every one of its 15 bits flipped.
pub fn not_word(b: u16) -> (r: u16)
    requires
        is_word(b as int),
    ensures
        r as int == 32767 - b,
{
    assert(!b & 0x7fff == 32767 - b) by (bit_vector)
        requires
            b <= 32767,
    ;
    !b & 0x7fff
}

} // verus!
