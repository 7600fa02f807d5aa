//! Lower-case hexadecimal text.
use vstd::prelude::*;

verus! {

/// The digit that stands for `value` in base sixteen.
pub open spec fn hex_digit(value: int) -> char {
    if value < 10 {
        ('0' as int + value) as char
    } else {
        ('a' as int + value - 10) as char
    }
}

/// Whether `c` is a lower-case hexadecimal digit.
pub open spec fn is_hex_digit(c: char) -> bool {
    '0' <= c <= '9' || 'a' <= c <= 'f'
}

/// The text of `bytes`: two digits for each byte, the high half first.
pub open spec fn hex_text(bytes: Seq<u8>) -> Seq<char> {
    Seq::new(
        2 * bytes.len(),
        |i: int|
            if i % 2 == 0 {
                hex_digit(bytes[i / 2] as int / 16)
            } else {
                hex_digit(bytes[i / 2] as int % 16)
            },
    )
}

/// Appends the digit that stands for `value`.
fn push_digit(text: &mut String, value: u8)
    requires
        value < 16,
    ensures
        final(text)@ == old(text)@.push(hex_digit(value as int)),
{
    let digits = "0123456789abcdef";
    proof {
        reveal_strlit("0123456789abcdef");
        vstd::utf8::is_ascii_chars_nat_bound(digits@);
    }
    let digit = digits.substring_ascii(value as usize, value as usize + 1);
    assert(digit@ =~= seq![hex_digit(value as int)]);
    text.append(digit);
    assert(text@ =~= old(text)@.push(hex_digit(value as int)));
}

/// Writes `bytes` in lower-case hexadecimal.
pub fn lower_hex(bytes: &[u8]) -> (text: String)
    ensures
        text@ == hex_text(bytes@),
{
    let mut text = String::new();
    for i in 0..bytes.len()
        invariant
            text@ =~= hex_text(bytes@).take(2 * i),
    {
        push_digit(&mut text, bytes[i] / 16);
        push_digit(&mut text, bytes[i] % 16);
    }
    text
}

/// The text of a byte string is twice as long, and holds hexadecimal digits
/// alone.
pub proof fn lemma_hex_text_digits(bytes: Seq<u8>)
    ensures
        hex_text(bytes).len() == 2 * bytes.len(),
        forall|i: int|
            0 <= i < hex_text(bytes).len() ==> is_hex_digit(#[trigger] hex_text(bytes)[i]),
{
}

/// The two characters at the place of a byte are the values of its high and its
/// low half, counted from `0`, and from `a` where they are ten or more.
pub proof fn lemma_hex_text_halves(bytes: Seq<u8>, i: int)
    requires
        0 <= i < bytes.len(),
    ensures
        hex_text(bytes)[2 * i] as int == bytes[i] as int / 16 + (if bytes[i] < 160 {
            '0' as int
        } else {
            'a' as int - 10
        }),
        hex_text(bytes)[2 * i + 1] as int == bytes[i] as int % 16 + (if bytes[i] % 16 < 10 {
            '0' as int
        } else {
            'a' as int - 10
        }),
{
}

/// The text of two byte strings put together is the text of the first, then that
/// of the second.
pub proof fn lemma_hex_text_append(first: Seq<u8>, second: Seq<u8>)
    ensures
        hex_text(first + second) == hex_text(first) + hex_text(second),
{
    assert(hex_text(first + second) =~= hex_text(first) + hex_text(second));
}

} // verus!
