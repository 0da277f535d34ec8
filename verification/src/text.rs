//! Small text helpers shared by the other modules.

use vstd::prelude::*;

verus! {

/// `String::push` appends one character to the end of the string.
pub assume_specification[ String::push ](s: &mut String, ch: char)
    ensures
        final(s)@ == old(s)@.push(ch),
;

/// Whether `text` reads exactly as `literal`.
pub fn text_is(text: &String, literal: &str) -> (same: bool)
    ensures
        same == (text@ == literal@),
{
    let other = String::from_str(literal);
    *text == other
}

/// The decimal digits of `n`, most significant first, without leading zeros.
pub open spec fn decimal_text(n: nat) -> Seq<char>
    decreases n,
{
    if n < 10 {
        seq![decimal_digit(n as int)]
    } else {
        decimal_text(n / 10).push(decimal_digit((n % 10) as int))
    }
}

/// The character for a single decimal digit.
pub open spec fn decimal_digit(d: int) -> char {
    if d == 0 {
        '0'
    } else if d == 1 {
        '1'
    } else if d == 2 {
        '2'
    } else if d == 3 {
        '3'
    } else if d == 4 {
        '4'
    } else if d == 5 {
        '5'
    } else if d == 6 {
        '6'
    } else if d == 7 {
        '7'
    } else if d == 8 {
        '8'
    } else {
        '9'
    }
}

/// Executable counterpart of [`decimal_digit`].
pub fn decimal_digit_char(d: u8) -> (c: char)
    requires
        d < 10,
    ensures
        c == decimal_digit(d as int),
{
    if d == 0 {
        '0'
    } else if d == 1 {
        '1'
    } else if d == 2 {
        '2'
    } else if d == 3 {
        '3'
    } else if d == 4 {
        '4'
    } else if d == 5 {
        '5'
    } else if d == 6 {
        '6'
    } else if d == 7 {
        '7'
    } else if d == 8 {
        '8'
    } else {
        '9'
    }
}

/// Appends the decimal rendering of `n` to `out`.
pub fn push_decimal(out: &mut String, n: u128)
    ensures
        final(out)@ == old(out)@ + decimal_text(n as nat),
    decreases n,
{
    if n >= 10 {
        push_decimal(out, n / 10);
    }
    let d: u8 = (n % 10) as u8;
    out.push(decimal_digit_char(d));
    assert(final(out)@ =~= old(out)@ + decimal_text(n as nat));
}

/// The character that stands in for a NUL.
pub open spec fn nul_stand_in() -> char {
    '\u{FFFD}'
}

/// The text with U+FFFD in place of each NUL, and every other character
/// as it is.
pub open spec fn without_nul(text: Seq<char>) -> Seq<char> {
    Seq::new(
        text.len(),
        |i: int|
            if text[i] == '\0' {
                nul_stand_in()
            } else {
                text[i]
            },
    )
}

/// Makes a text fit to be handed over as a C string, which ends at its
/// first NUL: each NUL gives way to U+FFFD, and nothing else changes.
pub fn c_safe(text: String) -> (out: String)
    ensures
        out@ == without_nul(text@),
{
    broadcast use vstd::string::axiom_spec_iter;

    let mut out = String::new();
    assert(out@ =~= without_nul(text@).take(0));
    for c in it: text.as_str().chars()
        invariant
            it.seq() == text@,
            out@ == without_nul(text@).take(it.index() as int),
    {
        let ghost before = out@;
        if c == '\0' {
            out.push('\u{FFFD}');
        } else {
            out.push(c);
        }
        assert(out@ =~= without_nul(text@).take(it.index() + 1));
    }
    assert(without_nul(text@).take(text@.len() as int) =~= without_nul(text@));
    out
}

/// A text made safe holds no NUL, is as long as it was, and differs from
/// what it was only where that held a NUL.
pub proof fn lemma_c_safe(text: Seq<char>)
    ensures
        without_nul(text).len() == text.len(),
        forall|i: int| 0 <= i < text.len() ==> (#[trigger] without_nul(text)[i]) != '\0',
        forall|i: int| 0 <= i < text.len() && text[i] != '\0' ==> #[trigger] without_nul(text)[i]
            == text[i],
        (forall|i: int| 0 <= i < text.len() ==> text[i] != '\0') ==> without_nul(text) == text,
{
    if forall|i: int| 0 <= i < text.len() ==> text[i] != '\0' {
        assert(without_nul(text) =~= text);
    }
}

} // verus!
