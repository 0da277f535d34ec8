//! Attribute tags and their canonical `(GGGG,EEEE)` rendering.

use vstd::prelude::*;

verus! {

/// A DICOM attribute tag: a group number and an element number.
#[derive(Clone, Copy, Debug, PartialEq, Eq, Structural)]
pub struct Tag {
    pub group: u16,
    pub element: u16,
}

/// The tag of the pixel data attribute, `(7FE0,0010)`.
pub open spec fn pixel_data_tag() -> Tag {
    Tag { group: 0x7FE0, element: 0x0010 }
}

/// The group number reserved for file meta information.
pub const META_GROUP: u16 = 0x0002;

/// The character for a single hexadecimal digit, in upper case.
pub open spec fn hex_digit(d: int) -> char {
    if d == 0 {
        '0'
    } else if d == 1 {
        '1'
    } else if d == 2 {
        '2'
    } else if d == 3 {
        '3'
    } else if d == 4 {
        '4'
    } else if d == 5 {
        '5'
    } else if d == 6 {
        '6'
    } else if d == 7 {
        '7'
    } else if d == 8 {
        '8'
    } else if d == 9 {
        '9'
    } else if d == 10 {
        'A'
    } else if d == 11 {
        'B'
    } else if d == 12 {
        'C'
    } else if d == 13 {
        'D'
    } else if d == 14 {
        'E'
    } else {
        'F'
    }
}

/// Whether `c` is one of `0`-`9` or `A`-`F`.
pub open spec fn is_upper_hex(c: char) -> bool {
    exists|d: int| 0 <= d < 16 && c == #[trigger] hex_digit(d)
}

/// The four upper-case hexadecimal digits of `v`, most significant first.
pub open spec fn hex4(v: u16) -> Seq<char> {
    seq![
        hex_digit(v as int / 4096),
        hex_digit((v as int / 256) % 16),
        hex_digit((v as int / 16) % 16),
        hex_digit(v as int % 16),
    ]
}

/// The canonical text of a tag: `(GGGG,EEEE)`.
pub open spec fn tag_text(tag: Tag) -> Seq<char> {
    seq!['('] + hex4(tag.group) + seq![','] + hex4(tag.element) + seq![')']
}

/// Executable counterpart of [`hex_digit`].
pub fn hex_digit_char(d: u16) -> (c: char)
    requires
        d < 16,
    ensures
        c == hex_digit(d as int),
{
    if d == 0 {
        '0'
    } else if d == 1 {
        '1'
    } else if d == 2 {
        '2'
    } else if d == 3 {
        '3'
    } else if d == 4 {
        '4'
    } else if d == 5 {
        '5'
    } else if d == 6 {
        '6'
    } else if d == 7 {
        '7'
    } else if d == 8 {
        '8'
    } else if d == 9 {
        '9'
    } else if d == 10 {
        'A'
    } else if d == 11 {
        'B'
    } else if d == 12 {
        'C'
    } else if d == 13 {
        'D'
    } else if d == 14 {
        'E'
    } else {
        'F'
    }
}

/// Appends the four hexadecimal digits of `v` to `out`.
pub fn push_hex4(out: &mut String, v: u16)
    ensures
        final(out)@ == old(out)@ + hex4(v),
{
    out.push(hex_digit_char(v / 4096));
    out.push(hex_digit_char((v / 256) % 16));
    out.push(hex_digit_char((v / 16) % 16));
    out.push(hex_digit_char(v % 16));
    assert(final(out)@ =~= old(out)@ + hex4(v));
}

/// Renders a tag as `(GGGG,EEEE)`, each component as four upper-case
/// hexadecimal digits.
pub fn format_tag_id(tag: Tag) -> (text: String)
    ensures
        text@ == tag_text(tag),
{
    let mut text = String::new();
    text.push('(');
    push_hex4(&mut text, tag.group);
    text.push(',');
    push_hex4(&mut text, tag.element);
    text.push(')');
    assert(text@ =~= tag_text(tag));
    text
}

/// Every rendered tag has eleven characters: an opening parenthesis, four
/// upper-case hexadecimal digits, a comma, four more such digits and a
/// closing parenthesis.
pub proof fn lemma_tag_text_shape(tag: Tag)
    ensures
        tag_text(tag).len() == 11,
        tag_text(tag)[0] == '(',
        tag_text(tag)[5] == ',',
        tag_text(tag)[10] == ')',
        forall|i: int| 1 <= i < 5 || 6 <= i < 10 ==> is_upper_hex(#[trigger] tag_text(tag)[i]),
{
    let t = tag_text(tag);
    let g = tag.group as int;
    let e = tag.element as int;
    assert(t[1] == hex_digit(g / 4096) && 0 <= g / 4096 < 16);
    assert(t[2] == hex_digit((g / 256) % 16));
    assert(t[3] == hex_digit((g / 16) % 16));
    assert(t[4] == hex_digit(g % 16));
    assert(t[6] == hex_digit(e / 4096) && 0 <= e / 4096 < 16);
    assert(t[7] == hex_digit((e / 256) % 16));
    assert(t[8] == hex_digit((e / 16) % 16));
    assert(t[9] == hex_digit(e % 16));
}

} // verus!
