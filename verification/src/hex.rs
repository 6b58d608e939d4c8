//! RGB triples and their `#RRGGBB` text form.

use vstd::prelude::*;

verus! {

/// A colour with one byte per channel.
#[derive(Clone, Copy, Debug, PartialEq, Eq, Structural)]
pub struct Rgb {
    pub r: u8,
    pub g: u8,
    pub b: u8,
}

/// The upper-case hexadecimal digit that stands for `n`, for `n` below sixteen.
pub open spec fn hex_digit(n: int) -> char {
    if n == 0 {
        '0'
    } else if n == 1 {
        '1'
    } else if n == 2 {
        '2'
    } else if n == 3 {
        '3'
    } else if n == 4 {
        '4'
    } else if n == 5 {
        '5'
    } else if n == 6 {
        '6'
    } else if n == 7 {
        '7'
    } else if n == 8 {
        '8'
    } else if n == 9 {
        '9'
    } else if n == 10 {
        'A'
    } else if n == 11 {
        'B'
    } else if n == 12 {
        'C'
    } else if n == 13 {
        'D'
    } else if n == 14 {
        'E'
    } else {
        'F'
    }
}

/// Whether `c` is one of `0`..`9` or `A`..`F`.
pub open spec fn is_upper_hex(c: char) -> bool {
    c == '0' || c == '1' || c == '2' || c == '3' || c == '4' || c == '5' || c == '6' || c == '7'
        || c == '8' || c == '9' || c == 'A' || c == 'B' || c == 'C' || c == 'D' || c == 'E'
        || c == 'F'
}

/// Whether `s` has the shape `#RRGGBB`: a hash sign, then six upper-case
/// hexadecimal digits.
pub open spec fn is_hex_color(s: Seq<char>) -> bool {
    &&& s.len() == 7
    &&& s[0] == '#'
    &&& forall|i: int| 1 <= i < 7 ==> is_upper_hex(#[trigger] s[i])
}

/// The text of a colour: `#`, then each channel as two upper-case
/// hexadecimal digits, high digit first, in the order red, green, blue.
pub open spec fn hex_color(c: Rgb) -> Seq<char> {
    seq![
        '#',
        hex_digit(c.r as int / 16),
        hex_digit(c.r as int % 16),
        hex_digit(c.g as int / 16),
        hex_digit(c.g as int % 16),
        hex_digit(c.b as int / 16),
        hex_digit(c.b as int % 16),
    ]
}

/// Every colour's text has the shape `#RRGGBB`.
pub proof fn lemma_hex_color_well_formed(c: Rgb)
    ensures
        is_hex_color(hex_color(c)),
{
    let s = hex_color(c);
    assert(s.len() == 7);
    assert forall|i: int| 1 <= i < 7 implies is_upper_hex(#[trigger] s[i]) by {
        assert(forall|n: int| is_upper_hex(#[trigger] hex_digit(n)));
    }
}

/// Appends one character with `String::push`: the text afterwards is the
/// text before, followed by `c`.
#[verifier::external_body]
fn push_char(s: &mut String, c: char)
    ensures
        final(s)@ == old(s)@.push(c),
{
    s.push(c);
}

/// The hexadecimal digit for a value below sixteen.
fn digit(n: u8) -> (c: char)
    requires
        n < 16,
    ensures
        c == hex_digit(n as int),
{
    if n == 0 {
        '0'
    } else if n == 1 {
        '1'
    } else if n == 2 {
        '2'
    } else if n == 3 {
        '3'
    } else if n == 4 {
        '4'
    } else if n == 5 {
        '5'
    } else if n == 6 {
        '6'
    } else if n == 7 {
        '7'
    } else if n == 8 {
        '8'
    } else if n == 9 {
        '9'
    } else if n == 10 {
        'A'
    } else if n == 11 {
        'B'
    } else if n == 12 {
        'C'
    } else if n == 13 {
        'D'
    } else if n == 14 {
        'E'
    } else {
        'F'
    }
}

impl Rgb {
    /// The colour as `#RRGGBB` text.
    pub fn to_hex(&self) -> (hex: String)
        ensures
            hex@ == hex_color(*self),
            is_hex_color(hex@),
    {
        let mut out = String::new();
        push_char(&mut out, '#');
        push_char(&mut out, digit(self.r / 16));
        push_char(&mut out, digit(self.r % 16));
        push_char(&mut out, digit(self.g / 16));
        push_char(&mut out, digit(self.g % 16));
        push_char(&mut out, digit(self.b / 16));
        push_char(&mut out, digit(self.b % 16));
        proof {
            assert(out@ =~= hex_color(*self));
            lemma_hex_color_well_formed(*self);
        }
        out
    }
}

} // verus!
