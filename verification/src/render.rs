//! Rendering of single bytes: two-digit lowercase hexadecimal tokens and
//! one-character text glyphs, each wrapped in the ANSI color sequences of
//! the byte's category.
//!
//! Colorization is a pure function: the category-to-color table is fixed and
//! color is always emitted, independent of any terminal-capability detection.

use crate::classify::Category;
use crate::classify::classify;
use crate::classify::spec_classify;
use vstd::prelude::*;
use vstd::string::StrSliceExecFns;
use vstd::string::StringExecFns;

verus! {

/// The lowercase hexadecimal digit for a value below sixteen.
pub open spec fn spec_hex_digit(n: int) -> char {
    if n == 0 {
        '0'
    } else if n == 1 {
        '1'
    } else if n == 2 {
        '2'
    } else if n == 3 {
        '3'
    } else if n == 4 {
        '4'
    } else if n == 5 {
        '5'
    } else if n == 6 {
        '6'
    } else if n == 7 {
        '7'
    } else if n == 8 {
        '8'
    } else if n == 9 {
        '9'
    } else if n == 10 {
        'a'
    } else if n == 11 {
        'b'
    } else if n == 12 {
        'c'
    } else if n == 13 {
        'd'
    } else if n == 14 {
        'e'
    } else {
        'f'
    }
}

/// The numeric value of a lowercase hexadecimal digit; sixteen for any
/// character that is no such digit.
pub open spec fn spec_hex_digit_val(c: char) -> int {
    if c == '0' {
        0
    } else if c == '1' {
        1
    } else if c == '2' {
        2
    } else if c == '3' {
        3
    } else if c == '4' {
        4
    } else if c == '5' {
        5
    } else if c == '6' {
        6
    } else if c == '7' {
        7
    } else if c == '8' {
        8
    } else if c == '9' {
        9
    } else if c == 'a' {
        10
    } else if c == 'b' {
        11
    } else if c == 'c' {
        12
    } else if c == 'd' {
        13
    } else if c == 'e' {
        14
    } else if c == 'f' {
        15
    } else {
        16
    }
}

/// The two-character lowercase hexadecimal encoding of a byte.
pub open spec fn spec_hex_pair(b: u8) -> Seq<char> {
    seq![spec_hex_digit(b as int / 16), spec_hex_digit(b as int % 16)]
}

/// The ANSI SGR color code of a category: green, yellow, white, blue, red.
pub open spec fn spec_color_code(c: Category) -> Seq<char> {
    match c {
        Category::Printable => seq!['3', '2'],
        Category::WhitespaceControl => seq!['3', '3'],
        Category::Null => seq!['3', '7'],
        Category::HighSentinel => seq!['3', '4'],
        Category::Other => seq!['3', '1'],
    }
}

/// The ANSI escape sequence that switches to a category's color.
pub open spec fn spec_color_prefix(c: Category) -> Seq<char> {
    seq!['\u{1b}', '['] + spec_color_code(c) + seq!['m']
}

/// The ANSI escape sequence that resets all display attributes.
pub open spec fn spec_color_reset() -> Seq<char> {
    seq!['\u{1b}', '[', '0', 'm']
}

/// A piece of text wrapped in a category's color sequence and the reset
/// sequence.
pub open spec fn spec_colorize(s: Seq<char>, c: Category) -> Seq<char> {
    spec_color_prefix(c) + s + spec_color_reset()
}

/// The text-column glyph of a byte: a printable byte renders as its own
/// character, every other byte as a substitution dot.
pub open spec fn spec_glyph(b: u8) -> char {
    if 31 <= b && b <= 126 {
        b as char
    } else {
        '.'
    }
}

/// The colored hexadecimal token of a byte.
pub open spec fn spec_color_hex(b: u8) -> Seq<char> {
    spec_colorize(spec_hex_pair(b), spec_classify(b))
}

/// The colored text glyph of a byte.
pub open spec fn spec_color_text(b: u8) -> Seq<char> {
    spec_colorize(seq![spec_glyph(b)], spec_classify(b))
}

/// The hexadecimal pair of a byte consists of two lowercase hexadecimal
/// digits and decodes back to exactly that byte, for every byte value.
pub proof fn lemma_hex_pair_exact(b: u8)
    ensures
        spec_hex_pair(b).len() == 2,
        spec_hex_digit_val(spec_hex_pair(b)[0]) < 16,
        spec_hex_digit_val(spec_hex_pair(b)[1]) < 16,
        spec_hex_digit_val(spec_hex_pair(b)[0]) * 16 + spec_hex_digit_val(spec_hex_pair(b)[1])
            == b,
{
}

/// The lowercase hexadecimal digit of a value below sixteen, as a string of
/// one character.
pub fn hex_digit_str(n: u8) -> (s: &'static str)
    requires
        n < 16,
    ensures
        s@ == seq![spec_hex_digit(n as int)],
{
    let digits = "0123456789abcdef";
    proof {
        reveal_strlit("0123456789abcdef");
    }
    let s = digits.substring_ascii(n as usize, n as usize + 1);
    proof {
        assert(s@ =~= seq![spec_hex_digit(n as int)]);
    }
    s
}

/// The escape sequence that switches to a category's color, as a string.
fn color_prefix_str(c: Category) -> (s: &'static str)
    ensures
        s@ == spec_color_prefix(c),
{
    match c {
        Category::Printable => {
            proof {
                reveal_strlit("\u{1b}[32m");
                assert("\u{1b}[32m"@ =~= spec_color_prefix(Category::Printable));
            }
            "\u{1b}[32m"
        },
        Category::WhitespaceControl => {
            proof {
                reveal_strlit("\u{1b}[33m");
                assert("\u{1b}[33m"@ =~= spec_color_prefix(Category::WhitespaceControl));
            }
            "\u{1b}[33m"
        },
        Category::Null => {
            proof {
                reveal_strlit("\u{1b}[37m");
                assert("\u{1b}[37m"@ =~= spec_color_prefix(Category::Null));
            }
            "\u{1b}[37m"
        },
        Category::HighSentinel => {
            proof {
                reveal_strlit("\u{1b}[34m");
                assert("\u{1b}[34m"@ =~= spec_color_prefix(Category::HighSentinel));
            }
            "\u{1b}[34m"
        },
        Category::Other => {
            proof {
                reveal_strlit("\u{1b}[31m");
                assert("\u{1b}[31m"@ =~= spec_color_prefix(Category::Other));
            }
            "\u{1b}[31m"
        },
    }
}

/// The escape sequence that resets all display attributes, as a string.
fn color_reset_str() -> (s: &'static str)
    ensures
        s@ == spec_color_reset(),
{
    proof {
        reveal_strlit("\u{1b}[0m");
        assert("\u{1b}[0m"@ =~= spec_color_reset());
    }
    "\u{1b}[0m"
}

/// Wrap a piece of text in the color sequence of a category and the reset
/// sequence. Pure: the same text and category always give the same string.
pub fn colorize(text: &str, c: Category) -> (r: String)
    ensures
        r@ == spec_colorize(text@, c),
{
    let mut r = String::new();
    r.append(color_prefix_str(c));
    r.append(text);
    r.append(color_reset_str());
    proof {
        assert(r@ =~= spec_colorize(text@, c));
    }
    r
}

/// The text glyph of a byte as a string of one character: the byte's own
/// character if it is printable, else a dot.
fn glyph_str(b: u8) -> (s: &'static str)
    ensures
        s@ == seq![spec_glyph(b)],
{
    if 31 <= b && b < 127 {
        let table =
            "\u{1f} !\"#$%&'()*+,-./0123456789:;<=>?@ABCDEFGHIJKLMNOPQRSTUVWXYZ[\\]^_`abcdefghijklmnopqrstuvwxyz{|}~";
        proof {
            reveal_strlit(
                "\u{1f} !\"#$%&'()*+,-./0123456789:;<=>?@ABCDEFGHIJKLMNOPQRSTUVWXYZ[\\]^_`abcdefghijklmnopqrstuvwxyz{|}~",
            );
        }
        let i = (b - 31) as usize;
        let s = table.substring_ascii(i, i + 1);
        proof {
            assert(s@ =~= seq![spec_glyph(b)]);
        }
        s
    } else {
        proof {
            reveal_strlit(".");
            assert("."@ =~= seq![spec_glyph(b)]);
        }
        "."
    }
}

/// Turn a byte into its colored, two-digit lowercase hexadecimal
/// representation.
pub fn color_hex(byte: u8) -> (r: String)
    ensures
        r@ == spec_color_hex(byte),
{
    let mut pair = String::new();
    pair.append(hex_digit_str(byte / 16));
    pair.append(hex_digit_str(byte % 16));
    proof {
        assert(pair@ =~= spec_hex_pair(byte));
    }
    colorize(pair.as_str(), classify(byte))
}

/// Turn a byte into its colored, one-character text representation.
pub fn color_text(byte: u8) -> (r: String)
    ensures
        r@ == spec_color_text(byte),
{
    colorize(glyph_str(byte), classify(byte))
}

} // verus!
