//! The visible content of rendered output: what remains of a string once
//! every ANSI escape sequence is removed. The lemmas here state that the
//! row layout is alignment-stable: the hex column of every chunk, full or
//! under-full, strips to the same forty visible characters, while the text
//! column strips to exactly the glyphs of the bytes actually present.

use crate::classify::Category;
use crate::engine::spec_hex_cell;
use crate::engine::spec_hex_column;
use crate::engine::spec_hex_column_upto;
use crate::engine::spec_offset_hex;
use crate::engine::spec_row;
use crate::engine::spec_text_column;
use crate::engine::spec_text_column_upto;
use crate::render::spec_color_hex;
use crate::render::spec_color_prefix;
use crate::render::spec_color_reset;
use crate::render::spec_color_text;
use crate::render::spec_colorize;
use crate::render::spec_glyph;
use crate::render::spec_hex_digit;
use crate::render::spec_hex_pair;
use vstd::prelude::*;

verus! {

/// One step of a left-to-right scan for ANSI escape sequences: an escape
/// sequence starts at the escape character and runs up to and including the
/// next `m`.
pub open spec fn spec_escape_step(c: char, in_escape: bool) -> bool {
    if in_escape {
        c != 'm'
    } else {
        c == '\u{1b}'
    }
}

/// Whether a scan of `s` that starts inside an escape sequence if and only
/// if `in_escape` holds ends inside one.
pub open spec fn spec_escape_after(s: Seq<char>, in_escape: bool) -> bool
    decreases s.len(),
{
    if s.len() == 0 {
        in_escape
    } else {
        spec_escape_after(s.drop_first(), spec_escape_step(s.first(), in_escape))
    }
}

/// The characters of `s` that lie outside every ANSI escape sequence, for a
/// scan that starts inside one if and only if `in_escape` holds.
pub open spec fn spec_visible_from(s: Seq<char>, in_escape: bool) -> Seq<char>
    decreases s.len(),
{
    if s.len() == 0 {
        Seq::empty()
    } else if spec_escape_step(s.first(), in_escape) || in_escape {
        spec_visible_from(s.drop_first(), spec_escape_step(s.first(), in_escape))
    } else {
        seq![s.first()] + spec_visible_from(s.drop_first(), false)
    }
}

/// The visible characters of a rendered string: those outside every ANSI
/// escape sequence.
pub open spec fn spec_visible(s: Seq<char>) -> Seq<char> {
    spec_visible_from(s, false)
}

/// A scan of a concatenation scans the two parts in turn.
pub proof fn lemma_visible_concat(a: Seq<char>, b: Seq<char>, m: bool)
    ensures
        spec_visible_from(a + b, m) == spec_visible_from(a, m) + spec_visible_from(
            b,
            spec_escape_after(a, m),
        ),
        spec_escape_after(a + b, m) == spec_escape_after(b, spec_escape_after(a, m)),
    decreases a.len(),
{
    if a.len() == 0 {
        assert(a + b =~= b);
        assert(spec_visible_from(a, m) + spec_visible_from(b, m) =~= spec_visible_from(b, m));
    } else {
        let tail = a.drop_first();
        let m2 = spec_escape_step(a.first(), m);
        assert((a + b).first() == a.first());
        assert((a + b).drop_first() =~= tail + b);
        lemma_visible_concat(tail, b, m2);
        if !spec_escape_step(a.first(), m) && !m {
            assert(seq![a.first()] + (spec_visible_from(tail, m2) + spec_visible_from(
                b,
                spec_escape_after(tail, m2),
            )) =~= (seq![a.first()] + spec_visible_from(tail, m2)) + spec_visible_from(
                b,
                spec_escape_after(tail, m2),
            ));
        }
    }
}

/// A string without escape characters is wholly visible and leaves the scan
/// outside any escape sequence.
pub proof fn lemma_visible_plain(s: Seq<char>)
    requires
        forall|i: int| 0 <= i < s.len() ==> s[i] != '\u{1b}',
    ensures
        spec_visible_from(s, false) == s,
        spec_escape_after(s, false) == false,
    decreases s.len(),
{
    if s.len() == 0 {
        assert(spec_visible_from(s, false) =~= s);
    } else {
        lemma_visible_plain(s.drop_first());
        assert(seq![s.first()] + s.drop_first() =~= s);
    }
}

/// Inside an escape sequence, everything up to and including the closing
/// `m` is invisible, and the scan leaves the sequence at the `m`.
proof fn lemma_visible_in_escape(s: Seq<char>)
    requires
        s.len() >= 1,
        forall|i: int| 0 <= i < s.len() - 1 ==> s[i] != 'm',
        s.last() == 'm',
    ensures
        spec_visible_from(s, true) == Seq::<char>::empty(),
        spec_escape_after(s, true) == false,
    decreases s.len(),
{
    if s.len() == 1 {
        assert(s.first() == 'm');
        assert(s.drop_first().len() == 0);
        assert(spec_visible_from(s.drop_first(), false) =~= Seq::<char>::empty());
        assert(spec_escape_after(s.drop_first(), false) == false);
        assert(spec_visible_from(s, true) =~= Seq::<char>::empty());
    } else {
        assert(s.first() != 'm');
        let tail = s.drop_first();
        assert(tail.last() == s.last());
        assert(forall|i: int| 0 <= i < tail.len() - 1 ==> tail[i] == s[i + 1]);
        lemma_visible_in_escape(tail);
    }
}

/// A category's color-switching sequence is wholly invisible.
pub proof fn lemma_visible_prefix(c: Category)
    ensures
        spec_visible_from(spec_color_prefix(c), false) == Seq::<char>::empty(),
        spec_escape_after(spec_color_prefix(c), false) == false,
{
    let p = spec_color_prefix(c);
    assert(p.len() == 5);
    assert(p.first() == '\u{1b}');
    let tail = p.drop_first();
    assert(tail.last() == 'm');
    assert(forall|i: int| 0 <= i < tail.len() - 1 ==> tail[i] != 'm');
    lemma_visible_in_escape(tail);
}

/// The reset sequence is wholly invisible.
pub proof fn lemma_visible_reset()
    ensures
        spec_visible_from(spec_color_reset(), false) == Seq::<char>::empty(),
        spec_escape_after(spec_color_reset(), false) == false,
{
    let p = spec_color_reset();
    assert(p.first() == '\u{1b}');
    let tail = p.drop_first();
    assert(tail.last() == 'm');
    assert(forall|i: int| 0 <= i < tail.len() - 1 ==> tail[i] != 'm');
    lemma_visible_in_escape(tail);
}

/// Colorizing adds nothing visible: the visible content of a colorized
/// piece of escape-free text is exactly that text.
pub proof fn lemma_visible_colorize(s: Seq<char>, c: Category)
    requires
        forall|i: int| 0 <= i < s.len() ==> s[i] != '\u{1b}',
    ensures
        spec_visible(spec_colorize(s, c)) == s,
        spec_escape_after(spec_colorize(s, c), false) == false,
{
    let p = spec_color_prefix(c);
    let r = spec_color_reset();
    lemma_visible_concat(p + s, r, false);
    lemma_visible_concat(p, s, false);
    lemma_visible_prefix(c);
    lemma_visible_plain(s);
    lemma_visible_reset();
    assert(spec_visible(spec_colorize(s, c)) =~= s);
}

/// No hexadecimal digit is the escape character.
proof fn lemma_hex_pair_plain(b: u8)
    ensures
        forall|i: int| 0 <= i < spec_hex_pair(b).len() ==> spec_hex_pair(b)[i] != '\u{1b}',
{
    assert(spec_hex_digit(b as int / 16) != '\u{1b}');
    assert(spec_hex_digit(b as int % 16) != '\u{1b}');
}

/// No text glyph is the escape character: printable bytes lie between 31
/// and 126, and the escape character is byte 27.
proof fn lemma_glyph_plain(b: u8)
    ensures
        spec_glyph(b) != '\u{1b}',
{
    if 31 <= b && b <= 126 {
        assert((b as char) != '\u{1b}') by {
            assert(('\u{1b}' as u8) == 27);
        }
    }
}

/// The visible content of a byte's colored hexadecimal token is exactly the
/// byte's two-digit lowercase hexadecimal encoding: color adds nothing
/// visible and hides nothing.
pub proof fn lemma_color_hex_visible(b: u8)
    ensures
        spec_visible(spec_color_hex(b)) == spec_hex_pair(b),
{
    lemma_hex_pair_plain(b);
    lemma_visible_colorize(spec_hex_pair(b), crate::classify::spec_classify(b));
}

/// The visible content of a byte's colored text token is exactly its glyph:
/// the byte's own character if printable, else the substitution dot.
pub proof fn lemma_color_text_visible(b: u8)
    ensures
        spec_visible(spec_color_text(b)) == seq![spec_glyph(b)],
{
    lemma_glyph_plain(b);
    lemma_visible_colorize(seq![spec_glyph(b)], crate::classify::spec_classify(b));
}

/// One visible cell of the hex column: the bare hexadecimal pair of the
/// byte at position `i`, or two blank characters past the end of the chunk.
pub open spec fn spec_visible_hex_cell(chunk: Seq<u8>, i: int) -> Seq<char> {
    if i < chunk.len() {
        spec_hex_pair(chunk[i])
    } else {
        seq![' ', ' ']
    }
}

/// The visible form of the hex column over the first `i` positions: bare
/// pairs and blank cells with a separating space after every odd position.
pub open spec fn spec_visible_hex_upto(chunk: Seq<u8>, i: int) -> Seq<char>
    decreases i,
{
    if i <= 0 {
        Seq::empty()
    } else {
        spec_visible_hex_upto(chunk, i - 1) + spec_visible_hex_cell(chunk, i - 1) + (if (i - 1) % 2
            == 1 {
            seq![' ']
        } else {
            Seq::empty()
        })
    }
}

/// The visible form of the whole hex column.
pub open spec fn spec_visible_hex_column(chunk: Seq<u8>) -> Seq<char> {
    spec_visible_hex_upto(chunk, 16)
}

/// The visible content of the hex column over the first `i` positions is
/// its visible form: two characters per position and one separating space
/// after every odd position, whatever the chunk's length.
proof fn lemma_hex_column_upto_visible(chunk: Seq<u8>, i: int)
    requires
        0 <= i <= 16,
        chunk.len() <= 16,
    ensures
        spec_visible(spec_hex_column_upto(chunk, i)) == spec_visible_hex_upto(chunk, i),
        spec_visible_hex_upto(chunk, i).len() == 2 * i + i / 2,
        spec_escape_after(spec_hex_column_upto(chunk, i), false) == false,
    decreases i,
{
    if i <= 0 {
        assert(spec_visible(spec_hex_column_upto(chunk, i)) =~= spec_visible_hex_upto(chunk, i));
    } else {
        lemma_hex_column_upto_visible(chunk, i - 1);
        let col = spec_hex_column_upto(chunk, i - 1);
        let cell = spec_hex_cell(chunk, i - 1);
        let sep: Seq<char> = if (i - 1) % 2 == 1 {
            seq![' ']
        } else {
            Seq::empty()
        };
        lemma_visible_concat(col + cell, sep, false);
        lemma_visible_concat(col, cell, false);
        if i - 1 < chunk.len() {
            lemma_hex_pair_plain(chunk[i - 1]);
            lemma_visible_colorize(
                spec_hex_pair(chunk[i - 1]),
                crate::classify::spec_classify(chunk[i - 1]),
            );
        } else {
            lemma_visible_plain(cell);
        }
        lemma_visible_plain(sep);
        assert(spec_visible(cell) == spec_visible_hex_cell(chunk, i - 1));
        assert(spec_visible(spec_hex_column_upto(chunk, i)) =~= spec_visible_hex_upto(chunk, i));
    }
}

/// The hex column of every chunk, full or under-full, strips to exactly its
/// visible form — the bare pairs, blank padding cells and pair spacing —
/// and that form has exactly forty characters: thirty-two hex-or-blank
/// characters and eight separating spaces. Padding keeps the columns
/// vertically aligned.
pub proof fn lemma_hex_column_width(chunk: Seq<u8>)
    requires
        chunk.len() <= 16,
    ensures
        spec_visible(spec_hex_column(chunk)) == spec_visible_hex_column(chunk),
        spec_visible(spec_hex_column(chunk)).len() == 40,
        spec_escape_after(spec_hex_column(chunk), false) == false,
{
    lemma_hex_column_upto_visible(chunk, 16);
}

/// The visible content of the text column over the first `i` bytes is
/// exactly their glyphs.
proof fn lemma_text_column_upto_visible(chunk: Seq<u8>, i: int)
    requires
        0 <= i <= chunk.len(),
    ensures
        spec_visible(spec_text_column_upto(chunk, i)) == Seq::new(i as nat, |j: int| spec_glyph(chunk[j])),
        spec_escape_after(spec_text_column_upto(chunk, i), false) == false,
    decreases i,
{
    if i == 0 {
        assert(spec_visible(spec_text_column_upto(chunk, 0)) =~= Seq::new(
            0,
            |j: int| spec_glyph(chunk[j]),
        ));
    } else {
        lemma_text_column_upto_visible(chunk, i - 1);
        let col = spec_text_column_upto(chunk, i - 1);
        let cell = spec_color_text(chunk[i - 1]);
        lemma_visible_concat(col, cell, false);
        lemma_glyph_plain(chunk[i - 1]);
        lemma_visible_colorize(seq![spec_glyph(chunk[i - 1])], crate::classify::spec_classify(chunk[i - 1]));
        assert(spec_visible(spec_text_column_upto(chunk, i)) =~= Seq::new(
            i as nat,
            |j: int| spec_glyph(chunk[j]),
        ));
    }
}

/// The text column's visible content is exactly the glyphs of the bytes
/// actually present: no padding, one glyph per byte.
pub proof fn lemma_text_column_glyphs(chunk: Seq<u8>)
    ensures
        spec_visible(spec_text_column(chunk)) == Seq::new(
            chunk.len(),
            |j: int| spec_glyph(chunk[j]),
        ),
        spec_escape_after(spec_text_column(chunk), false) == false,
{
    lemma_text_column_upto_visible(chunk, chunk.len() as int);
}

/// No offset digit is the escape character.
proof fn lemma_offset_hex_plain(off: int)
    ensures
        forall|i: int| 0 <= i < spec_offset_hex(off).len() ==> spec_offset_hex(off)[i] != '\u{1b}',
{
    assert forall|i: int| 0 <= i < spec_offset_hex(off).len() implies spec_offset_hex(off)[i]
        != '\u{1b}' by {
        assert(spec_offset_hex(off)[i] == spec_hex_digit(
            if i == 0 {
                off / 0x10000000 % 16
            } else if i == 1 {
                off / 0x1000000 % 16
            } else if i == 2 {
                off / 0x100000 % 16
            } else if i == 3 {
                off / 0x10000 % 16
            } else if i == 4 {
                off / 0x1000 % 16
            } else if i == 5 {
                off / 0x100 % 16
            } else if i == 6 {
                off / 0x10 % 16
            } else {
                off % 16
            },
        ));
    }
}

/// A whole row's visible content, explicitly: the eight offset digits, a
/// colon and a space, the visible form of the hex column, one space, and
/// one glyph per byte present — fifty-one characters plus the chunk length,
/// whatever the chunk length is.
pub proof fn lemma_row_visible(off: int, chunk: Seq<u8>)
    requires
        chunk.len() <= 16,
    ensures
        spec_visible(spec_row(off, chunk)) == spec_offset_hex(off) + seq![':', ' ']
            + spec_visible_hex_column(chunk) + seq![' '] + Seq::new(
            chunk.len(),
            |j: int| spec_glyph(chunk[j]),
        ),
        spec_visible(spec_row(off, chunk)).len() == 51 + chunk.len(),
{
    let o = spec_offset_hex(off);
    let cs: Seq<char> = seq![':', ' '];
    let h = spec_hex_column(chunk);
    let sp: Seq<char> = seq![' '];
    let t = spec_text_column(chunk);
    lemma_visible_concat(o + cs + h + sp, t, false);
    lemma_visible_concat(o + cs + h, sp, false);
    lemma_visible_concat(o + cs, h, false);
    lemma_visible_concat(o, cs, false);
    lemma_offset_hex_plain(off);
    lemma_visible_plain(o);
    lemma_visible_plain(cs);
    lemma_hex_column_width(chunk);
    lemma_visible_plain(sp);
    lemma_text_column_glyphs(chunk);
    assert(spec_visible(spec_row(off, chunk)) =~= o + cs + spec_visible(h) + sp + spec_visible(t));
}

} // verus!
