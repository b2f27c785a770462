//! The dump engine: fixed-width row layout. Each row shows an eight-digit
//! hexadecimal offset, a hex column of sixteen byte positions grouped in
//! pairs, and a text column of the bytes actually present.
//!
//! The hex column always renders sixteen byte positions: positions past the
//! end of an under-full final chunk are padded with two blanks each and keep
//! the pair spacing, so the columns stay vertically aligned across all rows.

use crate::render::color_hex;
use crate::render::color_text;
use crate::render::spec_color_hex;
use crate::render::spec_color_text;
use crate::render::spec_hex_digit;
use vstd::prelude::*;
use vstd::slice::slice_index_get;
use vstd::slice::slice_subrange;
use vstd::string::StringExecFns;

verus! {

/// The number of byte positions in one row.
pub const ROW_WIDTH: usize = 16;

/// The eight-digit, zero-padded, lowercase hexadecimal rendering of an
/// offset below 2^32.
pub open spec fn spec_offset_hex(off: int) -> Seq<char> {
    seq![
        spec_hex_digit(off / 0x10000000 % 16),
        spec_hex_digit(off / 0x1000000 % 16),
        spec_hex_digit(off / 0x100000 % 16),
        spec_hex_digit(off / 0x10000 % 16),
        spec_hex_digit(off / 0x1000 % 16),
        spec_hex_digit(off / 0x100 % 16),
        spec_hex_digit(off / 0x10 % 16),
        spec_hex_digit(off % 16),
    ]
}

/// One cell of the hex column: the colored hex token of the byte at
/// position `i`, or two blank characters past the end of the chunk.
pub open spec fn spec_hex_cell(chunk: Seq<u8>, i: int) -> Seq<char> {
    if i < chunk.len() {
        spec_color_hex(chunk[i])
    } else {
        seq![' ', ' ']
    }
}

/// The hex column over the first `i` of the sixteen byte positions, with a
/// separating space after every odd position.
pub open spec fn spec_hex_column_upto(chunk: Seq<u8>, i: int) -> Seq<char>
    decreases i,
{
    if i <= 0 {
        Seq::empty()
    } else {
        spec_hex_column_upto(chunk, i - 1) + spec_hex_cell(chunk, i - 1) + (if (i - 1) % 2 == 1 {
            seq![' ']
        } else {
            Seq::empty()
        })
    }
}

/// The full hex column of a chunk: all sixteen byte positions.
pub open spec fn spec_hex_column(chunk: Seq<u8>) -> Seq<char> {
    spec_hex_column_upto(chunk, 16)
}

/// The text column over the first `i` bytes of a chunk.
pub open spec fn spec_text_column_upto(chunk: Seq<u8>, i: int) -> Seq<char>
    decreases i,
{
    if i <= 0 {
        Seq::empty()
    } else {
        spec_text_column_upto(chunk, i - 1) + spec_color_text(chunk[i - 1])
    }
}

/// The text column of a chunk: the colored glyphs of exactly the bytes
/// actually present, with no padding.
pub open spec fn spec_text_column(chunk: Seq<u8>) -> Seq<char> {
    spec_text_column_upto(chunk, chunk.len() as int)
}

/// One dump row, without its line terminator: the offset field, a colon and
/// a space, the hex column, one more space, and the text column.
pub open spec fn spec_row(off: int, chunk: Seq<u8>) -> Seq<char> {
    spec_offset_hex(off) + seq![':', ' '] + spec_hex_column(chunk) + seq![' '] + spec_text_column(
        chunk,
    )
}

/// The chunk of `data` that row `k` renders: the bytes from position
/// `16 * k` up to the next multiple of sixteen or the end of the data.
pub open spec fn spec_chunk(data: Seq<u8>, k: int) -> Seq<u8> {
    data.subrange(
        16 * k,
        if 16 * k + 16 <= data.len() {
            16 * k + 16
        } else {
            data.len() as int
        },
    )
}

/// The number of rows a dump of `len` bytes has: one per started chunk of
/// sixteen bytes.
pub open spec fn spec_line_count(len: int) -> int {
    (len + 15) / 16
}

/// The offset field of a row: eight zero-padded lowercase hexadecimal
/// digits, a colon and a space.
fn render_offset(off: u64) -> (s: String)
    requires
        off < 0x100000000,
    ensures
        s@ == spec_offset_hex(off as int) + seq![':', ' '],
{
    let mut s = String::new();
    s.append(crate::render::hex_digit_str(((off / 0x10000000) % 16) as u8));
    s.append(crate::render::hex_digit_str(((off / 0x1000000) % 16) as u8));
    s.append(crate::render::hex_digit_str(((off / 0x100000) % 16) as u8));
    s.append(crate::render::hex_digit_str(((off / 0x10000) % 16) as u8));
    s.append(crate::render::hex_digit_str(((off / 0x1000) % 16) as u8));
    s.append(crate::render::hex_digit_str(((off / 0x100) % 16) as u8));
    s.append(crate::render::hex_digit_str(((off / 0x10) % 16) as u8));
    s.append(crate::render::hex_digit_str((off % 16) as u8));
    proof {
        reveal_strlit(": ");
    }
    s.append(": ");
    proof {
        assert(s@ =~= spec_offset_hex(off as int) + seq![':', ' ']);
    }
    s
}

/// Render one dump row for the chunk that starts at byte offset `off`.
/// The chunk holds the bytes actually read: sixteen for a full row, fewer
/// for an under-full final read. The hex column is padded to the full
/// sixteen positions either way.
pub fn render_row(off: u64, chunk: &[u8]) -> (line: String)
    requires
        off < 0x100000000,
        chunk@.len() <= 16,
    ensures
        line@ == spec_row(off as int, chunk@),
{
    let n = chunk.len();
    let mut line = render_offset(off);
    let mut i: usize = 0;
    while i < ROW_WIDTH
        invariant
            n == chunk@.len() <= 16,
            i <= 16,
            line@ == spec_offset_hex(off as int) + seq![':', ' '] + spec_hex_column_upto(
                chunk@,
                i as int,
            ),
        decreases 16 - i,
    {
        if i < n {
            let token = color_hex(*slice_index_get(chunk, i));
            line.append(token.as_str());
        } else {
            proof {
                reveal_strlit("  ");
            }
            line.append("  ");
            proof {
                assert("  "@ =~= seq![' ', ' ']);
            }
        }
        if i % 2 == 1 {
            proof {
                reveal_strlit(" ");
            }
            line.append(" ");
            proof {
                assert(" "@ =~= seq![' ']);
            }
        }
        proof {
            assert(line@ =~= spec_offset_hex(off as int) + seq![':', ' '] + spec_hex_column_upto(
                chunk@,
                i as int + 1,
            ));
        }
        i += 1;
    }
    proof {
        reveal_strlit(" ");
    }
    line.append(" ");
    let mut j: usize = 0;
    while j < n
        invariant
            n == chunk@.len() <= 16,
            j <= n,
            line@ == spec_offset_hex(off as int) + seq![':', ' '] + spec_hex_column(chunk@) + seq![
                ' ',
            ] + spec_text_column_upto(chunk@, j as int),
        decreases n - j,
    {
        let glyph = color_text(*slice_index_get(chunk, j));
        line.append(glyph.as_str());
        proof {
            assert(line@ =~= spec_offset_hex(off as int) + seq![':', ' '] + spec_hex_column(chunk@)
                + seq![' '] + spec_text_column_upto(chunk@, j as int + 1));
        }
        j += 1;
    }
    proof {
        assert(line@ =~= spec_row(off as int, chunk@));
    }
    line
}

/// The dump engine over a complete input: one row per started chunk of
/// sixteen bytes, in order of ascending offsets. An empty input gives zero
/// rows.
pub fn dump_lines(data: &[u8]) -> (lines: Vec<String>)
    requires
        data@.len() <= 0xFFFFFFF0,
    ensures
        lines@.len() == spec_line_count(data@.len() as int),
        forall|k: int|
            0 <= k < lines@.len() ==> lines@[k]@ == spec_row(16 * k, spec_chunk(data@, k)),
{
    let mut lines: Vec<String> = Vec::new();
    let mut pos: usize = 0;
    while pos < data.len()
        invariant
            data@.len() <= 0xFFFFFFF0,
            pos == 16 * lines@.len(),
            lines@.len() == 0 || 16 * (lines@.len() - 1) < data@.len(),
            pos <= data@.len() + 15,
            forall|k: int|
                0 <= k < lines@.len() ==> lines@[k]@ == spec_row(16 * k, spec_chunk(data@, k)),
        decreases data@.len() + 16 - pos,
    {
        let end = if pos + ROW_WIDTH <= data.len() {
            pos + ROW_WIDTH
        } else {
            data.len()
        };
        let chunk = slice_subrange(data, pos, end);
        let row = render_row(pos as u64, chunk);
        proof {
            assert(chunk@ =~= spec_chunk(data@, lines@.len() as int));
        }
        lines.push(row);
        pos = pos + ROW_WIDTH;
    }
    proof {
        assert(lines@.len() == spec_line_count(data@.len() as int));
    }
    lines
}

/// The offset field decodes back to exactly the offset: its eight
/// characters are lowercase hexadecimal digits whose place values sum to
/// the offset itself, for every offset below 2^32.
pub proof fn lemma_offset_hex_exact(off: int)
    requires
        0 <= off < 0x100000000,
    ensures
        spec_offset_hex(off).len() == 8,
        forall|i: int|
            0 <= i < 8 ==> crate::render::spec_hex_digit_val(
                #[trigger] spec_offset_hex(off)[i],
            ) < 16,
        crate::render::spec_hex_digit_val(spec_offset_hex(off)[0]) * 0x10000000
            + crate::render::spec_hex_digit_val(spec_offset_hex(off)[1]) * 0x1000000
            + crate::render::spec_hex_digit_val(spec_offset_hex(off)[2]) * 0x100000
            + crate::render::spec_hex_digit_val(spec_offset_hex(off)[3]) * 0x10000
            + crate::render::spec_hex_digit_val(spec_offset_hex(off)[4]) * 0x1000
            + crate::render::spec_hex_digit_val(spec_offset_hex(off)[5]) * 0x100
            + crate::render::spec_hex_digit_val(spec_offset_hex(off)[6]) * 0x10
            + crate::render::spec_hex_digit_val(spec_offset_hex(off)[7]) == off,
{
    let v = off as u64;
    assert(v / 0x10000000 % 16 * 0x10000000 + v / 0x1000000 % 16 * 0x1000000 + v / 0x100000 % 16
        * 0x100000 + v / 0x10000 % 16 * 0x10000 + v / 0x1000 % 16 * 0x1000 + v / 0x100 % 16 * 0x100
        + v / 0x10 % 16 * 0x10 + v % 16 == v) by (bit_vector)
        requires
            v < 0x100000000,
    ;
}

/// For an input of exactly `k` full chunks of sixteen bytes, the engine
/// emits exactly `k` rows, and row `j` begins with the offset field of
/// `16 * j`: the offsets run 0x00000000, 0x00000010, 0x00000020, ... in
/// order.
pub proof fn lemma_engine_full_chunks(data: Seq<u8>, k: int)
    requires
        0 <= k,
        data.len() == 16 * k,
    ensures
        spec_line_count(data.len() as int) == k,
        forall|j: int|
            0 <= j < k ==> #[trigger] spec_row(16 * j, spec_chunk(data, j)).subrange(0, 8)
                == spec_offset_hex(16 * j),
{
    assert forall|j: int| 0 <= j < k implies #[trigger] spec_row(
        16 * j,
        spec_chunk(data, j),
    ).subrange(0, 8) == spec_offset_hex(16 * j) by {
        assert(spec_row(16 * j, spec_chunk(data, j)).subrange(0, 8) =~= spec_offset_hex(16 * j));
    }
}

/// For an empty input, the engine emits zero rows.
pub proof fn lemma_engine_empty()
    ensures
        spec_line_count(0) == 0,
{
}

} // verus!
