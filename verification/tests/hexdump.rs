use xxd::classify::classify;
use xxd::classify::Category;
use xxd::engine::dump_lines;
use xxd::engine::render_row;
use xxd::engine::ROW_WIDTH;
use xxd::render::color_hex;
use xxd::render::color_text;
use xxd::render::colorize;
use xxd::render::hex_digit_str;

const GREEN: &str = "\u{1b}[32m";
const YELLOW: &str = "\u{1b}[33m";
const WHITE: &str = "\u{1b}[37m";
const BLUE: &str = "\u{1b}[34m";
const RED: &str = "\u{1b}[31m";
const RESET: &str = "\u{1b}[0m";

fn wrapped(color: &str, s: &str) -> String {
    format!("{}{}{}", color, s, RESET)
}

fn strip_ansi(s: &str) -> String {
    let mut out = String::new();
    let mut in_escape = false;
    for c in s.chars() {
        if in_escape {
            if c == 'm' {
                in_escape = false;
            }
        } else if c == '\u{1b}' {
            in_escape = true;
        } else {
            out.push(c);
        }
    }
    out
}

fn padding_cells(from: usize) -> String {
    let mut s = String::new();
    let mut i = from;
    while i < 16 {
        s.push_str("  ");
        if i % 2 == 1 {
            s.push(' ');
        }
        i += 1;
    }
    s
}

#[test]
fn classify_boundaries() {
    assert_eq!(classify(30), Category::Other);
    assert_eq!(classify(31), Category::Printable);
    assert_eq!(classify(32), Category::Printable);
    assert_eq!(classify(126), Category::Printable);
    assert_eq!(classify(127), Category::Other);
    assert_eq!(classify(0), Category::Null);
    assert_eq!(classify(255), Category::HighSentinel);
    assert_eq!(classify(9), Category::WhitespaceControl);
    assert_eq!(classify(10), Category::WhitespaceControl);
    assert_eq!(classify(13), Category::WhitespaceControl);
    assert_eq!(classify(1), Category::Other);
    assert_eq!(classify(8), Category::Other);
    assert_eq!(classify(11), Category::Other);
    assert_eq!(classify(12), Category::Other);
    assert_eq!(classify(14), Category::Other);
    assert_eq!(classify(254), Category::Other);
}

#[test]
fn classify_partitions_whole_domain() {
    for b in 0..=255u8 {
        let printable = 31 <= b && b <= 126;
        let whitespace = b == 9 || b == 10 || b == 13;
        let null = b == 0;
        let sentinel = b == 255;
        let conditions =
            printable as u32 + whitespace as u32 + null as u32 + sentinel as u32;
        assert!(conditions <= 1);
        let expected = if printable {
            Category::Printable
        } else if whitespace {
            Category::WhitespaceControl
        } else if null {
            Category::Null
        } else if sentinel {
            Category::HighSentinel
        } else {
            Category::Other
        };
        assert_eq!(classify(b), expected);
        assert_eq!(classify(b), classify(b));
    }
}

#[test]
fn hex_is_two_lowercase_digits_for_every_byte() {
    for b in 0..=255u8 {
        let token = color_hex(b);
        assert_eq!(strip_ansi(&token), format!("{:02x}", b));
    }
}

#[test]
fn hex_digits() {
    assert_eq!(hex_digit_str(0), "0");
    assert_eq!(hex_digit_str(9), "9");
    assert_eq!(hex_digit_str(10), "a");
    assert_eq!(hex_digit_str(15), "f");
}

#[test]
fn hex_colors_per_category() {
    assert_eq!(color_hex(0x48), wrapped(GREEN, "48"));
    assert_eq!(color_hex(0x0a), wrapped(YELLOW, "0a"));
    assert_eq!(color_hex(0x00), wrapped(WHITE, "00"));
    assert_eq!(color_hex(0xff), wrapped(BLUE, "ff"));
    assert_eq!(color_hex(0x07), wrapped(RED, "07"));
}

#[test]
fn text_glyphs_per_category() {
    assert_eq!(color_text(b'H'), wrapped(GREEN, "H"));
    assert_eq!(color_text(b'~'), wrapped(GREEN, "~"));
    assert_eq!(color_text(31), wrapped(GREEN, "\u{1f}"));
    assert_eq!(color_text(30), wrapped(RED, "."));
    assert_eq!(color_text(127), wrapped(RED, "."));
    assert_eq!(color_text(0x0a), wrapped(YELLOW, "."));
    assert_eq!(color_text(0x00), wrapped(WHITE, "."));
    assert_eq!(color_text(0xff), wrapped(BLUE, "."));
}

#[test]
fn colorize_wraps_text() {
    assert_eq!(colorize("abc", Category::Printable), wrapped(GREEN, "abc"));
    assert_eq!(colorize("", Category::Other), wrapped(RED, ""));
}

#[test]
fn engine_emits_one_line_per_full_chunk() {
    assert_eq!(ROW_WIDTH, 16);
    let data: Vec<u8> = (0..48u8).map(|i| 0x41 + i).collect();
    let lines = dump_lines(&data);
    assert_eq!(lines.len(), 3);
    assert!(lines[0].starts_with("00000000: "));
    assert!(lines[1].starts_with("00000010: "));
    assert!(lines[2].starts_with("00000020: "));
}

#[test]
fn engine_empty_input_emits_no_lines() {
    let lines = dump_lines(&[]);
    assert_eq!(lines.len(), 0);
}

#[test]
fn engine_partial_final_line_stays_aligned() {
    let data: Vec<u8> = (0..20u8).map(|i| 0x41 + i).collect();
    let lines = dump_lines(&data);
    assert_eq!(lines.len(), 2);
    let full = strip_ansi(&lines[0]);
    let partial = strip_ansi(&lines[1]);
    // Both hex columns strip to the same forty visible characters.
    assert_eq!(full.len(), 8 + 2 + 40 + 1 + 16);
    assert_eq!(partial.len(), 8 + 2 + 40 + 1 + 4);
    let expected_partial = format!("00000010: 5152 5354 {} QRST", padding_cells(4));
    assert_eq!(partial, expected_partial);
    // The text column starts at the same visible position in both lines.
    assert_eq!(&full[10 + 40..10 + 41], " ");
    assert_eq!(&partial[10 + 40..10 + 41], " ");
}

#[test]
fn engine_half_scenario() {
    let lines = dump_lines(&[0x48, 0x61, 0x6c, 0x66]);
    assert_eq!(lines.len(), 1);
    let mut expected = String::from("00000000: ");
    expected.push_str(&wrapped(GREEN, "48"));
    expected.push_str(&wrapped(GREEN, "61"));
    expected.push(' ');
    expected.push_str(&wrapped(GREEN, "6c"));
    expected.push_str(&wrapped(GREEN, "66"));
    expected.push(' ');
    expected.push_str(&padding_cells(4));
    expected.push(' ');
    expected.push_str(&wrapped(GREEN, "H"));
    expected.push_str(&wrapped(GREEN, "a"));
    expected.push_str(&wrapped(GREEN, "l"));
    expected.push_str(&wrapped(GREEN, "f"));
    assert_eq!(lines[0], expected);
    assert_eq!(
        strip_ansi(&lines[0]),
        format!("00000000: 4861 6c66 {} Half", padding_cells(4))
    );
}

#[test]
fn engine_null_byte_scenario() {
    let lines = dump_lines(&[0x00]);
    assert_eq!(lines.len(), 1);
    assert!(lines[0].contains(&wrapped(WHITE, "00")));
    assert!(lines[0].contains(&wrapped(WHITE, ".")));
}

#[test]
fn engine_newline_byte_scenario() {
    let lines = dump_lines(&[0x0a]);
    assert_eq!(lines.len(), 1);
    assert!(lines[0].contains(&wrapped(YELLOW, "0a")));
    assert!(lines[0].contains(&wrapped(YELLOW, ".")));
}

#[test]
fn render_row_offset_field() {
    let chunk: Vec<u8> = vec![0u8; 16];
    let line = render_row(0x10, &chunk);
    assert!(line.starts_with("00000010: "));
    let line = render_row(0x0abcdef0, &chunk);
    assert!(line.starts_with("0abcdef0: "));
    let line = render_row(0xffffffff, &chunk);
    assert!(line.starts_with("ffffffff: "));
}

#[test]
fn render_row_empty_chunk() {
    let line = render_row(0, &[]);
    let stripped = strip_ansi(&line);
    assert_eq!(stripped, format!("00000000: {} ", padding_cells(0)));
    assert_eq!(stripped.len(), 51);
}
