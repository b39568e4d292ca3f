//! Text styling: a small color and style model and an exact ANSI SGR
//! writer.
//!
//! A non-plain style paints text as `ESC [ codes m text ESC [ 0 m`, where
//! `codes` lists, separated by `;`: `1` for bold, `2` for dimmed, `3` for
//! italic, `4` for underline, then the foreground color (`30`–`37` and
//! `90`–`97` for the named colors, `38;2;r;g;b` for an RGB color, `39` for
//! the terminal default).  A plain style leaves the text untouched.

use vstd::prelude::*;

use crate::text::dec_seq;
use crate::text::fmt_u64;

verus! {

/// A foreground color.
#[derive(Clone, Copy, Debug, PartialEq, Eq, Structural)]
pub enum Color {
    Black,
    Red,
    Green,
    Yellow,
    Blue,
    Magenta,
    Cyan,
    White,
    DarkGray,
    LightRed,
    LightGreen,
    LightYellow,
    LightBlue,
    LightMagenta,
    LightCyan,
    LightGray,
    Rgb(u8, u8, u8),
    Default,
}

/// A text style: optional foreground color plus effect flags.
#[derive(Clone, Copy, Debug)]
pub struct TextStyle {
    pub fg: Option<Color>,
    pub bold: bool,
    pub dimmed: bool,
    pub italic: bool,
    pub underline: bool,
}

impl TextStyle {
    /// The style that paints nothing.
    pub fn plain() -> (r: TextStyle)
        ensures
            r == (TextStyle { fg: None::<Color>, bold: false, dimmed: false, italic: false,
            underline: false }),
    {
        TextStyle { fg: None, bold: false, dimmed: false, italic: false, underline: false }
    }
}

/// Whether a style paints nothing.
pub open spec fn style_is_plain(s: TextStyle) -> bool {
    &&& s.fg is None
    &&& !s.bold
    &&& !s.dimmed
    &&& !s.italic
    &&& !s.underline
}

/// The SGR code of a foreground color.
pub open spec fn fg_code(c: Color) -> Seq<char> {
    match c {
        Color::Black => seq!['3', '0'],
        Color::Red => seq!['3', '1'],
        Color::Green => seq!['3', '2'],
        Color::Yellow => seq!['3', '3'],
        Color::Blue => seq!['3', '4'],
        Color::Magenta => seq!['3', '5'],
        Color::Cyan => seq!['3', '6'],
        Color::White => seq!['3', '7'],
        Color::DarkGray => seq!['9', '0'],
        Color::LightRed => seq!['9', '1'],
        Color::LightGreen => seq!['9', '2'],
        Color::LightYellow => seq!['9', '3'],
        Color::LightBlue => seq!['9', '4'],
        Color::LightMagenta => seq!['9', '5'],
        Color::LightCyan => seq!['9', '6'],
        Color::LightGray => seq!['9', '7'],
        Color::Rgb(r, g, b) => seq!['3', '8', ';', '2', ';'] + dec_seq(r as nat) + seq![';']
            + dec_seq(g as nat) + seq![';'] + dec_seq(b as nat),
        Color::Default => seq!['3', '9'],
    }
}

/// Appends one code to a `;`-separated code list.
pub open spec fn join_code(acc: Seq<char>, code: Seq<char>) -> Seq<char> {
    if acc.len() == 0 {
        code
    } else {
        acc + seq![';'] + code
    }
}

/// The full `;`-separated SGR code list of a style: effect flags in the
/// order bold, dimmed, italic, underline, then the foreground color.
pub open spec fn sgr_codes(s: TextStyle) -> Seq<char> {
    let a1 = if s.bold {
        seq!['1']
    } else {
        Seq::empty()
    };
    let a2 = if s.dimmed {
        join_code(a1, seq!['2'])
    } else {
        a1
    };
    let a3 = if s.italic {
        join_code(a2, seq!['3'])
    } else {
        a2
    };
    let a4 = if s.underline {
        join_code(a3, seq!['4'])
    } else {
        a3
    };
    match s.fg {
        Some(c) => join_code(a4, fg_code(c)),
        None => a4,
    }
}

/// What painting `text` with style `s` yields.
pub open spec fn painted(s: TextStyle, text: Seq<char>) -> Seq<char> {
    if style_is_plain(s) {
        text
    } else {
        seq!['\u{1b}', '['] + sgr_codes(s) + seq!['m'] + text + seq!['\u{1b}', '[', '0', 'm']
    }
}

fn append_fg(out: &mut String, c: &Color)
    ensures
        final(out)@ == old(out)@ + fg_code(*c),
{
    proof {
        reveal_strlit("30");
        reveal_strlit("31");
        reveal_strlit("32");
        reveal_strlit("33");
        reveal_strlit("34");
        reveal_strlit("35");
        reveal_strlit("36");
        reveal_strlit("37");
        reveal_strlit("90");
        reveal_strlit("91");
        reveal_strlit("92");
        reveal_strlit("93");
        reveal_strlit("94");
        reveal_strlit("95");
        reveal_strlit("96");
        reveal_strlit("97");
        reveal_strlit("38;2;");
        reveal_strlit(";");
        reveal_strlit("39");
    }
    match c {
        Color::Black => out.append("30"),
        Color::Red => out.append("31"),
        Color::Green => out.append("32"),
        Color::Yellow => out.append("33"),
        Color::Blue => out.append("34"),
        Color::Magenta => out.append("35"),
        Color::Cyan => out.append("36"),
        Color::White => out.append("37"),
        Color::DarkGray => out.append("90"),
        Color::LightRed => out.append("91"),
        Color::LightGreen => out.append("92"),
        Color::LightYellow => out.append("93"),
        Color::LightBlue => out.append("94"),
        Color::LightMagenta => out.append("95"),
        Color::LightCyan => out.append("96"),
        Color::LightGray => out.append("97"),
        Color::Rgb(r, g, b) => {
            out.append("38;2;");
            out.append(fmt_u64(*r as u64).as_str());
            out.append(";");
            out.append(fmt_u64(*g as u64).as_str());
            out.append(";");
            out.append(fmt_u64(*b as u64).as_str());
            proof {
                assert(out@ =~= old(out)@ + fg_code(*c));
            }
        },
        Color::Default => out.append("39"),
    }
    proof {
        assert(out@ =~= old(out)@ + fg_code(*c));
    }
}

/// Paints `text` with style `s`: the exact ANSI SGR rendering described in
/// the module documentation, or the text unchanged for a plain style.
pub fn paint(s: &TextStyle, text: &str) -> (r: String)
    ensures
        r@ == painted(*s, text@),
{
    let plain = match s.fg {
        Some(_) => false,
        None => !s.bold && !s.dimmed && !s.italic && !s.underline,
    };
    if plain {
        return String::from_str(text);
    }
    proof {
        reveal_strlit("\u{1b}[");
        reveal_strlit("1");
        reveal_strlit("2");
        reveal_strlit("3");
        reveal_strlit("4");
        reveal_strlit(";");
        reveal_strlit("m");
        reveal_strlit("\u{1b}[0m");
    }
    let mut out = String::from_str("\u{1b}[");
    let mut any = false;
    if s.bold {
        out.append("1");
        any = true;
    }
    if s.dimmed {
        if any {
            out.append(";");
        }
        out.append("2");
        any = true;
    }
    if s.italic {
        if any {
            out.append(";");
        }
        out.append("3");
        any = true;
    }
    if s.underline {
        if any {
            out.append(";");
        }
        out.append("4");
        any = true;
    }
    proof {
        let a4 = {
            let a1 = if s.bold {
                seq!['1']
            } else {
                Seq::<char>::empty()
            };
            let a2 = if s.dimmed {
                join_code(a1, seq!['2'])
            } else {
                a1
            };
            let a3 = if s.italic {
                join_code(a2, seq!['3'])
            } else {
                a2
            };
            if s.underline {
                join_code(a3, seq!['4'])
            } else {
                a3
            }
        };
        assert(out@ =~= seq!['\u{1b}', '['] + a4);
        assert(any == (a4.len() > 0));
    }
    match &s.fg {
        Some(c) => {
            if any {
                out.append(";");
            }
            append_fg(&mut out, c);
        },
        None => {},
    }
    proof {
        assert(out@ =~= seq!['\u{1b}', '['] + sgr_codes(*s));
    }
    out.append("m");
    out.append(text);
    out.append("\u{1b}[0m");
    proof {
        assert(out@ =~= painted(*s, text@));
    }
    out
}

// ------------------------------------------------------------------
// Hex color strings.
// ------------------------------------------------------------------

/// The error of [`color_from_hex`]: a six-character hex color with a
/// character that is no hexadecimal digit.
#[derive(Clone, Copy, Debug, PartialEq, Eq, Structural)]
pub enum HexColorError {
    InvalidDigit,
}

/// Whether `c` is a hexadecimal digit.
pub open spec fn is_hex_digit(c: char) -> bool {
    ('0' <= c && c <= '9') || ('a' <= c && c <= 'f') || ('A' <= c && c <= 'F')
}

/// The value of a hexadecimal digit.
pub open spec fn hex_val(c: char) -> int {
    if '0' <= c && c <= '9' {
        c as int - 48
    } else if 'a' <= c && c <= 'f' {
        c as int - 87
    } else {
        c as int - 55
    }
}

/// `s` with every leading `#` removed.
pub open spec fn trim_hash_front(s: Seq<char>) -> Seq<char>
    decreases s.len(),
{
    if s.len() > 0 && s[0] == '#' {
        trim_hash_front(s.drop_first())
    } else {
        s
    }
}

/// `s` with every trailing `#` removed.
pub open spec fn trim_hash_back(s: Seq<char>) -> Seq<char>
    decreases s.len(),
{
    if s.len() > 0 && s.last() == '#' {
        trim_hash_back(s.drop_last())
    } else {
        s
    }
}

/// `s` with every leading and trailing `#` removed.
pub open spec fn trim_hash(s: Seq<char>) -> Seq<char> {
    trim_hash_back(trim_hash_front(s))
}

/// What parsing a hex color string yields: with the surrounding `#`s
/// removed, a six-hex-digit string is an RGB color, a string of any other
/// length is the default color, and a six-character string with a
/// non-digit is an error (`None`).
pub open spec fn spec_color_from_hex(s: Seq<char>) -> Option<Color> {
    let t = trim_hash(s);
    if t.len() != 6 {
        Some(Color::Default)
    } else if forall|i: int| 0 <= i < 6 ==> is_hex_digit(#[trigger] t[i]) {
        Some(
            Color::Rgb(
                (hex_val(t[0]) * 16 + hex_val(t[1])) as u8,
                (hex_val(t[2]) * 16 + hex_val(t[3])) as u8,
                (hex_val(t[4]) * 16 + hex_val(t[5])) as u8,
            ),
        )
    } else {
        None
    }
}

/// The color a hex color-name string stands for: hex parsing for a string
/// that starts with `#`, the terminal default otherwise (and for a hex
/// parse error).
pub open spec fn spec_lookup_color(s: Seq<char>) -> Color {
    if s.len() > 0 && s[0] == '#' {
        match spec_color_from_hex(s) {
            Some(c) => c,
            None => Color::Default,
        }
    } else {
        Color::Default
    }
}

fn hex_digit_val(c: char) -> (r: Option<u8>)
    ensures
        r is Some <==> is_hex_digit(c),
        r matches Some(v) ==> v as int == hex_val(c),
{
    if '0' <= c && c <= '9' {
        Some((c as u32 - 48) as u8)
    } else if 'a' <= c && c <= 'f' {
        Some((c as u32 - 87) as u8)
    } else if 'A' <= c && c <= 'F' {
        Some((c as u32 - 55) as u8)
    } else {
        None
    }
}

/// Parses a `#rrggbb` hex color into an RGB color.  Surrounding `#`s are
/// trimmed first; anything that is not six characters long after trimming
/// is the default color; a six-character string with a character that is
/// no hex digit is an error.
pub fn color_from_hex(hex_color: &str) -> (r: Result<Color, HexColorError>)
    ensures
        r matches Ok(c) ==> spec_color_from_hex(hex_color@) == Some(c),
        r is Err <==> spec_color_from_hex(hex_color@) is None,
{
    let len = hex_color.unicode_len();
    let mut start: usize = 0;
    proof {
        assert(hex_color@.skip(0) =~= hex_color@);
    }
    while start < len && hex_color.get_char(start) == '#'
        invariant
            len == hex_color@.len(),
            start <= len,
            trim_hash_front(hex_color@) == trim_hash_front(hex_color@.skip(start as int)),
        decreases len - start,
    {
        proof {
            assert(hex_color@.skip(start as int).drop_first() =~= hex_color@.skip(start + 1));
        }
        start = start + 1;
    }
    proof {
        assert(trim_hash_front(hex_color@) == hex_color@.skip(start as int));
    }
    let mut end: usize = len;
    proof {
        assert(hex_color@.skip(start as int) =~= hex_color@.subrange(start as int, len as int));
    }
    while end > start && hex_color.get_char(end - 1) == '#'
        invariant
            len == hex_color@.len(),
            start <= end <= len,
            trim_hash_front(hex_color@) == hex_color@.skip(start as int),
            trim_hash_back(hex_color@.skip(start as int)) == trim_hash_back(
                hex_color@.subrange(start as int, end as int),
            ),
        decreases end,
    {
        proof {
            assert(hex_color@.subrange(start as int, end as int).drop_last() =~= hex_color@
                .subrange(start as int, end - 1));
        }
        end = end - 1;
    }
    proof {
        assert(hex_color@.skip(start as int) =~= hex_color@.subrange(
            start as int,
            hex_color@.len() as int,
        ));
        assert(trim_hash(hex_color@) == hex_color@.subrange(start as int, end as int));
    }
    let trimmed = hex_color.substring_char(start, end);
    let tlen = end - start;
    if tlen != 6 {
        return Ok(Color::Default);
    }
    let d0 = hex_digit_val(trimmed.get_char(0));
    let d1 = hex_digit_val(trimmed.get_char(1));
    let d2 = hex_digit_val(trimmed.get_char(2));
    let d3 = hex_digit_val(trimmed.get_char(3));
    let d4 = hex_digit_val(trimmed.get_char(4));
    let d5 = hex_digit_val(trimmed.get_char(5));
    match (d0, d1, d2, d3, d4, d5) {
        (Some(h0), Some(h1), Some(h2), Some(h3), Some(h4), Some(h5)) => Ok(
            Color::Rgb(h0 * 16 + h1, h2 * 16 + h3, h4 * 16 + h5),
        ),
        _ => Err(HexColorError::InvalidDigit),
    }
}

/// Resolves a color-name string: a string starting with `#` is parsed as a
/// hex color (falling back to the default color on a parse error), any
/// other string is the terminal default.
pub fn lookup_ansi_color_style(s: &str) -> (r: Color)
    ensures
        r == spec_lookup_color(s@),
{
    if s.unicode_len() > 0 && s.get_char(0) == '#' {
        match color_from_hex(s) {
            Ok(c) => c,
            Err(_) => Color::Default,
        }
    } else {
        Color::Default
    }
}

} // verus!
