//! Text styles, the color palette, and the legacy section-sign codes.

use vstd::prelude::*;
use crate::text::{chars_of, str_eq, string_of};

verus! {

/// A color as red, green and blue intensities.
#[derive(Debug, Clone, Copy, PartialEq, Eq, Structural)]
pub struct Rgb {
    pub red: u8,
    pub green: u8,
    pub blue: u8,
}

pub open spec fn rgb(red: u8, green: u8, blue: u8) -> Rgb {
    Rgb { red, green, blue }
}

/// A color at a quarter of its intensity, the background that goes with it.
pub open spec fn quarter(c: Rgb) -> Rgb {
    rgb(c.red / 4, c.green / 4, c.blue / 4)
}

/// The colors used when none is given: white on dark gray.
pub open spec fn default_colors() -> (Rgb, Rgb) {
    (rgb(255, 255, 255), rgb(63, 63, 63))
}

/// The value of a hexadecimal digit.
pub open spec fn hex_digit(c: char) -> Option<u8> {
    if '0' <= c && c <= '9' {
        Some((c as u32 - '0' as u32) as u8)
    } else if 'a' <= c && c <= 'f' {
        Some((c as u32 - 'a' as u32 + 10) as u8)
    } else if 'A' <= c && c <= 'F' {
        Some((c as u32 - 'A' as u32 + 10) as u8)
    } else {
        None
    }
}

/// The byte that two hexadecimal digits spell.
pub open spec fn hex_byte(hi: char, lo: char) -> Option<u8> {
    match (hex_digit(hi), hex_digit(lo)) {
        (Some(h), Some(l)) => Some((h * 16 + l) as u8),
        _ => None,
    }
}

/// The color that six hexadecimal digits `RRGGBB` spell.
pub open spec fn hex_color(s: Seq<char>) -> Option<Rgb> {
    if s.len() != 6 {
        None
    } else {
        match (hex_byte(s[0], s[1]), hex_byte(s[2], s[3]), hex_byte(s[4], s[5])) {
            (Some(r), Some(g), Some(b)) => Some(rgb(r, g, b)),
            _ => None,
        }
    }
}

/// The foreground and background of a color name: one of the sixteen named
/// colors, `#RRGGBB`, or the default for anything else.
pub open spec fn palette(name: Seq<char>) -> (Rgb, Rgb) {
    if name == "black"@ {
        (rgb(0, 0, 0), rgb(0, 0, 0))
    } else if name == "dark_blue"@ {
        (rgb(0, 0, 170), rgb(0, 0, 42))
    } else if name == "dark_green"@ {
        (rgb(0, 170, 0), rgb(0, 42, 0))
    } else if name == "dark_aqua"@ {
        (rgb(0, 170, 170), rgb(0, 42, 42))
    } else if name == "dark_red"@ {
        (rgb(170, 0, 0), rgb(42, 0, 0))
    } else if name == "dark_purple"@ {
        (rgb(170, 0, 170), rgb(42, 0, 42))
    } else if name == "gold"@ {
        (rgb(255, 170, 0), rgb(63, 42, 0))
    } else if name == "gray"@ {
        (rgb(170, 170, 170), rgb(42, 42, 42))
    } else if name == "dark_gray"@ {
        (rgb(85, 85, 85), rgb(21, 21, 21))
    } else if name == "blue"@ {
        (rgb(85, 85, 255), rgb(21, 21, 63))
    } else if name == "green"@ {
        (rgb(85, 255, 85), rgb(21, 63, 21))
    } else if name == "aqua"@ {
        (rgb(85, 255, 255), rgb(21, 63, 63))
    } else if name == "red"@ {
        (rgb(255, 85, 85), rgb(63, 21, 21))
    } else if name == "light_purple"@ {
        (rgb(255, 85, 255), rgb(63, 21, 63))
    } else if name == "yellow"@ {
        (rgb(255, 255, 85), rgb(63, 63, 21))
    } else if name == "white"@ {
        (rgb(255, 255, 255), rgb(63, 63, 63))
    } else if name.len() > 0 && name[0] == '#' && hex_color(name.drop_first()) is Some {
        let c = hex_color(name.drop_first())->Some_0;
        (c, quarter(c))
    } else {
        default_colors()
    }
}

fn hex_digit_value(c: char) -> (r: Option<u8>)
    ensures
        r == hex_digit(c),
{
    if '0' <= c && c <= '9' {
        Some((c as u32 - '0' as u32) as u8)
    } else if 'a' <= c && c <= 'f' {
        Some((c as u32 - 'a' as u32 + 10) as u8)
    } else if 'A' <= c && c <= 'F' {
        Some((c as u32 - 'A' as u32 + 10) as u8)
    } else {
        None
    }
}

fn hex_byte_value(hi: char, lo: char) -> (r: Option<u8>)
    ensures
        r == hex_byte(hi, lo),
{
    match (hex_digit_value(hi), hex_digit_value(lo)) {
        (Some(h), Some(l)) => Some(h * 16 + l),
        _ => None,
    }
}

/// Reads a color written as six hexadecimal digits `RRGGBB`; `None` when
/// the text is anything else.
pub fn hex_to_rgb(hex: &str) -> (r: Option<Rgb>)
    ensures
        r == hex_color(hex@),
{
    let cs = chars_of(hex);
    hex_chars_to_rgb(cs.as_slice())
}

fn hex_chars_to_rgb(cs: &[char]) -> (r: Option<Rgb>)
    ensures
        r == hex_color(cs@),
{
    if cs.len() != 6 {
        return None;
    }
    match (hex_byte_value(cs[0], cs[1]), hex_byte_value(cs[2], cs[3]), hex_byte_value(cs[4], cs[5])) {
        (Some(r), Some(g), Some(b)) => Some(Rgb { red: r, green: g, blue: b }),
        _ => None,
    }
}

fn colors(fg: (u8, u8, u8), bg: (u8, u8, u8)) -> (r: (Rgb, Rgb))
    ensures
        r == (rgb(fg.0, fg.1, fg.2), rgb(bg.0, bg.1, bg.2)),
{
    (Rgb { red: fg.0, green: fg.1, blue: fg.2 }, Rgb { red: bg.0, green: bg.1, blue: bg.2 })
}

/// The foreground and background of a color name: a named color, `#RRGGBB`
/// with a background at a quarter of its intensity, or white on dark gray
/// for anything else.
pub fn mc_colors(color: &str) -> (r: (Rgb, Rgb))
    ensures
        r == palette(color@),
{
    if str_eq(color, "black") {
        colors((0, 0, 0), (0, 0, 0))
    } else if str_eq(color, "dark_blue") {
        colors((0, 0, 170), (0, 0, 42))
    } else if str_eq(color, "dark_green") {
        colors((0, 170, 0), (0, 42, 0))
    } else if str_eq(color, "dark_aqua") {
        colors((0, 170, 170), (0, 42, 42))
    } else if str_eq(color, "dark_red") {
        colors((170, 0, 0), (42, 0, 0))
    } else if str_eq(color, "dark_purple") {
        colors((170, 0, 170), (42, 0, 42))
    } else if str_eq(color, "gold") {
        colors((255, 170, 0), (63, 42, 0))
    } else if str_eq(color, "gray") {
        colors((170, 170, 170), (42, 42, 42))
    } else if str_eq(color, "dark_gray") {
        colors((85, 85, 85), (21, 21, 21))
    } else if str_eq(color, "blue") {
        colors((85, 85, 255), (21, 21, 63))
    } else if str_eq(color, "green") {
        colors((85, 255, 85), (21, 63, 21))
    } else if str_eq(color, "aqua") {
        colors((85, 255, 255), (21, 63, 63))
    } else if str_eq(color, "red") {
        colors((255, 85, 85), (63, 21, 21))
    } else if str_eq(color, "light_purple") {
        colors((255, 85, 255), (63, 21, 63))
    } else if str_eq(color, "yellow") {
        colors((255, 255, 85), (63, 63, 21))
    } else if str_eq(color, "white") {
        colors((255, 255, 255), (63, 63, 63))
    } else {
        let cs = chars_of(color);
        if cs.len() > 0 && cs[0] == '#' {
            let rest = tail_chars(cs.as_slice());
            match hex_chars_to_rgb(rest.as_slice()) {
                Some(c) => (c, Rgb { red: c.red / 4, green: c.green / 4, blue: c.blue / 4 }),
                None => colors((255, 255, 255), (63, 63, 63)),
            }
        } else {
            colors((255, 255, 255), (63, 63, 63))
        }
    }
}

fn tail_chars(cs: &[char]) -> (r: Vec<char>)
    requires
        cs@.len() > 0,
    ensures
        r@ == cs@.drop_first(),
{
    let mut out: Vec<char> = Vec::new();
    let mut i: usize = 1;
    while i < cs.len()
        invariant
            1 <= i <= cs@.len(),
            out@ == cs@.subrange(1, i as int),
        decreases cs@.len() - i,
    {
        out.push(cs[i]);
        proof {
            assert(cs@.subrange(1, i + 1) =~= cs@.subrange(1, i as int).push(cs@[i as int]));
        }
        i += 1;
    }
    proof {
        assert(cs@.subrange(1, cs@.len() as int) =~= cs@.drop_first());
    }
    out
}

/// How a piece of text is drawn.
#[derive(Debug, Clone, Copy, PartialEq, Eq, Structural)]
pub struct Styles {
    pub bold: bool,
    pub italic: bool,
    pub underlined: bool,
    pub strikethrough: bool,
    pub foreground: Rgb,
    pub background: Rgb,
}

/// Plain text, white on dark gray.
pub open spec fn default_styles() -> Styles {
    Styles {
        bold: false,
        italic: false,
        underlined: false,
        strikethrough: false,
        foreground: default_colors().0,
        background: default_colors().1,
    }
}

impl Styles {
    /// Plain text, white on dark gray.
    pub fn new() -> (r: Styles)
        ensures
            r == default_styles(),
    {
        Styles {
            bold: false,
            italic: false,
            underlined: false,
            strikethrough: false,
            foreground: Rgb { red: 255, green: 255, blue: 255 },
            background: Rgb { red: 63, green: 63, blue: 63 },
        }
    }

    /// Takes on every attribute of `other`.
    pub fn copy_from(&mut self, other: &Styles)
        ensures
            *final(self) == *other,
    {
        self.bold = other.bold;
        self.italic = other.italic;
        self.underlined = other.underlined;
        self.strikethrough = other.strikethrough;
        self.foreground = other.foreground;
        self.background = other.background;
    }

    /// A style that inherits every attribute of `inherited_format`.
    pub fn from_styles(inherited_format: &Styles) -> (r: Styles)
        ensures
            r == *inherited_format,
    {
        let mut text_format = Styles::new();
        text_format.copy_from(inherited_format);
        text_format
    }
}

/// The ANSI parameter that a legacy formatting code stands for.
pub open spec fn ansi_code(c: char) -> Option<u8> {
    if c == '0' { Some(30) }
    else if c == '1' { Some(34) }
    else if c == '2' { Some(32) }
    else if c == '3' { Some(36) }
    else if c == '4' { Some(31) }
    else if c == '5' { Some(35) }
    else if c == '6' { Some(33) }
    else if c == '7' { Some(37) }
    else if c == '8' { Some(90) }
    else if c == '9' { Some(94) }
    else if c == 'a' { Some(92) }
    else if c == 'b' { Some(96) }
    else if c == 'c' { Some(91) }
    else if c == 'd' { Some(95) }
    else if c == 'e' { Some(93) }
    else if c == 'f' { Some(97) }
    else if c == 'r' { Some(0) }
    else if c == 'l' { Some(1) }
    else if c == 'o' { Some(3) }
    else if c == 'n' { Some(4) }
    else if c == 'm' { Some(9) }
    else { None }
}

/// The decimal digit character of `d`, for `d < 10`.
pub open spec fn digit_char(d: u8) -> char {
    ((48 + d) as u8) as char
}

/// The escape sequence `ESC [ n m`.
pub open spec fn ansi_escape(n: u8) -> Seq<char> {
    if n < 10 {
        seq!['\x1b', '[', digit_char(n), 'm']
    } else {
        seq!['\x1b', '[', digit_char(n / 10), digit_char(n % 10), 'm']
    }
}

/// The section sign that introduces a legacy formatting code.
pub const SECTION_SIGN: char = '\u{a7}';

/// Text with each legacy code (section sign, code) turned into its ANSI
/// escape; a section sign before anything else is dropped.
pub open spec fn ansi_text(s: Seq<char>) -> Seq<char>
    decreases s.len(),
{
    if s.len() == 0 {
        Seq::empty()
    } else if s[0] == SECTION_SIGN {
        if s.len() >= 2 && ansi_code(s[1]) is Some {
            ansi_escape(ansi_code(s[1])->Some_0) + ansi_text(s.subrange(2, s.len() as int))
        } else {
            ansi_text(s.subrange(1, s.len() as int))
        }
    } else {
        seq![s[0]] + ansi_text(s.subrange(1, s.len() as int))
    }
}

fn ansi_code_of(c: char) -> (r: Option<u8>)
    ensures
        r == ansi_code(c),
{
    if c == '0' { Some(30) }
    else if c == '1' { Some(34) }
    else if c == '2' { Some(32) }
    else if c == '3' { Some(36) }
    else if c == '4' { Some(31) }
    else if c == '5' { Some(35) }
    else if c == '6' { Some(33) }
    else if c == '7' { Some(37) }
    else if c == '8' { Some(90) }
    else if c == '9' { Some(94) }
    else if c == 'a' { Some(92) }
    else if c == 'b' { Some(96) }
    else if c == 'c' { Some(91) }
    else if c == 'd' { Some(95) }
    else if c == 'e' { Some(93) }
    else if c == 'f' { Some(97) }
    else if c == 'r' { Some(0) }
    else if c == 'l' { Some(1) }
    else if c == 'o' { Some(3) }
    else if c == 'n' { Some(4) }
    else if c == 'm' { Some(9) }
    else { None }
}

fn digit_of(d: u8) -> (r: char)
    requires
        d < 10,
    ensures
        r == digit_char(d),
{
    (48u8 + d) as char
}

fn push_escape(out: &mut Vec<char>, n: u8)
    requires
        n < 100,
    ensures
        final(out)@ == old(out)@ + ansi_escape(n),
{
    out.push('\x1b');
    out.push('[');
    if n >= 10 {
        out.push(digit_of(n / 10));
    }
    out.push(digit_of(n % 10));
    out.push('m');
    proof {
        assert(final(out)@ =~= old(out)@ + ansi_escape(n));
    }
}

/// Turns the legacy section-sign codes of `s` into ANSI escapes.
pub fn minecraft_to_ansi(s: String) -> (r: String)
    ensures
        r@ == ansi_text(s@),
{
    let cs = chars_of(s.as_str());
    let out = ansi_chars(cs.as_slice());
    string_of(out.as_slice())
}

fn ansi_chars(cs: &[char]) -> (r: Vec<char>)
    ensures
        r@ == ansi_text(cs@),
{
    let mut out: Vec<char> = Vec::new();
    let mut i: usize = 0;
    let n = cs.len();
    proof {
        assert(cs@.subrange(0, n as int) =~= cs@);
    }
    while i < n
        invariant
            i <= n,
            n == cs@.len(),
            out@ + ansi_text(cs@.subrange(i as int, n as int)) == ansi_text(cs@),
        decreases n - i,
    {
        let ghost rest = cs@.subrange(i as int, n as int);
        let c = cs[i];
        if c == SECTION_SIGN {
            if i + 1 < n {
                match ansi_code_of(cs[i + 1]) {
                    Some(code) => {
                        let ghost prev = out@;
                        push_escape(&mut out, code);
                        proof {
                            assert(rest.subrange(2, rest.len() as int) =~= cs@.subrange(i + 2, n as int));
                            assert(out@ + ansi_text(cs@.subrange(i + 2, n as int)) =~= prev + ansi_text(rest));
                        }
                        i = i + 2;
                    },
                    None => {
                        proof {
                            assert(rest.subrange(1, rest.len() as int) =~= cs@.subrange(i + 1, n as int));
                        }
                        i = i + 1;
                    },
                }
            } else {
                proof {
                    assert(rest.subrange(1, rest.len() as int) =~= cs@.subrange(i + 1, n as int));
                }
                i = i + 1;
            }
        } else {
            let ghost prev = out@;
            out.push(c);
            proof {
                assert(rest.subrange(1, rest.len() as int) =~= cs@.subrange(i + 1, n as int));
                assert(out@ + ansi_text(cs@.subrange(i + 1, n as int)) =~= prev + ansi_text(rest));
            }
            i = i + 1;
        }
    }
    proof {
        assert(out@ + ansi_text(cs@.subrange(n as int, n as int)) =~= out@);
    }
    out
}

} // verus!
