//! The colour theme: resolving the user's settings into a palette.
//!
//! Colours are `#rrggbb` text. Reading a channel follows
//! `u8::from_str_radix(&hex[i..i + 2], 16)` on the bytes of the colour with its
//! leading `#`s removed; a channel that does not parse reads as a fallback
//! value. Slicing there needs byte offsets 2, 4 and 6 to fall on character
//! boundaries, which `color_slices_ok` tests.

use vstd::prelude::*;
use vstd::string::*;
use vstd::utf8::{encode_utf8, is_ascii_chars, is_ascii_chars_encode_utf8, is_char_boundary};
use crate::config::settings::Settings;
use crate::text::{owned, push_char, strip_leading, text_eq, trim_leading};

verus! {

/// The value of a hexadecimal digit byte, as `char::to_digit(16)` reads it.
pub open spec fn hex_digit(b: u8) -> Option<u8> {
    if 48 <= b <= 57 {
        Some((b - 48) as u8)
    } else if 97 <= b <= 102 {
        Some((b - 87) as u8)
    } else if 65 <= b <= 70 {
        Some((b - 55) as u8)
    } else {
        None
    }
}

/// What `u8::from_str_radix` gives for the two bytes `b0 b1` in base 16: a
/// leading `+` is allowed before a single digit.
pub open spec fn hex_pair(b0: u8, b1: u8) -> Option<u8> {
    if b0 == 43 {
        hex_digit(b1)
    } else {
        match (hex_digit(b0), hex_digit(b1)) {
            (Some(x), Some(y)) => Some((16 * x + y) as u8),
            _ => None,
        }
    }
}

/// The colour text after its leading `#`s.
pub open spec fn hex_body(hex: Seq<char>) -> Seq<char> {
    strip_leading(hex, '#')
}

/// Whether reading the channels of `hex` stays on character boundaries.
pub open spec fn hex_slices_ok(hex: Seq<char>) -> bool {
    let b = encode_utf8(hex_body(hex));
    b.len() >= 6 ==> is_char_boundary(b, 2) && is_char_boundary(b, 4) && is_char_boundary(b, 6)
}

/// Channel `i` (0, 1 or 2) of the colour bytes `b`, or `fallback` when it does not parse.
pub open spec fn channel_or(b: Seq<u8>, i: int, fallback: u8) -> u8 {
    match hex_pair(b[2 * i], b[2 * i + 1]) {
        Some(v) => v,
        None => fallback,
    }
}

/// Channel value `c` moved `percent` percent of the way towards 255,
/// rounded to the nearest integer with halves rounded up.
pub open spec fn lerp(c: u8, percent: u8) -> u8 {
    ((100 * c + (255 - c) * percent + 50) / 100) as u8
}

/// The lowercase hexadecimal digit for `d` (below 16).
pub open spec fn lower_hex_digit(d: u8) -> char {
    if d < 10 {
        (48 + d) as char
    } else {
        (87 + d) as char
    }
}

/// Two lowercase hexadecimal digits for `v`.
pub open spec fn hex2(v: u8) -> Seq<char> {
    seq![lower_hex_digit(v / 16), lower_hex_digit(v % 16)]
}

/// `hex` lightened towards white by `percent` percent: `#` and six lowercase
/// digits; a colour shorter than six bytes comes back as `#` and its body.
pub open spec fn lightened(hex: Seq<char>, percent: u8) -> Seq<char> {
    let body = hex_body(hex);
    let b = encode_utf8(body);
    if b.len() < 6 {
        seq!['#'] + body
    } else {
        seq!['#'] + hex2(lerp(channel_or(b, 0, 0), percent)) + hex2(lerp(channel_or(b, 1, 0), percent))
            + hex2(lerp(channel_or(b, 2, 0), percent))
    }
}

/// A colour as red, green and blue channels.
#[derive(Clone, Debug)]
pub struct Rgb {
    /// Red channel.
    pub r: u8,
    /// Green channel.
    pub g: u8,
    /// Blue channel.
    pub b: u8,
}

/// The channels of `hex`; mid grey when it is shorter than six bytes, and
/// 128 for each channel that does not parse.
pub open spec fn rgb_of(hex: Seq<char>) -> Rgb {
    let b = encode_utf8(hex_body(hex));
    if b.len() < 6 {
        Rgb { r: 128, g: 128, b: 128 }
    } else {
        Rgb { r: channel_or(b, 0, 128), g: channel_or(b, 1, 128), b: channel_or(b, 2, 128) }
    }
}

/// The resolved theme: every colour the UI paints with, as `#rrggbb` text.
#[derive(Clone, Debug)]
pub struct ResolvedTheme {
    /// Window background.
    pub background: String,
    /// Card surface.
    pub surface: String,
    /// Alternate surface.
    pub surface_alt: String,
    /// Main text.
    pub text: String,
    /// Secondary text.
    pub text_muted: String,
    /// Accent.
    pub accent: String,
    /// Borders.
    pub border: String,
    /// Success highlights.
    pub success: String,
    /// Warning highlights.
    pub warning: String,
}

/// The palette handed to the UI, one channel triple per role.
#[derive(Clone, Debug)]
pub struct ThemePalette {
    /// Window background.
    pub background: Rgb,
    /// Card surface.
    pub surface: Rgb,
    /// Alternate surface.
    pub surface_alt: Rgb,
    /// Borders.
    pub border: Rgb,
    /// Main text.
    pub text: Rgb,
    /// Secondary text.
    pub text_muted: Rgb,
    /// Accent.
    pub accent: Rgb,
    /// Accent under the pointer.
    pub accent_hover: Rgb,
    /// Success highlights.
    pub success: Rgb,
    /// Warning highlights.
    pub warning: Rgb,
    /// Destructive actions.
    pub danger: Rgb,
}

fn hex_digit_value(b: u8) -> (r: Option<u8>)
    ensures
        r == hex_digit(b),
{
    if 48 <= b && b <= 57 {
        Some(b - 48)
    } else if 97 <= b && b <= 102 {
        Some(b - 87)
    } else if 65 <= b && b <= 70 {
        Some(b - 55)
    } else {
        None
    }
}

fn hex_pair_value(b0: u8, b1: u8) -> (r: Option<u8>)
    ensures
        r == hex_pair(b0, b1),
{
    if b0 == 43 {
        hex_digit_value(b1)
    } else {
        match (hex_digit_value(b0), hex_digit_value(b1)) {
            (Some(x), Some(y)) => Some(16 * x + y),
            _ => None,
        }
    }
}

/// The colour body and its bytes.
fn color_bytes(hex: &str) -> (r: (String, Vec<u8>))
    ensures
        r.0@ == hex_body(hex@),
        r.1@ == encode_utf8(hex_body(hex@)),
{
    let body = trim_leading(hex, '#');
    let bytes = body.as_str().as_bytes_vec();
    (body, bytes)
}

/// Channel `i` of the colour bytes, or `fallback`.
fn channel_value(b: &Vec<u8>, i: usize, fallback: u8) -> (v: u8)
    requires
        i < 3,
        b@.len() >= 6,
    ensures
        v == channel_or(b@, i as int, fallback),
{
    match hex_pair_value(b[2 * i], b[2 * i + 1]) {
        Some(v) => v,
        None => fallback,
    }
}

fn lerp_value(c: u8, percent: u8) -> (v: u8)
    requires
        percent <= 100,
    ensures
        v == lerp(c, percent),
{
    let c32 = c as u32;
    let p32 = percent as u32;
    assert((255 - c32) * p32 <= (255 - c32) * 100) by (nonlinear_arith)
        requires
            p32 <= 100,
            c32 <= 255,
    ;
    ((100 * c32 + (255 - c32) * p32 + 50) / 100) as u8
}

fn push_hex2(s: &mut String, v: u8)
    ensures
        final(s)@ == old(s)@ + hex2(v),
{
    let hi = v / 16;
    let lo = v % 16;
    let ch = if hi < 10 {
        (48 + hi) as char
    } else {
        (87 + hi) as char
    };
    let cl = if lo < 10 {
        (48 + lo) as char
    } else {
        (87 + lo) as char
    };
    push_char(s, ch);
    push_char(s, cl);
    assert(final(s)@ =~= old(s)@ + hex2(v));
}

/// Whether the channels of `hex` can be read: byte offsets 2, 4 and 6 of its
/// body fall on character boundaries whenever the body has six bytes or more.
pub fn color_slices_ok(hex: &str) -> (ok: bool)
    ensures
        ok == hex_slices_ok(hex@),
{
    let body = trim_leading(hex, '#');
    let s = body.as_str();
    if s.as_bytes().len() < 6 {
        true
    } else {
        s.is_char_boundary(2) && s.is_char_boundary(4) && s.is_char_boundary(6)
    }
}

/// Lightens a `#rrggbb` colour towards white by `percent` percent.
fn lighten(hex: &str, percent: u8) -> (s: String)
    requires
        hex_slices_ok(hex@),
        percent <= 100,
    ensures
        s@ == lightened(hex@, percent),
{
    let (body, b) = color_bytes(hex);
    let mut s = owned("#");
    proof {
        reveal_strlit("#");
    }
    if b.len() < 6 {
        s.append(body.as_str());
        assert(s@ =~= lightened(hex@, percent));
        s
    } else {
        push_hex2(&mut s, lerp_value(channel_value(&b, 0, 0), percent));
        push_hex2(&mut s, lerp_value(channel_value(&b, 1, 0), percent));
        push_hex2(&mut s, lerp_value(channel_value(&b, 2, 0), percent));
        assert(s@ =~= lightened(hex@, percent));
        s
    }
}

/// The channels of a `#rrggbb` colour; mid grey for a short colour and 128
/// for a channel that does not parse.
pub fn parse_hex(hex: &str) -> (c: Rgb)
    requires
        hex_slices_ok(hex@),
    ensures
        c == rgb_of(hex@),
{
    let (_body, b) = color_bytes(hex);
    if b.len() < 6 {
        Rgb { r: 128, g: 128, b: 128 }
    } else {
        Rgb { r: channel_value(&b, 0, 128), g: channel_value(&b, 1, 128), b: channel_value(&b, 2, 128) }
    }
}

/// Whether a theme preference means dark mode: everything but "Light" does.
pub fn dark_mode(theme_mode: &str) -> (dark: bool)
    ensures
        dark == (theme_mode@ != "Light"@),
{
    proof {
        reveal_strlit("Dark");
        reveal_strlit("Light");
        assert("Dark"@.len() != "Light"@.len());
    }
    if text_eq(theme_mode, "Dark") {
        true
    } else if text_eq(theme_mode, "Light") {
        false
    } else {
        true
    }
}

impl ResolvedTheme {
    /// Resolves the theme from the user's colours: in dark mode the custom
    /// background and text with surfaces lightened from the background by 10
    /// and 16 percent; in light mode a fixed light palette. The accent is the
    /// user's in both.
    pub fn resolve(settings: &Settings, dark_mode: bool) -> (t: Self)
        requires
            dark_mode ==> hex_slices_ok(settings.custom_colors.background@),
        ensures
            t.accent == settings.custom_colors.accent,
            dark_mode ==> {
                &&& t.background == settings.custom_colors.background
                &&& t.surface@ == lightened(settings.custom_colors.background@, 10)
                &&& t.surface_alt@ == lightened(settings.custom_colors.background@, 16)
                &&& t.text == settings.custom_colors.text
                &&& t.text_muted@ == "#888888"@
                &&& t.border@ == "#333333"@
                &&& t.success@ == "#4ade80"@
                &&& t.warning@ == "#fbbf24"@
            },
            !dark_mode ==> {
                &&& t.background@ == "#f5f5f5"@
                &&& t.surface@ == "#ffffff"@
                &&& t.surface_alt@ == "#fafafa"@
                &&& t.text@ == "#1a1a1a"@
                &&& t.text_muted@ == "#666666"@
                &&& t.border@ == "#e0e0e0"@
                &&& t.success@ == "#22c55e"@
                &&& t.warning@ == "#f59e0b"@
            },
    {
        let colors = &settings.custom_colors;
        if dark_mode {
            ResolvedTheme {
                background: colors.background.clone(),
                surface: lighten(colors.background.as_str(), 10),
                surface_alt: lighten(colors.background.as_str(), 16),
                text: colors.text.clone(),
                text_muted: owned("#888888"),
                accent: colors.accent.clone(),
                border: owned("#333333"),
                success: owned("#4ade80"),
                warning: owned("#fbbf24"),
            }
        } else {
            ResolvedTheme {
                background: owned("#f5f5f5"),
                surface: owned("#ffffff"),
                surface_alt: owned("#fafafa"),
                text: owned("#1a1a1a"),
                text_muted: owned("#666666"),
                accent: colors.accent.clone(),
                border: owned("#e0e0e0"),
                success: owned("#22c55e"),
                warning: owned("#f59e0b"),
            }
        }
    }

    /// Whether every colour of the theme can be read by `parse_hex`.
    pub open spec fn readable(&self) -> bool {
        &&& hex_slices_ok(self.background@)
        &&& hex_slices_ok(self.surface@)
        &&& hex_slices_ok(self.surface_alt@)
        &&& hex_slices_ok(self.border@)
        &&& hex_slices_ok(self.text@)
        &&& hex_slices_ok(self.text_muted@)
        &&& hex_slices_ok(self.accent@)
        &&& hex_slices_ok(self.success@)
        &&& hex_slices_ok(self.warning@)
    }

    /// Whether every colour of the theme can be read by `parse_hex`.
    pub fn is_readable(&self) -> (ok: bool)
        ensures
            ok == self.readable(),
    {
        color_slices_ok(self.background.as_str()) && color_slices_ok(self.surface.as_str())
            && color_slices_ok(self.surface_alt.as_str()) && color_slices_ok(self.border.as_str())
            && color_slices_ok(self.text.as_str()) && color_slices_ok(self.text_muted.as_str())
            && color_slices_ok(self.accent.as_str()) && color_slices_ok(self.success.as_str())
            && color_slices_ok(self.warning.as_str())
    }
}

/// The palette for the UI: each colour of the theme as channels, the accent
/// doubling as its hover colour, and a fixed red (`#ef4444`) for destructive actions.
pub fn slint_theme(t: &ResolvedTheme) -> (p: ThemePalette)
    requires
        t.readable(),
    ensures
        p.background == rgb_of(t.background@),
        p.surface == rgb_of(t.surface@),
        p.surface_alt == rgb_of(t.surface_alt@),
        p.border == rgb_of(t.border@),
        p.text == rgb_of(t.text@),
        p.text_muted == rgb_of(t.text_muted@),
        p.accent == rgb_of(t.accent@),
        p.accent_hover == rgb_of(t.accent@),
        p.success == rgb_of(t.success@),
        p.warning == rgb_of(t.warning@),
        p.danger == (Rgb { r: 0xef, g: 0x44, b: 0x44 }),
{
    ThemePalette {
        background: parse_hex(t.background.as_str()),
        surface: parse_hex(t.surface.as_str()),
        surface_alt: parse_hex(t.surface_alt.as_str()),
        border: parse_hex(t.border.as_str()),
        text: parse_hex(t.text.as_str()),
        text_muted: parse_hex(t.text_muted.as_str()),
        accent: parse_hex(t.accent.as_str()),
        accent_hover: parse_hex(t.accent.as_str()),
        success: parse_hex(t.success.as_str()),
        warning: parse_hex(t.warning.as_str()),
        danger: Rgb { r: 0xef, g: 0x44, b: 0x44 },
    }
}

/// Lightening moves a channel towards white and never past it: no channel
/// gets darker, none exceeds 255, 0 percent keeps it and 100 percent gives white.
pub proof fn lemma_lerp_towards_white(c: u8, percent: u8)
    requires
        percent <= 100,
    ensures
        c <= lerp(c, percent) <= 255,
        percent == 0 ==> lerp(c, percent) == c,
        percent == 100 ==> lerp(c, percent) == 255,
{
    assert((255 - c) * percent <= (255 - c) * 100) by (nonlinear_arith)
        requires
            percent <= 100,
            c <= 255,
    ;
    assert(0 <= (255 - c) * percent) by (nonlinear_arith)
        requires
            c <= 255,
    ;
}

proof fn lemma_hex2_reads_back(v: u8)
    ensures
        is_ascii_chars(hex2(v)),
        hex2(v).len() == 2,
        hex2(v)[0] != '#',
        hex_pair(hex2(v)[0] as u8, hex2(v)[1] as u8) == Some(v),
{
    let hi = (v / 16) as u8;
    let lo = (v % 16) as u8;
    assert(hi < 16 && lo < 16);
    let ch = lower_hex_digit(hi);
    let cl = lower_hex_digit(lo);
    assert(ch as u8 == if hi < 10 { 48 + hi } else { 87 + hi });
    assert(cl as u8 == if lo < 10 { 48 + lo } else { 87 + lo });
    assert(hex_digit(ch as u8) == Some(hi));
    assert(hex_digit(cl as u8) == Some(lo));
    assert(16 * hi + lo == v);
}

/// Reading back a lightened colour of six bytes or more gives each channel
/// of the original, moved towards white, in its own place: red from the
/// first pair, green from the second, blue from the third.
pub proof fn lemma_lightened_channels(hex: Seq<char>, percent: u8)
    requires
        encode_utf8(hex_body(hex)).len() >= 6,
    ensures
        ({
            let b = encode_utf8(hex_body(hex));
            rgb_of(lightened(hex, percent)) == (Rgb {
                r: lerp(channel_or(b, 0, 0), percent),
                g: lerp(channel_or(b, 1, 0), percent),
                b: lerp(channel_or(b, 2, 0), percent),
            })
        }),
{
    let b = encode_utf8(hex_body(hex));
    let x = hex2(lerp(channel_or(b, 0, 0), percent));
    let y = hex2(lerp(channel_or(b, 1, 0), percent));
    let z = hex2(lerp(channel_or(b, 2, 0), percent));
    lemma_hex2_reads_back(lerp(channel_or(b, 0, 0), percent));
    lemma_hex2_reads_back(lerp(channel_or(b, 1, 0), percent));
    lemma_hex2_reads_back(lerp(channel_or(b, 2, 0), percent));
    let digits = x + y + z;
    let out = seq!['#'] + digits;
    assert(lightened(hex, percent) == out);
    assert(out.drop_first() =~= digits);
    assert(digits[0] == x[0]);
    assert(strip_leading(digits, '#') == digits);
    assert(hex_body(out) == digits);
    assert(is_ascii_chars(digits)) by {
        assert forall|i: int| 0 <= i < digits.len() implies '\0' <= #[trigger] digits[i] <= '\u{7f}' by {
            if i < 2 {
                assert(digits[i] == x[i]);
            } else if i < 4 {
                assert(digits[i] == y[i - 2]);
            } else {
                assert(digits[i] == z[i - 4]);
            }
        }
    }
    is_ascii_chars_encode_utf8(digits);
    let e = encode_utf8(digits);
    assert(e[0] == x[0] as u8 && e[1] == x[1] as u8);
    assert(e[2] == y[0] as u8 && e[3] == y[1] as u8);
    assert(e[4] == z[0] as u8 && e[5] == z[1] as u8);
}

} // verus!
