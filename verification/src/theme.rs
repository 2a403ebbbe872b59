//! Colors of the launcher's skin. Theme files and settings write colors in
//! the QML formats `#RGB`, `#RRGGBB` and `#AARRGGBB` (alpha first).

use vstd::prelude::*;
use crate::nums::{all_digits, digit_val, digits_value, parse_uint_chars};
use crate::text::{chars_of, join_path, path_join, views, str_is};
use crate::order::{keys_view, sort_positions, stable_order, Key};

verus! {

/// An RGBA color.
#[derive(Debug, Clone, Copy, PartialEq, Eq, Structural)]
pub struct Rgba {
    pub r: u8,
    pub g: u8,
    pub b: u8,
    pub a: u8,
}

/// The number of `#`-color digits a format has: 3 (`#RGB`), 6 (`#RRGGBB`)
/// or 8 (`#AARRGGBB`).
pub open spec fn color_len(n: nat) -> bool {
    n == 3 || n == 6 || n == 8
}

/// The color a QML color string denotes: `#` followed by 3, 6 or 8 hex
/// digits (either case) for `#RGB`, `#RRGGBB`, `#AARRGGBB` (alpha first);
/// None for anything else.
pub open spec fn parse_spec(s: Seq<char>) -> Option<Rgba> {
    if s.len() == 0 || s[0] != '#' {
        None
    } else {
        let hex = s.drop_first();
        if !color_len(hex.len()) || !all_digits(hex, 16) {
            None
        } else {
            let v = digits_value(hex, 16);
            if hex.len() == 3 {
                Some(Rgba {
                    r: (((v / 256) % 16) * 17) as u8,
                    g: (((v / 16) % 16) * 17) as u8,
                    b: ((v % 16) * 17) as u8,
                    a: 255,
                })
            } else if hex.len() == 6 {
                Some(Rgba {
                    r: ((v / 65536) % 256) as u8,
                    g: ((v / 256) % 256) as u8,
                    b: (v % 256) as u8,
                    a: 255,
                })
            } else {
                Some(Rgba {
                    r: ((v / 65536) % 256) as u8,
                    g: ((v / 256) % 256) as u8,
                    b: (v % 256) as u8,
                    a: ((v / 16777216) % 256) as u8,
                })
            }
        }
    }
}

/// Sixteen to the power `n`.
pub open spec fn pow16(n: nat) -> nat
    decreases n,
{
    if n == 0 {
        1
    } else {
        16 * pow16((n - 1) as nat)
    }
}

/// Hex digits denote less than sixteen to the power of their count.
proof fn lemma_hex_value_bound(s: Seq<char>)
    requires
        all_digits(s, 16),
    ensures
        digits_value(s, 16) < pow16(s.len()),
    decreases s.len(),
{
    if s.len() > 0 {
        let t = s.drop_last();
        assert forall|i: int| 0 <= i < t.len() implies (#[trigger] digit_val(t[i], 16)) is Some by {
            assert(t[i] == s[i]);
        }
        lemma_hex_value_bound(t);
        assert(digit_val(s[s.len() - 1], 16) is Some);
        let d = digit_val(s.last(), 16).unwrap();
        let v = digits_value(t, 16);
        let p = pow16(t.len());
        assert(d < 16);
        assert(v * 16 + d < p * 16) by (nonlinear_arith)
            requires
                v < p,
                d < 16,
        ;
        assert(pow16(s.len()) == 16 * p);
    }
}

/// Whether a character is a hex digit.
fn is_hex_digit(c: char) -> (b: bool)
    ensures
        b == (digit_val(c, 16) is Some),
{
    ('0' <= c && c <= '9') || ('a' <= c && c <= 'f') || ('A' <= c && c <= 'F')
}

/// The hex digit character of `d < 16`, lower or upper case.
pub open spec fn hex_digit(d: nat, upper: bool) -> char {
    if d == 0 { '0' } else if d == 1 { '1' } else if d == 2 { '2' } else if d == 3 { '3' }
    else if d == 4 { '4' } else if d == 5 { '5' } else if d == 6 { '6' } else if d == 7 { '7' }
    else if d == 8 { '8' } else if d == 9 { '9' }
    else if upper {
        if d == 10 { 'A' } else if d == 11 { 'B' } else if d == 12 { 'C' } else if d == 13 { 'D' }
        else if d == 14 { 'E' } else { 'F' }
    } else {
        if d == 10 { 'a' } else if d == 11 { 'b' } else if d == 12 { 'c' } else if d == 13 { 'd' }
        else if d == 14 { 'e' } else { 'f' }
    }
}

/// A byte as two hex digits, high digit first.
pub open spec fn hex_byte(x: u8, upper: bool) -> Seq<char> {
    seq![hex_digit((x / 16) as nat, upper), hex_digit((x % 16) as nat, upper)]
}

/// A color written `#RRGGBB`.
pub open spec fn format_rgb(c: Rgba, upper: bool) -> Seq<char> {
    seq!['#'] + hex_byte(c.r, upper) + hex_byte(c.g, upper) + hex_byte(c.b, upper)
}

/// A color written `#AARRGGBB`.
pub open spec fn format_argb(c: Rgba, upper: bool) -> Seq<char> {
    seq!['#'] + hex_byte(c.a, upper) + hex_byte(c.r, upper) + hex_byte(c.g, upper) + hex_byte(c.b, upper)
}

/// Three hex digits written `#RGB`.
pub open spec fn format_short(x: nat, y: nat, z: nat, upper: bool) -> Seq<char> {
    seq!['#', hex_digit(x, upper), hex_digit(y, upper), hex_digit(z, upper)]
}

/// A hex digit character reads back as its value.
proof fn lemma_hex_digit(d: nat, upper: bool)
    requires
        d < 16,
    ensures
        digit_val(hex_digit(d, upper), 16) == Some(d),
{
}

/// Appending one digit multiplies by the radix and adds the digit.
proof fn lemma_digits_push(s: Seq<char>, c: char)
    ensures
        digits_value(s.push(c), 16) == digits_value(s, 16) * 16 + match digit_val(c, 16) {
            Some(d) => d,
            None => 0,
        },
{
    assert(s.push(c).drop_last() =~= s);
}

/// The value of a run of digits given by their values.
proof fn lemma_hex_run(ds: Seq<nat>, upper: bool)
    requires
        forall|i: int| 0 <= i < ds.len() ==> #[trigger] ds[i] < 16,
    ensures
        all_digits(ds.map_values(|d: nat| hex_digit(d, upper)), 16),
        digits_value(ds.map_values(|d: nat| hex_digit(d, upper)), 16) == run_value(ds),
    decreases ds.len(),
{
    let s = ds.map_values(|d: nat| hex_digit(d, upper));
    if ds.len() > 0 {
        let t = ds.drop_last();
        lemma_hex_run(t, upper);
        let ts = t.map_values(|d: nat| hex_digit(d, upper));
        assert(s =~= ts.push(hex_digit(ds.last(), upper)));
        lemma_hex_digit(ds.last(), upper);
        lemma_digits_push(ts, hex_digit(ds.last(), upper));
        assert forall|i: int| 0 <= i < s.len() implies (#[trigger] digit_val(s[i], 16)) is Some by {
            lemma_hex_digit(ds[i], upper);
        }
    } else {
        assert(s =~= Seq::<char>::empty());
    }
}

/// The number digits of these values denote, most significant first.
pub open spec fn run_value(ds: Seq<nat>) -> nat
    decreases ds.len(),
{
    if ds.len() == 0 {
        0
    } else {
        run_value(ds.drop_last()) * 16 + ds.last()
    }
}

/// Appending a digit value to a run.
proof fn lemma_run_push(ds: Seq<nat>, d: nat)
    ensures
        run_value(ds.push(d)) == run_value(ds) * 16 + d,
{
    assert(ds.push(d).drop_last() =~= ds);
}

/// The value of two hex digits of a byte is the byte.
proof fn lemma_byte_digits(x: u8)
    ensures
        (x / 16) as nat * 16 + (x % 16) as nat == x as nat,
        (x / 16) < 16,
        (x % 16) < 16,
{
}

/// What a digit string denotes and that it is all digits, from the
/// values of its digits.
proof fn lemma_parse_run(ds: Seq<nat>, upper: bool, s: Seq<char>)
    requires
        forall|i: int| 0 <= i < ds.len() ==> #[trigger] ds[i] < 16,
        s.len() == ds.len() + 1,
        s[0] == '#',
        forall|i: int| 0 <= i < ds.len() ==> #[trigger] s[i + 1] == hex_digit(ds[i], upper),
    ensures
        s.drop_first() == ds.map_values(|d: nat| hex_digit(d, upper)),
        all_digits(s.drop_first(), 16),
        digits_value(s.drop_first(), 16) == run_value(ds),
{
    assert(s.drop_first() =~= ds.map_values(|d: nat| hex_digit(d, upper)));
    lemma_hex_run(ds, upper);
}

/// Writing a color as `#RRGGBB` and parsing it gives it back, opaque.
proof fn lemma_parse_rgb(c: Rgba, upper: bool)
    ensures
        parse_spec(format_rgb(c, upper)) == Some(Rgba { a: 255, ..c }),
{
    lemma_byte_digits(c.r);
    lemma_byte_digits(c.g);
    lemma_byte_digits(c.b);
    let (r, g, b) = (c.r as nat, c.g as nat, c.b as nat);
    let ds = seq![r / 16, r % 16, g / 16, g % 16, b / 16, b % 16];
    let s = format_rgb(c, upper);
    assert(s =~= seq!['#', hex_digit(ds[0], upper), hex_digit(ds[1], upper), hex_digit(ds[2], upper),
        hex_digit(ds[3], upper), hex_digit(ds[4], upper), hex_digit(ds[5], upper)]);
    lemma_parse_run(ds, upper, s);
    let e = Seq::<nat>::empty();
    assert(ds =~= e.push(ds[0]).push(ds[1]).push(ds[2]).push(ds[3]).push(ds[4]).push(ds[5]));
    lemma_run_push(e, ds[0]);
    lemma_run_push(e.push(ds[0]), ds[1]);
    lemma_run_push(e.push(ds[0]).push(ds[1]), ds[2]);
    lemma_run_push(e.push(ds[0]).push(ds[1]).push(ds[2]), ds[3]);
    lemma_run_push(e.push(ds[0]).push(ds[1]).push(ds[2]).push(ds[3]), ds[4]);
    lemma_run_push(e.push(ds[0]).push(ds[1]).push(ds[2]).push(ds[3]).push(ds[4]), ds[5]);
    let v = run_value(ds);
    assert(v == r * 65536 + g * 256 + b);
    assert(v / 65536 % 256 == r && v / 256 % 256 == g && v % 256 == b) by (nonlinear_arith)
        requires
            v == r * 65536 + g * 256 + b,
            r < 256,
            g < 256,
            b < 256,
    ;
}

/// Writing a color as `#AARRGGBB` and parsing it gives it back.
proof fn lemma_parse_argb(c: Rgba, upper: bool)
    ensures
        parse_spec(format_argb(c, upper)) == Some(c),
{
    lemma_byte_digits(c.a);
    lemma_byte_digits(c.r);
    lemma_byte_digits(c.g);
    lemma_byte_digits(c.b);
    let (a, r, g, b) = (c.a as nat, c.r as nat, c.g as nat, c.b as nat);
    let ds = seq![a / 16, a % 16, r / 16, r % 16, g / 16, g % 16, b / 16, b % 16];
    let s = format_argb(c, upper);
    assert(s =~= seq!['#', hex_digit(ds[0], upper), hex_digit(ds[1], upper), hex_digit(ds[2], upper),
        hex_digit(ds[3], upper), hex_digit(ds[4], upper), hex_digit(ds[5], upper), hex_digit(ds[6], upper),
        hex_digit(ds[7], upper)]);
    lemma_parse_run(ds, upper, s);
    let e = Seq::<nat>::empty();
    let p1 = e.push(ds[0]);
    let p2 = p1.push(ds[1]);
    let p3 = p2.push(ds[2]);
    let p4 = p3.push(ds[3]);
    let p5 = p4.push(ds[4]);
    let p6 = p5.push(ds[5]);
    let p7 = p6.push(ds[6]);
    assert(ds =~= p7.push(ds[7]));
    lemma_run_push(e, ds[0]);
    lemma_run_push(p1, ds[1]);
    lemma_run_push(p2, ds[2]);
    lemma_run_push(p3, ds[3]);
    lemma_run_push(p4, ds[4]);
    lemma_run_push(p5, ds[5]);
    lemma_run_push(p6, ds[6]);
    lemma_run_push(p7, ds[7]);
    let v = run_value(ds);
    assert(v == a * 16777216 + r * 65536 + g * 256 + b);
    assert(v / 65536 % 256 == r && v / 256 % 256 == g && v % 256 == b && v / 16777216 % 256 == a)
        by (nonlinear_arith)
        requires
            v == a * 16777216 + r * 65536 + g * 256 + b,
            a < 256,
            r < 256,
            g < 256,
            b < 256,
    ;
}

/// Writing three hex digits as `#RGB` and parsing them gives each digit
/// repeated.
proof fn lemma_parse_short(x: nat, y: nat, z: nat, upper: bool)
    requires
        x < 16,
        y < 16,
        z < 16,
    ensures
        parse_spec(format_short(x, y, z, upper)) == Some(
            Rgba { r: (17 * x) as u8, g: (17 * y) as u8, b: (17 * z) as u8, a: 255 },
        ),
{
    let ds = seq![x, y, z];
    let s = format_short(x, y, z, upper);
    lemma_parse_run(ds, upper, s);
    let e = Seq::<nat>::empty();
    assert(ds =~= e.push(x).push(y).push(z));
    lemma_run_push(e, x);
    lemma_run_push(e.push(x), y);
    lemma_run_push(e.push(x).push(y), z);
    let v = run_value(ds);
    assert(v == x * 256 + y * 16 + z);
    assert(v / 256 % 16 == x && v / 16 % 16 == y && v % 16 == z) by (nonlinear_arith)
        requires
            v == x * 256 + y * 16 + z,
            x < 16,
            y < 16,
            z < 16,
    ;
}

/// Writing a color in any of the three formats and parsing it gives the
/// color back: `#RRGGBB` gives it opaque, `#AARRGGBB` gives it with its
/// alpha, and `#RGB` gives each digit repeated (`x` as `17 * x`), in
/// either letter case.
pub proof fn lemma_formatted_colors_parse(c: Rgba, upper: bool, x: nat, y: nat, z: nat)
    requires
        x < 16,
        y < 16,
        z < 16,
    ensures
        parse_spec(format_rgb(c, upper)) == Some(Rgba { a: 255, ..c }),
        parse_spec(format_argb(c, upper)) == Some(c),
        parse_spec(format_short(x, y, z, upper)) == Some(
            Rgba { r: (17 * x) as u8, g: (17 * y) as u8, b: (17 * z) as u8, a: 255 },
        ),
{
    lemma_parse_rgb(c, upper);
    lemma_parse_argb(c, upper);
    lemma_parse_short(x, y, z, upper);
}

/// One channel moved 4% of the way toward white, rounded:
/// round(0.96 * v + 0.04 * 255) written in integers.
pub open spec fn mix_channel(v: u8) -> u8 {
    ((96 * v + 1070) / 100) as u8
}

impl Rgba {
    /// An opaque color.
    pub fn rgb(r: u8, g: u8, b: u8) -> (c: Self)
        ensures
            c == (Rgba { r, g, b, a: 255 }),
    {
        Self { r, g, b, a: 255 }
    }

    /// A color with its alpha.
    pub fn rgba(r: u8, g: u8, b: u8, a: u8) -> (c: Self)
        ensures
            c == (Rgba { r, g, b, a }),
    {
        Self { r, g, b, a }
    }

    /// Parses a QML color string: `#RGB`, `#RRGGBB`, `#AARRGGBB`.
    pub fn parse(s: &str) -> (c: Option<Self>)
        ensures
            c == parse_spec(s@),
    {
        let v = chars_of(s);
        if v.len() == 0 || v[0] != '#' {
            return None;
        }
        let hex = crate::text::sub_chars(v.as_slice(), 1, v.len());
        assert(hex@ =~= s@.drop_first());
        if !(hex.len() == 3 || hex.len() == 6 || hex.len() == 8) {
            return None;
        }
        let mut i: usize = 0;
        while i < hex.len()
            invariant
                i <= hex@.len(),
                hex@ == s@.drop_first(),
                s@.len() > 0 && s@[0] == '#',
                forall|j: int| 0 <= j < i ==> (#[trigger] digit_val(hex@[j], 16)) is Some,
            decreases hex.len() - i,
        {
            if !is_hex_digit(hex[i]) {
                assert(!all_digits(hex@, 16)) by {
                    assert(digit_val(hex@[i as int], 16) is None);
                }
                return None;
            }
            i = i + 1;
        }
        proof {
            lemma_hex_value_bound(hex@);
            reveal_with_fuel(pow16, 9);
            assert(pow16(hex@.len()) <= 0x1_0000_0000);
            assert(digit_val(hex@[0], 16) is Some);
        }
        let n = match parse_uint_chars(hex.as_slice(), 16, 0xffff_ffff) {
            None => return None,
            Some(n) => n,
        };
        let n = n as u32;
        if hex.len() == 3 {
            Some(Self::rgb(
                (((n / 256) % 16) * 17) as u8,
                (((n / 16) % 16) * 17) as u8,
                ((n % 16) * 17) as u8,
            ))
        } else if hex.len() == 6 {
            Some(Self::rgb(((n / 65536) % 256) as u8, ((n / 256) % 256) as u8, (n % 256) as u8))
        } else {
            Some(
                Self::rgba(
                    ((n / 65536) % 256) as u8,
                    ((n / 256) % 256) as u8,
                    (n % 256) as u8,
                    ((n / 16777216) % 256) as u8,
                ),
            )
        }
    }

    /// The same color with another alpha.
    pub fn with_alpha(self, a: u8) -> (c: Self)
        ensures
            c == (Rgba { a, ..self }),
    {
        Self { a, ..self }
    }
}

/// The wedge's automatic color: the accent moved 4% toward white, opaque.
pub fn mix_toward_white(c: Rgba) -> (m: Rgba)
    ensures
        m == (Rgba { r: mix_channel(c.r), g: mix_channel(c.g), b: mix_channel(c.b), a: 255 }),
{
    let mix = |v: u8| -> (o: u8)
        ensures
            o == mix_channel(v),
        { ((96 * (v as u32) + 1070) / 100) as u8 };
    Rgba::rgb(mix(c.r), mix(c.g), mix(c.b))
}

/// What a theme file says of each palette key: the key's string value,
/// None where the key is missing or not a string. The automatic keys are
/// derived from the others at draw time unless a theme pins them.
#[derive(Debug, Clone, Default)]
pub struct ThemeKeys {
    /// `bg`
    pub bg: Option<String>,
    /// `glassBg`
    pub glass_bg: Option<String>,
    /// `glassHover`
    pub glass_hover: Option<String>,
    /// `pillBg`
    pub pill_bg: Option<String>,
    /// `pillHover`
    pub pill_hover: Option<String>,
    /// `btnHover`
    pub btn_hover: Option<String>,
    /// `btnActive`
    pub btn_active: Option<String>,
    /// `fg`
    pub fg: Option<String>,
    /// `fgStrong`
    pub fg_strong: Option<String>,
    /// `fgDim`
    pub fg_dim: Option<String>,
    /// `accent`
    pub accent: Option<String>,
    /// `yellow`
    pub yellow: Option<String>,
    /// `red`
    pub red: Option<String>,
    /// `green`
    pub green: Option<String>,
    /// `sep`
    pub sep: Option<String>,
    /// `edge`
    pub edge: Option<String>,
    /// `panelBg`
    pub panel_bg: Option<String>,
    /// `labelPillBg`
    pub label_pill_bg: Option<String>,
    /// `font`
    pub font: Option<String>,
    /// `fontDisplay`
    pub font_display: Option<String>,
    /// `iconFont`
    pub icon_font: Option<String>,
    /// `monoFont`
    pub mono_font: Option<String>,
    /// `sector` (wedge fill; automatic: the accent nudged toward white), an automatic key: None leaves it automatic
    pub sector: Option<String>,
    /// `onBand` (ink on the band), an automatic key: None leaves it automatic
    pub on_band: Option<String>,
    /// `dot` (unselected window dots), an automatic key: None leaves it automatic
    pub dot: Option<String>,
    /// `labelFg` (label pill text), an automatic key: None leaves it automatic
    pub label_fg: Option<String>,
    /// `segBg` (inactive-section fill), an automatic key: None leaves it automatic
    pub seg_bg: Option<String>,
    /// `arcBtn` (idle action-button fill), an automatic key: None leaves it automatic
    pub arc_btn: Option<String>,
    /// `arcBtnHover` (hovered action-button fill), an automatic key: None leaves it automatic
    pub arc_btn_hover: Option<String>,
}

/// The skin's colors and font families.
#[derive(Debug, Clone, PartialEq)]
pub struct Palette {
    pub bg: Rgba,
    pub glass_bg: Rgba,
    pub glass_hover: Rgba,
    pub pill_bg: Rgba,
    pub pill_hover: Rgba,
    pub btn_hover: Rgba,
    pub btn_active: Rgba,
    pub fg: Rgba,
    pub fg_strong: Rgba,
    pub fg_dim: Rgba,
    pub accent: Rgba,
    pub yellow: Rgba,
    pub red: Rgba,
    pub green: Rgba,
    pub sep: Rgba,
    pub edge: Rgba,
    pub panel_bg: Rgba,
    pub label_pill_bg: Rgba,
    pub font: String,
    pub font_display: String,
    pub icon_font: String,
    pub mono_font: String,
    /// A pinned `sector`; None keeps it automatic.
    pub sector: Option<Rgba>,
    /// A pinned `onBand`; None keeps it automatic.
    pub on_band: Option<Rgba>,
    /// A pinned `dot`; None keeps it automatic.
    pub dot: Option<Rgba>,
    /// A pinned `labelFg`; None keeps it automatic.
    pub label_fg: Option<Rgba>,
    /// A pinned `segBg`; None keeps it automatic.
    pub seg_bg: Option<Rgba>,
    /// A pinned `arcBtn`; None keeps it automatic.
    pub arc_btn: Option<Rgba>,
    /// A pinned `arcBtnHover`; None keeps it automatic.
    pub arc_btn_hover: Option<Rgba>,
}

/// A theme value over a color: the color it parses to, else the color
/// it falls back to.
pub open spec fn pick(v: Option<String>, d: Rgba) -> Rgba {
    match v {
        Some(s) => match parse_spec(s@) {
            Some(c) => c,
            None => d,
        },
        None => d,
    }
}

/// A theme value over a font family: the value when there is one, else the
/// fallback.
pub open spec fn pick_text(v: Option<String>, d: Seq<char>) -> Seq<char> {
    match v {
        Some(s) => s@,
        None => d,
    }
}

/// The color of `v`, else `d` (see [`pick`]).
fn pick_color(v: &Option<String>, d: Rgba) -> (c: Rgba)
    ensures
        c == pick(*v, d),
{
    match v {
        Some(s) => match Rgba::parse(s.as_str()) {
            Some(c) => c,
            None => d,
        },
        None => d,
    }
}

/// The font family of `v`, else `d` (see [`pick_text`]).
fn pick_font(v: &Option<String>, d: &str) -> (f: String)
    ensures
        f@ == pick_text(*v, d@),
{
    match v {
        Some(s) => s.clone(),
        None => String::from_str(d),
    }
}

/// A pinned automatic color: the color the theme's value parses to; None
/// (automatic) when there is no value or it does not parse, `""` included.
pub open spec fn pin(v: Option<String>) -> Option<Rgba> {
    match v {
        Some(s) => parse_spec(s@),
        None => None,
    }
}

/// The pin of `v` (see [`pin`]).
fn pin_color(v: &Option<String>) -> (c: Option<Rgba>)
    ensures
        c == pin(*v),
{
    match v {
        Some(s) => Rgba::parse(s.as_str()),
        None => None,
    }
}

/// The skin for a theme: each key the theme sets (and that reads as a
/// value of its kind) replaces the built-in default, every other key keeps
/// it. The settings' band and accent picks win over the defaults but lose
/// to an explicit theme key.
pub fn overlay_palette(settings_bg: Option<String>, settings_accent: Option<String>, theme: ThemeKeys) -> (p: Palette)
    ensures
        p.bg == pick(theme.bg, pick(settings_bg, Rgba { r: 11, g: 11, b: 13, a: 255 })),
        p.glass_bg == pick(theme.glass_bg, Rgba { r: 22, g: 22, b: 24, a: 133 }),
        p.glass_hover == pick(theme.glass_hover, Rgba { r: 255, g: 255, b: 255, a: 23 }),
        p.pill_bg == pick(theme.pill_bg, Rgba { r: 255, g: 255, b: 255, a: 38 }),
        p.pill_hover == pick(theme.pill_hover, Rgba { r: 255, g: 255, b: 255, a: 64 }),
        p.btn_hover == pick(theme.btn_hover, Rgba { r: 255, g: 255, b: 255, a: 23 }),
        p.btn_active == pick(theme.btn_active, Rgba { r: 255, g: 255, b: 255, a: 36 }),
        p.fg == pick(theme.fg, Rgba { r: 255, g: 255, b: 255, a: 224 }),
        p.fg_strong == pick(theme.fg_strong, Rgba { r: 255, g: 255, b: 255, a: 242 }),
        p.fg_dim == pick(theme.fg_dim, Rgba { r: 255, g: 255, b: 255, a: 115 }),
        p.accent == pick(theme.accent, pick(settings_accent, Rgba { r: 10, g: 132, b: 255, a: 255 })),
        p.yellow == pick(theme.yellow, Rgba { r: 255, g: 214, b: 10, a: 255 }),
        p.red == pick(theme.red, Rgba { r: 255, g: 69, b: 58, a: 255 }),
        p.green == pick(theme.green, Rgba { r: 48, g: 209, b: 88, a: 255 }),
        p.sep == pick(theme.sep, Rgba { r: 255, g: 255, b: 255, a: 31 }),
        p.edge == pick(theme.edge, Rgba { r: 0, g: 0, b: 0, a: 0 }),
        p.panel_bg == pick(theme.panel_bg, Rgba { r: 24, g: 24, b: 26, a: 252 }),
        p.label_pill_bg == pick(theme.label_pill_bg, Rgba { r: 26, g: 32, b: 46, a: 245 }),
        p.font@ == pick_text(theme.font, "SF Pro Text"@),
        p.font_display@ == pick_text(theme.font_display, "SF Pro Display"@),
        p.icon_font@ == pick_text(theme.icon_font, "JetBrainsMono Nerd Font"@),
        p.mono_font@ == pick_text(theme.mono_font, "JetBrainsMono Nerd Font"@),
        p.sector == pin(theme.sector),
        p.on_band == pin(theme.on_band),
        p.dot == pin(theme.dot),
        p.label_fg == pin(theme.label_fg),
        p.seg_bg == pin(theme.seg_bg),
        p.arc_btn == pin(theme.arc_btn),
        p.arc_btn_hover == pin(theme.arc_btn_hover),
{
    let bg = pick_color(&theme.bg, pick_color(&settings_bg, Rgba { r: 11, g: 11, b: 13, a: 255 }));
    let glass_bg = pick_color(&theme.glass_bg, Rgba { r: 22, g: 22, b: 24, a: 133 });
    let glass_hover = pick_color(&theme.glass_hover, Rgba { r: 255, g: 255, b: 255, a: 23 });
    let pill_bg = pick_color(&theme.pill_bg, Rgba { r: 255, g: 255, b: 255, a: 38 });
    let pill_hover = pick_color(&theme.pill_hover, Rgba { r: 255, g: 255, b: 255, a: 64 });
    let btn_hover = pick_color(&theme.btn_hover, Rgba { r: 255, g: 255, b: 255, a: 23 });
    let btn_active = pick_color(&theme.btn_active, Rgba { r: 255, g: 255, b: 255, a: 36 });
    let fg = pick_color(&theme.fg, Rgba { r: 255, g: 255, b: 255, a: 224 });
    let fg_strong = pick_color(&theme.fg_strong, Rgba { r: 255, g: 255, b: 255, a: 242 });
    let fg_dim = pick_color(&theme.fg_dim, Rgba { r: 255, g: 255, b: 255, a: 115 });
    let accent = pick_color(&theme.accent, pick_color(&settings_accent, Rgba { r: 10, g: 132, b: 255, a: 255 }));
    let yellow = pick_color(&theme.yellow, Rgba { r: 255, g: 214, b: 10, a: 255 });
    let red = pick_color(&theme.red, Rgba { r: 255, g: 69, b: 58, a: 255 });
    let green = pick_color(&theme.green, Rgba { r: 48, g: 209, b: 88, a: 255 });
    let sep = pick_color(&theme.sep, Rgba { r: 255, g: 255, b: 255, a: 31 });
    let edge = pick_color(&theme.edge, Rgba { r: 0, g: 0, b: 0, a: 0 });
    let panel_bg = pick_color(&theme.panel_bg, Rgba { r: 24, g: 24, b: 26, a: 252 });
    let label_pill_bg = pick_color(&theme.label_pill_bg, Rgba { r: 26, g: 32, b: 46, a: 245 });
    let font = pick_font(&theme.font, "SF Pro Text");
    let font_display = pick_font(&theme.font_display, "SF Pro Display");
    let icon_font = pick_font(&theme.icon_font, "JetBrainsMono Nerd Font");
    let mono_font = pick_font(&theme.mono_font, "JetBrainsMono Nerd Font");
    let sector = pin_color(&theme.sector);
    let on_band = pin_color(&theme.on_band);
    let dot = pin_color(&theme.dot);
    let label_fg = pin_color(&theme.label_fg);
    let seg_bg = pin_color(&theme.seg_bg);
    let arc_btn = pin_color(&theme.arc_btn);
    let arc_btn_hover = pin_color(&theme.arc_btn_hover);
    Palette {
        bg,
        glass_bg,
        glass_hover,
        pill_bg,
        pill_hover,
        btn_hover,
        btn_active,
        fg,
        fg_strong,
        fg_dim,
        accent,
        yellow,
        red,
        green,
        sep,
        edge,
        panel_bg,
        label_pill_bg,
        font,
        font_display,
        icon_font,
        mono_font,
        sector,
        on_band,
        dot,
        label_fg,
        seg_bg,
        arc_btn,
        arc_btn_hover,
    }
}

/// One key of a theme laid over what it extends: the theme's own value
/// when it has one, else the inherited one.
pub open spec fn layer(base: Option<String>, top: Option<String>) -> Option<String> {
    match top {
        Some(t) => Some(t),
        None => base,
    }
}

/// An automatic key of a theme laid over what it extends: as [`layer`],
/// except that `""` un-pins it (back to automatic, None).
pub open spec fn layer_auto(base: Option<String>, top: Option<String>) -> Option<String> {
    match top {
        Some(t) => if t@.len() == 0 {
            None
        } else {
            Some(t)
        },
        None => base,
    }
}

/// A theme's keys laid over those of the theme it extends.
pub open spec fn layer_keys(base: ThemeKeys, top: ThemeKeys) -> ThemeKeys {
    ThemeKeys {
        bg: layer(base.bg, top.bg),
        glass_bg: layer(base.glass_bg, top.glass_bg),
        glass_hover: layer(base.glass_hover, top.glass_hover),
        pill_bg: layer(base.pill_bg, top.pill_bg),
        pill_hover: layer(base.pill_hover, top.pill_hover),
        btn_hover: layer(base.btn_hover, top.btn_hover),
        btn_active: layer(base.btn_active, top.btn_active),
        fg: layer(base.fg, top.fg),
        fg_strong: layer(base.fg_strong, top.fg_strong),
        fg_dim: layer(base.fg_dim, top.fg_dim),
        accent: layer(base.accent, top.accent),
        yellow: layer(base.yellow, top.yellow),
        red: layer(base.red, top.red),
        green: layer(base.green, top.green),
        sep: layer(base.sep, top.sep),
        edge: layer(base.edge, top.edge),
        panel_bg: layer(base.panel_bg, top.panel_bg),
        label_pill_bg: layer(base.label_pill_bg, top.label_pill_bg),
        font: layer(base.font, top.font),
        font_display: layer(base.font_display, top.font_display),
        icon_font: layer(base.icon_font, top.icon_font),
        mono_font: layer(base.mono_font, top.mono_font),
        sector: layer_auto(base.sector, top.sector),
        on_band: layer_auto(base.on_band, top.on_band),
        dot: layer_auto(base.dot, top.dot),
        label_fg: layer_auto(base.label_fg, top.label_fg),
        seg_bg: layer_auto(base.seg_bg, top.seg_bg),
        arc_btn: layer_auto(base.arc_btn, top.arc_btn),
        arc_btn_hover: layer_auto(base.arc_btn_hover, top.arc_btn_hover),
    }
}

/// No key set: every key falls back.
pub open spec fn no_keys() -> ThemeKeys {
    ThemeKeys {
        bg: None,
        glass_bg: None,
        glass_hover: None,
        pill_bg: None,
        pill_hover: None,
        btn_hover: None,
        btn_active: None,
        fg: None,
        fg_strong: None,
        fg_dim: None,
        accent: None,
        yellow: None,
        red: None,
        green: None,
        sep: None,
        edge: None,
        panel_bg: None,
        label_pill_bg: None,
        font: None,
        font_display: None,
        icon_font: None,
        mono_font: None,
        sector: None,
        on_band: None,
        dot: None,
        label_fg: None,
        seg_bg: None,
        arc_btn: None,
        arc_btn_hover: None,
    }
}

/// The layers `s` laid one over the other onto `acc`, first to last.
pub open spec fn fold_keys(acc: ThemeKeys, s: Seq<ThemeKeys>) -> ThemeKeys
    decreases s.len(),
{
    if s.len() == 0 {
        acc
    } else {
        fold_keys(layer_keys(acc, s[0]), s.drop_first())
    }
}

/// The keys of an `extends` chain, listed from the root theme to the theme
/// itself: each theme applied over its parent.
pub open spec fn resolved_keys(chain: Seq<ThemeKeys>) -> ThemeKeys {
    fold_keys(no_keys(), chain)
}

fn layer_one(base: Option<String>, top: Option<String>) -> (r: Option<String>)
    ensures
        r == layer(base, top),
{
    match top {
        Some(t) => Some(t),
        None => base,
    }
}

fn layer_auto_one(base: Option<String>, top: Option<String>) -> (r: Option<String>)
    ensures
        r == layer_auto(base, top),
{
    match top {
        Some(t) => if chars_of(t.as_str()).len() == 0 {
            None
        } else {
            Some(t)
        },
        None => base,
    }
}

/// A theme's keys laid over those of the theme it `extends`: each key the
/// theme sets wins, every other key is inherited, and an automatic key set
/// to `""` goes back to automatic.
pub fn overlay_keys(base: ThemeKeys, top: ThemeKeys) -> (r: ThemeKeys)
    ensures
        r == layer_keys(base, top),
{
    ThemeKeys {
        bg: layer_one(base.bg, top.bg),
        glass_bg: layer_one(base.glass_bg, top.glass_bg),
        glass_hover: layer_one(base.glass_hover, top.glass_hover),
        pill_bg: layer_one(base.pill_bg, top.pill_bg),
        pill_hover: layer_one(base.pill_hover, top.pill_hover),
        btn_hover: layer_one(base.btn_hover, top.btn_hover),
        btn_active: layer_one(base.btn_active, top.btn_active),
        fg: layer_one(base.fg, top.fg),
        fg_strong: layer_one(base.fg_strong, top.fg_strong),
        fg_dim: layer_one(base.fg_dim, top.fg_dim),
        accent: layer_one(base.accent, top.accent),
        yellow: layer_one(base.yellow, top.yellow),
        red: layer_one(base.red, top.red),
        green: layer_one(base.green, top.green),
        sep: layer_one(base.sep, top.sep),
        edge: layer_one(base.edge, top.edge),
        panel_bg: layer_one(base.panel_bg, top.panel_bg),
        label_pill_bg: layer_one(base.label_pill_bg, top.label_pill_bg),
        font: layer_one(base.font, top.font),
        font_display: layer_one(base.font_display, top.font_display),
        icon_font: layer_one(base.icon_font, top.icon_font),
        mono_font: layer_one(base.mono_font, top.mono_font),
        sector: layer_auto_one(base.sector, top.sector),
        on_band: layer_auto_one(base.on_band, top.on_band),
        dot: layer_auto_one(base.dot, top.dot),
        label_fg: layer_auto_one(base.label_fg, top.label_fg),
        seg_bg: layer_auto_one(base.seg_bg, top.seg_bg),
        arc_btn: layer_auto_one(base.arc_btn, top.arc_btn),
        arc_btn_hover: layer_auto_one(base.arc_btn_hover, top.arc_btn_hover),
    }
}

/// The keys of a theme with its `extends` chain resolved; `chain` lists the
/// root theme first and the theme itself last.
pub fn resolve_theme(chain: Vec<ThemeKeys>) -> (r: ThemeKeys)
    ensures
        r == resolved_keys(chain@),
{
    let ghost whole = chain@;
    let mut rest = chain;
    let mut acc = ThemeKeys {
        bg: None,
        glass_bg: None,
        glass_hover: None,
        pill_bg: None,
        pill_hover: None,
        btn_hover: None,
        btn_active: None,
        fg: None,
        fg_strong: None,
        fg_dim: None,
        accent: None,
        yellow: None,
        red: None,
        green: None,
        sep: None,
        edge: None,
        panel_bg: None,
        label_pill_bg: None,
        font: None,
        font_display: None,
        icon_font: None,
        mono_font: None,
        sector: None,
        on_band: None,
        dot: None,
        label_fg: None,
        seg_bg: None,
        arc_btn: None,
        arc_btn_hover: None,
    };
    while rest.len() > 0
        invariant
            fold_keys(acc, rest@) == resolved_keys(whole),
        decreases rest.len(),
    {
        let ghost before = rest@;
        let top = rest.remove(0);
        assert(rest@ =~= before.drop_first());
        acc = overlay_keys(acc, top);
    }
    acc
}

/// Extending a theme applies the whole parent chain first, then the theme's
/// own keys over it.
pub proof fn lemma_extends_applies_parent_first(parents: Seq<ThemeKeys>, theme: ThemeKeys)
    ensures
        resolved_keys(parents.push(theme)) == layer_keys(resolved_keys(parents), theme),
{
    lemma_fold_push(no_keys(), parents, theme);
}

/// Setting an automatic key to `""` un-pins it, whatever the parents pinned.
pub proof fn lemma_empty_unpins(parents: Seq<ThemeKeys>, theme: ThemeKeys)
    ensures
        (theme.sector matches Some(x) && x@.len() == 0) ==> resolved_keys(parents.push(theme)).sector is None,
        (theme.on_band matches Some(x) && x@.len() == 0) ==> resolved_keys(parents.push(theme)).on_band is None,
        (theme.dot matches Some(x) && x@.len() == 0) ==> resolved_keys(parents.push(theme)).dot is None,
        (theme.label_fg matches Some(x) && x@.len() == 0) ==> resolved_keys(parents.push(theme)).label_fg is None,
        (theme.seg_bg matches Some(x) && x@.len() == 0) ==> resolved_keys(parents.push(theme)).seg_bg is None,
        (theme.arc_btn matches Some(x) && x@.len() == 0) ==> resolved_keys(parents.push(theme)).arc_btn is None,
        (theme.arc_btn_hover matches Some(x) && x@.len() == 0) ==> resolved_keys(parents.push(theme)).arc_btn_hover is None,
{
    lemma_fold_push(no_keys(), parents, theme);
}

proof fn lemma_fold_push(acc: ThemeKeys, s: Seq<ThemeKeys>, t: ThemeKeys)
    ensures
        fold_keys(acc, s.push(t)) == layer_keys(fold_keys(acc, s), t),
    decreases s.len(),
{
    assert(s.push(t)[0] == if s.len() == 0 { t } else { s[0] });
    if s.len() == 0 {
        assert(s.push(t).drop_first() =~= Seq::<ThemeKeys>::empty());
        assert(fold_keys(layer_keys(acc, t), Seq::<ThemeKeys>::empty()) == layer_keys(acc, t));
    } else {
        assert(s.push(t).drop_first() =~= s.drop_first().push(t));
        lemma_fold_push(layer_keys(acc, s[0]), s.drop_first(), t);
    }
}

/// The directory of theme files: `themes` under the config directory.
pub fn themes_dir(config_dir: &str) -> (p: String)
    ensures
        p@ == path_join(config_dir@, "themes"@),
{
    join_path(config_dir, "themes")
}

/// Names as sort keys.
pub open spec fn name_keys(v: Seq<Seq<char>>) -> Seq<Key> {
    v.map_values(|n: Seq<char>| (n, Seq::<char>::empty()))
}

/// The names found, with `default` added when none of them is it.
pub open spec fn with_default(found: Seq<Seq<char>>) -> Seq<Seq<char>> {
    if found.contains("default"@) { found } else { found.push("default"@) }
}

/// The theme list: the theme files' names plus `default` when no file
/// provides it, sorted.
pub open spec fn theme_names_spec(found: Seq<Seq<char>>, r: Seq<Seq<char>>) -> bool {
    let all = with_default(found);
    exists|idx: Seq<int>| #[trigger] stable_order(name_keys(all), idx)
        && r.len() == all.len() && forall|i: int| 0 <= i < r.len() ==> #[trigger] r[i] == all[idx[i]]
}

/// The names to offer from the theme files found (see
/// [`theme_names_spec`]).
pub fn theme_names(found: Vec<String>) -> (r: Vec<String>)
    ensures
        theme_names_spec(views(found@), views(r@)),
{
    let ghost f0 = views(found@);
    let mut all = found;
    let mut has_default = false;
    let mut i: usize = 0;
    while i < all.len()
        invariant
            i <= all@.len(),
            f0 == views(all@),
            has_default == views(all@).take(i as int).contains("default"@),
        decreases all.len() - i,
    {
        proof {
            assert(views(all@).take(i + 1) =~= views(all@).take(i as int).push(all@[i as int]@));
        }
        if str_is(all[i].as_str(), "default") {
            has_default = true;
            assert(views(all@).take(i + 1)[i as int] == "default"@);
        }
        proof {
            let t = views(all@).take(i + 1);
            if views(all@).take(i as int).contains("default"@) {
                let j = choose|j: int| 0 <= j < i && views(all@).take(i as int)[j] == "default"@;
                assert(t[j] == "default"@);
            }
            if !has_default {
                assert forall|j: int| 0 <= j < t.len() implies t[j] != "default"@ by {
                    if j < i {
                        assert(t[j] == views(all@).take(i as int)[j]);
                    }
                }
            }
        }
        i = i + 1;
    }
    assert(views(all@).take(all@.len() as int) =~= views(all@));
    let ghost found_v = views(all@);
    if !has_default {
        all.push(String::from_str("default"));
        assert(views(all@) =~= found_v.push("default"@));
    }
    let ghost v = views(all@);
    let ghost ks = name_keys(v);
    let mut keys: Vec<(Vec<char>, Vec<char>)> = Vec::new();
    let mut k: usize = 0;
    while k < all.len()
        invariant
            k <= all@.len(),
            v == views(all@),
            ks == name_keys(v),
            keys@.len() == k,
            forall|j: int| 0 <= j < k ==> #[trigger] keys_view(keys@)[j] == ks[j],
        decreases all.len() - k,
    {
        let ghost before = keys@;
        let e: Vec<char> = Vec::new();
        keys.push((chars_of(all[k].as_str()), e));
        proof {
            assert(keys_view(keys@)[k as int] == (all@[k as int]@, Seq::<char>::empty()));
            assert forall|j: int| 0 <= j < k + 1 implies #[trigger] keys_view(keys@)[j] == ks[j] by {
                if j < k {
                    assert(keys@[j] == before[j]);
                    assert(keys_view(before)[j] == ks[j]);
                }
            }
        }
        k = k + 1;
    }
    assert(keys_view(keys@) =~= ks);
    let idx = sort_positions(&keys);
    let ghost gidx = idx@.map_values(|p: usize| p as int);
    let mut out: Vec<String> = Vec::new();
    let mut j: usize = 0;
    while j < idx.len()
        invariant
            j <= idx@.len(),
            idx@.len() == all@.len(),
            v == views(all@),
            gidx == idx@.map_values(|p: usize| p as int),
            stable_order(keys_view(keys@), gidx),
            out@.len() == j,
            forall|t: int| 0 <= t < j ==> #[trigger] out@[t]@ == v[gidx[t]],
        decreases idx.len() - j,
    {
        assert(0 <= gidx[j as int] < keys_view(keys@).len());
        out.push(all[idx[j]].clone());
        j = j + 1;
    }
    assert(stable_order(ks, gidx));
    assert forall|t: int| 0 <= t < v.len() implies #[trigger] views(out@)[t] == v[gidx[t]] by {}
    assert(v == with_default(f0));
    assert(stable_order(name_keys(v), gidx));
    out
}

} // verus!
