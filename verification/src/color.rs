use vstd::prelude::*;

verus! {

/// An RGBA color: the four channels that a filament color is made of.
#[derive(Clone, Copy, Debug, PartialEq, Eq, Structural)]
pub struct Color {
    pub r: u8,
    pub g: u8,
    pub b: u8,
    pub a: u8,
}

impl Color {
    /// An opaque color from its red, green and blue channels.
    pub fn rgb(r: u8, g: u8, b: u8) -> (c: Color)
        ensures
            c == (Color { r, g, b, a: 255 }),
    {
        Color { r, g, b, a: 255 }
    }

    /// The red, green and blue channels.
    pub fn channels(&self) -> (res: [u8; 3])
        ensures
            res@ == seq![self.r, self.g, self.b],
    {
        [self.r, self.g, self.b]
    }
}

/// The number `0x00RRGGBB` that packs three channels.
pub open spec fn spec_u24(r: u8, g: u8, b: u8) -> int {
    r as int * 0x10000 + g as int * 0x100 + b as int
}

/// The opaque color whose channels `n = 0x00RRGGBB` packs.
pub open spec fn spec_from_u24(n: int) -> Color {
    Color { r: (n / 0x10000) as u8, g: ((n / 0x100) % 0x100) as u8, b: (n % 0x100) as u8, a: 255 }
}

/// Calls `hex_color::HexColor::to_u24` on the color with the same channels.
/// Claimed: the result packs red, green and blue as `0x00RRGGBB`; alpha is dropped.
#[verifier::external_body]
fn hex_to_u24(c: Color) -> (res: u32)
    ensures
        res as int == spec_u24(c.r, c.g, c.b),
{
    hex_color::HexColor { r: c.r, g: c.g, b: c.b, a: c.a }.to_u24()
}

/// Calls `hex_color::HexColor::from_u24`, which debug-asserts `n <= 0x00FF_FFFF`.
/// Claimed: the result has the three bytes of `n` below the top one as red, green and
/// blue, and alpha 255.
#[verifier::external_body]
fn hex_from_u24(n: u32) -> (res: Color)
    requires
        n <= 0x00FF_FFFF,
    ensures
        res == spec_from_u24(n as int),
{
    let c = hex_color::HexColor::from_u24(n);
    Color { r: c.r, g: c.g, b: c.b, a: c.a }
}

/// What `hex_color::HexColor::parse` gives for a string: its red, green, blue and alpha
/// channels, or `None` for an error.
pub uninterp spec fn hex_parse_result(s: Seq<char>) -> Option<(u8, u8, u8, u8)>;

/// Whether `c` is one of `0-9`, `a-f`, `A-F`.
pub open spec fn is_hex_digit(c: char) -> bool {
    ('0' <= c && c <= '9') || ('a' <= c && c <= 'f') || ('A' <= c && c <= 'F')
}

/// The value of a hexadecimal digit.
pub open spec fn hex_digit_value(c: char) -> int {
    if '0' <= c && c <= '9' {
        c as int - '0' as int
    } else if 'a' <= c && c <= 'f' {
        c as int - 'a' as int + 10
    } else {
        c as int - 'A' as int + 10
    }
}

/// The value of two hexadecimal digits, the first one high.
pub open spec fn hex_pair_value(hi: char, lo: char) -> int {
    hex_digit_value(hi) * 16 + hex_digit_value(lo)
}

/// `#RRGGBB` with six hexadecimal digits.
pub open spec fn is_rrggbb(s: Seq<char>) -> bool {
    &&& s.len() == 7
    &&& s[0] == '#'
    &&& forall|i: int| 1 <= i < 7 ==> is_hex_digit(#[trigger] s[i])
}

/// Calls `hex_color::HexColor::parse` and keeps the channels of an `Ok`.
/// Claimed, as its documentation states: the result is named by `hex_parse_result`; a
/// string that does not start with `#` is an error; `#RRGGBB` (case-insensitive) gives
/// those channels with alpha 255. The shorthand and alpha forms are not described.
#[verifier::external_body]
fn hex_parse(s: &str) -> (res: Option<(u8, u8, u8, u8)>)
    ensures
        res == hex_parse_result(s@),
        s@.len() == 0 || s@[0] != '#' ==> res is None,
        is_rrggbb(s@) ==> res == Some(
            (
                hex_pair_value(s@[1], s@[2]) as u8,
                hex_pair_value(s@[3], s@[4]) as u8,
                hex_pair_value(s@[5], s@[6]) as u8,
                255u8,
            ),
        ),
{
    match hex_color::HexColor::parse(s) {
        Ok(c) => Some((c.r, c.g, c.b, c.a)),
        Err(_) => None,
    }
}

/// Calls `String::push`, which appends one character.
#[verifier::external_body]
pub(crate) fn push_char(s: &mut String, c: char)
    ensures
        final(s)@ == old(s)@.push(c),
{
    s.push(c)
}

/// The upper-case hexadecimal digit of a value below 16.
pub open spec fn hex_char(d: int) -> char {
    if d < 10 {
        (d + 48) as char
    } else {
        (d + 55) as char
    }
}

/// A byte as two upper-case hexadecimal digits, as `{:02X}` writes it.
pub open spec fn hex_byte(b: u8) -> Seq<char> {
    seq![hex_char(b as int / 16), hex_char(b as int % 16)]
}

/// The text `RRGGBB` of three channels, as `{:02X}{:02X}{:02X}` writes it.
pub open spec fn hex_text(c: Seq<u8>) -> Seq<char> {
    hex_byte(c[0]) + hex_byte(c[1]) + hex_byte(c[2])
}

fn hex_digit_char(d: u8) -> (c: char)
    requires
        d < 16,
    ensures
        c == hex_char(d as int),
{
    if d < 10 {
        (d + 48) as char
    } else {
        (d + 55) as char
    }
}

fn push_hex_byte(s: &mut String, b: u8)
    ensures
        final(s)@ == old(s)@ + hex_byte(b),
{
    push_char(s, hex_digit_char(b / 16));
    push_char(s, hex_digit_char(b % 16));
    assert(final(s)@ =~= old(s)@ + hex_byte(b));
}

/// The text `RRGGBB` of three channels, upper case, without the `#`.
pub fn color_hex_text(c: [u8; 3]) -> (s: String)
    ensures
        s@ == hex_text(c@),
{
    let mut s = String::new();
    push_hex_byte(&mut s, c[0]);
    push_hex_byte(&mut s, c[1]);
    push_hex_byte(&mut s, c[2]);
    assert(s@ =~= hex_text(c@));
    s
}

/// `#RRGGBB` of three channels, upper case.
pub fn color_hash_text(c: [u8; 3]) -> (s: String)
    ensures
        s@ == seq!['#'] + hex_text(c@),
{
    let mut s = String::new();
    push_char(&mut s, '#');
    push_hex_byte(&mut s, c[0]);
    push_hex_byte(&mut s, c[1]);
    push_hex_byte(&mut s, c[2]);
    assert(s@ =~= seq!['#'] + hex_text(c@));
    s
}

/// The channels of a color and their text `RRGGBB`.
pub fn color_to_bytes(c: Color) -> (res: ([u8; 3], String))
    ensures
        res.0@ == seq![c.r, c.g, c.b],
        res.1@ == hex_text(seq![c.r, c.g, c.b]),
{
    let bytes = [c.r, c.g, c.b];
    let text = color_hex_text(bytes);
    (bytes, text)
}

/// The number a color column of the database holds: `-1` for no color, else the
/// channels packed as `0x00RRGGBB`.
pub open spec fn spec_color_code(c: Option<Seq<u8>>) -> int {
    match c {
        Some(c) => spec_u24(c[0], c[1], c[2]),
        None => -1,
    }
}

/// Encodes an optional color for a database column.
pub fn color_code(c: Option<[u8; 3]>) -> (code: i32)
    ensures
        code as int == spec_color_code(
            match c {
                Some(c) => Some(c@),
                None => None,
            },
        ),
{
    match c {
        Some(c) => {
            let n = hex_to_u24(Color::rgb(c[0], c[1], c[2]));
            n as i32
        },
        None => -1,
    }
}

/// Decodes a color column of the database that holds a color.
pub fn color_from_code(code: i32) -> (c: Color)
    requires
        0 <= code <= 0x00FF_FFFF,
    ensures
        c == spec_from_u24(code as int),
{
    hex_from_u24(code as u32)
}

/// Parses the text of a color field: `#` and the text is given to the hex color parser,
/// and the channels of a success are kept.
pub fn parse_color_text(s: &str) -> (res: Option<[u8; 3]>)
    ensures
        match hex_parse_result(seq!['#'] + s@) {
            Some(p) => (res matches Some(c) && c@ == seq![p.0, p.1, p.2]),
            None => res is None,
        },
        is_rrggbb(seq!['#'] + s@) ==> (res matches Some(c) && c@ == seq![
            hex_pair_value(s@[0], s@[1]) as u8,
            hex_pair_value(s@[2], s@[3]) as u8,
            hex_pair_value(s@[4], s@[5]) as u8,
        ]),
{
    let mut t = String::new();
    push_char(&mut t, '#');
    t.append(s);
    match hex_parse(t.as_str()) {
        Some((r, g, b, _)) => Some([r, g, b]),
        None => None,
    }
}

/// A packed color decodes to the channels it was made from.
pub proof fn lemma_color_code_round_trip(c: Seq<u8>)
    requires
        c.len() == 3,
    ensures
        0 <= spec_color_code(Some(c)) <= 0x00FF_FFFF,
        spec_from_u24(spec_color_code(Some(c))) == (Color { r: c[0], g: c[1], b: c[2], a: 255 }),
{
    let n = spec_u24(c[0], c[1], c[2]);
    assert(n / 0x10000 == c[0] as int) by (nonlinear_arith)
        requires n == c[0] as int * 0x10000 + c[1] as int * 0x100 + c[2] as int,
            0 <= c[0] < 256, 0 <= c[1] < 256, 0 <= c[2] < 256;
    assert((n / 0x100) % 0x100 == c[1] as int) by (nonlinear_arith)
        requires n == c[0] as int * 0x10000 + c[1] as int * 0x100 + c[2] as int,
            0 <= c[0] < 256, 0 <= c[1] < 256, 0 <= c[2] < 256;
    assert(n % 0x100 == c[2] as int) by (nonlinear_arith)
        requires n == c[0] as int * 0x10000 + c[1] as int * 0x100 + c[2] as int,
            0 <= c[0] < 256, 0 <= c[1] < 256, 0 <= c[2] < 256;
}

/// A color column decodes to channels that pack back to the same number.
pub proof fn lemma_code_color_round_trip(n: int)
    requires
        0 <= n <= 0x00FF_FFFF,
    ensures
        spec_color_code(
            Some(seq![spec_from_u24(n).r, spec_from_u24(n).g, spec_from_u24(n).b]),
        ) == n,
{
    let r = n / 0x10000;
    let g = (n / 0x100) % 0x100;
    let b = n % 0x100;
    assert(0 <= r < 256 && 0 <= g < 256 && 0 <= b < 256) by (nonlinear_arith)
        requires 0 <= n <= 0x00FF_FFFF, r == n / 0x10000, g == (n / 0x100) % 0x100, b == n % 0x100;
    assert(r * 0x10000 + g * 0x100 + b == n) by (nonlinear_arith)
        requires 0 <= n <= 0x00FF_FFFF, r == n / 0x10000, g == (n / 0x100) % 0x100, b == n % 0x100;
    let c = spec_from_u24(n);
    assert(c.r as int == r && c.g as int == g && c.b as int == b);
}

proof fn lemma_hex_char_digit(d: int)
    requires
        0 <= d < 16,
    ensures
        is_hex_digit(hex_char(d)),
        hex_digit_value(hex_char(d)) == d,
{
}

/// The text of three channels is `#RRGGBB` once `#` is put before it, and its digit
/// pairs give the channels back.
pub proof fn lemma_color_text_round_trip(c: Seq<u8>)
    requires
        c.len() == 3,
    ensures
        is_rrggbb(seq!['#'] + hex_text(c)),
        hex_pair_value((seq!['#'] + hex_text(c))[1], (seq!['#'] + hex_text(c))[2]) == c[0] as int,
        hex_pair_value((seq!['#'] + hex_text(c))[3], (seq!['#'] + hex_text(c))[4]) == c[1] as int,
        hex_pair_value((seq!['#'] + hex_text(c))[5], (seq!['#'] + hex_text(c))[6]) == c[2] as int,
{
    let s = seq!['#'] + hex_text(c);
    lemma_hex_char_digit(c[0] as int / 16);
    lemma_hex_char_digit(c[0] as int % 16);
    lemma_hex_char_digit(c[1] as int / 16);
    lemma_hex_char_digit(c[1] as int % 16);
    lemma_hex_char_digit(c[2] as int / 16);
    lemma_hex_char_digit(c[2] as int % 16);
    assert(s[1] == hex_char(c[0] as int / 16));
    assert(s[2] == hex_char(c[0] as int % 16));
    assert(s[3] == hex_char(c[1] as int / 16));
    assert(s[4] == hex_char(c[1] as int % 16));
    assert(s[5] == hex_char(c[2] as int / 16));
    assert(s[6] == hex_char(c[2] as int % 16));
}

} // verus!
