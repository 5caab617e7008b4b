//! The 24-bit colour value, its exact scaling and its textual forms.

use vstd::prelude::*;

verus! {

/// A colour with three 8-bit channels.
#[derive(Debug, PartialEq, Eq, Structural, Copy, Clone)]
pub struct Rgb {
    pub r: u8,
    pub g: u8,
    pub b: u8,
}

impl Default for Rgb {
    /// Black.
    fn default() -> (rgb: Rgb)
        ensures
            rgb == (Rgb { r: 0, g: 0, b: 0 }),
    {
        Rgb { r: 0, g: 0, b: 0 }
    }
}

/// Numerator of the factor by which a colour is dimmed.
pub const DIM_NUMERATOR: i64 = 66;

/// Denominator of the factor by which a colour is dimmed.
pub const DIM_DENOMINATOR: u32 = 100;

/// One channel multiplied by `numerator / denominator`: the fraction of the
/// product is dropped, and the product is clamped to the range 0–255.
pub open spec fn scaled_channel(channel: u8, numerator: int, denominator: nat) -> u8 {
    let product = (channel as int * numerator) / (denominator as int);
    if product < 0 {
        0u8
    } else if product > 255 {
        255u8
    } else {
        product as u8
    }
}

fn scale_channel(channel: u8, numerator: i64, denominator: u32) -> (out: u8)
    requires
        denominator > 0,
    ensures
        out == scaled_channel(channel, numerator as int, denominator as nat),
{
    if numerator <= 0 {
        proof {
            lemma_product_not_positive(channel as int, numerator as int, denominator as int);
        }
        return 0;
    }
    assert(0 <= channel as u128 * numerator as u128 <= 255 * 0x7fff_ffff_ffff_ffff)
        by (nonlinear_arith)
        requires
            channel <= 255,
            0 < numerator <= 0x7fff_ffff_ffff_ffff,
    ;
    let product: u128 = (channel as u128 * numerator as u128) / (denominator as u128);
    if product > 255 {
        255
    } else {
        product as u8
    }
}

proof fn lemma_product_not_positive(channel: int, numerator: int, denominator: int)
    requires
        0 <= channel,
        numerator <= 0,
        0 < denominator,
    ensures
        (channel * numerator) / denominator <= 0,
{
    assert(channel * numerator <= 0) by (nonlinear_arith)
        requires
            0 <= channel,
            numerator <= 0,
    ;
    assert((channel * numerator) / denominator <= 0) by (nonlinear_arith)
        requires
            channel * numerator <= 0,
            0 < denominator,
    ;
}

impl Rgb {
    /// This colour with every channel multiplied by `numerator / denominator`.
    pub open spec fn scaled(self, numerator: int, denominator: nat) -> Rgb {
        Rgb {
            r: scaled_channel(self.r, numerator, denominator),
            g: scaled_channel(self.g, numerator, denominator),
            b: scaled_channel(self.b, numerator, denominator),
        }
    }

    /// This colour dimmed by the fixed factor 66/100.
    pub open spec fn dimmed(self) -> Rgb {
        self.scaled(DIM_NUMERATOR as int, DIM_DENOMINATOR as nat)
    }

    /// Multiplies every channel by the rational factor
    /// `numerator / denominator`. The fraction of a product is dropped, a
    /// product above 255 becomes 255 and a negative product becomes 0.
    pub fn scale(self, numerator: i64, denominator: u32) -> (out: Rgb)
        requires
            denominator > 0,
        ensures
            out == self.scaled(numerator as int, denominator as nat),
    {
        Rgb {
            r: scale_channel(self.r, numerator, denominator),
            g: scale_channel(self.g, numerator, denominator),
            b: scale_channel(self.b, numerator, denominator),
        }
    }

    /// Dims the colour by the fixed factor 66/100.
    pub fn dim(self) -> (out: Rgb)
        ensures
            out == self.dimmed(),
    {
        self.scale(DIM_NUMERATOR, DIM_DENOMINATOR)
    }

    /// Dimming multiplies each channel by 0.66 and drops the fraction. The
    /// clamp never applies, and no channel gets brighter.
    pub proof fn lemma_dimmed(self)
        ensures
            self.dimmed().r == self.r as int * 66 / 100,
            self.dimmed().g == self.g as int * 66 / 100,
            self.dimmed().b == self.b as int * 66 / 100,
            self.dimmed().r <= self.r,
            self.dimmed().g <= self.g,
            self.dimmed().b <= self.b,
    {
    }

    /// A factor of zero or less gives black: a negative product is clamped
    /// to 0.
    pub proof fn lemma_scaled_not_positive(self, numerator: int, denominator: nat)
        requires
            0 < denominator,
            numerator <= 0,
        ensures
            self.scaled(numerator, denominator) == (Rgb { r: 0, g: 0, b: 0 }),
    {
        lemma_product_not_positive(self.r as int, numerator, denominator as int);
        lemma_product_not_positive(self.g as int, numerator, denominator as int);
        lemma_product_not_positive(self.b as int, numerator, denominator as int);
    }

    /// Scaling by a factor between zero and one makes no channel brighter,
    /// and scaling by one changes nothing.
    pub proof fn lemma_scaled_bounds(self, numerator: int, denominator: nat)
        requires
            0 < denominator,
            0 <= numerator <= denominator,
        ensures
            self.scaled(numerator, denominator).r <= self.r,
            self.scaled(numerator, denominator).g <= self.g,
            self.scaled(numerator, denominator).b <= self.b,
            numerator == denominator ==> self.scaled(numerator, denominator) == self,
    {
        lemma_scaled_channel_bounds(self.r, numerator, denominator);
        lemma_scaled_channel_bounds(self.g, numerator, denominator);
        lemma_scaled_channel_bounds(self.b, numerator, denominator);
    }
}

proof fn lemma_scaled_channel_bounds(channel: u8, numerator: int, denominator: nat)
    requires
        0 < denominator,
        0 <= numerator <= denominator,
    ensures
        scaled_channel(channel, numerator, denominator) <= channel,
        numerator == denominator ==> scaled_channel(channel, numerator, denominator) == channel,
{
    let c = channel as int;
    let d = denominator as int;
    assert(0 <= c * numerator <= c * d) by (nonlinear_arith)
        requires
            0 <= c,
            0 <= numerator <= d,
    ;
    assert(0 <= (c * numerator) / d <= c && (numerator == d ==> (c * numerator) / d == c))
        by (nonlinear_arith)
        requires
            0 < d,
            0 <= c * numerator <= c * d,
            numerator <= d,
    ;
}

/// The reason why a text is no colour: it is not `#` or `0x` followed by
/// exactly six hexadecimal digits.
#[derive(Debug, Clone, Copy, PartialEq, Eq, Structural)]
pub struct ParseColorError;

/// The value of a hexadecimal digit of either case.
pub open spec fn hex_digit_value(digit: char) -> Option<nat> {
    if '0' <= digit <= '9' {
        Some((digit as nat - '0' as nat) as nat)
    } else if 'a' <= digit <= 'f' {
        Some((digit as nat - 'a' as nat + 10) as nat)
    } else if 'A' <= digit <= 'F' {
        Some((digit as nat - 'A' as nat + 10) as nat)
    } else {
        None
    }
}

/// The channel that two hexadecimal digits spell, the high digit first.
pub open spec fn hex_pair(high: char, low: char) -> Option<u8> {
    match (hex_digit_value(high), hex_digit_value(low)) {
        (Some(h), Some(l)) => Some((h * 16 + l) as u8),
        _ => None,
    }
}

/// The colour that six hexadecimal digits spell: red, green and blue, two
/// digits each.
pub open spec fn color_from_digits(digits: Seq<char>) -> Option<Rgb>
    recommends
        digits.len() == 6,
{
    match (
        hex_pair(digits[0], digits[1]),
        hex_pair(digits[2], digits[3]),
        hex_pair(digits[4], digits[5]),
    ) {
        (Some(r), Some(g), Some(b)) => Some(Rgb { r, g, b }),
        _ => None,
    }
}

/// Whether every character of `digits` is a hexadecimal digit.
pub open spec fn all_hex(digits: Seq<char>) -> bool {
    forall|i: int| 0 <= i < digits.len() ==> hex_digit_value(#[trigger] digits[i]) is Some
}

/// The six characters that follow the prefix `#` or `0x` of a text of seven
/// or eight characters.
pub open spec fn color_digits(text: Seq<char>) -> Option<Seq<char>> {
    if text.len() == 7 && text[0] == '#' {
        Some(text.subrange(1, 7))
    } else if text.len() == 8 && text[0] == '0' && text[1] == 'x' {
        Some(text.subrange(2, 8))
    } else {
        None
    }
}

/// Whether `text` has one of the two textual forms of a colour: `#RRGGBB`
/// or `0xRRGGBB`, with hexadecimal digits of either case.
pub open spec fn is_color_text(text: Seq<char>) -> bool {
    match color_digits(text) {
        Some(digits) => all_hex(digits),
        None => false,
    }
}

/// The colour that `text` spells, if it spells one.
pub open spec fn parsed_color(text: Seq<char>) -> Option<Rgb> {
    match color_digits(text) {
        Some(digits) => color_from_digits(digits),
        None => None,
    }
}

fn hex_value(digit: u8) -> (value: Option<u8>)
    ensures
        match hex_digit_value(digit as char) {
            Some(v) => value == Some(v as u8) && v < 16,
            None => value is None,
        },
{
    if ('0' as u8) <= digit && digit <= ('9' as u8) {
        Some(digit - ('0' as u8))
    } else if ('a' as u8) <= digit && digit <= ('f' as u8) {
        Some(digit - ('a' as u8) + 10)
    } else if ('A' as u8) <= digit && digit <= ('F' as u8) {
        Some(digit - ('A' as u8) + 10)
    } else {
        None
    }
}

fn parse_channel(high: u8, low: u8) -> (channel: Option<u8>)
    ensures
        channel == hex_pair(high as char, low as char),
{
    match (hex_value(high), hex_value(low)) {
        (Some(h), Some(l)) => Some(h * 16 + l),
        _ => None,
    }
}

/// Reads a colour from `#RRGGBB` or `0xRRGGBB`. The digits may be of either
/// case; every other text is refused.
pub fn parse_color(text: &str) -> (res: Result<Rgb, ParseColorError>)
    ensures
        match parsed_color(text@) {
            Some(rgb) => res == Ok::<Rgb, ParseColorError>(rgb),
            None => res is Err,
        },
{
    if !text.is_ascii() {
        return Err(ParseColorError);
    }
    let bytes = text.as_bytes();
    proof {
        vstd::string::is_ascii_spec_bytes(text);
        assert(forall|i: int| 0 <= i < text@.len() ==> bytes@[i] as char == #[trigger] text@[i]);
    }
    let start: usize = if bytes.len() == 7 && bytes[0] == ('#' as u8) {
        1
    } else if bytes.len() == 8 && bytes[0] == ('0' as u8) && bytes[1] == ('x' as u8) {
        2
    } else {
        return Err(ParseColorError);
    };
    let r = parse_channel(bytes[start], bytes[start + 1]);
    let g = parse_channel(bytes[start + 2], bytes[start + 3]);
    let b = parse_channel(bytes[start + 4], bytes[start + 5]);
    match (r, g, b) {
        (Some(r), Some(g), Some(b)) => Ok(Rgb { r, g, b }),
        _ => Err(ParseColorError),
    }
}

/// The lower-case hexadecimal digit of a value below 16.
pub open spec fn hex_digit_char(value: nat) -> char
    recommends
        value < 16,
{
    if value < 10 {
        ('0' as nat + value) as char
    } else {
        ('a' as nat + value - 10) as char
    }
}

/// The text `#rrggbb` of a colour, in lower-case digits.
pub open spec fn hex_text(rgb: Rgb) -> Seq<char> {
    seq![
        '#',
        hex_digit_char(rgb.r as nat / 16),
        hex_digit_char(rgb.r as nat % 16),
        hex_digit_char(rgb.g as nat / 16),
        hex_digit_char(rgb.g as nat % 16),
        hex_digit_char(rgb.b as nat / 16),
        hex_digit_char(rgb.b as nat % 16),
    ]
}

fn hex_digit(value: u8) -> (digit: &'static str)
    requires
        value < 16,
    ensures
        digit@ == seq![hex_digit_char(value as nat)],
{
    proof {
        reveal_strlit("0");
        reveal_strlit("1");
        reveal_strlit("2");
        reveal_strlit("3");
        reveal_strlit("4");
        reveal_strlit("5");
        reveal_strlit("6");
        reveal_strlit("7");
        reveal_strlit("8");
        reveal_strlit("9");
        reveal_strlit("a");
        reveal_strlit("b");
        reveal_strlit("c");
        reveal_strlit("d");
        reveal_strlit("e");
        reveal_strlit("f");
    }
    let digit = match value {
        0 => "0",
        1 => "1",
        2 => "2",
        3 => "3",
        4 => "4",
        5 => "5",
        6 => "6",
        7 => "7",
        8 => "8",
        9 => "9",
        10 => "a",
        11 => "b",
        12 => "c",
        13 => "d",
        14 => "e",
        _ => "f",
    };
    assert(digit@ =~= seq![hex_digit_char(value as nat)]);
    digit
}

impl Rgb {
    /// Writes the colour as `#rrggbb`, in lower-case digits.
    pub fn to_hex(&self) -> (text: String)
        ensures
            text@ == hex_text(*self),
    {
        proof {
            reveal_strlit("#");
        }
        let mut text = String::from_str("#");
        text.append(hex_digit(self.r / 16));
        text.append(hex_digit(self.r % 16));
        text.append(hex_digit(self.g / 16));
        text.append(hex_digit(self.g % 16));
        text.append(hex_digit(self.b / 16));
        text.append(hex_digit(self.b % 16));
        assert(text@ =~= hex_text(*self));
        text
    }
}

/// The number that hexadecimal digits spell, the highest digit first.
pub open spec fn hex_number(digits: Seq<char>) -> nat
    recommends
        all_hex(digits),
    decreases digits.len(),
{
    if digits.len() == 0 {
        0
    } else {
        hex_number(digits.drop_last()) * 16 + hex_digit_value(digits.last()).unwrap()
    }
}

proof fn lemma_hex_number_push(digits: Seq<char>, upto: int)
    requires
        0 < upto <= digits.len(),
    ensures
        hex_number(digits.take(upto)) == hex_number(digits.take(upto - 1)) * 16 + hex_digit_value(
            digits[upto - 1],
        ).unwrap(),
{
    assert(digits.take(upto).drop_last() =~= digits.take(upto - 1));
}

proof fn lemma_bytes_of_number(r: nat, g: nat, b: nat)
    requires
        r < 256,
        g < 256,
        b < 256,
    ensures
        r * 0x1_0000 + g * 0x100 + b < 0x100_0000,
        (r * 0x1_0000 + g * 0x100 + b) / 0x1_0000 == r,
        ((r * 0x1_0000 + g * 0x100 + b) / 0x100) % 0x100 == g,
        (r * 0x1_0000 + g * 0x100 + b) % 0x100 == b,
{
}

/// The channels of a colour are the bytes of the 24-bit number that its six
/// digits spell: red is the high byte, green the middle byte and blue the
/// low byte.
proof fn lemma_channels_are_bytes(digits: Seq<char>)
    requires
        digits.len() == 6,
        all_hex(digits),
    ensures
        color_from_digits(digits) is Some,
        hex_number(digits) < 0x100_0000,
        color_from_digits(digits).unwrap().r == hex_number(digits) / 0x1_0000,
        color_from_digits(digits).unwrap().g == (hex_number(digits) / 0x100) % 0x100,
        color_from_digits(digits).unwrap().b == hex_number(digits) % 0x100,
{
    assert(hex_digit_value(digits[0]) is Some);
    assert(hex_digit_value(digits[1]) is Some);
    assert(hex_digit_value(digits[2]) is Some);
    assert(hex_digit_value(digits[3]) is Some);
    assert(hex_digit_value(digits[4]) is Some);
    assert(hex_digit_value(digits[5]) is Some);
    let color = color_from_digits(digits).unwrap();
    assert(hex_number(digits.take(0)) == 0);
    lemma_hex_number_push(digits, 1);
    lemma_hex_number_push(digits, 2);
    assert(hex_number(digits.take(2)) == color.r);
    lemma_hex_number_push(digits, 3);
    lemma_hex_number_push(digits, 4);
    assert(hex_number(digits.take(4)) == color.r * 0x100 + color.g);
    lemma_hex_number_push(digits, 5);
    lemma_hex_number_push(digits, 6);
    assert(digits.take(6) =~= digits);
    assert(hex_number(digits) == color.r * 0x1_0000 + color.g * 0x100 + color.b);
    lemma_bytes_of_number(color.r as nat, color.g as nat, color.b as nat);
}

/// A text spells a colour exactly if it has one of the two textual forms.
/// The channels are then the bytes of the number that the six digits spell,
/// red in the high byte.
pub proof fn lemma_parse_accepts_color_texts(text: Seq<char>)
    ensures
        parsed_color(text) is Some <==> is_color_text(text),
        is_color_text(text) ==> {
            let number = hex_number(color_digits(text).unwrap());
            &&& parsed_color(text).unwrap().r == number / 0x1_0000
            &&& parsed_color(text).unwrap().g == (number / 0x100) % 0x100
            &&& parsed_color(text).unwrap().b == number % 0x100
        },
{
    if is_color_text(text) {
        lemma_channels_are_bytes(color_digits(text).unwrap());
    }
}

/// Writing a colour and reading the text back gives the colour.
pub proof fn lemma_write_then_parse(rgb: Rgb)
    ensures
        is_color_text(hex_text(rgb)),
        parsed_color(hex_text(rgb)) == Some(rgb),
{
    let text = hex_text(rgb);
    assert(text.subrange(1, 7) =~= seq![text[1], text[2], text[3], text[4], text[5], text[6]]);
    lemma_parse_accepts_color_texts(text);
}

/// Reading a colour text, writing the colour and reading that text again
/// gives the same channels: for every text of one of the two forms, in
/// digits of either case.
pub proof fn lemma_parse_round_trip(text: Seq<char>)
    requires
        is_color_text(text),
    ensures
        parsed_color(text) is Some,
        parsed_color(hex_text(parsed_color(text).unwrap())) == parsed_color(text),
{
    lemma_parse_accepts_color_texts(text);
    lemma_write_then_parse(parsed_color(text).unwrap());
}

impl core::str::FromStr for Rgb {
    type Err = ParseColorError;

    /// Reads a colour from `#RRGGBB` or `0xRRGGBB`.
    fn from_str(s: &str) -> (res: Result<Rgb, ParseColorError>)
        ensures
            match parsed_color(s@) {
                Some(rgb) => res == Ok::<Rgb, ParseColorError>(rgb),
                None => res is Err,
            },
    {
        parse_color(s)
    }
}

} // verus!
