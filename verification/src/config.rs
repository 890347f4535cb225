//! The panel's configuration: the backlight colour and, for each control,
//! the command templates and the range that rotation is scaled to.

use crate::numeral::{
    hex_byte_value, is_decimal_digit, is_hex_byte, is_hex_digit, is_u16_text,
    parse_hex_byte, parse_u16, u16_of_text, unsigned_digits,
};
use crate::numeral::lemma_decimal_text_reads_back;
use crate::text::{chars_of, decimal_text};
use vstd::prelude::*;
use vstd::utf8::{encode_utf8, is_ascii_chars, is_ascii_chars_encode_utf8};

verus! {

/// What is wrong with a configuration value.
#[derive(Clone, Copy, Debug, PartialEq, Eq, Structural)]
pub enum ConfigErrorKind {
    /// A colour that, without its leading `#`, is not 6 or 8 bytes long.
    ColorFormat,
    /// A colour of the right length that holds something else than
    /// hexadecimal bytes.
    ColorDigits,
    /// A range with more than one `-`.
    RangeFormat,
    /// A range with a bound that is not a number of at most 65535.
    RangeNumber,
    /// A range whose upper bound is below its lower bound.
    RangeInverted,
}

/// A rejected configuration value, with the text as it was configured.
#[derive(Debug, PartialEq, Eq)]
pub struct ConfigError {
    pub kind: ConfigErrorKind,
    pub value: String,
}

/// How the message for each kind of error begins.
pub open spec fn message_prefix(kind: ConfigErrorKind) -> Seq<char> {
    match kind {
        ConfigErrorKind::ColorFormat => "Invalid color format: "@,
        ConfigErrorKind::ColorDigits => "Invalid color digits: "@,
        ConfigErrorKind::RangeFormat => "Invalid range format: "@,
        ConfigErrorKind::RangeNumber => "Invalid range number: "@,
        ConfigErrorKind::RangeInverted => "Invalid range order: "@,
    }
}

impl ConfigError {
    /// A rejection of `value` for the reason `kind`.
    pub fn new(kind: ConfigErrorKind, value: &String) -> (e: ConfigError)
        ensures
            e.kind == kind,
            e.value@ == value@,
    {
        ConfigError { kind, value: value.clone() }
    }

    /// The message for a person: the reason, then the rejected text.
    pub fn message(&self) -> (msg: String)
        ensures
            msg@ == message_prefix(self.kind) + self.value@,
    {
        let prefix: &str = match self.kind {
            ConfigErrorKind::ColorFormat => "Invalid color format: ",
            ConfigErrorKind::ColorDigits => "Invalid color digits: ",
            ConfigErrorKind::RangeFormat => "Invalid range format: ",
            ConfigErrorKind::RangeNumber => "Invalid range number: ",
            ConfigErrorKind::RangeInverted => "Invalid range order: ",
        };
        let mut msg: String = String::from_str(prefix);
        msg.append(self.value.as_str());
        msg
    }
}

/// The device section of a configuration.
#[derive(Debug)]
pub struct DeviceConfig {
    pub color: String,
}

/// What one control is configured to do.
#[derive(Debug)]
pub struct ButtonConfig {
    pub id: usize,
    pub on_click: Option<String>,
    pub on_rotate: Option<String>,
    pub range: Option<String>,
}

/// A whole configuration: the device section and the controls in their
/// configured order.
#[derive(Debug)]
pub struct Config {
    pub device: DeviceConfig,
    pub buttons: Vec<ButtonConfig>,
}

/// The characters of an optional string.
pub open spec fn text_of(s: Option<String>) -> Option<Seq<char>> {
    match s {
        Some(s) => Some(s@),
        None => None,
    }
}

/// A control's configuration as plain values.
pub struct ButtonSpec {
    pub id: usize,
    pub on_click: Option<Seq<char>>,
    pub on_rotate: Option<Seq<char>>,
    pub range: Option<Seq<char>>,
}

impl View for ButtonConfig {
    type V = ButtonSpec;

    open spec fn view(&self) -> ButtonSpec {
        ButtonSpec {
            id: self.id,
            on_click: text_of(self.on_click),
            on_rotate: text_of(self.on_rotate),
            range: text_of(self.range),
        }
    }
}

/// A whole configuration as plain values.
pub struct ConfigSpec {
    pub color: Seq<char>,
    pub buttons: Seq<ButtonSpec>,
}

impl View for Config {
    type V = ConfigSpec;

    open spec fn view(&self) -> ConfigSpec {
        ConfigSpec {
            color: self.device.color@,
            buttons: Seq::new(self.buttons@.len(), |i: int| self.buttons@[i]@),
        }
    }
}

/// `s` without the `#` characters that it begins with.
pub open spec fn strip_hashes(s: Seq<char>) -> Seq<char>
    decreases s.len(),
{
    if s.len() > 0 && s[0] == '#' {
        strip_hashes(s.skip(1))
    } else {
        s
    }
}

/// A colour channel scaled by an alpha value, rounded down.
pub open spec fn premultiplied(channel: nat, alpha: nat) -> nat {
    channel * alpha / 255
}

/// The number of bytes that `s` takes as UTF-8.
pub open spec fn utf8_len(s: Seq<char>) -> nat {
    encode_utf8(s).len()
}

/// The colour that `text` writes. After any leading `#`, the text holds
/// three hexadecimal bytes for red, green and blue, and optionally a
/// fourth for alpha, by which the three are then scaled. Its length is
/// taken in bytes, so a text of six or eight bytes that holds a character
/// beyond ASCII is rejected for its digits.
pub open spec fn color_of(text: Seq<char>) -> Result<(u8, u8, u8), ConfigErrorKind> {
    let hex = strip_hashes(text);
    if utf8_len(hex) != 6 && utf8_len(hex) != 8 {
        Err(ConfigErrorKind::ColorFormat)
    } else if !is_ascii_chars(hex) || !is_hex_byte(hex[0], hex[1]) || !is_hex_byte(hex[2], hex[3]) || !is_hex_byte(
        hex[4],
        hex[5],
    ) || (hex.len() == 8 && !is_hex_byte(hex[6], hex[7])) {
        Err(ConfigErrorKind::ColorDigits)
    } else {
        let alpha = if hex.len() == 8 {
            hex_byte_value(hex[6], hex[7])
        } else {
            255
        };
        Ok(
            (
                premultiplied(hex_byte_value(hex[0], hex[1]), alpha) as u8,
                premultiplied(hex_byte_value(hex[2], hex[3]), alpha) as u8,
                premultiplied(hex_byte_value(hex[4], hex[5]), alpha) as u8,
            ),
        )
    }
}

/// A scaled channel is still a byte.
pub proof fn lemma_premultiplied_is_byte(channel: nat, alpha: nat)
    requires
        channel <= 255,
        alpha <= 255,
    ensures
        channel * alpha <= 65025,
        premultiplied(channel, alpha) <= 255,
{
    assert(channel * alpha <= 65025) by (nonlinear_arith)
        requires
            channel <= 255,
            alpha <= 255,
    ;
}

fn premultiply(channel: u8, alpha: u8) -> (scaled: u8)
    ensures
        scaled == premultiplied(channel as nat, alpha as nat),
{
    proof {
        lemma_premultiplied_is_byte(channel as nat, alpha as nat);
    }
    let product: u16 = channel as u16 * alpha as u16;
    (product / 255) as u8
}

impl DeviceConfig {
    /// Reads the configured colour as red, green and blue, each scaled by
    /// the alpha byte where the text has one.
    pub fn parse_color(&self) -> (res: Result<(u8, u8, u8), ConfigError>)
        ensures
            match res {
                Ok(rgb) => color_of(self.color@) == Ok::<(u8, u8, u8), ConfigErrorKind>(rgb),
                Err(e) => color_of(self.color@) == Err::<(u8, u8, u8), ConfigErrorKind>(e.kind)
                    && e.value@ == self.color@,
            },
    {
        let text: &str = self.color.as_str();
        let chars: Vec<char> = chars_of(text);
        let n: usize = chars.len();
        let mut k: usize = 0;
        assert(chars@.skip(0) =~= chars@);
        while k < n && chars[k] == '#'
            invariant
                n == chars.len(),
                k <= n,
                strip_hashes(chars@) == strip_hashes(chars@.skip(k as int)),
            decreases n - k,
        {
            assert(chars@.skip(k as int).skip(1) =~= chars@.skip(k + 1));
            k += 1;
        }
        let hex: &str = text.substring_char(k, n);
        assert(hex@ =~= chars@.skip(k as int));
        assert(strip_hashes(hex@) == hex@);
        let size: usize = hex.as_bytes().len();
        if size != 6 && size != 8 {
            return Err(ConfigError::new(ConfigErrorKind::ColorFormat, &self.color));
        }
        if !hex.is_ascii() {
            return Err(ConfigError::new(ConfigErrorKind::ColorDigits, &self.color));
        }
        proof {
            is_ascii_chars_encode_utf8(hex@);
        }
        let red: Option<u8> = parse_hex_byte(chars[k], chars[k + 1]);
        let green: Option<u8> = parse_hex_byte(chars[k + 2], chars[k + 3]);
        let blue: Option<u8> = parse_hex_byte(chars[k + 4], chars[k + 5]);
        let alpha: Option<u8> = if size == 8 {
            parse_hex_byte(chars[k + 6], chars[k + 7])
        } else {
            Some(255)
        };
        match (red, green, blue, alpha) {
            (Some(r), Some(g), Some(b), Some(a)) => Ok(
                (premultiply(r, a), premultiply(g, a), premultiply(b, a)),
            ),
            _ => Err(ConfigError::new(ConfigErrorKind::ColorDigits, &self.color)),
        }
    }
}

/// How often `c` occurs in `s`.
pub open spec fn count_of(s: Seq<char>, c: char) -> nat
    decreases s.len(),
{
    if s.len() == 0 {
        0
    } else {
        count_of(s.drop_last(), c) + if s.last() == c {
            1nat
        } else {
            0nat
        }
    }
}

/// The position at which `c` first occurs in `s`; the length of `s` if it
/// does not occur.
pub open spec fn first_index_of(s: Seq<char>, c: char) -> int
    decreases s.len(),
{
    if s.len() == 0 || s[0] == c {
        0
    } else {
        1 + first_index_of(s.skip(1), c)
    }
}

/// The bounds, lower then upper, that a range text writes: one number is
/// the upper bound above zero, two numbers around a `-` are both bounds.
pub open spec fn bounds_of_text(range: Seq<char>) -> Result<(u16, u16), ConfigErrorKind> {
    let dashes = count_of(range, '-');
    if dashes == 0 {
        if is_u16_text(range) {
            Ok((0u16, u16_of_text(range)))
        } else {
            Err(ConfigErrorKind::RangeNumber)
        }
    } else if dashes == 1 {
        let at = first_index_of(range, '-');
        let low = range.subrange(0, at);
        let high = range.subrange(at + 1, range.len() as int);
        if !is_u16_text(low) || !is_u16_text(high) {
            Err(ConfigErrorKind::RangeNumber)
        } else if u16_of_text(high) < u16_of_text(low) {
            Err(ConfigErrorKind::RangeInverted)
        } else {
            Ok((u16_of_text(low), u16_of_text(high)))
        }
    } else {
        Err(ConfigErrorKind::RangeFormat)
    }
}

/// The bounds of an optional range: from 0 to 100 where none is configured.
pub open spec fn bounds_of(range: Option<Seq<char>>) -> Result<(u16, u16), ConfigErrorKind> {
    match range {
        Some(text) => bounds_of_text(text),
        None => Ok((0u16, 100u16)),
    }
}

/// The width of the range and where it starts.
pub open spec fn span_offset_of(range: Option<Seq<char>>) -> Result<(u16, u16), ConfigErrorKind> {
    match bounds_of(range) {
        Ok((low, high)) => Ok(((high - low) as u16, low)),
        Err(kind) => Err(kind),
    }
}

/// A character that is found at `at`, and nowhere before, first occurs
/// at `at`.
pub proof fn lemma_first_index_of(s: Seq<char>, c: char, at: int)
    requires
        0 <= at < s.len(),
        s[at] == c,
        forall|j: int| 0 <= j < at ==> s[j] != c,
    ensures
        first_index_of(s, c) == at,
    decreases at,
{
    if at > 0 {
        assert(s[0] != c);
        lemma_first_index_of(s.skip(1), c, at - 1);
    }
}

impl ButtonConfig {
    /// The configured range as its width and its start.
    pub fn parse_range_offset(&self) -> (res: Result<(u16, u16), ConfigError>)
        ensures
            match res {
                Ok(pair) => span_offset_of(self@.range) == Ok::<(u16, u16), ConfigErrorKind>(pair),
                Err(e) => span_offset_of(self@.range) == Err::<(u16, u16), ConfigErrorKind>(e.kind)
                    && self@.range == Some(e.value@),
            },
    {
        match self.parse_min_max() {
            Ok((low, high)) => Ok((high - low, low)),
            Err(e) => Err(e),
        }
    }

    /// The configured range as its lower and upper bound.
    pub fn parse_min_max(&self) -> (res: Result<(u16, u16), ConfigError>)
        ensures
            match res {
                Ok(pair) => bounds_of(self@.range) == Ok::<(u16, u16), ConfigErrorKind>(pair)
                    && pair.0 <= pair.1,
                Err(e) => bounds_of(self@.range) == Err::<(u16, u16), ConfigErrorKind>(e.kind)
                    && self@.range == Some(e.value@),
            },
    {
        let range: &String = match &self.range {
            Some(range) => range,
            None => {
                return Ok((0, 100));
            },
        };
        let chars: Vec<char> = chars_of(range.as_str());
        let n: usize = chars.len();
        let mut dashes: usize = 0;
        let mut first: usize = n;
        let mut i: usize = 0;
        assert(chars@.subrange(0, 0) =~= Seq::<char>::empty());
        while i < n
            invariant
                n == chars.len(),
                i <= n,
                dashes <= i,
                dashes == count_of(chars@.subrange(0, i as int), '-'),
                dashes == 0 ==> first == n && forall|j: int| 0 <= j < i ==> chars@[j] != '-',
                dashes > 0 ==> first < i && chars@[first as int] == '-' && forall|j: int|
                    0 <= j < first ==> chars@[j] != '-',
            decreases n - i,
        {
            assert(chars@.subrange(0, i + 1).drop_last() =~= chars@.subrange(0, i as int));
            if chars[i] == '-' {
                if dashes == 0 {
                    first = i;
                }
                dashes += 1;
            }
            i += 1;
        }
        assert(chars@.subrange(0, n as int) =~= chars@);
        if dashes == 0 {
            match parse_u16(&chars, 0, n) {
                Some(high) => Ok((0, high)),
                None => Err(ConfigError::new(ConfigErrorKind::RangeNumber, range)),
            }
        } else if dashes == 1 {
            proof {
                lemma_first_index_of(chars@, '-', first as int);
            }
            match (parse_u16(&chars, 0, first), parse_u16(&chars, first + 1, n)) {
                (Some(low), Some(high)) => {
                    if high < low {
                        Err(ConfigError::new(ConfigErrorKind::RangeInverted, range))
                    } else {
                        Ok((low, high))
                    }
                },
                _ => Err(ConfigError::new(ConfigErrorKind::RangeNumber, range)),
            }
        } else {
            Err(ConfigError::new(ConfigErrorKind::RangeFormat, range))
        }
    }
}

/// A text in which `c` stands nowhere holds it zero times.
pub proof fn lemma_count_absent(s: Seq<char>, c: char)
    requires
        forall|i: int| 0 <= i < s.len() ==> s[i] != c,
    ensures
        count_of(s, c) == 0,
    decreases s.len(),
{
    if s.len() > 0 {
        lemma_count_absent(s.drop_last(), c);
    }
}

/// Counting over two texts joined is counting in each.
pub proof fn lemma_count_joined(a: Seq<char>, b: Seq<char>, c: char)
    ensures
        count_of(a + b, c) == count_of(a, c) + count_of(b, c),
    decreases b.len(),
{
    if b.len() == 0 {
        assert(a + b =~= a);
    } else {
        assert((a + b).drop_last() =~= a + b.drop_last());
        lemma_count_joined(a, b.drop_last(), c);
    }
}

/// A number holds no `-`.
pub proof fn lemma_number_has_no_dash(s: Seq<char>)
    requires
        is_u16_text(s),
    ensures
        forall|i: int| 0 <= i < s.len() ==> s[i] != '-',
        count_of(s, '-') == 0,
{
    let d = unsigned_digits(s);
    assert forall|i: int| 0 <= i < s.len() implies s[i] != '-' by {
        if s[0] == '+' {
            if i > 0 {
                assert(is_decimal_digit(d[i - 1]));
            }
        } else {
            assert(is_decimal_digit(d[i]));
        }
    }
    lemma_count_absent(s, '-');
}

/// A range of one number runs from zero to that number.
pub proof fn lemma_single_number_range(upper: Seq<char>)
    requires
        is_u16_text(upper),
    ensures
        bounds_of(Some(upper)) == Ok::<(u16, u16), ConfigErrorKind>((0u16, u16_of_text(upper))),
        span_offset_of(Some(upper)) == Ok::<(u16, u16), ConfigErrorKind>(
            (u16_of_text(upper), 0u16),
        ),
{
    lemma_number_has_no_dash(upper);
}

/// A range of two numbers around a `-` runs from the first to the second,
/// and is rejected as inverted where the second is the smaller one.
pub proof fn lemma_two_number_range(lower: Seq<char>, upper: Seq<char>)
    requires
        is_u16_text(lower),
        is_u16_text(upper),
    ensures
        bounds_of(Some(lower + seq!['-'] + upper)) == (if u16_of_text(lower) <= u16_of_text(upper) {
            Ok::<(u16, u16), ConfigErrorKind>((u16_of_text(lower), u16_of_text(upper)))
        } else {
            Err::<(u16, u16), ConfigErrorKind>(ConfigErrorKind::RangeInverted)
        }),
        u16_of_text(lower) <= u16_of_text(upper) ==> span_offset_of(
            Some(lower + seq!['-'] + upper),
        ) == Ok::<(u16, u16), ConfigErrorKind>(
            ((u16_of_text(upper) - u16_of_text(lower)) as u16, u16_of_text(lower)),
        ),
{
    let dash = seq!['-'];
    let range = lower + dash + upper;
    lemma_number_has_no_dash(lower);
    lemma_number_has_no_dash(upper);
    lemma_count_joined(lower + dash, upper, '-');
    lemma_count_joined(lower, dash, '-');
    assert(dash.drop_last() =~= Seq::<char>::empty());
    assert(count_of(dash, '-') == 1) by {
        assert(count_of(dash.drop_last(), '-') == 0);
    }
    assert(count_of(range, '-') == 1);
    let at = lower.len() as int;
    assert(range[at] == '-');
    assert forall|j: int| 0 <= j < at implies range[j] != '-' by {
        assert(range[j] == lower[j]);
    }
    lemma_first_index_of(range, '-', at);
    assert(range.subrange(0, at) =~= lower);
    assert(range.subrange(at + 1, range.len() as int) =~= upper);
}

/// Any two numbers, written in decimal around a `-`, are read back as the
/// bounds where the first is not the larger one, and rejected otherwise.
/// One number, written alone, is read back as the upper bound above zero.
pub proof fn lemma_written_range(lower: u16, upper: u16)
    ensures
        bounds_of(Some(decimal_text(upper as nat))) == Ok::<(u16, u16), ConfigErrorKind>(
            (0u16, upper),
        ),
        bounds_of(Some(decimal_text(lower as nat) + seq!['-'] + decimal_text(upper as nat))) == (
        if lower <= upper {
            Ok::<(u16, u16), ConfigErrorKind>((lower, upper))
        } else {
            Err::<(u16, u16), ConfigErrorKind>(ConfigErrorKind::RangeInverted)
        }),
{
    lemma_decimal_text_reads_back(lower);
    lemma_decimal_text_reads_back(upper);
    lemma_single_number_range(decimal_text(upper as nat));
    lemma_two_number_range(decimal_text(lower as nat), decimal_text(upper as nat));
}

/// A text that, after its leading `#`, is neither six nor eight
/// characters long is no colour. Where it is neither six nor eight bytes
/// long either, as any such text in ASCII, it is rejected for its format.
pub proof fn lemma_color_length(text: Seq<char>)
    requires
        strip_hashes(text).len() != 6,
        strip_hashes(text).len() != 8,
    ensures
        color_of(text) is Err,
        is_ascii_chars(text) || (utf8_len(strip_hashes(text)) != 6 && utf8_len(strip_hashes(text))
            != 8) ==> color_of(text) == Err::<(u8, u8, u8), ConfigErrorKind>(
            ConfigErrorKind::ColorFormat,
        ),
{
    let hex = strip_hashes(text);
    lemma_strip_hashes_is_suffix(text);
    if is_ascii_chars(hex) {
        is_ascii_chars_encode_utf8(hex);
    }
}

/// What is left of a text without its leading `#` is the end of the text.
pub proof fn lemma_strip_hashes_is_suffix(text: Seq<char>)
    ensures
        strip_hashes(text).len() <= text.len(),
        strip_hashes(text) == text.skip(text.len() - strip_hashes(text).len()),
    decreases text.len(),
{
    if text.len() > 0 && text[0] == '#' {
        let rest = text.skip(1);
        lemma_strip_hashes_is_suffix(rest);
        assert(rest.skip(rest.len() - strip_hashes(rest).len()) =~= text.skip(
            text.len() - strip_hashes(rest).len(),
        ));
    } else {
        assert(text.skip(0) =~= text);
    }
}

/// The byte that two hexadecimal digits write.
pub open spec fn byte_of(high: char, low: char) -> u8 {
    hex_byte_value(high, low) as u8
}

/// A run of hexadecimal digits is ASCII, takes one byte for each digit,
/// begins with no `#`, and is what is left of itself with a `#` before it.
pub proof fn lemma_hex_digits_are_plain(digits: Seq<char>)
    requires
        digits.len() > 0,
        forall|i: int| 0 <= i < digits.len() ==> is_hex_digit(#[trigger] digits[i]),
    ensures
        is_ascii_chars(digits),
        utf8_len(digits) == digits.len(),
        strip_hashes(digits) == digits,
        strip_hashes(seq!['#'] + digits) == digits,
{
    assert forall|i: int| 0 <= i < digits.len() implies '\0' <= #[trigger] digits[i]
        <= '\u{7f}' by {
        assert(is_hex_digit(digits[i]));
    }
    is_ascii_chars_encode_utf8(digits);
    assert(is_hex_digit(digits[0]));
    assert((seq!['#'] + digits).skip(1) =~= digits);
}

/// Six hexadecimal digits, with or without a `#` before them, are the
/// colour whose red, green and blue they write.
pub proof fn lemma_six_digit_color(digits: Seq<char>)
    requires
        digits.len() == 6,
        forall|i: int| 0 <= i < 6 ==> is_hex_digit(#[trigger] digits[i]),
    ensures
        color_of(digits) == Ok::<(u8, u8, u8), ConfigErrorKind>(
            (
                byte_of(digits[0], digits[1]),
                byte_of(digits[2], digits[3]),
                byte_of(digits[4], digits[5]),
            ),
        ),
        color_of(seq!['#'] + digits) == color_of(digits),
{
    lemma_hex_digits_are_plain(digits);
    assert(is_hex_digit(digits[0]) && is_hex_digit(digits[1]) && is_hex_digit(digits[2])
        && is_hex_digit(digits[3]) && is_hex_digit(digits[4]) && is_hex_digit(digits[5]));
}

/// Eight hexadecimal digits, with or without a `#` before them, are the
/// colour whose red, green and blue the first six write, each multiplied
/// by the alpha that the last two write and divided by 255, rounded down.
pub proof fn lemma_eight_digit_color(digits: Seq<char>)
    requires
        digits.len() == 8,
        forall|i: int| 0 <= i < 8 ==> is_hex_digit(#[trigger] digits[i]),
    ensures
        color_of(digits) == Ok::<(u8, u8, u8), ConfigErrorKind>(
            (
                (byte_of(digits[0], digits[1]) * byte_of(digits[6], digits[7]) / 255) as u8,
                (byte_of(digits[2], digits[3]) * byte_of(digits[6], digits[7]) / 255) as u8,
                (byte_of(digits[4], digits[5]) * byte_of(digits[6], digits[7]) / 255) as u8,
            ),
        ),
        color_of(seq!['#'] + digits) == color_of(digits),
{
    lemma_hex_digits_are_plain(digits);
    assert(is_hex_digit(digits[0]) && is_hex_digit(digits[1]) && is_hex_digit(digits[2])
        && is_hex_digit(digits[3]) && is_hex_digit(digits[4]) && is_hex_digit(digits[5])
        && is_hex_digit(digits[6]) && is_hex_digit(digits[7]));
}

/// A colour with anything but a hexadecimal digit among its six or eight
/// characters, a sign included, is rejected for its digits.
pub proof fn lemma_color_needs_hex_digits(text: Seq<char>, at: int)
    requires
        utf8_len(strip_hashes(text)) == 6 || utf8_len(strip_hashes(text)) == 8,
        0 <= at < strip_hashes(text).len(),
        !is_hex_digit(strip_hashes(text)[at]),
    ensures
        color_of(text) == Err::<(u8, u8, u8), ConfigErrorKind>(ConfigErrorKind::ColorDigits),
{
    let hex = strip_hashes(text);
    if is_ascii_chars(hex) {
        is_ascii_chars_encode_utf8(hex);
    }
}

} // verus!
