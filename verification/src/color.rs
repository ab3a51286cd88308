//! RGB colours and their six-digit hexadecimal notation.

use vstd::prelude::*;
use vstd::string::*;

verus! {

/// The hexadecimal digit, in lower case, that stands for `v`.
pub open spec fn hex_digit(v: int) -> char
    recommends
        0 <= v < 16,
{
    if v == 0 {
        '0'
    } else if v == 1 {
        '1'
    } else if v == 2 {
        '2'
    } else if v == 3 {
        '3'
    } else if v == 4 {
        '4'
    } else if v == 5 {
        '5'
    } else if v == 6 {
        '6'
    } else if v == 7 {
        '7'
    } else if v == 8 {
        '8'
    } else if v == 9 {
        '9'
    } else if v == 10 {
        'a'
    } else if v == 11 {
        'b'
    } else if v == 12 {
        'c'
    } else if v == 13 {
        'd'
    } else if v == 14 {
        'e'
    } else {
        'f'
    }
}

/// The value of a hexadecimal digit of either case, `None` for any other
/// character.
pub open spec fn hex_value(c: char) -> Option<int> {
    if '0' <= c && c <= '9' {
        Some(c as int - '0' as int)
    } else if 'a' <= c && c <= 'f' {
        Some(c as int - 'a' as int + 10)
    } else if 'A' <= c && c <= 'F' {
        Some(c as int - 'A' as int + 10)
    } else {
        None
    }
}

/// The two digits of one channel: the high nibble first, padded with `0`.
pub open spec fn hex_pair(channel: u8) -> Seq<char> {
    seq![hex_digit(channel as int / 16), hex_digit(channel as int % 16)]
}

/// The six-digit notation `rrggbb` of a triple.
pub open spec fn hex_of(rgb: (u8, u8, u8)) -> Seq<char> {
    hex_pair(rgb.0) + hex_pair(rgb.1) + hex_pair(rgb.2)
}

/// A text is a colour exactly if it is six hexadecimal digits.
pub open spec fn is_hex_color(text: Seq<char>) -> bool {
    &&& text.len() == 6
    &&& forall|i: int| 0 <= i < 6 ==> hex_value(#[trigger] text[i]) is Some
}

/// The channel that the digits at `at` and `at + 1` of `text` denote.
pub open spec fn channel_at(text: Seq<char>, at: int) -> int
    recommends
        0 <= at,
        at + 1 < text.len(),
        hex_value(text[at]) is Some,
        hex_value(text[at + 1]) is Some,
{
    16 * hex_value(text[at]).unwrap() + hex_value(text[at + 1]).unwrap()
}

/// The triple that a six-digit text denotes.
pub open spec fn rgb_of(text: Seq<char>) -> (u8, u8, u8)
    recommends
        is_hex_color(text),
{
    (channel_at(text, 0) as u8, channel_at(text, 2) as u8, channel_at(text, 4) as u8)
}

/// An RGB triple of 8-bit channels.
#[derive(Clone, Copy, Debug, PartialEq, Eq, Structural)]
pub struct Color {
    pub r: u8,
    pub g: u8,
    pub b: u8,
}

impl View for Color {
    type V = (u8, u8, u8);

    open spec fn view(&self) -> (u8, u8, u8) {
        (self.r, self.g, self.b)
    }
}

fn digit_text(v: u8) -> (text: &'static str)
    requires
        v < 16,
    ensures
        text@ == seq![hex_digit(v as int)],
{
    proof {
        reveal_strlit("0");
        reveal_strlit("1");
        reveal_strlit("2");
        reveal_strlit("3");
        reveal_strlit("4");
        reveal_strlit("5");
        reveal_strlit("6");
        reveal_strlit("7");
        reveal_strlit("8");
        reveal_strlit("9");
        reveal_strlit("a");
        reveal_strlit("b");
        reveal_strlit("c");
        reveal_strlit("d");
        reveal_strlit("e");
        reveal_strlit("f");
    }
    let text = match v {
        0 => "0",
        1 => "1",
        2 => "2",
        3 => "3",
        4 => "4",
        5 => "5",
        6 => "6",
        7 => "7",
        8 => "8",
        9 => "9",
        10 => "a",
        11 => "b",
        12 => "c",
        13 => "d",
        14 => "e",
        _ => "f",
    };
    text
}

fn digit_value(c: char) -> (value: Option<u8>)
    ensures
        match value {
            Some(v) => hex_value(c) == Some(v as int) && v < 16,
            None => hex_value(c) is None,
        },
{
    let code: u32 = c as u32;
    if 48 <= code && code <= 57 {
        Some((code - 48) as u8)
    } else if 97 <= code && code <= 102 {
        Some((code - 87) as u8)
    } else if 65 <= code && code <= 70 {
        Some((code - 55) as u8)
    } else {
        None
    }
}

impl Color {
    /// The colour with the given channels.
    pub fn new(r: u8, g: u8, b: u8) -> (color: Self)
        ensures
            color@ == (r, g, b),
    {
        Self { r, g, b }
    }

    /// The channels as a triple.
    pub fn get_rgb(&self) -> (rgb: (u8, u8, u8))
        ensures
            rgb == self@,
    {
        (self.r, self.g, self.b)
    }

    /// Replaces all three channels.
    pub fn set_rgb(&mut self, rgb: (u8, u8, u8))
        ensures
            final(self)@ == rgb,
    {
        self.r = rgb.0;
        self.g = rgb.1;
        self.b = rgb.2;
    }

    /// Writes a triple as six lower-case hexadecimal digits, two for each
    /// channel.
    pub fn rgb_to_hex(rgb: (u8, u8, u8)) -> (hex: String)
        ensures
            hex@ == hex_of(rgb),
    {
        let mut hex = String::new();
        hex.append(digit_text(rgb.0 / 16));
        hex.append(digit_text(rgb.0 % 16));
        hex.append(digit_text(rgb.1 / 16));
        hex.append(digit_text(rgb.1 % 16));
        hex.append(digit_text(rgb.2 / 16));
        hex.append(digit_text(rgb.2 % 16));
        hex
    }

    /// Tells whether a text is six hexadecimal digits.
    pub fn is_hex(hex: &str) -> (ok: bool)
        ensures
            ok == is_hex_color(hex@),
    {
        if hex.unicode_len() != 6 {
            return false;
        }
        let mut i: usize = 0;
        while i < 6
            invariant
                i <= 6,
                hex@.len() == 6,
                forall|j: int| 0 <= j < i ==> hex_value(#[trigger] hex@[j]) is Some,
            decreases 6 - i,
        {
            if digit_value(hex.get_char(i)).is_none() {
                return false;
            }
            i += 1;
        }
        true
    }

    /// Reads six hexadecimal digits of either case as a triple.
    pub fn hex_to_rgb(hex: &str) -> (rgb: (u8, u8, u8))
        requires
            is_hex_color(hex@),
        ensures
            rgb == rgb_of(hex@),
    {
        (Self::channel(hex, 0), Self::channel(hex, 2), Self::channel(hex, 4))
    }

    fn channel(hex: &str, at: usize) -> (value: u8)
        requires
            is_hex_color(hex@),
            at <= 4,
        ensures
            value == channel_at(hex@, at as int),
    {
        let high = digit_value(hex.get_char(at)).unwrap();
        let low = digit_value(hex.get_char(at + 1)).unwrap();
        16 * high + low
    }

    /// Reads a text as a triple where it is six hexadecimal digits.
    pub fn parse_hex(hex: &str) -> (parsed: Option<(u8, u8, u8)>)
        ensures
            parsed == if is_hex_color(hex@) {
                Some(rgb_of(hex@))
            } else {
                None
            },
    {
        if Self::is_hex(hex) {
            Some(Self::hex_to_rgb(hex))
        } else {
            None
        }
    }
}

/// Writing a triple in hexadecimal and reading the text back gives the triple
/// again.
pub proof fn lemma_hex_round_trip(rgb: (u8, u8, u8))
    ensures
        is_hex_color(hex_of(rgb)),
        rgb_of(hex_of(rgb)) == rgb,
{
    lemma_hex_pair_reads_back(rgb.0);
    lemma_hex_pair_reads_back(rgb.1);
    lemma_hex_pair_reads_back(rgb.2);
}

/// The two digits of a channel are hexadecimal digits whose values are the
/// channel's nibbles.
pub proof fn lemma_hex_pair_reads_back(channel: u8)
    ensures
        hex_value(hex_pair(channel)[0]) == Some(channel as int / 16),
        hex_value(hex_pair(channel)[1]) == Some(channel as int % 16),
        channel_at(hex_pair(channel), 0) == channel,
{
    lemma_hex_digit_reads_back(channel as int / 16);
    lemma_hex_digit_reads_back(channel as int % 16);
}

/// A digit written by `hex_digit` has the value it was written for.
pub proof fn lemma_hex_digit_reads_back(v: int)
    requires
        0 <= v < 16,
    ensures
        hex_value(hex_digit(v)) == Some(v),
{
}

} // verus!
