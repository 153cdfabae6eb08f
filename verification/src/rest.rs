//! What a request from outside says of the embed it wants posted.
use vstd::prelude::*;
use crate::text::chars_of;

verus! {

/// The parts of an embed that a request may give.
#[derive(Debug)]
pub struct EmbedDetails {
    pub embed_title: Option<String>,
    pub embed_title_url: Option<String>,
    pub embed_description: Option<String>,
    pub embed_image_url: Option<String>,
    pub embed_thumbnail_url: Option<String>,
    /// The colour as `#rrggbb`.
    pub embed_color: Option<String>,
}

/// The number that a hexadecimal digit stands for, in either case.
pub open spec fn hex_value(c: char) -> Option<nat> {
    let code = c as u32;
    if 48 <= code <= 57 {
        Some((code - 48) as nat)
    } else if 97 <= code <= 102 {
        Some((code - 87) as nat)
    } else if 65 <= code <= 70 {
        Some((code - 55) as nat)
    } else {
        None
    }
}

/// The byte that two characters denote in hexadecimal: two digits, or a
/// plus sign and one digit.
pub open spec fn hex_byte(high: char, low: char) -> Option<u8> {
    match hex_value(low) {
        Some(l) => if high == '+' {
            Some(l as u8)
        } else {
            match hex_value(high) {
                Some(h) => Some((h * 16 + l) as u8),
                None => None,
            }
        },
        None => None,
    }
}

/// The colour that `#rrggbb` denotes, as red, green and blue. The first
/// character is not looked at beyond its being plain ASCII, and nothing
/// behind the seventh is looked at.
pub open spec fn rgb_of(color: Seq<char>) -> Option<(u8, u8, u8)> {
    if color.len() >= 7 && (color[0] as u32) < 128 && hex_byte(color[1], color[2]).is_some()
        && hex_byte(color[3], color[4]).is_some() && hex_byte(color[5], color[6]).is_some() {
        Some(
            (
                hex_byte(color[1], color[2]).unwrap(),
                hex_byte(color[3], color[4]).unwrap(),
                hex_byte(color[5], color[6]).unwrap(),
            ),
        )
    } else {
        None
    }
}

/// The number that a hexadecimal digit stands for.
fn hex_digit(c: char) -> (value: Option<u8>)
    ensures
        match value {
            Some(v) => hex_value(c) == Some(v as nat) && v < 16,
            None => hex_value(c).is_none(),
        },
{
    let code: u32 = c as u32;
    if 48 <= code && code <= 57 {
        Some((code - 48) as u8)
    } else if 97 <= code && code <= 102 {
        Some((code - 87) as u8)
    } else if 65 <= code && code <= 70 {
        Some((code - 55) as u8)
    } else {
        None
    }
}

/// The byte that two characters denote in hexadecimal.
fn read_hex_byte(high: char, low: char) -> (value: Option<u8>)
    ensures
        value == hex_byte(high, low),
{
    let l = hex_digit(low)?;
    if high == '+' {
        return Some(l);
    }
    let h = hex_digit(high)?;
    Some(h * 16 + l)
}

/// Reads a colour written as `#rrggbb`.
pub fn parse_rgb(color: &str) -> (rgb: Option<(u8, u8, u8)>)
    ensures
        rgb == rgb_of(color@),
{
    let chars = chars_of(color);
    if chars.len() < 7 || chars[0] as u32 >= 128 {
        return None;
    }
    let red = read_hex_byte(chars[1], chars[2])?;
    let green = read_hex_byte(chars[3], chars[4])?;
    let blue = read_hex_byte(chars[5], chars[6])?;
    Some((red, green, blue))
}

impl EmbedDetails {
    /// The colour of the embed as red, green and blue; `None` where none is
    /// given or it cannot be read.
    pub fn color_rgb(&self) -> (rgb: Option<(u8, u8, u8)>)
        ensures
            rgb == match self.embed_color {
                Some(color) => rgb_of(color@),
                None => None,
            },
    {
        match &self.embed_color {
            Some(color) => parse_rgb(color.as_str()),
            None => None,
        }
    }
}

} // verus!
