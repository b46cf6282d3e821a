//! Small helpers: the order of file names in a folder, the wording of
//! times, and the palette of a picture. The snapshot of the playlist is
//! found here under its two names as well.

use crate::song::Rgb;
use vstd::prelude::*;

pub use crate::playlist::{load_cached_songs, store_playlist};
use vstd::utf8::encode_utf8;

verus! {

/// How the first of two things ranks against the second.
#[derive(Clone, Copy, Debug, PartialEq, Eq, Structural)]
pub enum Comparison {
    Less,
    Equal,
    Greater,
}

impl Comparison {
    pub open spec fn reversed(self) -> Comparison {
        match self {
            Comparison::Less => Comparison::Greater,
            Comparison::Equal => Comparison::Equal,
            Comparison::Greater => Comparison::Less,
        }
    }
}

/// Whether a file name is listed after the ordinary ones: it starts with a
/// dot or with a hash sign.
pub open spec fn spec_sorts_last(name: Seq<char>) -> bool {
    let bytes = encode_utf8(name);
    bytes.len() > 0 && (bytes[0] == 0x2e || bytes[0] == 0x23)
}

pub fn sorts_last(name: &str) -> (res: bool)
    ensures
        res == spec_sorts_last(name@),
{
    let bytes = name.as_bytes();
    bytes.len() > 0 && (bytes[0] == 0x2e || bytes[0] == 0x23)
}

/// How two file names rank in a folder listing. Names that start with a dot
/// or a hash sign come after all others; within each of the two kinds the
/// names rank as they collate, which is `collated`.
pub open spec fn spec_name_order(first: Seq<char>, second: Seq<char>, collated: Comparison) -> Comparison {
    if !spec_sorts_last(first) && spec_sorts_last(second) {
        Comparison::Less
    } else if spec_sorts_last(first) && !spec_sorts_last(second) {
        Comparison::Greater
    } else {
        collated
    }
}

/// Ranks two file names, given how they collate.
pub fn cmp_like_nautilus(filename_a: &str, filename_b: &str, collated: Comparison) -> (res: Comparison)
    ensures
        res == spec_name_order(filename_a@, filename_b@, collated),
{
    let sort_last_a = sorts_last(filename_a);
    let sort_last_b = sorts_last(filename_b);
    if !sort_last_a && sort_last_b {
        Comparison::Less
    } else if sort_last_a && !sort_last_b {
        Comparison::Greater
    } else {
        collated
    }
}

/// How two files rank: by the names of the folders they lie in, and by
/// their own names where the folders rank equal.
pub open spec fn spec_file_order(
    parent_a: Seq<char>,
    parent_b: Seq<char>,
    collated_parents: Comparison,
    name_a: Seq<char>,
    name_b: Seq<char>,
    collated_names: Comparison,
) -> Comparison {
    let by_parent = spec_name_order(parent_a, parent_b, collated_parents);
    if by_parent == Comparison::Equal {
        spec_name_order(name_a, name_b, collated_names)
    } else {
        by_parent
    }
}

/// Ranks two files, given the names of their folders and their own names,
/// and how each pair of names collates.
pub fn cmp_two_files(
    parent_a: &str,
    parent_b: &str,
    collated_parents: Comparison,
    name_a: &str,
    name_b: &str,
    collated_names: Comparison,
) -> (res: Comparison)
    ensures
        res == spec_file_order(
            parent_a@,
            parent_b@,
            collated_parents,
            name_a@,
            name_b@,
            collated_names,
        ),
{
    let order = cmp_like_nautilus(parent_a, parent_b, collated_parents);
    match order {
        Comparison::Equal => cmp_like_nautilus(name_a, name_b, collated_names),
        _ => order,
    }
}

/// The decimal digit of a value below ten.
pub open spec fn digit(value: int) -> char
    recommends
        0 <= value < 10,
{
    ((0x30 + value) as u8) as char
}

/// A number written in decimal, without leading zeros.
pub open spec fn decimal(value: nat) -> Seq<char>
    decreases value,
{
    if value < 10 {
        seq![digit(value as int)]
    } else {
        decimal(value / 10).push(digit((value % 10) as int))
    }
}

/// Appends a number in decimal.
pub fn append_decimal(out: &mut String, value: u64)
    ensures
        final(out)@ == old(out)@ + decimal(value as nat),
    decreases value,
{
    if value >= 10 {
        append_decimal(out, value / 10);
    }
    let last = (0x30 + (value % 10) as u8) as char;
    out.push(last);
    assert(out@ =~= old(out)@ + decimal(value as nat));
}

/// The seconds of a time as they are shown behind the colon: at least two
/// characters wide, filled up with a zero in front. The sign of a negative
/// time counts as one of the two.
pub open spec fn seconds_shown(negative: bool, seconds: nat) -> Seq<char> {
    if seconds == 0 {
        seq!['0', '0']
    } else if negative {
        seq!['-'] + decimal(seconds)
    } else if seconds < 10 {
        seq!['0'] + decimal(seconds)
    } else {
        decimal(seconds)
    }
}

/// A time of `t` seconds as minutes and seconds with a colon between. A
/// negative time has each part that is not zero shown with a minus sign.
pub open spec fn spec_format_time(t: int) -> Seq<char> {
    let negative = t < 0;
    let magnitude = if negative {
        -t
    } else {
        t
    };
    let minutes = (magnitude / 60) as nat;
    let seconds = (magnitude % 60) as nat;
    (if negative && minutes > 0 {
        seq!['-']
    } else {
        seq![]
    }) + decimal(minutes) + seq![':'] + seconds_shown(negative, seconds)
}

/// The magnitude of a signed number.
fn magnitude_of(t: i64) -> (res: u64)
    ensures
        res == if t < 0 {
            -t
        } else {
            t as int
        },
{
    if t == i64::MIN {
        0x8000_0000_0000_0000u64
    } else if t < 0 {
        (-t) as u64
    } else {
        t as u64
    }
}

fn append_time(out: &mut String, t: i64)
    ensures
        final(out)@ == old(out)@ + spec_format_time(t as int),
{
    let negative = t < 0;
    let magnitude = magnitude_of(t);
    let minutes = magnitude / 60;
    let seconds = magnitude % 60;
    if negative && minutes > 0 {
        out.push('-');
    }
    append_decimal(out, minutes);
    out.push(':');
    if seconds == 0 {
        out.push('0');
        out.push('0');
    } else if negative {
        out.push('-');
        append_decimal(out, seconds);
    } else if seconds < 10 {
        out.push('0');
        append_decimal(out, seconds);
    } else {
        append_decimal(out, seconds);
    }
    assert(out@ =~= old(out)@ + spec_format_time(t as int));
}

/// Writes a time in seconds as minutes and seconds.
pub fn format_time(t: i64) -> (res: String)
    ensures
        res@ == spec_format_time(t as int),
{
    let mut out = String::new();
    append_time(&mut out, t);
    assert(out@ =~= spec_format_time(t as int));
    out
}

/// A remaining time: a left-to-right mark and a minus sign in front of the
/// time, so that the sign stays in front wherever text runs from right to
/// left.
pub open spec fn spec_format_remaining_time(t: int) -> Seq<char> {
    seq!['\u{200e}', '\u{2212}'] + spec_format_time(t)
}

/// Writes a remaining time in seconds as minutes and seconds.
pub fn format_remaining_time(t: i64) -> (res: String)
    ensures
        res@ == spec_format_remaining_time(t as int),
{
    let mut out = String::new();
    out.push('\u{200e}');
    out.push('\u{2212}');
    append_time(&mut out, t);
    assert(out@ =~= spec_format_remaining_time(t as int));
    out
}

/// How the bytes of a picture are laid out.
#[derive(Clone, Copy, Debug, PartialEq, Eq, Structural)]
pub enum ColorFormat {
    Rgb,
    Rgba,
}

/// The layout of a picture with or without transparency.
pub fn color_format(has_alpha: bool) -> (res: ColorFormat)
    ensures
        res == if has_alpha {
            ColorFormat::Rgba
        } else {
            ColorFormat::Rgb
        },
{
    if has_alpha {
        ColorFormat::Rgba
    } else {
        ColorFormat::Rgb
    }
}

/// The palette that colour quantisation finds in a picture, strongest
/// colour first; `None` where it finds none.
pub uninterp spec fn palette_of(
    pixels: Seq<u8>,
    format: ColorFormat,
    quality: u8,
    max_colors: u8,
) -> Option<Seq<Rgb>>;

/// The most bytes of a picture that a palette is asked of.
pub const MAX_PIXEL_BYTES: usize = 0x100_0000;

/// Calls `color_thief::get_palette`: the result is the palette that the
/// crate's quantisation finds, or `None` where it reports an error. The
/// crate asks for a quality from 1 to 10 and for two colours or more; the
/// size of the picture is bounded so that its counters stay in range.
#[verifier::external_body]
fn get_palette(pixels: &Vec<u8>, format: ColorFormat, quality: u8, max_colors: u8) -> (res: Option<
    Vec<Rgb>,
>)
    requires
        pixels@.len() <= MAX_PIXEL_BYTES,
        1 <= quality <= 10,
        max_colors >= 2,
    ensures
        match res {
            Some(palette) => palette_of(pixels@, format, quality, max_colors) == Some(palette@),
            None => palette_of(pixels@, format, quality, max_colors) is None,
        },
{
    let layout = match format {
        ColorFormat::Rgb => color_thief::ColorFormat::Rgb,
        ColorFormat::Rgba => color_thief::ColorFormat::Rgba,
    };
    match color_thief::get_palette(pixels.as_slice(), layout, quality, max_colors) {
        Ok(colors) => Some(colors.iter().map(|c| Rgb { r: c.r, g: c.g, b: c.b }).collect()),
        Err(_) => None,
    }
}

/// The palette of a cover: up to four colours, found at quality 5.
pub open spec fn spec_load_palette(pixels: Seq<u8>, has_alpha: bool) -> Option<Seq<Rgb>> {
    palette_of(
        pixels,
        if has_alpha {
            ColorFormat::Rgba
        } else {
            ColorFormat::Rgb
        },
        5,
        4,
    )
}

/// Finds the palette of a cover from the bytes of its pixels.
pub fn load_palette(pixels: &Vec<u8>, has_alpha: bool) -> (res: Option<Vec<Rgb>>)
    requires
        pixels@.len() <= MAX_PIXEL_BYTES,
    ensures
        match res {
            Some(palette) => spec_load_palette(pixels@, has_alpha) == Some(palette@),
            None => spec_load_palette(pixels@, has_alpha) is None,
        },
{
    get_palette(pixels, color_format(has_alpha), 5, 4)
}

} // verus!
