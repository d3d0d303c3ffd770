//! Rendering parameters and the preset character ramps.

use vstd::prelude::*;

verus! {

/// `[' ', ' ', '.', ':', '!', '+', '*', 'e', '$', '@', '8']`
pub const CHARS_LIGHT: [char; 11] = [' ', ' ', '.', ':', '!', '+', '*', 'e', '$', '@', '8'];

/// `['.', '*', 'e', 's', '◍']`
pub const CHARS_MEDIUM: [char; 5] = ['.', '*', 'e', 's', '\u{25cd}'];

/// `['░', '▒', '▓', '█']`
pub const CHARS_FILLED: [char; 4] = ['\u{2591}', '\u{2592}', '\u{2593}', '\u{2588}'];

/// [`CHARS_LIGHT`] as a vector.
pub fn light_ramp() -> (ramp: Vec<char>)
    ensures
        ramp@ == CHARS_LIGHT@,
{
    vec![' ', ' ', '.', ':', '!', '+', '*', 'e', '$', '@', '8']
}

/// [`CHARS_MEDIUM`] as a vector.
pub fn medium_ramp() -> (ramp: Vec<char>)
    ensures
        ramp@ == CHARS_MEDIUM@,
{
    vec!['.', '*', 'e', 's', '\u{25cd}']
}

/// [`CHARS_FILLED`] as a vector.
pub fn filled_ramp() -> (ramp: Vec<char>)
    ensures
        ramp@ == CHARS_FILLED@,
{
    vec!['\u{2591}', '\u{2592}', '\u{2593}', '\u{2588}']
}

/// Settings used when converting an image or a video to text.
///
/// `char_set` is ordered from the darkest glyph to the lightest one.
#[derive(Debug, Clone, PartialEq)]
pub struct PaxciiSettings {
    pub color: bool,
    pub char_set: Vec<char>,
    pub width: u32,
    pub height: u32,
    pub keep_aspect_ratio: bool,
}

impl PaxciiSettings {
    /// What rendering asks of the settings: a grid of at least one cell and
    /// at least one glyph to draw with.
    pub open spec fn valid(&self) -> bool {
        &&& self.char_set@.len() >= 1
        &&& self.width >= 1
        &&& self.height >= 1
    }

    /// Whether the settings are `valid`.
    pub fn is_valid(&self) -> (ok: bool)
        ensures
            ok == self.valid(),
    {
        self.char_set.len() >= 1 && self.width >= 1 && self.height >= 1
    }

    /// Changes `char_set` to [`CHARS_LIGHT`].
    pub fn chars_light(&mut self)
        ensures
            final(self).char_set@ == CHARS_LIGHT@,
            final(self).color == old(self).color,
            final(self).width == old(self).width,
            final(self).height == old(self).height,
            final(self).keep_aspect_ratio == old(self).keep_aspect_ratio,
    {
        self.char_set = light_ramp();
    }

    /// Changes `char_set` to [`CHARS_MEDIUM`].
    pub fn chars_medium(&mut self)
        ensures
            final(self).char_set@ == CHARS_MEDIUM@,
            final(self).color == old(self).color,
            final(self).width == old(self).width,
            final(self).height == old(self).height,
            final(self).keep_aspect_ratio == old(self).keep_aspect_ratio,
    {
        self.char_set = medium_ramp();
    }

    /// Changes `char_set` to [`CHARS_FILLED`].
    pub fn chars_filled(&mut self)
        ensures
            final(self).char_set@ == CHARS_FILLED@,
            final(self).color == old(self).color,
            final(self).width == old(self).width,
            final(self).height == old(self).height,
            final(self).keep_aspect_ratio == old(self).keep_aspect_ratio,
    {
        self.char_set = filled_ramp();
    }
}

impl Default for PaxciiSettings {
    /// Colored output with the medium ramp on a grid of 30 by 30 cells that
    /// keeps the source's aspect ratio.
    fn default() -> (settings: PaxciiSettings)
        ensures
            settings.color,
            settings.char_set@ == CHARS_MEDIUM@,
            settings.width == 30,
            settings.height == 30,
            settings.keep_aspect_ratio,
            settings.valid(),
    {
        PaxciiSettings {
            color: true,
            char_set: medium_ramp(),
            width: 30,
            height: 30,
            keep_aspect_ratio: true,
        }
    }
}

} // verus!
