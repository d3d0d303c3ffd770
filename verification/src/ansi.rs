//! The control sequences that the library writes: the truecolor foreground
//! color, the reset of all attributes, and the clearing of the screen.

use vstd::prelude::*;

verus! {

/// What opens a truecolor foreground escape, up to the red channel:
/// `ESC[38;2;`.
pub open spec fn color_prefix() -> Seq<char> {
    seq!['\x1b', '[', '3', '8', ';', '2', ';']
}

/// The escape that turns all attributes off: `ESC[0m`.
pub open spec fn reset_text() -> Seq<char> {
    seq!['\x1b', '[', '0', 'm']
}

/// The escape that clears the screen: `ESC[2J`.
pub open spec fn clear_text() -> Seq<char> {
    seq!['\x1b', '[', '2', 'J']
}

/// Appends `color_prefix()` to `out`.
pub fn push_color_prefix(out: &mut String)
    ensures
        final(out)@ == old(out)@ + color_prefix(),
{
    out.push('\x1b');
    out.push('[');
    out.push('3');
    out.push('8');
    out.push(';');
    out.push('2');
    out.push(';');
    assert(out@ == old(out)@ + color_prefix());
}

/// Appends `reset_text()` to `out`.
pub fn push_reset(out: &mut String)
    ensures
        final(out)@ == old(out)@ + reset_text(),
{
    out.push('\x1b');
    out.push('[');
    out.push('0');
    out.push('m');
    assert(out@ == old(out)@ + reset_text());
}

/// Appends `clear_text()` to `out`.
pub fn push_clear(out: &mut String)
    ensures
        final(out)@ == old(out)@ + clear_text(),
{
    out.push('\x1b');
    out.push('[');
    out.push('2');
    out.push('J');
    assert(out@ == old(out)@ + clear_text());
}

} // verus!
