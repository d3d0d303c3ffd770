//! Live rendering of what a camera captures.

use vstd::prelude::*;
use crate::ansi::{clear_text, push_clear};
use crate::error::PaxciiError;
use crate::grid::{can_resize, PixelGrid};
use crate::img::{rendered, target_grid, AsciiImage};

verus! {

/// One turn of the camera loop, which has no frame rate to keep: a frame
/// that was captured is resized to the settings, rendered, and handed back
/// behind the clear-screen escape, to be written at once; an error of the
/// camera ends the loop.
pub fn webcam(ascii_image: &mut AsciiImage, captured: Result<PixelGrid, String>) -> (r: Result<
    String,
    PaxciiError,
>)
    requires
        old(ascii_image).settings.char_set@.len() >= 1,
        captured matches Ok(frame) ==> can_resize(
            frame@,
            old(ascii_image).settings.width,
            old(ascii_image).settings.height,
        ),
    ensures
        final(ascii_image).settings == old(ascii_image).settings,
        captured matches Err(cause) ==> r == Err::<String, PaxciiError>(
            PaxciiError::CaptureFailure { cause },
        ) && *final(ascii_image) == *old(ascii_image),
        captured matches Ok(frame) ==> {
            &&& final(ascii_image).image == Some(frame)
            &&& final(ascii_image).ascii is None
            &&& r matches Ok(text) && text@ == clear_text() + rendered(
                target_grid(frame@, old(ascii_image).settings, true),
                old(ascii_image).settings.color,
                old(ascii_image).settings.char_set@,
            )
        },
{
    match captured {
        Err(cause) => Err(PaxciiError::CaptureFailure { cause }),
        Ok(frame) => {
            ascii_image.image = Some(frame);
            ascii_image.image_to_ascii(true);
            let mut text = String::new();
            push_clear(&mut text);
            match ascii_image.ascii.take() {
                Some(ascii) => {
                    text.append(ascii.as_str());
                },
                None => {},
            }
            Ok(text)
        },
    }
}

} // verus!
