//! Transform images and videos to ascii.
//!
//! A grid of pixels becomes one frame of text, a glyph pair for each pixel;
//! a raw video stream becomes a sequence of frames, which a scheduler plays
//! at a fixed rate or a shell script replays. Everything here computes on
//! plain values: reading files, running the decoder, writing to the terminal
//! and sleeping are left to the caller.

pub mod ansi;
pub mod aspect;
pub mod audio;
pub mod cli;
pub mod error;
pub mod fps;
pub mod frame_laws;
pub mod grid;
pub mod img;
pub mod playback;
pub mod settings;
pub mod stream_laws;
pub mod text;
pub mod video;
pub mod webcam;

pub use aspect::keep_aspect_ratio;
pub use cli::{process_args, Settings};
pub use error::PaxciiError;
pub use fps::Fps;
pub use grid::PixelGrid;
pub use img::{truecolor, AsciiImage};
pub use playback::Playback;
pub use settings::PaxciiSettings;
pub use video::AsciiVideo;
pub use webcam::webcam;
