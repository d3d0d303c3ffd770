//! The ways in which rendering and playback fail.

use vstd::prelude::*;

verus! {

/// An outside program that hands the library its input.
#[derive(Debug, Clone, Copy, PartialEq, Eq)]
pub enum Tool {
    /// Reads a video's size and frame rate.
    Ffprobe,
    /// Decodes a video into raw frames, or its sound into an audio stream.
    Ffmpeg,
}

/// Something that a step needs and that no earlier step has supplied.
#[derive(Debug, Clone, Copy, PartialEq, Eq)]
pub enum Missing {
    /// The rendered frames, wanted for playback.
    FramesToPlay,
    /// The rendered frames, wanted for a replay script.
    FramesToExport,
    /// The audio stream, wanted for playback with sound.
    Audio,
    /// The rendered image, wanted for writing to a file.
    Ascii,
}

/// Why an operation of this library failed.
#[derive(Debug, Clone, PartialEq, Eq)]
pub enum PaxciiError {
    /// An outside program reported failure; `stderr` is what it said.
    ExternalToolFailure { tool: Tool, stderr: String },
    /// The probe's answer is not of the form `WxHxN/D`.
    UnreadableProbe { output: String },
    /// Bytes could not be read as a grid of the configured size.
    MalformedFrame,
    /// Writing a frame took the whole time allowed for it, or more.
    RenderTooSlow,
    /// Writing the output failed.
    IoFailure { cause: String },
    /// The options given exclude each other.
    InvalidConfiguration { reason: String },
    /// A step was asked for before its input was there.
    NotReady { missing: Missing },
    /// The camera reported an error.
    CaptureFailure { cause: String },
}

impl PaxciiError {
    /// The text of `message`.
    pub open spec fn message_text(self) -> Seq<char> {
        match self {
            PaxciiError::ExternalToolFailure { tool: Tool::Ffprobe, stderr } => "ffprobe stderr: "@
                + stderr@,
            PaxciiError::ExternalToolFailure { tool: Tool::Ffmpeg, stderr } => "ffmpeg stderr: "@
                + stderr@,
            PaxciiError::UnreadableProbe { output } => "ffprobe output not understood: "@
                + output@,
            PaxciiError::MalformedFrame => "Frame bytes do not match the width and height values in `PaxciiSettings`"@,
            PaxciiError::RenderTooSlow => "Terminal prints too slowly for video fps"@,
            PaxciiError::IoFailure { cause } => "Failed to write output: "@ + cause@,
            PaxciiError::InvalidConfiguration { reason } => "Invalid configuration: "@ + reason@,
            PaxciiError::NotReady {
                missing: Missing::FramesToPlay,
            } => "`ascii_frames` is empty. Can't play video in terminal."@,
            PaxciiError::NotReady {
                missing: Missing::FramesToExport,
            } => "`ascii_frames` is empty. Can't write video to bash script."@,
            PaxciiError::NotReady {
                missing: Missing::Audio,
            } => "Can't play video in terminal. `audio` is None"@,
            PaxciiError::NotReady {
                missing: Missing::Ascii,
            } => "Couldn't write ascii image to file. Ascii missing"@,
            PaxciiError::CaptureFailure { cause } => "webcam error: "@ + cause@,
        }
    }

    /// A line of text that says what went wrong.
    pub fn message(&self) -> (text: String)
        ensures
            text@ == self.message_text(),
    {
        match self {
            PaxciiError::ExternalToolFailure { tool: Tool::Ffprobe, stderr } => {
                String::from_str("ffprobe stderr: ").concat(stderr.as_str())
            },
            PaxciiError::ExternalToolFailure { tool: Tool::Ffmpeg, stderr } => {
                String::from_str("ffmpeg stderr: ").concat(stderr.as_str())
            },
            PaxciiError::UnreadableProbe { output } => {
                String::from_str("ffprobe output not understood: ").concat(output.as_str())
            },
            PaxciiError::MalformedFrame => String::from_str(
                "Frame bytes do not match the width and height values in `PaxciiSettings`",
            ),
            PaxciiError::RenderTooSlow => String::from_str(
                "Terminal prints too slowly for video fps",
            ),
            PaxciiError::IoFailure { cause } => {
                String::from_str("Failed to write output: ").concat(cause.as_str())
            },
            PaxciiError::InvalidConfiguration { reason } => {
                String::from_str("Invalid configuration: ").concat(reason.as_str())
            },
            PaxciiError::NotReady { missing: Missing::FramesToPlay } => String::from_str(
                "`ascii_frames` is empty. Can't play video in terminal.",
            ),
            PaxciiError::NotReady { missing: Missing::FramesToExport } => String::from_str(
                "`ascii_frames` is empty. Can't write video to bash script.",
            ),
            PaxciiError::NotReady { missing: Missing::Audio } => String::from_str(
                "Can't play video in terminal. `audio` is None",
            ),
            PaxciiError::NotReady { missing: Missing::Ascii } => String::from_str(
                "Couldn't write ascii image to file. Ascii missing",
            ),
            PaxciiError::CaptureFailure { cause } => {
                String::from_str("webcam error: ").concat(cause.as_str())
            },
        }
    }
}

} // verus!
