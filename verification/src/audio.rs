//! The sound of a video: what is asked of the outside decoder, and playback
//! with the sound beside it.

use vstd::prelude::*;
use crate::error::{Missing, PaxciiError, Tool};
use crate::fps::budget_micros;
use crate::playback::{Playback, PlaybackState};
use crate::text::{lossy_text, utf8_text_lossy};
use crate::video::{texts, AsciiVideo, ToolOutput};

verus! {

/// What the decoder is asked: the sound of `path` without its pictures,
/// encoded as mp3, on its output.
pub open spec fn audio_args(path: Seq<char>) -> Seq<Seq<char>> {
    seq!["-i"@, path, "-vn"@, "-f"@, "mp3"@, "-"@]
}

impl AsciiVideo {
    /// The arguments with which `ffmpeg` separates the sound from the video
    /// at `path` and encodes it as mp3.
    pub fn ffmpeg_audio_args(path: &str) -> (args: Vec<String>)
        ensures
            texts(args@) == audio_args(path@),
    {
        let mut args: Vec<String> = Vec::new();
        args.push(String::from_str("-i"));
        args.push(String::from_str(path));
        args.push(String::from_str("-vn"));
        args.push(String::from_str("-f"));
        args.push(String::from_str("mp3"));
        args.push(String::from_str("-"));
        args
    }

    /// Takes the sound from what `ffmpeg` wrote. A run that failed is an
    /// error, with what the decoder said, and changes nothing.
    pub fn ffmpeg_audio(&mut self, output: ToolOutput) -> (r: Result<(), PaxciiError>)
        ensures
            final(self).fps == old(self).fps,
            final(self).settings == old(self).settings,
            final(self).ascii_frames == old(self).ascii_frames,
            final(self).raw_video == old(self).raw_video,
            output.success ==> r is Ok && final(self).audio == Some(output.stdout),
            !output.success ==> final(self).audio == old(self).audio && (r matches Err(
                PaxciiError::ExternalToolFailure { tool: Tool::Ffmpeg, stderr },
            ) && stderr@ == lossy_text(output.stderr@)),
    {
        if output.success {
            self.audio = Some(output.stdout);
            Ok(())
        } else {
            Err(
                PaxciiError::ExternalToolFailure {
                    tool: Tool::Ffmpeg,
                    stderr: utf8_text_lossy(&output.stderr),
                },
            )
        }
    }

    /// Starts the playback of the frames with their sound: hands out the
    /// sound, for the audio output, and a scheduler that is ready to start.
    /// The two then run side by side without a common clock. The sound is
    /// asked for first, then the frames.
    pub fn play_with_audio(self) -> (r: Result<(Vec<u8>, Playback), PaxciiError>)
        ensures
            self.audio is None ==> r == Err::<(Vec<u8>, Playback), PaxciiError>(
                PaxciiError::NotReady { missing: Missing::Audio },
            ),
            self.audio is Some && self.ascii_frames is None ==> r == Err::<
                (Vec<u8>, Playback),
                PaxciiError,
            >(PaxciiError::NotReady { missing: Missing::FramesToPlay }),
            self.audio matches Some(sound) ==> (self.ascii_frames matches Some(frames) ==> (
            r matches Ok((played, playback)) && {
                &&& played == sound
                &&& playback@.state == PlaybackState::Ready
                &&& playback@.remaining == texts(frames@)
                &&& playback@.budget == budget_micros(self.fps@.0, self.fps@.1)
            })),
    {
        match self.audio {
            None => Err(PaxciiError::NotReady { missing: Missing::Audio }),
            Some(sound) => match self.ascii_frames {
                None => Err(PaxciiError::NotReady { missing: Missing::FramesToPlay }),
                Some(frames) => Ok((sound, Playback::new(frames, &self.fps))),
            },
        }
    }
}

} // verus!
