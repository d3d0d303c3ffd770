//! A video on its way to text: the raw frames, their demultiplexing and
//! rendering, and what is handed to and taken from the outside decoder.

use vstd::prelude::*;
use vstd::utf8::{decode_utf8, valid_utf8};
use crate::ansi::{clear_text, push_clear};
use crate::aspect::{fitted, keep_aspect_ratio, lemma_round_div_nearest, round_div};
use crate::error::{Missing, PaxciiError, Tool};
use crate::fps::{budget_micros, Fps};
use crate::grid::{byte_count, frame_len, GridView, PixelGrid};
use crate::img::{render, rendered};
use crate::playback::{Playback, PlaybackState};
use crate::settings::PaxciiSettings;
use crate::text::{
    chars_of, decimal, lossy_text, parse_u32, parsed_u32, push_decimal, split, split_at_char,
    trim, trimmed, utf8_text, utf8_text_lossy,
};

verus! {

/// The number of whole frames of `width` by `height` pixels in `len` bytes.
pub open spec fn frame_count(len: nat, width: u32, height: u32) -> nat {
    if frame_len(width, height) == 0 {
        0
    } else {
        len / frame_len(width, height)
    }
}

/// Frame `k` of a raw stream: the `k`-th run of `frame_len` bytes.
pub open spec fn frame_view(raw: Seq<u8>, width: u32, height: u32, k: int) -> GridView {
    GridView {
        width: width as nat,
        height: height as nat,
        pixels: raw.subrange(k * frame_len(width, height), (k + 1) * frame_len(width, height)),
    }
}

/// The frames of a raw stream, one behind the other without gaps; bytes at
/// the end that do not fill a frame belong to none.
pub open spec fn demuxed(raw: Seq<u8>, width: u32, height: u32) -> Seq<GridView> {
    Seq::new(frame_count(raw.len(), width, height), |k: int| frame_view(raw, width, height, k))
}

/// The views of the grids in `grids`.
pub open spec fn grid_views(grids: Seq<PixelGrid>) -> Seq<GridView> {
    grids.map_values(|g: PixelGrid| g@)
}

/// The texts of the strings in `frames`.
pub open spec fn texts(frames: Seq<String>) -> Seq<Seq<char>> {
    frames.map_values(|f: String| f@)
}

/// Frame `k` lies inside a stream that holds more than `k` frames.
proof fn lemma_frame_in_range(len: nat, size: nat, k: nat)
    requires
        size > 0,
        k < len / size,
    ensures
        0 <= k * size,
        (k + 1) * size <= len,
        (k + 1) * size == k * size + size,
{
    vstd::arithmetic::div_mod::lemma_fundamental_div_mod(len as int, size as int);
    vstd::arithmetic::div_mod::lemma_mod_bound(len as int, size as int);
    let q = (len / size) as int;
    assert((k + 1) * size <= q * size) by (nonlinear_arith)
        requires
            k + 1 <= q,
            size > 0,
    ;
    assert((k + 1) * size == k * size + size && 0 <= k * size) by (nonlinear_arith);
}

/// The number of whole frames in `raw`, and the bytes in one. Both are zero
/// where a frame has no bytes.
fn count_frames(raw: &Vec<u8>, width: u32, height: u32) -> (r: (usize, usize))
    ensures
        r.0 == frame_count(raw@.len(), width, height),
        r.0 > 0 ==> r.1 == frame_len(width, height),
{
    let size = byte_count(width, height);
    if size == 0 {
        (0, 0)
    } else if size > raw.len() as u128 {
        proof {
            vstd::arithmetic::div_mod::lemma_basic_div(raw@.len() as int, size as int);
        }
        (0, 0)
    } else {
        let size = size as usize;
        (raw.len() / size, size)
    }
}

/// Copies frame `k` out of `raw`.
fn frame_at(raw: &Vec<u8>, width: u32, height: u32, size: usize, k: usize) -> (grid: PixelGrid)
    requires
        size == frame_len(width, height),
        k < frame_count(raw@.len(), width, height),
    ensures
        grid@ == frame_view(raw@, width, height, k as int),
{
    let len = raw.len();
    proof {
        lemma_frame_in_range(len as nat, size as nat, k as nat);
    }
    let start = k * size;
    let mut bytes: Vec<u8> = Vec::new();
    let mut j: usize = 0;
    while j < size
        invariant
            j <= size,
            start + size <= len == raw@.len(),
            bytes@ == raw@.subrange(start as int, start + j),
        decreases size - j,
    {
        bytes.push(raw[start + j]);
        j += 1;
    }
    let made = PixelGrid::from_raw(width, height, bytes);
    assert(bytes@.subrange(0, size as int) == bytes@);
    made.unwrap()
}

/// Splits a raw stream of RGB frames, each `width` by `height` pixels, into
/// its frames. A frame without pixels cannot be told from its neighbours, so
/// a size with an empty axis is refused.
pub fn demux(raw: &Vec<u8>, width: u32, height: u32) -> (r: Result<Vec<PixelGrid>, PaxciiError>)
    ensures
        width == 0 || height == 0 ==> r == Err::<Vec<PixelGrid>, PaxciiError>(
            PaxciiError::MalformedFrame,
        ),
        width >= 1 && height >= 1 ==> (r matches Ok(grids) && grid_views(grids@) == demuxed(
            raw@,
            width,
            height,
        )),
{
    if width == 0 || height == 0 {
        return Err(PaxciiError::MalformedFrame);
    }
    let (count, size) = count_frames(raw, width, height);
    let mut grids: Vec<PixelGrid> = Vec::new();
    let mut k: usize = 0;
    while k < count
        invariant
            k <= count,
            count == frame_count(raw@.len(), width, height),
            count > 0 ==> size == frame_len(width, height),
            grids@.len() == k,
            forall|i: int| 0 <= i < k ==> (#[trigger] grids@[i])@ == frame_view(raw@, width, height, i),
        decreases count - k,
    {
        let grid = frame_at(raw, width, height, size, k);
        grids.push(grid);
        k += 1;
    }
    Ok(grids)
}

/// The frames of a raw stream, each rendered as text.
pub open spec fn rendered_frames(raw: Seq<u8>, settings: PaxciiSettings) -> Seq<Seq<char>> {
    Seq::new(
        frame_count(raw.len(), settings.width, settings.height),
        |k: int|
            rendered(
                frame_view(raw, settings.width, settings.height, k),
                settings.color,
                settings.char_set@,
            ),
    )
}

/// How a run of an outside program ended: whether it reported success, and
/// what it wrote to its output and to its error stream.
#[derive(Debug, Clone, PartialEq, Eq)]
pub struct ToolOutput {
    pub success: bool,
    pub stdout: Vec<u8>,
    pub stderr: Vec<u8>,
}

/// What the probe is asked: the size and the frame rate of the first video
/// stream of `path`, as one line of the form `WxHxN/D`.
pub open spec fn probe_args(path: Seq<char>) -> Seq<Seq<char>> {
    seq![
        "-select_streams"@,
        "v:0"@,
        "-show_entries"@,
        "stream=width,height,r_frame_rate"@,
        "-of"@,
        "csv=s=x:p=0"@,
        path,
    ]
}

/// The four numbers of a probe's answer `WxHxN/D`: width, height, and the
/// frame rate's numerator and denominator. White space around the answer and
/// further fields behind these are passed over.
pub open spec fn probe_numbers(text: Seq<char>) -> Option<(u32, u32, u32, u32)> {
    let fields = split(trimmed(text), 'x');
    if fields.len() < 3 {
        None
    } else {
        let rate = split(fields[2], '/');
        if rate.len() < 2 {
            None
        } else {
            match (
                parsed_u32(fields[0]),
                parsed_u32(fields[1]),
                parsed_u32(rate[0]),
                parsed_u32(rate[1]),
            ) {
                (Some(w), Some(h), Some(n), Some(d)) => Some((w, h, n, d)),
                _ => None,
            }
        }
    }
}

/// What a probe's output says: the width, the height and the frame rate in
/// whole frames a second, rounded from `N/D`. Output that is not text, not of
/// the form above, or whose rate is not positive says nothing.
pub open spec fn probe_reading(stdout: Seq<u8>) -> Option<(u32, u32, u32)> {
    if !valid_utf8(stdout) {
        None
    } else {
        match probe_numbers(decode_utf8(stdout)) {
            Some((w, h, n, d)) => if d >= 1 && round_div(n as int, d as int) >= 1 {
                Some((w, h, round_div(n as int, d as int) as u32))
            } else {
                None
            },
            None => None,
        }
    }
}

/// The filter that makes the decoder emit RGB frames of `width` by `height`.
pub open spec fn scale_filter(width: u32, height: u32) -> Seq<char> {
    "format=rgb24, scale="@ + decimal(width as nat) + seq![':'] + decimal(height as nat)
}

/// What the decoder is asked: the frames of `path` as raw RGB bytes of
/// `width` by `height` pixels, on its output.
pub open spec fn decode_args(path: Seq<char>, width: u32, height: u32) -> Seq<Seq<char>> {
    seq!["-i"@, path, "-vf"@, scale_filter(width, height), "-f"@, "rawvideo"@, "-"@]
}

/// The size that the settings ask of a video whose own size is `vsize`.
pub open spec fn target_size(settings: PaxciiSettings, vsize: (u32, u32)) -> (int, int) {
    if settings.keep_aspect_ratio {
        fitted(vsize, (settings.width, settings.height))
    } else {
        (settings.width as int, settings.height as int)
    }
}

/// Reads the four numbers of a probe's answer, if it is of the form
/// `WxHxN/D`.
pub fn read_probe(text: &str) -> (numbers: Option<(u32, u32, u32, u32)>)
    ensures
        numbers == probe_numbers(text@),
{
    let chars = chars_of(text);
    let line = trim(&chars);
    let fields = split_at_char(&line, 'x');
    if fields.len() < 3 {
        return None;
    }
    let rate = split_at_char(&fields[2], '/');
    if rate.len() < 2 {
        return None;
    }
    let w = parse_u32(&fields[0]);
    let h = parse_u32(&fields[1]);
    let n = parse_u32(&rate[0]);
    let d = parse_u32(&rate[1]);
    match (w, h, n, d) {
        (Some(w), Some(h), Some(n), Some(d)) => Some((w, h, n, d)),
        _ => None,
    }
}

/// What a replay script holds for one frame: a statement that prints the
/// clear-screen escape and the frame, and one that sleeps for `seconds`,
/// the time of one frame as a decimal number of seconds.
pub open spec fn script_block(frame: Seq<char>, seconds: Seq<char>) -> Seq<char> {
    "echo -e \""@ + clear_text() + frame + "\"\nsleep "@ + seconds + seq!['\n']
}

/// A replay script: the blocks of the frames, in order and with nothing
/// between them.
pub open spec fn script_text(frames: Seq<Seq<char>>, seconds: Seq<char>) -> Seq<char>
    decreases frames.len(),
{
    if frames.len() == 0 {
        Seq::empty()
    } else {
        script_text(frames.drop_last(), seconds) + script_block(frames.last(), seconds)
    }
}

/// The script of frames one behind the other is the script of the first
/// followed by the script of the rest.
pub proof fn lemma_script_concat(a: Seq<Seq<char>>, b: Seq<Seq<char>>, seconds: Seq<char>)
    ensures
        script_text(a + b, seconds) == script_text(a, seconds) + script_text(b, seconds),
    decreases b.len(),
{
    if b.len() == 0 {
        assert(a + b == a);
    } else {
        assert((a + b).drop_last() == a + b.drop_last());
        lemma_script_concat(a, b.drop_last(), seconds);
    }
}

/// Serializes rendered frames into a script for a POSIX shell that replays
/// them. `seconds` is the time of one frame, one divided by the frame rate,
/// written as a decimal number of seconds; it stands behind `sleep ` in
/// every block as it is given.
pub fn export(frames: &Vec<String>, seconds: &str) -> (script: String)
    ensures
        script@ == script_text(texts(frames@), seconds@),
{
    let mut script = String::new();
    let mut i: usize = 0;
    while i < frames.len()
        invariant
            i <= frames@.len(),
            script@ == script_text(texts(frames@).take(i as int), seconds@),
        decreases frames@.len() - i,
    {
        script.append("echo -e \"");
        push_clear(&mut script);
        script.append(frames[i].as_str());
        script.append("\"\nsleep ");
        script.append(seconds);
        script.push('\n');
        assert(texts(frames@).take(i + 1).drop_last() == texts(frames@).take(i as int));
        i += 1;
    }
    assert(texts(frames@).take(frames@.len() as int) == texts(frames@));
    script
}

/// A video on its way to text.
#[derive(Debug)]
pub struct AsciiVideo {
    pub fps: Fps,
    pub settings: PaxciiSettings,
    pub ascii_frames: Option<Vec<String>>,
    pub raw_video: Option<Vec<u8>>,
    /// The sound, encoded as the outside decoder left it.
    pub audio: Option<Vec<u8>>,
}

impl AsciiVideo {
    /// A video with settings, thirty frames in a second, and nothing else yet.
    pub fn new(settings: PaxciiSettings) -> (video: AsciiVideo)
        ensures
            video.settings == settings,
            video.fps@ == (30nat, 1nat),
            video.ascii_frames is None,
            video.raw_video is None,
            video.audio is None,
    {
        AsciiVideo {
            fps: Fps::thirty(),
            settings,
            ascii_frames: None,
            raw_video: None,
            audio: None,
        }
    }

    /// Transforms the raw video into frames of text and keeps them in
    /// `ascii_frames`. The raw video must have been made at the settings'
    /// width and height. Without a raw video nothing changes; a size with an
    /// empty axis is refused and nothing changes either.
    pub fn video_to_ascii(&mut self) -> (r: Result<(), PaxciiError>)
        requires
            old(self).settings.char_set@.len() >= 1,
        ensures
            final(self).fps == old(self).fps,
            final(self).settings == old(self).settings,
            final(self).raw_video == old(self).raw_video,
            final(self).audio == old(self).audio,
            old(self).raw_video is None ==> r is Ok && final(self).ascii_frames == old(
                self,
            ).ascii_frames,
            old(self).raw_video is Some && (old(self).settings.width == 0 || old(
                self,
            ).settings.height == 0) ==> r == Err::<(), PaxciiError>(PaxciiError::MalformedFrame)
                && final(self).ascii_frames == old(self).ascii_frames,
            old(self).raw_video matches Some(raw) ==> (old(self).settings.width >= 1 && old(
                self,
            ).settings.height >= 1 ==> r is Ok && (final(self).ascii_frames matches Some(frames)
                && texts(frames@) == rendered_frames(raw@, old(self).settings))),
    {
        match &self.raw_video {
            None => Ok(()),
            Some(raw) => {
                let width = self.settings.width;
                let height = self.settings.height;
                if width == 0 || height == 0 {
                    return Err(PaxciiError::MalformedFrame);
                }
                let (count, size) = count_frames(raw, width, height);
                let mut frames: Vec<String> = Vec::new();
                let mut k: usize = 0;
                while k < count
                    invariant
                        k <= count,
                        width == self.settings.width,
                        height == self.settings.height,
                        self.settings.char_set@.len() >= 1,
                        count == frame_count(raw@.len(), width, height),
                        count > 0 ==> size == frame_len(width, height),
                        frames@.len() == k,
                        forall|i: int|
                            0 <= i < k ==> (#[trigger] frames@[i])@ == rendered(
                                frame_view(raw@, width, height, i),
                                self.settings.color,
                                self.settings.char_set@,
                            ),
                    decreases count - k,
                {
                    let grid = frame_at(raw, width, height, size, k);
                    let frame = render(&grid, &self.settings);
                    frames.push(frame);
                    k += 1;
                }
                self.ascii_frames = Some(frames);
                Ok(())
            },
        }
    }

    /// The arguments with which `ffprobe` reports the size and the frame
    /// rate of the video at `path`.
    pub fn ffprobe_args(path: &str) -> (args: Vec<String>)
        ensures
            texts(args@) == probe_args(path@),
    {
        let mut args: Vec<String> = Vec::new();
        args.push(String::from_str("-select_streams"));
        args.push(String::from_str("v:0"));
        args.push(String::from_str("-show_entries"));
        args.push(String::from_str("stream=width,height,r_frame_rate"));
        args.push(String::from_str("-of"));
        args.push(String::from_str("csv=s=x:p=0"));
        args.push(String::from_str(path));
        args
    }

    /// Takes the frame rate from what `ffprobe` answered and returns the
    /// video's width and height. A run that failed, or an answer that cannot
    /// be read, is an error and changes nothing.
    pub fn ffprobe(&mut self, output: ToolOutput) -> (r: Result<(u32, u32), PaxciiError>)
        ensures
            final(self).settings == old(self).settings,
            final(self).ascii_frames == old(self).ascii_frames,
            final(self).raw_video == old(self).raw_video,
            final(self).audio == old(self).audio,
            !output.success ==> final(self).fps == old(self).fps && (r matches Err(
                PaxciiError::ExternalToolFailure { tool: Tool::Ffprobe, stderr },
            ) && stderr@ == lossy_text(output.stderr@)),
            output.success && probe_reading(output.stdout@) is None ==> final(self).fps == old(
                self,
            ).fps && (r matches Err(PaxciiError::UnreadableProbe { output: shown }) && shown@
                == lossy_text(output.stdout@)),
            output.success ==> (probe_reading(output.stdout@) matches Some((w, h, rate)) ==> r
                == Ok::<(u32, u32), PaxciiError>((w, h)) && final(self).fps@ == (rate as nat, 1nat)),
    {
        if !output.success {
            return Err(
                PaxciiError::ExternalToolFailure {
                    tool: Tool::Ffprobe,
                    stderr: utf8_text_lossy(&output.stderr),
                },
            );
        }
        let shown = utf8_text_lossy(&output.stdout);
        let numbers = match utf8_text(output.stdout) {
            Some(text) => read_probe(text.as_str()),
            None => None,
        };
        match numbers {
            Some((w, h, n, d)) => {
                if d == 0 {
                    return Err(PaxciiError::UnreadableProbe { output: shown });
                }
                proof {
                    lemma_round_div_nearest(n as int, d as int);
                    assert(round_div(n as int, d as int) <= n) by (nonlinear_arith)
                        requires
                            2 * d * round_div(n as int, d as int) <= 2 * n + d,
                            d >= 1,
                            n >= 0,
                            round_div(n as int, d as int) >= 0,
                    ;
                }
                let rate = ((2 * (n as u64) + d as u64) / (2 * (d as u64))) as u32;
                match Fps::new(rate, 1) {
                    Some(fps) => {
                        self.fps = fps;
                        Ok((w, h))
                    },
                    None => Err(PaxciiError::UnreadableProbe { output: shown }),
                }
            },
            None => Err(PaxciiError::UnreadableProbe { output: shown }),
        }
    }

    /// Sets the settings' width and height to the size that the video of
    /// size `vsize` is to be decoded at: fitted into them if the aspect ratio
    /// is kept, else as they are. Returns the arguments with which `ffmpeg`
    /// decodes the video at `path` into raw RGB frames of that size.
    pub fn ffmpeg_args(&mut self, path: &str, vsize: (u32, u32)) -> (args: Vec<String>)
        ensures
            final(self).fps == old(self).fps,
            final(self).ascii_frames == old(self).ascii_frames,
            final(self).raw_video == old(self).raw_video,
            final(self).audio == old(self).audio,
            final(self).settings.color == old(self).settings.color,
            final(self).settings.char_set == old(self).settings.char_set,
            final(self).settings.keep_aspect_ratio == old(self).settings.keep_aspect_ratio,
            (final(self).settings.width as int, final(self).settings.height as int) == target_size(
                old(self).settings,
                vsize,
            ),
            texts(args@) == decode_args(
                path@,
                final(self).settings.width,
                final(self).settings.height,
            ),
    {
        if self.settings.keep_aspect_ratio {
            let (width, height) = keep_aspect_ratio(
                vsize,
                (self.settings.width, self.settings.height),
            );
            self.settings.width = width;
            self.settings.height = height;
        }
        let mut filter = String::from_str("format=rgb24, scale=");
        push_decimal(&mut filter, self.settings.width as u64);
        filter.push(':');
        push_decimal(&mut filter, self.settings.height as u64);
        assert(filter@ == scale_filter(self.settings.width, self.settings.height));
        let mut args: Vec<String> = Vec::new();
        args.push(String::from_str("-i"));
        args.push(String::from_str(path));
        args.push(String::from_str("-vf"));
        args.push(filter);
        args.push(String::from_str("-f"));
        args.push(String::from_str("rawvideo"));
        args.push(String::from_str("-"));
        args
    }

    /// Takes the raw video from what `ffmpeg` wrote. A run that failed is an
    /// error, with what the decoder said, and changes nothing.
    pub fn ffmpeg(&mut self, output: ToolOutput) -> (r: Result<(), PaxciiError>)
        ensures
            final(self).fps == old(self).fps,
            final(self).settings == old(self).settings,
            final(self).ascii_frames == old(self).ascii_frames,
            final(self).audio == old(self).audio,
            output.success ==> r is Ok && final(self).raw_video == Some(output.stdout),
            !output.success ==> final(self).raw_video == old(self).raw_video && (r matches Err(
                PaxciiError::ExternalToolFailure { tool: Tool::Ffmpeg, stderr },
            ) && stderr@ == lossy_text(output.stderr@)),
    {
        if output.success {
            self.raw_video = Some(output.stdout);
            Ok(())
        } else {
            Err(
                PaxciiError::ExternalToolFailure {
                    tool: Tool::Ffmpeg,
                    stderr: utf8_text_lossy(&output.stderr),
                },
            )
        }
    }

    /// The bash script that plays the video in the terminal; the caller
    /// writes it to a file. `seconds` is the time of one frame, one divided
    /// by `fps`, written as a decimal number of seconds. Before the frames
    /// are rendered there is no script.
    pub fn write_bash_script(&self, seconds: &str) -> (r: Result<String, PaxciiError>)
        ensures
            self.ascii_frames is None ==> r == Err::<String, PaxciiError>(
                PaxciiError::NotReady { missing: Missing::FramesToExport },
            ),
            self.ascii_frames matches Some(frames) ==> (r matches Ok(script) && script@
                == script_text(texts(frames@), seconds@)),
    {
        match &self.ascii_frames {
            None => Err(PaxciiError::NotReady { missing: Missing::FramesToExport }),
            Some(frames) => Ok(export(frames, seconds)),
        }
    }

    /// Starts the playback of the frames in the terminal: hands them, with
    /// the frame rate, to a scheduler that is ready to start. Before the
    /// frames are rendered there is nothing to play.
    pub fn play(self) -> (r: Result<Playback, PaxciiError>)
        ensures
            self.ascii_frames is None ==> r == Err::<Playback, PaxciiError>(
                PaxciiError::NotReady { missing: Missing::FramesToPlay },
            ),
            self.ascii_frames matches Some(frames) ==> (r matches Ok(playback) && {
                &&& playback@.state == PlaybackState::Ready
                &&& playback@.remaining == texts(frames@)
                &&& playback@.budget == budget_micros(self.fps@.0, self.fps@.1)
            }),
    {
        match self.ascii_frames {
            None => Err(PaxciiError::NotReady { missing: Missing::FramesToPlay }),
            Some(frames) => Ok(Playback::new(frames, &self.fps)),
        }
    }
}

} // verus!
