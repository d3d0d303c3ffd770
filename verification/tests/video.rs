use paxcii::error::{Missing, Tool};
use paxcii::video::{demux, export, read_probe, ToolOutput};
use paxcii::{AsciiVideo, Fps, PaxciiError, PaxciiSettings};

fn plain(width: u32, height: u32, ramp: Vec<char>) -> PaxciiSettings {
    PaxciiSettings { color: false, char_set: ramp, width, height, keep_aspect_ratio: true }
}

fn solid_frame(width: u32, height: u32, rgb: [u8; 3]) -> Vec<u8> {
    let mut bytes = Vec::new();
    for _ in 0..(width * height) {
        bytes.extend_from_slice(&rgb);
    }
    bytes
}

fn ok(stdout: &[u8]) -> ToolOutput {
    ToolOutput { success: true, stdout: stdout.to_vec(), stderr: Vec::new() }
}

fn failed(stderr: &[u8]) -> ToolOutput {
    ToolOutput { success: false, stdout: b"ignored".to_vec(), stderr: stderr.to_vec() }
}

fn strings(args: &[&str]) -> Vec<String> {
    args.iter().map(|a| a.to_string()).collect()
}

#[test]
fn demux_then_render_reproduces_solid_frames() {
    let colors = [[0u8, 0, 0], [128, 128, 128], [255, 255, 255]];
    let mut raw = Vec::new();
    for color in colors {
        raw.extend(solid_frame(3, 2, color));
    }
    let mut video = AsciiVideo::new(plain(3, 2, vec![' ', '.', '#']));
    video.raw_video = Some(raw);
    assert_eq!(video.video_to_ascii(), Ok(()));
    let frames = video.ascii_frames.unwrap();
    assert_eq!(
        frames,
        vec![
            "    \n    \n\x1b[0m".to_string(),
            "....\n....\n\x1b[0m".to_string(),
            "####\n####\n\x1b[0m".to_string(),
        ]
    );
}

#[test]
fn demux_splits_into_whole_frames_and_drops_the_rest() {
    let mut raw: Vec<u8> = (0..24).collect();
    raw.extend([99, 98, 97, 96, 95]);
    let grids = demux(&raw, 2, 2).unwrap();
    assert_eq!(grids.len(), 2);
    assert_eq!(grids[0].as_raw(), &(0..12).collect::<Vec<u8>>());
    assert_eq!(grids[1].as_raw(), &(12..24).collect::<Vec<u8>>());
    for grid in &grids {
        assert_eq!((grid.width(), grid.height()), (2, 2));
    }
}

#[test]
fn demux_of_too_few_bytes_is_empty() {
    assert_eq!(demux(&vec![1; 11], 2, 2).unwrap().len(), 0);
    assert_eq!(demux(&vec![], 2, 2).unwrap().len(), 0);
    assert_eq!(demux(&vec![1; 100], u32::MAX, u32::MAX).unwrap().len(), 0);
}

#[test]
fn demux_refuses_a_size_without_pixels() {
    assert_eq!(demux(&vec![1; 12], 0, 2).err(), Some(PaxciiError::MalformedFrame));
    assert_eq!(demux(&vec![1; 12], 2, 0).err(), Some(PaxciiError::MalformedFrame));
    assert_eq!(demux(&vec![], 0, 0).err(), Some(PaxciiError::MalformedFrame));
}

#[test]
fn video_to_ascii_refuses_a_size_without_pixels() {
    let mut video = AsciiVideo::new(plain(0, 2, vec![' ', '#']));
    video.raw_video = Some(vec![0; 12]);
    assert_eq!(video.video_to_ascii(), Err(PaxciiError::MalformedFrame));
    assert!(video.ascii_frames.is_none());
    assert_eq!(video.raw_video, Some(vec![0; 12]));
}

#[test]
fn video_to_ascii_without_raw_video_changes_nothing() {
    let mut video = AsciiVideo::new(plain(2, 2, vec![' ', '#']));
    assert_eq!(video.video_to_ascii(), Ok(()));
    assert!(video.ascii_frames.is_none());
}

#[test]
fn video_to_ascii_of_no_whole_frame_gives_no_frames() {
    let mut video = AsciiVideo::new(plain(2, 2, vec![' ', '#']));
    video.raw_video = Some(vec![0; 11]);
    assert_eq!(video.video_to_ascii(), Ok(()));
    assert_eq!(video.ascii_frames, Some(Vec::new()));
}

#[test]
fn new_video_has_thirty_frames_a_second() {
    let video = AsciiVideo::new(PaxciiSettings::default());
    assert_eq!((video.fps.numer(), video.fps.denom()), (30, 1));
    assert_eq!(video.fps.frame_micros(), 33_333);
    assert!(video.ascii_frames.is_none());
    assert!(video.raw_video.is_none());
    assert!(video.audio.is_none());
}

#[test]
fn fps_must_be_positive() {
    assert!(Fps::new(0, 1).is_none());
    assert!(Fps::new(1, 0).is_none());
    assert!(Fps::new(0, 0).is_none());
    assert_eq!(Fps::new(10, 1).unwrap().frame_micros(), 100_000);
    assert_eq!(Fps::new(2, 1).unwrap().frame_micros(), 500_000);
    assert_eq!(Fps::new(30000, 1001).unwrap().frame_micros(), 33_367);
    assert_eq!(Fps::new(1, 2).unwrap().frame_micros(), 2_000_000);
    assert_eq!(Fps::new(3, 1).unwrap().frame_micros(), 333_333);
    assert_eq!(Fps::new(u32::MAX, 1).unwrap().frame_micros(), 0);
    assert_eq!(Fps::new(1, u32::MAX).unwrap().frame_micros(), 4_294_967_295_000_000);
    assert_eq!(Fps::new(2_000_000, 1).unwrap().frame_micros(), 1);
}

/// One divided by the rate, as a 32-bit float prints it.
fn seconds(fps: f32) -> String {
    format!("{}", 1. / fps)
}

#[test]
fn two_frames_at_two_fps_make_two_blocks() {
    let frames = vec!["first\n\x1b[0m".to_string(), "second\n\x1b[0m".to_string()];
    assert_eq!(seconds(2.), "0.5");
    let script = export(&frames, &seconds(2.));
    assert_eq!(
        script,
        "echo -e \"\x1b[2Jfirst\n\x1b[0m\"\nsleep 0.5\n\
         echo -e \"\x1b[2Jsecond\n\x1b[0m\"\nsleep 0.5\n"
    );
    assert_eq!(script.matches("echo -e").count(), 2);
    assert_eq!(script.matches("sleep 0.5\n").count(), 2);
    assert!(script.find("first").unwrap() < script.find("second").unwrap());
}

#[test]
fn script_of_no_frames_is_empty() {
    assert_eq!(export(&Vec::new(), "0.5"), "");
}

#[test]
fn script_sleeps_for_the_seconds_given() {
    let frames = vec!["x".to_string()];
    assert_eq!(export(&frames, &seconds(30.)), "echo -e \"\x1b[2Jx\"\nsleep 0.033333335\n");
    assert_eq!(export(&frames, &seconds(24.)), "echo -e \"\x1b[2Jx\"\nsleep 0.041666668\n");
    assert_eq!(export(&frames, &seconds(60.)), "echo -e \"\x1b[2Jx\"\nsleep 0.016666668\n");
    assert_eq!(export(&frames, &seconds(1.)), "echo -e \"\x1b[2Jx\"\nsleep 1\n");
    assert_eq!(export(&frames, &seconds(4.)), "echo -e \"\x1b[2Jx\"\nsleep 0.25\n");
    assert_eq!(export(&frames, "anything"), "echo -e \"\x1b[2Jx\"\nsleep anything\n");
    assert_eq!(export(&frames, ""), "echo -e \"\x1b[2Jx\"\nsleep \n");
}

#[test]
fn every_block_sleeps_for_the_same_seconds() {
    let frames: Vec<String> = (0..5).map(|i| format!("frame {i}")).collect();
    let script = export(&frames, &seconds(30.));
    let lines: Vec<&str> = script.lines().collect();
    assert_eq!(lines.len(), 10);
    for (i, pair) in lines.chunks(2).enumerate() {
        assert_eq!(pair[0], format!("echo -e \"\x1b[2Jframe {i}\""));
        assert_eq!(pair[1], "sleep 0.033333335");
    }
}

#[test]
fn write_bash_script_wants_frames() {
    let mut video = AsciiVideo::new(plain(2, 1, vec![' ', '#']));
    assert_eq!(
        video.write_bash_script("0.5"),
        Err(PaxciiError::NotReady { missing: Missing::FramesToExport })
    );
    video.raw_video = Some(vec![255, 255, 255, 0, 0, 0]);
    video.video_to_ascii().unwrap();
    assert_eq!(
        video.write_bash_script(&seconds(30.)),
        Ok("echo -e \"\x1b[2J##\n\x1b[0m\"\nsleep 0.033333335\n".to_string())
    );
    assert_eq!(video.ascii_frames, Some(vec!["##\n\x1b[0m".to_string()]));
}

#[test]
fn probe_arguments() {
    assert_eq!(
        AsciiVideo::ffprobe_args("clip.mp4"),
        strings(&[
            "-select_streams",
            "v:0",
            "-show_entries",
            "stream=width,height,r_frame_rate",
            "-of",
            "csv=s=x:p=0",
            "clip.mp4",
        ])
    );
}

#[test]
fn probe_answer_gives_size_and_rate() {
    let mut video = AsciiVideo::new(PaxciiSettings::default());
    assert_eq!(video.ffprobe(ok(b"640x480x25/1\n")), Ok((640, 480)));
    assert_eq!((video.fps.numer(), video.fps.denom()), (25, 1));
    assert_eq!(video.ffprobe(ok(b"  1920x1080x30000/1001  \n")), Ok((1920, 1080)));
    assert_eq!((video.fps.numer(), video.fps.denom()), (30, 1));
    assert_eq!(video.ffprobe(ok(b"1x2x5/2")), Ok((1, 2)));
    // 2.5 is halfway and rounds up.
    assert_eq!((video.fps.numer(), video.fps.denom()), (3, 1));
    assert_eq!(video.ffprobe(ok(b"+8x+9x+60/+1x1/2x")), Ok((8, 9)));
    assert_eq!((video.fps.numer(), video.fps.denom()), (60, 1));
    assert_eq!(video.ffprobe(ok(b"8x9x24/1/7")), Ok((8, 9)));
    assert_eq!((video.fps.numer(), video.fps.denom()), (24, 1));
}

#[test]
fn probe_numbers_are_read_as_they_stand() {
    assert_eq!(read_probe("640x480x30000/1001\n"), Some((640, 480, 30000, 1001)));
    assert_eq!(read_probe(" 1x2x3/0 "), Some((1, 2, 3, 0)));
    assert_eq!(read_probe("0x0x0/0"), Some((0, 0, 0, 0)));
    assert_eq!(read_probe("1x2x3"), None);
    assert_eq!(read_probe("1x2"), None);
    assert_eq!(read_probe("1 x2x3/4"), None);
    assert_eq!(read_probe("1x2x3/4x"), Some((1, 2, 3, 4)));
    assert_eq!(read_probe("1x2x3/4/"), Some((1, 2, 3, 4)));
    assert_eq!(read_probe("1x2x3/4 x"), None);
}

#[test]
fn unreadable_probe_answers_are_refused() {
    let answers: [&[u8]; 14] = [
        b"", b"640", b"640x480", b"640x480x30", b"640x480x/1", b"640x480x30/", b"ax480x30/1",
        b"640xbx30/1", b"640x480x30/0", b"640x480x0/1", b"640x480x1/3", b"640 x480x30/1",
        b"640x480x30/1\xff", b"4294967296x1x30/1",
    ];
    for answer in answers {
        let mut video = AsciiVideo::new(PaxciiSettings::default());
        let shown = String::from_utf8_lossy(answer).into_owned();
        assert_eq!(
            video.ffprobe(ok(answer)),
            Err(PaxciiError::UnreadableProbe { output: shown }),
            "{answer:?}"
        );
        assert_eq!((video.fps.numer(), video.fps.denom()), (30, 1));
    }
}

#[test]
fn failed_probe_reports_what_it_said() {
    let mut video = AsciiVideo::new(PaxciiSettings::default());
    let r = video.ffprobe(failed(b"no such file"));
    assert_eq!(
        r,
        Err(PaxciiError::ExternalToolFailure {
            tool: Tool::Ffprobe,
            stderr: "no such file".to_string()
        })
    );
    assert_eq!(r.unwrap_err().message(), "ffprobe stderr: no such file");
    assert_eq!((video.fps.numer(), video.fps.denom()), (30, 1));
}

#[test]
fn decode_arguments_with_the_aspect_ratio_kept() {
    let mut video = AsciiVideo::new(PaxciiSettings {
        color: true,
        char_set: vec!['#'],
        width: 80,
        height: 24,
        keep_aspect_ratio: true,
    });
    let args = video.ffmpeg_args("clip.mp4", (1920, 1080));
    assert_eq!(
        args,
        strings(&["-i", "clip.mp4", "-vf", "format=rgb24, scale=43:24", "-f", "rawvideo", "-"])
    );
    assert_eq!((video.settings.width, video.settings.height), (43, 24));
    assert!(video.settings.color);
    assert_eq!(video.settings.char_set, vec!['#']);
}

#[test]
fn decode_arguments_with_the_picture_stretched() {
    let mut video = AsciiVideo::new(PaxciiSettings {
        color: false,
        char_set: vec!['#'],
        width: 80,
        height: 24,
        keep_aspect_ratio: false,
    });
    let args = video.ffmpeg_args("a b.mkv", (1920, 1080));
    assert_eq!(
        args,
        strings(&["-i", "a b.mkv", "-vf", "format=rgb24, scale=80:24", "-f", "rawvideo", "-"])
    );
    assert_eq!((video.settings.width, video.settings.height), (80, 24));
}

#[test]
fn decoder_output_becomes_the_raw_video() {
    let mut video = AsciiVideo::new(PaxciiSettings::default());
    assert_eq!(video.ffmpeg(ok(&[1, 2, 3, 255])), Ok(()));
    assert_eq!(video.raw_video, Some(vec![1, 2, 3, 255]));
}

#[test]
fn failed_decoder_reports_what_it_said() {
    let mut video = AsciiVideo::new(PaxciiSettings::default());
    video.raw_video = Some(vec![9]);
    let r = video.ffmpeg(failed(b"bad \xff stream"));
    assert_eq!(
        r,
        Err(PaxciiError::ExternalToolFailure {
            tool: Tool::Ffmpeg,
            stderr: "bad \u{fffd} stream".to_string()
        })
    );
    assert_eq!(r.unwrap_err().message(), "ffmpeg stderr: bad \u{fffd} stream");
    assert_eq!(video.raw_video, Some(vec![9]));
}

#[test]
fn audio_arguments_and_output() {
    assert_eq!(
        AsciiVideo::ffmpeg_audio_args("clip.mp4"),
        strings(&["-i", "clip.mp4", "-vn", "-f", "mp3", "-"])
    );
    let mut video = AsciiVideo::new(PaxciiSettings::default());
    assert_eq!(video.ffmpeg_audio(ok(&[73, 68, 51])), Ok(()));
    assert_eq!(video.audio, Some(vec![73, 68, 51]));
    let r = video.ffmpeg_audio(failed(b"no audio"));
    assert_eq!(
        r,
        Err(PaxciiError::ExternalToolFailure { tool: Tool::Ffmpeg, stderr: "no audio".to_string() })
    );
    assert_eq!(video.audio, Some(vec![73, 68, 51]));
}

#[test]
fn every_error_has_its_message() {
    let cases = [
        (
            PaxciiError::ExternalToolFailure { tool: Tool::Ffmpeg, stderr: "x".to_string() },
            "ffmpeg stderr: x",
        ),
        (
            PaxciiError::ExternalToolFailure { tool: Tool::Ffprobe, stderr: "y".to_string() },
            "ffprobe stderr: y",
        ),
        (
            PaxciiError::UnreadableProbe { output: "1x2".to_string() },
            "ffprobe output not understood: 1x2",
        ),
        (
            PaxciiError::MalformedFrame,
            "Frame bytes do not match the width and height values in `PaxciiSettings`",
        ),
        (PaxciiError::RenderTooSlow, "Terminal prints too slowly for video fps"),
        (PaxciiError::IoFailure { cause: "broken pipe".to_string() }, "Failed to write output: broken pipe"),
        (
            PaxciiError::InvalidConfiguration { reason: "both".to_string() },
            "Invalid configuration: both",
        ),
        (
            PaxciiError::NotReady { missing: Missing::FramesToPlay },
            "`ascii_frames` is empty. Can't play video in terminal.",
        ),
        (
            PaxciiError::NotReady { missing: Missing::FramesToExport },
            "`ascii_frames` is empty. Can't write video to bash script.",
        ),
        (
            PaxciiError::NotReady { missing: Missing::Audio },
            "Can't play video in terminal. `audio` is None",
        ),
        (
            PaxciiError::NotReady { missing: Missing::Ascii },
            "Couldn't write ascii image to file. Ascii missing",
        ),
        (PaxciiError::CaptureFailure { cause: "unplugged".to_string() }, "webcam error: unplugged"),
    ];
    for (error, text) in cases {
        assert_eq!(error.message(), text);
    }
}
