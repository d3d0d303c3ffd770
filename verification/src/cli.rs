//! From the values of a command line to settings and to the task that they
//! ask for.

use vstd::prelude::*;
use crate::error::PaxciiError;
use crate::settings::{
    filled_ramp, light_ramp, medium_ramp, PaxciiSettings, CHARS_FILLED, CHARS_LIGHT, CHARS_MEDIUM,
};
use crate::text::{chars_of, parse_u32, parsed_u32, same_text};

verus! {

/// Settings of a run with a single input file.
#[derive(Debug, Clone, PartialEq)]
pub struct Settings {
    pub is_video: bool,
    /// Empty when the output goes to the terminal.
    pub output_file: String,
    /// Empty when there is no sound.
    pub audio_file: String,
    pub color: bool,
    pub char_set: Vec<char>,
    pub width: u32,
    pub height: u32,
    pub preserve_aspect_ratio: bool,
}

impl Default for Settings {
    /// A colored image on the terminal, with the medium ramp, on a grid of
    /// 42 by 32 cells that keeps the source's aspect ratio.
    fn default() -> (settings: Settings)
        ensures
            !settings.is_video,
            settings.output_file@.len() == 0,
            settings.audio_file@.len() == 0,
            settings.color,
            settings.char_set@ == CHARS_MEDIUM@,
            settings.width == 42,
            settings.height == 32,
            settings.preserve_aspect_ratio,
    {
        Settings {
            is_video: false,
            output_file: String::new(),
            audio_file: String::new(),
            color: true,
            char_set: medium_ramp(),
            width: 42,
            height: 32,
            preserve_aspect_ratio: true,
        }
    }
}

/// What a command line held, option by option: the text of each option that
/// was given and whether each flag was set.
#[derive(Debug, Clone, PartialEq)]
pub struct ArgValues {
    pub image: Option<String>,
    pub video: Option<String>,
    pub output_file: Option<String>,
    pub audio_file: Option<String>,
    pub no_color: bool,
    pub char_set: Option<String>,
    pub width: Option<String>,
    pub height: Option<String>,
    pub no_preserve_aspect_ratio: bool,
}

/// The ramp with the name `name`, if it is one of `light`, `medium` and
/// `filled`.
pub open spec fn named_ramp(name: Seq<char>) -> Option<Seq<char>> {
    if name == "light"@ {
        Some(CHARS_LIGHT@)
    } else if name == "medium"@ {
        Some(CHARS_MEDIUM@)
    } else if name == "filled"@ {
        Some(CHARS_FILLED@)
    } else {
        None
    }
}

/// The ramp that a command line asks for: the one it names, else the light
/// one without color and the medium one with it.
pub open spec fn chosen_ramp(no_color: bool, char_set: Option<String>) -> Option<Seq<char>> {
    match char_set {
        Some(name) => named_ramp(name@),
        None => Some(
            if no_color {
                CHARS_LIGHT@
            } else {
                CHARS_MEDIUM@
            },
        ),
    }
}

/// The length that a command line asks for: the number it gives, else
/// `otherwise`.
pub open spec fn chosen_length(given: Option<String>, otherwise: u32) -> Option<u32> {
    match given {
        Some(text) => parsed_u32(text@),
        None => Some(otherwise),
    }
}

/// The text of an option, or the empty text of one that was not given.
pub open spec fn text_or_empty(given: Option<String>) -> Seq<char> {
    match given {
        Some(text) => text@,
        None => Seq::empty(),
    }
}

/// The ramp with the name `name`.
pub fn ramp_by_name(name: &str) -> (ramp: Option<Vec<char>>)
    ensures
        ramp is Some <==> named_ramp(name@) is Some,
        ramp matches Some(r) ==> Some(r@) == named_ramp(name@),
{
    if same_text(name, "light") {
        Some(light_ramp())
    } else if same_text(name, "medium") {
        Some(medium_ramp())
    } else if same_text(name, "filled") {
        Some(filled_ramp())
    } else {
        None
    }
}

/// Reads the length that an option gives, if it gives one.
fn length_or(given: &Option<String>, otherwise: u32) -> (length: Option<u32>)
    ensures
        length == chosen_length(*given, otherwise),
{
    match given {
        Some(text) => {
            let chars = chars_of(text.as_str());
            parse_u32(&chars)
        },
        None => Some(otherwise),
    }
}

/// The text of an option, or the empty text.
fn or_empty(given: Option<String>) -> (text: String)
    ensures
        text@ == text_or_empty(given),
{
    match given {
        Some(text) => text,
        None => String::new(),
    }
}

/// What `process_args` says of a ramp's name that it does not know.
pub open spec fn char_set_fault() -> Seq<char> {
    "Invalid value for argument 'char-set'. Value can only be: light/medium/filled"@
}

/// What `process_args` says of a width that is no number.
pub open spec fn width_fault() -> Seq<char> {
    "Argument 'width' must be a number"@
}

/// What `process_args` says of a height that is no number.
pub open spec fn height_fault() -> Seq<char> {
    "Argument 'height' must be a number"@
}

/// Turns the values of a command line into settings and the path of the
/// input file.
///
/// The input is the image, or else the video. The size is the terminal's
/// where it is known, 42 by 32 cells where it is not, and what `width` and
/// `height` give where they are given. Refused, in this order: a ramp's name
/// that is not known, a width that is no number, a height that is no number.
pub fn process_args(cmd: ArgValues, terminal: Option<(u32, u32)>) -> (r: Result<
    (Settings, String),
    PaxciiError,
>)
    ensures
        ({
            let ramp = chosen_ramp(cmd.no_color, cmd.char_set);
            let base = match terminal {
                Some(size) => size,
                None => (42u32, 32u32),
            };
            let width = chosen_length(cmd.width, base.0);
            let height = chosen_length(cmd.height, base.1);
            &&& ramp is None ==> (r matches Err(PaxciiError::InvalidConfiguration { reason })
                && reason@ == char_set_fault())
            &&& ramp is Some && width is None ==> (r matches Err(
                PaxciiError::InvalidConfiguration { reason },
            ) && reason@ == width_fault())
            &&& ramp is Some && width is Some && height is None ==> (r matches Err(
                PaxciiError::InvalidConfiguration { reason },
            ) && reason@ == height_fault())
            &&& ramp is Some && width is Some && height is Some ==> (r matches Ok(
                (settings, path),
            ) && {
                &&& settings.is_video == (cmd.image is None && cmd.video is Some)
                &&& path@ == (match cmd.image {
                    Some(image) => image@,
                    None => text_or_empty(cmd.video),
                })
                &&& settings.output_file@ == text_or_empty(cmd.output_file)
                &&& settings.audio_file@ == text_or_empty(cmd.audio_file)
                &&& settings.color == !cmd.no_color
                &&& Some(settings.char_set@) == ramp
                &&& Some(settings.width) == width
                &&& Some(settings.height) == height
                &&& settings.preserve_aspect_ratio == !cmd.no_preserve_aspect_ratio
            })
        }),
{
    let is_video = cmd.image.is_none() && cmd.video.is_some();
    let path = match cmd.image {
        Some(image) => image,
        None => or_empty(cmd.video),
    };
    let char_set = match &cmd.char_set {
        Some(name) => match ramp_by_name(name.as_str()) {
            Some(ramp) => ramp,
            None => {
                return Err(
                    PaxciiError::InvalidConfiguration {
                        reason: String::from_str(
                            "Invalid value for argument 'char-set'. Value can only be: light/medium/filled",
                        ),
                    },
                );
            },
        },
        None => {
            if cmd.no_color {
                light_ramp()
            } else {
                medium_ramp()
            }
        },
    };
    let base = match terminal {
        Some(size) => size,
        None => (42, 32),
    };
    let width = match length_or(&cmd.width, base.0) {
        Some(width) => width,
        None => {
            return Err(
                PaxciiError::InvalidConfiguration {
                    reason: String::from_str("Argument 'width' must be a number"),
                },
            );
        },
    };
    let height = match length_or(&cmd.height, base.1) {
        Some(height) => height,
        None => {
            return Err(
                PaxciiError::InvalidConfiguration {
                    reason: String::from_str("Argument 'height' must be a number"),
                },
            );
        },
    };
    let settings = Settings {
        is_video,
        output_file: or_empty(cmd.output_file),
        audio_file: or_empty(cmd.audio_file),
        color: !cmd.no_color,
        char_set,
        width,
        height,
        preserve_aspect_ratio: !cmd.no_preserve_aspect_ratio,
    };
    Ok((settings, path))
}

/// What the command line of the program held: the text or number of each
/// option that was given and whether each flag was set.
#[derive(Debug, Clone, PartialEq)]
pub struct CommandLine {
    pub image: Option<String>,
    pub video: Option<String>,
    pub output_file: Option<String>,
    pub audio: bool,
    pub webcam: Option<u32>,
    pub no_color: bool,
    pub no_preserve_aspect_ratio: bool,
    pub char_set: Option<String>,
    pub width: Option<u32>,
    pub height: Option<u32>,
}

/// What a command line asks for, made ready for the library.
#[derive(Debug, Clone, PartialEq)]
pub struct ProcessedArgs {
    pub settings: PaxciiSettings,
    pub path: String,
    pub video: bool,
    pub audio: bool,
    pub output_file: Option<String>,
    pub webcam: Option<u32>,
}

/// What the program is to do.
#[derive(Debug, Clone, Copy, PartialEq, Eq)]
pub enum Task {
    /// Render a video and write a replay script to the output file.
    ExportVideo,
    /// Render a video and play it with its sound.
    PlayVideoWithAudio,
    /// Render a video and play it.
    PlayVideo,
    /// Render what the camera captures, until it fails.
    Webcam,
    /// Render an image and write the text to the output file.
    WriteImage,
    /// Render an image and print the text.
    PrintImage,
}

/// What `validate` says of a command line that names no input.
pub open spec fn no_input_fault() -> Seq<char> {
    "One of 'image', 'video' and 'webcam' is required"@
}

/// What `validate` says of a command line that asks for sound where none
/// can be played.
pub open spec fn audio_fault() -> Seq<char> {
    "Argument 'audio' cannot be used with 'image', 'webcam' or 'output-file'"@
}

impl CommandLine {
    /// No input is named: neither an image nor a video nor a camera.
    pub open spec fn names_no_input(&self) -> bool {
        self.image is None && self.video is None && self.webcam is None
    }

    /// Sound is asked for together with an input or an output that has
    /// none: an image, a camera, or a replay script, which never holds sound.
    pub open spec fn audio_conflicts(&self) -> bool {
        self.audio && (self.image is Some || self.webcam is Some || self.output_file is Some)
    }

    /// Refuses a command line whose options exclude each other, before
    /// any work is done: first one that names no input, then one that asks
    /// for sound where none can be played.
    pub fn validate(&self) -> (r: Result<(), PaxciiError>)
        ensures
            self.names_no_input() ==> (r matches Err(PaxciiError::InvalidConfiguration { reason })
                && reason@ == no_input_fault()),
            !self.names_no_input() && self.audio_conflicts() ==> (r matches Err(
                PaxciiError::InvalidConfiguration { reason },
            ) && reason@ == audio_fault()),
            !self.names_no_input() && !self.audio_conflicts() ==> r is Ok,
    {
        if self.image.is_none() && self.video.is_none() && self.webcam.is_none() {
            Err(
                PaxciiError::InvalidConfiguration {
                    reason: String::from_str("One of 'image', 'video' and 'webcam' is required"),
                },
            )
        } else if self.audio && (self.image.is_some() || self.webcam.is_some()
            || self.output_file.is_some()) {
            Err(
                PaxciiError::InvalidConfiguration {
                    reason: String::from_str(
                        "Argument 'audio' cannot be used with 'image', 'webcam' or 'output-file'",
                    ),
                },
            )
        } else {
            Ok(())
        }
    }
}

/// The ramp that the program draws with: the one that the command line
/// names, the medium one if it names one that is not known, else the light
/// one without color and the medium one with it.
pub open spec fn program_ramp(no_color: bool, char_set: Option<String>) -> Seq<char> {
    match chosen_ramp(no_color, char_set) {
        Some(ramp) => ramp,
        None => CHARS_MEDIUM@,
    }
}

impl ProcessedArgs {
    /// Makes a command line ready for the library.
    ///
    /// The input is the image, or else the video. The size is the terminal's
    /// where it is known, 30 by 30 cells where it is not, and what `width`
    /// and `height` give where they are given.
    pub fn new(cmd: CommandLine, terminal: Option<(u32, u32)>) -> (args: ProcessedArgs)
        ensures
            args.video == (cmd.image is None && cmd.video is Some),
            args.path@ == (match cmd.image {
                Some(image) => image@,
                None => text_or_empty(cmd.video),
            }),
            args.output_file == cmd.output_file,
            args.audio == cmd.audio,
            args.webcam == cmd.webcam,
            args.settings.color == !cmd.no_color,
            args.settings.keep_aspect_ratio == !cmd.no_preserve_aspect_ratio,
            args.settings.char_set@ == program_ramp(cmd.no_color, cmd.char_set),
            args.settings.width == (match (cmd.width, terminal) {
                (Some(width), _) => width,
                (None, Some(size)) => size.0,
                (None, None) => 30u32,
            }),
            args.settings.height == (match (cmd.height, terminal) {
                (Some(height), _) => height,
                (None, Some(size)) => size.1,
                (None, None) => 30u32,
            }),
    {
        let video = cmd.image.is_none() && cmd.video.is_some();
        let path = match cmd.image {
            Some(image) => image,
            None => or_empty(cmd.video),
        };
        let mut settings = PaxciiSettings::default();
        if cmd.no_color {
            settings.color = false;
            settings.chars_light();
        }
        if cmd.no_preserve_aspect_ratio {
            settings.keep_aspect_ratio = false;
        }
        match &cmd.char_set {
            Some(name) => match ramp_by_name(name.as_str()) {
                Some(ramp) => {
                    settings.char_set = ramp;
                },
                None => {
                    settings.chars_medium();
                },
            },
            None => {},
        }
        match terminal {
            Some(size) => {
                settings.width = size.0;
                settings.height = size.1;
            },
            None => {},
        }
        match cmd.width {
            Some(width) => {
                settings.width = width;
            },
            None => {},
        }
        match cmd.height {
            Some(height) => {
                settings.height = height;
            },
            None => {},
        }
        ProcessedArgs {
            settings,
            path,
            video,
            audio: cmd.audio,
            output_file: cmd.output_file,
            webcam: cmd.webcam,
        }
    }

    /// The task that `task` chooses: a video before the camera and the
    /// camera before an image; for a video the script before playback, and
    /// sound only where it is asked for.
    pub open spec fn chosen_task(&self) -> Task {
        if self.video {
            if self.output_file is Some {
                Task::ExportVideo
            } else if self.audio {
                Task::PlayVideoWithAudio
            } else {
                Task::PlayVideo
            }
        } else if self.webcam is Some {
            Task::Webcam
        } else if self.output_file is Some {
            Task::WriteImage
        } else {
            Task::PrintImage
        }
    }

    /// What the program is to do.
    pub fn task(&self) -> (task: Task)
        ensures
            task == self.chosen_task(),
    {
        if self.video {
            if self.output_file.is_some() {
                Task::ExportVideo
            } else if self.audio {
                Task::PlayVideoWithAudio
            } else {
                Task::PlayVideo
            }
        } else if self.webcam.is_some() {
            Task::Webcam
        } else if self.output_file.is_some() {
            Task::WriteImage
        } else {
            Task::PrintImage
        }
    }
}

} // verus!
