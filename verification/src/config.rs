//! The settings of the monitor.
use vstd::prelude::*;
use vstd::slice::slice_to_vec;
use vstd::string::*;
use vstd::utf8::encode_utf8;

use crate::text::{
    append_decimal, blank, decimal, is_blank, law_numbers_are_written_in_digits, same_text,
    white_space, writes,
};
use crate::wire::{stream_header, stream_header_bytes};

verus! {

/// The highest frame rate that is accepted.
pub const MAX_FPS: u32 = 240;

/// Everything that can be set. The path of the ydotool socket is kept as its bytes. The position is
/// that of the output on the desktop; niri chooses it where neither coordinate is given.
#[derive(Debug)]
pub struct Config {
    pub output: String,
    pub mode: String,
    pub width: u32,
    pub height: u32,
    pub fps: u32,
    pub port: u16,
    pub adb_serial: Option<String>,
    pub encoder: String,
    pub render_node: String,
    pub touch: bool,
    pub ydotool_socket: Vec<u8>,
    pub position_x: Option<i32>,
    pub position_y: Option<i32>,
}

/// What a [`Config`] says.
#[verifier::ext_equal]
pub struct ConfigView {
    pub output: Seq<char>,
    pub mode: Seq<char>,
    pub width: u32,
    pub height: u32,
    pub fps: u32,
    pub port: u16,
    pub adb_serial: Option<Seq<char>>,
    pub encoder: Seq<char>,
    pub render_node: Seq<char>,
    pub touch: bool,
    pub ydotool_socket: Seq<u8>,
    pub position_x: Option<i32>,
    pub position_y: Option<i32>,
}

/// The characters of an optional string.
pub open spec fn option_text(text: Option<String>) -> Option<Seq<char>> {
    match text {
        Some(t) => Some(t@),
        None => None,
    }
}

impl View for Config {
    type V = ConfigView;

    open spec fn view(&self) -> ConfigView {
        ConfigView {
            output: self.output@,
            mode: self.mode@,
            width: self.width,
            height: self.height,
            fps: self.fps,
            port: self.port,
            adb_serial: option_text(self.adb_serial),
            encoder: self.encoder@,
            render_node: self.render_node@,
            touch: self.touch,
            ydotool_socket: self.ydotool_socket@,
            position_x: self.position_x,
            position_y: self.position_y,
        }
    }
}

impl Clone for Config {
    fn clone(&self) -> (copy: Self)
        ensures
            copy@ == self@,
    {
        let adb_serial: Option<String> = match &self.adb_serial {
            Some(serial) => Some(serial.clone()),
            None => None,
        };
        let copy = Config {
            output: self.output.clone(),
            mode: self.mode.clone(),
            width: self.width,
            height: self.height,
            fps: self.fps,
            port: self.port,
            adb_serial,
            encoder: self.encoder.clone(),
            render_node: self.render_node.clone(),
            touch: self.touch,
            ydotool_socket: slice_to_vec(self.ydotool_socket.as_slice()),
            position_x: self.position_x,
            position_y: self.position_y,
        };
        assert(copy@ =~= self@);
        copy
    }
}

/// The encoders that can be asked for by name.
pub open spec fn known_encoder(encoder: Seq<char>) -> bool {
    encoder == "auto"@ || encoder == "vaapi"@ || encoder == "x264"@
}

/// What is wrong with `c`: the first of the rules that it breaks, in words.
pub open spec fn config_error(c: ConfigView) -> Option<Seq<char>> {
    if c.width == 0 || c.height == 0 || c.fps == 0 {
        Some("width, height, and fps must be non-zero"@)
    } else if c.fps > MAX_FPS {
        Some("fps must be 240 or lower"@)
    } else if !known_encoder(c.encoder) {
        Some("encoder must be auto, vaapi, or x264"@)
    } else if blank(c.output) {
        Some("output must not be empty"@)
    } else {
        None
    }
}

/// `c` breaks no rule.
pub open spec fn valid(c: ConfigView) -> bool {
    config_error(c) is None
}

/// The settings without any file or argument, in an environment that names a device and a socket
/// or does not.
pub open spec fn default_config(
    android_serial: Option<Seq<char>>,
    ydotool_socket: Option<Seq<u8>>,
) -> ConfigView {
    ConfigView {
        output: "Virtual-1"@,
        mode: Seq::empty(),
        width: 1920,
        height: 1080,
        fps: 60,
        port: 57421,
        adb_serial: android_serial,
        encoder: "auto"@,
        render_node: "/dev/dri/renderD128"@,
        touch: true,
        ydotool_socket: match ydotool_socket {
            Some(path) => path,
            None => encode_utf8("/run/ydotoold/socket"@),
        },
        position_x: None,
        position_y: None,
    }
}

/// The mode for a size and a frame rate, as niri writes it.
pub open spec fn mode_text(width: u32, height: u32, fps: u32) -> Seq<char> {
    decimal(width as nat) + "x"@ + decimal(height as nat) + "@"@ + decimal(fps as nat)
}

/// The mode that `c` asks niri for: its own where it has one, else that of its size and rate.
pub open spec fn effective_mode(c: ConfigView) -> Seq<char> {
    if blank(c.mode) {
        mode_text(c.width, c.height, c.fps)
    } else {
        c.mode
    }
}

/// The position that `c` gives the output, `None` where niri is to choose it. Where only one
/// coordinate is given, the other is zero.
pub open spec fn given_position(c: ConfigView) -> Option<(i32, i32)> {
    match (c.position_x, c.position_y) {
        (None, None) => None,
        (Some(x), None) => Some((x, 0)),
        (None, Some(y)) => Some((0, y)),
        (Some(x), Some(y)) => Some((x, y)),
    }
}

impl Config {
    /// The settings without any file or argument. `android_serial` and `ydotool_socket` are what
    /// the environment says.
    pub fn default_in(android_serial: Option<String>, ydotool_socket: Option<Vec<u8>>) -> (config:
        Self)
        ensures
            config@ == default_config(
                option_text(android_serial),
                match ydotool_socket {
                    Some(path) => Some(path@),
                    None => None,
                },
            ),
    {
        let socket: Vec<u8> = match ydotool_socket {
            Some(path) => path,
            None => slice_to_vec("/run/ydotoold/socket".as_bytes()),
        };
        Config {
            output: "Virtual-1".to_owned(),
            mode: String::new(),
            width: 1920,
            height: 1080,
            fps: 60,
            port: 57421,
            adb_serial: android_serial,
            encoder: "auto".to_owned(),
            render_node: "/dev/dri/renderD128".to_owned(),
            touch: true,
            ydotool_socket: socket,
            position_x: None,
            position_y: None,
        }
    }

    /// Checks the rules; the error says which one is broken.
    pub fn validate(&self) -> (checked: Result<(), String>)
        ensures
            match checked {
                Ok(_) => valid(self@),
                Err(message) => config_error(self@) == Some(message@),
            },
    {
        if self.width == 0 || self.height == 0 || self.fps == 0 {
            return Err("width, height, and fps must be non-zero".to_owned());
        }
        if self.fps > MAX_FPS {
            return Err("fps must be 240 or lower".to_owned());
        }
        let encoder = self.encoder.as_str();
        if !(same_text(encoder, "auto") || same_text(encoder, "vaapi") || same_text(
            encoder,
            "x264",
        )) {
            return Err("encoder must be auto, vaapi, or x264".to_owned());
        }
        if is_blank(self.output.as_str()) {
            return Err("output must not be empty".to_owned());
        }
        Ok(())
    }
}

/// The mode for a size and a frame rate.
pub fn mode_for(width: u32, height: u32, fps: u32) -> (mode: String)
    ensures
        mode@ == mode_text(width, height, fps),
{
    let mut mode = String::new();
    append_decimal(&mut mode, width as u64);
    mode.append("x");
    append_decimal(&mut mode, height as u64);
    mode.append("@");
    append_decimal(&mut mode, fps as u64);
    assert(mode@ =~= mode_text(width, height, fps));
    mode
}

/// The mode to ask niri for.
pub fn mode_string(config: &Config) -> (mode: String)
    ensures
        mode@ == effective_mode(config@),
{
    if is_blank(config.mode.as_str()) {
        mode_for(config.width, config.height, config.fps)
    } else {
        config.mode.clone()
    }
}

/// The position to give the output, if any is given.
pub fn position(config: &Config) -> (given: Option<(i32, i32)>)
    ensures
        given == given_position(config@),
{
    match (config.position_x, config.position_y) {
        (None, None) => None,
        (Some(x), None) => Some((x, 0)),
        (None, Some(y)) => Some((0, y)),
        (Some(x), Some(y)) => Some((x, y)),
    }
}

/// The header of a stream with these settings.
pub fn write_header(config: &Config) -> (header: Vec<u8>)
    requires
        config@.fps * 1000 <= u32::MAX,
    ensures
        header@ == stream_header_bytes(
            config@.touch,
            config@.width,
            config@.height,
            config@.fps as nat,
        ),
        header@.len() == 20,
{
    stream_header(config.touch, config.width, config.height, config.fps)
}

/// The socket that touch events go to, where touch is wanted.
pub open spec fn wanted_socket(c: ConfigView) -> Option<Seq<u8>> {
    if c.touch {
        Some(c.ydotool_socket)
    } else {
        None
    }
}

/// The socket that touch events go to, where touch is wanted.
pub fn touch_socket(config: &Config) -> (socket: Option<Vec<u8>>)
    ensures
        config@.touch ==> (socket matches Some(path) && path@ == config@.ydotool_socket),
        !config@.touch ==> socket is None,
        match wanted_socket(config@) {
            Some(wanted) => socket matches Some(path) && path@ == wanted,
            None => socket is None,
        },
{
    if config.touch {
        Some(slice_to_vec(config.ydotool_socket.as_slice()))
    } else {
        None
    }
}

/// The settings that apply without any file or argument break no rule and leave the position to
/// niri, whatever the environment.
pub proof fn law_default_is_valid(
    android_serial: Option<Seq<char>>,
    ydotool_socket: Option<Seq<u8>>,
)
    ensures
        valid(default_config(android_serial, ydotool_socket)),
        effective_mode(default_config(android_serial, ydotool_socket)) == mode_text(1920, 1080, 60),
        given_position(default_config(android_serial, ydotool_socket)) is None,
        default_config(android_serial, ydotool_socket).adb_serial == android_serial,
        ydotool_socket matches Some(path) ==> default_config(android_serial, Some(path)).ydotool_socket
            == path,
{
    reveal_strlit("Virtual-1");
    assert("Virtual-1"@[0] == 'V');
}

/// A stream header can be written for all settings that break no rule.
pub proof fn law_valid_rate_fits_the_header(c: ConfigView)
    requires
        valid(c),
    ensures
        c.fps * 1000 <= u32::MAX,
{
}

/// Settings always ask niri for some mode.
pub proof fn law_mode_is_never_blank(c: ConfigView)
    ensures
        !blank(effective_mode(c)),
{
    if blank(c.mode) {
        let mode = mode_text(c.width, c.height, c.fps);
        let width = decimal(c.width as nat);
        crate::text::lemma_decimal(c.width as nat);
        assert(mode[0] == width[0]);
        assert(!crate::text::white_space(mode[0]));
    }
}

/// Settings break no rule exactly when the size and the rate are not zero, the rate is at most 240, the
/// encoder is one of three, and something in the name of the output is no white space.
pub proof fn law_rules_of_the_settings(c: ConfigView)
    ensures
        valid(c) <==> {
            &&& c.width >= 1
            &&& c.height >= 1
            &&& 1 <= c.fps <= 240
            &&& c.encoder == "auto"@ || c.encoder == "vaapi"@ || c.encoder == "x264"@
            &&& exists|i: int| 0 <= i < c.output.len() && !white_space(#[trigger] c.output[i])
        },
        c.width == 0 || c.height == 0 || c.fps == 0 ==> config_error(c) == Some(
            "width, height, and fps must be non-zero"@,
        ),
        c.width > 0 && c.height > 0 && c.fps > 240 ==> config_error(c) == Some(
            "fps must be 240 or lower"@,
        ),
{
}

/// A name is blank where it holds nothing but spaces, tabs and line ends, and is not where it holds a
/// letter, a digit or a mark.
pub proof fn law_names_with_letters_are_not_blank(s: Seq<char>)
    ensures
        (exists|i: int| 0 <= i < s.len() && '!' <= #[trigger] s[i] && s[i] <= '~') ==> !blank(s),
        (forall|i: int|
            0 <= i < s.len() ==> (#[trigger] s[i] == ' ' || s[i] == '\t' || s[i] == '\n' || s[i]
                == '\r')) ==> blank(s),
{
}

/// `mode` is the size and the rate in digits: the width, an `x`, the height, an `@` and the rate.
pub open spec fn names_mode(mode: Seq<char>, width: u32, height: u32, fps: u32) -> bool {
    exists|x: int, at: int| #[trigger] names_mode_at(mode, x, at, width, height, fps)
}

/// The same with the places of the `x` and the `@`.
pub open spec fn names_mode_at(
    mode: Seq<char>,
    x: int,
    at: int,
    width: u32,
    height: u32,
    fps: u32,
) -> bool {
    &&& 0 < x < at < mode.len()
    &&& mode[x] == 'x'
    &&& mode[at] == '@'
    &&& writes(mode.subrange(0, x), width as nat)
    &&& writes(mode.subrange(x + 1, at), height as nat)
    &&& writes(mode.subrange(at + 1, mode.len() as int), fps as nat)
}

/// The mode for a size and a rate is made of these numbers, in digits.
pub proof fn law_modes_name_size_and_rate(width: u32, height: u32, fps: u32)
    ensures
        names_mode(mode_text(width, height, fps), width, height, fps),
{
    reveal_strlit("x");
    reveal_strlit("@");
    let mode = mode_text(width, height, fps);
    let w = decimal(width as nat);
    let h = decimal(height as nat);
    let f = decimal(fps as nat);
    law_numbers_are_written_in_digits(width as nat);
    law_numbers_are_written_in_digits(height as nat);
    law_numbers_are_written_in_digits(fps as nat);
    let x = w.len() as int;
    let at = x + 1 + h.len();
    assert(mode.subrange(0, x) =~= w);
    assert(mode.subrange(x + 1, at) =~= h);
    assert(mode.subrange(at + 1, mode.len() as int) =~= f);
    assert(names_mode_at(mode, x, at, width, height, fps));
}

/// niri is asked for the mode of the settings as it stands wherever it is not blank, and otherwise for
/// the one that names their size and rate.
pub proof fn law_own_mode_comes_first(c: ConfigView)
    ensures
        (exists|i: int| 0 <= i < c.mode.len() && !white_space(#[trigger] c.mode[i]))
            ==> effective_mode(c) == c.mode,
        (forall|i: int| 0 <= i < c.mode.len() ==> white_space(#[trigger] c.mode[i])) ==> names_mode(
            effective_mode(c),
            c.width,
            c.height,
            c.fps,
        ),
{
    law_modes_name_size_and_rate(c.width, c.height, c.fps);
}

/// A position is given where at least one coordinate is, and holds what is given; what is not given
/// beside the other is zero.
pub proof fn law_positions_are_those_given(c: ConfigView)
    ensures
        given_position(c) is None <==> c.position_x is None && c.position_y is None,
        given_position(c) matches Some((x, y)) ==> {
            &&& c.position_x matches Some(given) ==> x == given
            &&& c.position_y matches Some(given) ==> y == given
            &&& c.position_x is None ==> x == 0
            &&& c.position_y is None ==> y == 0
        },
{
}

/// Touch events go to the socket of the settings, and nowhere where touch is not wanted.
pub proof fn law_touch_goes_to_the_socket_of_the_settings(c: ConfigView)
    ensures
        wanted_socket(c) is Some <==> c.touch,
        wanted_socket(c) matches Some(path) ==> path == c.ydotool_socket,
{
}

} // verus!
