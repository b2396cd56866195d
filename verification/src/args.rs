//! Reading the command line.
use vstd::prelude::*;
use vstd::slice::slice_to_vec;
use vstd::string::*;
use vstd::utf8::encode_utf8;

use crate::config::{config_error, mode_for, mode_text, valid, Config, ConfigView};
use crate::text::{
    read_signed, read_unsigned, same_text, signed_value, texts, unsigned_value,
};

verus! {

/// The number that `value` stands for, if it is one that is at most `largest`.
pub open spec fn bounded_value(value: Seq<char>, largest: nat) -> Option<nat> {
    match unsigned_value(value) {
        Some(n) => if n <= largest {
            Some(n)
        } else {
            None
        },
        None => None,
    }
}

/// The coordinate that `value` stands for: a number that may have a sign and fits.
pub open spec fn coordinate_value(value: Seq<char>) -> Option<i32> {
    match signed_value(value) {
        Some(n) => if i32::MIN <= n <= i32::MAX {
            Some(n as i32)
        } else {
            None
        },
        None => None,
    }
}

/// An integer type that can be read from an argument.
pub trait Number: Sized {
    /// The number of the type that `text` stands for; `None` where it is no number or does not fit.
    spec fn value_of(text: Seq<char>) -> Option<Self>;

    /// Reads a number in decimal.
    fn read(text: &str) -> (value: Option<Self>)
        ensures
            value == Self::value_of(text@),
    ;
}

impl Number for u16 {
    open spec fn value_of(text: Seq<char>) -> Option<Self> {
        match bounded_value(text, u16::MAX as nat) {
            Some(n) => Some(n as u16),
            None => None,
        }
    }

    fn read(text: &str) -> (value: Option<Self>) {
        match read_unsigned(text, u16::MAX as u64) {
            Some(v) => Some(v as u16),
            None => None,
        }
    }
}

impl Number for u32 {
    open spec fn value_of(text: Seq<char>) -> Option<Self> {
        match bounded_value(text, u32::MAX as nat) {
            Some(n) => Some(n as u32),
            None => None,
        }
    }

    fn read(text: &str) -> (value: Option<Self>) {
        match read_unsigned(text, u32::MAX as u64) {
            Some(v) => Some(v as u32),
            None => None,
        }
    }
}

impl Number for i32 {
    open spec fn value_of(text: Seq<char>) -> Option<Self> {
        coordinate_value(text)
    }

    fn read(text: &str) -> (value: Option<Self>) {
        read_signed(text)
    }
}

/// What is said of a value that is no number or does not fit.
pub open spec fn invalid_text(name: Seq<char>, value: Seq<char>) -> Seq<char> {
    "invalid "@ + name + ": "@ + value
}

/// Reads the value of the option `name`.
pub fn parse<T: Number>(value: &str, name: &str) -> (parsed: Result<T, String>)
    ensures
        match parsed {
            Ok(v) => T::value_of(value@) == Some(v),
            Err(message) => {
                &&& T::value_of(value@) is None
                &&& message@ == invalid_text(name@, value@)
            },
        },
{
    match T::read(value) {
        Some(v) => Ok(v),
        None => Err("invalid ".to_owned().concat(name).concat(": ").concat(value)),
    }
}

/// What the command line asks for.
pub enum Invocation {
    /// To run with these settings.
    Run(Config),
    /// To print how the program is used.
    Help,
}

/// What an [`Invocation`] asks for; `None` for help.
pub open spec fn invocation_view(i: Invocation) -> Option<ConfigView> {
    match i {
        Invocation::Run(config) => Some(config@),
        Invocation::Help => None,
    }
}

/// The options that are followed by a value.
pub open spec fn takes_value(arg: Seq<char>) -> bool {
    ||| arg == "--output"@
    ||| arg == "--mode"@
    ||| arg == "--width"@
    ||| arg == "--height"@
    ||| arg == "--fps"@
    ||| arg == "--port"@
    ||| arg == "--adb-serial"@
    ||| arg == "--encoder"@
    ||| arg == "--render-node"@
    ||| arg == "--ydotool-socket"@
    ||| arg == "--position-x"@
    ||| arg == "--position-y"@
}

/// The settings after the option `arg` with `value`; the error says that the value is no number.
pub open spec fn with_option(c: ConfigView, arg: Seq<char>, value: Seq<char>) -> Result<
    ConfigView,
    Seq<char>,
> {
    if arg == "--output"@ {
        Ok(ConfigView { output: value, ..c })
    } else if arg == "--mode"@ {
        Ok(ConfigView { mode: value, ..c })
    } else if arg == "--width"@ {
        match bounded_value(value, u32::MAX as nat) {
            Some(n) => Ok(ConfigView { width: n as u32, ..c }),
            None => Err(invalid_text("width"@, value)),
        }
    } else if arg == "--height"@ {
        match bounded_value(value, u32::MAX as nat) {
            Some(n) => Ok(ConfigView { height: n as u32, ..c }),
            None => Err(invalid_text("height"@, value)),
        }
    } else if arg == "--fps"@ {
        match bounded_value(value, u32::MAX as nat) {
            Some(n) => Ok(ConfigView { fps: n as u32, ..c }),
            None => Err(invalid_text("fps"@, value)),
        }
    } else if arg == "--port"@ {
        match bounded_value(value, u16::MAX as nat) {
            Some(n) => Ok(ConfigView { port: n as u16, ..c }),
            None => Err(invalid_text("port"@, value)),
        }
    } else if arg == "--adb-serial"@ {
        Ok(ConfigView { adb_serial: Some(value), ..c })
    } else if arg == "--encoder"@ {
        Ok(ConfigView { encoder: value, ..c })
    } else if arg == "--render-node"@ {
        Ok(ConfigView { render_node: value, ..c })
    } else if arg == "--position-x"@ {
        match coordinate_value(value) {
            Some(n) => Ok(ConfigView { position_x: Some(n), ..c }),
            None => Err(invalid_text("position-x"@, value)),
        }
    } else if arg == "--position-y"@ {
        match coordinate_value(value) {
            Some(n) => Ok(ConfigView { position_y: Some(n), ..c }),
            None => Err(invalid_text("position-y"@, value)),
        }
    } else {
        Ok(ConfigView { ydotool_socket: encode_utf8(value), ..c })
    }
}

/// The settings once all arguments are read: a mode is filled in where there is none.
pub open spec fn with_mode(c: ConfigView) -> ConfigView {
    if c.mode.len() == 0 {
        ConfigView { mode: mode_text(c.width, c.height, c.fps), ..c }
    } else {
        c
    }
}

/// What `args` ask for on top of `c`, read from the left: the settings, `None` for help, or what is
/// wrong with the first argument that is wrong.
pub open spec fn parsed_args(c: ConfigView, args: Seq<Seq<char>>) -> Result<
    Option<ConfigView>,
    Seq<char>,
>
    decreases args.len(),
{
    if args.len() == 0 {
        match config_error(with_mode(c)) {
            Some(message) => Err(message),
            None => Ok(Some(with_mode(c))),
        }
    } else if takes_value(args[0]) {
        if args.len() == 1 {
            Err("missing value for "@ + args[0])
        } else {
            match with_option(c, args[0], args[1]) {
                Ok(next) => parsed_args(next, args.skip(2)),
                Err(message) => Err(message),
            }
        }
    } else if args[0] == "--no-touch"@ {
        parsed_args(ConfigView { touch: false, ..c }, args.skip(1))
    } else if args[0] == "--help"@ || args[0] == "-h"@ {
        Ok(None)
    } else {
        Err("unknown argument: "@ + args[0])
    }
}

/// Whether `arg` is followed by a value.
fn needs_value(arg: &str) -> (yes: bool)
    ensures
        yes == takes_value(arg@),
{
    same_text(arg, "--output") || same_text(arg, "--mode") || same_text(arg, "--width")
        || same_text(arg, "--height") || same_text(arg, "--fps") || same_text(arg, "--port")
        || same_text(arg, "--adb-serial") || same_text(arg, "--encoder") || same_text(
        arg,
        "--render-node",
    ) || same_text(arg, "--ydotool-socket") || same_text(arg, "--position-x") || same_text(
        arg,
        "--position-y",
    )
}

/// Applies the option `arg` with `value`.
fn set_option(config: &mut Config, arg: &str, value: &str) -> (set: Result<(), String>)
    requires
        takes_value(arg@),
    ensures
        match set {
            Ok(_) => with_option(old(config)@, arg@, value@) == Ok::<ConfigView, Seq<char>>(
                final(config)@,
            ),
            Err(message) => with_option(old(config)@, arg@, value@) == Err::<
                ConfigView,
                Seq<char>,
            >(message@),
        },
{
    if same_text(arg, "--output") {
        config.output = value.to_owned();
    } else if same_text(arg, "--mode") {
        config.mode = value.to_owned();
    } else if same_text(arg, "--width") {
        match parse::<u32>(value, "width") {
            Ok(n) => config.width = n,
            Err(message) => return Err(message),
        }
    } else if same_text(arg, "--height") {
        match parse::<u32>(value, "height") {
            Ok(n) => config.height = n,
            Err(message) => return Err(message),
        }
    } else if same_text(arg, "--fps") {
        match parse::<u32>(value, "fps") {
            Ok(n) => config.fps = n,
            Err(message) => return Err(message),
        }
    } else if same_text(arg, "--port") {
        match parse::<u16>(value, "port") {
            Ok(n) => config.port = n,
            Err(message) => return Err(message),
        }
    } else if same_text(arg, "--adb-serial") {
        config.adb_serial = Some(value.to_owned());
    } else if same_text(arg, "--encoder") {
        config.encoder = value.to_owned();
    } else if same_text(arg, "--render-node") {
        config.render_node = value.to_owned();
    } else if same_text(arg, "--position-x") {
        match parse::<i32>(value, "position-x") {
            Ok(n) => config.position_x = Some(n),
            Err(message) => return Err(message),
        }
    } else if same_text(arg, "--position-y") {
        match parse::<i32>(value, "position-y") {
            Ok(n) => config.position_y = Some(n),
            Err(message) => return Err(message),
        }
    } else {
        config.ydotool_socket = slice_to_vec(value.as_bytes());
    }
    Ok(())
}

/// Reads the arguments that follow the program's name, on top of `defaults`.
pub fn parse_args(defaults: Config, args: &Vec<String>) -> (parsed: Result<Invocation, String>)
    ensures
        match parsed {
            Ok(invocation) => parsed_args(defaults@, texts(args@)) == Ok::<
                Option<ConfigView>,
                Seq<char>,
            >(invocation_view(invocation)),
            Err(message) => parsed_args(defaults@, texts(args@)) == Err::<
                Option<ConfigView>,
                Seq<char>,
            >(message@),
        },
{
    let mut config = defaults;
    let mut i: usize = 0;
    let ghost all = texts(args@);
    assert(all.skip(0) =~= all);
    while i < args.len()
        invariant
            i <= args@.len(),
            all == texts(args@),
            parsed_args(config@, all.skip(i as int)) == parsed_args(defaults@, all),
        decreases args@.len() - i,
    {
        let arg = args[i].as_str();
        let ghost rest = all.skip(i as int);
        assert(rest[0] == arg@);
        if needs_value(arg) {
            if i + 1 >= args.len() {
                return Err("missing value for ".to_owned().concat(arg));
            }
            assert(rest[1] == args@[i + 1]@);
            match set_option(&mut config, arg, args[i + 1].as_str()) {
                Ok(_) => {},
                Err(message) => return Err(message),
            }
            assert(rest.skip(2) =~= all.skip(i + 2));
            i += 2;
        } else if same_text(arg, "--no-touch") {
            config.touch = false;
            assert(rest.skip(1) =~= all.skip(i + 1));
            i += 1;
        } else if same_text(arg, "--help") || same_text(arg, "-h") {
            return Ok(Invocation::Help);
        } else {
            return Err("unknown argument: ".to_owned().concat(arg));
        }
    }
    if config.mode.as_str().is_empty() {
        config.mode = mode_for(config.width, config.height, config.fps);
    }
    match config.validate() {
        Ok(_) => Ok(Invocation::Run(config)),
        Err(message) => Err(message),
    }
}

/// One of the options that `args` hold is `--mode`.
pub open spec fn gives_mode(args: Seq<Seq<char>>) -> bool
    decreases args.len(),
{
    if args.len() == 0 {
        false
    } else if takes_value(args[0]) {
        args.len() >= 2 && (args[0] == "--mode"@ || gives_mode(args.skip(2)))
    } else {
        gives_mode(args.skip(1))
    }
}

/// Settings that the command line gives break no rule and name a mode. Where the arguments leave
/// the mode out, it is that of the size and the rate.
pub proof fn law_parsed_settings_are_valid(c: ConfigView, args: Seq<Seq<char>>)
    ensures
        parsed_args(c, args) matches Ok(Some(got)) ==> {
            &&& valid(got)
            &&& got.mode.len() > 0
            &&& args.len() == 0 ==> got == (ConfigView { mode: got.mode, ..c })
            &&& args.len() == 0 && c.mode.len() > 0 ==> got.mode == c.mode
            &&& c.mode.len() == 0 && !gives_mode(args) ==> got.mode == mode_text(
                got.width,
                got.height,
                got.fps,
            )
        },
        args.len() == 0 && valid(c) ==> parsed_args(c, args) is Ok,
        args.len() == 0 ==> (config_error(c) matches Some(problem) ==> parsed_args(c, args) == Err::<
            Option<ConfigView>,
            Seq<char>,
        >(problem)),
    decreases args.len(),
{
    if args.len() == 0 {
        crate::text::lemma_decimal(c.width as nat);
    } else if takes_value(args[0]) {
        if args.len() > 1 {
            if let Ok(next) = with_option(c, args[0], args[1]) {
                law_parsed_settings_are_valid(next, args.skip(2));
            }
        }
    } else if args[0] == "--no-touch"@ {
        law_parsed_settings_are_valid(ConfigView { touch: false, ..c }, args.skip(1));
    }
}

/// The arguments that give the option `name` its value, and `rest` behind them.
pub open spec fn given(name: Seq<char>, value: Seq<char>, rest: Seq<Seq<char>>) -> Seq<Seq<char>> {
    seq![name, value] + rest
}

/// The options have names of their own.
proof fn lemma_names_differ()
    ensures
        "--output"@.len() == 8 && "--output"@[2] == 'o',
        "--height"@.len() == 8 && "--height"@[2] == 'h',
        "--mode"@.len() == 6 && "--mode"@[2] == 'm',
        "--port"@.len() == 6 && "--port"@[2] == 'p',
        "--help"@.len() == 6 && "--help"@[2] == 'h',
        "--adb-serial"@.len() == 12 && "--adb-serial"@[2] == 'a',
        "--position-x"@.len() == 12 && "--position-x"@[2] == 'p' && "--position-x"@[11] == 'x',
        "--position-y"@.len() == 12 && "--position-y"@[2] == 'p' && "--position-y"@[11] == 'y',
        "--width"@.len() == 7,
        "--fps"@.len() == 5,
        "--encoder"@.len() == 9,
        "--render-node"@.len() == 13,
        "--ydotool-socket"@.len() == 16,
        "--no-touch"@.len() == 10,
        "-h"@.len() == 2,
{
    reveal_strlit("--output");
    reveal_strlit("--mode");
    reveal_strlit("--width");
    reveal_strlit("--height");
    reveal_strlit("--fps");
    reveal_strlit("--port");
    reveal_strlit("--adb-serial");
    reveal_strlit("--encoder");
    reveal_strlit("--render-node");
    reveal_strlit("--ydotool-socket");
    reveal_strlit("--position-x");
    reveal_strlit("--position-y");
    reveal_strlit("--no-touch");
    reveal_strlit("--help");
    reveal_strlit("-h");
}

/// An option with its value is read before the rest.
proof fn lemma_given(c: ConfigView, name: Seq<char>, value: Seq<char>, rest: Seq<Seq<char>>)
    requires
        takes_value(name),
    ensures
        parsed_args(c, given(name, value, rest)) == (match with_option(c, name, value) {
            Ok(next) => parsed_args(next, rest),
            Err(message) => Err(message),
        }),
{
    assert(given(name, value, rest).skip(2) =~= rest);
}

/// Each option that takes a text sets its setting to that text and no other setting, and the rest is
/// read on top of that, so that the last of several counts.
pub proof fn law_options_set_texts(c: ConfigView, value: Seq<char>, rest: Seq<Seq<char>>)
    ensures
        parsed_args(c, given("--output"@, value, rest)) == parsed_args(
            ConfigView { output: value, ..c },
            rest,
        ),
        parsed_args(c, given("--mode"@, value, rest)) == parsed_args(
            ConfigView { mode: value, ..c },
            rest,
        ),
        parsed_args(c, given("--adb-serial"@, value, rest)) == parsed_args(
            ConfigView { adb_serial: Some(value), ..c },
            rest,
        ),
        parsed_args(c, given("--encoder"@, value, rest)) == parsed_args(
            ConfigView { encoder: value, ..c },
            rest,
        ),
        parsed_args(c, given("--render-node"@, value, rest)) == parsed_args(
            ConfigView { render_node: value, ..c },
            rest,
        ),
        parsed_args(c, given("--ydotool-socket"@, value, rest)) == parsed_args(
            ConfigView { ydotool_socket: encode_utf8(value), ..c },
            rest,
        ),
{
    lemma_names_differ();
    lemma_given(c, "--output"@, value, rest);
    lemma_given(c, "--mode"@, value, rest);
    lemma_given(c, "--width"@, value, rest);
    lemma_given(c, "--height"@, value, rest);
    lemma_given(c, "--fps"@, value, rest);
    lemma_given(c, "--port"@, value, rest);
    lemma_given(c, "--adb-serial"@, value, rest);
    lemma_given(c, "--encoder"@, value, rest);
    lemma_given(c, "--render-node"@, value, rest);
    lemma_given(c, "--ydotool-socket"@, value, rest);
    lemma_given(c, "--position-x"@, value, rest);
    lemma_given(c, "--position-y"@, value, rest);
}

/// Each option that takes a number sets its setting to that number and no other setting; a value that
/// is no number, or one that does not fit, is the error.
pub proof fn law_options_set_numbers(c: ConfigView, value: Seq<char>, rest: Seq<Seq<char>>)
    ensures
        parsed_args(c, given("--width"@, value, rest)) == (match unsigned_value(value) {
            Some(n) if n <= 0xffff_ffff => parsed_args(ConfigView { width: n as u32, ..c }, rest),
            _ => Err("invalid "@ + "width"@ + ": "@ + value),
        }),
        parsed_args(c, given("--height"@, value, rest)) == (match unsigned_value(value) {
            Some(n) if n <= 0xffff_ffff => parsed_args(ConfigView { height: n as u32, ..c }, rest),
            _ => Err("invalid "@ + "height"@ + ": "@ + value),
        }),
        parsed_args(c, given("--fps"@, value, rest)) == (match unsigned_value(value) {
            Some(n) if n <= 0xffff_ffff => parsed_args(ConfigView { fps: n as u32, ..c }, rest),
            _ => Err("invalid "@ + "fps"@ + ": "@ + value),
        }),
        parsed_args(c, given("--port"@, value, rest)) == (match unsigned_value(value) {
            Some(n) if n <= 0xffff => parsed_args(ConfigView { port: n as u16, ..c }, rest),
            _ => Err("invalid "@ + "port"@ + ": "@ + value),
        }),
        parsed_args(c, given("--position-x"@, value, rest)) == (match signed_value(value) {
            Some(n) if -0x8000_0000 <= n <= 0x7fff_ffff => parsed_args(
                ConfigView { position_x: Some(n as i32), ..c },
                rest,
            ),
            _ => Err("invalid "@ + "position-x"@ + ": "@ + value),
        }),
        parsed_args(c, given("--position-y"@, value, rest)) == (match signed_value(value) {
            Some(n) if -0x8000_0000 <= n <= 0x7fff_ffff => parsed_args(
                ConfigView { position_y: Some(n as i32), ..c },
                rest,
            ),
            _ => Err("invalid "@ + "position-y"@ + ": "@ + value),
        }),
{
    lemma_names_differ();
    lemma_given(c, "--output"@, value, rest);
    lemma_given(c, "--mode"@, value, rest);
    lemma_given(c, "--width"@, value, rest);
    lemma_given(c, "--height"@, value, rest);
    lemma_given(c, "--fps"@, value, rest);
    lemma_given(c, "--port"@, value, rest);
    lemma_given(c, "--adb-serial"@, value, rest);
    lemma_given(c, "--encoder"@, value, rest);
    lemma_given(c, "--render-node"@, value, rest);
    lemma_given(c, "--ydotool-socket"@, value, rest);
    lemma_given(c, "--position-x"@, value, rest);
    lemma_given(c, "--position-y"@, value, rest);
}

/// Touch is switched off by one word, help is asked for by either of two, and whatever follows help is
/// not read.
pub proof fn law_words_without_a_value(c: ConfigView, rest: Seq<Seq<char>>)
    ensures
        parsed_args(c, seq!["--no-touch"@] + rest) == parsed_args(
            ConfigView { touch: false, ..c },
            rest,
        ),
        parsed_args(c, seq!["--help"@] + rest) == Ok::<Option<ConfigView>, Seq<char>>(None),
        parsed_args(c, seq!["-h"@] + rest) == Ok::<Option<ConfigView>, Seq<char>>(None),
{
    lemma_names_differ();
    assert((seq!["--no-touch"@] + rest).skip(1) =~= rest);
}

/// A word that is none of the options is refused by name, and so is an option without its value.
pub proof fn law_wrong_words_are_refused(c: ConfigView, args: Seq<Seq<char>>)
    requires
        args.len() > 0,
    ensures
        ({
            &&& args[0] != "--output"@
            &&& args[0] != "--mode"@
            &&& args[0] != "--width"@
            &&& args[0] != "--height"@
            &&& args[0] != "--fps"@
            &&& args[0] != "--port"@
            &&& args[0] != "--adb-serial"@
            &&& args[0] != "--encoder"@
            &&& args[0] != "--render-node"@
            &&& args[0] != "--ydotool-socket"@
            &&& args[0] != "--position-x"@
            &&& args[0] != "--position-y"@
            &&& args[0] != "--no-touch"@
            &&& args[0] != "--help"@
            &&& args[0] != "-h"@
        }) ==> parsed_args(c, args) == Err::<Option<ConfigView>, Seq<char>>(
            "unknown argument: "@ + args[0],
        ),
        args.len() == 1 && ({
            ||| args[0] == "--output"@
            ||| args[0] == "--mode"@
            ||| args[0] == "--width"@
            ||| args[0] == "--height"@
            ||| args[0] == "--fps"@
            ||| args[0] == "--port"@
            ||| args[0] == "--adb-serial"@
            ||| args[0] == "--encoder"@
            ||| args[0] == "--render-node"@
            ||| args[0] == "--ydotool-socket"@
            ||| args[0] == "--position-x"@
            ||| args[0] == "--position-y"@
        }) ==> parsed_args(c, args) == Err::<Option<ConfigView>, Seq<char>>(
            "missing value for "@ + args[0],
        ),
{
}

} // verus!
