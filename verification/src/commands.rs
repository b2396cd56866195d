//! The arguments of the programs that the daemon runs.
use vstd::prelude::*;
use vstd::string::*;

use crate::config::{effective_mode, mode_string, Config, ConfigView};
use crate::text::{
    add_word, append_decimal, decimal, decimal_text, join_words, joined,
    law_numbers_are_written_in_digits, same_text, signed_decimal, signed_text, texts, writes,
};

verus! {

/// The arguments of `adb` that let the device reach the daemon's port.
pub open spec fn adb_words(c: ConfigView) -> Seq<Seq<char>> {
    let mapping = "tcp:"@ + decimal(c.port as nat);
    let device = match c.adb_serial {
        Some(serial) => seq!["-s"@, serial],
        None => Seq::empty(),
    };
    device + seq!["reverse"@, mapping, mapping]
}

/// The arguments of `adb` that let the device reach the daemon's port.
pub fn adb_reverse_args(config: &Config) -> (args: Vec<String>)
    ensures
        texts(args@) == adb_words(config@),
{
    let mut mapping = "tcp:".to_owned();
    append_decimal(&mut mapping, config.port as u64);
    let mut args: Vec<String> = Vec::new();
    match &config.adb_serial {
        Some(serial) => {
            add_word(&mut args, "-s");
            add_word(&mut args, serial.as_str());
        },
        None => {},
    }
    add_word(&mut args, "reverse");
    add_word(&mut args, mapping.as_str());
    add_word(&mut args, mapping.as_str());
    assert(texts(args@) =~= adb_words(config@));
    args
}

/// The arguments of `niri` for an action on an output.
pub fn niri_output_args(output: &str, action: &Vec<String>) -> (args: Vec<String>)
    ensures
        texts(args@) == seq!["msg"@, "output"@, output@] + texts(action@),
{
    let mut args: Vec<String> = Vec::new();
    add_word(&mut args, "msg");
    add_word(&mut args, "output");
    add_word(&mut args, output);
    let mut i: usize = 0;
    assert(texts(args@) =~= seq!["msg"@, "output"@, output@] + texts(action@).take(0));
    while i < action.len()
        invariant
            i <= action@.len(),
            texts(args@) == seq!["msg"@, "output"@, output@] + texts(action@).take(i as int),
        decreases action@.len() - i,
    {
        add_word(&mut args, action[i].as_str());
        i += 1;
        assert(texts(args@) =~= seq!["msg"@, "output"@, output@] + texts(action@).take(i as int));
    }
    assert(texts(action@).take(i as int) =~= texts(action@));
    args
}

/// What is said when an action on an output fails.
pub fn niri_failure(action: &Vec<String>) -> (message: String)
    ensures
        message@ == "niri output action failed: "@ + joined(texts(action@), " "@),
{
    "niri output action failed: ".to_owned().concat(join_words(action).as_str())
}

/// The action that switches an output off.
pub fn switch_off_action() -> (action: Vec<String>)
    ensures
        texts(action@) == seq!["off"@],
{
    let mut action: Vec<String> = Vec::new();
    add_word(&mut action, "off");
    assert(texts(action@) =~= seq!["off"@]);
    action
}

/// The action that asks for the mode of the settings.
pub fn custom_mode_action(config: &Config) -> (action: Vec<String>)
    ensures
        texts(action@) == seq!["custom-mode"@, effective_mode(config@)],
{
    let mut action: Vec<String> = Vec::new();
    add_word(&mut action, "custom-mode");
    add_word(&mut action, mode_string(config).as_str());
    assert(texts(action@) =~= seq!["custom-mode"@, effective_mode(config@)]);
    action
}

/// The action that shows an output at its natural size.
pub fn scale_action() -> (action: Vec<String>)
    ensures
        texts(action@) == seq!["scale"@, "1"@],
{
    let mut action: Vec<String> = Vec::new();
    add_word(&mut action, "scale");
    add_word(&mut action, "1");
    assert(texts(action@) =~= seq!["scale"@, "1"@]);
    action
}

/// The words that place an output. The two dashes keep a negative number from being taken for an
/// option.
pub open spec fn position_words(x: i32, y: i32) -> Seq<Seq<char>> {
    seq![
        "position"@,
        "set"@,
        "--"@,
        signed_decimal(x as int),
        signed_decimal(y as int),
    ]
}

/// The action that places an output.
pub fn position_action(x: i32, y: i32) -> (action: Vec<String>)
    ensures
        texts(action@) == position_words(x, y),
{
    let mut action: Vec<String> = Vec::new();
    add_word(&mut action, "position");
    add_word(&mut action, "set");
    add_word(&mut action, "--");
    add_word(&mut action, signed_text(x).as_str());
    add_word(&mut action, signed_text(y).as_str());
    assert(texts(action@) =~= position_words(x, y));
    action
}

/// The action that leaves the place of an output to niri.
pub fn automatic_position_action() -> (action: Vec<String>)
    ensures
        texts(action@) == seq!["position"@, "auto"@],
{
    let mut action: Vec<String> = Vec::new();
    add_word(&mut action, "position");
    add_word(&mut action, "auto");
    assert(texts(action@) =~= seq!["position"@, "auto"@]);
    action
}

/// The action that switches an output on.
pub fn switch_on_action() -> (action: Vec<String>)
    ensures
        texts(action@) == seq!["on"@],
{
    let mut action: Vec<String> = Vec::new();
    add_word(&mut action, "on");
    assert(texts(action@) =~= seq!["on"@]);
    action
}

/// The arguments of `niri` that list the outputs as JSON.
pub fn list_outputs_args() -> (args: Vec<String>)
    ensures
        texts(args@) == seq!["msg"@, "-j"@, "outputs"@],
{
    let mut args: Vec<String> = Vec::new();
    add_word(&mut args, "msg");
    add_word(&mut args, "-j");
    add_word(&mut args, "outputs");
    assert(texts(args@) =~= seq!["msg"@, "-j"@, "outputs"@]);
    args
}

/// What the software encoder is told: a delimiter before each access unit, headers with each key
/// frame, and one key frame a second.
pub open spec fn x264_params(fps: u32) -> Seq<char> {
    "x264-params=aud=1:repeat-headers=1:keyint="@ + decimal(fps as nat) + ":min-keyint="@ + decimal(
        fps as nat,
    ) + ":scenecut=0"@
}

/// The arguments of `wf-recorder` that choose the hardware encoder.
pub open spec fn vaapi_words(c: ConfigView) -> Seq<Seq<char>> {
    seq![
        "-c"@,
        "h264_vaapi"@,
        "-d"@,
        c.render_node,
        "-b"@,
        "0"@,
        "-p"@,
        "aud=1"@,
        "-p"@,
        "g="@ + decimal(c.fps as nat),
        "-p"@,
        "rc_mode=CQP"@,
        "-p"@,
        "qp=20"@,
    ]
}

/// The arguments of `wf-recorder` that choose the software encoder.
pub open spec fn x264_words(c: ConfigView) -> Seq<Seq<char>> {
    seq![
        "-c"@,
        "libx264"@,
        "-b"@,
        "0"@,
        "-p"@,
        "preset=ultrafast"@,
        "-p"@,
        "tune=zerolatency"@,
        "-p"@,
        x264_params(c.fps),
    ]
}

/// The arguments of `wf-recorder` that choose the encoder.
pub open spec fn codec_words(c: ConfigView, encoder: Seq<char>) -> Seq<Seq<char>> {
    if encoder == "vaapi"@ {
        vaapi_words(c)
    } else {
        x264_words(c)
    }
}

/// The arguments of `wf-recorder`. The frame rate is an upper bound: frames are sent when something
/// changes and are not repeated. Whatever the encoder, frames are captured in shared memory and never
/// through DMA-BUF.
pub open spec fn recorder_words(c: ConfigView, encoder: Seq<char>) -> Seq<Seq<char>> {
    seq!["-o"@, c.output, "-B"@, decimal(c.fps as nat), "--no-dmabuf"@] + codec_words(c, encoder)
        + seq!["-m"@, "h264"@, "-y"@, "-f"@, "/dev/stdout"@]
}

/// The arguments of `wf-recorder` for the hardware encoder.
fn add_vaapi_words(args: &mut Vec<String>, config: &Config)
    ensures
        texts(final(args)@) == texts(old(args)@) + vaapi_words(config@),
{
    add_word(args, "-c");
    add_word(args, "h264_vaapi");
    add_word(args, "-d");
    add_word(args, config.render_node.as_str());
    add_word(args, "-b");
    add_word(args, "0");
    add_word(args, "-p");
    add_word(args, "aud=1");
    add_word(args, "-p");
    add_word(args, "g=".to_owned().concat(decimal_text(config.fps as u64).as_str()).as_str());
    add_word(args, "-p");
    add_word(args, "rc_mode=CQP");
    add_word(args, "-p");
    add_word(args, "qp=20");
    assert(texts(args@) =~= texts(old(args)@) + vaapi_words(config@));
}

/// The arguments of `wf-recorder` for the software encoder.
fn add_x264_words(args: &mut Vec<String>, config: &Config)
    ensures
        texts(final(args)@) == texts(old(args)@) + x264_words(config@),
{
    let mut params = "x264-params=aud=1:repeat-headers=1:keyint=".to_owned();
    append_decimal(&mut params, config.fps as u64);
    params.append(":min-keyint=");
    append_decimal(&mut params, config.fps as u64);
    params.append(":scenecut=0");
    assert(params@ =~= x264_params(config@.fps));
    add_word(args, "-c");
    add_word(args, "libx264");
    add_word(args, "-b");
    add_word(args, "0");
    add_word(args, "-p");
    add_word(args, "preset=ultrafast");
    add_word(args, "-p");
    add_word(args, "tune=zerolatency");
    add_word(args, "-p");
    add_word(args, params.as_str());
    assert(texts(args@) =~= texts(old(args)@) + x264_words(config@));
}

/// The arguments of `wf-recorder` for an encoder.
pub fn encoder_args(config: &Config, encoder: &str) -> (args: Vec<String>)
    ensures
        texts(args@) == recorder_words(config@, encoder@),
{
    let mut args: Vec<String> = Vec::new();
    add_word(&mut args, "-o");
    add_word(&mut args, config.output.as_str());
    add_word(&mut args, "-B");
    add_word(&mut args, decimal_text(config.fps as u64).as_str());
    add_word(&mut args, "--no-dmabuf");
    if same_text(encoder, "vaapi") {
        add_vaapi_words(&mut args, config);
    } else {
        add_x264_words(&mut args, config);
    }
    add_word(&mut args, "-m");
    add_word(&mut args, "h264");
    add_word(&mut args, "-y");
    add_word(&mut args, "-f");
    add_word(&mut args, "/dev/stdout");
    assert(texts(args@) =~= recorder_words(config@, encoder@));
    args
}

/// DMA-BUF capture is always off, whatever the settings and the encoder.
pub proof fn law_dma_buf_is_never_used(c: ConfigView, encoder: Seq<char>)
    ensures
        recorder_words(c, encoder).contains("--no-dmabuf"@),
{
    assert(recorder_words(c, encoder)[4] == "--no-dmabuf"@);
}

/// What `wf-recorder` is told follows the settings: the output behind `-o`, the rate behind `-B`, no
/// DMA-BUF, the encoder behind `-c`, and at the end plain H.264 to its standard output. One key frame a
/// second is asked for by the same digits as the rate, and with each access unit a delimiter.
pub proof fn law_recorder_is_told_the_settings(c: ConfigView, encoder: Seq<char>)
    ensures
        ({
            let words = recorder_words(c, encoder);
            let n = words.len() as int;
            &&& n == if encoder == "vaapi"@ {
                24int
            } else {
                20
            }
            &&& words[0] == "-o"@ && words[1] == c.output
            &&& words[2] == "-B"@ && writes(words[3], c.fps as nat)
            &&& words[4] == "--no-dmabuf"@
            &&& words[5] == "-c"@
            &&& words[n - 5] == "-m"@ && words[n - 4] == "h264"@
            &&& words[n - 3] == "-y"@
            &&& words[n - 2] == "-f"@ && words[n - 1] == "/dev/stdout"@
            &&& encoder == "vaapi"@ ==> {
                &&& words[6] == "h264_vaapi"@
                &&& words[7] == "-d"@ && words[8] == c.render_node
                &&& words[9] == "-b"@ && words[10] == "0"@
                &&& words[11] == "-p"@ && words[12] == "aud=1"@
                &&& words[13] == "-p"@ && words[14] == "g="@ + words[3]
                &&& words[15] == "-p"@ && words[16] == "rc_mode=CQP"@
                &&& words[17] == "-p"@ && words[18] == "qp=20"@
            }
            &&& encoder != "vaapi"@ ==> {
                &&& words[6] == "libx264"@
                &&& words[7] == "-b"@ && words[8] == "0"@
                &&& words[9] == "-p"@ && words[10] == "preset=ultrafast"@
                &&& words[11] == "-p"@ && words[12] == "tune=zerolatency"@
                &&& words[13] == "-p"@ && words[14]
                    == "x264-params=aud=1:repeat-headers=1:keyint="@ + words[3] + ":min-keyint="@
                    + words[3] + ":scenecut=0"@
            }
        }),
{
    law_numbers_are_written_in_digits(c.fps as nat);
}

/// `adb` is told the device first, where one is named, and then to map the daemon's port on the device
/// to the same port here.
pub proof fn law_adb_maps_the_port_to_itself(c: ConfigView)
    ensures
        ({
            let words = adb_words(c);
            let n = words.len() as int;
            &&& n == if c.adb_serial is Some {
                5int
            } else {
                3
            }
            &&& c.adb_serial matches Some(serial) ==> words[0] == "-s"@ && words[1] == serial
            &&& words[n - 3] == "reverse"@
            &&& words[n - 2] == words[n - 1]
            &&& words[n - 1].take(4) == "tcp:"@
            &&& writes(words[n - 1].skip(4), c.port as nat)
        }),
{
    reveal_strlit("tcp:");
    law_numbers_are_written_in_digits(c.port as nat);
    let mapping = "tcp:"@ + decimal(c.port as nat);
    assert(mapping.take(4) =~= "tcp:"@);
    assert(mapping.skip(4) =~= decimal(c.port as nat));
}

} // verus!
