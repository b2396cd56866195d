//! What the daemon reports about itself.
use vstd::prelude::*;
use vstd::string::*;

use crate::config::{option_text, Config, ConfigView};

verus! {

/// How long frames are counted before a rate is reported, in nanoseconds.
pub const WINDOW_NANOS: u128 = 2_000_000_000;

/// What was sent during a measured time. The rates are quotients of these numbers.
#[derive(Clone, Copy, Debug)]
pub struct StreamRate {
    pub frames: u64,
    pub bytes: u64,
    pub elapsed_nanos: u128,
}

/// The state of the stream and of the device. The decode time is the bit pattern of a
/// single-precision number of milliseconds.
#[derive(Debug)]
pub struct DaemonStatus {
    pub streaming: bool,
    pub adb_ready: bool,
    pub active_output: Option<String>,
    pub active_width: Option<u32>,
    pub active_height: Option<u32>,
    pub active_fps: Option<u32>,
    pub active_encoder: Option<String>,
    pub rate: Option<StreamRate>,
    pub android_decode_ms: Option<u32>,
}

/// What a [`DaemonStatus`] says.
#[verifier::ext_equal]
pub struct StatusView {
    pub streaming: bool,
    pub adb_ready: bool,
    pub active_output: Option<Seq<char>>,
    pub active_width: Option<u32>,
    pub active_height: Option<u32>,
    pub active_fps: Option<u32>,
    pub active_encoder: Option<Seq<char>>,
    pub rate: Option<StreamRate>,
    pub android_decode_ms: Option<u32>,
}

impl View for DaemonStatus {
    type V = StatusView;

    open spec fn view(&self) -> StatusView {
        StatusView {
            streaming: self.streaming,
            adb_ready: self.adb_ready,
            active_output: option_text(self.active_output),
            active_width: self.active_width,
            active_height: self.active_height,
            active_fps: self.active_fps,
            active_encoder: option_text(self.active_encoder),
            rate: self.rate,
            android_decode_ms: self.android_decode_ms,
        }
    }
}

/// Nothing is streamed and nothing is known of a stream.
pub open spec fn idle(adb_ready: bool) -> StatusView {
    StatusView {
        streaming: false,
        adb_ready,
        active_output: None,
        active_width: None,
        active_height: None,
        active_fps: None,
        active_encoder: None,
        rate: None,
        android_decode_ms: None,
    }
}

/// A stream with the settings `c` has begun.
pub open spec fn streaming(s: StatusView, c: ConfigView, encoder: Seq<char>) -> StatusView {
    StatusView {
        streaming: true,
        active_output: Some(c.output),
        active_width: Some(c.width),
        active_height: Some(c.height),
        active_fps: Some(c.fps),
        active_encoder: Some(encoder),
        ..s
    }
}

/// A copy of an optional string.
fn copy_option(text: &Option<String>) -> (copy: Option<String>)
    ensures
        option_text(copy) == option_text(*text),
{
    match text {
        Some(t) => Some(t.clone()),
        None => None,
    }
}

impl Clone for DaemonStatus {
    fn clone(&self) -> (copy: Self)
        ensures
            copy@ == self@,
    {
        DaemonStatus {
            streaming: self.streaming,
            adb_ready: self.adb_ready,
            active_output: copy_option(&self.active_output),
            active_width: self.active_width,
            active_height: self.active_height,
            active_fps: self.active_fps,
            active_encoder: copy_option(&self.active_encoder),
            rate: self.rate,
            android_decode_ms: self.android_decode_ms,
        }
    }
}

impl Default for DaemonStatus {
    fn default() -> (status: Self)
        ensures
            status@ == idle(false),
    {
        DaemonStatus {
            streaming: false,
            adb_ready: false,
            active_output: None,
            active_width: None,
            active_height: None,
            active_fps: None,
            active_encoder: None,
            rate: None,
            android_decode_ms: None,
        }
    }
}

impl DaemonStatus {
    /// Notes that a stream has begun.
    pub fn start_stream(&mut self, config: &Config, encoder: String)
        ensures
            final(self)@ == streaming(old(self)@, config@, encoder@),
    {
        self.streaming = true;
        self.active_output = Some(config.output.clone());
        self.active_width = Some(config.width);
        self.active_height = Some(config.height);
        self.active_fps = Some(config.fps);
        self.active_encoder = Some(encoder);
    }

    /// Notes that the stream has ended: all that is known of it is forgotten.
    pub fn reset_stream_status(&mut self)
        ensures
            final(self)@ == idle(old(self)@.adb_ready),
    {
        self.streaming = false;
        self.active_output = None;
        self.active_width = None;
        self.active_height = None;
        self.active_fps = None;
        self.active_encoder = None;
        self.rate = None;
        self.android_decode_ms = None;
    }

    /// Notes whether the device can be reached.
    pub fn set_adb_ready(&mut self, ready: bool)
        ensures
            final(self)@ == (StatusView { adb_ready: ready, ..old(self)@ }),
    {
        self.adb_ready = ready;
    }

    /// Notes the rate of the last window.
    pub fn set_rate(&mut self, rate: StreamRate)
        ensures
            final(self)@ == (StatusView { rate: Some(rate), ..old(self)@ }),
    {
        self.rate = Some(rate);
    }

    /// Notes how long the device took to decode, where the report is a finite number.
    pub fn set_decode_time(&mut self, bits: u32)
        ensures
            final(self)@ == if finite_bits(bits) {
                StatusView { android_decode_ms: Some(bits), ..old(self)@ }
            } else {
                old(self)@
            },
    {
        if is_finite(bits) {
            self.android_decode_ms = Some(bits);
        }
    }
}

/// The exponent field of a single-precision number: the eight bits below the sign.
pub open spec fn exponent_field(bits: u32) -> u32 {
    (bits / 0x80_0000) % 0x100
}

/// The bit pattern is that of a finite number: not all bits of the exponent are set.
pub open spec fn finite_bits(bits: u32) -> bool {
    exponent_field(bits) != 0xff
}

/// Whether the bit pattern is that of a finite number.
pub fn is_finite(bits: u32) -> (yes: bool)
    ensures
        yes == finite_bits(bits),
{
    (bits / 0x80_0000) % 0x100 != 0xff
}

/// Counts what is sent and reports a rate every two seconds.
pub struct StreamStats {
    frames: u64,
    bytes: u64,
}

/// What is reported when a frame of `more` bytes comes on top of `frames` frames of `bytes` bytes
/// after `elapsed_nanos`, and what is then counted.
pub open spec fn tally(frames: u64, bytes: u64, more: usize, elapsed_nanos: u128) -> (
    Option<StreamRate>,
    (u64, u64),
) {
    let all_frames = (frames + 1) as u64;
    let all_bytes = (bytes + more) as u64;
    if elapsed_nanos >= WINDOW_NANOS {
        (Some(StreamRate { frames: all_frames, bytes: all_bytes, elapsed_nanos }), (0, 0))
    } else {
        (None, (all_frames, all_bytes))
    }
}

impl StreamStats {
    /// The frames counted since the last report.
    pub closed spec fn frames(&self) -> u64 {
        self.frames
    }

    /// The bytes counted since the last report.
    pub closed spec fn bytes(&self) -> u64 {
        self.bytes
    }

    /// Nothing counted.
    pub fn new() -> (stats: Self)
        ensures
            stats.frames() == 0,
            stats.bytes() == 0,
    {
        StreamStats { frames: 0, bytes: 0 }
    }

    /// The frames and bytes counted since the last report.
    pub fn counted(&self) -> (counts: (u64, u64))
        ensures
            counts.0 == self.frames(),
            counts.1 == self.bytes(),
    {
        (self.frames, self.bytes)
    }

    /// Counts a frame of `bytes` bytes. `elapsed_nanos` is the time since the last report; once it
    /// reaches two seconds the counts are reported and begin anew.
    pub fn record(&mut self, bytes: usize, elapsed_nanos: u128) -> (rate: Option<StreamRate>)
        requires
            old(self).frames() < u64::MAX,
            old(self).bytes() + bytes <= u64::MAX,
        ensures
            if elapsed_nanos >= WINDOW_NANOS {
                &&& rate == Some(
                    StreamRate {
                        frames: (old(self).frames() + 1) as u64,
                        bytes: (old(self).bytes() + bytes) as u64,
                        elapsed_nanos,
                    },
                )
                &&& final(self).frames() == 0
                &&& final(self).bytes() == 0
            } else {
                &&& rate is None
                &&& final(self).frames() == old(self).frames() + 1
                &&& final(self).bytes() == old(self).bytes() + bytes
            },
            (rate, (final(self).frames(), final(self).bytes())) == tally(
                old(self).frames(),
                old(self).bytes(),
                bytes,
                elapsed_nanos,
            ),
    {
        self.frames = self.frames + 1;
        self.bytes = self.bytes + bytes as u64;
        if elapsed_nanos >= WINDOW_NANOS {
            let rate = StreamRate { frames: self.frames, bytes: self.bytes, elapsed_nanos };
            self.frames = 0;
            self.bytes = 0;
            Some(rate)
        } else {
            None
        }
    }
}

/// Every frame is reported once: with the frame that comes two seconds after the last report or later,
/// all that was counted and that frame are reported with the time that passed, and counting begins
/// anew; before that, nothing is reported and all stays counted.
pub proof fn law_every_frame_is_reported_once(
    frames: u64,
    bytes: u64,
    more: usize,
    elapsed_nanos: u128,
)
    requires
        frames < u64::MAX,
        bytes + more <= u64::MAX,
    ensures
        ({
            let (rate, counted) = tally(frames, bytes, more, elapsed_nanos);
            let reported = match rate {
                Some(r) => (r.frames, r.bytes),
                None => (0, 0),
            };
            &&& rate is Some <==> elapsed_nanos >= 2_000_000_000
            &&& rate matches Some(r) ==> r.elapsed_nanos == elapsed_nanos && counted == (0u64, 0u64)
            &&& reported.0 + counted.0 == frames + 1
            &&& reported.1 + counted.1 == bytes + more
        }),
{
}

/// A stream that has begun is reported with the output, the size and the rate of its settings and the
/// encoder that it uses; what is known of the device and of the rates stays. Once it has ended nothing
/// is reported of it.
pub proof fn law_status_tells_of_the_stream(s: StatusView, c: ConfigView, encoder: Seq<char>)
    ensures
        ({
            let during = streaming(s, c, encoder);
            let after = idle(during.adb_ready);
            &&& during.streaming
            &&& during.active_output == Some(c.output)
            &&& during.active_width == Some(c.width)
            &&& during.active_height == Some(c.height)
            &&& during.active_fps == Some(c.fps)
            &&& during.active_encoder == Some(encoder)
            &&& during.adb_ready == s.adb_ready
            &&& during.rate == s.rate
            &&& during.android_decode_ms == s.android_decode_ms
            &&& !after.streaming
            &&& after.adb_ready == s.adb_ready
            &&& after.active_output is None
            &&& after.active_width is None
            &&& after.active_height is None
            &&& after.active_fps is None
            &&& after.active_encoder is None
            &&& after.rate is None
            &&& after.android_decode_ms is None
        }),
{
}

/// A number is finite exactly when the bits below its sign are less than those of infinity.
pub proof fn law_finite_numbers_lie_below_infinity(bits: u32)
    ensures
        finite_bits(bits) <==> bits % 0x8000_0000 < 0x7f80_0000,
{
    assert(((bits / 0x80_0000) % 0x100 != 0xff) == (bits % 0x8000_0000 < 0x7f80_0000))
        by (bit_vector);
}

} // verus!
