//! Gathering NAL units into access units and framing those for the wire.
use vstd::prelude::*;

use crate::annexb::{
    contains_nal_type, find_code, first_nal_type, from_first_code, has_nal_type, nal_type,
    split_first, AnnexBParser,
};
use crate::wire::{frame_header, frame_header_bytes};

verus! {

/// The most bytes that an access unit may hold.
pub const MAX_ACCESS_UNIT_SIZE: usize = 16 * 1024 * 1024;

/// The NAL type of an access unit delimiter.
pub const NAL_ACCESS_UNIT_DELIMITER: u8 = 9;

/// The NAL type of a slice of a key frame.
pub const NAL_KEY_SLICE: u8 = 5;

/// An access unit with the time and the number under which it is sent.
pub struct Sent {
    pub unit: Seq<u8>,
    pub pts_us: u64,
    pub sequence: u64,
}

/// The header that goes before the access unit of `sent`.
pub open spec fn header_of(sent: Sent) -> Seq<u8> {
    frame_header_bytes(
        sent.unit.len(),
        sent.pts_us,
        sent.sequence,
        has_nal_type(sent.unit, NAL_KEY_SLICE),
    )
}

/// What is written to the peer for one access unit: the header, then the unit.
pub struct Frame {
    pub header: Vec<u8>,
    pub payload: Vec<u8>,
}

impl Frame {
    /// The frame holds the access unit of `sent` under the header that belongs to it.
    pub open spec fn carries(&self, sent: Sent) -> bool {
        self.header@ == header_of(sent) && self.payload@ == sent.unit
    }
}

/// The frame that a step gave, if any, is the one for what was to be sent, if anything was.
pub open spec fn frame_carries(frame: Option<Frame>, sent: Option<Sent>) -> bool {
    match sent {
        Some(s) => frame matches Some(f) && f.carries(s),
        None => frame is None,
    }
}

/// The time stamp after `last`: the measured time, unless that would not be later.
pub open spec fn next_pts(elapsed_us: nat, last: u64) -> u64 {
    let measured = if elapsed_us <= u64::MAX {
        elapsed_us
    } else {
        u64::MAX as nat
    };
    let least = if last < u64::MAX {
        last + 1
    } else {
        u64::MAX as int
    };
    if measured >= least {
        measured as u64
    } else {
        least as u64
    }
}

/// Builds the frame header for `access_unit` and moves the clock of the stream on. `elapsed_us` is
/// the time since the stream began.
pub fn send_access_unit(
    access_unit: &[u8],
    elapsed_us: u128,
    sequence: u64,
    last_pts: &mut u64,
) -> (header: Result<Vec<u8>, String>)
    ensures
        match header {
            Ok(bytes) => {
                &&& access_unit@.len() <= u32::MAX
                &&& *final(last_pts) == next_pts(elapsed_us as nat, *old(last_pts))
                &&& bytes@ == header_of(
                    Sent { unit: access_unit@, pts_us: *final(last_pts), sequence },
                )
            },
            Err(message) => {
                &&& access_unit@.len() > u32::MAX
                &&& *final(last_pts) == *old(last_pts)
                &&& message@ == "access unit too large"@
            },
        },
{
    if access_unit.len() as u64 > u32::MAX as u64 {
        return Err("access unit too large".to_owned());
    }
    let length: u32 = access_unit.len() as u32;
    let measured: u64 = if elapsed_us <= u64::MAX as u128 {
        elapsed_us as u64
    } else {
        u64::MAX
    };
    let least: u64 = last_pts.saturating_add(1);
    let pts_us: u64 = if measured >= least {
        measured
    } else {
        least
    };
    *last_pts = pts_us;
    let key = contains_nal_type(access_unit, NAL_KEY_SLICE);
    Ok(frame_header(length, pts_us, sequence, key))
}

/// What an [`AccessUnits`] holds: the unit that is being gathered, the number that it will be sent
/// under and the time stamp that was given out last.
pub struct AccessUnitsView {
    pub unit: Seq<u8>,
    pub sequence: u64,
    pub last_pts: u64,
}

/// Gathers NAL units into access units. A delimiter begins the next access unit.
pub struct AccessUnits {
    unit: Vec<u8>,
    sequence: u64,
    last_pts: u64,
}

impl View for AccessUnits {
    type V = AccessUnitsView;

    closed spec fn view(&self) -> AccessUnitsView {
        AccessUnitsView { unit: self.unit@, sequence: self.sequence, last_pts: self.last_pts }
    }
}

/// What is there before the stream has begun.
pub open spec fn no_units() -> AccessUnitsView {
    AccessUnitsView { unit: Seq::empty(), sequence: 0, last_pts: 0 }
}

/// `nal` ends the access unit that is being gathered.
pub open spec fn ends_unit(a: AccessUnitsView, nal: Seq<u8>) -> bool {
    first_nal_type(nal) == Some(NAL_ACCESS_UNIT_DELIMITER) && a.unit.len() > 0
}

/// What is sent when the gathered unit is sent after `elapsed_us`.
pub open spec fn sent_now(a: AccessUnitsView, elapsed_us: nat) -> Sent {
    Sent { unit: a.unit, pts_us: next_pts(elapsed_us, a.last_pts), sequence: a.sequence }
}

/// What is sent when `nal` arrives after `elapsed_us`.
pub open spec fn sent_before(a: AccessUnitsView, nal: Seq<u8>, elapsed_us: nat) -> Option<Sent> {
    if ends_unit(a, nal) {
        Some(sent_now(a, elapsed_us))
    } else {
        None
    }
}

/// What is held once the unit that `nal` ends has been sent, before `nal` itself is added.
pub open spec fn ready_for(a: AccessUnitsView, nal: Seq<u8>, elapsed_us: nat) -> AccessUnitsView {
    if ends_unit(a, nal) {
        AccessUnitsView {
            unit: Seq::empty(),
            sequence: (a.sequence + 1) as u64,
            last_pts: next_pts(elapsed_us, a.last_pts),
        }
    } else {
        a
    }
}

/// There is room for `nal`.
pub open spec fn accepts(a: AccessUnitsView, nal: Seq<u8>, elapsed_us: nat) -> bool {
    ready_for(a, nal, elapsed_us).unit.len() + nal.len() <= MAX_ACCESS_UNIT_SIZE
}

/// What is held after `nal`.
pub open spec fn consumed(a: AccessUnitsView, nal: Seq<u8>, elapsed_us: nat) -> AccessUnitsView {
    let b = ready_for(a, nal, elapsed_us);
    if accepts(a, nal, elapsed_us) {
        AccessUnitsView { unit: b.unit + nal, ..b }
    } else {
        b
    }
}

/// The gathered unit is within the limit.
pub open spec fn within_limit(a: AccessUnitsView) -> bool {
    a.unit.len() <= MAX_ACCESS_UNIT_SIZE
}

/// `step` is what comes of adding `nal` to `before`, and leads to `after`.
pub open spec fn consumes(
    before: AccessUnitsView,
    nal: Seq<u8>,
    elapsed_us: nat,
    after: AccessUnitsView,
    step: (Option<Frame>, Result<(), String>),
) -> bool {
    &&& after == consumed(before, nal, elapsed_us)
    &&& frame_carries(step.0, sent_before(before, nal, elapsed_us))
    &&& match step.1 {
        Ok(_) => accepts(before, nal, elapsed_us),
        Err(message) => {
            &&& !accepts(before, nal, elapsed_us)
            &&& message@ == "H.264 access unit exceeded 16 MiB"@
        },
    }
}

/// What is held once the gathered unit has been sent at the end of the stream.
pub open spec fn flushed(a: AccessUnitsView, elapsed_us: nat) -> AccessUnitsView {
    AccessUnitsView { unit: Seq::empty(), last_pts: next_pts(elapsed_us, a.last_pts), ..a }
}

impl AccessUnits {
    /// Nothing gathered, the first unit to be number zero.
    pub fn new() -> (units: Self)
        ensures
            units@ == no_units(),
            within_limit(units@),
    {
        let units = AccessUnits { unit: Vec::new(), sequence: 0, last_pts: 0 };
        assert(units@.unit =~= Seq::empty());
        units
    }

    /// The number that the next unit will be sent under.
    pub fn sequence(&self) -> (sequence: u64)
        ensures
            sequence == self@.sequence,
    {
        self.sequence
    }

    /// Adds a NAL unit. Where that ends the gathered access unit, its frame comes back first; it is
    /// to be sent even where the NAL unit turns out to be too long.
    pub fn consume_nal(&mut self, nal: Vec<u8>, elapsed_us: u128) -> (step: (
        Option<Frame>,
        Result<(), String>,
    ))
        requires
            within_limit(old(self)@),
            ends_unit(old(self)@, nal@) ==> old(self)@.sequence < u64::MAX,
        ensures
            consumes(old(self)@, nal@, elapsed_us as nat, final(self)@, step),
            within_limit(final(self)@),
    {
        let mut frame: Option<Frame> = None;
        let delimiter = match nal_type(nal.as_slice()) {
            Some(kind) => kind == NAL_ACCESS_UNIT_DELIMITER,
            None => false,
        };
        if delimiter && self.unit.len() > 0 {
            frame = self.take_frame(elapsed_us);
            self.sequence = self.sequence + 1;
        }
        let ghost ready = ready_for(old(self)@, nal@, elapsed_us as nat);
        assert(self@.unit =~= ready.unit);
        assert(self@ == ready);
        if nal.len() > MAX_ACCESS_UNIT_SIZE - self.unit.len() {
            return (frame, Err("H.264 access unit exceeded 16 MiB".to_owned()));
        }
        let mut nal = nal;
        self.unit.append(&mut nal);
        (frame, Ok(()))
    }

    /// Moves the gathered unit out into a frame; its number stays.
    fn take_frame(&mut self, elapsed_us: u128) -> (frame: Option<Frame>)
        requires
            within_limit(old(self)@),
        ensures
            frame_carries(frame, Some(sent_now(old(self)@, elapsed_us as nat))),
            final(self)@ == flushed(old(self)@, elapsed_us as nat),
    {
        let mut last_pts: u64 = self.last_pts;
        let sent = send_access_unit(self.unit.as_slice(), elapsed_us, self.sequence, &mut last_pts);
        self.last_pts = last_pts;
        let mut payload: Vec<u8> = Vec::new();
        std::mem::swap(&mut payload, &mut self.unit);
        assert(self@.unit =~= Seq::empty());
        match sent {
            Ok(header) => Some(Frame { header, payload }),
            Err(_) => None,
        }
    }

    /// Hands out the last access unit once the stream has ended, if one has been begun.
    pub fn flush(&mut self, elapsed_us: u128) -> (frame: Option<Frame>)
        requires
            within_limit(old(self)@),
        ensures
            old(self)@.unit.len() > 0 ==> {
                &&& frame_carries(frame, Some(sent_now(old(self)@, elapsed_us as nat)))
                &&& final(self)@ == flushed(old(self)@, elapsed_us as nat)
            },
            old(self)@.unit.len() == 0 ==> frame is None && final(self)@ == old(self)@,
    {
        if self.unit.len() > 0 {
            self.take_frame(elapsed_us)
        } else {
            None
        }
    }
}

/// Forwards an encoded stream: bytes go in as the encoder writes them, frames come out.
pub struct Forwarder {
    parser: AnnexBParser,
    units: AccessUnits,
}

impl Forwarder {
    /// The bytes that are not yet split off.
    pub closed spec fn pending(&self) -> Seq<u8> {
        self.parser@
    }

    /// The access unit that is being gathered.
    pub closed spec fn units(&self) -> AccessUnitsView {
        self.units@
    }

    /// A forwarder at the beginning of a stream.
    pub fn new() -> (forwarder: Self)
        ensures
            forwarder.pending() == Seq::<u8>::empty(),
            forwarder.units() == no_units(),
            within_limit(forwarder.units()),
    {
        Forwarder { parser: AnnexBParser::default(), units: AccessUnits::new() }
    }

    /// The number that the next unit will be sent under.
    pub fn sequence(&self) -> (sequence: u64)
        ensures
            sequence == self.units().sequence,
    {
        self.units.sequence()
    }

    /// Takes in a chunk that the encoder wrote.
    pub fn push(&mut self, chunk: &[u8])
        ensures
            final(self).pending() == old(self).pending() + chunk@,
            final(self).units() == old(self).units(),
    {
        self.parser.push(chunk);
    }

    /// Takes the next complete NAL unit out of what has arrived and adds it to the access unit
    /// that is being gathered; `None` once no NAL unit is complete.
    pub fn step(&mut self, elapsed_us: u128) -> (step: Option<(Option<Frame>, Result<(), String>)>)
        requires
            within_limit(old(self).units()),
            old(self).units().sequence < u64::MAX,
        ensures
            within_limit(final(self).units()),
            match split_first(old(self).pending()) {
                Some((nal, rest)) => {
                    &&& final(self).pending() == rest
                    &&& step is Some
                    &&& consumes(old(self).units(), nal, elapsed_us as nat, final(self).units(), step->0)
                },
                None => {
                    &&& step is None
                    &&& final(self).pending() == from_first_code(old(self).pending())
                    &&& final(self).units() == old(self).units()
                },
            },
    {
        match self.parser.next_nal() {
            Some(nal) => Some(self.units.consume_nal(nal, elapsed_us)),
            None => None,
        }
    }

    /// Adds what is left once the encoder has stopped, if a start code is in it.
    pub fn finish(&mut self, elapsed_us: u128) -> (step: Option<
        (Option<Frame>, Result<(), String>),
    >)
        requires
            within_limit(old(self).units()),
            old(self).units().sequence < u64::MAX,
        ensures
            within_limit(final(self).units()),
            if find_code(old(self).pending(), 0) is Some {
                &&& final(self).pending() == Seq::<u8>::empty()
                &&& step is Some
                &&& consumes(
                    old(self).units(),
                    old(self).pending(),
                    elapsed_us as nat,
                    final(self).units(),
                    step->0,
                )
            } else {
                &&& step is None
                &&& final(self).pending() == old(self).pending()
                &&& final(self).units() == old(self).units()
            },
    {
        match self.parser.finish() {
            Some(nal) => Some(self.units.consume_nal(nal, elapsed_us)),
            None => None,
        }
    }

    /// Hands out the last access unit, if one has been begun.
    pub fn flush(&mut self, elapsed_us: u128) -> (frame: Option<Frame>)
        requires
            within_limit(old(self).units()),
        ensures
            final(self).pending() == old(self).pending(),
            old(self).units().unit.len() > 0 ==> {
                &&& frame_carries(frame, Some(sent_now(old(self).units(), elapsed_us as nat)))
                &&& final(self).units() == flushed(old(self).units(), elapsed_us as nat)
            },
            old(self).units().unit.len() == 0 ==> frame is None && final(self).units() == old(
                self,
            ).units(),
    {
        self.units.flush(elapsed_us)
    }
}

} // verus!
