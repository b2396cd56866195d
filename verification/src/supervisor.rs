//! When to look for the device, and which outputs to switch off at the start.
use vstd::prelude::*;
use vstd::string::*;

use crate::config::{Config, ConfigView};
use crate::text::{add_word, texts};

verus! {

/// How long to wait between two attempts to reach the device, in nanoseconds.
pub const ADB_RETRY_NANOS: u128 = 2_000_000_000;

/// What an attempt to reach the device changed.
pub enum AdbChange {
    Connected,
    Lost,
    Unchanged,
}

/// An attempt that is due at `next` is due at `now`.
pub open spec fn is_time(next: u128, now: u128) -> bool {
    next <= now
}

/// Decides when to try to reach the device. Times are in nanoseconds since the daemon began.
pub struct AdbMonitor {
    next_attempt: u128,
    ready: bool,
}

impl AdbMonitor {
    /// When the next attempt is due.
    pub closed spec fn next_attempt(&self) -> u128 {
        self.next_attempt
    }

    /// Whether the last attempt succeeded.
    pub closed spec fn ready(&self) -> bool {
        self.ready
    }

    /// The device has not been reached; an attempt is due at once.
    pub fn new(now: u128) -> (monitor: Self)
        ensures
            monitor.next_attempt() == now,
            !monitor.ready(),
    {
        AdbMonitor { next_attempt: now, ready: false }
    }

    /// Whether an attempt is due.
    pub fn is_due(&self, now: u128) -> (due: bool)
        ensures
            due == (now >= self.next_attempt()),
            due == is_time(self.next_attempt(), now),
    {
        now >= self.next_attempt
    }

    /// Notes how an attempt that has just ended went.
    pub fn attempted(&mut self, now: u128, ready: bool) -> (change: AdbChange)
        requires
            now + ADB_RETRY_NANOS <= u128::MAX,
        ensures
            final(self).next_attempt() == now + ADB_RETRY_NANOS,
            final(self).next_attempt() - now == 2_000_000_000,
            final(self).ready() == ready,
            change is Connected <==> ready && !old(self).ready(),
            change is Lost <==> !ready && old(self).ready(),
    {
        let change = if ready && !self.ready {
            AdbChange::Connected
        } else if !ready && self.ready {
            AdbChange::Lost
        } else {
            AdbChange::Unchanged
        };
        self.ready = ready;
        self.next_attempt = now + ADB_RETRY_NANOS;
        change
    }

    /// Makes an attempt due at once, as after a session has ended.
    pub fn session_ended(&mut self, now: u128)
        ensures
            final(self).next_attempt() == now,
            final(self).ready() == old(self).ready(),
    {
        self.next_attempt = now;
    }
}

/// The outputs that must not take up a workspace before a session: that of the settings, and that
/// of the defaults where it is another one.
pub open spec fn idle_outputs(settings: ConfigView, defaults: ConfigView) -> Seq<Seq<char>> {
    if defaults.output == settings.output {
        seq![settings.output]
    } else {
        seq![settings.output, defaults.output]
    }
}

/// The outputs to switch off when the daemon starts.
pub fn outputs_to_switch_off(settings: &Config, defaults: &Config) -> (outputs: Vec<String>)
    ensures
        texts(outputs@) == idle_outputs(settings@, defaults@),
{
    let mut outputs: Vec<String> = Vec::new();
    add_word(&mut outputs, settings.output.as_str());
    if !(defaults.output == settings.output) {
        add_word(&mut outputs, defaults.output.as_str());
    }
    assert(texts(outputs@) =~= idle_outputs(settings@, defaults@));
    outputs
}

/// The outputs that must not take up a workspace are those of the settings and of the defaults, each
/// once and no other.
pub proof fn law_both_outputs_are_off_at_the_start(settings: ConfigView, defaults: ConfigView)
    ensures
        forall|output: Seq<char>| #[trigger]
            idle_outputs(settings, defaults).contains(output) <==> output == settings.output
                || output == defaults.output,
        idle_outputs(settings, defaults).no_duplicates(),
{
    let outputs = idle_outputs(settings, defaults);
    assert(outputs[0] == settings.output);
    assert(outputs.last() == defaults.output);
}

/// An attempt that is due stays due until it is made, and none is due before its time.
pub proof fn law_attempts_stay_due(next: u128, now: u128, later: u128)
    ensures
        is_time(next, next),
        is_time(next, now) && now <= later ==> is_time(next, later),
        now < next ==> !is_time(next, now),
{
}

} // verus!
