//! The steps of a session with the device.
use vstd::prelude::*;

use crate::commands::{
    custom_mode_action, position_action, position_words, scale_action, switch_off_action,
    switch_on_action,
};
use crate::config::{
    effective_mode, given_position, law_own_mode_comes_first, names_mode, position, Config,
    ConfigView,
};
use crate::text::{blank, law_signed_decimal_reads_back, signed_value, texts};

verus! {

/// What is to be done next in a session.
#[derive(Clone, Copy, Debug, PartialEq, Eq, Structural)]
pub enum SessionStep {
    /// Ask niri for the mode.
    CustomMode,
    /// Ask niri for the scale.
    Scale,
    /// Have niri place the output where the settings say, if they say where.
    Place,
    /// Have niri switch the output on.
    SwitchOn,
    /// Give the output time to appear.
    Settle,
    /// Find out where the output lies.
    Locate,
    /// Send the stream header.
    SendHeader,
    /// Start the recorder.
    StartRecorder,
    /// Forward what the recorder writes and act on what the device sends.
    Stream,
    /// Have niri switch the output off.
    SwitchOff,
    /// Nothing more.
    Ended,
}

/// The step after `step`, which went well or failed. A failure leads to the end of the session, and
/// the end of the session always goes through switching the output off.
pub open spec fn step_after(step: SessionStep, ok: bool) -> SessionStep {
    match step {
        SessionStep::SwitchOff => SessionStep::Ended,
        SessionStep::Ended => SessionStep::Ended,
        SessionStep::Stream => SessionStep::SwitchOff,
        _ => if !ok {
            SessionStep::SwitchOff
        } else {
            match step {
                SessionStep::CustomMode => SessionStep::Scale,
                SessionStep::Scale => SessionStep::Place,
                SessionStep::Place => SessionStep::SwitchOn,
                SessionStep::SwitchOn => SessionStep::Settle,
                SessionStep::Settle => SessionStep::Locate,
                SessionStep::Locate => SessionStep::SendHeader,
                SessionStep::SendHeader => SessionStep::StartRecorder,
                _ => SessionStep::Stream,
            }
        },
    }
}

/// What niri is told at a step.
pub open spec fn niri_words(step: SessionStep, c: ConfigView) -> Option<Seq<Seq<char>>> {
    match step {
        SessionStep::CustomMode => Some(seq!["custom-mode"@, effective_mode(c)]),
        SessionStep::Scale => Some(seq!["scale"@, "1"@]),
        SessionStep::Place => match given_position(c) {
            Some((x, y)) => Some(position_words(x, y)),
            None => None,
        },
        SessionStep::SwitchOn => Some(seq!["on"@]),
        SessionStep::SwitchOff => Some(seq!["off"@]),
        _ => None,
    }
}

/// How far a session has come.
pub struct Session {
    step: SessionStep,
}

impl Session {
    /// The step that is to be done.
    pub closed spec fn current(&self) -> SessionStep {
        self.step
    }

    /// A session that begins.
    pub fn new() -> (session: Self)
        ensures
            session.current() == SessionStep::CustomMode,
    {
        Session { step: SessionStep::CustomMode }
    }

    /// The step that is to be done.
    pub fn step(&self) -> (step: SessionStep)
        ensures
            step == self.current(),
    {
        self.step
    }

    /// Notes that the step has been done, well or not.
    pub fn done(&mut self, ok: bool)
        ensures
            final(self).current() == step_after(old(self).current(), ok),
    {
        self.step = match self.step {
            SessionStep::SwitchOff => SessionStep::Ended,
            SessionStep::Ended => SessionStep::Ended,
            SessionStep::Stream => SessionStep::SwitchOff,
            step => if !ok {
                SessionStep::SwitchOff
            } else {
                match step {
                    SessionStep::CustomMode => SessionStep::Scale,
                    SessionStep::Scale => SessionStep::Place,
                    SessionStep::Place => SessionStep::SwitchOn,
                    SessionStep::SwitchOn => SessionStep::Settle,
                    SessionStep::Settle => SessionStep::Locate,
                    SessionStep::Locate => SessionStep::SendHeader,
                    SessionStep::SendHeader => SessionStep::StartRecorder,
                    _ => SessionStep::Stream,
                }
            },
        };
    }
}

/// What to tell niri at a step, if anything.
pub fn niri_action(step: SessionStep, config: &Config) -> (action: Option<Vec<String>>)
    ensures
        match niri_words(step, config@) {
            Some(words) => action matches Some(a) && texts(a@) == words,
            None => action is None,
        },
{
    match step {
        SessionStep::CustomMode => Some(custom_mode_action(config)),
        SessionStep::Scale => Some(scale_action()),
        SessionStep::Place => match position(config) {
            Some((x, y)) => Some(position_action(x, y)),
            None => None,
        },
        SessionStep::SwitchOn => Some(switch_on_action()),
        SessionStep::SwitchOff => Some(switch_off_action()),
        _ => None,
    }
}

/// A position that the settings give reaches niri as it was given, before the output is switched on;
/// where they give none, niri is told nothing of a position.
pub proof fn law_given_position_is_handed_on(c: ConfigView)
    ensures
        step_after(SessionStep::Place, true) == SessionStep::SwitchOn,
        match given_position(c) {
            Some((x, y)) => {
                &&& niri_words(SessionStep::Place, c) matches Some(words)
                &&& words.len() == 5
                &&& words.take(3) == seq!["position"@, "set"@, "--"@]
                &&& signed_value(words[3]) == Some(x as int)
                &&& signed_value(words[4]) == Some(y as int)
                &&& c.position_x matches Some(given) ==> x == given
                &&& c.position_y matches Some(given) ==> y == given
            },
            None => {
                &&& niri_words(SessionStep::Place, c) is None
                &&& c.position_x is None
                &&& c.position_y is None
            },
        },
{
    if let Some((x, y)) = given_position(c) {
        law_signed_decimal_reads_back(x as int);
        law_signed_decimal_reads_back(y as int);
        assert(position_words(x, y).take(3) =~= seq!["position"@, "set"@, "--"@]);
    }
}

/// The steps of a session from `step` on, the `i`-th of which goes as `outcomes[i]` says.
pub open spec fn course(step: SessionStep, outcomes: Seq<bool>) -> Seq<SessionStep>
    decreases outcomes.len(),
{
    if outcomes.len() == 0 || step == SessionStep::Ended {
        Seq::empty()
    } else {
        seq![step] + course(step_after(step, outcomes.first()), outcomes.drop_first())
    }
}

/// How many steps a session takes from `step` on when nothing fails.
pub open spec fn steps_left(step: SessionStep) -> nat {
    match step {
        SessionStep::CustomMode => 10,
        SessionStep::Scale => 9,
        SessionStep::Place => 8,
        SessionStep::SwitchOn => 7,
        SessionStep::Settle => 6,
        SessionStep::Locate => 5,
        SessionStep::SendHeader => 4,
        SessionStep::StartRecorder => 3,
        SessionStep::Stream => 2,
        SessionStep::SwitchOff => 1,
        SessionStep::Ended => 0,
    }
}

/// A session ends after at most ten steps, and whatever went wrong on the way, the last of them,
/// and no other, switches the output off.
pub proof fn law_session_ends_with_the_output_off(outcomes: Seq<bool>)
    requires
        outcomes.len() >= 10,
    ensures
        ({
            let steps = course(SessionStep::CustomMode, outcomes);
            &&& 1 <= steps.len() <= 10
            &&& steps.last() == SessionStep::SwitchOff
            &&& forall|i: int|
                0 <= i < steps.len() - 1 ==> #[trigger] steps[i] != SessionStep::SwitchOff
        }),
{
    lemma_course(SessionStep::CustomMode, outcomes);
}

/// The same from any step.
proof fn lemma_course(step: SessionStep, outcomes: Seq<bool>)
    requires
        step != SessionStep::Ended,
        outcomes.len() >= steps_left(step),
    ensures
        ({
            let steps = course(step, outcomes);
            &&& 1 <= steps.len() <= steps_left(step)
            &&& steps.last() == SessionStep::SwitchOff
            &&& forall|i: int|
                0 <= i < steps.len() - 1 ==> #[trigger] steps[i] != SessionStep::SwitchOff
        }),
    decreases steps_left(step),
{
    let next = step_after(step, outcomes.first());
    let steps = course(step, outcomes);
    let later = course(next, outcomes.drop_first());
    if next != SessionStep::Ended {
        lemma_course(next, outcomes.drop_first());
        assert(steps.last() == later.last());
        assert forall|i: int| 0 <= i < steps.len() - 1 implies #[trigger] steps[i]
            != SessionStep::SwitchOff by {
            if i > 0 {
                assert(steps[i] == later[i - 1]);
            }
        }
    } else {
        assert(step == SessionStep::SwitchOff);
        assert(later =~= Seq::empty());
        assert(steps =~= seq![step]);
    }
}

/// Nothing is streamed unless every step before went well: the output is on, in its mode and in
/// its place, the header is out and the recorder runs.
pub proof fn law_streaming_follows_success(outcomes: Seq<bool>, i: int)
    requires
        0 <= i < course(SessionStep::CustomMode, outcomes).len(),
        course(SessionStep::CustomMode, outcomes)[i] == SessionStep::Stream,
    ensures
        i == 8,
        forall|j: int| 0 <= j < 8 ==> outcomes[j],
{
    lemma_streaming(SessionStep::CustomMode, outcomes, i);
}

/// The same from any step.
proof fn lemma_streaming(step: SessionStep, outcomes: Seq<bool>, i: int)
    requires
        0 <= i < course(step, outcomes).len(),
        course(step, outcomes)[i] == SessionStep::Stream,
    ensures
        i == steps_left(step) - 2,
        i < outcomes.len(),
        forall|j: int| 0 <= j < i ==> outcomes[j],
    decreases steps_left(step),
{
    if i > 0 {
        let next = step_after(step, outcomes.first());
        assert(course(step, outcomes)[i] == course(next, outcomes.drop_first())[i - 1]);
        lemma_streaming(next, outcomes.drop_first(), i - 1);
        assert forall|j: int| 0 <= j < i implies outcomes[j] by {
            if j > 0 {
                assert(outcomes[j] == outcomes.drop_first()[j - 1]);
            } else if !outcomes[0] {
                assert(steps_left(next) <= 1);
            }
        }
    }
}

/// What niri is told in the course of a session, and when: the mode of the settings, the scale, the
/// position where one is given, and that the output is on; at the end that it is off. It is told
/// nothing else.
pub proof fn law_niri_is_told_the_settings(c: ConfigView)
    ensures
        ({
            &&& niri_words(SessionStep::CustomMode, c) matches Some(words)
            &&& words.len() == 2
            &&& words[0] == "custom-mode"@
            &&& !blank(c.mode) ==> words[1] == c.mode
            &&& blank(c.mode) ==> names_mode(words[1], c.width, c.height, c.fps)
        }),
        niri_words(SessionStep::Scale, c) == Some(seq!["scale"@, "1"@]),
        niri_words(SessionStep::SwitchOn, c) == Some(seq!["on"@]),
        niri_words(SessionStep::SwitchOff, c) == Some(seq!["off"@]),
        niri_words(SessionStep::Place, c) is Some <==> c.position_x is Some || c.position_y is Some,
        niri_words(SessionStep::Settle, c) is None,
        niri_words(SessionStep::Locate, c) is None,
        niri_words(SessionStep::SendHeader, c) is None,
        niri_words(SessionStep::StartRecorder, c) is None,
        niri_words(SessionStep::Stream, c) is None,
        niri_words(SessionStep::Ended, c) is None,
{
    law_own_mode_comes_first(c);
}

/// When every step goes well, the steps follow each other in this order.
pub proof fn law_steps_follow_in_order()
    ensures
        step_after(SessionStep::CustomMode, true) == SessionStep::Scale,
        step_after(SessionStep::Scale, true) == SessionStep::Place,
        step_after(SessionStep::Place, true) == SessionStep::SwitchOn,
        step_after(SessionStep::SwitchOn, true) == SessionStep::Settle,
        step_after(SessionStep::Settle, true) == SessionStep::Locate,
        step_after(SessionStep::Locate, true) == SessionStep::SendHeader,
        step_after(SessionStep::SendHeader, true) == SessionStep::StartRecorder,
        step_after(SessionStep::StartRecorder, true) == SessionStep::Stream,
        step_after(SessionStep::Stream, true) == SessionStep::SwitchOff,
        step_after(SessionStep::SwitchOff, true) == SessionStep::Ended,
{
}

} // verus!
