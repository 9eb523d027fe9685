//! The voice button of the input panel: what a click does in each state of
//! the recorder, and what each event of the recorder changes.
//!
//! The recorder's states are numbered as the button shows them: idle (0),
//! loading the model (1), listening (2) and transcribing (3).

use crate::text::{owned, string_push_str};
use vstd::prelude::*;

verus! {

/// What a click on the voice button asks for.
#[derive(Debug, Clone, Copy, PartialEq, Eq, Structural)]
pub enum VoiceAction {
    /// Start recording; the button shows "loading" at once.
    Start,
    /// Stop recording, which goes on to transcription.
    Stop,
    /// Nothing: the recorder is busy loading or transcribing.
    Ignore,
}

/// A click while idle starts recording, a click while listening stops it,
/// and other clicks are ignored.
pub open spec fn click_action(state: i32) -> VoiceAction {
    if state == 0 {
        VoiceAction::Start
    } else if state == 2 {
        VoiceAction::Stop
    } else {
        VoiceAction::Ignore
    }
}

/// See [`click_action`]; the state shown right after the click is
/// "loading" for a start and unchanged otherwise.
pub fn voice_click(state: i32) -> (r: (VoiceAction, i32))
    ensures
        r.0 == click_action(state),
        r.1 == if state == 0 {
            1
        } else {
            state
        },
{
    if state == 0 {
        (VoiceAction::Start, 1)
    } else if state == 2 {
        (VoiceAction::Stop, state)
    } else {
        (VoiceAction::Ignore, state)
    }
}

/// What the recorder reports.
#[derive(Debug)]
pub enum VoiceEvent {
    /// It moved to the numbered state.
    StateChanged(i32),
    /// The finished transcript.
    FinalTranscript(String),
    /// Text heard so far (not shown).
    PartialTranscript(String),
    /// It failed, or could not start.
    Error(String),
}

/// The button's state and the input text after an event: a transcript is
/// added to the input after a space (or becomes the input when it is empty);
/// a failure returns the button to idle.
pub open spec fn after_voice_event(state: i32, input: Seq<char>, e: VoiceEvent) -> (i32, Seq<char>) {
    match e {
        VoiceEvent::StateChanged(s) => (s, input),
        VoiceEvent::FinalTranscript(t) => (
            state,
            if input.len() == 0 {
                t@
            } else {
                input + " "@ + t@
            },
        ),
        VoiceEvent::PartialTranscript(_) => (state, input),
        VoiceEvent::Error(_) => (0, input),
    }
}

/// See [`after_voice_event`].
pub fn voice_event(state: i32, input: &str, e: VoiceEvent) -> (r: (i32, String))
    ensures
        (r.0, r.1@) == after_voice_event(state, input@, e),
{
    match e {
        VoiceEvent::StateChanged(s) => (s, owned(input)),
        VoiceEvent::FinalTranscript(t) => {
            if input.is_empty() {
                (state, t)
            } else {
                let mut s = owned(input);
                string_push_str(&mut s, " ");
                string_push_str(&mut s, t.as_str());
                (state, s)
            }
        },
        VoiceEvent::PartialTranscript(_) => (state, owned(input)),
        VoiceEvent::Error(_) => (0, owned(input)),
    }
}

} // verus!
