//! The input poll as a state machine.
//!
//! A poll waits for input, reads one event and reports it. Waiting and
//! reading are the caller's part; what to do next is decided here. The caller
//! starts in [`PollState::Idle`] with [`PollSignal::Begin`], performs the
//! action it is given, and comes back with what the terminal answered, until
//! the action is [`PollAction::Finish`].

use crate::event::{decoded, decode, Key, KeyInput, KeyPhase, Modifiers, RtEvent, TerminalEvent};
use crate::session::Context;
use vstd::prelude::*;

verus! {

/// Where a poll stands.
#[derive(Clone, Copy, Debug, PartialEq, Eq, Structural)]
pub enum PollState {
    /// Not begun.
    Idle,
    /// The caller is waiting for input.
    Waiting,
    /// The caller is reading one event.
    Reading,
    /// Over.
    Done,
}

/// What the caller reports to the poll.
#[derive(Clone, Copy, Debug, PartialEq, Eq)]
pub enum PollSignal {
    /// The poll is asked for, to wait `timeout_ms` milliseconds at most.
    Begin { timeout_ms: u32 },
    /// The wait is over: `Some(true)` if input is there, `Some(false)` if the
    /// time ran out, `None` if the terminal could not be asked.
    Polled(Option<bool>),
    /// One event was read, or `None` if reading failed.
    Read(Option<TerminalEvent>),
}

/// What the caller is to do next.
#[derive(Clone, Copy, Debug, PartialEq, Eq)]
pub enum PollAction {
    /// Wait for input, `millis` milliseconds at most.
    Wait { millis: u64 },
    /// Read exactly one event.
    Read,
    /// Return to the caller: a record, or no event.
    Finish(Option<RtEvent>),
}

/// One step of a poll. Without a session every step ends the poll with no
/// event, and so does a signal that is out of turn.
pub open spec fn poll_step(session: bool, state: PollState, signal: PollSignal) -> (
    PollState,
    PollAction,
) {
    if !session {
        (PollState::Done, PollAction::Finish(None))
    } else {
        match (state, signal) {
            (PollState::Idle, PollSignal::Begin { timeout_ms }) => (
                PollState::Waiting,
                PollAction::Wait { millis: timeout_ms as u64 },
            ),
            (PollState::Waiting, PollSignal::Polled(Some(true))) => (
                PollState::Reading,
                PollAction::Read,
            ),
            (PollState::Reading, PollSignal::Read(Some(event))) => (
                PollState::Done,
                PollAction::Finish(decoded(event)),
            ),
            _ => (PollState::Done, PollAction::Finish(None)),
        }
    }
}

/// What a whole poll returns, given what the terminal answers: whether input
/// came in time (`ready`) and which event was then read (`read`).
pub open spec fn poll_outcome(
    session: bool,
    ready: Option<bool>,
    read: Option<TerminalEvent>,
) -> Option<RtEvent> {
    if session && ready == Some(true) && read is Some {
        decoded(read->Some_0)
    } else {
        None
    }
}

/// Takes one step of a poll: from where the poll stands and what the caller
/// reports to where it stands then and what the caller is to do.
pub fn rt_poll_event(session: Option<&Context>, state: PollState, signal: PollSignal) -> (next: (
    PollState,
    PollAction,
))
    ensures
        next == poll_step(session is Some, state, signal),
{
    if session.is_none() {
        return (PollState::Done, PollAction::Finish(None));
    }
    match (state, signal) {
        (PollState::Idle, PollSignal::Begin { timeout_ms }) => (
            PollState::Waiting,
            PollAction::Wait { millis: timeout_ms as u64 },
        ),
        (PollState::Waiting, PollSignal::Polled(Some(true))) => (
            PollState::Reading,
            PollAction::Read,
        ),
        (PollState::Reading, PollSignal::Read(Some(event))) => (
            PollState::Done,
            PollAction::Finish(decode(&event)),
        ),
        _ => (PollState::Done, PollAction::Finish(None)),
    }
}

/// A poll that is carried out as asked returns `poll_outcome`: it waits for
/// the time given, reads only if input came in time, and finishes with what
/// the event read decodes to.
pub proof fn lemma_poll_run(
    session: bool,
    timeout_ms: u32,
    ready: Option<bool>,
    read: Option<TerminalEvent>,
)
    ensures
        ({
            let first = poll_step(session, PollState::Idle, PollSignal::Begin { timeout_ms });
            let second = poll_step(session, first.0, PollSignal::Polled(ready));
            let third = poll_step(session, second.0, PollSignal::Read(read));
            if !session {
                first == (PollState::Done, PollAction::Finish(None))
            } else if ready != Some(true) {
                &&& first == (PollState::Waiting, PollAction::Wait { millis: timeout_ms as u64 })
                &&& second == (PollState::Done, PollAction::Finish(None))
            } else {
                &&& first == (PollState::Waiting, PollAction::Wait { millis: timeout_ms as u64 })
                &&& second == (PollState::Reading, PollAction::Read)
                &&& third == (
                    PollState::Done,
                    PollAction::Finish(poll_outcome(session, ready, read)),
                )
            }
        }),
{
}

/// A step finishes if and only if it leaves the poll in `Done`; and a step
/// taken in `Done` finishes again, with no event.
pub proof fn lemma_poll_ends_in_done(session: bool, state: PollState, signal: PollSignal)
    ensures
        poll_step(session, state, signal).1 is Finish <==> poll_step(session, state, signal).0
            is Done,
        state is Done ==> poll_step(session, state, signal) == (
            PollState::Done,
            PollAction::Finish(None),
        ),
{
}

/// An event is read only after a wait that found input: the action `Read`
/// is given in `Waiting`, to the signal `Polled(Some(true))`, with a session,
/// and in no other case.
pub proof fn lemma_poll_reads_only_when_ready(session: bool, state: PollState, signal: PollSignal)
    ensures
        poll_step(session, state, signal).1 is Read <==> session && state is Waiting && signal
            == PollSignal::Polled(Some(true)),
{
}

/// With a session, when the press of a character key is what the terminal
/// has to offer, the poll returns a key event whose code is the character's
/// code point.
pub proof fn lemma_poll_reports_char(c: char, m: Modifiers)
    ensures
        poll_outcome(
            true,
            Some(true),
            Some(
                TerminalEvent::Key(
                    KeyInput { key: Key::Char(c), modifiers: m, phase: KeyPhase::Press },
                ),
            ),
        ) matches Some(record) && record.kind == 1 && record.code == c as u32,
{
}

/// A poll returns an event in one case only: there is a session, input came
/// in time, and what was read is the press of a key.
pub proof fn lemma_poll_outcome_is_a_press(
    session: bool,
    ready: Option<bool>,
    read: Option<TerminalEvent>,
)
    ensures
        poll_outcome(session, ready, read) is Some <==> session && ready == Some(true) && (
        read matches Some(TerminalEvent::Key(input)) && input.phase is Press),
{
}

} // verus!
