//! Reading crossterm's input events into the library's own event type.
//!
//! A crossterm event is opaque to the verifier, so nothing here is proved of
//! how the result relates to the event. The functions below only pick fields
//! and tell variants apart; what is made of the result is decided, with
//! proof, in the `event` module.

use crate::event::{Key, KeyInput, KeyPhase, Modifiers, TerminalEvent};
use vstd::prelude::*;

verus! {

#[verifier::external_type_specification]
#[verifier::external_body]
pub struct ExEvent(crossterm::event::Event);

#[verifier::external_type_specification]
#[verifier::external_body]
pub struct ExKeyEvent(crossterm::event::KeyEvent);

/// Picks the key event out of `crossterm::event::Event::Key`; every other
/// variant gives `None`. Nothing is claimed of the result.
#[verifier::external_body]
fn key_event_in(event: &crossterm::event::Event) -> Option<crossterm::event::KeyEvent> {
    match event {
        crossterm::event::Event::Key(key) => Some(*key),
        _ => None,
    }
}

/// Reads the field `code` of a `crossterm::event::KeyEvent`, a
/// `crossterm::event::KeyCode`, and names its variant. Nothing is claimed of
/// the result.
#[verifier::external_body]
fn key_in(key: &crossterm::event::KeyEvent) -> Key {
    match key.code {
        crossterm::event::KeyCode::Char(c) => Key::Char(c),
        crossterm::event::KeyCode::Esc => Key::Esc,
        crossterm::event::KeyCode::Enter => Key::Enter,
        crossterm::event::KeyCode::Up => Key::Up,
        crossterm::event::KeyCode::Down => Key::Down,
        crossterm::event::KeyCode::Left => Key::Left,
        crossterm::event::KeyCode::Right => Key::Right,
        _ => Key::Other,
    }
}

/// Reads the field `kind` of a `crossterm::event::KeyEvent`, a
/// `crossterm::event::KeyEventKind`, and names its variant. Nothing is
/// claimed of the result.
#[verifier::external_body]
fn phase_in(key: &crossterm::event::KeyEvent) -> KeyPhase {
    match key.kind {
        crossterm::event::KeyEventKind::Press => KeyPhase::Press,
        crossterm::event::KeyEventKind::Repeat => KeyPhase::Repeat,
        crossterm::event::KeyEventKind::Release => KeyPhase::Release,
    }
}

/// Asks the field `modifiers` of a `crossterm::event::KeyEvent`, with
/// `crossterm::event::KeyModifiers::contains`, for Control, Alt and Shift.
/// Nothing is claimed of the result.
#[verifier::external_body]
fn modifiers_in(key: &crossterm::event::KeyEvent) -> Modifiers {
    Modifiers {
        ctrl: key.modifiers.contains(crossterm::event::KeyModifiers::CONTROL),
        alt: key.modifiers.contains(crossterm::event::KeyModifiers::ALT),
        shift: key.modifiers.contains(crossterm::event::KeyModifiers::SHIFT),
    }
}

/// Reads a crossterm event into a [`TerminalEvent`]: a key event with its
/// key, phase and modifiers, or `Other` for everything else.
///
/// The event is opaque to the verifier, so no contract can say that the
/// result is the event's own: that rests on the four readers above.
pub fn observe(event: &crossterm::event::Event) -> (seen: TerminalEvent) {
    match key_event_in(event) {
        Some(key) => TerminalEvent::Key(
            KeyInput { key: key_in(&key), modifiers: modifiers_in(&key), phase: phase_in(&key) },
        ),
        None => TerminalEvent::Other,
    }
}

} // verus!
