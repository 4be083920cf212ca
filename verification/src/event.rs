//! The event record handed to the caller, and how a key becomes one.

use vstd::prelude::*;

verus! {

/// The `kind` of a record that reports a key press.
pub const KIND_KEY: i32 = 1;

/// Code of the Escape key.
pub const CODE_ESC: u32 = 0x1B;

/// Code of the Enter key: the newline code point.
pub const CODE_ENTER: u32 = 0x0A;

/// Code of the up arrow.
pub const CODE_UP: u32 = 1001;

/// Code of the down arrow.
pub const CODE_DOWN: u32 = 1002;

/// Code of the left arrow.
pub const CODE_LEFT: u32 = 1003;

/// Code of the right arrow.
pub const CODE_RIGHT: u32 = 1004;

/// Modifier bit 0: Control.
pub const MOD_CTRL: u32 = 0x1;

/// Modifier bit 1: Alt.
pub const MOD_ALT: u32 = 0x2;

/// Modifier bit 2: Shift.
pub const MOD_SHIFT: u32 = 0x4;

/// The fixed-layout record that a poll hands to the caller.
#[derive(Clone, Copy, Debug, PartialEq, Eq, Structural)]
pub struct RtEvent {
    /// What happened; `KIND_KEY` is the only kind there is.
    pub kind: i32,
    /// A character's code point, or the code of a named key.
    pub code: u32,
    /// Bit 0 is Control, bit 1 is Alt, bit 2 is Shift.
    pub modifiers: u32,
}

/// The keys that are told apart. Every other special key is `Other`.
#[derive(Clone, Copy, Debug, PartialEq, Eq, Structural)]
pub enum Key {
    Char(char),
    Esc,
    Enter,
    Up,
    Down,
    Left,
    Right,
    Other,
}

/// Whether a key went down, is held, or came up.
#[derive(Clone, Copy, Debug, PartialEq, Eq, Structural)]
pub enum KeyPhase {
    Press,
    Repeat,
    Release,
}

/// The modifiers that are reported. Others are not looked at.
#[derive(Clone, Copy, Debug, PartialEq, Eq, Structural)]
pub struct Modifiers {
    pub ctrl: bool,
    pub alt: bool,
    pub shift: bool,
}

/// One key event as the terminal reported it.
#[derive(Clone, Copy, Debug, PartialEq, Eq, Structural)]
pub struct KeyInput {
    pub key: Key,
    pub modifiers: Modifiers,
    pub phase: KeyPhase,
}

/// One terminal input event. Everything that is no key event (a resize, the
/// mouse, focus, a paste) is `Other`.
#[derive(Clone, Copy, Debug, PartialEq, Eq, Structural)]
pub enum TerminalEvent {
    Key(KeyInput),
    Other,
}

/// The code under which a key is reported.
pub open spec fn key_code(key: Key) -> u32 {
    match key {
        Key::Char(c) => c as u32,
        Key::Esc => CODE_ESC,
        Key::Enter => CODE_ENTER,
        Key::Up => CODE_UP,
        Key::Down => CODE_DOWN,
        Key::Left => CODE_LEFT,
        Key::Right => CODE_RIGHT,
        Key::Other => 0,
    }
}

/// The value of one modifier bit: `weight` if the modifier is held, else 0.
pub open spec fn bit_if(held: bool, weight: u32) -> u32 {
    if held {
        weight
    } else {
        0
    }
}

/// The modifier bit-set: 1 for Control, 2 for Alt and 4 for Shift, summed
/// over the modifiers that are held.
pub open spec fn modifier_bits(m: Modifiers) -> u32 {
    (bit_if(m.ctrl, MOD_CTRL) + bit_if(m.alt, MOD_ALT) + bit_if(m.shift, MOD_SHIFT)) as u32
}

/// The record for a key that went down.
pub open spec fn press_record(key: Key, m: Modifiers) -> RtEvent {
    RtEvent { kind: KIND_KEY, code: key_code(key), modifiers: modifier_bits(m) }
}

/// What a terminal event is reported as: a record for a key press, nothing
/// for a key that is held or released and for everything that is no key.
pub open spec fn decoded(event: TerminalEvent) -> Option<RtEvent> {
    match event {
        TerminalEvent::Key(input) => match input.phase {
            KeyPhase::Press => Some(press_record(input.key, input.modifiers)),
            _ => None,
        },
        TerminalEvent::Other => None,
    }
}

/// Computes the code of a key.
pub fn key_code_of(key: Key) -> (code: u32)
    ensures
        code == key_code(key),
{
    match key {
        Key::Char(c) => c as u32,
        Key::Esc => CODE_ESC,
        Key::Enter => CODE_ENTER,
        Key::Up => CODE_UP,
        Key::Down => CODE_DOWN,
        Key::Left => CODE_LEFT,
        Key::Right => CODE_RIGHT,
        Key::Other => 0,
    }
}

/// Packs the modifiers into their bit-set.
pub fn modifier_bits_of(m: Modifiers) -> (bits: u32)
    ensures
        bits == modifier_bits(m),
        bits <= 7,
        (bits & MOD_CTRL != 0) == m.ctrl,
        (bits & MOD_ALT != 0) == m.alt,
        (bits & MOD_SHIFT != 0) == m.shift,
{
    let mut bits: u32 = 0;
    if m.ctrl {
        bits = bits | MOD_CTRL;
    }
    let after_ctrl: u32 = bits;
    if m.alt {
        bits = bits | MOD_ALT;
    }
    let after_alt: u32 = bits;
    if m.shift {
        bits = bits | MOD_SHIFT;
    }
    proof {
        assert(0u32 | 1u32 == 1u32) by (bit_vector);
        assert(after_ctrl | 2u32 == after_ctrl + 2) by (bit_vector)
            requires
                after_ctrl <= 1,
        ;
        assert(after_alt | 4u32 == after_alt + 4) by (bit_vector)
            requires
                after_alt <= 3,
        ;
        lemma_modifier_bits_tell_modifiers(m);
    }
    bits
}

/// Turns one terminal event into the record for the caller.
pub fn decode(event: &TerminalEvent) -> (record: Option<RtEvent>)
    ensures
        record == decoded(*event),
{
    match event {
        TerminalEvent::Key(input) => match input.phase {
            KeyPhase::Press => Some(
                RtEvent {
                    kind: KIND_KEY,
                    code: key_code_of(input.key),
                    modifiers: modifier_bits_of(input.modifiers),
                },
            ),
            _ => None,
        },
        TerminalEvent::Other => None,
    }
}

/// Each modifier can be read back from its own bit of the bit-set, whatever
/// the other two are; and the bit-set uses the three low bits only.
pub proof fn lemma_modifier_bits_tell_modifiers(m: Modifiers)
    ensures
        modifier_bits(m) <= 7,
        (modifier_bits(m) & MOD_CTRL != 0) == m.ctrl,
        (modifier_bits(m) & MOD_ALT != 0) == m.alt,
        (modifier_bits(m) & MOD_SHIFT != 0) == m.shift,
{
    let bits = modifier_bits(m);
    assert(bits <= 7 ==> ((bits & 1 != 0) == (bits == 1 || bits == 3 || bits == 5 || bits == 7)))
        by (bit_vector);
    assert(bits <= 7 ==> ((bits & 2 != 0) == (bits == 2 || bits == 3 || bits == 6 || bits == 7)))
        by (bit_vector);
    assert(bits <= 7 ==> ((bits & 4 != 0) == (bits >= 4))) by (bit_vector);
}

/// A pressed character key is reported as a key event whose code is the
/// character's code point, whatever modifiers are held with it.
pub proof fn lemma_char_press_reports_code_point(c: char, m: Modifiers)
    ensures
        decoded(
            TerminalEvent::Key(KeyInput { key: Key::Char(c), modifiers: m, phase: KeyPhase::Press }),
        ) matches Some(record) && record.kind == 1 && record.code == c as u32,
{
}

/// The modifier bit-set of a key press does not depend on the key: two
/// presses with the same modifiers carry the same bit-set, and Control, Alt
/// and Shift together give 7 under every key.
pub proof fn lemma_modifiers_independent_of_key(first: Key, second: Key, m: Modifiers)
    ensures
        press_record(first, m).modifiers == press_record(second, m).modifiers,
        m.ctrl && m.alt && m.shift ==> press_record(first, m).modifiers == 7,
        !m.ctrl && !m.alt && !m.shift ==> press_record(first, m).modifiers == 0,
{
}

/// The six named keys have six different codes, none of them 0, and the
/// arrows take the codes 1001 to 1004.
pub proof fn lemma_named_keys_have_distinct_codes(first: Key, second: Key)
    requires
        !(first is Char) && !(first is Other),
        !(second is Char) && !(second is Other),
    ensures
        key_code(first) == key_code(second) ==> first == second,
        key_code(first) != 0,
        first is Up || first is Down || first is Left || first is Right <==> 1001 <= key_code(first)
            <= 1004,
{
}

} // verus!
