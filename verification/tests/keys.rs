use crossterm::event::{Event, KeyCode, KeyEvent, KeyEventKind, KeyModifiers};
use ratatat::{
    decode, key_code_of, modifier_bits_of, observe, Key, KeyInput, KeyPhase, Modifiers, RtEvent,
    TerminalEvent,
};

fn none() -> Modifiers {
    Modifiers { ctrl: false, alt: false, shift: false }
}

fn press(key: Key, modifiers: Modifiers) -> TerminalEvent {
    TerminalEvent::Key(KeyInput { key, modifiers, phase: KeyPhase::Press })
}

fn typed(code: KeyCode, modifiers: KeyModifiers) -> Option<RtEvent> {
    decode(&observe(&Event::Key(KeyEvent::new(code, modifiers))))
}

#[test]
fn character_keys_report_their_code_point() {
    for c in ['a', 'Z', '0', ' ', '~', '\u{e9}', '\u{20ac}', '\u{1f600}', '\u{10ffff}', '\0'] {
        let record = decode(&press(Key::Char(c), none())).unwrap();
        assert_eq!(record.kind, 1);
        assert_eq!(record.code, c as u32);
        assert_eq!(record.modifiers, 0);
    }
}

#[test]
fn typed_characters_report_their_code_point() {
    for c in ['a', 'q', 'Z', '9', '\u{e9}', '\u{1f600}'] {
        assert_eq!(
            typed(KeyCode::Char(c), KeyModifiers::NONE),
            Some(RtEvent { kind: 1, code: c as u32, modifiers: 0 })
        );
    }
    assert_eq!(
        typed(KeyCode::Char('a'), KeyModifiers::NONE),
        Some(RtEvent { kind: 1, code: 97, modifiers: 0 })
    );
}

#[test]
fn named_keys_report_their_codes_without_modifiers() {
    let expected = [
        (KeyCode::Esc, 0x1B),
        (KeyCode::Enter, 0x0A),
        (KeyCode::Up, 1001),
        (KeyCode::Down, 1002),
        (KeyCode::Left, 1003),
        (KeyCode::Right, 1004),
    ];
    for (code, number) in expected {
        assert_eq!(
            typed(code, KeyModifiers::NONE),
            Some(RtEvent { kind: 1, code: number, modifiers: 0 })
        );
    }
}

#[test]
fn key_codes_are_the_fixed_ones() {
    assert_eq!(key_code_of(Key::Esc), 27);
    assert_eq!(key_code_of(Key::Enter), 10);
    assert_eq!(key_code_of(Key::Up), 1001);
    assert_eq!(key_code_of(Key::Down), 1002);
    assert_eq!(key_code_of(Key::Left), 1003);
    assert_eq!(key_code_of(Key::Right), 1004);
    assert_eq!(key_code_of(Key::Other), 0);
    assert_eq!(key_code_of(Key::Char('\n')), 10);
    assert_eq!(key_code_of(Key::Char('\u{3e9}')), 1001);
}

#[test]
fn other_special_keys_report_code_zero() {
    let others = [
        KeyCode::Tab,
        KeyCode::BackTab,
        KeyCode::Backspace,
        KeyCode::Delete,
        KeyCode::Insert,
        KeyCode::Home,
        KeyCode::End,
        KeyCode::PageUp,
        KeyCode::PageDown,
        KeyCode::F(1),
        KeyCode::F(12),
        KeyCode::Null,
        KeyCode::CapsLock,
        KeyCode::Menu,
    ];
    for code in others {
        assert_eq!(observe(&Event::Key(KeyEvent::new(code, KeyModifiers::NONE))), press(Key::Other, none()));
        assert_eq!(
            typed(code, KeyModifiers::SHIFT),
            Some(RtEvent { kind: 1, code: 0, modifiers: 4 })
        );
    }
}

#[test]
fn control_alt_shift_give_seven_under_every_key() {
    let all = KeyModifiers::CONTROL | KeyModifiers::ALT | KeyModifiers::SHIFT;
    assert_eq!(typed(KeyCode::Char('a'), all), Some(RtEvent { kind: 1, code: 97, modifiers: 7 }));
    assert_eq!(typed(KeyCode::Esc, all), Some(RtEvent { kind: 1, code: 27, modifiers: 7 }));
    assert_eq!(typed(KeyCode::Left, all), Some(RtEvent { kind: 1, code: 1003, modifiers: 7 }));
    assert_eq!(typed(KeyCode::Tab, all), Some(RtEvent { kind: 1, code: 0, modifiers: 7 }));
}

#[test]
fn each_modifier_has_its_own_bit() {
    assert_eq!(typed(KeyCode::Char('x'), KeyModifiers::CONTROL).unwrap().modifiers, 1);
    assert_eq!(typed(KeyCode::Char('x'), KeyModifiers::ALT).unwrap().modifiers, 2);
    assert_eq!(typed(KeyCode::Char('x'), KeyModifiers::SHIFT).unwrap().modifiers, 4);
    assert_eq!(
        typed(KeyCode::Char('x'), KeyModifiers::CONTROL | KeyModifiers::ALT).unwrap().modifiers,
        3
    );
    assert_eq!(
        typed(KeyCode::Char('x'), KeyModifiers::CONTROL | KeyModifiers::SHIFT).unwrap().modifiers,
        5
    );
    assert_eq!(
        typed(KeyCode::Char('x'), KeyModifiers::ALT | KeyModifiers::SHIFT).unwrap().modifiers,
        6
    );
}

#[test]
fn modifier_bits_of_every_combination() {
    for ctrl in [false, true] {
        for alt in [false, true] {
            for shift in [false, true] {
                let bits = modifier_bits_of(Modifiers { ctrl, alt, shift });
                assert_eq!(bits, (ctrl as u32) | ((alt as u32) << 1) | ((shift as u32) << 2));
                for key in [Key::Char('a'), Key::Enter, Key::Right, Key::Other] {
                    let record = decode(&press(key, Modifiers { ctrl, alt, shift })).unwrap();
                    assert_eq!(record.modifiers, bits);
                }
            }
        }
    }
}

#[test]
fn modifiers_beyond_the_three_are_ignored() {
    let extra = KeyModifiers::SUPER | KeyModifiers::HYPER | KeyModifiers::META;
    assert_eq!(typed(KeyCode::Char('k'), extra), Some(RtEvent { kind: 1, code: 107, modifiers: 0 }));
    assert_eq!(
        typed(KeyCode::Char('k'), extra | KeyModifiers::ALT),
        Some(RtEvent { kind: 1, code: 107, modifiers: 2 })
    );
}

#[test]
fn observe_reads_key_phase_and_modifiers() {
    let event = Event::Key(KeyEvent::new_with_kind(
        KeyCode::Char('r'),
        KeyModifiers::CONTROL,
        KeyEventKind::Release,
    ));
    assert_eq!(
        observe(&event),
        TerminalEvent::Key(KeyInput {
            key: Key::Char('r'),
            modifiers: Modifiers { ctrl: true, alt: false, shift: false },
            phase: KeyPhase::Release,
        })
    );
    let event = Event::Key(KeyEvent::new_with_kind(
        KeyCode::Down,
        KeyModifiers::SHIFT | KeyModifiers::ALT,
        KeyEventKind::Repeat,
    ));
    assert_eq!(
        observe(&event),
        TerminalEvent::Key(KeyInput {
            key: Key::Down,
            modifiers: Modifiers { ctrl: false, alt: true, shift: true },
            phase: KeyPhase::Repeat,
        })
    );
}

#[test]
fn released_and_repeated_keys_are_dropped() {
    for kind in [KeyEventKind::Release, KeyEventKind::Repeat] {
        let event =
            Event::Key(KeyEvent::new_with_kind(KeyCode::Char('a'), KeyModifiers::NONE, kind));
        assert_eq!(decode(&observe(&event)), None);
    }
    for phase in [KeyPhase::Release, KeyPhase::Repeat] {
        let event = TerminalEvent::Key(KeyInput { key: Key::Enter, modifiers: none(), phase });
        assert_eq!(decode(&event), None);
    }
}

#[test]
fn events_that_are_no_key_are_dropped() {
    for event in [Event::FocusGained, Event::FocusLost, Event::Resize(80, 24)] {
        assert_eq!(observe(&event), TerminalEvent::Other);
        assert_eq!(decode(&observe(&event)), None);
    }
    assert_eq!(decode(&TerminalEvent::Other), None);
}
