use ratatat::{
    rt_init, rt_poll_event, Context, Key, KeyInput, KeyPhase, Modifiers, PollAction, PollSignal,
    PollState, RtEvent, TerminalEvent,
};

fn key(key: Key, ctrl: bool, alt: bool, shift: bool, phase: KeyPhase) -> TerminalEvent {
    TerminalEvent::Key(KeyInput { key, modifiers: Modifiers { ctrl, alt, shift }, phase })
}

/// Runs a whole poll against a terminal that answers `ready` and `read`, and
/// counts the waits and reads that were asked for.
fn run(
    session: Option<&Context>,
    timeout_ms: u32,
    ready: Option<bool>,
    read: Option<TerminalEvent>,
) -> (Option<RtEvent>, Vec<PollAction>) {
    let mut asked = Vec::new();
    let (mut state, mut action) =
        rt_poll_event(session, PollState::Idle, PollSignal::Begin { timeout_ms });
    loop {
        asked.push(action);
        let signal = match action {
            PollAction::Wait { .. } => PollSignal::Polled(ready),
            PollAction::Read => PollSignal::Read(read),
            PollAction::Finish(record) => {
                assert_eq!(state, PollState::Done);
                return (record, asked);
            }
        };
        let next = rt_poll_event(session, state, signal);
        state = next.0;
        action = next.1;
    }
}

#[test]
fn poll_reports_a_typed_character() {
    let (ctx, _) = rt_init();
    for c in ['a', 'B', '7', '\u{fc}', '\u{4e2d}'] {
        let event = key(Key::Char(c), false, false, false, KeyPhase::Press);
        let (record, asked) = run(Some(&ctx), 50, Some(true), Some(event));
        assert_eq!(record, Some(RtEvent { kind: 1, code: c as u32, modifiers: 0 }));
        assert_eq!(
            asked,
            vec![
                PollAction::Wait { millis: 50 },
                PollAction::Read,
                PollAction::Finish(Some(RtEvent { kind: 1, code: c as u32, modifiers: 0 })),
            ]
        );
    }
}

#[test]
fn poll_reports_named_keys_with_modifiers() {
    let ctx = Context {};
    let event = key(Key::Up, true, false, true, KeyPhase::Press);
    let (record, _) = run(Some(&ctx), 10, Some(true), Some(event));
    assert_eq!(record, Some(RtEvent { kind: 1, code: 1001, modifiers: 5 }));
    let event = key(Key::Char('a'), true, true, true, KeyPhase::Press);
    let (record, _) = run(Some(&ctx), 10, Some(true), Some(event));
    assert_eq!(record, Some(RtEvent { kind: 1, code: 97, modifiers: 7 }));
}

#[test]
fn poll_without_input_returns_no_event_and_reads_nothing() {
    let ctx = Context {};
    let event = key(Key::Char('a'), false, false, false, KeyPhase::Press);
    let (record, asked) = run(Some(&ctx), 50, Some(false), Some(event));
    assert_eq!(record, None);
    assert_eq!(asked, vec![PollAction::Wait { millis: 50 }, PollAction::Finish(None)]);
}

#[test]
fn poll_that_cannot_ask_the_terminal_returns_no_event() {
    let ctx = Context {};
    let (record, asked) = run(Some(&ctx), 50, None, None);
    assert_eq!(record, None);
    assert_eq!(asked, vec![PollAction::Wait { millis: 50 }, PollAction::Finish(None)]);
}

#[test]
fn poll_waits_for_the_time_given() {
    let ctx = Context {};
    for timeout_ms in [0u32, 1, 50, 1000, u32::MAX] {
        assert_eq!(
            rt_poll_event(Some(&ctx), PollState::Idle, PollSignal::Begin { timeout_ms }),
            (PollState::Waiting, PollAction::Wait { millis: timeout_ms as u64 })
        );
    }
    assert_eq!(
        rt_poll_event(Some(&ctx), PollState::Idle, PollSignal::Begin { timeout_ms: u32::MAX }).1,
        PollAction::Wait { millis: 4294967295 }
    );
}

#[test]
fn poll_drops_what_is_no_key_press() {
    let ctx = Context {};
    let dropped = [
        Some(TerminalEvent::Other),
        Some(key(Key::Char('a'), false, false, false, KeyPhase::Release)),
        Some(key(Key::Char('a'), false, false, false, KeyPhase::Repeat)),
        None,
    ];
    for read in dropped {
        let (record, asked) = run(Some(&ctx), 5, Some(true), read);
        assert_eq!(record, None);
        assert_eq!(
            asked,
            vec![PollAction::Wait { millis: 5 }, PollAction::Read, PollAction::Finish(None)]
        );
    }
}

#[test]
fn poll_without_a_session_does_nothing() {
    let event = key(Key::Char('a'), false, false, false, KeyPhase::Press);
    let (record, asked) = run(None, 50, Some(true), Some(event));
    assert_eq!(record, None);
    assert_eq!(asked, vec![PollAction::Finish(None)]);
    for state in [PollState::Idle, PollState::Waiting, PollState::Reading, PollState::Done] {
        assert_eq!(
            rt_poll_event(None, state, PollSignal::Read(Some(event))),
            (PollState::Done, PollAction::Finish(None))
        );
    }
}

#[test]
fn poll_ends_on_a_signal_out_of_turn() {
    let ctx = Context {};
    let event = key(Key::Char('a'), false, false, false, KeyPhase::Press);
    let finished = (PollState::Done, PollAction::Finish(None));
    assert_eq!(rt_poll_event(Some(&ctx), PollState::Idle, PollSignal::Polled(Some(true))), finished);
    assert_eq!(rt_poll_event(Some(&ctx), PollState::Idle, PollSignal::Read(Some(event))), finished);
    assert_eq!(
        rt_poll_event(Some(&ctx), PollState::Waiting, PollSignal::Begin { timeout_ms: 1 }),
        finished
    );
    assert_eq!(rt_poll_event(Some(&ctx), PollState::Waiting, PollSignal::Read(Some(event))), finished);
    assert_eq!(rt_poll_event(Some(&ctx), PollState::Reading, PollSignal::Polled(Some(true))), finished);
    assert_eq!(rt_poll_event(Some(&ctx), PollState::Done, PollSignal::Read(Some(event))), finished);
    assert_eq!(
        rt_poll_event(Some(&ctx), PollState::Done, PollSignal::Begin { timeout_ms: 1 }),
        finished
    );
}
