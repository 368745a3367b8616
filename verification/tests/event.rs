use grepview::event::{Event, KeyCode, KeyEvent, KeyEventKind, CONTROL_BIT};

#[test]
fn new_key_event_is_a_press() {
    let event = KeyEvent::new(KeyCode::Char('x'), 0);
    assert_eq!(event.code, KeyCode::Char('x'));
    assert_eq!(event.modifiers, 0);
    assert_eq!(event.kind, KeyEventKind::Press);
    assert!(event.is_press());
}

#[test]
fn repeat_and_release_are_no_press() {
    let mut event = KeyEvent::new(KeyCode::Enter, 0);
    event.kind = KeyEventKind::Repeat;
    assert!(!event.is_press());
    event.kind = KeyEventKind::Release;
    assert!(!event.is_press());
}

#[test]
fn control_is_the_second_bit() {
    assert_eq!(CONTROL_BIT, 2);
    assert!(KeyEvent::new(KeyCode::Char('c'), 0b0000_0010).has_control());
    assert!(KeyEvent::new(KeyCode::Char('c'), 0b0000_0011).has_control());
    assert!(KeyEvent::new(KeyCode::Char('c'), 0b1111_1111).has_control());
    assert!(!KeyEvent::new(KeyCode::Char('c'), 0).has_control());
    assert!(!KeyEvent::new(KeyCode::Char('c'), 0b0000_0001).has_control());
    assert!(!KeyEvent::new(KeyCode::Char('c'), 0b0000_0100).has_control());
    assert!(!KeyEvent::new(KeyCode::Char('c'), 0b1111_1101).has_control());
}

#[test]
fn control_bit_is_that_of_the_terminal_layer() {
    assert_eq!(crossterm::event::KeyModifiers::CONTROL.bits(), CONTROL_BIT);
    for bits in 0..=255u8 {
        let expected = crossterm::event::KeyModifiers::from_bits_retain(bits)
            .contains(crossterm::event::KeyModifiers::CONTROL);
        assert_eq!(KeyEvent::new(KeyCode::Other, bits).has_control(), expected);
    }
}

#[test]
fn events_compare_by_value() {
    assert_eq!(Event::Resize(80, 24), Event::Resize(80, 24));
    assert_ne!(Event::Resize(80, 24), Event::Resize(24, 80));
    assert_ne!(Event::FocusGained, Event::FocusLost);
    assert_eq!(
        Event::Key(KeyEvent::new(KeyCode::Esc, 0)),
        Event::Key(KeyEvent::new(KeyCode::Esc, 0))
    );
}
