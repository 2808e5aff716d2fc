use pxl::events::{
    collect_events, translate_event, Button, ButtonState, Event, PlatformEvent, PlatformKey,
};

#[test]
fn arrow_keys_and_space_become_buttons() {
    assert_eq!(
        translate_event(&PlatformEvent::KeyboardInput { key: PlatformKey::Up, pressed: true }),
        Some(Event::Button { button: Button::Up, state: ButtonState::Pressed })
    );
    assert_eq!(
        translate_event(&PlatformEvent::KeyboardInput {
            key: PlatformKey::Space,
            pressed: false,
        }),
        Some(Event::Button { button: Button::Action, state: ButtonState::Released })
    );
    assert_eq!(
        translate_event(&PlatformEvent::KeyboardInput {
            key: PlatformKey::Left,
            pressed: true,
        }),
        Some(Event::Button { button: Button::Left, state: ButtonState::Pressed })
    );
}

#[test]
fn unrecognized_keys_produce_no_event() {
    assert_eq!(
        translate_event(&PlatformEvent::KeyboardInput {
            key: PlatformKey::Other,
            pressed: true,
        }),
        None
    );
    assert_eq!(translate_event(&PlatformEvent::Other), None);
}

#[test]
fn characters_become_key_events() {
    assert_eq!(
        translate_event(&PlatformEvent::ReceivedCharacter { character: ' ' }),
        Some(Event::Key { character: ' ' })
    );
}

#[test]
fn draining_reports_close_and_last_resize() {
    let raw = vec![
        PlatformEvent::ReceivedCharacter { character: 'a' },
        PlatformEvent::CloseRequested,
        PlatformEvent::Resized { width: 10, height: 20 },
        PlatformEvent::KeyboardInput { key: PlatformKey::Other, pressed: true },
        PlatformEvent::Resized { width: 30, height: 40 },
    ];
    let mut events: Vec<Event> = Vec::new();
    let (close, new_size) = collect_events(&raw, &mut events);
    assert!(close);
    assert_eq!(new_size, Some((30, 40)));
    assert_eq!(events, vec![Event::Key { character: 'a' }]);
}

#[test]
fn draining_without_close_or_resize() {
    let raw = vec![PlatformEvent::KeyboardInput { key: PlatformKey::Down, pressed: true }];
    let mut events: Vec<Event> = Vec::new();
    let (close, new_size) = collect_events(&raw, &mut events);
    assert!(!close);
    assert_eq!(new_size, None);
    assert_eq!(
        events,
        vec![Event::Button { button: Button::Down, state: ButtonState::Pressed }]
    );
}
