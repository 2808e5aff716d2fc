//! Input events, and the translation of raw platform window events into the
//! typed events handed to programs.

use vstd::prelude::*;

verus! {

/// Abstract input buttons.
///
/// The arrow keys produce `Left`, `Right`, `Up` and `Down` events, and the
/// spacebar produces `Action` events.
#[derive(Copy, Clone, Debug, PartialEq, Eq, Hash)]
pub enum Button {
    /// Left button
    Left,
    /// Right button
    Right,
    /// Up button
    Up,
    /// Down button
    Down,
    /// Action button
    Action,
}

/// The state of an input button.
#[derive(Copy, Clone, Debug, PartialEq, Eq, Hash)]
pub enum ButtonState {
    /// The button was pressed
    Pressed,
    /// The button was released
    Released,
}

/// Input events handed to a program's `tick`.
#[derive(Copy, Clone, Debug, PartialEq)]
pub enum Event {
    /// A button was pressed or released
    Button {
        /// The button in question
        button: Button,
        /// Whether it was pressed or released
        state: ButtonState,
    },
    /// A text input event
    Key {
        /// The input character
        character: char,
    },
}

/// A key on the platform keyboard, reduced to the keys the runtime reacts
/// to; every other key is `Other`.
#[derive(Copy, Clone, Debug, PartialEq)]
pub enum PlatformKey {
    /// The up arrow key
    Up,
    /// The down arrow key
    Down,
    /// The left arrow key
    Left,
    /// The right arrow key
    Right,
    /// The spacebar
    Space,
    /// Any other key
    Other,
}

/// A raw window event as reported by the platform, reduced to plain values.
#[derive(Copy, Clone, Debug, PartialEq)]
pub enum PlatformEvent {
    /// The user asked to close the window
    CloseRequested,
    /// The window was resized; the new size is in physical pixels
    Resized {
        /// New width in physical pixels
        width: u32,
        /// New height in physical pixels
        height: u32,
    },
    /// A key changed state
    KeyboardInput {
        /// Which key
        key: PlatformKey,
        /// True on press, false on release
        pressed: bool,
    },
    /// A character of text input arrived
    ReceivedCharacter {
        /// The input character
        character: char,
    },
    /// Any other window event; the runtime ignores these
    Other,
}

/// The button, if any, that a platform key maps to.
pub open spec fn button_for_key(key: PlatformKey) -> Option<Button> {
    match key {
        PlatformKey::Up => Some(Button::Up),
        PlatformKey::Down => Some(Button::Down),
        PlatformKey::Left => Some(Button::Left),
        PlatformKey::Right => Some(Button::Right),
        PlatformKey::Space => Some(Button::Action),
        PlatformKey::Other => None,
    }
}

/// The typed event, if any, that a raw platform event produces.
pub open spec fn event_for(ev: PlatformEvent) -> Option<Event> {
    match ev {
        PlatformEvent::KeyboardInput { key, pressed } => match button_for_key(key) {
            Some(button) => Some(
                Event::Button {
                    button,
                    state: if pressed {
                        ButtonState::Pressed
                    } else {
                        ButtonState::Released
                    },
                },
            ),
            None => None,
        },
        PlatformEvent::ReceivedCharacter { character } => Some(Event::Key { character }),
        _ => None,
    }
}

/// The typed events produced by a sequence of raw events, in order;
/// unrecognized keys and ignored events contribute nothing.
pub open spec fn translated_events(evs: Seq<PlatformEvent>) -> Seq<Event>
    decreases evs.len(),
{
    if evs.len() == 0 {
        Seq::empty()
    } else {
        translated_events(evs.drop_last()) + match event_for(evs.last()) {
            Some(e) => seq![e],
            None => Seq::empty(),
        }
    }
}

/// Whether some raw event in the sequence asks to close the window.
pub open spec fn close_requested(evs: Seq<PlatformEvent>) -> bool {
    exists|i: int| 0 <= i < evs.len() && evs[i] is CloseRequested
}

/// The size carried by the last resize event, if any.
pub open spec fn last_resize(evs: Seq<PlatformEvent>) -> Option<(u32, u32)>
    decreases evs.len(),
{
    if evs.len() == 0 {
        None
    } else {
        match evs.last() {
            PlatformEvent::Resized { width, height } => Some((width, height)),
            _ => last_resize(evs.drop_last()),
        }
    }
}

/// Translate one raw platform event.
pub fn translate_event(ev: &PlatformEvent) -> (r: Option<Event>)
    ensures
        r == event_for(*ev),
{
    match ev {
        PlatformEvent::KeyboardInput { key, pressed } => {
            let button = match key {
                PlatformKey::Up => Button::Up,
                PlatformKey::Down => Button::Down,
                PlatformKey::Left => Button::Left,
                PlatformKey::Right => Button::Right,
                PlatformKey::Space => Button::Action,
                PlatformKey::Other => {
                    return None;
                },
            };
            let state = if *pressed {
                ButtonState::Pressed
            } else {
                ButtonState::Released
            };
            Some(Event::Button { button, state })
        },
        PlatformEvent::ReceivedCharacter { character } => Some(
            Event::Key { character: *character },
        ),
        _ => None,
    }
}

/// Drain a batch of raw platform events: refill `events` with the typed
/// events they produce, and report whether a close was requested and the
/// size of the last window resize, if any.
pub fn collect_events(raw: &Vec<PlatformEvent>, events: &mut Vec<Event>) -> (r: (
    bool,
    Option<(u32, u32)>,
))
    ensures
        final(events)@ == translated_events(raw@),
        r.0 == close_requested(raw@),
        r.1 == last_resize(raw@),
{
    events.clear();
    let mut quit: bool = false;
    let mut new_size: Option<(u32, u32)> = None;
    let mut i: usize = 0;
    while i < raw.len()
        invariant
            0 <= i <= raw.len(),
            events@ == translated_events(raw@.subrange(0, i as int)),
            quit == close_requested(raw@.subrange(0, i as int)),
            new_size == last_resize(raw@.subrange(0, i as int)),
        decreases raw.len() - i,
    {
        let ghost prefix = raw@.subrange(0, i as int);
        let ev = raw[i];
        match translate_event(&ev) {
            Some(e) => events.push(e),
            None => (),
        }
        match ev {
            PlatformEvent::CloseRequested => {
                quit = true;
            },
            PlatformEvent::Resized { width, height } => {
                new_size = Some((width, height));
            },
            _ => (),
        }
        i = i + 1;
        proof {
            let next = raw@.subrange(0, i as int);
            assert(next.drop_last() =~= prefix);
            assert(next.last() == ev);
            if !(ev is CloseRequested) {
                assert(close_requested(next) == close_requested(prefix)) by {
                    if close_requested(prefix) {
                        let j = choose|j: int|
                            0 <= j < prefix.len() && prefix[j] is CloseRequested;
                        assert(next[j] is CloseRequested);
                    }
                    if close_requested(next) {
                        let j = choose|j: int| 0 <= j < next.len() && next[j] is CloseRequested;
                        assert(prefix[j] is CloseRequested);
                    }
                }
            }
        }
    }
    proof {
        assert(raw@.subrange(0, raw@.len() as int) =~= raw@);
    }
    (quit, new_size)
}

} // verus!
