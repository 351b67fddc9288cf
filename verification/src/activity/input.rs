//! Which raw input events count as user activity.
use vstd::prelude::*;

verus! {

/// The kinds of input event that the platform hooks deliver.
#[derive(Clone, Copy, Debug, PartialEq, Eq, Structural)]
pub enum InputEvent {
    KeyDown,
    KeyUp,
    MouseMoved,
    LeftMouseDown,
    LeftMouseUp,
    RightMouseDown,
    RightMouseUp,
    OtherMouseDown,
    OtherMouseUp,
    ScrollWheel,
    Other,
}

/// The Windows message number of a key press.
pub const WM_KEYDOWN: usize = 0x0100;

/// A key press, a pointer move, a button press or a scroll: releases and
/// other events do not show that the user is at the machine.
pub open spec fn is_user_activity(event: InputEvent) -> bool {
    match event {
        InputEvent::KeyDown => true,
        InputEvent::MouseMoved => true,
        InputEvent::LeftMouseDown => true,
        InputEvent::RightMouseDown => true,
        InputEvent::OtherMouseDown => true,
        InputEvent::ScrollWheel => true,
        _ => false,
    }
}

/// Whether an event from the event tap is reported as activity.
pub fn counts_as_activity(event: InputEvent) -> (b: bool)
    ensures
        b == is_user_activity(event),
{
    match event {
        InputEvent::KeyDown => true,
        InputEvent::MouseMoved => true,
        InputEvent::LeftMouseDown => true,
        InputEvent::RightMouseDown => true,
        InputEvent::OtherMouseDown => true,
        InputEvent::ScrollWheel => true,
        _ => false,
    }
}

/// Whether a low-level keyboard hook call is reported as activity: only a
/// key press, and only when the hook code says the message is to be
/// processed (it is not negative).
pub fn keyboard_hook_counts(code: i32, w_param: usize) -> (b: bool)
    ensures
        b == (code >= 0 && w_param == WM_KEYDOWN),
{
    code >= 0 && w_param == WM_KEYDOWN
}

/// Whether a low-level mouse hook call is reported as activity: every
/// mouse message whose hook code is not negative.
pub fn mouse_hook_counts(code: i32) -> (b: bool)
    ensures
        b == (code >= 0),
{
    code >= 0
}

} // verus!
