//! Input from the keyboard and from at most one gamepad, folded into what the
//! movement controller reads.

use vstd::prelude::*;

verus! {

/// The analog stick must be pushed past this many thousandths of full
/// deflection before it counts.
pub const STICK_DEADZONE: i32 = 300;

/// Full deflection of an analog axis, in thousandths.
pub const FULL_DEFLECTION: i32 = 1000;

/// The keys that move the character, as the keyboard reports them this tick.
#[derive(Clone, Copy, Debug, PartialEq, Eq, Structural)]
pub struct KeyboardInput {
    pub up_just_pressed: bool,
    pub space_just_pressed: bool,
    pub left_pressed: bool,
    pub right_pressed: bool,
    pub down_pressed: bool,
    pub down_just_pressed: bool,
}

/// The buttons and stick of the active gamepad this tick. The stick's
/// horizontal axis counts thousandths of full deflection, `None` where the
/// pad does not report it.
#[derive(Clone, Copy, Debug, PartialEq, Eq, Structural)]
pub struct GamepadInput {
    pub east_just_pressed: bool,
    pub dpad_left_pressed: bool,
    pub dpad_right_pressed: bool,
    pub dpad_down_pressed: bool,
    pub dpad_down_just_pressed: bool,
    pub left_stick_x: Option<i32>,
}

/// The movement intents of one tick. `stick_x` is the stick deflection in
/// thousandths when it is past the dead zone, and 0 otherwise.
#[derive(Clone, Copy, Debug, PartialEq, Eq, Structural)]
pub struct MovementInput {
    pub jump_pressed: bool,
    pub left_pressed: bool,
    pub right_pressed: bool,
    pub down_pressed: bool,
    pub down_just_pressed: bool,
    pub stick_x: i32,
}

/// A gamepad that is connected or disconnected.
#[derive(Clone, Copy, Debug, PartialEq, Eq, Structural)]
pub struct GamepadConnection {
    pub gamepad: usize,
    pub connected: bool,
}

/// The stick deflection of `pad` when it is past the dead zone.
pub open spec fn stick_of(pad: Option<GamepadInput>) -> int {
    match pad {
        Some(p) => match p.left_stick_x {
            Some(x) => if x < -STICK_DEADZONE || x > STICK_DEADZONE { x as int } else { 0 },
            None => 0,
        },
        None => 0,
    }
}

/// Folds the keyboard and the gamepad into one set of intents. Each gamepad
/// button toggles the matching key (exclusive or), and a stick pushed past
/// the dead zone to one side presses that side.
pub fn combine_input(keys: KeyboardInput, pad: Option<GamepadInput>) -> (m: MovementInput)
    requires
        match pad {
            Some(p) => match p.left_stick_x {
                Some(x) => -FULL_DEFLECTION <= x <= FULL_DEFLECTION,
                None => true,
            },
            None => true,
        },
    ensures
        m.stick_x == stick_of(pad),
        -FULL_DEFLECTION <= m.stick_x <= FULL_DEFLECTION,
        match pad {
            None => {
                &&& m.jump_pressed == (keys.up_just_pressed || keys.space_just_pressed)
                &&& m.left_pressed == keys.left_pressed
                &&& m.right_pressed == keys.right_pressed
                &&& m.down_pressed == keys.down_pressed
                &&& m.down_just_pressed == keys.down_just_pressed
            },
            Some(p) => {
                &&& m.jump_pressed == ((keys.up_just_pressed || keys.space_just_pressed) != p.east_just_pressed)
                &&& m.left_pressed == ((keys.left_pressed != p.dpad_left_pressed) || stick_of(pad) < 0)
                &&& m.right_pressed == ((keys.right_pressed != p.dpad_right_pressed) || stick_of(pad) > 0)
                &&& m.down_pressed == (keys.down_pressed != p.dpad_down_pressed)
                &&& m.down_just_pressed == (keys.down_just_pressed != p.dpad_down_just_pressed)
            },
        },
{
    let mut m = MovementInput {
        jump_pressed: keys.up_just_pressed || keys.space_just_pressed,
        left_pressed: keys.left_pressed,
        right_pressed: keys.right_pressed,
        down_pressed: keys.down_pressed,
        down_just_pressed: keys.down_just_pressed,
        stick_x: 0,
    };
    if let Some(p) = pad {
        m.jump_pressed = m.jump_pressed != p.east_just_pressed;
        m.left_pressed = m.left_pressed != p.dpad_left_pressed;
        m.right_pressed = m.right_pressed != p.dpad_right_pressed;
        m.down_pressed = m.down_pressed != p.dpad_down_pressed;
        m.down_just_pressed = m.down_just_pressed != p.dpad_down_just_pressed;
        if let Some(x) = p.left_stick_x {
            if x < -STICK_DEADZONE {
                m.stick_x = x;
                m.left_pressed = true;
            } else if x > STICK_DEADZONE {
                m.stick_x = x;
                m.right_pressed = true;
            }
        }
    }
    m
}

/// The active gamepad after `event`: the first pad to connect while none is
/// active becomes active, and the active pad is dropped when it disconnects.
pub fn track_gamepad(current: Option<usize>, event: GamepadConnection) -> (r: Option<usize>)
    ensures
        r == if event.connected {
            if current is None { Some(event.gamepad) } else { current }
        } else if current == Some(event.gamepad) {
            None
        } else {
            current
        },
{
    if event.connected {
        if current.is_none() {
            Some(event.gamepad)
        } else {
            current
        }
    } else {
        match current {
            Some(g) if g == event.gamepad => None,
            _ => current,
        }
    }
}

} // verus!
