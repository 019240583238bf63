//! The character controller: from input, contact state and stamina to the
//! velocity the physics engine should take on.
//!
//! Velocities count thousandths of a world unit per second; speeds below are
//! in whole world units per second and scaled by `MILLI`.

use crate::contact::ContactDetection;
use crate::controls::{MovementInput, FULL_DEFLECTION};
use vstd::prelude::*;

verus! {

/// Thousandths in one world unit.
pub const MILLI: i64 = 1000;

/// Horizontal speed at full intent.
pub const PLAYER_SPEED: i64 = 250;

/// Upward speed of a jump from the ground.
pub const JUMP_SPEED: i64 = 500;

/// Upward speed of a jump off a wall or in the air.
pub const AIR_JUMP_SPEED: i64 = 400;

/// Horizontal speed away from the wall that a wall jump gives.
pub const WALL_JUMP_KICK: i64 = 300;

/// Downward speed of a fast fall.
pub const FAST_FALL_SPEED: i64 = 800;

/// Fastest downward speed while sliding down a wall.
pub const WALL_SLIDE_SPEED: i64 = 15;

/// Share of horizontal speed, in percent, kept each tick in the air without
/// horizontal intent.
pub const AIR_DRAG_PERCENT: i64 = 97;

/// Air jumps available between two touches of the ground.
pub const MAX_STAMINA: u32 = 1;

/// Friction coefficient of the character on the ground, in thousandths.
pub const GROUND_FRICTION: u32 = 800;

/// How pressing toward a touched wall is handled.
#[derive(Clone, Copy, Debug, PartialEq, Eq, Structural)]
pub enum WallPolicy {
    /// The intent stands, and the fall along the wall is capped at
    /// `WALL_SLIDE_SPEED`.
    SlideClamp,
    /// The intent toward the wall is dropped.
    SuppressIntent,
}

/// The controller's policy choices. With `dynamic_friction` the controller
/// also sets the character's friction: `GROUND_FRICTION` on the ground and
/// none against a wall in the air.
#[derive(Clone, Copy, Debug, PartialEq, Eq, Structural)]
pub struct MovementConfig {
    pub wall_policy: WallPolicy,
    pub dynamic_friction: bool,
}

/// A velocity in thousandths of a world unit per second.
#[derive(Clone, Copy, Debug, PartialEq, Eq, Structural)]
pub struct Velocity {
    pub x: i64,
    pub y: i64,
}

/// The air jumps left to a character, never more than `MAX_STAMINA`.
#[derive(Clone, Copy, Debug)]
pub struct Stamina {
    value: u32,
}

/// Which jump, if any, a tick makes.
#[derive(Clone, Copy, Debug, PartialEq, Eq, Structural)]
pub enum JumpKind {
    NoJump,
    Ground,
    LeftWall,
    RightWall,
    Air,
}

impl Stamina {
    #[verifier::type_invariant]
    spec fn inv(&self) -> bool {
        self.value <= MAX_STAMINA
    }

    pub closed spec fn spec_value(&self) -> nat {
        self.value as nat
    }

    /// Stamina for `MAX_STAMINA` air jumps.
    pub fn full() -> (s: Stamina)
        ensures
            s.spec_value() == MAX_STAMINA,
    {
        Stamina { value: MAX_STAMINA }
    }

    /// Stamina for `value` air jumps.
    pub fn new(value: u32) -> (s: Stamina)
        requires
            value <= MAX_STAMINA,
        ensures
            s.spec_value() == value,
    {
        Stamina { value }
    }

    pub fn value(&self) -> (r: u32)
        ensures
            r == self.spec_value(),
            r <= MAX_STAMINA,
    {
        proof {
            use_type_invariant(self);
        }
        self.value
    }
}

impl Default for Stamina {
    /// Full stamina.
    fn default() -> (s: Stamina)
        ensures
            s.spec_value() == MAX_STAMINA,
    {
        Stamina::full()
    }
}

/// `v` times 1.3, rounded toward zero.
pub open spec fn gain(v: int) -> int {
    if v >= 0 {
        v * 13 / 10
    } else {
        -((-v) * 13 / 10)
    }
}

/// The push, in thousandths, of a direction that is `pressed`, where `stick`
/// is the stick's deflection toward that direction (0 when it is not used):
/// full with a button, the deflection times 1.3 capped at full with the
/// stick.
pub open spec fn push(pressed: bool, stick: int) -> int {
    if !pressed {
        0
    } else if stick != 0 {
        if gain(stick) < FULL_DEFLECTION {
            gain(stick)
        } else {
            FULL_DEFLECTION as int
        }
    } else {
        FULL_DEFLECTION as int
    }
}

/// The push to the left, after the wall policy.
pub open spec fn left_push(input: MovementInput, contact: ContactDetection, config: MovementConfig) -> int {
    if config.wall_policy == WallPolicy::SuppressIntent && contact.on_left {
        0
    } else {
        push(input.left_pressed, -input.stick_x)
    }
}

/// The push to the right, after the wall policy.
pub open spec fn right_push(input: MovementInput, contact: ContactDetection, config: MovementConfig) -> int {
    if config.wall_policy == WallPolicy::SuppressIntent && contact.on_right {
        0
    } else {
        push(input.right_pressed, input.stick_x as int)
    }
}

/// `v` held to `-cap..=cap`.
pub open spec fn clamp(v: int, cap: int) -> int {
    if v < -cap {
        -cap
    } else if v > cap {
        cap
    } else {
        v
    }
}

/// `x` slowed by air drag, rounded toward zero.
pub open spec fn drag(x: int) -> int {
    if x >= 0 {
        x * AIR_DRAG_PERCENT / 100
    } else {
        -((-x) * AIR_DRAG_PERCENT / 100)
    }
}

/// Horizontal velocity from intent: with any push, the difference of the
/// pushes at `PLAYER_SPEED`, halved at most while crouching on the ground;
/// without, `x` slowed by air drag in the air and kept on the ground.
pub open spec fn steered_x(input: MovementInput, contact: ContactDetection, config: MovementConfig, x: int) -> int {
    let l = left_push(input, contact, config);
    let r = right_push(input, contact, config);
    if r > 0 || l > 0 {
        let cap = if contact.on_ground && input.down_pressed { FULL_DEFLECTION / 2 } else { FULL_DEFLECTION as int };
        clamp(r - l, cap) * PLAYER_SPEED
    } else if !contact.on_ground {
        drag(x)
    } else {
        x
    }
}

/// Whether the character presses toward a wall that it touches.
pub open spec fn presses_into_wall(input: MovementInput, contact: ContactDetection) -> bool {
    (input.left_pressed && contact.on_left) || (input.right_pressed && contact.on_right)
}

/// Vertical velocity after the wall slide cap.
pub open spec fn slid_y(input: MovementInput, contact: ContactDetection, config: MovementConfig, y: int) -> int {
    let floor = -WALL_SLIDE_SPEED * MILLI;
    if config.wall_policy == WallPolicy::SlideClamp && presses_into_wall(input, contact) && y < floor {
        floor
    } else {
        y
    }
}

/// The jump of a tick with `stamina` air jumps left: from the ground first,
/// then off the left wall, off the right wall, and last in the air while
/// stamina lasts.
pub open spec fn jump_kind(input: MovementInput, contact: ContactDetection, stamina: int) -> JumpKind {
    if !input.jump_pressed {
        JumpKind::NoJump
    } else if contact.on_ground {
        JumpKind::Ground
    } else if contact.on_left {
        JumpKind::LeftWall
    } else if contact.on_right {
        JumpKind::RightWall
    } else if stamina > 0 {
        JumpKind::Air
    } else {
        JumpKind::NoJump
    }
}

/// A fast fall starts this tick.
pub open spec fn fast_falls(input: MovementInput, contact: ContactDetection) -> bool {
    input.down_just_pressed && !contact.on_ground
}

/// Horizontal velocity at the end of the tick. A wall jump kicks away from
/// the wall unless the character still presses toward it.
pub open spec fn next_x(input: MovementInput, contact: ContactDetection, config: MovementConfig, stamina: int, v: Velocity) -> int {
    if fast_falls(input, contact) {
        0
    } else {
        match jump_kind(input, contact, stamina) {
            JumpKind::LeftWall => if !input.left_pressed { WALL_JUMP_KICK * MILLI } else { steered_x(input, contact, config, v.x as int) },
            JumpKind::RightWall => if !input.right_pressed { -WALL_JUMP_KICK * MILLI } else { steered_x(input, contact, config, v.x as int) },
            _ => steered_x(input, contact, config, v.x as int),
        }
    }
}

/// Vertical velocity at the end of the tick.
pub open spec fn next_y(input: MovementInput, contact: ContactDetection, config: MovementConfig, stamina: int, v: Velocity) -> int {
    if fast_falls(input, contact) {
        -FAST_FALL_SPEED * MILLI
    } else {
        match jump_kind(input, contact, stamina) {
            JumpKind::NoJump => slid_y(input, contact, config, v.y as int),
            JumpKind::Ground => JUMP_SPEED * MILLI,
            _ => AIR_JUMP_SPEED * MILLI,
        }
    }
}

/// Stamina at the end of the tick: full on the ground, one less after an
/// air jump.
pub open spec fn next_stamina(input: MovementInput, contact: ContactDetection, stamina: int) -> int {
    if contact.on_ground {
        MAX_STAMINA as int
    } else if jump_kind(input, contact, stamina) == JumpKind::Air {
        stamina - 1
    } else {
        stamina
    }
}

/// Friction to set at the end of the tick, if any.
pub open spec fn next_friction(contact: ContactDetection, config: MovementConfig) -> Option<u32> {
    if !config.dynamic_friction {
        None
    } else if contact.on_ground {
        Some(GROUND_FRICTION)
    } else if contact.on_left || contact.on_right {
        Some(0)
    } else {
        None
    }
}

/// Stamina after a run of ticks, each given by its input and contact state.
pub open spec fn stamina_after(ticks: Seq<(MovementInput, ContactDetection)>, stamina: int) -> int
    decreases ticks.len(),
{
    if ticks.len() == 0 {
        stamina
    } else {
        stamina_after(ticks.drop_first(), next_stamina(ticks[0].0, ticks[0].1, stamina))
    }
}

/// Whatever the ticks and however many jumps they try, stamina never drops
/// below zero nor rises above `MAX_STAMINA`.
pub proof fn lemma_stamina_stays_bounded(ticks: Seq<(MovementInput, ContactDetection)>, stamina: int)
    requires
        0 <= stamina <= MAX_STAMINA,
    ensures
        0 <= stamina_after(ticks, stamina) <= MAX_STAMINA,
    decreases ticks.len(),
{
    if ticks.len() > 0 {
        lemma_stamina_stays_bounded(ticks.drop_first(), next_stamina(ticks[0].0, ticks[0].1, stamina));
    }
}

fn gain_of(v: i64) -> (r: i64)
    requires
        -FULL_DEFLECTION <= v <= FULL_DEFLECTION,
    ensures
        r == gain(v as int),
{
    if v >= 0 {
        v * 13 / 10
    } else {
        -((-v) * 13 / 10)
    }
}

fn push_of(pressed: bool, stick: i64) -> (r: i64)
    requires
        -FULL_DEFLECTION <= stick <= FULL_DEFLECTION,
    ensures
        r == push(pressed, stick as int),
        -FULL_DEFLECTION * 2 <= r <= FULL_DEFLECTION,
{
    if !pressed {
        0
    } else if stick != 0 {
        let g = gain_of(stick);
        if g < FULL_DEFLECTION as i64 {
            g
        } else {
            FULL_DEFLECTION as i64
        }
    } else {
        FULL_DEFLECTION as i64
    }
}

fn drag_of(x: i64) -> (r: i64)
    ensures
        r == drag(x as int),
{
    let wide = x as i128;
    if wide >= 0 {
        (wide * 97 / 100) as i64
    } else {
        (-((-wide) * 97 / 100)) as i64
    }
}

/// One tick of the controller for the controlled character. In order:
/// horizontal intent (or air drag), the wall slide cap, the jump, the fast
/// fall, and the stamina reset on the ground. Returns the friction
/// coefficient to set, in thousandths, when the configuration sets one.
pub fn player_movement(
    input: &MovementInput,
    contact: &ContactDetection,
    config: &MovementConfig,
    stamina: &mut Stamina,
    velocity: &mut Velocity,
) -> (friction: Option<u32>)
    requires
        -FULL_DEFLECTION <= input.stick_x <= FULL_DEFLECTION,
    ensures
        final(velocity).x == next_x(*input, *contact, *config, old(stamina).spec_value() as int, *old(velocity)),
        final(velocity).y == next_y(*input, *contact, *config, old(stamina).spec_value() as int, *old(velocity)),
        final(stamina).spec_value() == next_stamina(*input, *contact, old(stamina).spec_value() as int),
        friction == next_friction(*contact, *config),
        final(stamina).spec_value() <= MAX_STAMINA,
        contact.on_ground ==> final(stamina).spec_value() == MAX_STAMINA,
        input.jump_pressed && !contact.on_ground && !contact.on_left && !contact.on_right && old(stamina).spec_value() == 0 ==> {
            &&& final(stamina).spec_value() == 0
            &&& final(velocity).y == if fast_falls(*input, *contact) {
                -FAST_FALL_SPEED * MILLI
            } else {
                slid_y(*input, *contact, *config, old(velocity).y as int)
            }
        },
{
    proof {
        use_type_invariant(&*stamina);
    }
    let suppress = config.wall_policy == WallPolicy::SuppressIntent;
    let stick = input.stick_x as i64;
    let l = if suppress && contact.on_left { 0 } else { push_of(input.left_pressed, -stick) };
    let r = if suppress && contact.on_right { 0 } else { push_of(input.right_pressed, stick) };

    if r > 0 || l > 0 {
        let cap: i64 = if contact.on_ground && input.down_pressed { FULL_DEFLECTION as i64 / 2 } else { FULL_DEFLECTION as i64 };
        let d = r - l;
        let held = if d < -cap { -cap } else if d > cap { cap } else { d };
        velocity.x = held * PLAYER_SPEED;
    } else if !contact.on_ground {
        velocity.x = drag_of(velocity.x);
    }

    let floor = -WALL_SLIDE_SPEED * MILLI;
    if config.wall_policy == WallPolicy::SlideClamp
        && ((input.left_pressed && contact.on_left) || (input.right_pressed && contact.on_right))
        && velocity.y < floor {
        velocity.y = floor;
    }

    if input.jump_pressed {
        if contact.on_ground {
            velocity.y = JUMP_SPEED * MILLI;
        } else if contact.on_left {
            velocity.y = AIR_JUMP_SPEED * MILLI;
            if !input.left_pressed {
                velocity.x = WALL_JUMP_KICK * MILLI;
            }
        } else if contact.on_right {
            velocity.y = AIR_JUMP_SPEED * MILLI;
            if !input.right_pressed {
                velocity.x = -WALL_JUMP_KICK * MILLI;
            }
        } else if stamina.value > 0 {
            velocity.y = AIR_JUMP_SPEED * MILLI;
            stamina.value = stamina.value - 1;
        }
    }

    if input.down_just_pressed && !contact.on_ground {
        velocity.x = 0;
        velocity.y = -FAST_FALL_SPEED * MILLI;
    }

    if contact.on_ground {
        stamina.value = MAX_STAMINA;
    }

    if !config.dynamic_friction {
        None
    } else if contact.on_ground {
        Some(GROUND_FRICTION)
    } else if contact.on_left || contact.on_right {
        Some(0)
    } else {
        None
    }
}

} // verus!
