use platformer::contact::{ContactDetection, SensorRole};
use platformer::controls::{combine_input, track_gamepad, GamepadConnection, GamepadInput, KeyboardInput, MovementInput};
use platformer::movement::{player_movement, MovementConfig, Stamina, Velocity, WallPolicy, MAX_STAMINA};
use platformer::safety::{check_out_of_level, update_safe_spot, LastSafeSpot, Position};

fn idle() -> MovementInput {
    MovementInput {
        jump_pressed: false,
        left_pressed: false,
        right_pressed: false,
        down_pressed: false,
        down_just_pressed: false,
        stick_x: 0,
    }
}

fn clamp_config() -> MovementConfig {
    MovementConfig { wall_policy: WallPolicy::SlideClamp, dynamic_friction: false }
}

fn contact_with(roles: &[SensorRole]) -> ContactDetection {
    let mut c = ContactDetection::new();
    for r in roles {
        c.update(*r, true);
    }
    c
}

fn no_keys() -> KeyboardInput {
    KeyboardInput {
        up_just_pressed: false,
        space_just_pressed: false,
        left_pressed: false,
        right_pressed: false,
        down_pressed: false,
        down_just_pressed: false,
    }
}

fn no_buttons() -> GamepadInput {
    GamepadInput {
        east_just_pressed: false,
        dpad_left_pressed: false,
        dpad_right_pressed: false,
        dpad_down_pressed: false,
        dpad_down_just_pressed: false,
        left_stick_x: None,
    }
}

#[test]
fn air_jump_spends_the_last_stamina() {
    assert_eq!(MAX_STAMINA, 1);
    let input = MovementInput { jump_pressed: true, ..idle() };
    let contact = ContactDetection::new();
    let mut stamina = Stamina::new(1);
    let mut v = Velocity { x: 0, y: -50_000 };
    player_movement(&input, &contact, &clamp_config(), &mut stamina, &mut v);
    assert_eq!(v.y, 400_000);
    assert_eq!(stamina.value(), 0);

    // a second jump right away finds no stamina: the jump leaves y alone
    let mut v2 = Velocity { x: 0, y: 123_000 };
    player_movement(&input, &contact, &clamp_config(), &mut stamina, &mut v2);
    assert_eq!(v2.y, 123_000);
    assert_eq!(stamina.value(), 0);
}

#[test]
fn stamina_stays_in_bounds_over_many_jumps() {
    let jump = MovementInput { jump_pressed: true, ..idle() };
    let air = ContactDetection::new();
    let ground = contact_with(&[SensorRole::Ground]);
    let mut stamina = Stamina::full();
    let mut v = Velocity { x: 0, y: 0 };
    for i in 0..20 {
        let contact = if i % 7 == 0 { ground } else { air };
        player_movement(&jump, &contact, &clamp_config(), &mut stamina, &mut v);
        assert!(stamina.value() <= MAX_STAMINA);
    }
}

#[test]
fn landing_restores_stamina() {
    let ground = contact_with(&[SensorRole::Ground]);
    let mut stamina = Stamina::new(0);
    let mut v = Velocity { x: 0, y: 0 };
    player_movement(&idle(), &ground, &clamp_config(), &mut stamina, &mut v);
    assert_eq!(stamina.value(), MAX_STAMINA);
    assert_eq!(v, Velocity { x: 0, y: 0 });
}

#[test]
fn ground_jump_is_full_height() {
    let ground = contact_with(&[SensorRole::Ground]);
    let mut stamina = Stamina::new(0);
    let mut v = Velocity { x: 0, y: 0 };
    player_movement(&MovementInput { jump_pressed: true, ..idle() }, &ground, &clamp_config(), &mut stamina, &mut v);
    assert_eq!(v.y, 500_000);
    assert_eq!(stamina.value(), 1);
}

#[test]
fn wall_jump_kicks_away_unless_holding_toward_the_wall() {
    let left_wall = contact_with(&[SensorRole::Left]);
    let mut stamina = Stamina::new(0);
    let mut v = Velocity { x: 0, y: -20_000 };
    player_movement(&MovementInput { jump_pressed: true, ..idle() }, &left_wall, &clamp_config(), &mut stamina, &mut v);
    assert_eq!(v, Velocity { x: 300_000, y: 400_000 });

    let holding = MovementInput { jump_pressed: true, left_pressed: true, ..idle() };
    let mut v = Velocity { x: 0, y: -20_000 };
    player_movement(&holding, &left_wall, &clamp_config(), &mut stamina, &mut v);
    assert_eq!(v, Velocity { x: -250_000, y: 400_000 });

    let right_wall = contact_with(&[SensorRole::Right]);
    let mut v = Velocity { x: 0, y: 0 };
    player_movement(&MovementInput { jump_pressed: true, ..idle() }, &right_wall, &clamp_config(), &mut stamina, &mut v);
    assert_eq!(v, Velocity { x: -300_000, y: 400_000 });
    assert_eq!(stamina.value(), 0);
}

#[test]
fn pressing_into_a_wall_caps_the_fall() {
    let left_wall = contact_with(&[SensorRole::Left]);
    let mut stamina = Stamina::new(0);
    let mut v = Velocity { x: 0, y: -90_000 };
    player_movement(&MovementInput { left_pressed: true, ..idle() }, &left_wall, &clamp_config(), &mut stamina, &mut v);
    assert_eq!(v, Velocity { x: -250_000, y: -15_000 });

    let suppress = MovementConfig { wall_policy: WallPolicy::SuppressIntent, dynamic_friction: false };
    let mut v = Velocity { x: 1000, y: -90_000 };
    player_movement(&MovementInput { left_pressed: true, ..idle() }, &left_wall, &suppress, &mut stamina, &mut v);
    assert_eq!(v, Velocity { x: 970, y: -90_000 });
}

#[test]
fn steering_and_drag() {
    let air = ContactDetection::new();
    let ground = contact_with(&[SensorRole::Ground]);
    let mut stamina = Stamina::full();

    let mut v = Velocity { x: 0, y: 0 };
    player_movement(&MovementInput { right_pressed: true, ..idle() }, &ground, &clamp_config(), &mut stamina, &mut v);
    assert_eq!(v.x, 250_000);

    let crouch = MovementInput { right_pressed: true, down_pressed: true, ..idle() };
    player_movement(&crouch, &ground, &clamp_config(), &mut stamina, &mut v);
    assert_eq!(v.x, 125_000);

    let both = MovementInput { right_pressed: true, left_pressed: true, ..idle() };
    player_movement(&both, &ground, &clamp_config(), &mut stamina, &mut v);
    assert_eq!(v.x, 0);

    let mut v = Velocity { x: -10_000, y: 0 };
    player_movement(&idle(), &air, &clamp_config(), &mut stamina, &mut v);
    assert_eq!(v.x, -9_700);

    let mut v = Velocity { x: 10_000, y: 0 };
    player_movement(&idle(), &ground, &clamp_config(), &mut stamina, &mut v);
    assert_eq!(v.x, 10_000);

    let stick = MovementInput { right_pressed: true, stick_x: 500, ..idle() };
    player_movement(&stick, &ground, &clamp_config(), &mut stamina, &mut v);
    assert_eq!(v.x, 650 * 250);

    let hard = MovementInput { left_pressed: true, stick_x: -900, ..idle() };
    player_movement(&hard, &ground, &clamp_config(), &mut stamina, &mut v);
    assert_eq!(v.x, -250_000);
}

#[test]
fn fast_fall_in_the_air_only() {
    let air = ContactDetection::new();
    let mut stamina = Stamina::full();
    let mut v = Velocity { x: 40_000, y: 10_000 };
    let input = MovementInput { down_just_pressed: true, jump_pressed: true, ..idle() };
    player_movement(&input, &air, &clamp_config(), &mut stamina, &mut v);
    assert_eq!(v, Velocity { x: 0, y: -800_000 });
    assert_eq!(stamina.value(), 0);

    let ground = contact_with(&[SensorRole::Ground]);
    let mut v = Velocity { x: 40_000, y: 0 };
    player_movement(&MovementInput { down_just_pressed: true, ..idle() }, &ground, &clamp_config(), &mut stamina, &mut v);
    assert_eq!(v, Velocity { x: 40_000, y: 0 });
}

#[test]
fn friction_follows_contact_when_dynamic() {
    let config = MovementConfig { wall_policy: WallPolicy::SlideClamp, dynamic_friction: true };
    let mut stamina = Stamina::full();
    let mut v = Velocity { x: 0, y: 0 };
    let ground = contact_with(&[SensorRole::Ground]);
    assert_eq!(player_movement(&idle(), &ground, &config, &mut stamina, &mut v), Some(800));
    let wall = contact_with(&[SensorRole::Right]);
    assert_eq!(player_movement(&idle(), &wall, &config, &mut stamina, &mut v), Some(0));
    assert_eq!(player_movement(&idle(), &ContactDetection::new(), &config, &mut stamina, &mut v), None);
    assert_eq!(player_movement(&idle(), &ground, &clamp_config(), &mut stamina, &mut v), None);
}

#[test]
fn keyboard_and_gamepad_combine() {
    let keys = KeyboardInput { space_just_pressed: true, left_pressed: true, ..no_keys() };
    let m = combine_input(keys, None);
    assert!(m.jump_pressed && m.left_pressed && !m.right_pressed);

    let pad = GamepadInput { east_just_pressed: true, dpad_left_pressed: true, dpad_down_pressed: true, ..no_buttons() };
    let m = combine_input(keys, Some(pad));
    assert!(!m.jump_pressed && !m.left_pressed && m.down_pressed);
    assert_eq!(m.stick_x, 0);
}

#[test]
fn stick_counts_past_the_dead_zone() {
    let small = GamepadInput { left_stick_x: Some(-300), ..no_buttons() };
    let m = combine_input(no_keys(), Some(small));
    assert!(!m.left_pressed && m.stick_x == 0);

    let left = GamepadInput { left_stick_x: Some(-301), ..no_buttons() };
    let m = combine_input(no_keys(), Some(left));
    assert!(m.left_pressed && !m.right_pressed && m.stick_x == -301);

    let right = GamepadInput { left_stick_x: Some(800), ..no_buttons() };
    let m = combine_input(no_keys(), Some(right));
    assert!(m.right_pressed && m.stick_x == 800);
}

#[test]
fn first_gamepad_stays_until_it_leaves() {
    let g = track_gamepad(None, GamepadConnection { gamepad: 2, connected: true });
    assert_eq!(g, Some(2));
    let g = track_gamepad(g, GamepadConnection { gamepad: 5, connected: true });
    assert_eq!(g, Some(2));
    let g = track_gamepad(g, GamepadConnection { gamepad: 5, connected: false });
    assert_eq!(g, Some(2));
    let g = track_gamepad(g, GamepadConnection { gamepad: 2, connected: false });
    assert_eq!(g, None);
}

#[test]
fn falling_out_returns_to_the_safe_spot() {
    let spot = LastSafeSpot { position: Position { x: 10_000, y: 5_000, z: 0 } };
    let mut p = Position { x: 300_000, y: -80_001, z: 0 };
    let mut v = Velocity { x: 12_000, y: -400_000 };
    assert!(check_out_of_level(&mut p, &mut v, &spot));
    assert_eq!(p, Position { x: 10_000, y: 5_000, z: 0 });
    assert_eq!(v, Velocity { x: 0, y: 0 });

    let mut p = Position { x: 0, y: -80_000, z: 0 };
    let mut v = Velocity { x: 1, y: 2 };
    assert!(!check_out_of_level(&mut p, &mut v, &spot));
    assert_eq!(p, Position { x: 0, y: -80_000, z: 0 });
    assert_eq!(v, Velocity { x: 1, y: 2 });
}

#[test]
fn safe_spot_follows_only_stable_ticks() {
    let mut spot = LastSafeSpot::new();
    let unstable = contact_with(&[SensorRole::StableLeft, SensorRole::Ground]);
    update_safe_spot(&unstable, &mut spot, Position { x: 1, y: 2, z: 3 });
    assert_eq!(spot.position, Position { x: 0, y: 0, z: 0 });
    let stable = contact_with(&[SensorRole::StableLeft, SensorRole::StableRight]);
    update_safe_spot(&stable, &mut spot, Position { x: 4, y: 5, z: 6 });
    assert_eq!(spot.position, Position { x: 4, y: 5, z: 6 });
    update_safe_spot(&unstable, &mut spot, Position { x: 7, y: 8, z: 9 });
    assert_eq!(spot.position, Position { x: 4, y: 5, z: 6 });
}

#[test]
fn defaults_are_fresh_character_state() {
    assert_eq!(Stamina::default().value(), MAX_STAMINA);
    assert_eq!(LastSafeSpot::default().position, Position { x: 0, y: 0, z: 0 });
    let c = ContactDetection::default();
    assert!(!c.on_left && !c.on_right && !c.on_ground && !c.stable_left && !c.stable_right && !c.is_stable);
}
