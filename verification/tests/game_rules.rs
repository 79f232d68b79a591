use scapegame::arduino::{peak_reply, process_message, read_message, MessageFault, PeakRoute};
use scapegame::game::{
    gamepad_button, gamepad_frame, gamepad_stick, gamepad_trigger, keyboard_key, keyboard_presses, presses_fire, process_arduino_action,
    spawn_flies, ArduinoAction, KeyInput, PadButton, StickZone,
};
use scapegame::game_state::GameState;
use scapegame::score_display::score_milestone;
use scapegame::settings::GameSettings;
use scapegame::ship::Ship;
use scapegame::fly_patterns::Fly_Pattern;
use scapegame::structs::{Cords, COLUMNS};

#[test]
fn add_ship_refuses_cells_off_the_board() {
    let mut state = GameState::new();
    let res = state.add_ship(Cords(10, 0), Ship::new_bullet(true, 15));
    assert_eq!(res, Err("Coordinates are out of bounds.".to_string()));
    assert_eq!(state.add_ship(Cords(0, 20), Ship::new_bullet(true, 15)).unwrap_err(), "Coordinates are out of bounds.");
    assert!(state.game_board.cords().is_empty());
}

#[test]
fn colliding_ships_explode_and_flies_score() {
    let mut state = GameState::new();
    state.add_ship(Cords(2, 3), Ship::fly_with_pattern(Fly_Pattern::Pattern1, 10, true, true, 1)).unwrap();
    state.add_ship(Cords(2, 3), Ship::bullet_with_id(false, 15, 2)).unwrap();
    assert_eq!(state.score, 100);
    let there = state.game_board.get(&Cords(2, 3)).unwrap();
    assert_eq!(there.display_info(), "assets/explosion.png");
    assert_ne!(there.get_id(), 2);
    // Removing the explosion scores nothing; removing a fly scores 100.
    assert!(state.remove_ship(Cords(2, 3)).is_some());
    assert_eq!(state.score, 100);
    state.add_ship(Cords(4, 4), Ship::fly_with_pattern(Fly_Pattern::Pattern1, 10, true, true, 5)).unwrap();
    assert_eq!(state.remove_ship(Cords(4, 4)).unwrap().get_id(), 5);
    assert_eq!(state.score, 200);
    assert!(state.remove_ship(Cords(4, 4)).is_none());
    state.increase_score(5);
    assert_eq!(state.score, 205);
}

#[test]
fn add_then_remove_gives_the_ship_back() {
    let mut state = GameState::new();
    state.add_ship(Cords(6, 6), Ship::bullet_with_id(true, 3, 42)).unwrap();
    let ship = state.remove_ship(Cords(6, 6)).unwrap();
    assert_eq!(ship.get_id(), 42);
    assert!(state.game_board.cords().is_empty());
    assert_eq!(state.score, 0);
}

#[test]
fn move_ship_relocates() {
    let mut state = GameState::new();
    state.add_ship(Cords(1, 1), Ship::bullet_with_id(true, 3, 9)).unwrap();
    state.move_ship(Cords(1, 1), Cords(2, 2));
    assert!(state.game_board.get(&Cords(1, 1)).is_none());
    assert_eq!(state.game_board.get(&Cords(2, 2)).unwrap().get_id(), 9);
    state.move_ship(Cords(2, 2), Cords(20, 2));
    assert!(state.game_board.cords().is_empty());
}

#[test]
fn bullets_fly_one_row_per_interval() {
    let mut state = GameState::new();
    let settings = GameSettings::new();
    state.add_ship(Cords(5, 5), Ship::bullet_with_id(false, 3, 1)).unwrap();
    state.ship_actions(&settings).unwrap();
    state.ship_actions(&settings).unwrap();
    assert_eq!(state.game_board.get(&Cords(5, 5)).unwrap().get_id(), 1);
    state.ship_actions(&settings).unwrap();
    assert!(state.game_board.get(&Cords(5, 5)).is_none());
    assert_eq!(state.game_board.get(&Cords(4, 5)).unwrap().get_id(), 1);
    // A bullet leaving the board through the top wraps, and a bullet may not wrap: it is gone.
    let mut top = GameState::new();
    top.add_ship(Cords(0, 5), Ship::bullet_with_id(false, 1, 2)).unwrap();
    top.ship_actions(&settings).unwrap();
    assert!(top.game_board.cords().is_empty());
}

#[test]
fn explosions_clear_after_twenty_ticks() {
    let mut state = GameState::new();
    let settings = GameSettings::new();
    state.add_ship(Cords(3, 3), Ship::explosion_with_id(4)).unwrap();
    for _ in 0..19 {
        state.ship_actions(&settings).unwrap();
    }
    assert!(state.game_board.get(&Cords(3, 3)).is_some());
    state.ship_actions(&settings).unwrap();
    assert!(state.game_board.get(&Cords(3, 3)).is_none());
}

#[test]
fn shooting_from_the_bottom_row_is_an_error() {
    let mut state = GameState::new();
    let settings = GameSettings::new();
    let shooter = Ship::Explosion(
        scapegame::ship::ShipAI::new(1, vec![(None, scapegame::ship::AIAction::Shoot)]),
        false,
        8,
    );
    state.add_ship(Cords(9, 0), shooter).unwrap();
    let res = state.ship_actions(&settings);
    assert_eq!(res, Err("Coordinates are out of bounds.".to_string()));
    assert_eq!(state.game_board.get(&Cords(9, 0)).unwrap().get_id(), 8);
    // One row up, the shot lands below the shooter as a downward bullet.
    let mut ok = GameState::new();
    let shooter = Ship::Explosion(
        scapegame::ship::ShipAI::new(1, vec![(None, scapegame::ship::AIAction::Shoot)]),
        false,
        8,
    );
    ok.add_ship(Cords(3, 0), shooter).unwrap();
    ok.ship_actions(&settings).unwrap();
    assert_eq!(ok.game_board.get(&Cords(4, 0)).unwrap().display_info(), "assets/bullet_downward.png");
}

#[test]
fn player_collisions_cost_lives() {
    let settings = GameSettings::new();
    let mut state = GameState::new();
    let start = state.player.start_position;
    state.add_ship(start, Ship::fly_with_pattern(Fly_Pattern::Pattern1, 10, true, true, 1)).unwrap();
    let over = state.player_actions(&settings);
    assert!(!over);
    assert_eq!(state.player.lives, 4);
    assert_eq!(state.player.current_position, None);
    assert_eq!(state.score, 100);
    assert_eq!(state.game_board.get(&start).unwrap().display_info(), "assets/explosion.png");
    // An invincible player clears what it touches without losing a life.
    let mut settings = GameSettings::new();
    settings.set_no_death(true);
    let mut safe = GameState::new();
    safe.add_ship(start, Ship::bullet_with_id(true, 15, 3)).unwrap();
    assert!(!safe.player_actions(&settings));
    assert_eq!(safe.player.lives, 5);
    assert!(safe.game_board.cords().is_empty());
}

#[test]
fn last_life_ends_the_game() {
    let settings = GameSettings::new();
    let mut state = GameState::new();
    state.player.lives = 1;
    let start = state.player.start_position;
    state.add_ship(start, Ship::bullet_with_id(true, 15, 3)).unwrap();
    assert!(state.player_actions(&settings));
    assert_eq!(state.player.lives, 0);
}

#[test]
fn play_tick_counts_ticks() {
    let settings = GameSettings::new();
    let mut state = GameState::new();
    assert_eq!(state.play_tick(&settings), Ok(false));
    assert_eq!(state.tick_count, 1);
}

#[test]
fn fly_speed_matches_rounded_steps() {
    let settings = GameSettings::new();
    for value in 0..=12u32 {
        let expected_fast = match value {
            1 => 100,
            10 => 500,
            2..=9 => 100 + ((value - 1) as f32 * 50.0).round() as u32,
            _ => 100,
        };
        let expected_slow = match value {
            1 => 10,
            10 => 500,
            2..=9 => 10 + ((value - 1) as f32 * 54.444).round() as u32,
            _ => 10,
        };
        assert_eq!(settings.set_fly_speed(10, value), expected_fast);
        assert_eq!(settings.set_fly_speed(0, value), expected_slow);
    }
    assert_eq!(settings.set_fly_speed(0, 4), 173);
    assert_eq!(settings.set_fly_speed(10, 3), 200);
}

#[test]
fn laser_speed_is_ten_per_step() {
    let settings = GameSettings::new();
    for value in 1..=10u32 {
        assert_eq!(settings.set_laser_speed(value), 10 * value);
    }
}

#[test]
fn settings_defaults_and_setters() {
    let mut s = GameSettings::new();
    assert!(!s.auto_pilot && !s.auto_shoot && !s.invocable);
    assert!(s.fly_move && s.laser_shoot && s.keyboard_enabled && s.gamepad_enabled);
    assert_eq!(s.number_of_flys, 10);
    assert_eq!(s.calculate_fly_value(), 20);
    s.set_auto_move(true);
    s.set_auto_shoot(true);
    s.set_keyboard_enabled(false);
    s.set_gamepad_enabled(false);
    assert!(s.auto_pilot && s.auto_shoot && !s.keyboard_enabled && !s.gamepad_enabled);
}

#[test]
fn auto_pilot_steps_right_and_wraps() {
    let s = GameSettings::new();
    let mut state = GameState::new();
    assert!(!s.auto_move_after(&mut state, 499));
    assert_eq!(state.player.current_position, Some(Cords(8, 10)));
    assert!(s.auto_move_after(&mut state, 500));
    assert_eq!(state.player.current_position, Some(Cords(8, 11)));
    state.player.move_to(Cords(8, COLUMNS - 1));
    s.auto_move_after(&mut state, 900);
    assert_eq!(state.player.current_position, Some(Cords(8, 0)));
    let mut off = GameSettings::new();
    off.handle_auto_move(&mut state);
    assert_eq!(state.player.current_position, Some(Cords(8, 0)));
}

#[test]
fn auto_gun_fires_only_with_a_target() {
    let s = GameSettings::new();
    let mut state = GameState::new();
    assert!(!GameSettings::target_in_sight(&state, 8, 10));
    assert!(!s.auto_shoot_after(&mut state, 600));
    state.add_ship(Cords(0, 10), Ship::fly_with_pattern(Fly_Pattern::Pattern1, 10, true, true, 1)).unwrap();
    assert!(GameSettings::target_in_sight(&state, 8, 10));
    assert!(!s.auto_shoot_after(&mut state, 100));
    assert!(s.auto_shoot_after(&mut state, 600));
    assert_eq!(state.game_board.get(&Cords(7, 10)).unwrap().display_info(), "assets/bullet_upward.png");
    let mut row = GameState::new();
    row.add_ship(Cords(8, 2), Ship::bullet_with_id(true, 15, 1)).unwrap();
    assert!(GameSettings::target_in_sight(&row, 8, 10));
    assert!(!GameSettings::target_in_sight(&row, 7, 10));
}

#[test]
fn arduino_actions_steer_and_shoot() {
    let settings = GameSettings::new();
    let mut state = GameState::new();
    process_arduino_action(&mut state, &settings, ArduinoAction::MoveRight);
    assert_eq!(state.player.current_position, Some(Cords(8, 11)));
    process_arduino_action(&mut state, &settings, ArduinoAction::MoveLeft);
    process_arduino_action(&mut state, &settings, ArduinoAction::MoveLeft);
    assert_eq!(state.player.current_position, Some(Cords(8, 9)));
    process_arduino_action(&mut state, &settings, ArduinoAction::Shoot);
    assert_eq!(state.game_board.get(&Cords(7, 9)).unwrap().display_info(), "assets/bullet_upward.png");
    let mut piloted = GameSettings::new();
    piloted.set_auto_move(true);
    process_arduino_action(&mut state, &piloted, ArduinoAction::MoveRight);
    assert_eq!(state.player.current_position, Some(Cords(8, 9)));
}

#[test]
fn keyboard_keys_move_shoot_and_toggle() {
    let mut settings = GameSettings::new();
    let mut state = GameState::new();
    let pos = state.player.current_position.unwrap();
    assert!(!keyboard_key(&mut state, &mut settings, pos, KeyInput::ArrowRight));
    assert!(!keyboard_key(&mut state, &mut settings, pos, KeyInput::ArrowRight));
    assert_eq!(state.player.current_position, Some(Cords(8, 11)));
    assert!(keyboard_key(&mut state, &mut settings, pos, KeyInput::Space));
    assert!(state.game_board.get(&Cords(7, 10)).is_some());
    keyboard_key(&mut state, &mut settings, pos, KeyInput::KeyD);
    keyboard_key(&mut state, &mut settings, pos, KeyInput::KeyM);
    keyboard_key(&mut state, &mut settings, pos, KeyInput::KeyS);
    keyboard_key(&mut state, &mut settings, pos, KeyInput::KeyA);
    keyboard_key(&mut state, &mut settings, pos, KeyInput::KeyW);
    assert!(settings.invocable && settings.auto_pilot && settings.auto_shoot);
    assert!(!settings.fly_move && !settings.laser_shoot);
    assert!(!keyboard_key(&mut state, &mut settings, pos, KeyInput::Space));
}

#[test]
fn gamepad_buttons_trigger_and_stick() {
    let mut settings = GameSettings::new();
    gamepad_button(&mut settings, PadButton::North);
    gamepad_button(&mut settings, PadButton::East);
    gamepad_button(&mut settings, PadButton::DPadUp);
    assert!(settings.invocable && !settings.fly_move);
    let mut state = GameState::new();
    assert!(gamepad_trigger(&mut state, &settings));
    assert!(state.game_board.get(&Cords(7, 10)).is_some());
    let mut flag = false;
    gamepad_stick(&mut state, &settings, StickZone::Left, &mut flag);
    assert!(flag);
    assert_eq!(state.player.current_position, Some(Cords(8, 9)));
    gamepad_stick(&mut state, &settings, StickZone::Left, &mut flag);
    assert_eq!(state.player.current_position, Some(Cords(8, 9)));
    gamepad_stick(&mut state, &settings, StickZone::Centered, &mut flag);
    assert!(!flag);
    gamepad_stick(&mut state, &settings, StickZone::Right, &mut flag);
    assert_eq!(state.player.current_position, Some(Cords(8, 10)));
}

#[test]
fn opening_wave_fills_two_rows() {
    let settings = GameSettings::new();
    let mut state = GameState::new();
    spawn_flies(&mut state, &settings, 173, 2);
    let cells = state.game_board.cords();
    assert_eq!(cells.len(), COLUMNS);
    for col in 0..COLUMNS {
        let fly = state.game_board.get(&Cords(col % 2, col)).unwrap();
        assert!(fly.is_fly());
    }
}

#[test]
fn messages_name_actions_above_the_threshold() {
    assert_eq!(process_message("move_right 950"), Some(ArduinoAction::MoveRight));
    assert_eq!(process_message("  move_left\t1000 "), Some(ArduinoAction::MoveLeft));
    assert_eq!(process_message("shoot +901"), Some(ArduinoAction::Shoot));
    assert_eq!(process_message("shoot 900"), None);
    assert_eq!(process_message("shoot abc"), None);
    assert_eq!(process_message("shoot 2147483648"), None);
    assert_eq!(process_message("shoot 2147483647"), Some(ArduinoAction::Shoot));
    assert_eq!(process_message("jump 1000"), None);
    assert_eq!(process_message("shoot 1000 extra"), None);
    assert_eq!(process_message(""), None);
    assert_eq!(process_message("shoot -"), None);
}

#[test]
fn routes_reply_to_peaks() {
    assert_eq!(peak_reply(PeakRoute::PeakRight, 901), (Some(ArduinoAction::MoveRight), "Moved right".to_string()));
    assert_eq!(peak_reply(PeakRoute::PeakLeft, 1200), (Some(ArduinoAction::MoveLeft), "Moved left".to_string()));
    assert_eq!(peak_reply(PeakRoute::PeakShoot, 950), (Some(ArduinoAction::Shoot), "Shooting".to_string()));
    assert_eq!(peak_reply(PeakRoute::PeakShoot, 900), (None, "Peak too low".to_string()));
}

#[test]
fn score_display_pulses_every_hundred() {
    assert!(score_milestone(100, 0));
    assert!(!score_milestone(99, 0));
    assert!(score_milestone(300, 200));
    assert!(!score_milestone(250, 200));
}

#[test]
fn messages_say_why_they_name_nothing() {
    assert_eq!(read_message("move_right 950"), Ok(ArduinoAction::MoveRight));
    assert_eq!(read_message("shoot"), Err(MessageFault::BadFormat));
    assert_eq!(read_message("shoot 1 2"), Err(MessageFault::BadFormat));
    assert_eq!(read_message("shoot 900"), Err(MessageFault::PeakTooLow(900)));
    assert_eq!(read_message("shoot x"), Err(MessageFault::PeakTooLow(0)));
    assert_eq!(read_message("jump 1000"), Err(MessageFault::UnknownAction));
}

#[test]
fn keyboard_batches_move_from_the_starting_cell() {
    let mut settings = GameSettings::new();
    let mut state = GameState::new();
    let keys = vec![KeyInput::ArrowRight, KeyInput::ArrowRight, KeyInput::Space, KeyInput::KeyS, KeyInput::Space];
    assert!(presses_fire(&settings, &keys));
    let shots = keyboard_presses(&mut state, &mut settings, &keys);
    assert_eq!(shots, 1);
    assert_eq!(state.player.current_position, Some(Cords(8, 11)));
    assert!(settings.auto_shoot);
    assert!(state.game_board.get(&Cords(7, 10)).is_some());
    assert!(!presses_fire(&settings, &vec![KeyInput::Space]));
    assert!(presses_fire(&settings, &vec![KeyInput::KeyS, KeyInput::Space]));
}

#[test]
fn disabled_keyboard_ignores_presses() {
    let mut settings = GameSettings::new();
    settings.set_keyboard_enabled(false);
    let mut state = GameState::new();
    let shots = keyboard_presses(&mut state, &mut settings, &vec![KeyInput::ArrowLeft, KeyInput::Space, KeyInput::KeyD]);
    assert_eq!(shots, 0);
    assert_eq!(state.player.current_position, Some(Cords(8, 10)));
    assert!(!settings.invocable);
    assert!(state.game_board.cords().is_empty());
}

#[test]
fn score_room_counts_the_flies_on_the_board() {
    let settings = GameSettings::new();
    let mut state = GameState::new();
    spawn_flies(&mut state, &settings, 173, 2);
    state.score = u32::MAX - 2000;
    assert!(state.score_has_room());
    state.score = u32::MAX - 1999;
    assert!(!state.score_has_room());
    let empty = GameState::new();
    assert!(empty.score_has_room());
}

#[test]
fn gamepad_off_changes_nothing() {
    let mut settings = GameSettings::new();
    settings.set_gamepad_enabled(false);
    let mut state = GameState::new();
    let mut flag = false;
    let shot = gamepad_frame(
        &mut state,
        &mut settings,
        &vec![PadButton::North, PadButton::West],
        true,
        Some(StickZone::Left),
        &mut flag,
    );
    assert!(!shot);
    assert!(!flag);
    assert!(!settings.invocable && !settings.auto_pilot);
    assert_eq!(state.player.current_position, Some(Cords(8, 10)));
    assert!(state.game_board.cords().is_empty());
}

#[test]
fn gamepad_frame_toggles_fires_and_steers() {
    let mut settings = GameSettings::new();
    let mut state = GameState::new();
    let mut flag = false;
    let shot = gamepad_frame(
        &mut state,
        &mut settings,
        &vec![PadButton::North, PadButton::DPadRight],
        true,
        Some(StickZone::Right),
        &mut flag,
    );
    assert!(shot);
    assert!(settings.invocable && !settings.laser_shoot);
    assert!(state.game_board.get(&Cords(7, 10)).is_some());
    assert_eq!(state.player.current_position, Some(Cords(8, 11)));
    assert!(flag);
    let shot = gamepad_frame(&mut state, &mut settings, &vec![PadButton::South], true, None, &mut flag);
    assert!(!shot);
    assert!(settings.auto_shoot);
    assert_eq!(state.player.current_position, Some(Cords(8, 11)));
}

#[test]
fn ship_phase_plays_near_the_score_limit() {
    let mut state = GameState::new();
    state.game_board.insert(Cords(0, 0), Ship::fly_with_pattern(Fly_Pattern::Pattern1, 1, true, true, 9));
    state.score = u32::MAX - 50;
    assert!(state.ships_can_run());
    assert!(!state.score_has_room());
    let settings = GameSettings::new();
    assert_eq!(state.ship_actions(&settings), Ok(()));
    assert_eq!(state.score, u32::MAX - 50);
    assert_eq!(state.game_board.cords(), vec![Cords(0, 1)]);
}
