use scapegame::board::GameBoard;
use scapegame::fly_patterns::Fly_Pattern;
use scapegame::game_state::GameState;
use scapegame::player::{Player, PlayerKey};
use scapegame::ship::{AIAction, Condition, Ship, ShipAI};
use scapegame::structs::{Cords, GameLevel, Level, RelCords, ShipAction, Timer, COLUMNS, ROWS};

#[test]
fn evaluate_moves_and_wraps() {
    assert_eq!(RelCords(1, 1).evaluate(Cords(5, 5)), (Cords(6, 6), false));
    assert_eq!(RelCords(-1, 0).evaluate(Cords(0, 3)), (Cords(ROWS - 1, 3), true));
    assert_eq!(RelCords(1, 1).evaluate(Cords(9, 19)), (Cords(0, 0), true));
    assert_eq!(RelCords(0, -1).evaluate(Cords(4, 0)), (Cords(4, COLUMNS - 1), true));
    assert_eq!(RelCords(0, 0).evaluate(Cords(2, 7)), (Cords(2, 7), false));
}

#[test]
fn level_status_follows_level() {
    let mut level = GameLevel::new(Level::Medium);
    assert_eq!(level.get_level_status(), (300, 3));
    level.set_level(Level::Hard);
    assert_eq!(level.get_level_status(), (100, 1));
    level.set_level(Level::Easy);
    assert_eq!(level.get_level_status(), (500, 5));
}

#[test]
fn timer_fires_every_interval() {
    let mut t = Timer::new(3);
    let fired: Vec<bool> = (0..7).map(|_| t.tick()).collect();
    assert_eq!(fired, vec![false, false, true, false, false, true, false]);
    let mut always = Timer::new(1);
    assert!(always.tick() && always.tick());
    let mut zero = Timer::new(0);
    assert!(zero.tick());
}

#[test]
fn patterns_have_their_steps() {
    let p1 = Fly_Pattern::Pattern1.fly_pattern();
    assert_eq!(p1.len(), 8);
    assert_eq!(p1[0], (None, AIAction::MoveOrNothing(RelCords(0, 1))));
    assert_eq!(p1[3], (Some(Condition::DontShootIfShipsAreBelow(RelCords(0, 1))), AIAction::Shoot));
    assert_eq!(Fly_Pattern::Pattern2.fly_pattern(), p1);
    assert_eq!(Fly_Pattern::Pattern6.fly_pattern().len(), 4);
    assert_eq!(Fly_Pattern::Pattern7.fly_pattern()[1], (None, AIAction::MoveOrNothing(RelCords(0, 0))));
    assert_eq!(Fly_Pattern::Pattern10.fly_pattern()[2], (Some(Condition::DontShootIfShipsAreBelow(RelCords(0, 2))), AIAction::Shoot));
    assert_eq!(Fly_Pattern::drawn(0), Fly_Pattern::Pattern1);
    assert_eq!(Fly_Pattern::drawn(2), Fly_Pattern::Pattern3);
}

#[test]
fn ships_show_their_images() {
    assert_eq!(Ship::new_bullet(true, 15).display_info(), "assets/bullet_downward.png");
    assert_eq!(Ship::new_bullet(false, 15).display_info(), "assets/bullet_upward.png");
    assert_eq!(Ship::new_explosion().display_info(), "assets/explosion.png");
    assert_eq!(Ship::new_fly(100, true, true).display_info(), "assets/fly.png");
}

#[test]
fn fresh_ships_get_distinct_version_four_ids() {
    let a = Ship::new_explosion().get_id();
    let b = Ship::new_explosion().get_id();
    assert_ne!(a, b);
    assert_eq!((a >> 76) & 0xf, 4);
    assert_eq!((b >> 76) & 0xf, 4);
    assert_eq!((a >> 62) & 0x3, 2);
    assert_eq!((Ship::new_bullet(true, 15).get_id() >> 62) & 0x3, 2);
    assert_eq!((Ship::new_fly(100, true, true).get_id() >> 76) & 0xf, 4);
}

#[test]
fn new_fly_uses_a_first_pattern() {
    for _ in 0..20 {
        let fly = Ship::new_fly(173, true, true);
        assert!(fly.is_fly());
        assert!(fly.wrap());
        match &fly {
            Ship::Fly(ai, _, _, n, shoot, alive) => {
                assert_eq!(ai.actions, Fly_Pattern::Pattern1.fly_pattern());
                assert_eq!(ai.action_index, 0);
                assert_eq!(*n, 0);
                assert!(*shoot && *alive);
            }
            _ => panic!("not a fly"),
        }
    }
}

#[test]
fn grounded_fly_does_not_move() {
    let fly = Ship::fly_with_pattern(Fly_Pattern::Pattern1, 10, false, false, 7);
    match &fly {
        Ship::Fly(ai, wrap, id, _, shoot, _) => {
            assert!(!*wrap && !*shoot);
            assert_eq!(*id, 7);
            assert_eq!(ai.actions[0], (None, AIAction::Nothing));
            assert_eq!(ai.actions[3].1, AIAction::Shoot);
        }
        _ => panic!("not a fly"),
    }
}

#[test]
fn board_keeps_ships_by_cell() {
    let mut board = GameBoard::new();
    assert!(!board.contains_key(&Cords(3, 4)));
    board.insert(Cords(3, 4), Ship::bullet_with_id(true, 15, 11));
    assert!(board.contains_key(&Cords(3, 4)));
    assert_eq!(board.get(&Cords(3, 4)).unwrap().get_id(), 11);
    assert!(board.get(&Cords(4, 3)).is_none());
    assert!(!board.contains_key(&Cords(30, 4)));
    board.insert(Cords(0, 19), Ship::explosion_with_id(12));
    let mut cells = board.cords();
    cells.sort_by_key(|c| (c.0, c.1));
    assert_eq!(cells, vec![Cords(0, 19), Cords(3, 4)]);
    let removed = board.remove(&Cords(3, 4)).unwrap();
    assert_eq!(removed.get_id(), 11);
    assert!(board.remove(&Cords(3, 4)).is_none());
    assert_eq!(board.cords(), vec![Cords(0, 19)]);
}

#[test]
fn conditions_read_the_board() {
    let mut board = GameBoard::new();
    board.insert(Cords(2, 2), Ship::bullet_with_id(true, 15, 1));
    assert!(Condition::ShipExists(Cords(2, 2)).evaluate(Cords(0, 0), &board));
    assert!(!Condition::ShipExists(Cords(2, 3)).evaluate(Cords(0, 0), &board));
    assert!(!Condition::PositionAvailable(RelCords(1, 0)).evaluate(Cords(1, 2), &board));
    assert!(Condition::PositionAvailable(RelCords(0, 1)).evaluate(Cords(1, 2), &board));
    // A run of ships below without a fly allows shooting; a fly in the run forbids it.
    board.insert(Cords(3, 2), Ship::fly_with_pattern(Fly_Pattern::Pattern1, 10, true, true, 2));
    assert!(!Condition::DontShootIfShipsAreBelow(RelCords(1, 0)).evaluate(Cords(2, 2), &board));
    assert!(Condition::DontShootIfShipsAreBelow(RelCords(1, 0)).evaluate(Cords(1, 2), &board));
    assert!(Condition::DontShootIfShipsAreBelow(RelCords(1, 0)).evaluate(Cords(4, 2), &board));
}

#[test]
fn ai_waits_for_its_timer_and_skips_failed_steps() {
    let board = GameBoard::new();
    let mut ai = ShipAI::new(2, vec![
        (Some(Condition::ShipExists(Cords(0, 0))), AIAction::Shoot),
        (None, AIAction::Remove),
    ]);
    assert_eq!(ai.get_ai_action(Cords(5, 5), &board), AIAction::Nothing);
    // Fires: the first step's condition fails, the script moves on and waits again.
    assert_eq!(ai.get_ai_action(Cords(5, 5), &board), AIAction::Nothing);
    assert_eq!(ai.action_index, 1);
    assert_eq!(ai.get_ai_action(Cords(5, 5), &board), AIAction::Remove);
    assert_eq!(ai.action_index, 0);
    // With an interval of one, a failing step is skipped on the same turn.
    let mut quick = ShipAI::new(1, vec![
        (Some(Condition::ShipExists(Cords(0, 0))), AIAction::Shoot),
        (None, AIAction::MoveOrNothing(RelCords(0, 1))),
    ]);
    assert_eq!(quick.get_action(Cords(5, 5), &board), ShipAction::Move(Cords(5, 6), false));
    let mut empty = ShipAI::new(1, vec![]);
    assert_eq!(empty.get_ai_action(Cords(5, 5), &board), AIAction::Nothing);
}

#[test]
fn actions_become_board_actions() {
    let mut board = GameBoard::new();
    board.insert(Cords(5, 6), Ship::explosion_with_id(3));
    assert_eq!(AIAction::MoveOrNothing(RelCords(0, 1)).to_ship_action(Cords(5, 5), &board), ShipAction::Nothing);
    assert_eq!(AIAction::MoveOrNothing(RelCords(-1, 0)).to_ship_action(Cords(0, 5), &board), ShipAction::Move(Cords(9, 5), true));
    assert_eq!(AIAction::RelativeMove(RelCords(0, 1)).to_ship_action(Cords(5, 5), &board), ShipAction::Move(Cords(5, 6), false));
    assert_eq!(AIAction::Move(Cords(1, 1)).to_ship_action(Cords(5, 5), &board), ShipAction::Move(Cords(1, 1), false));
    assert_eq!(AIAction::ShootOrNothing.to_ship_action(Cords(5, 5), &board), ShipAction::Shoot);
    assert_eq!(AIAction::Remove.to_ship_action(Cords(5, 5), &board), ShipAction::Remove);
    assert_eq!(AIAction::Nothing.to_ship_action(Cords(5, 5), &board), ShipAction::Nothing);
}

#[test]
fn player_keys_and_lives() {
    let mut player = Player::new(2);
    assert_eq!(player.current_position, Some(Cords(ROWS - 2, COLUMNS / 2)));
    assert_eq!(player.use_key(Some(PlayerKey::ArrowLeft)), None);
    assert_eq!(player.current_position, Some(Cords(8, 9)));
    assert_eq!(player.use_key(Some(PlayerKey::ArrowUp)), Some(Cords(7, 9)));
    player.move_to(Cords(8, 19));
    player.use_key(Some(PlayerKey::ArrowRight));
    assert_eq!(player.current_position, Some(Cords(8, 19)));
    assert_eq!(player.handle_collision(), Some(1));
    assert_eq!(player.current_position, None);
    for _ in 0..199 {
        player.respawn(true);
    }
    assert_eq!(player.current_position, None);
    player.respawn(true);
    assert_eq!(player.current_position, Some(Cords(8, 10)));
    assert_eq!(player.handle_collision(), None);
    assert_eq!(player.lives, 0);
}

#[test]
fn new_game_starts_easy() {
    let state = GameState::new();
    assert_eq!(state.score, 0);
    assert_eq!(state.tick_count, 0);
    assert_eq!(state.player.lives, 5);
    assert_eq!(state.gamelevel.get_level_status(), (500, 5));
    assert!(state.game_board.cords().is_empty());
}

#[test]
fn steps_around_the_board_come_back_with_one_wrap() {
    let start = Cords(3, 7);
    let mut c = start;
    let mut wraps = 0;
    for _ in 0..COLUMNS {
        let (next, wrapped) = RelCords(0, 1).evaluate(c);
        c = next;
        if wrapped {
            wraps += 1;
        }
    }
    assert_eq!((c, wraps), (start, 1));
    let mut wraps = 0;
    for _ in 0..ROWS {
        let (next, wrapped) = RelCords(1, 0).evaluate(c);
        c = next;
        if wrapped {
            wraps += 1;
        }
    }
    assert_eq!((c, wraps), (start, 1));
}

#[test]
fn timers_fire_on_multiples_of_their_interval() {
    let mut t = Timer::new(3);
    for k in 1..=12u32 {
        assert_eq!(t.tick(), k % 3 == 0);
    }
    let mut t = Timer::new(0);
    for _ in 0..5 {
        assert!(t.tick());
    }
}

#[test]
fn only_scanned_conditions_are_read() {
    let board = GameBoard::new();
    let far = RelCords(i32::MAX, 0);
    let mut ai = ShipAI::new(
        2,
        vec![(None, AIAction::Nothing), (Some(Condition::PositionAvailable(far)), AIAction::Shoot)],
    );
    assert_eq!(ai.get_ai_action(Cords(0, 0), &board), AIAction::Nothing);
    assert_eq!(ai.get_ai_action(Cords(0, 0), &board), AIAction::Nothing);
    assert_eq!(ai.action_index, 1);
}
