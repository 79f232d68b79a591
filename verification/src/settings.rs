//! The settings that steer the game, and the automatic pilot and gun.
use vstd::prelude::*;
use crate::game_state::{GameState, addition, addition_gain, board_valid};
use crate::outside::{instant_now, millis_since};
use crate::player::PlayerView;
use crate::ship::{Ship, ShipView, bullet_view};
use crate::structs::{Cords, COLUMNS};

verus! {

/// The fly speed (ticks per step) chosen by a setting from 1 to 10: from
/// 100 up to 500 in steps of 50 when the laser speed is 10, otherwise from
/// 10 up to 500 in steps of 54.444 rounded to the nearest tick; any other
/// value gives the speed of setting 1.
pub open spec fn fly_speed_for(laser_speed: u32, value: u32) -> u32 {
    if laser_speed == 10 {
        if value == 1 {
            100
        } else if value == 10 {
            500
        } else if 2 <= value <= 9 {
            (100 + 50 * (value - 1)) as u32
        } else {
            100
        }
    } else {
        if value == 1 {
            10
        } else if value == 10 {
            500
        } else if 2 <= value <= 9 {
            (10 + ((value - 1) * 54444 + 500) / 1000) as u32
        } else {
            10
        }
    }
}

/// The laser speed chosen by a setting from 1 to 10.
pub open spec fn laser_speed_for(value: u32) -> u32 {
    if value == 1 {
        10
    } else if value == 10 {
        100
    } else {
        (10 + (value - 1) * 10) as u32
    }
}

/// The player after one step of the automatic pilot: one column to the
/// right, going round to the first column after the last.
pub open spec fn auto_moved(p: PlayerView) -> PlayerView {
    match p.current_position {
        Some(Cords(x, y)) => PlayerView { current_position: Some(Cords(x, ((y + 1) % COLUMNS as int) as usize)), ..p },
        None => p,
    }
}

/// Each laser setting gives ten times its value.
pub proof fn lemma_laser_speed_linear(value: u32)
    requires
        1 <= value <= 10,
    ensures
        laser_speed_for(value) == 10 * value,
{
}

/// A higher fly setting never gives a lower fly speed, with either laser
/// speed, and settings 1 to 10 stay between 10 and 500 ticks.
pub proof fn lemma_fly_speed_monotone(laser_speed: u32, a: u32, b: u32)
    requires
        1 <= a <= b <= 10,
    ensures
        fly_speed_for(laser_speed, a) <= fly_speed_for(laser_speed, b),
        10 <= fly_speed_for(laser_speed, a) <= 500,
{
    assert(((a - 1) * 54444 + 500) / 1000 <= ((b - 1) * 54444 + 500) / 1000) by (nonlinear_arith)
        requires
            1 <= a <= b,
    ;
    if a <= 9 {
        assert(((a - 1) * 54444 + 500) / 1000 <= 436) by (nonlinear_arith)
            requires
                1 <= a <= 9,
        ;
    }
    if b <= 9 {
        assert(((b - 1) * 54444 + 500) / 1000 <= 436) by (nonlinear_arith)
            requires
                1 <= b <= 9,
        ;
    }
}

/// The automatic pilot keeps a player on the board on the board.
pub proof fn lemma_auto_move_stays_on_board(p: PlayerView)
    requires
        p.current_position matches Some(c) && c.in_bounds(),
    ensures
        auto_moved(p).current_position matches Some(c) && c.in_bounds(),
        auto_moved(p).lives == p.lives,
{
}

/// A step of the automatic pilot moves a player on the board to the next
/// column of its row, and from the last column back to the first; a
/// player off the board stays off; nothing but the player's cell changes.
pub proof fn lemma_pilot_steps_right(p: PlayerView)
    ensures
        p.current_position is Some && p.current_position.unwrap().1 < COLUMNS ==> auto_moved(p).current_position
            == Some(
            Cords(
                p.current_position.unwrap().0,
                if p.current_position.unwrap().1 + 1 == COLUMNS {
                    0
                } else {
                    (p.current_position.unwrap().1 + 1) as usize
                },
            ),
        ),
        p.current_position is None ==> auto_moved(p) == p,
        auto_moved(p).lives == p.lives,
        auto_moved(p).start_position == p.start_position,
        auto_moved(p).death_timer == p.death_timer,
        auto_moved(p).display_char == p.display_char,
{
}

/// Some ship stands in the player's line of fire from `(x, y)`: above it in
/// its column, or elsewhere in its row.
pub open spec fn target_in_sight(board: Map<Cords, ShipView>, x: usize, y: usize) -> bool {
    ||| exists|r: usize| r < x && #[trigger] board.contains_key(Cords(r, y))
    ||| exists|c: usize| c != y && #[trigger] board.contains_key(Cords(x, c))
}

/// The switches of the game.
pub struct GameSettings {
    pub auto_pilot: bool,
    pub auto_shoot: bool,
    pub invocable: bool,
    pub fly_move: bool,
    pub laser_shoot: bool,
    pub keyboard_enabled: bool,
    pub gamepad_enabled: bool,
    pub number_of_flys: u32,
    pub last_move_time: std::time::Instant,
    pub last_shot_time: std::time::Instant,
}

impl GameSettings {
    /// The default settings: no pilot, no automatic gun, not invincible,
    /// flies move and shoot, keyboard and gamepad on, ten flies; the clocks
    /// of the pilot and of the gun start from the same reading.
    pub fn new() -> (res: Self)
        ensures
            !res.auto_pilot,
            !res.auto_shoot,
            !res.invocable,
            res.keyboard_enabled,
            res.gamepad_enabled,
            res.fly_move,
            res.laser_shoot,
            res.number_of_flys == 10,
            res.last_move_time == res.last_shot_time,
    {
        let now = instant_now();
        GameSettings {
            auto_pilot: false,
            auto_shoot: false,
            invocable: false,
            keyboard_enabled: true,
            gamepad_enabled: true,
            fly_move: true,
            laser_shoot: true,
            number_of_flys: 10,
            last_move_time: now,
            last_shot_time: now,
        }
    }

    /// Twice the number of flies.
    pub fn calculate_fly_value(&self) -> (res: u32)
        requires
            self.number_of_flys * 2 <= u32::MAX,
        ensures
            res == self.number_of_flys * 2,
    {
        self.number_of_flys * 2
    }

    /// The fly speed for setting `value` (see `fly_speed_for`).
    pub fn set_fly_speed(&self, laser_speed: u32, value: u32) -> (res: u32)
        ensures
            res == fly_speed_for(laser_speed, value),
    {
        if laser_speed == 10 {
            if value == 1 {
                100
            } else if value == 10 {
                500
            } else if 2 <= value && value <= 9 {
                100 + 50 * (value - 1)
            } else {
                100
            }
        } else {
            if value == 1 {
                10
            } else if value == 10 {
                500
            } else if 2 <= value && value <= 9 {
                10 + ((value - 1) * 54444 + 500) / 1000
            } else {
                10
            }
        }
    }

    /// The laser speed for setting `value`, which must be from 1 to 10.
    pub fn set_laser_speed(&self, value: u32) -> (res: u32)
        requires
            1 <= value <= 10,
        ensures
            res == laser_speed_for(value),
    {
        if value == 1 {
            10
        } else if value == 10 {
            100
        } else {
            10 + ((value - 1) * 10)
        }
    }

    /// One step of the automatic pilot once `elapsed_ms` milliseconds have
    /// passed since the last one: after 500 ms the player moves one column
    /// to the right, going round, and the clock should restart (returns
    /// `true`); before that nothing happens.
    pub fn auto_move_after(&self, game_state: &mut GameState, elapsed_ms: u128) -> (restart: bool)
        requires
            old(game_state).player.current_position matches Some(c) ==> c.1 < usize::MAX,
        ensures
            restart == (elapsed_ms >= 500),
            final(game_state).player@ == if restart { auto_moved(old(game_state).player@) } else { old(game_state).player@ },
            final(game_state).game_board == old(game_state).game_board,
            final(game_state).score == old(game_state).score,
            final(game_state).tick_count == old(game_state).tick_count,
            final(game_state).gamelevel == old(game_state).gamelevel,
    {
        if elapsed_ms >= 500 {
            if let Some(Cords(x, y)) = game_state.player.current_position {
                let new_y = (y + 1) % COLUMNS;
                game_state.player.move_to(Cords(x, new_y));
            }
            true
        } else {
            false
        }
    }

    /// The automatic pilot: when it is on and 500 ms have passed since its
    /// last step, the player moves one column to the right, going round
    /// after the last column, and the pilot's clock restarts. How much
    /// time has passed comes from the clock, so the contract states that
    /// the player either stays or makes that step, that the pilot's clock
    /// stays as it was when a player on the board did not step or the
    /// pilot is off, and that the gun's clock is not touched.
    pub fn handle_auto_move(&mut self, game_state: &mut GameState)
        requires
            old(self).auto_pilot && old(game_state).player.current_position is Some
                ==> old(game_state).player.current_position.unwrap().1 < usize::MAX,
        ensures
            !old(self).auto_pilot ==> final(game_state).player@ == old(game_state).player@,
            final(game_state).player@ == old(game_state).player@
                || final(game_state).player@ == auto_moved(old(game_state).player@),
            final(game_state).game_board == old(game_state).game_board,
            final(game_state).score == old(game_state).score,
            final(game_state).tick_count == old(game_state).tick_count,
            final(game_state).gamelevel == old(game_state).gamelevel,
            final(self).auto_pilot == old(self).auto_pilot,
            final(self).auto_shoot == old(self).auto_shoot,
            final(self).invocable == old(self).invocable,
            final(self).fly_move == old(self).fly_move,
            final(self).laser_shoot == old(self).laser_shoot,
            final(self).keyboard_enabled == old(self).keyboard_enabled,
            final(self).gamepad_enabled == old(self).gamepad_enabled,
            final(self).number_of_flys == old(self).number_of_flys,
            final(self).last_shot_time == old(self).last_shot_time,
            !old(self).auto_pilot ==> final(self).last_move_time == old(self).last_move_time,
            old(game_state).player.current_position is Some && final(game_state).player@ == old(game_state).player@
                ==> final(self).last_move_time == old(self).last_move_time,
    {
        if self.auto_pilot {
            let elapsed = millis_since(&self.last_move_time);
            let ghost before = game_state.player@;
            if self.auto_move_after(game_state, elapsed) {
                proof {
                    if before.current_position is Some {
                        let y = before.current_position.unwrap().1;
                        assert((y + 1) % (COLUMNS as int) != y);
                        assert(game_state.player@.current_position.unwrap().1 != y);
                    }
                }
                self.last_move_time = instant_now();
            }
        }
    }

    /// Whether a ship stands in the line of fire of a player at `(x, y)`:
    /// above it in its column, or elsewhere in its row.
    pub fn target_in_sight(game_state: &GameState, x: usize, y: usize) -> (res: bool)
        ensures
            res == target_in_sight(game_state.game_board@, x, y),
    {
        let mut row: usize = x;
        while row > 0
            invariant
                row <= x,
                forall|r: usize| row <= r < x ==> !(#[trigger] game_state.game_board@.contains_key(Cords(r, y))),
            decreases row,
        {
            row = row - 1;
            if game_state.game_board.contains_key(&Cords(row, y)) {
                assert(row < x && game_state.game_board@.contains_key(Cords(row, y)));
                return true;
            }
        }
        let mut col: usize = y;
        while col > 0
            invariant
                col <= y,
                forall|r: usize| r < x ==> !(#[trigger] game_state.game_board@.contains_key(Cords(r, y))),
                forall|c: usize| col <= c < y ==> !(#[trigger] game_state.game_board@.contains_key(Cords(x, c))),
            decreases col,
        {
            col = col - 1;
            if game_state.game_board.contains_key(&Cords(x, col)) {
                assert(col != y && game_state.game_board@.contains_key(Cords(x, col)));
                return true;
            }
        }
        if y < COLUMNS {
            let mut col: usize = y + 1;
            while col < COLUMNS
                invariant
                    y < col <= COLUMNS,
                    forall|r: usize| r < x ==> !(#[trigger] game_state.game_board@.contains_key(Cords(r, y))),
                    forall|c: usize| c < y ==> !(#[trigger] game_state.game_board@.contains_key(Cords(x, c))),
                    forall|c: usize| y < c < col ==> !(#[trigger] game_state.game_board@.contains_key(Cords(x, c))),
                decreases COLUMNS - col,
            {
                if game_state.game_board.contains_key(&Cords(x, col)) {
                    assert(col != y && game_state.game_board@.contains_key(Cords(x, col)));
                    return true;
                }
                col = col + 1;
            }
        }
        proof {
            assert forall|c: usize| c != y implies !(#[trigger] game_state.game_board@.contains_key(Cords(x, c))) by {
                game_state.game_board.lemma_cells_on_board(Cords(x, c));
            }
        }
        false
    }

    /// One shot of the automatic gun once `elapsed_ms` milliseconds have
    /// passed since the last one: after 500 ms, a player with a ship in its
    /// line of fire fires a bullet upwards from the cell above it, and the
    /// clock should restart (returns `true`); otherwise nothing happens.
    pub fn auto_shoot_after(&self, game_state: &mut GameState, elapsed_ms: u128) -> (restart: bool)
        requires
            ({
                let p = old(game_state).player.current_position;
                elapsed_ms >= 500 && p is Some && target_in_sight(old(game_state).game_board@, p.unwrap().0, p.unwrap().1) ==> {
                    &&& p.unwrap().0 > 0
                    &&& old(game_state).score + addition_gain(old(game_state).game_board@, Cords((p.unwrap().0 - 1) as usize, p.unwrap().1)) <= u32::MAX
                }
            }),
        ensures
            ({
                let p = old(game_state).player.current_position;
                let fires = elapsed_ms >= 500 && p is Some && target_in_sight(old(game_state).game_board@, p.unwrap().0, p.unwrap().1);
                let target = Cords((p.unwrap().0 - 1) as usize, p.unwrap().1);
                let id = final(game_state).game_board@[target].id();
                let (b, s, _) = addition(old(game_state).game_board@, old(game_state).score as int, target, bullet_view(false, 15, id), id);
                &&& restart == fires
                &&& fires ==> final(game_state).game_board@ == b && final(game_state).score == s
                &&& !fires ==> final(game_state).game_board == old(game_state).game_board && final(game_state).score == old(game_state).score
            }),
            board_valid(old(game_state).game_board@) ==> board_valid(final(game_state).game_board@),
            final(game_state).player == old(game_state).player,
            final(game_state).tick_count == old(game_state).tick_count,
            final(game_state).gamelevel == old(game_state).gamelevel,
    {
        if elapsed_ms >= 500 {
            if let Some(Cords(x, y)) = game_state.player.current_position {
                let fly_detected = Self::target_in_sight(game_state, x, y);
                if fly_detected {
                    let bullet_position = Cords(x - 1, y);
                    let bullet = Ship::new_bullet(false, 15);
                    proof {
                        crate::ship::lemma_new_ships_valid(crate::fly_patterns::Fly_Pattern::Pattern1, 15, true, true, false, bullet@.id());
                    }
                    let _ = game_state.add_ship(bullet_position, bullet);
                    proof {
                        let id = game_state.game_board@[bullet_position].id();
                        crate::ship::lemma_new_ships_valid(crate::fly_patterns::Fly_Pattern::Pattern1, 15, true, true, false, id);
                    }
                    return true;
                }
            }
        }
        false
    }

    /// The automatic gun: when it is on and 500 ms have passed since its
    /// last shot, a player with a ship in its line of fire fires a bullet
    /// upwards from the cell above it, and the gun's clock restarts. How
    /// much time has passed comes from the clock, so the contract states
    /// that the board either stays or takes that shot, that the gun's clock
    /// stays as it was when the gun is off or has no target, and that the
    /// pilot's clock is not touched.
    pub fn handle_auto_shoot(&mut self, game_state: &mut GameState)
        requires
            ({
                let p = old(game_state).player.current_position;
                old(self).auto_shoot && p is Some && target_in_sight(old(game_state).game_board@, p.unwrap().0, p.unwrap().1) ==> {
                    &&& p.unwrap().0 > 0
                    &&& old(game_state).score + addition_gain(old(game_state).game_board@, Cords((p.unwrap().0 - 1) as usize, p.unwrap().1)) <= u32::MAX
                }
            }),
        ensures
            ({
                let p = old(game_state).player.current_position;
                let target = Cords((p.unwrap().0 - 1) as usize, p.unwrap().1);
                let id = final(game_state).game_board@[target].id();
                let (b, s, _) = addition(old(game_state).game_board@, old(game_state).score as int, target, bullet_view(false, 15, id), id);
                let unchanged = final(game_state).game_board == old(game_state).game_board && final(game_state).score == old(game_state).score;
                &&& !old(self).auto_shoot ==> unchanged
                &&& unchanged || (p is Some && target_in_sight(old(game_state).game_board@, p.unwrap().0, p.unwrap().1)
                    && final(game_state).game_board@ == b && final(game_state).score == s)
            }),
            board_valid(old(game_state).game_board@) ==> board_valid(final(game_state).game_board@),
            final(game_state).player == old(game_state).player,
            final(game_state).tick_count == old(game_state).tick_count,
            final(game_state).gamelevel == old(game_state).gamelevel,
            final(self).auto_pilot == old(self).auto_pilot,
            final(self).auto_shoot == old(self).auto_shoot,
            final(self).invocable == old(self).invocable,
            final(self).fly_move == old(self).fly_move,
            final(self).laser_shoot == old(self).laser_shoot,
            final(self).keyboard_enabled == old(self).keyboard_enabled,
            final(self).gamepad_enabled == old(self).gamepad_enabled,
            final(self).number_of_flys == old(self).number_of_flys,
            final(self).last_move_time == old(self).last_move_time,
            !old(self).auto_shoot ==> final(self).last_shot_time == old(self).last_shot_time,
            ({
                let p = old(game_state).player.current_position;
                !(p is Some && target_in_sight(old(game_state).game_board@, p.unwrap().0, p.unwrap().1))
                    ==> final(self).last_shot_time == old(self).last_shot_time
            }),
    {
        if self.auto_shoot {
            let elapsed = millis_since(&self.last_shot_time);
            if self.auto_shoot_after(game_state, elapsed) {
                self.last_shot_time = instant_now();
            }
        }
    }

    /// Turns the keyboard on or off.
    pub fn set_keyboard_enabled(&mut self, enabled: bool)
        ensures
            final(self).keyboard_enabled == enabled,
            final(self).gamepad_enabled == old(self).gamepad_enabled,
            final(self).invocable == old(self).invocable,
            final(self).auto_pilot == old(self).auto_pilot,
            final(self).auto_shoot == old(self).auto_shoot,
            final(self).fly_move == old(self).fly_move,
            final(self).laser_shoot == old(self).laser_shoot,
            final(self).number_of_flys == old(self).number_of_flys,
    {
        self.keyboard_enabled = enabled;
    }

    /// Turns the gamepad on or off.
    pub fn set_gamepad_enabled(&mut self, enabled: bool)
        ensures
            final(self).gamepad_enabled == enabled,
            final(self).keyboard_enabled == old(self).keyboard_enabled,
            final(self).invocable == old(self).invocable,
            final(self).auto_pilot == old(self).auto_pilot,
            final(self).auto_shoot == old(self).auto_shoot,
            final(self).fly_move == old(self).fly_move,
            final(self).laser_shoot == old(self).laser_shoot,
            final(self).number_of_flys == old(self).number_of_flys,
    {
        self.gamepad_enabled = enabled;
    }

    /// Makes the player invincible, or not.
    pub fn set_no_death(&mut self, enabled: bool)
        ensures
            final(self).invocable == enabled,
            final(self).keyboard_enabled == old(self).keyboard_enabled,
            final(self).gamepad_enabled == old(self).gamepad_enabled,
            final(self).auto_pilot == old(self).auto_pilot,
            final(self).auto_shoot == old(self).auto_shoot,
            final(self).fly_move == old(self).fly_move,
            final(self).laser_shoot == old(self).laser_shoot,
            final(self).number_of_flys == old(self).number_of_flys,
    {
        self.invocable = enabled;
    }

    /// Turns the automatic pilot on or off.
    pub fn set_auto_move(&mut self, enabled: bool)
        ensures
            final(self).auto_pilot == enabled,
            final(self).keyboard_enabled == old(self).keyboard_enabled,
            final(self).gamepad_enabled == old(self).gamepad_enabled,
            final(self).invocable == old(self).invocable,
            final(self).auto_shoot == old(self).auto_shoot,
            final(self).fly_move == old(self).fly_move,
            final(self).laser_shoot == old(self).laser_shoot,
            final(self).number_of_flys == old(self).number_of_flys,
    {
        self.auto_pilot = enabled;
    }

    /// Turns the automatic gun on or off.
    pub fn set_auto_shoot(&mut self, enabled: bool)
        ensures
            final(self).auto_shoot == enabled,
            final(self).keyboard_enabled == old(self).keyboard_enabled,
            final(self).gamepad_enabled == old(self).gamepad_enabled,
            final(self).invocable == old(self).invocable,
            final(self).auto_pilot == old(self).auto_pilot,
            final(self).fly_move == old(self).fly_move,
            final(self).laser_shoot == old(self).laser_shoot,
            final(self).number_of_flys == old(self).number_of_flys,
    {
        self.auto_shoot = enabled;
    }
}

} // verus!
