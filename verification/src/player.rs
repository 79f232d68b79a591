//! The player's ship: its lives, where it stands and how it comes back.
use vstd::prelude::*;
use crate::structs::{Cords, Timer, TimerView, COLUMNS, ROWS};

verus! {

/// A key the player pressed.
#[derive(Clone, Copy, Debug, PartialEq, Eq, Structural)]
pub enum PlayerKey {
    ArrowLeft,
    ArrowRight,
    ArrowUp,
    Other,
}

/// The player's ship, abstractly.
pub struct PlayerView {
    pub display_char: char,
    pub lives: u8,
    pub current_position: Option<Cords>,
    pub start_position: Cords,
    pub death_timer: TimerView,
}

/// The cell where the player starts and comes back after a hit.
pub open spec fn start_cell() -> Cords {
    Cords((ROWS - 2) as usize, (COLUMNS / 2) as usize)
}

impl PlayerView {
    /// The player after being hit: one life less; while lives remain it
    /// leaves the board, and the second value is the lives left.
    pub open spec fn collided(self) -> (PlayerView, Option<u8>) {
        let lives = (self.lives - 1) as u8;
        if lives == 0 {
            (PlayerView { lives, ..self }, None)
        } else {
            (PlayerView { lives, current_position: None, ..self }, Some(lives))
        }
    }

    /// The player after a respawn attempt: off the board, it ticks its
    /// death timer and comes back to its start cell when the timer fires.
    pub open spec fn respawned(self) -> PlayerView {
        if self.current_position is None {
            let waited = PlayerView { death_timer: self.death_timer.ticked().0, ..self };
            if self.death_timer.ticked().1 {
                PlayerView { current_position: Some(self.start_position), ..waited }
            } else {
                waited
            }
        } else {
            self
        }
    }

    /// The player after a key press, and the cell a shot would start from
    /// (the cell above the player, for the up arrow).
    pub open spec fn keyed(self, key: Option<PlayerKey>) -> (PlayerView, Option<Cords>) {
        match self.current_position {
            Some(Cords(x, y)) => match key {
                Some(PlayerKey::ArrowLeft) => if y > 0 {
                    (PlayerView { current_position: Some(Cords(x, (y - 1) as usize)), ..self }, None)
                } else {
                    (self, None)
                },
                Some(PlayerKey::ArrowRight) => if y < COLUMNS - 1 {
                    (PlayerView { current_position: Some(Cords(x, (y + 1) as usize)), ..self }, None)
                } else {
                    (self, None)
                },
                Some(PlayerKey::ArrowUp) => (self, Some(Cords((x - 1) as usize, y))),
                _ => (self, None),
            },
            None => (self, None),
        }
    }
}

/// The player's ship.
pub struct Player {
    pub display_char: char,
    pub lives: u8,
    pub current_position: Option<Cords>,
    pub start_position: Cords,
    pub death_timer: Timer,
}

impl View for Player {
    type V = PlayerView;

    open spec fn view(&self) -> PlayerView {
        PlayerView {
            display_char: self.display_char,
            lives: self.lives,
            current_position: self.current_position,
            start_position: self.start_position,
            death_timer: self.death_timer@,
        }
    }
}

/// A new player with `lives` lives, standing on its start cell.
pub open spec fn fresh_player(lives: u8) -> PlayerView {
    PlayerView {
        display_char: '^',
        lives,
        current_position: Some(start_cell()),
        start_position: start_cell(),
        death_timer: TimerView { current_time: 0, interval: 200 },
    }
}

impl Player {
    /// A player with `lives` lives on the second row from the bottom, in the
    /// middle column; after a hit it waits 200 ticks before coming back.
    pub fn new(lives: u8) -> (res: Self)
        ensures
            res@ == fresh_player(lives),
    {
        let start_position = Cords(ROWS - 2, COLUMNS / 2);
        Player {
            display_char: '^',
            lives,
            current_position: Some(start_position),
            start_position,
            death_timer: Timer::new(200),
        }
    }

    /// Handles a key press: the arrows move the player one column, as long
    /// as it stays on the board; the up arrow returns the cell above the
    /// player, where a shot starts.
    pub fn use_key(&mut self, key: Option<PlayerKey>) -> (res: Option<Cords>)
        requires
            key == Some(PlayerKey::ArrowUp) && old(self).current_position is Some
                ==> old(self).current_position.unwrap().0 > 0,
        ensures
            (final(self)@, res) == old(self)@.keyed(key),
    {
        if let Some(Cords(x, y)) = self.current_position {
            match key {
                Some(PlayerKey::ArrowLeft) => {
                    if y > 0 {
                        self.move_to(Cords(x, y - 1));
                    }
                },
                Some(PlayerKey::ArrowRight) => {
                    if y < COLUMNS - 1 {
                        self.move_to(Cords(x, y + 1));
                    }
                },
                Some(PlayerKey::ArrowUp) => {
                    return Some(Cords(x - 1, y));
                },
                _ => {},
            }
        }
        None
    }

    /// Puts the player at `new_position`.
    pub fn move_to(&mut self, new_position: Cords)
        ensures
            final(self)@ == (PlayerView { current_position: Some(new_position), ..old(self)@ }),
    {
        self.current_position = Some(new_position);
    }

    /// Takes a hit: one life less; returns the lives left, or `None` when
    /// none are left (the player then stays where it was).
    pub fn handle_collision(&mut self) -> (res: Option<u8>)
        requires
            old(self).lives > 0,
        ensures
            (final(self)@, res) == old(self)@.collided(),
    {
        self.lives = self.lives - 1;
        if self.lives == 0 {
            None
        } else {
            self.current_position = None;
            Some(self.lives)
        }
    }

    /// While the player is off the board, ticks its death timer and puts
    /// it back on its start cell when the timer fires.
    pub fn respawn(&mut self, _can_respawn: bool)
        ensures
            final(self)@ == old(self)@.respawned(),
    {
        if self.current_position.is_none() && self.death_timer.tick() {
            let start = self.start_position;
            self.move_to(start);
        }
    }
}

/// A hit takes exactly one life; the player leaves the board unless it was
/// its last life, and a player off the board comes back only to its start
/// cell.
pub proof fn lemma_collision_and_respawn(p: PlayerView)
    requires
        p.lives > 0,
    ensures
        p.collided().0.lives == p.lives - 1,
        (p.collided().1 is None) == (p.lives == 1),
        p.collided().1 is Some ==> p.collided().0.current_position is None,
        p.current_position is None && p.respawned().current_position is Some
            ==> p.respawned().current_position == Some(p.start_position),
        p.current_position is Some ==> p.respawned() == p,
{
}

/// The arrow keys never take a player off the board, and the up arrow
/// aims at the cell just above the player.
pub proof fn lemma_keys_stay_on_board(p: PlayerView, key: Option<PlayerKey>)
    requires
        p.current_position matches Some(c) && c.in_bounds(),
    ensures
        p.keyed(key).0.current_position matches Some(c) && c.in_bounds(),
        p.keyed(key).0.lives == p.lives,
        key == Some(PlayerKey::ArrowUp) ==> p.keyed(key).1 == Some(Cords((p.current_position.unwrap().0 - 1) as usize, p.current_position.unwrap().1)),
        key != Some(PlayerKey::ArrowUp) ==> p.keyed(key).1 is None,
{
}

} // verus!
