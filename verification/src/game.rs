//! The game's controls: actions from the Arduino, keys, the gamepad, and
//! the opening wave of flies.
use vstd::prelude::*;
use crate::game_state::{GameState, addition, addition_gain, board_valid};
use crate::player::PlayerView;
use crate::settings::GameSettings;
use crate::ship::{Ship, ShipView, bullet_view, drawn_pattern, fly_view};
use crate::structs::{Cords, COLUMNS};

verus! {

/// An action sent by the Arduino controller.
#[derive(Clone, Copy, Debug, PartialEq, Eq, Structural)]
pub enum ArduinoAction {
    MoveRight,
    MoveLeft,
    Shoot,
}

/// A key pressed on the keyboard.
#[derive(Clone, Copy, Debug, PartialEq, Eq, Structural)]
pub enum KeyInput {
    ArrowLeft,
    ArrowRight,
    Space,
    KeyD,
    KeyM,
    KeyS,
    KeyA,
    KeyW,
    Other,
}

/// A gamepad button that toggles a setting.
#[derive(Clone, Copy, Debug, PartialEq, Eq, Structural)]
pub enum PadButton {
    North,
    East,
    South,
    West,
    DPadUp,
    DPadDown,
    DPadLeft,
    DPadRight,
}

/// Where the gamepad's left stick points: near the centre, far left, far
/// right, or in between.
#[derive(Clone, Copy, Debug, PartialEq, Eq, Structural)]
pub enum StickZone {
    Centered,
    Left,
    Right,
    Between,
}

/// The player after a step to the left (`right` false) or to the right,
/// from `(x, y)`: refused at the edge of the board and while the pilot
/// steers.
pub open spec fn stepped(p: PlayerView, x: usize, y: usize, right: bool, auto_pilot: bool) -> PlayerView {
    if auto_pilot {
        p
    } else if right && y < COLUMNS - 1 {
        PlayerView { current_position: Some(Cords(x, (y + 1) as usize)), ..p }
    } else if !right && y > 0 {
        PlayerView { current_position: Some(Cords(x, (y - 1) as usize)), ..p }
    } else {
        p
    }
}

/// While the automatic pilot steers, no manual step moves the player, in
/// either direction. Otherwise a step moves the player to the next column
/// of row `x` on the side asked for, unless `(x, y)` is at that edge of the
/// board; nothing but the player's cell changes.
pub proof fn lemma_pilot_blocks_manual_steps(p: PlayerView, x: usize, y: usize, right: bool, auto_pilot: bool)
    ensures
        auto_pilot ==> stepped(p, x, y, right, auto_pilot) == p,
        !auto_pilot && right && y + 1 < COLUMNS ==> stepped(p, x, y, right, auto_pilot).current_position == Some(
            Cords(x, (y + 1) as usize),
        ),
        !auto_pilot && !right && y >= 1 ==> stepped(p, x, y, right, auto_pilot).current_position == Some(
            Cords(x, (y - 1) as usize),
        ),
        !auto_pilot && right && y + 1 >= COLUMNS ==> stepped(p, x, y, right, auto_pilot) == p,
        !auto_pilot && !right && y == 0 ==> stepped(p, x, y, right, auto_pilot) == p,
        stepped(p, x, y, right, auto_pilot).lives == p.lives,
        stepped(p, x, y, right, auto_pilot).start_position == p.start_position,
        stepped(p, x, y, right, auto_pilot).death_timer == p.death_timer,
        stepped(p, x, y, right, auto_pilot).display_char == p.display_char,
{
}

/// A fly of the opening wave: one of the first three patterns, moving
/// every `fly_speed` ticks, with the given moves and shots.
pub open spec fn wave_fly(ship: ShipView, fly_speed: u32, fly_move: bool, laser_shoot: bool) -> bool {
    exists|k: u32| k < 3 && ship == fly_view(drawn_pattern(k), fly_speed, fly_move, laser_shoot, ship.id())
}

/// The cell above `(x, y)`, where the player's bullets start.
pub open spec fn above(c: Cords) -> Cords {
    Cords((c.0 - 1) as usize, c.1)
}

/// Board and score after the player fires a bullet from the cell above
/// `c`; `id` is the identifier of the ship that ends up on that cell.
pub open spec fn player_shot(board: Map<Cords, ShipView>, score: int, c: Cords, id: u128) -> (Map<Cords, ShipView>, int) {
    let (b, s, _) = addition(board, score, above(c), bullet_view(false, 15, id), id);
    (b, s)
}

/// The player's shot from `c` can be fired: the cell above exists and the
/// score has room for the fly it may hit.
pub open spec fn shot_ok(game_state: GameState, c: Cords) -> bool {
    &&& c.0 > 0
    &&& game_state.score + addition_gain(game_state.game_board@, above(c)) <= u32::MAX
}

/// Fires a bullet upwards from the cell above `c`.
fn fire_from(game_state: &mut GameState, c: Cords)
    requires
        shot_ok(*old(game_state), c),
    ensures
        ({
            let (b, s) = player_shot(old(game_state).game_board@, old(game_state).score as int, c, final(game_state).game_board@[above(c)].id());
            final(game_state).game_board@ == b && final(game_state).score == s
        }),
        board_valid(old(game_state).game_board@) ==> board_valid(final(game_state).game_board@),
        final(game_state).player == old(game_state).player,
        final(game_state).tick_count == old(game_state).tick_count,
        final(game_state).gamelevel == old(game_state).gamelevel,
{
    let bullet_position = Cords(c.0 - 1, c.1);
    let bullet = Ship::new_bullet(false, 15);
    proof {
        crate::ship::lemma_new_ships_valid(crate::fly_patterns::Fly_Pattern::Pattern1, 15, true, true, false, bullet@.id());
    }
    let _ = game_state.add_ship(bullet_position, bullet);
    proof {
        let id = game_state.game_board@[bullet_position].id();
        crate::ship::lemma_new_ships_valid(crate::fly_patterns::Fly_Pattern::Pattern1, 15, true, true, false, id);
    }
}

/// Applies one action from the Arduino: moves the player one column (not
/// past the edge, not while the pilot steers), or fires a bullet from the
/// cell above the player.
pub fn process_arduino_action(game_state: &mut GameState, game_settings: &GameSettings, action: ArduinoAction)
    requires
        action == ArduinoAction::Shoot && old(game_state).player.current_position is Some ==> shot_ok(
            *old(game_state),
            old(game_state).player.current_position.unwrap(),
        ),
    ensures
        ({
            let p = old(game_state).player@;
            match p.current_position {
                Some(c) => match action {
                    ArduinoAction::MoveRight => final(game_state).player@ == stepped(p, c.0, c.1, true, game_settings.auto_pilot)
                        && final(game_state).game_board == old(game_state).game_board && final(game_state).score == old(game_state).score,
                    ArduinoAction::MoveLeft => final(game_state).player@ == stepped(p, c.0, c.1, false, game_settings.auto_pilot)
                        && final(game_state).game_board == old(game_state).game_board && final(game_state).score == old(game_state).score,
                    ArduinoAction::Shoot => final(game_state).player == old(game_state).player
                        && (final(game_state).game_board@, final(game_state).score as int) == player_shot(
                            old(game_state).game_board@,
                            old(game_state).score as int,
                            c,
                            final(game_state).game_board@[above(c)].id(),
                        ),
                },
                None => final(game_state).player == old(game_state).player
                    && final(game_state).game_board == old(game_state).game_board && final(game_state).score == old(game_state).score,
            }
        }),
        game_settings.auto_pilot ==> final(game_state).player@ == old(game_state).player@,
        board_valid(old(game_state).game_board@) ==> board_valid(final(game_state).game_board@),
        final(game_state).tick_count == old(game_state).tick_count,
        final(game_state).gamelevel == old(game_state).gamelevel,
{
    match action {
        ArduinoAction::MoveRight => {
            if let Some(Cords(x, y)) = game_state.player.current_position {
                if y < COLUMNS - 1 && !game_settings.auto_pilot {
                    game_state.player.move_to(Cords(x, y + 1));
                }
            }
        },
        ArduinoAction::MoveLeft => {
            if let Some(Cords(x, y)) = game_state.player.current_position {
                if y > 0 && !game_settings.auto_pilot {
                    game_state.player.move_to(Cords(x, y - 1));
                }
            }
        },
        ArduinoAction::Shoot => {
            if let Some(c) = game_state.player.current_position {
                fire_from(game_state, c);
            }
        },
    }
}

/// Flips the setting that a key toggles: D invincibility, M the pilot, S
/// the automatic gun, A the flies' moves, W the flies' shots.
fn toggle_for_key(game_settings: &mut GameSettings, key: KeyInput)
    ensures
        final(game_settings).invocable == (old(game_settings).invocable != (key == KeyInput::KeyD)),
        final(game_settings).auto_pilot == (old(game_settings).auto_pilot != (key == KeyInput::KeyM)),
        final(game_settings).auto_shoot == (old(game_settings).auto_shoot != (key == KeyInput::KeyS)),
        final(game_settings).fly_move == (old(game_settings).fly_move != (key == KeyInput::KeyA)),
        final(game_settings).laser_shoot == (old(game_settings).laser_shoot != (key == KeyInput::KeyW)),
        final(game_settings).keyboard_enabled == old(game_settings).keyboard_enabled,
        final(game_settings).gamepad_enabled == old(game_settings).gamepad_enabled,
        final(game_settings).number_of_flys == old(game_settings).number_of_flys,
{
    match key {
        KeyInput::KeyD => {
            game_settings.invocable = !game_settings.invocable;
        },
        KeyInput::KeyM => {
            game_settings.auto_pilot = !game_settings.auto_pilot;
        },
        KeyInput::KeyS => {
            game_settings.auto_shoot = !game_settings.auto_shoot;
        },
        KeyInput::KeyA => {
            game_settings.fly_move = !game_settings.fly_move;
        },
        KeyInput::KeyW => {
            game_settings.laser_shoot = !game_settings.laser_shoot;
        },
        _ => {},
    }
}

/// Handles one key press, with `position` the player's cell read when the
/// batch of presses began: the arrows move the player one column from that
/// cell (not past the edge, not while the pilot steers); space fires a
/// bullet from the cell above it unless the automatic gun is on (returns
/// `true` then, so that the shot can be heard); the letter keys toggle
/// settings.
pub fn keyboard_key(game_state: &mut GameState, game_settings: &mut GameSettings, position: Cords, key: KeyInput) -> (shot: bool)
    requires
        key == KeyInput::Space && !old(game_settings).auto_shoot ==> shot_ok(*old(game_state), position),
    ensures
        shot == (key == KeyInput::Space && !old(game_settings).auto_shoot),
        key == KeyInput::ArrowLeft ==> final(game_state).player@ == stepped(old(game_state).player@, position.0, position.1, false, old(game_settings).auto_pilot),
        key == KeyInput::ArrowRight ==> final(game_state).player@ == stepped(old(game_state).player@, position.0, position.1, true, old(game_settings).auto_pilot),
        key != KeyInput::ArrowLeft && key != KeyInput::ArrowRight ==> final(game_state).player == old(game_state).player,
        shot ==> (final(game_state).game_board@, final(game_state).score as int) == player_shot(
            old(game_state).game_board@,
            old(game_state).score as int,
            position,
            final(game_state).game_board@[above(position)].id(),
        ),
        !shot ==> final(game_state).game_board == old(game_state).game_board && final(game_state).score == old(game_state).score,
        final(game_settings).invocable == (old(game_settings).invocable != (key == KeyInput::KeyD)),
        final(game_settings).auto_pilot == (old(game_settings).auto_pilot != (key == KeyInput::KeyM)),
        final(game_settings).auto_shoot == (old(game_settings).auto_shoot != (key == KeyInput::KeyS)),
        final(game_settings).fly_move == (old(game_settings).fly_move != (key == KeyInput::KeyA)),
        final(game_settings).laser_shoot == (old(game_settings).laser_shoot != (key == KeyInput::KeyW)),
        final(game_settings).keyboard_enabled == old(game_settings).keyboard_enabled,
        final(game_settings).gamepad_enabled == old(game_settings).gamepad_enabled,
        final(game_settings).number_of_flys == old(game_settings).number_of_flys,
        old(game_settings).auto_pilot ==> final(game_state).player@ == old(game_state).player@,
        board_valid(old(game_state).game_board@) ==> board_valid(final(game_state).game_board@),
        final(game_state).tick_count == old(game_state).tick_count,
        final(game_state).gamelevel == old(game_state).gamelevel,
{
    let Cords(x, y) = position;
    match key {
        KeyInput::ArrowLeft => {
            if y > 0 && !game_settings.auto_pilot {
                game_state.player.move_to(Cords(x, y - 1));
            }
            false
        },
        KeyInput::ArrowRight => {
            if y < COLUMNS - 1 && !game_settings.auto_pilot {
                game_state.player.move_to(Cords(x, y + 1));
            }
            false
        },
        KeyInput::Space => {
            if !game_settings.auto_shoot {
                fire_from(game_state, position);
                true
            } else {
                false
            }
        },
        _ => {
            toggle_for_key(game_settings, key);
            false
        },
    }
}

/// The five switches that keys and buttons toggle: invincibility, the
/// pilot, the automatic gun, the flies' moves and the flies' shots.
pub open spec fn switches(s: GameSettings) -> (bool, bool, bool, bool, bool) {
    (s.invocable, s.auto_pilot, s.auto_shoot, s.fly_move, s.laser_shoot)
}

/// The switches after a key press: D, M, S, A and W each flip one.
pub open spec fn key_toggled(t: (bool, bool, bool, bool, bool), key: KeyInput) -> (bool, bool, bool, bool, bool) {
    (
        t.0 != (key == KeyInput::KeyD),
        t.1 != (key == KeyInput::KeyM),
        t.2 != (key == KeyInput::KeyS),
        t.3 != (key == KeyInput::KeyA),
        t.4 != (key == KeyInput::KeyW),
    )
}

/// The switches after the first `n` presses of `keys`.
pub open spec fn switches_after(t: (bool, bool, bool, bool, bool), keys: Seq<KeyInput>, n: nat) -> (
    bool,
    bool,
    bool,
    bool,
    bool,
)
    decreases n,
{
    if n == 0 {
        t
    } else {
        key_toggled(switches_after(t, keys, (n - 1) as nat), keys[n - 1])
    }
}

/// The `i`-th press fires a shot: it is space, and the automatic gun is
/// off when it comes.
pub open spec fn press_fires(t: (bool, bool, bool, bool, bool), keys: Seq<KeyInput>, i: int) -> bool {
    keys[i] == KeyInput::Space && !switches_after(t, keys, i as nat).2
}

/// The number of shots among the first `n` presses.
pub open spec fn shots_in(t: (bool, bool, bool, bool, bool), keys: Seq<KeyInput>, n: nat) -> nat
    decreases n,
{
    if n == 0 {
        0
    } else {
        shots_in(t, keys, (n - 1) as nat) + if press_fires(t, keys, n - 1) { 1nat } else { 0 }
    }
}

/// The player after the first `n` presses, each arrow moving it one
/// column from `pos`, the cell it stood on when the presses began.
pub open spec fn player_after(
    p: PlayerView,
    t: (bool, bool, bool, bool, bool),
    pos: Cords,
    keys: Seq<KeyInput>,
    n: nat,
) -> PlayerView
    decreases n,
{
    if n == 0 {
        p
    } else {
        let q = player_after(p, t, pos, keys, (n - 1) as nat);
        let pilot = switches_after(t, keys, (n - 1) as nat).1;
        match keys[n - 1] {
            KeyInput::ArrowLeft => stepped(q, pos.0, pos.1, false, pilot),
            KeyInput::ArrowRight => stepped(q, pos.0, pos.1, true, pilot),
            _ => q,
        }
    }
}

/// Board and score after the first `n` presses: every shot fires a bullet
/// from the cell above `pos`; `ids` holds the identifier of the ship each
/// shot leaves on that cell.
pub open spec fn shots_after(
    board: Map<Cords, ShipView>,
    score: int,
    t: (bool, bool, bool, bool, bool),
    pos: Cords,
    keys: Seq<KeyInput>,
    ids: Seq<u128>,
    n: nat,
) -> (Map<Cords, ShipView>, int)
    decreases n,
{
    if n == 0 {
        (board, score)
    } else {
        let (b, s) = shots_after(board, score, t, pos, keys, ids, (n - 1) as nat);
        if press_fires(t, keys, n - 1) {
            player_shot(b, s, pos, ids[n - 1])
        } else {
            (b, s)
        }
    }
}

/// A shot leaves no fly on the cell above the player, so a later shot
/// there scores nothing.
proof fn lemma_shot_clears_target(board: Map<Cords, ShipView>, score: int, c: Cords, id: u128)
    ensures
        addition_gain(player_shot(board, score, c, id).0, above(c)) == 0,
        player_shot(board, score, c, id).1 == score + addition_gain(board, above(c)),
{
}

/// Whether some press of the batch would fire a shot: a space that comes
/// while the automatic gun is off, the gun being flipped by S.
pub fn presses_fire(game_settings: &GameSettings, keys: &Vec<KeyInput>) -> (res: bool)
    ensures
        res == exists|i: int| 0 <= i < keys@.len() && #[trigger] press_fires(switches(*game_settings), keys@, i),
{
    let ghost t = switches(*game_settings);
    let mut gun = game_settings.auto_shoot;
    let mut i: usize = 0;
    while i < keys.len()
        invariant
            i <= keys@.len(),
            t == switches(*game_settings),
            gun == switches_after(t, keys@, i as nat).2,
            forall|j: int| 0 <= j < i ==> !#[trigger] press_fires(t, keys@, j),
        decreases keys@.len() - i,
    {
        if keys[i] == KeyInput::Space && !gun {
            assert(press_fires(t, keys@, i as int));
            return true;
        }
        if keys[i] == KeyInput::KeyS {
            gun = !gun;
        }
        i = i + 1;
    }
    false
}

/// Handles a batch of key presses, in order, when the keyboard is on: each
/// is handled as by `keyboard_key`, from the cell the player stood on when
/// the batch began (a player off the board ignores them). Returns the
/// number of shots fired.
pub fn keyboard_presses(game_state: &mut GameState, game_settings: &mut GameSettings, keys: &Vec<KeyInput>) -> (shots: usize)
    requires
        old(game_settings).keyboard_enabled && old(game_state).player.current_position is Some && (exists|i: int|
            0 <= i < keys@.len() && #[trigger] press_fires(switches(*old(game_settings)), keys@, i)) ==> shot_ok(
            *old(game_state),
            old(game_state).player.current_position.unwrap(),
        ),
    ensures
        !old(game_settings).keyboard_enabled || old(game_state).player.current_position is None ==> {
            &&& *final(game_state) == *old(game_state)
            &&& *final(game_settings) == *old(game_settings)
            &&& shots == 0
        },
        old(game_settings).keyboard_enabled && old(game_state).player.current_position is Some ==> {
            let t = switches(*old(game_settings));
            let pos = old(game_state).player.current_position.unwrap();
            &&& switches(*final(game_settings)) == switches_after(t, keys@, keys@.len())
            &&& final(game_state).player@ == player_after(old(game_state).player@, t, pos, keys@, keys@.len())
            &&& shots == shots_in(t, keys@, keys@.len())
            &&& exists|ids: Seq<u128>|
                ids.len() == keys@.len() && (final(game_state).game_board@, final(game_state).score as int) == shots_after(
                    old(game_state).game_board@,
                    old(game_state).score as int,
                    t,
                    pos,
                    keys@,
                    ids,
                    keys@.len(),
                )
        },
        final(game_settings).keyboard_enabled == old(game_settings).keyboard_enabled,
        final(game_settings).gamepad_enabled == old(game_settings).gamepad_enabled,
        final(game_settings).number_of_flys == old(game_settings).number_of_flys,
        board_valid(old(game_state).game_board@) ==> board_valid(final(game_state).game_board@),
        final(game_state).tick_count == old(game_state).tick_count,
        final(game_state).gamelevel == old(game_state).gamelevel,
{
    if !game_settings.keyboard_enabled {
        return 0;
    }
    let position = match game_state.player.current_position {
        Some(c) => c,
        None => {
            return 0;
        },
    };
    let ghost t = switches(*game_settings);
    let ghost p0 = game_state.player@;
    let ghost b0 = game_state.game_board@;
    let ghost s0 = game_state.score as int;
    let ghost mut ids: Seq<u128> = Seq::empty();
    let ghost mut fired = false;
    let mut shots: usize = 0;
    let mut i: usize = 0;
    while i < keys.len()
        invariant
            i <= keys@.len(),
            ids.len() == i,
            shots == shots_in(t, keys@, i as nat),
            shots <= i,
            switches(*game_settings) == switches_after(t, keys@, i as nat),
            game_state.player@ == player_after(p0, t, position, keys@, i as nat),
            (game_state.game_board@, game_state.score as int) == shots_after(b0, s0, t, position, keys@, ids, i as nat),
            fired == (exists|j: int| 0 <= j < i && #[trigger] press_fires(t, keys@, j)),
            fired ==> addition_gain(game_state.game_board@, above(position)) == 0,
            (exists|j: int| 0 <= j < keys@.len() && #[trigger] press_fires(t, keys@, j)) ==> {
                &&& position.0 > 0
                &&& s0 + addition_gain(b0, above(position)) <= u32::MAX
            },
            !fired ==> game_state.game_board@ == b0 && game_state.score == s0,
            fired ==> game_state.score <= u32::MAX,
            game_settings.keyboard_enabled == old(game_settings).keyboard_enabled,
            game_settings.gamepad_enabled == old(game_settings).gamepad_enabled,
            game_settings.number_of_flys == old(game_settings).number_of_flys,
            board_valid(b0) ==> board_valid(game_state.game_board@),
            b0 == old(game_state).game_board@,
            s0 == old(game_state).score,
            p0 == old(game_state).player@,
            t == switches(*old(game_settings)),
            old(game_state).player.current_position == Some(position),
            game_state.tick_count == old(game_state).tick_count,
            game_state.gamelevel == old(game_state).gamelevel,
        decreases keys@.len() - i,
    {
        let key = keys[i];
        let ghost before_board = game_state.game_board@;
        let ghost before_score = game_state.score as int;
        proof {
            if press_fires(t, keys@, i as int) {
                assert(exists|j: int| 0 <= j < keys@.len() && #[trigger] press_fires(t, keys@, j));
            }
        }
        let shot = keyboard_key(game_state, game_settings, position, key);
        proof {
            let id = game_state.game_board@[above(position)].id();
            let earlier = ids;
            ids = earlier.push(if shot { id } else { 0 });
            lemma_shot_clears_target(before_board, before_score, position, id);
            lemma_shots_prefix(b0, s0, t, position, keys@, ids, earlier, i as nat);
            if shot {
                fired = true;
            }
            assert(fired == (exists|j: int| 0 <= j < i + 1 && #[trigger] press_fires(t, keys@, j))) by {
                if !press_fires(t, keys@, i as int) && (exists|j: int| 0 <= j < i + 1 && #[trigger] press_fires(t, keys@, j)) {
                    let j = choose|j: int| 0 <= j < i + 1 && #[trigger] press_fires(t, keys@, j);
                    assert(j < i);
                }
            }
        }
        if shot {
            shots = shots + 1;
        }
        i = i + 1;
    }
    shots
}

/// The shots of the first `n` presses depend only on the first `n`
/// identifiers.
proof fn lemma_shots_prefix(
    board: Map<Cords, ShipView>,
    score: int,
    t: (bool, bool, bool, bool, bool),
    pos: Cords,
    keys: Seq<KeyInput>,
    a: Seq<u128>,
    b: Seq<u128>,
    n: nat,
)
    requires
        forall|j: int| 0 <= j < n ==> a[j] == b[j],
    ensures
        shots_after(board, score, t, pos, keys, a, n) == shots_after(board, score, t, pos, keys, b, n),
    decreases n,
{
    if n > 0 {
        lemma_shots_prefix(board, score, t, pos, keys, a, b, (n - 1) as nat);
    }
}

/// Flips the setting that a gamepad button toggles: North invincibility,
/// West the pilot, South the automatic gun, East the flies' moves, the
/// right of the pad the flies' shots; other buttons do nothing.
pub fn gamepad_button(game_settings: &mut GameSettings, button: PadButton)
    ensures
        final(game_settings).invocable == (old(game_settings).invocable != (button == PadButton::North)),
        final(game_settings).auto_pilot == (old(game_settings).auto_pilot != (button == PadButton::West)),
        final(game_settings).auto_shoot == (old(game_settings).auto_shoot != (button == PadButton::South)),
        final(game_settings).fly_move == (old(game_settings).fly_move != (button == PadButton::East)),
        final(game_settings).laser_shoot == (old(game_settings).laser_shoot != (button == PadButton::DPadRight)),
        final(game_settings).keyboard_enabled == old(game_settings).keyboard_enabled,
        final(game_settings).gamepad_enabled == old(game_settings).gamepad_enabled,
        final(game_settings).number_of_flys == old(game_settings).number_of_flys,
{
    match button {
        PadButton::North => {
            game_settings.invocable = !game_settings.invocable;
        },
        PadButton::West => {
            game_settings.auto_pilot = !game_settings.auto_pilot;
        },
        PadButton::South => {
            game_settings.auto_shoot = !game_settings.auto_shoot;
        },
        PadButton::East => {
            game_settings.fly_move = !game_settings.fly_move;
        },
        PadButton::DPadRight => {
            game_settings.laser_shoot = !game_settings.laser_shoot;
        },
        _ => {},
    }
}

/// A pulled trigger: fires a bullet from the cell above the player unless
/// the automatic gun is on or the player is off the board; returns whether
/// it fired.
pub fn gamepad_trigger(game_state: &mut GameState, game_settings: &GameSettings) -> (shot: bool)
    requires
        !game_settings.auto_shoot && old(game_state).player.current_position is Some ==> shot_ok(
            *old(game_state),
            old(game_state).player.current_position.unwrap(),
        ),
    ensures
        shot == (!game_settings.auto_shoot && old(game_state).player.current_position is Some),
        shot ==> (final(game_state).game_board@, final(game_state).score as int) == player_shot(
            old(game_state).game_board@,
            old(game_state).score as int,
            old(game_state).player.current_position.unwrap(),
            final(game_state).game_board@[above(old(game_state).player.current_position.unwrap())].id(),
        ),
        !shot ==> final(game_state).game_board == old(game_state).game_board && final(game_state).score == old(game_state).score,
        board_valid(old(game_state).game_board@) ==> board_valid(final(game_state).game_board@),
        final(game_state).player == old(game_state).player,
        final(game_state).tick_count == old(game_state).tick_count,
        final(game_state).gamelevel == old(game_state).gamelevel,
{
    if !game_settings.auto_shoot {
        if let Some(c) = game_state.player.current_position {
            fire_from(game_state, c);
            return true;
        }
    }
    false
}

/// The player and the stick's flag after the left stick points to `zone`:
/// a flagged stick must come back near the centre (which clears the flag)
/// before it moves the player again; far left or far right moves the
/// player one column (not past the edge, not while the pilot steers) and
/// sets the flag.
pub open spec fn stick_turn(p: PlayerView, reset: bool, zone: StickZone, auto_pilot: bool) -> (PlayerView, bool) {
    match p.current_position {
        Some(c) => if reset {
            (p, zone != StickZone::Centered)
        } else if zone == StickZone::Left && c.1 > 0 && !auto_pilot {
            (stepped(p, c.0, c.1, false, false), true)
        } else if zone == StickZone::Right && c.1 < COLUMNS - 1 && !auto_pilot {
            (stepped(p, c.0, c.1, true, false), true)
        } else {
            (p, false)
        },
        None => (p, reset),
    }
}

/// The switches after a gamepad button: North, West, South, East and the
/// right of the pad each flip one.
pub open spec fn pad_toggled(t: (bool, bool, bool, bool, bool), button: PadButton) -> (bool, bool, bool, bool, bool) {
    (
        t.0 != (button == PadButton::North),
        t.1 != (button == PadButton::West),
        t.2 != (button == PadButton::South),
        t.3 != (button == PadButton::East),
        t.4 != (button == PadButton::DPadRight),
    )
}

/// The switches after the first `n` buttons of `pressed`.
pub open spec fn pad_switches_after(t: (bool, bool, bool, bool, bool), pressed: Seq<PadButton>, n: nat) -> (
    bool,
    bool,
    bool,
    bool,
    bool,
)
    decreases n,
{
    if n == 0 {
        t
    } else {
        pad_toggled(pad_switches_after(t, pressed, (n - 1) as nat), pressed[n - 1])
    }
}

/// The left stick: after a move, the stick must come back near the centre
/// (which clears `reset_flag`) before it can move the player again; far
/// left or far right moves the player one column (not past the edge, not
/// while the pilot steers) and sets the flag.
pub fn gamepad_stick(game_state: &mut GameState, game_settings: &GameSettings, zone: StickZone, reset_flag: &mut bool)
    ensures
        ({
            let p = old(game_state).player@;
            match p.current_position {
                Some(c) => if *old(reset_flag) {
                    &&& final(game_state).player == old(game_state).player
                    &&& *final(reset_flag) == (zone != StickZone::Centered)
                } else {
                    let moves_left = zone == StickZone::Left && c.1 > 0 && !game_settings.auto_pilot;
                    let moves_right = !moves_left && zone == StickZone::Right && c.1 < COLUMNS - 1 && !game_settings.auto_pilot;
                    &&& moves_left ==> final(game_state).player@ == stepped(p, c.0, c.1, false, false)
                    &&& moves_right ==> final(game_state).player@ == stepped(p, c.0, c.1, true, false)
                    &&& !moves_left && !moves_right ==> final(game_state).player == old(game_state).player
                    &&& *final(reset_flag) == (moves_left || moves_right)
                },
                None => final(game_state).player == old(game_state).player && *final(reset_flag) == *old(reset_flag),
            }
        }),
        (final(game_state).player@, *final(reset_flag)) == stick_turn(
            old(game_state).player@,
            *old(reset_flag),
            zone,
            game_settings.auto_pilot,
        ),
        game_settings.auto_pilot ==> final(game_state).player@ == old(game_state).player@,
        final(game_state).game_board == old(game_state).game_board,
        final(game_state).score == old(game_state).score,
        final(game_state).tick_count == old(game_state).tick_count,
        final(game_state).gamelevel == old(game_state).gamelevel,
{
    if let Some(Cords(x, y)) = game_state.player.current_position {
        if *reset_flag {
            if zone == StickZone::Centered {
                *reset_flag = false;
            }
        } else {
            if zone == StickZone::Left && y > 0 && !game_settings.auto_pilot {
                game_state.player.move_to(Cords(x, y - 1));
                *reset_flag = true;
            } else if zone == StickZone::Right && y < COLUMNS - 1 && !game_settings.auto_pilot {
                game_state.player.move_to(Cords(x, y + 1));
                *reset_flag = true;
            }
        }
    }
}

/// One frame of a gamepad, when the gamepad is on: the buttons pressed in
/// this frame toggle their settings, in order; a pulled trigger fires a
/// bullet from the cell above the player unless the automatic gun is then
/// on (returns whether it fired); then the left stick, when it reports,
/// moves the player as `gamepad_stick` does. When the gamepad is off,
/// nothing changes.
pub fn gamepad_frame(
    game_state: &mut GameState,
    game_settings: &mut GameSettings,
    pressed: &Vec<PadButton>,
    trigger: bool,
    zone: Option<StickZone>,
    reset_flag: &mut bool,
) -> (shot: bool)
    requires
        old(game_settings).gamepad_enabled && trigger && !pad_switches_after(
            switches(*old(game_settings)),
            pressed@,
            pressed@.len(),
        ).2 && old(game_state).player.current_position is Some ==> shot_ok(
            *old(game_state),
            old(game_state).player.current_position.unwrap(),
        ),
    ensures
        !old(game_settings).gamepad_enabled ==> {
            &&& *final(game_state) == *old(game_state)
            &&& *final(game_settings) == *old(game_settings)
            &&& *final(reset_flag) == *old(reset_flag)
            &&& !shot
        },
        old(game_settings).gamepad_enabled ==> {
            let after = pad_switches_after(switches(*old(game_settings)), pressed@, pressed@.len());
            let pos = old(game_state).player.current_position;
            &&& switches(*final(game_settings)) == after
            &&& shot == (trigger && !after.2 && pos is Some)
            &&& shot ==> (final(game_state).game_board@, final(game_state).score as int) == player_shot(
                old(game_state).game_board@,
                old(game_state).score as int,
                pos.unwrap(),
                final(game_state).game_board@[above(pos.unwrap())].id(),
            )
            &&& !shot ==> final(game_state).game_board == old(game_state).game_board && final(game_state).score
                == old(game_state).score
            &&& match zone {
                Some(z) => (final(game_state).player@, *final(reset_flag)) == stick_turn(
                    old(game_state).player@,
                    *old(reset_flag),
                    z,
                    after.1,
                ),
                None => final(game_state).player@ == old(game_state).player@ && *final(reset_flag) == *old(reset_flag),
            }
        },
        final(game_settings).keyboard_enabled == old(game_settings).keyboard_enabled,
        final(game_settings).gamepad_enabled == old(game_settings).gamepad_enabled,
        final(game_settings).number_of_flys == old(game_settings).number_of_flys,
        board_valid(old(game_state).game_board@) ==> board_valid(final(game_state).game_board@),
        final(game_state).tick_count == old(game_state).tick_count,
        final(game_state).gamelevel == old(game_state).gamelevel,
{
    if !game_settings.gamepad_enabled {
        return false;
    }
    let ghost t = switches(*game_settings);
    let mut i: usize = 0;
    while i < pressed.len()
        invariant
            i <= pressed@.len(),
            switches(*game_settings) == pad_switches_after(t, pressed@, i as nat),
            t == switches(*old(game_settings)),
            game_settings.keyboard_enabled == old(game_settings).keyboard_enabled,
            game_settings.gamepad_enabled == old(game_settings).gamepad_enabled,
            game_settings.number_of_flys == old(game_settings).number_of_flys,
        decreases pressed@.len() - i,
    {
        gamepad_button(game_settings, pressed[i]);
        i = i + 1;
    }
    let shot = if trigger {
        gamepad_trigger(game_state, game_settings)
    } else {
        false
    };
    if let Some(z) = zone {
        gamepad_stick(game_state, game_settings, z, reset_flag);
    }
    shot
}

/// The opening wave: a fly in every column, on the top row in even columns
/// and the second row in odd ones, each moving every `fly_speed` ticks and
/// following one of the first three patterns, with the settings' moves and
/// shots; a fly replaces whatever stood on its cell. `gap` is not used.
pub fn spawn_flies(game_state: &mut GameState, game_settings: &GameSettings, fly_speed: u32, gap: usize)
    ensures
        forall|c: Cords| #![trigger final(game_state).game_board@.contains_key(c)]
            if c.1 < COLUMNS && c.0 == c.1 % 2 {
                &&& final(game_state).game_board@.contains_key(c)
                &&& wave_fly(final(game_state).game_board@[c], fly_speed, game_settings.fly_move, game_settings.laser_shoot)
            } else {
                &&& final(game_state).game_board@.contains_key(c) == old(game_state).game_board@.contains_key(c)
                &&& old(game_state).game_board@.contains_key(c) ==> final(game_state).game_board@[c] == old(game_state).game_board@[c]
            },
        board_valid(old(game_state).game_board@) ==> board_valid(final(game_state).game_board@),
        final(game_state).score == old(game_state).score,
        final(game_state).player == old(game_state).player,
        final(game_state).tick_count == old(game_state).tick_count,
        final(game_state).gamelevel == old(game_state).gamelevel,
{
    let ghost board0 = game_state.game_board@;
    let mut i: usize = 0;
    while i < COLUMNS
        invariant
            i <= COLUMNS,
            forall|c: Cords| #![trigger game_state.game_board@.contains_key(c)]
                if c.1 < i && c.0 == c.1 % 2 {
                    &&& game_state.game_board@.contains_key(c)
                    &&& wave_fly(game_state.game_board@[c], fly_speed, game_settings.fly_move, game_settings.laser_shoot)
                } else {
                    &&& game_state.game_board@.contains_key(c) == board0.contains_key(c)
                    &&& board0.contains_key(c) ==> game_state.game_board@[c] == board0[c]
                },
            board_valid(board0) ==> board_valid(game_state.game_board@),
            board0 == old(game_state).game_board@,
            game_state.score == old(game_state).score,
            game_state.player == old(game_state).player,
            game_state.tick_count == old(game_state).tick_count,
            game_state.gamelevel == old(game_state).gamelevel,
        decreases COLUMNS - i,
    {
        let x: usize = if i % 2 == 0 {
            0
        } else {
            1
        };
        let fly = Ship::new_fly(fly_speed, game_settings.fly_move, game_settings.laser_shoot);
        proof {
            let k = choose|k: u32| k < 3 && fly@ == fly_view(drawn_pattern(k), fly_speed, game_settings.fly_move, game_settings.laser_shoot, fly@.id());
            crate::ship::lemma_new_ships_valid(drawn_pattern(k), fly_speed, game_settings.fly_move, game_settings.laser_shoot, true, fly@.id());
        }
        game_state.game_board.insert(Cords(x, i), fly);
        i = i + 1;
    }
}

} // verus!
