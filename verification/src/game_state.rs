//! The state of a game and the rules that move it on: placing and removing
//! ships, the ships' turns and the player's collisions.
use vstd::prelude::*;
use crate::board::{GameBoard, cell_key, key_cell, lemma_cell_key_bijective};
use crate::player::{Player, PlayerView, fresh_player};
use crate::settings::GameSettings;
use crate::ship::{Ship, ShipView, bullet_view, explosion_view, is_random_id};
use crate::structs::{Cords, GameLevel, Level, ShipAction, COLUMNS, ROWS};

verus! {

/// The message of the error returned for a cell off the board.
pub open spec fn out_of_bounds_message() -> Seq<char> {
    "Coordinates are out of bounds."@
}

/// Points scored for taking a fly off the board.
pub open spec fn fly_points() -> int {
    100
}

/// The points that taking the ship at `c` off `board` scores.
pub open spec fn removal_gain(board: Map<Cords, ShipView>, c: Cords) -> int {
    if board.contains_key(c) && board[c].is_fly() {
        fly_points()
    } else {
        0
    }
}

/// Board and score after taking the ship at `c` (if any) off the board.
pub open spec fn removal(board: Map<Cords, ShipView>, score: int, c: Cords) -> (Map<Cords, ShipView>, int) {
    if board.contains_key(c) {
        (board.remove(c), score + removal_gain(board, c))
    } else {
        (board, score)
    }
}

/// The points that putting a ship at `c` scores: those of the ship it
/// knocks out.
pub open spec fn addition_gain(board: Map<Cords, ShipView>, c: Cords) -> int {
    if c.in_bounds() {
        removal_gain(board, c)
    } else {
        0
    }
}

/// Board, score and success after putting `ship` at `c`: a cell off the
/// board is refused; on an occupied cell both ships are destroyed and an
/// explosion with identifier `eid` takes the cell; otherwise the ship is
/// placed.
pub open spec fn addition(board: Map<Cords, ShipView>, score: int, c: Cords, ship: ShipView, eid: u128) -> (
    Map<Cords, ShipView>,
    int,
    bool,
) {
    if !c.in_bounds() {
        (board, score, false)
    } else if board.contains_key(c) {
        let (b, s) = removal(board, score, c);
        (b.insert(c, explosion_view(eid)), s, true)
    } else {
        (board.insert(c, ship), score, true)
    }
}

/// Every ship on the board can run its script on any cell.
pub open spec fn board_valid(board: Map<Cords, ShipView>) -> bool {
    forall|c: Cords| #[trigger] board.contains_key(c) ==> board[c].valid()
}

/// Board, score and success after the turn of the ship listed as standing
/// at `cords` with identifier `id`. The ship is lifted off the board first;
/// a ship with another identifier is dropped. `fresh` holds the
/// identifiers of the bullet and of the explosion that the turn may create.
pub open spec fn ship_step(board: Map<Cords, ShipView>, score: int, cords: Cords, id: u128, fresh: (u128, u128)) -> (
    Map<Cords, ShipView>,
    int,
    bool,
) {
    if !board.contains_key(cords) {
        (board, score, true)
    } else {
        let rest = board.remove(cords);
        if board[cords].id() != id {
            (rest, score, true)
        } else {
            let (moved, action) = board[cords].acted(cords, rest);
            match action {
                ShipAction::Remove => {
                    let (b, s) = removal(rest, score, cords);
                    (b, s, true)
                },
                ShipAction::Shoot => {
                    let (b1, s1, ok1) = addition(rest, score, cords, moved, fresh.1);
                    if !ok1 {
                        (b1, s1, false)
                    } else {
                        addition(
                            b1,
                            s1,
                            Cords((cords.0 + 1) as usize, cords.1),
                            bullet_view(true, 15, fresh.0),
                            fresh.1,
                        )
                    }
                },
                ShipAction::Move(target, wrapped) => {
                    if !wrapped || moved.wraps() {
                        addition(rest, score, target, moved, fresh.1)
                    } else {
                        (rest, score, true)
                    }
                },
                ShipAction::Nothing => addition(rest, score, cords, moved, fresh.1),
            }
        }
    }
}

/// Board, score and success after the turns of the first `n` ships of
/// `order`; the turns stop at the first failure.
pub open spec fn ships_turns(
    board: Map<Cords, ShipView>,
    score: int,
    order: Seq<(Cords, u128)>,
    fresh: Seq<(u128, u128)>,
    n: nat,
) -> (Map<Cords, ShipView>, int, bool)
    decreases n,
{
    if n == 0 {
        (board, score, true)
    } else {
        let (b, s, ok) = ships_turns(board, score, order, fresh, (n - 1) as nat);
        if !ok {
            (b, s, false)
        } else {
            ship_step(b, s, order[n - 1].0, order[n - 1].1, fresh[n - 1])
        }
    }
}

/// The turns of the first `n` ships depend only on the first `n` pairs of
/// fresh identifiers.
proof fn lemma_turns_prefix(
    board: Map<Cords, ShipView>,
    score: int,
    order: Seq<(Cords, u128)>,
    f1: Seq<(u128, u128)>,
    f2: Seq<(u128, u128)>,
    n: nat,
)
    requires
        forall|j: int| 0 <= j < n ==> f1[j] == f2[j],
    ensures
        ships_turns(board, score, order, f1, n) == ships_turns(board, score, order, f2, n),
    decreases n,
{
    if n > 0 {
        lemma_turns_prefix(board, score, order, f1, f2, (n - 1) as nat);
    }
}

/// Once a turn has failed, later turns change nothing.
proof fn lemma_turns_stop(
    board: Map<Cords, ShipView>,
    score: int,
    order: Seq<(Cords, u128)>,
    fresh: Seq<(u128, u128)>,
    n: nat,
    m: nat,
)
    requires
        n <= m,
        !ships_turns(board, score, order, fresh, n).2,
    ensures
        ships_turns(board, score, order, fresh, m) == ships_turns(board, score, order, fresh, n),
    decreases m,
{
    if m > n {
        lemma_turns_stop(board, score, order, fresh, n, (m - 1) as nat);
    }
}

/// `order` lists each ship on the board once, with its identifier.
pub open spec fn lists_board(board: Map<Cords, ShipView>, order: Seq<(Cords, u128)>) -> bool {
    &&& forall|i: int, j: int| 0 <= i < order.len() && 0 <= j < order.len() && i != j ==> order[i].0 != order[j].0
    &&& forall|i: int| 0 <= i < order.len() ==> board.contains_key(#[trigger] order[i].0) && order[i].1 == board[order[i].0].id()
    &&& forall|c: Cords| board.contains_key(c) ==> exists|i: int| 0 <= i < order.len() && (#[trigger] order[i]).0 == c
    &&& order.len() <= ROWS * COLUMNS
}

/// Board, score and success after the ship phase: the turns of the ships
/// as listed in some walk of the board, with some random identifiers for
/// the ships the turns create.
pub open spec fn ship_phase(
    board: Map<Cords, ShipView>,
    score: int,
    new_board: Map<Cords, ShipView>,
    new_score: int,
    ok: bool,
) -> bool {
    exists|order: Seq<(Cords, u128)>, fresh: Seq<(u128, u128)>| {
        &&& lists_board(board, order)
        &&& fresh.len() == order.len()
        &&& forall|j: int| 0 <= j < fresh.len() ==> is_random_id(#[trigger] fresh[j].0) && is_random_id(fresh[j].1)
        &&& (new_board, new_score, ok) == ships_turns(board, score, order, fresh, order.len())
    }
}

/// Board, score and success after moving the ship at `from` to `to`:
/// the ship is taken off (scoring it if it is a fly) and put back at `to`.
pub open spec fn moving(board: Map<Cords, ShipView>, score: int, from: Cords, to: Cords, eid: u128) -> (
    Map<Cords, ShipView>,
    int,
) {
    let (b, s) = removal(board, score, from);
    if board.contains_key(from) {
        let (b2, s2, _) = addition(b, s, to, board[from], eid);
        (b2, s2)
    } else {
        (b, s)
    }
}

/// Board, score, player and end of game after the player's turn: a player
/// that stands on a ship clears it; an invincible player is unharmed,
/// otherwise an explosion takes the cell and the player loses a life, and
/// the game ends with the last life. Then the player tries to respawn.
/// `eid` is the identifier of the explosion.
pub open spec fn player_turn(
    board: Map<Cords, ShipView>,
    score: int,
    player: PlayerView,
    invocable: bool,
    eid: u128,
) -> (Map<Cords, ShipView>, int, PlayerView, bool) {
    if player.current_position is Some && board.contains_key(player.current_position.unwrap()) {
        let pos = player.current_position.unwrap();
        let (b, s) = removal(board, score, pos);
        if invocable {
            (b, s, player.respawned(), false)
        } else {
            let b2 = b.insert(pos, explosion_view(eid));
            let (hit, left) = player.collided();
            if left is None {
                (b2, s, hit, true)
            } else {
                (b2, s, hit.respawned(), false)
            }
        }
    } else {
        (board, score, player.respawned(), false)
    }
}

/// The player's turn can be played without overflow or underflow: a
/// collision leaves room in the score for a fly, and a player who is not
/// invincible has a life to lose.
pub open spec fn player_turn_ok(board: Map<Cords, ShipView>, score: int, player: PlayerView, invocable: bool) -> bool {
    player.current_position is Some && board.contains_key(player.current_position.unwrap()) ==> {
        &&& score + removal_gain(board, player.current_position.unwrap()) <= u32::MAX
        &&& !invocable ==> player.lives > 0
    }
}

/// Putting a ship on a free cell of the board and then taking it off
/// gives back the board as it was, with the ship; the score gains only
/// the points of the ship taken off.
pub proof fn lemma_add_then_remove(board: Map<Cords, ShipView>, score: int, c: Cords, ship: ShipView, eid: u128)
    requires
        c.in_bounds(),
        !board.contains_key(c),
    ensures
        ({
            let (b1, s1, ok) = addition(board, score, c, ship, eid);
            &&& ok
            &&& b1.contains_key(c) && b1[c] == ship
            &&& removal(b1, s1, c) == (board, score + if ship.is_fly() { fly_points() } else { 0 })
        }),
{
    let (b1, s1, ok) = addition(board, score, c, ship, eid);
    assert(b1.remove(c) =~= board);
}

/// A cell off the board is refused and changes nothing.
pub proof fn lemma_off_board_refused(board: Map<Cords, ShipView>, score: int, c: Cords, ship: ShipView, eid: u128)
    requires
        !c.in_bounds(),
    ensures
        addition(board, score, c, ship, eid) == (board, score, false),
{
}

/// Putting a ship on an occupied cell destroys both ships: the cell holds
/// an explosion afterwards.
pub proof fn lemma_collision_explodes(board: Map<Cords, ShipView>, score: int, c: Cords, ship: ShipView, eid: u128)
    requires
        c.in_bounds(),
        board.contains_key(c),
    ensures
        addition(board, score, c, ship, eid).0 == board.insert(c, explosion_view(eid)),
        addition(board, score, c, ship, eid).1 == score + removal_gain(board, c),
{
}

/// The score never goes down: not when a ship is taken off or put on the
/// board, not in the ship phase, not in the player's turn.
pub proof fn lemma_score_never_drops(
    board: Map<Cords, ShipView>,
    score: int,
    c: Cords,
    ship: ShipView,
    eid: u128,
    id: u128,
    step_fresh: (u128, u128),
    order: Seq<(Cords, u128)>,
    fresh: Seq<(u128, u128)>,
    n: nat,
    player: PlayerView,
    invocable: bool,
)
    ensures
        removal(board, score, c).1 >= score,
        addition(board, score, c, ship, eid).1 >= score,
        ship_step(board, score, c, id, step_fresh).1 >= score,
        ships_turns(board, score, order, fresh, n).1 >= score,
        player_turn(board, score, player, invocable, eid).1 >= score,
    decreases n,
{
    lemma_step_score(board, score, c, id, step_fresh);
    if n > 0 {
        lemma_score_never_drops(board, score, c, ship, eid, id, step_fresh, order, fresh, (n - 1) as nat, player, invocable);
        let (b, s, ok) = ships_turns(board, score, order, fresh, (n - 1) as nat);
        lemma_step_score(b, s, order[n - 1].0, order[n - 1].1, fresh[n - 1]);
    }
}

/// In the player's turn a player standing on a ship loses exactly one life
/// unless invincible, and the game ends exactly when that was its last
/// life; a player standing on no ship keeps its lives and the game goes on.
pub proof fn lemma_game_over_on_last_life(
    board: Map<Cords, ShipView>,
    score: int,
    player: PlayerView,
    invocable: bool,
    eid: u128,
)
    requires
        player.lives > 0,
    ensures
        ({
            let hit = player.current_position is Some && board.contains_key(player.current_position.unwrap());
            let (_, _, after, over) = player_turn(board, score, player, invocable, eid);
            &&& after.lives == if hit && !invocable { player.lives - 1 } else { player.lives as int }
            &&& over == (hit && !invocable && player.lives == 1)
        }),
{
}

/// A ship's turn raises the score by at most the points of one fly.
proof fn lemma_step_score(board: Map<Cords, ShipView>, score: int, cords: Cords, id: u128, fresh: (u128, u128))
    ensures
        score <= ship_step(board, score, cords, id, fresh).1 <= score + fly_points(),
{
}

/// Every ship on the board stands on a cell of the board.
pub open spec fn keys_in_bounds(board: Map<Cords, ShipView>) -> bool {
    forall|c: Cords| #[trigger] board.contains_key(c) ==> c.in_bounds()
}

/// 1 when a fly stands at `c`, else 0.
pub open spec fn fly_at(board: Map<Cords, ShipView>, c: Cords) -> int {
    if board.contains_key(c) && board[c].is_fly() {
        1
    } else {
        0
    }
}

/// The number of flies on the cells whose keys are below `n`.
pub open spec fn flies_below(board: Map<Cords, ShipView>, n: nat) -> int
    decreases n,
{
    if n == 0 {
        0
    } else {
        flies_below(board, (n - 1) as nat) + fly_at(board, key_cell(n - 1))
    }
}

/// The number of flies on the board.
pub open spec fn fly_count(board: Map<Cords, ShipView>) -> int {
    flies_below(board, (ROWS * COLUMNS) as nat)
}

/// The score plus the points of every fly still on the board: what the
/// score could still reach by clearing the board.
pub open spec fn potential(board: Map<Cords, ShipView>, score: int) -> int {
    score + fly_points() * fly_count(board)
}

/// Changing the board at one cell `c` of the board changes the count of
/// flies by what changed at `c`.
proof fn lemma_flies_update(b: Map<Cords, ShipView>, b2: Map<Cords, ShipView>, c: Cords, n: nat)
    requires
        c.in_bounds(),
        n <= ROWS * COLUMNS,
        forall|d: Cords| d != c ==> #[trigger] fly_at(b2, d) == fly_at(b, d),
    ensures
        flies_below(b2, n) == flies_below(b, n) + if n > cell_key(c) { fly_at(b2, c) - fly_at(b, c) } else { 0 },
        0 <= flies_below(b, n) <= n,
    decreases n,
{
    if n > 0 {
        lemma_flies_update(b, b2, c, (n - 1) as nat);
        let d = key_cell(n - 1);
        lemma_cell_key_bijective(c, n - 1);
        lemma_cell_key_bijective(d, n - 1);
        assert(fly_at(b2, d) == fly_at(b, d) || d == c);
    }
}

/// A fly on a cell of the board is counted, and the count stays within
/// the number of cells.
proof fn lemma_fly_counted(b: Map<Cords, ShipView>, c: Cords)
    requires
        c.in_bounds(),
    ensures
        fly_count(b) >= fly_at(b, c),
        0 <= fly_count(b) <= ROWS * COLUMNS,
{
    let b2 = b.remove(c);
    assert forall|d: Cords| d != c implies #[trigger] fly_at(b2, d) == fly_at(b, d) by {}
    lemma_flies_update(b, b2, c, (ROWS * COLUMNS) as nat);
    lemma_flies_update(b2, b2, c, (ROWS * COLUMNS) as nat);
    lemma_cell_key_bijective(c, 0);
}

/// Putting `ship` at a cell of the board changes the count of flies by
/// what changed at that cell.
proof fn lemma_count_insert(b: Map<Cords, ShipView>, c: Cords, ship: ShipView)
    requires
        c.in_bounds(),
    ensures
        fly_count(b.insert(c, ship)) == fly_count(b) - fly_at(b, c) + if ship.is_fly() { 1int } else { 0 },
{
    let b2 = b.insert(c, ship);
    assert forall|d: Cords| d != c implies #[trigger] fly_at(b2, d) == fly_at(b, d) by {}
    lemma_flies_update(b, b2, c, (ROWS * COLUMNS) as nat);
    lemma_cell_key_bijective(c, 0);
}

/// Taking the ship at a cell of the board off removes it from the count.
proof fn lemma_count_remove(b: Map<Cords, ShipView>, c: Cords)
    requires
        c.in_bounds(),
    ensures
        fly_count(b.remove(c)) == fly_count(b) - fly_at(b, c),
{
    let b2 = b.remove(c);
    assert forall|d: Cords| d != c implies #[trigger] fly_at(b2, d) == fly_at(b, d) by {}
    lemma_flies_update(b, b2, c, (ROWS * COLUMNS) as nat);
    lemma_cell_key_bijective(c, 0);
}

/// Taking a ship off keeps the potential: a fly's points move from the
/// board to the score.
proof fn lemma_removal_potential(b: Map<Cords, ShipView>, score: int, c: Cords)
    requires
        keys_in_bounds(b),
    ensures
        potential(removal(b, score, c).0, removal(b, score, c).1) == potential(b, score),
        keys_in_bounds(removal(b, score, c).0),
{
    if b.contains_key(c) {
        lemma_count_remove(b, c);
    }
}

/// Putting a ship on the board raises the potential by at most the points
/// of the ship itself, when it is a fly.
proof fn lemma_addition_potential(b: Map<Cords, ShipView>, score: int, c: Cords, ship: ShipView, eid: u128)
    requires
        keys_in_bounds(b),
    ensures
        potential(addition(b, score, c, ship, eid).0, addition(b, score, c, ship, eid).1) <= potential(b, score)
            + if ship.is_fly() { fly_points() } else { 0 },
        keys_in_bounds(addition(b, score, c, ship, eid).0),
        score + addition_gain(b, c) <= potential(b, score),
{
    if c.in_bounds() {
        lemma_fly_counted(b, c);
        if b.contains_key(c) {
            let (r, s) = removal(b, score, c);
            lemma_count_remove(b, c);
            lemma_count_insert(r, c, explosion_view(eid));
        } else {
            lemma_count_insert(b, c, ship);
        }
    } else {
        lemma_fly_counted(b, Cords(0, 0));
    }
}

/// A ship's turn never raises the potential, and keeps every ship on the
/// board.
pub proof fn lemma_step_potential(board: Map<Cords, ShipView>, score: int, cords: Cords, id: u128, fresh: (u128, u128))
    requires
        keys_in_bounds(board),
    ensures
        potential(ship_step(board, score, cords, id, fresh).0, ship_step(board, score, cords, id, fresh).1)
            <= potential(board, score),
        keys_in_bounds(ship_step(board, score, cords, id, fresh).0),
{
    if board.contains_key(cords) {
        let rest = board.remove(cords);
        lemma_count_remove(board, cords);
        assert(keys_in_bounds(rest));
        if board[cords].id() == id {
            let (moved, action) = board[cords].acted(cords, rest);
            assert(moved.is_fly() == board[cords].is_fly());
            match action {
                ShipAction::Remove => {
                    lemma_removal_potential(rest, score, cords);
                },
                ShipAction::Shoot => {
                    lemma_addition_potential(rest, score, cords, moved, fresh.1);
                    let (b1, s1, ok1) = addition(rest, score, cords, moved, fresh.1);
                    lemma_addition_potential(
                        b1,
                        s1,
                        Cords((cords.0 + 1) as usize, cords.1),
                        bullet_view(true, 15, fresh.0),
                        fresh.1,
                    );
                },
                ShipAction::Move(target, wrapped) => {
                    lemma_addition_potential(rest, score, target, moved, fresh.1);
                },
                ShipAction::Nothing => {
                    lemma_addition_potential(rest, score, cords, moved, fresh.1);
                },
            }
        }
    }
}

/// The turns of the ships never raise the potential, and keep every ship
/// on the board: the score rises only by flies that leave the board.
pub proof fn lemma_turns_potential(
    board: Map<Cords, ShipView>,
    score: int,
    order: Seq<(Cords, u128)>,
    fresh: Seq<(u128, u128)>,
    n: nat,
)
    requires
        keys_in_bounds(board),
    ensures
        potential(ships_turns(board, score, order, fresh, n).0, ships_turns(board, score, order, fresh, n).1)
            <= potential(board, score),
        keys_in_bounds(ships_turns(board, score, order, fresh, n).0),
    decreases n,
{
    if n > 0 {
        lemma_turns_potential(board, score, order, fresh, (n - 1) as nat);
        let (b, s, ok) = ships_turns(board, score, order, fresh, (n - 1) as nat);
        if ok {
            lemma_step_potential(b, s, order[n - 1].0, order[n - 1].1, fresh[n - 1]);
        }
    }
}

/// The player stands on a ship of `board`.
pub open spec fn player_hit(board: Map<Cords, ShipView>, player: PlayerView) -> bool {
    player.current_position is Some && board.contains_key(player.current_position.unwrap())
}

/// The turn of the ship listed as standing at `cords` with identifier `id`
/// can be played on `board`: the ship, lifted off the board, can play its
/// script there.
pub open spec fn step_ok(board: Map<Cords, ShipView>, cords: Cords, id: u128) -> bool {
    board.contains_key(cords) && board[cords].id() == id ==> board[cords].ai().runs_at(cords, board.remove(cords))
}

/// The turns of the first `n` ships of `order` can be played, each on the
/// board and with the score the earlier turns left, without the score
/// passing `u32::MAX`.
pub open spec fn turns_ok(
    board: Map<Cords, ShipView>,
    score: int,
    order: Seq<(Cords, u128)>,
    fresh: Seq<(u128, u128)>,
    n: nat,
) -> bool
    decreases n,
{
    if n == 0 {
        true
    } else {
        let (b, s, ok) = ships_turns(board, score, order, fresh, (n - 1) as nat);
        &&& turns_ok(board, score, order, fresh, (n - 1) as nat)
        &&& ok ==> step_ok(b, order[n - 1].0, order[n - 1].1)
        &&& ok ==> ship_step(b, s, order[n - 1].0, order[n - 1].1, fresh[n - 1]).1 <= u32::MAX
    }
}

/// The ship phase can be played on `board` from `score`, whatever the
/// order in which the board is walked and whatever identifiers the new
/// ships get.
pub open spec fn phase_ok(board: Map<Cords, ShipView>, score: int) -> bool {
    forall|order: Seq<(Cords, u128)>, fresh: Seq<(u128, u128)>|
        lists_board(board, order) && fresh.len() == order.len() ==> #[trigger] turns_ok(
            board,
            score,
            order,
            fresh,
            order.len(),
        )
}

/// Turns that can be played up to `n` can be played up to any `i < n`,
/// and the `i`-th can be played on the board the earlier ones left.
proof fn lemma_turns_ok_step(
    board: Map<Cords, ShipView>,
    score: int,
    order: Seq<(Cords, u128)>,
    fresh: Seq<(u128, u128)>,
    i: nat,
    n: nat,
)
    requires
        i < n,
        turns_ok(board, score, order, fresh, n),
    ensures
        ships_turns(board, score, order, fresh, i).2 ==> step_ok(
            ships_turns(board, score, order, fresh, i).0,
            order[i as int].0,
            order[i as int].1,
        ),
        ships_turns(board, score, order, fresh, i).2 ==> ship_step(
            ships_turns(board, score, order, fresh, i).0,
            ships_turns(board, score, order, fresh, i).1,
            order[i as int].0,
            order[i as int].1,
            fresh[i as int],
        ).1 <= u32::MAX,
    decreases n,
{
    if i + 1 < n {
        lemma_turns_ok_step(board, score, order, fresh, i, (n - 1) as nat);
    }
}

/// On a board whose ships can all run anywhere, every turn can be played
/// and leaves the board so.
proof fn lemma_valid_step(board: Map<Cords, ShipView>, score: int, cords: Cords, id: u128, fresh: (u128, u128))
    requires
        board_valid(board),
        keys_in_bounds(board),
    ensures
        step_ok(board, cords, id),
        board_valid(ship_step(board, score, cords, id, fresh).0),
{
    crate::ship::lemma_new_ships_valid(crate::fly_patterns::Fly_Pattern::Pattern1, 15, true, true, true, fresh.0);
    crate::ship::lemma_new_ships_valid(crate::fly_patterns::Fly_Pattern::Pattern1, 15, true, true, true, fresh.1);
    if board.contains_key(cords) {
        let rest = board.remove(cords);
        assert(board_valid(rest));
        crate::ship::lemma_valid_script_runs(board[cords].ai(), cords, rest);
        crate::ship::lemma_turn_keeps_valid(board[cords].ai(), cords, rest);
        let (moved, action) = board[cords].acted(cords, rest);
        assert(moved.valid());
        match action {
            ShipAction::Shoot => {
                let (b1, s1, ok1) = addition(rest, score, cords, moved, fresh.1);
                assert(board_valid(b1));
            },
            _ => {},
        }
    }
}

/// On a board whose ships can all run anywhere, and with room in the score
/// for every fly on it, every walk of the ship phase can be played, and
/// the board stays so.
proof fn lemma_valid_turns(
    board: Map<Cords, ShipView>,
    score: int,
    order: Seq<(Cords, u128)>,
    fresh: Seq<(u128, u128)>,
    n: nat,
)
    requires
        board_valid(board),
        keys_in_bounds(board),
        potential(board, score) <= u32::MAX,
    ensures
        turns_ok(board, score, order, fresh, n),
        board_valid(ships_turns(board, score, order, fresh, n).0),
    decreases n,
{
    if n > 0 {
        lemma_valid_turns(board, score, order, fresh, (n - 1) as nat);
        lemma_turns_potential(board, score, order, fresh, (n - 1) as nat);
        let (b, s, ok) = ships_turns(board, score, order, fresh, (n - 1) as nat);
        if ok {
            lemma_valid_step(b, s, order[n - 1].0, order[n - 1].1, fresh[n - 1]);
            lemma_step_potential(b, s, order[n - 1].0, order[n - 1].1, fresh[n - 1]);
            let after = ship_step(b, s, order[n - 1].0, order[n - 1].1, fresh[n - 1]);
            lemma_fly_counted(after.0, Cords(0, 0));
        }
    }
}

/// The ship phase can be played on a board whose ships can all run
/// anywhere, from a score with room for every fly on the board.
pub proof fn lemma_valid_phase_ok(board: Map<Cords, ShipView>, score: int)
    requires
        board_valid(board),
        keys_in_bounds(board),
        potential(board, score) <= u32::MAX,
    ensures
        phase_ok(board, score),
{
    assert forall|order: Seq<(Cords, u128)>, fresh: Seq<(u128, u128)>|
        lists_board(board, order) && fresh.len() == order.len() implies #[trigger] turns_ok(
            board,
            score,
            order,
            fresh,
            order.len(),
        ) by {
        lemma_valid_turns(board, score, order, fresh, order.len());
    }
}

/// With room in the score for every fly on the board, the player's turn
/// after any outcome of the ship phase can be played, as long as the
/// player has a life to lose or is invincible.
pub proof fn lemma_room_for_player_turn(
    board: Map<Cords, ShipView>,
    score: int,
    player: PlayerView,
    invocable: bool,
)
    requires
        keys_in_bounds(board),
        potential(board, score) <= u32::MAX,
        player.lives > 0 || invocable,
    ensures
        forall|mid: Map<Cords, ShipView>, mid_score: int|
            #[trigger] ship_phase(board, score, mid, mid_score, true) ==> player_turn_ok(
                mid,
                mid_score,
                player,
                invocable,
            ),
{
    assert forall|mid: Map<Cords, ShipView>, mid_score: int|
        #[trigger] ship_phase(board, score, mid, mid_score, true) implies player_turn_ok(
            mid,
            mid_score,
            player,
            invocable,
        ) by {
        let (order, fresh) = choose|order: Seq<(Cords, u128)>, fresh: Seq<(u128, u128)>| {
            &&& lists_board(board, order)
            &&& fresh.len() == order.len()
            &&& (mid, mid_score, true) == ships_turns(board, score, order, fresh, order.len())
        };
        lemma_turns_potential(board, score, order, fresh, order.len());
        if player_hit(mid, player) {
            lemma_fly_counted(mid, player.current_position.unwrap());
        }
    }
}

/// In one ship phase the ships take their turns in the order of a walk of
/// the board made at the start: every ship on the board at the start is
/// listed exactly once, under its cell and identifier, and nothing else is
/// listed, so each ship gets at most one turn, and ships moved or created
/// during the phase get none of their own.
pub proof fn lemma_phase_turns_each_ship_once(
    board: Map<Cords, ShipView>,
    score: int,
    new_board: Map<Cords, ShipView>,
    new_score: int,
    ok: bool,
)
    requires
        ship_phase(board, score, new_board, new_score, ok),
    ensures
        exists|order: Seq<(Cords, u128)>, fresh: Seq<(u128, u128)>| {
            &&& (new_board, new_score, ok) == ships_turns(board, score, order, fresh, order.len())
            &&& forall|i: int|
                0 <= i < order.len() ==> board.contains_key(#[trigger] order[i].0) && order[i].1 == board[order[i].0].id()
            &&& forall|c: Cords|
                board.contains_key(c) ==> exists|i: int|
                    0 <= i < order.len() && (#[trigger] order[i]).0 == c && forall|j: int|
                        0 <= j < order.len() && (#[trigger] order[j]).0 == c ==> j == i
        },
{
    let (order, fresh) = choose|order: Seq<(Cords, u128)>, fresh: Seq<(u128, u128)>| {
        &&& lists_board(board, order)
        &&& fresh.len() == order.len()
        &&& forall|j: int| 0 <= j < fresh.len() ==> is_random_id(#[trigger] fresh[j].0) && is_random_id(fresh[j].1)
        &&& (new_board, new_score, ok) == ships_turns(board, score, order, fresh, order.len())
    };
    assert forall|c: Cords| board.contains_key(c) implies exists|i: int|
        0 <= i < order.len() && (#[trigger] order[i]).0 == c && forall|j: int|
            0 <= j < order.len() && (#[trigger] order[j]).0 == c ==> j == i by {
        let i = choose|i: int| 0 <= i < order.len() && (#[trigger] order[i]).0 == c;
        assert forall|j: int| 0 <= j < order.len() && (#[trigger] order[j]).0 == c implies j == i by {}
    }
}

/// The state of a game.
pub struct GameState {
    pub game_board: GameBoard,
    pub tick_count: u32,
    pub player: Player,
    pub gamelevel: GameLevel,
    pub score: u32,
}

impl GameState {
    /// A new game: empty board, no ticks, no score, easy level, and a player
    /// with the easy level's lives.
    pub fn new() -> (res: GameState)
        ensures
            res.game_board@ == Map::<Cords, ShipView>::empty(),
            res.tick_count == 0,
            res.player@ == fresh_player(5),
            res.gamelevel@ == Level::Easy,
            res.score == 0,
    {
        let game_level = GameLevel::new(Level::Easy);
        let level_status = game_level.get_level_status();
        GameState {
            game_board: GameBoard::new(),
            tick_count: 0,
            player: Player::new(level_status.1),
            gamelevel: game_level,
            score: 0,
        }
    }

    /// Whether every ship on the board can run its script on any cell.
    pub fn ships_can_run(&self) -> (res: bool)
        ensures
            res == board_valid(self.game_board@),
            res ==> forall|score: int|
                potential(self.game_board@, score) <= u32::MAX ==> #[trigger] phase_ok(self.game_board@, score),
    {
        proof {
            self.game_board.lemma_all_cells_on_board();
            if board_valid(self.game_board@) {
                assert forall|score: int| potential(self.game_board@, score) <= u32::MAX implies #[trigger] phase_ok(
                    self.game_board@,
                    score,
                ) by {
                    lemma_valid_phase_ok(self.game_board@, score);
                }
            }
        }
        let cells = self.game_board.cords();
        let mut i: usize = 0;
        while i < cells.len()
            invariant
                i <= cells@.len(),
                forall|c: Cords| cells@.contains(c) <==> self.game_board@.contains_key(c),
                forall|j: int| 0 <= j < i ==> self.game_board@[#[trigger] cells@[j]].valid(),
            decreases cells@.len() - i,
        {
            let c = cells[i];
            proof {
                assert(cells@.contains(c));
            }
            match self.game_board.get(&c) {
                Some(ship) => {
                    if !ship.runs_anywhere() {
                        return false;
                    }
                },
                None => {},
            }
            i = i + 1;
        }
        proof {
            assert forall|c: Cords| #[trigger] self.game_board@.contains_key(c) implies self.game_board@[c].valid() by {
                assert(cells@.contains(c));
                let j = choose|j: int| 0 <= j < cells@.len() && cells@[j] == c;
            }
        }
        true
    }

    /// Whether the score has room for the points of every fly on the board,
    /// which bounds what the ship phase and the player's turn can add.
    pub fn score_has_room(&self) -> (res: bool)
        ensures
            res == (potential(self.game_board@, self.score as int) <= u32::MAX),
    {
        let mut count: u64 = 0;
        let mut k: usize = 0;
        let cells: usize = ROWS * COLUMNS;
        while k < cells
            invariant
                cells == ROWS * COLUMNS,
                k <= cells,
                count == flies_below(self.game_board@, k as nat),
                count <= k,
            decreases cells - k,
        {
            let c = Cords(k / COLUMNS, k % COLUMNS);
            proof {
                assert(c == key_cell(k as int));
            }
            if let Some(ship) = self.game_board.get(&c) {
                if ship.is_fly() {
                    count = count + 1;
                }
            }
            k = k + 1;
        }
        self.score as u64 + 100 * count <= 0xffff_ffffu64
    }

    /// Adds `points` to the score.
    pub fn increase_score(&mut self, points: u32)
        requires
            old(self).score + points <= u32::MAX,
        ensures
            final(self).score == old(self).score + points,
            final(self).game_board == old(self).game_board,
            final(self).player == old(self).player,
            final(self).tick_count == old(self).tick_count,
            final(self).gamelevel == old(self).gamelevel,
    {
        self.score = self.score + points;
    }

    /// Takes the ship at `cords` off the board and returns it; a fly taken
    /// off scores 100 points.
    pub fn remove_ship(&mut self, cords: Cords) -> (res: Option<Ship>)
        requires
            old(self).score + removal_gain(old(self).game_board@, cords) <= u32::MAX,
        ensures
            (final(self).game_board@, final(self).score as int) == removal(
                old(self).game_board@,
                old(self).score as int,
                cords,
            ),
            match res {
                Some(ship) => old(self).game_board@.contains_key(cords) && ship@ == old(
                    self,
                ).game_board@[cords],
                None => !old(self).game_board@.contains_key(cords),
            },
            final(self).player == old(self).player,
            final(self).tick_count == old(self).tick_count,
            final(self).gamelevel == old(self).gamelevel,
    {
        if let Some(ship) = self.game_board.remove(&cords) {
            if ship.is_fly() {
                self.increase_score(100);
            }
            return Some(ship);
        }
        None
    }

    /// Puts `ship` at `cords`. A cell off the board is an error; on an
    /// occupied cell both ships are destroyed and an explosion takes the
    /// cell (knocking out a fly scores 100 points).
    pub fn add_ship(&mut self, cords: Cords, ship: Ship) -> (res: Result<(), String>)
        requires
            old(self).score + addition_gain(old(self).game_board@, cords) <= u32::MAX,
        ensures
            ({
                let (b, s, ok) = addition(
                    old(self).game_board@,
                    old(self).score as int,
                    cords,
                    ship@,
                    final(self).game_board@[cords].id(),
                );
                &&& final(self).game_board@ == b
                &&& final(self).score == s
                &&& res is Ok == ok
            }),
            res matches Err(e) ==> e@ == out_of_bounds_message(),
            old(self).game_board@.contains_key(cords) ==> is_random_id(final(self).game_board@[cords].id()),
            final(self).player == old(self).player,
            final(self).tick_count == old(self).tick_count,
            final(self).gamelevel == old(self).gamelevel,
    {
        proof {
            self.game_board.lemma_cells_on_board(cords);
        }
        if cords.0 >= ROWS || cords.1 >= COLUMNS {
            return Err("Coordinates are out of bounds.".to_string());
        } else if let Some(_existing_ship) = self.remove_ship(cords) {
            let explosion = Ship::new_explosion();
            self.game_board.insert(cords, explosion);
        } else {
            self.game_board.insert(cords, ship);
        }
        Ok(())
    }

    /// Moves the ship at `old_cords` to `new_cords`: it is taken off the
    /// board (a fly scores as it is taken off) and put back, exploding with
    /// whatever stands at `new_cords`; a target off the board loses it.
    pub fn move_ship(&mut self, old_cords: Cords, new_cords: Cords)
        requires
            old(self).score + removal_gain(old(self).game_board@, old_cords) + (if old(
                self,
            ).game_board@.contains_key(old_cords) {
                addition_gain(old(self).game_board@.remove(old_cords), new_cords)
            } else {
                0
            }) <= u32::MAX,
        ensures
            (final(self).game_board@, final(self).score as int) == moving(
                old(self).game_board@,
                old(self).score as int,
                old_cords,
                new_cords,
                final(self).game_board@[new_cords].id(),
            ),
            final(self).player == old(self).player,
            final(self).tick_count == old(self).tick_count,
            final(self).gamelevel == old(self).gamelevel,
    {
        if let Some(ship) = self.remove_ship(old_cords) {
            let _ = self.add_ship(new_cords, ship);
        }
    }

    /// The turns of the ships listed in `order`, one after the other, each
    /// for the ship standing at the listed cell with the listed identifier;
    /// stops at the first error (a shot fired from the bottom row). The
    /// score rises only by the points of flies that leave the board.
    pub fn ship_actions_in_order(&mut self, order: &Vec<(Cords, u128)>) -> (res: Result<(), String>)
        requires
            forall|fresh: Seq<(u128, u128)>|
                fresh.len() == order@.len() ==> #[trigger] turns_ok(
                    old(self).game_board@,
                    old(self).score as int,
                    order@,
                    fresh,
                    order@.len(),
                ),
        ensures
            exists|fresh: Seq<(u128, u128)>| {
                &&& fresh.len() == order@.len()
                &&& forall|j: int| 0 <= j < fresh.len() ==> is_random_id(#[trigger] fresh[j].0) && is_random_id(fresh[j].1)
                &&& (final(self).game_board@, final(self).score as int, res is Ok) == ships_turns(
                    old(self).game_board@,
                    old(self).score as int,
                    order@,
                    fresh,
                    order@.len(),
                )
            },
            res matches Err(e) ==> e@ == out_of_bounds_message(),
            board_valid(old(self).game_board@) ==> board_valid(final(self).game_board@),
            old(self).score <= final(self).score,
            potential(final(self).game_board@, final(self).score as int) <= potential(
                old(self).game_board@,
                old(self).score as int,
            ),
            final(self).player == old(self).player,
            final(self).tick_count == old(self).tick_count,
            final(self).gamelevel == old(self).gamelevel,
    {
        let ghost board0 = self.game_board@;
        let ghost score0 = self.score as int;
        let ghost mut fresh: Seq<(u128, u128)> = Seq::empty();
        proof {
            self.game_board.lemma_all_cells_on_board();
        }
        let mut i: usize = 0;
        while i < order.len()
            invariant
                i <= order@.len(),
                fresh.len() == i,
                (self.game_board@, self.score as int, true) == ships_turns(board0, score0, order@, fresh, i as nat),
                forall|f: Seq<(u128, u128)>|
                    f.len() == order@.len() ==> #[trigger] turns_ok(board0, score0, order@, f, order@.len()),
                keys_in_bounds(board0),
                board_valid(board0) ==> board_valid(self.game_board@),
                score0 <= self.score,
                potential(self.game_board@, self.score as int) <= potential(board0, score0),
                forall|j: int| 0 <= j < fresh.len() ==> is_random_id(#[trigger] fresh[j].0) && is_random_id(fresh[j].1),
                board0 == old(self).game_board@,
                score0 == old(self).score,
                self.player == old(self).player,
                self.tick_count == old(self).tick_count,
                self.gamelevel == old(self).gamelevel,
            decreases order@.len() - i,
        {
            let (cords, shipid) = order[i];
            proof {
                let padded = fresh + Seq::new((order@.len() - i) as nat, |j: int| (0u128, 0u128));
                assert(padded.len() == order@.len());
                lemma_turns_ok_step(board0, score0, order@, padded, i as nat, order@.len());
                lemma_turns_prefix(board0, score0, order@, fresh, padded, i as nat);
            }
            let (turn, Ghost(used)) = self.ship_turn(cords, shipid);
            proof {
                let next = fresh.push(used);
                lemma_turns_prefix(board0, score0, order@, fresh, next, i as nat);
                assert(ships_turns(board0, score0, order@, next, (i + 1) as nat) == ship_step(
                    ships_turns(board0, score0, order@, fresh, i as nat).0,
                    ships_turns(board0, score0, order@, fresh, i as nat).1,
                    order@[i as int].0,
                    order@[i as int].1,
                    used,
                ));
                fresh = next;
                lemma_turns_potential(board0, score0, order@, fresh, (i + 1) as nat);
                lemma_score_never_drops(
                    board0,
                    score0,
                    cords,
                    self.game_board@[cords],
                    0,
                    0,
                    (0, 0),
                    order@,
                    fresh,
                    (i + 1) as nat,
                    self.player@,
                    false,
                );
            }
            if turn.is_err() {
                proof {
                    let r: u128 = 0x4000_8000_0000_0000_0000u128;
                    assert(is_random_id(0x4000_8000_0000_0000_0000u128)) by (bit_vector);
                    let padded = fresh + Seq::new((order@.len() - fresh.len()) as nat, |j: int| (r, r));
                    assert forall|j: int| 0 <= j < padded.len() implies is_random_id(#[trigger] padded[j].0) && is_random_id(padded[j].1) by {
                        if j >= fresh.len() {
                            assert(padded[j] == (r, r));
                        }
                    }
                    lemma_turns_prefix(board0, score0, order@, fresh, padded, (i + 1) as nat);
                    lemma_turns_stop(board0, score0, order@, padded, (i + 1) as nat, order@.len());
                    assert(padded.len() == order@.len());
                }
                return turn;
            }
            i = i + 1;
        }
        Ok(())
    }

    /// The cells of the ships on the board, each with its ship's
    /// identifier, in the order the board walks them.
    fn ship_order(&self) -> (res: Vec<(Cords, u128)>)
        ensures
            lists_board(self.game_board@, res@),
    {
        let cells = self.game_board.cords();
        let mut res: Vec<(Cords, u128)> = Vec::new();
        let mut i: usize = 0;
        while i < cells.len()
            invariant
                i <= cells@.len(),
                cells@.no_duplicates(),
                forall|c: Cords| cells@.contains(c) <==> self.game_board@.contains_key(c),
                cells@.len() <= ROWS * COLUMNS,
                res@.len() == i,
                forall|j: int| 0 <= j < i ==> (#[trigger] res@[j]).0 == cells@[j] && res@[j].1 == self.game_board@[cells@[j]].id(),
            decreases cells@.len() - i,
        {
            let c = cells[i];
            proof {
                assert(cells@.contains(c));
            }
            let id = match self.game_board.get(&c) {
                Some(ship) => ship.get_id(),
                None => 0,
            };
            res.push((c, id));
            i = i + 1;
        }
        proof {
            assert forall|j: int| 0 <= j < res@.len() implies self.game_board@.contains_key(#[trigger] res@[j].0) by {
                assert(cells@.contains(cells@[j]));
            }
            assert forall|c: Cords| self.game_board@.contains_key(c) implies exists|j: int| 0 <= j < res@.len() && (#[trigger] res@[j]).0 == c by {
                assert(cells@.contains(c));
                let j = choose|j: int| 0 <= j < cells@.len() && cells@[j] == c;
                assert(res@[j].0 == c);
            }
        }
        res
    }

    /// The ship phase of a tick: every ship on the board, in the order the
    /// board walks them, plays its turn (ships moved or created during the
    /// phase do not get one); stops at the first error. The score rises
    /// only by the points of flies that leave the board.
    pub fn ship_actions(&mut self, game_settings: &GameSettings) -> (res: Result<(), String>)
        requires
            phase_ok(old(self).game_board@, old(self).score as int),
        ensures
            ship_phase(
                old(self).game_board@,
                old(self).score as int,
                final(self).game_board@,
                final(self).score as int,
                res is Ok,
            ),
            res matches Err(e) ==> e@ == out_of_bounds_message(),
            board_valid(old(self).game_board@) ==> board_valid(final(self).game_board@),
            old(self).score <= final(self).score,
            potential(final(self).game_board@, final(self).score as int) <= potential(
                old(self).game_board@,
                old(self).score as int,
            ),
            final(self).player == old(self).player,
            final(self).tick_count == old(self).tick_count,
            final(self).gamelevel == old(self).gamelevel,
    {
        let to_update = self.ship_order();
        proof {
            assert forall|fresh: Seq<(u128, u128)>| fresh.len() == to_update@.len() implies #[trigger] turns_ok(
                self.game_board@,
                self.score as int,
                to_update@,
                fresh,
                to_update@.len(),
            ) by {
                assert(lists_board(self.game_board@, to_update@));
            }
        }
        let res = self.ship_actions_in_order(&to_update);
        proof {
            let fresh = choose|fresh: Seq<(u128, u128)>| {
                &&& fresh.len() == to_update@.len()
                &&& forall|j: int| 0 <= j < fresh.len() ==> is_random_id(#[trigger] fresh[j].0) && is_random_id(fresh[j].1)
                &&& (self.game_board@, self.score as int, res is Ok) == ships_turns(
                    old(self).game_board@,
                    old(self).score as int,
                    to_update@,
                    fresh,
                    to_update@.len(),
                )
            };
            assert(lists_board(old(self).game_board@, to_update@));
        }
        res
    }

    /// One tick of the game loop: counts the tick, plays the ship phase
    /// and, when it succeeded, the player's turn. Returns whether the game
    /// is over, or the ship phase's error.
    pub fn play_tick(&mut self, game_settings: &GameSettings) -> (res: Result<bool, String>)
        requires
            old(self).tick_count < u32::MAX,
            phase_ok(old(self).game_board@, old(self).score as int),
            forall|mid: Map<Cords, ShipView>, mid_score: int|
                #[trigger] ship_phase(old(self).game_board@, old(self).score as int, mid, mid_score, true)
                    ==> player_turn_ok(mid, mid_score, old(self).player@, game_settings.invocable),
        ensures
            final(self).tick_count == old(self).tick_count + 1,
            final(self).gamelevel == old(self).gamelevel,
            res matches Err(e) ==> {
                &&& e@ == out_of_bounds_message()
                &&& final(self).player == old(self).player
                &&& ship_phase(
                    old(self).game_board@,
                    old(self).score as int,
                    final(self).game_board@,
                    final(self).score as int,
                    false,
                )
            },
            res matches Ok(over) ==> exists|mid: Map<Cords, ShipView>, mid_score: int| {
                &&& ship_phase(old(self).game_board@, old(self).score as int, mid, mid_score, true)
                &&& ({
                    let (b, s, p, o) = player_turn(
                        mid,
                        mid_score,
                        old(self).player@,
                        game_settings.invocable,
                        final(self).game_board@[old(self).player.current_position.unwrap()].id(),
                    );
                    &&& final(self).game_board@ == b
                    &&& final(self).score == s
                    &&& final(self).player@ == p
                    &&& over == o
                })
            },
            board_valid(old(self).game_board@) ==> board_valid(final(self).game_board@),
    {
        self.tick_count = self.tick_count + 1;
        let phase = self.ship_actions(game_settings);
        if let Err(e) = phase {
            return Err(e);
        }
        let ghost mid = self.game_board@;
        let ghost mid_score = self.score as int;
        proof {
            assert(ship_phase(old(self).game_board@, old(self).score as int, mid, mid_score, true));
        }
        let over = self.player_actions(game_settings);
        Ok(over)
    }

    /// The player's turn: a player standing on a ship clears it; unless
    /// invincible it loses a life and an explosion takes the cell. Returns
    /// `true` when the last life is lost and the game is over; otherwise
    /// the player tries to respawn.
    pub fn player_actions(&mut self, game_settings: &GameSettings) -> (game_over: bool)
        requires
            player_turn_ok(
                old(self).game_board@,
                old(self).score as int,
                old(self).player@,
                game_settings.invocable,
            ),
        ensures
            ({
                let (b, s, p, over) = player_turn(
                    old(self).game_board@,
                    old(self).score as int,
                    old(self).player@,
                    game_settings.invocable,
                    final(self).game_board@[old(self).player.current_position.unwrap()].id(),
                );
                &&& final(self).game_board@ == b
                &&& final(self).score == s
                &&& final(self).player@ == p
                &&& game_over == over
            }),
            player_hit(old(self).game_board@, old(self).player@) && !game_settings.invocable ==> is_random_id(
                final(self).game_board@[old(self).player.current_position.unwrap()].id(),
            ),
            board_valid(old(self).game_board@) ==> board_valid(final(self).game_board@),
            final(self).tick_count == old(self).tick_count,
            final(self).gamelevel == old(self).gamelevel,
    {
        if let Some(player_pos) = self.player.current_position {
            if self.game_board.get(&player_pos).is_some() {
                if game_settings.invocable {
                    self.remove_ship(player_pos);
                    self.player.respawn(true);
                    return false;
                }
                self.remove_ship(player_pos);
                proof {
                    old(self).game_board.lemma_cells_on_board(player_pos);
                }
                let explosion = Ship::new_explosion();
                proof {
                    crate::ship::lemma_new_ships_valid(crate::fly_patterns::Fly_Pattern::Pattern1, 15, true, true, true, explosion@.id());
                }
                self.game_board.insert(player_pos, explosion);
                if let Some(_lives) = self.player.handle_collision() {
                } else {
                    return true;
                }
            }
        }
        let start = self.player.start_position;
        let can_respawn = self.game_board.get(&start).is_none();
        self.player.respawn(can_respawn);
        false
    }

    /// The turn of the ship listed as standing at `cords` with identifier
    /// `shipid`; returns identifiers for the bullet and the explosion the
    /// turn may create (those of the ships it did create), all random
    /// ones.
    fn ship_turn(&mut self, cords: Cords, shipid: u128) -> (res: (Result<(), String>, Ghost<(u128, u128)>))
        requires
            step_ok(old(self).game_board@, cords, shipid),
            ship_step(old(self).game_board@, old(self).score as int, cords, shipid, (0u128, 0u128)).1 <= u32::MAX,
        ensures
            (final(self).game_board@, final(self).score as int, res.0 is Ok) == ship_step(
                old(self).game_board@,
                old(self).score as int,
                cords,
                shipid,
                res.1@,
            ),
            is_random_id(res.1@.0),
            is_random_id(res.1@.1),
            res.0 matches Err(e) ==> e@ == out_of_bounds_message(),
            board_valid(old(self).game_board@) ==> board_valid(final(self).game_board@),
            final(self).player == old(self).player,
            final(self).tick_count == old(self).tick_count,
            final(self).gamelevel == old(self).gamelevel,
    {
        let ghost board0 = self.game_board@;
        let ghost score0 = self.score as int;
        let ghost any_id: u128 = 0x4000_8000_0000_0000_0000u128;
        proof {
            assert(is_random_id(0x4000_8000_0000_0000_0000u128)) by (bit_vector);
            self.game_board.lemma_all_cells_on_board();
        }
        if let Some(mut current_ship) = self.game_board.remove(&cords) {
            if current_ship.get_id() != shipid {
                return (Ok(()), Ghost((any_id, any_id)));
            }
            proof {
                old(self).game_board.lemma_cells_on_board(cords);
                if board_valid(board0) {
                    assert(board_valid(self.game_board@));
                    crate::ship::lemma_turn_keeps_valid(current_ship@.ai(), cords, self.game_board@);
                }
            }
            let ghost rest = self.game_board@;
            let action = current_ship.get_action(cords, &self.game_board);
            match action {
                ShipAction::Remove => {
                    self.remove_ship(cords);
                    (Ok(()), Ghost((any_id, any_id)))
                },
                ShipAction::Shoot => {
                    let shoot_position = Cords(cords.0 + 1, cords.1);
                    let first = self.add_ship(cords, current_ship);
                    if first.is_err() {
                        return (first, Ghost((any_id, any_id)));
                    }
                    let ghost b1 = self.game_board@;
                    assert(b1 == addition(rest, score0, cords, current_ship@, 0).0);
                    let bullet = Ship::new_bullet(true, 15);
                    let ghost bullet_id = bullet@.id();
                    proof {
                        crate::ship::lemma_new_ships_valid(crate::fly_patterns::Fly_Pattern::Pattern1, 15, true, true, true, bullet_id);
                    }
                    let second = self.add_ship(shoot_position, bullet);
                    let ghost eid = if b1.contains_key(shoot_position) { self.game_board@[shoot_position].id() } else { any_id };
                    proof {
                        crate::ship::lemma_new_ships_valid(crate::fly_patterns::Fly_Pattern::Pattern1, 15, true, true, true, eid);
                    }
                    (second, Ghost((bullet_id, eid)))
                },
                ShipAction::Move(new_cords, wrapped) => {
                    if !wrapped || (wrapped && current_ship.wrap()) {
                        let moved = self.add_ship(new_cords, current_ship);
                        let ghost eid = if rest.contains_key(new_cords) { self.game_board@[new_cords].id() } else { any_id };
                        proof {
                            crate::ship::lemma_new_ships_valid(crate::fly_patterns::Fly_Pattern::Pattern1, 15, true, true, true, eid);
                        }
                        (moved, Ghost((any_id, eid)))
                    } else {
                        (Ok(()), Ghost((any_id, any_id)))
                    }
                },
                ShipAction::Nothing => {
                    let stayed = self.add_ship(cords, current_ship);
                    (stayed, Ghost((any_id, any_id)))
                },
            }
        } else {
            (Ok(()), Ghost((any_id, any_id)))
        }
    }
}

} // verus!
