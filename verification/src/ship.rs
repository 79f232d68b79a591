//! Ships, the scripted AI that drives them, and the conditions and actions
//! of that script.
use vstd::prelude::*;
use crate::board::GameBoard;
use crate::fly_patterns::{Fly_Pattern, pattern_entries};
use crate::structs::{Cords, RelCords, ShipAction, Timer, TimerView, ROWS};

verus! {

/// A test a scripted step can depend on.
#[derive(Clone, Copy, Debug, PartialEq, Eq, Structural)]
pub enum Condition {
    ShipExists(Cords),
    PositionAvailable(RelCords),
    DontShootIfShipsAreBelow(RelCords),
}

/// No fly stands in the unbroken run of occupied cells that starts at
/// `(row, col)` and goes down the column.
pub open spec fn no_fly_below(board: Map<Cords, ShipView>, row: int, col: usize) -> bool
    decreases ROWS - row,
{
    if row < 0 || row >= ROWS {
        true
    } else if !board.contains_key(Cords(row as usize, col)) {
        true
    } else if board[Cords(row as usize, col)].is_fly() {
        false
    } else {
        no_fly_below(board, row + 1, col)
    }
}

impl Condition {
    /// The condition holds for a ship at `cords` on `board`.
    pub open spec fn holds(self, cords: Cords, board: Map<Cords, ShipView>) -> bool {
        match self {
            Condition::ShipExists(target) => board.contains_key(target),
            Condition::PositionAvailable(rel) => !board.contains_key(rel.evaluated(cords).0),
            Condition::DontShootIfShipsAreBelow(_) => no_fly_below(board, cords.0 as int, cords.1),
        }
    }

    /// Evaluating the condition at `cords` stays within `i32`.
    pub open spec fn can_evaluate(self, cords: Cords) -> bool {
        match self {
            Condition::PositionAvailable(rel) => rel.can_evaluate(cords),
            _ => true,
        }
    }

    /// The condition can be evaluated on any cell of the board.
    pub open spec fn fits_board(self) -> bool {
        match self {
            Condition::PositionAvailable(rel) => rel.fits_board(),
            _ => true,
        }
    }

    /// Whether the condition holds for a ship at `cords`.
    pub fn evaluate(&self, cords: Cords, game_board: &GameBoard) -> (res: bool)
        requires
            self.can_evaluate(cords),
        ensures
            res == self.holds(cords, game_board@),
    {
        match self {
            Condition::ShipExists(target_cords) => game_board.contains_key(target_cords),
            Condition::PositionAvailable(rel_cords) => {
                let target = rel_cords.evaluate(cords).0;
                game_board.get(&target).is_none()
            },
            Condition::DontShootIfShipsAreBelow(_) => {
                let mut below_cords = cords;
                while game_board.contains_key(&below_cords)
                    invariant
                        *self is DontShootIfShipsAreBelow,
                        below_cords.1 == cords.1,
                        below_cords.0 <= ROWS || below_cords.0 == cords.0,
                        no_fly_below(game_board@, cords.0 as int, cords.1) == no_fly_below(
                            game_board@,
                            below_cords.0 as int,
                            cords.1,
                        ),
                    decreases ROWS - below_cords.0,
                {
                    proof {
                        game_board.lemma_cells_on_board(below_cords);
                    }
                    if let Some(ship) = game_board.get(&below_cords) {
                        if ship.is_fly() {
                            assert(Cords((below_cords.0 as int) as usize, cords.1) == below_cords);
                            assert(!no_fly_below(game_board@, below_cords.0 as int, cords.1));
                            return false;
                        }
                    }
                    below_cords.0 = below_cords.0 + 1;
                }
                proof {
                    game_board.lemma_cells_on_board(below_cords);
                }
                true
            },
        }
    }
}

/// A step of a ship's script.
#[derive(Clone, Copy, Debug, PartialEq, Eq, Structural)]
pub enum AIAction {
    Nothing,
    Remove,
    Shoot,
    Move(Cords),
    MoveOrNothing(RelCords),
    ShootOrNothing,
    RelativeMove(RelCords),
}

impl AIAction {
    /// Turning the step into a board action at `cords` stays within `i32`.
    pub open spec fn can_evaluate(self, cords: Cords) -> bool {
        match self {
            AIAction::MoveOrNothing(rel) => rel.can_evaluate(cords),
            AIAction::RelativeMove(rel) => rel.can_evaluate(cords),
            _ => true,
        }
    }

    /// The step can be taken from any cell of the board.
    pub open spec fn fits_board(self) -> bool {
        match self {
            AIAction::MoveOrNothing(rel) => rel.fits_board(),
            AIAction::RelativeMove(rel) => rel.fits_board(),
            _ => true,
        }
    }

    /// The board action that the step stands for at `cords`.
    pub open spec fn ship_action(self, cords: Cords, board: Map<Cords, ShipView>) -> ShipAction {
        match self {
            AIAction::Remove => ShipAction::Remove,
            AIAction::Shoot => ShipAction::Shoot,
            AIAction::Move(target) => ShipAction::Move(target, false),
            AIAction::MoveOrNothing(rel) => {
                if Condition::PositionAvailable(rel).holds(cords, board) {
                    ShipAction::Move(rel.evaluated(cords).0, rel.evaluated(cords).1)
                } else {
                    ShipAction::Nothing
                }
            },
            AIAction::RelativeMove(rel) => ShipAction::Move(
                rel.evaluated(cords).0,
                rel.evaluated(cords).1,
            ),
            AIAction::ShootOrNothing => {
                if Condition::DontShootIfShipsAreBelow(RelCords(1, 0)).holds(cords, board) {
                    ShipAction::Shoot
                } else {
                    ShipAction::Nothing
                }
            },
            AIAction::Nothing => ShipAction::Nothing,
        }
    }

    /// Turns the step into what the ship at `cords` does on the board.
    pub fn to_ship_action(self, cords: Cords, game_board: &GameBoard) -> (res: ShipAction)
        requires
            self.can_evaluate(cords),
        ensures
            res == self.ship_action(cords, game_board@),
    {
        match self {
            AIAction::Remove => ShipAction::Remove,
            AIAction::Shoot => ShipAction::Shoot,
            AIAction::Move(target) => ShipAction::Move(target, false),
            AIAction::MoveOrNothing(rel_cords) => {
                let condition = Condition::PositionAvailable(rel_cords);
                if condition.evaluate(cords, game_board) {
                    let (new_cords, wrap) = rel_cords.evaluate(cords);
                    ShipAction::Move(new_cords, wrap)
                } else {
                    ShipAction::Nothing
                }
            },
            AIAction::RelativeMove(rel_cords) => {
                let (new_cords, wrapped) = rel_cords.evaluate(cords);
                ShipAction::Move(new_cords, wrapped)
            },
            AIAction::ShootOrNothing => {
                let condition = Condition::DontShootIfShipsAreBelow(RelCords(1, 0));
                if condition.evaluate(cords, game_board) {
                    ShipAction::Shoot
                } else {
                    ShipAction::Nothing
                }
            },
            AIAction::Nothing => ShipAction::Nothing,
        }
    }
}

/// The step's condition, if any, holds for a ship at `cords` on `board`.
pub open spec fn entry_passes(
    entry: (Option<Condition>, AIAction),
    cords: Cords,
    board: Map<Cords, ShipView>,
) -> bool {
    match entry.0 {
        Some(condition) => condition.holds(cords, board),
        None => true,
    }
}

/// The step's condition, if any, can be evaluated at `cords`.
pub open spec fn condition_can_evaluate(entry: (Option<Condition>, AIAction), cords: Cords) -> bool {
    match entry.0 {
        Some(condition) => condition.can_evaluate(cords),
        None => true,
    }
}

/// Both the condition and the action of the step can be evaluated at `cords`.
pub open spec fn entry_can_evaluate(entry: (Option<Condition>, AIAction), cords: Cords) -> bool {
    &&& condition_can_evaluate(entry, cords)
    &&& entry.1.can_evaluate(cords)
}

/// Both the condition and the action of the step fit every cell of the board.
pub open spec fn entry_fits_board(entry: (Option<Condition>, AIAction)) -> bool {
    &&& (match entry.0 {
        Some(condition) => condition.fits_board(),
        None => true,
    })
    &&& entry.1.fits_board()
}

/// The state of a ship's script: its timer, its steps and the next step.
pub struct ShipAIView {
    pub timer: TimerView,
    pub actions: Seq<(Option<Condition>, AIAction)>,
    pub action_index: usize,
}

impl ShipAIView {
    /// The next step is one of the steps, unless there are none.
    pub open spec fn index_ok(self) -> bool {
        self.actions.len() == 0 || self.action_index < self.actions.len()
    }

    /// Every step can be evaluated on any cell of the board.
    pub open spec fn fits_board(self) -> bool {
        forall|i: int| 0 <= i < self.actions.len() ==> entry_fits_board(#[trigger] self.actions[i])
    }

    /// Asking the script for an action never returns: the timer fires on
    /// every tick and no step's condition ever holds.
    pub open spec fn stalls(self, cords: Cords, board: Map<Cords, ShipView>) -> bool {
        &&& self.actions.len() > 0
        &&& self.timer.interval <= 1
        &&& forall|i: int| 0 <= i < self.actions.len() ==> !entry_passes(#[trigger] self.actions[i], cords, board)
    }

    /// Whatever the board, the script cannot stall: it is empty, its timer
    /// waits at least two ticks, or one of its steps has no condition.
    pub open spec fn never_stalls(self) -> bool {
        ||| self.actions.len() == 0
        ||| self.timer.interval >= 2
        ||| exists|i: int| 0 <= i < self.actions.len() && (#[trigger] self.actions[i]).0 is None
    }

    /// The script can run on any cell of any board.
    pub open spec fn valid(self) -> bool {
        &&& self.index_ok()
        &&& self.fits_board()
        &&& self.never_stalls()
    }

    /// The index of the step after the current one, going round to the
    /// first step after the last.
    pub open spec fn next_index(self) -> usize {
        if self.action_index == self.actions.len() - 1 {
            0
        } else {
            (self.action_index + 1) as usize
        }
    }

    /// The same script, moved on to the next step.
    pub open spec fn advanced(self) -> ShipAIView {
        ShipAIView { action_index: self.next_index(), ..self }
    }

    /// Looks for a step whose condition holds, starting at the current one,
    /// once the timer has fired; a failed step moves the script on and ticks
    /// the timer, and the search goes on only while the timer keeps firing.
    pub open spec fn scan(self, cords: Cords, board: Map<Cords, ShipView>, fuel: nat) -> (
        ShipAIView,
        AIAction,
    )
        decreases fuel,
    {
        let entry = self.actions[self.action_index as int];
        let moved = self.advanced();
        if entry_passes(entry, cords, board) {
            (moved, entry.1)
        } else {
            let waited = ShipAIView { timer: moved.timer.ticked().0, ..moved };
            if !moved.timer.ticked().1 || fuel == 0 {
                (waited, AIAction::Nothing)
            } else {
                waited.scan(cords, board, (fuel - 1) as nat)
            }
        }
    }

    /// The script after one turn at `cords` on `board`, and the step it
    /// chose (`Nothing` while the timer has not fired).
    pub open spec fn ai_action(self, cords: Cords, board: Map<Cords, ShipView>) -> (
        ShipAIView,
        AIAction,
    ) {
        if self.actions.len() == 0 {
            (self, AIAction::Nothing)
        } else {
            let ticked = ShipAIView { timer: self.timer.ticked().0, ..self };
            if !self.timer.ticked().1 {
                (ticked, AIAction::Nothing)
            } else {
                ticked.scan(cords, board, self.actions.len())
            }
        }
    }

    /// The script after one turn, and what the ship does on the board.
    pub open spec fn turn(self, cords: Cords, board: Map<Cords, ShipView>) -> (
        ShipAIView,
        ShipAction,
    ) {
        let (next, action) = self.ai_action(cords, board);
        (next, action.ship_action(cords, board))
    }

    /// The conditions that `scan` tests can be evaluated at `cords`: that
    /// of the current step and, while steps fail and the timer keeps
    /// firing, those of the steps after it.
    pub open spec fn scan_conditions_ok(self, cords: Cords, board: Map<Cords, ShipView>, fuel: nat) -> bool
        decreases fuel,
    {
        let entry = self.actions[self.action_index as int];
        let moved = self.advanced();
        let waited = ShipAIView { timer: moved.timer.ticked().0, ..moved };
        if !condition_can_evaluate(entry, cords) {
            false
        } else if entry_passes(entry, cords, board) || !moved.timer.ticked().1 || fuel == 0 {
            true
        } else {
            waited.scan_conditions_ok(cords, board, (fuel - 1) as nat)
        }
    }

    /// The conditions that a turn at `cords` on `board` tests can be
    /// evaluated there.
    pub open spec fn ai_conditions_ok(self, cords: Cords, board: Map<Cords, ShipView>) -> bool {
        if self.actions.len() == 0 || !self.timer.ticked().1 {
            true
        } else {
            ShipAIView { timer: self.timer.ticked().0, ..self }.scan_conditions_ok(cords, board, self.actions.len())
        }
    }

    /// A turn at `cords` on `board` can be played: the next step is one of
    /// the steps, the conditions it tests and the step it picks can be
    /// evaluated there, and it does not stall.
    pub open spec fn runs_at(self, cords: Cords, board: Map<Cords, ShipView>) -> bool {
        &&& self.index_ok()
        &&& self.ai_conditions_ok(cords, board)
        &&& !self.stalls(cords, board)
        &&& self.ai_action(cords, board).1.can_evaluate(cords)
    }
}

/// When every condition of a script can be evaluated at `cords`, so can
/// those a scan tests.
proof fn lemma_scan_conditions(ai: ShipAIView, cords: Cords, board: Map<Cords, ShipView>, fuel: nat)
    requires
        ai.actions.len() > 0,
        ai.action_index < ai.actions.len(),
        forall|i: int| 0 <= i < ai.actions.len() ==> condition_can_evaluate(#[trigger] ai.actions[i], cords),
    ensures
        ai.scan_conditions_ok(cords, board, fuel),
        ai.scan(cords, board, fuel).1 is Nothing || exists|i: int|
            0 <= i < ai.actions.len() && (#[trigger] ai.actions[i]).1 == ai.scan(cords, board, fuel).1,
    decreases fuel,
{
    let entry = ai.actions[ai.action_index as int];
    let moved = ai.advanced();
    let waited = ShipAIView { timer: moved.timer.ticked().0, ..moved };
    if fuel > 0 {
        lemma_scan_conditions(waited, cords, board, (fuel - 1) as nat);
    }
}

/// A scan keeps the steps and the timer's interval, and leaves the next
/// step one of the steps.
proof fn lemma_scan_keeps(ai: ShipAIView, cords: Cords, board: Map<Cords, ShipView>, fuel: nat)
    requires
        ai.actions.len() > 0,
        ai.action_index < ai.actions.len(),
    ensures
        ai.scan(cords, board, fuel).0.actions == ai.actions,
        ai.scan(cords, board, fuel).0.timer.interval == ai.timer.interval,
        ai.scan(cords, board, fuel).0.action_index < ai.actions.len(),
    decreases fuel,
{
    let moved = ai.advanced();
    let waited = ShipAIView { timer: moved.timer.ticked().0, ..moved };
    if fuel > 0 {
        lemma_scan_keeps(waited, cords, board, (fuel - 1) as nat);
    }
}

/// A turn keeps a script that can run on any board able to do so.
pub proof fn lemma_turn_keeps_valid(ai: ShipAIView, cords: Cords, board: Map<Cords, ShipView>)
    requires
        ai.valid(),
    ensures
        ai.ai_action(cords, board).0.valid(),
        ai.ai_action(cords, board).0.actions == ai.actions,
{
    if ai.actions.len() > 0 && ai.timer.ticked().1 {
        let ticked = ShipAIView { timer: ai.timer.ticked().0, ..ai };
        lemma_scan_keeps(ticked, cords, board, ai.actions.len());
        let next = ai.ai_action(cords, board).0;
        assert(next.never_stalls()) by {
            if ai.actions.len() > 0 && ai.timer.interval < 2 {
                let i = choose|i: int| 0 <= i < ai.actions.len() && (#[trigger] ai.actions[i]).0 is None;
                assert(next.actions[i].0 is None);
            }
        }
        assert(next.fits_board()) by {
            assert forall|i: int| 0 <= i < next.actions.len() implies entry_fits_board(#[trigger] next.actions[i]) by {
                assert(entry_fits_board(ai.actions[i]));
            }
        }
    }
}

/// When the timer fires and the current step's condition (if any) holds,
/// the turn plays that step's action and the script moves on to the
/// following step (the first after the last); its steps stay the same and
/// its timer has ticked.
pub proof fn lemma_passing_step_is_played(ai: ShipAIView, cords: Cords, board: Map<Cords, ShipView>)
    requires
        0 < ai.actions.len() <= usize::MAX,
        ai.action_index < ai.actions.len(),
        ai.timer.ticked().1,
        entry_passes(ai.actions[ai.action_index as int], cords, board),
    ensures
        ai.ai_action(cords, board).1 == ai.actions[ai.action_index as int].1,
        ai.ai_action(cords, board).0.action_index == if ai.action_index + 1 == ai.actions.len() {
            0
        } else {
            ai.action_index + 1
        },
        ai.ai_action(cords, board).0.actions == ai.actions,
        ai.ai_action(cords, board).0.timer == ai.timer.ticked().0,
{
    let ticked = ShipAIView { timer: ai.timer.ticked().0, ..ai };
    assert(ai.ai_action(cords, board) == ticked.scan(cords, board, ai.actions.len()));
    assert(ticked.scan(cords, board, ai.actions.len()) == (ticked.advanced(), ai.actions[ai.action_index as int].1));
}

/// The step before `i` in a script of `len` steps, going round to the last
/// step before the first.
pub open spec fn step_before(i: int, len: int) -> int {
    if i == 0 {
        len - 1
    } else {
        i - 1
    }
}

/// A scan that plays an action leaves the script just past a step that
/// carries that action and whose condition holds.
proof fn lemma_scan_moves_past_played(ai: ShipAIView, cords: Cords, board: Map<Cords, ShipView>, fuel: nat)
    requires
        0 < ai.actions.len() <= usize::MAX,
        ai.action_index < ai.actions.len(),
    ensures
        ({
            let (next, a) = ai.scan(cords, board, fuel);
            let j = step_before(next.action_index as int, ai.actions.len() as int);
            a != AIAction::Nothing ==> {
                &&& 0 <= j < ai.actions.len()
                &&& ai.actions[j].1 == a
                &&& entry_passes(ai.actions[j], cords, board)
            }
        }),
    decreases fuel,
{
    let entry = ai.actions[ai.action_index as int];
    let moved = ai.advanced();
    let waited = ShipAIView { timer: moved.timer.ticked().0, ..moved };
    if entry_passes(entry, cords, board) {
        assert(ai.scan(cords, board, fuel) == (moved, entry.1));
        assert(step_before(moved.action_index as int, ai.actions.len() as int) == ai.action_index);
    } else if fuel > 0 && moved.timer.ticked().1 {
        lemma_scan_moves_past_played(waited, cords, board, (fuel - 1) as nat);
        assert(ai.scan(cords, board, fuel) == waited.scan(cords, board, (fuel - 1) as nat));
    }
}

/// Whenever a turn plays an action, the script afterwards stands just past
/// a step that carries that action and whose condition holds: a played
/// step, with or without a condition, is never played again on the next
/// turn unless it is the only step.
pub proof fn lemma_turn_moves_past_played_step(ai: ShipAIView, cords: Cords, board: Map<Cords, ShipView>)
    requires
        ai.index_ok(),
        ai.actions.len() <= usize::MAX,
    ensures
        ({
            let (next, a) = ai.ai_action(cords, board);
            let j = step_before(next.action_index as int, ai.actions.len() as int);
            a != AIAction::Nothing ==> {
                &&& 0 <= j < ai.actions.len()
                &&& ai.actions[j].1 == a
                &&& entry_passes(ai.actions[j], cords, board)
            }
        }),
{
    if ai.actions.len() > 0 && ai.timer.ticked().1 {
        let ticked = ShipAIView { timer: ai.timer.ticked().0, ..ai };
        lemma_scan_moves_past_played(ticked, cords, board, ai.actions.len());
    }
}

/// A script that can run on any board can play a turn at any cell of the
/// board, whatever the board holds.
pub proof fn lemma_valid_script_runs(ai: ShipAIView, cords: Cords, board: Map<Cords, ShipView>)
    requires
        ai.valid(),
        cords.in_bounds(),
    ensures
        ai.runs_at(cords, board),
{
    assert forall|i: int| 0 <= i < ai.actions.len() implies entry_can_evaluate(
        #[trigger] ai.actions[i],
        cords,
    ) by {
        assert(entry_fits_board(ai.actions[i]));
        match ai.actions[i].0 {
            Some(Condition::PositionAvailable(rel)) => {
                crate::structs::lemma_fits_board_can_evaluate(rel, cords);
            },
            _ => {},
        }
        match ai.actions[i].1 {
            AIAction::MoveOrNothing(rel) => {
                crate::structs::lemma_fits_board_can_evaluate(rel, cords);
            },
            AIAction::RelativeMove(rel) => {
                crate::structs::lemma_fits_board_can_evaluate(rel, cords);
            },
            _ => {},
        }
    }
    if ai.actions.len() > 0 && ai.timer.interval <= 1 {
        let i = choose|i: int| 0 <= i < ai.actions.len() && (#[trigger] ai.actions[i]).0 is None;
        assert(entry_passes(ai.actions[i], cords, board));
    }
    if ai.actions.len() > 0 && ai.timer.ticked().1 {
        let ticked = ShipAIView { timer: ai.timer.ticked().0, ..ai };
        assert forall|i: int| 0 <= i < ticked.actions.len() implies condition_can_evaluate(
            #[trigger] ticked.actions[i],
            cords,
        ) by {
            assert(entry_can_evaluate(ai.actions[i], cords));
        }
        lemma_scan_conditions(ticked, cords, board, ai.actions.len());
        let res = ticked.scan(cords, board, ai.actions.len()).1;
        if !(res is Nothing) {
            let i = choose|i: int| 0 <= i < ticked.actions.len() && (#[trigger] ticked.actions[i]).1 == res;
            assert(entry_can_evaluate(ai.actions[i], cords));
        }
    }
}

/// The script that drives a ship.
pub struct ShipAI {
    pub timer: Timer,
    pub actions: Vec<(Option<Condition>, AIAction)>,
    pub action_index: usize,
}

impl View for ShipAI {
    type V = ShipAIView;

    open spec fn view(&self) -> ShipAIView {
        ShipAIView { timer: self.timer@, actions: self.actions@, action_index: self.action_index }
    }
}

impl ShipAI {
    /// A script that plays `actions` in order, one every `action_interval`
    /// ticks, starting with the first.
    pub fn new(action_interval: u64, actions: Vec<(Option<Condition>, AIAction)>) -> (res: Self)
        ensures
            res@ == (ShipAIView {
                timer: TimerView { current_time: 0, interval: action_interval },
                actions: actions@,
                action_index: 0,
            }),
    {
        ShipAI { timer: Timer::new(action_interval), actions, action_index: 0 }
    }

    /// Ticks the timer and, when it fires, picks the next step whose
    /// condition holds for a ship at `cords`.
    pub fn get_ai_action(&mut self, cords: Cords, game_board: &GameBoard) -> (res: AIAction)
        requires
            old(self)@.index_ok(),
            old(self)@.ai_conditions_ok(cords, game_board@),
            !old(self)@.stalls(cords, game_board@),
        ensures
            (final(self)@, res) == old(self)@.ai_action(cords, game_board@),
            final(self)@.actions == old(self)@.actions,
            final(self)@.timer.interval == old(self)@.timer.interval,
            final(self)@.index_ok(),
    {
        let ghost initial = self@;
        if self.actions.len() == 0 {
            return AIAction::Nothing;
        }
        if !self.timer.tick() {
            return AIAction::Nothing;
        }
        let ghost len = self.actions@.len();
        let ghost start = self.action_index as int;
        let ghost mut wrapped = false;
        let ghost mut checked: nat = 0;
        loop
            invariant
                initial == old(self)@,
                len == self.actions@.len(),
                len > 0,
                self.actions@ == initial.actions,
                self.action_index < len,
                0 <= start < len,
                self@.scan_conditions_ok(cords, game_board@, (len - checked) as nat),
                !initial.stalls(cords, game_board@),
                checked < len,
                checked > 0 ==> initial.timer.interval <= 1,
                self@.timer.interval == initial.timer.interval,
                self@.timer.current_time == 0,
                self@.index_ok(),
                !wrapped ==> {
                    &&& start <= self.action_index
                    &&& checked == self.action_index - start
                    &&& forall|j: int|
                        start <= j < self.action_index ==> !entry_passes(
                            #[trigger] initial.actions[j],
                            cords,
                            game_board@,
                        )
                },
                wrapped ==> {
                    &&& self.action_index < start
                    &&& checked == len - start + self.action_index
                    &&& forall|j: int|
                        (start <= j < len || 0 <= j < self.action_index) ==> !entry_passes(
                            #[trigger] initial.actions[j],
                            cords,
                            game_board@,
                        )
                },
                initial.ai_action(cords, game_board@) == self@.scan(
                    cords,
                    game_board@,
                    (len - checked) as nat,
                ),
            decreases len - checked,
        {
            let idx = self.action_index;
            let count = self.actions.len();
            let ghost before = self@;
            let passes = match &self.actions[idx].0 {
                Some(condition) => condition.evaluate(cords, game_board),
                None => true,
            };
            let action = self.actions[idx].1;
            proof {
                assert(condition_can_evaluate(before.actions[idx as int], cords));
            }
            self.next_action();
            assert(self@ == before.advanced());
            if passes {
                assert(before.scan(cords, game_board@, (len - checked) as nat) == (before.advanced(), action));
                return action;
            }
            let fired = self.timer.tick();
            if !fired {
                assert(before.scan(cords, game_board@, (len - checked) as nat) == (self@, AIAction::Nothing));
                return AIAction::Nothing;
            }
            proof {
                assert(!entry_passes(initial.actions[idx as int], cords, game_board@));
                assert(initial.timer.interval <= 1);
                let new_idx = self.action_index as int;
                if !wrapped {
                    if idx == len - 1 {
                        assert(new_idx == 0);
                        wrapped = true;
                    } else {
                        assert(new_idx == idx + 1);
                    }
                } else {
                    assert(new_idx == idx + 1);
                }
                checked = checked + 1;
                if checked == len {
                    assert forall|i: int| 0 <= i < initial.actions.len() implies !entry_passes(
                        #[trigger] initial.actions[i],
                        cords,
                        game_board@,
                    ) by {
                        if i != idx {
                        }
                    }
                    assert(initial.stalls(cords, game_board@));
                }
            }
        }
    }

    /// Whether the script can run on any cell of any board (see
    /// `ShipAIView::valid`).
    pub fn runs_anywhere(&self) -> (res: bool)
        ensures
            res == self@.valid(),
    {
        let n = self.actions.len();
        if n != 0 && self.action_index >= n {
            return false;
        }
        let mut unconditioned = false;
        let mut i: usize = 0;
        while i < n
            invariant
                n == self.actions@.len(),
                i <= n,
                forall|j: int| 0 <= j < i ==> entry_fits_board(#[trigger] self@.actions[j]),
                unconditioned == exists|j: int| 0 <= j < i && (#[trigger] self@.actions[j]).0 is None,
            decreases n - i,
        {
            let (cond, action) = self.actions[i];
            let cond_fits = match cond {
                Some(Condition::PositionAvailable(rel)) => rel.fits(),
                _ => true,
            };
            let action_fits = match action {
                AIAction::MoveOrNothing(rel) => rel.fits(),
                AIAction::RelativeMove(rel) => rel.fits(),
                _ => true,
            };
            if !(cond_fits && action_fits) {
                assert(!entry_fits_board(self@.actions[i as int]));
                return false;
            }
            if cond.is_none() {
                unconditioned = true;
            }
            i = i + 1;
        }
        let interval = self.timer.interval();
        n == 0 || interval >= 2 || unconditioned
    }

    /// Moves the script on to the next step, going round after the last.
    fn next_action(&mut self)
        requires
            old(self)@.actions.len() > 0,
            old(self).action_index < old(self)@.actions.len(),
        ensures
            final(self)@ == old(self)@.advanced(),
            final(self).action_index < final(self)@.actions.len(),
    {
        if self.action_index == self.actions.len() - 1 {
            self.action_index = 0;
        } else {
            self.action_index = self.action_index + 1;
        }
    }

    /// Plays one turn of the script for a ship at `cords`: the step it picks,
    /// turned into an action on the board.
    pub fn get_action(&mut self, cords: Cords, game_board: &GameBoard) -> (res: ShipAction)
        requires
            old(self)@.runs_at(cords, game_board@),
        ensures
            (final(self)@, res) == old(self)@.turn(cords, game_board@),
            final(self)@.actions == old(self)@.actions,
            final(self)@.timer.interval == old(self)@.timer.interval,
            final(self)@.index_ok(),
    {
        let action = self.get_ai_action(cords, game_board);
        action.to_ship_action(cords, game_board)
    }
}

/// What a ship is, abstractly: its kind, its script and its fields.
pub enum ShipView {
    Fly(ShipAIView, bool, u128, u32, bool, bool),
    Explosion(ShipAIView, bool, u128),
    Laser(ShipAIView, bool, u128, bool, u32),
}

impl ShipView {
    /// The ship's script.
    pub open spec fn ai(self) -> ShipAIView {
        match self {
            ShipView::Fly(ai, _, _, _, _, _) => ai,
            ShipView::Explosion(ai, _, _) => ai,
            ShipView::Laser(ai, _, _, _, _) => ai,
        }
    }

    /// The same ship with its script replaced.
    pub open spec fn with_ai(self, ai: ShipAIView) -> ShipView {
        match self {
            ShipView::Fly(_, w, id, n, s, a) => ShipView::Fly(ai, w, id, n, s, a),
            ShipView::Explosion(_, w, id) => ShipView::Explosion(ai, w, id),
            ShipView::Laser(_, w, id, d, sp) => ShipView::Laser(ai, w, id, d, sp),
        }
    }

    /// The ship's identifier.
    pub open spec fn id(self) -> u128 {
        match self {
            ShipView::Fly(_, _, id, _, _, _) => id,
            ShipView::Explosion(_, _, id) => id,
            ShipView::Laser(_, _, id, _, _) => id,
        }
    }

    /// Whether the ship may wrap around the edges of the board.
    pub open spec fn wraps(self) -> bool {
        match self {
            ShipView::Fly(_, w, _, _, _, _) => w,
            ShipView::Explosion(_, w, _) => w,
            ShipView::Laser(_, w, _, _, _) => w,
        }
    }

    /// The ship is a fly.
    pub open spec fn is_fly(self) -> bool {
        self is Fly
    }

    /// The ship's script can run on any cell of any board.
    pub open spec fn valid(self) -> bool {
        self.ai().valid()
    }

    /// The ship after one turn at `cords` on `board`, and what it does.
    pub open spec fn acted(self, cords: Cords, board: Map<Cords, ShipView>) -> (ShipView, ShipAction) {
        let (ai, action) = self.ai().turn(cords, board);
        (self.with_ai(ai), action)
    }
}

/// The script of a new bullet: one row down or up per step.
pub open spec fn bullet_script(moving_down: bool) -> Seq<(Option<Condition>, AIAction)> {
    seq![(None, AIAction::RelativeMove(if moving_down { RelCords(1i32, 0i32) } else { RelCords(-1i32, 0i32) }))]
}

/// A new bullet with identifier `id`.
pub open spec fn bullet_view(moving_down: bool, speed: u32, id: u128) -> ShipView {
    ShipView::Laser(
        ShipAIView {
            timer: TimerView { current_time: 0, interval: speed as u64 },
            actions: bullet_script(moving_down),
            action_index: 0,
        },
        false,
        id,
        moving_down,
        speed,
    )
}

/// A new explosion with identifier `id`: it removes itself after 20 ticks.
pub open spec fn explosion_view(id: u128) -> ShipView {
    ShipView::Explosion(
        ShipAIView {
            timer: TimerView { current_time: 0, interval: 20 },
            actions: seq![(None, AIAction::Remove)],
            action_index: 0,
        },
        false,
        id,
    )
}

/// The steps of a fly that follows pattern `p`: without wrapping, its
/// moves become `Nothing`; without shooting, its conditional shots do.
pub open spec fn fly_script(p: Fly_Pattern, wrap: bool, allow_shoot: bool) -> Seq<(Option<Condition>, AIAction)> {
    pattern_entries(p).map_values(|e: (Option<Condition>, AIAction)| fly_entry(e, wrap, allow_shoot))
}

/// A step of a fly's pattern as the fly plays it: a move becomes `Nothing`
/// when the fly may not wrap, a conditional shot when it may not shoot.
pub open spec fn fly_entry(e: (Option<Condition>, AIAction), wrap: bool, allow_shoot: bool) -> (Option<Condition>, AIAction) {
    let grounded = if !wrap && e.1 is MoveOrNothing { AIAction::Nothing } else { e.1 };
    let disarmed = if !allow_shoot && grounded is ShootOrNothing { AIAction::Nothing } else { grounded };
    (e.0, disarmed)
}

/// A new fly that follows pattern `p`, with identifier `id`.
pub open spec fn fly_view(p: Fly_Pattern, speed: u32, wrap: bool, allow_shoot: bool, id: u128) -> ShipView {
    ShipView::Fly(
        ShipAIView {
            timer: TimerView { current_time: 0, interval: speed as u64 },
            actions: fly_script(p, wrap, allow_shoot),
            action_index: 0,
        },
        wrap,
        id,
        0,
        allow_shoot,
        true,
    )
}

/// A fly plays its pattern's steps in order with their conditions. Its
/// moves (`MoveOrNothing`) are kept exactly when it may wrap and become
/// `Nothing` otherwise, whether or not it may shoot; its conditional shots
/// (`ShootOrNothing`) are kept exactly when it may shoot, whether or not
/// it may wrap; every other step is the pattern's own.
pub proof fn lemma_fly_script_switches(p: Fly_Pattern, wrap: bool, allow_shoot: bool)
    ensures
        fly_script(p, wrap, allow_shoot).len() == pattern_entries(p).len(),
        forall|i: int|
            0 <= i < pattern_entries(p).len() ==> {
                let e = #[trigger] pattern_entries(p)[i];
                let f = fly_script(p, wrap, allow_shoot)[i];
                &&& f.0 == e.0
                &&& e.1 is MoveOrNothing ==> f.1 == (if wrap { e.1 } else { AIAction::Nothing })
                &&& e.1 is ShootOrNothing ==> f.1 == (if allow_shoot { e.1 } else { AIAction::Nothing })
                &&& !(e.1 is MoveOrNothing) && !(e.1 is ShootOrNothing) ==> f.1 == e.1
            },
        !wrap ==> forall|i: int|
            0 <= i < fly_script(p, wrap, allow_shoot).len() ==> !(#[trigger] fly_script(p, wrap, allow_shoot)[i].1 is MoveOrNothing),
{
}

/// The pattern picked by a draw below three.
pub open spec fn drawn_pattern(k: u32) -> Fly_Pattern {
    if k == 0 {
        Fly_Pattern::Pattern1
    } else if k == 1 {
        Fly_Pattern::Pattern2
    } else {
        Fly_Pattern::Pattern3
    }
}

/// A script after `n` turns at `cords` on an unchanging `board`.
pub open spec fn turns_after(ai: ShipAIView, cords: Cords, board: Map<Cords, ShipView>, n: nat) -> ShipAIView
    decreases n,
{
    if n == 0 {
        ai
    } else {
        turns_after(ai, cords, board, (n - 1) as nat).ai_action(cords, board).0
    }
}

/// A script of one step without a condition, just started, does nothing
/// for `interval - 1` turns, plays its step on the `interval`-th, and is
/// then back where it started: it plays the step once every `interval`
/// turns, whatever the board.
pub proof fn lemma_single_step_period(ai: ShipAIView, cords: Cords, board: Map<Cords, ShipView>, n: nat)
    requires
        ai.actions.len() == 1,
        ai.actions[0].0 is None,
        ai.action_index == 0,
        ai.timer.current_time == 0,
        n < ai.timer.interval,
    ensures
        turns_after(ai, cords, board, n) == (ShipAIView {
            timer: TimerView { current_time: n as u64, interval: ai.timer.interval },
            ..ai
        }),
        turns_after(ai, cords, board, n).ai_action(cords, board).1 == if n + 1 == ai.timer.interval {
            ai.actions[0].1
        } else {
            AIAction::Nothing
        },
        n + 1 == ai.timer.interval ==> turns_after(ai, cords, board, n + 1) == ai,
    decreases n,
{
    if n > 0 {
        lemma_single_step_period(ai, cords, board, (n - 1) as nat);
    }
    let now = turns_after(ai, cords, board, n);
    assert(entry_passes(now.actions[0], cords, board));
    if n + 1 == ai.timer.interval {
        assert(turns_after(ai, cords, board, n + 1) == now.ai_action(cords, board).0);
    }
}

/// An explosion does nothing for its first 19 turns, removes itself on
/// the 20th, and would then start over.
pub proof fn lemma_explosion_clears_itself(id: u128, cords: Cords, board: Map<Cords, ShipView>, n: nat)
    requires
        n < 20,
    ensures
        turns_after(explosion_view(id).ai(), cords, board, n).ai_action(cords, board).1
            == if n == 19 { AIAction::Remove } else { AIAction::Nothing },
        turns_after(explosion_view(id).ai(), cords, board, 20) == explosion_view(id).ai(),
{
    let ai = explosion_view(id).ai();
    lemma_single_step_period(ai, cords, board, n);
    lemma_single_step_period(ai, cords, board, 19);
}

/// A bullet moves one row (down or up, as it was fired) once every
/// `speed` turns and does nothing in between, whatever the board.
pub proof fn lemma_bullet_moves_every_interval(
    moving_down: bool,
    speed: u32,
    id: u128,
    cords: Cords,
    board: Map<Cords, ShipView>,
    n: nat,
)
    requires
        n < speed,
    ensures
        turns_after(bullet_view(moving_down, speed, id).ai(), cords, board, n).ai_action(cords, board).1
            == if n + 1 == speed {
            AIAction::RelativeMove(if moving_down { RelCords(1i32, 0i32) } else { RelCords(-1i32, 0i32) })
        } else {
            AIAction::Nothing
        },
        turns_after(bullet_view(moving_down, speed, id).ai(), cords, board, speed as nat) == bullet_view(
            moving_down,
            speed,
            id,
        ).ai(),
{
    let ai = bullet_view(moving_down, speed, id).ai();
    lemma_single_step_period(ai, cords, board, n);
    lemma_single_step_period(ai, cords, board, (speed - 1) as nat);
}

/// An identifier as a random (version 4, RFC 4122) UUID has it: version
/// nibble 4 and variant bits `10`.
pub open spec fn is_random_id(id: u128) -> bool {
    &&& (id >> 76u128) & 0xfu128 == 4
    &&& (id >> 62u128) & 0x3u128 == 2
}

/// A ship on the board.
pub enum Ship {
    Fly(ShipAI, bool, u128, u32, bool, bool),
    Explosion(ShipAI, bool, u128),
    Laser(ShipAI, bool, u128, bool, u32),
}

impl View for Ship {
    type V = ShipView;

    open spec fn view(&self) -> ShipView {
        match self {
            Ship::Fly(ai, w, id, n, s, a) => ShipView::Fly(ai@, *w, *id, *n, *s, *a),
            Ship::Explosion(ai, w, id) => ShipView::Explosion(ai@, *w, *id),
            Ship::Laser(ai, w, id, d, sp) => ShipView::Laser(ai@, *w, *id, *d, *sp),
        }
    }
}

/// The image file that shows a ship.
pub open spec fn image_of(ship: ShipView) -> Seq<char> {
    match ship {
        ShipView::Fly(..) => "assets/fly.png"@,
        ShipView::Explosion(..) => "assets/explosion.png"@,
        ShipView::Laser(_, _, _, moving_down, _) => if moving_down {
            "assets/bullet_downward.png"@
        } else {
            "assets/bullet_upward.png"@
        },
    }
}

impl Ship {
    /// Whether the ship is a fly.
    pub fn is_fly(&self) -> (res: bool)
        ensures
            res == self@.is_fly(),
    {
        matches!(self, Ship::Fly(_, _, _, _, _, _))
    }

    /// The image file that shows the ship.
    pub fn display_info(&self) -> (res: String)
        ensures
            res@ == image_of(self@),
    {
        match self {
            Ship::Fly(_, _, _, _, _, _) => "assets/fly.png".to_string(),
            Ship::Explosion(_, _, _) => "assets/explosion.png".to_string(),
            Ship::Laser(_, _, _, moving_down, _) => {
                if *moving_down {
                    "assets/bullet_downward.png".to_string()
                } else {
                    "assets/bullet_upward.png".to_string()
                }
            },
        }
    }

    /// The ship's identifier.
    pub fn get_id(&self) -> (res: u128)
        ensures
            res == self@.id(),
    {
        match self {
            Ship::Fly(_, _, id, _, _, _) => *id,
            Ship::Explosion(_, _, id) => *id,
            Ship::Laser(_, _, id, _, _) => *id,
        }
    }

    /// Plays one turn of the ship's script at `cords`.
    pub fn get_action(&mut self, cords: Cords, game_board: &GameBoard) -> (res: ShipAction)
        requires
            old(self)@.ai().runs_at(cords, game_board@),
        ensures
            (final(self)@, res) == old(self)@.acted(cords, game_board@),
            old(self)@.valid() ==> final(self)@.valid(),
            final(self)@.id() == old(self)@.id(),
            final(self)@.wraps() == old(self)@.wraps(),
    {
        match self {
            Ship::Fly(ai, _, _, _, _, _) => ai.get_action(cords, game_board),
            Ship::Explosion(ai, _, _) => ai.get_action(cords, game_board),
            Ship::Laser(ai, _, _, _, _) => ai.get_action(cords, game_board),
        }
    }

    /// Whether the ship's script can run on any cell of any board.
    pub fn runs_anywhere(&self) -> (res: bool)
        ensures
            res == self@.valid(),
    {
        match self {
            Ship::Fly(ai, _, _, _, _, _) => ai.runs_anywhere(),
            Ship::Explosion(ai, _, _) => ai.runs_anywhere(),
            Ship::Laser(ai, _, _, _, _) => ai.runs_anywhere(),
        }
    }

    /// Whether the ship may wrap around the edges of the board.
    pub fn wrap(&self) -> (res: bool)
        ensures
            res == self@.wraps(),
    {
        match self {
            Ship::Fly(_, wrap, _, _, _, _) => *wrap,
            Ship::Explosion(_, wrap, _) => *wrap,
            Ship::Laser(_, wrap, _, _, _) => *wrap,
        }
    }

    /// A fly with identifier `id` that follows `pattern`, moving every
    /// `speed` ticks; `wrap` lets it move at all, `allow_shoot` lets it fire
    /// its conditional shots.
    pub fn fly_with_pattern(pattern: Fly_Pattern, speed: u32, wrap: bool, allow_shoot: bool, id: u128) -> (res: Self)
        ensures
            res@ == fly_view(pattern, speed, wrap, allow_shoot, id),
    {
        let base = pattern.fly_pattern();
        let mut actions: Vec<(Option<Condition>, AIAction)> = Vec::new();
        let ghost script = fly_script(pattern, wrap, allow_shoot);
        let mut i: usize = 0;
        while i < base.len()
            invariant
                base@ == pattern_entries(pattern),
                i <= base.len(),
                actions@.len() == i,
                script == fly_script(pattern, wrap, allow_shoot),
                script.len() == base@.len(),
                forall|j: int| 0 <= j < i ==> actions@[j] == script[j],
            decreases base.len() - i,
        {
            let (cond, action) = base[i];
            let action = if !wrap && matches!(action, AIAction::MoveOrNothing(_)) {
                AIAction::Nothing
            } else {
                action
            };
            let action = if !allow_shoot && matches!(action, AIAction::ShootOrNothing) {
                AIAction::Nothing
            } else {
                action
            };
            assert(script[i as int] == fly_entry(pattern_entries(pattern)[i as int], wrap, allow_shoot));
            actions.push((cond, action));
            i = i + 1;
        }
        assert(actions@ =~= script);
        Ship::Fly(ShipAI::new(speed as u64, actions), wrap, id, 0, allow_shoot, true)
    }

    /// A new fly on one of the first three patterns, drawn at random, with a
    /// fresh random identifier (a version-4 RFC 4122 UUID).
    pub fn new_fly(speed: u32, wrap: bool, allow_shoot: bool) -> (res: Self)
        ensures
            exists|k: u32| k < 3 && res@ == fly_view(drawn_pattern(k), speed, wrap, allow_shoot, res@.id()),
            is_random_id(res@.id()),
    {
        let k = crate::outside::random_below(3);
        let pattern = Fly_Pattern::drawn(k);
        let id = crate::outside::fresh_ship_id();
        Self::fly_with_pattern(pattern, speed, wrap, allow_shoot, id)
    }

    /// A bullet with identifier `id`, moving one row per `speed` ticks.
    pub fn bullet_with_id(moving_down: bool, speed: u32, id: u128) -> (res: Self)
        ensures
            res@ == bullet_view(moving_down, speed, id),
    {
        let movement = if moving_down {
            RelCords(1, 0)
        } else {
            RelCords(-1, 0)
        };
        let script = vec![(None, AIAction::RelativeMove(movement))];
        assert(script@ =~= bullet_script(moving_down));
        Ship::Laser(
            ShipAI::new(speed as u64, script),
            false,
            id,
            moving_down,
            speed,
        )
    }

    /// A new bullet with a fresh random identifier (a version-4 RFC 4122 UUID).
    pub fn new_bullet(moving_down: bool, speed: u32) -> (res: Self)
        ensures
            res@ == bullet_view(moving_down, speed, res@.id()),
            is_random_id(res@.id()),
    {
        let id = crate::outside::fresh_ship_id();
        Self::bullet_with_id(moving_down, speed, id)
    }

    /// An explosion with identifier `id`.
    pub fn explosion_with_id(id: u128) -> (res: Self)
        ensures
            res@ == explosion_view(id),
    {
        let script = vec![(None, AIAction::Remove)];
        assert(script@ =~= seq![(None::<Condition>, AIAction::Remove)]);
        Ship::Explosion(ShipAI::new(20, script), false, id)
    }

    /// A new explosion with a fresh random identifier (a version-4 RFC 4122 UUID).
    pub fn new_explosion() -> (res: Self)
        ensures
            res@ == explosion_view(res@.id()),
            is_random_id(res@.id()),
    {
        let id = crate::outside::fresh_ship_id();
        Self::explosion_with_id(id)
    }
}

/// Bullets, explosions and the flies of every pattern can run on any board:
/// none of their scripts can stall or leave the board's arithmetic.
pub proof fn lemma_new_ships_valid(p: Fly_Pattern, speed: u32, wrap: bool, allow_shoot: bool, moving_down: bool, id: u128)
    ensures
        fly_view(p, speed, wrap, allow_shoot, id).valid(),
        bullet_view(moving_down, speed, id).valid(),
        explosion_view(id).valid(),
{
    let s = fly_script(p, wrap, allow_shoot);
    assert(s.len() > 0);
    assert(s[0].0 is None || s[1].0 is None);
    assert(bullet_script(moving_down)[0].0 is None);
    assert(seq![(None::<Condition>, AIAction::Remove)][0].0 is None);
}

} // verus!
