//! Board geometry, difficulty levels, ship actions and the tick timer.
use vstd::prelude::*;

verus! {

/// Height of the board; the board is twice as wide as it is high.
pub const SIZE: usize = 10;

/// Number of rows on the board.
pub const ROWS: usize = SIZE;

/// Number of columns on the board.
pub const COLUMNS: usize = SIZE * 2;

/// A cell of the board: row first, then column.
#[derive(Clone, Copy, PartialEq, Eq, Hash, Debug, Structural)]
pub struct Cords(pub usize, pub usize);

impl Cords {
    /// The cell lies on the board.
    pub open spec fn in_bounds(self) -> bool {
        self.0 < ROWS && self.1 < COLUMNS
    }
}

/// A displacement on the board: rows first, then columns.
#[derive(Clone, Copy, PartialEq, Eq, Debug, Structural)]
pub struct RelCords(pub i32, pub i32);

/// Brings one coordinate back onto an axis of `size` cells: a value below the
/// axis lands on its last cell, a value past it on its first cell.
pub open spec fn wrap_axis(v: int, size: int) -> (int, bool) {
    if v < 0 {
        (size - 1, true)
    } else if v >= size {
        (0, true)
    } else {
        (v, false)
    }
}

impl RelCords {
    /// Adding the displacement to `cords` stays within `i32`, once each
    /// coordinate of `cords` has been taken as an `i32`.
    pub open spec fn can_evaluate(self, cords: Cords) -> bool {
        &&& i32::MIN <= (cords.0 as i32) + self.0 <= i32::MAX
        &&& i32::MIN <= (cords.1 as i32) + self.1 <= i32::MAX
    }

    /// The displacement can be added to any cell of the board.
    pub open spec fn fits_board(self) -> bool {
        &&& self.0 <= i32::MAX - (ROWS - 1)
        &&& self.1 <= i32::MAX - (COLUMNS - 1)
    }

    /// The cell reached from `cords`, wrapped onto the board, and whether a
    /// wrap happened on either axis.
    pub open spec fn evaluated(self, cords: Cords) -> (Cords, bool) {
        let (r, wr) = wrap_axis((cords.0 as i32) + self.0, ROWS as int);
        let (c, wc) = wrap_axis((cords.1 as i32) + self.1, COLUMNS as int);
        (Cords(r as usize, c as usize), wr || wc)
    }

    /// Whether the displacement can be added to any cell of the board.
    pub fn fits(&self) -> (res: bool)
        ensures
            res == self.fits_board(),
    {
        self.0 <= i32::MAX - (ROWS - 1) as i32 && self.1 <= i32::MAX - (COLUMNS - 1) as i32
    }

    /// Moves `cords` by this displacement, wrapping around the edges of the
    /// board, and tells whether it had to wrap.
    pub fn evaluate(&self, cords: Cords) -> (res: (Cords, bool))
        requires
            self.can_evaluate(cords),
        ensures
            res == self.evaluated(cords),
    {
        let r: i32 = cords.0 as i32 + self.0;
        let c: i32 = cords.1 as i32 + self.1;
        let mut wrapped = false;
        let row: usize = if r < 0 {
            wrapped = true;
            ROWS - 1
        } else if r >= ROWS as i32 {
            wrapped = true;
            0
        } else {
            r as usize
        };
        let col: usize = if c < 0 {
            wrapped = true;
            COLUMNS - 1
        } else if c >= COLUMNS as i32 {
            wrapped = true;
            0
        } else {
            c as usize
        };
        (Cords(row, col), wrapped)
    }
}

/// A cell on the board can be moved by a displacement that fits the board.
pub proof fn lemma_fits_board_can_evaluate(rel: RelCords, cords: Cords)
    requires
        rel.fits_board(),
        cords.in_bounds(),
    ensures
        rel.can_evaluate(cords),
{
}

/// Evaluating a displacement always lands on the board, and a move that did
/// not wrap is the plain sum of the cell and the displacement.
pub proof fn lemma_evaluate_lands_on_board(rel: RelCords, cords: Cords)
    requires
        cords.in_bounds(),
        rel.can_evaluate(cords),
    ensures
        rel.evaluated(cords).0.in_bounds(),
        !rel.evaluated(cords).1 ==> {
            &&& rel.evaluated(cords).0.0 == cords.0 + rel.0
            &&& rel.evaluated(cords).0.1 == cords.1 + rel.1
        },
{
}

/// The cell reached from `cords` after `k` moves by `rel`.
pub open spec fn walked(rel: RelCords, cords: Cords, k: nat) -> Cords
    decreases k,
{
    if k == 0 {
        cords
    } else {
        rel.evaluated(walked(rel, cords, (k - 1) as nat)).0
    }
}

/// How many of the first `k` moves by `rel` from `cords` had to wrap.
pub open spec fn wraps_in(rel: RelCords, cords: Cords, k: nat) -> int
    decreases k,
{
    if k == 0 {
        0
    } else {
        wraps_in(rel, cords, (k - 1) as nat) + if rel.evaluated(walked(rel, cords, (k - 1) as nat)).1 {
            1int
        } else {
            0
        }
    }
}

proof fn lemma_column_walk(cords: Cords, k: nat)
    requires
        cords.in_bounds(),
        k <= COLUMNS,
    ensures
        walked(RelCords(0, 1), cords, k) == Cords(cords.0, ((cords.1 + k) % (COLUMNS as int)) as usize),
        wraps_in(RelCords(0, 1), cords, k) == (cords.1 + k) / (COLUMNS as int),
    decreases k,
{
    if k > 0 {
        lemma_column_walk(cords, (k - 1) as nat);
    }
}

proof fn lemma_row_walk(cords: Cords, k: nat)
    requires
        cords.in_bounds(),
        k <= ROWS,
    ensures
        walked(RelCords(1, 0), cords, k) == Cords(((cords.0 + k) % (ROWS as int)) as usize, cords.1),
        wraps_in(RelCords(1, 0), cords, k) == (cords.0 + k) / (ROWS as int),
    decreases k,
{
    if k > 0 {
        lemma_row_walk(cords, (k - 1) as nat);
    }
}

/// From any cell of the board, one step to the right at a time comes back
/// after as many steps as there are columns, wrapping exactly once; one
/// step down at a time comes back after as many steps as there are rows,
/// wrapping exactly once.
pub proof fn lemma_walks_come_back(cords: Cords)
    requires
        cords.in_bounds(),
    ensures
        walked(RelCords(0, 1), cords, COLUMNS as nat) == cords,
        wraps_in(RelCords(0, 1), cords, COLUMNS as nat) == 1,
        walked(RelCords(1, 0), cords, ROWS as nat) == cords,
        wraps_in(RelCords(1, 0), cords, ROWS as nat) == 1,
{
    lemma_column_walk(cords, COLUMNS as nat);
    lemma_row_walk(cords, ROWS as nat);
}

/// Moving a cell by a displacement adds the displacement on each axis. A
/// sum that stays on the board is the cell reached, with no wrap; a sum
/// below an axis lands on that axis's last cell and one past it on its
/// first cell, and either counts as a wrap.
pub proof fn lemma_evaluate_adds_or_wraps(rel: RelCords, cords: Cords)
    requires
        cords.0 <= i32::MAX,
        cords.1 <= i32::MAX,
        rel.can_evaluate(cords),
    ensures
        0 <= cords.0 + rel.0 < ROWS && 0 <= cords.1 + rel.1 < COLUMNS ==> rel.evaluated(cords) == (
            Cords((cords.0 + rel.0) as usize, (cords.1 + rel.1) as usize),
            false,
        ),
        0 <= cords.0 + rel.0 < ROWS ==> rel.evaluated(cords).0.0 == cords.0 + rel.0,
        0 <= cords.1 + rel.1 < COLUMNS ==> rel.evaluated(cords).0.1 == cords.1 + rel.1,
        cords.0 + rel.0 < 0 ==> rel.evaluated(cords).0.0 == ROWS - 1 && rel.evaluated(cords).1,
        cords.0 + rel.0 >= ROWS ==> rel.evaluated(cords).0.0 == 0 && rel.evaluated(cords).1,
        cords.1 + rel.1 < 0 ==> rel.evaluated(cords).0.1 == COLUMNS - 1 && rel.evaluated(cords).1,
        cords.1 + rel.1 >= COLUMNS ==> rel.evaluated(cords).0.1 == 0 && rel.evaluated(cords).1,
{
    assert(cords.0 as i32 == cords.0);
    assert(cords.1 as i32 == cords.1);
}

/// Difficulty of a game.
#[derive(Clone, Copy, Debug, PartialEq, Eq, Structural)]
pub enum Level {
    Easy,
    Medium,
    Hard,
}

/// The `(speed, lives)` pair of a difficulty level.
pub open spec fn level_status(level: Level) -> (u64, u8) {
    match level {
        Level::Easy => (500, 5),
        Level::Medium => (300, 3),
        Level::Hard => (100, 1),
    }
}

/// The difficulty level a game is played at.
#[derive(Debug)]
pub struct GameLevel {
    current_level: Level,
}

impl View for GameLevel {
    type V = Level;

    closed spec fn view(&self) -> Level {
        self.current_level
    }
}

impl GameLevel {
    /// A game level set to `level`.
    pub fn new(level: Level) -> (res: Self)
        ensures
            res@ == level,
    {
        GameLevel { current_level: level }
    }

    /// Changes the level.
    pub fn set_level(&mut self, level: Level)
        ensures
            final(self)@ == level,
    {
        self.current_level = level;
    }

    /// The `(speed, lives)` pair of the current level.
    pub fn get_level_status(&self) -> (res: (u64, u8))
        ensures
            res == level_status(self@),
    {
        match self.current_level {
            Level::Easy => Self::easy(),
            Level::Medium => Self::medium(),
            Level::Hard => Self::hard(),
        }
    }

    fn easy() -> (res: (u64, u8))
        ensures
            res == level_status(Level::Easy),
    {
        let speed: u64 = 500;
        let lives: u8 = 5;
        (speed, lives)
    }

    fn medium() -> (res: (u64, u8))
        ensures
            res == level_status(Level::Medium),
    {
        let speed: u64 = 300;
        let lives: u8 = 3;
        (speed, lives)
    }

    fn hard() -> (res: (u64, u8))
        ensures
            res == level_status(Level::Hard),
    {
        let speed: u64 = 100;
        let lives: u8 = 1;
        (speed, lives)
    }
}

/// Every level gives the player at least one life and a positive speed;
/// the easy level gives speed 500 and five lives, the hard one a single
/// life.
pub proof fn lemma_level_status_is_levels(level: Level)
    ensures
        level_status(level).1 >= 1,
        level_status(level).0 > 0,
        level == Level::Easy ==> level_status(level) == (500u64, 5u8),
        level == Level::Hard ==> level_status(level).1 == 1,
{
}

/// What a ship does on a turn, seen from the board.
#[derive(Clone, Copy, Debug, PartialEq, Eq, Structural)]
pub enum ShipAction {
    Nothing,
    Remove,
    Shoot,
    Move(Cords, bool),
}

/// The state of a timer: the ticks counted so far and the tick count at
/// which it fires.
pub struct TimerView {
    pub current_time: u64,
    pub interval: u64,
}

impl TimerView {
    /// The count has not run past the interval (it is reset on firing).
    pub open spec fn wf(self) -> bool {
        self.current_time == 0 || self.current_time < self.interval
    }

    /// One tick: the count goes up by one; when it reaches the interval the
    /// timer fires and the count starts again from zero.
    pub open spec fn ticked(self) -> (TimerView, bool) {
        if self.current_time + 1 >= self.interval {
            (TimerView { current_time: 0, interval: self.interval }, true)
        } else {
            (TimerView { current_time: (self.current_time + 1) as u64, interval: self.interval }, false)
        }
    }

    /// The state after `n` ticks.
    pub open spec fn ticked_n(self, n: nat) -> TimerView
        decreases n,
    {
        if n == 0 {
            self
        } else {
            self.ticked_n((n - 1) as nat).ticked().0
        }
    }
}

/// Counts ticks and fires once every `interval` of them.
pub struct Timer {
    current_time: u64,
    interval: u64,
}

impl View for Timer {
    type V = TimerView;

    closed spec fn view(&self) -> TimerView {
        TimerView { current_time: self.current_time, interval: self.interval }
    }
}

impl Timer {
    #[verifier::type_invariant]
    spec fn count_within_interval(&self) -> bool {
        self.current_time == 0 || self.current_time < self.interval
    }

    /// A timer that fires every `interval` ticks, with no tick counted yet.
    pub fn new(interval: u64) -> (res: Self)
        ensures
            res@ == (TimerView { current_time: 0, interval }),
    {
        Timer { current_time: 0, interval }
    }

    /// The number of ticks between firings.
    pub fn interval(&self) -> (res: u64)
        ensures
            res == self@.interval,
    {
        self.interval
    }

    /// Counts one tick; returns whether the timer fired on it.
    pub fn tick(&mut self) -> (fired: bool)
        ensures
            (final(self)@, fired) == old(self)@.ticked(),
    {
        proof {
            use_type_invariant(&*self);
        }
        let counted: u64 = self.current_time + 1;
        if counted >= self.interval {
            self.current_time = 0;
            true
        } else {
            self.current_time = counted;
            false
        }
    }
}

/// A timer that has just been reset fires again exactly when `interval`
/// ticks have been counted: the first `interval - 1` ticks do not fire and
/// leave the count equal to the number of ticks, the `interval`-th fires.
pub proof fn lemma_timer_period(interval: u64, n: nat)
    requires
        1 <= n <= interval,
    ensures
        ({
            let start = TimerView { current_time: 0, interval };
            let before = start.ticked_n((n - 1) as nat);
            &&& before.current_time == n - 1
            &&& before.interval == interval
            &&& before.ticked().1 == (n == interval)
            &&& n == interval ==> start.ticked_n(n) == start
        }),
    decreases n,
{
    let start = TimerView { current_time: 0, interval };
    if n > 1 {
        lemma_timer_period(interval, (n - 1) as nat);
        assert(start.ticked_n((n - 1) as nat) == start.ticked_n((n - 2) as nat).ticked().0);
    }
    let before = start.ticked_n((n - 1) as nat);
    if n == interval {
        assert(start.ticked_n(n) == start.ticked_n((n - 1) as nat).ticked().0);
    }
}

/// One more tick on a count of `k - 1` ticks modulo `m`.
proof fn lemma_count_step(k: int, m: int)
    requires
        k >= 1,
        m >= 1,
    ensures
        (k - 1) % m + 1 == m ==> k % m == 0,
        (k - 1) % m + 1 < m ==> k % m == (k - 1) % m + 1,
{
    let q = (k - 1) / m;
    let c = (k - 1) % m;
    vstd::arithmetic::div_mod::lemma_fundamental_div_mod(k - 1, m);
    assert(k == q * m + c + 1);
    if c + 1 == m {
        assert(k == (q + 1) * m) by (nonlinear_arith)
            requires
                k == q * m + c + 1,
                c + 1 == m,
        ;
        vstd::arithmetic::div_mod::lemma_mod_multiples_basic(q + 1, m);
    } else {
        vstd::arithmetic::div_mod::lemma_fundamental_div_mod_converse(k, m, q, c + 1);
    }
}

/// A timer counts its ticks modulo its interval (modulo 1 when the
/// interval is 0).
proof fn lemma_timer_count(interval: u64, k: nat)
    ensures
        ({
            let m = if interval == 0 { 1 } else { interval as int };
            let after = (TimerView { current_time: 0, interval }).ticked_n(k);
            &&& after.current_time == (k as int) % m
            &&& after.interval == interval
        }),
    decreases k,
{
    let m = if interval == 0 { 1 } else { interval as int };
    if k > 0 {
        lemma_timer_count(interval, (k - 1) as nat);
        lemma_count_step(k as int, m);
    }
}

/// A new timer fires on its `k`-th tick exactly when `k` is a multiple of
/// its interval, so once in every `interval` consecutive ticks; with an
/// interval of 0 or 1 it fires on every tick.
pub proof fn lemma_timer_fires_every_interval(interval: u64, k: nat)
    requires
        k >= 1,
    ensures
        ({
            let m = if interval == 0 { 1 } else { interval as int };
            let start = TimerView { current_time: 0, interval };
            &&& start.ticked_n((k - 1) as nat).ticked().1 == ((k as int) % m == 0)
            &&& start.ticked_n(k).current_time == (k as int) % m
        }),
{
    let m = if interval == 0 { 1 } else { interval as int };
    lemma_timer_count(interval, (k - 1) as nat);
    lemma_timer_count(interval, k);
    lemma_count_step(k as int, m);
}

} // verus!
