//! The board: the ships on it, each at a cell.
use vstd::prelude::*;
use std::collections::HashMap;
use vstd::std_specs::iter::IteratorSpec;
use crate::ship::{Ship, ShipView};
use crate::structs::{Cords, COLUMNS, ROWS};

verus! {

broadcast use vstd::std_specs::hash::group_hash_axioms;

/// The key under which the board stores a cell.
pub open spec fn cell_key(c: Cords) -> int {
    c.0 * COLUMNS + c.1
}

/// The cell stored under a key.
pub open spec fn key_cell(k: int) -> Cords {
    Cords((k / COLUMNS as int) as usize, (k % COLUMNS as int) as usize)
}

/// Cells of the board and keys below `ROWS * COLUMNS` correspond one to one.
pub proof fn lemma_cell_key_bijective(c: Cords, k: int)
    ensures
        c.in_bounds() ==> 0 <= cell_key(c) < ROWS * COLUMNS && key_cell(cell_key(c)) == c,
        0 <= k < ROWS * COLUMNS ==> key_cell(k).in_bounds() && cell_key(key_cell(k)) == k,
{
    if c.in_bounds() {
        assert((c.0 * 20 + c.1) / 20 == c.0 && (c.0 * 20 + c.1) % 20 == c.1) by (nonlinear_arith)
            requires
                c.1 < 20,
        ;
    }
    if 0 <= k < ROWS * COLUMNS {
        assert(k / 20 < 10 && k == (k / 20) * 20 + k % 20 && 0 <= k % 20 < 20 && k / 20 >= 0)
            by (nonlinear_arith)
            requires
                0 <= k < 200,
        ;
    }
}

/// The ships on the board, each at its cell.
pub struct GameBoard {
    cells: HashMap<usize, Ship>,
}

impl View for GameBoard {
    type V = Map<Cords, ShipView>;

    closed spec fn view(&self) -> Map<Cords, ShipView> {
        Map::new(
            |c: Cords| c.in_bounds() && self.cells@.contains_key(cell_key(c) as usize),
            |c: Cords| self.cells@[cell_key(c) as usize]@,
        )
    }
}

impl GameBoard {
    #[verifier::type_invariant]
    spec fn keys_on_board(&self) -> bool {
        forall|k: usize| #[trigger] self.cells@.contains_key(k) ==> k < ROWS * COLUMNS
    }

    /// Every ship on the board stands on a cell of the board.
    pub proof fn lemma_cells_on_board(&self, c: Cords)
        ensures
            self@.contains_key(c) ==> c.in_bounds(),
    {
    }

    /// Every ship on the board stands on a cell of the board.
    pub proof fn lemma_all_cells_on_board(&self)
        ensures
            forall|c: Cords| #[trigger] self@.contains_key(c) ==> c.in_bounds(),
    {
    }

    fn key(c: &Cords) -> (k: usize)
        requires
            c.in_bounds(),
        ensures
            k == cell_key(*c),
            k < ROWS * COLUMNS,
    {
        assert(c.0 * 20 + c.1 < 200) by (nonlinear_arith)
            requires
                c.0 < 10,
                c.1 < 20,
        ;
        c.0 * COLUMNS + c.1
    }

    /// An empty board.
    pub fn new() -> (res: Self)
        ensures
            res@ == Map::<Cords, ShipView>::empty(),
    {
        let res = GameBoard { cells: HashMap::new() };
        assert(res@ =~= Map::<Cords, ShipView>::empty());
        res
    }

    /// Whether a ship stands at `c`.
    pub fn contains_key(&self, c: &Cords) -> (res: bool)
        ensures
            res == self@.contains_key(*c),
    {
        if c.0 < ROWS && c.1 < COLUMNS {
            let k = Self::key(c);
            self.cells.contains_key(&k)
        } else {
            false
        }
    }

    /// The ship at `c`, if any.
    pub fn get(&self, c: &Cords) -> (res: Option<&Ship>)
        ensures
            match res {
                Some(ship) => self@.contains_key(*c) && ship@ == self@[*c],
                None => !self@.contains_key(*c),
            },
    {
        if c.0 < ROWS && c.1 < COLUMNS {
            let k = Self::key(c);
            self.cells.get(&k)
        } else {
            None
        }
    }

    /// Puts `ship` at `c`, replacing whatever stood there.
    pub fn insert(&mut self, c: Cords, ship: Ship)
        requires
            c.in_bounds(),
        ensures
            final(self)@ == old(self)@.insert(c, ship@),
    {
        proof {
            use_type_invariant(&*self);
        }
        let k = Self::key(&c);
        let mut cells = HashMap::new();
        std::mem::swap(&mut cells, &mut self.cells);
        cells.insert(k, ship);
        self.cells = cells;
        proof {
            assert forall|c2: Cords| c2.in_bounds() && cell_key(c2) == cell_key(c) implies c2 == c by {
                lemma_cell_key_bijective(c2, 0);
                lemma_cell_key_bijective(c, 0);
            }
            assert(self@ =~= old(self)@.insert(c, ship@));
        }
    }

    /// The cells that hold a ship, each once, in the order in which the
    /// underlying hash map walks its keys (which this contract leaves open).
    pub fn cords(&self) -> (res: Vec<Cords>)
        ensures
            res@.no_duplicates(),
            forall|c: Cords| res@.contains(c) <==> self@.contains_key(c),
            res@.len() <= ROWS * COLUMNS,
    {
        proof {
            use_type_invariant(self);
        }
        let mut res: Vec<Cords> = Vec::new();
        let ghost ks = vstd::std_specs::hash::spec_keys_iter(&self.cells).remaining().unref();
        for k in it: self.cells.keys()
            invariant
                it.seq().unref() == ks,
                ks.to_set() == self.cells@.dom(),
                ks.no_duplicates(),
                res@.len() == it.index(),
                forall|i: int| 0 <= i < res@.len() ==> #[trigger] res@[i] == key_cell(ks[i] as int),
                forall|k2: usize| #[trigger] self.cells@.contains_key(k2) ==> k2 < ROWS * COLUMNS,
        {
            proof {
                assert(*k == ks[res@.len() as int]);
                assert(ks.to_set().contains(*k));
            }
            res.push(Cords(*k / COLUMNS, *k % COLUMNS));
        }
        proof {
            assert(ks.no_duplicates());
            assert forall|i: int| 0 <= i < ks.len() implies #[trigger] ks[i] < ROWS * COLUMNS by {
                assert(ks.to_set().contains(ks[i]));
            }
            assert forall|i: int| 0 <= i < res@.len() implies (#[trigger] res@[i]).in_bounds()
                && cell_key(res@[i]) == ks[i] by {
                assert(ks.to_set().contains(ks[i]));
                lemma_cell_key_bijective(res@[i], ks[i] as int);
            }
            assert forall|i: int, j: int| 0 <= i < res@.len() && 0 <= j < res@.len() && i != j implies res@[i] != res@[j] by {
                assert(cell_key(res@[i]) == ks[i]);
                assert(cell_key(res@[j]) == ks[j]);
            }
            assert forall|c: Cords| res@.contains(c) <==> self@.contains_key(c) by {
                if res@.contains(c) {
                    let i = choose|i: int| 0 <= i < res@.len() && res@[i] == c;
                    assert(ks.to_set().contains(ks[i]));
                }
                if self@.contains_key(c) {
                    let k = cell_key(c) as usize;
                    assert(ks.to_set().contains(k));
                    let i = choose|i: int| 0 <= i < ks.len() && ks[i] == k;
                    lemma_cell_key_bijective(c, 0);
                    lemma_cell_key_bijective(res@[i], ks[i] as int);
                    assert(res@[i] == c);
                }
            }
            let bound = Set::<usize>::range(0, (ROWS * COLUMNS) as usize);
            assert(ks.to_set().subset_of(bound));
            ks.unique_seq_to_set();
            vstd::set_lib::lemma_len_subset(ks.to_set(), bound);
        }
        res
    }

    /// Takes the ship at `c` off the board, if there is one.
    pub fn remove(&mut self, c: &Cords) -> (res: Option<Ship>)
        ensures
            match res {
                Some(ship) => old(self)@.contains_key(*c) && ship@ == old(self)@[*c] && final(self)@
                    == old(self)@.remove(*c),
                None => !old(self)@.contains_key(*c) && final(self)@ == old(self)@,
            },
    {
        proof {
            use_type_invariant(&*self);
        }
        if c.0 < ROWS && c.1 < COLUMNS {
            let k = Self::key(c);
            let mut cells = HashMap::new();
            std::mem::swap(&mut cells, &mut self.cells);
            let res = cells.remove(&k);
            self.cells = cells;
            proof {
                assert forall|c2: Cords| c2.in_bounds() && cell_key(c2) == cell_key(*c) implies c2
                    == *c by {
                    lemma_cell_key_bijective(c2, 0);
                    lemma_cell_key_bijective(*c, 0);
                }
                if res.is_some() {
                    assert(self@ =~= old(self)@.remove(*c));
                } else {
                    assert(self@ =~= old(self)@);
                }
            }
            res
        } else {
            None
        }
    }
}

} // verus!
