//! The scripted flight patterns of the flies.
use vstd::prelude::*;
use crate::ship::{AIAction, Condition};
use crate::structs::RelCords;

verus! {

/// One of the scripted routines a fly can follow.
#[allow(non_camel_case_types)]
#[derive(Clone, Copy, Debug, PartialEq, Eq, Structural)]
pub enum Fly_Pattern {
    Pattern1,
    Pattern2,
    Pattern3,
    Pattern4,
    Pattern5,
    Pattern6,
    Pattern7,
    Pattern8,
    Pattern9,
    Pattern10,
}

/// A step that moves by `(r, c)` when the target cell is free.
pub open spec fn step_to(r: int, c: int) -> (Option<Condition>, AIAction) {
    (None, AIAction::MoveOrNothing(RelCords(r as i32, c as i32)))
}

/// A shot, fired unless a fly stands in the column below.
pub open spec fn shot_at(r: int, c: int) -> (Option<Condition>, AIAction) {
    (Some(Condition::DontShootIfShipsAreBelow(RelCords(r as i32, c as i32))), AIAction::Shoot)
}

fn make_step(r: i32, c: i32) -> (e: (Option<Condition>, AIAction))
    ensures
        e == step_to(r as int, c as int),
{
    (None, AIAction::MoveOrNothing(RelCords(r, c)))
}

fn make_shot(r: i32, c: i32) -> (e: (Option<Condition>, AIAction))
    ensures
        e == shot_at(r as int, c as int),
{
    (Some(Condition::DontShootIfShipsAreBelow(RelCords(r, c))), AIAction::Shoot)
}

/// The routine of each pattern, in the order it is played.
pub open spec fn pattern_entries(p: Fly_Pattern) -> Seq<(Option<Condition>, AIAction)> {
    match p {
        Fly_Pattern::Pattern1 => seq![
            step_to(0, 1),
            step_to(-1, 0),
            step_to(0, 1),
            shot_at(0, 1),
            step_to(0, -1),
            step_to(1, 0),
            step_to(0, -1),
            step_to(-1, 0),
        ],
        Fly_Pattern::Pattern2 => seq![
            step_to(0, 1),
            step_to(-1, 0),
            step_to(0, 1),
            shot_at(0, 1),
            step_to(0, -1),
            step_to(1, 0),
            step_to(0, -1),
            step_to(-1, 0),
        ],
        Fly_Pattern::Pattern3 => seq![
            step_to(0, 1),
            step_to(-1, 0),
            step_to(0, 1),
            shot_at(0, 1),
            step_to(0, -1),
            step_to(1, 0),
            step_to(0, -1),
            step_to(-1, 0),
        ],
        Fly_Pattern::Pattern4 => seq![
            step_to(0, 1),
            step_to(-1, 0),
            step_to(0, 1),
            shot_at(0, 1),
            step_to(0, -1),
            step_to(1, 0),
            step_to(0, -1),
            step_to(-1, 0),
        ],
        Fly_Pattern::Pattern5 => seq![
            step_to(0, 1),
            step_to(-1, 0),
            step_to(0, 1),
            shot_at(0, 1),
            step_to(0, -1),
            step_to(1, 0),
            step_to(0, -1),
            step_to(-1, 0),
        ],
        Fly_Pattern::Pattern6 => seq![
            shot_at(1, 1),
            step_to(1, 1),
            shot_at(-1, 1),
            step_to(-1, 1),
        ],
        Fly_Pattern::Pattern7 => seq![
            shot_at(0, 1),
            step_to(0, 0),
            shot_at(1, 1),
        ],
        Fly_Pattern::Pattern8 => seq![
            shot_at(1, 0),
            step_to(1, 0),
            shot_at(0, 1),
            step_to(0, 1),
            shot_at(-1, 0),
            step_to(-1, 0),
            shot_at(0, 1),
            step_to(0, 1),
        ],
        Fly_Pattern::Pattern9 => seq![
            shot_at(0, 1),
            step_to(1, 1),
            shot_at(-1, 1),
        ],
        Fly_Pattern::Pattern10 => seq![
            shot_at(1, 1),
            step_to(1, 1),
            shot_at(0, 2),
            step_to(-1, 1),
            shot_at(0, 2),
            step_to(1, 1),
        ],
    }
}

impl Fly_Pattern {
    /// The pattern picked by a draw below three: the first, second or third.
    pub fn drawn(k: u32) -> (res: Fly_Pattern)
        ensures
            res == crate::ship::drawn_pattern(k),
    {
        if k == 0 {
            Fly_Pattern::Pattern1
        } else if k == 1 {
            Fly_Pattern::Pattern2
        } else {
            Fly_Pattern::Pattern3
        }
    }

    /// The list of (condition, action) steps of this pattern.
    pub fn fly_pattern(&self) -> (res: Vec<(Option<Condition>, AIAction)>)
        ensures
            res@ == pattern_entries(*self),
    {
        match self {
            Fly_Pattern::Pattern1 => vec![
                make_step(0, 1),
                make_step(-1, 0),
                make_step(0, 1),
                make_shot(0, 1),
                make_step(0, -1),
                make_step(1, 0),
                make_step(0, -1),
                make_step(-1, 0),
            ],
            Fly_Pattern::Pattern2 => vec![
                make_step(0, 1),
                make_step(-1, 0),
                make_step(0, 1),
                make_shot(0, 1),
                make_step(0, -1),
                make_step(1, 0),
                make_step(0, -1),
                make_step(-1, 0),
            ],
            Fly_Pattern::Pattern3 => vec![
                make_step(0, 1),
                make_step(-1, 0),
                make_step(0, 1),
                make_shot(0, 1),
                make_step(0, -1),
                make_step(1, 0),
                make_step(0, -1),
                make_step(-1, 0),
            ],
            Fly_Pattern::Pattern4 => vec![
                make_step(0, 1),
                make_step(-1, 0),
                make_step(0, 1),
                make_shot(0, 1),
                make_step(0, -1),
                make_step(1, 0),
                make_step(0, -1),
                make_step(-1, 0),
            ],
            Fly_Pattern::Pattern5 => vec![
                make_step(0, 1),
                make_step(-1, 0),
                make_step(0, 1),
                make_shot(0, 1),
                make_step(0, -1),
                make_step(1, 0),
                make_step(0, -1),
                make_step(-1, 0),
            ],
            Fly_Pattern::Pattern6 => vec![
                make_shot(1, 1),
                make_step(1, 1),
                make_shot(-1, 1),
                make_step(-1, 1),
            ],
            Fly_Pattern::Pattern7 => vec![
                make_shot(0, 1),
                make_step(0, 0),
                make_shot(1, 1),
            ],
            Fly_Pattern::Pattern8 => vec![
                make_shot(1, 0),
                make_step(1, 0),
                make_shot(0, 1),
                make_step(0, 1),
                make_shot(-1, 0),
                make_step(-1, 0),
                make_shot(0, 1),
                make_step(0, 1),
            ],
            Fly_Pattern::Pattern9 => vec![
                make_shot(0, 1),
                make_step(1, 1),
                make_shot(-1, 1),
            ],
            Fly_Pattern::Pattern10 => vec![
                make_shot(1, 1),
                make_step(1, 1),
                make_shot(0, 2),
                make_step(-1, 1),
                make_shot(0, 2),
                make_step(1, 1),
            ],
        }
    }
}

} // verus!
