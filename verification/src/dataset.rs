use vstd::prelude::*;

use crate::cell::Cell;
use crate::encode::perspective_value;
use crate::grid::{outcome_of, x_to_move, Grid};
use crate::index::flat_of;
use crate::solver::best_move_of;

verus! {

/// The mark of the side to move on a board: X when the mark counts
/// are equal, O when X leads by one.
pub open spec fn mover_of(s: Seq<Cell>) -> Cell {
    if x_to_move(s) {
        Cell::X
    } else {
        Cell::O
    }
}

/// The signed input plane of a labeled example: the board seen from
/// the mover's perspective.
pub open spec fn input_plane(s: Seq<Cell>) -> Seq<i8> {
    Seq::new(9, |t: int| perspective_value(s[t], mover_of(s)))
}

/// The target of a labeled example: the solver's move for the mover,
/// one-hot over the nine positions.
pub open spec fn target_one_hot(s: Seq<Cell>) -> Seq<u8> {
    let b = best_move_of(s, mover_of(s))->Some_0;
    Seq::new(
        9,
        |t: int|
            if t == flat_of(b) {
                1u8
            } else {
                0u8
            },
    )
}

/// The labeled examples of a sequence of boards, in order: one
/// (input, target) pair per in-progress board.  Terminal boards carry
/// no label, because the solver is undefined on them, and are
/// skipped.
pub open spec fn batch_of(items: Seq<Seq<Cell>>) -> (Seq<Seq<i8>>, Seq<Seq<u8>>)
    decreases items.len(),
{
    if items.len() == 0 {
        (Seq::empty(), Seq::empty())
    } else {
        let (ins, tgts) = batch_of(items.drop_last());
        let s = items.last();
        if outcome_of(s) is None {
            (ins.push(input_plane(s)), tgts.push(target_one_hot(s)))
        } else {
            (ins, tgts)
        }
    }
}

/// Turns boards into labeled training examples: the mover's
/// perspective plane as input, the solver's move as one-hot target.
pub struct TicTacToeBatcher {}

impl TicTacToeBatcher {
    /// One labeled example per in-progress board of the batch, in
    /// order: inputs and targets at the same position belong to the
    /// same board.
    pub fn batch(&self, items: &Vec<Grid>) -> (r: (Vec<Vec<i8>>, Vec<Vec<u8>>))
        ensures
            r.0@.map_values(|v: Vec<i8>| v@) == batch_of(items@.map_values(|g: Grid| g@)).0,
            r.1@.map_values(|v: Vec<u8>| v@) == batch_of(items@.map_values(|g: Grid| g@)).1,
    {
        let boards = Ghost(items@.map_values(|g: Grid| g@));
        let mut inputs: Vec<Vec<i8>> = Vec::new();
        let mut targets: Vec<Vec<u8>> = Vec::new();
        let mut i: usize = 0;
        while i < items.len()
            invariant
                i <= items@.len(),
                boards@ == items@.map_values(|g: Grid| g@),
                inputs@.map_values(|v: Vec<i8>| v@) == batch_of(boards@.subrange(0, i as int)).0,
                targets@.map_values(|v: Vec<u8>| v@) == batch_of(boards@.subrange(0, i as int)).1,
            decreases items@.len() - i,
        {
            let g = &items[i];
            proof {
                assert(boards@.subrange(0, i + 1).drop_last() =~= boards@.subrange(0, i as int));
                assert(boards@.subrange(0, i + 1).last() == g@);
            }
            if g.game_over().is_none() {
                let mover = g.current_turn();
                let input = g.perspective_view(mover);
                proof {
                    crate::grid::lemma_count_pos(g@, Cell::Empty);
                    assert(input@ =~= input_plane(g@));
                }
                let mv = match g.find_best_move(mover) {
                    Some(mv) => mv,
                    None => vstd::pervasive::unreached(),
                };
                let target = mv.one_hot_encode();
                proof {
                    assert(target@ =~= target_one_hot(g@));
                }
                inputs.push(input);
                targets.push(target);
                proof {
                    assert(inputs@.map_values(|v: Vec<i8>| v@) =~= batch_of(
                        boards@.subrange(0, i + 1),
                    ).0);
                    assert(targets@.map_values(|v: Vec<u8>| v@) =~= batch_of(
                        boards@.subrange(0, i + 1),
                    ).1);
                }
            } else {
                proof {
                    assert(inputs@.map_values(|v: Vec<i8>| v@) =~= batch_of(
                        boards@.subrange(0, i + 1),
                    ).0);
                    assert(targets@.map_values(|v: Vec<u8>| v@) =~= batch_of(
                        boards@.subrange(0, i + 1),
                    ).1);
                }
            }
            i += 1;
        }
        proof {
            assert(boards@.subrange(0, items@.len() as int) =~= boards@);
        }
        (inputs, targets)
    }
}

} // verus!
