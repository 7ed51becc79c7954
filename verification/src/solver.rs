use vstd::prelude::*;

use crate::cell::Cell;
use crate::grid::{
    count_cell, is_full, lemma_count_update, outcome_of, x_to_move, GameOver, Grid,
};
use crate::index::{flat_of, index_at, Index};

verus! {

/// The mark that the side to move places: X's mark on X's turn, O's
/// otherwise.
pub open spec fn mark_of(x_turn: bool) -> Cell {
    if x_turn {
        Cell::X
    } else {
        Cell::O
    }
}

/// The game value of a board with the given side to move, by
/// exhaustive backward induction: +1 when X has won, -1 when O has
/// won, 0 for a draw, and otherwise the best child value over every
/// empty coordinate — best for the side to move, maximal for X and
/// minimal for O.
pub open spec fn board_value(s: Seq<Cell>, x_turn: bool) -> int
    decreases count_cell(s, Cell::Empty), 10int,
    when s.len() == 9
{
    match outcome_of(s) {
        Some(GameOver::X) => 1,
        Some(GameOver::O) => -1,
        Some(GameOver::Draw) => 0,
        None => best_child_value(s, x_turn, 0),
    }
}

/// The best value, for the side to move, over the children reached by
/// marking an empty coordinate at or after flat position k, scanned in
/// declaration order.  When no empty coordinate remains in the suffix
/// the result is a sentinel outside the real value range: -2 for X,
/// +2 for O, so that any real child value beats it.
pub open spec fn best_child_value(s: Seq<Cell>, x_turn: bool, k: int) -> int
    decreases count_cell(s, Cell::Empty), 9 - k,
    when s.len() == 9 && 0 <= k <= 9
{
    if k >= 9 {
        if x_turn {
            -2
        } else {
            2
        }
    } else if s[k] == Cell::Empty {
        let child = {
            proof {
                lemma_count_update(s, k, mark_of(x_turn), Cell::Empty);
            }
            board_value(s.update(k, mark_of(x_turn)), !x_turn)
        };
        let rest = best_child_value(s, x_turn, k + 1);
        if x_turn {
            if child > rest {
                child
            } else {
                rest
            }
        } else {
            if child < rest {
                child
            } else {
                rest
            }
        }
    } else {
        best_child_value(s, x_turn, k + 1)
    }
}

impl Grid {
    /// The minimax scan over the empty coordinates at or after flat
    /// position k.
    fn minimax_from(&self, is_x_turn: bool, k: usize) -> (r: i32)
        requires
            k <= 9,
        ensures
            r == best_child_value(self@, is_x_turn, k as int),
        decreases count_cell(self@, Cell::Empty), 9 - k,
    {
        if k >= 9 {
            if is_x_turn {
                -2
            } else {
                2
            }
        } else if self.cell_at(k) == Cell::Empty {
            let mark = if is_x_turn {
                Cell::X
            } else {
                Cell::O
            };
            let next = self.place_at(k, mark);
            proof {
                lemma_count_update(self@, k as int, mark, Cell::Empty);
            }
            let child = next.minimax(!is_x_turn);
            let rest = self.minimax_from(is_x_turn, k + 1);
            if is_x_turn {
                if child > rest {
                    child
                } else {
                    rest
                }
            } else {
                if child < rest {
                    child
                } else {
                    rest
                }
            }
        } else {
            self.minimax_from(is_x_turn, k + 1)
        }
    }

    /// The game value of this board with the given side to move, by
    /// plain exhaustive recursion with no pruning and no memoization.
    pub fn minimax(&self, is_x_turn: bool) -> (r: i32)
        ensures
            r == board_value(self@, is_x_turn),
        decreases count_cell(self@, Cell::Empty), 10int,
    {
        match self.game_over() {
            Some(GameOver::X) => 1,
            Some(GameOver::O) => -1,
            Some(GameOver::Draw) => 0,
            None => self.minimax_from(is_x_turn, 0),
        }
    }
}

/// Whether a candidate score strictly beats the incumbent for the
/// given mover: strictly greater for X, strictly lower for O.  Equal
/// scores never replace the incumbent, so the earliest best move wins.
pub open spec fn improves(player: Cell, sc: int, best_score: int) -> bool {
    if player == Cell::X {
        sc > best_score
    } else {
        sc < best_score
    }
}

/// The incumbent score before any candidate has been seen: worse than
/// every real game value, so the first candidate always replaces it.
pub open spec fn initial_score(player: Cell) -> int {
    if player == Cell::X {
        -2
    } else {
        2
    }
}

/// The root-selection scan from flat position k on, carrying the
/// incumbent best score and move: each empty coordinate's child value
/// replaces the incumbent only when strictly better for the mover.
pub open spec fn best_move_from(
    s: Seq<Cell>,
    player: Cell,
    k: int,
    best_score: int,
    best: Option<Index>,
) -> Option<Index>
    decreases 9 - k,
    when 0 <= k <= 9
{
    if k >= 9 {
        best
    } else if s[k] == Cell::Empty {
        let sc = board_value(s.update(k, player), player == Cell::O);
        if improves(player, sc, best_score) {
            best_move_from(s, player, k + 1, sc, Some(index_at(k)))
        } else {
            best_move_from(s, player, k + 1, best_score, best)
        }
    } else {
        best_move_from(s, player, k + 1, best_score, best)
    }
}

/// The solver's choice for a whole board: the full scan from the
/// first coordinate, or nothing at all when the mover is no player.
pub open spec fn best_move_of(s: Seq<Cell>, player: Cell) -> Option<Index> {
    if player == Cell::Empty {
        None
    } else {
        best_move_from(s, player, 0, initial_score(player), None)
    }
}

impl Grid {
    /// The game-theoretically optimal next coordinate for the given
    /// mover, by exhaustive minimax with the earliest-coordinate
    /// tie-break.  Fails explicitly — `None` — when the mover is no
    /// player or when no coordinate is left to mark; it never falls
    /// back to a default coordinate.
    pub fn find_best_move(&self, player: Cell) -> (r: Option<Index>)
        ensures
            r == best_move_of(self@, player),
            r is Some <==> (player != Cell::Empty && count_cell(self@, Cell::Empty) > 0),
    {
        proof {
            crate::grid::lemma_count_pos(self@, Cell::Empty);
            if player != Cell::Empty {
                lemma_best_move_from_progress(
                    self@,
                    player,
                    0,
                    initial_score(player),
                    None,
                );
            }
        }
        if player == Cell::Empty {
            return None;
        }
        let mut best_score: i32 = if player == Cell::X {
            -2
        } else {
            2
        };
        let mut best: Option<Index> = None;
        let mut k: usize = 0;
        while k < 9
            invariant
                k <= 9,
                player != Cell::Empty,
                best_move_from(self@, player, k as int, best_score as int, best)
                    == best_move_from(self@, player, 0, initial_score(player), None),
                -2 <= best_score <= 2,
            decreases 9 - k,
        {
            if self.cell_at(k) == Cell::Empty {
                let next = self.place_at(k, player);
                let sc = next.minimax(player == Cell::O);
                proof {
                    lemma_board_value_bounds(next@, player == Cell::O);
                }
                let replace = if player == Cell::X {
                    sc > best_score
                } else {
                    sc < best_score
                };
                if replace {
                    best_score = sc;
                    best = match Index::from_usize(k) {
                        Some(i) => Some(i),
                        None => vstd::pervasive::unreached(),
                    };
                }
            }
            k += 1;
        }
        best
    }
}

/// Every game value lies in the real range -1..=1: a game ends in a
/// win for one side or in a draw.
pub proof fn lemma_board_value_bounds(s: Seq<Cell>, x_turn: bool)
    requires
        s.len() == 9,
    ensures
        -1 <= board_value(s, x_turn) <= 1,
    decreases count_cell(s, Cell::Empty), 10int,
{
    if outcome_of(s) is None {
        assert(!is_full(s));
        lemma_best_child_value_bounds(s, x_turn, 0);
    }
}

/// The scan value lies in the sentinel-widened range, and in the real
/// range -1..=1 as soon as some coordinate in the suffix is empty.
pub proof fn lemma_best_child_value_bounds(s: Seq<Cell>, x_turn: bool, k: int)
    requires
        s.len() == 9,
        0 <= k <= 9,
    ensures
        x_turn ==> -2 <= best_child_value(s, x_turn, k) <= 1,
        !x_turn ==> -1 <= best_child_value(s, x_turn, k) <= 2,
        (exists|i: int| k <= i < 9 && s[i] == Cell::Empty) ==> -1 <= best_child_value(
            s,
            x_turn,
            k,
        ) <= 1,
    decreases count_cell(s, Cell::Empty), 9 - k,
{
    if k < 9 {
        if s[k] == Cell::Empty {
            lemma_count_update(s, k, mark_of(x_turn), Cell::Empty);
            lemma_board_value_bounds(s.update(k, mark_of(x_turn)), !x_turn);
            lemma_best_child_value_bounds(s, x_turn, k + 1);
        } else {
            lemma_best_child_value_bounds(s, x_turn, k + 1);
            if exists|i: int| k <= i < 9 && s[i] == Cell::Empty {
                let i = choose|i: int| k <= i < 9 && s[i] == Cell::Empty;
                assert(k + 1 <= i < 9 && s[i] == Cell::Empty);
            }
        }
    }
}

/// The scan returns a move exactly when it starts with an incumbent or
/// meets an empty coordinate: from a fresh incumbent, a mover always
/// gets a move on a board with an empty coordinate in the suffix.
pub proof fn lemma_best_move_from_progress(
    s: Seq<Cell>,
    player: Cell,
    k: int,
    best_score: int,
    best: Option<Index>,
)
    requires
        s.len() == 9,
        0 <= k <= 9,
        player == Cell::X || player == Cell::O,
        best is None ==> improves(player, -1, best_score) && improves(player, 1, best_score),
    ensures
        best_move_from(s, player, k, best_score, best) is Some <==> (best is Some || exists|
            i: int,
        |
            k <= i < 9 && s[i] == Cell::Empty),
    decreases 9 - k,
{
    if k < 9 {
        if s[k] == Cell::Empty {
            let sc = board_value(s.update(k, player), player == Cell::O);
            lemma_board_value_bounds(s.update(k, player), player == Cell::O);
            if improves(player, sc, best_score) {
                lemma_best_move_from_progress(s, player, k + 1, sc, Some(index_at(k)));
            } else {
                lemma_best_move_from_progress(s, player, k + 1, best_score, best);
            }
            assert(k <= k < 9 && s[k] == Cell::Empty);
        } else {
            lemma_best_move_from_progress(s, player, k + 1, best_score, best);
            if exists|i: int| k <= i < 9 && s[i] == Cell::Empty {
                let i = choose|i: int| k <= i < 9 && s[i] == Cell::Empty;
                assert(k + 1 <= i < 9 && s[i] == Cell::Empty);
            }
        }
    }
}

/// The scan value is at least as good, for the side to move, as the
/// value of any single child in the scanned suffix.
pub proof fn lemma_best_child_dominates(s: Seq<Cell>, x_turn: bool, k: int, j: int)
    requires
        s.len() == 9,
        0 <= k <= j < 9,
        s[j] == Cell::Empty,
    ensures
        x_turn ==> best_child_value(s, x_turn, k) >= board_value(
            s.update(j, mark_of(x_turn)),
            !x_turn,
        ),
        !x_turn ==> best_child_value(s, x_turn, k) <= board_value(
            s.update(j, mark_of(x_turn)),
            !x_turn,
        ),
    decreases 9 - k,
{
    if k < j {
        lemma_best_child_dominates(s, x_turn, k + 1, j);
    }
}

/// The scan's chosen move attains the best of the incumbent score and
/// the suffix's best child value, and a fresh scan only fails on a
/// suffix with no empty coordinate.
proof fn lemma_best_move_from_attains(
    s: Seq<Cell>,
    player: Cell,
    k: int,
    best_score: int,
    best: Option<Index>,
)
    requires
        s.len() == 9,
        0 <= k <= 9,
        player == Cell::X || player == Cell::O,
        best is None ==> best_score == initial_score(player),
        best matches Some(i) ==> (0 <= flat_of(i) < 9 && s[flat_of(i)] == Cell::Empty
            && best_score == board_value(s.update(flat_of(i), player), player == Cell::O) && -1
            <= best_score <= 1),
    ensures
        ({
            let r = best_move_from(s, player, k, best_score, best);
            let top = best_child_value(s, player == Cell::X, k);
            &&& (r is None ==> best is None)
            &&& (r matches Some(b) ==> (0 <= flat_of(b) < 9 && s[flat_of(b)] == Cell::Empty
                && board_value(s.update(flat_of(b), player), player == Cell::O) == (
            if improves(player, top, best_score) {
                top
            } else {
                best_score
            })))
        }),
    decreases 9 - k,
{
    let x_turn = player == Cell::X;
    if k >= 9 {
    } else if s[k] == Cell::Empty {
        let sc = board_value(s.update(k, player), player == Cell::O);
        lemma_board_value_bounds(s.update(k, player), player == Cell::O);
        lemma_best_child_value_bounds(s, x_turn, k + 1);
        assert(mark_of(x_turn) == player);
        if improves(player, sc, best_score) {
            crate::index::lemma_flat_geometry(index_at(k));
            lemma_best_move_from_attains(s, player, k + 1, sc, Some(index_at(k)));
        } else {
            lemma_best_move_from_attains(s, player, k + 1, best_score, best);
        }
    } else {
        lemma_best_move_from_attains(s, player, k + 1, best_score, best);
    }
}

/// Solver optimality at the root: on a board with an empty coordinate
/// the solver returns an empty coordinate whose child attains the best
/// child value, and no empty coordinate reaches a child that is better
/// for the mover.
pub proof fn lemma_best_move_optimal(s: Seq<Cell>, player: Cell)
    requires
        s.len() == 9,
        player == Cell::X || player == Cell::O,
        exists|i: int| 0 <= i < 9 && s[i] == Cell::Empty,
    ensures
        best_move_of(s, player) matches Some(b) && (0 <= flat_of(b) < 9 && s[flat_of(b)]
            == Cell::Empty && board_value(s.update(flat_of(b), player), player == Cell::O)
            == best_child_value(s, player == Cell::X, 0)),
        forall|j: int|
            0 <= j < 9 && s[j] == Cell::Empty ==> (if player == Cell::X {
                board_value(s.update(j, player), player == Cell::O) <= best_child_value(
                    s,
                    true,
                    0,
                )
            } else {
                board_value(s.update(j, player), player == Cell::O) >= best_child_value(
                    s,
                    false,
                    0,
                )
            }),
{
    let x_turn = player == Cell::X;
    lemma_best_move_from_progress(s, player, 0, initial_score(player), None);
    lemma_best_move_from_attains(s, player, 0, initial_score(player), None);
    lemma_best_child_value_bounds(s, x_turn, 0);
    assert(improves(player, best_child_value(s, x_turn, 0), initial_score(player)));
    assert forall|j: int| 0 <= j < 9 && s[j] == Cell::Empty implies (if player == Cell::X {
        board_value(s.update(j, player), player == Cell::O) <= best_child_value(s, true, 0)
    } else {
        board_value(s.update(j, player), player == Cell::O) >= best_child_value(s, false, 0)
    }) by {
        lemma_best_child_dominates(s, x_turn, 0, j);
        assert(mark_of(x_turn) == player);
    }
}

/// The scan's incumbent history: the chosen move strictly beats every
/// earlier empty coordinate and is not strictly beaten by any later
/// one.
proof fn lemma_best_move_from_earliest(
    s: Seq<Cell>,
    player: Cell,
    k: int,
    best_score: int,
    best: Option<Index>,
)
    requires
        s.len() == 9,
        0 <= k <= 9,
        player == Cell::X || player == Cell::O,
        best is None ==> (best_score == initial_score(player) && forall|j: int|
            0 <= j < k ==> s[j] != Cell::Empty),
        best matches Some(i) ==> (0 <= flat_of(i) < k && s[flat_of(i)] == Cell::Empty
            && best_score == board_value(s.update(flat_of(i), player), player == Cell::O) && (
        forall|j: int|
            0 <= j < flat_of(i) && s[j] == Cell::Empty ==> improves(
                player,
                best_score,
                board_value(s.update(j, player), player == Cell::O),
            )) && (forall|j: int|
            flat_of(i) < j < k && s[j] == Cell::Empty ==> !improves(
                player,
                board_value(s.update(j, player), player == Cell::O),
                best_score,
            ))),
    ensures
        ({
            let r = best_move_from(s, player, k, best_score, best);
            r matches Some(b) ==> (0 <= flat_of(b) < 9 && s[flat_of(b)] == Cell::Empty && ({
                let vb = board_value(s.update(flat_of(b), player), player == Cell::O);
                &&& (forall|j: int|
                    0 <= j < flat_of(b) && s[j] == Cell::Empty ==> improves(
                        player,
                        vb,
                        board_value(s.update(j, player), player == Cell::O),
                    ))
                &&& (forall|j: int|
                    flat_of(b) < j < 9 && s[j] == Cell::Empty ==> !improves(
                        player,
                        board_value(s.update(j, player), player == Cell::O),
                        vb,
                    ))
            }))
        }),
    decreases 9 - k,
{
    if k < 9 {
        if s[k] == Cell::Empty {
            let sc = board_value(s.update(k, player), player == Cell::O);
            lemma_board_value_bounds(s.update(k, player), player == Cell::O);
            crate::index::lemma_flat_geometry(index_at(k));
            if improves(player, sc, best_score) {
                lemma_best_move_from_earliest(s, player, k + 1, sc, Some(index_at(k)));
            } else {
                lemma_best_move_from_earliest(s, player, k + 1, best_score, best);
            }
        } else {
            lemma_best_move_from_earliest(s, player, k + 1, best_score, best);
        }
    }
}

/// The tie-break rule: the solver's move is the earliest empty
/// coordinate, in declaration order, that attains the optimal value —
/// every earlier empty coordinate is strictly worse for the mover, and
/// no later one is strictly better.
pub proof fn lemma_best_move_tie_break(s: Seq<Cell>, player: Cell)
    requires
        s.len() == 9,
        player == Cell::X || player == Cell::O,
        exists|i: int| 0 <= i < 9 && s[i] == Cell::Empty,
    ensures
        best_move_of(s, player) matches Some(b) && (0 <= flat_of(b) < 9 && s[flat_of(b)]
            == Cell::Empty && ({
            let vb = board_value(s.update(flat_of(b), player), player == Cell::O);
            &&& (forall|j: int|
                0 <= j < flat_of(b) && s[j] == Cell::Empty ==> improves(
                    player,
                    vb,
                    board_value(s.update(j, player), player == Cell::O),
                ))
            &&& (forall|j: int|
                flat_of(b) < j < 9 && s[j] == Cell::Empty ==> !improves(
                    player,
                    board_value(s.update(j, player), player == Cell::O),
                    vb,
                ))
        })),
{
    lemma_best_move_from_progress(s, player, 0, initial_score(player), None);
    lemma_best_move_from_attains(s, player, 0, initial_score(player), None);
    lemma_best_move_from_earliest(s, player, 0, initial_score(player), None);
}

/// A decided outcome fixes the game value, whichever side would move:
/// +1 for a board won by X, -1 for a board won by O, 0 for a draw.
pub proof fn lemma_outcome_fixes_value(s: Seq<Cell>, x_turn: bool)
    requires
        s.len() == 9,
    ensures
        outcome_of(s) == Some(GameOver::X) ==> board_value(s, x_turn) == 1,
        outcome_of(s) == Some(GameOver::O) ==> board_value(s, x_turn) == -1,
        outcome_of(s) == Some(GameOver::Draw) ==> board_value(s, x_turn) == 0,
{
}

/// Playing the solver's coordinate preserves the game value: the
/// child it reaches is worth exactly the board it leaves, with the
/// other side to move.
pub proof fn lemma_solver_move_preserves_value(s: Seq<Cell>, player: Cell)
    requires
        s.len() == 9,
        player == Cell::X || player == Cell::O,
        outcome_of(s) is None,
    ensures
        best_move_of(s, player) matches Some(b) && board_value(
            s.update(flat_of(b), player),
            player == Cell::O,
        ) == board_value(s, player == Cell::X),
{
    assert(!is_full(s));
    lemma_best_move_optimal(s, player);
}

/// No reply moves the game value toward the replier: marking any
/// empty coordinate for O cannot lower the value, and marking any for
/// X cannot raise it.
pub proof fn lemma_reply_cannot_worsen(s: Seq<Cell>, j: int)
    requires
        s.len() == 9,
        outcome_of(s) is None,
        0 <= j < 9,
        s[j] == Cell::Empty,
    ensures
        board_value(s.update(j, Cell::O), true) >= board_value(s, false),
        board_value(s.update(j, Cell::X), false) <= board_value(s, true),
{
    lemma_best_child_dominates(s, false, 0, j);
    lemma_best_child_dominates(s, true, 0, j);
}

/// Whether a spec-level opponent strategy is playable: on every
/// in-progress board it names an empty coordinate.
pub open spec fn o_strategy_ok(strat: spec_fn(Seq<Cell>) -> int) -> bool {
    forall|s: Seq<Cell>|
        s.len() == 9 && outcome_of(s) is None ==> 0 <= #[trigger] strat(s) < 9 && s[strat(s)]
            == Cell::Empty
}

/// The board after up to n plies of play in which X always takes the
/// solver's move and O always takes the strategy's coordinate; play
/// stops at a decided board.  The side to move is read off the mark
/// counts, as legal alternating play fixes it.
pub open spec fn play(s: Seq<Cell>, strat: spec_fn(Seq<Cell>) -> int, n: nat) -> Seq<Cell>
    decreases n,
{
    if n == 0 || s.len() != 9 || !(outcome_of(s) is None) {
        s
    } else if x_to_move(s) {
        let b = best_move_of(s, Cell::X)->Some_0;
        play(s.update(flat_of(b), Cell::X), strat, (n - 1) as nat)
    } else {
        play(s.update(strat(s), Cell::O), strat, (n - 1) as nat)
    }
}

/// The solver never loses: starting from any count-consistent board
/// whose game value for the side to move does not favor O — the empty
/// board, whose value is zero, in particular — repeated play in which
/// X takes the solver's move never reaches a board won by O, no
/// matter which playable strategy O follows and however many plies
/// are played.
pub proof fn lemma_solver_never_loses(s: Seq<Cell>, strat: spec_fn(Seq<Cell>) -> int, n: nat)
    requires
        s.len() == 9,
        o_strategy_ok(strat),
        count_cell(s, Cell::X) == count_cell(s, Cell::O) || count_cell(s, Cell::X) == count_cell(
            s,
            Cell::O,
        ) + 1,
        board_value(s, x_to_move(s)) >= 0,
    ensures
        outcome_of(play(s, strat, n)) != Some(GameOver::O),
    decreases n,
{
    lemma_outcome_fixes_value(s, x_to_move(s));
    if n == 0 || !(outcome_of(s) is None) {
    } else if x_to_move(s) {
        lemma_best_move_optimal(s, Cell::X);
        lemma_solver_move_preserves_value(s, Cell::X);
        let b = best_move_of(s, Cell::X)->Some_0;
        let t = s.update(flat_of(b), Cell::X);
        lemma_count_update(s, flat_of(b), Cell::X, Cell::X);
        lemma_count_update(s, flat_of(b), Cell::X, Cell::O);
        lemma_solver_never_loses(t, strat, (n - 1) as nat);
    } else {
        let j = strat(s);
        let t = s.update(j, Cell::O);
        lemma_reply_cannot_worsen(s, j);
        lemma_count_update(s, j, Cell::O, Cell::X);
        lemma_count_update(s, j, Cell::O, Cell::O);
        lemma_solver_never_loses(t, strat, (n - 1) as nat);
    }
}

} // verus!
