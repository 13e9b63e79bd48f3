//! The authoritative per-match state machine: move legality, sub-grid
//! routing, and win/tie detection on the nested board.
use vstd::prelude::*;
use crate::game::{board_placed, has_win, win_cells_ok, Board, Cell, Coord, Sign};
use crate::codec::{cmd_coords_valid, Command};

verus! {

/// What became of one submitted placement.
#[derive(Debug)]
pub enum MoveOutcome {
    /// Illegal move: silently ignored, nothing changed.
    Rejected,
    /// The move stands; play passes to the opponent, constrained to the
    /// sub-grid selected by the move's inner coordinate.
    Moved,
    /// The move completed one or more lines: the union of their coordinates.
    Won(Vec<Coord>),
    /// The move filled the sub-grid without completing a line.
    Tied,
}

/// The authoritative state of one running match.
#[derive(Debug)]
pub struct MatchState {
    pub board: Board,
    /// The sign that moves next.
    pub turn: Sign,
    /// The sub-grid the player to move is restricted to; `None` means any.
    pub constrained: Option<Coord>,
}

impl MatchState {
    pub open spec fn wf(self) -> bool {
        &&& self.board.wf()
        &&& (self.constrained matches Some(c) ==> c.valid())
    }

    /// The outer coordinate respects the constrained sub-grid, if one is set.
    pub open spec fn outer_allowed(self, outer: Coord) -> bool {
        match self.constrained {
            Some(c) => c == outer,
            None => true,
        }
    }

    /// A placement is rejected when it is out of turn, outside the
    /// constrained sub-grid, or lands on an occupied cell.
    pub open spec fn move_rejected(self, sender: Sign, outer: Coord, inner: Coord) -> bool {
        ||| sender != self.turn
        ||| !self.outer_allowed(outer)
        ||| self.board.cell(outer, inner) != Cell::Unset
    }

    /// A fresh match: empty board, no constrained sub-grid, `opening` to move.
    pub fn new(opening: Sign) -> (m: MatchState)
        ensures
            m.wf(),
            m.board.is_empty_board(),
            m.turn == opening,
            m.constrained is None,
    {
        MatchState { board: Board::new(), turn: opening, constrained: None }
    }

    /// Applies one placement by `sender`: rejects illegal moves unchanged,
    /// otherwise sets the cell and reports whether the move won its sub-grid,
    /// tied it, or passes play on.
    ///
    /// Deliberately, a constrained sub-grid pointer may route play back into
    /// a sub-grid that is already won or tied: nothing forbids placing there,
    /// and only the occupied-cell rule rejects a particular replay.
    pub fn place(&mut self, sender: Sign, outer: Coord, inner: Coord) -> (r: MoveOutcome)
        requires
            old(self).wf(),
            outer.valid(),
            inner.valid(),
        ensures
            final(self).wf(),
            r is Rejected <==> old(self).move_rejected(sender, outer, inner),
            r is Rejected ==> *final(self) == *old(self),
            !(r is Rejected) ==> board_placed(old(self).board, final(self).board, outer, inner, sender),
            r is Won <==> !old(self).move_rejected(sender, outer, inner) && has_win(
                final(self).board.sub_at(outer.x as int, outer.y as int),
                sender,
            ),
            r is Tied <==> !old(self).move_rejected(sender, outer, inner) && !has_win(
                final(self).board.sub_at(outer.x as int, outer.y as int),
                sender,
            ) && final(self).board.sub_at(outer.x as int, outer.y as int).full(),
            r is Moved <==> !old(self).move_rejected(sender, outer, inner) && !has_win(
                final(self).board.sub_at(outer.x as int, outer.y as int),
                sender,
            ) && !final(self).board.sub_at(outer.x as int, outer.y as int).full(),
            r matches MoveOutcome::Won(cells) ==> win_cells_ok(
                final(self).board.sub_at(outer.x as int, outer.y as int),
                sender,
                cells@,
            ),
            r is Moved ==> final(self).turn == old(self).turn.opponent() && final(self).constrained
                == Some(inner),
            r is Won || r is Tied ==> final(self).turn == old(self).turn && final(self).constrained
                == old(self).constrained,
    {
        if sender != self.turn {
            return MoveOutcome::Rejected;
        }
        if let Some(c) = self.constrained {
            if c != outer {
                return MoveOutcome::Rejected;
            }
        }
        if !matches!(self.board.get_cell(outer, inner), Cell::Unset) {
            return MoveOutcome::Rejected;
        }
        self.board.set_cell(outer, inner, Cell::Taken(sender));
        let won = self.board.sub(outer).is_win(sender);
        match won {
            Some(cells) => MoveOutcome::Won(cells),
            None => {
                if self.board.sub(outer).is_tie() {
                    MoveOutcome::Tied
                } else {
                    self.constrained = Some(inner);
                    self.turn = self.turn.opponent();
                    MoveOutcome::Moved
                }
            },
        }
    }
}

/// What the match loop must do after one command from one side.
#[derive(Debug)]
pub enum EngineStep {
    /// An illegal move or a stray queue request: nothing changed, no
    /// broadcast, keep waiting.
    Ignored,
    /// Broadcast the confirmation and keep playing.
    Moved(Command),
    /// Broadcast the winning placement; the match ends with a win.
    Won(Command),
    /// Broadcast the tying placement; the match ends in a tie.
    Tied(Command),
    /// The sender left or misbehaved: the match ends by forfeit.
    Forfeit,
}

impl MatchState {
    /// Processes one decoded command from the side playing `sender`: a place
    /// command runs the legality rules and reports what to broadcast; a leave
    /// (or any command no client may send mid-match) forfeits; a stray queue
    /// request is ignored.
    pub fn handle_command(&mut self, sender: Sign, cmd: &Command) -> (r: EngineStep)
        requires
            old(self).wf(),
            cmd_coords_valid(*cmd),
        ensures
            final(self).wf(),
            !(cmd is Place) ==> *final(self) == *old(self),
            cmd is Queue ==> r is Ignored,
            !(cmd is Place || cmd is Queue) ==> r is Forfeit,
            *cmd matches Command::Place(outer, inner) ==> {
                &&& (r is Ignored <==> old(self).move_rejected(sender, outer, inner))
                &&& (r is Ignored ==> *final(self) == *old(self))
                &&& !(r is Ignored) ==> board_placed(
                    old(self).board,
                    final(self).board,
                    outer,
                    inner,
                    sender,
                )
                &&& (r matches EngineStep::Moved(c) ==> c == Command::PlaceAndMove(
                    outer,
                    inner,
                    sender,
                ) && !has_win(final(self).board.sub_at(outer.x as int, outer.y as int), sender)
                    && !final(self).board.sub_at(outer.x as int, outer.y as int).full()
                    && final(self).turn == old(self).turn.opponent()
                    && final(self).constrained == Some(inner))
                &&& (r is Won <==> !old(self).move_rejected(sender, outer, inner) && has_win(
                    final(self).board.sub_at(outer.x as int, outer.y as int),
                    sender,
                ))
                &&& (r matches EngineStep::Won(c) ==> exists|cells: Vec<Coord>|
                    c == Command::PlaceAndWin(outer, inner, sender, cells) && #[trigger] win_cells_ok(
                        final(self).board.sub_at(outer.x as int, outer.y as int),
                        sender,
                        cells@,
                    ))
                &&& (r matches EngineStep::Tied(c) ==> c == Command::PlaceAndTie(
                    outer,
                    inner,
                    sender,
                ) && !has_win(final(self).board.sub_at(outer.x as int, outer.y as int), sender)
                    && final(self).board.sub_at(outer.x as int, outer.y as int).full())
                &&& !(r is Forfeit)
            },
    {
        match cmd {
            Command::Place(outer, inner) => {
                let o = *outer;
                let i = *inner;
                let outcome = self.place(sender, o, i);
                match outcome {
                    MoveOutcome::Rejected => EngineStep::Ignored,
                    MoveOutcome::Moved => EngineStep::Moved(Command::PlaceAndMove(o, i, sender)),
                    MoveOutcome::Won(cells) => EngineStep::Won(
                        Command::PlaceAndWin(o, i, sender, cells),
                    ),
                    MoveOutcome::Tied => EngineStep::Tied(Command::PlaceAndTie(o, i, sender)),
                }
            },
            Command::Queue => EngineStep::Ignored,
            _ => EngineStep::Forfeit,
        }
    }
}

/// A cell transitions unset-to-taken exactly once and never back: an
/// accepted placement lands on an unset cell, and every cell already taken
/// before it keeps its sign after it.
pub proof fn lemma_no_cell_reverts(pre: Board, post: Board, outer: Coord, inner: Coord, s: Sign)
    requires
        outer.valid(),
        inner.valid(),
        pre.cell(outer, inner) == Cell::Unset,
        board_placed(pre, post, outer, inner, s),
    ensures
        forall|o: Coord, i: Coord|
            o.valid() && i.valid() && #[trigger] pre.cell(o, i) != Cell::Unset ==> post.cell(o, i)
                == pre.cell(o, i),
{
    assert forall|o: Coord, i: Coord|
        o.valid() && i.valid() && #[trigger] pre.cell(o, i) != Cell::Unset implies post.cell(o, i)
        == pre.cell(o, i) by {
        if o.x == outer.x && o.y == outer.y && i.x == inner.x && i.y == inner.y {
            assert(o == outer && i == inner);
        } else {
            assert(post.sub_at(o.x as int, o.y as int).cell_at(i.x as int, i.y as int)
                == pre.sub_at(o.x as int, o.y as int).cell_at(i.x as int, i.y as int));
        }
    }
}

/// How one match ended: run to a board outcome, or cut short by the side
/// with the given index (0 or 1) leaving.
#[derive(Copy, Clone, Debug)]
pub enum MatchResult {
    Completed,
    Forfeited(usize),
}

/// What the match's completion logic owes each side once the match is over.
#[derive(Copy, Clone, Debug)]
pub struct DispatchPlan {
    /// The index of the one side to send a forfeit notice to, if any.
    pub notify_forfeit: Option<usize>,
    /// The first-considered session is handed back to its join loop.
    pub return_first: bool,
    /// The other session is handed back to its join loop.
    pub return_second: bool,
}

/// After a completed match both sessions are returned and nobody is notified
/// of a forfeit; after a forfeit exactly the remaining side receives the one
/// forfeit notice, and only that side's session is returned.
pub fn terminal_dispatch(result: &MatchResult) -> (r: DispatchPlan)
    requires
        result matches MatchResult::Forfeited(leaver) ==> *leaver < 2,
    ensures
        result is Completed ==> r.notify_forfeit is None && r.return_first && r.return_second,
        result matches MatchResult::Forfeited(leaver) ==> r.notify_forfeit == Some(
            (1 - *leaver) as usize,
        ) && (r.return_first <==> *leaver != 0) && (r.return_second <==> *leaver != 1),
    {
    match result {
        MatchResult::Completed => DispatchPlan {
            notify_forfeit: None,
            return_first: true,
            return_second: true,
        },
        MatchResult::Forfeited(leaver) => DispatchPlan {
            notify_forfeit: Some(1 - *leaver),
            return_first: *leaver != 0,
            return_second: *leaver != 1,
        },
    }
}

/// The two per-session fields that persist across consecutive matches of one
/// connection, for fairness of the setup negotiation.
#[derive(Copy, Clone, PartialEq, Eq, Debug)]
pub struct Fairness {
    pub did_start_last_game: bool,
    pub last_game_sign: Option<Sign>,
}

impl Fairness {
    /// The fields of a session that has never played.
    pub fn new() -> (f: Fairness)
        ensures
            f.did_start_last_game,
            f.last_game_sign is None,
    {
        Fairness { did_start_last_game: true, last_game_sign: None }
    }
}

/// Everything the setup negotiation decides for one match, as a pure function
/// of the two sessions' fairness fields and two coin flips.
#[derive(Copy, Clone, Debug)]
pub struct SetupPlan {
    /// The first-considered session starts.
    pub first_starts: bool,
    /// The sign assigned to the first-considered session; the other session
    /// receives its opponent.
    pub first_sign: Sign,
    /// The sign that opens play: the starting session's sign.
    pub opening: Sign,
    /// The fairness fields to persist on the first-considered session.
    pub fair_first: Fairness,
    /// The fairness fields to persist on the other session.
    pub fair_second: Fairness,
}

/// Who starts: equal did-start flags leave it to the coin; unequal flags give
/// the start to the side whose flag is set.
pub open spec fn spec_starter_first(f0: Fairness, f1: Fairness, coin_start: bool) -> bool {
    if f0.did_start_last_game == f1.did_start_last_game {
        coin_start
    } else {
        f0.did_start_last_game
    }
}

/// The first-considered side's sign: with equal recorded signs (including
/// none at all) the coin picks it; with only the other side on record it
/// takes that sign's opponent; with its own sign on record it keeps it.
pub open spec fn spec_first_sign(f0: Fairness, f1: Fairness, coin_sign: bool) -> Sign {
    if f0.last_game_sign == f1.last_game_sign {
        if coin_sign {
            Sign::Cross
        } else {
            Sign::Circle
        }
    } else {
        match (f0.last_game_sign, f1.last_game_sign) {
            (None, Some(s2)) => s2.opponent(),
            (Some(s1), _) => s1,
            (None, None) => Sign::Cross,
        }
    }
}

/// The whole setup decision, as `setup` computes it.
pub open spec fn spec_setup(f0: Fairness, f1: Fairness, coin_start: bool, coin_sign: bool) -> SetupPlan {
    let first_starts = spec_starter_first(f0, f1, coin_start);
    let first_sign = spec_first_sign(f0, f1, coin_sign);
    SetupPlan {
        first_starts,
        first_sign,
        opening: if first_starts {
            first_sign
        } else {
            first_sign.opponent()
        },
        fair_first: Fairness {
            did_start_last_game: first_starts,
            last_game_sign: Some(first_sign),
        },
        fair_second: Fairness {
            did_start_last_game: !first_starts,
            last_game_sign: Some(first_sign.opponent()),
        },
    }
}

/// Determines the starting side and sign assignment purely from the two
/// sessions' persisted fairness fields and the two given coin flips, and
/// says which fairness fields each session must persist for the next match.
pub fn setup(f0: &Fairness, f1: &Fairness, coin_start: bool, coin_sign: bool) -> (r: SetupPlan)
    ensures
        r == spec_setup(*f0, *f1, coin_start, coin_sign),
{
    let first_starts = if f0.did_start_last_game == f1.did_start_last_game {
        coin_start
    } else {
        f0.did_start_last_game
    };
    let first_sign = match (f0.last_game_sign, f1.last_game_sign) {
        (None, None) => {
            if coin_sign {
                Sign::Cross
            } else {
                Sign::Circle
            }
        },
        (Some(s1), Some(s2)) => {
            if s1 == s2 {
                if coin_sign {
                    Sign::Cross
                } else {
                    Sign::Circle
                }
            } else {
                s1
            }
        },
        (None, Some(s2)) => s2.opponent(),
        (Some(s1), None) => s1,
    };
    SetupPlan {
        first_starts,
        first_sign,
        opening: if first_starts {
            first_sign
        } else {
            first_sign.opponent()
        },
        fair_first: Fairness { did_start_last_game: first_starts, last_game_sign: Some(first_sign) },
        fair_second: Fairness {
            did_start_last_game: !first_starts,
            last_game_sign: Some(first_sign.opponent()),
        },
    }
}

/// `setup` with both coins drawn fresh: some pair of coin flips explains the
/// plan, whatever the generator returned.
pub fn setup_random(f0: &Fairness, f1: &Fairness) -> (r: SetupPlan)
    ensures
        exists|cs: bool, cg: bool| r == spec_setup(*f0, *f1, cs, cg),
{
    let cs: bool = rand::random::<bool>();
    let cg: bool = rand::random::<bool>();
    let r = setup(f0, f1, cs, cg);
    proof {
        assert(r == spec_setup(*f0, *f1, cs, cg));
    }
    r
}

/// The starting side is the coin when both did-start flags are equal, and
/// otherwise always the side whose flag is set.
pub proof fn lemma_starting_side(f0: Fairness, f1: Fairness, coin_start: bool, coin_sign: bool)
    ensures
        f0.did_start_last_game == f1.did_start_last_game ==> spec_setup(
            f0,
            f1,
            coin_start,
            coin_sign,
        ).first_starts == coin_start,
        f0.did_start_last_game != f1.did_start_last_game ==> spec_setup(
            f0,
            f1,
            coin_start,
            coin_sign,
        ).first_starts == f0.did_start_last_game,
{
}

} // verus!
