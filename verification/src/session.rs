//! The turn state machine and the session facade a presentation layer
//! drives.
//!
//! A session owns the board and coordinates whose turn it is, the
//! computer's pending move and its think-delay, and the terminal states.
//! Moves arrive through `submit_human_move`; frame time arrives through
//! `tick`, which applies the computer's chosen move once the think-delay
//! has elapsed.  Invalid submissions are rejected silently: nothing about
//! the session changes.

use crate::board::{in_range, other, opposite, piece, placed, Board, Cell, GameError, Side, N};
use crate::eval::{is_best_move, select_move};
use crate::win::{check, wins_at};
use vstd::prelude::*;

verus! {

/// Elapsed time the computer "thinks" before its chosen move is applied,
/// in milliseconds of host-supplied frame time.
pub const THINK_DELAY_MS: u64 = 500;

/// Whether the session consults the computer player.
#[derive(Clone, Copy, PartialEq, Eq, Structural, Debug)]
pub enum GameMode {
    Unset,
    HumanVsHuman,
    HumanVsComputer,
}

/// The one active state of the turn machine.
#[derive(Clone, Copy, PartialEq, Eq, Structural, Debug)]
pub enum TurnState {
    /// The named side is to move.
    AwaitingMove(Side),
    /// The computer has chosen its target cell and waits out the
    /// think-delay; `elapsed` accumulates host time.
    PendingComputerMove { row: usize, col: usize, elapsed: u64 },
    /// The named side completed five in a row.  Terminal: only a restart
    /// leaves this state.
    Finished(Side),
    /// The board filled up with no winner.  Terminal as well.
    Drawn,
}

/// What a presentation layer needs in order to render a session.
#[derive(Clone, Copy, PartialEq, Eq, Debug)]
pub struct SessionView {
    pub mode: GameMode,
    pub whose_turn: Option<Side>,
    pub winner: Option<Side>,
    pub pending_computer: bool,
    pub drawn: bool,
}

/// A full game session: mode, the side the human controls (chosen once,
/// in human-versus-computer games), the turn machine and the board.
pub struct GameSession {
    pub mode: GameMode,
    pub human: Option<Side>,
    pub state: TurnState,
    pub board: Board,
}

impl GameSession {
    /// The human-controlled side; meaningful once `human` is set.
    pub open spec fn human_side(self) -> Side {
        match self.human {
            Some(h) => h,
            None => Side::Black,
        }
    }

    /// The side a pending or awaited move belongs to, if the game is
    /// still running.
    pub open spec fn turn_of(self) -> Option<Side> {
        match self.state {
            TurnState::AwaitingMove(s) => Some(s),
            TurnState::PendingComputerMove { .. } => Some(other(self.human_side())),
            TurnState::Finished(_) => None,
            TurnState::Drawn => None,
        }
    }

    /// The session's invariant.  A pending computer move exists only in a
    /// human-versus-computer game with the side chosen, targets an empty
    /// in-range cell, and has not outlived the think-delay; before the
    /// side is chosen no piece is on the board; and while a
    /// human-versus-computer game awaits a move, that move is the
    /// human's (the computer's moves pass through the pending state).
    pub open spec fn wf(self) -> bool {
        &&& self.board.wf()
        &&& match self.state {
            TurnState::PendingComputerMove { row, col, elapsed } => {
                &&& self.mode == GameMode::HumanVsComputer
                &&& self.human is Some
                &&& in_range(row as int, col as int)
                &&& self.board.at(row as int, col as int) == Cell::Empty
                &&& elapsed < THINK_DELAY_MS
            },
            _ => true,
        }
        &&& (self.mode == GameMode::HumanVsComputer && self.human is None ==> self.state
            == TurnState::AwaitingMove(Side::Black) && self.board.all_empty())
        &&& (self.mode == GameMode::HumanVsComputer && self.human is Some ==> match self.state {
            TurnState::AwaitingMove(s) => s == self.human_side(),
            _ => true,
        })
    }

    /// A submitted move is admissible: the game awaits a move and, in a
    /// human-versus-computer game, the side to move is the human's.
    pub open spec fn can_submit(self) -> bool {
        match self.state {
            TurnState::AwaitingMove(s) => self.mode == GameMode::HumanVsHuman || (self.mode
                == GameMode::HumanVsComputer && self.human == Some(s)),
            _ => false,
        }
    }

    /// The side named by `AwaitingMove`; meaningful only there.
    pub open spec fn to_move(self) -> Side {
        match self.state {
            TurnState::AwaitingMove(s) => s,
            _ => Side::Black,
        }
    }

    /// A fresh session: no mode picked, empty board, Black to move first.
    pub fn new() -> (s: GameSession)
        ensures
            s.wf(),
            s.mode == GameMode::Unset,
            s.human is None,
            s.state == TurnState::AwaitingMove(Side::Black),
            s.board.all_empty(),
    {
        GameSession {
            mode: GameMode::Unset,
            human: None,
            state: TurnState::AwaitingMove(Side::Black),
            board: Board::new(),
        }
    }

    /// Starts a game in the given mode, clearing everything else: empty
    /// board, no side chosen, Black to move first.
    pub fn start(&mut self, mode: GameMode)
        ensures
            final(self).wf(),
            final(self).mode == mode,
            final(self).human is None,
            final(self).state == TurnState::AwaitingMove(Side::Black),
            final(self).board.all_empty(),
    {
        self.mode = mode;
        self.human = None;
        self.state = TurnState::AwaitingMove(Side::Black);
        self.board = Board::new();
    }

    /// Reinitializes the whole session, keeping only the mode: cleared
    /// board, side choice discarded, Black to move first.
    pub fn restart(&mut self)
        ensures
            final(self).wf(),
            final(self).mode == old(self).mode,
            final(self).human is None,
            final(self).state == TurnState::AwaitingMove(Side::Black),
            final(self).board.all_empty(),
    {
        self.human = None;
        self.state = TurnState::AwaitingMove(Side::Black);
        self.board = Board::new();
    }

    /// Fixes which side the human controls, in a human-versus-computer
    /// game, once, before any move.  When the human chooses White the
    /// computer opens immediately: its Black piece goes to the center
    /// cell (7, 7) and the human is to move.  Any other time, the call is
    /// an `InvalidTransition` no-op.
    pub fn choose_side(&mut self, side: Side) -> (r: Result<(), GameError>)
        requires
            old(self).wf(),
        ensures
            final(self).wf(),
            (r is Ok) <==> (old(self).mode == GameMode::HumanVsComputer && old(self).human
                is None),
            r is Err ==> *final(self) == *old(self) && r == Err::<(), GameError>(
                GameError::InvalidTransition,
            ),
            r is Ok ==> final(self).mode == old(self).mode && final(self).human == Some(side),
            r is Ok && side == Side::Black ==> final(self).board == old(self).board && final(self).state == TurnState::AwaitingMove(Side::Black),
            r is Ok && side == Side::White ==> final(self).state == TurnState::AwaitingMove(
                Side::White,
            ) && forall|r2: int, c2: int|
                in_range(r2, c2) ==> #[trigger] final(self).board.at(r2, c2) == (if r2 == 7 && c2
                    == 7 {
                    Cell::Black
                } else {
                    Cell::Empty
                }),
    {
        match self.mode {
            GameMode::HumanVsComputer => {
                if self.human.is_some() {
                    return Err(GameError::InvalidTransition);
                }
                self.human = Some(side);
                match side {
                    Side::Black => Ok(()),
                    Side::White => {
                        proof {
                            assert(old(self).board.all_empty());
                            assert(in_range(7, 7));
                            assert(old(self).board.at(7, 7) == Cell::Empty);
                        }
                        let res = self.board.place(7, 7, Side::Black);
                        self.state = TurnState::AwaitingMove(Side::White);
                        proof {
                            assert(res is Ok);
                            assert forall|r2: int, c2: int| in_range(r2, c2) implies #[trigger] self
                                .board.at(r2, c2) == (if r2 == 7 && c2 == 7 {
                                Cell::Black
                            } else {
                                Cell::Empty
                            }) by {
                                assert(old(self).board.at(r2, c2) == Cell::Empty);
                            }
                        }
                        Ok(())
                    },
                }
            },
            _ => Err(GameError::InvalidTransition),
        }
    }

    /// A human move at (row, col).  Rejected as `InvalidTransition` when
    /// no move is awaited or it is not the human's turn, and as
    /// `Rejected` on an out-of-range coordinate or occupied cell; either
    /// way the session is untouched.  An accepted move is placed for the
    /// side to move; a completed five-in-a-row finishes the game, a full
    /// board draws it, and otherwise the turn passes to the opposite
    /// side — in a human-versus-computer game the computer immediately
    /// picks its best answer and starts its think-delay, so two moves of
    /// one side are never accepted in a row.
    pub fn submit_human_move(&mut self, row: usize, col: usize) -> (r: Result<(), GameError>)
        requires
            old(self).wf(),
        ensures
            final(self).wf(),
            final(self).mode == old(self).mode,
            final(self).human == old(self).human,
            r is Err ==> *final(self) == *old(self),
            (r is Ok) <==> (old(self).can_submit() && in_range(row as int, col as int) && old(
                self,
            ).board.at(row as int, col as int) == Cell::Empty),
            (r == Err::<(), GameError>(GameError::InvalidTransition)) <==> !old(self).can_submit(),
            r is Ok ==> old(self).turn_of() == Some(old(self).to_move()) && final(self).turn_of()
                != Some(old(self).to_move()),
            (r == Err::<(), GameError>(GameError::Rejected)) <==> (old(self).can_submit() && !(
            in_range(row as int, col as int) && old(self).board.at(row as int, col as int)
                == Cell::Empty)),
            r is Ok ==> ({
                let s = old(self).to_move();
                let b2 = final(self).board;
                &&& placed(old(self).board, b2, row as int, col as int, piece(s))
                &&& (wins_at(b2, row as int, col as int) ==> final(self).state
                    == TurnState::Finished(s))
                &&& (!wins_at(b2, row as int, col as int) && b2.full() ==> final(self).state
                    == TurnState::Drawn)
                &&& (!wins_at(b2, row as int, col as int) && !b2.full() && old(self).mode
                    == GameMode::HumanVsHuman ==> final(self).state == TurnState::AwaitingMove(
                    other(s),
                ))
                &&& (!wins_at(b2, row as int, col as int) && !b2.full() && old(self).mode
                    == GameMode::HumanVsComputer ==> (final(self).state matches
                TurnState::PendingComputerMove { row: pr, col: pc, elapsed: el } && el == 0
                    && is_best_move(b2, piece(other(s)), piece(s), pr as int, pc as int)))
            }),
    {
        let st = self.state;
        match st {
            TurnState::AwaitingMove(side) => {
                let allowed = match self.mode {
                    GameMode::HumanVsHuman => true,
                    GameMode::HumanVsComputer => match self.human {
                        Some(h) => h == side,
                        None => false,
                    },
                    GameMode::Unset => false,
                };
                if !allowed {
                    return Err(GameError::InvalidTransition);
                }
                if row >= N || col >= N {
                    return Err(GameError::Rejected);
                }
                if !self.board.is_empty(row, col) {
                    return Err(GameError::Rejected);
                }
                let res = self.board.place(row, col, side);
                proof {
                    assert(res is Ok);
                }
                if check(&self.board, row, col) {
                    self.state = TurnState::Finished(side);
                    return Ok(());
                }
                if self.board.is_full() {
                    self.state = TurnState::Drawn;
                    return Ok(());
                }
                match self.mode {
                    GameMode::HumanVsComputer => {
                        let comp = opposite(side);
                        let mv = select_move(&self.board, comp, side);
                        match mv {
                            Ok((pr, pc)) => {
                                self.state = TurnState::PendingComputerMove {
                                    row: pr,
                                    col: pc,
                                    elapsed: 0,
                                };
                            },
                            Err(_) => {
                                // unreachable: the board was just seen not full
                                self.state = TurnState::Drawn;
                            },
                        }
                    },
                    _ => {
                        self.state = TurnState::AwaitingMove(opposite(side));
                    },
                }
                Ok(())
            },
            _ => Err(GameError::InvalidTransition),
        }
    }

    /// Feeds host frame time to a pending computer move.  Before the
    /// think-delay is reached the elapsed time just accumulates; once
    /// `elapsed + delta_ms` reaches it, the chosen move is applied
    /// exactly as a human move would be, and the turn passes back to the
    /// human unless the game ends.  Returns the side that placed a piece
    /// during this call, if any, so the host can play its feedback.
    pub fn tick(&mut self, delta_ms: u64) -> (moved: Option<Side>)
        requires
            old(self).wf(),
        ensures
            final(self).wf(),
            final(self).mode == old(self).mode,
            final(self).human == old(self).human,
            moved is Some ==> old(self).turn_of() == moved && final(self).turn_of() != moved,
            match old(self).state {
                TurnState::PendingComputerMove { row, col, elapsed } => {
                    let comp = other(old(self).human_side());
                    let b2 = final(self).board;
                    if elapsed + delta_ms < THINK_DELAY_MS {
                        &&& moved is None
                        &&& final(self).board == old(self).board
                        &&& final(self).state == (TurnState::PendingComputerMove {
                            row,
                            col,
                            elapsed: (elapsed + delta_ms) as u64,
                        })
                    } else {
                        &&& moved == Some(comp)
                        &&& placed(old(self).board, b2, row as int, col as int, piece(comp))
                        &&& (wins_at(b2, row as int, col as int) ==> final(self).state
                            == TurnState::Finished(comp))
                        &&& (!wins_at(b2, row as int, col as int) && b2.full() ==> final(self).state == TurnState::Drawn)
                        &&& (!wins_at(b2, row as int, col as int) && !b2.full() ==> final(self).state == TurnState::AwaitingMove(old(self).human_side()))
                    }
                },
                _ => moved is None && *final(self) == *old(self),
            },
    {
        let st = self.state;
        match st {
            TurnState::PendingComputerMove { row, col, elapsed } => {
                let fires = if delta_ms >= THINK_DELAY_MS {
                    true
                } else {
                    elapsed + delta_ms >= THINK_DELAY_MS
                };
                if !fires {
                    self.state = TurnState::PendingComputerMove {
                        row,
                        col,
                        elapsed: elapsed + delta_ms,
                    };
                    None
                } else {
                    let h = match self.human {
                        Some(h) => h,
                        None => Side::Black,
                    };
                    let comp = opposite(h);
                    let res = self.board.place(row, col, comp);
                    proof {
                        assert(res is Ok);
                    }
                    if check(&self.board, row, col) {
                        self.state = TurnState::Finished(comp);
                    } else if self.board.is_full() {
                        self.state = TurnState::Drawn;
                    } else {
                        self.state = TurnState::AwaitingMove(h);
                    }
                    Some(comp)
                }
            },
            _ => None,
        }
    }

    /// What a renderer needs: the mode, whose turn it is (if the game
    /// runs), the winner (if any), whether a computer move is pending,
    /// and whether the game ended in a draw.
    pub fn current_state(&self) -> (v: SessionView)
        requires
            self.wf(),
        ensures
            v.mode == self.mode,
            v.whose_turn == self.turn_of(),
            v.winner == match self.state {
                TurnState::Finished(w) => Some(w),
                _ => None::<Side>,
            },
            v.pending_computer == (self.state matches TurnState::PendingComputerMove { .. }),
            v.drawn == (self.state is Drawn),
    {
        let whose_turn = match self.state {
            TurnState::AwaitingMove(s) => Some(s),
            TurnState::PendingComputerMove { .. } => match self.human {
                Some(h) => Some(opposite(h)),
                None => None,
            },
            _ => None,
        };
        let winner = match self.state {
            TurnState::Finished(w) => Some(w),
            _ => None,
        };
        SessionView {
            mode: self.mode,
            whose_turn,
            winner,
            pending_computer: matches!(self.state, TurnState::PendingComputerMove { .. }),
            drawn: matches!(self.state, TurnState::Drawn),
        }
    }

    /// Pure read of one board cell, for rendering.
    pub fn cell(&self, row: usize, col: usize) -> (r: Cell)
        requires
            self.wf(),
            in_range(row as int, col as int),
        ensures
            r == self.board.at(row as int, col as int),
    {
        self.board.get(row, col)
    }
}

} // verus!
