//! The rules of the game as mathematical functions of a position: which
//! moves a position accepts, why it turns down the others, and what an
//! accepted move leads to.  The executable engine is proved against these.

use crate::cards::Catalogue;
use crate::models::Board;
use crate::models::Card;
use crate::models::GameSquare;
use crate::models::GameState;
use crate::models::Move;
use crate::models::MoveError;
use crate::models::Player;
use crate::models::Point;
use vstd::prelude::*;

verus! {

/// The square that `player` reaches from `src` by the step `offset`, if it is
/// on the board.  Blue plays every step turned by half a turn.
pub open spec fn destination(src: Point, offset: Point, player: Player) -> Option<Point> {
    let x = match player {
        Player::Red => src.x + offset.x,
        Player::Blue => src.x - offset.x,
    };
    let y = match player {
        Player::Red => src.y + offset.y,
        Player::Blue => src.y - offset.y,
    };
    if 0 <= x <= 4 && 0 <= y <= 4 {
        Some(Point { x: x as i8, y: y as i8 })
    } else {
        None
    }
}

/// Whether one of `offsets` takes `player` from `src` to the square `dst`.
pub open spec fn permits(offsets: Seq<Point>, src: Point, dst: Point, player: Player) -> bool {
    exists|i: int|
        0 <= i < offsets.len() && #[trigger] destination(src, offsets[i], player) == Some(dst)
}

/// Whether one of the four pawns stands on `p`.
pub open spec fn pawn_on(pawns: [Option<Point>; 4], p: Point) -> bool {
    pawns[0] == Some(p) || pawns[1] == Some(p) || pawns[2] == Some(p) || pawns[3] == Some(p)
}

/// Whether `card` is one of the two cards of `hand`.
pub open spec fn in_hand(hand: [Card; 2], card: Card) -> bool {
    hand[0] == card || hand[1] == card
}

/// The hand after `used` has been played: the spare card takes its place.
pub open spec fn replaced(hand: [Card; 2], used: Card, spare: Card) -> [Card; 2] {
    [
        if hand[0] == used {
            spare
        } else {
            hand[0]
        },
        if hand[1] == used {
            spare
        } else {
            hand[1]
        },
    ]
}

/// Where one of the mover's pawns stands after a piece went from `src` to
/// `dst`: the pawn on `src` is the one that moved; a pawn on `dst` changes
/// places with the Wind Spirit.
pub open spec fn own_pawn_after(slot: Option<Point>, src: Point, dst: Point, spirit: bool) -> Option<
    Point,
> {
    match slot {
        Some(p) => if p == src {
            Some(dst)
        } else if p == dst && spirit {
            Some(src)
        } else {
            slot
        },
        None => None,
    }
}

/// Where one of the opponent's pawns stands after a piece went from `src`
/// to `dst`: a pawn on `dst` changes places with the Wind Spirit and is
/// captured by any other piece.
pub open spec fn other_pawn_after(
    slot: Option<Point>,
    src: Point,
    dst: Point,
    spirit: bool,
) -> Option<Point> {
    match slot {
        Some(p) => if p == dst {
            if spirit {
                Some(src)
            } else {
                None
            }
        } else {
            slot
        },
        None => None,
    }
}

/// The mover's pawns after a piece went from `src` to `dst`.
pub open spec fn own_pawns_after(
    pawns: [Option<Point>; 4],
    src: Point,
    dst: Point,
    spirit: bool,
) -> [Option<Point>; 4] {
    [
        own_pawn_after(pawns[0], src, dst, spirit),
        own_pawn_after(pawns[1], src, dst, spirit),
        own_pawn_after(pawns[2], src, dst, spirit),
        own_pawn_after(pawns[3], src, dst, spirit),
    ]
}

/// The opponent's pawns after a piece went from `src` to `dst`.
pub open spec fn other_pawns_after(
    pawns: [Option<Point>; 4],
    src: Point,
    dst: Point,
    spirit: bool,
) -> [Option<Point>; 4] {
    [
        other_pawn_after(pawns[0], src, dst, spirit),
        other_pawn_after(pawns[1], src, dst, spirit),
        other_pawn_after(pawns[2], src, dst, spirit),
        other_pawn_after(pawns[3], src, dst, spirit),
    ]
}

/// How many pieces `slot` puts on `p`: one if it holds `p`, else none.
pub open spec fn stands(slot: Option<Point>, p: Point) -> int {
    if slot == Some(p) {
        1
    } else {
        0
    }
}

/// How many of the four pawns stand on `p`.
pub open spec fn pawns_on(pawns: [Option<Point>; 4], p: Point) -> int {
    stands(pawns[0], p) + stands(pawns[1], p) + stands(pawns[2], p) + stands(pawns[3], p)
}

impl Board {
    /// The five cards of the position in the order in which they are
    /// dealt: Red's two, Blue's two, the spare.
    pub open spec fn cards(self) -> Seq<Card> {
        seq![
            self.red_hand[0],
            self.red_hand[1],
            self.blue_hand[0],
            self.blue_hand[1],
            self.spare_card,
        ]
    }

    /// How many of the five cards are Way of the Wind cards.
    pub open spec fn wind_cards(self, catalogue: Catalogue) -> int {
        let cards = self.cards();
        (if catalogue.is_wind_card(cards[0]) {
            1int
        } else {
            0int
        }) + (if catalogue.is_wind_card(cards[1]) {
            1int
        } else {
            0int
        }) + (if catalogue.is_wind_card(cards[2]) {
            1int
        } else {
            0int
        }) + (if catalogue.is_wind_card(cards[3]) {
            1int
        } else {
            0int
        }) + (if catalogue.is_wind_card(cards[4]) {
            1int
        } else {
            0int
        })
    }

    /// How many pieces stand on `p`.
    pub open spec fn pieces_on(self, p: Point) -> int {
        stands(self.red_king, p) + stands(self.blue_king, p) + stands(self.wind_spirit, p)
            + pawns_on(self.red_pawns, p) + pawns_on(self.blue_pawns, p)
    }

    /// Whether no square holds two pieces and no piece stands off the
    /// board.
    pub open spec fn well_placed(self) -> bool {
        forall|p: Point| #[trigger]
            self.pieces_on(p) <= if p.on_board() {
                1int
            } else {
                0int
            }
    }

    /// What holds of every position of a game: no square holds two pieces
    /// and no piece stands off the board; the five cards differ from one
    /// another; and an extra-move card is named exactly while an extra
    /// move is owed, and is then in the mover's hand.
    pub open spec fn valid(self) -> bool {
        &&& self.well_placed()
        &&& self.cards().no_duplicates()
        &&& self.extra_move_pending <==> self.extra_move_card is Some
        &&& self.extra_move_pending ==> in_hand(self.mover_hand(), self.extra_move_card.unwrap())
    }

    /// The king of the side to move.
    pub open spec fn mover_king(self) -> Option<Point> {
        match self.turn {
            Player::Red => self.red_king,
            Player::Blue => self.blue_king,
        }
    }

    /// The king of the side that waits.
    pub open spec fn waiting_king(self) -> Option<Point> {
        match self.turn {
            Player::Red => self.blue_king,
            Player::Blue => self.red_king,
        }
    }

    /// The pawns of the side to move.
    pub open spec fn mover_pawns(self) -> [Option<Point>; 4] {
        match self.turn {
            Player::Red => self.red_pawns,
            Player::Blue => self.blue_pawns,
        }
    }

    /// The pawns of the side that waits.
    pub open spec fn waiting_pawns(self) -> [Option<Point>; 4] {
        match self.turn {
            Player::Red => self.blue_pawns,
            Player::Blue => self.red_pawns,
        }
    }

    /// The hand of the side to move.
    pub open spec fn mover_hand(self) -> [Card; 2] {
        match self.turn {
            Player::Red => self.red_hand,
            Player::Blue => self.blue_hand,
        }
    }

    /// The hand of the side that waits.
    pub open spec fn waiting_hand(self) -> [Card; 2] {
        match self.turn {
            Player::Red => self.blue_hand,
            Player::Blue => self.red_hand,
        }
    }

    /// The pieces that the side to move may pick up: its king, its four
    /// pawns and, where it is in play, the Wind Spirit.  A captured piece
    /// leaves `None` in its place.
    pub open spec fn mover_pieces(self) -> Seq<Option<Point>> {
        let pawns = self.mover_pawns();
        let own = seq![self.mover_king(), pawns[0], pawns[1], pawns[2], pawns[3]];
        if self.wind_spirit is Some {
            own.push(self.wind_spirit)
        } else {
            own
        }
    }

    /// The king and the four pawns of the side that waits.
    pub open spec fn waiting_pieces(self) -> Seq<Option<Point>> {
        let pawns = self.waiting_pawns();
        seq![self.waiting_king(), pawns[0], pawns[1], pawns[2], pawns[3]]
    }

    /// What the grid shows on `p`.  Where pieces share a square the Wind
    /// Spirit hides a king, Blue's king hides Red's, a king hides a pawn
    /// and a red pawn hides a blue one.
    pub open spec fn square(self, p: Point) -> GameSquare {
        if self.wind_spirit == Some(p) {
            GameSquare::WindSpirit
        } else if self.blue_king == Some(p) {
            GameSquare::BlueKing
        } else if self.red_king == Some(p) {
            GameSquare::RedKing
        } else if pawn_on(self.red_pawns, p) {
            GameSquare::RedPawn
        } else if pawn_on(self.blue_pawns, p) {
            GameSquare::BluePawn
        } else {
            GameSquare::Empty
        }
    }

    /// Whether a king of either side stands on `p`.
    pub open spec fn king_on(self, p: Point) -> bool {
        self.red_king == Some(p) || self.blue_king == Some(p)
    }

    /// Whether a piece that the side to move may pick up stands on `p`: its
    /// king, one of its pawns, or the Wind Spirit.
    pub open spec fn mover_piece_on(self, p: Point) -> bool {
        self.mover_king() == Some(p) || pawn_on(self.mover_pawns(), p) || self.wind_spirit == Some(
            p,
        )
    }

    /// Whether the king or a pawn of the side that waits stands on `p`.
    pub open spec fn waiting_piece_on(self, p: Point) -> bool {
        self.waiting_king() == Some(p) || pawn_on(self.waiting_pawns(), p)
    }

    /// Whether the piece on `src` may come to rest on `dst`, as far as the
    /// pieces already there are concerned.  The Wind Spirit never steps
    /// onto a king and changes places with a pawn of the mover; every other
    /// piece needs a square free of the mover's pieces.
    pub open spec fn landing_rejection(self, src: Point, dst: Point) -> Option<MoveError> {
        let spirit = self.wind_spirit == Some(src);
        if spirit && self.king_on(dst) {
            Some(MoveError::WindSpiritOntoMaster)
        } else if self.mover_piece_on(dst) && !(spirit && pawn_on(self.mover_pawns(), dst)) {
            Some(MoveError::OccupiedByOwnPiece)
        } else {
            None
        }
    }

    /// Why an ordinary move of the piece on `src` to `dst` by `card` is
    /// turned down; `None` if it is accepted.  The checks come in a fixed
    /// order and the first that fails gives the reason.
    pub open spec fn move_rejection(
        self,
        catalogue: Catalogue,
        card: Card,
        src: Point,
        dst: Point,
    ) -> Option<MoveError> {
        let spirit = self.wind_spirit == Some(src);
        let king = self.mover_king() == Some(src);
        if !in_hand(self.mover_hand(), card) {
            Some(MoveError::CardNotInHand)
        } else if !self.mover_piece_on(src) {
            Some(MoveError::NoPieceAtSource)
        } else if spirit && catalogue.is_wind_card(card) {
            Some(MoveError::WindSpiritWindCard)
        } else if !dst.on_board() {
            Some(MoveError::OutOfBounds)
        } else if !permits(catalogue.offsets(card, king, false), src, dst, self.turn) {
            Some(MoveError::InvalidForCard)
        } else {
            self.landing_rejection(src, dst)
        }
    }

    /// Whether `card` lets the piece on `src` make an ordinary move.
    pub open spec fn movable_by(self, catalogue: Catalogue, card: Card, src: Point) -> bool {
        exists|dst: Point| #[trigger] self.move_rejection(catalogue, card, src, dst) is None
    }

    /// Whether the side to move has an ordinary move.
    pub open spec fn has_move(self, catalogue: Catalogue) -> bool {
        exists|card: Card, src: Point, dst: Point| #[trigger]
            self.move_rejection(catalogue, card, src, dst) is None
    }

    /// Why an extra move of the Wind Spirit from `src` to `dst` by `card` is
    /// turned down; `None` if it is accepted.
    pub open spec fn extra_move_rejection(
        self,
        catalogue: Catalogue,
        card: Card,
        src: Point,
        dst: Point,
    ) -> Option<MoveError> {
        if self.wind_spirit != Some(src) {
            Some(MoveError::MustMoveWindSpirit)
        } else if self.extra_move_card != Some(card) {
            Some(MoveError::MustUseCard { card: self.extra_move_card.unwrap() })
        } else if !dst.on_board() {
            Some(MoveError::OutOfBounds)
        } else if !permits(catalogue.offsets(card, false, true), src, dst, self.turn) {
            Some(MoveError::InvalidForCard)
        } else if self.king_on(dst) {
            Some(MoveError::WindSpiritOntoMaster)
        } else {
            None
        }
    }

    /// Whether the Wind Spirit can make the extra move that is owed: the
    /// extra-move card takes it to some square on the board that holds no
    /// king.
    pub open spec fn has_extra_move(self, catalogue: Catalogue) -> bool {
        match (self.wind_spirit, self.extra_move_card) {
            (Some(spirit), Some(card)) => exists|dst: Point| #[trigger]
                self.extra_move_rejection(catalogue, card, spirit, dst) is None,
            _ => false,
        }
    }

    /// Whether the side to move can move: in the ordinary phase any of its
    /// pieces by any card of its hand, in the extra-move phase the Wind
    /// Spirit by the extra-move card.
    pub open spec fn movable(self, catalogue: Catalogue) -> bool {
        if self.extra_move_pending {
            self.has_extra_move(catalogue)
        } else {
            self.has_move(catalogue)
        }
    }

    /// Why the discard of `card` is turned down; `None` if it is accepted.
    /// A discard stands only where the mover has no ordinary move, and
    /// only of a card of the mover's hand.
    pub open spec fn discard_rejection(self, catalogue: Catalogue, card: Card) -> Option<
        MoveError,
    > {
        if self.has_move(catalogue) {
            Some(MoveError::ValidMovesExist)
        } else if !in_hand(self.mover_hand(), card) {
            Some(MoveError::CardNotInHand)
        } else {
            None
        }
    }

    /// Why the position turns `m` down; `None` if it accepts `m`.  An
    /// extra move that the Wind Spirit cannot make is forfeited, whatever
    /// is submitted.  A discard stands only where the mover has no
    /// ordinary move, in either phase, and only of a card of the mover's
    /// hand.  A move of a piece is held to the rules of the phase.
    pub open spec fn rejection(self, catalogue: Catalogue, m: Move) -> Option<MoveError> {
        if self.extra_move_pending && !self.has_extra_move(catalogue) {
            None
        } else {
            match m {
                Move::Discard { card } => self.discard_rejection(catalogue, card),
                Move::Move { card, src, dst } => if self.extra_move_pending {
                    self.extra_move_rejection(catalogue, card, src, dst)
                } else {
                    self.move_rejection(catalogue, card, src, dst)
                },
            }
        }
    }

    /// Whether the position accepts `m`.
    pub open spec fn accepts(self, catalogue: Catalogue, m: Move) -> bool {
        self.rejection(catalogue, m) is None
    }

    /// The position with the pieces of the two sides and the Wind Spirit
    /// replaced; `king` and `pawns` are those of the side to move.
    pub open spec fn with_pieces(
        self,
        king: Option<Point>,
        pawns: [Option<Point>; 4],
        other_king: Option<Point>,
        other_pawns: [Option<Point>; 4],
        spirit: Option<Point>,
    ) -> Board {
        match self.turn {
            Player::Red => Board {
                wind_spirit: spirit,
                red_king: king,
                red_pawns: pawns,
                blue_king: other_king,
                blue_pawns: other_pawns,
                ..self
            },
            Player::Blue => Board {
                wind_spirit: spirit,
                blue_king: king,
                blue_pawns: pawns,
                red_king: other_king,
                red_pawns: other_pawns,
                ..self
            },
        }
    }

    /// The position after the turn has ended with `card` played: the card
    /// becomes the spare, the old spare takes its place in the mover's
    /// hand, no extra move is owed, and the other side is to move.
    pub open spec fn recycled(self, card: Card) -> Board {
        let hand = replaced(self.mover_hand(), card, self.spare_card);
        match self.turn {
            Player::Red => Board {
                red_hand: hand,
                spare_card: card,
                turn: Player::Blue,
                extra_move_pending: false,
                extra_move_card: None,
                ..self
            },
            Player::Blue => Board {
                blue_hand: hand,
                spare_card: card,
                turn: Player::Red,
                extra_move_pending: false,
                extra_move_card: None,
                ..self
            },
        }
    }

    /// The pieces after an ordinary step of the piece on `src` to `dst`.
    /// The Wind Spirit changes places with a pawn it lands on; any other
    /// piece captures what the opponent has on `dst`.
    pub open spec fn stepped(self, src: Point, dst: Point) -> Board {
        let spirit = self.wind_spirit == Some(src);
        self.with_pieces(
            if self.mover_king() == Some(src) {
                Some(dst)
            } else {
                self.mover_king()
            },
            own_pawns_after(self.mover_pawns(), src, dst, spirit),
            if !spirit && self.waiting_king() == Some(dst) {
                None
            } else {
                self.waiting_king()
            },
            other_pawns_after(self.waiting_pawns(), src, dst, spirit),
            if spirit {
                Some(dst)
            } else {
                self.wind_spirit
            },
        )
    }

    /// The pieces after the Wind Spirit went from `src` to `dst` on an
    /// extra move: it changes places with a pawn it lands on.
    pub open spec fn swapped(self, src: Point, dst: Point) -> Board {
        self.with_pieces(
            self.mover_king(),
            own_pawns_after(self.mover_pawns(), src, dst, true),
            self.waiting_king(),
            other_pawns_after(self.waiting_pawns(), src, dst, true),
            Some(dst),
        )
    }

    /// The position in which the mover owes an extra move by `card`.
    pub open spec fn awaiting(self, card: Card) -> Board {
        Board { extra_move_pending: true, extra_move_card: Some(card), ..self }
    }

    /// Whether an accepted ordinary move unlocks an extra move: the card is
    /// a Way of the Wind card and, once the piece has moved, the Wind
    /// Spirit can move by the card's extra steps.
    pub open spec fn unlocks_extra_move(
        self,
        catalogue: Catalogue,
        card: Card,
        src: Point,
        dst: Point,
    ) -> bool {
        catalogue.is_wind_card(card) && self.stepped(src, dst).awaiting(card).has_extra_move(
            catalogue,
        )
    }

    /// The position after an accepted ordinary move.  Where the move
    /// unlocks an extra move the mover keeps the turn and the card;
    /// otherwise the card is recycled and the turn passes.
    pub open spec fn after_move(
        self,
        catalogue: Catalogue,
        card: Card,
        src: Point,
        dst: Point,
    ) -> Board {
        if self.unlocks_extra_move(catalogue, card, src, dst) {
            self.stepped(src, dst).awaiting(card)
        } else {
            self.stepped(src, dst).recycled(card)
        }
    }

    /// Whether an ordinary step from `src` to `dst` wins the game: it takes
    /// the opponent's king, or it brings the mover's king to its goal.
    pub open spec fn wins_by(self, src: Point, dst: Point) -> bool {
        self.waiting_king() == Some(dst) || (self.mover_king() == Some(src) && dst
            == self.turn.goal())
    }

    /// The state that an accepted move leads to.  A forfeited extra move
    /// and a discard recycle a card and pass the turn.  An extra move
    /// carries the Wind Spirit over, recycles the card and passes the
    /// turn; the game is won if the mover's king stands on its goal.  An
    /// ordinary move is won by taking the opponent's king or by bringing
    /// the king to its goal, whether or not it unlocks an extra move.
    pub open spec fn outcome(self, catalogue: Catalogue, m: Move) -> GameState {
        if self.extra_move_pending && !self.has_extra_move(catalogue) {
            GameState::Playing { board: self.recycled(self.extra_move_card.unwrap()) }
        } else {
            match m {
                Move::Discard { card } => GameState::Playing { board: self.recycled(card) },
                Move::Move { card, src, dst } => if self.extra_move_pending {
                    let board = self.swapped(src, dst).recycled(card);
                    if self.mover_king() == Some(self.turn.goal()) {
                        GameState::Finished { winner: self.turn, board }
                    } else {
                        GameState::Playing { board }
                    }
                } else {
                    let board = self.after_move(catalogue, card, src, dst);
                    if self.wins_by(src, dst) {
                        GameState::Finished { winner: self.turn, board }
                    } else {
                        GameState::Playing { board }
                    }
                },
            }
        }
    }

    /// The move that the step `offset` of the piece on `src` by `card`
    /// makes, if the step stays on the board and the move is accepted;
    /// as an extra move of the Wind Spirit where `extra`, else as an
    /// ordinary move.
    pub open spec fn step_move(
        self,
        catalogue: Catalogue,
        card: Card,
        src: Point,
        extra: bool,
        offset: Point,
    ) -> Option<Move> {
        match destination(src, offset, self.turn) {
            Some(dst) => {
                let rejection = if extra {
                    self.extra_move_rejection(catalogue, card, src, dst)
                } else {
                    self.move_rejection(catalogue, card, src, dst)
                };
                if rejection is None {
                    Some(Move::Move { card, src, dst })
                } else {
                    None
                }
            },
            None => None,
        }
    }

    /// [`Board::step_move`] as a function of the step alone.
    pub open spec fn stepper(self, catalogue: Catalogue, card: Card, src: Point, extra: bool)
        -> spec_fn(Point) -> Option<Move> {
        |offset: Point| self.step_move(catalogue, card, src, extra, offset)
    }

    /// The accepted ordinary moves of the piece in `slot` by `card`, in the
    /// order of the card's steps.
    pub open spec fn piece_moves(self, catalogue: Catalogue, card: Card, slot: Option<Point>)
        -> Seq<Move> {
        match slot {
            Some(src) => catalogue.offsets(card, self.mover_king() == Some(src), false).filter_map(
                self.stepper(catalogue, card, src, false),
            ),
            None => Seq::empty(),
        }
    }

    /// The accepted ordinary moves by `card`: those of the king, then those
    /// of each pawn, then those of the Wind Spirit.
    pub open spec fn card_moves(self, catalogue: Catalogue, card: Card) -> Seq<Move> {
        let pawns = self.mover_pawns();
        self.piece_moves(catalogue, card, self.mover_king()) + self.piece_moves(
            catalogue,
            card,
            pawns[0],
        ) + self.piece_moves(catalogue, card, pawns[1]) + self.piece_moves(
            catalogue,
            card,
            pawns[2],
        ) + self.piece_moves(catalogue, card, pawns[3]) + self.piece_moves(
            catalogue,
            card,
            self.wind_spirit,
        )
    }

    /// The accepted ordinary moves, first those by the first card of the
    /// mover's hand, then those by the second.
    pub open spec fn candidate_moves(self, catalogue: Catalogue) -> Seq<Move> {
        self.card_moves(catalogue, self.mover_hand()[0]) + self.card_moves(
            catalogue,
            self.mover_hand()[1],
        )
    }

    /// The accepted extra moves of the Wind Spirit, in the order of the
    /// extra-move card's steps.
    pub open spec fn extra_moves(self, catalogue: Catalogue) -> Seq<Move> {
        match (self.wind_spirit, self.extra_move_card) {
            (Some(spirit), Some(card)) => catalogue.offsets(card, false, true).filter_map(
                self.stepper(catalogue, card, spirit, true),
            ),
            _ => Seq::empty(),
        }
    }

    /// Whether `m` lands on a piece of the side that waits.
    pub open spec fn captures(self, m: Move) -> bool {
        match m {
            Move::Move { dst, .. } => self.waiting_piece_on(dst),
            Move::Discard { .. } => false,
        }
    }

    /// [`Board::captures`] as a function of the move.
    pub open spec fn capturing(self) -> spec_fn(Move) -> bool {
        |m: Move| self.captures(m)
    }

    /// The complement of [`Board::capturing`].
    pub open spec fn quiet(self) -> spec_fn(Move) -> bool {
        |m: Move| !self.captures(m)
    }

    /// The legal moves in the order in which they are enumerated.  While an
    /// extra move is owed these are the Wind Spirit's extra moves.
    /// Otherwise they are the accepted ordinary moves, those that land on
    /// an opponent's piece first; and where there is none, the discard of
    /// either card of the mover's hand.
    pub open spec fn legal(self, catalogue: Catalogue) -> Seq<Move> {
        if self.extra_move_pending {
            self.extra_moves(catalogue)
        } else {
            let candidates = self.candidate_moves(catalogue);
            if candidates.len() > 0 {
                candidates.filter(self.capturing()) + candidates.filter(self.quiet())
            } else {
                seq![
                    Move::Discard { card: self.mover_hand()[0] },
                    Move::Discard { card: self.mover_hand()[1] },
                ]
            }
        }
    }

    /// What an engine needs of a position to work on it: where an extra
    /// move is owed, the card for it is named.
    pub open spec fn wf(self) -> bool {
        self.extra_move_pending ==> self.extra_move_card is Some
    }
}

impl GameState {
    /// The position of the state.
    pub open spec fn position(self) -> Board {
        match self {
            GameState::Playing { board } => board,
            GameState::Finished { board, .. } => board,
        }
    }

    /// Why the state turns `m` down; `None` if it accepts `m`.
    pub open spec fn rejection(self, catalogue: Catalogue, m: Move) -> Option<MoveError> {
        match self {
            GameState::Playing { board } => board.rejection(catalogue, m),
            GameState::Finished { .. } => Some(MoveError::GameFinished),
        }
    }
}

} // verus!
