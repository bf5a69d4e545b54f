//! The engine proper: queries on a position, the check of a submitted move
//! and the step to the next state.

use crate::cards::Catalogue;
use crate::models::Board;
use crate::models::Card;
use crate::models::GameSquare;
use crate::models::GameState;
use crate::models::Move;
use crate::models::MoveError;
use crate::models::Player;
use crate::models::Point;
use crate::rules::destination;
use crate::rules::in_hand;
use crate::rules::other_pawn_after;
use crate::rules::other_pawns_after;
use crate::rules::own_pawn_after;
use crate::rules::own_pawns_after;
use crate::rules::pawn_on;
use crate::rules::permits;
use crate::rules::replaced;
use vstd::prelude::*;

verus! {

/// The square that `player` reaches from `src` by the step `offset`, if it is
/// on the board.
pub fn step_target(src: Point, offset: Point, player: Player) -> (r: Option<Point>)
    ensures
        r == destination(src, offset, player),
{
    let (dx, dy): (i16, i16) = match player {
        Player::Red => (offset.x as i16, offset.y as i16),
        Player::Blue => (-(offset.x as i16), -(offset.y as i16)),
    };
    let x: i16 = src.x as i16 + dx;
    let y: i16 = src.y as i16 + dy;
    if 0 <= x && x <= 4 && 0 <= y && y <= 4 {
        Some(Point { x: x as i8, y: y as i8 })
    } else {
        None
    }
}

/// Whether one of `offsets` takes `player` from `src` to the square `dst`.
pub fn step_offered(offsets: &Vec<Point>, src: Point, dst: Point, player: Player) -> (r: bool)
    ensures
        r == permits(offsets@, src, dst, player),
{
    let mut i: usize = 0;
    while i < offsets.len()
        invariant
            i <= offsets@.len(),
            forall|j: int| 0 <= j < i ==> #[trigger] destination(src, offsets@[j], player) != Some(dst),
        decreases offsets@.len() - i,
    {
        if step_target(src, offsets[i], player) == Some(dst) {
            return true;
        }
        i += 1;
    }
    false
}

/// Whether `point` lies off the board.
pub fn out_of_bounds(point: Point) -> (r: bool)
    ensures
        r == !point.on_board(),
{
    point.x < 0 || point.x > 4 || point.y < 0 || point.y > 4
}

fn pawn_stands_on(pawns: &[Option<Point>; 4], p: Point) -> (r: bool)
    ensures
        r == pawn_on(*pawns, p),
{
    pawns[0] == Some(p) || pawns[1] == Some(p) || pawns[2] == Some(p) || pawns[3] == Some(p)
}

fn holds_card(hand: &[Card; 2], card: Card) -> (r: bool)
    ensures
        r == in_hand(*hand, card),
{
    hand[0] == card || hand[1] == card
}

/// The hand after `used` has been played: the spare card takes its place.
pub fn replace_card(hand: &[Card; 2], used: Card, spare: Card) -> (r: [Card; 2])
    ensures
        r == replaced(*hand, used, spare),
{
    let r = [
        if hand[0] == used {
            spare
        } else {
            hand[0]
        },
        if hand[1] == used {
            spare
        } else {
            hand[1]
        },
    ];
    assert(r@ =~= replaced(*hand, used, spare)@);
    r
}

fn own_pawn_moved(slot: Option<Point>, src: Point, dst: Point, spirit: bool) -> (r: Option<Point>)
    ensures
        r == own_pawn_after(slot, src, dst, spirit),
{
    match slot {
        Some(p) => if p == src {
            Some(dst)
        } else if p == dst && spirit {
            Some(src)
        } else {
            slot
        },
        None => None,
    }
}

fn other_pawn_moved(slot: Option<Point>, src: Point, dst: Point, spirit: bool) -> (r: Option<Point>)
    ensures
        r == other_pawn_after(slot, src, dst, spirit),
{
    match slot {
        Some(p) => if p == dst {
            if spirit {
                Some(src)
            } else {
                None
            }
        } else {
            slot
        },
        None => None,
    }
}

/// Carries the pawns of both sides over a step from `src` to `dst`.  The
/// mover's pawn on `src` goes to `dst`.  A pawn on `dst` changes places with
/// the Wind Spirit; any other piece captures the opponent's pawn there.
pub fn move_or_swap_pawns(
    player_pawns: &mut [Option<Point>; 4],
    opponent_pawns: &mut [Option<Point>; 4],
    src: Point,
    dst: Point,
    wind_spirit_moving: bool,
)
    ensures
        *final(player_pawns) == own_pawns_after(*old(player_pawns), src, dst, wind_spirit_moving),
        *final(opponent_pawns) == other_pawns_after(
            *old(opponent_pawns),
            src,
            dst,
            wind_spirit_moving,
        ),
{
    let own = [
        own_pawn_moved(player_pawns[0], src, dst, wind_spirit_moving),
        own_pawn_moved(player_pawns[1], src, dst, wind_spirit_moving),
        own_pawn_moved(player_pawns[2], src, dst, wind_spirit_moving),
        own_pawn_moved(player_pawns[3], src, dst, wind_spirit_moving),
    ];
    let other = [
        other_pawn_moved(opponent_pawns[0], src, dst, wind_spirit_moving),
        other_pawn_moved(opponent_pawns[1], src, dst, wind_spirit_moving),
        other_pawn_moved(opponent_pawns[2], src, dst, wind_spirit_moving),
        other_pawn_moved(opponent_pawns[3], src, dst, wind_spirit_moving),
    ];
    assert(own@ =~= own_pawns_after(*old(player_pawns), src, dst, wind_spirit_moving)@);
    assert(other@ =~= other_pawns_after(*old(opponent_pawns), src, dst, wind_spirit_moving)@);
    *player_pawns = own;
    *opponent_pawns = other;
}

impl Board {
    /// The hand of the side to move.
    pub fn player_hand(&self) -> (r: &[Card; 2])
        ensures
            *r == self.mover_hand(),
    {
        match self.turn {
            Player::Red => &self.red_hand,
            Player::Blue => &self.blue_hand,
        }
    }

    /// The hand of the side that waits.
    pub fn opponent_hand(&self) -> (r: &[Card; 2])
        ensures
            *r == self.waiting_hand(),
    {
        match self.turn {
            Player::Red => &self.blue_hand,
            Player::Blue => &self.red_hand,
        }
    }

    /// The pawns of the side to move.
    pub fn player_pawns(&self) -> (r: [Option<Point>; 4])
        ensures
            r == self.mover_pawns(),
    {
        match self.turn {
            Player::Red => self.red_pawns,
            Player::Blue => self.blue_pawns,
        }
    }

    /// The pawns of the side that waits.
    pub fn opponent_pawns(&self) -> (r: [Option<Point>; 4])
        ensures
            r == self.waiting_pawns(),
    {
        match self.turn {
            Player::Red => self.blue_pawns,
            Player::Blue => self.red_pawns,
        }
    }

    /// The king of the side to move.
    pub fn player_king(&self) -> (r: Option<Point>)
        ensures
            r == self.mover_king(),
    {
        match self.turn {
            Player::Red => self.red_king,
            Player::Blue => self.blue_king,
        }
    }

    /// The king of the side that waits.
    pub fn opponent_king(&self) -> (r: Option<Point>)
        ensures
            r == self.waiting_king(),
    {
        match self.turn {
            Player::Red => self.blue_king,
            Player::Blue => self.red_king,
        }
    }

    /// The Wind Spirit's square, if the Wind Spirit is in play.
    pub fn wind_spirit(&self) -> (r: Option<Point>)
        ensures
            r == self.wind_spirit,
    {
        self.wind_spirit
    }

    fn king_stands_on(&self, p: Point) -> (r: bool)
        ensures
            r == self.king_on(p),
    {
        self.red_king == Some(p) || self.blue_king == Some(p)
    }

    fn player_piece_stands_on(&self, p: Point) -> (r: bool)
        ensures
            r == self.mover_piece_on(p),
    {
        let pawns = self.player_pawns();
        self.player_king() == Some(p) || pawn_stands_on(&pawns, p) || self.wind_spirit == Some(p)
    }

    pub(crate) fn opponent_piece_stands_on(&self, p: Point) -> (r: bool)
        ensures
            r == self.waiting_piece_on(p),
    {
        let pawns = self.opponent_pawns();
        self.opponent_king() == Some(p) || pawn_stands_on(&pawns, p)
    }

    /// Checks whether the piece on `src` may come to rest on `dst`.
    fn check_landing(&self, src: Point, dst: Point) -> (r: Option<MoveError>)
        ensures
            r == self.landing_rejection(src, dst),
    {
        let spirit = self.wind_spirit == Some(src);
        let pawns = self.player_pawns();
        if spirit && self.king_stands_on(dst) {
            Some(MoveError::WindSpiritOntoMaster)
        } else if self.player_piece_stands_on(dst) && !(spirit && pawn_stands_on(&pawns, dst)) {
            Some(MoveError::OccupiedByOwnPiece)
        } else {
            None
        }
    }

    /// Checks an ordinary move of the piece on `src` to `dst` by `card`.
    pub fn check_move(&self, catalogue: &Catalogue, card: Card, src: Point, dst: Point) -> (r:
        Option<MoveError>)
        ensures
            r == self.move_rejection(*catalogue, card, src, dst),
    {
        let spirit = self.wind_spirit == Some(src);
        let king = self.player_king() == Some(src);
        if !holds_card(self.player_hand(), card) {
            return Some(MoveError::CardNotInHand);
        }
        if !self.player_piece_stands_on(src) {
            return Some(MoveError::NoPieceAtSource);
        }
        if spirit && catalogue.is_way_of_the_wind(card) {
            return Some(MoveError::WindSpiritWindCard);
        }
        if out_of_bounds(dst) {
            return Some(MoveError::OutOfBounds);
        }
        let offsets = catalogue.moves(card, king, false);
        if !step_offered(&offsets, src, dst, self.turn) {
            return Some(MoveError::InvalidForCard);
        }
        self.check_landing(src, dst)
    }

    /// Checks an extra move of the Wind Spirit from `src` to `dst` by
    /// `card`.
    pub fn check_extra_move(&self, catalogue: &Catalogue, card: Card, src: Point, dst: Point) -> (r:
        Option<MoveError>)
        requires
            self.extra_move_card is Some,
        ensures
            r == self.extra_move_rejection(*catalogue, card, src, dst),
    {
        let extra_card = self.extra_move_card.unwrap();
        if self.wind_spirit != Some(src) {
            return Some(MoveError::MustMoveWindSpirit);
        }
        if card != extra_card {
            return Some(MoveError::MustUseCard { card: extra_card });
        }
        if out_of_bounds(dst) {
            return Some(MoveError::OutOfBounds);
        }
        let offsets = catalogue.moves(card, false, true);
        if !step_offered(&offsets, src, dst, self.turn) {
            return Some(MoveError::InvalidForCard);
        }
        if self.king_stands_on(dst) {
            return Some(MoveError::WindSpiritOntoMaster);
        }
        None
    }

    /// The pieces that the side to move may pick up: its king, its four
    /// pawns and, where it is in play, the Wind Spirit.
    pub fn player_pieces(&self) -> (r: Vec<Option<Point>>)
        ensures
            r@ == self.mover_pieces(),
    {
        let pawns = self.player_pawns();
        let mut pieces: Vec<Option<Point>> = Vec::new();
        pieces.push(self.player_king());
        pieces.push(pawns[0]);
        pieces.push(pawns[1]);
        pieces.push(pawns[2]);
        pieces.push(pawns[3]);
        if self.wind_spirit.is_some() {
            pieces.push(self.wind_spirit);
        }
        assert(pieces@ =~= self.mover_pieces());
        pieces
    }

    /// The king and the four pawns of the side that waits.
    pub fn opponent_pieces(&self) -> (r: Vec<Option<Point>>)
        ensures
            r@ == self.waiting_pieces(),
    {
        let pawns = self.opponent_pawns();
        let mut pieces: Vec<Option<Point>> = Vec::new();
        pieces.push(self.opponent_king());
        pieces.push(pawns[0]);
        pieces.push(pawns[1]);
        pieces.push(pawns[2]);
        pieces.push(pawns[3]);
        assert(pieces@ =~= self.waiting_pieces());
        pieces
    }

    /// Whether the Wind Spirit can make the extra move that is owed.
    fn spirit_can_move(&self, catalogue: &Catalogue) -> (r: bool)
        ensures
            r == self.has_extra_move(*catalogue),
    {
        match (self.wind_spirit, self.extra_move_card) {
            (Some(spirit), Some(card)) => {
                let offsets = catalogue.moves(card, false, true);
                let mut i: usize = 0;
                while i < offsets.len()
                    invariant
                        i <= offsets@.len(),
                        offsets@ == catalogue.offsets(card, false, true),
                        self.wind_spirit == Some(spirit),
                        self.extra_move_card == Some(card),
                        forall|j: int|
                            0 <= j < i ==> match #[trigger] destination(
                                spirit,
                                offsets@[j],
                                self.turn,
                            ) {
                                Some(d) => self.king_on(d),
                                None => true,
                            },
                    decreases offsets@.len() - i,
                {
                    match step_target(spirit, offsets[i], self.turn) {
                        Some(d) => {
                            if !self.king_stands_on(d) {
                                assert(permits(offsets@, spirit, d, self.turn));
                                assert(self.extra_move_rejection(*catalogue, card, spirit, d) is None);
                                return true;
                            }
                        },
                        None => {},
                    }
                    i += 1;
                }
                assert forall|dst: Point|
                    (#[trigger] self.extra_move_rejection(*catalogue, card, spirit, dst)) is Some by {
                    if permits(offsets@, spirit, dst, self.turn) {
                        let j = choose|j: int|
                            0 <= j < offsets@.len() && #[trigger] destination(
                                spirit,
                                offsets@[j],
                                self.turn,
                            ) == Some(dst);
                        assert(self.king_on(dst));
                    }
                }
                false
            },
            _ => false,
        }
    }

    /// Whether `card` lets the piece on `src` make an ordinary move.
    fn piece_can_move(&self, catalogue: &Catalogue, card: Card, src: Point) -> (r: bool)
        ensures
            r == self.movable_by(*catalogue, card, src),
    {
        let spirit = self.wind_spirit == Some(src);
        let king = self.player_king() == Some(src);
        if !holds_card(self.player_hand(), card) || !self.player_piece_stands_on(src) || (spirit
            && catalogue.is_way_of_the_wind(card)) {
            assert forall|dst: Point|
                (#[trigger] self.move_rejection(*catalogue, card, src, dst)) is Some by {}
            return false;
        }
        let offsets = catalogue.moves(card, king, false);
        let mut i: usize = 0;
        while i < offsets.len()
            invariant
                i <= offsets@.len(),
                offsets@ == catalogue.offsets(card, king, false),
                spirit == (self.wind_spirit == Some(src)),
                king == (self.mover_king() == Some(src)),
                in_hand(self.mover_hand(), card),
                self.mover_piece_on(src),
                !(spirit && catalogue.is_wind_card(card)),
                forall|j: int|
                    0 <= j < i ==> match #[trigger] destination(src, offsets@[j], self.turn) {
                        Some(d) => self.landing_rejection(src, d) is Some,
                        None => true,
                    },
            decreases offsets@.len() - i,
        {
            match step_target(src, offsets[i], self.turn) {
                Some(d) => {
                    if self.check_landing(src, d).is_none() {
                        assert(permits(offsets@, src, d, self.turn));
                        assert(self.move_rejection(*catalogue, card, src, d) is None);
                        return true;
                    }
                },
                None => {},
            }
            i += 1;
        }
        assert forall|dst: Point|
            (#[trigger] self.move_rejection(*catalogue, card, src, dst)) is Some by {
            if permits(offsets@, src, dst, self.turn) {
                let j = choose|j: int|
                    0 <= j < offsets@.len() && #[trigger] destination(src, offsets@[j], self.turn)
                        == Some(dst);
                assert(self.landing_rejection(src, dst) is Some);
            }
        }
        false
    }

    /// Whether a card of the mover's hand lets the piece in `slot` move.
    fn slot_can_move(&self, catalogue: &Catalogue, slot: Option<Point>) -> (r: bool)
        ensures
            r == match slot {
                Some(src) => self.movable_by(*catalogue, self.mover_hand()[0], src)
                    || self.movable_by(*catalogue, self.mover_hand()[1], src),
                None => false,
            },
    {
        let hand = self.player_hand();
        match slot {
            Some(src) => self.piece_can_move(catalogue, hand[0], src) || self.piece_can_move(
                catalogue,
                hand[1],
                src,
            ),
            None => false,
        }
    }

    /// Whether the side to move has an ordinary move.
    fn has_ordinary_move(&self, catalogue: &Catalogue) -> (r: bool)
        ensures
            r == self.has_move(*catalogue),
    {
        let pawns = self.player_pawns();
        let r = self.slot_can_move(catalogue, self.player_king()) || self.slot_can_move(
            catalogue,
            pawns[0],
        ) || self.slot_can_move(catalogue, pawns[1]) || self.slot_can_move(catalogue, pawns[2])
            || self.slot_can_move(catalogue, pawns[3]) || self.slot_can_move(
            catalogue,
            self.wind_spirit,
        );
        proof {
            if !r {
                assert forall|card: Card, src: Point, dst: Point|
                    (#[trigger] self.move_rejection(*catalogue, card, src, dst)) is Some by {
                    if self.move_rejection(*catalogue, card, src, dst) is None {
                        assert(self.movable_by(*catalogue, card, src));
                    }
                }
            }
        }
        r
    }

    /// Whether the side to move can move: in the ordinary phase any of its
    /// pieces by a card of its hand, in the extra-move phase the Wind Spirit
    /// by the extra-move card.
    pub fn can_move(&self, catalogue: &Catalogue) -> (r: bool)
        ensures
            r == self.movable(*catalogue),
    {
        if self.extra_move_pending {
            self.spirit_can_move(catalogue)
        } else {
            self.has_ordinary_move(catalogue)
        }
    }

    /// The position with the pieces of the two sides and the Wind Spirit
    /// replaced; `king` and `pawns` are those of the side to move.
    fn set_pieces(
        &self,
        king: Option<Point>,
        pawns: [Option<Point>; 4],
        other_king: Option<Point>,
        other_pawns: [Option<Point>; 4],
        spirit: Option<Point>,
    ) -> (r: Board)
        ensures
            r == self.with_pieces(king, pawns, other_king, other_pawns, spirit),
    {
        match self.turn {
            Player::Red => Board {
                wind_spirit: spirit,
                red_king: king,
                red_pawns: pawns,
                blue_king: other_king,
                blue_pawns: other_pawns,
                ..*self
            },
            Player::Blue => Board {
                wind_spirit: spirit,
                blue_king: king,
                blue_pawns: pawns,
                red_king: other_king,
                red_pawns: other_pawns,
                ..*self
            },
        }
    }

    /// Ends the turn with `card` played: the card becomes the spare, the old
    /// spare takes its place in the mover's hand, and the turn passes.
    fn recycle(&self, card: Card) -> (r: Board)
        ensures
            r == self.recycled(card),
    {
        let hand = replace_card(self.player_hand(), card, self.spare_card);
        match self.turn {
            Player::Red => Board {
                red_hand: hand,
                spare_card: card,
                turn: Player::Blue,
                extra_move_pending: false,
                extra_move_card: None,
                ..*self
            },
            Player::Blue => Board {
                blue_hand: hand,
                spare_card: card,
                turn: Player::Red,
                extra_move_pending: false,
                extra_move_card: None,
                ..*self
            },
        }
    }

    /// Carries the pieces over an ordinary step from `src` to `dst`.
    fn step(&self, src: Point, dst: Point) -> (r: Board)
        ensures
            r == self.stepped(src, dst),
    {
        let spirit = self.wind_spirit == Some(src);
        let mut pawns = self.player_pawns();
        let mut other_pawns = self.opponent_pawns();
        move_or_swap_pawns(&mut pawns, &mut other_pawns, src, dst, spirit);
        let king = if self.player_king() == Some(src) {
            Some(dst)
        } else {
            self.player_king()
        };
        let other_king = if !spirit && self.opponent_king() == Some(dst) {
            None
        } else {
            self.opponent_king()
        };
        let wind_spirit = if spirit {
            Some(dst)
        } else {
            self.wind_spirit
        };
        self.set_pieces(king, pawns, other_king, other_pawns, wind_spirit)
    }

    /// Whether an accepted ordinary move by `card` from `moved_src` to
    /// `moved_dst` unlocks an extra move of the Wind Spirit.
    pub fn enable_extra_move(
        &self,
        catalogue: &Catalogue,
        card: Card,
        moved_src: Point,
        moved_dst: Point,
    ) -> (r: bool)
        ensures
            r == self.unlocks_extra_move(*catalogue, card, moved_src, moved_dst),
    {
        if !catalogue.is_way_of_the_wind(card) {
            return false;
        }
        let moved = self.step(moved_src, moved_dst);
        let awaiting = Board { extra_move_pending: true, extra_move_card: Some(card), ..moved };
        awaiting.spirit_can_move(catalogue)
    }

    /// Gives up the turn and passes `card`, a card of the mover's hand, on
    /// to the spare.
    fn discard_card(&self, card: Card) -> (r: Result<GameState, MoveError>)
        requires
            in_hand(self.mover_hand(), card),
        ensures
            r == Ok::<GameState, MoveError>(GameState::Playing { board: self.recycled(card) }),
    {
        Ok(GameState::Playing { board: self.recycle(card) })
    }

    /// Handles a submitted discard: it stands only if the mover has no
    /// ordinary move and holds the card.
    fn try_discard(&self, catalogue: &Catalogue, card: Card) -> (r: Result<GameState, MoveError>)
        ensures
            r == match self.discard_rejection(*catalogue, card) {
                Some(e) => Err::<GameState, MoveError>(e),
                None => Ok::<GameState, MoveError>(
                    GameState::Playing { board: self.recycled(card) },
                ),
            },
    {
        if self.has_ordinary_move(catalogue) {
            return Err(MoveError::ValidMovesExist);
        }
        if !holds_card(self.player_hand(), card) {
            return Err(MoveError::CardNotInHand);
        }
        self.discard_card(card)
    }

    /// Checks `game_move` against the position and, if the position accepts
    /// it, gives the state it leads to.  A rejection leaves everything as
    /// it was and names the first rule that the move breaks.
    pub fn try_move(&self, catalogue: &Catalogue, game_move: Move) -> (r: Result<
        GameState,
        MoveError,
    >)
        requires
            self.wf(),
        ensures
            match r {
                Ok(state) => self.rejection(*catalogue, game_move) is None && state
                    == self.outcome(*catalogue, game_move),
                Err(e) => self.rejection(*catalogue, game_move) == Some(e),
            },
    {
        if self.extra_move_pending {
            return self.try_extra_move(catalogue, game_move);
        }
        let (card, src, dst) = match game_move {
            Move::Move { card, src, dst } => (card, src, dst),
            Move::Discard { card } => {
                return self.try_discard(catalogue, card);
            },
        };
        match self.check_move(catalogue, card, src, dst) {
            Some(e) => {
                return Err(e);
            },
            None => {},
        }
        let moving_king = self.player_king() == Some(src);
        let moved = self.step(src, dst);
        let updated_board = if self.enable_extra_move(catalogue, card, src, dst) {
            Board { extra_move_pending: true, extra_move_card: Some(card), ..moved }
        } else {
            moved.recycle(card)
        };
        if self.opponent_king() == Some(dst) || (moving_king && dst == self.turn.goal_square()) {
            return Ok(GameState::Finished { winner: self.turn, board: updated_board });
        }
        Ok(GameState::Playing { board: updated_board })
    }

    /// The extra-move phase of [`Board::try_move`].  Where the Wind Spirit
    /// has nowhere to go the extra move is forfeited, whatever was
    /// submitted.  A discard gives the extra move up and stands as an
    /// ordinary discard.  Anything else has to move the Wind Spirit by
    /// the extra-move card.
    fn try_extra_move(&self, catalogue: &Catalogue, game_move: Move) -> (r: Result<
        GameState,
        MoveError,
    >)
        requires
            self.wf(),
            self.extra_move_pending,
        ensures
            match r {
                Ok(state) => self.rejection(*catalogue, game_move) is None && state
                    == self.outcome(*catalogue, game_move),
                Err(e) => self.rejection(*catalogue, game_move) == Some(e),
            },
    {
        let extra_card = self.extra_move_card.unwrap();
        if !self.can_move(catalogue) {
            return Ok(GameState::Playing { board: self.recycle(extra_card) });
        }
        let (card, src, dst) = match game_move {
            Move::Move { card, src, dst } => (card, src, dst),
            Move::Discard { card } => {
                return self.try_discard(catalogue, card);
            },
        };
        if self.wind_spirit != Some(src) {
            return Err(MoveError::MustMoveWindSpirit);
        }
        if card != extra_card {
            return Err(MoveError::MustUseCard { card: extra_card });
        }
        if out_of_bounds(dst) {
            return Err(MoveError::OutOfBounds);
        }
        let offsets = catalogue.moves(card, false, true);
        if !step_offered(&offsets, src, dst, self.turn) {
            return Err(MoveError::InvalidForCard);
        }
        if self.king_stands_on(dst) {
            return Err(MoveError::WindSpiritOntoMaster);
        }
        let mut pawns = self.player_pawns();
        let mut other_pawns = self.opponent_pawns();
        move_or_swap_pawns(&mut pawns, &mut other_pawns, src, dst, true);
        let updated_board = self.set_pieces(
            self.player_king(),
            pawns,
            self.opponent_king(),
            other_pawns,
            Some(dst),
        ).recycle(card);
        if self.player_king() == Some(self.turn.goal_square()) {
            return Ok(GameState::Finished { winner: self.turn, board: updated_board });
        }
        Ok(GameState::Playing { board: updated_board })
    }

    fn square_at(&self, p: Point) -> (r: GameSquare)
        ensures
            r == self.square(p),
    {
        if self.wind_spirit == Some(p) {
            GameSquare::WindSpirit
        } else if self.blue_king == Some(p) {
            GameSquare::BlueKing
        } else if self.red_king == Some(p) {
            GameSquare::RedKing
        } else if pawn_stands_on(&self.red_pawns, p) {
            GameSquare::RedPawn
        } else if pawn_stands_on(&self.blue_pawns, p) {
            GameSquare::BluePawn
        } else {
            GameSquare::Empty
        }
    }

    fn grid_row(&self, y: i8) -> (r: [GameSquare; 5])
        ensures
            forall|x: int| 0 <= x < 5 ==> #[trigger] r[x] == self.square(Point { x: x as i8, y }),
    {
        [
            self.square_at(Point { x: 0, y }),
            self.square_at(Point { x: 1, y }),
            self.square_at(Point { x: 2, y }),
            self.square_at(Point { x: 3, y }),
            self.square_at(Point { x: 4, y }),
        ]
    }

    /// The board as five rows of five squares; `grid[y][x]` shows what
    /// stands on the square `(x, y)`.
    pub fn to_grid(&self) -> (grid: [[GameSquare; 5]; 5])
        ensures
            forall|x: int, y: int|
                0 <= x < 5 && 0 <= y < 5 ==> #[trigger] grid[y][x] == self.square(
                    Point { x: x as i8, y: y as i8 },
                ),
    {
        [self.grid_row(0), self.grid_row(1), self.grid_row(2), self.grid_row(3), self.grid_row(4)]
    }
}

impl GameState {
    /// Whether the game is over.
    pub fn finished(&self) -> (r: bool)
        ensures
            r == (self is Finished),
    {
        match self {
            GameState::Playing { .. } => false,
            GameState::Finished { .. } => true,
        }
    }

    /// Applies `game_move` to a game in progress; a finished game accepts
    /// no move.
    pub fn try_move(&self, catalogue: &Catalogue, game_move: Move) -> (r: Result<
        GameState,
        MoveError,
    >)
        requires
            self is Playing ==> self.position().wf(),
        ensures
            match r {
                Ok(state) => self.rejection(*catalogue, game_move) is None && self is Playing
                    && state == self.position().outcome(*catalogue, game_move),
                Err(e) => self.rejection(*catalogue, game_move) == Some(e),
            },
    {
        match self {
            GameState::Playing { board } => board.try_move(catalogue, game_move),
            GameState::Finished { .. } => Err(MoveError::GameFinished),
        }
    }
}

} // verus!
