//! The data model: squares, players, cards, moves and positions.

use vstd::prelude::*;
use vstd::std_specs::ops::AddSpecImpl;
use vstd::std_specs::ops::NegSpecImpl;
use vstd::std_specs::ops::SubSpecImpl;

verus! {

/// A square of the board, or an offset between two squares.
#[derive(Clone, Copy, Debug, PartialEq, Eq, Hash, Structural)]
pub struct Point {
    pub x: i8,
    pub y: i8,
}

impl Point {
    /// Whether the point names one of the 25 squares of the board.
    pub open spec fn on_board(self) -> bool {
        0 <= self.x <= 4 && 0 <= self.y <= 4
    }

    /// Whether the point names one of the 25 squares of the board.
    pub fn in_bounds(&self) -> (r: bool)
        ensures
            r == self.on_board(),
    {
        0 <= self.x && self.x <= 4 && 0 <= self.y && self.y <= 4
    }
}

impl core::ops::Add for Point {
    type Output = Point;

    fn add(self, rhs: Point) -> (r: Point) {
        Point { x: self.x + rhs.x, y: self.y + rhs.y }
    }
}

impl AddSpecImpl for Point {
    open spec fn obeys_add_spec() -> bool {
        true
    }

    open spec fn add_req(self, rhs: Point) -> bool {
        &&& i8::MIN <= self.x + rhs.x <= i8::MAX
        &&& i8::MIN <= self.y + rhs.y <= i8::MAX
    }

    open spec fn add_spec(self, rhs: Point) -> Point {
        Point { x: (self.x + rhs.x) as i8, y: (self.y + rhs.y) as i8 }
    }
}

impl core::ops::Sub for Point {
    type Output = Point;

    fn sub(self, rhs: Point) -> (r: Point) {
        Point { x: self.x - rhs.x, y: self.y - rhs.y }
    }
}

impl SubSpecImpl for Point {
    open spec fn obeys_sub_spec() -> bool {
        true
    }

    open spec fn sub_req(self, rhs: Point) -> bool {
        &&& i8::MIN <= self.x - rhs.x <= i8::MAX
        &&& i8::MIN <= self.y - rhs.y <= i8::MAX
    }

    open spec fn sub_spec(self, rhs: Point) -> Point {
        Point { x: (self.x - rhs.x) as i8, y: (self.y - rhs.y) as i8 }
    }
}

impl core::ops::Neg for Point {
    type Output = Point;

    fn neg(self) -> (r: Point) {
        Point { x: -self.x, y: -self.y }
    }
}

impl NegSpecImpl for Point {
    open spec fn obeys_neg_spec() -> bool {
        true
    }

    open spec fn neg_req(self) -> bool {
        self.x != i8::MIN && self.y != i8::MIN
    }

    open spec fn neg_spec(self) -> Point {
        Point { x: (-self.x) as i8, y: (-self.y) as i8 }
    }
}

/// One of the two sides.  Red moves first and sits on the far rank.
#[derive(Clone, Copy, Debug, PartialEq, Eq, Hash, Structural)]
pub enum Player {
    Red,
    Blue,
}

impl Player {
    /// The other side.
    pub open spec fn other(self) -> Player {
        match self {
            Player::Red => Player::Blue,
            Player::Blue => Player::Red,
        }
    }

    /// The square on which this side's king starts.
    pub open spec fn home(self) -> Point {
        match self {
            Player::Red => Point { x: 2, y: 4 },
            Player::Blue => Point { x: 2, y: 0 },
        }
    }

    /// The square this side's king has to reach: the opponent's home.
    pub open spec fn goal(self) -> Point {
        self.other().home()
    }

    /// The other side.
    pub fn invert(&self) -> (r: Player)
        ensures
            r == self.other(),
    {
        match self {
            Player::Red => Player::Blue,
            Player::Blue => Player::Red,
        }
    }

    /// The square this side's king has to reach to win by arrival.
    pub fn goal_square(&self) -> (r: Point)
        ensures
            r == self.goal(),
    {
        match self {
            Player::Red => Point { x: 2, y: 0 },
            Player::Blue => Point { x: 2, y: 4 },
        }
    }
}

/// The identity of a card.  What a card lets a piece do is looked up in a
/// catalogue; the engine itself only compares identities.
#[derive(Clone, Copy, Debug, PartialEq, Eq, Hash, Structural)]
pub struct Card {
    pub id: u16,
}

/// Which way a card leans, as printed on it.
#[derive(Clone, Copy, Debug, PartialEq, Eq, Hash, Structural)]
pub enum CardDirection {
    Right,
    Left,
    Balanced,
}

/// What a player submits on their turn.
#[derive(Clone, Copy, Debug, PartialEq, Eq, Hash, Structural)]
pub enum Move {
    /// Move the piece on `src` to `dst` by way of `card`.
    Move { card: Card, src: Point, dst: Point },
    /// Give up the turn and pass `card` on; legal only when no move is.
    Discard { card: Card },
}

/// What stands on one square of the grid.
#[derive(Clone, Copy, Debug, PartialEq, Eq, Hash, Structural)]
pub enum GameSquare {
    Empty,
    RedPawn,
    RedKing,
    BluePawn,
    BlueKing,
    WindSpirit,
}

/// Why a submitted move was turned down.
#[derive(Clone, Copy, Debug, PartialEq, Eq, Hash, Structural)]
pub enum MoveError {
    /// A discard was submitted although a move is possible.
    ValidMovesExist,
    /// The card is not in the mover's hand.
    CardNotInHand,
    /// None of the mover's pieces stands on the source square.
    NoPieceAtSource,
    /// The Wind Spirit was asked to move by a Way of the Wind card.
    WindSpiritWindCard,
    /// The destination is off the board.
    OutOfBounds,
    /// The card does not offer this step to this piece.
    InvalidForCard,
    /// The Wind Spirit was asked to step onto a king.
    WindSpiritOntoMaster,
    /// One of the mover's own pieces stands on the destination.
    OccupiedByOwnPiece,
    /// An extra move is owed and the source is not the Wind Spirit's square.
    MustMoveWindSpirit,
    /// An extra move is owed and has to be made with `card`.
    MustUseCard { card: Card },
    /// The game is over.
    GameFinished,
}

impl MoveError {
    /// The reason in words.
    pub open spec fn text(self) -> Seq<char> {
        match self {
            MoveError::ValidMovesExist => "Valid moves exist"@,
            MoveError::CardNotInHand => "Card not in hand"@,
            MoveError::NoPieceAtSource => "No piece at source"@,
            MoveError::WindSpiritWindCard => "Wind Spirit cannot use a Way of the Wind card to move"@,
            MoveError::OutOfBounds => "Destination is out of bounds"@,
            MoveError::InvalidForCard => "Move not valid for card"@,
            MoveError::WindSpiritOntoMaster => "Wind Spirit cannot move onto a Master!"@,
            MoveError::OccupiedByOwnPiece => "Destination occupied by your piece"@,
            MoveError::MustMoveWindSpirit => "You must move the Wind Spirit"@,
            MoveError::MustUseCard { .. } => "Must use the extra move card to move"@,
            MoveError::GameFinished => "Game already finished"@,
        }
    }

    /// The reason in words, for the player.
    pub fn message(&self) -> (r: String)
        ensures
            r@ == self.text(),
    {
        match self {
            MoveError::ValidMovesExist => "Valid moves exist".to_owned(),
            MoveError::CardNotInHand => "Card not in hand".to_owned(),
            MoveError::NoPieceAtSource => "No piece at source".to_owned(),
            MoveError::WindSpiritWindCard => "Wind Spirit cannot use a Way of the Wind card to move".to_owned(),
            MoveError::OutOfBounds => "Destination is out of bounds".to_owned(),
            MoveError::InvalidForCard => "Move not valid for card".to_owned(),
            MoveError::WindSpiritOntoMaster => "Wind Spirit cannot move onto a Master!".to_owned(),
            MoveError::OccupiedByOwnPiece => "Destination occupied by your piece".to_owned(),
            MoveError::MustMoveWindSpirit => "You must move the Wind Spirit".to_owned(),
            MoveError::MustUseCard { .. } => "Must use the extra move card to move".to_owned(),
            MoveError::GameFinished => "Game already finished".to_owned(),
        }
    }
}

/// How a new game is to be set up.
#[derive(Clone, Debug, PartialEq, Eq)]
pub struct GameSettings {
    /// Names of the card sets to leave out.
    pub disabled_card_sets: Vec<String>,
    /// Put the Wind Spirit on the board instead of leaving it to chance.
    pub force_wind_spirit_inclusion: bool,
    /// How many of the five dealt cards are Way of the Wind cards, when the
    /// Wind Spirit is on the board; left to chance if absent.
    pub number_of_wind_cards: Option<u8>,
}

impl Default for GameSettings {
    fn default() -> (r: GameSettings)
        ensures
            r.disabled_card_sets@.len() == 0,
            !r.force_wind_spirit_inclusion,
            r.number_of_wind_cards is None,
    {
        GameSettings {
            disabled_card_sets: Vec::new(),
            force_wind_spirit_inclusion: false,
            number_of_wind_cards: None,
        }
    }
}

/// One position of a game.  A board is a plain value: applying a move yields
/// a new board and leaves the old one as it was.
#[derive(Clone, Copy, Debug, PartialEq, Eq)]
pub struct Board {
    pub wind_spirit: Option<Point>,
    pub blue_king: Option<Point>,
    pub blue_pawns: [Option<Point>; 4],
    pub blue_hand: [Card; 2],
    pub red_king: Option<Point>,
    pub red_pawns: [Option<Point>; 4],
    pub red_hand: [Card; 2],
    pub spare_card: Card,
    pub turn: Player,
    pub extra_move_pending: bool,
    pub extra_move_card: Option<Card>,
}

/// A game in progress or a game that has been won.
#[derive(Clone, Copy, Debug, PartialEq, Eq)]
pub enum GameState {
    Playing { board: Board },
    Finished { winner: Player, board: Board },
}

} // verus!
