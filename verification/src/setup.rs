//! Setting up a game: which cards are dealt and where the pieces start.

use crate::cards::is_listed;
use crate::cards::lemma_pool_distinct;
use crate::cards::lemma_pool_members;
use crate::cards::listed;
use crate::cards::Catalogue;
use crate::cards::WAY_OF_THE_WIND;
use crate::models::Board;
use crate::models::Card;
use crate::models::GameSettings;
use crate::models::GameState;
use crate::models::Player;
use crate::models::Point;
use crate::random::draw_between;
use crate::random::draw_ratio;
use crate::random::shuffle;
use vstd::prelude::*;

verus! {

/// Which of the five cards of a deal are Way of the Wind cards when
/// `count` of them are to be.  The cards are dealt in the order Red, Red,
/// Blue, Blue, spare.  From two on, the first card of either hand is one;
/// from four on, the second too; and with an odd count the spare is one.
pub open spec fn wind_slots(count: int) -> Seq<bool> {
    seq![count >= 2, count >= 4, count >= 2, count >= 4, count % 2 == 1]
}

/// The cards that a deal takes for `slots`, each from the end of its pool:
/// a Way of the Wind card from `wind` where the slot says so, else a card
/// from `other`.
pub open spec fn dealt(wind: Seq<Card>, other: Seq<Card>, slots: Seq<bool>) -> Seq<Card>
    decreases slots.len(),
{
    if slots.len() == 0 {
        Seq::empty()
    } else if slots[0] {
        seq![wind.last()] + dealt(wind.drop_last(), other, slots.skip(1))
    } else {
        seq![other.last()] + dealt(wind, other.drop_last(), slots.skip(1))
    }
}

/// The position a game starts from: the kings on their home squares with
/// two pawns on either side, the Wind Spirit in the centre if it is in
/// play, `cards` dealt to Red, Red, Blue, Blue and the spare, and Red to
/// move.
pub open spec fn opening(wind_spirit: bool, cards: Seq<Card>) -> Board {
    Board {
        wind_spirit: if wind_spirit {
            Some(Point { x: 2, y: 2 })
        } else {
            None
        },
        blue_king: Some(Point { x: 2, y: 0 }),
        blue_pawns: [
            Some(Point { x: 0, y: 0 }),
            Some(Point { x: 1, y: 0 }),
            Some(Point { x: 3, y: 0 }),
            Some(Point { x: 4, y: 0 }),
        ],
        blue_hand: [cards[2], cards[3]],
        red_king: Some(Point { x: 2, y: 4 }),
        red_pawns: [
            Some(Point { x: 0, y: 4 }),
            Some(Point { x: 1, y: 4 }),
            Some(Point { x: 3, y: 4 }),
            Some(Point { x: 4, y: 4 }),
        ],
        red_hand: [cards[0], cards[1]],
        spare_card: cards[4],
        turn: Player::Red,
        extra_move_pending: false,
        extra_move_card: None,
    }
}

/// How many Way of the Wind cards a roll of the hundred-sided die deals,
/// the sides numbered from nought: none with a chance of 10 %, one with 15 %, two with 35 %, three with
/// 15 %, four with 15 % and five with 10 %.
pub open spec fn wind_count_for(roll: int) -> int {
    if roll < 10 {
        0
    } else if roll < 25 {
        1
    } else if roll < 60 {
        2
    } else if roll < 75 {
        3
    } else if roll < 90 {
        4
    } else {
        5
    }
}

/// The odds at which the Wind Spirit joins a game that neither forces it nor
/// leaves its card set out: one in four.
pub fn wind_spirit_odds() -> (r: (u32, u32))
    ensures
        r == (1u32, 4u32),
{
    (1, 4)
}

/// The number of sides of the die that decides how many Way of the Wind
/// cards are dealt: a hundred, numbered from nought.
pub fn wind_die() -> (r: u32)
    ensures
        r == 100u32,
{
    100
}

/// How many Way of the Wind cards a roll of the hundred-sided die deals.
pub fn wind_card_count(roll: u32) -> (r: u8)
    requires
        roll < 100,
    ensures
        r == wind_count_for(roll as int),
        r <= 5,
{
    if roll < 10 {
        0
    } else if roll < 25 {
        1
    } else if roll < 60 {
        2
    } else if roll < 75 {
        3
    } else if roll < 90 {
        4
    } else {
        5
    }
}

/// Takes the last card of the pool that `from_wind` names.
fn take_card(wind: &mut Vec<Card>, other: &mut Vec<Card>, from_wind: bool) -> (r: Card)
    requires
        if from_wind {
            old(wind)@.len() > 0
        } else {
            old(other)@.len() > 0
        },
    ensures
        from_wind ==> r == old(wind)@.last(),
        from_wind ==> final(wind)@ == old(wind)@.drop_last(),
        from_wind ==> final(other)@ == old(other)@,
        !from_wind ==> r == old(other)@.last(),
        !from_wind ==> final(other)@ == old(other)@.drop_last(),
        !from_wind ==> final(wind)@ == old(wind)@,
{
    if from_wind {
        wind.pop().unwrap()
    } else {
        other.pop().unwrap()
    }
}

/// Whether a game may start with the Wind Spirit on the board or without it
/// (`wind_spirit`) and with `count` Way of the Wind cards dealt, given
/// whether the Wind Spirit's card set is in the game (`wind_enabled`),
/// whether the Wind Spirit is forced onto the board (`force`) and the
/// number of Way of the Wind cards asked for (`number`).  The Wind Spirit
/// needs its card set, and is there for certain where it is forced.
/// With it, the count is the one asked for, or any up to five where none
/// is; without it no such card is dealt.
pub open spec fn setup_allowed(
    wind_enabled: bool,
    force: bool,
    number: Option<u8>,
    wind_spirit: bool,
    count: int,
) -> bool {
    &&& wind_spirit ==> wind_enabled
    &&& wind_enabled && force ==> wind_spirit
    &&& if wind_spirit {
        match number {
            Some(n) => count == n,
            None => 0 <= count <= 5,
        }
    } else {
        count == 0
    }
}

impl GameSettings {
    /// Whether the settings leave the Wind Spirit's card set in the game.
    pub open spec fn wind_enabled(self) -> bool {
        !listed(self.disabled_card_sets@, WAY_OF_THE_WIND@)
    }

    /// Whether the Wind Spirit is on the board when the draw for it came
    /// out as `drawn`: it needs its card set, and is then there where it
    /// is forced or drawn.
    pub open spec fn includes_wind_spirit(self, drawn: bool) -> bool {
        self.wind_enabled() && (self.force_wind_spirit_inclusion || drawn)
    }

    /// How many Way of the Wind cards are dealt with the Wind Spirit on
    /// the board or without it (`wind_spirit`) when the die shows `roll`:
    /// none without it; with it the number asked for, or what the roll
    /// gives where none is.
    pub open spec fn wind_cards_for(self, wind_spirit: bool, roll: int) -> int {
        if wind_spirit {
            match self.number_of_wind_cards {
                Some(n) => n as int,
                None => wind_count_for(roll),
            }
        } else {
            0
        }
    }

    /// Whether the settings leave the Wind Spirit's card set in the game.
    pub fn has_wind_set(&self) -> (r: bool)
        ensures
            r == self.wind_enabled(),
    {
        let wind_name = WAY_OF_THE_WIND.to_owned();
        !is_listed(&self.disabled_card_sets, &wind_name)
    }

    /// Whether the Wind Spirit is on the board when the draw for it came
    /// out as `drawn`.
    pub fn wind_spirit_included(&self, drawn: bool) -> (r: bool)
        ensures
            r == self.includes_wind_spirit(drawn),
    {
        self.has_wind_set() && (self.force_wind_spirit_inclusion || drawn)
    }

    /// How many Way of the Wind cards are dealt with the Wind Spirit on
    /// the board or without it (`wind_spirit`) when the die shows `roll`.
    pub fn wind_cards_dealt(&self, wind_spirit: bool, roll: u32) -> (r: u8)
        requires
            roll < 100,
        ensures
            r == self.wind_cards_for(wind_spirit, roll as int),
    {
        if wind_spirit {
            match self.number_of_wind_cards {
                Some(n) => n,
                None => wind_card_count(roll),
            }
        } else {
            0
        }
    }

    /// Whether a game under these settings may start with the Wind Spirit
    /// on the board or without it (`wind_spirit`) and with `count` Way of
    /// the Wind cards dealt.
    pub open spec fn allows(self, wind_spirit: bool, count: int) -> bool {
        setup_allowed(
            self.wind_enabled(),
            self.force_wind_spirit_inclusion,
            self.number_of_wind_cards,
            wind_spirit,
            count,
        )
    }
}

impl Catalogue {
    /// Whether the pools hold the cards for a deal with `count` Way of
    /// the Wind cards when the sets named in `disabled` are left out.
    pub open spec fn covers(self, disabled: Seq<String>, count: int) -> bool {
        &&& 0 <= count <= 5
        &&& self.pool(disabled, true).len() >= count
        &&& self.pool(disabled, false).len() >= 5 - count
    }

    /// Whether every game that `settings` allow can be dealt from the
    /// catalogue.
    pub open spec fn deals(self, settings: GameSettings) -> bool {
        forall|wind_spirit: bool, count: int| #[trigger]
            settings.allows(wind_spirit, count) ==> self.covers(
                settings.disabled_card_sets@,
                count,
            )
    }

    /// Whether `board` is the opening of a game under `settings` with the
    /// Wind Spirit in play or not (`wind_spirit`), `count` Way of the Wind
    /// cards, and the pools shuffled into `wind` and `other`.
    pub open spec fn is_opening(
        self,
        settings: GameSettings,
        wind_spirit: bool,
        count: int,
        wind: Seq<Card>,
        other: Seq<Card>,
        board: Board,
    ) -> bool {
        &&& settings.allows(wind_spirit, count)
        &&& wind.to_multiset() == self.pool(settings.disabled_card_sets@, true).to_multiset()
        &&& other.to_multiset() == self.pool(settings.disabled_card_sets@, false).to_multiset()
        &&& board == opening(wind_spirit, dealt(wind, other, wind_slots(count)))
    }

    /// Whether a game under `settings` may start from `board`: the
    /// settings allow the choice of Wind Spirit and of the number of Way
    /// of the Wind cards, and the cards come off the two pools in some
    /// order of theirs.
    pub open spec fn opens(self, settings: GameSettings, board: Board) -> bool {
        exists|wind_spirit: bool, count: int, wind: Seq<Card>, other: Seq<Card>| #[trigger]
            self.is_opening(settings, wind_spirit, count, wind, other, board)
    }

    /// Whether every game that `settings` allow can be dealt from the
    /// catalogue.
    pub fn supports(&self, settings: &GameSettings) -> (r: bool)
        ensures
            r == self.deals(*settings),
    {
        let wind_enabled = settings.has_wind_set();
        let wind = self.card_pool(&settings.disabled_card_sets, true).len();
        let other = self.card_pool(&settings.disabled_card_sets, false).len();
        let without = other >= 5;
        let with = match settings.number_of_wind_cards {
            Some(n) => n <= 5 && wind >= n as usize && other >= 5 - n as usize,
            None => wind >= 5 && other >= 5,
        };
        let r = if !wind_enabled {
            without
        } else if settings.force_wind_spirit_inclusion {
            with
        } else {
            with && without
        };
        proof {
            let disabled = settings.disabled_card_sets@;
            if r {
                assert forall|wind_spirit: bool, count: int| #[trigger]
                    settings.allows(wind_spirit, count) implies self.covers(disabled, count) by {}
            } else {
                if !without && !(wind_enabled && settings.force_wind_spirit_inclusion) {
                    assert(settings.allows(false, 0));
                } else {
                    match settings.number_of_wind_cards {
                        Some(n) => {
                            assert(settings.allows(true, n as int));
                        },
                        None => {
                            assert(settings.allows(true, 5));
                            assert(settings.allows(true, 0));
                        },
                    }
                }
            }
        }
        r
    }
}

impl Board {
    /// Deals a game from shuffled pools: `count` Way of the Wind cards
    /// from the end of `wind`, the others from the end of `other`.
    pub fn deal(wind_spirit: bool, count: u8, wind: Vec<Card>, other: Vec<Card>) -> (r: Board)
        requires
            count <= 5,
            wind@.len() >= count,
            other@.len() >= 5 - count,
        ensures
            r == opening(wind_spirit, dealt(wind@, other@, wind_slots(count as int))),
    {
        let mut wind = wind;
        let mut other = other;
        let ghost slots = wind_slots(count as int);
        let ghost cards = dealt(wind@, other@, slots);
        proof {
            reveal_with_fuel(dealt, 6);
            assert(slots.skip(1).skip(1) =~= slots.skip(2));
            assert(slots.skip(2).skip(1) =~= slots.skip(3));
            assert(slots.skip(3).skip(1) =~= slots.skip(4));
            assert(slots.skip(4).skip(1) =~= slots.skip(5));
        }
        let red0 = take_card(&mut wind, &mut other, count >= 2);
        let red1 = take_card(&mut wind, &mut other, count >= 4);
        let blue0 = take_card(&mut wind, &mut other, count >= 2);
        let blue1 = take_card(&mut wind, &mut other, count >= 4);
        let spare = take_card(&mut wind, &mut other, count % 2 == 1);
        assert(cards =~= seq![red0, red1, blue0, blue1, spare]);
        Board {
            wind_spirit: if wind_spirit {
                Some(Point { x: 2, y: 2 })
            } else {
                None
            },
            blue_king: Some(Point { x: 2, y: 0 }),
            blue_pawns: [
                Some(Point { x: 0, y: 0 }),
                Some(Point { x: 1, y: 0 }),
                Some(Point { x: 3, y: 0 }),
                Some(Point { x: 4, y: 0 }),
            ],
            blue_hand: [blue0, blue1],
            red_king: Some(Point { x: 2, y: 4 }),
            red_pawns: [
                Some(Point { x: 0, y: 4 }),
                Some(Point { x: 1, y: 4 }),
                Some(Point { x: 3, y: 4 }),
                Some(Point { x: 4, y: 4 }),
            ],
            red_hand: [red0, red1],
            spare_card: spare,
            turn: Player::Red,
            extra_move_pending: false,
            extra_move_card: None,
        }
    }

    /// Sets up a game under `settings` with cards from `catalogue`.
    /// Unless its card set is left out, the Wind Spirit is on the board
    /// where the settings force it, and else with a chance of one in
    /// four.  With it, as many Way of the Wind cards are dealt as the
    /// settings ask for, or as a roll of a hundred-sided die gives.  The
    /// two pools are shuffled before the deal.
    pub fn new_with_settings(settings: GameSettings, catalogue: &Catalogue) -> (r: Board)
        requires
            catalogue.deals(settings),
        ensures
            catalogue.opens(settings, r),
    {
        let mut rng = rand::thread_rng();
        let odds = wind_spirit_odds();
        let drawn = settings.has_wind_set() && !settings.force_wind_spirit_inclusion && draw_ratio(
            &mut rng,
            odds.0,
            odds.1,
        );
        let include_wind_spirit = settings.wind_spirit_included(drawn);
        let mut wind = catalogue.card_pool(&settings.disabled_card_sets, true);
        let mut other = catalogue.card_pool(&settings.disabled_card_sets, false);
        let roll: u32 = if include_wind_spirit && settings.number_of_wind_cards.is_none() {
            draw_between(&mut rng, 0, wind_die())
        } else {
            0
        };
        let count = settings.wind_cards_dealt(include_wind_spirit, roll);
        assert(settings.allows(include_wind_spirit, count as int));
        let ghost wind_pool = wind@;
        let ghost other_pool = other@;
        shuffle(&mut wind, &mut rng);
        shuffle(&mut other, &mut rng);
        proof {
            wind@.to_multiset_ensures();
            other@.to_multiset_ensures();
            wind_pool.to_multiset_ensures();
            other_pool.to_multiset_ensures();
        }
        let ghost wind_order = wind@;
        let ghost other_order = other@;
        let board = Board::deal(include_wind_spirit, count, wind, other);
        assert(catalogue.is_opening(
            settings,
            include_wind_spirit,
            count as int,
            wind_order,
            other_order,
            board,
        ));
        board
    }

    /// Sets up a game under the default settings: every card set is in
    /// the game and the rest is left to chance.
    pub fn new(catalogue: &Catalogue) -> (r: Board)
        requires
            catalogue.covers(Seq::empty(), 0),
            catalogue.covers(Seq::empty(), 5),
        ensures
            exists|settings: GameSettings|
                settings.disabled_card_sets@.len() == 0 && !settings.force_wind_spirit_inclusion
                    && settings.number_of_wind_cards is None && #[trigger] catalogue.opens(
                    settings,
                    r,
                ),
    {
        let settings = GameSettings::default();
        assert(settings.disabled_card_sets@ =~= Seq::empty());
        let ghost chosen = settings;
        let r = Board::new_with_settings(settings, catalogue);
        assert(catalogue.opens(chosen, r));
        r
    }
}

impl GameState {
    /// A new game under the default settings.
    pub fn new(catalogue: &Catalogue) -> (r: GameState)
        requires
            catalogue.covers(Seq::empty(), 0),
            catalogue.covers(Seq::empty(), 5),
        ensures
            r is Playing,
            exists|settings: GameSettings|
                settings.disabled_card_sets@.len() == 0 && !settings.force_wind_spirit_inclusion
                    && settings.number_of_wind_cards is None && #[trigger] catalogue.opens(
                    settings,
                    r.position(),
                ),
    {
        GameState::Playing { board: Board::new(catalogue) }
    }

    /// A new game under `settings`.
    pub fn new_with_settings(settings: GameSettings, catalogue: &Catalogue) -> (r: GameState)
        requires
            catalogue.deals(settings),
        ensures
            r is Playing,
            catalogue.opens(settings, r.position()),
    {
        GameState::Playing { board: Board::new_with_settings(settings, catalogue) }
    }
}

/// A deal takes five cards, each from the pool that its slot names, and
/// takes no card twice where neither pool holds a card twice and the two
/// share none.
proof fn lemma_dealt(wind: Seq<Card>, other: Seq<Card>, count: int)
    requires
        0 <= count <= 5,
        wind.len() >= count,
        other.len() >= 5 - count,
    ensures
        ({
            let slots = wind_slots(count);
            let cards = dealt(wind, other, slots);
            &&& cards.len() == 5
            &&& forall|k: int|
                0 <= k < 5 ==> if slots[k] {
                    wind.contains(#[trigger] cards[k])
                } else {
                    other.contains(cards[k])
                }
            &&& wind.no_duplicates() && other.no_duplicates() && (forall|i: int, j: int|
                0 <= i < wind.len() && 0 <= j < other.len() ==> wind[i] != other[j])
                ==> cards.no_duplicates()
        }),
{
    let slots = wind_slots(count);
    let cards = dealt(wind, other, slots);
    let w = wind.len() as int;
    let o = other.len() as int;
    reveal_with_fuel(dealt, 6);
    assert(slots.skip(1).skip(1) =~= slots.skip(2));
    assert(slots.skip(2).skip(1) =~= slots.skip(3));
    assert(slots.skip(3).skip(1) =~= slots.skip(4));
    assert(slots.skip(4).skip(1) =~= slots.skip(5));
    let c0 = if count >= 2 {
        wind[w - 1]
    } else {
        other[o - 1]
    };
    let c1 = if count >= 4 {
        wind[w - 2]
    } else if count >= 2 {
        other[o - 1]
    } else {
        other[o - 2]
    };
    let c2 = if count >= 4 {
        wind[w - 3]
    } else if count >= 2 {
        wind[w - 2]
    } else {
        other[o - 3]
    };
    let c3 = if count >= 4 {
        wind[w - 4]
    } else if count >= 2 {
        other[o - 2]
    } else {
        other[o - 4]
    };
    let c4 = if count == 5 {
        wind[w - 5]
    } else if count == 4 {
        other[o - 1]
    } else if count == 3 {
        wind[w - 3]
    } else if count == 2 {
        other[o - 3]
    } else if count == 1 {
        wind[w - 1]
    } else {
        other[o - 5]
    };
    assert(cards =~= seq![c0, c1, c2, c3, c4]);
}

/// A game opens on a valid position.  The Wind Spirit is on the board or
/// not, and as many Way of the Wind cards are dealt, as the settings
/// allow; and every card comes from the pool of its kind.  This holds
/// where the catalogue lists no card twice.
pub proof fn law_opening(catalogue: Catalogue, settings: GameSettings, board: Board)
    requires
        catalogue.distinct_cards(),
        catalogue.deals(settings),
        catalogue.opens(settings, board),
    ensures
        board.valid(),
        settings.allows(board.wind_spirit is Some, board.wind_cards(catalogue)),
        forall|k: int|
            0 <= k < 5 ==> catalogue.pool(
                settings.disabled_card_sets@,
                catalogue.is_wind_card(#[trigger] board.cards()[k]),
            ).contains(board.cards()[k]),
{
    let disabled = settings.disabled_card_sets@;
    let (wind_spirit, count, wind, other) = choose|
        wind_spirit: bool,
        count: int,
        wind: Seq<Card>,
        other: Seq<Card>,
    | #[trigger] catalogue.is_opening(settings, wind_spirit, count, wind, other, board);
    let wind_pool = catalogue.pool(disabled, true);
    let other_pool = catalogue.pool(disabled, false);
    assert(catalogue.covers(disabled, count));
    wind.to_multiset_ensures();
    other.to_multiset_ensures();
    wind_pool.to_multiset_ensures();
    other_pool.to_multiset_ensures();
    lemma_pool_distinct(catalogue.sets@, disabled, true);
    lemma_pool_distinct(catalogue.sets@, disabled, false);
    wind_pool.lemma_multiset_has_no_duplicates();
    other_pool.lemma_multiset_has_no_duplicates();
    wind.lemma_multiset_has_no_duplicates_conv();
    other.lemma_multiset_has_no_duplicates_conv();
    assert forall|card: Card| wind.contains(card) implies wind_pool.contains(card)
        && catalogue.is_wind_card(card) by {
        assert(wind.to_multiset().count(card) > 0);
        lemma_pool_members(catalogue.sets@, disabled, true, card);
    }
    assert forall|card: Card| other.contains(card) implies other_pool.contains(card)
        && !catalogue.is_wind_card(card) by {
        assert(other.to_multiset().count(card) > 0);
        lemma_pool_members(catalogue.sets@, disabled, false, card);
        if catalogue.is_wind_card(card) {
            let sets = catalogue.sets@;
            let s = choose|s: int|
                0 <= s < sets.len() && (#[trigger] sets[s]).drawn(disabled, false) && sets[s].holds(
                    card,
                );
            let t = choose|t: int|
                0 <= t < sets.len() && (#[trigger] sets[t]).is_wind_set() && sets[t].holds(card);
            let c = choose|c: int|
                0 <= c < sets[s].cards@.len() && (#[trigger] sets[s].cards@[c]).card == card;
            let d = choose|d: int|
                0 <= d < sets[t].cards@.len() && (#[trigger] sets[t].cards@[d]).card == card;
            assert(sets[s].cards@[c].card == sets[t].cards@[d].card);
        }
    }
    assert forall|i: int, j: int| 0 <= i < wind.len() && 0 <= j < other.len() implies wind[i]
        != other[j] by {
        assert(wind.contains(wind[i]));
        assert(other.contains(other[j]));
    }
    lemma_dealt(wind, other, count);
    let cards = dealt(wind, other, wind_slots(count));
    assert(board.cards() =~= cards);
    assert(wind_slots(count)[0] == (count >= 2));
    assert(wind.contains(cards[0]) || other.contains(cards[0]));
    assert(wind.contains(cards[1]) || other.contains(cards[1]));
    assert(wind.contains(cards[2]) || other.contains(cards[2]));
    assert(wind.contains(cards[3]) || other.contains(cards[3]));
    assert(wind.contains(cards[4]) || other.contains(cards[4]));
    assert(board.well_placed()) by {
        assert forall|p: Point| #[trigger]
            board.pieces_on(p) <= if p.on_board() {
                1int
            } else {
                0int
            } by {}
    }
}

} // verus!
