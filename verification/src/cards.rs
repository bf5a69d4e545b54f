//! The card catalogue: which cards exist, how they are grouped into sets,
//! and which steps each card offers.

use crate::models::Card;
use crate::models::CardDirection;
use crate::models::Point;
use vstd::prelude::*;

verus! {

/// Name of the card set that belongs to the Wind Spirit.
pub const WAY_OF_THE_WIND: &'static str = "WayOfTheWind";

/// One card of the catalogue with the steps it offers.  Steps are written as
/// Red plays them; Blue plays every step turned by half a turn.
#[derive(Clone, Debug, PartialEq, Eq)]
pub struct CardDescription {
    pub card: Card,
    pub direction: CardDirection,
    /// Steps for a pawn, and for the Wind Spirit on an ordinary move.
    pub moves: Vec<Point>,
    /// Steps for a king.
    pub king_moves: Vec<Point>,
    /// Steps for the Wind Spirit on an extra move.
    pub extra_moves: Vec<Point>,
}

/// A named group of cards.
#[derive(Clone, Debug, PartialEq, Eq)]
pub struct CardSetDescription {
    pub name: String,
    pub cards: Vec<CardDescription>,
}

/// All card sets a game can draw from.
#[derive(Clone, Debug, PartialEq, Eq)]
pub struct Catalogue {
    pub sets: Vec<CardSetDescription>,
}

/// The first description of `card` among `cards`.
pub open spec fn first_among(cards: Seq<CardDescription>, card: Card) -> Option<CardDescription>
    decreases cards.len(),
{
    if cards.len() == 0 {
        None
    } else if cards[0].card == card {
        Some(cards[0])
    } else {
        first_among(cards.skip(1), card)
    }
}

/// The first description of `card` among the cards of `sets`, set by set.
pub open spec fn first_within(sets: Seq<CardSetDescription>, card: Card) -> Option<
    CardDescription,
>
    decreases sets.len(),
{
    if sets.len() == 0 {
        None
    } else {
        match first_among(sets[0].cards@, card) {
            Some(d) => Some(d),
            None => first_within(sets.skip(1), card),
        }
    }
}

/// Whether `name` is one of `names`.
pub open spec fn listed(names: Seq<String>, name: Seq<char>) -> bool {
    exists|i: int| 0 <= i < names.len() && (#[trigger] names[i])@ == name
}

/// Whether `name` is one of `names`.
pub fn is_listed(names: &Vec<String>, name: &String) -> (r: bool)
    ensures
        r == listed(names@, name@),
{
    let mut i: usize = 0;
    while i < names.len()
        invariant
            i <= names@.len(),
            forall|j: int| 0 <= j < i ==> (#[trigger] names@[j])@ != name@,
        decreases names@.len() - i,
    {
        if names[i] == *name {
            return true;
        }
        i += 1;
    }
    false
}

/// The cards of those of `sets` that are not named in `disabled` and that
/// are the Wind Spirit's set (`wind`) or are not (`!wind`), set by set.
pub open spec fn pool_among(sets: Seq<CardSetDescription>, disabled: Seq<String>, wind: bool) -> Seq<
    Card,
>
    decreases sets.len(),
{
    if sets.len() == 0 {
        Seq::empty()
    } else {
        let before = pool_among(sets.drop_last(), disabled, wind);
        let set = sets.last();
        if set.drawn(disabled, wind) {
            before + set.identities()
        } else {
            before
        }
    }
}

/// Whether no card is listed twice among `sets`, neither within a set nor
/// in two of them.
pub open spec fn distinct_among(sets: Seq<CardSetDescription>) -> bool {
    forall|s1: int, c1: int, s2: int, c2: int|
        0 <= s1 < sets.len() && 0 <= c1 < sets[s1].cards@.len() && 0 <= s2 < sets.len() && 0 <= c2
            < sets[s2].cards@.len() && (#[trigger] sets[s1].cards@[c1]).card == (
        #[trigger] sets[s2].cards@[c2]).card ==> s1 == s2 && c1 == c2
}

/// A pool holds the cards of the sets it is drawn from, and no others.
pub proof fn lemma_pool_members(
    sets: Seq<CardSetDescription>,
    disabled: Seq<String>,
    wind: bool,
    card: Card,
)
    ensures
        pool_among(sets, disabled, wind).contains(card) <==> exists|s: int|
            0 <= s < sets.len() && (#[trigger] sets[s]).drawn(disabled, wind) && sets[s].holds(
                card,
            ),
    decreases sets.len(),
{
    if sets.len() > 0 {
        let before = pool_among(sets.drop_last(), disabled, wind);
        let set = sets.last();
        let pool = pool_among(sets, disabled, wind);
        lemma_pool_members(sets.drop_last(), disabled, wind, card);
        if before.contains(card) {
            let s = choose|s: int|
                0 <= s < sets.drop_last().len() && (#[trigger] sets.drop_last()[s]).drawn(
                    disabled,
                    wind,
                ) && sets.drop_last()[s].holds(card);
            assert(sets[s].drawn(disabled, wind) && sets[s].holds(card));
            let i = choose|i: int| 0 <= i < before.len() && before[i] == card;
            assert(pool[i] == card);
        }
        if set.drawn(disabled, wind) && set.holds(card) {
            let c = choose|c: int| 0 <= c < set.cards@.len() && (#[trigger] set.cards@[c]).card == card;
            assert(set.identities()[c] == card);
            assert(pool[before.len() + c] == card);
        }
        if pool.contains(card) && !before.contains(card) {
            let i = choose|i: int| 0 <= i < pool.len() && pool[i] == card;
            assert(set.drawn(disabled, wind));
            assert(set.cards@[i - before.len()].card == card);
            assert(sets[sets.len() - 1].holds(card));
        }
        if exists|s: int|
            0 <= s < sets.len() && (#[trigger] sets[s]).drawn(disabled, wind) && sets[s].holds(
                card,
            ) {
            let s = choose|s: int|
                0 <= s < sets.len() && (#[trigger] sets[s]).drawn(disabled, wind) && sets[s].holds(
                    card,
                );
            if s < sets.len() - 1 {
                assert(sets.drop_last()[s].drawn(disabled, wind) && sets.drop_last()[s].holds(card));
            }
        }
    }
}

/// Where no card is listed twice, no card occurs twice in a pool.
pub proof fn lemma_pool_distinct(sets: Seq<CardSetDescription>, disabled: Seq<String>, wind: bool)
    requires
        distinct_among(sets),
    ensures
        pool_among(sets, disabled, wind).no_duplicates(),
    decreases sets.len(),
{
    if sets.len() > 0 {
        let rest = sets.drop_last();
        let before = pool_among(rest, disabled, wind);
        let set = sets.last();
        let own = set.identities();
        assert(distinct_among(rest)) by {
            assert forall|s1: int, c1: int, s2: int, c2: int|
                0 <= s1 < rest.len() && 0 <= c1 < rest[s1].cards@.len() && 0 <= s2 < rest.len()
                    && 0 <= c2 < rest[s2].cards@.len() && (#[trigger] rest[s1].cards@[c1]).card == (
                #[trigger] rest[s2].cards@[c2]).card implies s1 == s2 && c1 == c2 by {
                assert(sets[s1].cards@[c1].card == sets[s2].cards@[c2].card);
            }
        }
        lemma_pool_distinct(rest, disabled, wind);
        assert(own.no_duplicates()) by {
            assert forall|i: int, j: int| 0 <= i < own.len() && 0 <= j < own.len() && i != j implies own[i]
                != own[j] by {
                assert(sets[sets.len() - 1].cards@[i].card == own[i]);
                assert(sets[sets.len() - 1].cards@[j].card == own[j]);
            }
        }
        assert forall|i: int, j: int| 0 <= i < before.len() && 0 <= j < own.len() implies before[i]
            != own[j] by {
            if before[i] == own[j] {
                assert(before.contains(own[j]));
                lemma_pool_members(rest, disabled, wind, own[j]);
                let s = choose|s: int|
                    0 <= s < rest.len() && (#[trigger] rest[s]).drawn(disabled, wind)
                        && rest[s].holds(own[j]);
                let c = choose|c: int|
                    0 <= c < rest[s].cards@.len() && (#[trigger] rest[s].cards@[c]).card == own[j];
                assert(sets[s].cards@[c].card == sets[sets.len() - 1].cards@[j].card);
            }
        }
        vstd::seq_lib::lemma_no_dup_in_concat(before, own);
    }
}

impl CardDescription {
    /// The steps the card offers to a piece: the extra-move steps when
    /// `is_extra`, else the king's steps when `is_king`, else the pawn's.
    pub open spec fn offsets(self, is_king: bool, is_extra: bool) -> Seq<Point> {
        if is_extra {
            self.extra_moves@
        } else if is_king {
            self.king_moves@
        } else {
            self.moves@
        }
    }

    /// The steps the card offers to a piece: the extra-move steps when
    /// `is_extra`, else the king's steps when `is_king`, else the pawn's.
    pub fn steps(&self, is_king: bool, is_extra: bool) -> (r: &Vec<Point>)
        ensures
            r@ == self.offsets(is_king, is_extra),
    {
        if is_extra {
            &self.extra_moves
        } else if is_king {
            &self.king_moves
        } else {
            &self.moves
        }
    }
}

impl CardSetDescription {
    /// Whether this is the set that belongs to the Wind Spirit.
    pub open spec fn is_wind_set(self) -> bool {
        self.name@ == WAY_OF_THE_WIND@
    }

    /// Whether the cards of the set go into the pool of Way of the Wind
    /// cards (`wind`) or into the pool of the others (`!wind`) when the
    /// sets named in `disabled` are left out.
    pub open spec fn drawn(self, disabled: Seq<String>, wind: bool) -> bool {
        !listed(disabled, self.name@) && self.is_wind_set() == wind
    }

    /// Whether the set holds `card`.
    pub open spec fn holds(self, card: Card) -> bool {
        exists|i: int| 0 <= i < self.cards@.len() && (#[trigger] self.cards@[i]).card == card
    }

    /// The identities of the cards of the set, in the order of the set.
    pub open spec fn identities(self) -> Seq<Card> {
        Seq::new(self.cards@.len(), |i: int| self.cards@[i].card)
    }

    /// The identities of the cards of the set, in the order of the set.
    pub fn cards(&self) -> (r: Vec<Card>)
        ensures
            r@ == self.identities(),
    {
        let mut out: Vec<Card> = Vec::new();
        let mut i: usize = 0;
        while i < self.cards.len()
            invariant
                i <= self.cards@.len(),
                out@ == self.identities().take(i as int),
            decreases self.cards@.len() - i,
        {
            out.push(self.cards[i].card);
            assert(out@ =~= self.identities().take(i + 1));
            i += 1;
        }
        assert(out@ =~= self.identities());
        out
    }

    /// Whether this is the set that belongs to the Wind Spirit.
    pub fn is_way_of_the_wind(&self) -> (r: bool)
        ensures
            r == self.is_wind_set(),
    {
        let wind = WAY_OF_THE_WIND.to_owned();
        self.name == wind
    }

    /// The first description of `card` in this set.
    pub fn find(&self, card: Card) -> (r: Option<&CardDescription>)
        ensures
            match r {
                Some(d) => first_among(self.cards@, card) == Some(*d),
                None => first_among(self.cards@, card) is None,
            },
            r is Some <==> self.holds(card),
    {
        let mut i: usize = 0;
        assert(self.cards@.skip(0) =~= self.cards@);
        while i < self.cards.len()
            invariant
                i <= self.cards@.len(),
                first_among(self.cards@, card) == first_among(self.cards@.skip(i as int), card),
                forall|j: int| 0 <= j < i ==> (#[trigger] self.cards@[j]).card != card,
            decreases self.cards@.len() - i,
        {
            let d = &self.cards[i];
            assert(self.cards@.skip(i as int)[0] == self.cards@[i as int]);
            if d.card == card {
                return Some(d);
            }
            assert(self.cards@.skip(i as int).skip(1) =~= self.cards@.skip(i + 1));
            i += 1;
        }
        None
    }
}

impl Catalogue {
    /// The description under which the catalogue lists `card`, if it does.
    pub open spec fn described(self, card: Card) -> Option<CardDescription> {
        first_within(self.sets@, card)
    }

    /// The steps that `card` offers; none if the catalogue does not list it.
    pub open spec fn offsets(self, card: Card, is_king: bool, is_extra: bool) -> Seq<Point> {
        match self.described(card) {
            Some(d) => d.offsets(is_king, is_extra),
            None => Seq::empty(),
        }
    }

    /// Whether `card` is a Way of the Wind card.
    pub open spec fn is_wind_card(self, card: Card) -> bool {
        exists|s: int|
            0 <= s < self.sets@.len() && (#[trigger] self.sets@[s]).is_wind_set()
                && self.sets@[s].holds(card)
    }

    /// Whether no card offers a step twice to the same kind of piece.
    pub open spec fn distinct_steps(self) -> bool {
        forall|card: Card, is_king: bool, is_extra: bool| #[trigger]
            self.offsets(card, is_king, is_extra).no_duplicates()
    }

    /// Whether the catalogue lists no card twice.
    pub open spec fn distinct_cards(self) -> bool {
        distinct_among(self.sets@)
    }

    /// The cards a game can draw from when the sets named in `disabled`
    /// are left out: the Way of the Wind cards (`wind`) or the others.
    pub open spec fn pool(self, disabled: Seq<String>, wind: bool) -> Seq<Card> {
        pool_among(self.sets@, disabled, wind)
    }

    /// The cards a game can draw from when the sets named in `disabled`
    /// are left out: the Way of the Wind cards (`wind`) or the others.
    pub fn card_pool(&self, disabled: &Vec<String>, wind: bool) -> (r: Vec<Card>)
        ensures
            r@ == self.pool(disabled@, wind),
    {
        let mut out: Vec<Card> = Vec::new();
        let mut s: usize = 0;
        assert(self.sets@.take(0) =~= Seq::<CardSetDescription>::empty());
        while s < self.sets.len()
            invariant
                s <= self.sets@.len(),
                out@ == pool_among(self.sets@.take(s as int), disabled@, wind),
            decreases self.sets@.len() - s,
        {
            let set = &self.sets[s];
            assert(self.sets@.take(s + 1).drop_last() =~= self.sets@.take(s as int));
            if !is_listed(disabled, &set.name) && set.is_way_of_the_wind() == wind {
                let mut cards = set.cards();
                out.append(&mut cards);
            }
            s += 1;
        }
        assert(self.sets@.take(s as int) =~= self.sets@);
        out
    }

    /// The description under which the catalogue lists `card`, if it does.
    pub fn description(&self, card: Card) -> (r: Option<&CardDescription>)
        ensures
            match r {
                Some(d) => self.described(card) == Some(*d),
                None => self.described(card) is None,
            },
    {
        let mut s: usize = 0;
        assert(self.sets@.skip(0) =~= self.sets@);
        while s < self.sets.len()
            invariant
                s <= self.sets@.len(),
                first_within(self.sets@, card) == first_within(self.sets@.skip(s as int), card),
            decreases self.sets@.len() - s,
        {
            assert(self.sets@.skip(s as int)[0] == self.sets@[s as int]);
            let found = self.sets[s].find(card);
            if found.is_some() {
                return found;
            }
            assert(self.sets@.skip(s as int).skip(1) =~= self.sets@.skip(s + 1));
            s += 1;
        }
        None
    }

    /// The steps that `card` offers; none if the catalogue does not list it.
    pub fn moves(&self, card: Card, is_king: bool, is_extra: bool) -> (r: Vec<Point>)
        ensures
            r@ == self.offsets(card, is_king, is_extra),
    {
        let mut out: Vec<Point> = Vec::new();
        match self.description(card) {
            Some(d) => {
                let steps = d.steps(is_king, is_extra);
                let mut i: usize = 0;
                while i < steps.len()
                    invariant
                        i <= steps@.len(),
                        out@ == steps@.take(i as int),
                    decreases steps@.len() - i,
                {
                    out.push(steps[i]);
                    assert(steps@.take(i + 1) =~= steps@.take(i as int).push(steps@[i as int]));
                    i += 1;
                }
                assert(steps@.take(i as int) =~= steps@);
            },
            None => {},
        }
        out
    }

    /// Whether `card` is a Way of the Wind card.
    pub fn is_way_of_the_wind(&self, card: Card) -> (r: bool)
        ensures
            r == self.is_wind_card(card),
    {
        let mut s: usize = 0;
        while s < self.sets.len()
            invariant
                s <= self.sets@.len(),
                forall|t: int|
                    0 <= t < s ==> !((#[trigger] self.sets@[t]).is_wind_set() && self.sets@[t].holds(
                        card,
                    )),
            decreases self.sets@.len() - s,
        {
            if self.sets[s].is_way_of_the_wind() && self.sets[s].find(card).is_some() {
                return true;
            }
            s += 1;
        }
        false
    }
}

} // verus!
