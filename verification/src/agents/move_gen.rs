//! Enumeration of the legal moves of a position and the choice of one of
//! them at random.

use crate::board::step_target;
use crate::cards::Catalogue;
use crate::laws::law_enumerated_moves_are_accepted;
use crate::models::Board;
use crate::models::Card;
use crate::models::Move;
use crate::models::Point;
use crate::random::shuffle;
use rand::rngs::ThreadRng;
use vstd::prelude::*;

verus! {

/// What one more item adds to a filtered sequence.
proof fn lemma_filter_push<A>(s: Seq<A>, x: A, pred: spec_fn(A) -> bool)
    ensures
        s.push(x).filter(pred) == if pred(x) {
            s.filter(pred).push(x)
        } else {
            s.filter(pred)
        },
{
    reveal(Seq::filter);
    assert(s.push(x).drop_last() =~= s);
}

impl Board {
    /// Appends to `out` the accepted moves of the piece on `src` by `card`
    /// along `offsets`.
    fn push_steps(
        &self,
        catalogue: &Catalogue,
        card: Card,
        src: Point,
        extra: bool,
        offsets: &Vec<Point>,
        out: &mut Vec<Move>,
    )
        requires
            extra ==> self.extra_move_card is Some,
            offsets@ == if extra {
                catalogue.offsets(card, false, true)
            } else {
                catalogue.offsets(card, self.mover_king() == Some(src), false)
            },
        ensures
            final(out)@ == old(out)@ + offsets@.filter_map(
                self.stepper(*catalogue, card, src, extra),
            ),
    {
        let ghost f = self.stepper(*catalogue, card, src, extra);
        let ghost before = out@;
        let mut i: usize = 0;
        assert(offsets@.take(0).filter_map(f) =~= Seq::<Move>::empty());
        assert(out@ =~= before + Seq::<Move>::empty());
        while i < offsets.len()
            invariant
                i <= offsets@.len(),
                extra ==> self.extra_move_card is Some,
                f == self.stepper(*catalogue, card, src, extra),
                out@ == before + offsets@.take(i as int).filter_map(f),
            decreases offsets@.len() - i,
        {
            let found = match step_target(src, offsets[i], self.turn) {
                Some(dst) => {
                    let rejection = if extra {
                        self.check_extra_move(catalogue, card, src, dst)
                    } else {
                        self.check_move(catalogue, card, src, dst)
                    };
                    if rejection.is_none() {
                        Some(Move::Move { card, src, dst })
                    } else {
                        None
                    }
                },
                None => None,
            };
            assert(found == f(offsets@[i as int]));
            proof {
                offsets@.lemma_filter_map_take_succ(f, i as int);
            }
            match found {
                Some(m) => {
                    out.push(m);
                    assert(out@ =~= before + offsets@.take(i + 1).filter_map(f));
                },
                None => {
                    assert(out@ =~= before + offsets@.take(i + 1).filter_map(f));
                },
            }
            i += 1;
        }
        assert(offsets@.take(i as int) =~= offsets@);
    }

    /// Appends to `out` the accepted ordinary moves of the piece in `slot`
    /// by `card`.
    fn push_piece_moves(
        &self,
        catalogue: &Catalogue,
        card: Card,
        slot: Option<Point>,
        out: &mut Vec<Move>,
    )
        ensures
            final(out)@ == old(out)@ + self.piece_moves(*catalogue, card, slot),
    {
        match slot {
            Some(src) => {
                let offsets = catalogue.moves(card, self.player_king() == Some(src), false);
                self.push_steps(catalogue, card, src, false, &offsets, out);
            },
            None => {
                assert(out@ =~= old(out)@ + Seq::<Move>::empty());
            },
        }
    }

    /// Appends to `out` the accepted ordinary moves by `card`.
    fn push_card_moves(&self, catalogue: &Catalogue, card: Card, out: &mut Vec<Move>)
        ensures
            final(out)@ == old(out)@ + self.card_moves(*catalogue, card),
    {
        let pawns = self.player_pawns();
        self.push_piece_moves(catalogue, card, self.player_king(), out);
        self.push_piece_moves(catalogue, card, pawns[0], out);
        self.push_piece_moves(catalogue, card, pawns[1], out);
        self.push_piece_moves(catalogue, card, pawns[2], out);
        self.push_piece_moves(catalogue, card, pawns[3], out);
        self.push_piece_moves(catalogue, card, self.wind_spirit, out);
        assert(out@ =~= old(out)@ + self.card_moves(*catalogue, card));
    }

    /// Whether `m` lands on a piece of the side that waits.
    fn is_capture(&self, m: &Move) -> (r: bool)
        ensures
            r == self.captures(*m),
    {
        match m {
            Move::Move { dst, .. } => self.opponent_piece_stands_on(*dst),
            Move::Discard { .. } => false,
        }
    }

    /// Puts the capturing moves before the others and keeps the order
    /// within either group.
    fn captures_first(&self, moves: &Vec<Move>) -> (r: Vec<Move>)
        ensures
            r@ == moves@.filter(self.capturing()) + moves@.filter(self.quiet()),
    {
        let ghost p = self.capturing();
        let ghost q = self.quiet();
        let mut front: Vec<Move> = Vec::new();
        let mut back: Vec<Move> = Vec::new();
        let mut i: usize = 0;
        proof {
            reveal(Seq::filter);
            assert(moves@.take(0) =~= Seq::<Move>::empty());
        }
        while i < moves.len()
            invariant
                i <= moves@.len(),
                p == self.capturing(),
                q == self.quiet(),
                front@ == moves@.take(i as int).filter(p),
                back@ == moves@.take(i as int).filter(q),
            decreases moves@.len() - i,
        {
            let m = moves[i];
            proof {
                lemma_filter_push(moves@.take(i as int), m, p);
                lemma_filter_push(moves@.take(i as int), m, q);
                assert(moves@.take(i + 1) =~= moves@.take(i as int).push(m));
            }
            if self.is_capture(&m) {
                front.push(m);
            } else {
                back.push(m);
            }
            i += 1;
        }
        assert(moves@.take(i as int) =~= moves@);
        let ghost captures = front@;
        let mut j: usize = 0;
        while j < back.len()
            invariant
                j <= back@.len(),
                front@ == captures + back@.take(j as int),
            decreases back@.len() - j,
        {
            front.push(back[j]);
            assert(back@.take(j + 1) =~= back@.take(j as int).push(back@[j as int]));
            j += 1;
        }
        assert(back@.take(j as int) =~= back@);
        front
    }

    /// The legal moves of the position.  While an extra move is owed
    /// these are the Wind Spirit's extra moves.  Otherwise they are the
    /// moves of the mover's pieces, captures first; and where no piece
    /// can move, the discard of either card of the mover's hand.
    pub fn legal_moves(&self, catalogue: &Catalogue) -> (r: Vec<Move>)
        ensures
            r@ == self.legal(*catalogue),
    {
        let mut moves: Vec<Move> = Vec::new();
        if self.extra_move_pending {
            match (self.wind_spirit, self.extra_move_card) {
                (Some(spirit), Some(card)) => {
                    let offsets = catalogue.moves(card, false, true);
                    self.push_steps(catalogue, card, spirit, true, &offsets, &mut moves);
                },
                _ => {},
            }
            assert(moves@ =~= self.extra_moves(*catalogue));
            return moves;
        }
        let hand = self.player_hand();
        self.push_card_moves(catalogue, hand[0], &mut moves);
        self.push_card_moves(catalogue, hand[1], &mut moves);
        assert(moves@ =~= self.candidate_moves(*catalogue));
        if moves.len() > 0 {
            return self.captures_first(&moves);
        }
        moves.push(Move::Discard { card: hand[0] });
        moves.push(Move::Discard { card: hand[1] });
        assert(moves@ =~= self.legal(*catalogue));
        moves
    }

    /// The first of `moves` that the position accepts.
    pub fn first_accepted(&self, catalogue: &Catalogue, moves: &Vec<Move>) -> (r: Option<Move>)
        requires
            self.wf(),
        ensures
            match r {
                Some(m) => exists|i: int|
                    0 <= i < moves@.len() && moves@[i] == m && self.accepts(*catalogue, m)
                        && forall|j: int| 0 <= j < i ==> !self.accepts(*catalogue, #[trigger] moves@[j]),
                None => forall|i: int|
                    0 <= i < moves@.len() ==> !self.accepts(*catalogue, #[trigger] moves@[i]),
            },
    {
        let mut i: usize = 0;
        while i < moves.len()
            invariant
                i <= moves@.len(),
                self.wf(),
                forall|j: int| 0 <= j < i ==> !self.accepts(*catalogue, #[trigger] moves@[j]),
            decreases moves@.len() - i,
        {
            let game_move = moves[i];
            if self.try_move(catalogue, game_move).is_ok() {
                return Some(game_move);
            }
            i += 1;
        }
        None
    }

    /// A legal move picked at random: the legal moves are shuffled and the
    /// first that the position accepts is taken.  There is none only
    /// where nothing is enumerated: while an extra move is owed that the
    /// Wind Spirit cannot make.
    pub fn random_legal_move(&self, catalogue: &Catalogue, rng: &mut ThreadRng) -> (r: Option<
        Move,
    >)
        requires
            self.wf(),
        ensures
            match r {
                Some(m) => self.legal(*catalogue).contains(m) && self.accepts(*catalogue, m),
                None => self.legal(*catalogue).len() == 0,
            },
    {
        let mut moves = self.legal_moves(catalogue);
        shuffle(&mut moves, rng);
        let r = self.first_accepted(catalogue, &moves);
        proof {
            let legal = self.legal(*catalogue);
            moves@.to_multiset_ensures();
            legal.to_multiset_ensures();
            assert forall|m: Move| moves@.contains(m) <==> legal.contains(m) by {
                assert(moves@.to_multiset().count(m) == legal.to_multiset().count(m));
            }
            match r {
                Some(m) => {
                    assert(moves@.contains(m));
                },
                None => {
                    if legal.len() > 0 {
                        assert(legal.contains(legal[0]));
                        assert(moves@.contains(legal[0]));
                        law_enumerated_moves_are_accepted(*self, *catalogue, legal[0]);
                    }
                },
            }
        }
        r
    }
}

} // verus!
