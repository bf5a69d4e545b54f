//! What holds of the rules whatever the position and the move.

use crate::cards::Catalogue;
use crate::models::Board;
use crate::models::Card;
use crate::models::Move;
use crate::models::Point;
use crate::rules::destination;
use crate::rules::in_hand;
use vstd::prelude::*;

verus! {

/// The turn passes with every accepted move but one: an ordinary move
/// that unlocks an extra move leaves the mover to move and owing the extra
/// move.  A completed or forfeited extra move and a discard pass the turn
/// and leave no extra move owed.
pub proof fn law_turn_alternation(board: Board, catalogue: Catalogue, m: Move)
    requires
        board.accepts(catalogue, m),
    ensures
        ({
            let next = board.outcome(catalogue, m).position();
            let unlocked = !board.extra_move_pending && match m {
                Move::Move { card, src, dst } => board.unlocks_extra_move(catalogue, card, src, dst),
                Move::Discard { .. } => false,
            };
            &&& next.extra_move_pending == unlocked
            &&& next.turn == if unlocked {
                board.turn
            } else {
                board.turn.other()
            }
        }),
{
}

/// The Wind Spirit never moves onto a king, neither on an ordinary move
/// nor on an extra move.
pub proof fn law_wind_spirit_never_lands_on_king(
    board: Board,
    catalogue: Catalogue,
    card: Card,
    src: Point,
    dst: Point,
)
    requires
        board.wind_spirit == Some(src),
        board.extra_move_pending ==> board.has_extra_move(catalogue),
        board.accepts(catalogue, Move::Move { card, src, dst }),
    ensures
        !board.king_on(dst),
{
}

/// When the Wind Spirit moves it changes places with whatever pawn stands
/// on its destination, the mover's or the opponent's: the Wind Spirit
/// stands on the destination, that pawn on the square the Wind Spirit
/// left, and nothing else moves or leaves the board.
pub proof fn law_wind_spirit_swaps(
    board: Board,
    catalogue: Catalogue,
    card: Card,
    src: Point,
    dst: Point,
)
    requires
        board.valid(),
        board.wind_spirit == Some(src),
        board.extra_move_pending ==> board.has_extra_move(catalogue),
        board.accepts(catalogue, Move::Move { card, src, dst }),
    ensures
        ({
            let next = board.outcome(catalogue, Move::Move { card, src, dst }).position();
            &&& next.wind_spirit == Some(dst)
            &&& next.red_king == board.red_king
            &&& next.blue_king == board.blue_king
            &&& forall|i: int|
                0 <= i < 4 ==> #[trigger] next.red_pawns[i] == if board.red_pawns[i] == Some(dst) {
                    Some(src)
                } else {
                    board.red_pawns[i]
                }
            &&& forall|i: int|
                0 <= i < 4 ==> #[trigger] next.blue_pawns[i] == if board.blue_pawns[i] == Some(
                    dst,
                ) {
                    Some(src)
                } else {
                    board.blue_pawns[i]
                }
        }),
{
    assert(board.pieces_on(src) <= 1);
}

/// An accepted discard passes the card from the mover's hand to the spare
/// and the spare into its place, passes the turn, and leaves no extra move
/// owed; the other hand and every piece stay as they were.
pub proof fn law_discard(board: Board, catalogue: Catalogue, card: Card)
    requires
        board.extra_move_pending ==> board.has_extra_move(catalogue),
        board.accepts(catalogue, Move::Discard { card }),
    ensures
        in_hand(board.mover_hand(), card),
        !board.has_move(catalogue),
        ({
            let state = board.outcome(catalogue, Move::Discard { card });
            let next = state.position();
            &&& state is Playing
            &&& forall|k: int|
                0 <= k < 2 ==> #[trigger] next.waiting_hand()[k] == if board.mover_hand()[k]
                    == card {
                    board.spare_card
                } else {
                    board.mover_hand()[k]
                }
            &&& next.mover_hand() == board.waiting_hand()
            &&& next.spare_card == card
            &&& next.turn == board.turn.other()
            &&& !next.extra_move_pending
            &&& next.extra_move_card is None
            &&& next.red_king == board.red_king
            &&& next.blue_king == board.blue_king
            &&& next.red_pawns == board.red_pawns
            &&& next.blue_pawns == board.blue_pawns
            &&& next.wind_spirit == board.wind_spirit
        }),
{
}

/// How often `card` occurs among `cards`, counted through the multiset of
/// five cards.
proof fn lemma_count_of_five(cards: Seq<Card>, card: Card)
    requires
        cards.len() == 5,
    ensures
        cards.to_multiset().count(card) == (if cards[0] == card {
            1int
        } else {
            0int
        }) + (if cards[1] == card {
            1int
        } else {
            0int
        }) + (if cards[2] == card {
            1int
        } else {
            0int
        }) + (if cards[3] == card {
            1int
        } else {
            0int
        }) + (if cards[4] == card {
            1int
        } else {
            0int
        }),
{
    let s0 = Seq::<Card>::empty();
    let s1 = s0.push(cards[0]);
    let s2 = s1.push(cards[1]);
    let s3 = s2.push(cards[2]);
    let s4 = s3.push(cards[3]);
    let s5 = s4.push(cards[4]);
    assert(s5 =~= cards);
    s0.to_multiset_ensures();
    s1.to_multiset_ensures();
    s2.to_multiset_ensures();
    s3.to_multiset_ensures();
    s4.to_multiset_ensures();
    assert(!s0.contains(card));
    assert(s0.to_multiset().count(card) == 0);
    assert(s1.to_multiset() =~= s0.to_multiset().insert(cards[0]));
    assert(s2.to_multiset() =~= s1.to_multiset().insert(cards[1]));
    assert(s3.to_multiset() =~= s2.to_multiset().insert(cards[2]));
    assert(s4.to_multiset() =~= s3.to_multiset().insert(cards[3]));
    assert(s5.to_multiset() =~= s4.to_multiset().insert(cards[4]));
}

/// The five cards of a game stay the same five: an accepted move at most
/// passes one card of the mover's hand to the spare and the spare to the
/// hand.
pub proof fn law_cards_conserved(board: Board, catalogue: Catalogue, m: Move)
    requires
        board.valid(),
        board.accepts(catalogue, m),
    ensures
        board.outcome(catalogue, m).position().cards().to_multiset() == board.cards().to_multiset(),
{
    let next = board.outcome(catalogue, m).position();
    let before = board.cards();
    let after = next.cards();
    assert(before[0] != before[1]);
    assert(before[2] != before[3]);
    assert forall|card: Card|
        after.to_multiset().count(card) == before.to_multiset().count(card) by {
        lemma_count_of_five(before, card);
        lemma_count_of_five(after, card);
    }
    assert(after.to_multiset() =~= before.to_multiset());
}

/// An accepted ordinary step leaves at most one piece on `p`, and none
/// if `p` is off the board.
proof fn lemma_step_places(board: Board, src: Point, dst: Point, p: Point)
    requires
        board.well_placed(),
        board.mover_piece_on(src),
        dst.on_board(),
        board.landing_rejection(src, dst) is None,
    ensures
        board.stepped(src, dst).pieces_on(p) <= if p.on_board() {
            1int
        } else {
            0int
        },
{
    assert(board.pieces_on(p) <= 1);
    assert(board.pieces_on(src) <= 1);
    assert(board.pieces_on(dst) <= 1);
}

/// An accepted extra move leaves at most one piece on `p`, and none if `p`
/// is off the board.
proof fn lemma_swap_places(board: Board, src: Point, dst: Point, p: Point)
    requires
        board.well_placed(),
        board.wind_spirit == Some(src),
        dst.on_board(),
        !board.king_on(dst),
    ensures
        board.swapped(src, dst).pieces_on(p) <= if p.on_board() {
            1int
        } else {
            0int
        },
{
    assert(board.pieces_on(p) <= 1);
    assert(board.pieces_on(src) <= 1);
    assert(board.pieces_on(dst) <= 1);
}

/// Recycling a card of the mover's hand, with the pieces in place and the
/// five cards distinct, gives a valid position.
proof fn lemma_recycled(board: Board, card: Card)
    requires
        board.well_placed(),
        board.cards().no_duplicates(),
        in_hand(board.mover_hand(), card),
    ensures
        board.recycled(card).valid(),
{
    assert forall|p: Point| #[trigger]
        board.recycled(card).pieces_on(p) <= if p.on_board() {
            1int
        } else {
            0int
        } by {
        assert(board.pieces_on(p) <= 1);
    }
    let before = board.cards();
    assert(before[0] != before[1]);
    assert(before[2] != before[3]);
    assert(before[0] != before[4]);
    assert(before[1] != before[4]);
    assert(before[2] != before[4]);
    assert(before[3] != before[4]);
    assert(before[0] != before[2]);
    assert(before[0] != before[3]);
    assert(before[1] != before[2]);
    assert(before[1] != before[3]);
}

/// An accepted move leads from a valid position to a valid position.
pub proof fn law_validity_preserved(board: Board, catalogue: Catalogue, m: Move)
    requires
        board.valid(),
        board.accepts(catalogue, m),
    ensures
        board.outcome(catalogue, m).position().valid(),
{
    let next = board.outcome(catalogue, m).position();
    if board.extra_move_pending && !board.has_extra_move(catalogue) {
        lemma_recycled(board, board.extra_move_card.unwrap());
    } else {
        match m {
            Move::Discard { card } => {
                lemma_recycled(board, card);
            },
            Move::Move { card, src, dst } => {
                if board.extra_move_pending {
                    let moved = board.swapped(src, dst);
                    assert(moved.well_placed()) by {
                        assert forall|p: Point| #[trigger]
                            moved.pieces_on(p) <= if p.on_board() {
                                1int
                            } else {
                                0int
                            } by {
                            lemma_swap_places(board, src, dst, p);
                        }
                    }
                    assert(moved.cards() =~= board.cards());
                    assert(moved.mover_hand() == board.mover_hand());
                    lemma_recycled(moved, card);
                } else {
                    let moved = board.stepped(src, dst);
                    assert(moved.well_placed()) by {
                        assert forall|p: Point| #[trigger]
                            moved.pieces_on(p) <= if p.on_board() {
                                1int
                            } else {
                                0int
                            } by {
                            lemma_step_places(board, src, dst, p);
                        }
                    }
                    assert(moved.cards() =~= board.cards());
                    assert(moved.mover_hand() == board.mover_hand());
                    if board.unlocks_extra_move(catalogue, card, src, dst) {
                        assert(next.cards() =~= board.cards());
                        assert forall|p: Point| #[trigger]
                            next.pieces_on(p) <= if p.on_board() {
                                1int
                            } else {
                                0int
                            } by {
                            assert(moved.pieces_on(p) <= 1);
                        }
                    } else {
                        lemma_recycled(moved, card);
                    }
                }
            },
        }
    }
}

/// A sequence put after another holds what either holds.
proof fn lemma_concat_contains<A>(a: Seq<A>, b: Seq<A>, x: A)
    ensures
        (a + b).contains(x) <==> a.contains(x) || b.contains(x),
{
    if a.contains(x) {
        let i = choose|i: int| 0 <= i < a.len() && a[i] == x;
        assert((a + b)[i] == x);
    }
    if b.contains(x) {
        let j = choose|j: int| 0 <= j < b.len() && b[j] == x;
        assert((a + b)[a.len() + j] == x);
    }
    if (a + b).contains(x) {
        let k = choose|k: int| 0 <= k < (a + b).len() && (a + b)[k] == x;
        if k < a.len() {
            assert(a[k] == x);
        } else {
            assert(b[k - a.len()] == x);
        }
    }
}

/// What `f` makes of an item of `s` is among what it makes of `s`.
proof fn lemma_filter_map_has<A, B>(s: Seq<A>, f: spec_fn(A) -> Option<B>, i: int)
    requires
        0 <= i < s.len(),
        f(s[i]) is Some,
    ensures
        s.filter_map(f).contains(f(s[i]).unwrap()),
    decreases s.len(),
{
    let rest = s.drop_last();
    let made = f(s[i]).unwrap();
    if i == s.len() - 1 {
        let all = rest.filter_map(f) + seq![made];
        assert(all[all.len() - 1] == made);
    } else {
        lemma_filter_map_has(rest, f, i);
        match f(s.last()) {
            Some(x) => {
                lemma_concat_contains(rest.filter_map(f), seq![x], made);
            },
            None => {},
        }
    }
}

/// The moves enumerated for a piece by a card are the accepted moves of
/// that piece by that card.
proof fn lemma_piece_moves(board: Board, catalogue: Catalogue, card: Card, src: Point, m: Move)
    ensures
        board.piece_moves(catalogue, card, Some(src)).contains(m) <==> exists|dst: Point|
            m == (Move::Move { card, src, dst }) && #[trigger] board.move_rejection(
                catalogue,
                card,
                src,
                dst,
            ) is None,
{
    let offsets = catalogue.offsets(card, board.mover_king() == Some(src), false);
    let f = board.stepper(catalogue, card, src, false);
    if offsets.filter_map(f).contains(m) {
        offsets.lemma_filter_map_contains(f, m);
        let t = choose|t: Point| #[trigger] offsets.contains(t) && f(t) == Some(m);
        let dst = destination(src, t, board.turn).unwrap();
        assert(board.move_rejection(catalogue, card, src, dst) is None);
    }
    if exists|dst: Point|
        m == (Move::Move { card, src, dst }) && #[trigger] board.move_rejection(
            catalogue,
            card,
            src,
            dst,
        ) is None {
        let dst = choose|dst: Point|
            m == (Move::Move { card, src, dst }) && #[trigger] board.move_rejection(
                catalogue,
                card,
                src,
                dst,
            ) is None;
        let i = choose|i: int|
            0 <= i < offsets.len() && #[trigger] destination(src, offsets[i], board.turn) == Some(
                dst,
            );
        lemma_filter_map_has(offsets, f, i);
    }
}

/// The moves enumerated for the Wind Spirit while an extra move is owed
/// are the accepted extra moves.
proof fn lemma_extra_moves(board: Board, catalogue: Catalogue, m: Move)
    ensures
        board.extra_moves(catalogue).contains(m) <==> exists|dst: Point|
            board.wind_spirit is Some && board.extra_move_card is Some && m == (Move::Move {
                card: board.extra_move_card.unwrap(),
                src: board.wind_spirit.unwrap(),
                dst,
            }) && #[trigger] board.extra_move_rejection(
                catalogue,
                board.extra_move_card.unwrap(),
                board.wind_spirit.unwrap(),
                dst,
            ) is None,
{
    if board.wind_spirit is Some && board.extra_move_card is Some {
        let src = board.wind_spirit.unwrap();
        let card = board.extra_move_card.unwrap();
        let offsets = catalogue.offsets(card, false, true);
        let f = board.stepper(catalogue, card, src, true);
        if offsets.filter_map(f).contains(m) {
            offsets.lemma_filter_map_contains(f, m);
            let t = choose|t: Point| #[trigger] offsets.contains(t) && f(t) == Some(m);
            let dst = destination(src, t, board.turn).unwrap();
            assert(board.extra_move_rejection(catalogue, card, src, dst) is None);
        }
        if exists|dst: Point|
            m == (Move::Move { card, src, dst }) && #[trigger] board.extra_move_rejection(
                catalogue,
                card,
                src,
                dst,
            ) is None {
            let dst = choose|dst: Point|
                m == (Move::Move { card, src, dst }) && #[trigger] board.extra_move_rejection(
                    catalogue,
                    card,
                    src,
                    dst,
                ) is None;
            let i = choose|i: int|
                0 <= i < offsets.len() && #[trigger] destination(src, offsets[i], board.turn)
                    == Some(dst);
            lemma_filter_map_has(offsets, f, i);
        }
    }
}

/// The moves enumerated by a card are the accepted moves by that card.
proof fn lemma_card_moves(board: Board, catalogue: Catalogue, card: Card, m: Move)
    ensures
        board.card_moves(catalogue, card).contains(m) <==> exists|src: Point, dst: Point|
            m == (Move::Move { card, src, dst }) && #[trigger] board.move_rejection(
                catalogue,
                card,
                src,
                dst,
            ) is None,
{
    let pawns = board.mover_pawns();
    let a0 = board.piece_moves(catalogue, card, board.mover_king());
    let a1 = board.piece_moves(catalogue, card, pawns[0]);
    let a2 = board.piece_moves(catalogue, card, pawns[1]);
    let a3 = board.piece_moves(catalogue, card, pawns[2]);
    let a4 = board.piece_moves(catalogue, card, pawns[3]);
    let a5 = board.piece_moves(catalogue, card, board.wind_spirit);
    lemma_concat_contains(a0, a1, m);
    lemma_concat_contains(a0 + a1, a2, m);
    lemma_concat_contains(a0 + a1 + a2, a3, m);
    lemma_concat_contains(a0 + a1 + a2 + a3, a4, m);
    lemma_concat_contains(a0 + a1 + a2 + a3 + a4, a5, m);
    if board.mover_king() is Some {
        lemma_piece_moves(board, catalogue, card, board.mover_king().unwrap(), m);
    }
    if pawns[0] is Some {
        lemma_piece_moves(board, catalogue, card, pawns[0].unwrap(), m);
    }
    if pawns[1] is Some {
        lemma_piece_moves(board, catalogue, card, pawns[1].unwrap(), m);
    }
    if pawns[2] is Some {
        lemma_piece_moves(board, catalogue, card, pawns[2].unwrap(), m);
    }
    if pawns[3] is Some {
        lemma_piece_moves(board, catalogue, card, pawns[3].unwrap(), m);
    }
    if board.wind_spirit is Some {
        lemma_piece_moves(board, catalogue, card, board.wind_spirit.unwrap(), m);
    }
    if exists|src: Point, dst: Point|
        m == (Move::Move { card, src, dst }) && #[trigger] board.move_rejection(
            catalogue,
            card,
            src,
            dst,
        ) is None {
        let (src, dst) = choose|src: Point, dst: Point|
            m == (Move::Move { card, src, dst }) && #[trigger] board.move_rejection(
                catalogue,
                card,
                src,
                dst,
            ) is None;
        assert(board.mover_piece_on(src));
        assert(board.card_moves(catalogue, card).contains(m));
    }
}

/// The candidate moves are the accepted ordinary moves.
proof fn lemma_candidate_moves(board: Board, catalogue: Catalogue, m: Move)
    ensures
        board.candidate_moves(catalogue).contains(m) <==> exists|
            card: Card,
            src: Point,
            dst: Point,
        |
            m == (Move::Move { card, src, dst }) && #[trigger] board.move_rejection(
                catalogue,
                card,
                src,
                dst,
            ) is None,
{
    let hand = board.mover_hand();
    lemma_concat_contains(
        board.card_moves(catalogue, hand[0]),
        board.card_moves(catalogue, hand[1]),
        m,
    );
    lemma_card_moves(board, catalogue, hand[0], m);
    lemma_card_moves(board, catalogue, hand[1], m);
    if exists|card: Card, src: Point, dst: Point|
        m == (Move::Move { card, src, dst }) && #[trigger] board.move_rejection(
            catalogue,
            card,
            src,
            dst,
        ) is None {
        let (card, src, dst) = choose|card: Card, src: Point, dst: Point|
            m == (Move::Move { card, src, dst }) && #[trigger] board.move_rejection(
                catalogue,
                card,
                src,
                dst,
            ) is None;
        assert(in_hand(hand, card));
        assert(board.candidate_moves(catalogue).contains(m));
    }
}

/// The mover has an ordinary move exactly if there is a candidate move.
proof fn lemma_candidates_exist(board: Board, catalogue: Catalogue)
    ensures
        board.candidate_moves(catalogue).len() > 0 <==> board.has_move(catalogue),
{
    let candidates = board.candidate_moves(catalogue);
    if candidates.len() > 0 {
        assert(candidates.contains(candidates[0]));
        lemma_candidate_moves(board, catalogue, candidates[0]);
    }
    if board.has_move(catalogue) {
        let (card, src, dst) = choose|card: Card, src: Point, dst: Point| #[trigger]
            board.move_rejection(catalogue, card, src, dst) is None;
        lemma_candidate_moves(board, catalogue, Move::Move { card, src, dst });
    }
}

/// Putting the captures first neither adds nor drops a move.
proof fn lemma_captures_first(board: Board, moves: Seq<Move>, m: Move)
    ensures
        (moves.filter(board.capturing()) + moves.filter(board.quiet())).contains(m)
            <==> moves.contains(m),
{
    let p = board.capturing();
    let q = board.quiet();
    lemma_concat_contains(moves.filter(p), moves.filter(q), m);
    if moves.filter(p).contains(m) {
        moves.lemma_filter_contains_rev(p, m);
    }
    if moves.filter(q).contains(m) {
        moves.lemma_filter_contains_rev(q, m);
    }
    if moves.contains(m) {
        let i = choose|i: int| 0 <= i < moves.len() && moves[i] == m;
        if p(m) {
            moves.lemma_filter_contains(p, i);
        } else {
            moves.lemma_filter_contains(q, i);
        }
    }
}

/// Every enumerated move is accepted.
pub proof fn law_enumerated_moves_are_accepted(board: Board, catalogue: Catalogue, m: Move)
    requires
        board.legal(catalogue).contains(m),
    ensures
        board.accepts(catalogue, m),
{
    if board.extra_move_pending {
        lemma_extra_moves(board, catalogue, m);
    } else {
        let candidates = board.candidate_moves(catalogue);
        lemma_candidates_exist(board, catalogue);
        if candidates.len() > 0 {
            lemma_captures_first(board, candidates, m);
            lemma_candidate_moves(board, catalogue, m);
        } else {
            let discards = board.legal(catalogue);
            let i = choose|i: int| 0 <= i < discards.len() && discards[i] == m;
            assert(m is Discard);
        }
    }
}

/// Every accepted move of a piece is enumerated, and so is every accepted
/// discard in the ordinary phase.  Where an extra move is owed that the
/// Wind Spirit cannot make, the extra move is forfeited whatever is
/// submitted, and nothing is enumerated; and a discard that gives an
/// extra move up is never enumerated.
pub proof fn law_accepted_moves_are_enumerated(board: Board, catalogue: Catalogue, m: Move)
    requires
        board.accepts(catalogue, m),
        board.extra_move_pending ==> board.has_extra_move(catalogue),
        m is Discard ==> !board.extra_move_pending,
    ensures
        board.legal(catalogue).contains(m),
{
    if board.extra_move_pending {
        lemma_extra_moves(board, catalogue, m);
    } else {
        let candidates = board.candidate_moves(catalogue);
        lemma_candidates_exist(board, catalogue);
        match m {
            Move::Move { card, src, dst } => {
                lemma_candidate_moves(board, catalogue, m);
                assert(candidates.contains(m));
                lemma_captures_first(board, candidates, m);
            },
            Move::Discard { card } => {
                let discards = board.legal(catalogue);
                assert(discards[0] == Move::Discard { card: board.mover_hand()[0] });
                assert(discards[1] == Move::Discard { card: board.mover_hand()[1] });
            },
        }
    }
}

/// The enumeration holds nothing but discards exactly if the mover cannot
/// move.
pub proof fn law_forced_discard(board: Board, catalogue: Catalogue)
    ensures
        (forall|i: int|
            0 <= i < board.legal(catalogue).len() ==> #[trigger] board.legal(catalogue)[i]
                is Discard) <==> !board.movable(catalogue),
{
    let legal = board.legal(catalogue);
    if board.extra_move_pending {
        if legal.len() > 0 {
            assert(legal.contains(legal[0]));
            lemma_extra_moves(board, catalogue, legal[0]);
            assert(legal[0] is Move);
        }
        if board.has_extra_move(catalogue) {
            let src = board.wind_spirit.unwrap();
            let card = board.extra_move_card.unwrap();
            let dst = choose|dst: Point| #[trigger]
                board.extra_move_rejection(catalogue, card, src, dst) is None;
            lemma_extra_moves(board, catalogue, Move::Move { card, src, dst });
            let i = choose|i: int|
                0 <= i < legal.len() && legal[i] == (Move::Move { card, src, dst });
            assert(legal[i] is Move);
        }
    } else {
        let candidates = board.candidate_moves(catalogue);
        lemma_candidates_exist(board, catalogue);
        if candidates.len() > 0 {
            assert(candidates.contains(candidates[0]));
            lemma_candidate_moves(board, catalogue, candidates[0]);
            lemma_captures_first(board, candidates, candidates[0]);
            let i = choose|i: int| 0 <= i < legal.len() && legal[i] == candidates[0];
            assert(legal[i] is Move);
        }
    }
}

/// Two sequences without a repeated item that share no item make one
/// without a repeated item.
proof fn lemma_concat_distinct<A>(a: Seq<A>, b: Seq<A>)
    requires
        a.no_duplicates(),
        b.no_duplicates(),
        forall|x: A| !(a.contains(x) && b.contains(x)),
    ensures
        (a + b).no_duplicates(),
{
    assert forall|i: int, j: int| 0 <= i < a.len() && 0 <= j < b.len() implies a[i] != b[j] by {
        assert(a.contains(a[i]));
        assert(b.contains(b[j]));
    }
    vstd::seq_lib::lemma_no_dup_in_concat(a, b);
}

/// Filtering repeats no item.
proof fn lemma_filter_distinct<A>(s: Seq<A>, pred: spec_fn(A) -> bool)
    requires
        s.no_duplicates(),
    ensures
        s.filter(pred).no_duplicates(),
    decreases s.len(),
{
    reveal(Seq::filter);
    if s.len() > 0 {
        let rest = s.drop_last();
        lemma_filter_distinct(rest, pred);
        if pred(s.last()) {
            if rest.filter(pred).contains(s.last()) {
                rest.lemma_filter_contains_rev(pred, s.last());
                let i = choose|i: int| 0 <= i < rest.len() && rest[i] == s.last();
                assert(s[i] == s[s.len() - 1]);
            }
            lemma_concat_distinct(rest.filter(pred), seq![s.last()]);
            assert(rest.filter(pred).push(s.last()) =~= rest.filter(pred) + seq![s.last()]);
        }
    }
}

/// A function that makes different things of different items repeats
/// nothing in what it makes of a sequence without a repeated item.
proof fn lemma_filter_map_distinct<A, B>(s: Seq<A>, f: spec_fn(A) -> Option<B>)
    requires
        s.no_duplicates(),
        forall|x: A, y: A| f(x) is Some && #[trigger] f(x) == #[trigger] f(y) ==> x == y,
    ensures
        s.filter_map(f).no_duplicates(),
    decreases s.len(),
{
    if s.len() > 0 {
        let rest = s.drop_last();
        lemma_filter_map_distinct(rest, f);
        match f(s.last()) {
            Some(made) => {
                if rest.filter_map(f).contains(made) {
                    rest.lemma_filter_map_contains(f, made);
                    let t = choose|t: A| #[trigger] rest.contains(t) && f(t) == Some(made);
                    assert(f(t) == f(s.last()));
                    let i = choose|i: int| 0 <= i < rest.len() && rest[i] == t;
                    assert(s[i] == s[s.len() - 1]);
                }
                lemma_concat_distinct(rest.filter_map(f), seq![made]);
            },
            None => {},
        }
    }
}

/// Different steps of one piece make different moves.
proof fn lemma_steps_distinct(
    board: Board,
    catalogue: Catalogue,
    card: Card,
    src: Point,
    extra: bool,
    offsets: Seq<Point>,
)
    requires
        offsets.no_duplicates(),
    ensures
        offsets.filter_map(board.stepper(catalogue, card, src, extra)).no_duplicates(),
{
    let f = board.stepper(catalogue, card, src, extra);
    assert forall|x: Point, y: Point| f(x) is Some && #[trigger] f(x) == #[trigger] f(y) implies x
        == y by {
        assert(destination(src, x, board.turn) == destination(src, y, board.turn));
    }
    lemma_filter_map_distinct(offsets, f);
}

/// The moves enumerated for a piece by a card hold no move twice, and all
/// are moves of that piece by that card.
proof fn lemma_piece_moves_distinct(
    board: Board,
    catalogue: Catalogue,
    card: Card,
    slot: Option<Point>,
)
    requires
        catalogue.distinct_steps(),
    ensures
        board.piece_moves(catalogue, card, slot).no_duplicates(),
        forall|m: Move| #[trigger]
            board.piece_moves(catalogue, card, slot).contains(m) ==> slot is Some && exists|
                dst: Point,
            |
                m == (Move::Move { card, src: slot.unwrap(), dst }),
{
    match slot {
        Some(src) => {
            let offsets = catalogue.offsets(card, board.mover_king() == Some(src), false);
            lemma_steps_distinct(board, catalogue, card, src, false, offsets);
            assert forall|m: Move| #[trigger]
                board.piece_moves(catalogue, card, slot).contains(m) implies exists|dst: Point|
                m == (Move::Move { card, src, dst }) by {
                lemma_piece_moves(board, catalogue, card, src, m);
                let dst = choose|dst: Point|
                    m == (Move::Move { card, src, dst }) && #[trigger] board.move_rejection(
                        catalogue,
                        card,
                        src,
                        dst,
                    ) is None;
                assert(m == (Move::Move { card, src, dst }));
            }
        },
        None => {},
    }
}

/// Whether `m` moves a piece by `card`.
spec fn moves_piece_by(m: Move, card: Card) -> bool {
    match m {
        Move::Move { card: played, .. } => played == card,
        Move::Discard { .. } => false,
    }
}

/// The moves enumerated by a card hold no move twice, and all are moves by
/// that card.
proof fn lemma_card_moves_distinct(board: Board, catalogue: Catalogue, card: Card)
    requires
        board.well_placed(),
        catalogue.distinct_steps(),
    ensures
        board.card_moves(catalogue, card).no_duplicates(),
        forall|m: Move| #[trigger]
            board.card_moves(catalogue, card).contains(m) ==> moves_piece_by(m, card),
{
    let pawns = board.mover_pawns();
    let s0 = board.mover_king();
    let s1 = pawns[0];
    let s2 = pawns[1];
    let s3 = pawns[2];
    let s4 = pawns[3];
    let s5 = board.wind_spirit;
    let a0 = board.piece_moves(catalogue, card, s0);
    let a1 = board.piece_moves(catalogue, card, s1);
    let a2 = board.piece_moves(catalogue, card, s2);
    let a3 = board.piece_moves(catalogue, card, s3);
    let a4 = board.piece_moves(catalogue, card, s4);
    let a5 = board.piece_moves(catalogue, card, s5);
    lemma_piece_moves_distinct(board, catalogue, card, s0);
    lemma_piece_moves_distinct(board, catalogue, card, s1);
    lemma_piece_moves_distinct(board, catalogue, card, s2);
    lemma_piece_moves_distinct(board, catalogue, card, s3);
    lemma_piece_moves_distinct(board, catalogue, card, s4);
    lemma_piece_moves_distinct(board, catalogue, card, s5);
    assert forall|p: Point| #[trigger] board.pieces_on(p) <= 1 by {}
    let b1 = a0 + a1;
    let b2 = b1 + a2;
    let b3 = b2 + a3;
    let b4 = b3 + a4;
    let b5 = b4 + a5;
    assert forall|m: Move| !(a0.contains(m) && a1.contains(m)) by {
        if a0.contains(m) && a1.contains(m) {
            assert(board.pieces_on(s0.unwrap()) <= 1);
        }
    }
    lemma_concat_distinct(a0, a1);
    assert forall|m: Move| !(b1.contains(m) && a2.contains(m)) by {
        lemma_concat_contains(a0, a1, m);
        if b1.contains(m) && a2.contains(m) {
            assert(board.pieces_on(s2.unwrap()) <= 1);
        }
    }
    lemma_concat_distinct(b1, a2);
    assert forall|m: Move| !(b2.contains(m) && a3.contains(m)) by {
        lemma_concat_contains(a0, a1, m);
        lemma_concat_contains(b1, a2, m);
        if b2.contains(m) && a3.contains(m) {
            assert(board.pieces_on(s3.unwrap()) <= 1);
        }
    }
    lemma_concat_distinct(b2, a3);
    assert forall|m: Move| !(b3.contains(m) && a4.contains(m)) by {
        lemma_concat_contains(a0, a1, m);
        lemma_concat_contains(b1, a2, m);
        lemma_concat_contains(b2, a3, m);
        if b3.contains(m) && a4.contains(m) {
            assert(board.pieces_on(s4.unwrap()) <= 1);
        }
    }
    lemma_concat_distinct(b3, a4);
    assert forall|m: Move| !(b4.contains(m) && a5.contains(m)) by {
        lemma_concat_contains(a0, a1, m);
        lemma_concat_contains(b1, a2, m);
        lemma_concat_contains(b2, a3, m);
        lemma_concat_contains(b3, a4, m);
        if b4.contains(m) && a5.contains(m) {
            assert(board.pieces_on(s5.unwrap()) <= 1);
        }
    }
    lemma_concat_distinct(b4, a5);
    assert forall|m: Move| #[trigger] b5.contains(m) implies moves_piece_by(m, card) by {
        lemma_concat_contains(a0, a1, m);
        lemma_concat_contains(b1, a2, m);
        lemma_concat_contains(b2, a3, m);
        lemma_concat_contains(b3, a4, m);
        lemma_concat_contains(b4, a5, m);
    }
}

/// No move is enumerated twice, where the position is valid and no card
/// offers a step twice.
pub proof fn law_no_move_enumerated_twice(board: Board, catalogue: Catalogue)
    requires
        board.valid(),
        catalogue.distinct_steps(),
    ensures
        board.legal(catalogue).no_duplicates(),
{
    let cards = board.cards();
    assert(cards[0] != cards[1]);
    assert(cards[2] != cards[3]);
    let hand = board.mover_hand();
    if board.extra_move_pending {
        match (board.wind_spirit, board.extra_move_card) {
            (Some(spirit), Some(card)) => {
                lemma_steps_distinct(
                    board,
                    catalogue,
                    card,
                    spirit,
                    true,
                    catalogue.offsets(card, false, true),
                );
            },
            _ => {},
        }
    } else {
        let c0 = board.card_moves(catalogue, hand[0]);
        let c1 = board.card_moves(catalogue, hand[1]);
        let candidates = board.candidate_moves(catalogue);
        lemma_card_moves_distinct(board, catalogue, hand[0]);
        lemma_card_moves_distinct(board, catalogue, hand[1]);
        lemma_concat_distinct(c0, c1);
        if candidates.len() > 0 {
            let p = board.capturing();
            let q = board.quiet();
            lemma_filter_distinct(candidates, p);
            lemma_filter_distinct(candidates, q);
            assert forall|m: Move| !(candidates.filter(p).contains(m) && candidates.filter(
                q,
            ).contains(m)) by {
                if candidates.filter(p).contains(m) && candidates.filter(q).contains(m) {
                    let i = choose|i: int|
                        0 <= i < candidates.filter(p).len() && candidates.filter(p)[i] == m;
                    candidates.lemma_filter_pred(p, i);
                    let j = choose|j: int|
                        0 <= j < candidates.filter(q).len() && candidates.filter(q)[j] == m;
                    candidates.lemma_filter_pred(q, j);
                }
            }
            lemma_concat_distinct(candidates.filter(p), candidates.filter(q));
        }
    }
}

} // verus!
