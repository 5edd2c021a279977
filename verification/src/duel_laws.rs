//! What holds of every duel, whatever the cards: no card the player owns is
//! ever lost or made up, lifting a card undoes placing it, a tie pays
//! nobody, and the face-up cards never promise more than the row is worth.

use vstd::multiset::Multiset;
use vstd::prelude::*;

use crate::duel::{
    DuelModel, Opposing, Outcome, Phase, Placed, Push, as_row, deal_row, draw_after_place,
    across_bounded, face_up_card, handed_back, lemma_refill, lemma_resolve_bounded, lemma_wf_bounds,
    refill, resolve, row_bounded, row_cards, showing_total, showing_value, slot_value, spent, total,
    hidden_count, visible, lemma_refill_count, DRAW_SIZE,
};
use crate::run::{Deal, HoleCard, Tell};
use crate::run::Card;

verus! {

broadcast use vstd::seq_lib::group_to_multiset_ensures, vstd::multiset::group_multiset_axioms,
    vstd::seq_lib::lemma_multiset_commutative;

/// Every card the player owns in this duel: the deck, the Draw, the
/// discard, and the row with whatever it burned.
pub open spec fn player_cards(m: DuelModel) -> Multiset<Card> {
    m.deck.to_multiset().add(m.draw.to_multiset()).add(m.discard.to_multiset()).add(spent(m.row).to_multiset())
}

/// Placing a card moves it, and its sacrifice, from the Draw into the row:
/// the player owns the same cards before and after.
pub proof fn lemma_placing_keeps_every_card(m: DuelModel, card: int, burn: Option<int>)
    requires
        0 <= card,
        burn matches Some(i) ==> 0 <= i,
        m.place_error(card, burn) is None,
    ensures
        player_cards(m.placed(card, burn)) == player_cards(m),
{
    let p = m.placed(card, burn);
    let placed = p.row.last();
    assert(p.row.drop_last() =~= m.row);
    assert(spent(p.row) == spent(m.row) + handed_back(placed));
    assert(draw_after_place(m.draw, card, burn).to_multiset().add(handed_back(placed).to_multiset())
        =~= m.draw.to_multiset()) by {
        match burn {
            Some(i) => {
                if i > card {
                    assert(m.draw.remove(i)[card] == m.draw[card]);
                } else {
                    assert(m.draw.remove(card)[i] == m.draw[i]);
                }
                assert(handed_back(placed) =~= seq![m.draw[i], m.draw[card]]);
                assert(seq![m.draw[i], m.draw[card]] =~= seq![m.draw[i]].push(m.draw[card]));
            },
            None => {
                assert(handed_back(placed) =~= seq![m.draw[card]]);
            },
        }
    }
    assert(player_cards(p) =~= player_cards(m));
}

/// Lifting a card hands it, and whatever it burned, back to the Draw: the
/// player owns the same cards before and after.
pub proof fn lemma_lifting_keeps_every_card(m: DuelModel, slot: int)
    requires
        0 <= slot,
        m.lift_error(slot) is None,
    ensures
        player_cards(m.lifted(slot)) == player_cards(m),
{
    lemma_spent_remove(m.row, slot);
    assert(player_cards(m.lifted(slot)) =~= player_cards(m));
}

/// Taking one card out of a row takes exactly what it left on the discard
/// out of what the row leaves.
pub proof fn lemma_spent_remove(row: Seq<Placed>, slot: int)
    requires
        0 <= slot < row.len(),
    ensures
        spent(row.remove(slot)).to_multiset().add(handed_back(row[slot]).to_multiset()) == spent(row).to_multiset(),
    decreases row.len(),
{
    if slot == row.len() - 1 {
        assert(row.remove(slot) =~= row.drop_last());
        assert(spent(row) == spent(row.drop_last()) + handed_back(row.last()));
    } else {
        let shorter = row.drop_last();
        lemma_spent_remove(shorter, slot);
        assert(row.remove(slot).drop_last() =~= shorter.remove(slot));
        assert(row.remove(slot).last() == row.last());
        assert(spent(row) == spent(shorter) + handed_back(row.last()));
        assert(spent(row.remove(slot)) == spent(shorter.remove(slot)) + handed_back(row.last()));
        assert(spent(row.remove(slot)).to_multiset().add(handed_back(row[slot]).to_multiset()) =~= spent(
            row,
        ).to_multiset());
    }
}

/// Lifting the card just placed undoes the placement: the row is as it
/// was, the Draw holds the same cards (the lifted ones at its end), and
/// nothing else on the table moved.
pub proof fn lemma_lift_undoes_place(m: DuelModel, card: int, burn: Option<int>)
    requires
        0 <= card,
        burn matches Some(i) ==> 0 <= i,
        m.place_error(card, burn) is None,
    ensures
        m.placed(card, burn).lift_error(m.row.len() as int) is None,
        m.placed(card, burn).lifted(m.row.len() as int).row == m.row,
        m.placed(card, burn).lifted(m.row.len() as int).draw.to_multiset() == m.draw.to_multiset(),
        m.placed(card, burn).lifted(m.row.len() as int) == (DuelModel {
            draw: m.placed(card, burn).lifted(m.row.len() as int).draw,
            ..m
        }),
{
    let p = m.placed(card, burn);
    let back = p.lifted(m.row.len() as int);
    assert(p.row.remove(m.row.len() as int) =~= m.row);
    lemma_placing_keeps_every_card(m, card, burn);
    lemma_lifting_keeps_every_card(p, m.row.len() as int);
    assert(back.deck == m.deck);
    assert(back.discard == m.discard);
    assert(player_cards(back) == player_cards(m));
    assert forall|c: Card| #[trigger] back.draw.to_multiset().count(c) == m.draw.to_multiset().count(c) by {
        assert(player_cards(back).count(c) == player_cards(m).count(c));
    }
    assert(back.draw.to_multiset() =~= m.draw.to_multiset());
}

/// Resolving a turn sends the row, and everything it burned, to the
/// discard, and refilling the Draw only moves cards about: the player owns
/// the same cards before and after.
pub proof fn lemma_resolving_keeps_every_card(m: DuelModel, pyl: Option<Push>)
    ensures
        player_cards(m.resolved(pyl).0) == player_cards(m),
{
    let s = m.settled(pyl);
    assert(player_cards(s) =~= player_cards(m)) by {
        assert(spent(s.row) =~= Seq::<Card>::empty());
    }
    lemma_refill(s.deck, s.draw, s.discard, s.rng);
    let r = s.refilled();
    assert(player_cards(r) =~= player_cards(s)) by {
        assert(r.row == s.row);
    }
    assert(player_cards(r.with_dealt()) == player_cards(r));
}

/// Confirming turns both rows over and, on a tie, resolves the turn: either
/// way the player owns the same cards before and after.
pub proof fn lemma_confirming_keeps_every_card(m: DuelModel)
    ensures
        player_cards(m.confirmed().0) == player_cards(m),
{
    if m.phase != Phase::PushYourLuck {
        let shown = m.shown();
        assert(player_cards(shown) == player_cards(m));
        lemma_resolving_keeps_every_card(shown, None);
    }
}

/// A tie pays nobody: when the rows turn over level, the turn resolves on
/// the spot for a Payout of nothing, and neither side's Chips move.
pub proof fn lemma_a_tie_pays_nobody(m: DuelModel)
    requires
        m.phase == Phase::Playing,
        m.shown().hand() == m.shown().house_edge(),
    ensures
        m.confirmed().1 matches Some(r) && r.kind == Outcome::Payout(0) && r.pyl is None,
        m.confirmed().0.player_chips == m.player_chips,
        m.confirmed().0.enemy.chips == m.enemy.chips,
{
}

/// The rows as they last turned over stay up until the next ones resolve:
/// turning the rows over leaves the last showdown as it was unless the turn
/// resolves on the spot, and a resolving turn keeps the rows it turned over.
/// So once a turn has resolved there is always a last showdown.
pub proof fn lemma_the_last_showdown_stays_up(m: DuelModel, pyl: Option<Push>)
    ensures
        m.phase == Phase::Playing ==> match m.confirmed().1 {
            None => m.confirmed().0.last == m.last,
            Some(_) => m.confirmed().0.last == m.shown().showdown,
        },
        m.resolved(pyl).0.last == m.showdown,
        m.last is Some && m.phase == Phase::Playing ==> m.confirmed().0.last is Some,
{
}

/// A turn resolving clears the table for the next: the prompt comes down,
/// the row goes to the discard, the rows that turned over are kept for the
/// screen, nobody's Chips rise, and the Draw keeps what it held and is
/// topped back up to seven, or to every card the player has left if that is
/// fewer. (A Draw already holding seven or more is left as it is.)
pub proof fn lemma_a_resolved_turn(m: DuelModel, pyl: Option<Push>)
    ensures
        ({
            let r = m.resolved(pyl).0;
            let all = m.draw.len() + m.deck.len() + m.discard.len() + spent(m.row).len();
            &&& r.phase == Phase::Playing
            &&& r.row.len() == 0
            &&& r.showdown is None
            &&& r.last == m.showdown
            &&& r.player_chips <= m.player_chips
            &&& r.enemy.chips <= m.enemy.chips
            &&& r.draw.take(m.draw.len() as int) == m.draw
            &&& r.draw.len() == if m.draw.len() >= DRAW_SIZE {
                m.draw.len() as int
            } else if all < DRAW_SIZE {
                all as int
            } else {
                DRAW_SIZE as int
            }
            &&& player_cards(r) == player_cards(m)
        }),
{
    let s = m.settled(pyl);
    lemma_refill(s.deck, s.draw, s.discard, s.rng);
    lemma_refill_count(s.deck, s.draw, s.discard, s.rng);
    lemma_resolving_keeps_every_card(m, pyl);
}

/// What each answer to the prompt does. On a clearing Hand, Hold takes the
/// Payout, a won Push doubles it and a lost Push zeroes The Hand: a full
/// Whiff for the whole House Edge. On a Whiff, Hold takes it, a won Push
/// forgives it and a lost Push doubles it.
pub proof fn lemma_push_your_luck(m: DuelModel)
    requires
        m.sound(),
        m.showdown is Some,
    ensures
        m.hand() > m.house_edge() ==> {
            &&& m.kind(None) == Outcome::Payout((m.hand() - m.house_edge()) as u32)
            &&& m.kind(Some(Push::Won)) == Outcome::Payout((2 * (m.hand() - m.house_edge())) as u32)
            &&& m.kind(Some(Push::Lost)) == Outcome::Whiff(m.house_edge() as u32)
        },
        m.hand() < m.house_edge() ==> {
            &&& m.kind(None) == Outcome::Whiff((m.house_edge() - m.hand()) as u32)
            &&& m.kind(Some(Push::Won)) == Outcome::Whiff(0)
            &&& m.kind(Some(Push::Lost)) == Outcome::Whiff((2 * (m.house_edge() - m.hand())) as u32)
        },
{
}

/// A rolled row has as many cards as the enemy lays down, and its first
/// card is face up.
pub proof fn lemma_rolled_row_shape(deal: Deal, n: nat, rng: u64)
    ensures
        deal_row(deal, n, rng).0.len() == n,
        n > 0 ==> deal_row(deal, n, rng).0[0].face_up,
    decreases n,
{
    if n > 0 {
        lemma_rolled_row_shape(deal, (n - 1) as nat, rng);
    }
}

/// The first Opposing Card an enemy rolls is always face up: the player is
/// owed one thing to read the rest against. (The House's single-card row is
/// the one exception: that card is its Hole Card, dealt face down.)
pub proof fn lemma_first_opposing_card_face_up(m: DuelModel)
    requires
        m.fixed is None,
        m.row_size > 0,
        m.hole_card is None || m.row_size > 1,
    ensures
        m.dealt().0.len() == m.row_size,
        m.dealt().0[0].face_up,
{
    lemma_rolled_row_shape(m.enemy.deal, m.row_size as nat, m.rng);
}

/// Rising Blinds: on a turn they tick, an ordinary enemy lays `cards` more
/// Opposing Cards down from the next turn on, and The House raises its
/// margin by its step instead; on any other turn neither moves.
pub proof fn lemma_rising_blinds(m: DuelModel, pyl: Option<Push>)
    ensures
        m.resolved(pyl).1.blinds_rose == m.blinds_rise(),
        m.hole_card is None && m.blinds_rise() ==> m.resolved(pyl).0.row_size == if m.row_size
            + m.enemy.blinds.cards > 255 {
            255
        } else {
            m.row_size + m.enemy.blinds.cards
        },
        m.hole_card is None && m.blinds_rise() && m.fixed is None ==> m.resolved(pyl).0.opposing.len() == if m.row_size
            + m.enemy.blinds.cards > 255 {
            255
        } else {
            m.row_size + m.enemy.blinds.cards
        },
        m.blinds_rise() ==> (m.hole_card matches Some(hole) ==> m.resolved(pyl).0.hole_card == Some(
            HoleCard { margin: (hole.margin + hole.step) as u32, ..hole },
        ) && m.resolved(pyl).0.row_size == m.row_size),
        !m.blinds_rise() ==> m.resolved(pyl).0.hole_card == m.hole_card && m.resolved(pyl).0.row_size
            == m.row_size,
{
    let next = m.settled(pyl).refilled();
    if m.fixed is None {
        lemma_rolled_row_shape(next.enemy.deal, next.row_size as nat, next.rng);
    }
}

/// Loaded Dice: a Hand confirmed with the dice still on it gets five more,
/// and the dice have one Hand fewer to go; without them The Hand is the row
/// alone.
pub proof fn lemma_loaded_dice(m: DuelModel)
    ensures
        m.dice_left > 0 ==> m.shown().dice_left == m.dice_left - 1 && m.shown().showdown->0.hand
            == (total(resolve(m.row, crate::duel::printed(m.turned_over()))) + 5) as u32,
        m.dice_left == 0 ==> m.shown().dice_left == 0 && m.shown().showdown->0.hand == total(
            resolve(m.row, crate::duel::printed(m.turned_over())),
        ) as u32,
        forall|i: int| 0 <= i < m.shown().opposing.len() ==> (#[trigger] m.shown().opposing[i]).face_up,
{
}

/// No face-up Copycat reads a face-down card: whenever a face-up Copycat has
/// a card to its right, that card is face up too.
pub open spec fn no_copycat_reads_blind(opposing: Seq<Opposing>) -> bool {
    forall|i: int|
        0 <= i < opposing.len() - 1 && opposing[i].face_up && (#[trigger] opposing[i].card).tell == Some(Tell::Copycat)
            ==> opposing[i + 1].face_up
}

proof fn lemma_showing_prefix(opposing: Seq<Opposing>, across: Seq<Option<Card>>, n: int)
    requires
        0 <= n <= opposing.len(),
        no_copycat_reads_blind(opposing),
        row_bounded(as_row(opposing)),
        across_bounded(across),
    ensures
        showing_total(opposing, across, n) <= total(resolve(as_row(opposing), across).take(n)),
    decreases n,
{
    let full = resolve(as_row(opposing), across);
    if n > 0 {
        lemma_showing_prefix(opposing, across, n - 1);
        lemma_resolve_bounded(as_row(opposing), across);
        assert(full.take(n).drop_last() =~= full.take(n - 1));
        assert(full.take(n).last() == full[n - 1]);
        let i = n - 1;
        if opposing[i].face_up {
            let o = opposing[i];
            if o.card.tell == Some(Tell::Copycat) && i + 1 < opposing.len() {
                assert(opposing[i + 1].face_up);
            }
            if i > 0 {
                assert(face_up_card(opposing, i - 1) matches Some(left) ==> left == as_row(opposing)[i - 1].card);
            }
            assert(showing_value(opposing, across, i) <= slot_value(as_row(opposing), across, i));
        }
    }
}

proof fn lemma_showing_all_face_up(opposing: Seq<Opposing>, across: Seq<Option<Card>>, n: int)
    requires
        0 <= n <= opposing.len(),
        forall|i: int| 0 <= i < opposing.len() ==> (#[trigger] opposing[i]).face_up,
        row_bounded(as_row(opposing)),
        across_bounded(across),
    ensures
        showing_total(opposing, across, n) == total(resolve(as_row(opposing), across).take(n)),
        hidden_count(opposing, n) == 0,
    decreases n,
{
    let full = resolve(as_row(opposing), across);
    if n > 0 {
        lemma_showing_all_face_up(opposing, across, n - 1);
        lemma_resolve_bounded(as_row(opposing), across);
        assert(full.take(n).drop_last() =~= full.take(n - 1));
        assert(full.take(n).last() == full[n - 1]);
        let i = n - 1;
        assert(opposing[i].face_up);
        if i > 0 {
            assert(opposing[i - 1].face_up);
            assert(face_up_card(opposing, i - 1) == Some(as_row(opposing)[i - 1].card));
        }
        if i + 1 < opposing.len() {
            assert(opposing[i + 1].face_up);
            assert(face_up_card(opposing, i + 1) == Some(as_row(opposing)[i + 1].card));
        }
        assert(showing_value(opposing, across, i) == slot_value(as_row(opposing), across, i));
    } else {
        assert(full.take(0) =~= Seq::<crate::duel::Played>::empty());
    }
}

/// With every Opposing Card face up, what the player adds up is the whole
/// truth: the sum showing is the House Edge, Tells and all, and nothing is
/// hidden.
pub proof fn lemma_face_up_cards_show_the_whole_edge(m: DuelModel)
    requires
        m.sound(),
        m.showdown is None,
        forall|i: int| 0 <= i < m.opposing.len() ==> (#[trigger] m.opposing[i]).face_up,
    ensures
        m.showing() == (m.house_edge(), 0int),
{
    lemma_wf_bounds(m);
    lemma_showing_all_face_up(m.opposing, row_cards(m.row), m.opposing.len() as int);
    let full = resolve(as_row(m.opposing), row_cards(m.row));
    assert(full.take(m.opposing.len() as int) =~= full);
}

/// What the player can add up from the face-up cards never says more than
/// the Opposing Cards are worth, as long as no face-up Copycat reads a
/// face-down card. (One that does counts for its own print, which may be
/// more than the hidden card it copies.)
pub proof fn lemma_showing_never_over_reads(m: DuelModel)
    requires
        m.sound(),
        m.showdown is None,
        no_copycat_reads_blind(m.opposing),
    ensures
        m.showing().0 <= m.house_edge(),
{
    lemma_wf_bounds(m);
    lemma_showing_prefix(m.opposing, row_cards(m.row), m.opposing.len() as int);
    let full = resolve(as_row(m.opposing), row_cards(m.row));
    assert(full.take(m.opposing.len() as int) =~= full);
}

/// Two rows of Opposing Cards that differ at most in the cards lying face
/// down: the same length, the same cards face up, and those cards the same.
pub open spec fn differ_only_face_down(a: Seq<Opposing>, b: Seq<Opposing>) -> bool {
    &&& a.len() == b.len()
    &&& forall|i: int|
        0 <= i < a.len() ==> (#[trigger] a[i]).face_up == b[i].face_up && (a[i].face_up ==> a[i].card == b[i].card)
}

proof fn lemma_face_down_prefix(a: Seq<Opposing>, b: Seq<Opposing>, across: Seq<Option<Card>>, n: int)
    requires
        differ_only_face_down(a, b),
        0 <= n <= a.len(),
    ensures
        showing_total(a, across, n) == showing_total(b, across, n),
        hidden_count(a, n) == hidden_count(b, n),
    decreases n,
{
    if n > 0 {
        lemma_face_down_prefix(a, b, across, n - 1);
        let i = n - 1;
        assert(a[i].face_up == b[i].face_up);
        if a[i].face_up {
            assert(a[i].card == b[i].card);
            if 0 <= i - 1 {
                assert(a[i - 1].face_up == b[i - 1].face_up);
            }
            if i + 1 < a.len() {
                assert(a[i + 1].face_up == b[i + 1].face_up);
            }
            assert(face_up_card(a, i - 1) == face_up_card(b, i - 1));
            assert(face_up_card(a, i + 1) == face_up_card(b, i + 1));
            assert(showing_value(a, across, i) == showing_value(b, across, i));
        }
    }
}

/// What the player may add up never depends on a face-down card: two tables
/// that differ only in the cards lying face down show the same sum over the
/// same number of hidden cards, and read The Hand the same.
pub proof fn lemma_face_down_cards_say_nothing(m: DuelModel, opposing: Seq<Opposing>)
    requires
        m.showdown is None,
        differ_only_face_down(m.opposing, opposing),
    ensures
        (DuelModel { opposing, ..m }).showing() == m.showing(),
        (DuelModel { opposing, ..m }).hand() == m.hand(),
{
    lemma_face_down_prefix(m.opposing, opposing, row_cards(m.row), m.opposing.len() as int);
    assert(visible(opposing) =~= visible(m.opposing)) by {
        assert forall|i: int| 0 <= i < opposing.len() implies visible(opposing)[i] == visible(m.opposing)[i] by {
            assert(m.opposing[i].face_up == opposing[i].face_up);
        }
    }
}

/// Filling the Draw off a deck with no discard behind it draws the deck's
/// last cards, last first, until the Draw holds seven or the deck runs out.
pub proof fn lemma_refill_from_deck(deck: Seq<Card>, draw: Seq<Card>, rng: u64)
    requires
        draw.len() <= DRAW_SIZE,
    ensures
        refill(deck, draw, Seq::empty(), rng).1.len() == if draw.len() + deck.len() < DRAW_SIZE {
            (draw.len() + deck.len()) as int
        } else {
            DRAW_SIZE as int
        },
        forall|k: int|
            0 <= k < refill(deck, draw, Seq::empty(), rng).1.len() - draw.len() ==> refill(deck, draw, Seq::empty(), rng).1[draw.len() + k]
                == #[trigger] deck[deck.len() - 1 - k],
        refill(deck, draw, Seq::empty(), rng).1.take(draw.len() as int) == draw,
    decreases DRAW_SIZE - draw.len(),
{
    if draw.len() < DRAW_SIZE && deck.len() > 0 {
        let d1 = deck.drop_last();
        let w1 = draw.push(deck.last());
        lemma_refill_from_deck(d1, w1, rng);
        let w = refill(deck, draw, Seq::empty(), rng).1;
        assert(w == refill(d1, w1, Seq::empty(), rng).1);
        assert forall|k: int| 0 <= k < w.len() - draw.len() implies w[draw.len() + k] == #[trigger] deck[deck.len() - 1 - k] by {
            if k == 0 {
                assert(w.take(w1.len() as int)[draw.len() as int] == w1[draw.len() as int]);
            } else {
                assert(w[w1.len() + (k - 1)] == d1[d1.len() - 1 - (k - 1)]);
            }
        }
        assert(w.take(draw.len() as int) =~= w.take(w1.len() as int).take(draw.len() as int));
    } else {
        assert(draw.take(draw.len() as int) =~= draw);
    }
}

/// A new duel deals seven cards into the Draw, the last seven of the deck
/// last first, and leaves the rest in the deck; a deck of fewer than seven
/// is dealt whole.
pub proof fn lemma_a_new_duel_deals_seven(deck: Seq<Card>, player_chips: u32, plays: u8, enemy: crate::run::Enemy)
    ensures
        ({
            let m = crate::duel::opening(deck, player_chips, plays, enemy).refilled().with_dealt();
            &&& m.draw.len() == if deck.len() < DRAW_SIZE {
                deck.len() as int
            } else {
                DRAW_SIZE as int
            }
            &&& forall|k: int| 0 <= k < m.draw.len() ==> m.draw[k] == #[trigger] deck[deck.len() - 1 - k]
            &&& m.row.len() == 0
            &&& m.turn == 1
        }),
{
    lemma_refill_from_deck(deck, Seq::empty(), 0x5eed_cafe_f00d_d1ce);
}

} // verus!
