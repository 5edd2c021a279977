//! The duel, played from the outside: dealing, placing and lifting cards,
//! every Tell, the reveal, Push Your Luck, the Loaded Dice and The House.

use all_in::duel::{resolve_row, Coin, Duel, Outcome, Phase, PlayError, Push, TurnResult};
use all_in::run::{
    Card, CombatOutcome, Deal, Enemy, HoleCard, Perk, RisingBlinds, Tell, LOADED_DICE_BONUS,
};

fn card(face_value: u32) -> Card {
    Card { name: "card", face_value, tell: None }
}

fn streak(face_value: u32) -> Card {
    Card { name: "streak", face_value, tell: Some(Tell::Streak) }
}

fn all_in(face_value: u32) -> Card {
    Card { name: "all in", face_value, tell: Some(Tell::AllIn) }
}

fn copycat(face_value: u32) -> Card {
    Card { name: "copycat", face_value, tell: Some(Tell::Copycat) }
}

fn flop(face_value: u32) -> Card {
    Card { name: "flop", face_value, tell: Some(Tell::Flop) }
}

/// An enemy that deals a row of `row` cards, every one of them a 6 with no
/// Tell and face up.
fn enemy(chips: u32, row: u8) -> Enemy {
    Enemy {
        name: "shill",
        chips,
        deal: Deal { row, low: 6, high: 6, tell_pct: 0, tells: &[], hidden_pct: 0 },
        blinds: RisingBlinds { every_turns: 2, cards: 1 },
        hole_card: None,
    }
}

/// The House: it keeps its last card back and the Blinds raise its margin.
/// Its own dealt cards are 1s, so the Hole Card carries the row.
fn the_house(chips: u32, margin: u32) -> Enemy {
    Enemy {
        hole_card: Some(HoleCard { margin, step: 2 }),
        deal: Deal { low: 1, high: 1, ..enemy(chips, 5).deal },
        ..enemy(chips, 5)
    }
}

/// A deck of vanilla cards 1..=n, so card n is drawn first.
fn vanilla_deck(n: u32) -> Vec<Card> {
    (1..=n).map(card).collect()
}

/// A duel facing a row of `n` sixes: the plain case, worth 6n.
fn duel_facing_sixes(n: u8) -> Duel {
    Duel::new(vanilla_deck(18), 40, 5, enemy(999, n))
}

#[test]
fn a_new_duel_deals_seven_cards_into_the_draw() {
    let duel = duel_facing_sixes(3);

    assert_eq!(duel.draw().len(), 7);
    let face_values: Vec<u32> = duel.draw().iter().map(|c| c.face_value).collect();
    assert_eq!(face_values, vec![18, 17, 16, 15, 14, 13, 12]);
}

#[test]
fn the_enemy_lays_its_row_down_before_the_player_plays_a_card() {
    let duel = duel_facing_sixes(4);

    assert_eq!(duel.opposing().len(), 4);
    assert_eq!(duel.slots(), 4);
    assert!(duel.row().is_empty());
    assert_eq!(duel.house_edge(), 24);
}

#[test]
fn the_first_opposing_card_is_always_face_up() {
    // Every card after the first is dealt face down, so only the rule
    // that the first one isn't can put a card face up.
    let mut hidden = enemy(999, 5);
    hidden.deal.hidden_pct = 100;

    for seed in 1..40u64 {
        let duel = Duel::new(vanilla_deck(18), 40, 5, hidden.clone()).with_seed(seed * 2 + 1);
        let face_up: Vec<bool> = duel.opposing().iter().map(|o| o.face_up).collect();
        assert_eq!(face_up, vec![true, false, false, false, false]);
    }
}

#[test]
fn a_middling_deal_turns_some_cards_over_and_leaves_others_down() {
    let mut coin_toss = enemy(999, 6);
    coin_toss.deal.hidden_pct = 50;
    let mut seen = (false, false);

    for seed in 1..60u64 {
        let duel =
            Duel::new(vanilla_deck(18), 40, 5, coin_toss.clone()).with_seed(seed * 2 + 1);
        // Past the first card, which is never a toss.
        for opposing in &duel.opposing()[1..] {
            if opposing.face_up {
                seen.0 = true;
            } else {
                seen.1 = true;
            }
        }
    }

    assert_eq!(seen, (true, true), "the deal lands on both faces");
}

#[test]
fn placing_a_card_puts_it_in_the_next_empty_slot() {
    let mut duel = duel_facing_sixes(3);

    assert_eq!(duel.place(0, None), Ok(0));
    assert_eq!(duel.place(0, None), Ok(1));

    let row: Vec<u32> = duel.row().iter().map(|p| p.card.face_value).collect();
    assert_eq!(row, vec![18, 17]);
    assert_eq!(duel.hand(), 35);
    assert_eq!(duel.plays_left(), 1);
    assert_eq!(duel.draw().len(), 5);
}

#[test]
fn the_row_is_as_long_as_the_enemys_and_no_longer() {
    let mut duel = duel_facing_sixes(2);
    assert_eq!(duel.plays_left(), 2, "two Opposing Cards, two slots");

    duel.place(0, None).unwrap();
    duel.place(0, None).unwrap();

    assert_eq!(duel.plays_left(), 0);
    assert_eq!(duel.place(0, None), Err(PlayError::RowIsFull));
}

#[test]
fn a_row_longer_than_your_plays_leaves_slots_you_cannot_cover() {
    // Seven Opposing Cards against five Plays: two slots go uncovered,
    // and what sits in them is free chips for the enemy.
    let mut duel = Duel::new(vanilla_deck(18), 40, 5, enemy(999, 7));
    assert_eq!(duel.slots(), 7);
    assert_eq!(duel.plays_left(), 5);

    for _ in 0..5 {
        duel.place(0, None).unwrap();
    }

    assert_eq!(duel.plays_left(), 0);
    assert_eq!(duel.row().len(), 5);
    assert_eq!(duel.house_edge(), 42, "all seven still count for them");
}

#[test]
fn lifting_a_card_hands_it_back_and_closes_the_gap() {
    let mut duel = duel_facing_sixes(4);
    duel.place(0, None).unwrap(); // 18
    duel.place(0, None).unwrap(); // 17
    duel.place(0, None).unwrap(); // 16
    assert_eq!(duel.hand(), 51);

    let lifted = duel.lift(1).expect("a card in slot 1");

    assert_eq!(lifted.face_value, 17);
    let row: Vec<u32> = duel.row().iter().map(|p| p.card.face_value).collect();
    assert_eq!(row, vec![18, 16], "the 16 slid left into slot 1");
    assert_eq!(duel.hand(), 34);
    assert_eq!(duel.plays_left(), 2);
    assert!(
        duel.draw().iter().any(|c| c.face_value == 17),
        "back in the Draw"
    );
}

#[test]
fn lifting_an_all_in_hands_back_what_it_burned_too() {
    // Drawn first: all_in(2), card(8), ...
    let deck = vec![
        card(1),
        card(1),
        card(1),
        card(1),
        card(1),
        card(8),
        all_in(2),
    ];
    let mut duel = Duel::new(deck, 40, 5, enemy(999, 3));
    duel.place(0, Some(0)).unwrap_err(); // can't burn itself
    duel.place(0, Some(1)).unwrap(); // All In 2 burning the 8
    assert_eq!(duel.hand(), 10);
    assert_eq!(duel.draw().len(), 5);

    duel.lift(0).unwrap();

    assert_eq!(duel.hand(), 0);
    assert_eq!(duel.draw().len(), 7, "both cards came back");
    assert!(duel.draw().iter().any(|c| c.face_value == 8));
}

#[test]
fn lifting_a_slot_nobody_filled_is_refused() {
    let mut duel = duel_facing_sixes(3);

    assert_eq!(duel.lift(0), Err(PlayError::NoSuchCard));
}

#[test]
fn illegal_placements_are_refused_and_change_nothing() {
    let deck = vec![
        card(1),
        card(1),
        card(1),
        card(1),
        card(3),
        card(8),
        all_in(2),
    ];
    let mut duel = Duel::new(deck, 40, 5, enemy(999, 5));

    assert_eq!(duel.place(9, None), Err(PlayError::NoSuchCard));
    assert_eq!(duel.place(0, None), Err(PlayError::AllInNeedsSacrifice));
    assert_eq!(duel.place(0, Some(0)), Err(PlayError::NoSuchCard));
    assert_eq!(duel.place(0, Some(9)), Err(PlayError::NoSuchCard));
    assert_eq!(duel.place(1, Some(2)), Err(PlayError::NotAllIn));
    assert_eq!(duel.hand(), 0);
    assert_eq!(duel.draw().len(), 7);
}

#[test]
fn the_higher_row_takes_the_difference_off_the_other_sides_chips() {
    // Three 6s across: 18. The player covers them with 18, 17 and 16.
    let mut duel = Duel::new(vanilla_deck(18), 40, 5, enemy(100, 3));
    for _ in 0..3 {
        duel.place(0, None).unwrap();
    }

    let result = duel.end_turn();

    assert_eq!(
        result,
        TurnResult {
            hand: 51,
            house_edge: 18,
            kind: Outcome::Payout(33),
            pyl: None,
            blinds_rose: false,
        }
    );
    assert_eq!(duel.enemy_chips(), 67);
    assert_eq!(duel.player_chips(), 40);
}

#[test]
fn falling_short_takes_the_difference_out_of_your_own_chips() {
    // Five 6s across: 30, against one card of 18.
    let mut duel = Duel::new(vanilla_deck(18), 40, 5, enemy(100, 5));
    duel.place(0, None).unwrap();

    let result = duel.end_turn();

    assert_eq!(result.kind, Outcome::Whiff(12));
    assert_eq!(duel.player_chips(), 28);
    assert_eq!(duel.enemy_chips(), 100);
}

#[test]
fn two_rows_that_tie_pay_nobody() {
    // Three 6s across: 18. Cover it with exactly 18.
    let deck = vec![
        card(1),
        card(1),
        card(1),
        card(1),
        card(4),
        card(6),
        card(8),
    ];
    let mut duel = Duel::new(deck, 40, 5, enemy(100, 3));
    for _ in 0..3 {
        duel.place(0, None).unwrap();
    }
    assert_eq!(duel.hand(), 18);

    let result = duel.end_turn();

    assert_eq!(result.kind, Outcome::Payout(0));
    assert_eq!(duel.player_chips(), 40);
    assert_eq!(duel.enemy_chips(), 100);
    assert_eq!(
        duel.phase(),
        Phase::Playing,
        "a tie is never offered the coin"
    );
}

#[test]
fn confirming_clears_both_rows_and_deals_the_next_ones() {
    let mut duel = Duel::new(vanilla_deck(18), 40, 5, enemy(999, 3));
    for _ in 0..3 {
        duel.place(0, None).unwrap();
    }
    duel.end_turn();

    assert!(duel.row().is_empty());
    assert_eq!(duel.opposing().len(), 3, "a fresh row across the table");
    assert_eq!(duel.plays_left(), 3);
    assert_eq!(duel.draw().len(), 7);
    // The four unplayed cards carried over, then three fresh ones.
    let face_values: Vec<u32> = duel.draw().iter().map(|c| c.face_value).collect();
    assert_eq!(face_values, vec![15, 14, 13, 12, 11, 10, 9]);
}

#[test]
fn the_showdown_is_kept_for_the_screen_after_the_turn_is_over() {
    let mut duel = Duel::new(vanilla_deck(18), 40, 5, enemy(999, 2));
    duel.place(0, None).unwrap();
    duel.place(0, None).unwrap();

    assert!(duel.last_showdown().is_none());
    duel.end_turn();

    let showdown = duel
        .last_showdown()
        .expect("the rows that just turned over");
    assert_eq!(showdown.hand, 35);
    assert_eq!(showdown.house_edge, 12);
    assert_eq!(showdown.row.len(), 2);
    assert_eq!(showdown.opposing.len(), 2);
}

#[test]
fn the_last_showdown_stays_up_while_the_next_prompt_is() {
    let mut duel = Duel::new(vanilla_deck(18), 40, 5, enemy(999, 2));
    duel.place(0, None).unwrap();
    duel.place(0, None).unwrap();
    duel.end_turn();

    duel.place(0, None).unwrap();
    duel.place(0, None).unwrap();
    assert!(duel.confirm().is_none(), "the prompt is up");

    let last = duel.last_showdown().expect("the rows of the turn before");
    assert_eq!(last.hand, 35);
    assert_eq!(last.house_edge, 12);
    assert!(duel.showdown().is_some());
}

#[test]
fn rising_blinds_lay_another_opposing_card_down_every_two_turns() {
    let mut duel = Duel::new(vanilla_deck(40), 999, 5, enemy(9999, 3));

    assert_eq!(duel.slots(), 3);
    let t1 = duel.end_turn();
    assert!(!t1.blinds_rose);
    assert_eq!(duel.slots(), 3);
    let t2 = duel.end_turn();
    assert!(t2.blinds_rose);
    assert_eq!(duel.slots(), 4, "the enemy lays one more");
    duel.end_turn();
    duel.end_turn();
    assert_eq!(duel.slots(), 5);
}

#[test]
fn the_duel_is_won_when_the_enemy_chips_hit_zero() {
    let mut duel = Duel::new(vanilla_deck(18), 40, 5, enemy(30, 3));
    for _ in 0..3 {
        duel.place(0, None).unwrap();
    }

    duel.end_turn(); // 51 against 18: a Payout of 33

    assert_eq!(duel.enemy_chips(), 0);
    assert_eq!(duel.outcome(), Some(CombatOutcome::Won));
}

#[test]
fn the_duel_is_lost_when_your_chips_hit_zero() {
    // Five 6s across and nothing covering them: a Whiff of 30.
    let mut duel = Duel::new(vanilla_deck(18), 10, 5, enemy(50, 5));

    duel.end_turn();

    assert_eq!(duel.player_chips(), 0);
    assert_eq!(duel.outcome(), Some(CombatOutcome::Lost));
}

#[test]
fn the_discard_is_reshuffled_into_the_deck_when_it_runs_dry() {
    // 9 cards: 7 dealt, 2 in the deck. After a turn of 5 cards there are
    // 2 left in the Draw, 2 come from the deck, and 3 must come back
    // from the discard.
    let mut duel = Duel::new(vanilla_deck(9), 40, 5, enemy(999, 5));
    for _ in 0..5 {
        duel.place(0, None).unwrap();
    }
    duel.end_turn();

    assert_eq!(duel.draw().len(), 7);
    let mut face_values: Vec<u32> = duel.draw().iter().map(|c| c.face_value).collect();
    face_values.sort_unstable();
    assert!(face_values.contains(&4) && face_values.contains(&3));
    assert_eq!(face_values.iter().filter(|&&v| v >= 5).count(), 3);
}


/// What the player's row resolved to, slot by slot.
fn resolved(duel: &Duel) -> Vec<u32> {
    resolve_row(&duel.row().to_vec(), &duel.opposing_cards())
        .iter()
        .map(|p| p.value)
        .collect()
}

/// A duel holding exactly `draw` in the Draw, facing exactly `across`.
fn table(draw: Vec<Card>, across: Vec<Card>) -> Duel {
    let plays = draw.len() as u8;
    // `Duel` draws off the end, so the first card of `draw` goes last.
    let deck: Vec<Card> = draw.into_iter().rev().collect();
    Duel::new(deck, 40, plays, enemy(999, 1)).facing(across)
}

#[test]
fn streak_doubles_when_the_card_in_the_slot_to_its_left_has_a_tell() {
    let mut duel = table(
        vec![all_in(2), streak(5), card(3)],
        vec![card(1), card(1), card(1)],
    );

    duel.place(0, Some(2)).unwrap(); // All In 2 burning card(3): 5
    duel.place(0, None).unwrap(); // Streak 5, after a Tell

    assert_eq!(resolved(&duel), vec![5, 10]);
    assert_eq!(duel.hand(), 15);
}

#[test]
fn streak_does_not_double_after_a_plain_card_or_in_the_first_slot() {
    let mut duel = table(
        vec![streak(5), card(3), streak(4)],
        vec![card(1), card(1), card(1)],
    );

    for _ in 0..3 {
        duel.place(0, None).unwrap();
    }

    assert_eq!(resolved(&duel), vec![5, 3, 4]);
    assert_eq!(duel.hand(), 12);
}

#[test]
fn all_in_burns_the_sacrifice_and_adds_its_face_value_wherever_it_sits() {
    let mut duel = table(
        vec![all_in(2), card(8), card(3)],
        vec![card(1), card(1), card(1)],
    );

    duel.place(0, Some(1)).unwrap(); // burn the 8

    assert_eq!(resolved(&duel), vec![10]);
    // Both the All In and what it burned have left the Draw.
    assert_eq!(duel.draw().len(), 1);
}

#[test]
fn copycat_takes_the_face_value_of_the_slot_to_its_right() {
    let mut duel = table(
        vec![copycat(3), card(6), card(2)],
        vec![card(1), card(1), card(1)],
    );

    duel.place(0, None).unwrap();
    // On its own at the end of the row, a Copycat is worth its own print.
    assert_eq!(resolved(&duel), vec![3]);

    duel.place(0, None).unwrap();
    assert_eq!(resolved(&duel), vec![6, 6], "the 6 filled it in");
    assert_eq!(duel.hand(), 12);
}

#[test]
fn copycat_takes_the_print_and_not_what_the_card_resolved_to() {
    let mut duel = table(
        vec![copycat(3), streak(5), card(4)],
        vec![card(1), card(1), card(1)],
    );

    for _ in 0..3 {
        duel.place(0, None).unwrap();
    }

    // The Streak doubled off the Copycat's Tell; the Copycat still only
    // took the 5 that is printed on it.
    assert_eq!(resolved(&duel), vec![5, 10, 4]);
}

#[test]
fn flop_takes_the_face_value_of_the_opposing_card_across_from_it() {
    let mut duel = table(
        vec![flop(2), flop(2), flop(2)],
        vec![card(9), card(3), card(7)],
    );

    for _ in 0..3 {
        duel.place(0, None).unwrap();
    }

    assert_eq!(resolved(&duel), vec![9, 3, 7], "each one ties its own slot");
    assert_eq!(duel.hand(), duel.house_edge());
}

#[test]
fn a_flop_moves_with_its_slot_when_the_row_is_rearranged() {
    let mut duel = table(vec![card(4), flop(2)], vec![card(9), card(3)]);

    duel.place(0, None).unwrap(); // the 4, in slot 0
    duel.place(0, None).unwrap(); // the Flop, in slot 1, across the 3
    assert_eq!(resolved(&duel), vec![4, 3]);

    // Lift the 4 and the Flop slides left, across the 9 instead.
    duel.lift(0).unwrap();
    assert_eq!(resolved(&duel), vec![9]);
}

#[test]
fn a_flop_with_nothing_across_it_is_worth_its_own_print() {
    // Two slots, but the player has three Plays and only two can land;
    // the third slot doesn't exist, so a Flop there would read nothing.
    let mut duel = table(vec![flop(7)], vec![]);
    // No Opposing Cards at all: no slots to fill.
    assert_eq!(duel.slots(), 0);
    assert_eq!(duel.place(0, None), Err(PlayError::RowIsFull));

    // The same card against a row it does reach.
    let mut duel = table(vec![flop(7), card(1)], vec![card(2), card(2)]);
    duel.place(0, None).unwrap();
    assert_eq!(resolved(&duel), vec![2]);
}

#[test]
fn the_enemys_tells_resolve_by_the_same_rules() {
    // A Streak in slot 1 doubling off the Copycat in slot 0, and a Flop
    // in slot 2 reading the player's card across from it.
    let mut duel = table(
        vec![card(4), card(5), card(9)],
        vec![copycat(3), streak(6), flop(1)],
    );

    for _ in 0..3 {
        duel.place(0, None).unwrap();
    }

    // Copycat takes the Streak's print (6), the Streak doubles after a
    // Tell (12), the Flop takes the 9 across from it.
    assert_eq!(duel.house_edge(), 6 + 12 + 9);
}

#[test]
fn a_flop_on_each_side_of_the_table_reads_the_print_and_not_the_other_flop() {
    // Both rows are Flops facing each other. Face Values throughout,
    // so each takes the other's print and neither chases the other.
    let mut duel = table(vec![flop(4)], vec![flop(6)]);

    duel.place(0, None).unwrap();

    assert_eq!(duel.hand(), 6, "yours took their print");
    assert_eq!(duel.house_edge(), 4, "theirs took yours");
}

#[test]
fn an_all_in_across_the_table_is_worth_its_print_and_nothing_else() {
    // No enemy deals itself an All In, but nothing in the model breaks if
    // a reward or a future enemy ever puts one there.
    let mut duel = table(vec![card(4)], vec![all_in(5)]);
    duel.place(0, None).unwrap();

    assert_eq!(duel.house_edge(), 5);
}


/// A duel facing `across`, with the slots named in `hidden` face down.
fn facing_with_hidden(across: Vec<Card>, hidden: &[usize]) -> Duel {
    let row: Vec<(Card, bool)> = across
        .into_iter()
        .enumerate()
        .map(|(i, card)| (card, !hidden.contains(&i)))
        .collect();
    Duel::new(vec![card(4); 18], 40, 5, enemy(999, 3)).with_opposing(row)
}

#[test]
fn the_player_only_adds_up_what_is_face_up() {
    let duel = facing_with_hidden(vec![card(7), card(5), card(6)], &[1]);

    assert_eq!(duel.showing(), (13, 1), "the 5 is face down");
    assert_eq!(duel.house_edge(), 18, "the model knows the whole of it");
}

#[test]
fn a_face_up_streak_beside_a_face_down_card_never_says_what_is_under_it() {
    // The hidden card has a Tell, so the Streak really will double. The
    // player has no way to know that until the showdown.
    let duel = facing_with_hidden(vec![copycat(4), streak(5)], &[0]);

    assert_eq!(duel.showing(), (5, 1), "the Streak counts as its print");
    assert_eq!(duel.house_edge(), 5 + 10);
}

#[test]
fn a_flop_across_a_face_down_card_reads_its_own_print_until_the_rows_turn_over() {
    let mut deck = vec![card(1); 17];
    deck.push(flop(3)); // drawn first
    let mut duel = Duel::new(deck, 40, 5, enemy(999, 3)).with_opposing(vec![
        (card(9), false),
        (card(2), true),
        (card(2), true),
    ]);

    duel.place(0, None).unwrap();
    assert_eq!(duel.hand(), 3, "nothing it can see across, so its own 3");

    duel.confirm();
    assert_eq!(duel.hand(), 9, "turned over, the 9 was across");
}

#[test]
fn a_face_up_copycat_reading_a_face_down_card_counts_as_its_print() {
    let duel = facing_with_hidden(vec![copycat(4), card(9)], &[1]);

    assert_eq!(duel.showing(), (4, 1));
    assert_eq!(duel.house_edge(), 9 + 9);
}

#[test]
fn a_face_up_flop_reads_your_own_card_so_it_hides_nothing() {
    let mut duel = facing_with_hidden(vec![flop(2), card(3)], &[]);
    assert_eq!(duel.showing(), (2 + 3, 0), "nothing across it yet");

    duel.place(0, None).unwrap(); // a 4 in slot 0

    assert_eq!(duel.showing(), (4 + 3, 0));
    assert_eq!(duel.house_edge(), 7);
}

#[test]
fn everything_turns_over_when_the_row_is_confirmed() {
    // A row worth 4, so two of the Draw's 4s beat it and the rows stay
    // on the table with the coin on offer rather than resolving away.
    let mut duel = facing_with_hidden(vec![card(2), card(1), card(1)], &[1, 2]);
    assert_eq!(duel.showing(), (2, 2));

    duel.place(0, None).unwrap();
    duel.place(0, None).unwrap();

    duel.confirm();

    assert!(duel.opposing().iter().all(|o| o.face_up));
    assert_eq!(duel.showing(), (4, 0));
    assert_eq!(duel.house_edge(), 4);
}

#[test]
fn the_next_turns_cards_come_down_face_down_again() {
    // The reveal belongs to the turn that was confirmed, not to the duel.
    let mut duel = facing_with_hidden(vec![card(7), card(5), card(6)], &[1, 2]);

    duel.place(0, None).unwrap();
    duel.end_turn(); // a Whiff: it resolves and deals the next row

    assert_eq!(duel.showing().1, 2, "two face down again");
}


/// One card of `hand` against a row that adds up to `edge`.
fn hand_of(hand: u32, edge: u32) -> Duel {
    let mut deck = vec![card(1); 6];
    deck.push(card(hand));
    let mut duel = Duel::new(deck, 40, 5, enemy(999, 1))
        .facing(vec![card(edge)])
        .with_coin(Coin::sure_thing());
    duel.place(0, None).unwrap();
    duel
}

#[test]
fn beating_the_opposing_cards_offers_push_your_luck_instead_of_resolving() {
    let mut duel = hand_of(30, 20);

    duel.confirm();

    assert_eq!(duel.phase(), Phase::PushYourLuck);
    assert_eq!(duel.enemy_chips(), 999, "nothing dealt yet");
    assert_eq!(duel.hand(), 30);
}

#[test]
fn a_whiff_is_offered_the_flip_too() {
    let mut duel = hand_of(10, 20);

    duel.confirm();

    assert_eq!(duel.phase(), Phase::PushYourLuck);
    // Nothing has been dealt yet.
    assert_eq!(duel.player_chips(), 40);
    assert_eq!(duel.hand(), 10);
}

#[test]
fn the_prompt_can_quote_what_a_whiff_would_cost() {
    let mut duel = hand_of(10, 20);
    duel.confirm();

    assert_eq!(duel.whiff(None), 10);
    assert_eq!(duel.whiff(Some(Push::Won)), 0);
    assert_eq!(duel.whiff(Some(Push::Lost)), 20);
    assert_eq!(duel.payout(None), 0);
}

#[test]
fn holding_a_whiff_takes_it_as_normal() {
    let mut duel = hand_of(10, 20);
    duel.confirm();

    let result = duel.hold().expect("the prompt is up");

    assert_eq!(result.kind, Outcome::Whiff(10));
    assert_eq!(result.pyl, None);
    assert_eq!(duel.phase(), Phase::Playing);
    assert_eq!(duel.player_chips(), 30);
}

#[test]
fn duel_pushing_a_whiff_and_winning_forgives_it() {
    let mut duel = hand_of(10, 20);
    duel.confirm();

    let result: TurnResult = duel.push().expect("the prompt is up");

    assert_eq!(result.pyl, Some(Push::Won));
    assert_eq!(result.hand, 10);
    assert_eq!(result.kind, Outcome::Whiff(0));
    assert_eq!(duel.player_chips(), 40);
    assert_eq!(duel.enemy_chips(), 999);
    assert_eq!(duel.phase(), Phase::Playing);
}

#[test]
fn duel_pushing_a_whiff_and_losing_doubles_it() {
    let mut duel = hand_of(10, 20);
    duel.set_coin(Coin::rigged());
    duel.confirm();

    let result = duel.push().expect("the prompt is up");

    assert_eq!(result.pyl, Some(Push::Lost));
    assert_eq!(result.hand, 10);
    assert_eq!(result.kind, Outcome::Whiff(20));
    assert_eq!(duel.player_chips(), 20);
}

#[test]
fn a_doubled_whiff_can_end_the_duel() {
    let mut deck = vec![card(1); 6];
    deck.push(card(10));
    let mut duel = Duel::new(deck, 15, 5, enemy(999, 20)).with_coin(Coin::rigged());
    duel.place(0, None).unwrap();
    duel.confirm();

    duel.push().expect("the prompt is up");

    assert_eq!(duel.player_chips(), 0);
    assert_eq!(duel.outcome(), Some(CombatOutcome::Lost));
}

#[test]
fn duel_holding_resolves_the_turn_as_normal() {
    let mut duel = hand_of(30, 20);
    duel.confirm();

    let result = duel.hold().expect("the prompt is up");

    assert_eq!(
        result,
        TurnResult {
            hand: 30,
            house_edge: 20,
            kind: Outcome::Payout(10),
            pyl: None,
            blinds_rose: false,
        }
    );
    assert_eq!(duel.enemy_chips(), 989);
    assert_eq!(duel.phase(), Phase::Playing);
}

#[test]
fn pushing_and_winning_doubles_the_payout_and_not_the_hand() {
    let mut duel = hand_of(30, 20);
    duel.confirm();

    let result = duel.push().expect("the prompt is up");

    assert_eq!(result.pyl, Some(Push::Won));
    assert_eq!(result.hand, 30);
    assert_eq!(result.kind, Outcome::Payout(20));
    assert_eq!(duel.enemy_chips(), 979);
}

#[test]
fn pushing_and_losing_zeroes_the_hand_into_a_full_whiff() {
    let mut duel = hand_of(30, 20);
    duel.set_coin(Coin::rigged());
    duel.confirm();

    let result = duel.push().expect("the prompt is up");

    assert_eq!(result.pyl, Some(Push::Lost));
    assert_eq!(result.hand, 30); // as shown; the flip is what zeroed it
    assert_eq!(result.kind, Outcome::Whiff(20));
    assert_eq!(duel.player_chips(), 20);
    assert_eq!(duel.enemy_chips(), 999);
}

#[test]
fn the_row_is_final_once_the_prompt_is_up() {
    let mut duel = hand_of(30, 20);
    duel.confirm();

    assert_eq!(duel.place(0, None), Err(PlayError::HandIsFinal));
    assert_eq!(duel.lift(0), Err(PlayError::HandIsFinal));
    assert_eq!(duel.hand(), 30);
}

#[test]
fn push_and_hold_do_nothing_when_no_prompt_is_up() {
    let mut duel = hand_of(30, 20);

    assert_eq!(duel.push(), None);
    assert_eq!(duel.hold(), None);
    assert_eq!(duel.enemy_chips(), 999);
}

#[test]
fn the_base_coin_is_one_flip_the_player_takes_45_times_in_100() {
    assert_eq!(
        Coin::base(),
        Coin {
            player_pct: 45,
            best_of: 1
        }
    );
    assert_eq!(Coin::base().resolve(&[44]), Push::Won);
    assert_eq!(Coin::base().resolve(&[45]), Push::Lost);
    assert_eq!(wins_over_every_roll(Coin::base()), 450_000);
}

/// Every flip the coin can be handed, counted: 100 rolls per flip.
fn wins_over_every_roll(coin: Coin) -> u32 {
    let mut wins = 0;
    for a in 0..100 {
        for b in 0..100 {
            for c in 0..100 {
                if coin.resolve(&[a, b, c]) == Push::Won {
                    wins += 1;
                }
            }
        }
    }
    wins
}

#[test]
fn slotz_option_one_is_best_two_of_three_at_49_51() {
    assert_eq!(
        Coin::slotz(),
        Coin {
            player_pct: 49,
            best_of: 3
        }
    );
    assert_eq!(Coin::slotz().resolve(&[10, 90, 10]), Push::Won);
    assert_eq!(Coin::slotz().resolve(&[90, 10, 10]), Push::Won);
    assert_eq!(Coin::slotz().resolve(&[90, 10, 90]), Push::Lost);
    assert_eq!(Coin::slotz().resolve(&[48, 48]), Push::Won);
    assert_eq!(Coin::slotz().resolve(&[49, 49]), Push::Lost);
}

#[test]
fn a_decided_best_of_three_stops_flipping() {
    let rolls = [10, 10, 10];
    assert_eq!(Coin::slotz().resolve(&rolls), Push::Won);
    let (_, read) = Coin::slotz().toss(&rolls);
    assert_eq!(rolls.len() - read, 1, "the third coin is never tossed");
}

#[test]
fn the_slotz_perk_is_what_swaps_the_coin() {
    assert_eq!(Coin::for_perks(&[]), Coin::base());
    assert_eq!(Coin::for_perks(&[Perk::SixPlaysSteepBlinds]), Coin::base());
    assert_eq!(Coin::for_perks(&[Perk::PylBestTwoOfThree]), Coin::slotz());
}

#[test]
fn slotz_option_one_is_worth_about_48_point_5_percent() {
    assert_eq!(wins_over_every_roll(Coin::slotz()), 485_002);
    assert!(
        wins_over_every_roll(Coin::slotz()) > wins_over_every_roll(Coin::base()),
        "the perk is worth taking"
    );
}

#[test]
fn the_duels_own_coin_lands_on_both_sides() {
    let mut seen = (false, false);
    for seed in 1..200u64 {
        let mut duel = hand_of(30, 20).with_seed(seed * 2 + 1);
        // `with_seed` re-deals the row, and this one is fixed, so the
        // card the test placed is still sitting across a 20.
        duel.set_coin(Coin::base());
        duel.confirm();
        match duel.push().unwrap().pyl {
            Some(Push::Won) => seen.0 = true,
            Some(Push::Lost) => seen.1 = true,
            None => panic!("a Push always flips"),
        }
    }
    assert_eq!(seen, (true, true));
}



/// A duel facing a single card worth `edge`.
fn facing_one(edge: u32) -> Duel {
    Duel::new(vanilla_deck(18), 40, 5, enemy(999, 1)).facing(vec![card(edge)])
}

#[test]
fn a_duel_with_no_dice_adds_nothing() {
    let mut duel = facing_one(0);

    let turn = duel.end_turn();

    assert_eq!(turn.hand, 0);
    assert_eq!(duel.dice_left(), 0);
}

#[test]
fn the_dice_land_on_the_hand_as_the_rows_turn_over() {
    let mut duel = facing_one(0).with_loaded_dice(2);
    duel.place(0, None).unwrap(); // 18

    // Nothing on The Hand until the showdown: The House reads what it can
    // see, and the dice land after that (the Hole Card rule).
    assert_eq!(duel.hand(), 18);
    let turn = duel.end_turn();

    assert_eq!(turn.hand, 18 + LOADED_DICE_BONUS);
    assert_eq!(duel.dice_left(), 1);
}

#[test]
fn the_dice_run_out_after_two_hands() {
    let mut duel = facing_one(0).with_loaded_dice(2);

    let hands: Vec<u32> = (0..3).map(|_| duel.end_turn().hand).collect();

    assert_eq!(hands, vec![LOADED_DICE_BONUS, LOADED_DICE_BONUS, 0]);
    assert_eq!(duel.dice_left(), 0);
}

#[test]
fn the_dice_soften_a_whiff_too() {
    let mut duel = facing_one(30).with_loaded_dice(1);

    let turn = duel.end_turn();

    assert_eq!(turn.kind, Outcome::Whiff(30 - LOADED_DICE_BONUS));
    assert_eq!(duel.dice_left(), 0);
}

#[test]
fn confirming_twice_only_spends_one_pair() {
    let mut duel = facing_one(0).with_loaded_dice(2);

    duel.confirm(); // the prompt goes up
    duel.confirm(); // and stays up, spending nothing more

    assert_eq!(duel.hand(), LOADED_DICE_BONUS);
    assert_eq!(duel.dice_left(), 1);
}



/// The House, dealing itself 1s in every slot but the one it keeps back.
fn house_table(chips: u32, margin: u32) -> Duel {
    Duel::new(vanilla_deck(18), 50, 5, the_house(chips, margin))
}

#[test]
fn the_house_deals_its_last_card_blank_and_face_down() {
    let duel = house_table(35, 1);

    assert_eq!(duel.slots(), 5);
    let last = duel.opposing().last().expect("a row");
    assert!(!last.face_up);
    assert_eq!(last.card.face_value, 0, "not decided yet");
    // Four 1s showing, and the one it kept back.
    assert_eq!(duel.showing(), (4, 1));
    assert_eq!(duel.margin(), Some(1));
}

#[test]
fn the_house_sets_its_hole_card_to_the_row_it_read_plus_the_margin() {
    let mut duel = house_table(35, 1);
    // Draw: 18,17,16,15,14. The first four are all The House sees: 66.
    for _ in 0..5 {
        duel.place(0, None).unwrap();
    }

    let result = duel.end_turn();

    assert_eq!(result.house_edge, 67, "the read row, plus the margin");
    assert_eq!(result.hand, 80);
    // The Hole Card was the 14, and it pays its value over the margin.
    assert_eq!(result.kind, Outcome::Payout(13));
    assert_eq!(duel.enemy_chips(), 22);
}

#[test]
fn a_short_row_still_keeps_only_its_last_card_from_the_house() {
    let mut duel = house_table(35, 1);
    duel.place(0, None).unwrap();
    duel.place(0, None).unwrap(); // 18 and 17, three slots left empty

    let result = duel.end_turn();

    // It read the 18 alone; the 17 was the card it couldn't see.
    assert_eq!(result.house_edge, 19);
    assert_eq!(result.hand, 35);
    assert_eq!(result.kind, Outcome::Payout(16));
}

#[test]
fn a_row_of_nothing_at_all_loses_to_what_the_house_dealt_itself() {
    let mut duel = house_table(35, 1);

    let result = duel.end_turn();

    // Nothing to read, so the Hole Card is worth nothing and the row is
    // just the four 1s The House dealt itself. It can't un-deal them to
    // come down to the margin.
    assert_eq!(result.house_edge, 4);
    assert_eq!(result.kind, Outcome::Whiff(4));
    assert_eq!(duel.player_chips(), 46);
}

#[test]
fn the_hole_card_is_worth_nothing_rather_than_less_than_nothing() {
    // The House deals itself 9s here, so its own cards are already past
    // anything a one-card row plus the margin could ask for.
    let mut rich = the_house(35, 1);
    rich.deal.low = 9;
    rich.deal.high = 9;
    let mut duel = Duel::new(vanilla_deck(18), 50, 5, rich);

    duel.place(0, None).unwrap(); // an 18, and it is the Hole Card
    let result = duel.end_turn();

    assert_eq!(result.house_edge, 36, "four 9s, and a Hole Card of 0");
    assert_eq!(result.kind, Outcome::Whiff(18));
}

#[test]
fn the_blinds_raise_the_margin_and_not_the_row() {
    let mut duel = Duel::new(vanilla_deck(40), 999, 5, the_house(9999, 1));

    assert_eq!(duel.margin(), Some(1));
    assert_eq!(duel.slots(), 5);
    duel.end_turn(); // turn 1
    duel.end_turn(); // turn 2: the Blinds tick
    assert_eq!(duel.margin(), Some(3));
    assert_eq!(duel.slots(), 5, "the row stayed where it was");
}

#[test]
fn the_loaded_dice_land_after_the_house_has_read_the_row() {
    let mut duel = house_table(35, 1).with_loaded_dice(1);
    for _ in 0..5 {
        duel.place(0, None).unwrap();
    }

    let result = duel.end_turn();

    // The Edge is the same 67 it would have been without the dice, and
    // the whole +5 falls on the player's side of the comparison.
    assert_eq!(result.house_edge, 67);
    assert_eq!(result.hand, 85);
    assert_eq!(result.kind, Outcome::Payout(18));
}

#[test]
fn a_copycat_hole_card_lands_its_own_print_after_the_lock() {
    // Drawn first: 10,10,10,10, copycat(3).
    let deck = vec![
        card(1),
        card(1),
        copycat(3),
        card(10),
        card(10),
        card(10),
        card(10),
    ];
    let mut duel = Duel::new(deck, 50, 5, the_house(100, 1));
    for _ in 0..5 {
        duel.place(0, None).unwrap();
    }

    let result = duel.end_turn();

    assert_eq!(result.house_edge, 41, "the four 10s, plus the margin");
    assert_eq!(result.hand, 43, "the Copycat at the end took its own 3");
    assert_eq!(result.kind, Outcome::Payout(2));
}

#[test]
fn ordinary_enemies_keep_no_hole_card() {
    let duel = Duel::new(vanilla_deck(18), 40, 5, enemy(30, 3));

    assert_eq!(duel.margin(), None);
    assert_eq!(duel.showing(), (18, 0), "nothing kept back");
}
