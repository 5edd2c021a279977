//! A run: the starter deck, the rewards, the enemies and their deals.

use all_in::run::{
    starter_deck, tutorial_opposing, Card, Deal, EncounterId, Enemy, HoleCard, Perk, Reward,
    RewardOffer, RisingBlinds, RunState, Tell, LOADED_DICE_HANDS, STARTING_STACK,
};


/// Any old seed; the rewards that roll dice only have to be deterministic.
const SEED: u64 = 0x1234_5678_9abc_def0;

fn tells(cards: &[Card]) -> usize {
    cards.iter().filter(|c| c.tell.is_some()).count()
}

#[test]
fn a_fresh_run_carries_nothing_from_the_last_one() {
    let run = RunState::new();

    assert_eq!(run.stack, STARTING_STACK);
    assert_eq!(run.deck.len(), starter_deck().len());
    assert!(run.perks.is_empty());
    assert!(run.items.is_empty());
    assert_eq!(run.plays(), 5);
    assert_eq!(run.loaded_dice(), 0);
}

#[test]
fn loaded_dice_are_good_for_the_next_two_hands() {
    let mut run = RunState::new();

    run.apply(Reward::LoadedDice, SEED);

    assert_eq!(run.loaded_dice(), LOADED_DICE_HANDS);
}

#[test]
fn a_second_pair_of_loaded_dice_adds_hands_rather_than_items() {
    let mut run = RunState::new();

    run.apply(Reward::LoadedDice, SEED);
    run.apply(Reward::LoadedDice, SEED);

    assert_eq!(run.items.len(), 1);
    assert_eq!(run.loaded_dice(), LOADED_DICE_HANDS * 2);
}

#[test]
fn spent_loaded_dice_leave_nothing_in_the_pocket() {
    let mut run = RunState::new();
    run.apply(Reward::LoadedDice, SEED);

    run.set_loaded_dice(1);
    assert_eq!(run.loaded_dice(), 1);

    run.set_loaded_dice(0);
    assert_eq!(run.loaded_dice(), 0);
    assert!(run.items.is_empty());
}

#[test]
fn the_slotz_card_reward_adds_three_streak_cards() {
    let mut run = RunState::new();
    let before = run.deck.len();

    run.apply(Reward::SlotzStreakCards, SEED);

    let added = &run.deck[before..];
    assert_eq!(added.len(), 3);
    assert!(added.iter().all(|c| c.tell == Some(Tell::Streak)));
}

#[test]
fn the_slotz_perk_is_the_only_thing_that_changes() {
    let mut run = RunState::new();
    let deck = run.deck.len();

    run.apply(Reward::SlotzPylBestTwoOfThree, SEED);

    assert_eq!(run.perks, vec![Perk::PylBestTwoOfThree]);
    assert_eq!(run.deck.len(), deck);
}

#[test]
fn the_pit_boss_card_reward_adds_two_tells_and_two_plain_cards() {
    let mut run = RunState::new();
    let before = run.deck.len();

    run.apply(Reward::PitBossRandomCards, SEED);

    let added = &run.deck[before..];
    assert_eq!(added.len(), 4);
    assert_eq!(tells(added), 2);
    assert!(added.iter().all(|c| (2..=8).contains(&c.face_value)));

    let names: std::collections::HashSet<_> = added.iter().map(|c| c.name).collect();
    assert_eq!(names.len(), 4, "no pack deals the same card twice");
}

#[test]
fn the_pit_boss_cards_are_rolled_from_the_seed() {
    let mut one = RunState::new();
    let mut two = RunState::new();
    let mut same = RunState::new();

    one.apply(Reward::PitBossRandomCards, SEED);
    two.apply(Reward::PitBossRandomCards, SEED ^ 0xffff);
    same.apply(Reward::PitBossRandomCards, SEED);

    assert_eq!(one.deck, same.deck, "the same seed deals the same cards");
    assert_ne!(one.deck, two.deck, "a different seed deals different ones");
}

#[test]
fn the_pit_boss_perk_buys_a_sixth_play_with_blinds_every_turn() {
    let mut run = RunState::new();
    let base = RisingBlinds {
        every_turns: 3,
        cards: 1,
    };
    assert_eq!(run.blinds(base), base);

    run.apply(Reward::PitBossSixPlays, SEED);

    assert_eq!(run.plays(), 6);
    assert_eq!(
        run.blinds(base),
        RisingBlinds {
            every_turns: 1,
            cards: 1
        }
    );
}

#[test]
fn every_encounter_worth_beating_puts_something_on_the_table() {
    
    assert_eq!(
        RewardOffer::for_encounter(EncounterId::FloorMinion),
        Some(RewardOffer::Drop(Reward::LoadedDice))
    );
    assert_eq!(
        RewardOffer::for_encounter(EncounterId::PitMinion),
        Some(RewardOffer::Drop(Reward::LoadedDice))
    );
    assert_eq!(
        RewardOffer::for_encounter(EncounterId::Slotz),
        Some(RewardOffer::Pick(
            Reward::SlotzPylBestTwoOfThree,
            Reward::SlotzStreakCards
        ))
    );
    assert_eq!(
        RewardOffer::for_encounter(EncounterId::PitBoss),
        Some(RewardOffer::Pick(
            Reward::PitBossSixPlays,
            Reward::PitBossRandomCards
        ))
    );
    // The House pays out in an ending, not a perk.
    assert_eq!(RewardOffer::for_encounter(EncounterId::TheHouse), None);
}

#[test]
fn an_opposing_card_is_dealt_inside_the_enemys_range() {
    let deal = Deal {
        row: 3,
        low: 4,
        high: 8,
        tell_pct: 100,
        tells: &[Tell::Streak],
        hidden_pct: 50,
    };
    let mut rng = SEED;

    for _ in 0..500 {
        let card = deal.card(&mut rng);
        assert!(
            (4..=8).contains(&card.face_value),
            "{} is off the range",
            card.face_value
        );
        assert_eq!(card.tell, Some(Tell::Streak));
        assert!(!card.name.is_empty());
    }
}

#[test]
fn the_tell_odds_are_what_the_enemy_says_they_are() {
    let never = Deal {
        tell_pct: 0,
        ..Enemy::for_encounter(EncounterId::PitBoss).deal
    };
    let mut rng = SEED;
    assert!((0..200).all(|_| never.card(&mut rng).tell.is_none()));

    // An enemy with no Tells listed plays none, whatever the odds say.
    let none = Deal {
        tell_pct: 100,
        tells: &[],
        ..never
    };
    assert!((0..200).all(|_| none.card(&mut rng).tell.is_none()));

    // A third of the deal, near enough, over five hundred cards.
    let some = Deal {
        tell_pct: 33,
        tells: &[Tell::Flop],
        ..never
    };
    let telled = (0..500)
        .filter(|_| some.card(&mut rng).tell.is_some())
        .count();
    assert!(
        (120..=210).contains(&telled),
        "{telled} of 500 carried a Tell"
    );
}

#[test]
fn no_enemy_deals_itself_an_all_in() {
    
    // An enemy has no Draw to burn from, so an All In across the table
    // would silently be worth its printed Stack and nothing else.
    for id in [EncounterId::FloorMinion, EncounterId::Slotz, EncounterId::PitMinion, EncounterId::PitBoss, EncounterId::TheHouse, EncounterId::Tutorial] {
        let deal = Enemy::for_encounter(id).deal;
        assert!(
            !deal.tells.contains(&Tell::AllIn),
            "{id:?} deals itself an All In"
        );
    }
}

#[test]
fn the_house_is_the_only_one_holding_a_hole_card() {
    
    assert_eq!(
        Enemy::for_encounter(EncounterId::TheHouse).hole_card,
        Some(HoleCard { margin: 1, step: 2 })
    );
    for id in [EncounterId::FloorMinion, EncounterId::Slotz, EncounterId::PitMinion, EncounterId::PitBoss, EncounterId::Tutorial] {
        assert_eq!(Enemy::for_encounter(id).hole_card, None, "{id:?}");
    }
}

#[test]
fn the_arcades_opposing_row_is_twenty_chips_with_eight_of_them_face_down() {
    let row = tutorial_opposing();

    assert_eq!(row.len(), 5, "one slot per card the script plays");
    assert_eq!(row.iter().map(|(c, _)| c.face_value).sum::<u32>(), 20);
    let hidden: u32 = row
        .iter()
        .filter(|(_, face_up)| !face_up)
        .map(|(c, _)| c.face_value)
        .sum();
    assert_eq!(hidden, 8);
    assert!(row[0].1, "the first Opposing Card is always face up");
    assert!(row.iter().all(|(c, _)| c.tell.is_none()), "a practice hand");
}

#[test]
fn every_reward_says_what_it_is() {
    for reward in [
        Reward::LoadedDice,
        Reward::SlotzStreakCards,
        Reward::SlotzPylBestTwoOfThree,
        Reward::PitBossSixPlays,
        Reward::PitBossRandomCards,
    ] {
        assert!(!reward.label().is_empty());
    }
}
