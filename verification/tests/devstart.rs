//! The dev entry point's command line.

use all_in::devstart::{encounter, parse, DevStart, Outcome, DEFAULT_REWARD_SEED};
use all_in::run::{EncounterId, Perk, Reward, RunState};


/// One argument per element, the way a shell hands them over.
fn parsed(args: &[&str]) -> Result<Outcome, String> {
    let args: Vec<String> = args.iter().map(|arg| arg.to_string()).collect();
    parse(&args)
}

fn started(args: &[&str]) -> DevStart {
    match parsed(args) {
        Ok(Outcome::Start(dev)) => dev,
        other => panic!("expected a dev start from `{args:?}`, got {other:?}"),
    }
}

#[test]
fn no_flags_is_the_game_as_it_ships() {
    assert_eq!(parsed(&[]), Ok(Outcome::Play));
}

#[test]
fn an_encounter_can_be_named() {
    assert_eq!(
        started(&["--encounter", "pit-boss"]).encounter,
        Some(EncounterId::PitBoss)
    );
}

#[test]
fn every_encounter_in_the_run_has_a_name_on_the_command_line() {
    for (name, id) in [
        ("floor-minion", EncounterId::FloorMinion),
        ("slotz", EncounterId::Slotz),
        ("pit-minion", EncounterId::PitMinion),
        ("pit-boss", EncounterId::PitBoss),
        ("the-house", EncounterId::TheHouse),
    ] {
        assert_eq!(encounter(name), Ok(id));
    }
}

#[test]
fn a_value_can_come_after_a_space_or_an_equals() {
    assert_eq!(started(&["--seed", "42"]), started(&["--seed=42"]));
    assert_eq!(started(&["--seed", "42"]).seed, Some(42));
}

#[test]
fn rewards_come_as_a_comma_separated_list() {
    assert_eq!(
        started(&["--encounter", "pit-boss", "--with", "sixplays,dice"]).rewards,
        vec![Reward::PitBossSixPlays, Reward::LoadedDice]
    );
}

#[test]
fn spaces_around_a_reward_name_do_not_count() {
    assert_eq!(
        started(&["--encounter", "pit-boss", "--with", "sixplays, dice"]).rewards,
        vec![Reward::PitBossSixPlays, Reward::LoadedDice]
    );
}

#[test]
fn the_flags_can_be_combined_in_any_order() {
    let one = started(&["--encounter", "pit-boss", "--seed", "7", "--with", "dice"]);
    let two = started(&["--with", "dice", "--seed", "7", "--encounter", "pit-boss"]);

    assert_eq!(one, two);
    assert_eq!(one.encounter, Some(EncounterId::PitBoss));
    assert_eq!(one.seed, Some(7));
    assert_eq!(one.rewards, vec![Reward::LoadedDice]);
}

#[test]
fn help_asks_for_the_usage() {
    assert_eq!(parsed(&["--help"]), Ok(Outcome::Usage));
    assert_eq!(parsed(&["-h"]), Ok(Outcome::Usage));
}

#[test]
fn a_bad_flag_says_so_rather_than_starting_a_run() {
    assert!(parsed(&["--encounters", "pit-boss"]).is_err());
    assert!(parsed(&["--encounter", "the-cloakroom"]).is_err());
    assert!(parsed(&["--with", "dentures"]).is_err());
    assert!(parsed(&["--seed", "soon"]).is_err());
}

#[test]
fn a_flag_with_nothing_after_it_says_so() {
    assert!(parsed(&["--encounter"]).is_err());
    assert!(parsed(&["--seed"]).is_err());
    assert!(parsed(&["--with"]).is_err());
}

#[test]
fn a_pocket_with_nowhere_to_start_is_refused() {
    // The Lobby would empty it before the first hand.
    assert!(parsed(&["--with", "dice"]).is_err());
    assert!(parsed(&["--with", "dice", "--encounter", "pit-boss"]).is_ok());
}

#[test]
fn a_seed_on_its_own_is_fine() {
    // Nothing resets it, so pinning the shuffle from the Lobby works.
    assert_eq!(started(&["--seed", "42"]).seed, Some(42));
}

#[test]
fn the_pocket_is_built_through_the_same_door_the_game_uses() {
    // Not a parse test: the point is that `--with` produces exactly the
    // run state that winning those rewards would have.
    let dev = started(&["--encounter", "pit-boss", "--with", "sixplays,dice,streak"]);
    let mut run = RunState::new();
    for reward in &dev.rewards {
        run.apply(*reward, DEFAULT_REWARD_SEED);
    }

    assert_eq!(run.perks, vec![Perk::SixPlaysSteepBlinds]);
    assert_eq!(run.plays(), 6);
    assert_eq!(run.loaded_dice(), 2);
    assert_eq!(run.deck.len(), RunState::new().deck.len() + 3);
}
