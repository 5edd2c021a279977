use all_in::art::{face_stem, portrait, tell_icon};
use all_in::run::{EncounterId, Tell};
use all_in::table::Zone;

#[test]
fn each_boss_gets_its_own_face() {
    assert_eq!(portrait(EncounterId::Slotz), Some("portraits/slotz.png"));
    assert_eq!(portrait(EncounterId::PitBoss), Some("portraits/pit_boss.png"));
    assert_eq!(portrait(EncounterId::TheHouse), Some("portraits/the_house.png"));
}

#[test]
fn the_minions_never_sat_for_one() {
    assert_eq!(portrait(EncounterId::FloorMinion), None);
    assert_eq!(portrait(EncounterId::PitMinion), None);
}

#[test]
fn the_two_facing_rows_are_drawn_at_the_same_size() {
    assert_eq!(Zone::Row.card_size(), Zone::Opposing.card_size());
    assert_ne!(Zone::Draw.card_size(), Zone::Row.card_size());
}

#[test]
fn the_arcade_sits_for_no_portrait_either() {
    assert_eq!(portrait(EncounterId::Tutorial), None);
}

#[test]
fn a_card_name_is_a_lower_case_stem() {
    assert_eq!(face_stem("Bus Ticket Home"), "bus_ticket_home");
}

#[test]
fn punctuation_and_runs_of_it_are_one_underscore() {
    assert_eq!(face_stem("  Lucky -- Jack's  Ace!  "), "lucky_jack_s_ace");
    assert_eq!(face_stem("A2"), "a2");
}

#[test]
fn a_name_of_nothing_but_punctuation_has_an_empty_stem() {
    assert_eq!(face_stem(""), "");
    assert_eq!(face_stem("--- !!"), "");
}

#[test]
fn only_ascii_capitals_are_lowered() {
    assert_eq!(face_stem("Café NOIR"), "café_noir");
    assert_eq!(face_stem("ÉCLAIR"), "Éclair");
}

#[test]
fn each_tell_has_its_own_icon() {
    assert_eq!(tell_icon(Tell::Streak), "tells/streak.png");
    assert_eq!(tell_icon(Tell::AllIn), "tells/all_in.png");
    assert_eq!(tell_icon(Tell::Copycat), "tells/copycat.png");
    assert_eq!(tell_icon(Tell::Flop), "tells/flop.png");
}
