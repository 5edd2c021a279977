//! The table around a duel, driven the way the app drives it: one frame of
//! keys and clicks at a time, the Peek walking before the table takes its
//! input, and the hand-over once a duel is decided.

use all_in::duel::{Coin, Outcome, Phase, Push};
use all_in::hits::{new_hit, Side};
use all_in::info;
use all_in::peek::{walk, wanted, Peek, Tag};
use all_in::run::{
    Card, CombatOutcome, Deal, Encounter, EncounterId, Enemy, Perk, Reward, RisingBlinds, RunState,
    Tell, STARTING_STACK,
};
use all_in::table::{open_table, ActiveDuel, CardSlot, DuelSeed, Handover, Key, Zone};

/// Combat on its own, and what it has handed back.
struct Table {
    active: Option<ActiveDuel>,
    run: RunState,
    peek: Peek,
    info_open: bool,
    hovered: Option<CardSlot>,
    tag: Option<Tag>,
    last_seen: Option<u32>,
    markers: Vec<(Side, String)>,
    leaving: Option<CombatOutcome>,
    outcome: Option<CombatOutcome>,
}

impl Table {
    fn sat_down(active: ActiveDuel, run: RunState) -> Table {
        Table {
            active: Some(active),
            run,
            peek: Peek::default(),
            info_open: false,
            hovered: None,
            tag: None,
            last_seen: None,
            markers: Vec::new(),
            leaving: None,
            outcome: None,
        }
    }

    fn active(&self) -> &ActiveDuel {
        self.active.as_ref().expect("a duel on the table")
    }

    fn active_mut(&mut self) -> &mut ActiveDuel {
        self.active.as_mut().expect("a duel on the table")
    }

    /// One frame: the Peek walks, the table takes its input, a decided duel
    /// is handed over, a resolved turn floats its marker, the tag is put
    /// where the player points, and the glossary opens or closes.
    fn frame(&mut self, keys: &[Key], click: Option<CardSlot>) {
        let info_before = self.info_open;
        if let Some(outcome) = self.leaving.take() {
            self.active = None;
            self.outcome = Some(outcome);
        }
        if let Some(active) = self.active.as_mut() {
            walk(active, &mut self.peek, keys, info_before);
            assert!(active.duel.has_room_to_resolve());
            match active.take_input(keys, click, info_before, &mut self.run) {
                Handover::Stay => {}
                Handover::Leave(outcome) => self.leaving = Some(outcome),
                Handover::Now(outcome) => {
                    self.active = None;
                    self.outcome = Some(outcome);
                }
            }
        }
        self.info_open = info::toggle(info_before, keys);
        if let Some(active) = self.active.as_ref() {
            if let Some((side, amount)) = new_hit(active, true, &mut self.last_seen) {
                self.markers.push((side, format!("-{amount}")));
            }
            self.tag = if self.info_open {
                None
            } else {
                wanted(&mut self.peek, active, self.hovered, None)
            };
        } else {
            self.tag = None;
        }
    }

    fn update(&mut self) {
        self.frame(&[], None);
    }

    fn press(&mut self, key: Key) {
        self.frame(&[key], None);
        self.update();
    }

    fn click_at(&mut self, zone: Zone, index: usize) {
        self.frame(&[], Some(CardSlot { zone, index }));
        self.update();
    }

    fn click(&mut self, index: usize) {
        self.click_at(Zone::Draw, index);
    }

    fn hover_at(&mut self, zone: Zone, index: usize) {
        self.hovered = Some(CardSlot { zone, index });
        self.update();
    }

    fn hover(&mut self, index: usize) {
        self.hover_at(Zone::Draw, index);
    }

    fn unhover(&mut self) {
        self.hovered = None;
        self.update();
    }

    fn pointer(&self) -> Option<usize> {
        self.active().pointer
    }

    fn tag(&self) -> Option<(Tag, usize)> {
        self.tag.map(|tag| (tag, tag.card.index))
    }

    fn rig(&mut self, coin: Coin) {
        self.active_mut().duel.set_coin(coin);
    }

    fn notice(&self) -> String {
        self.active().notice.clone().unwrap_or_default()
    }
}

fn digit(n: u8) -> Key {
    Key::Digit(n)
}

const ENTER: Key = Key::Enter;
const PUSH: Key = Key::Letter('P');
const HOLD: Key = Key::Letter('H');

/// An enemy that deals five Opposing Cards worth nothing at all.
fn shill(chips: u32) -> Enemy {
    Enemy {
        name: "shill",
        chips,
        deal: Deal { row: 5, low: 0, high: 0, tell_pct: 0, tells: &[], hidden_pct: 0 },
        blinds: RisingBlinds { every_turns: 2, cards: 1 },
        hole_card: None,
    }
}

/// The table for `enemy`, sitting down with `run`, whatever it deals itself.
fn dealt_table(run: RunState, enemy: Enemy) -> Table {
    let encounter = Encounter { id: EncounterId::FloorMinion, enemy };
    let active = open_table(&encounter, &run, 7);
    Table::sat_down(active, run)
}

/// Five slots across the table, the first card carrying the whole Edge and
/// the other four carrying nothing.
fn lay_out(t: &mut Table, edge: u32) {
    let mut row = vec![Card { name: "the edge", face_value: edge, tell: None }];
    row.extend((1..5).map(|_| Card { name: "nothing", face_value: 0, tell: None }));
    t.active_mut().duel.lay_out(row);
}

fn table_for_run(run: RunState, enemy_chips: u32, edge: u32) -> Table {
    let mut t = dealt_table(run, shill(enemy_chips));
    lay_out(&mut t, edge);
    t.update();
    t
}

fn table_with(player_chips: u32, enemy_chips: u32, edge: u32, perks: Vec<Perk>) -> Table {
    table_for_run(RunState { stack: player_chips, perks, ..RunState::new() }, enemy_chips, edge)
}

fn table(player_chips: u32, enemy_chips: u32, edge: u32) -> Table {
    table_with(player_chips, enemy_chips, edge, Vec::new())
}

/// A table whose duels roll off a pinned seed, the way `--seed` sets them.
fn seeded_table(seed: &mut DuelSeed) -> Table {
    let encounter = Encounter { id: EncounterId::PitBoss, enemy: Enemy::for_encounter(EncounterId::PitBoss) };
    let run = RunState::new();
    let active = open_table(&encounter, &run, seed.next());
    Table::sat_down(active, run)
}

fn draw(t: &Table) -> Vec<Card> {
    t.active().duel.draw().to_vec()
}

#[test]
fn a_pinned_seed_deals_the_same_draw_twice_running() {
    assert_eq!(draw(&seeded_table(&mut DuelSeed::new(42))), draw(&seeded_table(&mut DuelSeed::new(42))));
}

#[test]
fn a_different_seed_deals_a_different_draw() {
    assert_ne!(draw(&seeded_table(&mut DuelSeed::new(42))), draw(&seeded_table(&mut DuelSeed::new(43))));
    // Zero is special-cased; it still has to deal like a seed.
    assert_ne!(draw(&seeded_table(&mut DuelSeed::new(0))), draw(&seeded_table(&mut DuelSeed::new(1))));
}

#[test]
fn a_pinned_session_deals_each_fight_differently() {
    let mut seed = DuelSeed::new(42);
    let first = draw(&seeded_table(&mut seed));

    // The next duel of the same pinned session, not a replay of the first.
    assert_ne!(first, draw(&seeded_table(&mut seed)));
}

#[test]
fn the_big_shots_table_plays_under_the_hole_card_rule() {
    let t = dealt_table(RunState::new(), Enemy::for_encounter(EncounterId::TheHouse));

    let duel = &t.active().duel;
    assert_eq!(duel.margin(), Some(1));
    // The last Opposing Card is face down and worth nothing yet.
    let last = duel.opposing().last().expect("a row");
    assert!(!last.face_up);
    assert_eq!(last.card.face_value, 0);
    assert_eq!(duel.showing().1, 1, "one card kept back");
}

#[test]
fn the_enemy_lays_its_row_down_before_the_player_touches_a_card() {
    let t = dealt_table(RunState::new(), Enemy::for_encounter(EncounterId::PitBoss));

    let duel = &t.active().duel;
    assert_eq!(duel.slots(), 4, "the Pit Boss deals four");
    assert!(duel.row().is_empty());
    assert!(duel.opposing()[0].face_up, "the first is always face up");
    assert!(duel.opposing().iter().all(|o| o.card.face_value >= 4));
}

#[test]
fn a_card_goes_into_the_row_and_can_be_taken_back_out_again() {
    let mut t = table(40, 999, 10);
    let held = t.active().duel.draw()[0];
    if held.tell == Some(Tell::AllIn) {
        return; // this deal wants a sacrifice; the All In tests cover it
    }

    t.press(digit(1));
    let duel = &t.active().duel;
    assert_eq!(duel.row().len(), 1);
    assert_eq!(duel.draw().len(), 6);
    assert_eq!(duel.hand(), held.face_value);

    t.press(Key::Backspace);
    let duel = &t.active().duel;
    assert!(duel.row().is_empty());
    assert_eq!(duel.draw().len(), 7);
    assert_eq!(duel.hand(), 0);
}

#[test]
fn the_duel_remembers_which_encounter_it_is() {
    let t = table(50, 35, 1);
    assert_eq!(t.active().id, EncounterId::FloorMinion);

    let encounter = Encounter { id: EncounterId::PitBoss, enemy: shill(35) };
    let again = open_table(&encounter, &RunState::new(), 7);
    assert_eq!(again.id, EncounterId::PitBoss);
}

#[test]
fn entering_combat_deals_a_draw_from_the_encounter() {
    let t = table(40, 30, 20);

    let active = t.active();
    assert_eq!(active.duel.draw().len(), 7);
    assert_eq!(active.duel.enemy_chips(), 30);
    assert_eq!(active.duel.player_chips(), 40);
    assert_eq!(t.outcome, None);
}

#[test]
fn a_lost_duel_writes_the_stack_back_and_hands_over_at_post_combat() {
    // Nothing played, House Edge 50 against a 10 Stack: one Whiff ends it.
    let mut t = table(10, 999, 50);

    t.press(ENTER);
    t.press(HOLD);

    assert_eq!(t.outcome, Some(CombatOutcome::Lost));
    assert_eq!(t.run.stack, 0);
    assert!(t.active.is_none());
}

#[test]
fn a_won_duel_reports_won_and_keeps_your_remaining_stack() {
    // House Edge 0 and a 1-chip enemy: any card wins.
    let mut t = table(40, 1, 0);

    t.press(digit(1));
    if t.active().awaiting_sacrifice.is_some() {
        t.press(digit(2)); // All In burns the next card
    }
    t.press(ENTER);
    t.press(HOLD);

    assert_eq!(t.outcome, Some(CombatOutcome::Won));
    assert_eq!(t.run.stack, 40);
}

/// Play the card in slot 1, burning slot 2 if it turns out to be All In.
fn play_one(t: &mut Table) {
    t.press(digit(1));
    if t.active().awaiting_sacrifice.is_some() {
        t.press(digit(2));
    }
}

/// Spend every Play.
fn play_them_all(t: &mut Table) {
    while t.active().duel.plays_left() > 0 {
        play_one(t);
    }
}

fn payout(kind: Outcome) -> u32 {
    match kind {
        Outcome::Payout(n) => n,
        Outcome::Whiff(n) => panic!("expected a Payout, got a Whiff of {n}"),
    }
}

#[test]
fn showing_a_clearing_hand_puts_the_prompt_up_without_resolving() {
    let mut t = table(40, 999, 0);
    play_one(&mut t);

    t.press(ENTER);

    let active = t.active();
    assert_eq!(active.duel.phase(), Phase::PushYourLuck);
    assert_eq!(active.last_turn, None);
    assert_eq!(active.duel.enemy_chips(), 999);
    assert_eq!(t.outcome, None);
}

#[test]
fn a_whiff_is_offered_the_prompt_and_hold_takes_it() {
    let mut t = table(40, 999, 30);

    t.press(ENTER);
    assert_eq!(t.active().duel.phase(), Phase::PushYourLuck);

    t.press(HOLD);

    let active = t.active();
    assert_eq!(active.duel.phase(), Phase::Playing);
    assert_eq!(active.last_turn.unwrap().kind, Outcome::Whiff(30));
    assert_eq!(active.duel.player_chips(), 10);
}

#[test]
fn plugin_pushing_a_whiff_and_winning_forgives_it() {
    let mut t = table(40, 999, 30);
    t.rig(Coin::sure_thing());
    t.press(ENTER);

    t.press(PUSH);

    let active = t.active();
    let turn = active.last_turn.unwrap();
    assert_eq!(turn.pyl, Some(Push::Won));
    assert_eq!(turn.kind, Outcome::Whiff(0));
    assert_eq!(active.duel.player_chips(), 40);
}

#[test]
fn plugin_pushing_a_whiff_and_losing_doubles_it() {
    let mut t = table(100, 999, 30);
    t.rig(Coin::rigged());
    t.press(ENTER);

    t.press(PUSH);

    let active = t.active();
    let turn = active.last_turn.unwrap();
    assert_eq!(turn.pyl, Some(Push::Lost));
    assert_eq!(turn.kind, Outcome::Whiff(60));
    assert_eq!(active.duel.player_chips(), 40);
}

#[test]
fn plugin_holding_resolves_the_turn_as_normal() {
    let mut t = table(40, 999, 0);
    play_one(&mut t);
    t.press(ENTER);

    t.press(HOLD);

    let active = t.active();
    let turn = active.last_turn.expect("the turn resolved");
    assert_eq!(turn.pyl, None);
    assert_eq!(active.duel.phase(), Phase::Playing);
    assert_eq!(active.duel.enemy_chips(), 999 - payout(turn.kind));
}

#[test]
fn pushing_and_winning_doubles_the_payout() {
    let mut t = table(40, 999, 0);
    play_one(&mut t);
    t.press(ENTER);
    t.rig(Coin::sure_thing());

    t.press(PUSH);

    let turn = t.active().last_turn.expect("the turn resolved");
    assert_eq!(turn.pyl, Some(Push::Won));
    assert_eq!(payout(turn.kind), turn.hand * 2);
}

#[test]
fn a_lost_push_whiffs_and_can_end_the_duel() {
    // Stack 10 against a House Edge of 10: a lost Push is fatal.
    let mut t = table(10, 999, 10);
    play_them_all(&mut t);
    t.press(ENTER);
    t.rig(Coin::rigged());

    t.press(PUSH);

    assert_eq!(t.outcome, Some(CombatOutcome::Lost));
    assert_eq!(t.run.stack, 0);
}

#[test]
fn cards_cannot_be_played_while_the_prompt_is_up() {
    let mut t = table(40, 999, 0);
    play_one(&mut t);
    t.press(ENTER);
    let hand = t.active().duel.hand();

    t.press(digit(2));

    let active = t.active();
    assert_eq!(active.duel.hand(), hand);
    assert_eq!(active.duel.phase(), Phase::PushYourLuck);
    assert!(active.notice.is_some(), "the screen says why nothing happened");
}

#[test]
fn push_and_hold_do_nothing_before_the_hand_is_shown() {
    let mut t = table(40, 999, 0);
    play_one(&mut t);

    t.press(PUSH);
    t.press(HOLD);

    let active = t.active();
    assert_eq!(active.last_turn, None);
    assert_eq!(active.duel.enemy_chips(), 999);
}

#[test]
fn the_slotz_perk_arms_the_best_of_three_coin() {
    let plain = table(40, 999, 20);
    assert_eq!(plain.active().duel.coin(), Coin::base());

    let slotz = table_with(40, 999, 20, vec![Perk::PylBestTwoOfThree]);
    assert_eq!(slotz.active().duel.coin(), Coin::slotz());
}

/// A six-card row, so there is a sixth slot for the perk's sixth Play to go
/// into and a sixth card to go uncovered without it.
fn wide_table(perks: Vec<Perk>) -> Table {
    let mut enemy = shill(999);
    enemy.deal.row = 6;
    dealt_table(RunState { stack: 400, perks, ..RunState::new() }, enemy)
}

#[test]
fn the_pit_boss_perk_deals_a_sixth_play() {
    let plain = wide_table(Vec::new());
    let duel = &plain.active().duel;
    assert_eq!(duel.slots(), 6);
    assert_eq!(duel.plays_left(), 5);

    let six = wide_table(vec![Perk::SixPlaysSteepBlinds]);

    assert_eq!(six.active().duel.plays_left(), 6);
}

#[test]
fn the_pit_boss_perk_lays_another_opposing_card_down_every_turn() {
    // Base blinds are every 2 turns at this table, so after one turn the
    // plain row has not grown and the perk's already has.
    let mut plain = wide_table(Vec::new());
    let mut steep = wide_table(vec![Perk::SixPlaysSteepBlinds]);

    for t in [&mut plain, &mut steep] {
        t.press(ENTER); // nothing covered: the turn resolves
    }

    assert_eq!(plain.active().duel.slots(), 6);
    assert_eq!(steep.active().duel.slots(), 7);
}

#[test]
fn loaded_dice_come_to_the_table_and_what_is_left_goes_home() {
    let mut run = RunState { stack: 40, ..RunState::new() };
    run.apply(Reward::LoadedDice, 1);
    let mut t = table_for_run(run, 1, 0);

    assert_eq!(t.active().duel.dice_left(), 2);

    // One Hand of nothing at all still clears an Edge of 0 on the dice.
    t.press(ENTER);
    t.press(HOLD);

    assert_eq!(t.outcome, Some(CombatOutcome::Won));
    assert_eq!(t.run.loaded_dice(), 1);
}

#[test]
fn the_deck_the_rewards_built_is_the_deck_that_is_dealt() {
    let mut run = RunState { stack: 40, ..RunState::new() };
    run.deck.clear();
    run.apply(Reward::SlotzStreakCards, 1);
    let t = table_for_run(run, 999, 20);

    let draw = t.active().duel.draw();
    assert_eq!(draw.len(), 3, "a three-card deck deals three cards");
    assert!(draw
        .iter()
        .all(|c| c.name == "Loose Slot" || c.name == "Second Cherry" || c.name == "Jackpot Bell"));
}

/// The Arcade: the Tutorial encounter at the table, same as any floor.
fn arcade() -> Table {
    let encounter = Encounter { id: EncounterId::Tutorial, enemy: Enemy::for_encounter(EncounterId::Tutorial) };
    let run = RunState::new();
    let active = open_table(&encounter, &run, 7);
    Table::sat_down(active, run)
}

#[test]
fn the_arcade_deals_the_scripted_hand_in_order() {
    let t = arcade();
    let names: Vec<&str> = t.active().duel.draw().iter().map(|c| c.name).collect();
    assert_eq!(
        names,
        ["Pawned Ring", "Last Dollar", "Two of Clubs", "Hot Streak", "Dealer Blinks", "Four of Hearts", "Cheap Seat"]
    );
    assert_eq!(t.active().duel.enemy_chips(), 30);
    assert_eq!(t.active().duel.house_edge(), 20);
    assert!(t.active().guide.is_some());
}

#[test]
fn the_wrong_key_plays_nothing_and_keeps_the_prompt() {
    let mut t = arcade();
    let prompt = t.active().guide.as_ref().unwrap().prompt();

    t.press(digit(3));

    assert_eq!(t.active().duel.hand(), 0);
    assert_eq!(t.active().duel.draw().len(), 7);
    assert_eq!(t.active().guide.as_ref().unwrap().prompt(), prompt);
}

#[test]
fn following_the_script_makes_thirty_two_and_a_doubled_payout() {
    let mut t = arcade();

    t.press(digit(1)); // Pawned Ring 8
    t.press(digit(1)); // Last Dollar: All In, waits for the burn
    t.press(digit(2)); // burn Two of Clubs: +4
    t.press(digit(1)); // Hot Streak, doubled: 6
    t.press(digit(1)); // Dealer Blinks, doubled: 10
    t.press(digit(1)); // Four of Hearts: 4
    assert_eq!(t.active().duel.hand(), 32);

    t.press(ENTER); // show: 32 vs 20, the prompt
    t.press(PUSH); // rigged coin: Payout 24

    assert_eq!(t.active().duel.enemy_chips(), 6);
    assert_eq!(t.active().duel.player_chips(), STARTING_STACK);
    // The script is done; free play from here.
    assert!(t.active().guide.as_ref().unwrap().is_free_play());
    assert_eq!(t.outcome, None);
}

#[test]
fn escape_leaves_the_arcade_without_touching_the_run() {
    let mut t = arcade();
    t.press(digit(1));
    t.run.stack = 7;

    t.press(Key::Escape);

    assert_eq!(t.outcome, Some(CombatOutcome::Lost));
    assert_eq!(t.run.stack, 7);
    assert!(t.active.is_none());
}

#[test]
fn winning_the_arcade_never_writes_the_run_stack() {
    let mut t = arcade();
    for key in [digit(1), digit(1), digit(2), digit(1), digit(1), digit(1), ENTER, PUSH] {
        t.press(key);
    }
    t.run.stack = 7;
    // Free play: the dealer has 6 left; show whatever is dealt.
    for _ in 0..5 {
        if t.active.is_none() {
            break;
        }
        t.press(digit(1));
        if t.active.is_some() && t.active().awaiting_sacrifice.is_some() {
            t.press(digit(2));
        }
    }
    if t.active.is_some() {
        t.press(ENTER);
    }
    if t.active.is_some() {
        t.press(HOLD);
    }

    assert_eq!(t.run.stack, 7);
}

#[test]
fn i_opens_the_glossary_over_the_table_and_again_closes_it() {
    let mut t = table(40, 30, 20);
    assert!(!t.info_open);

    t.press(Key::Letter('I'));
    assert!(t.info_open);

    t.press(Key::Letter('I'));
    assert!(!t.info_open);
    assert_eq!(t.outcome, None);
}

#[test]
fn nothing_underneath_fires_while_the_glossary_is_up() {
    let mut t = table(40, 30, 20);
    t.press(Key::Letter('I'));

    t.press(digit(1));
    t.press(ENTER);

    let active = t.active();
    assert_eq!(active.duel.hand(), 0);
    assert_eq!(active.duel.draw().len(), 7);
    assert!(t.info_open);
}

#[test]
fn escape_closes_the_glossary_and_nothing_else() {
    let mut t = table(40, 30, 20);
    t.press(Key::Letter('I'));

    t.press(Key::Escape);

    assert!(!t.info_open);
    assert_eq!(t.outcome, None);
    assert!(t.active.is_some());
}

/// Any card but an All In, which would wait for its burn instead.
fn playable(t: &Table) -> usize {
    t.active()
        .duel
        .draw()
        .iter()
        .position(|c| c.tell != Some(Tell::AllIn))
        .expect("a deal with a playable card")
}

#[test]
fn clicking_a_card_in_the_draw_covers_a_slot_like_its_number_key() {
    let mut t = table(40, 30, 20);
    let slot = playable(&t);
    let face_value = t.active().duel.draw()[slot].face_value;

    t.click(slot);

    assert_eq!(t.active().duel.hand(), face_value);
    assert_eq!(t.active().duel.draw().len(), 6);
    assert_eq!(t.active().duel.row().len(), 1);
}

#[test]
fn clicking_a_card_in_your_own_row_takes_it_back_out() {
    let mut t = table(40, 30, 20);
    let slot = playable(&t);
    t.click(slot);
    assert_eq!(t.active().duel.row().len(), 1);

    t.click_at(Zone::Row, 0);

    assert!(t.active().duel.row().is_empty());
    assert_eq!(t.active().duel.draw().len(), 7);
    assert_eq!(t.active().duel.hand(), 0);
}

#[test]
fn a_click_on_the_enemys_row_does_nothing_at_all() {
    let mut t = table(40, 30, 20);

    t.click_at(Zone::Opposing, 0);

    assert!(t.active().duel.row().is_empty());
    assert_eq!(t.active().duel.draw().len(), 7);
}

#[test]
fn an_empty_slot_in_your_row_is_not_a_card_to_take_back() {
    let mut t = table(40, 30, 20);

    // Slot 3 has nothing in it; clicking it must not disturb the row.
    t.click_at(Zone::Row, 3);

    assert!(t.active().duel.row().is_empty());
    assert_eq!(t.active().duel.draw().len(), 7);
}

#[test]
fn a_click_names_the_burn_when_an_all_in_is_waiting() {
    let mut t = table(40, 30, 20);
    // Find an All In in the Draw, play it by key, then click the burn.
    let all_in = t.active().duel.draw().iter().position(|c| c.tell == Some(Tell::AllIn));
    let Some(all_in) = all_in else { return }; // this seed dealt none; nothing to check
    let key = [digit(1), digit(2), digit(3), digit(4), digit(5), digit(6), digit(7)][all_in];
    t.press(key);
    assert_eq!(t.active().awaiting_sacrifice, Some(all_in));
    let burn = if all_in == 0 { 1 } else { 0 };

    t.click(burn);

    assert_eq!(t.active().awaiting_sacrifice, None);
    assert_eq!(t.active().duel.draw().len(), 5);
}

#[test]
fn clicks_go_nowhere_while_the_glossary_is_up() {
    let mut t = table(40, 30, 20);
    t.press(Key::Letter('I'));
    assert!(t.info_open);

    t.click(0);

    assert_eq!(t.active().duel.hand(), 0);
}

#[test]
fn the_script_treats_a_click_on_card_one_as_pressing_one() {
    let mut t = arcade();

    t.click(3); // wrong card: the script wants card 1
    assert_eq!(t.active().duel.hand(), 0);

    t.click(0); // Pawned Ring
    assert_eq!(t.active().duel.hand(), 8);
}

#[test]
fn a_whiff_floats_the_loss_at_the_players_stack() {
    // Nothing played, Edge 30: Whiff 30.
    let mut t = table(50, 999, 30);

    t.press(ENTER);
    t.press(HOLD);

    assert_eq!(t.markers, vec![(Side::Player, "-30".to_string())]);
}

#[test]
fn a_payout_floats_the_hit_at_the_enemys_stack() {
    // Edge 1: whatever the shuffle dealt, one card clears it.
    let mut t = table(50, 999, 1);
    t.press(digit(1));
    if t.active().awaiting_sacrifice.is_some() {
        t.press(digit(2));
    }
    t.press(ENTER);
    t.press(HOLD);

    assert_eq!(t.markers.len(), 1);
    assert_eq!(t.markers[0].0, Side::Enemy);
    assert!(t.markers[0].1.starts_with('-'));
}

#[test]
fn one_marker_per_turn_even_when_the_screen_redraws() {
    let mut t = table(50, 999, 30);
    t.press(ENTER);
    // Any input redraws the table; the marker must not multiply.
    t.press(digit(9));
    t.press(HOLD);

    assert_eq!(t.markers.len(), 1);
}

/// A table dealt from a deck where every card is the same.
fn table_of(tell: Option<Tell>) -> Table {
    let card = Card { name: "test card", face_value: 4, tell };
    table_for_run(RunState { deck: vec![card; 18], ..RunState::new() }, 30, 20)
}

/// A card in the Draw, as the Peek's `Tag` names it.
fn held(index: usize) -> CardSlot {
    CardSlot { zone: Zone::Draw, index }
}

#[test]
fn right_walks_onto_the_first_card_and_left_wraps_to_the_last() {
    let mut t = table(40, 30, 20);
    assert_eq!(t.pointer(), None);

    t.press(Key::Right);
    assert_eq!(t.pointer(), Some(0));

    t.press(Key::Left);
    assert_eq!(t.pointer(), Some(6));
}

#[test]
fn the_pointer_hangs_a_tag_off_its_card() {
    let mut t = table_of(None);
    assert_eq!(t.tag(), None);

    t.press(Key::Right);
    t.press(Key::Right);

    let (tag, slot) = t.tag().expect("a tag");
    assert_eq!(slot, 1);
    assert_eq!(tag, Tag { card: held(1), term: None, burn: None });
}

#[test]
fn the_peek_reads_a_face_up_opposing_card_and_not_a_face_down_one() {
    let mut t = table(40, 30, 20);
    // `lay_out` puts everything across the table face up.
    t.hover_at(Zone::Opposing, 0);
    let (showing, _) = t.tag().expect("a tag on the enemy's card");
    assert_eq!(showing.card.zone, Zone::Opposing);

    // Turn that card face down and the Peek has nothing to say.
    t.active_mut().duel.hide_opposing(0);
    t.update();
    t.hover_at(Zone::Opposing, 0);
    assert_eq!(t.tag(), None);
}

#[test]
fn the_peek_follows_a_card_into_your_own_row() {
    let mut t = table_of(Some(Tell::Streak));
    t.press(digit(1));

    t.hover_at(Zone::Row, 0);

    let (showing, _) = t.tag().expect("a tag on the card you placed");
    assert_eq!(showing.card.zone, Zone::Row);
    assert_eq!(showing.burn, None, "a card in the row is not a burn");
}

#[test]
fn the_mouse_over_a_card_wins_over_the_pointer() {
    let mut t = table_of(None);
    t.press(Key::Right);

    t.hover(4);

    assert_eq!(t.tag().map(|(_, slot)| slot), Some(4));
}

#[test]
fn the_tag_stays_on_the_mouses_card_after_the_cursor_leaves_it() {
    let mut t = table_of(None);
    t.press(Key::Right);
    t.hover(4);
    t.unhover();

    assert_eq!(t.tag().map(|(_, slot)| slot), Some(4));

    // The keyboard moving takes the tag back.
    t.press(Key::Right);
    assert_eq!(t.tag().map(|(_, slot)| slot), Some(1));
}

#[test]
fn a_play_lands_the_pointer_on_the_nearest_slot() {
    let mut t = table_of(None);
    t.press(Key::Left); // the last card
    assert_eq!(t.pointer(), Some(6));

    t.press(digit(1));

    assert_eq!(t.active().duel.draw().len(), 6);
    assert_eq!(t.pointer(), Some(5));
    assert_eq!(t.tag().map(|(_, slot)| slot), Some(5));
}

#[test]
fn t_waves_the_peek_off_and_calls_it_back() {
    let mut t = table_of(None);
    t.press(Key::Right);
    assert!(t.tag().is_some());

    t.press(Key::Letter('T'));
    assert!(!t.peek.on);
    assert_eq!(t.tag(), None);

    t.press(Key::Letter('T'));
    assert!(t.tag().is_some());
}

#[test]
fn esc_lets_go_of_the_pointer() {
    let mut t = table_of(None);
    t.press(Key::Right);

    t.press(Key::Escape);

    assert_eq!(t.pointer(), None);
    assert_eq!(t.tag(), None);
}

#[test]
fn up_opens_the_tells_terms_in_order_and_down_closes_them() {
    let mut t = table_of(Some(Tell::Streak));
    t.press(Key::Right);
    assert_eq!(t.tag().unwrap().0.term, None);

    // A card's number is its Face Value: the glossary has no "Stack", and
    // the Peek's terms are the glossary's, so the first term is Face Value.
    t.press(Key::Up);
    assert_eq!(t.tag().unwrap().0.term, Some("Face Value"));
    t.press(Key::Up);
    assert_eq!(t.tag().unwrap().0.term, Some("Tell"));
    t.press(Key::Up);
    assert_eq!(t.tag().unwrap().0.term, Some("Face Value"), "wraps");

    t.press(Key::Down);
    assert_eq!(t.tag().unwrap().0.term, None);
}

#[test]
fn a_waiting_all_in_says_what_the_burn_adds() {
    let mut t = table_of(Some(Tell::AllIn));
    t.press(digit(1));
    assert_eq!(t.active().awaiting_sacrifice, Some(0));

    t.hover(3);
    assert_eq!(t.tag().unwrap().0.burn, Some(4));

    // The All In itself is not a burn.
    t.hover(0);
    assert_eq!(t.tag().unwrap().0.burn, None);
}

#[test]
fn esc_out_of_a_sacrifice_keeps_the_pointer() {
    let mut t = table_of(Some(Tell::AllIn));
    t.press(Key::Right);
    t.press(digit(1));

    t.press(Key::Escape);

    assert_eq!(t.active().awaiting_sacrifice, None);
    assert_eq!(t.pointer(), Some(0));
}

#[test]
fn the_glossary_hides_the_tag_and_takes_the_keys() {
    let mut t = table_of(None);
    t.press(Key::Right);

    t.press(Key::Letter('I'));
    assert_eq!(t.tag(), None);
    t.press(Key::Right);
    assert_eq!(t.pointer(), Some(0), "the pointer did not move under the glossary");

    t.press(Key::Letter('I'));
    assert!(t.tag().is_some());
}

/// A table dealt from Copycats and sixes, half and half.
fn copycats_and_sixes() -> Table {
    let copycat = Card { name: "copycat", face_value: 3, tell: Some(Tell::Copycat) };
    let six = Card { name: "six", face_value: 6, tell: None };
    let mut deck = vec![copycat; 9];
    deck.extend(vec![six; 9]);
    table_for_run(RunState { deck, ..RunState::new() }, 30, 20)
}

/// The key for the first card in the Draw with, or without, a Tell.
fn key_of(t: &Table, tell: Option<Tell>) -> Key {
    let slot = t.active().duel.draw().iter().position(|c| c.tell == tell).expect("the Draw holds both kinds");
    digit(slot as u8 + 1)
}

#[test]
fn the_table_says_where_the_card_landed_and_what_the_row_now_reads() {
    let mut t = copycats_and_sixes();

    let key = key_of(&t, Some(Tell::Copycat));
    t.press(key);

    // A Copycat alone at the end of the row is worth its own printed 3.
    assert_eq!(t.active().duel.hand(), 3);
    assert_eq!(t.notice(), "Slot 1. Your row reads 3.  4 more cards to cover the row.");

    let key = key_of(&t, None);
    t.press(key);

    // Now a six follows it, so the Copycat takes the six's print too.
    assert_eq!(t.active().duel.hand(), 12);
    assert_eq!(t.notice(), "Slot 2. Your row reads 12.  3 more cards to cover the row.");
}

#[test]
fn the_table_says_what_came_back_when_a_card_is_taken_out_of_the_row() {
    let mut t = copycats_and_sixes();
    let key = key_of(&t, None);
    t.press(key);
    assert_eq!(t.active().duel.hand(), 6);

    t.press(Key::Backspace);

    assert_eq!(t.active().duel.hand(), 0);
    assert_eq!(t.notice(), "six back in the Draw. Your row reads 0.");
}

#[test]
fn the_last_slot_says_the_row_is_ready_to_confirm() {
    let mut t = copycats_and_sixes();
    // Neither kind wants a sacrifice, so slot 1 five times fills the row.
    for _ in 0..5 {
        t.press(digit(1));
    }

    let line = t.notice();
    assert!(line.starts_with("Slot 5."), "{line}");
    assert!(line.ends_with("Enter to confirm."), "{line}");
    assert_eq!(t.active().duel.plays_left(), 0);
}
