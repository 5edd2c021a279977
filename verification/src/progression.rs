//! Where the run is: a pure model of the linear floor table, so the routing
//! rules stand on their own.

use vstd::prelude::*;

use crate::narrative;
use crate::run::{CombatOutcome, EncounterId, RewardOffer, offer_for};
use crate::state::AppState;

verus! {

/// The three floors of the casino, in the order Lucky Jack walks them.
#[derive(Debug, Clone, Copy, PartialEq, Eq, Structural)]
pub enum Floor {
    TheFloor,
    ThePit,
    BigShotsTable,
}

pub open spec fn floor_intro(floor: Floor) -> &'static str {
    match floor {
        Floor::TheFloor => narrative::FLOOR_INTRO,
        Floor::ThePit => narrative::PIT_INTRO,
        Floor::BigShotsTable => narrative::BIG_SHOTS_INTRO,
    }
}

pub open spec fn floor_name(floor: Floor) -> &'static str {
    match floor {
        Floor::TheFloor => "The Floor",
        Floor::ThePit => "The Pit",
        Floor::BigShotsTable => "The Big Shots Table",
    }
}

impl Floor {
    /// The arrival prose the player reads on stepping onto this floor.
    pub fn intro(self) -> (r: &'static str)
        ensures
            r == floor_intro(self),
    {
        match self {
            Floor::TheFloor => narrative::FLOOR_INTRO,
            Floor::ThePit => narrative::PIT_INTRO,
            Floor::BigShotsTable => narrative::BIG_SHOTS_INTRO,
        }
    }

    pub fn name(self) -> (r: &'static str)
        ensures
            r == floor_name(self),
    {
        match self {
            Floor::TheFloor => "The Floor",
            Floor::ThePit => "The Pit",
            Floor::BigShotsTable => "The Big Shots Table",
        }
    }
}

pub open spec fn intro_of(id: EncounterId) -> &'static str {
    match id {
        EncounterId::FloorMinion => narrative::ENC_FLOOR_MINION,
        EncounterId::Slotz => narrative::ENC_SLOTZ,
        EncounterId::PitMinion => narrative::ENC_PIT_MINION,
        EncounterId::PitBoss => narrative::ENC_PIT_BOSS,
        EncounterId::TheHouse => narrative::ENC_THE_HOUSE,
        EncounterId::Tutorial => narrative::TUTORIAL_INTRO,
    }
}

/// Who sits down across from you.
pub fn encounter_intro(id: EncounterId) -> (r: &'static str)
    ensures
        r == intro_of(id),
{
    match id {
        EncounterId::FloorMinion => narrative::ENC_FLOOR_MINION,
        EncounterId::Slotz => narrative::ENC_SLOTZ,
        EncounterId::PitMinion => narrative::ENC_PIT_MINION,
        EncounterId::PitBoss => narrative::ENC_PIT_BOSS,
        EncounterId::TheHouse => narrative::ENC_THE_HOUSE,
        EncounterId::Tutorial => narrative::TUTORIAL_INTRO,
    }
}

pub open spec fn win_line_of(id: EncounterId) -> &'static str {
    match id {
        EncounterId::FloorMinion | EncounterId::PitMinion => narrative::WIN_MINION,
        EncounterId::Slotz => narrative::WIN_SLOTZ,
        EncounterId::PitBoss => narrative::WIN_PIT_BOSS,
        EncounterId::TheHouse => narrative::WIN_THE_HOUSE,
        EncounterId::Tutorial => narrative::TUTORIAL_DONE,
    }
}

/// What the player reads on clearing this encounter's Chips.
pub fn win_line(id: EncounterId) -> (r: &'static str)
    ensures
        r == win_line_of(id),
{
    match id {
        EncounterId::FloorMinion | EncounterId::PitMinion => narrative::WIN_MINION,
        EncounterId::Slotz => narrative::WIN_SLOTZ,
        EncounterId::PitBoss => narrative::WIN_PIT_BOSS,
        EncounterId::TheHouse => narrative::WIN_THE_HOUSE,
        EncounterId::Tutorial => narrative::TUTORIAL_DONE,
    }
}

/// Every encounter in a run, in order. The whole progression is this list.
pub open spec fn run_order() -> Seq<EncounterId> {
    seq![
        EncounterId::FloorMinion,
        EncounterId::Slotz,
        EncounterId::PitMinion,
        EncounterId::PitBoss,
        EncounterId::TheHouse,
    ]
}

/// How many encounters a run holds.
pub const RUN_LENGTH: usize = 5;

/// Every encounter in a run, in order.
pub const RUN: [EncounterId; 5] = [
    EncounterId::FloorMinion,
    EncounterId::Slotz,
    EncounterId::PitMinion,
    EncounterId::PitBoss,
    EncounterId::TheHouse,
];

/// The encounter at `index` of the run, if there is one.
pub open spec fn run_at(index: int) -> Option<EncounterId> {
    if 0 <= index < run_order().len() {
        Some(run_order()[index])
    } else {
        None
    }
}

/// The encounter at `index` of the run.
pub fn run_get(index: usize) -> (r: Option<EncounterId>)
    ensures
        r == run_at(index as int),
{
    if index == 0 {
        Some(EncounterId::FloorMinion)
    } else if index == 1 {
        Some(EncounterId::Slotz)
    } else if index == 2 {
        Some(EncounterId::PitMinion)
    } else if index == 3 {
        Some(EncounterId::PitBoss)
    } else if index == 4 {
        Some(EncounterId::TheHouse)
    } else {
        None
    }
}

/// Which floor the encounter at `index` sits on: past the end of the run is
/// the Big Shots Table, where it ended.
pub open spec fn floor_at(index: int) -> Floor {
    match run_at(index) {
        Some(EncounterId::FloorMinion) | Some(EncounterId::Slotz) => Floor::TheFloor,
        Some(EncounterId::PitMinion) | Some(EncounterId::PitBoss) => Floor::ThePit,
        _ => Floor::BigShotsTable,
    }
}

fn floor_of(index: usize) -> (f: Floor)
    ensures
        f == floor_at(index as int),
{
    match run_get(index) {
        Some(EncounterId::FloorMinion) | Some(EncounterId::Slotz) => Floor::TheFloor,
        Some(EncounterId::PitMinion) | Some(EncounterId::PitBoss) => Floor::ThePit,
        _ => Floor::BigShotsTable,
    }
}

/// Where in the run an encounter sits. The Arcade's practice duel is no
/// part of a run and has no place in it.
pub open spec fn index_in_run(id: EncounterId) -> int {
    match id {
        EncounterId::FloorMinion => 0,
        EncounterId::Slotz => 1,
        EncounterId::PitMinion => 2,
        EncounterId::PitBoss => 3,
        EncounterId::TheHouse => 4,
        EncounterId::Tutorial => -1,
    }
}

/// How far into the run the player is. Reset with `Progress::new` on Fold
/// or death.
#[derive(Debug, Clone, Copy, PartialEq, Eq, Structural)]
pub struct Progress {
    next: usize,
}

impl View for Progress {
    type V = nat;

    /// How many encounters have been won so far.
    closed spec fn view(&self) -> nat {
        self.next as nat
    }
}

/// The screen the player meets on reaching the encounter at `index`: the
/// floor's arrival prose the first time, then straight to Fight or Fold.
pub open spec fn arrival_at(index: int) -> AppState {
    if index >= 1 && floor_at(index - 1) == floor_at(index) {
        AppState::FightOrFold
    } else {
        AppState::FloorIntro
    }
}

/// Where the overworld goes once combat hands back an outcome: losing ends
/// the run; winning pays out, except against The House, which ends it.
pub open spec fn route_from(index: int, outcome: CombatOutcome) -> AppState {
    match outcome {
        CombatOutcome::Lost => AppState::GameOver,
        CombatOutcome::Won => if run_at(index) == Some(EncounterId::TheHouse) {
            AppState::Ending
        } else {
            AppState::Reward
        },
    }
}

/// What the encounter just won at `index` pays.
pub open spec fn offer_at(index: int) -> Option<RewardOffer> {
    match run_at(index) {
        Some(id) => offer_for(id),
        None => None,
    }
}

impl Default for Progress {
    /// A run not yet started: at the door.
    fn default() -> (p: Progress)
        ensures
            p@ == 0,
    {
        Progress::new()
    }
}

impl Progress {
    pub fn new() -> (p: Progress)
        ensures
            p@ == 0,
    {
        Progress { next: 0 }
    }

    /// Start the walk at `id` rather than at the door, so the encounter
    /// after it, the floor prose and the reward screen all still come out
    /// right. Only for encounters of the run: the Arcade has no place in it.
    pub fn at(id: EncounterId) -> (p: Progress)
        requires
            id != EncounterId::Tutorial,
        ensures
            p@ == index_in_run(id),
            run_at(p@ as int) == Some(id),
    {
        let next: usize = match id {
            EncounterId::FloorMinion => 0,
            EncounterId::Slotz => 1,
            EncounterId::PitMinion => 2,
            EncounterId::PitBoss => 3,
            _ => 4,
        };
        Progress { next }
    }

    /// The encounter about to be played, or `None` once The House is beaten.
    pub fn encounter(&self) -> (r: Option<EncounterId>)
        ensures
            r == run_at(self@ as int),
    {
        run_get(self.next)
    }

    /// The floor the current encounter sits on.
    pub fn floor(&self) -> (f: Floor)
        ensures
            f == floor_at(self@ as int),
    {
        floor_of(self.next)
    }

    /// The screen the player meets on reaching the current encounter.
    pub fn arrival(&self) -> (s: AppState)
        ensures
            s == arrival_at(self@ as int),
    {
        if self.next >= 1 && floor_of(self.next - 1) == self.floor() {
            AppState::FightOrFold
        } else {
            AppState::FloorIntro
        }
    }

    /// Where the overworld goes once combat hands back an outcome.
    pub fn route(&self, outcome: CombatOutcome) -> (s: AppState)
        ensures
            s == route_from(self@ as int, outcome),
    {
        match (outcome, self.encounter()) {
            (CombatOutcome::Lost, _) => AppState::GameOver,
            (CombatOutcome::Won, Some(EncounterId::TheHouse)) => AppState::Ending,
            (CombatOutcome::Won, _) => AppState::Reward,
        }
    }

    /// What the encounter just won pays. `None` once The House is beaten,
    /// or after The House itself, which pays in an ending.
    pub fn reward_offer(&self) -> (r: Option<RewardOffer>)
        ensures
            r == offer_at(self@ as int),
    {
        match self.encounter() {
            Some(id) => RewardOffer::for_encounter(id),
            None => None,
        }
    }

    /// Move past the encounter just won.
    pub fn advance(&mut self)
        requires
            old(self)@ < usize::MAX,
        ensures
            final(self)@ == old(self)@ + 1,
    {
        self.next = self.next + 1;
    }
}

/// Starting at an encounter lands exactly where walking there from the door
/// does: the walk's `index`-th step is the run's `index`-th encounter, and
/// starting at that encounter puts the player on that step.
pub proof fn lemma_starting_at_is_walking_there(index: int)
    requires
        0 <= index < RUN_LENGTH,
    ensures
        index_in_run(run_order()[index]) == index,
        run_at(index) == Some(run_order()[index]),
{
}

/// Losing ends the run wherever it happens; winning against anyone but The
/// House goes to the reward screen, and beating The House goes to the
/// ending, which pays no reward.
pub proof fn lemma_routes(index: int)
    ensures
        route_from(index, CombatOutcome::Lost) == AppState::GameOver,
        0 <= index < 4 ==> route_from(index, CombatOutcome::Won) == AppState::Reward && offer_at(index) is Some,
        index == 4 ==> route_from(index, CombatOutcome::Won) == AppState::Ending && offer_at(index) is None,
{
}

/// A run walks the three floors in order, two encounters on the first two
/// and The House alone on the last, and reads each floor's prose on
/// arriving at its first encounter and only then.
pub proof fn lemma_floors_in_order()
    ensures
        floor_at(0) == Floor::TheFloor && floor_at(1) == Floor::TheFloor,
        floor_at(2) == Floor::ThePit && floor_at(3) == Floor::ThePit,
        floor_at(4) == Floor::BigShotsTable,
        arrival_at(0) == AppState::FloorIntro,
        arrival_at(1) == AppState::FightOrFold,
        arrival_at(2) == AppState::FloorIntro,
        arrival_at(3) == AppState::FightOrFold,
        arrival_at(4) == AppState::FloorIntro,
{
}

} // verus!
