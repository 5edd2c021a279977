//! The overworld: the lobby and the linear walk up the casino, as a state
//! machine. It owns every transition but `Combat -> PostCombat`; combat is a
//! black box that takes an encounter and hands an outcome back. Putting the
//! screens up is the app's business.

use vstd::prelude::*;

use crate::progression::{Progress, arrival_at, offer_at, route_from, run_at};
use crate::run::{
    CombatOutcome, Encounter, EncounterId, Enemy, Reward, RewardOffer, RunModel, RunState, applied,
    authored, dice_in, fresh_run, lemma_dice_round_trip,
};
use crate::state::AppState;
use crate::table::{Key, confirming, first_number, pressed, confirm, digit_pressed, space, was_pressed};

verus! {

/// The mute key. Every prose screen pages on any key, so the one key that is
/// not a game input is kept out of that.
pub open spec fn pages(keys: Seq<Key>) -> bool {
    exists|i: int| 0 <= i < keys.len() && keys[i] != Key::Letter('M')
}

/// Any key but the mute.
pub fn any_key_but_mute(keys: &[Key]) -> (r: bool)
    ensures
        r == pages(keys@),
{
    let mut k: usize = 0;
    while k < keys.len()
        invariant
            k <= keys@.len(),
            forall|j: int| 0 <= j < k ==> keys@[j] == Key::Letter('M'),
        decreases keys@.len() - k,
    {
        if keys[k] != Key::Letter('M') {
            return true;
        }
        k = k + 1;
    }
    false
}

/// The app around the duels: which screen is up, where the run is, and what
/// is being handed to combat or back from it.
pub struct Shell {
    pub state: AppState,
    pub progress: Progress,
    pub run: RunState,
    /// Set when the player Folds, so the Lobby can say so. The Lobby's
    /// screen clears it.
    pub folded: bool,
    /// Set while the Arcade's duel runs, so the way out of it goes back to
    /// the Lobby instead of routing the run.
    pub in_tutorial: bool,
    /// What combat handed back, read on the screen after the duel.
    pub outcome: Option<CombatOutcome>,
    /// Who combat is handed.
    pub encounter: Option<Encounter>,
}

/// The shell as plain values. The encounter is named by its id: the enemy
/// sitting down for it is always the one authored for it.
pub struct ShellModel {
    pub state: AppState,
    pub progress: nat,
    pub run: RunModel,
    pub folded: bool,
    pub in_tutorial: bool,
    pub outcome: Option<CombatOutcome>,
    pub encounter: Option<EncounterId>,
}

impl View for Shell {
    type V = ShellModel;

    open spec fn view(&self) -> ShellModel {
        ShellModel {
            state: self.state,
            progress: self.progress@,
            run: self.run@,
            folded: self.folded,
            in_tutorial: self.in_tutorial,
            outcome: self.outcome,
            encounter: match self.encounter {
                Some(e) => Some(e.id),
                None => None,
            },
        }
    }
}

impl Shell {
    /// The run is inside the walk, the pocket counts its dice, and whoever
    /// is handed to combat is the enemy authored for the encounter.
    pub open spec fn wf(&self) -> bool {
        &&& self.progress@ <= 5
        &&& dice_in(self.run.items@) <= u8::MAX
        &&& match self.encounter {
            Some(e) => authored(e.enemy, e.id),
            None => true,
        }
    }
}

/// The shell on arriving at `next`. Every way back into the Lobby ends a
/// run, so the reset lives there: Fold and death both leave behind the
/// perks, items and deck of the old one. The Arcade is a duel: arriving
/// there hands combat the Tutorial encounter at once.
pub open spec fn entered(m: ShellModel, next: AppState) -> ShellModel {
    match next {
        AppState::Lobby => ShellModel { state: AppState::Lobby, run: fresh_run(), progress: 0, ..m },
        AppState::Tutorial => ShellModel {
            state: AppState::Combat,
            in_tutorial: true,
            encounter: Some(EncounterId::Tutorial),
            ..m
        },
        _ => ShellModel { state: next, ..m },
    }
}

/// What one frame of keys does to the shell. `seed` feeds the one roll the
/// overworld makes, the Pit Boss card pack.
pub open spec fn stepped(m: ShellModel, keys: Seq<Key>, info_open: bool, seed: u64) -> ShellModel {
    match m.state {
        AppState::Title => if pressed(keys, Key::Space) {
            entered(m, AppState::Opening)
        } else {
            m
        },
        AppState::Opening | AppState::InfoRoom | AppState::Ending | AppState::GameOver => if pages(keys) {
            entered(m, AppState::Lobby)
        } else {
            m
        },
        AppState::Lobby => match first_number(keys, 3) {
            Some(1) => entered(m, AppState::InfoRoom),
            Some(2) => entered(m, AppState::Tutorial),
            Some(3) => entered(m, arrival_at(m.progress as int)),
            _ => if confirming(keys) {
                entered(m, arrival_at(m.progress as int))
            } else {
                m
            },
        },
        AppState::FloorIntro => if pages(keys) {
            entered(m, AppState::FightOrFold)
        } else {
            m
        },
        AppState::FightOrFold => if info_open || pressed(keys, Key::Letter('I')) {
            m
        } else {
            match run_at(m.progress as int) {
                None => m,
                Some(id) => {
                    let choice = match first_number(keys, 3) {
                        Some(n) => Some(n),
                        None => if confirming(keys) {
                            Some(1u8)
                        } else {
                            None
                        },
                    };
                    match choice {
                        Some(1) => entered(ShellModel { encounter: Some(id), ..m }, AppState::Combat),
                        Some(2) => entered(ShellModel { folded: true, ..m }, AppState::Lobby),
                        _ => m,
                    }
                },
            }
        },
        AppState::PostCombat => match m.outcome {
            None => m,
            Some(outcome) => if m.in_tutorial && outcome == CombatOutcome::Won {
                // The Arcade's pick: 1 or 2 takes it, to the sign-off; Esc
                // walks away unpicked. Nothing is applied either way.
                if pressed(keys, Key::Escape) {
                    entered(ShellModel { in_tutorial: false, outcome: None, ..m }, AppState::Lobby)
                } else if first_number(keys, 3) == Some(1u8) || first_number(keys, 3) == Some(2u8) {
                    entered(ShellModel { outcome: None, ..m }, AppState::Reward)
                } else {
                    m
                }
            } else if pages(keys) {
                if m.in_tutorial {
                    entered(ShellModel { in_tutorial: false, outcome: None, ..m }, AppState::Lobby)
                } else {
                    entered(ShellModel { outcome: None, ..m }, route_from(m.progress as int, outcome))
                }
            } else {
                m
            },
        },
        AppState::Reward => if m.in_tutorial {
            // The Arcade's sign-off: home, nothing applied, the run not advanced.
            if pages(keys) {
                entered(ShellModel { in_tutorial: false, ..m }, AppState::Lobby)
            } else {
                m
            }
        } else {
            match offer_at(m.progress as int) {
                None => m,
                Some(offer) => {
                    let taken = match offer {
                        RewardOffer::Drop(reward) => if pages(keys) {
                            Some(reward)
                        } else {
                            None
                        },
                        // Enter advances every other screen, so it does nothing
                        // here: a perk is picked once and never given back.
                        RewardOffer::Pick(one, two) => match first_number(keys, 3) {
                            Some(1) => Some(one),
                            Some(2) => Some(two),
                            _ => None,
                        },
                    };
                    match taken {
                        None => m,
                        Some(reward) => entered(
                            ShellModel { run: applied(m.run, reward, seed), progress: m.progress + 1, ..m },
                            arrival_at(m.progress + 1int),
                        ),
                    }
                },
            }
        },
        AppState::Tutorial | AppState::Combat => m,
    }
}

impl Shell {
    /// The game as it opens: the marquee, a fresh run, at the door.
    pub fn new() -> (s: Shell)
        ensures
            s.wf(),
            s@ == (ShellModel {
                state: AppState::Title,
                progress: 0,
                run: fresh_run(),
                folded: false,
                in_tutorial: false,
                outcome: None,
                encounter: None,
            }),
    {
        Shell {
            state: AppState::Title,
            progress: Progress::new(),
            run: RunState::new(),
            folded: false,
            in_tutorial: false,
            outcome: None,
            encounter: None,
        }
    }

    /// Arrive at `next`.
    pub fn enter(&mut self, next: AppState)
        requires
            old(self).wf(),
        ensures
            final(self)@ == entered(old(self)@, next),
            final(self).wf(),
    {
        match next {
            AppState::Lobby => {
                self.run = RunState::new();
                self.progress = Progress::new();
                self.state = AppState::Lobby;
            },
            AppState::Tutorial => {
                self.in_tutorial = true;
                self.encounter = Some(
                    Encounter { id: EncounterId::Tutorial, enemy: Enemy::for_encounter(EncounterId::Tutorial) },
                );
                self.state = AppState::Combat;
            },
            _ => {
                self.state = next;
            },
        }
    }

    /// Combat's one transition: the duel is over, and this is how it went.
    pub fn hand_over(&mut self, outcome: CombatOutcome)
        requires
            old(self).wf(),
        ensures
            final(self)@ == (ShellModel {
                state: AppState::PostCombat,
                outcome: Some(outcome),
                encounter: None,
                ..old(self)@
            }),
            final(self).wf(),
    {
        self.encounter = None;
        self.outcome = Some(outcome);
        self.state = AppState::PostCombat;
    }

    /// One frame of keys on whatever screen is up. `info_open` is whether
    /// the glossary is over the Fight or Fold prompt; `seed` feeds the Pit
    /// Boss card pack, should it be taken this frame.
    pub fn step(&mut self, keys: &[Key], info_open: bool, seed: u64)
        requires
            old(self).wf(),
        ensures
            final(self)@ == stepped(old(self)@, keys@, info_open, seed),
            final(self).wf(),
    {
        match self.state {
            AppState::Title => {
                if space(keys) {
                    self.enter(AppState::Opening);
                }
            },
            AppState::Opening | AppState::InfoRoom | AppState::Ending | AppState::GameOver => {
                if any_key_but_mute(keys) {
                    self.enter(AppState::Lobby);
                }
            },
            AppState::Lobby => {
                match digit_pressed(keys) {
                    Some(1) => self.enter(AppState::InfoRoom),
                    Some(2) => self.enter(AppState::Tutorial),
                    Some(3) => {
                        let arrival = self.progress.arrival();
                        self.enter(arrival);
                    },
                    _ => {
                        if confirm(keys) {
                            let arrival = self.progress.arrival();
                            self.enter(arrival);
                        }
                    },
                }
            },
            AppState::FloorIntro => {
                if any_key_but_mute(keys) {
                    self.enter(AppState::FightOrFold);
                }
            },
            AppState::FightOrFold => {
                if info_open || was_pressed(keys, Key::Letter('I')) {
                    return ;
                }
                let id = match self.progress.encounter() {
                    Some(id) => id,
                    None => {
                        return ;
                    },
                };
                let choice = match digit_pressed(keys) {
                    Some(n) => Some(n),
                    None => if confirm(keys) {
                        Some(1u8)
                    } else {
                        None
                    },
                };
                match choice {
                    Some(1) => {
                        // The whole handover: an encounter and the state.
                        self.encounter = Some(Encounter { id, enemy: Enemy::for_encounter(id) });
                        self.enter(AppState::Combat);
                    },
                    Some(2) => {
                        self.folded = true;
                        self.enter(AppState::Lobby);
                    },
                    _ => {},
                }
            },
            AppState::PostCombat => {
                let outcome = match self.outcome {
                    Some(outcome) => outcome,
                    None => {
                        return ;
                    },
                };
                if self.in_tutorial && outcome == CombatOutcome::Won {
                    if was_pressed(keys, Key::Escape) {
                        self.in_tutorial = false;
                        self.outcome = None;
                        self.enter(AppState::Lobby);
                    } else {
                        let picked = digit_pressed(keys);
                        if picked == Some(1u8) || picked == Some(2u8) {
                            self.outcome = None;
                            self.enter(AppState::Reward);
                        }
                    }
                    return ;
                }
                if any_key_but_mute(keys) {
                    self.outcome = None;
                    if self.in_tutorial {
                        self.in_tutorial = false;
                        self.enter(AppState::Lobby);
                    } else {
                        let next = self.progress.route(outcome);
                        self.enter(next);
                    }
                }
            },
            AppState::Reward => {
                if self.in_tutorial {
                    if any_key_but_mute(keys) {
                        self.in_tutorial = false;
                        self.enter(AppState::Lobby);
                    }
                    return ;
                }
                let offer = match self.progress.reward_offer() {
                    Some(offer) => offer,
                    None => {
                        return ;
                    },
                };
                let taken = match offer {
                    RewardOffer::Drop(reward) => if any_key_but_mute(keys) {
                        Some(reward)
                    } else {
                        None
                    },
                    RewardOffer::Pick(one, two) => match digit_pressed(keys) {
                        Some(1) => Some(one),
                        Some(2) => Some(two),
                        _ => None,
                    },
                };
                let reward = match taken {
                    Some(reward) => reward,
                    None => {
                        return ;
                    },
                };
                let ghost before = self.run@;
                self.run.apply(reward, seed);
                proof {
                    if reward == Reward::LoadedDice {
                        let held = dice_in(before.items);
                        let now = if held + crate::run::LOADED_DICE_HANDS > u8::MAX {
                            u8::MAX
                        } else {
                            (held + crate::run::LOADED_DICE_HANDS) as u8
                        };
                        lemma_dice_round_trip(now);
                    }
                }
                self.progress.advance();
                let arrival = self.progress.arrival();
                self.enter(arrival);
            },
            AppState::Tutorial | AppState::Combat => {},
        }
    }
}


/// Every way back into the Lobby ends a run: whatever screen it is reached
/// from, the run and the walk start over.
pub proof fn lemma_the_lobby_ends_the_run(m: ShellModel, keys: Seq<Key>, info_open: bool, seed: u64)
    requires
        m.state != AppState::Lobby,
        stepped(m, keys, info_open, seed).state == AppState::Lobby,
    ensures
        stepped(m, keys, info_open, seed).run == fresh_run(),
        stepped(m, keys, info_open, seed).progress == 0,
{
}

/// The Arcade never touches the run: on the way out of it nothing is
/// applied and the walk does not move, whatever is pressed.
pub proof fn lemma_the_arcade_leaves_the_run_alone(m: ShellModel, keys: Seq<Key>, info_open: bool, seed: u64)
    requires
        m.in_tutorial,
        m.state == AppState::PostCombat || m.state == AppState::Reward,
    ensures
        stepped(m, keys, info_open, seed).run == m.run || stepped(m, keys, info_open, seed).run == fresh_run(),
        stepped(m, keys, info_open, seed).progress == m.progress || stepped(m, keys, info_open, seed).progress == 0,
{
}

/// A perk is picked once, with 1 or 2, and Enter never picks one for you.
pub proof fn lemma_only_a_number_picks_a_perk(m: ShellModel, keys: Seq<Key>, info_open: bool, seed: u64)
    requires
        m.state == AppState::Reward,
        !m.in_tutorial,
        offer_at(m.progress as int) matches Some(RewardOffer::Pick(_, _)),
        first_number(keys, 3) != Some(1u8),
        first_number(keys, 3) != Some(2u8),
    ensures
        stepped(m, keys, info_open, seed) == m,
{
}

/// Losing a duel of the run ends the night, wherever on the walk it happens.
pub proof fn lemma_losing_ends_the_night(m: ShellModel, keys: Seq<Key>, info_open: bool, seed: u64)
    requires
        m.state == AppState::PostCombat,
        m.outcome == Some(CombatOutcome::Lost),
        !m.in_tutorial,
        pages(keys),
    ensures
        stepped(m, keys, info_open, seed).state == AppState::GameOver,
        stepped(m, keys, info_open, seed).outcome is None,
{
}

} // verus!
