//! The one flat app state machine. The overworld owns every transition but
//! `Combat -> PostCombat`, which combat makes when a duel ends.

use vstd::prelude::*;

verus! {

#[derive(Debug, Clone, Copy, PartialEq, Eq, Hash, Structural)]
pub enum AppState {
    /// The marquee, shown once on launch.
    Title,
    /// Lucky Jack's backstory.
    Opening,
    /// Three options: Info Room, Tutorial, Begin Run.
    Lobby,
    InfoRoom,
    Tutorial,
    /// Arrival prose for the current floor.
    FloorIntro,
    /// The Fight or Fold prompt for the next encounter.
    FightOrFold,
    /// Owned entirely by combat. Entered with an encounter on the table.
    Combat,
    /// Set by combat on exit. The overworld reads the outcome here and routes
    /// to `Reward`, `Ending`, or `GameOver`.
    PostCombat,
    /// Pick-1-of-2 perk after a boss, or the item drop after a minion.
    Reward,
    /// The son's reveal. Reached only by beating The House.
    Ending,
    /// The player's Chips hit 0. Back to the Lobby from here.
    GameOver,
}

impl Default for AppState {
    /// The game opens on the marquee.
    fn default() -> (s: AppState)
        ensures
            s == AppState::Title,
    {
        AppState::Title
    }
}

} // verus!
