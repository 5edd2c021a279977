//! Damage feedback: when a turn resolves, a "-N" floats up from the Chips
//! that took the hit. Keyed on the turn counter, so a redraw for any other
//! reason floats nothing.

use vstd::prelude::*;

use crate::duel::Outcome;
use crate::table::ActiveDuel;

verus! {

/// Whose Chips took the hit.
#[derive(Debug, Clone, Copy, PartialEq, Eq, Structural)]
pub enum Side {
    Enemy,
    Player,
}

/// Where a turn's number floats, and what it says: a Payout off the
/// enemy's Chips, a Whiff off the player's. A turn that moved nobody's
/// Chips floats nothing.
pub open spec fn hit_of(kind: Outcome) -> Option<(Side, u32)> {
    match kind {
        Outcome::Payout(n) => if n == 0 {
            None
        } else {
            Some((Side::Enemy, n))
        },
        Outcome::Whiff(n) => if n == 0 {
            None
        } else {
            Some((Side::Player, n))
        },
    }
}

pub fn hit_for(kind: Outcome) -> (r: Option<(Side, u32)>)
    ensures
        r == hit_of(kind),
{
    let (side, amount) = match kind {
        Outcome::Payout(n) => (Side::Enemy, n),
        Outcome::Whiff(n) => (Side::Player, n),
    };
    if amount == 0 {
        None
    } else {
        Some((side, amount))
    }
}

/// Watch the table for a newly resolved turn: the marker to float, if any.
/// `changed` is whether the table changed this frame; `last_seen` is the
/// last resolved turn a marker was considered for.
pub fn new_hit(active: &ActiveDuel, changed: bool, last_seen: &mut Option<u32>) -> (r: Option<(Side, u32)>)
    ensures
        !changed || active.last_turn is None ==> r is None && *final(last_seen) == *old(last_seen),
        changed && active.last_turn is Some ==> ({
            let resolved = if active@.duel.turn > 0 {
                (active@.duel.turn - 1) as u32
            } else {
                0
            };
            if *old(last_seen) == Some(resolved) {
                r is None && *final(last_seen) == *old(last_seen)
            } else {
                r == hit_of(active.last_turn->0.kind) && *final(last_seen) == Some(resolved)
            }
        }),
{
    if !changed {
        return None;
    }
    let turn = match active.last_turn {
        Some(turn) => turn,
        None => {
            return None;
        },
    };
    // The duel's turn has already moved past the one that resolved.
    let resolved = active.duel.turn().saturating_sub(1);
    if *last_seen == Some(resolved) {
        return None;
    }
    *last_seen = Some(resolved);
    hit_for(turn.kind)
}

} // verus!
