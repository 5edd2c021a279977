//! The Peek: the tag that opens beside the card the player points at, mouse
//! or keyboard, and says its Tell. `T` waves it off and calls it back; `Up`
//! and `Down` step through the terms its rule leans on.

use vstd::prelude::*;

use crate::duel::DuelModel;
use crate::info::{big_shots, glossary, line_for};
use crate::run::{Card, Tell};
use crate::table::{ActiveDuel, CardSlot, Key, TableModel, Zone, pressed, was_pressed};

verus! {

/// Whether the Peek is up for the table, which term the keyboard has opened
/// inside it, and the last card the mouse was over.
#[derive(Debug, Clone, Copy, PartialEq, Eq, Structural)]
pub struct Peek {
    pub on: bool,
    /// `Up` steps through the terms in the open tag; `Down` closes them.
    /// Counted, not named, so it is the nth term of whatever card is pointed
    /// at. Reset when the pointer moves.
    pub term: Option<usize>,
    /// The last card the mouse was over. The tag stays on it after the
    /// cursor leaves, until the keyboard moves.
    pub mouse: Option<CardSlot>,
}

impl Default for Peek {
    /// Up, with nothing opened and nothing under the mouse.
    fn default() -> (p: Peek)
        ensures
            p == (Peek { on: true, term: None, mouse: None }),
    {
        Peek { on: true, term: None, mouse: None }
    }
}

/// The tag on the table, and what it is showing.
#[derive(Debug, Clone, Copy, PartialEq, Eq)]
pub struct Tag {
    pub card: CardSlot,
    /// The term whose own tag is open beside this one.
    pub term: Option<&'static str>,
    /// While an All In waits for its sacrifice: what burning this card adds.
    pub burn: Option<u32>,
}

/// The terms a Tell's rule leans on, in the order the rule reads them.
pub open spec fn terms_of(tell: Tell) -> Seq<&'static str> {
    match tell {
        Tell::Streak => seq!["Face Value", "Tell"],
        Tell::AllIn => seq!["Draw", "Face Value", "The Hand"],
        Tell::Copycat => seq!["Face Value", "Tell"],
        Tell::Flop => seq!["Face Value", "Opposing Cards", "Tell"],
    }
}

/// The `n`th term of a Tell's rule, counting round.
pub open spec fn nth_term(tell: Tell, n: usize) -> &'static str {
    terms_of(tell)[(n as int) % (terms_of(tell).len() as int)]
}

/// Every term the Peek marks in a Tell's rule has a line of its own in the
/// glossary, so no nested tag opens blank.
pub proof fn lemma_every_term_is_defined(tell: Tell, n: usize)
    ensures
        line_for(glossary() + big_shots(), nth_term(tell, n)@) is Some,
{
    let entries = glossary() + big_shots();
    let term = nth_term(tell, n);
    let at = if term == "Face Value" {
        1int
    } else if term == "Draw" {
        2
    } else if term == "Opposing Cards" {
        4
    } else if term == "The Hand" {
        5
    } else {
        9
    };
    lemma_line_found(entries, term@, at);
}

/// A term that is the name of the `at`th entry, and of none before it, has
/// that entry's line.
proof fn lemma_line_found(entries: Seq<(&'static str, &'static str)>, term: Seq<char>, at: int)
    requires
        0 <= at < entries.len(),
        entries[at].0@ == term,
    ensures
        line_for(entries, term) is Some,
    decreases at,
{
    if entries[0].0@ != term {
        assert(entries.drop_first()[at - 1] == entries[at]);
        lemma_line_found(entries.drop_first(), term, at - 1);
    }
}

fn term_at(tell: Tell, n: usize) -> (r: &'static str)
    ensures
        r == nth_term(tell, n),
{
    match tell {
        Tell::Streak | Tell::Copycat => if n % 2 == 0 {
            "Face Value"
        } else {
            "Tell"
        },
        Tell::AllIn => if n % 3 == 0 {
            "Draw"
        } else if n % 3 == 1 {
            "Face Value"
        } else {
            "The Hand"
        },
        Tell::Flop => if n % 3 == 0 {
            "Face Value"
        } else if n % 3 == 1 {
            "Opposing Cards"
        } else {
            "Tell"
        },
    }
}

/// The card in a slot, as the player may see it: a face-down Opposing Card
/// shows nothing.
pub open spec fn card_at(d: DuelModel, slot: CardSlot) -> Option<Card> {
    let i = slot.index as int;
    match slot.zone {
        Zone::Draw => if i < d.draw.len() {
            Some(d.draw[i])
        } else {
            None
        },
        Zone::Row => if i < d.row.len() {
            Some(d.row[i].card)
        } else {
            None
        },
        Zone::Opposing => if i < d.opposing.len() && d.opposing[i].face_up {
            Some(d.opposing[i].card)
        } else {
            None
        },
    }
}

fn seen_card(active: &ActiveDuel, slot: CardSlot) -> (r: Option<Card>)
    ensures
        r == card_at(active@.duel, slot),
{
    match slot.zone {
        Zone::Draw => {
            let draw = active.duel.draw();
            if slot.index < draw.len() {
                Some(draw[slot.index])
            } else {
                None
            }
        },
        Zone::Row => {
            let row = active.duel.row();
            if slot.index < row.len() {
                Some(row[slot.index].card)
            } else {
                None
            }
        },
        Zone::Opposing => {
            let opposing = active.duel.opposing();
            if slot.index < opposing.len() && opposing[slot.index].face_up {
                Some(opposing[slot.index].card)
            } else {
                None
            }
        },
    }
}

/// Where the keyboard's pointer goes this frame, and what the Peek keeps.
/// A play that shrank the Draw under the pointer lands it on the nearest
/// slot; Left and Right walk the Draw round, forgetting the term and the
/// mouse; Esc lets go, unless it has a burn to back out of or an Arcade to
/// leave; Up opens the next term and Down closes them.
pub open spec fn walked(t: TableModel, peek: Peek, keys: Seq<Key>, info_open: bool) -> (Option<usize>, Peek) {
    if info_open || pressed(keys, Key::Letter('I')) {
        (t.pointer, peek)
    } else {
        let on = if pressed(keys, Key::Letter('T')) {
            !peek.on
        } else {
            peek.on
        };
        let len = t.duel.draw.len();
        let shrunk = match t.pointer {
            Some(p) => if p >= len {
                if len > 0 {
                    Some((len - 1) as usize)
                } else {
                    None
                }
            } else {
                Some(p)
            },
            None => None,
        };
        let left = pressed(keys, Key::Left);
        let right = pressed(keys, Key::Right);
        let moved = (left || right) && len > 0;
        let stepped = if moved {
            Some(
                match shrunk {
                    None => if right {
                        0
                    } else {
                        (len - 1) as usize
                    },
                    Some(p) => if right {
                        ((p + 1) % (len as int)) as usize
                    } else {
                        ((p + len - 1) % (len as int)) as usize
                    },
                },
            )
        } else {
            shrunk
        };
        let let_go = pressed(keys, Key::Escape) && t.awaiting_sacrifice is None && t.guide is None;
        let pointer = if let_go {
            None
        } else {
            stepped
        };
        let term = if moved || let_go {
            None
        } else {
            peek.term
        };
        let mouse = if moved || let_go {
            None
        } else {
            peek.mouse
        };
        let term = if pressed(keys, Key::Down) {
            None
        } else if pressed(keys, Key::Up) {
            Some(
                match term {
                    Some(n) => (n + 1) as usize,
                    None => 0,
                },
            )
        } else {
            term
        };
        (pointer, Peek { on, term, mouse })
    }
}

/// The keyboard's side of pointing. Runs before the table takes its input,
/// so an Esc that backs out of an All In is that and nothing else.
pub fn walk(active: &mut ActiveDuel, peek: &mut Peek, keys: &[Key], info_open: bool)
    requires
        old(peek).term matches Some(n) ==> n < usize::MAX,
    ensures
        (final(active).pointer, *final(peek)) == walked(old(active)@, *old(peek), keys@, info_open),
        final(active)@ == (TableModel { pointer: final(active).pointer, ..old(active)@ }),
{
    if info_open || was_pressed(keys, Key::Letter('I')) {
        return ;
    }
    if was_pressed(keys, Key::Letter('T')) {
        peek.on = !peek.on;
    }
    let len = active.duel.draw().len();
    let was = active.pointer;
    let mut pointer = match was {
        Some(p) => if p >= len {
            if len > 0 {
                Some(len - 1)
            } else {
                None
            }
        } else {
            Some(p)
        },
        None => None,
    };
    let left = was_pressed(keys, Key::Left);
    let right = was_pressed(keys, Key::Right);
    if (left || right) && len > 0 {
        pointer = Some(
            match pointer {
                None => if right {
                    0
                } else {
                    len - 1
                },
                Some(p) => if right {
                    (p + 1) % len
                } else if p == 0 {
                    assert((p + len - 1) % (len as int) == len - 1) by (nonlinear_arith)
                        requires
                            p == 0,
                            len > 0,
                    ;
                    len - 1
                } else {
                    assert((p + len - 1) % (len as int) == p - 1) by (nonlinear_arith)
                        requires
                            1 <= p < len,
                    ;
                    p - 1
                },
            },
        );
        peek.term = None;
        peek.mouse = None;
    }
    // Esc has other jobs first: backing out of a sacrifice, leaving the Arcade.
    if was_pressed(keys, Key::Escape) && active.awaiting_sacrifice.is_none() && active.guide.is_none() {
        pointer = None;
        peek.term = None;
        peek.mouse = None;
    }
    active.pointer = pointer;
    if was_pressed(keys, Key::Up) {
        peek.term = Some(
            match peek.term {
                Some(n) => n + 1,
                None => 0,
            },
        );
    }
    if was_pressed(keys, Key::Down) {
        peek.term = None;
    }
}

/// The card the tag belongs on: the one under the mouse, else the one the
/// mouse was last over while it still holds a card, else the keyboard's.
pub open spec fn pointed_at(t: TableModel, peek: Peek, under_mouse: Option<CardSlot>) -> Option<CardSlot> {
    match under_mouse {
        Some(slot) => Some(slot),
        None => match peek.mouse {
            Some(slot) if card_at(t.duel, slot) is Some => Some(slot),
            _ => match t.pointer {
                Some(p) => Some(CardSlot { zone: Zone::Draw, index: p }),
                None => None,
            },
        },
    }
}

/// What the tag would show right now, if anything, and what the Peek
/// remembers of the mouse for the frames after it leaves.
pub open spec fn wanted_tag(t: TableModel, peek: Peek, under_mouse: Option<CardSlot>, hovered_term: Option<&'static str>) -> (Option<Tag>, Peek) {
    if !peek.on {
        (None, peek)
    } else {
        let remembered = if under_mouse is Some {
            Peek { mouse: under_mouse, ..peek }
        } else {
            peek
        };
        match pointed_at(t, peek, under_mouse) {
            None => (None, remembered),
            Some(slot) => match card_at(t.duel, slot) {
                None => (None, remembered),
                Some(held) => {
                    let term = match hovered_term {
                        Some(name) => Some(name),
                        None => match (held.tell, peek.term) {
                            (Some(tell), Some(n)) => Some(nth_term(tell, n)),
                            _ => None,
                        },
                    };
                    let burn = match t.awaiting_sacrifice {
                        Some(all_in) => if slot.zone == Zone::Draw && all_in != slot.index {
                            Some(held.face_value)
                        } else {
                            None
                        },
                        None => None,
                    };
                    (Some(Tag { card: slot, term, burn }), remembered)
                },
            },
        }
    }
}

/// What the tag would show right now, if anything. Notes the card under the
/// mouse on the way, for the frames after it leaves.
pub fn wanted(peek: &mut Peek, active: &ActiveDuel, under_mouse: Option<CardSlot>, hovered_term: Option<&'static str>) -> (r: Option<Tag>)
    ensures
        (r, *final(peek)) == wanted_tag(active@, *old(peek), under_mouse, hovered_term),
{
    if !peek.on {
        return None;
    }
    let remembered_mouse = peek.mouse;
    if under_mouse.is_some() {
        peek.mouse = under_mouse;
    }
    let slot = match under_mouse {
        Some(slot) => slot,
        None => {
            let from_mouse = match remembered_mouse {
                Some(m) => if seen_card(active, m).is_some() {
                    Some(m)
                } else {
                    None
                },
                None => None,
            };
            match from_mouse {
                Some(m) => m,
                None => match active.pointer {
                    Some(p) => CardSlot { zone: Zone::Draw, index: p },
                    None => {
                        return None;
                    },
                },
            }
        },
    };
    let held = match seen_card(active, slot) {
        Some(card) => card,
        None => {
            return None;
        },
    };
    let term = match hovered_term {
        Some(name) => Some(name),
        None => match (held.tell, peek.term) {
            (Some(tell), Some(n)) => Some(term_at(tell, n)),
            _ => None,
        },
    };
    let burn = match active.awaiting_sacrifice {
        Some(all_in) => if slot.zone == Zone::Draw && all_in != slot.index {
            Some(held.face_value)
        } else {
            None
        },
        None => None,
    };
    Some(Tag { card: slot, term, burn })
}

/// The key that waves the Peek off and calls it back.
pub fn toggled(keys: &[Key]) -> (r: bool)
    ensures
        r == pressed(keys@, Key::Letter('T')),
{
    was_pressed(keys, Key::Letter('T'))
}

} // verus!
