//! The glossary: the game's terms on one screen, over the table or over the
//! Fight or Fold prompt. `I` toggles it, Esc closes it, and while it is up
//! nothing underneath sees a key.

use vstd::prelude::*;

use crate::table::{Key, pressed, was_pressed};
use crate::words::same_text;

verus! {

/// One line per term, in the order a new player meets them. The Peek's
/// nested tags read from the same table.
pub open spec fn glossary() -> Seq<(&'static str, &'static str)> {
    seq![
        ("Chips", "Your life, and the enemy's. Run out and the duel is over."),
        ("Face Value", "The number printed on a card: what it adds to The Hand before its Tell."),
        ("Draw", "The seven cards you're holding. Refilled at the start of every turn."),
        ("Plays", "How many cards you may put in your row this turn. Five, unless a perk says otherwise, and never more than the enemy laid down."),
        ("Opposing Cards", "The enemy's row, laid down before you play. The first is face up; the rest are a coin toss. Your cards sit one per slot across from them."),
        ("The Hand", "Your row, and what it adds up to once every Tell in it has resolved. The bigger of it and the House Edge wins."),
        ("House Edge", "What the Opposing Cards add up to. The number The Hand has to beat, and you only ever see part of it before you confirm."),
        ("Payout", "Beat the Edge and the difference comes off the enemy's Chips."),
        ("Whiff", "Fall short and the difference comes off yours."),
        ("Tell", "A keyword on a card. One per card, at most."),
        ("Streak", "Tell: doubles this card if the card in the slot to its left has any Tell."),
        ("All In", "Tell: burns another card from your Draw and adds its Face Value."),
        ("Copycat", "Tell: worth the Face Value of the card in the slot to its right. Its own if nothing follows it."),
        ("Flop", "Tell: worth the Face Value of the Opposing Card across from it. Its own if nothing is across."),
        ("Push Your Luck", "Once The Hand is shown: Push to flip a coin, or Hold to take the turn as it is. Cleared the Edge? Win doubles the Payout; lose and The Hand is 0. Fell short? Win forgives the Whiff; lose and it doubles."),
        ("Rising Blinds", "Every few turns the enemy lays another Opposing Card down. Past your Plays you can't cover them all. Nobody sits here forever."),
        ("Loaded Dice", "Item: +5 to your next two Hands."),
    ]
}

/// The terms only the Big Shots Table needs.
pub open spec fn big_shots() -> Seq<(&'static str, &'static str)> {
    seq![
        ("Margin", "How far above the row it read The House sets its own. Rises with the Blinds."),
        ("Hole Card", "The last card in your row. The House keeps its own last card back and fills it in on everything before yours, so the Hole Card is the only one it can't see."),
    ]
}

fn glossary_entries() -> (r: Vec<(&'static str, &'static str)>)
    ensures
        r@ == glossary(),
{
    let mut r: Vec<(&'static str, &'static str)> = Vec::new();
    r.push(("Chips", "Your life, and the enemy's. Run out and the duel is over."));
    r.push(("Face Value", "The number printed on a card: what it adds to The Hand before its Tell."));
    r.push(("Draw", "The seven cards you're holding. Refilled at the start of every turn."));
    r.push(("Plays", "How many cards you may put in your row this turn. Five, unless a perk says otherwise, and never more than the enemy laid down."));
    r.push(("Opposing Cards", "The enemy's row, laid down before you play. The first is face up; the rest are a coin toss. Your cards sit one per slot across from them."));
    r.push(("The Hand", "Your row, and what it adds up to once every Tell in it has resolved. The bigger of it and the House Edge wins."));
    r.push(("House Edge", "What the Opposing Cards add up to. The number The Hand has to beat, and you only ever see part of it before you confirm."));
    r.push(("Payout", "Beat the Edge and the difference comes off the enemy's Chips."));
    r.push(("Whiff", "Fall short and the difference comes off yours."));
    r.push(("Tell", "A keyword on a card. One per card, at most."));
    r.push(("Streak", "Tell: doubles this card if the card in the slot to its left has any Tell."));
    r.push(("All In", "Tell: burns another card from your Draw and adds its Face Value."));
    r.push(("Copycat", "Tell: worth the Face Value of the card in the slot to its right. Its own if nothing follows it."));
    r.push(("Flop", "Tell: worth the Face Value of the Opposing Card across from it. Its own if nothing is across."));
    r.push(("Push Your Luck", "Once The Hand is shown: Push to flip a coin, or Hold to take the turn as it is. Cleared the Edge? Win doubles the Payout; lose and The Hand is 0. Fell short? Win forgives the Whiff; lose and it doubles."));
    r.push(("Rising Blinds", "Every few turns the enemy lays another Opposing Card down. Past your Plays you can't cover them all. Nobody sits here forever."));
    r.push(("Loaded Dice", "Item: +5 to your next two Hands."));
    assert(r@ =~= glossary());
    r
}

fn big_shots_entries() -> (r: Vec<(&'static str, &'static str)>)
    ensures
        r@ == big_shots(),
{
    let mut r: Vec<(&'static str, &'static str)> = Vec::new();
    r.push(("Margin", "How far above the row it read The House sets its own. Rises with the Blinds."));
    r.push(("Hole Card", "The last card in your row. The House keeps its own last card back and fills it in on everything before yours, so the Hole Card is the only one it can't see."));
    assert(r@ =~= big_shots());
    r
}

/// The glossary's terms, in order.
pub fn get_keywords() -> (r: Vec<&'static str>)
    ensures
        r@ == glossary().map_values(|entry: (&'static str, &'static str)| entry.0),
{
    let entries = glossary_entries();
    let mut r: Vec<&'static str> = Vec::new();
    let mut k: usize = 0;
    while k < entries.len()
        invariant
            k <= entries@.len(),
            entries@ == glossary(),
            r@ == glossary().map_values(|entry: (&'static str, &'static str)| entry.0).take(k as int),
        decreases entries@.len() - k,
    {
        r.push(entries[k].0);
        assert(r@ =~= glossary().map_values(|entry: (&'static str, &'static str)| entry.0).take(k + 1));
        k = k + 1;
    }
    assert(r@ =~= glossary().map_values(|entry: (&'static str, &'static str)| entry.0));
    r
}

/// The Big Shots Table's own terms, in order.
pub fn big_shots_keywords() -> (r: Vec<&'static str>)
    ensures
        r@ == big_shots().map_values(|entry: (&'static str, &'static str)| entry.0),
{
    let entries = big_shots_entries();
    let mut r: Vec<&'static str> = Vec::new();
    r.push(entries[0].0);
    r.push(entries[1].0);
    assert(r@ =~= big_shots().map_values(|entry: (&'static str, &'static str)| entry.0));
    r
}

/// The line for `term` among `entries`, the first whose name reads the same.
pub open spec fn line_for(entries: Seq<(&'static str, &'static str)>, term: Seq<char>) -> Option<&'static str>
    decreases entries.len(),
{
    if entries.len() == 0 {
        None
    } else if entries[0].0@ == term {
        Some(entries[0].1)
    } else {
        line_for(entries.drop_first(), term)
    }
}

/// The glossary line for a term, if it has one: the table's terms first,
/// then the Big Shots Table's.
pub fn define(term: &str) -> (r: Option<&'static str>)
    ensures
        r == line_for(glossary() + big_shots(), term@),
{
    let mut entries = glossary_entries();
    let mut more = big_shots_entries();
    entries.append(&mut more);
    let mut k: usize = 0;
    assert(entries@.skip(0) =~= glossary() + big_shots());
    while k < entries.len()
        invariant
            k <= entries@.len(),
            line_for(entries@.skip(k as int), term@) == line_for(glossary() + big_shots(), term@),
        decreases entries@.len() - k,
    {
        assert(entries@.skip(k as int)[0] == entries@[k as int]);
        assert(entries@.skip(k as int).drop_first() =~= entries@.skip(k + 1));
        let (name, line) = entries[k];
        if same_text(name, term) {
            return Some(line);
        }
        k = k + 1;
    }
    None
}


/// Whether the glossary is up after this frame's keys: `I` opens it and
/// closes it again, and Esc closes it too.
pub open spec fn toggled_to(open: bool, keys: Seq<Key>) -> bool {
    if open {
        !(pressed(keys, Key::Letter('I')) || pressed(keys, Key::Escape))
    } else {
        pressed(keys, Key::Letter('I'))
    }
}

/// Whether the glossary is up after this frame's keys.
pub fn toggle(open: bool, keys: &[Key]) -> (r: bool)
    ensures
        r == toggled_to(open, keys@),
{
    let i = was_pressed(keys, Key::Letter('I'));
    if open {
        !(i || was_pressed(keys, Key::Escape))
    } else {
        i
    }
}

} // verus!
