//! What the duel's screen says in words: the story of a turn, the coin in
//! the player's terms, what the Blinds just did, and as much of the House
//! Edge as the player is allowed to know. Drawing it is the app's business.

use vstd::prelude::*;

use crate::duel::{Coin, Duel, DuelModel, Opposing, Outcome, Phase, Push, TurnResult};
use crate::run::{Card, LOADED_DICE_BONUS};
use crate::words::{decimal, push_decimal};

verus! {

/// The one-line story of the turn that just resolved.
pub open spec fn turn_words(turn: TurnResult) -> Seq<char> {
    let hand = decimal(turn.hand as nat);
    let edge = decimal(turn.house_edge as nat);
    match (turn.pyl, turn.kind) {
        (Some(Push::Won), Outcome::Payout(n)) => "The coin is yours. Payout doubled to "@ + decimal(n as nat) + "."@,
        (Some(Push::Lost), Outcome::Whiff(n)) => if turn.hand >= turn.house_edge {
            // A lost Push on a Hand that cleared the Edge zeroed it.
            "The coin is the House's. The Hand is 0: Whiff. You lose "@ + decimal(n as nat) + "."@
        } else {
            hand + " vs House Edge "@ + edge + ". The coin is the House's: the Whiff doubles. You lose "@ + decimal(
                n as nat,
            ) + "."@
        },
        (Some(Push::Won), Outcome::Whiff(_)) => hand + " vs House Edge "@ + edge
            + ". The coin is yours: the Whiff is forgiven."@,
        (_, Outcome::Payout(n)) => if n == 0 {
            "Tie. Your Hand was equal to the House Edge"@
        } else {
            hand + " vs House Edge "@ + edge + ": Payout "@ + decimal(n as nat) + "."@
        },
        (_, Outcome::Whiff(n)) => hand + " against "@ + edge + ": Whiff. You lose "@ + decimal(n as nat) + "."@,
    }
}

/// The one-line story of the turn that just resolved.
pub fn turn_line(turn: &TurnResult) -> (line: String)
    ensures
        line@ == turn_words(*turn),
{
    let mut line = String::new();
    match (turn.pyl, turn.kind) {
        (Some(Push::Won), Outcome::Payout(n)) => {
            line.append("The coin is yours. Payout doubled to ");
            push_decimal(&mut line, n as u64);
            line.append(".");
        },
        (Some(Push::Lost), Outcome::Whiff(n)) => {
            if turn.hand >= turn.house_edge {
                line.append("The coin is the House's. The Hand is 0: Whiff. You lose ");
                push_decimal(&mut line, n as u64);
                line.append(".");
            } else {
                push_decimal(&mut line, turn.hand as u64);
                line.append(" vs House Edge ");
                push_decimal(&mut line, turn.house_edge as u64);
                line.append(". The coin is the House's: the Whiff doubles. You lose ");
                push_decimal(&mut line, n as u64);
                line.append(".");
            }
        },
        (Some(Push::Won), Outcome::Whiff(_)) => {
            push_decimal(&mut line, turn.hand as u64);
            line.append(" vs House Edge ");
            push_decimal(&mut line, turn.house_edge as u64);
            line.append(". The coin is yours: the Whiff is forgiven.");
        },
        (_, Outcome::Payout(n)) => {
            if n == 0 {
                line.append("Tie. Your Hand was equal to the House Edge");
            } else {
                push_decimal(&mut line, turn.hand as u64);
                line.append(" vs House Edge ");
                push_decimal(&mut line, turn.house_edge as u64);
                line.append(": Payout ");
                push_decimal(&mut line, n as u64);
                line.append(".");
            }
        },
        (_, Outcome::Whiff(n)) => {
            push_decimal(&mut line, turn.hand as u64);
            line.append(" against ");
            push_decimal(&mut line, turn.house_edge as u64);
            line.append(": Whiff. You lose ");
            push_decimal(&mut line, n as u64);
            line.append(".");
        },
    }
    assert(line@ =~= turn_words(*turn));
    line
}

/// The coin, in the player's terms.
pub open spec fn coin_words(coin: Coin) -> Seq<char> {
    let pct = decimal(coin.player_pct as nat);
    let house = decimal((100 - coin.player_pct) as nat);
    if coin.best_of == 1 {
        "One flip, "@ + pct + "/"@ + house + " the House's way."@
    } else {
        "Best "@ + decimal((coin.best_of / 2 + 1) as nat) + " of "@ + decimal(coin.best_of as nat) + " at "@ + pct
            + "/"@ + house + "."@
    }
}

/// The coin, in the player's terms.
pub fn coin_line(coin: Coin) -> (line: String)
    requires
        coin.player_pct <= 100,
    ensures
        line@ == coin_words(coin),
{
    let house = 100 - coin.player_pct;
    let mut line = String::new();
    if coin.best_of == 1 {
        line.append("One flip, ");
        push_decimal(&mut line, coin.player_pct as u64);
        line.append("/");
        push_decimal(&mut line, house as u64);
        line.append(" the House's way.");
    } else {
        line.append("Best ");
        push_decimal(&mut line, (coin.best_of / 2 + 1) as u64);
        line.append(" of ");
        push_decimal(&mut line, coin.best_of as u64);
        line.append(" at ");
        push_decimal(&mut line, coin.player_pct as u64);
        line.append("/");
        push_decimal(&mut line, house as u64);
        line.append(".");
    }
    assert(line@ =~= coin_words(coin));
    line
}

/// What the Blinds just did, which is not the same thing for The House.
pub open spec fn blinds_words(d: DuelModel) -> Seq<char> {
    match d.hole_card {
        Some(hole) => "The Blinds rise. The margin is "@ + decimal(hole.margin as nat) + "."@,
        None => "The Blinds rise. "@ + decimal(d.opposing.len()) + " Opposing Cards now."@,
    }
}

/// What the Blinds just did.
pub fn blinds_line(duel: &Duel) -> (line: String)
    ensures
        line@ == blinds_words(duel@),
{
    let mut line = String::new();
    match duel.margin() {
        Some(margin) => {
            line.append("The Blinds rise. The margin is ");
            push_decimal(&mut line, margin as u64);
            line.append(".");
        },
        None => {
            line.append("The Blinds rise. ");
            push_decimal(&mut line, duel.slots() as u64);
            line.append(" Opposing Cards now.");
        },
    }
    assert(line@ =~= blinds_words(duel@));
    line
}

/// What the player is allowed to know about the House Edge. Once the rows
/// are face up the Edge is simply the Edge; before that, what is showing,
/// and that something is not.
pub open spec fn edge_words(d: DuelModel) -> Seq<char> {
    if d.phase == Phase::PushYourLuck {
        "House Edge "@ + decimal(d.house_edge() as nat)
    } else {
        let (showing, hidden) = d.showing();
        let shown = "House Edge "@ + decimal(showing as nat);
        if hidden == 0 {
            shown
        } else if hidden == 1 && d.hole_card is Some {
            shown + " + the card it kept back   (your row, +"@ + decimal(d.hole_card->0.margin as nat) + ")"@
        } else {
            shown + " + ?"@
        }
    }
}

/// What the player is allowed to know about the House Edge.
pub fn edge_line(duel: &Duel) -> (line: String)
    requires
        duel@.wf(),
    ensures
        line@ == edge_words(duel@),
{
    let mut line = String::from_str("House Edge ");
    if duel.phase() == Phase::PushYourLuck {
        push_decimal(&mut line, duel.house_edge() as u64);
        assert(line@ =~= edge_words(duel@));
        return line;
    }
    let (showing, hidden) = duel.showing();
    push_decimal(&mut line, showing as u64);
    if hidden == 0 {
    } else {
        match (hidden, duel.margin()) {
            (1, Some(margin)) => {
                line.append(" + the card it kept back   (your row, +");
                push_decimal(&mut line, margin as u64);
                line.append(")");
            },
            _ => {
                line.append(" + ?");
            },
        }
    }
    assert(line@ =~= edge_words(duel@));
    line
}

/// An Opposing Card as the player is allowed to see it: the card itself
/// when it is face up, and nothing at all when it isn't.
pub fn opposing_face(opposing: &Opposing) -> (r: Option<Card>)
    ensures
        r == if opposing.face_up {
            Some(opposing.card)
        } else {
            None::<Card>
        },
{
    if opposing.face_up {
        Some(opposing.card)
    } else {
        None
    }
}

/// How many more Hands the Loaded Dice ride on.
pub open spec fn dice_words(hands: u8) -> Seq<char> {
    "Loaded Dice: +"@ + decimal(LOADED_DICE_BONUS as nat) + " on each of your next "@ + decimal(hands as nat) + if hands
        == 1 {
        " Hand."@
    } else {
        " Hands."@
    }
}

/// How many more Hands the Loaded Dice ride on.
pub fn dice_line(hands: u8) -> (line: String)
    ensures
        line@ == dice_words(hands),
{
    let mut line = String::from_str("Loaded Dice: +");
    push_decimal(&mut line, LOADED_DICE_BONUS as u64);
    line.append(" on each of your next ");
    push_decimal(&mut line, hands as u64);
    if hands == 1 {
        line.append(" Hand.");
    } else {
        line.append(" Hands.");
    }
    assert(line@ =~= dice_words(hands));
    line
}

/// The House's rule, while the player builds a row against it.
pub open spec fn margin_words(margin: u32) -> Seq<char> {
    "The House keeps its last card back. It fills it in on everything but your last card, plus "@ + decimal(
        margin as nat,
    ) + " - so your last card is the one it can't see."@
}

/// The House's rule, while the player builds a row against it.
pub fn margin_line(margin: u32) -> (line: String)
    ensures
        line@ == margin_words(margin),
{
    let mut line = String::from_str(
        "The House keeps its last card back. It fills it in on everything but your last card, plus ",
    );
    push_decimal(&mut line, margin as u64);
    line.append(" - so your last card is the one it can't see.");
    assert(line@ =~= margin_words(margin));
    line
}

/// The Push Your Luck prompt: what Hold and a won flip come to, then what a
/// lost flip costs.
pub open spec fn prompt_words(d: DuelModel) -> (Seq<char>, Seq<char>) {
    if d.hand() >= d.house_edge() {
        (
            "Push Your Luck?   Hold for a Payout of "@ + decimal(d.payout(None) as nat) + ", or "@ + decimal(
                d.payout(Some(Push::Won)) as nat,
            ) + " if the coin lands your way."@,
            "Lose and The Hand is 0: a Whiff of "@ + decimal(d.house_edge() as nat) + ", out of your own Chips."@,
        )
    } else {
        (
            "Push Your Luck?   Hold and take the Whiff of "@ + decimal(d.whiff(None) as nat)
                + ", or Push: the coin lands your way and it's forgiven."@,
            "Lose and the Whiff doubles to "@ + decimal(d.whiff(Some(Push::Lost)) as nat) + ", out of your own Chips."@,
        )
    }
}

/// The Push Your Luck prompt, in two lines.
pub fn prompt_lines(duel: &Duel) -> (r: (String, String))
    requires
        duel@.sound(),
    ensures
        (r.0@, r.1@) == prompt_words(duel@),
{
    if duel.hand() >= duel.house_edge() {
        let mut first = String::from_str("Push Your Luck?   Hold for a Payout of ");
        push_decimal(&mut first, duel.payout(None) as u64);
        first.append(", or ");
        push_decimal(&mut first, duel.payout(Some(Push::Won)) as u64);
        first.append(" if the coin lands your way.");
        let mut second = String::from_str("Lose and The Hand is 0: a Whiff of ");
        push_decimal(&mut second, duel.house_edge() as u64);
        second.append(", out of your own Chips.");
        assert(first@ =~= prompt_words(duel@).0);
        assert(second@ =~= prompt_words(duel@).1);
        (first, second)
    } else {
        let mut first = String::from_str("Push Your Luck?   Hold and take the Whiff of ");
        push_decimal(&mut first, duel.whiff(None) as u64);
        first.append(", or Push: the coin lands your way and it's forgiven.");
        let mut second = String::from_str("Lose and the Whiff doubles to ");
        push_decimal(&mut second, duel.whiff(Some(Push::Lost)) as u64);
        second.append(", out of your own Chips.");
        assert(first@ =~= prompt_words(duel@).0);
        assert(second@ =~= prompt_words(duel@).1);
        (first, second)
    }
}

/// The keys the table answers to, along the bottom of the screen.
pub fn keys_line(phase: Phase) -> (r: &'static str)
    ensures
        r == match phase {
            Phase::PushYourLuck => "P: Push   H: Hold   I: Help and Terms",
            Phase::Playing => "1-7: Place Card  Backspace/Esc: Cancel  Enter: Confirm  T: Toggle Peek  I: Help and Terms",
        },
{
    match phase {
        Phase::PushYourLuck => "P: Push   H: Hold   I: Help and Terms",
        Phase::Playing => "1-7: Place Card  Backspace/Esc: Cancel  Enter: Confirm  T: Toggle Peek  I: Help and Terms",
    }
}

} // verus!
