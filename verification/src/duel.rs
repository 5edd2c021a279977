//! The pure combat model: one duel. Vocabulary follows the game's glossary.
//!
//! A turn is two rows facing each other. The enemy lays its Opposing Cards
//! down first, some face up and some face down; the player fills the row
//! across from them out of the Draw, one card per slot, and confirms. Both
//! rows turn over, each resolves its Tells by position, and the side that
//! comes up short loses the difference off its own Chips.

use vstd::prelude::*;

use crate::run::{
    Card, CombatOutcome, Deal, Enemy, HoleCard, Perk, Tell, deal_card, rng_after,
    xorshift64, xorshift_step, LOADED_DICE_BONUS,
};

verus! {

/// The Draw is refilled to this many cards at the start of every turn.
pub const DRAW_SIZE: usize = 7;

/// The highest Face Value a dealt or drawn card may carry. The one card that
/// may go past it is The House's Hole Card, which is worked out at the table.
pub const FACE_LIMIT: u32 = 4096;

/// The highest Face Value The House's Hole Card can reach.
pub const HOLE_LIMIT: u32 = 4194304;

/// The highest margin The House can be raised to.
pub const MARGIN_LIMIT: u32 = 1048576;

/// The most slots a table can have.
pub const ROW_LIMIT: usize = 255;

/// Every row total stays under this, so a doubled Payout or Whiff still fits.
pub const TOTAL_LIMIT: u32 = 2147483648;

#[derive(Debug, Clone, Copy, PartialEq, Eq, Structural)]
pub enum PlayError {
    /// Every slot the player can cover is already covered.
    RowIsFull,
    NoSuchCard,
    /// An All In card was played without naming a card to sacrifice.
    AllInNeedsSacrifice,
    /// A sacrifice was named for a card that isn't All In.
    NotAllIn,
    /// The rows are face up and the Push Your Luck prompt is up.
    HandIsFinal,
}

/// Where the turn is. Playing is the player building their row against the
/// Opposing Cards; the Hand is only final once the rows have been compared.
#[derive(Debug, Clone, Copy, PartialEq, Eq, Structural)]
pub enum Phase {
    Playing,
    PushYourLuck,
}

/// How a Push went.
#[derive(Debug, Clone, Copy, PartialEq, Eq, Structural)]
pub enum Push {
    Won,
    Lost,
}

/// The Push Your Luck coin. House-favoured by default, so Slotz Option 1 is
/// worth taking.
#[derive(Debug, Clone, Copy, PartialEq, Eq, Structural)]
pub struct Coin {
    /// The player's chance of taking one flip, in percent.
    pub player_pct: u32,
    /// How many flips are tossed, best-of. The majority takes it.
    pub best_of: u8,
}

#[derive(Debug, Clone, Copy, PartialEq, Eq, Structural)]
pub enum Outcome {
    /// The Hand beat the Opposing Cards by this much; dealt to the enemy's
    /// Chips. Zero when the two rows tied and nobody pays.
    Payout(u32),
    /// The Hand fell short by this much; dealt to the player's Chips.
    Whiff(u32),
}

#[derive(Debug, Clone, Copy, PartialEq, Eq, Structural)]
pub struct TurnResult {
    pub hand: u32,
    /// What the Opposing Cards came to: the House Edge this Hand was compared against.
    pub house_edge: u32,
    pub kind: Outcome,
    /// The flip, if the player Pushed. `None` means Hold, or no prompt.
    pub pyl: Option<Push>,
    /// Whether Rising Blinds ticked at the end of this turn.
    pub blinds_rose: bool,
}

/// A card in a row and what it resolved to.
#[derive(Debug, Clone, Copy, PartialEq, Eq)]
pub struct Played {
    pub card: Card,
    /// What the card added to its row, after its Tell.
    pub value: u32,
}

/// A card the player has put in the row, with whatever it burned to get
/// there. The burned card only reaches the discard when the turn resolves,
/// so lifting the All In back out of the row hands its sacrifice back too.
#[derive(Debug, Clone, Copy, PartialEq, Eq)]
pub struct Placed {
    pub card: Card,
    /// The All In's sacrifice, waiting out the turn.
    pub sacrifice: Option<Card>,
}

/// One of the enemy's cards, and whether the player can see it yet.
#[derive(Debug, Clone, Copy, PartialEq, Eq)]
pub struct Opposing {
    pub card: Card,
    pub face_up: bool,
}

/// Both rows as they turned over, and what they added up to. Kept so the
/// screen can go on showing the comparison after the turn has resolved.
#[derive(Debug, Clone, PartialEq, Eq)]
pub struct Showdown {
    /// The player's row, resolved left to right.
    pub row: Vec<Played>,
    /// The Opposing Cards, resolved left to right.
    pub opposing: Vec<Played>,
    /// The Hand, Loaded Dice included. A lost Push zeroes it.
    pub hand: u32,
    /// The House Edge: what the Opposing Cards came to.
    pub house_edge: u32,
}

// ---------------------------------------------------------------------------
// Resolving a row
// ---------------------------------------------------------------------------

/// What the card in `slot` adds to its row. Every Tell reads by position
/// (Streak one slot left, Copycat one slot right, Flop straight across) and
/// every one of them reads a printed Face Value, never what another card
/// resolved to.
pub open spec fn slot_value(row: Seq<Placed>, across: Seq<Option<Card>>, slot: int) -> int {
    let placed = row[slot];
    let printed = placed.card.face_value as int;
    match placed.card.tell {
        Some(Tell::Streak) => if slot > 0 && row[slot - 1].card.tell is Some {
            printed * 2
        } else {
            printed
        },
        Some(Tell::AllIn) => printed + match placed.sacrifice {
            Some(burned) => burned.face_value as int,
            None => 0,
        },
        Some(Tell::Copycat) => if slot + 1 < row.len() {
            row[slot + 1].card.face_value as int
        } else {
            printed
        },
        Some(Tell::Flop) => if 0 <= slot < across.len() && across[slot] is Some {
            across[slot]->0.face_value as int
        } else {
            printed
        },
        None => printed,
    }
}

/// A row resolved against the row across from it.
pub open spec fn resolve(row: Seq<Placed>, across: Seq<Option<Card>>) -> Seq<Played> {
    Seq::new(row.len(), |i: int| Played { card: row[i].card, value: slot_value(row, across, i) as u32 })
}

/// What a resolved row is worth.
pub open spec fn total(row: Seq<Played>) -> int
    decreases row.len(),
{
    if row.len() == 0 {
        0
    } else {
        total(row.drop_last()) + row.last().value
    }
}

/// The Opposing Cards as a row: nothing across the table ever burns a card.
pub open spec fn as_row(opposing: Seq<Opposing>) -> Seq<Placed> {
    Seq::new(opposing.len(), |i: int| Placed { card: opposing[i].card, sacrifice: None })
}

/// The printed Opposing Cards, for the player's Flops to read.
pub open spec fn printed(opposing: Seq<Opposing>) -> Seq<Option<Card>> {
    Seq::new(opposing.len(), |i: int| Some(opposing[i].card))
}

/// The Opposing Cards the player can see. A Flop across a face-down card
/// reads nothing across, its own print, until the rows turn over.
pub open spec fn visible(opposing: Seq<Opposing>) -> Seq<Option<Card>> {
    Seq::new(opposing.len(), |i: int| if opposing[i].face_up { Some(opposing[i].card) } else { None })
}

/// The printed cards in the player's row, for the enemy's Flops.
pub open spec fn row_cards(row: Seq<Placed>) -> Seq<Option<Card>> {
    Seq::new(row.len(), |i: int| Some(row[i].card))
}

// ---------------------------------------------------------------------------
// The coin
// ---------------------------------------------------------------------------

/// How many flips a coin tosses at most: its best-of, and at least one.
pub open spec fn flips(coin: Coin) -> int {
    if coin.best_of == 0 {
        1
    } else {
        coin.best_of as int
    }
}

/// How many flips take it: a majority of the best-of.
pub open spec fn majority(coin: Coin) -> int {
    flips(coin) / 2 + 1
}

/// Toss on from flip `i`, with `won` and `lost` flips so far. The player
/// takes a flip when `roll % 100` is under `player_pct`. Stops as soon as one
/// side has the majority, or the best-of or the rolls run out. Says who took
/// it and how many rolls were read.
pub open spec fn toss_from(coin: Coin, rolls: Seq<u32>, i: int, won: int, lost: int) -> (Push, int)
    decreases rolls.len() - i,
{
    if i >= flips(coin) || i >= rolls.len() || won >= majority(coin) || lost >= majority(coin) || i < 0 {
        (if won >= majority(coin) { Push::Won } else { Push::Lost }, i)
    } else if (rolls[i] as int) % 100 < coin.player_pct {
        toss_from(coin, rolls, i + 1, won + 1, lost)
    } else {
        toss_from(coin, rolls, i + 1, won, lost + 1)
    }
}

/// The Push a coin comes down on for these rolls, and how many it read.
pub open spec fn coin_toss(coin: Coin, rolls: Seq<u32>) -> (Push, int) {
    toss_from(coin, rolls, 0, 0, 0)
}

/// The rolls the duel's generator hands the coin, from state `rng`.
pub open spec fn rng_rolls(rng: u64, n: int) -> Seq<u32> {
    Seq::new(n as nat, |k: int| (rng_after(rng, (k + 1) as nat) % 100) as u32)
}

/// The coin as the duel flips it: off its own generator, one roll per flip,
/// the generator stepping once for every roll read.
pub open spec fn coin_flip(coin: Coin, rng: u64) -> (Push, u64) {
    let (push, read) = coin_toss(coin, rng_rolls(rng, flips(coin)));
    (push, rng_after(rng, read as nat))
}

pub open spec fn perks_coin(perks: Seq<Perk>) -> Coin {
    if perks.contains(Perk::PylBestTwoOfThree) {
        Coin { player_pct: 49, best_of: 3 }
    } else {
        Coin { player_pct: 45, best_of: 1 }
    }
}

proof fn lemma_toss_read(coin: Coin, rolls: Seq<u32>, i: int, won: int, lost: int)
    requires
        0 <= i,
    ensures
        i <= toss_from(coin, rolls, i, won, lost).1,
        toss_from(coin, rolls, i, won, lost).1 <= if i > flips(coin) || i > rolls.len() {
            i
        } else if flips(coin) < rolls.len() {
            flips(coin)
        } else {
            rolls.len() as int
        },
    decreases rolls.len() - i,
{
    if i >= flips(coin) || i >= rolls.len() || won >= majority(coin) || lost >= majority(coin) {
    } else if (rolls[i] as int) % 100 < coin.player_pct {
        lemma_toss_read(coin, rolls, i + 1, won + 1, lost);
    } else {
        lemma_toss_read(coin, rolls, i + 1, won, lost + 1);
    }
}

impl Coin {
    /// 45% player / 55% House, one flip.
    pub fn base() -> (c: Coin)
        ensures
            c == (Coin { player_pct: 45, best_of: 1 }),
    {
        Coin { player_pct: 45, best_of: 1 }
    }

    /// Slotz Option 1: best 2-of-3 at 49/51, which is 3p2 - 2p3, about 48.5%.
    pub fn slotz() -> (c: Coin)
        ensures
            c == (Coin { player_pct: 49, best_of: 3 }),
    {
        Coin { player_pct: 49, best_of: 3 }
    }

    /// A coin that always lands the player's way.
    pub fn sure_thing() -> (c: Coin)
        ensures
            c == (Coin { player_pct: 100, best_of: 1 }),
    {
        Coin { player_pct: 100, best_of: 1 }
    }

    /// A coin that never lands the player's way.
    pub fn rigged() -> (c: Coin)
        ensures
            c == (Coin { player_pct: 0, best_of: 1 }),
    {
        Coin { player_pct: 0, best_of: 1 }
    }

    /// The coin the run's perks hand the duel: Slotz Option 1 swaps it.
    pub fn for_perks(perks: &[Perk]) -> (c: Coin)
        ensures
            c == perks_coin(perks@),
    {
        let mut k: usize = 0;
        while k < perks.len()
            invariant
                k <= perks@.len(),
                forall|j: int| 0 <= j < k ==> perks@[j] != Perk::PylBestTwoOfThree,
            decreases perks@.len() - k,
        {
            if perks[k] == Perk::PylBestTwoOfThree {
                assert(perks@[k as int] == Perk::PylBestTwoOfThree);
                return Coin::slotz();
            }
            k = k + 1;
        }
        Coin::base()
    }

    /// Toss the coin on these rolls. Stops as soon as one side has the
    /// majority, so a decided best-of-three never tosses its third coin.
    /// Says who took it, and how many of the rolls it read.
    pub fn toss(&self, rolls: &[u32]) -> (r: (Push, usize))
        ensures
            (r.0, r.1 as int) == coin_toss(*self, rolls@),
    {
        let best: u32 = if self.best_of == 0 { 1 } else { self.best_of as u32 };
        let needed: u32 = best / 2 + 1;
        let mut won: u32 = 0;
        let mut lost: u32 = 0;
        let mut i: usize = 0;
        while i < rolls.len() && (i as u32) < best && won < needed && lost < needed
            invariant
                i <= rolls@.len(),
                i <= best,
                best == flips(*self),
                needed == majority(*self),
                won + lost == i,
                toss_from(*self, rolls@, i as int, won as int, lost as int) == coin_toss(*self, rolls@),
            decreases rolls@.len() - i,
        {
            if rolls[i] % 100 < self.player_pct {
                won = won + 1;
            } else {
                lost = lost + 1;
            }
            i = i + 1;
        }
        (if won >= needed { Push::Won } else { Push::Lost }, i)
    }

    /// Who takes the coin on these rolls.
    pub fn resolve(&self, rolls: &[u32]) -> (p: Push)
        ensures
            p == coin_toss(*self, rolls@).0,
    {
        self.toss(rolls).0
    }
}

/// A coin the player takes every flip of always comes down Won, and one the
/// player takes none of always comes down Lost, whatever the rolls.
pub proof fn lemma_sure_and_rigged_coins(rolls: Seq<u32>)
    requires
        rolls.len() >= 1,
    ensures
        coin_toss(Coin { player_pct: 100, best_of: 1 }, rolls).0 == Push::Won,
        coin_toss(Coin { player_pct: 0, best_of: 1 }, rolls).0 == Push::Lost,
{
    let sure = Coin { player_pct: 100, best_of: 1 };
    let rigged = Coin { player_pct: 0, best_of: 1 };
    assert(toss_from(sure, rolls, 1, 1, 0).0 == Push::Won);
    assert(toss_from(rigged, rolls, 1, 0, 1).0 == Push::Lost);
}

/// A decided coin stops flipping: it never reads more rolls than its
/// best-of, and a best-of-three that opens with two of a kind reads two.
pub proof fn lemma_coin_stops_when_decided(coin: Coin, rolls: Seq<u32>)
    ensures
        0 <= coin_toss(coin, rolls).1 <= flips(coin),
        coin_toss(coin, rolls).1 <= rolls.len(),
        coin.best_of == 3 && rolls.len() >= 2 && ((rolls[0] as int) % 100 < coin.player_pct) == ((rolls[1] as int) % 100 < coin.player_pct)
            ==> coin_toss(coin, rolls).1 == 2,
{
    lemma_toss_read(coin, rolls, 0, 0, 0);
    if coin.best_of == 3 && rolls.len() >= 2 {
        let w0 = (rolls[0] as int) % 100 < coin.player_pct;
        let w1 = (rolls[1] as int) % 100 < coin.player_pct;
        if w0 == w1 {
            if w0 {
                assert(toss_from(coin, rolls, 2, 2, 0).1 == 2);
                assert(toss_from(coin, rolls, 1, 1, 0) == toss_from(coin, rolls, 2, 2, 0));
                assert(coin_toss(coin, rolls) == toss_from(coin, rolls, 1, 1, 0));
            } else {
                assert(toss_from(coin, rolls, 2, 0, 2).1 == 2);
                assert(toss_from(coin, rolls, 1, 0, 1) == toss_from(coin, rolls, 2, 0, 2));
                assert(coin_toss(coin, rolls) == toss_from(coin, rolls, 1, 0, 1));
            }
        }
    }
}

proof fn lemma_rng_after_shift(s: u64, k: nat)
    ensures
        rng_after(xorshift_step(s), k) == rng_after(s, k + 1),
    decreases k,
{
    if k > 0 {
        lemma_rng_after_shift(s, (k - 1) as nat);
        assert(rng_after(xorshift_step(s), k) == xorshift_step(rng_after(xorshift_step(s), (k - 1) as nat)));
        assert(rng_after(s, k + 1) == xorshift_step(rng_after(s, k)));
    } else {
        assert(rng_after(s, 0) == s);
        assert(rng_after(s, 1) == xorshift_step(rng_after(s, 0)));
    }
}

/// The coin reads a fresh roll for every flip: its first roll is the
/// generator's next number, and every roll after that is what the coin would
/// have read first had the generator already stepped once.
pub proof fn lemma_each_flip_reads_a_fresh_roll(rng: u64, n: int, k: int)
    requires
        0 <= k,
        k + 1 < n,
    ensures
        rng_rolls(rng, n)[0] == (xorshift_step(rng) % 100) as u32,
        rng_rolls(rng, n)[k + 1] == rng_rolls(xorshift_step(rng), n - 1)[k],
{
    lemma_rng_after_shift(rng, (k + 1) as nat);
    assert(rng_after(rng, 1) == xorshift_step(rng_after(rng, 0)));
}

/// A best of three pushed off the duel's generator is won exactly when the
/// player takes at least two of its next three numbers.
pub proof fn lemma_a_push_takes_the_majority_of_three_rolls(coin: Coin, rng: u64)
    requires
        coin.best_of == 3,
    ensures
        coin_flip(coin, rng).0 == Push::Won <==> ((if (rng_after(rng, 1) % 100) < coin.player_pct { 1int } else { 0 })
            + (if (rng_after(rng, 2) % 100) < coin.player_pct { 1int } else { 0 }) + (if (rng_after(rng, 3) % 100)
            < coin.player_pct { 1int } else { 0 }) >= 2),
{
    let r1 = (rng_after(rng, 1) % 100) as u32;
    let r2 = (rng_after(rng, 2) % 100) as u32;
    let r3 = (rng_after(rng, 3) % 100) as u32;
    let rolls = rng_rolls(rng, flips(coin));
    assert(rolls =~= seq![r1, r2, r3]);
    lemma_toss_of_three(coin, r1, r2, r3);
}

/// Whether the coin comes down the player's way on these rolls.
pub open spec fn coin_won(coin: Coin, rolls: Seq<u32>) -> bool {
    coin_toss(coin, rolls).0 == Push::Won
}

/// Of the third rolls `0..n`, how many the coin is won on after `a` and `b`.
pub open spec fn wins_on_third(coin: Coin, a: u32, b: u32, n: nat) -> nat
    decreases n,
{
    if n == 0 {
        0
    } else {
        wins_on_third(coin, a, b, (n - 1) as nat) + if coin_won(coin, seq![a, b, (n - 1) as u32]) {
            1nat
        } else {
            0nat
        }
    }
}

/// Of the second and third rolls, `0..n` by `0..100`, how many win after `a`.
pub open spec fn wins_on_second(coin: Coin, a: u32, n: nat) -> nat
    decreases n,
{
    if n == 0 {
        0
    } else {
        wins_on_second(coin, a, (n - 1) as nat) + wins_on_third(coin, a, (n - 1) as u32, 100)
    }
}

/// Of all three rolls, `0..n` by `0..100` by `0..100`, how many win.
pub open spec fn wins_on_first(coin: Coin, n: nat) -> nat
    decreases n,
{
    if n == 0 {
        0
    } else {
        wins_on_first(coin, (n - 1) as nat) + wins_on_second(coin, (n - 1) as u32, 100)
    }
}

/// Every way the coin can be handed three rolls, each one of `0..100`, and
/// how many of them it comes down the player's way on.
pub open spec fn wins_over_every_roll(coin: Coin) -> nat {
    wins_on_first(coin, 100)
}

proof fn lemma_toss_of_three(coin: Coin, a: u32, b: u32, c: u32)
    requires
        coin.best_of == 1 || coin.best_of == 3,
        a < 100,
        b < 100,
        c < 100,
    ensures
        coin.best_of == 1 ==> (coin_won(coin, seq![a, b, c]) <==> a < coin.player_pct),
        coin.best_of == 3 ==> (coin_won(coin, seq![a, b, c]) <==> ((if a < coin.player_pct { 1int } else { 0 }) + (
        if b < coin.player_pct { 1int } else { 0 }) + (if c < coin.player_pct { 1int } else { 0 }) >= 2)),
{
    let rolls = seq![a, b, c];
    assert(rolls[0] == a && rolls[1] == b && rolls[2] == c);
    assert((a as int) % 100 == a as int);
    assert((b as int) % 100 == b as int);
    assert((c as int) % 100 == c as int);
    reveal_with_fuel(toss_from, 5);
}

proof fn lemma_third_count(coin: Coin, a: u32, b: u32, n: nat)
    requires
        coin.best_of == 1 || coin.best_of == 3,
        coin.player_pct <= 100,
        a < 100,
        b < 100,
        n <= 100,
    ensures
        wins_on_third(coin, a, b, n) == if coin.best_of == 1 {
            if a < coin.player_pct { n as int } else { 0 }
        } else if a < coin.player_pct && b < coin.player_pct {
            n as int
        } else if a < coin.player_pct || b < coin.player_pct {
            if n < coin.player_pct { n as int } else { coin.player_pct as int }
        } else {
            0
        },
    decreases n,
{
    if n > 0 {
        lemma_third_count(coin, a, b, (n - 1) as nat);
        lemma_toss_of_three(coin, a, b, (n - 1) as u32);
    }
}

/// What one first roll `a` wins over every second and third roll.
pub open spec fn wins_after_first(coin: Coin, a: u32) -> int {
    let p = coin.player_pct as int;
    if coin.best_of == 1 {
        if (a as int) < p { 10000 } else { 0 }
    } else if (a as int) < p {
        100 * p + p * (100 - p)
    } else {
        p * p
    }
}

proof fn lemma_second_count(coin: Coin, a: u32, n: nat)
    requires
        coin.best_of == 1 || coin.best_of == 3,
        coin.player_pct <= 100,
        a < 100,
        n <= 100,
    ensures
        wins_on_second(coin, a, n) == {
            let p = coin.player_pct as int;
            let m = if (n as int) < p { n as int } else { p };
            if coin.best_of == 1 {
                if (a as int) < p { 100 * (n as int) } else { 0 }
            } else if (a as int) < p {
                100 * m + p * (n - m)
            } else {
                p * m
            }
        },
    decreases n,
{
    if n > 0 {
        let p = coin.player_pct as int;
        lemma_second_count(coin, a, (n - 1) as nat);
        lemma_third_count(coin, a, (n - 1) as u32, 100);
        let m0 = if ((n - 1) as int) < p { (n - 1) as int } else { p };
        let m = if (n as int) < p { n as int } else { p };
        if ((n - 1) as int) < p {
            assert(m == m0 + 1);
            assert(p * m == p * m0 + p) by (nonlinear_arith)
                requires m == m0 + 1;
            assert(p * (n - m) == p * (n - 1 - m0)) by (nonlinear_arith)
                requires m == m0 + 1;
        } else {
            assert(m == m0);
            assert(p * (n - m) == p * (n - 1 - m0) + p) by (nonlinear_arith)
                requires m == m0;
        }
        assert(100 * (n as int) == 100 * ((n - 1) as int) + 100);
        let t = wins_on_third(coin, a, (n - 1) as u32, 100);
        assert(wins_on_second(coin, a, n) == wins_on_second(coin, a, (n - 1) as nat) + t);
        if coin.best_of == 3 {
            if (a as int) < p {
                assert(t == if ((n - 1) as int) < p { 100 } else { p });
                assert(wins_on_second(coin, a, n) == 100 * m + p * (n - m));
            } else {
                assert(t == if ((n - 1) as int) < p { p } else { 0 });
                assert(wins_on_second(coin, a, n) == p * m);
            }
        } else {
            assert(coin.best_of == 1);
        }
    } else {
        let p = coin.player_pct as int;
        assert(p * 0 == 0);
    }
}

proof fn lemma_first_count(coin: Coin, n: nat)
    requires
        coin.best_of == 1 || coin.best_of == 3,
        coin.player_pct <= 100,
        n <= 100,
    ensures
        wins_on_first(coin, n) == {
            let p = coin.player_pct as int;
            let m = if (n as int) < p { n as int } else { p };
            if coin.best_of == 1 {
                10000 * m
            } else {
                m * (100 * p + p * (100 - p)) + (n - m) * (p * p)
            }
        },
    decreases n,
{
    if n > 0 {
        let p = coin.player_pct as int;
        lemma_first_count(coin, (n - 1) as nat);
        lemma_second_count(coin, (n - 1) as u32, 100);
        let m0 = if ((n - 1) as int) < p { (n - 1) as int } else { p };
        let m = if (n as int) < p { n as int } else { p };
        if ((n - 1) as int) < p {
            assert(m == m0 + 1);
            assert((m0 + 1) * (100 * p + p * (100 - p)) == m0 * (100 * p + p * (100 - p)) + (100 * p + p * (100 - p)))
                by (nonlinear_arith);
            assert((n - m) * (p * p) == (n - 1 - m0) * (p * p)) by (nonlinear_arith)
                requires m == m0 + 1;
        } else {
            assert(m == m0);
            assert((n - m) * (p * p) == (n - 1 - m0) * (p * p) + p * p) by (nonlinear_arith)
                requires m == m0;
        }
        let w = wins_on_second(coin, (n - 1) as u32, 100);
        assert(wins_on_first(coin, n) == wins_on_first(coin, (n - 1) as nat) + w);
        if coin.best_of == 3 {
            assert(w == if ((n - 1) as int) < p { 100 * p + p * (100 - p) } else { p * p });
        } else {
            assert(w == if ((n - 1) as int) < p { 10000int } else { 0 });
        }
    } else {
        let p = coin.player_pct as int;
        assert(0 * (100 * p + p * (100 - p)) == 0);
        assert(0 * (p * p) == 0);
    }
}

/// The coin's odds, counted: over every three rolls it can be handed, each
/// of `0..100`, a single flip at `p` percent comes down the player's way
/// on `p` in every hundred first rolls, and a best of three on
/// `p^3 + 3p^2(100 - p)` of the million, the cases where the player takes
/// two flips or three.
pub proof fn lemma_the_coins_odds(coin: Coin)
    requires
        coin.player_pct <= 100,
    ensures
        coin.best_of == 1 ==> wins_over_every_roll(coin) == 10000 * coin.player_pct,
        coin.best_of == 3 ==> wins_over_every_roll(coin) == {
            let p = coin.player_pct as int;
            p * p * p + 3 * p * p * (100 - p)
        },
{
    if coin.best_of == 1 || coin.best_of == 3 {
        lemma_first_count(coin, 100);
        let p = coin.player_pct as int;
        assert(p * (100 * p + p * (100 - p)) + (100 - p) * (p * p) == p * p * p + 3 * p * p * (100 - p))
            by (nonlinear_arith);
    }
}

// ---------------------------------------------------------------------------
// The duel, as a mathematical model
// ---------------------------------------------------------------------------

/// A showdown as the model sees it.
pub struct ShowdownModel {
    pub row: Seq<Played>,
    pub opposing: Seq<Played>,
    pub hand: u32,
    pub house_edge: u32,
}

/// Everything on and around the table, as plain values.
pub struct DuelModel {
    pub deck: Seq<Card>,
    pub draw: Seq<Card>,
    pub discard: Seq<Card>,
    /// The enemy's row this turn, laid down before the player builds theirs.
    pub opposing: Seq<Opposing>,
    /// The player's row. Slot `i` sits across from Opposing Card `i`.
    pub row: Seq<Placed>,
    /// The most cards the player may put in the row.
    pub plays: u8,
    /// How many Opposing Cards the enemy lays down. Rising Blinds grow it.
    pub row_size: u8,
    pub player_chips: u32,
    pub enemy: Enemy,
    pub turn: u32,
    pub phase: Phase,
    pub coin: Coin,
    /// Hands still carrying the Loaded Dice bonus.
    pub dice_left: u8,
    /// The House's live margin. `None` for an ordinary enemy.
    pub hole_card: Option<HoleCard>,
    /// The Arcade's fixed row, dealt again every turn.
    pub fixed: Option<Seq<(Card, bool)>>,
    /// Set when the rows turn over; taken when the turn resolves.
    pub showdown: Option<ShowdownModel>,
    /// The last showdown, for the screen to keep showing into the next turn.
    pub last: Option<ShowdownModel>,
    pub rng: u64,
}

/// The blank card The House keeps back, and what it fills in at the showdown.
pub open spec fn hole_card_of(face_value: u32) -> Card {
    Card { name: "The House's Hole Card", face_value, tell: None }
}

/// The opposing cards the enemy rolls, one slot at a time: each card off its
/// Deal, then a roll for whether it lands face down. The first is always
/// face up: the player is owed one thing to read the rest against.
pub open spec fn deal_row(deal: Deal, n: nat, rng: u64) -> (Seq<Opposing>, u64)
    decreases n,
{
    if n == 0 {
        (Seq::empty(), rng)
    } else {
        let (before, r0) = deal_row(deal, (n - 1) as nat, rng);
        let (card, r1) = deal_card(deal, r0);
        let r2 = xorshift_step(r1);
        let hidden = (r2 as int) % 100 < deal.hidden_pct;
        (before.push(Opposing { card, face_up: n - 1 == 0 || !hidden }), r2)
    }
}

/// A fixed row, laid down as given.
pub open spec fn laid(row: Seq<(Card, bool)>) -> Seq<Opposing> {
    Seq::new(row.len(), |i: int| Opposing { card: row[i].0, face_up: row[i].1 })
}

/// Fisher-Yates over the generator, from position `i` down to 1.
pub open spec fn shuffle_from(cards: Seq<Card>, i: int, rng: u64) -> (Seq<Card>, u64)
    decreases i,
{
    if i <= 0 {
        (cards, rng)
    } else {
        let r = xorshift_step(rng);
        let j = (r as int) % (i + 1);
        shuffle_from(cards.update(i, cards[j]).update(j, cards[i]), i - 1, r)
    }
}

pub open spec fn shuffle(cards: Seq<Card>, rng: u64) -> (Seq<Card>, u64) {
    shuffle_from(cards, cards.len() - 1, rng)
}

/// Refill the Draw to seven, off the end of the deck, reshuffling the
/// discard into the deck whenever the deck runs dry.
pub open spec fn refill(deck: Seq<Card>, draw: Seq<Card>, discard: Seq<Card>, rng: u64) -> (
    Seq<Card>,
    Seq<Card>,
    Seq<Card>,
    u64,
)
    decreases DRAW_SIZE - draw.len(),
{
    if draw.len() >= DRAW_SIZE {
        (deck, draw, discard, rng)
    } else if deck.len() == 0 {
        if discard.len() == 0 {
            (deck, draw, discard, rng)
        } else {
            let (shuffled, r) = shuffle(discard, rng);
            refill(shuffled.drop_last(), draw.push(shuffled.last()), Seq::empty(), r)
        }
    } else {
        refill(deck.drop_last(), draw.push(deck.last()), discard, rng)
    }
}

/// What a row leaves on the discard when the turn resolves: each card, after
/// whatever it burned.
pub open spec fn spent(row: Seq<Placed>) -> Seq<Card>
    decreases row.len(),
{
    if row.len() == 0 {
        Seq::empty()
    } else {
        spent(row.drop_last()) + match row.last().sacrifice {
            Some(burned) => seq![burned, row.last().card],
            None => seq![row.last().card],
        }
    }
}

/// The Draw after playing the card at `card`, and the sacrifice at `burn`.
pub open spec fn draw_after_place(draw: Seq<Card>, card: int, burn: Option<int>) -> Seq<Card> {
    match burn {
        None => draw.remove(card),
        Some(i) => if i > card {
            draw.remove(i).remove(card)
        } else {
            draw.remove(card).remove(i)
        },
    }
}

/// What the Draw gets back when a card is lifted out of the row.
pub open spec fn handed_back(placed: Placed) -> Seq<Card> {
    match placed.sacrifice {
        Some(burned) => seq![burned, placed.card],
        None => seq![placed.card],
    }
}

pub open spec fn face_up_card(opposing: Seq<Opposing>, slot: int) -> Option<Card> {
    if 0 <= slot < opposing.len() && opposing[slot].face_up {
        Some(opposing[slot].card)
    } else {
        None
    }
}

/// What a face-up Opposing Card is worth to a player who can only see the
/// face-up ones. A Tell that reads a face-down card counts for its print.
pub open spec fn showing_value(opposing: Seq<Opposing>, across: Seq<Option<Card>>, slot: int) -> int {
    let printed = opposing[slot].card.face_value as int;
    match opposing[slot].card.tell {
        Some(Tell::Streak) => match face_up_card(opposing, slot - 1) {
            Some(left) => if left.tell is Some {
                printed * 2
            } else {
                printed
            },
            None => printed,
        },
        Some(Tell::Copycat) => match face_up_card(opposing, slot + 1) {
            Some(next) => next.face_value as int,
            None => printed,
        },
        Some(Tell::Flop) => if 0 <= slot < across.len() && across[slot] is Some {
            across[slot]->0.face_value as int
        } else {
            printed
        },
        _ => printed,
    }
}

/// The face-up part of the first `n` Opposing Cards, as the player adds it up.
pub open spec fn showing_total(opposing: Seq<Opposing>, across: Seq<Option<Card>>, n: int) -> int
    decreases n,
{
    if n <= 0 {
        0
    } else {
        showing_total(opposing, across, n - 1) + if opposing[n - 1].face_up {
            showing_value(opposing, across, n - 1)
        } else {
            0
        }
    }
}

/// How many of the first `n` Opposing Cards are face down.
pub open spec fn hidden_count(opposing: Seq<Opposing>, n: int) -> int
    decreases n,
{
    if n <= 0 {
        0
    } else {
        hidden_count(opposing, n - 1) + if opposing[n - 1].face_up {
            0int
        } else {
            1
        }
    }
}

pub open spec fn small(card: Card) -> bool {
    card.face_value <= FACE_LIMIT
}

pub open spec fn all_small(cards: Seq<Card>) -> bool {
    forall|i: int| 0 <= i < cards.len() ==> small(#[trigger] cards[i])
}

pub open spec fn placed_small(row: Seq<Placed>) -> bool {
    forall|i: int|
        0 <= i < row.len() ==> small(#[trigger] row[i].card) && match row[i].sacrifice {
            Some(burned) => small(burned),
            None => true,
        }
}

pub open spec fn fixed_small(row: Seq<(Card, bool)>) -> bool {
    row.len() <= ROW_LIMIT && forall|i: int| 0 <= i < row.len() ==> small(#[trigger] row[i].0)
}

/// Every Opposing Card is an ordinary card but the last, which may be The
/// House's Hole Card.
pub open spec fn opposing_bounded(opposing: Seq<Opposing>) -> bool {
    &&& opposing.len() <= ROW_LIMIT
    &&& forall|i: int|
        0 <= i < opposing.len() ==> (#[trigger] opposing[i].card.face_value) <= if i + 1 < opposing.len() {
            FACE_LIMIT
        } else {
            HOLE_LIMIT
        }
}

impl DuelModel {
    /// The numbers on the table stay where every sum fits.
    pub open spec fn sound(self) -> bool {
        &&& all_small(self.deck)
        &&& all_small(self.draw)
        &&& all_small(self.discard)
        &&& placed_small(self.row)
        &&& opposing_bounded(self.opposing)
        &&& self.row.len() <= self.plays
        &&& self.enemy.deal.low <= FACE_LIMIT
        &&& self.enemy.deal.high <= FACE_LIMIT
        &&& match self.fixed {
            Some(row) => fixed_small(row),
            None => true,
        }
        &&& match self.hole_card {
            Some(hole) => hole.margin <= MARGIN_LIMIT,
            None => true,
        }
        &&& match self.showdown {
            Some(s) => s.hand < TOTAL_LIMIT && s.house_edge < TOTAL_LIMIT,
            None => true,
        }
    }

    /// A sound table whose prompt is up exactly while a showdown is on it.
    pub open spec fn wf(self) -> bool {
        &&& self.sound()
        &&& (self.phase == Phase::PushYourLuck) == (self.showdown is Some)
    }

    /// The Hand: the player's row resolved against the Opposing Cards they can
    /// see, or the settled number once the rows have turned over.
    pub open spec fn hand(self) -> int {
        match self.showdown {
            Some(s) => s.hand as int,
            None => total(resolve(self.row, visible(self.opposing))),
        }
    }

    /// The House Edge: the Opposing Cards resolved against the player's row,
    /// face-down cards included.
    pub open spec fn house_edge(self) -> int {
        match self.showdown {
            Some(s) => s.house_edge as int,
            None => total(resolve(as_row(self.opposing), row_cards(self.row))),
        }
    }

    pub open spec fn slots(self) -> int {
        self.opposing.len() as int
    }

    /// How many more cards the player may put in the row: one per slot, as
    /// far as their Plays reach.
    pub open spec fn plays_left(self) -> int {
        let cover = if (self.plays as int) < self.slots() {
            self.plays as int
        } else {
            self.slots()
        };
        if cover > self.row.len() {
            cover - self.row.len()
        } else {
            0
        }
    }

    /// The Payout The Hand would deal right now, doubled by a won Push.
    pub open spec fn payout(self, pyl: Option<Push>) -> int {
        let over = if self.hand() > self.house_edge() {
            self.hand() - self.house_edge()
        } else {
            0
        };
        if pyl == Some(Push::Won) {
            over * 2
        } else {
            over
        }
    }

    /// The Whiff The Hand would take right now: forgiven by a won Push and
    /// doubled by a lost one.
    pub open spec fn whiff(self, pyl: Option<Push>) -> int {
        let short = if self.house_edge() > self.hand() {
            self.house_edge() - self.hand()
        } else {
            0
        };
        match pyl {
            Some(Push::Won) => 0,
            Some(Push::Lost) => short * 2,
            None => short,
        }
    }

    pub open spec fn outcome(self) -> Option<CombatOutcome> {
        if self.enemy.chips == 0 {
            Some(CombatOutcome::Won)
        } else if self.player_chips == 0 {
            Some(CombatOutcome::Lost)
        } else {
            None
        }
    }

    /// What the player can add up for themselves: the face-up Opposing
    /// Cards, and how many are still face down.
    pub open spec fn showing(self) -> (int, int) {
        (
            showing_total(self.opposing, row_cards(self.row), self.opposing.len() as int),
            hidden_count(self.opposing, self.opposing.len() as int),
        )
    }

    /// Why a placement is refused, if it is.
    pub open spec fn place_error(self, card: int, burn: Option<int>) -> Option<PlayError> {
        if self.phase == Phase::PushYourLuck {
            Some(PlayError::HandIsFinal)
        } else if self.plays_left() == 0 {
            Some(PlayError::RowIsFull)
        } else if card >= self.draw.len() {
            Some(PlayError::NoSuchCard)
        } else if self.draw[card].tell == Some(Tell::AllIn) {
            match burn {
                None => Some(PlayError::AllInNeedsSacrifice),
                Some(i) => if i == card || i >= self.draw.len() {
                    Some(PlayError::NoSuchCard)
                } else {
                    None
                },
            }
        } else if burn is Some {
            Some(PlayError::NotAllIn)
        } else {
            None
        }
    }

    /// The table after the card at `card` (and the sacrifice at `burn`) goes
    /// into the next empty slot.
    pub open spec fn placed(self, card: int, burn: Option<int>) -> DuelModel {
        DuelModel {
            draw: draw_after_place(self.draw, card, burn),
            row: self.row.push(
                Placed {
                    card: self.draw[card],
                    sacrifice: match burn {
                        Some(i) => Some(self.draw[i]),
                        None => None,
                    },
                },
            ),
            ..self
        }
    }

    /// Why a lift is refused, if it is.
    pub open spec fn lift_error(self, slot: int) -> Option<PlayError> {
        if self.phase == Phase::PushYourLuck {
            Some(PlayError::HandIsFinal)
        } else if slot >= self.row.len() {
            Some(PlayError::NoSuchCard)
        } else {
            None
        }
    }

    /// The table after the card in `slot` comes back out of the row, with
    /// whatever it burned; everything to its right slides one slot left.
    pub open spec fn lifted(self, slot: int) -> DuelModel {
        DuelModel {
            row: self.row.remove(slot),
            draw: self.draw + handed_back(self.row[slot]),
            ..self
        }
    }

    /// The enemy's row for the turn ahead, and the generator after it: the
    /// fixed row if there is one, else rolled off the Deal. The House blanks
    /// its last card and keeps it face down.
    pub open spec fn dealt(self) -> (Seq<Opposing>, u64) {
        let (row, rng) = match self.fixed {
            Some(fixed) => (laid(fixed), self.rng),
            None => deal_row(self.enemy.deal, self.row_size as nat, self.rng),
        };
        if self.hole_card is Some && row.len() > 0 {
            (row.update(row.len() - 1, Opposing { card: hole_card_of(0), face_up: false }), rng)
        } else {
            (row, rng)
        }
    }

    /// The table with the enemy's next row laid down.
    pub open spec fn with_dealt(self) -> DuelModel {
        DuelModel { opposing: self.dealt().0, rng: self.dealt().1, ..self }
    }

    /// The table with the Draw refilled.
    pub open spec fn refilled(self) -> DuelModel {
        let (deck, draw, discard, rng) = refill(self.deck, self.draw, self.discard, self.rng);
        DuelModel { deck, draw, discard, rng, ..self }
    }

    /// What The House's Hole Card comes to: the player's row but their last
    /// card, read against the Opposing Cards across from it, plus the
    /// margin, less what its own cards in front of the blank already make.
    /// Never below nothing: it cannot un-deal a card.
    pub open spec fn hole_value(self, margin: u32) -> int {
        let slot = self.opposing.len() - 1;
        let seen = if self.row.len() >= 1 {
            if self.row.len() - 1 < slot {
                self.row.len() - 1
            } else {
                slot
            }
        } else {
            0
        };
        let read = total(resolve(self.row.take(seen), printed(self.opposing.take(seen))));
        let mine = total(resolve(as_row(self.opposing.take(slot)), row_cards(self.row)));
        if read + margin > mine {
            read + margin - mine
        } else {
            0
        }
    }

    /// The Opposing Cards once The House has filled its last card in: it
    /// sets it on everything it can see, the player's row but their last card.
    pub open spec fn hole_filled(self) -> Seq<Opposing> {
        match self.hole_card {
            Some(hole) => if self.opposing.len() > 0 {
                self.opposing.update(
                    self.opposing.len() - 1,
                    Opposing {
                        card: hole_card_of(self.hole_value(hole.margin) as u32),
                        face_up: self.opposing[self.opposing.len() - 1].face_up,
                    },
                )
            } else {
                self.opposing
            },
            None => self.opposing,
        }
    }

    /// The Opposing Cards as they turn over: The House fills its last card
    /// first, then every card is face up.
    pub open spec fn turned_over(self) -> Seq<Opposing> {
        let filled = self.hole_filled();
        Seq::new(filled.len(), |i: int| Opposing { card: filled[i].card, face_up: true })
    }

    /// The table at the showdown: both rows face up and resolved, the Loaded
    /// Dice on The Hand, and the prompt not yet answered. The rows that
    /// turned over last time stay where they were until these resolve.
    pub open spec fn shown(self) -> DuelModel {
        let opposing = self.turned_over();
        let row = resolve(self.row, printed(opposing));
        let theirs = resolve(as_row(opposing), row_cards(self.row));
        let dice = self.dice_left > 0;
        let hand = total(row) + if dice { LOADED_DICE_BONUS as int } else { 0 };
        DuelModel {
            opposing,
            dice_left: if dice { (self.dice_left - 1) as u8 } else { self.dice_left },
            showdown: Some(ShowdownModel { row, opposing: theirs, hand: hand as u32, house_edge: total(theirs) as u32 }),
            ..self
        }
    }

    /// How the turn comes out for this answer to the prompt. A lost Push on
    /// a clearing Hand zeroes it: a full Whiff for the whole House Edge.
    pub open spec fn kind(self, pyl: Option<Push>) -> Outcome {
        if self.hand() >= self.house_edge() {
            if pyl == Some(Push::Lost) {
                Outcome::Whiff(self.house_edge() as u32)
            } else {
                Outcome::Payout(self.payout(pyl) as u32)
            }
        } else {
            Outcome::Whiff(self.whiff(pyl) as u32)
        }
    }

    pub open spec fn blinds_rise(self) -> bool {
        let every = if self.enemy.blinds.every_turns == 0 {
            1
        } else {
            self.enemy.blinds.every_turns as int
        };
        (self.turn as int) % every == 0
    }

    /// The table once the turn is settled, before the next one is dealt: the
    /// lower side has lost the difference off its Chips, the Blinds have
    /// ticked, both rows are cleared to the discard and the showdown is kept
    /// for the screen.
    pub open spec fn settled(self, pyl: Option<Push>) -> DuelModel {
        let kind = self.kind(pyl);
        let rose = self.blinds_rise();
        DuelModel {
            enemy: match kind {
                Outcome::Payout(n) => Enemy {
                    chips: if self.enemy.chips > n { (self.enemy.chips - n) as u32 } else { 0 },
                    ..self.enemy
                },
                Outcome::Whiff(_) => self.enemy,
            },
            player_chips: match kind {
                Outcome::Whiff(n) => if self.player_chips > n { (self.player_chips - n) as u32 } else { 0 },
                Outcome::Payout(_) => self.player_chips,
            },
            hole_card: match self.hole_card {
                Some(hole) => if rose {
                    Some(HoleCard { margin: (hole.margin + hole.step) as u32, ..hole })
                } else {
                    Some(hole)
                },
                None => None,
            },
            row_size: if rose && self.hole_card is None {
                if self.row_size + self.enemy.blinds.cards > u8::MAX {
                    u8::MAX
                } else {
                    (self.row_size + self.enemy.blinds.cards) as u8
                }
            } else {
                self.row_size
            },
            turn: (self.turn + 1) as u32,
            phase: Phase::Playing,
            discard: self.discard + spent(self.row),
            row: Seq::empty(),
            last: self.showdown,
            showdown: None,
            ..self
        }
    }

    /// The turn resolved: settled, the Draw refilled, and the enemy's next
    /// row laid down; with what the turn came to.
    pub open spec fn resolved(self, pyl: Option<Push>) -> (DuelModel, TurnResult) {
        (
            self.settled(pyl).refilled().with_dealt(),
            TurnResult {
                hand: self.hand() as u32,
                house_edge: self.house_edge() as u32,
                kind: self.kind(pyl),
                pyl,
                blinds_rose: self.blinds_rise(),
            },
        )
    }

    /// Confirm: nothing while the prompt is already up. Otherwise both rows
    /// turn over; a tie resolves on the spot and pays nobody, anything else
    /// puts the Push Your Luck prompt up.
    pub open spec fn confirmed(self) -> (DuelModel, Option<TurnResult>) {
        if self.phase == Phase::PushYourLuck {
            (self, None)
        } else {
            let shown = self.shown();
            if shown.hand() != shown.house_edge() {
                (DuelModel { phase: Phase::PushYourLuck, ..shown }, None)
            } else {
                let (next, result) = shown.resolved(None);
                (next, Some(result))
            }
        }
    }

    /// Confirm and, if the prompt goes up, Hold.
    pub open spec fn turn_ended(self) -> (DuelModel, TurnResult) {
        let (after, result) = self.confirmed();
        match result {
            Some(r) => (after, r),
            None => after.resolved(None),
        }
    }

    /// There is room to resolve a turn: the turn counter and The House's
    /// margin can both take one more tick of the Blinds.
    pub open spec fn room_to_resolve(self) -> bool {
        &&& self.turn < u32::MAX
        &&& match self.hole_card {
            Some(hole) => hole.margin + hole.step <= MARGIN_LIMIT,
            None => true,
        }
    }
}

// ---------------------------------------------------------------------------
// Resolving a row, executably
// ---------------------------------------------------------------------------

/// Every card in a row, and everything it burned, prints at most the Hole
/// Card's limit.
pub open spec fn row_bounded(row: Seq<Placed>) -> bool {
    forall|i: int|
        0 <= i < row.len() ==> (#[trigger] row[i].card).face_value <= HOLE_LIMIT && match row[i].sacrifice {
            Some(burned) => burned.face_value <= HOLE_LIMIT,
            None => true,
        }
}

pub open spec fn across_bounded(across: Seq<Option<Card>>) -> bool {
    forall|i: int| 0 <= i < across.len() && (#[trigger] across[i]) is Some ==> across[i]->0.face_value <= HOLE_LIMIT
}

pub open spec fn values_bounded(row: Seq<Played>) -> bool {
    forall|i: int| 0 <= i < row.len() ==> (#[trigger] row[i]).value <= 2 * HOLE_LIMIT
}

proof fn lemma_slot_value_bounded(row: Seq<Placed>, across: Seq<Option<Card>>, slot: int)
    requires
        row_bounded(row),
        across_bounded(across),
        0 <= slot < row.len(),
    ensures
        0 <= slot_value(row, across, slot) <= 2 * HOLE_LIMIT,
{
    assert(row[slot].card.face_value <= HOLE_LIMIT);
    if slot + 1 < row.len() {
        assert(row[slot + 1].card.face_value <= HOLE_LIMIT);
    }
    if 0 <= slot < across.len() && across[slot] is Some {
        assert(across[slot]->0.face_value <= HOLE_LIMIT);
    }
}

/// Every card of a row comes to a number that fits in a `u32`.
pub open spec fn slots_fit(row: Seq<Placed>, across: Seq<Option<Card>>) -> bool {
    forall|i: int| 0 <= i < row.len() ==> #[trigger] slot_value(row, across, i) <= u32::MAX
}

/// Resolving a row inside the table's limits keeps every value inside them,
/// and each card comes to exactly what its slot reads.
pub proof fn lemma_resolve_bounded(row: Seq<Placed>, across: Seq<Option<Card>>)
    requires
        row_bounded(row),
        across_bounded(across),
    ensures
        values_bounded(resolve(row, across)),
        slots_fit(row, across),
        forall|i: int| 0 <= i < row.len() ==> (#[trigger] resolve(row, across)[i]).value as int == slot_value(row, across, i),
{
    assert forall|i: int| 0 <= i < row.len() implies (#[trigger] resolve(row, across)[i]).value as int == slot_value(row, across, i) by {
        lemma_slot_value_bounded(row, across, i);
    }
    assert forall|i: int| 0 <= i < row.len() implies #[trigger] slot_value(row, across, i) <= u32::MAX by {
        lemma_slot_value_bounded(row, across, i);
    }
}

/// A resolved row is worth at most its length times the most any one card
/// can come to.
pub proof fn lemma_total_bounded(row: Seq<Played>)
    requires
        values_bounded(row),
    ensures
        0 <= total(row) <= row.len() * (2 * HOLE_LIMIT),
    decreases row.len(),
{
    if row.len() > 0 {
        assert(values_bounded(row.drop_last()));
        lemma_total_bounded(row.drop_last());
        assert(row.last().value <= 2 * HOLE_LIMIT);
        let n = row.len() as int;
        assert((n - 1) * (2 * HOLE_LIMIT) + 2 * HOLE_LIMIT == n * (2 * HOLE_LIMIT)) by (nonlinear_arith);
    }
}

/// A row whose every card came to at most `b` is worth at most its length
/// times `b`.
proof fn lemma_total_at_most(row: Seq<Played>, b: int)
    requires
        forall|i: int| 0 <= i < row.len() ==> (#[trigger] row[i]).value <= b,
    ensures
        total(row) <= row.len() * b,
    decreases row.len(),
{
    if row.len() > 0 {
        assert forall|i: int| 0 <= i < row.drop_last().len() implies (#[trigger] row.drop_last()[i]).value <= b by {
            assert(row.drop_last()[i] == row[i]);
        }
        lemma_total_at_most(row.drop_last(), b);
        assert(row.last().value <= b);
        assert((row.len() - 1) * b + b == row.len() * b) by (nonlinear_arith);
    }
}

/// Ordinary cards on both sides come to at most twice the Face Value limit
/// each, whatever their Tells read.
proof fn lemma_small_row_total(row: Seq<Placed>, across: Seq<Option<Card>>)
    requires
        placed_small(row),
        forall|i: int| 0 <= i < across.len() && (#[trigger] across[i]) is Some ==> small(across[i]->0),
    ensures
        0 <= total(resolve(row, across)) <= row.len() * (2 * FACE_LIMIT),
{
    let played = resolve(row, across);
    assert forall|i: int| 0 <= i < played.len() implies (#[trigger] played[i]).value <= 2 * FACE_LIMIT by {
        assert(small(row[i].card));
        if i + 1 < row.len() {
            assert(small(row[i + 1].card));
        }
        if 0 <= i < across.len() && across[i] is Some {
            assert(small(across[i]->0));
        }
        assert(0 <= slot_value(row, across, i) <= 2 * FACE_LIMIT);
    }
    lemma_total_at_most(played, 2 * FACE_LIMIT);
    lemma_total_nonnegative(played);
}

proof fn lemma_total_nonnegative(row: Seq<Played>)
    ensures
        0 <= total(row),
    decreases row.len(),
{
    if row.len() > 0 {
        lemma_total_nonnegative(row.drop_last());
    }
}

/// Resolve a row left to right against the row across from it, and say what
/// each card is worth. No card's value depends on another card's value, so
/// the two rows facing each other can be worked out in either order and a
/// Flop on each side of the table never chases the other one round in a
/// circle.
pub fn resolve_row(row: &Vec<Placed>, across: &Vec<Option<Card>>) -> (r: Vec<Played>)
    requires
        slots_fit(row@, across@),
    ensures
        r@ == resolve(row@, across@),
        forall|i: int| 0 <= i < row@.len() ==> (#[trigger] r@[i]).value as int == slot_value(row@, across@, i),
        row_bounded(row@) && across_bounded(across@) ==> values_bounded(r@),
{
    proof {
        if row_bounded(row@) && across_bounded(across@) {
            lemma_resolve_bounded(row@, across@);
        }
    }
    let mut out: Vec<Played> = Vec::new();
    let mut slot: usize = 0;
    while slot < row.len()
        invariant
            slot <= row@.len(),
            slots_fit(row@, across@),
            out@ == resolve(row@, across@).take(slot as int),
        decreases row@.len() - slot,
    {
        assert(slot_value(row@, across@, slot as int) <= u32::MAX);
        let placed = row[slot];
        let printed = placed.card.face_value;
        let value: u32 = match placed.card.tell {
            Some(Tell::Streak) => {
                if slot > 0 && row[slot - 1].card.tell.is_some() {
                    printed * 2
                } else {
                    printed
                }
            },
            Some(Tell::AllIn) => {
                match placed.sacrifice {
                    Some(burned) => printed + burned.face_value,
                    None => printed,
                }
            },
            Some(Tell::Copycat) => {
                if slot + 1 < row.len() {
                    row[slot + 1].card.face_value
                } else {
                    printed
                }
            },
            Some(Tell::Flop) => {
                if slot < across.len() {
                    match across[slot] {
                        Some(card) => card.face_value,
                        None => printed,
                    }
                } else {
                    printed
                }
            },
            None => printed,
        };
        assert(value as int == slot_value(row@, across@, slot as int));
        out.push(Played { card: placed.card, value });
        assert(out@ =~= resolve(row@, across@).take(slot + 1));
        slot = slot + 1;
    }
    assert(out@ =~= resolve(row@, across@));
    proof {
        assert forall|i: int| 0 <= i < row@.len() implies (#[trigger] out@[i]).value as int == slot_value(row@, across@, i) by {
            assert(slot_value(row@, across@, i) <= u32::MAX);
        }
    }
    out
}

/// What a resolved row is worth.
fn row_value(row: &Vec<Played>) -> (r: u32)
    requires
        values_bounded(row@),
        row@.len() <= ROW_LIMIT,
    ensures
        r as int == total(row@),
        r < TOTAL_LIMIT,
{
    let mut sum: u32 = 0;
    let mut k: usize = 0;
    proof {
        lemma_total_bounded(row@);
    }
    while k < row.len()
        invariant
            k <= row@.len(),
            row@.len() <= ROW_LIMIT,
            values_bounded(row@),
            sum as int == total(row@.take(k as int)),
        decreases row@.len() - k,
    {
        proof {
            assert(row@.take(k + 1).drop_last() =~= row@.take(k as int));
            assert(values_bounded(row@.take(k as int)));
            lemma_total_bounded(row@.take(k as int));
            assert(row@[k as int].value <= 2 * HOLE_LIMIT);
        }
        sum = sum + row[k].value;
        k = k + 1;
    }
    assert(row@.take(k as int) =~= row@);
    proof {
        lemma_total_bounded(row@);
        let n = row@.len() as int;
        assert(n * (2 * HOLE_LIMIT) <= 255 * (2 * HOLE_LIMIT)) by (nonlinear_arith)
            requires n <= 255;
    }
    sum
}

// ---------------------------------------------------------------------------
// The duel
// ---------------------------------------------------------------------------

impl View for Showdown {
    type V = ShowdownModel;

    open spec fn view(&self) -> ShowdownModel {
        ShowdownModel { row: self.row@, opposing: self.opposing@, hand: self.hand, house_edge: self.house_edge }
    }
}

pub open spec fn showdown_model(s: Option<Showdown>) -> Option<ShowdownModel> {
    match s {
        Some(s) => Some(s@),
        None => None,
    }
}

pub struct Duel {
    deck: Vec<Card>,
    draw: Vec<Card>,
    discard: Vec<Card>,
    /// The enemy's row this turn, laid down before the player builds theirs.
    opposing: Vec<Opposing>,
    /// The player's row. Slot `i` sits across from Opposing Card `i`.
    row: Vec<Placed>,
    /// The most cards the player may put in the row.
    plays: u8,
    /// How many Opposing Cards the enemy lays down. Rising Blinds grow it.
    row_size: u8,
    player_chips: u32,
    enemy: Enemy,
    turn: u32,
    phase: Phase,
    coin: Coin,
    /// Hands still carrying the Loaded Dice bonus, carried in from the run.
    dice_left: u8,
    /// The House's live margin. `None` for an ordinary enemy.
    hole_card: Option<HoleCard>,
    /// The Arcade's fixed row, dealt again every turn. `None` in a real
    /// duel, where the enemy rolls its own.
    fixed: Option<Vec<(Card, bool)>>,
    /// Set when the rows turn over; taken when the turn resolves.
    showdown: Option<Showdown>,
    /// The last showdown, for the screen to keep showing into the next turn.
    last: Option<Showdown>,
    rng: u64,
}

impl View for Duel {
    type V = DuelModel;

    closed spec fn view(&self) -> DuelModel {
        DuelModel {
            deck: self.deck@,
            draw: self.draw@,
            discard: self.discard@,
            opposing: self.opposing@,
            row: self.row@,
            plays: self.plays,
            row_size: self.row_size,
            player_chips: self.player_chips,
            enemy: self.enemy,
            turn: self.turn,
            phase: self.phase,
            coin: self.coin,
            dice_left: self.dice_left,
            hole_card: self.hole_card,
            fixed: match self.fixed {
                Some(row) => Some(row@),
                None => None,
            },
            showdown: showdown_model(self.showdown),
            last: showdown_model(self.last),
            rng: self.rng,
        }
    }
}

/// A dealt card prints inside its Deal's range, so under the table's limit.
proof fn lemma_dealt_small(deal: Deal, rng: u64)
    requires
        deal.low <= FACE_LIMIT,
        deal.high <= FACE_LIMIT,
    ensures
        small(deal_card(deal, rng).0),
{
    let r1 = xorshift_step(rng);
    let span = crate::run::deal_span(deal);
    assert(0 <= (r1 as int) % span < span);
}

proof fn lemma_deal_row(deal: Deal, n: nat, rng: u64)
    requires
        deal.low <= FACE_LIMIT,
        deal.high <= FACE_LIMIT,
    ensures
        deal_row(deal, n, rng).0.len() == n,
        forall|i: int| 0 <= i < n ==> small(#[trigger] deal_row(deal, n, rng).0[i].card),
        n > 0 ==> deal_row(deal, n, rng).0[0].face_up,
    decreases n,
{
    if n > 0 {
        lemma_deal_row(deal, (n - 1) as nat, rng);
        let (before, r0) = deal_row(deal, (n - 1) as nat, rng);
        lemma_dealt_small(deal, r0);
    }
}

/// The model after the enemy deals keeps the table's bounds.
proof fn lemma_dealt_bounded(m: DuelModel)
    requires
        m.enemy.deal.low <= FACE_LIMIT,
        m.enemy.deal.high <= FACE_LIMIT,
        match m.fixed {
            Some(row) => fixed_small(row),
            None => true,
        },
    ensures
        opposing_bounded(m.dealt().0),
        m.fixed is None ==> m.dealt().0.len() == m.row_size,
        m.fixed matches Some(row) ==> m.dealt().0.len() == row.len(),
{
    match m.fixed {
        Some(row) => {
            assert forall|i: int| 0 <= i < laid(row).len() implies (#[trigger] laid(row)[i].card).face_value <= FACE_LIMIT by {
                assert(small(row[i].0));
            }
        },
        None => {
            lemma_deal_row(m.enemy.deal, m.row_size as nat, m.rng);
        },
    }
}


// ---------------------------------------------------------------------------
// Shuffling, drawing and dealing
// ---------------------------------------------------------------------------

/// A shuffle only moves cards around: the same cards come out, as many of
/// each as went in.
pub proof fn lemma_shuffle_from(cards: Seq<Card>, i: int, rng: u64)
    requires
        i < cards.len(),
    ensures
        shuffle_from(cards, i, rng).0.len() == cards.len(),
        shuffle_from(cards, i, rng).0.to_multiset() == cards.to_multiset(),
        all_small(cards) ==> all_small(shuffle_from(cards, i, rng).0),
    decreases i,
{
    broadcast use vstd::seq_lib::group_to_multiset_ensures, vstd::multiset::group_multiset_axioms;
    if i > 0 {
        let r = xorshift_step(rng);
        let j = (r as int) % (i + 1);
        let once = cards.update(i, cards[j]);
        let swapped = once.update(j, cards[i]);
        assert(swapped.to_multiset() =~= cards.to_multiset());
        if all_small(cards) {
            assert forall|k: int| 0 <= k < swapped.len() implies small(#[trigger] swapped[k]) by {
                if k == j {
                } else if k == i {
                    assert(small(cards[j]));
                } else {
                    assert(small(cards[k]));
                }
            }
        }
        lemma_shuffle_from(swapped, i - 1, r);
    }
}

/// Shuffling a whole deck keeps every card and adds none, and ordinary cards
/// stay ordinary.
pub proof fn lemma_shuffle(cards: Seq<Card>, rng: u64)
    ensures
        shuffle(cards, rng).0.len() == cards.len(),
        shuffle(cards, rng).0.to_multiset() == cards.to_multiset(),
        all_small(cards) ==> all_small(shuffle(cards, rng).0),
{
    if cards.len() > 0 {
        lemma_shuffle_from(cards, cards.len() - 1, rng);
    }
}

/// Fisher-Yates over the duel's own generator; the same stream the coin is
/// flipped from and the enemy deals off.
pub fn shuffle_cards(cards: &mut Vec<Card>, rng: &mut u64)
    ensures
        (final(cards)@, *final(rng)) == shuffle(old(cards)@, *old(rng)),
{
    let n = cards.len();
    if n > 1 {
        let mut i: usize = n - 1;
        while i > 0
            invariant
                i < n,
                cards@.len() == n,
                n == old(cards)@.len(),
                shuffle_from(cards@, i as int, *rng) == shuffle(old(cards)@, *old(rng)),
            decreases i,
        {
            let ghost before = cards@;
            let r = xorshift64(rng);
            let j = (r % (i as u64 + 1)) as usize;
            let a = cards[i];
            let b = cards[j];
            cards.set(i, b);
            cards.set(j, a);
            assert(cards@ =~= before.update(i as int, before[j as int]).update(j as int, before[i as int]));
            i = i - 1;
        }
    }
}


/// Refilling only moves cards between the deck, the Draw and the discard:
/// the three together hold the same cards before and after, and none of
/// them grows past the table's limits.
/// Refilling draws until the Draw holds seven or both the deck and the
/// discard are out: a Draw of fewer than seven ends up with seven cards, or
/// every card there was, and a fuller one is left as it is.
pub proof fn lemma_refill_count(deck: Seq<Card>, draw: Seq<Card>, discard: Seq<Card>, rng: u64)
    ensures
        refill(deck, draw, discard, rng).1.len() == if draw.len() >= DRAW_SIZE {
            draw.len() as int
        } else if draw.len() + deck.len() + discard.len() < DRAW_SIZE {
            (draw.len() + deck.len() + discard.len()) as int
        } else {
            DRAW_SIZE as int
        },
    decreases DRAW_SIZE - draw.len(),
{
    if draw.len() >= DRAW_SIZE {
    } else if deck.len() == 0 {
        if discard.len() > 0 {
            let (shuffled, r) = shuffle(discard, rng);
            lemma_shuffle(discard, rng);
            lemma_refill_count(shuffled.drop_last(), draw.push(shuffled.last()), Seq::empty(), r);
        }
    } else {
        lemma_refill_count(deck.drop_last(), draw.push(deck.last()), discard, rng);
    }
}

pub proof fn lemma_refill(deck: Seq<Card>, draw: Seq<Card>, discard: Seq<Card>, rng: u64)
    ensures
        ({
            let (d, w, x, _) = refill(deck, draw, discard, rng);
            &&& (d + w + x).to_multiset() == (deck + draw + discard).to_multiset()
            &&& (all_small(deck) && all_small(draw) && all_small(discard)) ==> (all_small(d)
                && all_small(w) && all_small(x))
            &&& w.len() >= draw.len()
            &&& (draw.len() <= DRAW_SIZE ==> w.len() <= DRAW_SIZE)
            &&& w.take(draw.len() as int) == draw
        }),
    decreases DRAW_SIZE - draw.len(),
{
    broadcast use vstd::seq_lib::group_to_multiset_ensures, vstd::multiset::group_multiset_axioms,
        vstd::seq_lib::lemma_multiset_commutative;
    if draw.len() >= DRAW_SIZE {
        assert(draw.take(draw.len() as int) =~= draw);
    } else if deck.len() == 0 {
        if discard.len() == 0 {
            assert(draw.take(draw.len() as int) =~= draw);
        } else {
            let (shuffled, r) = shuffle(discard, rng);
            lemma_shuffle(discard, rng);
            let d1 = shuffled.drop_last();
            let w1 = draw.push(shuffled.last());
            let x1: Seq<Card> = Seq::empty();
            lemma_refill(d1, w1, x1, r);
            assert(shuffled =~= d1.push(shuffled.last()));
            assert((d1 + w1 + x1).to_multiset() =~= (deck + draw + discard).to_multiset()) by {
                assert(deck + draw + discard =~= draw + discard);
                assert(d1 + w1 + x1 =~= d1 + w1);
                assert(d1.push(shuffled.last()).to_multiset() == shuffled.to_multiset());
            }
            if all_small(discard) && all_small(draw) {
                assert(all_small(d1)) by {
                    assert forall|k: int| 0 <= k < d1.len() implies small(#[trigger] d1[k]) by {
                        assert(small(shuffled[k]));
                    }
                }
                assert(small(shuffled[shuffled.len() - 1]));
            }
            let (_, w, _, _) = refill(d1, w1, x1, r);
            assert(w.take(draw.len() as int) =~= w.take(w1.len() as int).take(draw.len() as int));
        }
    } else {
        let d1 = deck.drop_last();
        let w1 = draw.push(deck.last());
        lemma_refill(d1, w1, discard, rng);
        assert(deck =~= d1.push(deck.last()));
        assert((d1 + w1 + discard).to_multiset() =~= (deck + draw + discard).to_multiset()) by {
            assert(d1 + w1 + discard =~= d1 + (draw.push(deck.last()) + discard));
            assert(deck + draw + discard =~= d1 + (seq![deck.last()] + draw + discard));
            assert(draw.push(deck.last()) + discard =~= draw + (seq![deck.last()] + discard));
            assert((seq![deck.last()] + draw).to_multiset() =~= (draw + seq![deck.last()]).to_multiset());
            assert(seq![deck.last()] + draw + discard =~= (seq![deck.last()] + draw) + discard);
            assert(draw + (seq![deck.last()] + discard) =~= (draw + seq![deck.last()]) + discard);
        }
        if all_small(deck) && all_small(draw) {
            assert(all_small(d1)) by {
                assert forall|k: int| 0 <= k < d1.len() implies small(#[trigger] d1[k]) by {
                    assert(small(deck[k]));
                }
            }
            assert(small(deck[deck.len() - 1]));
        }
        let (_, w, _, _) = refill(d1, w1, discard, rng);
        assert(w.take(draw.len() as int) =~= w.take(w1.len() as int).take(draw.len() as int));
    }
}

/// Refill the Draw to seven off the end of the deck, shuffling the discard
/// back in as the deck whenever the deck runs dry.
fn refill_draw(deck: &mut Vec<Card>, draw: &mut Vec<Card>, discard: &mut Vec<Card>, rng: &mut u64)
    ensures
        (final(deck)@, final(draw)@, final(discard)@, *final(rng)) == refill(
            old(deck)@,
            old(draw)@,
            old(discard)@,
            *old(rng),
        ),
{
    while draw.len() < DRAW_SIZE && (deck.len() > 0 || discard.len() > 0)
        invariant
            refill(deck@, draw@, discard@, *rng) == refill(old(deck)@, old(draw)@, old(discard)@, *old(rng)),
        decreases DRAW_SIZE - draw@.len(),
    {
        if deck.len() == 0 {
            let ghost (pile, r0) = (discard@, *rng);
            std::mem::swap(deck, discard);
            shuffle_cards(deck, rng);
            proof {
                lemma_shuffle(pile, r0);
                assert(discard@ =~= Seq::<Card>::empty());
            }
        }
        let card = deck.pop().unwrap();
        draw.push(card);
    }
}


/// Roll `n` Opposing Cards off the Deal: each card, then whether it lands
/// face down. The first is always face up: the player is owed one thing to
/// read the rest against.
fn roll_row(deal: &Deal, n: u8, rng: &mut u64) -> (row: Vec<Opposing>)
    requires
        deal.low <= FACE_LIMIT,
        deal.high <= FACE_LIMIT,
    ensures
        (row@, *final(rng)) == deal_row(*deal, n as nat, *old(rng)),
{
    let mut row: Vec<Opposing> = Vec::new();
    let mut slot: u8 = 0;
    while slot < n
        invariant
            slot <= n,
            deal.low <= FACE_LIMIT,
            deal.high <= FACE_LIMIT,
            (row@, *rng) == deal_row(*deal, slot as nat, *old(rng)),
        decreases n - slot,
    {
        let card = deal.card(rng);
        let hidden = xorshift64(rng) % 100 < deal.hidden_pct as u64;
        row.push(Opposing { card, face_up: slot == 0 || !hidden });
        slot = slot + 1;
    }
    row
}

/// A fixed row, laid down as given.
fn lay(fixed: &Vec<(Card, bool)>) -> (row: Vec<Opposing>)
    ensures
        row@ == laid(fixed@),
{
    let mut row: Vec<Opposing> = Vec::new();
    let mut k: usize = 0;
    while k < fixed.len()
        invariant
            k <= fixed@.len(),
            row@ == laid(fixed@).take(k as int),
        decreases fixed@.len() - k,
    {
        let (card, face_up) = fixed[k];
        row.push(Opposing { card, face_up });
        assert(row@ =~= laid(fixed@).take(k + 1));
        k = k + 1;
    }
    assert(row@ =~= laid(fixed@));
    row
}

/// The table a duel opens on, before the Draw is dealt and the enemy lays
/// its first row down.
pub open spec fn opening(deck: Seq<Card>, player_chips: u32, plays: u8, enemy: Enemy) -> DuelModel {
    DuelModel {
        deck,
        draw: Seq::empty(),
        discard: Seq::empty(),
        opposing: Seq::empty(),
        row: Seq::empty(),
        plays,
        row_size: enemy.deal.row,
        player_chips,
        enemy,
        turn: 1,
        phase: Phase::Playing,
        coin: Coin { player_pct: 45, best_of: 1 },
        dice_left: 0,
        hole_card: enemy.hole_card,
        fixed: None,
        showdown: None,
        last: None,
        rng: 0x5eed_cafe_f00d_d1ce,
    }
}

/// What a duel needs of its enemy: a Deal whose cards stay under the
/// table's limit, and a margin with room to grow.
pub open spec fn enemy_fits(enemy: Enemy) -> bool {
    &&& enemy.deal.low <= FACE_LIMIT
    &&& enemy.deal.high <= FACE_LIMIT
    &&& match enemy.hole_card {
        Some(hole) => hole.margin <= MARGIN_LIMIT,
        None => true,
    }
}

/// Whether a duel can sit `enemy` down.
pub fn enemy_can_sit(enemy: &Enemy) -> (r: bool)
    ensures
        r == enemy_fits(*enemy),
{
    enemy.deal.low <= FACE_LIMIT && enemy.deal.high <= FACE_LIMIT && match enemy.hole_card {
        Some(hole) => hole.margin <= MARGIN_LIMIT,
        None => true,
    }
}

/// Laying the next row down keeps the table well formed.
proof fn lemma_with_dealt_wf(m: DuelModel)
    requires
        m.wf(),
    ensures
        m.with_dealt().wf(),
{
    lemma_dealt_bounded(m);
}

/// A row of at most the table's length is worth less than the total limit.
proof fn lemma_row_total_fits(row: Seq<Placed>, across: Seq<Option<Card>>)
    requires
        row_bounded(row),
        across_bounded(across),
        row.len() <= ROW_LIMIT,
    ensures
        0 <= total(resolve(row, across)) < TOTAL_LIMIT - LOADED_DICE_BONUS,
{
    lemma_resolve_bounded(row, across);
    lemma_total_bounded(resolve(row, across));
    let n = row.len() as int;
    assert(n * (2 * HOLE_LIMIT) <= 255 * (2 * HOLE_LIMIT)) by (nonlinear_arith)
        requires
            n <= 255,
    ;
}

/// What a well-formed table promises about the rows on it: every card is
/// inside the limits the row resolver needs, and both totals fit.
pub proof fn lemma_wf_bounds(m: DuelModel)
    requires
        m.sound(),
    ensures
        row_bounded(m.row),
        row_bounded(as_row(m.opposing)),
        across_bounded(visible(m.opposing)),
        across_bounded(printed(m.opposing)),
        across_bounded(row_cards(m.row)),
        m.row.len() <= ROW_LIMIT,
        0 <= m.hand() < TOTAL_LIMIT,
        0 <= m.house_edge() < TOTAL_LIMIT,
{
    assert forall|i: int| 0 <= i < m.row.len() implies (#[trigger] m.row[i].card).face_value <= HOLE_LIMIT
        && match m.row[i].sacrifice {
        Some(burned) => burned.face_value <= HOLE_LIMIT,
        None => true,
    } by {
        assert(small(m.row[i].card));
    }
    assert forall|i: int| 0 <= i < as_row(m.opposing).len() implies (#[trigger] as_row(m.opposing)[i].card).face_value
        <= HOLE_LIMIT && as_row(m.opposing)[i].sacrifice is None by {
        assert(m.opposing[i].card.face_value <= HOLE_LIMIT);
    }
    assert forall|i: int| 0 <= i < visible(m.opposing).len() && (#[trigger] visible(m.opposing)[i]) is Some implies visible(
        m.opposing,
    )[i]->0.face_value <= HOLE_LIMIT by {
        assert(m.opposing[i].card.face_value <= HOLE_LIMIT);
    }
    assert forall|i: int| 0 <= i < printed(m.opposing).len() && (#[trigger] printed(m.opposing)[i]) is Some implies printed(
        m.opposing,
    )[i]->0.face_value <= HOLE_LIMIT by {
        assert(m.opposing[i].card.face_value <= HOLE_LIMIT);
    }
    assert forall|i: int| 0 <= i < row_cards(m.row).len() && (#[trigger] row_cards(m.row)[i]) is Some implies row_cards(
        m.row,
    )[i]->0.face_value <= HOLE_LIMIT by {
        assert(small(m.row[i].card));
    }
    lemma_row_total_fits(m.row, visible(m.opposing));
    lemma_row_total_fits(as_row(m.opposing), row_cards(m.row));
}

fn as_row_vec(opposing: &Vec<Opposing>) -> (r: Vec<Placed>)
    ensures
        r@ == as_row(opposing@),
{
    let mut r: Vec<Placed> = Vec::new();
    let mut k: usize = 0;
    while k < opposing.len()
        invariant
            k <= opposing@.len(),
            r@ == as_row(opposing@).take(k as int),
        decreases opposing@.len() - k,
    {
        r.push(Placed { card: opposing[k].card, sacrifice: None });
        assert(r@ =~= as_row(opposing@).take(k + 1));
        k = k + 1;
    }
    assert(r@ =~= as_row(opposing@));
    r
}

fn printed_vec(opposing: &Vec<Opposing>) -> (r: Vec<Option<Card>>)
    ensures
        r@ == printed(opposing@),
{
    let mut r: Vec<Option<Card>> = Vec::new();
    let mut k: usize = 0;
    while k < opposing.len()
        invariant
            k <= opposing@.len(),
            r@ == printed(opposing@).take(k as int),
        decreases opposing@.len() - k,
    {
        r.push(Some(opposing[k].card));
        assert(r@ =~= printed(opposing@).take(k + 1));
        k = k + 1;
    }
    assert(r@ =~= printed(opposing@));
    r
}

fn visible_vec(opposing: &Vec<Opposing>) -> (r: Vec<Option<Card>>)
    ensures
        r@ == visible(opposing@),
{
    let mut r: Vec<Option<Card>> = Vec::new();
    let mut k: usize = 0;
    while k < opposing.len()
        invariant
            k <= opposing@.len(),
            r@ == visible(opposing@).take(k as int),
        decreases opposing@.len() - k,
    {
        let o = opposing[k];
        r.push(if o.face_up { Some(o.card) } else { None });
        assert(r@ =~= visible(opposing@).take(k + 1));
        k = k + 1;
    }
    assert(r@ =~= visible(opposing@));
    r
}

fn row_cards_vec(row: &Vec<Placed>) -> (r: Vec<Option<Card>>)
    ensures
        r@ == row_cards(row@),
{
    let mut r: Vec<Option<Card>> = Vec::new();
    let mut k: usize = 0;
    while k < row.len()
        invariant
            k <= row@.len(),
            r@ == row_cards(row@).take(k as int),
        decreases row@.len() - k,
    {
        r.push(Some(row[k].card));
        assert(r@ =~= row_cards(row@).take(k + 1));
        k = k + 1;
    }
    assert(r@ =~= row_cards(row@));
    r
}

/// An index into the Draw, as the model reads it.
pub open spec fn index_of(i: Option<usize>) -> Option<int> {
    match i {
        Some(i) => Some(i as int),
        None => None,
    }
}

fn take_prefix<T: Copy>(v: &Vec<T>, n: usize) -> (r: Vec<T>)
    requires
        n <= v@.len(),
    ensures
        r@ == v@.take(n as int),
{
    let mut r: Vec<T> = Vec::new();
    let mut k: usize = 0;
    while k < n
        invariant
            k <= n,
            n <= v@.len(),
            r@ == v@.take(k as int),
        decreases n - k,
    {
        r.push(v[k]);
        assert(r@ =~= v@.take(k + 1));
        k = k + 1;
    }
    r
}

/// What The House's Hole Card can come to on a sound table: the row it
/// reads holds only ordinary cards, so it stays under the Hole Card's limit.
proof fn lemma_hole_value_fits(m: DuelModel, margin: u32)
    requires
        m.sound(),
        m.opposing.len() > 0,
        margin <= MARGIN_LIMIT,
    ensures
        0 <= m.hole_value(margin) <= HOLE_LIMIT,
{
    let slot = m.opposing.len() - 1;
    let seen = if m.row.len() >= 1 {
        if m.row.len() - 1 < slot {
            m.row.len() - 1
        } else {
            slot
        }
    } else {
        0
    };
    let row = m.row.take(seen);
    let across = printed(m.opposing.take(seen));
    assert(placed_small(row)) by {
        assert forall|i: int| 0 <= i < row.len() implies small(#[trigger] row[i].card) && match row[i].sacrifice {
            Some(burned) => small(burned),
            None => true,
        } by {
            assert(row[i] == m.row[i]);
        }
    }
    assert forall|i: int| 0 <= i < across.len() && (#[trigger] across[i]) is Some implies small(across[i]->0) by {
        assert(m.opposing[i].card.face_value <= FACE_LIMIT);
    }
    lemma_small_row_total(row, across);
    assert(seen <= 254);
    assert(row.len() * (2 * FACE_LIMIT) <= 254 * (2 * FACE_LIMIT)) by (nonlinear_arith)
        requires
            row.len() <= 254,
    ;
    let mine = total(resolve(as_row(m.opposing.take(slot)), row_cards(m.row)));
    assert(placed_small(as_row(m.opposing.take(slot)))) by {
        assert forall|i: int| 0 <= i < slot implies small(#[trigger] as_row(m.opposing.take(slot))[i].card) by {
            assert(m.opposing[i].card.face_value <= FACE_LIMIT);
        }
    }
    assert forall|i: int| 0 <= i < row_cards(m.row).len() && (#[trigger] row_cards(m.row)[i]) is Some implies small(
        row_cards(m.row)[i]->0,
    ) by {
        assert(small(m.row[i].card));
    }
    lemma_small_row_total(as_row(m.opposing.take(slot)), row_cards(m.row));
}

/// Flip the coin off the duel's own generator, one roll per flip, reading
/// no more rolls than it takes for one side to have the majority.
fn flip_coin(coin: Coin, rng: &mut u64) -> (p: Push)
    ensures
        (p, *final(rng)) == coin_flip(coin, *old(rng)),
{
    let best: u32 = if coin.best_of == 0 { 1 } else { coin.best_of as u32 };
    let needed: u32 = best / 2 + 1;
    let ghost rolls = rng_rolls(*old(rng), flips(coin));
    let mut won: u32 = 0;
    let mut lost: u32 = 0;
    let mut i: u32 = 0;
    while i < best && won < needed && lost < needed
        invariant
            best == flips(coin),
            needed == majority(coin),
            rolls == rng_rolls(*old(rng), flips(coin)),
            won + lost == i,
            i <= best,
            *rng == rng_after(*old(rng), i as nat),
            toss_from(coin, rolls, i as int, won as int, lost as int) == coin_toss(coin, rolls),
        decreases best - i,
    {
        let roll = (xorshift64(rng) % 100) as u32;
        assert(roll == rolls[i as int]);
        if roll % 100 < coin.player_pct {
            won = won + 1;
        } else {
            lost = lost + 1;
        }
        i = i + 1;
    }
    if won >= needed {
        Push::Won
    } else {
        Push::Lost
    }
}

/// The discard with a resolved row's cards on it, each after whatever it burned.
fn discard_row(discard: &mut Vec<Card>, row: &Vec<Placed>)
    ensures
        final(discard)@ == old(discard)@ + spent(row@),
{
    let mut k: usize = 0;
    while k < row.len()
        invariant
            k <= row@.len(),
            discard@ == old(discard)@ + spent(row@.take(k as int)),
        decreases row@.len() - k,
    {
        let placed = row[k];
        if let Some(burned) = placed.sacrifice {
            discard.push(burned);
        }
        discard.push(placed.card);
        assert(row@.take(k + 1).drop_last() =~= row@.take(k as int));
        assert(discard@ =~= old(discard)@ + spent(row@.take(k + 1)));
        k = k + 1;
    }
    assert(row@.take(k as int) =~= row@);
}

/// The spent cards of a row of ordinary cards are ordinary too.
proof fn lemma_spent_small(row: Seq<Placed>)
    requires
        placed_small(row),
    ensures
        all_small(spent(row)),
    decreases row.len(),
{
    if row.len() > 0 {
        assert(placed_small(row.drop_last())) by {
            assert forall|i: int| 0 <= i < row.drop_last().len() implies small(#[trigger] row.drop_last()[i].card)
                && match row.drop_last()[i].sacrifice {
                Some(burned) => small(burned),
                None => true,
            } by {
                assert(row.drop_last()[i] == row[i]);
            }
        }
        lemma_spent_small(row.drop_last());
        assert(small(row.last().card));
    }
}

/// Turning the rows over keeps the table sound.
/// Turning the rows over reads the same House Edge the table read before:
/// with no Hole Card to fill in, the Opposing Cards resolve against the
/// player's row at the showdown exactly as they did while the row was built.
/// And with every card face up the player already saw all of them, so The
/// Hand comes out as it read, Loaded Dice added.
pub proof fn lemma_turning_over_reads_the_same_edge(m: DuelModel)
    requires
        m.sound(),
        m.showdown is None,
        m.hole_card is None,
    ensures
        m.shown().house_edge() == m.house_edge(),
        (forall|i: int| 0 <= i < m.opposing.len() ==> (#[trigger] m.opposing[i]).face_up) ==> m.shown().hand()
            == m.hand() + if m.dice_left > 0 { LOADED_DICE_BONUS as int } else { 0 },
{
    let t = m.turned_over();
    assert(m.hole_filled() == m.opposing);
    assert(as_row(t) =~= as_row(m.opposing));
    lemma_wf_bounds(m);
    lemma_row_total_fits(m.row, visible(m.opposing));
    if forall|i: int| 0 <= i < m.opposing.len() ==> (#[trigger] m.opposing[i]).face_up {
        assert(printed(t) =~= visible(m.opposing));
    }
}

/// What The House reads off the player's row when it fills in its Hole
/// Card: the row but its last card, against the Opposing Cards across.
pub open spec fn house_reads(m: DuelModel) -> int {
    let slot = m.opposing.len() - 1;
    let seen = if m.row.len() >= 1 {
        if m.row.len() - 1 < slot {
            m.row.len() - 1
        } else {
            slot
        }
    } else {
        0
    };
    total(resolve(m.row.take(seen), printed(m.opposing.take(seen))))
}

/// What The House's own cards in front of the Hole Card come to, read
/// against the player's row.
pub open spec fn house_own(m: DuelModel) -> int {
    total(resolve(as_row(m.opposing.take(m.opposing.len() - 1)), row_cards(m.row)))
}

/// The House's Hole Card: once the rows turn over, its row comes to what it
/// read off the player's row plus its margin, whenever its own cards make no
/// more than that. (No Copycat stands in front of the Hole Card: The House
/// deals itself none, since it would read the card not yet decided.)
pub proof fn lemma_the_house_edge_is_the_read_plus_the_margin(m: DuelModel)
    requires
        m.sound(),
        m.showdown is None,
        m.hole_card is Some,
        m.opposing.len() > 0,
        m.opposing.len() >= 2 ==> m.opposing[m.opposing.len() - 2].card.tell != Some(Tell::Copycat),
        house_own(m) <= house_reads(m) + m.hole_card->0.margin,
    ensures
        m.shown().house_edge() == house_reads(m) + m.hole_card->0.margin,
{
    let margin = m.hole_card->0.margin;
    let slot = m.opposing.len() - 1;
    let hv = m.hole_value(margin);
    lemma_hole_value_fits(m, margin);
    assert(hv == house_reads(m) + margin - house_own(m));
    let t = m.turned_over();
    let a = row_cards(m.row);
    let mine_row = as_row(m.opposing.take(slot));
    let full = as_row(t);
    assert forall|i: int| 0 <= i < slot implies #[trigger] full[i] == mine_row[i] by {
        assert(t[i].card == m.opposing[i].card);
    }
    assert(full[slot].card == hole_card_of(hv as u32));
    let theirs = resolve(full, a);
    assert(theirs.drop_last() =~= resolve(mine_row, a)) by {
        assert forall|i: int| 0 <= i < slot implies slot_value(full, a, i) == slot_value(mine_row, a, i) by {
            assert(full[i] == mine_row[i]);
            if i > 0 {
                assert(full[i - 1] == mine_row[i - 1]);
            }
            if i + 1 < slot {
                assert(full[i + 1] == mine_row[i + 1]);
            }
            if i + 1 == slot {
                assert(m.opposing[slot - 1].card.tell != Some(Tell::Copycat));
            }
        }
    }
    assert(theirs.last().value == hv as u32);
    lemma_hole_value_fits_turned(m);
    let m2 = DuelModel { opposing: t, ..m };
    lemma_wf_bounds(m2);
}

proof fn lemma_hole_value_fits_turned(m: DuelModel)
    requires
        m.sound(),
    ensures
        opposing_bounded(m.turned_over()),
        opposing_bounded(m.hole_filled()),
{
    let filled = m.hole_filled();
    if let Some(hole) = m.hole_card {
        if m.opposing.len() > 0 {
            lemma_hole_value_fits(m, hole.margin);
        }
    }
    assert forall|i: int| 0 <= i < filled.len() implies (#[trigger] filled[i].card.face_value) <= if i + 1
        < filled.len() {
        FACE_LIMIT
    } else {
        HOLE_LIMIT
    } by {
        assert(m.opposing[i].card.face_value <= if i + 1 < m.opposing.len() {
            FACE_LIMIT
        } else {
            HOLE_LIMIT
        });
    }
    let t = m.turned_over();
    assert forall|i: int| 0 <= i < t.len() implies (#[trigger] t[i].card.face_value) <= if i + 1 < t.len() {
        FACE_LIMIT
    } else {
        HOLE_LIMIT
    } by {
        assert(t[i].card == filled[i].card);
    }
}

/// A row laid down all face up.
pub open spec fn face_up_row(cards: Seq<Card>) -> Seq<(Card, bool)> {
    Seq::new(cards.len(), |i: int| (cards[i], true))
}

impl Duel {
    /// Lay the enemy's row down for the turn ahead. The House deals its last
    /// card blank and face down: it isn't decided until the showdown.
    fn deal_opposing(&mut self)
        requires
            old(self).enemy.deal.low <= FACE_LIMIT,
            old(self).enemy.deal.high <= FACE_LIMIT,
        ensures
            final(self)@ == old(self)@.with_dealt(),
    {
        let deal = self.enemy.deal;
        let row = match &self.fixed {
            Some(fixed) => lay(fixed),
            None => roll_row(&deal, self.row_size, &mut self.rng),
        };
        self.opposing = row;
        if self.hole_card.is_some() && self.opposing.len() > 0 {
            let last = self.opposing.len() - 1;
            self.opposing.set(
                last,
                Opposing { card: Card { name: "The House's Hole Card", face_value: 0, tell: None }, face_up: false },
            );
        }
        assert(self@.opposing =~= old(self)@.dealt().0);
    }

    /// The House sets the card it kept back so that its row reads the
    /// player's row (everything but the player's last card) plus the margin.
    /// The cards it already dealt itself are part of that total, not on top
    /// of it, so the Hole Card is the remainder, and nothing when they have
    /// already made more than the margin asks for.
    fn house_sets_its_hole_card(&mut self)
        requires
            old(self)@.sound(),
        ensures
            final(self)@ == (DuelModel { opposing: old(self)@.hole_filled(), ..old(self)@ }),
            final(self)@.sound(),
    {
        let hole = match self.hole_card {
            Some(hole) => hole,
            None => {
                return ;
            },
        };
        if self.opposing.len() == 0 {
            return ;
        }
        let slot = self.opposing.len() - 1;
        // Everything the player put down but their last card.
        let seen: usize = if self.row.len() >= 1 {
            if self.row.len() - 1 < slot {
                self.row.len() - 1
            } else {
                slot
            }
        } else {
            0
        };
        proof {
            lemma_wf_bounds(self@);
            lemma_hole_value_fits(self@, hole.margin);
        }
        let row_seen = take_prefix(&self.row, seen);
        let opposing_seen = take_prefix(&self.opposing, seen);
        let across = printed_vec(&opposing_seen);
        proof {
            assert(row_bounded(row_seen@)) by {
                assert forall|i: int| 0 <= i < row_seen@.len() implies (#[trigger] row_seen@[i].card).face_value
                    <= HOLE_LIMIT && match row_seen@[i].sacrifice {
                    Some(burned) => burned.face_value <= HOLE_LIMIT,
                    None => true,
                } by {
                    assert(row_seen@[i] == self@.row[i]);
                }
            }
            assert forall|i: int| 0 <= i < across@.len() && (#[trigger] across@[i]) is Some implies across@[i]->0.face_value
                <= HOLE_LIMIT by {
                assert(self@.opposing[i].card.face_value <= HOLE_LIMIT);
            }
        }
        let read_row = resolve_row(&row_seen, &across);
        let read = row_value(&read_row);
        // What its own cards in front of the blank already make. The House
        // deals itself no Copycat, the one Tell that would have to read the
        // card it hasn't decided on yet.
        let mine_opposing = take_prefix(&self.opposing, slot);
        let mine = as_row_vec(&mine_opposing);
        let across_row = row_cards_vec(&self.row);
        proof {
            assert(row_bounded(mine@)) by {
                assert forall|i: int| 0 <= i < mine@.len() implies (#[trigger] mine@[i].card).face_value <= HOLE_LIMIT
                    && mine@[i].sacrifice is None by {
                    assert(self@.opposing[i].card.face_value <= HOLE_LIMIT);
                }
            }
        }
        let theirs_row = resolve_row(&mine, &across_row);
        let theirs = row_value(&theirs_row);
        let face_value = (read + hole.margin).saturating_sub(theirs);
        let up = self.opposing[slot].face_up;
        self.opposing.set(slot, Opposing { card: Card { name: "The House's Hole Card", face_value, tell: None }, face_up: up });
        assert(self@.opposing =~= old(self)@.hole_filled());
    }

    /// Deal the Payout or the Whiff, tick Rising Blinds, clear both rows, and
    /// deal the next turn's Opposing Cards. The enemy does nothing else on
    /// its turn: laying the row down was its turn.
    fn resolve(&mut self, pyl: Option<Push>) -> (r: TurnResult)
        requires
            old(self)@.sound(),
            old(self)@.showdown is Some,
            old(self)@.room_to_resolve(),
        ensures
            (final(self)@, r) == old(self)@.resolved(pyl),
            final(self)@.wf(),
    {
        proof {
            lemma_wf_bounds(self@);
        }
        let hand = self.hand();
        let house_edge = self.house_edge();
        let kind = if hand >= house_edge {
            match pyl {
                // A lost Push on a clearing Hand zeroes it: a full Whiff.
                Some(Push::Lost) => Outcome::Whiff(house_edge),
                _ => Outcome::Payout(self.payout(pyl)),
            }
        } else {
            Outcome::Whiff(self.whiff(pyl))
        };
        match kind {
            Outcome::Payout(n) => {
                self.enemy.chips = self.enemy.chips.saturating_sub(n);
            },
            Outcome::Whiff(n) => {
                self.player_chips = self.player_chips.saturating_sub(n);
            },
        }
        let every: u32 = if self.enemy.blinds.every_turns == 0 { 1 } else { self.enemy.blinds.every_turns as u32 };
        let blinds_rose = self.turn % every == 0;
        if blinds_rose {
            match self.hole_card {
                // The House's Blinds raise the margin, not the row: it wins
                // by outlasting the deck, not by laying more cards down.
                Some(hole) => {
                    self.hole_card = Some(HoleCard { margin: hole.margin + hole.step, step: hole.step });
                },
                None => {
                    self.row_size = self.row_size.saturating_add(self.enemy.blinds.cards);
                },
            }
        }
        self.turn = self.turn + 1;
        self.phase = Phase::Playing;
        // The row and everything it burned go to the discard. The Opposing
        // Cards came off no deck and go nowhere.
        let mut row: Vec<Placed> = Vec::new();
        std::mem::swap(&mut row, &mut self.row);
        discard_row(&mut self.discard, &row);
        self.last = self.showdown.take();
        assert(self@ =~= old(self)@.settled(pyl));
        proof {
            lemma_spent_small(old(self)@.row);
            let d = self@.discard;
            let d0 = old(self)@.discard;
            let sp = spent(old(self)@.row);
            assert forall|k: int| 0 <= k < d.len() implies small(#[trigger] d[k]) by {
                if k < d0.len() {
                    assert(d[k] == d0[k]);
                } else {
                    assert(d[k] == sp[k - d0.len()]);
                }
            }
            lemma_refill(self@.deck, self@.draw, self@.discard, self@.rng);
        }
        refill_draw(&mut self.deck, &mut self.draw, &mut self.discard, &mut self.rng);
        proof {
            lemma_with_dealt_wf(self@);
        }
        self.deal_opposing();
        TurnResult { hand, house_edge, kind, pyl, blinds_rose }
    }

    /// Confirm the row. Both sides turn over, each resolves its Tells, and
    /// The Hand meets the House Edge. A Hand that beats the Opposing Cards,
    /// or falls short of them, puts the Push Your Luck prompt up and
    /// resolves nothing yet (`None`); a tie, where nobody pays, resolves on
    /// the spot.
    pub fn confirm(&mut self) -> (r: Option<TurnResult>)
        requires
            old(self)@.wf(),
            old(self)@.phase == Phase::Playing ==> old(self)@.room_to_resolve(),
        ensures
            (final(self)@, r) == old(self)@.confirmed(),
            final(self)@.wf(),
    {
        if self.phase == Phase::PushYourLuck {
            return None;
        }
        // The House fills its last Opposing Card now, on everything it can
        // see, which is the player's row but their last card.
        self.house_sets_its_hole_card();
        let n = self.opposing.len();
        let mut k: usize = 0;
        while k < n
            invariant
                n == self.opposing@.len(),
                k <= n,
                n == old(self)@.hole_filled().len(),
                forall|i: int| 0 <= i < k ==> self.opposing@[i] == old(self)@.turned_over()[i],
                forall|i: int| k <= i < n ==> self.opposing@[i] == old(self)@.hole_filled()[i],
                self@ == (DuelModel { opposing: self@.opposing, ..old(self)@ }),
            decreases n - k,
        {
            let o = self.opposing[k];
            self.opposing.set(k, Opposing { card: o.card, face_up: true });
            k = k + 1;
        }
        assert(self.opposing@ =~= old(self)@.turned_over());
        proof {
            lemma_hole_value_fits_turned(old(self)@);
            lemma_wf_bounds(self@);
        }
        let printed = printed_vec(&self.opposing);
        let row = resolve_row(&self.row, &printed);
        let theirs_row = as_row_vec(&self.opposing);
        let across = row_cards_vec(&self.row);
        let opposing = resolve_row(&theirs_row, &across);
        proof {
            lemma_row_total_fits(self@.row, printed@);
            lemma_row_total_fits(theirs_row@, across@);
        }
        let mut hand = row_value(&row);
        let house_edge = row_value(&opposing);
        // The items that modify The Hand land here, after every card is down
        // and after The House has set the card it set on what it could see.
        if self.dice_left > 0 {
            self.dice_left = self.dice_left - 1;
            hand = hand + LOADED_DICE_BONUS;
        }
        // The last showdown stays up until this one resolves.
        self.showdown = Some(Showdown { row, opposing, hand, house_edge });
        assert(self@ =~= old(self)@.shown());
        if hand != house_edge {
            self.phase = Phase::PushYourLuck;
            return None;
        }
        Some(self.resolve(None))
    }

    /// Answer the prompt with Hold: the turn resolves as normal. `None`, and
    /// nothing changes, when no prompt is up.
    pub fn hold(&mut self) -> (r: Option<TurnResult>)
        requires
            old(self)@.wf(),
            old(self)@.phase == Phase::PushYourLuck ==> old(self)@.room_to_resolve(),
        ensures
            old(self)@.phase != Phase::PushYourLuck ==> r is None && final(self)@ == old(self)@,
            old(self)@.phase == Phase::PushYourLuck ==> (final(self)@, r) == (
                old(self)@.resolved(None).0,
                Some(old(self)@.resolved(None).1),
            ),
            final(self)@.wf(),
    {
        if self.phase != Phase::PushYourLuck {
            return None;
        }
        Some(self.resolve(None))
    }

    /// Answer the prompt with Push: flip the coin. On a clearing Hand, win
    /// and the Payout doubles; lose and The Hand becomes 0, a full Whiff for
    /// the whole House Edge. On a Whiff, win and it is forgiven; lose and it
    /// doubles. `None`, and nothing changes, when no prompt is up.
    pub fn push(&mut self) -> (r: Option<TurnResult>)
        requires
            old(self)@.wf(),
            old(self)@.phase == Phase::PushYourLuck ==> old(self)@.room_to_resolve(),
        ensures
            old(self)@.phase != Phase::PushYourLuck ==> r is None && final(self)@ == old(self)@,
            old(self)@.phase == Phase::PushYourLuck ==> ({
                let (flip, rng) = coin_flip(old(self)@.coin, old(self)@.rng);
                let flipped = DuelModel { rng, ..old(self)@ };
                (final(self)@, r) == (flipped.resolved(Some(flip)).0, Some(flipped.resolved(Some(flip)).1))
            }),
            final(self)@.wf(),
    {
        if self.phase != Phase::PushYourLuck {
            return None;
        }
        let coin = self.coin;
        let flip = flip_coin(coin, &mut self.rng);
        Some(self.resolve(Some(flip)))
    }

    /// The printed Opposing Cards, for the player's Flops to read across at.
    pub fn opposing_cards(&self) -> (r: Vec<Option<Card>>)
        ensures
            r@ == printed(self@.opposing),
    {
        printed_vec(&self.opposing)
    }

    /// Whether a turn can still resolve: the turn counter and The House's
    /// margin both have room for one more tick of the Blinds.
    pub fn has_room_to_resolve(&self) -> (r: bool)
        ensures
            r == self@.room_to_resolve(),
    {
        self.turn < u32::MAX && match self.hole_card {
            Some(hole) => hole.margin <= MARGIN_LIMIT && hole.step <= MARGIN_LIMIT - hole.margin,
            None => true,
        }
    }

    /// Swap the coin in the middle of a duel.
    pub fn set_coin(&mut self, coin: Coin)
        ensures
            final(self)@ == (DuelModel { coin, ..old(self)@ }),
    {
        self.coin = coin;
    }

    /// Confirm the row and Hold: the turn played out without the prompt.
    pub fn end_turn(&mut self) -> (r: TurnResult)
        requires
            old(self)@.wf(),
            old(self)@.room_to_resolve(),
        ensures
            (final(self)@, r) == old(self)@.turn_ended(),
            final(self)@.wf(),
    {
        match self.confirm() {
            Some(result) => result,
            None => self.hold().unwrap(),
        }
    }

    /// Lay a known row down across the table, all of it face up, so the
    /// player knows what they are up against without rolling for it. Fixed,
    /// so the same row comes back every turn.
    pub fn facing(self, cards: Vec<Card>) -> (duel: Duel)
        requires
            self@.wf(),
            cards@.len() <= ROW_LIMIT,
            all_small(cards@),
        ensures
            duel@ == (DuelModel { fixed: Some(face_up_row(cards@)), ..self@ }).with_dealt(),
            duel@.wf(),
    {
        let mut duel = self;
        duel.lay_out(cards);
        duel
    }

    /// [`Duel::facing`] for a duel that is already running.
    pub fn lay_out(&mut self, cards: Vec<Card>)
        requires
            old(self)@.wf(),
            cards@.len() <= ROW_LIMIT,
            all_small(cards@),
        ensures
            final(self)@ == (DuelModel { fixed: Some(face_up_row(cards@)), ..old(self)@ }).with_dealt(),
            final(self)@.wf(),
    {
        let mut row: Vec<(Card, bool)> = Vec::new();
        let mut k: usize = 0;
        while k < cards.len()
            invariant
                k <= cards@.len(),
                row@ == face_up_row(cards@).take(k as int),
            decreases cards@.len() - k,
        {
            row.push((cards[k], true));
            assert(row@ =~= face_up_row(cards@).take(k + 1));
            k = k + 1;
        }
        assert(row@ =~= face_up_row(cards@));
        self.fixed = Some(row);
        proof {
            assert(fixed_small(face_up_row(cards@))) by {
                assert forall|i: int| 0 <= i < cards@.len() implies small(#[trigger] face_up_row(cards@)[i].0) by {
                    assert(small(cards@[i]));
                }
            }
            lemma_with_dealt_wf(self@);
        }
        self.deal_opposing();
    }

    /// Turn one Opposing Card back over, face down.
    pub fn hide_opposing(&mut self, slot: usize)
        ensures
            slot < old(self)@.opposing.len() ==> final(self)@ == (DuelModel {
                opposing: old(self)@.opposing.update(
                    slot as int,
                    Opposing { face_up: false, ..old(self)@.opposing[slot as int] },
                ),
                ..old(self)@
            }),
            slot >= old(self)@.opposing.len() ==> final(self)@ == old(self)@,
            old(self)@.sound() ==> final(self)@.sound(),
            old(self)@.wf() ==> final(self)@.wf(),
    {
        if slot < self.opposing.len() {
            let o = self.opposing[slot];
            self.opposing.set(slot, Opposing { card: o.card, face_up: false });
            assert(self@.opposing =~= old(self)@.opposing.update(
                slot as int,
                Opposing { face_up: false, ..old(self)@.opposing[slot as int] },
            ));
        }
    }

    /// `deck` is taken in draw order (last card drawn first); shuffling it is
    /// the caller's job, so the model stays deterministic. The Draw is dealt
    /// and the enemy's first row laid down here.
    pub fn new(deck: Vec<Card>, player_chips: u32, plays: u8, enemy: Enemy) -> (duel: Duel)
        requires
            all_small(deck@),
            enemy_fits(enemy),
        ensures
            duel@ == opening(deck@, player_chips, plays, enemy).refilled().with_dealt(),
            duel@.wf(),
    {
        let mut duel = Duel {
            deck,
            draw: Vec::new(),
            discard: Vec::new(),
            opposing: Vec::new(),
            row: Vec::new(),
            plays,
            row_size: enemy.deal.row,
            player_chips,
            hole_card: enemy.hole_card,
            enemy,
            turn: 1,
            phase: Phase::Playing,
            coin: Coin::base(),
            dice_left: 0,
            fixed: None,
            showdown: None,
            last: None,
            rng: 0x5eed_cafe_f00d_d1ce,
        };
        assert(duel@ == opening(deck@, player_chips, plays, enemy));
        refill_draw(&mut duel.deck, &mut duel.draw, &mut duel.discard, &mut duel.rng);
        proof {
            lemma_refill(deck@, Seq::empty(), Seq::empty(), 0x5eed_cafe_f00d_d1ce);
        }
        let ghost filled = duel@;
        duel.deal_opposing();
        proof {
            lemma_dealt_bounded(filled);
        }
        duel
    }

    /// Seeds the reshuffle of the discard pile and the enemy's deal. The
    /// opening deck order is still the caller's, but the Opposing Cards are
    /// dealt again off the real seed: they were rolled in `new` before the
    /// caller got a chance to hand one over.
    pub fn with_seed(self, seed: u64) -> (duel: Duel)
        requires
            self@.wf(),
        ensures
            duel@ == (DuelModel { rng: seed | 1, ..self@ }).with_dealt(),
            duel@.wf(),
    {
        let mut duel = self;
        duel.rng = seed | 1;
        proof {
            lemma_with_dealt_wf(duel@);
        }
        duel.deal_opposing();
        duel
    }

    /// The Arcade's fixed Opposing Cards: the same row, the same cards face
    /// up and face down, every turn. Nothing about a practice hand is rolled.
    pub fn with_opposing(self, row: Vec<(Card, bool)>) -> (duel: Duel)
        requires
            self@.wf(),
            fixed_small(row@),
        ensures
            duel@ == (DuelModel { fixed: Some(row@), ..self@ }).with_dealt(),
            duel@.wf(),
    {
        let mut duel = self;
        duel.fixed = Some(row);
        proof {
            lemma_with_dealt_wf(duel@);
        }
        duel.deal_opposing();
        duel
    }

    /// The coin Push Your Luck is flipped with; Slotz Option 1 swaps it.
    pub fn with_coin(self, coin: Coin) -> (duel: Duel)
        ensures
            duel@ == (DuelModel { coin, ..self@ }),
    {
        let mut duel = self;
        duel.coin = coin;
        duel
    }

    /// Loaded Dice carried in from the run: five more on each of the next
    /// `hands` Hands. Combat writes back whatever is left when the duel ends.
    pub fn with_loaded_dice(self, hands: u8) -> (duel: Duel)
        ensures
            duel@ == (DuelModel { dice_left: hands, ..self@ }),
    {
        let mut duel = self;
        duel.dice_left = hands;
        duel
    }

    /// The House's current margin; `None` for an ordinary enemy.
    pub fn margin(&self) -> (r: Option<u32>)
        ensures
            r == match self@.hole_card {
                Some(hole) => Some(hole.margin),
                None => None::<u32>,
            },
    {
        match self.hole_card {
            Some(hole) => Some(hole.margin),
            None => None,
        }
    }

    pub fn coin(&self) -> (r: Coin)
        ensures
            r == self@.coin,
    {
        self.coin
    }

    /// Hands still to come with the dice on them.
    pub fn dice_left(&self) -> (r: u8)
        ensures
            r == self@.dice_left,
    {
        self.dice_left
    }

    pub fn phase(&self) -> (r: Phase)
        ensures
            r == self@.phase,
    {
        self.phase
    }

    /// The turn about to be played, counting from 1.
    pub fn turn(&self) -> (r: u32)
        ensures
            r == self@.turn,
    {
        self.turn
    }

    pub fn player_chips(&self) -> (r: u32)
        ensures
            r == self@.player_chips,
    {
        self.player_chips
    }

    pub fn enemy_chips(&self) -> (r: u32)
        ensures
            r == self@.enemy.chips,
    {
        self.enemy.chips
    }

    /// Won once the enemy's chips hit zero, lost once the player's do.
    pub fn outcome(&self) -> (r: Option<CombatOutcome>)
        ensures
            r == self@.outcome(),
    {
        if self.enemy.chips == 0 {
            Some(CombatOutcome::Won)
        } else if self.player_chips == 0 {
            Some(CombatOutcome::Lost)
        } else {
            None
        }
    }

    pub fn draw(&self) -> (r: &[Card])
        ensures
            r@ == self@.draw,
    {
        self.draw.as_slice()
    }

    /// The Opposing Cards this turn, left to right.
    pub fn opposing(&self) -> (r: &[Opposing])
        ensures
            r@ == self@.opposing,
    {
        self.opposing.as_slice()
    }

    /// The player's row so far, left to right.
    pub fn row(&self) -> (r: &[Placed])
        ensures
            r@ == self@.row,
    {
        self.row.as_slice()
    }

    /// The rows as they last turned over, for the screen. `None` until the
    /// first turn resolves.
    pub fn last_showdown(&self) -> (r: Option<&Showdown>)
        ensures
            match r {
                Some(s) => self@.last == Some(s@),
                None => self@.last is None,
            },
    {
        match &self.last {
            Some(s) => Some(s),
            None => None,
        }
    }

    /// The rows on the table right now, resolved: the moment between the
    /// confirm and the answer to Push Your Luck, and the only time the screen
    /// can put a number under every card. `None` at every other moment.
    pub fn showdown(&self) -> (r: Option<&Showdown>)
        ensures
            match r {
                Some(s) => self@.showdown == Some(s@),
                None => self@.showdown is None,
            },
    {
        match &self.showdown {
            Some(s) => Some(s),
            None => None,
        }
    }

    /// How many slots there are to cover: one per Opposing Card.
    pub fn slots(&self) -> (r: usize)
        ensures
            r == self@.slots(),
    {
        self.opposing.len()
    }

    /// How many more cards the player may put in the row. An enemy row
    /// longer than the player's Plays can't be covered slot for slot, and
    /// whatever is left uncovered is free chips for the enemy.
    pub fn plays_left(&self) -> (r: u8)
        ensures
            r == self@.plays_left(),
    {
        let slots = self.opposing.len();
        let cover: usize = if (self.plays as usize) < slots { self.plays as usize } else { slots };
        if cover > self.row.len() {
            (cover - self.row.len()) as u8
        } else {
            0
        }
    }

    /// The Hand: the player's row resolved against the Opposing Cards they
    /// can see. Once the rows have turned over this is the settled number,
    /// Loaded Dice and a lost Push included.
    pub fn hand(&self) -> (r: u32)
        requires
            self@.sound(),
        ensures
            r == self@.hand(),
    {
        proof {
            lemma_wf_bounds(self@);
        }
        match &self.showdown {
            Some(s) => s.hand,
            None => {
                let across = visible_vec(&self.opposing);
                let played = resolve_row(&self.row, &across);
                row_value(&played)
            },
        }
    }

    /// The House Edge, what the Opposing Cards add up to, resolved against
    /// the row the player has built so far.
    ///
    /// The whole truth, face-down cards included, so before the showdown this
    /// is more than the player is entitled to know. The screen shows
    /// [`Duel::showing`] instead until the rows turn over.
    pub fn house_edge(&self) -> (r: u32)
        requires
            self@.sound(),
        ensures
            r == self@.house_edge(),
    {
        proof {
            lemma_wf_bounds(self@);
        }
        match &self.showdown {
            Some(s) => s.house_edge,
            None => {
                let theirs = as_row_vec(&self.opposing);
                let across = row_cards_vec(&self.row);
                let played = resolve_row(&theirs, &across);
                row_value(&played)
            },
        }
    }

    /// The Payout The Hand would deal right now: its excess over the House
    /// Edge, doubled by a won Push. Nothing on a Whiff, and nothing on a tie.
    pub fn payout(&self, pyl: Option<Push>) -> (r: u32)
        requires
            self@.sound(),
        ensures
            r == self@.payout(pyl),
    {
        proof {
            lemma_wf_bounds(self@);
        }
        let over = self.hand().saturating_sub(self.house_edge());
        match pyl {
            Some(Push::Won) => over * 2,
            _ => over,
        }
    }

    /// The Whiff The Hand would take right now: its shortfall under the House
    /// Edge, forgiven by a won Push and doubled by a lost one. Nothing on a
    /// clearing Hand.
    pub fn whiff(&self, pyl: Option<Push>) -> (r: u32)
        requires
            self@.sound(),
        ensures
            r == self@.whiff(pyl),
    {
        proof {
            lemma_wf_bounds(self@);
        }
        let short = self.house_edge().saturating_sub(self.hand());
        match pyl {
            Some(Push::Won) => 0,
            Some(Push::Lost) => short * 2,
            None => short,
        }
    }

    /// What the player can add up for themselves: the value of the Opposing
    /// Cards that are face up, and how many are still face down. A face-up
    /// card whose Tell reads a face-down one counts for its Face Value alone.
    pub fn showing(&self) -> (r: (u32, usize))
        requires
            self@.wf(),
        ensures
            (r.0 as int, r.1 as int) == self@.showing(),
    {
        proof {
            lemma_wf_bounds(self@);
        }
        let across = row_cards_vec(&self.row);
        let n = self.opposing.len();
        let mut total: u32 = 0;
        let mut hidden: usize = 0;
        let mut slot: usize = 0;
        while slot < n
            invariant
                n == self@.opposing.len(),
                n <= ROW_LIMIT,
                slot <= n,
                across@ == row_cards(self@.row),
                across_bounded(across@),
                opposing_bounded(self@.opposing),
                total as int == showing_total(self@.opposing, across@, slot as int),
                hidden as int == hidden_count(self@.opposing, slot as int),
                total <= slot * (2 * HOLE_LIMIT),
                hidden <= slot,
            decreases n - slot,
        {
            let o = self.opposing[slot];
            if !o.face_up {
                hidden = hidden + 1;
            } else {
                let printed = o.card.face_value;
                assert(printed <= HOLE_LIMIT);
                let value: u32 = match o.card.tell {
                    Some(Tell::Streak) => {
                        if slot > 0 && self.opposing[slot - 1].face_up && self.opposing[slot - 1].card.tell.is_some() {
                            printed * 2
                        } else {
                            printed
                        }
                    },
                    Some(Tell::Copycat) => {
                        if slot + 1 < n && self.opposing[slot + 1].face_up {
                            assert(self@.opposing[slot + 1].card.face_value <= HOLE_LIMIT);
                            self.opposing[slot + 1].card.face_value
                        } else {
                            printed
                        }
                    },
                    Some(Tell::Flop) => {
                        if slot < across.len() {
                            match across[slot] {
                                Some(card) => {
                                    assert(across@[slot as int] is Some);
                                    card.face_value
                                },
                                None => printed,
                            }
                        } else {
                            printed
                        }
                    },
                    _ => printed,
                };
                assert(value as int == showing_value(self@.opposing, across@, slot as int));
                assert(value <= 2 * HOLE_LIMIT);
                assert(total + value <= (slot + 1) * (2 * HOLE_LIMIT) <= 256 * (2 * HOLE_LIMIT)) by (nonlinear_arith)
                    requires
                        total <= slot * (2 * HOLE_LIMIT),
                        value <= 2 * HOLE_LIMIT,
                        slot < 256,
                ;
                total = total + value;
            }
            assert(total <= (slot + 1) * (2 * HOLE_LIMIT)) by (nonlinear_arith)
                requires
                    total <= slot * (2 * HOLE_LIMIT) || total <= (slot + 1) * (2 * HOLE_LIMIT),
            ;
            slot = slot + 1;
        }
        (total, hidden)
    }

    /// Put the card at `card` in the Draw into the next empty slot of the
    /// row, and say which slot it landed in. Nothing resolves yet: a row is
    /// only worth anything once it is finished and every Tell knows its
    /// neighbours. All In must name a `sacrifice` index (also into the Draw);
    /// no other card may. A refused placement changes nothing.
    pub fn place(&mut self, card: usize, sacrifice: Option<usize>) -> (r: Result<usize, PlayError>)
        requires
            old(self)@.wf(),
        ensures
            final(self)@.wf(),
            match old(self)@.place_error(card as int, index_of(sacrifice)) {
                Some(e) => r == Err::<usize, PlayError>(e) && final(self)@ == old(self)@,
                None => r == Ok::<usize, PlayError>(old(self)@.row.len() as usize) && final(self)@ == old(
                    self,
                )@.placed(card as int, index_of(sacrifice)),
            },
    {
        if self.phase == Phase::PushYourLuck {
            return Err(PlayError::HandIsFinal);
        }
        if self.plays_left() == 0 {
            return Err(PlayError::RowIsFull);
        }
        if card >= self.draw.len() {
            return Err(PlayError::NoSuchCard);
        }
        let played = self.draw[card];
        let sacrificed: Option<Card> = match (played.tell, sacrifice) {
            (Some(Tell::AllIn), None) => {
                return Err(PlayError::AllInNeedsSacrifice);
            },
            (Some(Tell::AllIn), Some(i)) => {
                if i == card || i >= self.draw.len() {
                    return Err(PlayError::NoSuchCard);
                }
                Some(self.draw[i])
            },
            (_, Some(_)) => {
                return Err(PlayError::NotAllIn);
            },
            (_, None) => None,
        };
        proof {
            assert(small(self@.draw[card as int]));
            if let Some(i) = sacrifice {
                assert(small(self@.draw[i as int]));
            }
        }
        // Remove the higher index first so the lower one stays valid.
        match sacrifice {
            Some(i) => {
                if i > card {
                    self.draw.remove(i);
                    self.draw.remove(card);
                } else {
                    self.draw.remove(card);
                    self.draw.remove(i);
                }
            },
            None => {
                self.draw.remove(card);
            },
        }
        self.row.push(Placed { card: played, sacrifice: sacrificed });
        assert(self@.draw =~= draw_after_place(old(self)@.draw, card as int, index_of(sacrifice)));
        assert(self@.row =~= old(self)@.placed(card as int, index_of(sacrifice)).row);
        proof {
            let d = self@.draw;
            let d0 = old(self)@.draw;
            assert forall|k: int| 0 <= k < d.len() implies small(#[trigger] d[k]) by {
                assert(d0.contains(d[k]));
            }
        }
        Ok(self.row.len() - 1)
    }

    /// Take the card in `slot` back out of the row and into the Draw, with
    /// whatever it burned to get there. Everything to its right shifts one
    /// slot left, so the row stays a row and the Tells re-read whatever
    /// their new neighbours are.
    pub fn lift(&mut self, slot: usize) -> (r: Result<Card, PlayError>)
        requires
            old(self)@.wf(),
        ensures
            final(self)@.wf(),
            match old(self)@.lift_error(slot as int) {
                Some(e) => r == Err::<Card, PlayError>(e) && final(self)@ == old(self)@,
                None => r == Ok::<Card, PlayError>(old(self)@.row[slot as int].card) && final(self)@ == old(
                    self,
                )@.lifted(slot as int),
            },
    {
        if self.phase == Phase::PushYourLuck {
            return Err(PlayError::HandIsFinal);
        }
        if slot >= self.row.len() {
            return Err(PlayError::NoSuchCard);
        }
        let placed = self.row.remove(slot);
        if let Some(burned) = placed.sacrifice {
            self.draw.push(burned);
        }
        self.draw.push(placed.card);
        assert(self@.draw =~= old(self)@.lifted(slot as int).draw);
        proof {
            let d = self@.draw;
            let d0 = old(self)@.draw;
            assert(small(old(self)@.row[slot as int].card));
            assert forall|k: int| 0 <= k < d.len() implies small(#[trigger] d[k]) by {
                if k < d0.len() {
                    assert(d[k] == d0[k]);
                }
            }
            let r = self@.row;
            let r0 = old(self)@.row;
            assert forall|k: int| 0 <= k < r.len() implies small(#[trigger] r[k].card) && match r[k].sacrifice {
                Some(burned) => small(burned),
                None => true,
            } by {
                if k < slot {
                    assert(r[k] == r0[k]);
                } else {
                    assert(r[k] == r0[k + 1]);
                }
            }
        }
        Ok(placed.card)
    }
}

} // verus!
