//! Shared run state and the types both sides of the table are made of:
//! cards and their Tells, enemies and their Deals, rewards, and the one
//! random number generator the whole game rolls on.

use vstd::prelude::*;

verus! {

// ---------------------------------------------------------------------------
// The random number generator
// ---------------------------------------------------------------------------

/// One step of xorshift64.
pub open spec fn xorshift_step(s: u64) -> u64 {
    let a = s ^ (s << 13u64);
    let b = a ^ (a >> 7u64);
    b ^ (b << 17u64)
}

/// The state after `n` steps of the generator.
pub open spec fn rng_after(s: u64, n: nat) -> u64
    decreases n,
{
    if n == 0 {
        s
    } else {
        xorshift_step(rng_after(s, (n - 1) as nat))
    }
}

/// The one xorshift64 the whole game rolls on: the duel's reshuffle, the
/// enemy's deal, the Push Your Luck coin, and the Pit Boss card pack.
pub fn xorshift64(state: &mut u64) -> (r: u64)
    ensures
        *final(state) == xorshift_step(*old(state)),
        r == *final(state),
{
    *state = *state ^ (*state << 13u64);
    *state = *state ^ (*state >> 7u64);
    *state = *state ^ (*state << 17u64);
    *state
}

/// A state that is not zero never steps to zero: the generator cannot fall
/// into its one fixed point from anywhere else.
pub proof fn lemma_xorshift_never_zero(s: u64)
    requires
        s != 0,
    ensures
        xorshift_step(s) != 0,
{
    let a = s ^ (s << 13u64);
    let b = a ^ (a >> 7u64);
    assert(s != 0 ==> (s ^ (s << 13u64)) != 0) by (bit_vector);
    assert(a != 0 ==> (a ^ (a >> 7u64)) != 0) by (bit_vector);
    assert(b != 0 ==> (b ^ (b << 17u64)) != 0) by (bit_vector);
}


// ---------------------------------------------------------------------------
// Cards
// ---------------------------------------------------------------------------

/// A single passive keyword on a card. At most one per card.
///
/// Every Tell reads the row by position, not by the order the cards were
/// picked up: Streak looks one slot to its left, Copycat one slot to its
/// right, Flop straight across at the Opposing Card. All of them read
/// printed Face Values, so no Tell ever depends on another Tell resolving
/// first and the two rows can be worked out in either order.
#[derive(Debug, Clone, Copy, PartialEq, Eq, Structural)]
pub enum Tell {
    /// Doubles the card's Face Value if the card in the slot to its left has any Tell.
    Streak,
    /// Sacrifice another card from the Draw to add its Face Value to this card's.
    AllIn,
    /// Takes the printed Face Value of the card in the slot to its right, and
    /// none of its Tell; its own if it is the last card in the row.
    Copycat,
    /// Takes the printed Face Value of the Opposing Card across from it; its
    /// own if there is nothing across.
    Flop,
}

/// The rules text of a Tell, in the glossary's words, split so that every
/// term the glossary explains is a piece of its own.
pub open spec fn rule_pieces(tell: Tell) -> Seq<&'static str> {
    match tell {
        Tell::Streak => seq![
            "Doubles this card's",
            "Face Value",
            "if the card in the slot to its left has any",
            "Tell",
            ".",
        ],
        Tell::AllIn => seq![
            "Burns",
            "another card from your",
            "Draw",
            "and adds its",
            "Face Value",
            "to",
            "The Hand",
            ".",
        ],
        Tell::Copycat => seq![
            "Takes the printed",
            "Face Value",
            "of the card in the slot to its right, and none of its",
            "Tell",
            ". Its own if nothing follows it.",
        ],
        Tell::Flop => seq![
            "Takes the printed",
            "Face Value",
            "of the card across from it in the",
            "Opposing Cards",
            ", and none of its",
            "Tell",
            ". Its own if nothing is across.",
        ],
    }
}

pub open spec fn tell_name(tell: Tell) -> &'static str {
    match tell {
        Tell::Streak => "Streak",
        Tell::AllIn => "All In",
        Tell::Copycat => "Copycat",
        Tell::Flop => "Flop",
    }
}

impl Tell {
    pub fn rule_text(&self) -> (r: Vec<&'static str>)
        ensures
            r@ == rule_pieces(*self),
    {
        let mut r: Vec<&'static str> = Vec::new();
        match self {
            Tell::Streak => {
                r.push("Doubles this card's");
                r.push("Face Value");
                r.push("if the card in the slot to its left has any");
                r.push("Tell");
                r.push(".");
            },
            Tell::AllIn => {
                r.push("Burns");
                r.push("another card from your");
                r.push("Draw");
                r.push("and adds its");
                r.push("Face Value");
                r.push("to");
                r.push("The Hand");
                r.push(".");
            },
            Tell::Copycat => {
                r.push("Takes the printed");
                r.push("Face Value");
                r.push("of the card in the slot to its right, and none of its");
                r.push("Tell");
                r.push(". Its own if nothing follows it.");
            },
            Tell::Flop => {
                r.push("Takes the printed");
                r.push("Face Value");
                r.push("of the card across from it in the");
                r.push("Opposing Cards");
                r.push(", and none of its");
                r.push("Tell");
                r.push(". Its own if nothing is across.");
            },
        }
        r
    }

    pub fn name(&self) -> (r: &'static str)
        ensures
            r == tell_name(*self),
    {
        match self {
            Tell::Streak => "Streak",
            Tell::AllIn => "All In",
            Tell::Copycat => "Copycat",
            Tell::Flop => "Flop",
        }
    }
}

#[derive(Debug, Clone, Copy, PartialEq, Eq)]
pub struct Card {
    pub name: &'static str,
    /// The number printed on the card: what it adds to its row before its Tell.
    pub face_value: u32,
    pub tell: Option<Tell>,
}

// ---------------------------------------------------------------------------
// Run-long modifiers
// ---------------------------------------------------------------------------

/// Chosen 1-of-2 after beating a boss. Persists for the run.
#[derive(Debug, Clone, Copy, PartialEq, Eq, Structural)]
pub enum Perk {
    /// Slotz option 1: Push Your Luck is best 2-of-3 at 49/51.
    PylBestTwoOfThree,
    /// Pit Boss option 1: 6 Plays per turn, but Rising Blinds every turn.
    SixPlaysSteepBlinds,
}

/// Dropped after beating a minion. Consumed by combat.
#[derive(Debug, Clone, Copy, PartialEq, Eq, Structural)]
pub enum Item {
    /// +5 to The Hand for the next `hands_left` Hands.
    LoadedDice { hands_left: u8 },
}

/// What the reward screen hands out.
#[derive(Debug, Clone, Copy, PartialEq, Eq, Structural)]
pub enum Reward {
    LoadedDice,
    /// Slotz option 2: add 3 Streak cards to the deck.
    SlotzStreakCards,
    SlotzPylBestTwoOfThree,
    PitBossSixPlays,
    /// Pit Boss option 2: add 4 random cards (2 with random Tells, 2 plain).
    PitBossRandomCards,
}

pub open spec fn reward_label(reward: Reward) -> &'static str {
    match reward {
        Reward::LoadedDice => "Loaded Dice. +5 to each of your next two Hands.",
        Reward::SlotzStreakCards => "Three more Streak cards in the deck.",
        Reward::SlotzPylBestTwoOfThree => "Push Your Luck becomes best 2 of 3, at 49/51.",
        Reward::PitBossSixPlays => "A sixth Play every turn - but the Blinds rise every turn, not every third, and each rise is another Opposing Card.",
        Reward::PitBossRandomCards => "Four cards off the Pit's table: two with Tells, two plain.",
    }
}

impl Reward {
    /// The line the reward screen puts against the key that takes it.
    pub fn label(self) -> (r: &'static str)
        ensures
            r == reward_label(self),
    {
        match self {
            Reward::LoadedDice => "Loaded Dice. +5 to each of your next two Hands.",
            Reward::SlotzStreakCards => "Three more Streak cards in the deck.",
            Reward::SlotzPylBestTwoOfThree => "Push Your Luck becomes best 2 of 3, at 49/51.",
            Reward::PitBossSixPlays => "A sixth Play every turn - but the Blinds rise every turn, not every third, and each rise is another Opposing Card.",
            Reward::PitBossRandomCards => "Four cards off the Pit's table: two with Tells, two plain.",
        }
    }
}

/// What is on the table once an encounter is won.
#[derive(Debug, Clone, Copy, PartialEq, Eq, Structural)]
pub enum RewardOffer {
    /// A minion's drop: no choice, it is already in your pocket.
    Drop(Reward),
    /// A boss's pick, 1 of 2.
    Pick(Reward, Reward),
}

/// Which encounter the overworld is entering.
#[derive(Debug, Clone, Copy, PartialEq, Eq, Hash, Structural)]
pub enum EncounterId {
    FloorMinion,
    Slotz,
    PitMinion,
    PitBoss,
    TheHouse,
    /// The Arcade's practice duel. Never part of a run.
    Tutorial,
}

pub open spec fn offer_for(id: EncounterId) -> Option<RewardOffer> {
    match id {
        EncounterId::FloorMinion | EncounterId::PitMinion => Some(RewardOffer::Drop(Reward::LoadedDice)),
        EncounterId::Slotz => Some(RewardOffer::Pick(Reward::SlotzPylBestTwoOfThree, Reward::SlotzStreakCards)),
        EncounterId::PitBoss => Some(RewardOffer::Pick(Reward::PitBossSixPlays, Reward::PitBossRandomCards)),
        EncounterId::TheHouse | EncounterId::Tutorial => None,
    }
}

impl RewardOffer {
    /// What beating `id` pays. The House pays in an ending, not a perk.
    pub fn for_encounter(id: EncounterId) -> (r: Option<RewardOffer>)
        ensures
            r == offer_for(id),
    {
        match id {
            EncounterId::FloorMinion | EncounterId::PitMinion => Some(RewardOffer::Drop(Reward::LoadedDice)),
            EncounterId::Slotz => Some(RewardOffer::Pick(Reward::SlotzPylBestTwoOfThree, Reward::SlotzStreakCards)),
            EncounterId::PitBoss => Some(RewardOffer::Pick(Reward::PitBossSixPlays, Reward::PitBossRandomCards)),
            EncounterId::TheHouse | EncounterId::Tutorial => None,
        }
    }
}

/// Who the overworld hands combat: which encounter, and the enemy sitting
/// down for it.
#[derive(Debug, Clone, Copy, PartialEq, Eq)]
pub struct Encounter {
    pub id: EncounterId,
    pub enemy: Enemy,
}

/// Inserted by combat when a duel ends.
#[derive(Debug, Clone, Copy, PartialEq, Eq, Structural)]
pub enum CombatOutcome {
    Won,
    Lost,
}

/// Lucky Jack sits down with this many chips.
pub const STARTING_STACK: u32 = 50;

/// Loaded Dice: this much on The Hand, for this many Hands.
pub const LOADED_DICE_BONUS: u32 = 5;

pub const LOADED_DICE_HANDS: u8 = 2;

/// What the Pit Boss perk's sixth Play costs: this many more Opposing Cards
/// every single turn.
pub const STEEP_BLINDS_CARDS: u8 = 1;

// ---------------------------------------------------------------------------
// Enemies
// ---------------------------------------------------------------------------

/// How the enemy's side escalates as combat goes on: every `every_turns`
/// turns it lays `cards` more Opposing Cards. The House is the exception:
/// it raises its margin instead, by `HoleCard::step`.
#[derive(Debug, Clone, Copy, PartialEq, Eq, Structural)]
pub struct RisingBlinds {
    pub every_turns: u8,
    pub cards: u8,
}

/// What an enemy deals its Opposing Cards from: a Face Value range, the
/// odds of a Tell and which Tells, and the odds of a card being face down.
#[derive(Debug, Clone, Copy, PartialEq, Eq)]
pub struct Deal {
    /// Opposing Cards laid down on turn one. Rising Blinds add more.
    pub row: u8,
    /// The Face Value range a card is dealt from, inclusive at both ends.
    pub low: u32,
    pub high: u32,
    /// Chance in 100 that a dealt card carries a Tell at all.
    pub tell_pct: u32,
    /// The Tells this enemy plays; one is drawn at random when `tell_pct` hits.
    pub tells: &'static [Tell],
    /// Chance in 100 that a card is dealt face down. The first Opposing Card
    /// is always face up whatever this says.
    pub hidden_pct: u32,
}

/// The names the house deals under. Flavour only.
pub open spec fn house_card_name(i: int) -> &'static str {
    if i == 0 {
        "Dealer's Nod"
    } else if i == 1 {
        "Chip Rack"
    } else if i == 2 {
        "Table Limit"
    } else if i == 3 {
        "Floorman's Eye"
    } else if i == 4 {
        "Comped Suite"
    } else if i == 5 {
        "Shoe of Eights"
    } else if i == 6 {
        "The Rake"
    } else if i == 7 {
        "Cut Card"
    } else if i == 8 {
        "Pit Marker"
    } else {
        "Eye in the Sky"
    }
}

fn house_card(i: u64) -> (r: &'static str)
    requires
        i < 10,
    ensures
        r == house_card_name(i as int),
{
    if i == 0 {
        "Dealer's Nod"
    } else if i == 1 {
        "Chip Rack"
    } else if i == 2 {
        "Table Limit"
    } else if i == 3 {
        "Floorman's Eye"
    } else if i == 4 {
        "Comped Suite"
    } else if i == 5 {
        "Shoe of Eights"
    } else if i == 6 {
        "The Rake"
    } else if i == 7 {
        "Cut Card"
    } else if i == 8 {
        "Pit Marker"
    } else {
        "Eye in the Sky"
    }
}

/// How many Face Values a Deal can land on: `high - low + 1`, or just the
/// one when the range is upside down.
pub open spec fn deal_span(deal: Deal) -> int {
    (if deal.high >= deal.low { deal.high - deal.low } else { 0int }) + 1
}

/// The Tell a dealt card carries, and the generator state after rolling for
/// it: nothing is rolled at all for an enemy that plays no Tells.
pub open spec fn deal_tell(deal: Deal, rng: u64) -> (Option<Tell>, u64) {
    if deal.tells@.len() == 0 {
        (None, rng)
    } else {
        let r = xorshift_step(rng);
        if (r as int) % 100 < deal.tell_pct {
            let t = xorshift_step(r);
            (Some(deal.tells@[(t as int) % (deal.tells@.len() as int)]), t)
        } else {
            (None, r)
        }
    }
}

/// One Opposing Card off the enemy's table, and the generator state after
/// it: the Face Value is rolled first, then whether it carries a Tell, then
/// which, then its name.
pub open spec fn deal_card(deal: Deal, rng: u64) -> (Card, u64) {
    let r1 = xorshift_step(rng);
    let face = deal.low + (r1 as int) % deal_span(deal);
    let (tell, r3) = deal_tell(deal, r1);
    let r4 = xorshift_step(r3);
    (Card { name: house_card_name((r4 as int) % 10), face_value: face as u32, tell }, r4)
}

impl Deal {
    /// One Opposing Card off the enemy's table. Rolls the Face Value, then
    /// whether it carries a Tell, then which, always in that order, so a
    /// change to the Tell list doesn't re-deal the Face Values of a pinned seed.
    pub fn card(&self, rng: &mut u64) -> (c: Card)
        requires
            self.high - self.low < u32::MAX,
        ensures
            (c, *final(rng)) == deal_card(*self, *old(rng)),
    {
        let span: u64 = (self.high.saturating_sub(self.low) + 1) as u64;
        let roll = xorshift64(rng) % span;
        assert(roll < span);
        let face_value = self.low + roll as u32;
        let carries = self.tells.len() > 0 && xorshift64(rng) % 100 < self.tell_pct as u64;
        let tell = if carries {
            let pick = xorshift64(rng) % (self.tells.len() as u64);
            Some(self.tells[pick as usize])
        } else {
            None
        };
        let name = house_card(xorshift64(rng) % 10);
        Card { name, face_value, tell }
    }
}

/// The House's Hole Card rule. It deals its last Opposing Card face down and
/// blank until the showdown, then sets it so its row reads the player's row
/// (everything but the player's own last card) plus the margin.
#[derive(Debug, Clone, Copy, PartialEq, Eq, Structural)]
pub struct HoleCard {
    /// How far above the row it read The House sets its own.
    pub margin: u32,
    /// What each Blinds tick adds to the margin.
    pub step: u32,
}

#[derive(Debug, Clone, Copy, PartialEq, Eq)]
pub struct Enemy {
    pub name: &'static str,
    /// The enemy's chips; 0 means the encounter is won.
    pub chips: u32,
    /// How it fills the row across from the player.
    pub deal: Deal,
    pub blinds: RisingBlinds,
    /// Set for The House alone; `None` for every ordinary enemy.
    pub hole_card: Option<HoleCard>,
}

/// Whether a Deal carries exactly these numbers.
pub open spec fn deal_is(
    deal: Deal,
    row: u8,
    low: u32,
    high: u32,
    tell_pct: u32,
    tells: Seq<Tell>,
    hidden_pct: u32,
) -> bool {
    &&& deal.row == row
    &&& deal.low == low
    &&& deal.high == high
    &&& deal.tell_pct == tell_pct
    &&& deal.tells@ == tells
    &&& deal.hidden_pct == hidden_pct
}

/// The numbers each encounter is authored with.
pub open spec fn authored(e: Enemy, id: EncounterId) -> bool {
    let blinds = RisingBlinds { every_turns: 5, cards: 1 };
    match id {
        EncounterId::FloorMinion => {
            &&& e.name == "A shill in a rented tux"
            &&& e.chips == 25
            &&& deal_is(e.deal, 3, 2, 5, 20, seq![Tell::Streak], 50)
            &&& e.blinds == blinds
            &&& e.hole_card is None
        },
        EncounterId::Slotz => {
            &&& e.name == "SLOTZ"
            &&& e.chips == 32
            &&& deal_is(e.deal, 3, 3, 7, 35, seq![Tell::Streak, Tell::Copycat], 50)
            &&& e.blinds == blinds
            &&& e.hole_card is None
        },
        EncounterId::PitMinion => {
            &&& e.name == "A dealer with a scar"
            &&& e.chips == 32
            &&& deal_is(e.deal, 4, 4, 7, 30, seq![Tell::Streak, Tell::Flop], 50)
            &&& e.blinds == blinds
            &&& e.hole_card is None
        },
        EncounterId::PitBoss => {
            &&& e.name == "THE PIT BOSS"
            &&& e.chips == 40
            &&& deal_is(e.deal, 4, 4, 9, 40, seq![Tell::Streak, Tell::Copycat, Tell::Flop], 55)
            &&& e.blinds == blinds
            &&& e.hole_card is None
        },
        EncounterId::Tutorial => {
            &&& e.name == "THE DEMO DEALER"
            &&& e.chips == 30
            &&& deal_is(e.deal, 5, 4, 4, 0, seq![], 0)
            &&& e.blinds == (RisingBlinds { every_turns: u8::MAX, cards: 0 })
            &&& e.hole_card is None
        },
        EncounterId::TheHouse => {
            &&& e.name == "THE HOUSE"
            &&& e.chips == 35
            &&& deal_is(e.deal, 4, 1, 4, 35, seq![Tell::Streak, Tell::Flop], 40)
            &&& e.blinds == (RisingBlinds { every_turns: 2, cards: 0 })
            &&& e.hole_card == Some(HoleCard { margin: 1, step: 2 })
        },
    }
}

impl Enemy {
    /// The single place enemy numbers live.
    pub fn for_encounter(id: EncounterId) -> (e: Enemy)
        ensures
            authored(e, id),
    {
        let blinds = RisingBlinds { every_turns: 5, cards: 1 };
        let e = match id {
            EncounterId::FloorMinion => Enemy {
                name: "A shill in a rented tux",
                chips: 25,
                deal: Deal { row: 3, low: 2, high: 5, tell_pct: 20, tells: &[Tell::Streak], hidden_pct: 50 },
                blinds,
                hole_card: None,
            },
            EncounterId::Slotz => Enemy {
                name: "SLOTZ",
                chips: 32,
                deal: Deal {
                    row: 3,
                    low: 3,
                    high: 7,
                    tell_pct: 35,
                    tells: &[Tell::Streak, Tell::Copycat],
                    hidden_pct: 50,
                },
                blinds,
                hole_card: None,
            },
            EncounterId::PitMinion => Enemy {
                name: "A dealer with a scar",
                chips: 32,
                deal: Deal {
                    row: 4,
                    low: 4,
                    high: 7,
                    tell_pct: 30,
                    tells: &[Tell::Streak, Tell::Flop],
                    hidden_pct: 50,
                },
                blinds,
                hole_card: None,
            },
            EncounterId::PitBoss => Enemy {
                name: "THE PIT BOSS",
                chips: 40,
                deal: Deal {
                    row: 4,
                    low: 4,
                    high: 9,
                    tell_pct: 40,
                    tells: &[Tell::Streak, Tell::Copycat, Tell::Flop],
                    hidden_pct: 55,
                },
                blinds,
                hole_card: None,
            },
            // A practice hand, not a clock: everything face up, no Tells, no Blinds.
            EncounterId::Tutorial => Enemy {
                name: "THE DEMO DEALER",
                chips: 30,
                deal: Deal { row: 5, low: 4, high: 4, tell_pct: 0, tells: &[], hidden_pct: 0 },
                blinds: RisingBlinds { every_turns: u8::MAX, cards: 0 },
                hole_card: None,
            },
            // The House deals itself scraps and keeps the last card blank
            // until the showdown. Streak and Flop only: both read a slot that
            // is already settled when the Hole Card is worked out, where a
            // Copycat would have to read the blank.
            EncounterId::TheHouse => Enemy {
                name: "THE HOUSE",
                chips: 35,
                deal: Deal {
                    row: 4,
                    low: 1,
                    high: 4,
                    tell_pct: 35,
                    tells: &[Tell::Streak, Tell::Flop],
                    hidden_pct: 40,
                },
                blinds: RisingBlinds { every_turns: 2, cards: 0 },
                hole_card: Some(HoleCard { margin: 1, step: 2 }),
            },
        };
        proof {
            match id {
                EncounterId::FloorMinion => assert(e.deal.tells@ == seq![Tell::Streak]),
                EncounterId::Slotz => assert(e.deal.tells@ == seq![Tell::Streak, Tell::Copycat]),
                EncounterId::PitMinion => assert(e.deal.tells@ == seq![Tell::Streak, Tell::Flop]),
                EncounterId::PitBoss => assert(e.deal.tells@ == seq![Tell::Streak, Tell::Copycat, Tell::Flop]),
                EncounterId::Tutorial => assert(e.deal.tells@ == Seq::<Tell>::empty()),
                EncounterId::TheHouse => assert(e.deal.tells@ == seq![Tell::Streak, Tell::Flop]),
            }
        }
        e
    }
}

/// Every Opposing Card is dealt inside its enemy's range, and carries one of
/// the Tells its enemy plays, if any.
pub proof fn lemma_dealt_card_in_range(deal: Deal, rng: u64)
    requires
        deal.low <= deal.high,
    ensures
        deal.low <= deal_card(deal, rng).0.face_value <= deal.high,
        deal_card(deal, rng).0.tell matches Some(t) ==> deal.tells@.contains(t),
        deal.tell_pct == 0 ==> deal_card(deal, rng).0.tell is None,
{
    let r1 = xorshift_step(rng);
    let (tell, r3) = deal_tell(deal, r1);
    if deal.tells@.len() > 0 {
        let r = xorshift_step(r1);
        if (r as int) % 100 < deal.tell_pct {
            let t = xorshift_step(r);
            let i = (t as int) % (deal.tells@.len() as int);
            assert(deal.tells@[i] == deal.tells@[i]);
        }
    }
}

/// The generator run backwards one step: the state `y` steps on from.
pub open spec fn xorshift_back(y: u64) -> u64 {
    let b = y ^ (y << 17u64) ^ (y << 34u64) ^ (y << 51u64);
    let a = b ^ (b >> 7u64) ^ (b >> 14u64) ^ (b >> 21u64) ^ (b >> 28u64) ^ (b >> 35u64) ^ (b >> 42u64) ^ (b >> 49u64)
        ^ (b >> 56u64) ^ (b >> 63u64);
    a ^ (a << 13u64) ^ (a << 26u64) ^ (a << 39u64) ^ (a << 52u64)
}

/// Every state is stepped on to from somewhere: the generator can hand out
/// any number at all as its next roll.
pub proof fn lemma_every_roll_can_come_up(y: u64)
    ensures
        xorshift_step(xorshift_back(y)) == y,
{
    let b = y ^ (y << 17u64) ^ (y << 34u64) ^ (y << 51u64);
    let a = b ^ (b >> 7u64) ^ (b >> 14u64) ^ (b >> 21u64) ^ (b >> 28u64) ^ (b >> 35u64) ^ (b >> 42u64) ^ (b >> 49u64)
        ^ (b >> 56u64) ^ (b >> 63u64);
    let s = a ^ (a << 13u64) ^ (a << 26u64) ^ (a << 39u64) ^ (a << 52u64);
    assert(s ^ (s << 13u64) == a) by (bit_vector)
        requires
            s == a ^ (a << 13u64) ^ (a << 26u64) ^ (a << 39u64) ^ (a << 52u64),
    ;
    assert(a ^ (a >> 7u64) == b) by (bit_vector)
        requires
            a == b ^ (b >> 7u64) ^ (b >> 14u64) ^ (b >> 21u64) ^ (b >> 28u64) ^ (b >> 35u64) ^ (b >> 42u64) ^ (b
                >> 49u64) ^ (b >> 56u64) ^ (b >> 63u64),
    ;
    assert(b ^ (b << 17u64) == y) by (bit_vector)
        requires
            b == y ^ (y << 17u64) ^ (y << 34u64) ^ (y << 51u64),
    ;
}

/// Every Face Value in an enemy's range, both ends included, comes up off
/// some state of the generator.
pub proof fn lemma_every_face_in_range_is_dealt(deal: Deal, v: u32)
    requires
        deal.low <= v <= deal.high,
    ensures
        exists|rng: u64| (#[trigger] deal_card(deal, rng)).0.face_value == v,
{
    let y = (v - deal.low) as u64;
    let rng = xorshift_back(y);
    lemma_every_roll_can_come_up(y);
    assert(xorshift_step(rng) == y);
    let span = (deal.high - deal.low) + 1;
    assert((y as int) % span == y as int) by {
        vstd::arithmetic::div_mod::lemma_small_mod(y as nat, span as nat);
    }
    assert(deal_span(deal) == span);
    assert(deal_card(deal, rng).0.face_value == v);
}

// ---------------------------------------------------------------------------
// Decks
// ---------------------------------------------------------------------------

/// The fixed starter deck: 18 cards, 8 of them with a Tell. Ten vanilla
/// cards 2..=8, four Streak 3..=6, four All In 2..=5.
pub open spec fn starter_cards() -> Seq<Card> {
    seq![
        Card { name: "Two of Clubs", face_value: 2, tell: None },
        Card { name: "Cheap Seat", face_value: 3, tell: None },
        Card { name: "Comped Drink", face_value: 3, tell: None },
        Card { name: "Four of Hearts", face_value: 4, tell: None },
        Card { name: "Bus Ticket Home", face_value: 4, tell: None },
        Card { name: "Five of Spades", face_value: 5, tell: None },
        Card { name: "Borrowed Watch", face_value: 5, tell: None },
        Card { name: "Six of Diamonds", face_value: 6, tell: None },
        Card { name: "Marked Card", face_value: 7, tell: None },
        Card { name: "Pawned Ring", face_value: 8, tell: None },
        Card { name: "Hot Streak", face_value: 3, tell: Some(Tell::Streak) },
        Card { name: "Lucky Seat", face_value: 4, tell: Some(Tell::Streak) },
        Card { name: "Dealer Blinks", face_value: 5, tell: Some(Tell::Streak) },
        Card { name: "Table Runs Hot", face_value: 6, tell: Some(Tell::Streak) },
        Card { name: "Last Dollar", face_value: 2, tell: Some(Tell::AllIn) },
        Card { name: "Car Keys", face_value: 3, tell: Some(Tell::AllIn) },
        Card { name: "Deed to the House", face_value: 4, tell: Some(Tell::AllIn) },
        Card { name: "Firstborn", face_value: 5, tell: Some(Tell::AllIn) },
    ]
}

pub fn starter_deck() -> (deck: Vec<Card>)
    ensures
        deck@ == starter_cards(),
{
    let mut deck: Vec<Card> = Vec::new();
    deck.push(Card { name: "Two of Clubs", face_value: 2, tell: None });
    deck.push(Card { name: "Cheap Seat", face_value: 3, tell: None });
    deck.push(Card { name: "Comped Drink", face_value: 3, tell: None });
    deck.push(Card { name: "Four of Hearts", face_value: 4, tell: None });
    deck.push(Card { name: "Bus Ticket Home", face_value: 4, tell: None });
    deck.push(Card { name: "Five of Spades", face_value: 5, tell: None });
    deck.push(Card { name: "Borrowed Watch", face_value: 5, tell: None });
    deck.push(Card { name: "Six of Diamonds", face_value: 6, tell: None });
    deck.push(Card { name: "Marked Card", face_value: 7, tell: None });
    deck.push(Card { name: "Pawned Ring", face_value: 8, tell: None });
    deck.push(Card { name: "Hot Streak", face_value: 3, tell: Some(Tell::Streak) });
    deck.push(Card { name: "Lucky Seat", face_value: 4, tell: Some(Tell::Streak) });
    deck.push(Card { name: "Dealer Blinks", face_value: 5, tell: Some(Tell::Streak) });
    deck.push(Card { name: "Table Runs Hot", face_value: 6, tell: Some(Tell::Streak) });
    deck.push(Card { name: "Last Dollar", face_value: 2, tell: Some(Tell::AllIn) });
    deck.push(Card { name: "Car Keys", face_value: 3, tell: Some(Tell::AllIn) });
    deck.push(Card { name: "Deed to the House", face_value: 4, tell: Some(Tell::AllIn) });
    deck.push(Card { name: "Firstborn", face_value: 5, tell: Some(Tell::AllIn) });
    assert(deck@ =~= starter_cards());
    deck
}

/// Where each card of the Arcade's scripted deal sits in the starter deck,
/// in the order the deck holds them: the eleven cards the script never
/// touches in starter order, then the seven it does, last-drawn first.
pub open spec fn tutorial_order() -> Seq<int> {
    seq![2, 4, 5, 6, 7, 8, 11, 13, 15, 16, 17, 1, 3, 12, 10, 0, 14, 9]
}

/// The Arcade's fixed deal, in Draw order: Pawned Ring, Last Dollar, Two of
/// Clubs, Hot Streak, Dealer Blinks, Four of Hearts, Cheap Seat are the
/// first seven drawn, and every mechanic fires once in the scripted turn.
/// Never shuffled.
pub open spec fn tutorial_cards() -> Seq<Card> {
    tutorial_order().map_values(|i: int| starter_cards()[i])
}

pub fn tutorial_deal() -> (deck: Vec<Card>)
    ensures
        deck@ == tutorial_cards(),
{
    let starter = starter_deck();
    let order: [usize; 18] = [2, 4, 5, 6, 7, 8, 11, 13, 15, 16, 17, 1, 3, 12, 10, 0, 14, 9];
    let mut deck: Vec<Card> = Vec::new();
    let mut k: usize = 0;
    while k < 18
        invariant
            k <= 18,
            starter@ == starter_cards(),
            order@ == seq![2usize, 4, 5, 6, 7, 8, 11, 13, 15, 16, 17, 1, 3, 12, 10, 0, 14, 9],
            deck@ == tutorial_cards().take(k as int),
        decreases 18 - k,
    {
        let i = order[k];
        assert(order@[k as int] as int == tutorial_order()[k as int]);
        deck.push(starter[i]);
        assert(deck@ =~= tutorial_cards().take(k + 1));
        k = k + 1;
    }
    assert(deck@ =~= tutorial_cards());
    deck
}

/// The Arcade's fixed Opposing Cards, left to right, with whether the
/// cabinet deals each one face up: 20 in all, 12 of it showing and 8 face
/// down.
pub open spec fn tutorial_row() -> Seq<(Card, bool)> {
    seq![
        (Card { name: "Cut Card", face_value: 5, tell: None }, true),
        (Card { name: "Chip Rack", face_value: 4, tell: None }, false),
        (Card { name: "Dealer's Nod", face_value: 4, tell: None }, true),
        (Card { name: "The Rake", face_value: 4, tell: None }, false),
        (Card { name: "Table Limit", face_value: 3, tell: None }, true),
    ]
}

pub fn tutorial_opposing() -> (row: Vec<(Card, bool)>)
    ensures
        row@ == tutorial_row(),
{
    let mut row: Vec<(Card, bool)> = Vec::new();
    row.push((Card { name: "Cut Card", face_value: 5, tell: None }, true));
    row.push((Card { name: "Chip Rack", face_value: 4, tell: None }, false));
    row.push((Card { name: "Dealer's Nod", face_value: 4, tell: None }, true));
    row.push((Card { name: "The Rake", face_value: 4, tell: None }, false));
    row.push((Card { name: "Table Limit", face_value: 3, tell: None }, true));
    assert(row@ =~= tutorial_row());
    row
}

/// Slotz Option 2: three more Streak cards, all middling.
pub open spec fn streak_reward() -> Seq<Card> {
    seq![
        Card { name: "Loose Slot", face_value: 4, tell: Some(Tell::Streak) },
        Card { name: "Second Cherry", face_value: 4, tell: Some(Tell::Streak) },
        Card { name: "Jackpot Bell", face_value: 4, tell: Some(Tell::Streak) },
    ]
}

fn streak_reward_cards() -> (cards: Vec<Card>)
    ensures
        cards@ == streak_reward(),
{
    let mut cards: Vec<Card> = Vec::new();
    cards.push(Card { name: "Loose Slot", face_value: 4, tell: Some(Tell::Streak) });
    cards.push(Card { name: "Second Cherry", face_value: 4, tell: Some(Tell::Streak) });
    cards.push(Card { name: "Jackpot Bell", face_value: 4, tell: Some(Tell::Streak) });
    assert(cards@ =~= streak_reward());
    cards
}

/// A roll of the generator below `n`, and the state after it.
pub open spec fn roll_below(rng: u64, n: int) -> (int, u64) {
    let r = xorshift_step(rng);
    ((r as int) % n, r)
}

fn roll(rng: &mut u64, n: u64) -> (r: u64)
    requires
        n > 0,
    ensures
        (r as int, *final(rng)) == roll_below(*old(rng), n as int),
        r < n,
{
    xorshift64(rng) % n
}

/// The names the Pit's cards with a Tell come under.
pub open spec fn pit_telled_names() -> Seq<&'static str> {
    seq!["Sleeve Ace", "Tipped Dealer", "Marker from the Pit", "Cooler Deck", "Late Bet", "Chip on the Rail"]
}

/// The names the Pit's plain cards come under.
pub open spec fn pit_plain_names() -> Seq<&'static str> {
    seq!["House Matchbook", "Parking Stub", "Cocktail Napkin", "Loose Change", "Cigarette Burn", "Plastic Chip"]
}

/// `names` with the one at `i` taken out of the hat, the last name moving
/// into its place.
pub open spec fn taken_out(names: Seq<&'static str>, i: int) -> Seq<&'static str> {
    names.update(i, names.last()).drop_last()
}

/// One card with a Tell off the Pit's table: a name out of the hat, then
/// which Tell, then its Face Value in the range the starter deck gives
/// that Tell.
pub open spec fn pit_telled_card(names: Seq<&'static str>, rng: u64) -> (Card, Seq<&'static str>, u64) {
    let (i, r1) = roll_below(rng, names.len() as int);
    let (t, r2) = roll_below(r1, 4);
    let (v, r3) = roll_below(r2, 4);
    let (tell, face) = if t == 0 {
        (Tell::Streak, 3 + v)
    } else if t == 1 {
        (Tell::AllIn, 2 + v)
    } else if t == 2 {
        (Tell::Copycat, 2 + v)
    } else {
        (Tell::Flop, 2 + v)
    };
    (Card { name: names[i], face_value: face as u32, tell: Some(tell) }, taken_out(names, i), r3)
}

/// One plain card off the Pit's table: a name out of the hat, then a Face
/// Value of 2..=8.
pub open spec fn pit_plain_card(names: Seq<&'static str>, rng: u64) -> (Card, Seq<&'static str>, u64) {
    let (i, r1) = roll_below(rng, names.len() as int);
    let (v, r2) = roll_below(r1, 7);
    (Card { name: names[i], face_value: (2 + v) as u32, tell: None }, taken_out(names, i), r2)
}

/// Pit Boss Option 2: four cards off the Pit's own table rolled from
/// `seed`, two with a Tell and two plain.
pub open spec fn pit_pack(seed: u64) -> Seq<Card> {
    let r0 = seed | 1u64;
    let (c1, t1, r1) = pit_telled_card(pit_telled_names(), r0);
    let (c2, t2, r2) = pit_telled_card(t1, r1);
    let (c3, p1, r3) = pit_plain_card(pit_plain_names(), r2);
    let (c4, p2, r4) = pit_plain_card(p1, r3);
    seq![c1, c2, c3, c4]
}

fn pit_names(telled: bool) -> (names: Vec<&'static str>)
    ensures
        names@ == if telled { pit_telled_names() } else { pit_plain_names() },
{
    let mut names: Vec<&'static str> = Vec::new();
    if telled {
        names.push("Sleeve Ace");
        names.push("Tipped Dealer");
        names.push("Marker from the Pit");
        names.push("Cooler Deck");
        names.push("Late Bet");
        names.push("Chip on the Rail");
        assert(names@ =~= pit_telled_names());
    } else {
        names.push("House Matchbook");
        names.push("Parking Stub");
        names.push("Cocktail Napkin");
        names.push("Loose Change");
        names.push("Cigarette Burn");
        names.push("Plastic Chip");
        assert(names@ =~= pit_plain_names());
    }
    names
}

fn telled_card(names: &mut Vec<&'static str>, rng: &mut u64) -> (c: Card)
    requires
        old(names)@.len() > 0,
    ensures
        (c, final(names)@, *final(rng)) == pit_telled_card(old(names)@, *old(rng)),
{
    let i = roll(rng, names.len() as u64);
    let name = names.swap_remove(i as usize);
    let t = roll(rng, 4);
    let (tell, face_value) = if t == 0 {
        (Tell::Streak, 3 + roll(rng, 4) as u32)
    } else if t == 1 {
        (Tell::AllIn, 2 + roll(rng, 4) as u32)
    } else if t == 2 {
        (Tell::Copycat, 2 + roll(rng, 4) as u32)
    } else {
        (Tell::Flop, 2 + roll(rng, 4) as u32)
    };
    Card { name, face_value, tell: Some(tell) }
}

fn plain_card(names: &mut Vec<&'static str>, rng: &mut u64) -> (c: Card)
    requires
        old(names)@.len() > 0,
    ensures
        (c, final(names)@, *final(rng)) == pit_plain_card(old(names)@, *old(rng)),
{
    let i = roll(rng, names.len() as u64);
    let name = names.swap_remove(i as usize);
    let face_value = 2 + roll(rng, 7) as u32;
    Card { name, face_value, tell: None }
}

/// Pit Boss Option 2: four cards off the Pit's own table, two with a random
/// Tell and two plain. Names come out of the hat rather than off it, so a
/// pack never holds the same card twice.
fn random_cards(seed: u64) -> (cards: Vec<Card>)
    ensures
        cards@ == pit_pack(seed),
{
    let mut rng = seed | 1;
    let mut telled = pit_names(true);
    let mut plain = pit_names(false);
    let mut cards: Vec<Card> = Vec::new();
    let c1 = telled_card(&mut telled, &mut rng);
    let c2 = telled_card(&mut telled, &mut rng);
    let c3 = plain_card(&mut plain, &mut rng);
    let c4 = plain_card(&mut plain, &mut rng);
    cards.push(c1);
    cards.push(c2);
    cards.push(c3);
    cards.push(c4);
    assert(cards@ =~= pit_pack(seed));
    cards
}

/// Two of the Pit's four cards carry a Tell and two don't, and every one of
/// them prints inside the starter deck's range of 2..=8.
pub proof fn lemma_pit_pack_shape(seed: u64)
    ensures
        pit_pack(seed).len() == 4,
        pit_pack(seed)[0].tell is Some,
        pit_pack(seed)[1].tell is Some,
        pit_pack(seed)[2].tell is None,
        pit_pack(seed)[3].tell is None,
        forall|k: int| 0 <= k < 4 ==> 2 <= #[trigger] pit_pack(seed)[k].face_value <= 8,
{
}

// ---------------------------------------------------------------------------
// Run state
// ---------------------------------------------------------------------------

/// Everything that persists across encounters within one run. Reset on Fold
/// or death via `RunState::new()`.
#[derive(Debug, Clone)]
pub struct RunState {
    /// The player's chips. Combat mutates this in place; 0 means the run is over.
    pub stack: u32,
    pub deck: Vec<Card>,
    pub perks: Vec<Perk>,
    pub items: Vec<Item>,
}

/// How many Hands the items in a pocket still carry the Loaded Dice for.
pub open spec fn dice_in(items: Seq<Item>) -> nat
    decreases items.len(),
{
    if items.len() == 0 {
        0
    } else {
        dice_in(items.drop_last()) + match items.last() {
            Item::LoadedDice { hands_left } => hands_left as nat,
        }
    }
}

/// The pocket after the Loaded Dice are set to `hands_left`: a spent pair is
/// thrown away rather than kept around at zero, and since the dice are the
/// only item there is, nothing else is left in it.
pub open spec fn dice_pocket(hands_left: u8) -> Seq<Item> {
    if hands_left > 0 {
        seq![Item::LoadedDice { hands_left }]
    } else {
        Seq::empty()
    }
}

/// The perks after taking `perk`: a perk is a thing you either have or
/// don't, so taking it twice changes nothing.
pub open spec fn with_perk(perks: Seq<Perk>, perk: Perk) -> Seq<Perk> {
    if perks.contains(perk) {
        perks
    } else {
        perks.push(perk)
    }
}

/// Plays per turn after perks.
pub open spec fn plays_for(perks: Seq<Perk>) -> u8 {
    if perks.contains(Perk::SixPlaysSteepBlinds) {
        6
    } else {
        5
    }
}

/// Rising Blinds after perks.
pub open spec fn blinds_for(perks: Seq<Perk>, base: RisingBlinds) -> RisingBlinds {
    if perks.contains(Perk::SixPlaysSteepBlinds) {
        RisingBlinds { every_turns: 1, cards: STEEP_BLINDS_CARDS }
    } else {
        base
    }
}

proof fn lemma_dice_prefix(items: Seq<Item>, i: int)
    requires
        0 <= i <= items.len(),
    ensures
        dice_in(items.take(i)) <= dice_in(items),
    decreases items.len() - i,
{
    if i < items.len() {
        lemma_dice_prefix(items, i + 1);
        assert(items.take(i + 1).drop_last() =~= items.take(i));
    } else {
        assert(items.take(i) =~= items);
    }
}

fn has_perk(perks: &Vec<Perk>, perk: Perk) -> (r: bool)
    ensures
        r == perks@.contains(perk),
{
    let mut k: usize = 0;
    while k < perks.len()
        invariant
            k <= perks@.len(),
            forall|j: int| 0 <= j < k ==> perks@[j] != perk,
        decreases perks@.len() - k,
    {
        if perks[k] == perk {
            assert(perks@[k as int] == perk);
            return true;
        }
        k = k + 1;
    }
    false
}

impl RunState {
    /// A fresh run with the fixed starter deck and starting Stack.
    pub fn new() -> (run: RunState)
        ensures
            run.stack == STARTING_STACK,
            run.deck@ == starter_cards(),
            run.perks@ == Seq::<Perk>::empty(),
            run.items@ == Seq::<Item>::empty(),
    {
        RunState { stack: STARTING_STACK, deck: starter_deck(), perks: Vec::new(), items: Vec::new() }
    }

    /// Grant a reward. The only way perks, items, or the deck change between
    /// encounters. `seed` feeds the one reward that rolls dice, the Pit Boss
    /// card pack; the caller owns the randomness so this stays deterministic.
    pub fn apply(&mut self, reward: Reward, seed: u64)
        requires
            reward == Reward::LoadedDice ==> dice_in(old(self).items@) <= u8::MAX,
        ensures
            final(self).stack == old(self).stack,
            final(self).deck@ == match reward {
                Reward::SlotzStreakCards => old(self).deck@ + streak_reward(),
                Reward::PitBossRandomCards => old(self).deck@ + pit_pack(seed),
                _ => old(self).deck@,
            },
            final(self).perks@ == match reward {
                Reward::SlotzPylBestTwoOfThree => with_perk(old(self).perks@, Perk::PylBestTwoOfThree),
                Reward::PitBossSixPlays => with_perk(old(self).perks@, Perk::SixPlaysSteepBlinds),
                _ => old(self).perks@,
            },
            final(self).items@ == match reward {
                // A fresh pair on top of an existing one adds Hands, not clutter.
                Reward::LoadedDice => dice_pocket(
                    if dice_in(old(self).items@) + LOADED_DICE_HANDS > u8::MAX {
                        u8::MAX
                    } else {
                        (dice_in(old(self).items@) + LOADED_DICE_HANDS) as u8
                    },
                ),
                _ => old(self).items@,
            },
    {
        match reward {
            Reward::LoadedDice => {
                let held = self.loaded_dice();
                self.set_loaded_dice(held.saturating_add(LOADED_DICE_HANDS));
            },
            Reward::SlotzStreakCards => {
                let mut cards = streak_reward_cards();
                self.deck.append(&mut cards);
            },
            Reward::SlotzPylBestTwoOfThree => self.take_perk(Perk::PylBestTwoOfThree),
            Reward::PitBossSixPlays => self.take_perk(Perk::SixPlaysSteepBlinds),
            Reward::PitBossRandomCards => {
                let mut cards = random_cards(seed);
                self.deck.append(&mut cards);
            },
        }
    }

    /// Hands still carrying the Loaded Dice bonus. Combat reads this on the
    /// way in and writes back what is left with `set_loaded_dice`.
    pub fn loaded_dice(&self) -> (r: u8)
        requires
            dice_in(self.items@) <= u8::MAX,
        ensures
            r == dice_in(self.items@),
    {
        let mut total: u8 = 0;
        let mut k: usize = 0;
        while k < self.items.len()
            invariant
                k <= self.items@.len(),
                dice_in(self.items@) <= u8::MAX,
                total == dice_in(self.items@.take(k as int)),
            decreases self.items@.len() - k,
        {
            proof {
                lemma_dice_prefix(self.items@, k + 1);
                assert(self.items@.take(k + 1).drop_last() =~= self.items@.take(k as int));
            }
            match self.items[k] {
                Item::LoadedDice { hands_left } => {
                    total = total + hands_left;
                },
            }
            k = k + 1;
        }
        assert(self.items@.take(k as int) =~= self.items@);
        total
    }

    /// Write back what combat left of the Loaded Dice. A spent pair is thrown
    /// away rather than kept around at zero.
    pub fn set_loaded_dice(&mut self, hands_left: u8)
        ensures
            final(self).items@ == dice_pocket(hands_left),
            final(self).stack == old(self).stack,
            final(self).deck@ == old(self).deck@,
            final(self).perks@ == old(self).perks@,
    {
        // The dice are the only item there is, so dropping every pair of them
        // empties the pocket.
        self.items.clear();
        if hands_left > 0 {
            self.items.push(Item::LoadedDice { hands_left });
        }
        assert(self.items@ =~= dice_pocket(hands_left));
    }

    /// Plays per turn after perks: the most cards the player may put in the row.
    pub fn plays(&self) -> (r: u8)
        ensures
            r == plays_for(self.perks@),
    {
        if has_perk(&self.perks, Perk::SixPlaysSteepBlinds) {
            6
        } else {
            5
        }
    }

    /// Rising Blinds after perks. The Pit Boss perk states its own price:
    /// another Opposing Card every turn, whoever is sitting across the table.
    pub fn blinds(&self, base: RisingBlinds) -> (r: RisingBlinds)
        ensures
            r == blinds_for(self.perks@, base),
    {
        if has_perk(&self.perks, Perk::SixPlaysSteepBlinds) {
            RisingBlinds { every_turns: 1, cards: STEEP_BLINDS_CARDS }
        } else {
            base
        }
    }

    /// A perk is a thing you either have or don't; taking it twice is a no-op.
    fn take_perk(&mut self, perk: Perk)
        ensures
            final(self).perks@ == with_perk(old(self).perks@, perk),
            final(self).stack == old(self).stack,
            final(self).deck@ == old(self).deck@,
            final(self).items@ == old(self).items@,
    {
        if !has_perk(&self.perks, perk) {
            self.perks.push(perk);
        }
    }
}

/// A run as plain values.
pub struct RunModel {
    pub stack: u32,
    pub deck: Seq<Card>,
    pub perks: Seq<Perk>,
    pub items: Seq<Item>,
}

impl View for RunState {
    type V = RunModel;

    open spec fn view(&self) -> RunModel {
        RunModel { stack: self.stack, deck: self.deck@, perks: self.perks@, items: self.items@ }
    }
}

/// A fresh run: the starter deck, the starting Stack, and nothing picked up.
pub open spec fn fresh_run() -> RunModel {
    RunModel { stack: STARTING_STACK, deck: starter_cards(), perks: Seq::empty(), items: Seq::empty() }
}

/// A run after it is granted `reward`.
pub open spec fn applied(run: RunModel, reward: Reward, seed: u64) -> RunModel {
    RunModel {
        stack: run.stack,
        deck: match reward {
            Reward::SlotzStreakCards => run.deck + streak_reward(),
            Reward::PitBossRandomCards => run.deck + pit_pack(seed),
            _ => run.deck,
        },
        perks: match reward {
            Reward::SlotzPylBestTwoOfThree => with_perk(run.perks, Perk::PylBestTwoOfThree),
            Reward::PitBossSixPlays => with_perk(run.perks, Perk::SixPlaysSteepBlinds),
            _ => run.perks,
        },
        items: match reward {
            Reward::LoadedDice => dice_pocket(
                if dice_in(run.items) + LOADED_DICE_HANDS > u8::MAX {
                    u8::MAX
                } else {
                    (dice_in(run.items) + LOADED_DICE_HANDS) as u8
                },
            ),
            _ => run.items,
        },
    }
}

impl Default for RunState {
    /// A fresh run.
    fn default() -> (run: RunState)
        ensures
            run.stack == STARTING_STACK,
            run.deck@ == starter_cards(),
            run.perks@ == Seq::<Perk>::empty(),
            run.items@ == Seq::<Item>::empty(),
    {
        RunState::new()
    }
}

/// Whatever Loaded Dice are written back are exactly what is read back out.
pub proof fn lemma_dice_round_trip(hands_left: u8)
    ensures
        dice_in(dice_pocket(hands_left)) == hands_left,
{
    if hands_left > 0 {
        let pocket = dice_pocket(hands_left);
        assert(pocket.drop_last() =~= Seq::<Item>::empty());
        assert(dice_in(pocket.drop_last()) == 0);
    } else {
        assert(dice_in(dice_pocket(hands_left)) == 0);
    }
}

/// Taking a perk never lists it twice: a pocket of distinct perks stays one.
pub proof fn lemma_perks_stay_distinct(perks: Seq<Perk>, perk: Perk)
    requires
        perks.no_duplicates(),
    ensures
        with_perk(perks, perk).no_duplicates(),
        with_perk(perks, perk).contains(perk),
        with_perk(with_perk(perks, perk), perk) == with_perk(perks, perk),
{
    if !perks.contains(perk) {
        let p = perks.push(perk);
        assert(p[perks.len() as int] == perk);
        assert forall|i: int, j: int| 0 <= i < p.len() && 0 <= j < p.len() && i != j implies p[i] != p[j] by {
            if i < perks.len() && j < perks.len() {
            } else if i == perks.len() {
                assert(perks[j] == p[j]);
            } else {
                assert(perks[i] == p[i]);
            }
        }
    }
}

} // verus!
