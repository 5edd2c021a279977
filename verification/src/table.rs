//! The table around a duel: the keys and clicks that drive it, the Arcade's
//! script, the seeds duels are dealt from, and what the table says back.
//! Rendering and the frame loop are the app's; every decision is made here.

use vstd::prelude::*;

use crate::duel::{
    Coin, Duel, DuelModel, Outcome, Phase, PlayError, Push, TurnResult, all_small, coin_flip,
    enemy_fits, index_of, opening, perks_coin, shuffle, lemma_shuffle,
};
use crate::narrative;
use crate::run::{
    Card, CombatOutcome, Encounter, EncounterId, RunState, Tell, blinds_for, dice_in, plays_for,
    tutorial_cards, tutorial_row, xorshift64, xorshift_step, STARTING_STACK,
};
use crate::words::{decimal, push_decimal};

verus! {

// ---------------------------------------------------------------------------
// Keys and clicks
// ---------------------------------------------------------------------------

/// A key the player pressed this frame.
#[derive(Debug, Clone, Copy, PartialEq, Eq, Structural)]
pub enum Key {
    /// A number key on the top row.
    Digit(u8),
    /// A number key on the numpad.
    Numpad(u8),
    Enter,
    NumpadEnter,
    Backspace,
    Escape,
    Space,
    Up,
    Down,
    Left,
    Right,
    /// A letter key, upper case.
    Letter(char),
    /// Anything else.
    Other,
}

/// Which of the three rows a card is in: the Draw the player holds, the row
/// they are building, or the enemy's row across from it.
#[derive(Debug, Clone, Copy, PartialEq, Eq, Structural)]
pub enum Zone {
    /// The cards the player is holding.
    Draw,
    /// The row the player is building. Clicking one takes it back.
    Row,
    /// The enemy's row. Nothing to click; the Peek still reads the face-up ones.
    Opposing,
}

/// The Draw's card size, in pixels. The Peek hangs its tag off these.
pub const CARD_WIDTH: u32 = 120;
pub const CARD_HEIGHT: u32 = 168;
/// The two facing rows are drawn smaller: the Draw is the row the player is
/// reaching into.
pub const ROW_WIDTH: u32 = 88;
pub const ROW_HEIGHT: u32 = 123;

impl Zone {
    /// The card size this row is drawn at, width then height. The two facing
    /// rows share one, so a slot is a column of the table.
    pub fn card_size(self) -> (r: (u32, u32))
        ensures
            r == match self {
                Zone::Draw => (CARD_WIDTH, CARD_HEIGHT),
                Zone::Row | Zone::Opposing => (ROW_WIDTH, ROW_HEIGHT),
            },
    {
        match self {
            Zone::Draw => (CARD_WIDTH, CARD_HEIGHT),
            Zone::Row | Zone::Opposing => (ROW_WIDTH, ROW_HEIGHT),
        }
    }
}

/// A card on the table: which row it is in and where.
#[derive(Debug, Clone, Copy, PartialEq, Eq, Structural)]
pub struct CardSlot {
    pub zone: Zone,
    pub index: usize,
}

/// Whether `key` was pressed this frame.
pub open spec fn pressed(keys: Seq<Key>, key: Key) -> bool {
    keys.contains(key)
}

pub fn was_pressed(keys: &[Key], key: Key) -> (r: bool)
    ensures
        r == pressed(keys@, key),
{
    let mut k: usize = 0;
    while k < keys.len()
        invariant
            k <= keys@.len(),
            forall|j: int| 0 <= j < k ==> keys@[j] != key,
        decreases keys@.len() - k,
    {
        if keys[k] == key {
            assert(keys@[k as int] == key);
            return true;
        }
        k = k + 1;
    }
    false
}

/// Enter, top row or numpad.
pub open spec fn confirming(keys: Seq<Key>) -> bool {
    pressed(keys, Key::Enter) || pressed(keys, Key::NumpadEnter)
}

/// The number on a key, if it is one of 1 to `top`, top row or numpad.
pub open spec fn number_on(key: Key, top: u8) -> Option<u8> {
    match key {
        Key::Digit(n) | Key::Numpad(n) => if 1 <= n <= top {
            Some(n)
        } else {
            None
        },
        _ => None,
    }
}

/// The first number from 1 to `top` among the keys pressed, in the order
/// they were reported.
pub open spec fn first_number(keys: Seq<Key>, top: u8) -> Option<u8>
    decreases keys.len(),
{
    if keys.len() == 0 {
        None
    } else {
        match number_on(keys[0], top) {
            Some(n) => Some(n),
            None => first_number(keys.drop_first(), top),
        }
    }
}

fn first_number_of(keys: &[Key], top: u8) -> (r: Option<u8>)
    ensures
        r == first_number(keys@, top),
{
    let mut k: usize = 0;
    assert(keys@.skip(0) =~= keys@);
    while k < keys.len()
        invariant
            k <= keys@.len(),
            first_number(keys@.skip(k as int), top) == first_number(keys@, top),
        decreases keys@.len() - k,
    {
        assert(keys@.skip(k as int).drop_first() =~= keys@.skip(k + 1));
        assert(keys@.skip(k as int)[0] == keys@[k as int]);
        match keys[k] {
            Key::Digit(n) | Key::Numpad(n) => {
                if 1 <= n && n <= top {
                    return Some(n);
                }
            },
            _ => {},
        }
        k = k + 1;
    }
    None
}

/// 1-7, top row or numpad: the Draw slot to play or to sacrifice.
pub fn card_key(keys: &[Key]) -> (r: Option<u8>)
    ensures
        r == first_number(keys@, 7),
{
    first_number_of(keys, 7)
}

/// 1-3, top row or numpad, for menus.
pub fn digit_pressed(keys: &[Key]) -> (r: Option<u8>)
    ensures
        r == first_number(keys@, 3),
{
    first_number_of(keys, 3)
}

/// Any key at all.
pub fn any_key(keys: &[Key]) -> (r: bool)
    ensures
        r == (keys@.len() > 0),
{
    keys.len() > 0
}

/// Enter, for taking the option a menu leads with.
pub fn confirm(keys: &[Key]) -> (r: bool)
    ensures
        r == confirming(keys@),
{
    was_pressed(keys, Key::Enter) || was_pressed(keys, Key::NumpadEnter)
}

/// Space, and nothing else: the one key the Title screen answers to.
pub fn space(keys: &[Key]) -> (r: bool)
    ensures
        r == pressed(keys@, Key::Space),
{
    was_pressed(keys, Key::Space)
}

/// The key that opens and closes the glossary.
pub fn info_toggled(keys: &[Key]) -> (r: bool)
    ensures
        r == pressed(keys@, Key::Letter('I')),
{
    was_pressed(keys, Key::Letter('I'))
}

// ---------------------------------------------------------------------------
// The Arcade's script
// ---------------------------------------------------------------------------

/// What the script waits for at each step of the Arcade's first turn.
#[derive(Debug, Clone, Copy, PartialEq, Eq, Structural)]
pub enum Cue {
    /// A card out of the Draw, by number.
    Card(u8),
    Enter,
    Push,
}

/// The script: play cards 1, 1, burn 2, then 1, 1, 1, show the Hand, Push.
pub open spec fn script() -> Seq<Cue> {
    seq![
        Cue::Card(1),
        Cue::Card(1),
        Cue::Card(2),
        Cue::Card(1),
        Cue::Card(1),
        Cue::Card(1),
        Cue::Enter,
        Cue::Push,
    ]
}

/// How long the script is.
pub const SCRIPT_LENGTH: usize = 8;

/// Walks the player through the scripted first turn, one expected key at a
/// time, then lets go.
#[derive(Debug, Clone, Copy, PartialEq, Eq, Structural)]
pub struct Guide {
    pub step: usize,
}

/// Whether this input is the one `cue` waits for. A card arrives as `digit`
/// whether it came from a number key or a click on the card.
pub open spec fn answers(cue: Cue, keys: Seq<Key>, digit: Option<u8>) -> bool {
    match cue {
        Cue::Card(n) => digit == Some(n),
        Cue::Enter => confirming(keys),
        Cue::Push => pressed(keys, Key::Letter('P')),
    }
}

/// The script after this input, and whether it took it. Free play takes
/// everything.
pub open spec fn guided(guide: Guide, keys: Seq<Key>, digit: Option<u8>) -> (Guide, bool) {
    if guide.step >= script().len() {
        (guide, true)
    } else if answers(script()[guide.step as int], keys, digit) {
        (Guide { step: (guide.step + 1) as usize }, true)
    } else {
        (guide, false)
    }
}

impl Default for Guide {
    /// The script from its first step.
    fn default() -> (g: Guide)
        ensures
            g.step == 0,
    {
        Guide { step: 0 }
    }
}

impl Guide {
    pub fn is_free_play(&self) -> (r: bool)
        ensures
            r == (self.step >= script().len()),
    {
        self.step >= SCRIPT_LENGTH
    }

    /// What the screen tells the player to do next.
    pub fn prompt(&self) -> (r: &'static str)
        ensures
            r == if self.step < SCRIPT_LENGTH {
                narrative::TUTORIAL_STEPS@[self.step as int]
            } else {
                narrative::TUTORIAL_HINT
            },
    {
        if self.step < SCRIPT_LENGTH {
            narrative::TUTORIAL_STEPS[self.step]
        } else {
            narrative::TUTORIAL_HINT
        }
    }

    /// Whether this input is the one the script is waiting for; if so the
    /// script advances. Free play accepts everything.
    pub fn accepts(&mut self, keys: &[Key], digit: Option<u8>) -> (r: bool)
        ensures
            (*final(self), r) == guided(*old(self), keys@, digit),
    {
        if self.step >= SCRIPT_LENGTH {
            return true;
        }
        let matched = if self.step < 6 {
            let n: u8 = if self.step == 2 { 2 } else { 1 };
            digit == Some(n)
        } else if self.step == 6 {
            confirm(keys)
        } else {
            was_pressed(keys, Key::Letter('P'))
        };
        if matched {
            self.step = self.step + 1;
        }
        matched
    }
}

// ---------------------------------------------------------------------------
// Seeds and shuffles
// ---------------------------------------------------------------------------

/// Zero is the one number xorshift64 cannot start from, a fixed point, and a
/// pinned seed of zero is the first thing anyone types; it stands in for it.
pub const INSTEAD_OF_ZERO: u64 = 0x9e37_79b9_7f4a_7c15;

/// A pinned seed for every duel this session. It advances per duel rather
/// than handing out the same number each time, so a pinned session replays
/// as a whole run instead of dealing every fight identically.
#[derive(Debug)]
pub struct DuelSeed(pub u64);

impl DuelSeed {
    /// Anything but zero is taken as given: rounding seeds off would quietly
    /// hand two different numbers the same deal.
    pub fn new(seed: u64) -> (s: DuelSeed)
        ensures
            s.0 == if seed == 0 {
                INSTEAD_OF_ZERO
            } else {
                seed
            },
            s.0 != 0,
    {
        DuelSeed(if seed == 0 { INSTEAD_OF_ZERO } else { seed })
    }

    /// The next duel's seed. xorshift64 never returns zero from a non-zero
    /// state, so the stream keeps itself alive.
    pub fn next(&mut self) -> (r: u64)
        ensures
            final(self).0 == xorshift_step(old(self).0),
            r == final(self).0,
            old(self).0 != 0 ==> r != 0,
    {
        proof {
            if self.0 != 0 {
                crate::run::lemma_xorshift_never_zero(self.0);
            }
        }
        xorshift64(&mut self.0)
    }
}

/// Fisher-Yates, the same as the duel's own reshuffle.
pub fn shuffled(deck: Vec<Card>, rng: u64) -> (r: Vec<Card>)
    ensures
        r@ == shuffle(deck@, rng).0,
        r@.to_multiset() == deck@.to_multiset(),
{
    proof {
        lemma_shuffle(deck@, rng);
    }
    let mut deck = deck;
    let mut rng = rng;
    crate::duel::shuffle_cards(&mut deck, &mut rng);
    deck
}


// ---------------------------------------------------------------------------
// The table
// ---------------------------------------------------------------------------

/// The duel in progress plus what the screen needs to say about it.
pub struct ActiveDuel {
    pub duel: Duel,
    /// Who is across the table, for the art the screen picks by encounter.
    pub id: EncounterId,
    pub enemy_name: &'static str,
    /// Set after playing an All In: the next digit names the sacrifice.
    pub awaiting_sacrifice: Option<usize>,
    /// What the last turn did, for the feedback line.
    pub last_turn: Option<TurnResult>,
    /// What the last keypress did, for the feedback line.
    pub notice: Option<String>,
    /// The Arcade's script. `None` in a real duel.
    pub guide: Option<Guide>,
    /// The keyboard's place in the Draw, for the Peek. Left and Right move
    /// it; the screen brackets the slot.
    pub pointer: Option<usize>,
}

/// The table as plain values.
pub struct TableModel {
    pub duel: DuelModel,
    pub id: EncounterId,
    pub enemy_name: &'static str,
    pub awaiting_sacrifice: Option<usize>,
    pub last_turn: Option<TurnResult>,
    pub notice: Option<Seq<char>>,
    pub guide: Option<Guide>,
    pub pointer: Option<usize>,
}

impl View for ActiveDuel {
    type V = TableModel;

    open spec fn view(&self) -> TableModel {
        TableModel {
            duel: self.duel@,
            id: self.id,
            enemy_name: self.enemy_name,
            awaiting_sacrifice: self.awaiting_sacrifice,
            last_turn: self.last_turn,
            notice: match self.notice {
                Some(s) => Some(s@),
                None => None,
            },
            guide: self.guide,
            pointer: self.pointer,
        }
    }
}

/// What combat asks of the app once it has taken a frame's input.
#[derive(Debug, Clone, Copy, PartialEq, Eq, Structural)]
pub enum Handover {
    /// The duel goes on.
    Stay,
    /// The duel is decided: hold the table for the last hit marker, then
    /// hand this outcome over.
    Leave(CombatOutcome),
    /// Hand this outcome over at once.
    Now(CombatOutcome),
}

/// A generator state rotated left by seventeen bits.
pub open spec fn rotated(seed: u64) -> u64 {
    (seed << 17u64) | (seed >> 47u64)
}

/// The duel the Arcade deals: a fixed deal on both sides of the table, a
/// fresh Stack, a coin that can't lose, and nothing the run has picked up.
pub open spec fn arcade_duel(encounter: Encounter) -> DuelModel {
    let dealt = opening(tutorial_cards(), STARTING_STACK, 5, encounter.enemy).refilled().with_dealt();
    let fixed = (DuelModel { fixed: Some(tutorial_row()), ..dealt }).with_dealt();
    DuelModel { coin: Coin { player_pct: 100, best_of: 1 }, ..fixed }
}

/// The duel a run deals: everything the run has picked up lands here, in one
/// place. The deck the rewards built, shuffled off the seed; the Plays and
/// Blinds the perks bought; the coin Slotz rigged; and whatever is left of
/// the Loaded Dice.
pub open spec fn run_duel(encounter: Encounter, run: &RunState, seed: u64) -> DuelModel {
    let enemy = crate::run::Enemy { blinds: blinds_for(run.perks@, encounter.enemy.blinds), ..encounter.enemy };
    let dealt = opening(shuffle(run.deck@, seed).0, run.stack, plays_for(run.perks@), enemy).refilled().with_dealt();
    let seeded = (DuelModel { rng: rotated(seed) | 1, ..dealt }).with_dealt();
    DuelModel { coin: perks_coin(run.perks@), dice_left: dice_in(run.items@) as u8, ..seeded }
}

/// What a run needs to be for a duel to be dealt from it: ordinary cards,
/// and no more Loaded Dice than a pocket can count.
pub open spec fn run_fits(run: &RunState) -> bool {
    &&& all_small(run.deck@)
    &&& dice_in(run.items@) <= u8::MAX
}

/// Whether a duel can be dealt from `run`.
pub fn run_can_deal(run: &RunState) -> (r: bool)
    ensures
        r == run_fits(run),
{
    let mut k: usize = 0;
    while k < run.deck.len()
        invariant
            k <= run.deck@.len(),
            all_small(run.deck@.take(k as int)),
        decreases run.deck@.len() - k,
    {
        if run.deck[k].face_value > crate::duel::FACE_LIMIT {
            assert(!crate::duel::small(run.deck@[k as int]));
            return false;
        }
        assert(all_small(run.deck@.take(k + 1))) by {
            assert forall|i: int| 0 <= i < k + 1 implies crate::duel::small(#[trigger] run.deck@.take(k + 1)[i]) by {
                if i < k {
                    assert(run.deck@.take(k + 1)[i] == run.deck@.take(k as int)[i]);
                }
            }
        }
        k = k + 1;
    }
    assert(run.deck@.take(k as int) =~= run.deck@);
    // The dice, counted up to one past what a pocket holds.
    let mut total: u32 = 0;
    let mut j: usize = 0;
    while j < run.items.len()
        invariant
            j <= run.items@.len(),
            total == if dice_in(run.items@.take(j as int)) > 256 { 256 } else { dice_in(run.items@.take(j as int)) },
        decreases run.items@.len() - j,
    {
        assert(run.items@.take(j + 1).drop_last() =~= run.items@.take(j as int));
        match run.items[j] {
            crate::run::Item::LoadedDice { hands_left } => {
                total = total + hands_left as u32;
                if total > 256 {
                    total = 256;
                }
            },
        }
        j = j + 1;
    }
    assert(run.items@.take(j as int) =~= run.items@);
    total <= 255
}

proof fn lemma_arcade_fits()
    ensures
        all_small(tutorial_cards()),
        crate::duel::fixed_small(tutorial_row()),
{
    assert forall|i: int| 0 <= i < tutorial_cards().len() implies crate::duel::small(#[trigger] tutorial_cards()[i]) by {
        assert(0 <= crate::run::tutorial_order()[i] < 18);
    }
    assert forall|i: int| 0 <= i < tutorial_row().len() implies crate::duel::small(#[trigger] tutorial_row()[i].0) by {
    }
}

fn copy_cards(cards: &Vec<Card>) -> (r: Vec<Card>)
    ensures
        r@ == cards@,
{
    let mut r: Vec<Card> = Vec::new();
    let mut k: usize = 0;
    while k < cards.len()
        invariant
            k <= cards@.len(),
            r@ == cards@.take(k as int),
        decreases cards@.len() - k,
    {
        r.push(cards[k]);
        assert(r@ =~= cards@.take(k + 1));
        k = k + 1;
    }
    assert(r@ =~= cards@);
    r
}

/// Sit down at the table for `encounter`. `seed` shuffles the run's deck and,
/// turned, seeds the duel; the Arcade rolls nothing.
pub fn open_table(encounter: &Encounter, run: &RunState, seed: u64) -> (t: ActiveDuel)
    requires
        enemy_fits(encounter.enemy),
        run_fits(run),
    ensures
        t@.duel.wf(),
        t@.duel == if encounter.id == EncounterId::Tutorial {
            arcade_duel(*encounter)
        } else {
            run_duel(*encounter, run, seed)
        },
        t.id == encounter.id,
        t.enemy_name == encounter.enemy.name,
        t.awaiting_sacrifice is None,
        t.last_turn is None,
        t.notice is None,
        t.guide == if encounter.id == EncounterId::Tutorial {
            Some(Guide { step: 0 })
        } else {
            None
        },
        t.pointer is None,
{
    let tutorial = encounter.id == EncounterId::Tutorial;
    let duel = if tutorial {
        proof {
            lemma_arcade_fits();
        }
        let deck = crate::run::tutorial_deal();
        Duel::new(deck, STARTING_STACK, 5, encounter.enemy).with_opposing(crate::run::tutorial_opposing()).with_coin(
            Coin { player_pct: 100, best_of: 1 },
        )
    } else {
        let mut enemy = encounter.enemy;
        enemy.blinds = run.blinds(enemy.blinds);
        let deck = shuffled(copy_cards(&run.deck), seed);
        proof {
            lemma_shuffle(run.deck@, seed);
            assert forall|i: int| 0 <= i < deck@.len() implies crate::duel::small(#[trigger] deck@[i]) by {
                assert(deck@.to_multiset().count(deck@[i]) > 0) by {
                    broadcast use vstd::seq_lib::group_to_multiset_ensures;
                    assert(deck@.contains(deck@[i]));
                }
                assert(run.deck@.to_multiset().count(deck@[i]) > 0);
                broadcast use vstd::seq_lib::group_to_multiset_ensures;
                let j = choose|j: int| 0 <= j < run.deck@.len() && run.deck@[j] == deck@[i];
                assert(crate::duel::small(run.deck@[j]));
            }
        }
        let turned = (seed << 17u64) | (seed >> 47u64);
        Duel::new(deck, run.stack, run.plays(), enemy).with_seed(turned).with_coin(
            Coin::for_perks(run.perks.as_slice()),
        ).with_loaded_dice(run.loaded_dice())
    };
    ActiveDuel {
        duel,
        id: encounter.id,
        enemy_name: encounter.enemy.name,
        awaiting_sacrifice: None,
        last_turn: None,
        notice: None,
        guide: if tutorial { Some(Guide { step: 0 }) } else { None },
        pointer: None,
    }
}


// ---------------------------------------------------------------------------
// What the table says
// ---------------------------------------------------------------------------

/// What the table says when a card lands in the row: where it landed, what
/// the row reads so far, and what is left to cover. Not what the card was
/// "worth", which nothing knows until the rows turn over.
pub open spec fn placed_words(slot: int, hand: int, left: int) -> Seq<char> {
    "Slot "@ + decimal((slot + 1) as nat) + ". Your row reads "@ + decimal(hand as nat) + "."@ + if left == 0 {
        "  Enter to confirm."@
    } else {
        "  "@ + decimal(left as nat) + " more "@ + (if left == 1 {
            "card"@
        } else {
            "cards"@
        }) + " to cover the row."@
    }
}

/// What the table says when a card comes back out of the row.
pub open spec fn lifted_words(card: Card, hand: int) -> Seq<char> {
    card.name@ + " back in the Draw. Your row reads "@ + decimal(hand as nat) + "."@
}

/// Why a card could not go into the row, in the player's terms.
pub open spec fn refusal(e: PlayError) -> Seq<char> {
    match e {
        PlayError::RowIsFull => "Every slot you can cover is covered. Enter to confirm, or click a card in your row to take it back."@,
        PlayError::NoSuchCard => "No card there."@,
        PlayError::AllInNeedsSacrifice => "All In needs a sacrifice."@,
        PlayError::NotAllIn => "Only All In burns a card."@,
        PlayError::HandIsFinal => "The rows are down. Push (P) or Hold (H)."@,
    }
}

/// What the table says when a card lands in the row.
pub fn placed_line(duel: &Duel, slot: usize) -> (line: String)
    requires
        duel@.sound(),
        slot < 256,
    ensures
        line@ == placed_words(slot as int, duel@.hand(), duel@.plays_left()),
{
    let left = duel.plays_left();
    let hand = duel.hand();
    let mut line = String::from_str("Slot ");
    push_decimal(&mut line, slot as u64 + 1);
    line.append(". Your row reads ");
    push_decimal(&mut line, hand as u64);
    line.append(".");
    if left == 0 {
        line.append("  Enter to confirm.");
    } else {
        line.append("  ");
        push_decimal(&mut line, left as u64);
        line.append(" more ");
        if left == 1 {
            line.append("card");
        } else {
            line.append("cards");
        }
        line.append(" to cover the row.");
    }
    assert(line@ =~= placed_words(slot as int, duel@.hand(), duel@.plays_left()));
    line
}

fn lifted_line(card: Card, duel: &Duel) -> (line: String)
    requires
        duel@.sound(),
    ensures
        line@ == lifted_words(card, duel@.hand()),
{
    let hand = duel.hand();
    let mut line = String::from_str(card.name);
    line.append(" back in the Draw. Your row reads ");
    push_decimal(&mut line, hand as u64);
    line.append(".");
    assert(line@ =~= lifted_words(card, duel@.hand()));
    line
}

fn refusal_line(e: PlayError) -> (line: String)
    ensures
        line@ == refusal(e),
{
    match e {
        PlayError::RowIsFull => String::from_str(
            "Every slot you can cover is covered. Enter to confirm, or click a card in your row to take it back.",
        ),
        PlayError::NoSuchCard => String::from_str("No card there."),
        PlayError::AllInNeedsSacrifice => String::from_str("All In needs a sacrifice."),
        PlayError::NotAllIn => String::from_str("Only All In burns a card."),
        PlayError::HandIsFinal => String::from_str("The rows are down. Push (P) or Hold (H)."),
    }
}


// ---------------------------------------------------------------------------
// Taking a frame's input
// ---------------------------------------------------------------------------

/// The card a frame picks out of the Draw, counting from 1: a number key,
/// or else a click on a card in the Draw. From here on the two are the same.
pub open spec fn picked(keys: Seq<Key>, click: Option<CardSlot>) -> Option<u8> {
    match first_number(keys, 7) {
        Some(d) => Some(d),
        None => match click {
            Some(slot) => if slot.zone == Zone::Draw {
                Some((slot.index + 1) as u8)
            } else {
                None
            },
            None => None,
        },
    }
}

/// The slot a frame takes back out of the row: a click on a card in it, or
/// else Backspace for the last one placed.
pub open spec fn lifting(keys: Seq<Key>, click: Option<CardSlot>, row_len: int) -> Option<int> {
    if click matches Some(slot) && slot.zone == Zone::Row {
        Some(click->0.index as int)
    } else if pressed(keys, Key::Backspace) && row_len > 0 {
        Some(row_len - 1)
    } else {
        None
    }
}

/// The table after trying to put the card at `card` (burning `burn`) into
/// the row, with the line that says how it went.
pub open spec fn with_place(t: TableModel, card: int, burn: Option<int>) -> TableModel {
    match t.duel.place_error(card, burn) {
        Some(e) => TableModel { notice: Some(refusal(e)), ..t },
        None => {
            let d = t.duel.placed(card, burn);
            TableModel { duel: d, notice: Some(placed_words(t.duel.row.len() as int, d.hand(), d.plays_left())), ..t }
        },
    }
}

/// The table once a turn has resolved into `d` with `r`: the feedback line
/// makes way for the turn's story, and a decided duel is handed over.
pub open spec fn with_turn(t: TableModel, d: DuelModel, r: TurnResult) -> (TableModel, Handover) {
    let after = TableModel { duel: d, last_turn: Some(r), notice: None, ..t };
    match d.outcome() {
        Some(o) => (after, Handover::Leave(o)),
        None => (after, Handover::Stay),
    }
}

/// Everything a frame does once the glossary and the Arcade's script have
/// let it through: play a card, name a burn, take a card back, answer the
/// prompt, back out of an All In, or confirm the row.
pub open spec fn after_cards(t: TableModel, keys: Seq<Key>, digit: Option<u8>, lift: Option<int>) -> (TableModel, Handover) {
    if digit is Some {
        let index = digit->0 - 1;
        match t.awaiting_sacrifice {
            Some(all_in) => (with_place(TableModel { awaiting_sacrifice: None, ..t }, all_in as int, Some(index)), Handover::Stay),
            None => if t.duel.place_error(index, None) == Some(PlayError::AllInNeedsSacrifice) {
                (
                    TableModel {
                        awaiting_sacrifice: Some(index as usize),
                        notice: Some("All In. Which card do you burn?"@),
                        ..t
                    },
                    Handover::Stay,
                )
            } else {
                (with_place(t, index, None), Handover::Stay)
            },
        }
    } else if lift is Some && t.awaiting_sacrifice is None {
        let slot = lift->0;
        let after = match t.duel.lift_error(slot) {
            None => TableModel {
                duel: t.duel.lifted(slot),
                notice: Some(lifted_words(t.duel.row[slot].card, t.duel.lifted(slot).hand())),
                ..t
            },
            Some(PlayError::HandIsFinal) => TableModel { notice: Some(refusal(PlayError::HandIsFinal)), ..t },
            Some(_) => TableModel { notice: Some("Nothing in that slot."@), ..t },
        };
        (after, Handover::Stay)
    } else if t.duel.phase == Phase::PushYourLuck {
        if pressed(keys, Key::Letter('P')) {
            let (flip, rng) = coin_flip(t.duel.coin, t.duel.rng);
            let (d, r) = (DuelModel { rng, ..t.duel }).resolved(Some(flip));
            with_turn(t, d, r)
        } else if pressed(keys, Key::Letter('H')) {
            let (d, r) = t.duel.resolved(None);
            with_turn(t, d, r)
        } else {
            (t, Handover::Stay)
        }
    } else if pressed(keys, Key::Escape) && t.awaiting_sacrifice is Some {
        (TableModel { awaiting_sacrifice: None, notice: Some("Never mind."@), ..t }, Handover::Stay)
    } else if confirming(keys) {
        if t.awaiting_sacrifice is Some {
            (TableModel { notice: Some("Name the sacrifice first (1-7), or Esc."@), ..t }, Handover::Stay)
        } else {
            let (d, r) = t.duel.confirmed();
            match r {
                Some(res) => with_turn(t, d, res),
                None => (TableModel { duel: d, notice: None, ..t }, Handover::Stay),
            }
        }
    } else {
        (t, Handover::Stay)
    }
}

/// What one frame of input does to the table. While the glossary is up, or
/// about to be, the table hears nothing. In the Arcade, Esc leaves from
/// anywhere but a pending burn, and while the script runs only the input it
/// names does anything.
pub open spec fn after_input(t: TableModel, keys: Seq<Key>, click: Option<CardSlot>, info_open: bool) -> (TableModel, Handover) {
    if info_open || pressed(keys, Key::Letter('I')) {
        (t, Handover::Stay)
    } else {
        let digit = picked(keys, click);
        let lift = lifting(keys, click, t.duel.row.len() as int);
        match t.guide {
            Some(g) => if pressed(keys, Key::Escape) && t.awaiting_sacrifice is None {
                (t, Handover::Now(CombatOutcome::Lost))
            } else {
                let (g2, accepted) = guided(g, keys, digit);
                let t1 = TableModel { guide: Some(g2), ..t };
                if (keys.len() > 0 || digit is Some) && !accepted {
                    (TableModel { notice: None, ..t1 }, Handover::Stay)
                } else {
                    after_cards(t1, keys, digit, lift)
                }
            },
            None => after_cards(t, keys, digit, lift),
        }
    }
}

impl ActiveDuel {
    fn place_card(&mut self, card: usize, burn: Option<usize>)
        requires
            old(self)@.duel.wf(),
        ensures
            final(self)@ == with_place(old(self)@, card as int, index_of(burn)),
            final(self)@.duel.wf(),
    {
        let result = self.duel.place(card, burn);
        let notice = match result {
            Ok(slot) => placed_line(&self.duel, slot),
            Err(e) => refusal_line(e),
        };
        self.notice = Some(notice);
    }

    /// Take a resolved turn onto the table; hand a decided duel over, writing
    /// the Chips and whatever is left of the Loaded Dice back to the run.
    /// The Arcade never touches the run.
    fn settle(&mut self, result: TurnResult, run: &mut RunState) -> (h: Handover)
        requires
            old(self)@.duel.wf(),
        ensures
            (final(self)@, h) == with_turn(old(self)@, old(self)@.duel, result),
            final(self)@.duel.wf(),
            h matches Handover::Leave(_) && old(self).guide is None ==> {
                &&& final(run).stack == old(self)@.duel.player_chips
                &&& final(run).items@ == crate::run::dice_pocket(old(self)@.duel.dice_left)
                &&& final(run).deck@ == old(run).deck@
                &&& final(run).perks@ == old(run).perks@
            },
            !(h matches Handover::Leave(_) && old(self).guide is None) ==> {
                &&& final(run).stack == old(run).stack
                &&& final(run).items@ == old(run).items@
                &&& final(run).deck@ == old(run).deck@
                &&& final(run).perks@ == old(run).perks@
            },
    {
        self.last_turn = Some(result);
        self.notice = None;
        match self.duel.outcome() {
            Some(outcome) => {
                if self.guide.is_none() {
                    run.stack = self.duel.player_chips();
                    run.set_loaded_dice(self.duel.dice_left());
                }
                Handover::Leave(outcome)
            },
            None => Handover::Stay,
        }
    }

    fn after_cards(&mut self, keys: &[Key], digit: Option<u8>, lift: Option<usize>, run: &mut RunState) -> (h: Handover)
        requires
            old(self)@.duel.wf(),
            old(self)@.duel.room_to_resolve(),
            digit matches Some(d) ==> d >= 1,
        ensures
            (final(self)@, h) == after_cards(old(self)@, keys@, digit, match lift {
                Some(l) => Some(l as int),
                None => None,
            }),
            final(self)@.duel.wf(),
            h matches Handover::Leave(_) && old(self).guide is None ==> {
                &&& final(run).stack == final(self)@.duel.player_chips
                &&& final(run).items@ == crate::run::dice_pocket(final(self)@.duel.dice_left)
                &&& final(run).deck@ == old(run).deck@
                &&& final(run).perks@ == old(run).perks@
            },
            !(h matches Handover::Leave(_) && old(self).guide is None) ==> {
                &&& final(run).stack == old(run).stack
                &&& final(run).items@ == old(run).items@
                &&& final(run).deck@ == old(run).deck@
                &&& final(run).perks@ == old(run).perks@
            },
    {
        if let Some(d) = digit {
            let index = (d - 1) as usize;
            match self.awaiting_sacrifice {
                Some(all_in) => {
                    self.awaiting_sacrifice = None;
                    self.place_card(all_in, Some(index));
                },
                None => {
                    // Peek at the refusal first: an All In waits for its burn
                    // and changes nothing on the table meanwhile.
                    let draw = self.duel.draw();
                    if self.duel.phase() == Phase::Playing && self.duel.plays_left() > 0 && index < draw.len()
                        && draw[index].tell == Some(Tell::AllIn) {
                        self.awaiting_sacrifice = Some(index);
                        self.notice = Some(String::from_str("All In. Which card do you burn?"));
                    } else {
                        self.place_card(index, None);
                    }
                },
            }
            return Handover::Stay;
        }
        if let Some(slot) = lift {
            if self.awaiting_sacrifice.is_none() {
                let notice = match self.duel.lift(slot) {
                    Ok(card) => lifted_line(card, &self.duel),
                    Err(PlayError::HandIsFinal) => refusal_line(PlayError::HandIsFinal),
                    Err(_) => String::from_str("Nothing in that slot."),
                };
                self.notice = Some(notice);
                return Handover::Stay;
            }
        }
        if self.duel.phase() == Phase::PushYourLuck {
            let pushed = was_pressed(keys, Key::Letter('P'));
            let held = was_pressed(keys, Key::Letter('H'));
            if !pushed && !held {
                return Handover::Stay;
            }
            let result = if pushed {
                self.duel.push()
            } else {
                self.duel.hold()
            };
            return match result {
                Some(result) => self.settle(result, run),
                None => Handover::Stay,
            };
        }
        if was_pressed(keys, Key::Escape) && self.awaiting_sacrifice.is_some() {
            // Backing out of an All In before naming the sacrifice.
            self.awaiting_sacrifice = None;
            self.notice = Some(String::from_str("Never mind."));
            return Handover::Stay;
        }
        if confirm(keys) {
            if self.awaiting_sacrifice.is_some() {
                self.notice = Some(String::from_str("Name the sacrifice first (1-7), or Esc."));
                return Handover::Stay;
            }
            // Both rows turn over. A tie that pays nobody resolves here;
            // anything else puts the Push Your Luck prompt up.
            return match self.duel.confirm() {
                Some(result) => self.settle(result, run),
                None => {
                    self.notice = None;
                    Handover::Stay
                },
            };
        }
        Handover::Stay
    }

    /// Take one frame's input: the keys pressed this frame, in the order
    /// they were reported, and the card clicked, if any. `info_open` is
    /// whether the glossary is up.
    pub fn take_input(&mut self, keys: &[Key], click: Option<CardSlot>, info_open: bool, run: &mut RunState) -> (h: Handover)
        requires
            old(self)@.duel.wf(),
            old(self)@.duel.room_to_resolve(),
            click matches Some(slot) ==> slot.index < 255,
        ensures
            (final(self)@, h) == after_input(old(self)@, keys@, click, info_open),
            final(self)@.duel.wf(),
            h matches Handover::Leave(_) && old(self).guide is None ==> {
                &&& final(run).stack == final(self)@.duel.player_chips
                &&& final(run).items@ == crate::run::dice_pocket(final(self)@.duel.dice_left)
                &&& final(run).deck@ == old(run).deck@
                &&& final(run).perks@ == old(run).perks@
            },
            !(h matches Handover::Leave(_) && old(self).guide is None) ==> {
                &&& final(run).stack == old(run).stack
                &&& final(run).items@ == old(run).items@
                &&& final(run).deck@ == old(run).deck@
                &&& final(run).perks@ == old(run).perks@
            },
    {
        if info_open || info_toggled(keys) {
            return Handover::Stay;
        }
        let digit: Option<u8> = match card_key(keys) {
            Some(d) => Some(d),
            None => match click {
                Some(slot) => if slot.zone == Zone::Draw {
                    Some(slot.index as u8 + 1)
                } else {
                    None
                },
                None => None,
            },
        };
        let row_len = self.duel.row().len();
        let lift: Option<usize> = match click {
            Some(slot) if slot.zone == Zone::Row => Some(slot.index),
            _ => if was_pressed(keys, Key::Backspace) && row_len > 0 {
                Some(row_len - 1)
            } else {
                None
            },
        };
        proof {
            if let Some(d) = first_number(keys@, 7) {
                lemma_first_number_range(keys@, 7);
            }
        }
        if let Some(mut guide) = self.guide {
            if was_pressed(keys, Key::Escape) && self.awaiting_sacrifice.is_none() {
                return Handover::Now(CombatOutcome::Lost);
            }
            let accepted = guide.accepts(keys, digit);
            self.guide = Some(guide);
            if (keys.len() > 0 || digit.is_some()) && !accepted {
                self.notice = None;
                return Handover::Stay;
            }
        }
        self.after_cards(keys, digit, lift, run)
    }
}

/// While the glossary is up, or about to be, the table hears nothing.
pub proof fn lemma_the_glossary_takes_every_key(t: TableModel, keys: Seq<Key>, click: Option<CardSlot>, info_open: bool)
    requires
        info_open || pressed(keys, Key::Letter('I')),
    ensures
        after_input(t, keys, click, info_open) == (t, Handover::Stay),
{
}

/// While the Arcade's script runs, any input but the one it waits for does
/// nothing to the duel: the prompt stays up and the table stays as it was.
pub proof fn lemma_the_script_holds_the_table(t: TableModel, keys: Seq<Key>, click: Option<CardSlot>)
    requires
        t.guide matches Some(g) && g.step < script().len() && !answers(script()[g.step as int], keys, picked(keys, click)),
        keys.len() > 0 || picked(keys, click) is Some,
        !(pressed(keys, Key::Escape) && t.awaiting_sacrifice is None),
        !pressed(keys, Key::Letter('I')),
    ensures
        after_input(t, keys, click, false).0.duel == t.duel,
        after_input(t, keys, click, false).0.guide == t.guide,
        after_input(t, keys, click, false).1 == Handover::Stay,
{
}

/// An All In waits for its burn: picked out of the Draw, by key or by
/// click, it stays in the Draw while the table asks which card to burn, and
/// the next card picked is the one it burns as it goes down.
pub proof fn lemma_an_all_in_waits_for_its_burn(
    t: TableModel,
    keys: Seq<Key>,
    click: Option<CardSlot>,
    next_keys: Seq<Key>,
    next_click: Option<CardSlot>,
)
    requires
        t.guide is None,
        t.awaiting_sacrifice is None,
        t.duel.phase == Phase::Playing,
        t.duel.plays_left() > 0,
        !pressed(keys, Key::Letter('I')),
        picked(keys, click) matches Some(d) && 1 <= d <= t.duel.draw.len() && t.duel.draw[d - 1].tell == Some(Tell::AllIn),
        !pressed(next_keys, Key::Letter('I')),
        picked(next_keys, next_click) is Some,
    ensures
        ({
            let d = picked(keys, click)->0;
            let (t1, h1) = after_input(t, keys, click, false);
            let e = picked(next_keys, next_click)->0;
            let (t2, h2) = after_input(t1, next_keys, next_click, false);
            &&& t1.duel == t.duel
            &&& t1.awaiting_sacrifice == Some((d - 1) as usize)
            &&& t1.notice == Some("All In. Which card do you burn?"@)
            &&& h1 == Handover::Stay
            &&& t2 == with_place(TableModel { awaiting_sacrifice: None, ..t1 }, d - 1, Some(e - 1))
            &&& t2.awaiting_sacrifice is None
            &&& h2 == Handover::Stay
        }),
{
}

proof fn lemma_first_number_range(keys: Seq<Key>, top: u8)
    ensures
        first_number(keys, top) matches Some(n) ==> 1 <= n <= top,
    decreases keys.len(),
{
    if keys.len() > 0 {
        lemma_first_number_range(keys.drop_first(), top);
    }
}

} // verus!
