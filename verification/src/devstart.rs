//! The dev entry point: start a run partway up the casino, with a pinned
//! seed and a pocket already full, so one encounter can be playtested on its
//! own. This is the command line's grammar; reading the arguments, printing
//! and installing what they ask for are the app's.
//!
//! ```text
//! --encounter pit-boss --seed 42 --with sixplays,dice
//! ```

use vstd::prelude::*;

use crate::run::{
    Card, EncounterId, Perk, Reward, RunState, dice_in, lemma_dice_round_trip, pit_pack, starter_cards,
    streak_reward, with_perk, LOADED_DICE_HANDS, STARTING_STACK,
};
use crate::words::same_text;

verus! {

/// What `--help` prints.
pub const USAGE: &'static str = "\
All In — dev entry point (debug builds only)

    cargo run -- [--encounter <id>] [--seed <n>] [--with <a,b,...>]

    --encounter <id>  Sit down at this encounter instead of walking from the
                      Lobby: floor-minion, slotz, pit-minion, pit-boss,
                      the-house.
    --seed <n>        Pin the shuffle, the deal and the Push Your Luck coin,
                      so a Hand that went wrong can be played again.
    --with <a,b,...>  Rewards to start holding, as if they had been won:
                      dice, streak, pyl, sixplays, pack. Needs --encounter,
                      since starting in the Lobby ends the run.
    --help            This.

With no flags the game opens in the Lobby, exactly as it ships.";

/// The pack of cards the Pit Boss reward rolls has to come from somewhere
/// even when no seed is given. Any constant will do; it only has to be the
/// same one every launch.
pub const DEFAULT_REWARD_SEED: u64 = 0x5eed_1337_c0ff_ee01;

// ---------------------------------------------------------------------------
// Reading text
// ---------------------------------------------------------------------------

pub open spec fn is_digit(c: char) -> bool {
    '0' <= c && c <= '9'
}

/// What a run of decimal digits is worth.
pub open spec fn digits_value(s: Seq<char>) -> nat
    decreases s.len(),
{
    if s.len() == 0 {
        0
    } else {
        digits_value(s.drop_last()) * 10 + ((s.last() as int) - ('0' as int)) as nat
    }
}

/// Every character a decimal digit.
pub open spec fn all_digits(s: Seq<char>) -> bool {
    forall|i: int| 0 <= i < s.len() ==> is_digit(#[trigger] s[i])
}

/// A number's text without its `+`, if it has one.
pub open spec fn unsigned_part(s: Seq<char>) -> Seq<char> {
    if s.len() > 0 && s[0] == '+' {
        s.drop_first()
    } else {
        s
    }
}

/// A whole number as the standard library reads one: an optional `+`, then
/// one digit or more, and no more than a `u64` holds.
pub open spec fn number_in(s: Seq<char>) -> Option<u64> {
    let digits = unsigned_part(s);
    if digits.len() > 0 && all_digits(digits) && digits_value(digits) <= u64::MAX {
        Some(digits_value(digits) as u64)
    } else {
        None
    }
}

proof fn lemma_digits_value_grows(s: Seq<char>, i: int)
    requires
        0 <= i <= s.len(),
        all_digits(s),
    ensures
        digits_value(s.take(i)) <= digits_value(s),
    decreases s.len() - i,
{
    if i < s.len() {
        lemma_digits_value_grows(s, i + 1);
        assert(s.take(i + 1).drop_last() =~= s.take(i));
        assert(digits_value(s.take(i)) <= digits_value(s.take(i + 1)));
    } else {
        assert(s.take(i) =~= s);
    }
}

/// Read a whole number, the way `str::parse::<u64>` does.
pub fn read_number(s: &str) -> (r: Option<u64>)
    ensures
        r == number_in(s@),
{
    let n = s.unicode_len();
    let mut start: usize = 0;
    if n > 0 && s.get_char(0) == '+' {
        start = 1;
    }
    let ghost digits = unsigned_part(s@);
    assert(digits =~= s@.skip(start as int));
    if start >= n {
        return None;
    }
    let mut value: u64 = 0;
    let mut k: usize = start;
    while k < n
        invariant
            n == s@.len(),
            start <= k <= n,
            digits =~= s@.skip(start as int),
            digits == unsigned_part(s@),
            forall|j: int| start <= j < k ==> is_digit(#[trigger] s@[j]),
            value as nat == digits_value(digits.take(k - start)),
        decreases n - k,
    {
        let c = s.get_char(k);
        assert(digits[k - start] == c);
        if !('0' <= c && c <= '9') {
            proof {
                assert(!is_digit(digits[k - start]));
            }
            return None;
        }
        let d = (c as u32 - '0' as u32) as u64;
        proof {
            assert(digits.take(k + 1 - start).drop_last() =~= digits.take(k - start));
            assert(digits.take(k + 1 - start).last() == c);
            assert(digits_value(digits.take(k + 1 - start)) == value * 10 + d);
        }
        let times = value.checked_mul(10);
        match times {
            Some(t) => {
                match t.checked_add(d) {
                    Some(v) => {
                        value = v;
                    },
                    None => {
                        proof {
                            if all_digits(digits) {
                                lemma_digits_value_grows(digits, k + 1 - start);
                            }
                        }
                        return None;
                    },
                }
            },
            None => {
                proof {
                    if all_digits(digits) {
                        lemma_digits_value_grows(digits, k + 1 - start);
                    }
                }
                return None;
            },
        }
        k = k + 1;
    }
    assert(digits.take(k - start) =~= digits);
    Some(value)
}


/// Whitespace as the standard library's `trim` reads it: Unicode's
/// White_Space characters.
pub open spec fn is_space(c: char) -> bool {
    ||| ('\t' <= c && c <= '\r')
    ||| c == ' '
    ||| c == '\u{85}'
    ||| c == '\u{a0}'
    ||| c == '\u{1680}'
    ||| ('\u{2000}' <= c && c <= '\u{200a}')
    ||| c == '\u{2028}'
    ||| c == '\u{2029}'
    ||| c == '\u{202f}'
    ||| c == '\u{205f}'
    ||| c == '\u{3000}'
}

fn space_char(c: char) -> (r: bool)
    ensures
        r == is_space(c),
{
    ('\t' <= c && c <= '\r') || c == ' ' || c == '\u{85}' || c == '\u{a0}' || c == '\u{1680}' || ('\u{2000}' <= c
        && c <= '\u{200a}') || c == '\u{2028}' || c == '\u{2029}' || c == '\u{202f}' || c == '\u{205f}' || c
        == '\u{3000}'
}

/// Text with its leading whitespace gone.
pub open spec fn trim_start(s: Seq<char>) -> Seq<char>
    decreases s.len(),
{
    if s.len() > 0 && is_space(s[0]) {
        trim_start(s.drop_first())
    } else {
        s
    }
}

/// Text with its trailing whitespace gone.
pub open spec fn trim_end(s: Seq<char>) -> Seq<char>
    decreases s.len(),
{
    if s.len() > 0 && is_space(s.last()) {
        trim_end(s.drop_last())
    } else {
        s
    }
}

/// Text with the whitespace at both ends gone.
pub open spec fn trimmed(s: Seq<char>) -> Seq<char> {
    trim_end(trim_start(s))
}

proof fn lemma_trim_start(s: Seq<char>, i: int)
    requires
        0 <= i <= s.len(),
        forall|j: int| 0 <= j < i ==> is_space(#[trigger] s[j]),
    ensures
        trim_start(s) == trim_start(s.skip(i)),
    decreases i,
{
    if i > 0 {
        assert(s.skip(1) =~= s.drop_first());
        lemma_trim_start(s.drop_first(), i - 1);
        assert(s.drop_first().skip(i - 1) =~= s.skip(i));
    } else {
        assert(s.skip(0) =~= s);
    }
}

proof fn lemma_trim_end(s: Seq<char>, i: int)
    requires
        0 <= i <= s.len(),
        forall|j: int| i <= j < s.len() ==> is_space(#[trigger] s[j]),
    ensures
        trim_end(s) == trim_end(s.take(i)),
    decreases s.len() - i,
{
    if i < s.len() {
        assert(s.take(s.len() - 1) =~= s.drop_last());
        lemma_trim_end(s.drop_last(), i);
        assert(s.drop_last().take(i) =~= s.take(i));
    } else {
        assert(s.take(i) =~= s);
    }
}

/// `text` with the whitespace at both ends gone.
pub fn trim(text: &str) -> (r: &str)
    ensures
        r@ == trimmed(text@),
{
    let n = text.unicode_len();
    let mut a: usize = 0;
    while a < n && space_char(text.get_char(a))
        invariant
            n == text@.len(),
            a <= n,
            forall|j: int| 0 <= j < a ==> is_space(#[trigger] text@[j]),
        decreases n - a,
    {
        a = a + 1;
    }
    proof {
        lemma_trim_start(text@, a as int);
        if a < n {
            assert(!is_space(text@.skip(a as int)[0]));
        }
    }
    let mut b: usize = n;
    while b > a && space_char(text.get_char(b - 1))
        invariant
            n == text@.len(),
            a <= b <= n,
            forall|j: int| b <= j < n ==> is_space(#[trigger] text@[j]),
        decreases b,
    {
        b = b - 1;
    }
    let rest = text.substring_char(a, b);
    proof {
        let started = text@.skip(a as int);
        assert(trim_start(text@) == started) by {
            if a < n {
                assert(started[0] == text@[a as int]);
            } else {
                assert(started.len() == 0);
            }
        }
        assert forall|j: int| b - a <= j < started.len() implies is_space(#[trigger] started[j]) by {
            assert(started[j] == text@[a + j]);
        }
        lemma_trim_end(started, b - a);
        assert(started.take(b - a) =~= text@.subrange(a as int, b as int));
        if b > a {
            assert(started.take(b - a).last() == text@[b - 1]);
        }
    }
    rest
}


/// Where `c` first turns up in `s`, if it does.
pub open spec fn first_index(s: Seq<char>, c: char) -> Option<int>
    decreases s.len(),
{
    if s.len() == 0 {
        None
    } else if s[0] == c {
        Some(0)
    } else {
        match first_index(s.drop_first(), c) {
            Some(i) => Some(i + 1),
            None => None,
        }
    }
}

proof fn lemma_first_index(s: Seq<char>, c: char, i: int)
    requires
        0 <= i <= s.len(),
        forall|j: int| 0 <= j < i ==> #[trigger] s[j] != c,
    ensures
        i < s.len() && s[i] == c ==> first_index(s, c) == Some(i),
        i == s.len() ==> first_index(s, c) is None,
        first_index(s, c) matches Some(k) ==> 0 <= k < s.len() && s[k] == c,
    decreases s.len(),
{
    if s.len() > 0 {
        if s[0] != c {
            assert forall|j: int| 0 <= j < i - 1 implies #[trigger] s.drop_first()[j] != c by {
                assert(s.drop_first()[j] == s[j + 1]);
            }
            if i > 0 {
                lemma_first_index(s.drop_first(), c, i - 1);
            } else {
                lemma_first_index(s.drop_first(), c, 0);
            }
        }
    }
}

/// Where `c` first turns up in `text`, if it does.
fn find_char(text: &str, c: char) -> (r: Option<usize>)
    ensures
        match r {
            Some(i) => first_index(text@, c) == Some(i as int),
            None => first_index(text@, c) is None,
        },
{
    let n = text.unicode_len();
    let mut k: usize = 0;
    while k < n
        invariant
            n == text@.len(),
            k <= n,
            forall|j: int| 0 <= j < k ==> #[trigger] text@[j] != c,
        decreases n - k,
    {
        if text.get_char(k) == c {
            proof {
                lemma_first_index(text@, c, k as int);
            }
            return Some(k);
        }
        k = k + 1;
    }
    proof {
        lemma_first_index(text@, c, k as int);
    }
    None
}

/// An argument split at its first `=`: `--flag value` and `--flag=value`
/// read the same way.
pub open spec fn split_flag(arg: Seq<char>) -> (Seq<char>, Option<Seq<char>>) {
    match first_index(arg, '=') {
        Some(i) => (arg.take(i), Some(arg.skip(i + 1))),
        None => (arg, None),
    }
}

/// The pieces of `s` between its commas, every one of them, empty or not.
pub open spec fn pieces(s: Seq<char>) -> Seq<Seq<char>>
    decreases s.len(),
{
    match first_index(s, ',') {
        Some(i) => if 0 <= i < s.len() {
            seq![s.take(i)] + pieces(s.skip(i + 1))
        } else {
            seq![s]
        },
        None => seq![s],
    }
}

/// The encounter the command line calls `name`.
pub open spec fn encounter_named(name: Seq<char>) -> Option<EncounterId> {
    if name == "floor-minion"@ {
        Some(EncounterId::FloorMinion)
    } else if name == "slotz"@ {
        Some(EncounterId::Slotz)
    } else if name == "pit-minion"@ {
        Some(EncounterId::PitMinion)
    } else if name == "pit-boss"@ {
        Some(EncounterId::PitBoss)
    } else if name == "the-house"@ {
        Some(EncounterId::TheHouse)
    } else {
        None
    }
}

/// The reward the command line calls `name`.
pub open spec fn reward_named(name: Seq<char>) -> Option<Reward> {
    if name == "dice"@ {
        Some(Reward::LoadedDice)
    } else if name == "streak"@ {
        Some(Reward::SlotzStreakCards)
    } else if name == "pyl"@ {
        Some(Reward::SlotzPylBestTwoOfThree)
    } else if name == "sixplays"@ {
        Some(Reward::PitBossSixPlays)
    } else if name == "pack"@ {
        Some(Reward::PitBossRandomCards)
    } else {
        None
    }
}

pub open spec fn no_such_encounter(name: Seq<char>) -> Seq<char> {
    "Nobody called `"@ + name + "` sits down in this casino."@
}

pub open spec fn no_such_reward(name: Seq<char>) -> Seq<char> {
    "There is no reward called `"@ + name + "`."@
}

pub open spec fn needs_value(flag: Seq<char>) -> Seq<char> {
    "`"@ + flag + "` needs a value after it."@
}

pub open spec fn not_a_number(given: Seq<char>) -> Seq<char> {
    "`--seed` wants a whole number, not `"@ + given + "`."@
}

pub open spec fn unknown_flag(flag: Seq<char>) -> Seq<char> {
    "`"@ + flag + "` is not a flag this game knows."@
}

/// A pocket with nowhere to start is a pocket that gets emptied: without an
/// encounter the game opens in the Lobby, and the Lobby ends the run.
pub open spec fn pocket_without_a_start() -> Seq<char> {
    "`--with` needs an `--encounter` to go with it: starting in the Lobby ends the run, and the Lobby is where the game opens without one."@
}

pub fn encounter(name: &str) -> (r: Result<EncounterId, String>)
    ensures
        match r {
            Ok(id) => encounter_named(name@) == Some(id),
            Err(e) => encounter_named(name@) is None && e@ == no_such_encounter(name@),
        },
{
    if same_text(name, "floor-minion") {
        Ok(EncounterId::FloorMinion)
    } else if same_text(name, "slotz") {
        Ok(EncounterId::Slotz)
    } else if same_text(name, "pit-minion") {
        Ok(EncounterId::PitMinion)
    } else if same_text(name, "pit-boss") {
        Ok(EncounterId::PitBoss)
    } else if same_text(name, "the-house") {
        Ok(EncounterId::TheHouse)
    } else {
        let mut e = String::from_str("Nobody called `");
        e.append(name);
        e.append("` sits down in this casino.");
        assert(e@ =~= no_such_encounter(name@));
        Err(e)
    }
}

pub fn reward(name: &str) -> (r: Result<Reward, String>)
    ensures
        match r {
            Ok(reward) => reward_named(name@) == Some(reward),
            Err(e) => reward_named(name@) is None && e@ == no_such_reward(name@),
        },
{
    if same_text(name, "dice") {
        Ok(Reward::LoadedDice)
    } else if same_text(name, "streak") {
        Ok(Reward::SlotzStreakCards)
    } else if same_text(name, "pyl") {
        Ok(Reward::SlotzPylBestTwoOfThree)
    } else if same_text(name, "sixplays") {
        Ok(Reward::PitBossSixPlays)
    } else if same_text(name, "pack") {
        Ok(Reward::PitBossRandomCards)
    } else {
        let mut e = String::from_str("There is no reward called `");
        e.append(name);
        e.append("`.");
        assert(e@ =~= no_such_reward(name@));
        Err(e)
    }
}


/// The rewards a `--with` list names, in order, or the first name it gets
/// wrong. Spaces around a name do not count.
pub open spec fn rewards_in(names: Seq<Seq<char>>) -> Result<Seq<Reward>, Seq<char>>
    decreases names.len(),
{
    if names.len() == 0 {
        Ok(Seq::empty())
    } else {
        match reward_named(trimmed(names[0])) {
            None => Err(no_such_reward(trimmed(names[0]))),
            Some(first) => match rewards_in(names.drop_first()) {
                Ok(rest) => Ok(seq![first] + rest),
                Err(e) => Err(e),
            },
        }
    }
}

/// `done` ahead of whatever the rest of a list comes to.
pub open spec fn after(done: Seq<Reward>, rest: Result<Seq<Reward>, Seq<char>>) -> Result<Seq<Reward>, Seq<char>> {
    match rest {
        Ok(more) => Ok(done + more),
        Err(e) => Err(e),
    }
}

/// Read a comma-separated list of rewards onto the end of `into`.
fn read_rewards(list: &str, into: &mut Vec<Reward>) -> (r: Result<(), String>)
    ensures
        match rewards_in(pieces(list@)) {
            Ok(named) => r is Ok && final(into)@ == old(into)@ + named,
            Err(e) => r matches Err(got) && got@ == e,
        },
{
    let mut rest: &str = list;
    assert(old(into)@ + Seq::<Reward>::empty() =~= old(into)@);
    loop
        invariant
            after(into@.skip(old(into)@.len() as int), rewards_in(pieces(rest@))) == rewards_in(pieces(list@)),
            old(into)@.len() <= into@.len(),
            into@.take(old(into)@.len() as int) == old(into)@,
        decreases rest@.len(),
    {
        let ghost done = into@.skip(old(into)@.len() as int);
        match find_char(rest, ',') {
            Some(i) => {
                proof {
                    lemma_first_index(rest@, ',', 0);
                }
                let piece = rest.substring_char(0, i);
                let name = trim(piece);
                assert(rest@.take(i as int) =~= piece@);
                match reward(name) {
                    Ok(one) => {
                        into.push(one);
                    },
                    Err(e) => {
                        return Err(e);
                    },
                }
                let n = rest.unicode_len();
                let next = rest.substring_char(i + 1, n);
                proof {
                    assert(next@ =~= rest@.skip(i + 1));
                    assert(into@.skip(old(into)@.len() as int) =~= done + seq![reward_named(trimmed(piece@))->0]);
                    assert(into@.take(old(into)@.len() as int) =~= old(into)@);
                    assert(pieces(rest@) =~= seq![rest@.take(i as int)] + pieces(rest@.skip(i + 1)));
                    assert((seq![rest@.take(i as int)] + pieces(rest@.skip(i + 1))).drop_first() =~= pieces(rest@.skip(i + 1)));
                    match rewards_in(pieces(next@)) {
                        Ok(more) => {
                            assert(done + seq![reward_named(trimmed(piece@))->0] + more =~= done + (seq![reward_named(trimmed(piece@))->0] + more));
                        },
                        Err(_) => {},
                    }
                }
                rest = next;
            },
            None => {
                let name = trim(rest);
                assert(pieces(rest@) =~= seq![rest@]);
                match reward(name) {
                    Ok(one) => {
                        into.push(one);
                        proof {
                            assert(seq![rest@].drop_first() =~= Seq::<Seq<char>>::empty());
                            assert(rewards_in(Seq::<Seq<char>>::empty()) == Ok::<Seq<Reward>, Seq<char>>(Seq::empty()));
                            assert(rewards_in(seq![rest@]) == Ok::<Seq<Reward>, Seq<char>>(seq![one] + Seq::<Reward>::empty()));
                            assert(into@ =~= old(into)@ + (done + seq![one]));
                            assert(into@.skip(old(into)@.len() as int) =~= done + seq![one]);
                            assert(done + (seq![one] + Seq::<Reward>::empty()) =~= done + seq![one]);
                        }
                        return Ok(());
                    },
                    Err(e) => {
                        return Err(e);
                    },
                }
            },
        }
    }
}


// ---------------------------------------------------------------------------
// The command line
// ---------------------------------------------------------------------------

/// What the command line asked for.
#[derive(Debug, Default, PartialEq, Eq)]
pub struct DevStart {
    pub encounter: Option<EncounterId>,
    pub seed: Option<u64>,
    pub rewards: Vec<Reward>,
}

/// What to do about it.
#[derive(Debug, PartialEq, Eq)]
pub enum Outcome {
    /// No flags: the game as it ships.
    Play,
    Start(DevStart),
    Usage,
}

/// A `DevStart` as plain values.
pub struct Reading {
    pub encounter: Option<EncounterId>,
    pub seed: Option<u64>,
    pub rewards: Seq<Reward>,
}

/// What the command line asked for, as plain values.
pub enum Asked {
    Play,
    Start(Reading),
    Usage,
}

impl View for DevStart {
    type V = Reading;

    open spec fn view(&self) -> Reading {
        Reading { encounter: self.encounter, seed: self.seed, rewards: self.rewards@ }
    }
}

/// The value belonging to the flag at `i`: what came after its `=`, or else
/// the next argument along; and where reading goes on from.
pub open spec fn value_at(args: Seq<Seq<char>>, i: int, flag: Seq<char>, inline: Option<Seq<char>>) -> Result<(Seq<char>, int), Seq<char>> {
    match inline {
        Some(v) => if v.len() > 0 {
            Ok((v, i + 1))
        } else {
            Err(needs_value(flag))
        },
        None => if i + 1 < args.len() && args[i + 1].len() > 0 {
            Ok((args[i + 1], i + 2))
        } else {
            Err(needs_value(flag))
        },
    }
}

/// Read the arguments from `i` on, with `dev` read so far: what they ask
/// for and whether one of them asked for the usage, or the first thing
/// wrong with them.
pub open spec fn read_from(args: Seq<Seq<char>>, i: int, dev: Reading) -> Result<(Reading, bool), Seq<char>>
    decreases args.len() - i,
{
    if i < 0 || i >= args.len() {
        Ok((dev, false))
    } else {
        let (flag, inline) = split_flag(args[i]);
        if flag == "--help"@ || flag == "-h"@ {
            Ok((dev, true))
        } else if flag == "--encounter"@ || flag == "--seed"@ || flag == "--with"@ {
            match value_at(args, i, flag, inline) {
                Err(e) => Err(e),
                Ok((v, next)) => if next <= i {
                    Ok((dev, false))
                } else if flag == "--encounter"@ {
                    match encounter_named(v) {
                        None => Err(no_such_encounter(v)),
                        Some(id) => read_from(args, next, Reading { encounter: Some(id), ..dev }),
                    }
                } else if flag == "--seed"@ {
                    match number_in(v) {
                        None => Err(not_a_number(v)),
                        Some(n) => read_from(args, next, Reading { seed: Some(n), ..dev }),
                    }
                } else {
                    match rewards_in(pieces(v)) {
                        Err(e) => Err(e),
                        Ok(rs) => read_from(args, next, Reading { rewards: dev.rewards + rs, ..dev }),
                    }
                },
            }
        } else {
            Err(unknown_flag(flag))
        }
    }
}

/// What a command line asks for. Any flag at all starts the game the dev
/// way; `--help` anywhere asks for the usage; a pocket with no encounter to
/// start at is refused.
pub open spec fn asked(args: Seq<Seq<char>>) -> Result<Asked, Seq<char>> {
    match read_from(args, 0, Reading { encounter: None, seed: None, rewards: Seq::empty() }) {
        Err(e) => Err(e),
        Ok((dev, usage)) => if usage {
            Ok(Asked::Usage)
        } else if dev.rewards.len() > 0 && dev.encounter is None {
            Err(pocket_without_a_start())
        } else if args.len() > 0 {
            Ok(Asked::Start(dev))
        } else {
            Ok(Asked::Play)
        },
    }
}

/// The arguments as plain text.
pub open spec fn texts(args: Seq<String>) -> Seq<Seq<char>> {
    args.map_values(|a: String| a@)
}

/// The value belonging to the flag at `i`.
fn value(args: &[String], i: usize, flag: &str, inline: Option<&str>) -> (r: Result<(String, usize), String>)
    requires
        i < args@.len(),
    ensures
        match value_at(texts(args@), i as int, flag@, match inline {
            Some(v) => Some(v@),
            None => None,
        }) {
            Ok((v, next)) => r matches Ok((got, at)) && got@ == v && at == next,
            Err(e) => r matches Err(got) && got@ == e,
        },
{
    let n = args.len();
    match inline {
        Some(v) => if v.unicode_len() > 0 {
            return Ok((String::from_str(v), i + 1));
        },
        None => if i < n - 1 {
            let v = args[i + 1].as_str();
            if v.unicode_len() > 0 {
                return Ok((String::from_str(v), i + 2));
            }
        },
    }
    let mut e = String::from_str("`");
    e.append(flag);
    e.append("` needs a value after it.");
    assert(e@ =~= needs_value(flag@));
    Err(e)
}


/// Read the command line, its arguments one per element the way a shell
/// hands them over: `--flag value` and `--flag=value` alike.
pub fn parse(args: &[String]) -> (r: Result<Outcome, String>)
    ensures
        match asked(texts(args@)) {
            Ok(Asked::Play) => r matches Ok(Outcome::Play),
            Ok(Asked::Usage) => r matches Ok(Outcome::Usage),
            Ok(Asked::Start(dev)) => r matches Ok(Outcome::Start(got)) && got@ == dev,
            Err(e) => r matches Err(got) && got@ == e,
        },
{
    let ghost argv = texts(args@);
    let ghost start = Reading { encounter: None, seed: None, rewards: Seq::empty() };
    let mut dev = DevStart { encounter: None, seed: None, rewards: Vec::new() };
    assert(dev@ == start);
    let n = args.len();
    let mut i: usize = 0;
    while i < n
        invariant
            n == args@.len(),
            argv == texts(args@),
            start == (Reading { encounter: None, seed: None, rewards: Seq::empty() }),
            i <= n,
            read_from(argv, i as int, dev@) == read_from(argv, 0, start),
        decreases n - i,
    {
        let arg = args[i].as_str();
        assert(arg@ == argv[i as int]);
        let len = arg.unicode_len();
        let (flag, inline): (&str, Option<&str>) = match find_char(arg, '=') {
            Some(k) => {
                proof {
                    lemma_first_index(arg@, '=', 0);
                }
                (arg.substring_char(0, k), Some(arg.substring_char(k + 1, len)))
            },
            None => (arg, None),
        };
        proof {
            let (f, v) = split_flag(arg@);
            assert(flag@ =~= f);
            if let Some(v) = v {
                assert(inline->0@ =~= v);
            }
        }
        if same_text(flag, "--help") || same_text(flag, "-h") {
            return Ok(Outcome::Usage);
        }
        let is_encounter = same_text(flag, "--encounter");
        let is_seed = same_text(flag, "--seed");
        let is_with = same_text(flag, "--with");
        if !(is_encounter || is_seed || is_with) {
            let mut e = String::from_str("`");
            e.append(flag);
            e.append("` is not a flag this game knows.");
            assert(e@ =~= unknown_flag(flag@));
            return Err(e);
        }
        let (given, next) = match value(args, i, flag, inline) {
            Ok(found) => found,
            Err(e) => {
                return Err(e);
            },
        };
        if is_encounter {
            match encounter(given.as_str()) {
                Ok(id) => {
                    dev.encounter = Some(id);
                },
                Err(e) => {
                    return Err(e);
                },
            }
        } else if is_seed {
            match read_number(given.as_str()) {
                Some(seed) => {
                    dev.seed = Some(seed);
                },
                None => {
                    let mut e = String::from_str("`--seed` wants a whole number, not `");
                    e.append(given.as_str());
                    e.append("`.");
                    assert(e@ =~= not_a_number(given@));
                    return Err(e);
                },
            }
        } else {
            match read_rewards(given.as_str(), &mut dev.rewards) {
                Ok(()) => {},
                Err(e) => {
                    return Err(e);
                },
            }
        }
        i = next;
    }
    if dev.rewards.len() > 0 && dev.encounter.is_none() {
        return Err(
            String::from_str(
                "`--with` needs an `--encounter` to go with it: starting in the Lobby ends the run, and the Lobby is where the game opens without one.",
            ),
        );
    }
    if n > 0 {
        Ok(Outcome::Start(dev))
    } else {
        Ok(Outcome::Play)
    }
}


// ---------------------------------------------------------------------------
// The pocket
// ---------------------------------------------------------------------------

/// The deck after winning `rewards` in order, from `deck`.
pub open spec fn deck_after(deck: Seq<Card>, rewards: Seq<Reward>, seed: u64) -> Seq<Card>
    decreases rewards.len(),
{
    if rewards.len() == 0 {
        deck
    } else {
        let before = deck_after(deck, rewards.drop_last(), seed);
        match rewards.last() {
            Reward::SlotzStreakCards => before + streak_reward(),
            Reward::PitBossRandomCards => before + pit_pack(seed),
            _ => before,
        }
    }
}

/// The perks after winning `rewards` in order, from none.
pub open spec fn perks_after(rewards: Seq<Reward>) -> Seq<Perk>
    decreases rewards.len(),
{
    if rewards.len() == 0 {
        Seq::empty()
    } else {
        let before = perks_after(rewards.drop_last());
        match rewards.last() {
            Reward::SlotzPylBestTwoOfThree => with_perk(before, Perk::PylBestTwoOfThree),
            Reward::PitBossSixPlays => with_perk(before, Perk::SixPlaysSteepBlinds),
            _ => before,
        }
    }
}

/// The Hands of Loaded Dice held after winning `rewards` in order, from
/// none: two a pair, and never more than a pocket counts.
pub open spec fn dice_after(rewards: Seq<Reward>) -> nat
    decreases rewards.len(),
{
    if rewards.len() == 0 {
        0
    } else {
        let before = dice_after(rewards.drop_last());
        match rewards.last() {
            Reward::LoadedDice => if before + LOADED_DICE_HANDS > u8::MAX {
                u8::MAX as nat
            } else {
                (before + LOADED_DICE_HANDS) as nat
            },
            _ => before,
        }
    }
}

/// A fresh run holding `rewards` as if they had been won, built through the
/// same door the game uses: one `RunState::apply` each, in order.
pub fn pocket(rewards: &[Reward], seed: u64) -> (run: RunState)
    ensures
        run.stack == STARTING_STACK,
        run.deck@ == deck_after(starter_cards(), rewards@, seed),
        run.perks@ == perks_after(rewards@),
        dice_in(run.items@) == dice_after(rewards@),
        dice_in(run.items@) <= u8::MAX,
{
    let mut run = RunState::new();
    let mut k: usize = 0;
    assert(rewards@.take(0) =~= Seq::<Reward>::empty());
    while k < rewards.len()
        invariant
            k <= rewards@.len(),
            run.stack == STARTING_STACK,
            run.deck@ == deck_after(starter_cards(), rewards@.take(k as int), seed),
            run.perks@ == perks_after(rewards@.take(k as int)),
            dice_in(run.items@) == dice_after(rewards@.take(k as int)),
            dice_in(run.items@) <= u8::MAX,
        decreases rewards@.len() - k,
    {
        let ghost before = run.items@;
        run.apply(rewards[k], seed);
        proof {
            assert(rewards@.take(k + 1).drop_last() =~= rewards@.take(k as int));
            assert(rewards@.take(k + 1).last() == rewards@[k as int]);
            match rewards@[k as int] {
                Reward::LoadedDice => {
                    let held = dice_in(before);
                    let now = if held + LOADED_DICE_HANDS > u8::MAX {
                        u8::MAX
                    } else {
                        (held + LOADED_DICE_HANDS) as u8
                    };
                    lemma_dice_round_trip(now);
                },
                _ => {},
            }
        }
        k = k + 1;
    }
    assert(rewards@.take(k as int) =~= rewards@);
    run
}


// ---------------------------------------------------------------------------
// What holds of every command line
// ---------------------------------------------------------------------------

/// Reading from the `i`th argument on is reading the arguments from there on
/// by themselves: nothing before it counts.
pub proof fn lemma_read_from_skips(args: Seq<Seq<char>>, i: int, dev: Reading)
    requires
        0 <= i <= args.len(),
    ensures
        read_from(args, i, dev) == read_from(args.skip(i), 0, dev),
    decreases args.len() - i,
{
    let tail = args.skip(i);
    if i < args.len() {
        assert(tail[0] == args[i]);
        let (flag, inline) = split_flag(args[i]);
        if flag == "--encounter"@ || flag == "--seed"@ || flag == "--with"@ {
            if i + 1 < args.len() {
                assert(tail[1] == args[i + 1]);
            }
            match value_at(args, i, flag, inline) {
                Err(_) => {},
                Ok((v, next)) => {
                    assert(value_at(tail, 0, flag, inline) == Ok::<(Seq<char>, int), Seq<char>>((v, next - i)));
                    assert(tail.skip(next - i) =~= args.skip(next));
                    let d2 = if flag == "--encounter"@ {
                        match encounter_named(v) {
                            Some(id) => Reading { encounter: Some(id), ..dev },
                            None => dev,
                        }
                    } else if flag == "--seed"@ {
                        match number_in(v) {
                            Some(n) => Reading { seed: Some(n), ..dev },
                            None => dev,
                        }
                    } else {
                        match rewards_in(pieces(v)) {
                            Ok(rs) => Reading { rewards: dev.rewards + rs, ..dev },
                            Err(_) => dev,
                        }
                    };
                    lemma_read_from_skips(args, next, d2);
                    lemma_read_from_skips(tail, next - i, d2);
                },
            }
        }
    }
}

proof fn lemma_first_equals(f: Seq<char>, v: Seq<char>)
    requires
        !f.contains('='),
    ensures
        first_index(f + seq!['='] + v, '=') == Some(f.len() as int),
        first_index(f, '=') is None,
        (f + seq!['='] + v).take(f.len() as int) == f,
        (f + seq!['='] + v).skip(f.len() + 1int) == v,
{
    let joined = f + seq!['='] + v;
    assert forall|j: int| 0 <= j < f.len() implies #[trigger] joined[j] != '=' by {
        assert(joined[j] == f[j]);
        if f[j] == '=' {
            assert(f.contains('='));
        }
    }
    assert(joined[f.len() as int] == '=');
    lemma_first_index(joined, '=', f.len() as int);
    assert forall|j: int| 0 <= j < f.len() implies #[trigger] f[j] != '=' by {
        if f[j] == '=' {
            assert(f.contains('='));
        }
    }
    lemma_first_index(f, '=', f.len() as int);
    assert(joined.take(f.len() as int) =~= f);
    assert(joined.skip(f.len() + 1int) =~= v);
}

/// `--flag value` and `--flag=value` read the same way, whatever comes
/// after them.
pub proof fn lemma_a_value_after_a_space_or_an_equals(f: Seq<char>, v: Seq<char>, rest: Seq<Seq<char>>)
    requires
        !f.contains('='),
        v.len() > 0,
    ensures
        asked(seq![f + seq!['='] + v] + rest) == asked(seq![f, v] + rest),
{
    let joined = seq![f + seq!['='] + v] + rest;
    let spaced = seq![f, v] + rest;
    let start = Reading { encounter: None, seed: None, rewards: Seq::empty() };
    lemma_first_equals(f, v);
    assert(joined[0] == f + seq!['='] + v);
    assert(spaced[0] == f);
    assert(spaced[1] == v);
    assert(split_flag(joined[0]) == (f, Some(v)));
    assert(split_flag(spaced[0]) == (f, None::<Seq<char>>));
    assert(joined.skip(1) =~= rest);
    assert(spaced.skip(2) =~= rest);
    let d2 = if f == "--encounter"@ {
        match encounter_named(v) {
            Some(id) => Reading { encounter: Some(id), ..start },
            None => start,
        }
    } else if f == "--seed"@ {
        match number_in(v) {
            Some(n) => Reading { seed: Some(n), ..start },
            None => start,
        }
    } else {
        match rewards_in(pieces(v)) {
            Ok(rs) => Reading { rewards: start.rewards + rs, ..start },
            Err(_) => start,
        }
    };
    lemma_read_from_skips(joined, 1, d2);
    lemma_read_from_skips(spaced, 2, d2);
}

/// A flag written out with its value: `--flag value` as two arguments, or
/// `--flag=value` as one when `joined`.
pub open spec fn written(flag: Seq<char>, v: Seq<char>, joined: bool) -> Seq<Seq<char>> {
    if joined {
        seq![flag + seq!['='] + v]
    } else {
        seq![flag, v]
    }
}

/// Flags written out one after another.
pub open spec fn written_all(flags: Seq<(Seq<char>, Seq<char>, bool)>) -> Seq<Seq<char>>
    decreases flags.len(),
{
    if flags.len() == 0 {
        Seq::empty()
    } else {
        written(flags[0].0, flags[0].1, flags[0].2) + written_all(flags.drop_first())
    }
}

/// Whether `flag` is one of the flags that take a value, and `v` a value it
/// reads without complaint.
pub open spec fn takes(flag: Seq<char>, v: Seq<char>) -> bool {
    &&& v.len() > 0
    &&& {
        ||| flag == "--encounter"@ && encounter_named(v) is Some
        ||| flag == "--seed"@ && number_in(v) is Some
        ||| flag == "--with"@ && rewards_in(pieces(v)) is Ok
    }
}

/// What reading `flag` with `v` does to what has been read so far.
pub open spec fn with_flag(dev: Reading, flag: Seq<char>, v: Seq<char>) -> Reading {
    if flag == "--encounter"@ {
        Reading { encounter: encounter_named(v), ..dev }
    } else if flag == "--seed"@ {
        Reading { seed: number_in(v), ..dev }
    } else {
        Reading { rewards: dev.rewards + rewards_in(pieces(v))->Ok_0, ..dev }
    }
}

/// The value the first `flag` in the list carries, if the list has one.
pub open spec fn value_of(flags: Seq<(Seq<char>, Seq<char>, bool)>, flag: Seq<char>) -> Option<Seq<char>>
    decreases flags.len(),
{
    if flags.len() == 0 {
        None
    } else if flags[0].0 == flag {
        Some(flags[0].1)
    } else {
        value_of(flags.drop_first(), flag)
    }
}

/// No flag in the list comes twice.
pub open spec fn flags_distinct(flags: Seq<(Seq<char>, Seq<char>, bool)>) -> bool {
    forall|i: int, j: int| 0 <= i < j < flags.len() ==> (#[trigger] flags[i]).0 != (#[trigger] flags[j]).0
}

pub open spec fn all_take(flags: Seq<(Seq<char>, Seq<char>, bool)>) -> bool {
    forall|i: int| 0 <= i < flags.len() ==> takes((#[trigger] flags[i]).0, flags[i].1)
}

proof fn lemma_flags_differ()
    ensures
        "--encounter"@ != "--seed"@,
        "--encounter"@ != "--with"@,
        "--seed"@ != "--with"@,
        "--encounter"@ != "--help"@,
        "--seed"@ != "--help"@,
        "--with"@ != "--help"@,
        "--encounter"@ != "-h"@,
        "--seed"@ != "-h"@,
        "--with"@ != "-h"@,
{
    reveal_strlit("--encounter");
    reveal_strlit("--seed");
    reveal_strlit("--with");
    reveal_strlit("--help");
    reveal_strlit("-h");
    assert("--seed"@[2] != "--with"@[2]);
    assert("--seed"@[2] != "--help"@[2]);
    assert("--with"@[2] != "--help"@[2]);
    assert("--encounter"@.len() != "--seed"@.len());
    assert("--encounter"@.len() != "--help"@.len());
    assert("--encounter"@.len() != "-h"@.len());
    assert("--seed"@.len() != "-h"@.len());
}

proof fn lemma_no_equals(flag: Seq<char>)
    requires
        flag == "--encounter"@ || flag == "--seed"@ || flag == "--with"@,
    ensures
        !flag.contains('='),
{
    reveal_strlit("--encounter");
    reveal_strlit("--seed");
    reveal_strlit("--with");
    if flag.contains('=') {
        let k = choose|k: int| 0 <= k < flag.len() && flag[k] == '=';
        assert(flag[k] == '=');
    }
}

/// Reading one well-written flag reads its value into what is read so far,
/// and goes on with the rest.
proof fn lemma_read_one(flag: Seq<char>, v: Seq<char>, joined: bool, rest: Seq<Seq<char>>, dev: Reading)
    requires
        takes(flag, v),
    ensures
        read_from(written(flag, v, joined) + rest, 0, dev) == read_from(rest, 0, with_flag(dev, flag, v)),
{
    lemma_no_equals(flag);
    lemma_first_equals(flag, v);
    lemma_flags_differ();
    let args = written(flag, v, joined) + rest;
    let d2 = with_flag(dev, flag, v);
    if joined {
        assert(args[0] == flag + seq!['='] + v);
        assert(split_flag(args[0]) == (flag, Some(v)));
        assert(args.skip(1) =~= rest);
        lemma_read_from_skips(args, 1, d2);
    } else {
        assert(args[0] == flag);
        assert(args[1] == v);
        assert(split_flag(args[0]) == (flag, None::<Seq<char>>));
        assert(args.skip(2) =~= rest);
        lemma_read_from_skips(args, 2, d2);
    }
}

proof fn lemma_read_all(flags: Seq<(Seq<char>, Seq<char>, bool)>, dev: Reading)
    requires
        all_take(flags),
    ensures
        read_from(written_all(flags), 0, dev) == Ok::<(Reading, bool), Seq<char>>((read_each(flags, dev), false)),
    decreases flags.len(),
{
    if flags.len() == 0 {
        assert(written_all(flags) =~= Seq::<Seq<char>>::empty());
    } else {
        let tail = flags.drop_first();
        assert(takes(flags[0].0, flags[0].1));
        assert forall|i: int| 0 <= i < tail.len() implies takes((#[trigger] tail[i]).0, tail[i].1) by {
            assert(tail[i] == flags[i + 1]);
        }
        lemma_read_one(flags[0].0, flags[0].1, flags[0].2, written_all(tail), dev);
        lemma_read_all(tail, with_flag(dev, flags[0].0, flags[0].1));
    }
}

/// What a list of flags reads into `dev`, one after another.
pub open spec fn read_each(flags: Seq<(Seq<char>, Seq<char>, bool)>, dev: Reading) -> Reading
    decreases flags.len(),
{
    if flags.len() == 0 {
        dev
    } else {
        read_each(flags.drop_first(), with_flag(dev, flags[0].0, flags[0].1))
    }
}

/// What distinct flags read, flag by flag.
pub open spec fn looked_up(flags: Seq<(Seq<char>, Seq<char>, bool)>, dev: Reading) -> Reading {
    Reading {
        encounter: match value_of(flags, "--encounter"@) {
            Some(v) => encounter_named(v),
            None => dev.encounter,
        },
        seed: match value_of(flags, "--seed"@) {
            Some(v) => number_in(v),
            None => dev.seed,
        },
        rewards: match value_of(flags, "--with"@) {
            Some(v) => dev.rewards + rewards_in(pieces(v))->Ok_0,
            None => dev.rewards,
        },
    }
}

proof fn lemma_read_each_looks_up(flags: Seq<(Seq<char>, Seq<char>, bool)>, dev: Reading)
    requires
        all_take(flags),
        flags_distinct(flags),
    ensures
        read_each(flags, dev) == looked_up(flags, dev),
    decreases flags.len(),
{
    lemma_flags_differ();
    if flags.len() > 0 {
        let tail = flags.drop_first();
        let f = flags[0].0;
        assert(takes(f, flags[0].1));
        assert forall|i: int| 0 <= i < tail.len() implies takes((#[trigger] tail[i]).0, tail[i].1) by {
            assert(tail[i] == flags[i + 1]);
        }
        assert forall|i: int, j: int| 0 <= i < j < tail.len() implies (#[trigger] tail[i]).0 != (#[trigger] tail[j]).0 by {
            assert(tail[i] == flags[i + 1]);
            assert(tail[j] == flags[j + 1]);
        }
        let d2 = with_flag(dev, f, flags[0].1);
        lemma_read_each_looks_up(tail, d2);
        lemma_value_not_in(tail, f, flags);
    }
}

proof fn lemma_value_not_in(tail: Seq<(Seq<char>, Seq<char>, bool)>, f: Seq<char>, flags: Seq<(Seq<char>, Seq<char>, bool)>)
    requires
        flags.len() > 0,
        tail == flags.drop_first(),
        f == flags[0].0,
        flags_distinct(flags),
    ensures
        value_of(tail, f) is None,
{
    lemma_value_found(tail, f);
    if value_of(tail, f) is Some {
        let k = choose|k: int| 0 <= k < tail.len() && tail[k].0 == f;
        assert(tail[k] == flags[k + 1]);
        assert(flags[0].0 != flags[k + 1].0);
    }
}

proof fn lemma_value_found(flags: Seq<(Seq<char>, Seq<char>, bool)>, f: Seq<char>)
    ensures
        value_of(flags, f) is Some ==> exists|k: int| 0 <= k < flags.len() && flags[k].0 == f,
    decreases flags.len(),
{
    if flags.len() > 0 && flags[0].0 != f {
        lemma_value_found(flags.drop_first(), f);
        if value_of(flags, f) is Some {
            let k = choose|k: int| 0 <= k < flags.drop_first().len() && flags.drop_first()[k].0 == f;
            assert(flags[k + 1].0 == f);
        }
    }
}

/// The flags can come in any order: two command lines that write the same
/// flags, none of them twice, with the same values, ask for the same thing,
/// each flag written either way and in whatever order. `parse` answers
/// with what `asked` says of its arguments, so it reads the two the same.
pub proof fn lemma_the_flags_can_come_in_any_order(
    a: Seq<(Seq<char>, Seq<char>, bool)>,
    b: Seq<(Seq<char>, Seq<char>, bool)>,
)
    requires
        all_take(a),
        all_take(b),
        flags_distinct(a),
        flags_distinct(b),
        forall|f: Seq<char>| value_of(a, f) == value_of(b, f),
    ensures
        asked(written_all(a)) == asked(written_all(b)),
{
    let start = Reading { encounter: None, seed: None, rewards: Seq::empty() };
    lemma_read_all(a, start);
    lemma_read_all(b, start);
    lemma_read_each_looks_up(a, start);
    lemma_read_each_looks_up(b, start);
    assert(value_of(a, "--encounter"@) == value_of(b, "--encounter"@));
    assert(value_of(a, "--seed"@) == value_of(b, "--seed"@));
    assert(value_of(a, "--with"@) == value_of(b, "--with"@));
    if a.len() > 0 {
        assert(value_of(a, a[0].0) is Some);
        assert(value_of(b, a[0].0) is Some);
        assert(b.len() > 0);
        assert(written_all(b).len() > 0);
        assert(written_all(a).len() > 0);
    } else if b.len() > 0 {
        assert(value_of(b, b[0].0) is Some);
        assert(value_of(a, b[0].0) is Some);
    }
    if a.len() == 0 {
        assert(written_all(a).len() == 0);
    }
    if b.len() == 0 {
        assert(written_all(b).len() == 0);
    }
}

} // verus!
