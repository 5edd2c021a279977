//! Where the artist's files are found for what is on the table: a card's
//! face by its name, a boss's portrait, a Tell's icon. Whether a file is
//! really there is the app's to ask.

use vstd::prelude::*;

use crate::run::{EncounterId, Tell};

verus! {

/// Which characters std counts as alphanumeric: the Unicode Alphabetic and
/// Numeric ones.
pub uninterp spec fn alphanumeric(c: char) -> bool;

/// The ASCII letters and digits.
pub open spec fn ascii_alphanumeric(c: char) -> bool {
    ||| ('a' <= c && c <= 'z')
    ||| ('A' <= c && c <= 'Z')
    ||| ('0' <= c && c <= '9')
}

/// `char::is_alphanumeric`. Its contract names the answer, and adds what
/// std's documentation gives for ASCII: there the alphanumerics are exactly
/// the letters and the digits. What it says of the rest of Unicode is left
/// to the name.
#[verifier::external_body]
fn is_alphanumeric(c: char) -> (r: bool)
    ensures
        r == alphanumeric(c),
        c <= '\u{7f}' ==> (r <==> ascii_alphanumeric(c)),
{
    c.is_alphanumeric()
}

/// `String::push`: the character goes on the end.
#[verifier::external_body]
fn push_char(s: &mut String, c: char)
    ensures
        final(s)@ == old(s)@.push(c),
{
    s.push(c)
}

/// An ASCII capital in lower case; every other character as it is.
pub open spec fn ascii_lower(c: char) -> char {
    if 'A' <= c && c <= 'Z' {
        ((c as u32) + 32) as char
    } else {
        c
    }
}

fn to_ascii_lower(c: char) -> (r: char)
    ensures
        r == ascii_lower(c),
{
    if 'A' <= c && c <= 'Z' {
        ((c as u8) + 32) as char
    } else {
        c
    }
}

/// Whether std counts a character alphanumeric: for ASCII, the letters and
/// the digits; beyond it, whatever the name says.
pub open spec fn counts_alphanumeric(c: char) -> bool {
    if c <= '\u{7f}' {
        ascii_alphanumeric(c)
    } else {
        alphanumeric(c)
    }
}

/// What a character of a name becomes in its file stem, given whether it is
/// alphanumeric: an alphanumeric in ASCII lower case, anything else a
/// separator.
pub open spec fn stem_char(c: char, alnum: bool) -> char {
    if alnum {
        ascii_lower(c)
    } else {
        '_'
    }
}

/// The stem of what is left of a name, each character with its verdict.
/// `started` says whether some word already stands in the stem; `pending`,
/// whether an underscore is owed before the next one.
pub open spec fn stem_from(s: Seq<char>, alnum: Seq<bool>, started: bool, pending: bool) -> Seq<char>
    decreases s.len(),
{
    if s.len() == 0 {
        Seq::empty()
    } else if stem_char(s[0], alnum[0]) == '_' {
        stem_from(s.drop_first(), alnum.drop_first(), started, started)
    } else {
        (if pending {
            seq!['_']
        } else {
            Seq::empty()
        }) + seq![stem_char(s[0], alnum[0])] + stem_from(s.drop_first(), alnum.drop_first(), true, false)
    }
}

/// A card's name as the file stem its face art is saved under: lower case,
/// one underscore between words, none at either end. "Bus Ticket Home" is
/// `bus_ticket_home`.
pub open spec fn stem(name: Seq<char>) -> Seq<char> {
    stem_from(name, name.map_values(|c: char| counts_alphanumeric(c)), false, false)
}

/// The stem of `name`, told which of its characters are alphanumeric.
pub fn stem_with(name: &str, alnum: &[bool]) -> (r: String)
    requires
        alnum@.len() == name@.len(),
    ensures
        r@ == stem_from(name@, alnum@, false, false),
{
    let n = name.unicode_len();
    let mut out = String::new();
    let mut started = false;
    let mut pending = false;
    let mut i: usize = 0;
    assert(name@.skip(0) =~= name@);
    assert(alnum@.skip(0) =~= alnum@);
    assert(out@ + stem_from(name@, alnum@, false, false) =~= stem_from(name@, alnum@, false, false));
    while i < n
        invariant
            n == name@.len(),
            alnum@.len() == n,
            i <= n,
            out@ + stem_from(name@.skip(i as int), alnum@.skip(i as int), started, pending) == stem_from(
                name@,
                alnum@,
                false,
                false,
            ),
        decreases n - i,
    {
        let c = name.get_char(i);
        let m = if alnum[i] {
            to_ascii_lower(c)
        } else {
            '_'
        };
        assert(name@.skip(i as int).drop_first() =~= name@.skip(i + 1));
        assert(alnum@.skip(i as int).drop_first() =~= alnum@.skip(i + 1));
        assert(name@.skip(i as int)[0] == c);
        assert(alnum@.skip(i as int)[0] == alnum@[i as int]);
        assert(m == stem_char(c, alnum@[i as int]));
        if m == '_' {
            pending = started;
        } else {
            if pending {
                push_char(&mut out, '_');
            }
            push_char(&mut out, m);
            started = true;
            pending = false;
        }
        i = i + 1;
    }
    assert(name@.skip(n as int) =~= Seq::<char>::empty());
    assert(out@ + Seq::<char>::empty() =~= out@);
    out
}

/// A card's name as the file stem of its face art.
pub fn face_stem(name: &str) -> (r: String)
    ensures
        r@ == stem(name@),
{
    let n = name.unicode_len();
    let mut alnum: Vec<bool> = Vec::new();
    let mut i: usize = 0;
    while i < n
        invariant
            n == name@.len(),
            i <= n,
            alnum@ == name@.take(i as int).map_values(|c: char| counts_alphanumeric(c)),
        decreases n - i,
    {
        let c = name.get_char(i);
        let a = is_alphanumeric(c);
        alnum.push(a);
        assert(alnum@ =~= name@.take(i + 1).map_values(|c: char| counts_alphanumeric(c)));
        i = i + 1;
    }
    assert(name@.take(n as int) =~= name@);
    stem_with(name, alnum.as_slice())
}

/// The portrait file of whoever sits across the table, for the three bosses;
/// the minions and the Arcade are a name and a stack of Chips.
pub fn portrait(id: EncounterId) -> (r: Option<&'static str>)
    ensures
        r == match id {
            EncounterId::Slotz => Some("portraits/slotz.png"),
            EncounterId::PitBoss => Some("portraits/pit_boss.png"),
            EncounterId::TheHouse => Some("portraits/the_house.png"),
            _ => None::<&'static str>,
        },
{
    match id {
        EncounterId::Slotz => Some("portraits/slotz.png"),
        EncounterId::PitBoss => Some("portraits/pit_boss.png"),
        EncounterId::TheHouse => Some("portraits/the_house.png"),
        EncounterId::FloorMinion | EncounterId::PitMinion | EncounterId::Tutorial => None,
    }
}

/// The icon file a Tell is drawn with.
pub fn tell_icon(tell: Tell) -> (r: &'static str)
    ensures
        r == match tell {
            Tell::Streak => "tells/streak.png",
            Tell::AllIn => "tells/all_in.png",
            Tell::Copycat => "tells/copycat.png",
            Tell::Flop => "tells/flop.png",
        },
{
    match tell {
        Tell::Streak => "tells/streak.png",
        Tell::AllIn => "tells/all_in.png",
        Tell::Copycat => "tells/copycat.png",
        Tell::Flop => "tells/flop.png",
    }
}

} // verus!
