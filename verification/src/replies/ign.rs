//! Answers to the in-game-name commands.

use vstd::prelude::*;
use crate::game::{Game, display_of};
use crate::text::{decimal, decimal_text, join_with, joined, text_of_bytes, texts, utf8_lossy};

verus! {

/// The storage key of a member: the decimal form of the member's user id.
pub fn member_key(user_id: u64) -> (key: String)
    ensures
        key@ == decimal(user_id as nat),
{
    decimal_text(user_id as u128)
}

/// Reply to setting one's own name for a game.
pub fn ign_set_reply(game: Game, ign: &str) -> (reply: String)
    ensures
        reply@ == display_of(game) + " IGN set to "@ + ign@ + "."@,
{
    let mut s = String::from_str(game.display());
    s.append(" IGN set to ");
    s.append(ign);
    s.append(".");
    s
}

/// One listed name: the game and the stored name, read as text.
pub open spec fn ign_line(game: Game, stored: Seq<u8>) -> Seq<char> {
    display_of(game) + ": "@ + utf8_lossy(stored)
}

/// Stored names, by game, as byte contents.
pub open spec fn stored_view(stored: Seq<(Game, Vec<u8>)>) -> Seq<(Game, Seq<u8>)> {
    stored.map_values(|p: (Game, Vec<u8>)| (p.0, p.1@))
}

/// The lines listing stored names, in the order given.
pub open spec fn ign_lines(stored: Seq<(Game, Seq<u8>)>) -> Seq<Seq<char>> {
    stored.map_values(|p: (Game, Seq<u8>)| ign_line(p.0, p.1))
}

/// `header` followed by one line per stored name, joined by newlines.
fn ign_listing(header: String, stored: &Vec<(Game, Vec<u8>)>) -> (listing: String)
    ensures
        listing@ == joined(seq![header@] + ign_lines(stored_view(stored@)), "\n"@),
{
    let mut lines: Vec<String> = Vec::new();
    lines.push(header);
    let n = stored.len();
    let mut i: usize = 0;
    while i < n
        invariant
            n == stored@.len(),
            i <= n,
            texts(lines@) == seq![header@] + ign_lines(stored_view(stored@)).take(i as int),
        decreases n - i,
    {
        let (game, bytes) = (stored[i].0, &stored[i].1);
        let mut line = String::from_str(game.display());
        line.append(": ");
        let name = text_of_bytes(bytes);
        line.append(name.as_str());
        let ghost before = lines@;
        lines.push(line);
        proof {
            let all = ign_lines(stored_view(stored@));
            assert(all.take(i as int + 1) =~= all.take(i as int).push(all[i as int]));
            assert(texts(lines@) =~= texts(before).push(lines@.last()@));
        }
        i = i + 1;
    }
    proof {
        let all = ign_lines(stored_view(stored@));
        assert(all.take(n as int) =~= all);
    }
    join_with(&lines, "\n")
}

/// Reply listing one's own names (`stored` holds, in game order, the names
/// found).
pub fn my_igns_reply(stored: &Vec<(Game, Vec<u8>)>) -> (reply: String)
    ensures
        stored@.len() == 0 ==> reply@ == "You have no IGNs set. Use /setign to add one."@,
        stored@.len() > 0 ==> reply@ == joined(
            seq!["Your IGNs:"@] + ign_lines(stored_view(stored@)),
            "\n"@,
        ),
{
    if stored.len() == 0 {
        String::from_str("You have no IGNs set. Use /setign to add one.")
    } else {
        ign_listing(String::from_str("Your IGNs:"), stored)
    }
}

/// Reply listing another member's names.
pub fn whois_reply(user_name: &str, stored: &Vec<(Game, Vec<u8>)>) -> (reply: String)
    ensures
        stored@.len() == 0 ==> reply@ == user_name@ + " has no IGNs set."@,
        stored@.len() > 0 ==> reply@ == joined(
            seq![user_name@ + "'s IGNs:"@] + ign_lines(stored_view(stored@)),
            "\n"@,
        ),
{
    if stored.len() == 0 {
        let mut s = String::from_str(user_name);
        s.append(" has no IGNs set.");
        s
    } else {
        let mut header = String::from_str(user_name);
        header.append("'s IGNs:");
        ign_listing(header, stored)
    }
}

/// Reply to removing one's own name for a game; `existed` tells whether one
/// was stored (and so has been removed).
pub fn ign_removed_reply(game: Game, existed: bool) -> (reply: String)
    ensures
        existed ==> reply@ == "Removed your "@ + display_of(game) + " IGN."@,
        !existed ==> reply@ == "No "@ + display_of(game) + " IGN found for your account."@,
{
    if existed {
        let mut s = String::from_str("Removed your ");
        s.append(game.display());
        s.append(" IGN.");
        s
    } else {
        let mut s = String::from_str("No ");
        s.append(game.display());
        s.append(" IGN found for your account.");
        s
    }
}

/// Reply refusing an elder-only command to someone without the role.
pub fn elder_only_reply() -> (reply: String)
    ensures
        reply@ == "You need the Elder role to use this command."@,
{
    String::from_str("You need the Elder role to use this command.")
}

/// The refusal owed to a caller of an elder-only command: the elder-only
/// reply unless the caller is an elder, who is refused nothing.
pub fn elder_refusal(is_elder: bool) -> (refusal: Option<String>)
    ensures
        !is_elder ==> (refusal matches Some(r) && r@ == "You need the Elder role to use this command."@),
        is_elder ==> refusal is None,
{
    if is_elder {
        None
    } else {
        Some(elder_only_reply())
    }
}

/// Reply to an elder setting a member's name for a game.
pub fn elder_set_reply(user_name: &str, game: Game, ign: &str) -> (reply: String)
    ensures
        reply@ == "Set "@ + user_name@ + "'s "@ + display_of(game) + " IGN to "@ + ign@ + "."@,
{
    let mut s = String::from_str("Set ");
    s.append(user_name);
    s.append("'s ");
    s.append(game.display());
    s.append(" IGN to ");
    s.append(ign);
    s.append(".");
    s
}

/// Reply to an elder removing a member's name for a game.
pub fn elder_removed_reply(user_name: &str, game: Game, existed: bool) -> (reply: String)
    ensures
        existed ==> reply@ == "Removed "@ + user_name@ + "'s "@ + display_of(game) + " IGN."@,
        !existed ==> reply@ == user_name@ + " has no "@ + display_of(game) + " IGN set."@,
{
    if existed {
        let mut s = String::from_str("Removed ");
        s.append(user_name);
        s.append("'s ");
        s.append(game.display());
        s.append(" IGN.");
        s
    } else {
        let mut s = String::from_str(user_name);
        s.append(" has no ");
        s.append(game.display());
        s.append(" IGN set.");
        s
    }
}

} // verus!
