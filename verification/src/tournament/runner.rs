//! The decisions of the scheduled tournament runner: when a phase ends, what
//! the next pairing is, and what a vote decides. The caller performs the
//! storage and chat work these decisions ask for.

use vstd::prelude::*;
use crate::text::texts;
use super::{
    ActiveMatch, ActiveMatchView, Match, MatchView, Tournament, TournamentState, TournamentView,
    matches_view, seeded,
};
use super::shuffle::{shuffle_entries, shuffled};

verus! {

/// Reaction that counts as a vote for the first contestant.
pub const REACTION_A: &'static str = "1️⃣";

/// Reaction that counts as a vote for the second contestant.
pub const REACTION_B: &'static str = "2️⃣";

// ---------------------------------------------------------------------------
// Ticks
// ---------------------------------------------------------------------------

/// What a scheduled tick has to do.
#[derive(Clone, Copy, Debug, PartialEq, Eq, Structural)]
pub enum TickAction {
    /// Nothing is running, or the current phase has not ended yet.
    Wait,
    /// The submission phase has ended.
    CloseSubmissions,
    /// A voting round has ended.
    AdvanceVoting,
}

pub open spec fn tick_action_of(t: Option<TournamentView>, now: u64) -> TickAction {
    match t {
        None => TickAction::Wait,
        Some(t) => if now < t.phase_ends_at {
            TickAction::Wait
        } else {
            match t.state {
                TournamentState::Submissions => TickAction::CloseSubmissions,
                TournamentState::Voting => TickAction::AdvanceVoting,
            }
        },
    }
}

pub open spec fn opt_view(t: Option<Tournament>) -> Option<TournamentView> {
    match t {
        Some(t) => Some(t@),
        None => None,
    }
}

/// Decides what a tick at time `now` does with the stored tournament, if any.
pub fn tick_action(t: &Option<Tournament>, now: u64) -> (action: TickAction)
    ensures
        action == tick_action_of(opt_view(*t), now),
{
    match t {
        None => TickAction::Wait,
        Some(t) => {
            if now < t.phase_ends_at {
                TickAction::Wait
            } else {
                match t.state {
                    TournamentState::Submissions => TickAction::CloseSubmissions,
                    TournamentState::Voting => TickAction::AdvanceVoting,
                }
            }
        },
    }
}

// ---------------------------------------------------------------------------
// Closing submissions
// ---------------------------------------------------------------------------

/// The tournament once submissions close with `entries` at time `now`: the
/// entries drawn with the tournament's id as seed and paired into the first
/// round, voting under way until a round length after `now`.
pub open spec fn closed(t: TournamentView, entries: Seq<String>, now: u64) -> TournamentView {
    TournamentView {
        state: TournamentState::Voting,
        entries: Seq::empty(),
        bracket: seeded(texts(shuffled(entries, t.id))),
        phase_ends_at: (now + t.round_secs) as u64,
        ..t
    }
}

/// Closes the submission phase with the collected `entries`. With fewer than
/// two entries nothing changes and `false` comes back (the tournament is to be
/// cancelled). Otherwise the entries are drawn with the tournament's id as
/// seed, paired into the first round, and voting starts, ending a round from
/// `now`.
pub fn close_submissions(t: &mut Tournament, entries: Vec<String>, now: u64) -> (started: bool)
    requires
        entries@.len() >= 2 ==> now + old(t).round_secs <= u64::MAX,
    ensures
        started == (entries@.len() >= 2),
        !started ==> final(t)@ == old(t)@,
        started ==> final(t)@ == closed(old(t)@, entries@, now),
{
    if entries.len() < 2 {
        return false;
    }
    let mut entries = entries;
    shuffle_entries(&mut entries, t.id);
    t.bracket = Tournament::seed_bracket(entries.as_slice());
    t.entries = Vec::new();
    t.state = TournamentState::Voting;
    t.phase_ends_at = now + t.round_secs;
    assert(t@.entries =~= Seq::<Seq<char>>::empty());
    true
}

// ---------------------------------------------------------------------------
// Settling the bracket
// ---------------------------------------------------------------------------

/// Where settling the bracket ends, and how many new rounds it paired.
pub struct Settled {
    pub entries: Seq<Seq<char>>,
    pub bracket: Seq<MatchView>,
    pub rounds: nat,
}

/// Byes at the head of the bracket are resolved (a lone contestant advances;
/// a pairing with nobody vanishes) until a pairing of two contestants heads it.
/// When the bracket runs out, the advanced contestants are paired into a new
/// round, unless at most one is left. `rounds` counts the rounds paired.
pub open spec fn settle(entries: Seq<Seq<char>>, bracket: Seq<MatchView>, rounds: nat) -> Settled
    decreases 3 * entries.len() + 4 * bracket.len(),
{
    if bracket.len() > 0 {
        let m = bracket[0];
        if m.a.len() > 0 && m.b.len() > 0 {
            Settled { entries, bracket, rounds }
        } else if m.a.len() > 0 {
            settle(entries.push(m.a), bracket.drop_first(), rounds)
        } else if m.b.len() > 0 {
            settle(entries.push(m.b), bracket.drop_first(), rounds)
        } else {
            settle(entries, bracket.drop_first(), rounds)
        }
    } else if entries.len() <= 1 {
        Settled { entries, bracket, rounds }
    } else {
        settle(Seq::empty(), seeded(entries), rounds + 1)
    }
}

/// ⌈log₂ n⌉ for n ≥ 1 (0 for n ≤ 1): how often n can be halved, rounding up,
/// before one is left.
pub open spec fn ceil_log2(n: nat) -> nat
    decreases n,
{
    if n <= 1 {
        0
    } else {
        1 + ceil_log2(((n + 1) / 2) as nat)
    }
}

proof fn lemma_ceil_log2_monotonic(m: nat, n: nat)
    requires
        m <= n,
    ensures
        ceil_log2(m) <= ceil_log2(n),
    decreases n,
{
    if m > 1 {
        lemma_ceil_log2_monotonic(((m + 1) / 2) as nat, ((n + 1) / 2) as nat);
    }
}

/// Law: one settling pairs at most ⌈log₂ N⌉ new rounds, N being the number of
/// names waiting or paired when it starts.
pub proof fn lemma_settle_rounds_bounded(entries: Seq<Seq<char>>, bracket: Seq<MatchView>, rounds: nat)
    ensures
        settle(entries, bracket, rounds).rounds <= rounds + ceil_log2(entries.len() + bracket.len()),
    decreases 3 * entries.len() + 4 * bracket.len(),
{
    if bracket.len() > 0 {
        let m = bracket[0];
        let rest = bracket.drop_first();
        if m.a.len() > 0 && m.b.len() > 0 {
        } else if m.a.len() > 0 {
            lemma_settle_rounds_bounded(entries.push(m.a), rest, rounds);
        } else if m.b.len() > 0 {
            lemma_settle_rounds_bounded(entries.push(m.b), rest, rounds);
        } else {
            lemma_settle_rounds_bounded(entries, rest, rounds);
            lemma_ceil_log2_monotonic(entries.len() + rest.len(), entries.len() + bracket.len());
        }
    } else if entries.len() > 1 {
        assert(4 * ((entries.len() + 1) / 2) < 3 * entries.len());
        lemma_settle_rounds_bounded(Seq::empty(), seeded(entries), rounds + 1);
        assert(seeded(entries).len() == (entries.len() + 1) / 2);
    }
}

/// Brings the bracket to the point where its head is a pairing to vote on, or
/// it is empty with at most one contestant waiting. Returns whether a new round
/// was paired on the way (the caller stores the tournament then); at most
/// ⌈log₂ N⌉ rounds are paired, N being the names waiting or paired before.
pub fn settle_bracket(t: &mut Tournament) -> (reseeded: bool)
    ensures
        ({
            let s = settle(old(t)@.entries, old(t)@.bracket, 0);
            &&& final(t)@ == (TournamentView { entries: s.entries, bracket: s.bracket, ..old(t)@ })
            &&& reseeded == (s.rounds > 0)
            &&& s.rounds <= ceil_log2(old(t)@.entries.len() + old(t)@.bracket.len())
        }),
{
    let ghost goal = settle(old(t)@.entries, old(t)@.bracket, 0);
    proof {
        lemma_settle_rounds_bounded(old(t)@.entries, old(t)@.bracket, 0);
    }
    let mut reseeded = false;
    let ghost mut rounds: nat = 0;
    loop
        invariant
            settle(t@.entries, t@.bracket, rounds) == goal,
            reseeded == (rounds > 0),
            t@ == (TournamentView { entries: t@.entries, bracket: t@.bracket, ..old(t)@ }),
        ensures
            goal == (Settled { entries: t@.entries, bracket: t@.bracket, rounds }),
            reseeded == (rounds > 0),
            t@ == (TournamentView { entries: t@.entries, bracket: t@.bracket, ..old(t)@ }),
        decreases 3 * t@.entries.len() + 4 * t@.bracket.len(),
    {
        if t.bracket.len() > 0 {
            let a_named = !t.bracket[0].a.as_str().is_empty();
            let b_named = !t.bracket[0].b.as_str().is_empty();
            if a_named && b_named {
                assert(t@.bracket[0].a.len() > 0 && t@.bracket[0].b.len() > 0);
                break;
            }
            let ghost e0 = t@.entries;
            let ghost b0 = t@.bracket;
            let m = t.bracket.remove(0);
            assert(t@.bracket =~= b0.drop_first());
            if a_named {
                t.entries.push(m.a);
                assert(t@.entries =~= e0.push(b0[0].a));
            } else if b_named {
                t.entries.push(m.b);
                assert(t@.entries =~= e0.push(b0[0].b));
            }
        } else if t.entries.len() <= 1 {
            break;
        } else {
            let ghost e0 = t@.entries;
            proof {
                assert(4 * ((e0.len() + 1) / 2) < 3 * e0.len());
            }
            t.bracket = Tournament::seed_bracket(t.entries.as_slice());
            t.entries.clear();
            reseeded = true;
            proof {
                rounds = rounds + 1;
            }
            assert(t@.entries =~= Seq::<Seq<char>>::empty());
        }
    }
    reseeded
}

/// Takes the pairing at the head of the bracket.
pub fn take_next_match(t: &mut Tournament) -> (m: Match)
    requires
        old(t).bracket@.len() > 0,
    ensures
        m@ == old(t)@.bracket[0],
        final(t)@ == (TournamentView { bracket: old(t)@.bracket.drop_first(), ..old(t)@ }),
{
    let m = t.bracket.remove(0);
    assert(t@.bracket =~= old(t)@.bracket.drop_first());
    m
}

/// Records that pairing `m` is now put to a vote in message `message_id`.
pub fn begin_match(t: &mut Tournament, m: Match, message_id: u64)
    ensures
        final(t)@ == (TournamentView {
            current_match: Some(ActiveMatchView { message_id, a: m.a@, b: m.b@ }),
            ..old(t)@
        }),
{
    t.current_match = Some(ActiveMatch { message_id, a: m.a, b: m.b });
}

// ---------------------------------------------------------------------------
// Counting votes
// ---------------------------------------------------------------------------

/// The count of the first reaction listed with emoji `emoji`, or 0.
pub open spec fn votes_for(reactions: Seq<(Seq<char>, u64)>, emoji: Seq<char>) -> u64
    decreases reactions.len(),
{
    if reactions.len() == 0 {
        0
    } else if reactions[0].0 == emoji {
        reactions[0].1
    } else {
        votes_for(reactions.drop_first(), emoji)
    }
}

pub open spec fn reactions_view(r: Seq<(String, u64)>) -> Seq<(Seq<char>, u64)> {
    r.map_values(|p: (String, u64)| (p.0@, p.1))
}

/// Votes cast with `emoji`, read from a poll's reactions (emoji, count).
pub fn count_votes(reactions: &Vec<(String, u64)>, emoji: &str) -> (votes: u64)
    ensures
        votes == votes_for(reactions_view(reactions@), emoji@),
{
    let wanted = String::from_str(emoji);
    let n = reactions.len();
    assert(reactions_view(reactions@).skip(0) =~= reactions_view(reactions@));
    let mut i: usize = 0;
    while i < n
        invariant
            n == reactions@.len(),
            i <= n,
            wanted@ == emoji@,
            votes_for(reactions_view(reactions@), emoji@)
                == votes_for(reactions_view(reactions@).skip(i as int), emoji@),
        decreases n - i,
    {
        let ghost rest = reactions_view(reactions@).skip(i as int);
        assert(rest.drop_first() =~= reactions_view(reactions@).skip(i as int + 1));
        if reactions[i].0 == wanted {
            return reactions[i].1;
        }
        i = i + 1;
    }
    0
}

/// The outcome of a poll, from its reactions (`None` when the poll message is
/// gone): `None` if gone, `Some(None)` on a tie, else `Some(Some(winner))`.
pub fn tally_winner(active: &ActiveMatch, reactions: &Option<Vec<(String, u64)>>) -> (outcome: Option<Option<String>>)
    ensures
        match reactions {
            None => outcome is None,
            Some(rs) => {
                let va = votes_for(reactions_view(rs@), REACTION_A@);
                let vb = votes_for(reactions_view(rs@), REACTION_B@);
                &&& va == vb ==> outcome == Some(None::<String>)
                &&& va > vb ==> (outcome matches Some(Some(w)) && w@ == active.a@)
                &&& va < vb ==> (outcome matches Some(Some(w)) && w@ == active.b@)
            },
        },
{
    match reactions {
        None => None,
        Some(rs) => {
            let va = count_votes(rs, REACTION_A);
            let vb = count_votes(rs, REACTION_B);
            if va == vb {
                Some(None)
            } else if va > vb {
                Some(Some(active.a.clone()))
            } else {
                Some(Some(active.b.clone()))
            }
        },
    }
}

// ---------------------------------------------------------------------------
// Advancing a voting round
// ---------------------------------------------------------------------------

/// What follows a finished voting round.
#[derive(Debug)]
pub enum VotingStep {
    /// Go on with the next pairing.
    Continue,
    /// The poll was tied; the pairing goes back to the head of the bracket and
    /// is put to a vote again.
    Repoll(Match),
    /// The tournament is over; this contestant won it.
    Champion(String),
}

/// Whether the round's outcome ends the tournament: the poll had a winner, no
/// pairing is left and nobody else is waiting.
pub open spec fn crowns_champion(t: TournamentView, tally: Option<Option<Seq<char>>>) -> bool {
    &&& t.current_match is Some
    &&& tally matches Some(Some(_))
    &&& t.bracket.len() == 0
    &&& t.entries.len() == 0
}

pub open spec fn tally_view(tally: Option<Option<String>>) -> Option<Option<Seq<char>>> {
    match tally {
        None => None,
        Some(None) => Some(None),
        Some(Some(w)) => Some(Some(w@)),
    }
}

/// The tournament after a voting round with outcome `tally` (as
/// `tally_winner` gives it) closes at time `now`.
pub open spec fn advanced(t: TournamentView, tally: Option<Option<Seq<char>>>, now: u64) -> TournamentView {
    let next = (now + t.round_secs) as u64;
    match t.current_match {
        None => TournamentView { phase_ends_at: next, ..t },
        Some(m) => match tally {
            None => TournamentView {
                entries: t.entries.push(m.a),
                current_match: None,
                phase_ends_at: next,
                ..t
            },
            Some(None) => TournamentView {
                bracket: seq![MatchView { a: m.a, b: m.b }] + t.bracket,
                current_match: None,
                phase_ends_at: next,
                ..t
            },
            Some(Some(w)) => if t.bracket.len() == 0 && t.entries.len() == 0 {
                TournamentView { entries: seq![w], current_match: None, ..t }
            } else if t.bracket.len() == 0 {
                TournamentView {
                    entries: Seq::empty(),
                    bracket: seeded(t.entries.push(w)),
                    current_match: None,
                    phase_ends_at: next,
                    ..t
                }
            } else {
                TournamentView {
                    entries: t.entries.push(w),
                    current_match: None,
                    phase_ends_at: next,
                    ..t
                }
            },
        },
    }
}

/// Whether the outcome ends the tournament (see `crowns_champion`).
pub fn ends_tournament(t: &Tournament, tally: &Option<Option<String>>) -> (ends: bool)
    ensures
        ends == crowns_champion(t@, tally_view(*tally)),
        ends == (t.current_match is Some && (*tally matches Some(Some(_))) && t.bracket@.len() == 0
            && t.entries@.len() == 0),
{
    t.current_match.is_some() && t.bracket.len() == 0 && t.entries.len() == 0 && match tally {
        Some(Some(_)) => true,
        _ => false,
    }
}

/// Closes a voting round with outcome `tally`: a gone poll advances the first
/// contestant, a tie sends the pairing back to a new poll, a winner advances;
/// a new round is paired when the bracket is used up. Except when the winner
/// takes the tournament, the next round ends a round length after `now`.
pub fn advance_voting(t: &mut Tournament, tally: Option<Option<String>>, now: u64) -> (step: VotingStep)
    requires
        !crowns_champion(old(t)@, tally_view(tally)) ==> now + old(t).round_secs <= u64::MAX,
    ensures
        final(t)@ == advanced(old(t)@, tally_view(tally), now),
        match step {
            VotingStep::Continue => old(t).current_match is None || !(tally matches Some(None)),
            VotingStep::Repoll(m) => (old(t).current_match matches Some(c)
                && tally matches Some(None) && m.a@ == c.a@ && m.b@ == c.b@),
            VotingStep::Champion(w) => crowns_champion(old(t)@, tally_view(tally))
                && (tally matches Some(Some(x)) && w@ == x@),
        },
        (step is Champion) == crowns_champion(old(t)@, tally_view(tally)),
        (step is Champion) == (old(t).current_match is Some && (tally matches Some(Some(_)))
            && old(t).bracket@.len() == 0 && old(t).entries@.len() == 0),
        !(step is Champion) ==> final(t).phase_ends_at == now + old(t).round_secs,
        step matches VotingStep::Champion(w) ==> (final(t).entries@.len() == 1
            && final(t).entries@[0]@ == w@ && final(t).bracket@.len() == 0
            && final(t).current_match is None),
{
    let ghost t0 = t@;
    match t.current_match.take() {
        None => {
            t.phase_ends_at = now + t.round_secs;
            VotingStep::Continue
        },
        Some(active) => match tally {
            None => {
                t.entries.push(active.a);
                assert(t@.entries =~= t0.entries.push(active.a@));
                t.phase_ends_at = now + t.round_secs;
                VotingStep::Continue
            },
            Some(None) => {
                let again = Match { a: active.a.clone(), b: active.b.clone() };
                t.bracket.insert(0, Match { a: active.a, b: active.b });
                assert(t@.bracket =~= seq![MatchView { a: t0.current_match->0.a, b: t0.current_match->0.b }] + t0.bracket);
                t.phase_ends_at = now + t.round_secs;
                VotingStep::Repoll(again)
            },
            Some(Some(winner)) => {
                let crowned = t.bracket.len() == 0 && t.entries.len() == 0;
                let w2 = winner.clone();
                t.entries.push(winner);
                assert(t@.entries =~= t0.entries.push(w2@));
                if crowned {
                    VotingStep::Champion(w2)
                } else {
                    if t.bracket.len() == 0 {
                        t.bracket = Tournament::seed_bracket(t.entries.as_slice());
                        t.entries.clear();
                        assert(t@.entries =~= Seq::<Seq<char>>::empty());
                    }
                    t.phase_ends_at = now + t.round_secs;
                    VotingStep::Continue
                }
            },
        },
    }
}

} // verus!
