//! Answers to the tournament commands, and the posts of the tournament runner.

use vstd::prelude::*;
use crate::text::{decimal, decimal_text};
use crate::tournament::{ActiveMatchView, Tournament, TournamentState, TournamentView};
use crate::tournament::runner::{REACTION_A, REACTION_B};

verus! {

/// Reply refusing to start a tournament to someone without the Elder role.
pub fn start_denied_reply() -> (reply: String)
    ensures
        reply@ == "You need the Elder role to start a tournament."@,
{
    String::from_str("You need the Elder role to start a tournament.")
}

/// Reply refusing to cancel a tournament to someone without the Elder role.
pub fn cancel_denied_reply() -> (reply: String)
    ensures
        reply@ == "You need the Elder role to cancel a tournament."@,
{
    String::from_str("You need the Elder role to cancel a tournament.")
}

/// Reply refusing to start a second tournament.
pub fn already_running_reply() -> (reply: String)
    ensures
        reply@ == "A tournament is already running. Cancel it first with /tournament-cancel."@,
{
    String::from_str("A tournament is already running. Cancel it first with /tournament-cancel.")
}

/// Reply when no tournament is running.
pub fn no_tournament_reply() -> (reply: String)
    ensures
        reply@ == "No tournament is currently running."@,
{
    String::from_str("No tournament is currently running.")
}

/// Reply to a manual tick.
pub fn tick_done_reply() -> (reply: String)
    ensures
        reply@ == "Tick done."@,
{
    String::from_str("Tick done.")
}

/// The refusal owed to a request to start a tournament: non-elders are refused
/// first; an elder is refused while a tournament is `running`.
pub fn start_refusal(is_elder: bool, running: bool) -> (refusal: Option<String>)
    ensures
        !is_elder ==> (refusal matches Some(r) && r@ == "You need the Elder role to start a tournament."@),
        is_elder && running ==> (refusal matches Some(r)
            && r@ == "A tournament is already running. Cancel it first with /tournament-cancel."@),
        is_elder && !running ==> refusal is None,
{
    if !is_elder {
        Some(start_denied_reply())
    } else if running {
        Some(already_running_reply())
    } else {
        None
    }
}

/// The refusal owed to a request to cancel the tournament: non-elders are
/// refused first; an elder is refused when no tournament is `running`.
pub fn cancel_refusal(is_elder: bool, running: bool) -> (refusal: Option<String>)
    ensures
        !is_elder ==> (refusal matches Some(r) && r@ == "You need the Elder role to cancel a tournament."@),
        is_elder && !running ==> (refusal matches Some(r) && r@ == "No tournament is currently running."@),
        is_elder && running ==> refusal is None,
{
    if !is_elder {
        Some(cancel_denied_reply())
    } else if !running {
        Some(no_tournament_reply())
    } else {
        None
    }
}

/// The post announcing a new tournament in the polling channel.
pub fn announcement_text(topic: &str, submission_mins: u64) -> (text: String)
    ensures
        text@ == "**"@ + topic@ + "** tournament started! Post your entry in the thread below. You have "@
            + decimal(submission_mins as nat)
            + " minutes. One entry per person — your last message is used."@,
{
    let mut s = String::from_str("**");
    s.append(topic);
    s.append("** tournament started! Post your entry in the thread below. You have ");
    let mins = decimal_text(submission_mins as u128);
    s.append(mins.as_str());
    s.append(" minutes. One entry per person — your last message is used.");
    s
}

/// The name of the thread that collects submissions.
pub fn submission_thread_name(topic: &str) -> (name: String)
    ensures
        name@ == topic@ + " — submissions"@,
{
    let mut s = String::from_str(topic);
    s.append(" — submissions");
    s
}

/// Reply to the elder who started a tournament.
pub fn started_reply(topic: &str, submission_mins: u64) -> (reply: String)
    ensures
        reply@ == "Tournament \""@ + topic@ + "\" started. Submissions open for "@
            + decimal(submission_mins as nat) + " minutes."@,
{
    let mut s = String::from_str("Tournament \"");
    s.append(topic);
    s.append("\" started. Submissions open for ");
    let mins = decimal_text(submission_mins as u128);
    s.append(mins.as_str());
    s.append(" minutes.");
    s
}

/// Reply to cancelling a tournament.
pub fn cancelled_reply(topic: &str) -> (reply: String)
    ensures
        reply@ == "Tournament \""@ + topic@ + "\" cancelled."@,
{
    let mut s = String::from_str("Tournament \"");
    s.append(topic);
    s.append("\" cancelled.");
    s
}

/// Whole minutes left until `ends_at`, none once it has passed.
pub open spec fn minutes_left(ends_at: u64, now: u64) -> nat {
    (if now >= ends_at { 0 } else { (ends_at - now) as nat }) / 60
}

/// Law: the minutes reported are the whole minutes left before the deadline,
/// rounded down, and none once it has passed.
pub proof fn lemma_minutes_left_are_whole_minutes(ends_at: u64, now: u64)
    ensures
        now >= ends_at ==> minutes_left(ends_at, now) == 0,
        now < ends_at ==> minutes_left(ends_at, now) * 60 <= ends_at - now
            < (minutes_left(ends_at, now) + 1) * 60,
{
}

/// Pairings not yet decided in the running round.
pub open spec fn undecided(t: TournamentView) -> nat {
    t.bracket.len() + if t.current_match is Some { 1nat } else { 0nat }
}

/// The line naming the pairing under vote, if any.
pub open spec fn current_line(c: Option<ActiveMatchView>) -> Seq<char> {
    match c {
        Some(m) => "Current match: **"@ + m.a + "** vs **"@ + m.b + "**"@,
        None => Seq::empty(),
    }
}

/// How the tournament stands in its phase.
pub open spec fn phase_text(t: TournamentView, submissions: nat) -> Seq<char> {
    match t.state {
        TournamentState::Submissions => "Accepting submissions ("@ + decimal(submissions) + " so far)"@,
        TournamentState::Voting => "Voting — "@ + decimal(undecided(t)) + " match(es) remaining\n"@
            + current_line(t.current_match),
    }
}

/// Reply to a status query: the topic, the phase, and the minutes left in it.
/// `submissions` is the number of submissions stored so far.
pub fn status_reply(t: &Tournament, submissions: usize, now: u64) -> (reply: String)
    ensures
        reply@ == "**"@ + t.topic@ + "** — "@ + phase_text(t@, submissions as nat)
            + "\nPhase ends in "@ + decimal(minutes_left(t.phase_ends_at, now)) + " minute(s)."@,
{
    let phase = match t.state {
        TournamentState::Submissions => {
            let mut p = String::from_str("Accepting submissions (");
            let count = decimal_text(submissions as u128);
            p.append(count.as_str());
            p.append(" so far)");
            p
        },
        TournamentState::Voting => {
            let remaining: u128 = t.bracket.len() as u128 + if t.current_match.is_some() { 1u128 } else { 0u128 };
            let mut p = String::from_str("Voting — ");
            let count = decimal_text(remaining);
            p.append(count.as_str());
            p.append(" match(es) remaining\n");
            match &t.current_match {
                Some(m) => {
                    p.append("Current match: **");
                    p.append(m.a.as_str());
                    p.append("** vs **");
                    p.append(m.b.as_str());
                    p.append("**");
                },
                None => {},
            }
            p
        },
    };
    let secs_left = t.phase_ends_at.saturating_sub(now);
    let mins_left = secs_left / 60;
    let mut s = String::from_str("**");
    s.append(t.topic.as_str());
    s.append("** — ");
    s.append(phase.as_str());
    s.append("\nPhase ends in ");
    let mins = decimal_text(mins_left as u128);
    s.append(mins.as_str());
    s.append(" minute(s).");
    s
}

/// The post cancelling a tournament that drew fewer than two entries.
pub fn too_few_entries_text(topic: &str) -> (text: String)
    ensures
        text@ == "Tournament \""@ + topic@ + "\" cancelled — not enough submissions."@,
{
    let mut s = String::from_str("Tournament \"");
    s.append(topic);
    s.append("\" cancelled — not enough submissions.");
    s
}

/// The post closing submissions.
pub fn submissions_closed_text(topic: &str, entry_count: usize) -> (text: String)
    ensures
        text@ == "Submissions closed for **"@ + topic@ + "**. "@ + decimal(entry_count as nat)
            + " entries received. Starting bracket now!"@,
{
    let mut s = String::from_str("Submissions closed for **");
    s.append(topic);
    s.append("**. ");
    let count = decimal_text(entry_count as u128);
    s.append(count.as_str());
    s.append(" entries received. Starting bracket now!");
    s
}

/// The two voting lines of a poll: each reaction with its contestant.
pub open spec fn ballot_lines(a: Seq<char>, b: Seq<char>) -> Seq<char> {
    REACTION_A@ + " **"@ + a + "**\n"@ + REACTION_B@ + " **"@ + b + "**"@
}

fn append_ballot(s: &mut String, a: &str, b: &str)
    ensures
        final(s)@ == old(s)@ + ballot_lines(a@, b@),
{
    s.append(REACTION_A);
    s.append(" **");
    s.append(a);
    s.append("**\n");
    s.append(REACTION_B);
    s.append(" **");
    s.append(b);
    s.append("**");
    assert(final(s)@ =~= old(s)@ + ballot_lines(a@, b@));
}

/// The post putting a pairing to a vote.
pub fn matchup_text(topic: &str, a: &str, b: &str) -> (text: String)
    ensures
        text@ == "**"@ + topic@ + "** — vote now!\n"@ + ballot_lines(a@, b@),
{
    let mut s = String::from_str("**");
    s.append(topic);
    s.append("** — vote now!\n");
    append_ballot(&mut s, a, b);
    s
}

/// The post announcing a tied poll and a new vote.
pub fn repoll_text(topic: &str, a: &str, b: &str) -> (text: String)
    ensures
        text@ == "**"@ + topic@ + "** — it's a tie! Revote!\n"@ + ballot_lines(a@, b@),
{
    let mut s = String::from_str("**");
    s.append(topic);
    s.append("** — it's a tie! Revote!\n");
    append_ballot(&mut s, a, b);
    s
}

/// The post announcing the tournament's winner.
pub fn winner_text(topic: &str, winner: &str) -> (text: String)
    ensures
        text@ == "The winner of the **"@ + topic@ + "** tournament is: **"@ + winner@ + "**!"@,
{
    let mut s = String::from_str("The winner of the **");
    s.append(topic);
    s.append("** tournament is: **");
    s.append(winner);
    s.append("**!");
    s
}

} // verus!
