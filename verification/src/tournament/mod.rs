//! Tournament data and the pure steps of running one.

pub mod shuffle;
pub mod runner;
pub mod laws;

use vstd::prelude::*;
use crate::text::{
    is_white_space, lemma_trimmed_is_inner_stretch, texts, trimmed, trimmed_string, text_of_bytes,
    utf8_lossy,
};

verus! {

/// Which phase a tournament is in.
#[derive(Clone, Copy, Debug, PartialEq, Eq, Structural)]
pub enum TournamentState {
    Submissions,
    Voting,
}

/// A pairing in the bracket. An empty name stands for "no opponent" (a bye).
#[derive(Clone, Debug)]
pub struct Match {
    pub a: String,
    pub b: String,
}

/// The match currently put to a vote, with the message that carries the poll.
#[derive(Clone, Debug)]
pub struct ActiveMatch {
    pub message_id: u64,
    pub a: String,
    pub b: String,
}

/// A running tournament.
#[derive(Clone, Debug)]
pub struct Tournament {
    pub id: u64,
    pub topic: String,
    pub state: TournamentState,
    /// Contestants waiting to be paired into the next round.
    pub entries: Vec<String>,
    /// Pairings of the current round not yet put to a vote.
    pub bracket: Vec<Match>,
    pub current_match: Option<ActiveMatch>,
    pub thread_id: u64,
    /// Unix time (seconds) at which the current phase ends.
    pub phase_ends_at: u64,
    /// Length of a voting round, in seconds.
    pub round_secs: u64,
}

/// Abstract pairing: the two names as character sequences.
#[verifier::ext_equal]
pub struct MatchView {
    pub a: Seq<char>,
    pub b: Seq<char>,
}

/// Abstract active match.
#[verifier::ext_equal]
pub struct ActiveMatchView {
    pub message_id: u64,
    pub a: Seq<char>,
    pub b: Seq<char>,
}

/// Abstract tournament, every string taken by its characters.
#[verifier::ext_equal]
pub struct TournamentView {
    pub id: u64,
    pub topic: Seq<char>,
    pub state: TournamentState,
    pub entries: Seq<Seq<char>>,
    pub bracket: Seq<MatchView>,
    pub current_match: Option<ActiveMatchView>,
    pub thread_id: u64,
    pub phase_ends_at: u64,
    pub round_secs: u64,
}

impl View for Match {
    type V = MatchView;

    open spec fn view(&self) -> MatchView {
        MatchView { a: self.a@, b: self.b@ }
    }
}

impl View for ActiveMatch {
    type V = ActiveMatchView;

    open spec fn view(&self) -> ActiveMatchView {
        ActiveMatchView { message_id: self.message_id, a: self.a@, b: self.b@ }
    }
}

/// The views of a sequence of pairings.
pub open spec fn matches_view(b: Seq<Match>) -> Seq<MatchView> {
    b.map_values(|m: Match| m@)
}

pub open spec fn active_view(c: Option<ActiveMatch>) -> Option<ActiveMatchView> {
    match c {
        Some(m) => Some(m@),
        None => None,
    }
}

impl View for Tournament {
    type V = TournamentView;

    open spec fn view(&self) -> TournamentView {
        TournamentView {
            id: self.id,
            topic: self.topic@,
            state: self.state,
            entries: texts(self.entries@),
            bracket: matches_view(self.bracket@),
            current_match: active_view(self.current_match),
            thread_id: self.thread_id,
            phase_ends_at: self.phase_ends_at,
            round_secs: self.round_secs,
        }
    }
}

// ---------------------------------------------------------------------------
// Seeding
// ---------------------------------------------------------------------------

/// Consecutive entries paired up; an odd last entry gets an empty opponent.
pub open spec fn seeded(entries: Seq<Seq<char>>) -> Seq<MatchView> {
    Seq::new(
        ((entries.len() + 1) / 2) as nat,
        |i: int|
            MatchView {
                a: entries[2 * i],
                b: if 2 * i + 1 < entries.len() {
                    entries[2 * i + 1]
                } else {
                    Seq::empty()
                },
            },
    )
}

impl Tournament {
    /// Pairs entries 0–1, 2–3, …; an odd last entry is paired with an empty name.
    pub fn seed_bracket(entries: &[String]) -> (bracket: Vec<Match>)
        ensures
            matches_view(bracket@) =~= seeded(texts(entries@)),
    {
        let mut bracket: Vec<Match> = Vec::new();
        let n = entries.len();
        let mut i: usize = 0;
        while i + 1 < n
            invariant
                n == entries@.len(),
                i % 2 == 0,
                i <= n,
                bracket@.len() == i / 2,
                forall|k: int|
                    0 <= k < bracket@.len() ==> #[trigger] bracket@[k]@ == seeded(texts(entries@))[k],
            decreases n - i,
        {
            let m = Match { a: entries[i].clone(), b: entries[i + 1].clone() };
            bracket.push(m);
            i += 2;
        }
        if i < n {
            let m = Match { a: entries[i].clone(), b: String::new() };
            bracket.push(m);
        }
        bracket
    }

    /// A new tournament that opens submissions at `now` for `submission_mins`
    /// minutes, with voting rounds of `round_mins` minutes.
    pub fn open_submissions(
        topic: String,
        now: u64,
        thread_id: u64,
        submission_mins: u64,
        round_mins: u64,
    ) -> (t: Tournament)
        requires
            now + submission_mins * 60 <= u64::MAX,
            round_mins * 60 <= u64::MAX,
        ensures
            t@ == (TournamentView {
                id: now,
                topic: topic@,
                state: TournamentState::Submissions,
                entries: Seq::empty(),
                bracket: Seq::empty(),
                current_match: None,
                thread_id: thread_id,
                phase_ends_at: (now + submission_mins * 60) as u64,
                round_secs: (round_mins * 60) as u64,
            }),
    {
        let t = Tournament {
            id: now,
            topic: topic,
            state: TournamentState::Submissions,
            entries: Vec::new(),
            bracket: Vec::new(),
            current_match: None,
            thread_id: thread_id,
            phase_ends_at: now + submission_mins * 60,
            round_secs: round_mins * 60,
        };
        assert(t@.entries =~= Seq::<Seq<char>>::empty());
        assert(t@.bracket =~= Seq::<MatchView>::empty());
        t
    }
}

// ---------------------------------------------------------------------------
// Submissions
// ---------------------------------------------------------------------------

/// A stored submission as the tournament reads it: decoded and trimmed.
pub open spec fn entry_of(bytes: Seq<u8>) -> Seq<char> {
    trimmed(utf8_lossy(bytes))
}

/// The byte contents of stored submissions.
pub open spec fn raw_view(raw: Seq<Vec<u8>>) -> Seq<Seq<u8>> {
    raw.map_values(|v: Vec<u8>| v@)
}

/// The entries made from stored submissions, in order: each decoded and
/// trimmed, the blank ones dropped.
pub open spec fn entries_from(raw: Seq<Seq<u8>>) -> Seq<Seq<char>>
    decreases raw.len(),
{
    if raw.len() == 0 {
        Seq::empty()
    } else {
        let rest = entries_from(raw.drop_last());
        let e = entry_of(raw.last());
        if e.len() > 0 {
            rest.push(e)
        } else {
            rest
        }
    }
}

/// Reading a stored submission as an entry.
pub open spec fn entry_fn() -> spec_fn(Seq<u8>) -> Seq<char> {
    |b: Seq<u8>| entry_of(b)
}

/// Whether an entry has any text.
pub open spec fn nonblank() -> spec_fn(Seq<char>) -> bool {
    |e: Seq<char>| e.len() > 0
}

/// Law: an entry is the submission's text with the white space at its two
/// ends removed and nothing else changed: a stretch of the decoded text with
/// only white space outside it, starting and ending with other characters.
pub proof fn lemma_entry_is_trimmed_submission(bytes: Seq<u8>) -> (bounds: (int, int))
    ensures
        0 <= bounds.0 <= bounds.1 <= utf8_lossy(bytes).len(),
        entry_of(bytes) == utf8_lossy(bytes).subrange(bounds.0, bounds.1),
        forall|i: int| 0 <= i < bounds.0 ==> is_white_space(#[trigger] utf8_lossy(bytes)[i]),
        forall|i: int| bounds.1 <= i < utf8_lossy(bytes).len() ==> is_white_space(#[trigger] utf8_lossy(bytes)[i]),
        bounds.0 < bounds.1 ==> !is_white_space(utf8_lossy(bytes)[bounds.0])
            && !is_white_space(utf8_lossy(bytes)[bounds.1 - 1]),
{
    lemma_trimmed_is_inner_stretch(utf8_lossy(bytes))
}

/// Law: one more stored submission adds exactly its entry at the end when it
/// is not blank, and nothing when it is.
pub proof fn lemma_one_entry_per_submission(raw: Seq<Seq<u8>>, x: Seq<u8>)
    ensures
        entries_from(raw.push(x)) == (if entry_of(x).len() > 0 {
            entries_from(raw).push(entry_of(x))
        } else {
            entries_from(raw)
        }),
{
    assert(raw.push(x).drop_last() =~= raw);
}

/// Law: the entries are exactly the non-blank submissions, each read as an
/// entry, in their stored order, with no limit on their number.
pub proof fn lemma_entries_are_nonblank_submissions(raw: Seq<Seq<u8>>)
    ensures
        entries_from(raw) == raw.map_values(entry_fn()).filter(nonblank()),
    decreases raw.len(),
{
    reveal(Seq::filter);
    let mapped = raw.map_values(entry_fn());
    if raw.len() > 0 {
        lemma_entries_are_nonblank_submissions(raw.drop_last());
        assert(mapped.drop_last() =~= raw.drop_last().map_values(entry_fn()));
        assert(mapped.last() == entry_of(raw.last()));
    } else {
        assert(mapped =~= Seq::<Seq<char>>::empty());
    }
}

/// Turns stored submissions into tournament entries: the non-blank ones, in
/// order, each trimmed of white space at its ends.
pub fn collect_entries(raw: &Vec<Vec<u8>>) -> (entries: Vec<String>)
    ensures
        texts(entries@) == entries_from(raw_view(raw@)),
        texts(entries@) == raw_view(raw@).map_values(entry_fn()).filter(nonblank()),
{
    proof {
        lemma_entries_are_nonblank_submissions(raw_view(raw@));
    }
    let mut entries: Vec<String> = Vec::new();
    let n = raw.len();
    let mut i: usize = 0;
    while i < n
        invariant
            n == raw@.len(),
            i <= n,
            texts(entries@) == entries_from(raw_view(raw@).take(i as int)),
        decreases n - i,
    {
        let text = text_of_bytes(&raw[i]);
        let e = trimmed_string(text.as_str());
        let ghost before = entries@;
        proof {
            assert(raw_view(raw@).take(i as int + 1).drop_last() =~= raw_view(raw@).take(i as int));
            assert(raw_view(raw@).take(i as int + 1).last() == raw@[i as int]@);
        }
        if e.as_str().is_empty() {
        } else {
            entries.push(e);
            assert(texts(entries@) =~= texts(before).push(entries@.last()@));
        }
        i = i + 1;
    }
    assert(raw_view(raw@).take(n as int) =~= raw_view(raw@));
    entries
}

} // verus!
