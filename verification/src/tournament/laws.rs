//! What running a tournament keeps and changes, stated over the set of
//! contestants still in play.

use vstd::prelude::*;
use vstd::multiset::Multiset;
use super::{ActiveMatchView, MatchView, TournamentView, seeded};
use super::runner::{
    TickAction, advanced, closed, crowns_champion, settle, tick_action_of,
};
use super::TournamentState;
use super::shuffle::{lemma_shuffle_permutes, shuffle_down, shuffled, swap_slot};
use crate::text::texts;

verus! {

broadcast use vstd::multiset::group_multiset_axioms;

/// The contestants that a list of names stands for: empty names stand for nobody.
pub open spec fn named(s: Seq<Seq<char>>) -> Multiset<Seq<char>>
    decreases s.len(),
{
    if s.len() == 0 {
        Multiset::empty()
    } else {
        let head = if s[0].len() > 0 {
            Multiset::singleton(s[0])
        } else {
            Multiset::empty()
        };
        head.add(named(s.drop_first()))
    }
}

/// The names of a bracket, pairing by pairing: a₀, b₀, a₁, b₁, …
pub open spec fn flatten(b: Seq<MatchView>) -> Seq<Seq<char>>
    decreases b.len(),
{
    if b.len() == 0 {
        Seq::empty()
    } else {
        seq![b[0].a, b[0].b] + flatten(b.drop_first())
    }
}

/// The contestants of the poll under way, if any.
pub open spec fn polled(c: Option<ActiveMatchView>) -> Multiset<Seq<char>> {
    match c {
        None => Multiset::empty(),
        Some(m) => named(seq![m.a, m.b]),
    }
}

/// Everyone still in play: waiting for a pairing, paired in the bracket, or
/// in the poll under way.
pub open spec fn contenders(t: TournamentView) -> Multiset<Seq<char>> {
    named(t.entries).add(named(flatten(t.bracket))).add(polled(t.current_match))
}

pub proof fn lemma_named_concat(a: Seq<Seq<char>>, b: Seq<Seq<char>>)
    ensures
        named(a + b) == named(a).add(named(b)),
    decreases a.len(),
{
    if a.len() == 0 {
        assert(a + b =~= b);
        assert(named(a).add(named(b)) =~= named(b));
    } else {
        assert((a + b).drop_first() =~= a.drop_first() + b);
        lemma_named_concat(a.drop_first(), b);
        assert(named(a + b) =~= named(a).add(named(b)));
    }
}

pub proof fn lemma_named_push(a: Seq<Seq<char>>, x: Seq<char>)
    ensures
        named(a.push(x)) == named(a).add(named(seq![x])),
{
    assert(a.push(x) =~= a + seq![x]);
    lemma_named_concat(a, seq![x]);
}

proof fn lemma_named_pair(x: Seq<char>, y: Seq<char>)
    ensures
        named(seq![x, y]) == named(seq![x]).add(named(seq![y])),
{
    assert(seq![x, y] =~= seq![x] + seq![y]);
    lemma_named_concat(seq![x], seq![y]);
}

proof fn lemma_named_empty_name(x: Seq<char>)
    requires
        x.len() == 0,
    ensures
        named(seq![x]) == Multiset::<Seq<char>>::empty(),
{
    assert(seq![x].drop_first() =~= Seq::<Seq<char>>::empty());
    assert(named(Seq::<Seq<char>>::empty()) =~= Multiset::<Seq<char>>::empty());
    assert(named(seq![x]) =~= Multiset::<Seq<char>>::empty());
}

proof fn lemma_flatten_cons(m: MatchView, b: Seq<MatchView>)
    ensures
        flatten(seq![m] + b) == seq![m.a, m.b] + flatten(b),
{
    assert((seq![m] + b).drop_first() =~= b);
}

/// Law: pairing entries for a round lists every entry once, in order, padding
/// an odd count with one empty name.
pub proof fn lemma_seeding_lists_entries(e: Seq<Seq<char>>)
    ensures
        flatten(seeded(e)) == (if e.len() % 2 == 0 {
            e
        } else {
            e.push(Seq::empty())
        }),
    decreases e.len(),
{
    if e.len() == 0 {
        assert(seeded(e) =~= Seq::<MatchView>::empty());
    } else if e.len() == 1 {
        assert(seeded(e).drop_first() =~= Seq::<MatchView>::empty());
        assert(flatten(Seq::<MatchView>::empty()) =~= Seq::<Seq<char>>::empty());
        assert(seeded(e)[0] == MatchView { a: e[0], b: Seq::<char>::empty() });
        assert(flatten(seeded(e)) =~= e.push(Seq::empty()));
    } else {
        let rest = e.subrange(2, e.len() as int);
        assert(seeded(e).drop_first() =~= seeded(rest));
        lemma_seeding_lists_entries(rest);
        assert(flatten(seeded(e)) =~= (if e.len() % 2 == 0 {
            e
        } else {
            e.push(Seq::empty())
        }));
    }
}

/// Law: pairing entries for a round keeps exactly the contestants they name.
pub proof fn lemma_seeding_keeps_contestants(e: Seq<Seq<char>>)
    ensures
        named(flatten(seeded(e))) == named(e),
{
    lemma_seeding_lists_entries(e);
    if e.len() % 2 != 0 {
        lemma_named_push(e, Seq::empty());
        lemma_named_empty_name(Seq::empty());
        assert(named(e).add(Multiset::empty()) =~= named(e));
    }
}

/// Law: settling the bracket (resolving byes, pairing new rounds) keeps
/// exactly the contestants in play.
pub proof fn lemma_settle_keeps_contestants(entries: Seq<Seq<char>>, bracket: Seq<MatchView>, rounds: nat)
    ensures
        ({
            let s = settle(entries, bracket, rounds);
            named(s.entries).add(named(flatten(s.bracket))) == named(entries).add(named(flatten(bracket)))
        }),
    decreases 3 * entries.len() + 4 * bracket.len(),
{
    if bracket.len() > 0 {
        let m = bracket[0];
        let rest = bracket.drop_first();
        assert(flatten(bracket) == seq![m.a, m.b] + flatten(rest));
        lemma_named_concat(seq![m.a, m.b], flatten(rest));
        lemma_named_pair(m.a, m.b);
        if m.a.len() > 0 && m.b.len() > 0 {
        } else if m.a.len() > 0 {
            lemma_settle_keeps_contestants(entries.push(m.a), rest, rounds);
            lemma_named_push(entries, m.a);
            lemma_named_empty_name(m.b);
            assert(named(entries.push(m.a)).add(named(flatten(rest)))
                =~= named(entries).add(named(flatten(bracket))));
        } else if m.b.len() > 0 {
            lemma_settle_keeps_contestants(entries.push(m.b), rest, rounds);
            lemma_named_push(entries, m.b);
            lemma_named_empty_name(m.a);
            assert(named(entries.push(m.b)).add(named(flatten(rest)))
                =~= named(entries).add(named(flatten(bracket))));
        } else {
            lemma_settle_keeps_contestants(entries, rest, rounds);
            lemma_named_empty_name(m.a);
            lemma_named_empty_name(m.b);
            assert(named(entries).add(named(flatten(rest)))
                =~= named(entries).add(named(flatten(bracket))));
        }
    } else if entries.len() <= 1 {
    } else {
        assert(4 * ((entries.len() + 1) / 2) < 3 * entries.len());
        lemma_settle_keeps_contestants(Seq::empty(), seeded(entries), rounds + 1);
        lemma_seeding_keeps_contestants(entries);
        assert(named(Seq::<Seq<char>>::empty()) =~= Multiset::<Seq<char>>::empty());
        assert(flatten(Seq::<MatchView>::empty()) =~= Seq::<Seq<char>>::empty());
        assert(named(Seq::<Seq<char>>::empty()).add(named(flatten(seeded(entries))))
            =~= named(entries).add(named(flatten(Seq::<MatchView>::empty()))));
    }
}

/// Law: once settled, the bracket is either headed by a pairing of two named
/// contestants (the next poll), or empty with at most one contestant waiting.
pub proof fn lemma_settle_ready(entries: Seq<Seq<char>>, bracket: Seq<MatchView>, rounds: nat)
    ensures
        ({
            let s = settle(entries, bracket, rounds);
            ||| (s.bracket.len() > 0 && s.bracket[0].a.len() > 0 && s.bracket[0].b.len() > 0)
            ||| (s.bracket.len() == 0 && s.entries.len() <= 1)
        }),
    decreases 3 * entries.len() + 4 * bracket.len(),
{
    if bracket.len() > 0 {
        let m = bracket[0];
        let rest = bracket.drop_first();
        if m.a.len() > 0 && m.b.len() > 0 {
        } else if m.a.len() > 0 {
            lemma_settle_ready(entries.push(m.a), rest, rounds);
        } else if m.b.len() > 0 {
            lemma_settle_ready(entries.push(m.b), rest, rounds);
        } else {
            lemma_settle_ready(entries, rest, rounds);
        }
    } else if entries.len() > 1 {
        assert(4 * ((entries.len() + 1) / 2) < 3 * entries.len());
        lemma_settle_ready(Seq::empty(), seeded(entries), rounds + 1);
    }
}

/// Law: putting the head pairing to a vote keeps the contestants in play.
pub proof fn lemma_polling_keeps_contestants(t: TournamentView, message_id: u64)
    requires
        t.bracket.len() > 0,
        t.current_match is None,
    ensures
        contenders(TournamentView {
            bracket: t.bracket.drop_first(),
            current_match: Some(ActiveMatchView { message_id, a: t.bracket[0].a, b: t.bracket[0].b }),
            ..t
        }) == contenders(t),
{
    let m = t.bracket[0];
    assert(flatten(t.bracket) == seq![m.a, m.b] + flatten(t.bracket.drop_first()));
    lemma_named_concat(seq![m.a, m.b], flatten(t.bracket.drop_first()));
    let after = TournamentView {
        bracket: t.bracket.drop_first(),
        current_match: Some(ActiveMatchView { message_id, a: m.a, b: m.b }),
        ..t
    };
    assert(contenders(after) =~= contenders(t));
}

/// Law: a decided poll eliminates exactly its loser; the winner stays in play.
pub proof fn lemma_vote_eliminates_loser(t: TournamentView, winner: Seq<char>, now: u64)
    requires
        t.current_match matches Some(m) && (winner == m.a || winner == m.b),
    ensures
        ({
            let m = t.current_match->0;
            let loser = if winner == m.a { m.b } else { m.a };
            contenders(advanced(t, Some(Some(winner)), now)).add(named(seq![loser])) == contenders(t)
        }),
{
    let m = t.current_match->0;
    let loser = if winner == m.a { m.b } else { m.a };
    let after = advanced(t, Some(Some(winner)), now);
    lemma_named_pair(m.a, m.b);
    lemma_named_push(t.entries, winner);
    assert(named(seq![m.a, m.b]) =~= named(seq![winner]).add(named(seq![loser])));
    assert(flatten(Seq::<MatchView>::empty()) =~= Seq::<Seq<char>>::empty());
    assert(named(Seq::<Seq<char>>::empty()) =~= Multiset::<Seq<char>>::empty());
    if t.bracket.len() == 0 && t.entries.len() == 0 {
        assert(seq![winner] =~= t.entries.push(winner));
        assert(contenders(after).add(named(seq![loser])) =~= contenders(t));
    } else if t.bracket.len() == 0 {
        lemma_seeding_keeps_contestants(t.entries.push(winner));
        assert(contenders(after).add(named(seq![loser])) =~= contenders(t));
    } else {
        assert(contenders(after).add(named(seq![loser])) =~= contenders(t));
    }
}

/// Law: a tied poll keeps everyone in play; the pairing waits at the head of
/// the bracket for a new poll.
pub proof fn lemma_tie_keeps_contestants(t: TournamentView, now: u64)
    ensures
        contenders(advanced(t, Some(None), now)) == contenders(t),
        t.current_match matches Some(m) ==> advanced(t, Some(None), now).bracket[0] == (MatchView { a: m.a, b: m.b }),
{
    if let Some(m) = t.current_match {
        let mv = MatchView { a: m.a, b: m.b };
        lemma_flatten_cons(mv, t.bracket);
        lemma_named_concat(seq![m.a, m.b], flatten(t.bracket));
        assert(named(Seq::<Seq<char>>::empty()) =~= Multiset::<Seq<char>>::empty());
        assert(contenders(advanced(t, Some(None), now)) =~= contenders(t));
    }
}

/// Law: when the poll message is gone, the first contestant advances and the
/// second is out.
pub proof fn lemma_missing_poll_advances_first(t: TournamentView, now: u64)
    requires
        t.current_match is Some,
    ensures
        contenders(advanced(t, None, now)).add(named(seq![t.current_match->0.b])) == contenders(t),
{
    let m = t.current_match->0;
    lemma_named_pair(m.a, m.b);
    lemma_named_push(t.entries, m.a);
    assert(contenders(advanced(t, None, now)).add(named(seq![m.b])) =~= contenders(t));
}

/// How often `named(s)` holds a name: as often as `s` does, if it is not empty.
pub proof fn lemma_named_counts(s: Seq<Seq<char>>, x: Seq<char>)
    ensures
        named(s).count(x) == (if x.len() > 0 { s.to_multiset().count(x) } else { 0 }),
    decreases s.len(),
{
    broadcast use vstd::seq_lib::to_multiset_build;
    if s.len() == 0 {
        assert(s.to_multiset() =~= Multiset::<Seq<char>>::empty()) by {
            broadcast use vstd::seq_lib::to_multiset_len;
            assert(s.to_multiset().len() == 0);
        }
    } else {
        let init = s.drop_last();
        let y = s.last();
        assert(s =~= init.push(y));
        lemma_named_counts(init, x);
        lemma_named_push(init, y);
        assert(seq![y].drop_first() =~= Seq::<Seq<char>>::empty());
        assert(named(Seq::<Seq<char>>::empty()) =~= Multiset::<Seq<char>>::empty());
    }
}

/// Lists that are rearrangements of each other name the same contestants.
pub proof fn lemma_named_permutation(s1: Seq<Seq<char>>, s2: Seq<Seq<char>>)
    requires
        s1.to_multiset() == s2.to_multiset(),
    ensures
        named(s1) == named(s2),
{
    assert forall|x: Seq<char>| named(s1).count(x) == named(s2).count(x) by {
        lemma_named_counts(s1, x);
        lemma_named_counts(s2, x);
    }
    assert(named(s1) =~= named(s2));
}

proof fn lemma_texts_shuffle_down(s: Seq<String>, seed: u64, i: int)
    requires
        s.len() <= u64::MAX,
    ensures
        texts(shuffle_down(s, seed, i)) == shuffle_down(texts(s), seed, i),
    decreases i,
{
    if 0 < i < s.len() {
        let j = swap_slot(seed, i as nat);
        let s2 = s.update(i, s[j]).update(j, s[i]);
        let t = texts(s);
        assert(texts(s2) =~= t.update(i, t[j]).update(j, t[i]));
        lemma_texts_shuffle_down(s2, seed, i - 1);
    }
}

/// Law: closing submissions puts exactly the submitted entries into play,
/// whatever order the draw gives them.
pub proof fn lemma_draw_keeps_entries(entries: Seq<String>, seed: u64)
    requires
        entries.len() <= u64::MAX,
    ensures
        named(flatten(seeded(texts(shuffled(entries, seed))))) == named(texts(entries)),
{
    lemma_texts_shuffle_down(entries, seed, entries.len() - 1);
    lemma_shuffle_permutes(texts(entries), seed);
    lemma_seeding_keeps_contestants(texts(shuffled(entries, seed)));
    lemma_named_permutation(shuffled(texts(entries), seed), texts(entries));
}

/// Law: with no poll under way, closing a round only moves the deadline.
pub proof fn lemma_idle_round_keeps_contestants(t: TournamentView, tally: Option<Option<Seq<char>>>, now: u64)
    requires
        t.current_match is None,
    ensures
        contenders(advanced(t, tally, now)) == contenders(t),
        advanced(t, tally, now).phase_ends_at == (now + t.round_secs) as u64,
{
}

/// Law: every voting round that does not crown a champion gives the next poll
/// a full round: its deadline is exactly `now` plus the round length.
pub proof fn lemma_round_deadline(t: TournamentView, tally: Option<Option<Seq<char>>>, now: u64)
    requires
        !crowns_champion(t, tally),
        now + t.round_secs <= u64::MAX,
    ensures
        advanced(t, tally, now).phase_ends_at == now + t.round_secs,
{
}

/// Law: a poll's winner takes the tournament only when nobody but the two
/// polled contestants was in play, and afterwards the winner alone is.
pub proof fn lemma_champion_is_last_in_play(t: TournamentView, winner: Seq<char>, now: u64)
    requires
        crowns_champion(t, Some(Some(winner))),
    ensures
        contenders(t) == polled(t.current_match),
        contenders(advanced(t, Some(Some(winner)), now)) == named(seq![winner]),
        advanced(t, Some(Some(winner)), now).current_match is None,
{
    assert(flatten(Seq::<MatchView>::empty()) =~= Seq::<Seq<char>>::empty());
    assert(named(Seq::<Seq<char>>::empty()) =~= Multiset::<Seq<char>>::empty());
    assert(contenders(t) =~= polled(t.current_match));
    assert(contenders(advanced(t, Some(Some(winner)), now)) =~= named(seq![winner]));
}

// ---------------------------------------------------------------------------
// Whole ticks of the runner
// ---------------------------------------------------------------------------

/// After settling the bracket, the head pairing (if any) is put to a vote in
/// message `message_id`.
pub open spec fn posted(t: TournamentView, message_id: u64) -> TournamentView {
    let s = settle(t.entries, t.bracket, 0);
    let t1 = TournamentView { entries: s.entries, bracket: s.bracket, ..t };
    if t1.bracket.len() > 0 {
        TournamentView {
            bracket: t1.bracket.drop_first(),
            current_match: Some(ActiveMatchView { message_id, a: t1.bracket[0].a, b: t1.bracket[0].b }),
            ..t1
        }
    } else {
        t1
    }
}

/// The stored tournament after a tick at time `now` that runs to its end, or
/// `None` once it is deleted. `entries` are the collected submissions (read
/// when submissions close), `tally` the poll's outcome (read when a round
/// closes), `message_id` the message carrying the next poll.
pub open spec fn ticked(
    t: TournamentView,
    now: u64,
    entries: Seq<String>,
    tally: Option<Option<Seq<char>>>,
    message_id: u64,
) -> Option<TournamentView> {
    match tick_action_of(Some(t), now) {
        TickAction::Wait => Some(t),
        TickAction::CloseSubmissions => if entries.len() < 2 {
            None
        } else {
            Some(posted(closed(t, entries, now), message_id))
        },
        TickAction::AdvanceVoting => if crowns_champion(t, tally) {
            None
        } else {
            Some(posted(advanced(t, tally, now), message_id))
        },
    }
}

/// `s` is the same tournament as `t`, no earlier in its life: same id, topic,
/// thread and round length; voting never goes back to submissions, and the
/// phase changes only once `t`'s deadline has come.
pub open spec fn carries_on(t: TournamentView, s: TournamentView, now: u64) -> bool {
    &&& s.id == t.id
    &&& s.topic == t.topic
    &&& s.thread_id == t.thread_id
    &&& s.round_secs == t.round_secs
    &&& t.state == TournamentState::Voting ==> s.state == TournamentState::Voting
    &&& s.state != t.state ==> now >= t.phase_ends_at
}

/// Law: a tick either deletes the tournament or leaves the same tournament,
/// moving only from submissions to voting, and only at its deadline.
pub proof fn lemma_tick_moves_forward(
    t: TournamentView,
    now: u64,
    entries: Seq<String>,
    tally: Option<Option<Seq<char>>>,
    message_id: u64,
)
    ensures
        ticked(t, now, entries, tally, message_id) matches Some(s) ==> carries_on(t, s, now),
{
}

/// Law: a tick that ran to its end leaves nothing for a second tick at the
/// same time: the tournament is gone, or its deadline lies ahead, so the second
/// tick waits and changes nothing (rounds have a positive length).
pub proof fn lemma_second_tick_changes_nothing(
    t: TournamentView,
    now: u64,
    entries: Seq<String>,
    tally: Option<Option<Seq<char>>>,
    message_id: u64,
    entries2: Seq<String>,
    tally2: Option<Option<Seq<char>>>,
    message_id2: u64,
)
    requires
        tick_action_of(Some(t), now) != TickAction::Wait ==> 0 < t.round_secs && now + t.round_secs <= u64::MAX,
    ensures
        tick_action_of(ticked(t, now, entries, tally, message_id), now) == TickAction::Wait,
        ticked(t, now, entries, tally, message_id) matches Some(s)
            ==> ticked(s, now, entries2, tally2, message_id2) == Some(s),
{
}

} // verus!
