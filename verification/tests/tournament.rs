use pixelbot::tournament::runner::{
    advance_voting, begin_match, close_submissions, count_votes, ends_tournament,
    settle_bracket, take_next_match, tally_winner, tick_action, TickAction, VotingStep,
    REACTION_A, REACTION_B,
};
use pixelbot::tournament::shuffle::shuffle_entries;
use pixelbot::tournament::{collect_entries, ActiveMatch, Match, Tournament, TournamentState};

fn s(x: &str) -> String {
    x.to_string()
}

fn names(v: &[&str]) -> Vec<String> {
    v.iter().map(|x| x.to_string()).collect()
}

fn pairs(b: &[Match]) -> Vec<(String, String)> {
    b.iter().map(|m| (m.a.clone(), m.b.clone())).collect()
}

fn pair(a: &str, b: &str) -> (String, String) {
    (s(a), s(b))
}

fn voting(entries: &[&str], bracket: Vec<Match>, current: Option<ActiveMatch>) -> Tournament {
    Tournament {
        id: 1_700_000_000,
        topic: s("Art"),
        state: TournamentState::Voting,
        entries: names(entries),
        bracket,
        current_match: current,
        thread_id: 7,
        phase_ends_at: 100,
        round_secs: 600,
    }
}

fn m(a: &str, b: &str) -> Match {
    Match { a: s(a), b: s(b) }
}

fn active(a: &str, b: &str) -> Option<ActiveMatch> {
    Some(ActiveMatch { message_id: 42, a: s(a), b: s(b) })
}

#[test]
fn seeding_pairs_consecutive_entries() {
    assert!(Tournament::seed_bracket(&[]).is_empty());
    let b = Tournament::seed_bracket(&names(&["a", "b", "c"]));
    assert_eq!(pairs(&b), vec![pair("a", "b"), pair("c", "")]);
    let b = Tournament::seed_bracket(&names(&["a", "b", "c", "d"]));
    assert_eq!(pairs(&b), vec![pair("a", "b"), pair("c", "d")]);
}

#[test]
fn opening_submissions() {
    let t = Tournament::open_submissions(s("Art"), 1000, 77, 5, 2);
    assert_eq!(t.id, 1000);
    assert_eq!(t.topic, "Art");
    assert_eq!(t.state, TournamentState::Submissions);
    assert!(t.entries.is_empty() && t.bracket.is_empty() && t.current_match.is_none());
    assert_eq!(t.thread_id, 77);
    assert_eq!(t.phase_ends_at, 1300);
    assert_eq!(t.round_secs, 120);
}

#[test]
fn entries_are_trimmed_and_blank_ones_dropped() {
    let raw = vec![b"  cat ".to_vec(), b" \n ".to_vec(), vec![], b"dog".to_vec(), vec![0xff]];
    assert_eq!(collect_entries(&raw), names(&["cat", "dog", "\u{fffd}"]));
}

#[test]
fn draw_keeps_order_for_clock_seeds() {
    let mut v = names(&["a", "b", "c", "d", "e"]);
    shuffle_entries(&mut v, 1_700_000_000);
    assert_eq!(v, names(&["a", "b", "c", "d", "e"]));
}

#[test]
fn draw_reorders_when_wrapping() {
    let mut v = names(&["a", "b", "c"]);
    shuffle_entries(&mut v, u64::MAX);
    assert_eq!(v, names(&["c", "b", "a"]));
}

#[test]
fn draw_is_a_permutation() {
    for seed in [u64::MAX, u64::MAX - 7, 1 << 63, 0x9e37_79b9_7f4a_7c15] {
        let orig = names(&["a", "b", "c", "d", "e", "f", "g"]);
        let mut v = orig.clone();
        shuffle_entries(&mut v, seed);
        let mut sorted = v.clone();
        sorted.sort();
        assert_eq!(sorted, orig);
    }
}

#[test]
fn closing_with_too_few_entries_changes_nothing() {
    let mut t = Tournament::open_submissions(s("Art"), 1000, 77, 5, 2);
    assert!(!close_submissions(&mut t, names(&["solo"]), 2000));
    assert_eq!(t.state, TournamentState::Submissions);
    assert_eq!(t.phase_ends_at, 1300);
    assert!(t.bracket.is_empty());
}

#[test]
fn closing_starts_voting() {
    let mut t = Tournament::open_submissions(s("Art"), 1000, 77, 5, 2);
    assert!(close_submissions(&mut t, names(&["a", "b", "c"]), 2000));
    assert_eq!(t.state, TournamentState::Voting);
    assert!(t.entries.is_empty());
    assert_eq!(pairs(&t.bracket), vec![pair("a", "b"), pair("c", "")]);
    assert_eq!(t.phase_ends_at, 2120);
}

#[test]
fn byes_advance_and_a_new_round_is_paired() {
    let mut t = voting(&[], vec![m("a", ""), m("", "b"), m("", "")], None);
    assert!(settle_bracket(&mut t));
    assert!(t.entries.is_empty());
    assert_eq!(pairs(&t.bracket), vec![pair("a", "b")]);
}

#[test]
fn settled_bracket_headed_by_real_pairing_is_left_alone() {
    let mut t = voting(&["w"], vec![m("a", "b"), m("c", "")], None);
    assert!(!settle_bracket(&mut t));
    assert_eq!(t.entries, names(&["w"]));
    assert_eq!(pairs(&t.bracket), vec![pair("a", "b"), pair("c", "")]);
}

#[test]
fn settling_stalls_with_one_contestant() {
    let mut t = voting(&["x"], vec![m("", "")], None);
    assert!(!settle_bracket(&mut t));
    assert_eq!(t.entries, names(&["x"]));
    assert!(t.bracket.is_empty());
}

#[test]
fn settling_resolves_byes_after_reseeding() {
    let mut t = voting(&["a", "b", "c"], vec![], None);
    // round pairs (a, b), (c, -): head is a real pairing
    assert!(settle_bracket(&mut t));
    assert_eq!(pairs(&t.bracket), vec![pair("a", "b"), pair("c", "")]);
    let mut t = voting(&["x", ""], vec![], None);
    // round pairs (x, -): x advances alone, then nobody is left to pair
    assert!(settle_bracket(&mut t));
    assert_eq!(t.entries, names(&["x"]));
    assert!(t.bracket.is_empty());
}

#[test]
fn posting_a_pairing() {
    let mut t = voting(&[], vec![m("a", "b"), m("c", "d")], None);
    let next = take_next_match(&mut t);
    assert_eq!((next.a.clone(), next.b.clone()), pair("a", "b"));
    assert_eq!(pairs(&t.bracket), vec![pair("c", "d")]);
    begin_match(&mut t, next, 555);
    let c = t.current_match.clone().unwrap();
    assert_eq!((c.message_id, c.a, c.b), (555, s("a"), s("b")));
}

#[test]
fn counting_votes_uses_first_listed_reaction() {
    let rs = vec![(s(REACTION_A), 2), (s("👍"), 8), (s(REACTION_A), 9), (s(REACTION_B), 3)];
    assert_eq!(count_votes(&rs, REACTION_A), 2);
    assert_eq!(count_votes(&rs, REACTION_B), 3);
    assert_eq!(count_votes(&rs, "🎉"), 0);
}

#[test]
fn tallying_polls() {
    let a = ActiveMatch { message_id: 1, a: s("x"), b: s("y") };
    assert_eq!(tally_winner(&a, &None), None);
    let tie = Some(vec![(s(REACTION_A), 4), (s(REACTION_B), 4)]);
    assert_eq!(tally_winner(&a, &tie), Some(None));
    let no_votes = Some(vec![]);
    assert_eq!(tally_winner(&a, &no_votes), Some(None));
    let first = Some(vec![(s(REACTION_B), 1), (s(REACTION_A), 4)]);
    assert_eq!(tally_winner(&a, &first), Some(Some(s("x"))));
    let second = Some(vec![(s(REACTION_A), 1), (s(REACTION_B), 2)]);
    assert_eq!(tally_winner(&a, &second), Some(Some(s("y"))));
}

#[test]
fn round_without_poll_moves_deadline() {
    let mut t = voting(&["w"], vec![m("a", "b")], None);
    assert!(matches!(advance_voting(&mut t, None, 1000), VotingStep::Continue));
    assert_eq!(t.phase_ends_at, 1600);
    assert_eq!(t.entries, names(&["w"]));
    assert_eq!(pairs(&t.bracket), vec![pair("a", "b")]);
}

#[test]
fn missing_poll_advances_first_contestant() {
    let mut t = voting(&["w"], vec![m("c", "d")], active("a", "b"));
    assert!(matches!(advance_voting(&mut t, None, 1000), VotingStep::Continue));
    assert_eq!(t.entries, names(&["w", "a"]));
    assert!(t.current_match.is_none());
    assert_eq!(t.phase_ends_at, 1600);
}

#[test]
fn tie_goes_back_to_the_bracket() {
    let mut t = voting(&[], vec![m("c", "d")], active("a", "b"));
    match advance_voting(&mut t, Some(None), 1000) {
        VotingStep::Repoll(again) => assert_eq!((again.a, again.b), pair("a", "b")),
        other => panic!("unexpected {other:?}"),
    }
    assert_eq!(pairs(&t.bracket), vec![pair("a", "b"), pair("c", "d")]);
    assert!(t.current_match.is_none());
    assert_eq!(t.phase_ends_at, 1600);
}

#[test]
fn winner_waits_for_next_round() {
    let mut t = voting(&["w"], vec![m("c", "d")], active("a", "b"));
    assert!(matches!(advance_voting(&mut t, Some(Some(s("b"))), 1000), VotingStep::Continue));
    assert_eq!(t.entries, names(&["w", "b"]));
    assert_eq!(pairs(&t.bracket), vec![pair("c", "d")]);
}

#[test]
fn winner_of_last_pairing_starts_next_round() {
    let mut t = voting(&["w", "z"], vec![], active("a", "b"));
    assert!(matches!(advance_voting(&mut t, Some(Some(s("a"))), 1000), VotingStep::Continue));
    assert!(t.entries.is_empty());
    assert_eq!(pairs(&t.bracket), vec![pair("w", "z"), pair("a", "")]);
    assert_eq!(t.phase_ends_at, 1600);
}

#[test]
fn last_winner_takes_the_tournament() {
    let mut t = voting(&[], vec![], active("a", "b"));
    let tally = Some(Some(s("b")));
    assert!(ends_tournament(&t, &tally));
    match advance_voting(&mut t, tally, 1000) {
        VotingStep::Champion(w) => assert_eq!(w, "b"),
        other => panic!("unexpected {other:?}"),
    }
    assert_eq!(t.entries, names(&["b"]));
    assert_eq!(t.phase_ends_at, 100);
}

#[test]
fn ticks() {
    assert_eq!(tick_action(&None, 5), TickAction::Wait);
    let t = voting(&[], vec![], None);
    assert_eq!(tick_action(&Some(t.clone()), 99), TickAction::Wait);
    assert_eq!(tick_action(&Some(t.clone()), 100), TickAction::AdvanceVoting);
    let open = Tournament::open_submissions(s("Art"), 0, 1, 1, 1);
    assert_eq!(tick_action(&Some(open), 60), TickAction::CloseSubmissions);
}

#[test]
fn whole_tournament_eliminates_one_per_decided_poll() {
    let mut t = Tournament::open_submissions(s("Art"), 1000, 77, 5, 1);
    let field = names(&["a", "b", "c", "d", "e"]);
    assert!(close_submissions(&mut t, field.clone(), 2000));
    let mut decided = 0;
    let mut now = 2000;
    let champion = loop {
        settle_bracket(&mut t);
        assert!(!t.bracket.is_empty());
        let next = take_next_match(&mut t);
        assert!(!next.a.is_empty() && !next.b.is_empty());
        begin_match(&mut t, next, 1);
        // the first-listed contestant always wins
        let winner = t.current_match.as_ref().unwrap().a.clone();
        now += 60;
        decided += 1;
        match advance_voting(&mut t, Some(Some(winner)), now) {
            VotingStep::Champion(w) => break w,
            VotingStep::Continue => {}
            VotingStep::Repoll(_) => panic!("no ties here"),
        }
    };
    assert_eq!(champion, "a");
    assert_eq!(decided, field.len() - 1);
}

#[test]
fn second_tick_at_same_time_waits() {
    let mut t = Tournament::open_submissions(s("Art"), 1000, 77, 1, 1);
    let now = 1060;
    assert_eq!(tick_action(&Some(t.clone()), now), TickAction::CloseSubmissions);
    assert!(close_submissions(&mut t, names(&["a", "b"]), now));
    settle_bracket(&mut t);
    let next = take_next_match(&mut t);
    begin_match(&mut t, next, 5);
    assert_eq!(tick_action(&Some(t.clone()), now), TickAction::Wait);
    assert_eq!((t.id, t.topic.as_str(), t.thread_id, t.round_secs), (1000, "Art", 77, 60));
    assert_eq!(t.state, TournamentState::Voting);
}

#[test]
fn several_rounds_paired_in_one_settling() {
    // eight names, all but one facing nobody: three rounds are paired before
    // the lone survivor is left, within the bound of ⌈log₂ 8⌉ = 3
    let mut t = voting(&["a", "", "", "", "", "", "", ""], vec![], None);
    assert!(settle_bracket(&mut t));
    assert_eq!(t.entries, names(&["a"]));
    assert!(t.bracket.is_empty());
}
