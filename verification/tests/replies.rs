use pixelbot::game::Game;
use pixelbot::replies::ign::{
    elder_only_reply, elder_refusal, elder_removed_reply, elder_set_reply, ign_removed_reply, ign_set_reply,
    member_key, my_igns_reply, whois_reply,
};
use pixelbot::replies::tournament::{
    already_running_reply, announcement_text, cancel_denied_reply, cancel_refusal, start_refusal, cancelled_reply, matchup_text,
    no_tournament_reply, repoll_text, start_denied_reply, started_reply, status_reply,
    submission_thread_name, submissions_closed_text, tick_done_reply, too_few_entries_text,
    winner_text,
};
use pixelbot::tournament::{ActiveMatch, Match, Tournament, TournamentState};

#[test]
fn member_keys_are_decimal_ids() {
    assert_eq!(member_key(123456789012345678), "123456789012345678");
}

#[test]
fn ign_replies() {
    assert_eq!(ign_set_reply(Game::PixelWorlds, "Zed"), "Pixel Worlds IGN set to Zed.");
    assert_eq!(ign_removed_reply(Game::NexusStation, true), "Removed your Nexus Station IGN.");
    assert_eq!(
        ign_removed_reply(Game::NexusStation, false),
        "No Nexus Station IGN found for your account."
    );
    assert_eq!(elder_only_reply(), "You need the Elder role to use this command.");
    assert_eq!(
        elder_set_reply("bob", Game::NexusStation, "B0b"),
        "Set bob's Nexus Station IGN to B0b."
    );
    assert_eq!(
        elder_removed_reply("bob", Game::PixelWorlds, true),
        "Removed bob's Pixel Worlds IGN."
    );
    assert_eq!(
        elder_removed_reply("bob", Game::PixelWorlds, false),
        "bob has no Pixel Worlds IGN set."
    );
}

#[test]
fn ign_listings() {
    assert_eq!(my_igns_reply(&vec![]), "You have no IGNs set. Use /setign to add one.");
    let stored = vec![
        (Game::NexusStation, b"Nex".to_vec()),
        (Game::PixelWorlds, vec![b'P', 0xc3]),
    ];
    assert_eq!(
        my_igns_reply(&stored),
        "Your IGNs:\nNexus Station: Nex\nPixel Worlds: P\u{fffd}"
    );
    assert_eq!(whois_reply("amy", &vec![]), "amy has no IGNs set.");
    assert_eq!(
        whois_reply("amy", &vec![(Game::PixelWorlds, b"Amy".to_vec())]),
        "amy's IGNs:\nPixel Worlds: Amy"
    );
}

#[test]
fn tournament_command_replies() {
    assert_eq!(start_denied_reply(), "You need the Elder role to start a tournament.");
    assert_eq!(cancel_denied_reply(), "You need the Elder role to cancel a tournament.");
    assert_eq!(
        already_running_reply(),
        "A tournament is already running. Cancel it first with /tournament-cancel."
    );
    assert_eq!(no_tournament_reply(), "No tournament is currently running.");
    assert_eq!(tick_done_reply(), "Tick done.");
    assert_eq!(
        announcement_text("Art", 15),
        "**Art** tournament started! Post your entry in the thread below. You have 15 minutes. One entry per person — your last message is used."
    );
    assert_eq!(submission_thread_name("Art"), "Art — submissions");
    assert_eq!(started_reply("Art", 15), "Tournament \"Art\" started. Submissions open for 15 minutes.");
    assert_eq!(cancelled_reply("Art"), "Tournament \"Art\" cancelled.");
}

#[test]
fn runner_posts() {
    assert_eq!(
        too_few_entries_text("Art"),
        "Tournament \"Art\" cancelled — not enough submissions."
    );
    assert_eq!(
        submissions_closed_text("Art", 5),
        "Submissions closed for **Art**. 5 entries received. Starting bracket now!"
    );
    assert_eq!(
        matchup_text("Art", "x", "y"),
        "**Art** — vote now!\n1️⃣ **x**\n2️⃣ **y**"
    );
    assert_eq!(
        repoll_text("Art", "x", "y"),
        "**Art** — it's a tie! Revote!\n1️⃣ **x**\n2️⃣ **y**"
    );
    assert_eq!(
        winner_text("Art", "x"),
        "The winner of the **Art** tournament is: **x**!"
    );
}

fn sample(state: TournamentState) -> Tournament {
    Tournament {
        id: 1,
        topic: "Art".to_string(),
        state,
        entries: vec![],
        bracket: vec![
            Match { a: "p".to_string(), b: "q".to_string() },
            Match { a: "r".to_string(), b: "".to_string() },
        ],
        current_match: None,
        thread_id: 2,
        phase_ends_at: 1000,
        round_secs: 60,
    }
}

#[test]
fn status_in_submissions() {
    let t = sample(TournamentState::Submissions);
    assert_eq!(
        status_reply(&t, 4, 879),
        "**Art** — Accepting submissions (4 so far)\nPhase ends in 2 minute(s)."
    );
    assert_eq!(
        status_reply(&t, 0, 5000),
        "**Art** — Accepting submissions (0 so far)\nPhase ends in 0 minute(s)."
    );
}

#[test]
fn status_in_voting() {
    let mut t = sample(TournamentState::Voting);
    assert_eq!(
        status_reply(&t, 0, 1000),
        "**Art** — Voting — 2 match(es) remaining\n\nPhase ends in 0 minute(s)."
    );
    t.current_match = Some(ActiveMatch { message_id: 9, a: "m".to_string(), b: "n".to_string() });
    assert_eq!(
        status_reply(&t, 0, 400),
        "**Art** — Voting — 3 match(es) remaining\nCurrent match: **m** vs **n**\nPhase ends in 10 minute(s)."
    );
}

#[test]
fn refusals() {
    assert_eq!(elder_refusal(false), Some(s_("You need the Elder role to use this command.")));
    assert_eq!(elder_refusal(true), None);
    assert_eq!(start_refusal(false, true), Some(s_("You need the Elder role to start a tournament.")));
    assert_eq!(
        start_refusal(true, true),
        Some(s_("A tournament is already running. Cancel it first with /tournament-cancel."))
    );
    assert_eq!(start_refusal(true, false), None);
    assert_eq!(cancel_refusal(false, false), Some(s_("You need the Elder role to cancel a tournament.")));
    assert_eq!(cancel_refusal(true, false), Some(s_("No tournament is currently running.")));
    assert_eq!(cancel_refusal(true, true), None);
}

fn s_(x: &str) -> String {
    x.to_string()
}
