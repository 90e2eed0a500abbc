# pixelbot

A Discord bot for a gaming clan: members record their in-game names per game,
and elders run elimination tournaments decided by reaction polls.

- `src/` is the verified library (Verus): games and their storage keys, the
  elder check, the texts the bot answers with, and the tournament itself —
  seeding, the draw, resolving byes, tallying polls and advancing rounds —
  with laws about which contestants stay in play (`src/tournament/laws.rs`).
- `app/` is the bot around it: command-line arguments, the configuration file,
  the Fjall database, the Discord commands (poise/serenity) and the periodic
  tournament runner. It performs the storage and chat work the library decides.
- `tests/` exercises the library on concrete values.
