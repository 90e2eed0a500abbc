use vstd::prelude::*;

verus! {

/// The games whose in-game names the clan keeps track of.
#[derive(Clone, Copy, Debug, PartialEq, Eq, Structural)]
pub enum Game {
    NexusStation,
    PixelWorlds,
}

/// Storage partition name of a game's in-game names.
pub open spec fn partition_key_of(g: Game) -> Seq<char> {
    match g {
        Game::NexusStation => "igns_nexus_station"@,
        Game::PixelWorlds => "igns_pixel_worlds"@,
    }
}

/// Human-readable name of a game.
pub open spec fn display_of(g: Game) -> Seq<char> {
    match g {
        Game::NexusStation => "Nexus Station"@,
        Game::PixelWorlds => "Pixel Worlds"@,
    }
}

impl Game {
    pub fn partition_key(self) -> (key: &'static str)
        ensures
            key@ == partition_key_of(self),
    {
        match self {
            Game::NexusStation => "igns_nexus_station",
            Game::PixelWorlds => "igns_pixel_worlds",
        }
    }

    pub fn display(self) -> (name: &'static str)
        ensures
            name@ == display_of(self),
    {
        match self {
            Game::NexusStation => "Nexus Station",
            Game::PixelWorlds => "Pixel Worlds",
        }
    }

    /// The games in the order in which a member's names are listed.
    pub fn all() -> (games: Vec<Game>)
        ensures
            games@ == seq![Game::NexusStation, Game::PixelWorlds],
    {
        let mut games: Vec<Game> = Vec::new();
        games.push(Game::NexusStation);
        games.push(Game::PixelWorlds);
        games
    }
}

/// Different games keep their names in different partitions.
pub proof fn lemma_partition_keys_distinct(g1: Game, g2: Game)
    requires
        g1 != g2,
    ensures
        partition_key_of(g1) != partition_key_of(g2),
{
    reveal_strlit("igns_nexus_station");
    reveal_strlit("igns_pixel_worlds");
    assert(partition_key_of(Game::NexusStation)[5] != partition_key_of(Game::PixelWorlds)[5]);
}

} // verus!
