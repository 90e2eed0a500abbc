//! Bot settings.

use vstd::prelude::*;

verus! {

/// The bot's settings, as read from its configuration file.
#[derive(Clone, Debug)]
pub struct Config {
    pub token: String,
    pub guild_id: Option<u64>,
    pub member_role_id: u64,
    pub elder_role_id: u64,
    pub db_path: Option<String>,
    pub polling_channel_id: u64,
}

/// The database location used when neither the command line nor the
/// configuration names one.
pub open spec fn default_db_path() -> Seq<char> {
    "./pixelbot.db"@
}

/// The database location: the command-line override, else the configured
/// path, else `./pixelbot.db`.
pub fn choose_db_path(cli: &Option<String>, configured: &Option<String>) -> (path: String)
    ensures
        path@ == match cli {
            Some(p) => p@,
            None => match configured {
                Some(p) => p@,
                None => default_db_path(),
            },
        },
{
    match cli {
        Some(p) => p.clone(),
        None => match configured {
            Some(p) => p.clone(),
            None => String::from_str("./pixelbot.db"),
        },
    }
}

} // verus!
