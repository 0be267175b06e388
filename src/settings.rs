//! Connection settings and the defaults of the game setup form.
use vstd::prelude::*;

verus! {

/// Where the engine listens, where the bot is awaited, and the container
/// that runs the engine.
#[derive(Clone, Debug)]
pub struct StarcraftConfig {
    pub upstream_url: String,
    pub upstream_port: u16,
    pub listen_url: String,
    pub listen_port: u16,
    pub image: String,
    pub container_name: String,
}

impl Default for StarcraftConfig {
    fn default() -> (r: Self)
        ensures
            r.upstream_url@ == "ws://127.0.0.1"@,
            r.upstream_port == 5555,
            r.listen_url@ == "127.0.0.1"@,
            r.listen_port == 5000,
            r.image@ == "minimal-sc2:latest"@,
            r.container_name@ == "aiurgaze-sc2"@,
    {
        StarcraftConfig {
            upstream_url: String::from_str("ws://127.0.0.1"),
            upstream_port: 5555,
            listen_url: String::from_str("127.0.0.1"),
            listen_port: 5000,
            image: String::from_str("minimal-sc2:latest"),
            container_name: String::from_str("aiurgaze-sc2"),
        }
    }
}

/// Values that pre-fill the game setup form; each one may be absent.
#[derive(Clone, Debug)]
pub struct GameConfigPanelDefaults {
    pub game_type: Option<String>,
    pub map_name: Option<String>,
    pub player_name: Option<String>,
    pub ai_difficulty: Option<String>,
    pub ai_race: Option<String>,
    pub bot_name: Option<String>,
    pub disable_fog: Option<bool>,
    pub random_seed: Option<u32>,
    pub realtime: Option<bool>,
    pub bot_command: Option<String>,
    pub bot_opponent_command: Option<String>,
}

impl Default for GameConfigPanelDefaults {
    fn default() -> (r: Self)
        ensures
            r.game_type is None,
            r.map_name is None,
            r.player_name is None,
            r.ai_difficulty is None,
            r.ai_race is None,
            r.bot_name is None,
            r.disable_fog is None,
            r.random_seed is None,
            r.realtime is None,
            r.bot_command is None,
            r.bot_opponent_command is None,
    {
        GameConfigPanelDefaults {
            game_type: None,
            map_name: None,
            player_name: None,
            ai_difficulty: None,
            ai_race: None,
            bot_name: None,
            disable_fog: None,
            random_seed: None,
            realtime: None,
            bot_command: None,
            bot_opponent_command: None,
        }
    }
}

} // verus!
