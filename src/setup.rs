//! The game setup form: its state from the configured defaults, the
//! create-game request it describes, the command-line spellings of a mode
//! and a race, and which bot processes it starts.
use vstd::prelude::*;

use crate::settings::GameConfigPanelDefaults;

verus! {

#[derive(Clone, Copy, Debug, PartialEq, Eq, Structural)]
pub enum GameType {
    VsAI,
    VsBot,
}

#[derive(Clone, Copy, Debug, PartialEq, Eq, Structural)]
pub enum Race {
    Terran,
    Zerg,
    Protoss,
    Random,
}

#[derive(Clone, Copy, Debug, PartialEq, Eq, Structural)]
pub enum Difficulty {
    Easy,
    Medium,
    Hard,
    CheatInsane,
}

#[derive(Clone, Copy, Debug, PartialEq, Eq, Structural)]
pub enum PlayerType {
    Participant,
    Computer,
}

/// The text of an optional string.
pub open spec fn text_of(o: Option<String>) -> Option<Seq<char>> {
    match o {
        Some(s) => Some(s@),
        None => None,
    }
}

fn text_is(s: &str, lit: &str) -> (r: bool)
    ensures
        r == (s@ == lit@),
{
    String::from_str(s) == String::from_str(lit)
}

fn copy_text(o: &Option<String>) -> (r: Option<String>)
    ensures
        text_of(r) == text_of(*o),
{
    match o {
        Some(s) => Some(s.clone()),
        None => None,
    }
}

pub uninterp spec fn lower_of(s: Seq<char>) -> Seq<char>;

/// Relies on `str::to_lowercase`: the lower-case form depends on the
/// characters alone.
#[verifier::external_body]
fn lowercase(s: &str) -> (r: String)
    ensures
        r@ == lower_of(s@),
{
    s.to_lowercase()
}

/// The mode that a lower-case spelling names.
pub open spec fn game_type_named(lower: Seq<char>) -> Option<GameType> {
    if lower == "vsai"@ {
        Some(GameType::VsAI)
    } else if lower == "vsbot"@ {
        Some(GameType::VsBot)
    } else {
        None
    }
}

/// The race that a lower-case spelling names.
pub open spec fn race_named(lower: Seq<char>) -> Option<Race> {
    if lower == "terran"@ {
        Some(Race::Terran)
    } else if lower == "zerg"@ {
        Some(Race::Zerg)
    } else if lower == "protoss"@ {
        Some(Race::Protoss)
    } else if lower == "random"@ {
        Some(Race::Random)
    } else {
        None
    }
}

/// The mode that an already lower-cased spelling names.
pub fn game_type_from_lowercase(lower: &str) -> (r: Option<GameType>)
    ensures
        r == game_type_named(lower@),
{
    if text_is(lower, "vsai") {
        Some(GameType::VsAI)
    } else if text_is(lower, "vsbot") {
        Some(GameType::VsBot)
    } else {
        None
    }
}

/// The race that an already lower-cased spelling names.
pub fn race_from_lowercase(lower: &str) -> (r: Option<Race>)
    ensures
        r == race_named(lower@),
{
    if text_is(lower, "terran") {
        Some(Race::Terran)
    } else if text_is(lower, "zerg") {
        Some(Race::Zerg)
    } else if text_is(lower, "protoss") {
        Some(Race::Protoss)
    } else if text_is(lower, "random") {
        Some(Race::Random)
    } else {
        None
    }
}

/// The mode named on the command line, in any letter case.
pub fn parse_game_type(mode: &str) -> (r: Option<GameType>)
    ensures
        r == game_type_named(lower_of(mode@)),
{
    let lower = lowercase(mode);
    game_type_from_lowercase(lower.as_str())
}

/// The race named on the command line, in any letter case.
pub fn parse_race(race: &str) -> (r: Option<Race>)
    ensures
        r == race_named(lower_of(race@)),
{
    let lower = lowercase(race);
    race_from_lowercase(lower.as_str())
}

/// The state of the game setup form.
pub struct GameConfigPanel {
    pub game_type: GameType,
    pub map_name: Option<String>,
    pub available_maps: Vec<String>,
    pub player_name: String,
    pub ai_difficulty: Option<String>,
    pub ai_race: Option<Race>,
    pub bot_name: Option<String>,
    pub disable_fog: bool,
    pub random_seed: Option<u32>,
    pub realtime: bool,
    pub bot_command: String,
    pub bot_opponent_command: String,
}

/// The race of a configured name, spelled as the form spells it; anything
/// else is random.
pub open spec fn configured_race(name: Option<Seq<char>>) -> Race {
    match name {
        Some(n) => if n == "Terran"@ {
            Race::Terran
        } else if n == "Protoss"@ {
            Race::Protoss
        } else if n == "Zerg"@ {
            Race::Zerg
        } else {
            Race::Random
        },
        None => Race::Random,
    }
}

pub open spec fn or_false(b: Option<bool>) -> bool {
    match b {
        Some(v) => v,
        None => false,
    }
}

impl GameConfigPanel {
    /// The form as the defaults fill it: a mode of "VsBot" picks games
    /// against a bot (any other, or none, against the AI); without a
    /// configured map, the first available one; "Player1" without a player
    /// name; the AI race by name, random otherwise; switches off and
    /// commands empty unless configured.
    pub fn from_defaults(defaults: &GameConfigPanelDefaults, available_maps: Vec<String>) -> (r: Self)
        ensures
            r.game_type == (if text_of(defaults.game_type) == Some("VsBot"@) {
                GameType::VsBot
            } else {
                GameType::VsAI
            }),
            text_of(r.map_name) == (if defaults.map_name is Some {
                text_of(defaults.map_name)
            } else if available_maps@.len() > 0 {
                Some(available_maps@[0]@)
            } else {
                None
            }),
            r.available_maps@ == available_maps@,
            r.player_name@ == (match defaults.player_name {
                Some(n) => n@,
                None => "Player1"@,
            }),
            text_of(r.ai_difficulty) == text_of(defaults.ai_difficulty),
            r.ai_race == Some(configured_race(text_of(defaults.ai_race))),
            text_of(r.bot_name) == text_of(defaults.bot_name),
            r.disable_fog == or_false(defaults.disable_fog),
            r.random_seed == defaults.random_seed,
            r.realtime == or_false(defaults.realtime),
            r.bot_command@ == (match defaults.bot_command {
                Some(c) => c@,
                None => Seq::<char>::empty(),
            }),
            r.bot_opponent_command@ == (match defaults.bot_opponent_command {
                Some(c) => c@,
                None => Seq::<char>::empty(),
            }),
    {
        let game_type = match &defaults.game_type {
            Some(g) => if text_is(g.as_str(), "VsBot") {
                GameType::VsBot
            } else {
                GameType::VsAI
            },
            None => GameType::VsAI,
        };
        let map_name = match &defaults.map_name {
            Some(m) => Some(m.clone()),
            None => if available_maps.len() > 0 {
                Some(available_maps[0].clone())
            } else {
                None
            },
        };
        let player_name = match &defaults.player_name {
            Some(n) => n.clone(),
            None => String::from_str("Player1"),
        };
        let ai_race = match &defaults.ai_race {
            Some(n) => if text_is(n.as_str(), "Terran") {
                Race::Terran
            } else if text_is(n.as_str(), "Protoss") {
                Race::Protoss
            } else if text_is(n.as_str(), "Zerg") {
                Race::Zerg
            } else {
                Race::Random
            },
            None => Race::Random,
        };
        let bot_command = match &defaults.bot_command {
            Some(c) => c.clone(),
            None => String::new(),
        };
        let bot_opponent_command = match &defaults.bot_opponent_command {
            Some(c) => c.clone(),
            None => String::new(),
        };
        GameConfigPanel {
            game_type,
            map_name,
            available_maps,
            player_name,
            ai_difficulty: copy_text(&defaults.ai_difficulty),
            ai_race: Some(ai_race),
            bot_name: copy_text(&defaults.bot_name),
            disable_fog: match defaults.disable_fog {
                Some(v) => v,
                None => false,
            },
            random_seed: defaults.random_seed,
            realtime: match defaults.realtime {
                Some(v) => v,
                None => false,
            },
            bot_command,
            bot_opponent_command,
        }
    }
}

/// One seat of a game to create.
pub struct PlayerSetupPlan {
    pub player_type: PlayerType,
    pub race: Race,
    pub difficulty: Option<Difficulty>,
    pub player_name: Option<String>,
}

/// The content of a create-game request.
pub struct CreateGamePlan {
    pub map_path: String,
    pub players: Vec<PlayerSetupPlan>,
    pub disable_fog: bool,
    pub realtime: bool,
    pub random_seed: Option<u32>,
}

/// The AI strength that a difficulty name picks; medium for any other name.
pub open spec fn difficulty_named(name: Option<Seq<char>>) -> Difficulty {
    match name {
        Some(n) => if n == "Easy"@ {
            Difficulty::Easy
        } else if n == "Hard"@ {
            Difficulty::Hard
        } else if n == "Cheat"@ {
            Difficulty::CheatInsane
        } else {
            Difficulty::Medium
        },
        None => Difficulty::Medium,
    }
}

/// The create-game request that the form describes: the player joins as a
/// random-race participant under its name; the opponent is the computer at
/// the chosen race (random if none) and strength in games against the AI,
/// and a random-race participant under the bot's name (empty if none) in
/// games against a bot. Without a map the form is incomplete.
pub fn build_create_game_request(panel: &GameConfigPanel) -> (r: Result<CreateGamePlan, String>)
    ensures
        match r {
            Ok(plan) => {
                &&& panel.map_name matches Some(m) && plan.map_path@ == m@
                &&& plan.players@.len() == 2
                &&& plan.players@[0].player_type == PlayerType::Participant
                &&& plan.players@[0].race == Race::Random
                &&& plan.players@[0].difficulty is None
                &&& text_of(plan.players@[0].player_name) == Some(panel.player_name@)
                &&& panel.game_type == GameType::VsAI ==> {
                    &&& plan.players@[1].player_type == PlayerType::Computer
                    &&& plan.players@[1].race == (match panel.ai_race {
                        Some(race) => race,
                        None => Race::Random,
                    })
                    &&& plan.players@[1].difficulty == Some(difficulty_named(text_of(panel.ai_difficulty)))
                    &&& plan.players@[1].player_name is None
                }
                &&& panel.game_type == GameType::VsBot ==> {
                    &&& plan.players@[1].player_type == PlayerType::Participant
                    &&& plan.players@[1].race == Race::Random
                    &&& plan.players@[1].difficulty is None
                    &&& text_of(plan.players@[1].player_name) == Some(match panel.bot_name {
                        Some(n) => n@,
                        None => Seq::<char>::empty(),
                    })
                }
                &&& plan.disable_fog == panel.disable_fog
                &&& plan.realtime == panel.realtime
                &&& plan.random_seed == panel.random_seed
            },
            Err(msg) => panel.map_name is None && msg@ == "Please select a map and fill all required fields."@,
        },
{
    let map_name = match &panel.map_name {
        Some(m) => m.clone(),
        None => return Err(String::from_str("Please select a map and fill all required fields.")),
    };
    let participant = PlayerSetupPlan {
        player_type: PlayerType::Participant,
        race: Race::Random,
        difficulty: None,
        player_name: Some(panel.player_name.clone()),
    };
    let opponent = match panel.game_type {
        GameType::VsAI => {
            let difficulty = match &panel.ai_difficulty {
                Some(n) => if text_is(n.as_str(), "Easy") {
                    Difficulty::Easy
                } else if text_is(n.as_str(), "Hard") {
                    Difficulty::Hard
                } else if text_is(n.as_str(), "Cheat") {
                    Difficulty::CheatInsane
                } else {
                    Difficulty::Medium
                },
                None => Difficulty::Medium,
            };
            PlayerSetupPlan {
                player_type: PlayerType::Computer,
                race: match panel.ai_race {
                    Some(race) => race,
                    None => Race::Random,
                },
                difficulty: Some(difficulty),
                player_name: None,
            }
        },
        GameType::VsBot => PlayerSetupPlan {
            player_type: PlayerType::Participant,
            race: Race::Random,
            difficulty: None,
            player_name: Some(
                match &panel.bot_name {
                    Some(n) => n.clone(),
                    None => String::new(),
                },
            ),
        },
    };
    let mut players: Vec<PlayerSetupPlan> = Vec::new();
    players.push(participant);
    players.push(opponent);
    Ok(
        CreateGamePlan {
            map_path: map_name,
            players,
            disable_fog: panel.disable_fog,
            realtime: panel.realtime,
            random_seed: panel.random_seed,
        },
    )
}

/// The bot processes to start once a game is created.
pub struct StartBotProcessesEvent {
    pub player_bot_command: Option<String>,
    pub opponent_bot_command: Option<String>,
}

/// The bots that the form asks for: the player's bot when its command is
/// not empty, the opponent's when its command is not empty and the game is
/// against a bot; nothing when neither is asked for.
pub fn bot_processes_to_start(panel: &GameConfigPanel) -> (r: Option<StartBotProcessesEvent>)
    ensures
        match r {
            Some(ev) => {
                &&& text_of(ev.player_bot_command) == (if panel.bot_command@.len() > 0 {
                    Some(panel.bot_command@)
                } else {
                    None
                })
                &&& text_of(ev.opponent_bot_command) == (if panel.bot_opponent_command@.len() > 0
                    && panel.game_type == GameType::VsBot {
                    Some(panel.bot_opponent_command@)
                } else {
                    None
                })
                &&& (ev.player_bot_command is Some || ev.opponent_bot_command is Some)
            },
            None => panel.bot_command@.len() == 0 && (panel.bot_opponent_command@.len() == 0
                || panel.game_type != GameType::VsBot),
        },
{
    let player = if !panel.bot_command.as_str().is_empty() {
        Some(panel.bot_command.clone())
    } else {
        None
    };
    let opponent = if !panel.bot_opponent_command.as_str().is_empty() && panel.game_type
        == GameType::VsBot {
        Some(panel.bot_opponent_command.clone())
    } else {
        None
    };
    if player.is_none() && opponent.is_none() {
        None
    } else {
        Some(StartBotProcessesEvent { player_bot_command: player, opponent_bot_command: opponent })
    }
}

} // verus!
