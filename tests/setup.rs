use aiurgaze::proxy::{EngineAction, GameDelta, ProxyCommand, ProxyEvent, ProxySession};
use aiurgaze::settings::{GameConfigPanelDefaults, StarcraftConfig};
use aiurgaze::setup::{
    bot_processes_to_start, build_create_game_request, game_type_from_lowercase, parse_game_type, parse_race,
    Difficulty, GameConfigPanel, GameType, PlayerType, Race,
};

#[test]
fn modes_and_races_ignore_case() {
    assert_eq!(parse_game_type("VsAI"), Some(GameType::VsAI));
    assert_eq!(parse_game_type("vsBot"), Some(GameType::VsBot));
    assert_eq!(parse_game_type("ladder"), None);
    assert_eq!(parse_race("ZERG"), Some(Race::Zerg));
    assert_eq!(parse_race("Random"), Some(Race::Random));
    assert_eq!(parse_race("elf"), None);
    assert_eq!(game_type_from_lowercase("VsAI"), None);
}

#[test]
fn form_from_empty_defaults() {
    let maps = vec!["A.SC2Map".to_string(), "B.SC2Map".to_string()];
    let p = GameConfigPanel::from_defaults(&GameConfigPanelDefaults::default(), maps);
    assert_eq!(p.game_type, GameType::VsAI);
    assert_eq!(p.map_name.as_deref(), Some("A.SC2Map"));
    assert_eq!(p.player_name, "Player1");
    assert_eq!(p.ai_race, Some(Race::Random));
    assert!(!p.disable_fog && !p.realtime);
    assert!(bot_processes_to_start(&p).is_none());
}

#[test]
fn vs_ai_request() {
    let d = GameConfigPanelDefaults {
        map_name: Some("M.SC2Map".to_string()),
        ai_difficulty: Some("Hard".to_string()),
        ai_race: Some("Protoss".to_string()),
        random_seed: Some(9),
        disable_fog: Some(true),
        ..GameConfigPanelDefaults::default()
    };
    let p = GameConfigPanel::from_defaults(&d, vec![]);
    let plan = build_create_game_request(&p).unwrap();
    assert_eq!(plan.map_path, "M.SC2Map");
    assert_eq!(plan.players.len(), 2);
    assert_eq!(plan.players[0].player_type, PlayerType::Participant);
    assert_eq!(plan.players[0].player_name.as_deref(), Some("Player1"));
    assert_eq!(plan.players[1].player_type, PlayerType::Computer);
    assert_eq!(plan.players[1].race, Race::Protoss);
    assert_eq!(plan.players[1].difficulty, Some(Difficulty::Hard));
    assert_eq!(plan.random_seed, Some(9));
    assert!(plan.disable_fog);
}

#[test]
fn vs_bot_request_and_bots() {
    let d = GameConfigPanelDefaults {
        game_type: Some("VsBot".to_string()),
        bot_name: Some("rival".to_string()),
        bot_command: Some("./me".to_string()),
        bot_opponent_command: Some("./them".to_string()),
        ..GameConfigPanelDefaults::default()
    };
    let p = GameConfigPanel::from_defaults(&d, vec!["X.SC2Map".to_string()]);
    let plan = build_create_game_request(&p).unwrap();
    assert_eq!(plan.players[1].player_type, PlayerType::Participant);
    assert_eq!(plan.players[1].player_name.as_deref(), Some("rival"));
    assert_eq!(plan.players[1].difficulty, None);
    let ev = bot_processes_to_start(&p).unwrap();
    assert_eq!(ev.player_bot_command.as_deref(), Some("./me"));
    assert_eq!(ev.opponent_bot_command.as_deref(), Some("./them"));
}

#[test]
fn request_without_map_is_refused() {
    let p = GameConfigPanel::from_defaults(&GameConfigPanelDefaults::default(), vec![]);
    let err = build_create_game_request(&p).err().unwrap();
    assert_eq!(err, "Please select a map and fill all required fields.");
}

#[test]
fn starcraft_defaults() {
    let c = StarcraftConfig::default();
    assert_eq!(c.upstream_url, "ws://127.0.0.1");
    assert_eq!(c.upstream_port, 5555);
    assert_eq!(c.listen_port, 5000);
    assert_eq!(c.container_name, "aiurgaze-sc2");
}

#[test]
fn command_loop_answers() {
    let mut s = ProxySession::new();
    let r = s.handle(&ProxyCommand::Step { frames: 1 });
    assert!(matches!(r.event, Some(ProxyEvent::Error(ref m)) if m == "Not connected"));
    let r = s.handle(&ProxyCommand::Connect { addr: "x".to_string() });
    assert_eq!(r.action, EngineAction::Connect);
    let r = s.handle(&ProxyCommand::Step { frames: 1 });
    assert!(matches!(r.event, Some(ProxyEvent::GameStateDelta(GameDelta::Tick))));
    let r = s.handle(&ProxyCommand::CreateGame { map: "m".to_string(), players: vec![] });
    assert_eq!(r.action, EngineAction::SendCreateGame);
    let r = s.handle(&ProxyCommand::LeaveGame);
    assert!(matches!(r.event, Some(ProxyEvent::Disconnected { ref reason }) if reason == "Left game"));
    let r = s.handle(&ProxyCommand::LeaveGame);
    assert!(matches!(r.event, Some(ProxyEvent::Error(_))));
}
