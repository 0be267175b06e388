use aiurgaze::bots::{bots_to_launch, BotProcessStatus, BotSide};
use aiurgaze::catalog::{ability_name_by_id, AbilityData, EntitySystem, UnitData};
use aiurgaze::setup::StartBotProcessesEvent;

fn ability(id: u32, name: &str) -> AbilityData {
    AbilityData { id, name: name.to_string() }
}

#[test]
fn first_listed_ability_name_wins() {
    let list = vec![ability(1, "Move"), ability(2, "Attack"), ability(2, "AttackAgain")];
    assert_eq!(ability_name_by_id(&list, 2).as_deref(), Some("Attack"));
    assert_eq!(ability_name_by_id(&list, 3), None);
}

#[test]
fn catalogue_looks_up_names() {
    let units = vec![UnitData { id: 48, name: "Marine".to_string() }, UnitData { id: 48, name: "Marine2".to_string() }];
    let abilities = vec![ability(16, "Move")];
    let es = EntitySystem::load(&units, &abilities);
    assert_eq!(es.unit_name(48).as_deref(), Some("Marine2"));
    assert_eq!(es.unit_name(49), None);
    assert_eq!(es.ability_name(16).as_deref(), Some("Move"));
    assert_eq!(es.ability_name(1), None);
}

#[test]
fn bots_start_for_non_empty_commands() {
    let ev = StartBotProcessesEvent { player_bot_command: Some(String::new()), opponent_bot_command: Some("./b".to_string()) };
    let l = bots_to_launch(&ev);
    assert_eq!(l.len(), 1);
    assert_eq!(l[0].side, BotSide::Opponent);
    assert_eq!(l[0].command, "./b");
    let ev = StartBotProcessesEvent { player_bot_command: Some("./a".to_string()), opponent_bot_command: None };
    let l = bots_to_launch(&ev);
    assert_eq!(l.len(), 1);
    assert_eq!(l[0].side, BotSide::Player);
}

#[test]
fn bot_status_follows_processes() {
    let mut s = BotProcessStatus::new();
    s.started(BotSide::Player);
    assert!(s.player_bot_running && !s.opponent_bot_running);
    s.finished(BotSide::Player, Ok(vec!["hi".to_string()]));
    assert!(!s.player_bot_running);
    assert_eq!(s.player_bot_output, vec!["hi".to_string()]);
    s.started(BotSide::Opponent);
    s.finished(BotSide::Opponent, Err("boom".to_string()));
    assert_eq!(s.opponent_bot_error.as_deref(), Some("boom"));
    s.started(BotSide::Player);
    assert!(s.player_bot_output.is_empty());
}
