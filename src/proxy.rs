//! The command loop of an interactive session with the engine: commands
//! from the user interface, events back to it, and the requests that the
//! caller is to send.
use vstd::prelude::*;

verus! {

/// The engine endpoint that a connect command opens.
pub const ENGINE_URL: &'static str = "ws://127.0.0.1:5000/sc2api";

#[derive(Clone, Debug)]
pub struct PlayerConfig {
    pub name: Option<String>,
}

#[derive(Clone, Debug)]
pub enum ProxyCommand {
    Connect { addr: String },
    CreateGame { map: String, players: Vec<PlayerConfig> },
    Step { frames: u32 },
    LeaveGame,
}

#[derive(Clone, Copy, Debug, PartialEq, Eq, Structural)]
pub enum GameDelta {
    Tick,
}

#[derive(Clone, Debug)]
pub enum ProxyEvent {
    Connected,
    Disconnected { reason: String },
    GameCreated { map: String },
    GameStateDelta(GameDelta),
    Error(String),
}

/// What the caller is to do with the engine for a command.
#[derive(Clone, Copy, Debug, PartialEq, Eq, Structural)]
pub enum EngineAction {
    /// Open the engine connection at `ENGINE_URL`.
    Connect,
    /// Send the standard create-game request and wait for its response.
    SendCreateGame,
    Nothing,
}

/// The answer to one command: the event for the user interface, if any,
/// and the engine work to do.
pub struct CommandOutcome {
    pub event: Option<ProxyEvent>,
    pub action: EngineAction,
}

/// The text of the event of an outcome, by kind.
pub open spec fn error_text(e: Option<ProxyEvent>) -> Option<Seq<char>> {
    match e {
        Some(ProxyEvent::Error(m)) => Some(m@),
        _ => None,
    }
}

/// Whether a session is connected to the engine.
pub struct ProxySession {
    connected: bool,
}

impl ProxySession {
    pub closed spec fn is_connected(&self) -> bool {
        self.connected
    }

    pub fn new() -> (r: Self)
        ensures
            !r.is_connected(),
    {
        ProxySession { connected: false }
    }

    /// Handles one command. Before a connection only a connect command is
    /// taken (any other is answered "Not connected"); once connected, a
    /// create-game command sends the request, a step reports a tick,
    /// leaving reports the disconnection and ends the connection, and a
    /// second connect is answered "Already connected".
    pub fn handle(&mut self, cmd: &ProxyCommand) -> (r: CommandOutcome)
        ensures
            !old(self).is_connected() ==> match cmd {
                ProxyCommand::Connect { .. } => final(self).is_connected() && r.event is None
                    && r.action == EngineAction::Connect,
                _ => !final(self).is_connected() && error_text(r.event) == Some("Not connected"@)
                    && r.action == EngineAction::Nothing,
            },
            old(self).is_connected() ==> match cmd {
                ProxyCommand::Connect { .. } => final(self).is_connected() && error_text(r.event)
                    == Some("Already connected"@) && r.action == EngineAction::Nothing,
                ProxyCommand::CreateGame { .. } => final(self).is_connected() && r.event is None
                    && r.action == EngineAction::SendCreateGame,
                ProxyCommand::Step { .. } => final(self).is_connected() && (r.event matches Some(
                    ProxyEvent::GameStateDelta(GameDelta::Tick),
                )) && r.action == EngineAction::Nothing,
                ProxyCommand::LeaveGame => !final(self).is_connected() && (r.event matches Some(
                    ProxyEvent::Disconnected { reason },
                ) && reason@ == "Left game"@) && r.action == EngineAction::Nothing,
            },
    {
        if !self.connected {
            match cmd {
                ProxyCommand::Connect { .. } => {
                    self.connected = true;
                    CommandOutcome { event: None, action: EngineAction::Connect }
                },
                _ => CommandOutcome {
                    event: Some(ProxyEvent::Error(String::from_str("Not connected"))),
                    action: EngineAction::Nothing,
                },
            }
        } else {
            match cmd {
                ProxyCommand::Connect { .. } => CommandOutcome {
                    event: Some(ProxyEvent::Error(String::from_str("Already connected"))),
                    action: EngineAction::Nothing,
                },
                ProxyCommand::CreateGame { .. } => CommandOutcome {
                    event: None,
                    action: EngineAction::SendCreateGame,
                },
                ProxyCommand::Step { .. } => CommandOutcome {
                    event: Some(ProxyEvent::GameStateDelta(GameDelta::Tick)),
                    action: EngineAction::Nothing,
                },
                ProxyCommand::LeaveGame => {
                    self.connected = false;
                    CommandOutcome {
                        event: Some(ProxyEvent::Disconnected { reason: String::from_str("Left game") }),
                        action: EngineAction::Nothing,
                    }
                },
            }
        }
    }
}

} // verus!
