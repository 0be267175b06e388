//! Bookkeeping of the bot processes that a created game starts.
use vstd::prelude::*;

use crate::setup::StartBotProcessesEvent;

verus! {

/// Whose bot a process runs.
#[derive(Clone, Copy, Debug, PartialEq, Eq, Structural)]
pub enum BotSide {
    Player,
    Opponent,
}

/// A bot command to run, and whose bot it is.
pub struct BotLaunch {
    pub side: BotSide,
    pub command: String,
}

/// The processes an event asks for, player first; an absent or empty
/// command starts nothing.
pub fn bots_to_launch(event: &StartBotProcessesEvent) -> (r: Vec<BotLaunch>)
    ensures
        r@.len() <= 2,
        forall|i: int| 0 <= i < r@.len() ==> (#[trigger] r@[i]).command@.len() > 0,
        (exists|i: int| 0 <= i < r@.len() && (#[trigger] r@[i]).side == BotSide::Player) <==> (
        event.player_bot_command matches Some(c) && c@.len() > 0),
        (exists|i: int| 0 <= i < r@.len() && (#[trigger] r@[i]).side == BotSide::Opponent) <==> (
        event.opponent_bot_command matches Some(c) && c@.len() > 0),
        forall|i: int|
            0 <= i < r@.len() ==> match (#[trigger] r@[i]).side {
                BotSide::Player => event.player_bot_command matches Some(c) && r@[i].command@ == c@ && i == 0,
                BotSide::Opponent => event.opponent_bot_command matches Some(c) && r@[i].command@ == c@,
            },
{
    let mut r: Vec<BotLaunch> = Vec::new();
    match &event.player_bot_command {
        Some(c) => if !c.as_str().is_empty() {
            r.push(BotLaunch { side: BotSide::Player, command: c.clone() });
        },
        None => {},
    }
    let ghost first = r@;
    match &event.opponent_bot_command {
        Some(c) => if !c.as_str().is_empty() {
            r.push(BotLaunch { side: BotSide::Opponent, command: c.clone() });
            assert(r@[r@.len() - 1].side == BotSide::Opponent);
        },
        None => {},
    }
    proof {
        if first.len() == 1 {
            assert(r@[0] == first[0]);
        }
    }
    r
}

/// What is known of the two bot processes.
pub struct BotProcessStatus {
    pub player_bot_running: bool,
    pub opponent_bot_running: bool,
    pub player_bot_output: Vec<String>,
    pub opponent_bot_output: Vec<String>,
    pub player_bot_error: Option<String>,
    pub opponent_bot_error: Option<String>,
}

impl BotProcessStatus {
    pub fn new() -> (r: Self)
        ensures
            !r.player_bot_running && !r.opponent_bot_running,
            r.player_bot_output@.len() == 0 && r.opponent_bot_output@.len() == 0,
            r.player_bot_error is None && r.opponent_bot_error is None,
    {
        BotProcessStatus {
            player_bot_running: false,
            opponent_bot_running: false,
            player_bot_output: Vec::new(),
            opponent_bot_output: Vec::new(),
            player_bot_error: None,
            opponent_bot_error: None,
        }
    }

    /// A process was started: it runs, with no output and no error yet.
    pub fn started(&mut self, side: BotSide)
        ensures
            side == BotSide::Player ==> {
                &&& final(self).player_bot_running
                &&& final(self).player_bot_output@.len() == 0
                &&& final(self).player_bot_error is None
                &&& final(self).opponent_bot_running == old(self).opponent_bot_running
                &&& final(self).opponent_bot_output == old(self).opponent_bot_output
                &&& final(self).opponent_bot_error == old(self).opponent_bot_error
            },
            side == BotSide::Opponent ==> {
                &&& final(self).opponent_bot_running
                &&& final(self).opponent_bot_output@.len() == 0
                &&& final(self).opponent_bot_error is None
                &&& final(self).player_bot_running == old(self).player_bot_running
                &&& final(self).player_bot_output == old(self).player_bot_output
                &&& final(self).player_bot_error == old(self).player_bot_error
            },
    {
        match side {
            BotSide::Player => {
                self.player_bot_running = true;
                self.player_bot_error = None;
                self.player_bot_output = Vec::new();
            },
            BotSide::Opponent => {
                self.opponent_bot_running = true;
                self.opponent_bot_error = None;
                self.opponent_bot_output = Vec::new();
            },
        }
    }

    /// A process ended: it no longer runs, and keeps its output lines on
    /// success or its error otherwise.
    pub fn finished(&mut self, side: BotSide, result: Result<Vec<String>, String>)
        ensures
            side == BotSide::Player ==> {
                &&& !final(self).player_bot_running
                &&& match result {
                    Ok(lines) => final(self).player_bot_output == lines && final(self).player_bot_error == old(self).player_bot_error,
                    Err(e) => final(self).player_bot_error == Some(e) && final(self).player_bot_output == old(self).player_bot_output,
                }
                &&& final(self).opponent_bot_running == old(self).opponent_bot_running
                &&& final(self).opponent_bot_output == old(self).opponent_bot_output
                &&& final(self).opponent_bot_error == old(self).opponent_bot_error
            },
            side == BotSide::Opponent ==> {
                &&& !final(self).opponent_bot_running
                &&& match result {
                    Ok(lines) => final(self).opponent_bot_output == lines && final(self).opponent_bot_error == old(self).opponent_bot_error,
                    Err(e) => final(self).opponent_bot_error == Some(e) && final(self).opponent_bot_output == old(self).opponent_bot_output,
                }
                &&& final(self).player_bot_running == old(self).player_bot_running
                &&& final(self).player_bot_output == old(self).player_bot_output
                &&& final(self).player_bot_error == old(self).player_bot_error
            },
    {
        match side {
            BotSide::Player => {
                self.player_bot_running = false;
                match result {
                    Ok(lines) => self.player_bot_output = lines,
                    Err(e) => self.player_bot_error = Some(e),
                }
            },
            BotSide::Opponent => {
                self.opponent_bot_running = false;
                match result {
                    Ok(lines) => self.opponent_bot_output = lines,
                    Err(e) => self.opponent_bot_error = Some(e),
                }
            },
        }
    }
}

} // verus!
