//! Commands a user sends to the running daemon, and the controller command
//! each one becomes.

use vstd::prelude::*;
use crate::bunch_controller::{Commands, CommandsView};

verus! {

/// Name of the service.
#[derive(Debug)]
pub struct ServiceName {
    pub name: String,
}

/// A command of the command line, sent over the daemon's socket.
#[derive(Debug)]
pub enum Command {
    /// Start service with name, specified in the config.
    Start(ServiceName),
    /// Stop service with name, specified in the config.
    Stop(ServiceName),
    /// Restart service with name, specified in the config.
    Restart(ServiceName),
}

pub enum CommandView {
    Start(Seq<char>),
    Stop(Seq<char>),
    Restart(Seq<char>),
}

impl View for Command {
    type V = CommandView;

    open spec fn view(&self) -> CommandView {
        match self {
            Command::Start(n) => CommandView::Start(n.name@),
            Command::Stop(n) => CommandView::Stop(n.name@),
            Command::Restart(n) => CommandView::Restart(n.name@),
        }
    }
}

/// The controller command for a command line command: start, stop or
/// restart of the one named service.
pub open spec fn controller_command(c: CommandView) -> CommandsView {
    match c {
        CommandView::Start(n) => CommandsView::StartServices(seq![n]),
        CommandView::Stop(n) => CommandsView::StopServices(seq![n]),
        CommandView::Restart(n) => CommandsView::RestartServices(seq![n]),
    }
}

fn single(name: String) -> (v: Vec<String>)
    ensures
        v.deep_view() == seq![name@],
{
    let v = vec![name];
    proof {
        assert(v.deep_view() =~= seq![name@]);
    }
    v
}

impl Command {
    /// The controller command this command becomes.
    pub fn into_controller_command(self) -> (c: Commands)
        ensures
            c@ == controller_command(self@),
    {
        match self {
            Command::Start(name) => Commands::StartServices(single(name.name)),
            Command::Stop(name) => Commands::StopServices(single(name.name)),
            Command::Restart(name) => Commands::RestartServices(single(name.name)),
        }
    }
}

} // verus!
