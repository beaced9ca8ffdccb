//! Messages between a service bunch and the controller above it.

use vstd::prelude::*;
use crate::connect_addr::{ConnectAddr, ConnectAddrView, addrs_view};

verus! {

/// Type for communication between a service bunch and any higher controller
/// type.
#[derive(Debug)]
#[allow(inconsistent_fields)]
pub enum Message {
    // From controller
    StartUpdate,
    Shutdown,
    // From HealthCheck module
    HealthCheckFailed(ConnectAddr),
    // To Controller
    UnitSpawned(String, ConnectAddr),
    UnitsSpawned(String, Vec<ConnectAddr>),
    UnitDespawned(String, ConnectAddr),
    UnitsDespawned(String, Vec<ConnectAddr>),
    UnitReplaced { name: String, old: ConnectAddr, new: ConnectAddr },
    UpdateFail { name: String, old: Vec<ConnectAddr>, new: Vec<ConnectAddr> },
    UpdateFinished(String),
}

/// The mathematical value of a `Message`.
#[allow(inconsistent_fields)]
pub enum MessageView {
    StartUpdate,
    Shutdown,
    HealthCheckFailed(ConnectAddrView),
    UnitSpawned(Seq<char>, ConnectAddrView),
    UnitsSpawned(Seq<char>, Seq<ConnectAddrView>),
    UnitDespawned(Seq<char>, ConnectAddrView),
    UnitsDespawned(Seq<char>, Seq<ConnectAddrView>),
    UnitReplaced { name: Seq<char>, old: ConnectAddrView, new: ConnectAddrView },
    UpdateFail { name: Seq<char>, old: Seq<ConnectAddrView>, new: Seq<ConnectAddrView> },
    UpdateFinished(Seq<char>),
}

impl View for Message {
    type V = MessageView;

    open spec fn view(&self) -> MessageView {
        match self {
            Message::StartUpdate => MessageView::StartUpdate,
            Message::Shutdown => MessageView::Shutdown,
            Message::HealthCheckFailed(a) => MessageView::HealthCheckFailed(a@),
            Message::UnitSpawned(n, a) => MessageView::UnitSpawned(n@, a@),
            Message::UnitsSpawned(n, a) => MessageView::UnitsSpawned(n@, addrs_view(a@)),
            Message::UnitDespawned(n, a) => MessageView::UnitDespawned(n@, a@),
            Message::UnitsDespawned(n, a) => MessageView::UnitsDespawned(n@, addrs_view(a@)),
            Message::UnitReplaced { name, old, new } => MessageView::UnitReplaced {
                name: name@,
                old: old@,
                new: new@,
            },
            Message::UpdateFail { name, old, new } => MessageView::UpdateFail {
                name: name@,
                old: addrs_view(old@),
                new: addrs_view(new@),
            },
            Message::UpdateFinished(n) => MessageView::UpdateFinished(n@),
        }
    }
}

} // verus!
