//! The decisions of the controller above all service bunches: which
//! services to start and stop on a command, what to answer on the command's
//! feedback stream, and what to run when a bunch reports its units (health
//! checks, the update script, the replacement of the stable executable).
//!
//! The channels, processes and tasks are the caller's; a connection to a
//! bunch carries the caller's sender `T`, which the controller only keeps
//! and hands back.

use vstd::prelude::*;
use vstd::string::*;
use crate::configuration::{Configuration, ServiceConfig, ServiceConfigView, configs_view, first_config_named, str_eq};
use crate::connect_addr::{ConnectAddr, ConnectAddrView, addr_text, addrs_view, clone_addrs, contains_addr};
use crate::message::{Message, MessageView};
use crate::paths::{paths_equal, same_path};
use crate::text::{join_path, path_join, push_str, to_owned_string};

verus! {

/// Commands the controller accepts.
#[derive(Debug)]
pub enum Commands {
    StartServices(Vec<String>),
    StopServices(Vec<String>),
    RestartServices(Vec<String>),
    SendStatusToStream(Vec<String>),
    StartAll,
    StopAll,
    RestartAll,
    Exit,
}

pub enum CommandsView {
    StartServices(Seq<Seq<char>>),
    StopServices(Seq<Seq<char>>),
    RestartServices(Seq<Seq<char>>),
    SendStatusToStream(Seq<Seq<char>>),
    StartAll,
    StopAll,
    RestartAll,
    Exit,
}

impl View for Commands {
    type V = CommandsView;

    open spec fn view(&self) -> CommandsView {
        match self {
            Commands::StartServices(v) => CommandsView::StartServices(v.deep_view()),
            Commands::StopServices(v) => CommandsView::StopServices(v.deep_view()),
            Commands::RestartServices(v) => CommandsView::RestartServices(v.deep_view()),
            Commands::SendStatusToStream(v) => CommandsView::SendStatusToStream(v.deep_view()),
            Commands::StartAll => CommandsView::StartAll,
            Commands::StopAll => CommandsView::StopAll,
            Commands::RestartAll => CommandsView::RestartAll,
            Commands::Exit => CommandsView::Exit,
        }
    }
}

/// A connection to a running bunch: its service name and the caller's
/// sender to it.
pub struct BunchConnection<T> {
    pub name: String,
    pub tx: T,
}

pub struct BunchConnectionView<T> {
    pub name: Seq<char>,
    pub tx: T,
}

impl<T> View for BunchConnection<T> {
    type V = BunchConnectionView<T>;

    open spec fn view(&self) -> BunchConnectionView<T> {
        BunchConnectionView { name: self.name@, tx: self.tx }
    }
}

pub open spec fn conns_view<T>(s: Seq<BunchConnection<T>>) -> Seq<BunchConnectionView<T>> {
    s.map_values(|c: BunchConnection<T>| c@)
}

/// The names of the connections.
pub open spec fn conn_names<T>(s: Seq<BunchConnectionView<T>>) -> Seq<Seq<char>> {
    s.map_values(|c: BunchConnectionView<T>| c.name)
}

/// The mathematical value of a `BunchController`.
pub struct BunchControllerView<T> {
    pub connections: Seq<BunchConnectionView<T>>,
    pub config: Seq<ServiceConfigView>,
    /// The exit signal has not been sent yet.
    pub exit_pending: bool,
}

/// High level abstraction above the service bunches: keeps a connection to
/// every running bunch and the configuration, and decides what commands
/// and bunch messages lead to.
pub struct BunchController<T> {
    bunch_connections: Vec<BunchConnection<T>>,
    config: Configuration,
    exit_pending: bool,
}

impl<T> View for BunchController<T> {
    type V = BunchControllerView<T>;

    closed spec fn view(&self) -> BunchControllerView<T> {
        BunchControllerView {
            connections: conns_view(self.bunch_connections@),
            config: self.config@,
            exit_pending: self.exit_pending,
        }
    }
}

/// A service with this name is configured.
pub open spec fn is_configured(configs: Seq<ServiceConfigView>, name: Seq<char>) -> bool {
    exists|i: int| 0 <= i < configs.len() && #[trigger] configs[i].name == name
}

/// A bunch with this name is connected.
pub open spec fn is_connected<T>(conns: Seq<BunchConnectionView<T>>, name: Seq<char>) -> bool {
    exists|i: int| 0 <= i < conns.len() && #[trigger] conns[i].name == name
}

/// The names that are configured, in the order given.
pub open spec fn configured_names(names: Seq<Seq<char>>, configs: Seq<ServiceConfigView>) -> Seq<
    Seq<char>,
>
    decreases names.len(),
{
    if names.len() == 0 {
        Seq::empty()
    } else {
        let rest = configured_names(names.drop_last(), configs);
        if is_configured(configs, names.last()) {
            rest.push(names.last())
        } else {
            rest
        }
    }
}

/// Feedback text written when a configuration entry with `name` is met.
pub open spec fn entry_met_text(name: Seq<char>) -> Seq<char> {
    "Failed to run "@ + name + ", no entry on configuration file!\0"@
}

/// Feedback text written for each configuration entry passed before it.
pub open spec fn entry_passed_text(name: Seq<char>) -> Seq<char> {
    "Found "@ + name + " service in configuration\0"@
}

/// The feedback for one name: one text for each configuration entry looked
/// at, up to the first with that name.
pub open spec fn feedback_for(name: Seq<char>, configs: Seq<ServiceConfigView>) -> Seq<Seq<char>>
    decreases configs.len(),
{
    if configs.len() == 0 {
        Seq::empty()
    } else if configs[0].name == name {
        seq![entry_met_text(name)]
    } else {
        seq![entry_passed_text(name)] + feedback_for(name, configs.skip(1))
    }
}

/// The feedback for a list of names.
pub open spec fn feedback_all(names: Seq<Seq<char>>, configs: Seq<ServiceConfigView>) -> Seq<
    Seq<char>,
>
    decreases names.len(),
{
    if names.len() == 0 {
        Seq::empty()
    } else {
        feedback_all(names.drop_last(), configs) + feedback_for(names.last(), configs)
    }
}

/// Feedback text of the status of a running service.
pub open spec fn running_text(name: Seq<char>) -> Seq<char> {
    name + " is run!\0"@
}

/// Feedback text of the status of a service that is not running.
pub open spec fn not_running_text(name: Seq<char>) -> Seq<char> {
    name + " is not run!\0"@
}

/// The status texts of the names.
pub open spec fn status_texts<T>(names: Seq<Seq<char>>, conns: Seq<BunchConnectionView<T>>) -> Seq<
    Seq<char>,
>
    decreases names.len(),
{
    if names.len() == 0 {
        Seq::empty()
    } else {
        status_texts(names.drop_last(), conns).push(
            if is_connected(conns, names.last()) {
                running_text(names.last())
            } else {
                not_running_text(names.last())
            },
        )
    }
}

/// The position of the first connection named `name`.
pub open spec fn first_conn_named<T>(conns: Seq<BunchConnectionView<T>>, name: Seq<char>) -> int
    recommends
        is_connected(conns, name),
{
    choose|i: int|
        0 <= i < conns.len() && #[trigger] conns[i].name == name && forall|j: int|
            0 <= j < i ==> conns[j].name != name
}

/// Despawning `names` in order from `conns`: each name removes the first
/// connection with that name, if any. The result is the remaining
/// connections, the removed ones, and the names that had none.
pub open spec fn despawn_effect<T>(conns: Seq<BunchConnectionView<T>>, names: Seq<Seq<char>>) -> (
    Seq<BunchConnectionView<T>>,
    Seq<BunchConnectionView<T>>,
    Seq<Seq<char>>,
)
    decreases names.len(),
{
    if names.len() == 0 {
        (conns, Seq::empty(), Seq::empty())
    } else {
        let (rest, removed, missing) = despawn_effect(conns, names.drop_last());
        let name = names.last();
        if is_connected(rest, name) {
            let i = first_conn_named(rest, name);
            (rest.remove(i), removed.push(rest[i]), missing)
        } else {
            (rest, removed, missing.push(name))
        }
    }
}

/// The names of all configured services, in configuration order.
pub open spec fn all_names(configs: Seq<ServiceConfigView>) -> Seq<Seq<char>> {
    configs.map_values(|c: ServiceConfigView| c.name)
}

proof fn lemma_first_conn_named<T>(conns: Seq<BunchConnectionView<T>>, name: Seq<char>, i: int)
    requires
        0 <= i < conns.len(),
        conns[i].name == name,
        forall|j: int| 0 <= j < i ==> conns[j].name != name,
    ensures
        first_conn_named(conns, name) == i,
{
    let k = first_conn_named(conns, name);
    if k < i {
    } else if i < k {
    }
}

/// Copies of a list of names.
pub fn clone_names(v: &Vec<String>) -> (r: Vec<String>)
    ensures
        r.deep_view() == v.deep_view(),
{
    crate::configuration::clone_strings(v)
}

impl<T> BunchController<T> {
    /// A controller for `config`, with no bunch running yet.
    pub fn new(config: Configuration) -> (c: BunchController<T>)
        ensures
            c@.connections == Seq::<BunchConnectionView<T>>::empty(),
            c@.config == config@,
            c@.exit_pending,
    {
        let c = BunchController { bunch_connections: Vec::new(), config, exit_pending: true };
        proof {
            assert(conns_view(c.bunch_connections@) =~= Seq::<BunchConnectionView<T>>::empty());
        }
        c
    }

    pub fn update_config(&mut self, new: Configuration)
        ensures
            final(self)@ == (BunchControllerView { config: new@, ..old(self)@ }),
    {
        self.config = new
    }

    pub fn get_config(&self) -> (c: &Configuration)
        ensures
            c@ == self@.config,
    {
        &self.config
    }

    /// Whether the exit signal has not been sent yet.
    pub fn exit_pending(&self) -> (b: bool)
        ensures
            b == self@.exit_pending,
    {
        self.exit_pending
    }

    /// The connections to the running bunches.
    pub fn connections(&self) -> (c: &Vec<BunchConnection<T>>)
        ensures
            conns_view(c@) == self@.connections,
    {
        &self.bunch_connections
    }

    /// Records a connection to a newly spawned bunch.
    pub fn add_connection(&mut self, name: String, tx: T)
        ensures
            final(self)@ == (BunchControllerView {
                connections: old(self)@.connections.push(BunchConnectionView { name: name@, tx }),
                ..old(self)@
            }),
    {
        self.bunch_connections.push(BunchConnection { name, tx });
        proof {
            assert(conns_view(self.bunch_connections@) =~= old(self)@.connections.push(
                BunchConnectionView { name: name@, tx },
            ));
        }
    }

    /// Whether a bunch named `name` is connected.
    pub fn is_running(&self, name: &str) -> (b: bool)
        ensures
            b == is_connected(self@.connections, name@),
    {
        match self.position_of_connection(name) {
            Some(_) => true,
            None => false,
        }
    }

    fn position_of_connection(&self, name: &str) -> (r: Option<usize>)
        ensures
            match r {
                Some(i) => i < self@.connections.len() && is_connected(self@.connections, name@)
                    && first_conn_named(self@.connections, name@) == i,
                None => !is_connected(self@.connections, name@),
            },
    {
        let ghost conns = self@.connections;
        let mut i: usize = 0;
        while i < self.bunch_connections.len()
            invariant
                i <= conns.len(),
                conns == conns_view(self.bunch_connections@),
                forall|j: int| 0 <= j < i ==> conns[j].name != name@,
            decreases conns.len() - i,
        {
            if str_eq(self.bunch_connections[i].name.as_str(), name) {
                proof {
                    assert(conns[i as int].name == name@);
                    lemma_first_conn_named(conns, name@, i as int);
                }
                return Some(i);
            }
            i += 1;
        }
        proof {
            if is_connected(conns, name@) {
                let k = choose|k: int| 0 <= k < conns.len() && #[trigger] conns[k].name == name@;
                assert(conns[k].name != name@);
            }
        }
        None
    }

    fn is_configured_name(&self, name: &str) -> (b: bool)
        ensures
            b == is_configured(self@.config, name@),
    {
        match self.config.find_service_config(name) {
            Some(i) => {
                proof {
                    reveal_first_config_named(self@.config, name@, i as int);
                }
                true
            },
            None => {
                proof {
                    if is_configured(self@.config, name@) {
                        let k = choose|k: int| 0 <= k < self@.config.len() && #[trigger] self@.config[k].name == name@;
                        assert(self@.config[k].name == name@);
                    }
                }
                false
            },
        }
    }
}

proof fn reveal_first_config_named(s: Seq<ServiceConfigView>, name: Seq<char>, i: int)
    requires
        first_config_named(s, name) == Some(i),
    ensures
        is_configured(s, name),
{
    if !(exists|k: int| 0 <= k < s.len() && #[trigger] s[k].name == name) {
        assert(first_config_named(s, name).is_none());
    }
}

} // verus!

verus! {

/// What a command leads to.
pub struct CommandPlan<T> {
    /// Texts for the command's feedback stream, in order.
    pub feedback: Vec<String>,
    /// Connections removed: each bunch is to be sent a shutdown.
    pub despawned: Vec<BunchConnection<T>>,
    /// Names asked to stop that are not running.
    pub not_running: Vec<String>,
    /// Names of the services to spawn afterwards.
    pub spawn: Vec<String>,
    /// The exit signal is to be sent.
    pub exit: bool,
}

pub struct CommandPlanView<T> {
    pub feedback: Seq<Seq<char>>,
    pub despawned: Seq<BunchConnectionView<T>>,
    pub not_running: Seq<Seq<char>>,
    pub spawn: Seq<Seq<char>>,
    pub exit: bool,
}

impl<T> View for CommandPlan<T> {
    type V = CommandPlanView<T>;

    open spec fn view(&self) -> CommandPlanView<T> {
        CommandPlanView {
            feedback: self.feedback.deep_view(),
            despawned: conns_view(self.despawned@),
            not_running: self.not_running.deep_view(),
            spawn: self.spawn.deep_view(),
            exit: self.exit,
        }
    }
}

/// The plan and controller after stopping `names` (already filtered).
pub open spec fn stop_effect<T>(
    b: BunchControllerView<T>,
    names: Seq<Seq<char>>,
    feedback: Seq<Seq<char>>,
    spawn: Seq<Seq<char>>,
    exit: bool,
) -> (BunchControllerView<T>, CommandPlanView<T>) {
    let (rest, removed, missing) = despawn_effect(b.connections, names);
    (
        BunchControllerView { connections: rest, exit_pending: b.exit_pending && !exit, ..b },
        CommandPlanView { feedback, despawned: removed, not_running: missing, spawn, exit },
    )
}

/// What each command does:
/// - `StartServices`: the configured ones among the names are to be
///   spawned;
/// - `StopServices`: the configured ones among the names are despawned;
/// - `RestartServices`: both, despawn first;
/// - `SendStatusToStream`: a status text for each configured name;
/// - `StartAll`, `StopAll`, `RestartAll`: the same for every configured
///   service;
/// - `Exit`: every configured service is despawned and the exit signal is
///   sent.
/// Commands that take names also write the configuration lookup's feedback
/// for them (twice for a restart, which looks them up twice).
pub open spec fn command_effect<T>(b: BunchControllerView<T>, cmd: CommandsView) -> (
    BunchControllerView<T>,
    CommandPlanView<T>,
) {
    let cfg = b.config;
    match cmd {
        CommandsView::StartServices(s) => (
            b,
            CommandPlanView {
                feedback: feedback_all(s, cfg),
                despawned: Seq::empty(),
                not_running: Seq::empty(),
                spawn: configured_names(s, cfg),
                exit: false,
            },
        ),
        CommandsView::StopServices(s) => stop_effect(
            b,
            configured_names(s, cfg),
            feedback_all(s, cfg),
            Seq::empty(),
            false,
        ),
        CommandsView::RestartServices(s) => stop_effect(
            b,
            configured_names(s, cfg),
            feedback_all(s, cfg) + feedback_all(s, cfg),
            configured_names(s, cfg),
            false,
        ),
        CommandsView::SendStatusToStream(s) => (
            b,
            CommandPlanView {
                feedback: feedback_all(s, cfg) + status_texts(configured_names(s, cfg), b.connections),
                despawned: Seq::empty(),
                not_running: Seq::empty(),
                spawn: Seq::empty(),
                exit: false,
            },
        ),
        CommandsView::StartAll => (
            b,
            CommandPlanView {
                feedback: Seq::empty(),
                despawned: Seq::empty(),
                not_running: Seq::empty(),
                spawn: all_names(cfg),
                exit: false,
            },
        ),
        CommandsView::StopAll => stop_effect(b, all_names(cfg), Seq::empty(), Seq::empty(), false),
        CommandsView::RestartAll => stop_effect(b, all_names(cfg), Seq::empty(), all_names(cfg), false),
        CommandsView::Exit => stop_effect(b, all_names(cfg), Seq::empty(), Seq::empty(), true),
    }
}

/// Builds `prefix + name + suffix`.
fn framed(prefix: &str, name: &str, suffix: &str) -> (s: String)
    ensures
        s@ == prefix@ + name@ + suffix@,
{
    let mut s = String::new();
    push_str(&mut s, prefix);
    push_str(&mut s, name);
    push_str(&mut s, suffix);
    proof {
        assert(s@ =~= prefix@ + name@ + suffix@);
    }
    s
}

/// A plan that only spawns and writes feedback.
fn spawn_only<T>(feedback: Vec<String>, spawn: Vec<String>) -> (p: CommandPlan<T>)
    ensures
        p@ == (CommandPlanView::<T> {
            feedback: feedback.deep_view(),
            despawned: Seq::empty(),
            not_running: Seq::empty(),
            spawn: spawn.deep_view(),
            exit: false,
        }),
{
    let p = CommandPlan { feedback, despawned: Vec::new(), not_running: Vec::new(), spawn, exit: false };
    proof {
        assert(conns_view(p.despawned@) =~= Seq::<BunchConnectionView<T>>::empty());
        assert(p.not_running.deep_view() =~= Seq::<Seq<char>>::empty());
    }
    p
}

/// An empty list of names.
fn no_names() -> (r: Vec<String>)
    ensures
        r.deep_view() == Seq::<Seq<char>>::empty(),
{
    let r: Vec<String> = Vec::new();
    proof {
        assert(r.deep_view() =~= Seq::<Seq<char>>::empty());
    }
    r
}

impl<T> BunchController<T> {
    /// Appends the configuration lookup's feedback for `name`; tells whether
    /// the name is configured.
    fn feedback_for_name(&self, name: &str, out: &mut Vec<String>) -> (found: bool)
        ensures
            final(out).deep_view() == old(out).deep_view() + feedback_for(name@, self@.config),
            found == is_configured(self@.config, name@),
    {
        let ghost cfg = self@.config;
        let ghost start = old(out).deep_view();
        let mut k: usize = 0;
        proof {
            assert(cfg.skip(0) =~= cfg);
            assert(start + Seq::<Seq<char>>::empty() =~= start);
        }
        while k < self.config.services.len()
            invariant
                k <= cfg.len(),
                start == old(out).deep_view(),
                cfg == self@.config,
                cfg == configs_view(self.config.services@),
                forall|j: int| 0 <= j < k ==> cfg[j].name != name@,
                out.deep_view() + feedback_for(name@, cfg.skip(k as int)) == start + feedback_for(
                    name@,
                    cfg,
                ),
            decreases cfg.len() - k,
        {
            let ghost tail = cfg.skip(k as int);
            proof {
                assert(tail[0] == cfg[k as int]);
                assert(tail.skip(1) =~= cfg.skip(k + 1));
            }
            if str_eq(self.config.services[k].name.as_str(), name) {
                let ghost before = out.deep_view();
                out.push(framed("Failed to run ", name, ", no entry on configuration file!\0"));
                proof {
                    assert(out.deep_view() =~= before.push(entry_met_text(name@)));
                    assert(feedback_for(name@, tail) == seq![entry_met_text(name@)]);
                    assert(out.deep_view() =~= start + feedback_for(name@, cfg));
                    assert(cfg[k as int].name == name@);
                }
                return true;
            }
            let ghost before = out.deep_view();
            out.push(framed("Found ", name, " service in configuration\0"));
            proof {
                assert(out.deep_view() =~= before.push(entry_passed_text(name@)));
                assert(feedback_for(name@, tail) == seq![entry_passed_text(name@)] + feedback_for(
                    name@,
                    cfg.skip(k + 1),
                ));
                assert(before + feedback_for(name@, tail) =~= out.deep_view() + feedback_for(
                    name@,
                    cfg.skip(k + 1),
                ));
            }
            k += 1;
        }
        proof {
            assert(cfg.skip(k as int).len() == 0);
            assert(feedback_for(name@, cfg.skip(k as int)) =~= Seq::<Seq<char>>::empty());
            assert(out.deep_view() =~= start + feedback_for(name@, cfg));
            if is_configured(cfg, name@) {
                let j = choose|j: int| 0 <= j < cfg.len() && #[trigger] cfg[j].name == name@;
                assert(cfg[j].name != name@);
            }
        }
        false
    }

    /// Keeps the names that are configured; also gives the feedback texts
    /// written while looking them up: for each name, one text per
    /// configuration entry looked at, up to the first entry with that name.
    pub fn filter_service_names(&self, names: Vec<String>) -> (r: (Vec<String>, Vec<String>))
        ensures
            r.0.deep_view() == configured_names(names.deep_view(), self@.config),
            r.1.deep_view() == feedback_all(names.deep_view(), self@.config),
    {
        let mut filtered: Vec<String> = Vec::new();
        let mut feedback: Vec<String> = Vec::new();
        let mut i: usize = 0;
        while i < names.len()
            invariant
                i <= names@.len(),
                filtered.deep_view() == configured_names(names.deep_view().take(i as int), self@.config),
                feedback.deep_view() == feedback_all(names.deep_view().take(i as int), self@.config),
            decreases names@.len() - i,
        {
            let ghost pre = names.deep_view().take(i as int);
            let ghost cur = names.deep_view().take(i + 1);
            proof {
                assert(cur.drop_last() =~= pre);
                assert(cur.last() == names@[i as int]@);
            }
            let found = self.feedback_for_name(names[i].as_str(), &mut feedback);
            if found {
                let ghost before = filtered.deep_view();
                filtered.push(names[i].clone());
                proof {
                    assert(filtered.deep_view() =~= before.push(names@[i as int]@));
                }
            }
            i += 1;
        }
        proof {
            assert(names.deep_view().take(i as int) =~= names.deep_view());
        }
        (filtered, feedback)
    }

    /// Removes, for each name in order, the first connection with that
    /// name; gives the removed connections and the names that had none.
    #[verifier::rlimit(40)]
    pub fn despawn(&mut self, names: Vec<String>) -> (r: (Vec<BunchConnection<T>>, Vec<String>))
        ensures
            ({
                let (rest, removed, missing) = despawn_effect(old(self)@.connections, names.deep_view());
                &&& final(self)@ == (BunchControllerView { connections: rest, ..old(self)@ })
                &&& conns_view(r.0@) == removed
                &&& r.1.deep_view() == missing
            }),
    {
        let mut removed: Vec<BunchConnection<T>> = Vec::new();
        let mut missing: Vec<String> = Vec::new();
        let mut i: usize = 0;
        let ghost start = old(self)@;
        while i < names.len()
            invariant
                i <= names@.len(),
                ({
                    let (rest, rm, ms) = despawn_effect(start.connections, names.deep_view().take(i as int));
                    &&& self@ == (BunchControllerView { connections: rest, ..start })
                    &&& conns_view(removed@) == rm
                    &&& missing.deep_view() == ms
                }),
            decreases names@.len() - i,
        {
            let ghost pre = names.deep_view().take(i as int);
            let ghost cur = names.deep_view().take(i + 1);
            proof {
                assert(cur.drop_last() =~= pre);
                assert(cur.last() == names@[i as int]@);
            }
            let ghost rm_before = conns_view(removed@);
            let ghost ms_before = missing.deep_view();
            let ghost conns_before = self@.connections;
            match self.position_of_connection(names[i].as_str()) {
                Some(pos) => {
                    let connection = self.bunch_connections.remove(pos);
                    removed.push(connection);
                    proof {
                        assert(conns_view(self.bunch_connections@) =~= conns_before.remove(pos as int));
                        assert(conns_view(removed@) =~= rm_before.push(conns_before[pos as int]));
                    }
                },
                None => {
                    missing.push(names[i].clone());
                    proof {
                        assert(missing.deep_view() =~= ms_before.push(names@[i as int]@));
                    }
                },
            }
            i += 1;
        }
        proof {
            assert(names.deep_view().take(i as int) =~= names.deep_view());
        }
        (removed, missing)
    }

    /// The names of all configured services.
    pub fn all_service_names(&self) -> (r: Vec<String>)
        ensures
            r.deep_view() == all_names(self@.config),
    {
        let mut r: Vec<String> = Vec::new();
        let mut i: usize = 0;
        while i < self.config.services.len()
            invariant
                i <= self@.config.len(),
                r@.len() == i,
                forall|j: int| 0 <= j < i ==> #[trigger] r@[j]@ == self@.config[j].name,
            decreases self@.config.len() - i,
        {
            r.push(self.config.services[i].name.clone());
            i += 1;
        }
        proof {
            assert(r.deep_view() =~= all_names(self@.config));
        }
        r
    }

    /// Status texts of the names.
    fn status_of(&self, names: &Vec<String>) -> (r: Vec<String>)
        ensures
            r.deep_view() == status_texts(names.deep_view(), self@.connections),
    {
        let mut r: Vec<String> = Vec::new();
        let mut i: usize = 0;
        while i < names.len()
            invariant
                i <= names@.len(),
                r.deep_view() == status_texts(names.deep_view().take(i as int), self@.connections),
            decreases names@.len() - i,
        {
            let ghost pre = names.deep_view().take(i as int);
            let ghost cur = names.deep_view().take(i + 1);
            proof {
                assert(cur.drop_last() =~= pre);
                assert(cur.last() == names@[i as int]@);
            }
            let ghost before = r.deep_view();
            if self.is_running(names[i].as_str()) {
                r.push(framed("", names[i].as_str(), " is run!\0"));
            } else {
                r.push(framed("", names[i].as_str(), " is not run!\0"));
            }
            proof {
                reveal_strlit("");
                assert(r.deep_view() =~= status_texts(cur, self@.connections));
            }
            i += 1;
        }
        proof {
            assert(names.deep_view().take(i as int) =~= names.deep_view());
        }
        r
    }

    fn stop(&mut self, names: Vec<String>, feedback: Vec<String>, spawn: Vec<String>, exit: bool) -> (p: CommandPlan<T>)
        requires
            exit ==> old(self)@.exit_pending,
        ensures
            (final(self)@, p@) == stop_effect(
                old(self)@,
                names.deep_view(),
                feedback.deep_view(),
                spawn.deep_view(),
                exit,
            ),
    {
        let (despawned, not_running) = self.despawn(names);
        if exit {
            self.exit_pending = false;
        }
        CommandPlan { feedback, despawned, not_running, spawn, exit }
    }

    /// Decides what a command leads to (see `command_effect`); the
    /// connections of the services to stop are removed at once.
    pub fn run_command(&mut self, command: Commands) -> (p: CommandPlan<T>)
        requires
            command@ is Exit ==> old(self)@.exit_pending,
        ensures
            (final(self)@, p@) == command_effect(old(self)@, command@),
    {
        match command {
            Commands::StartServices(services) => {
                let (names, feedback) = self.filter_service_names(services);
                spawn_only(feedback, names)
            },
            Commands::StopServices(services) => {
                let (names, feedback) = self.filter_service_names(services);
                self.stop(names, feedback, no_names(), false)
            },
            Commands::RestartServices(services) => {
                let (names, mut feedback) = self.filter_service_names(clone_names(&services));
                let (names_again, mut feedback_again) = self.filter_service_names(services);
                let ghost f1 = feedback.deep_view();
                feedback.append(&mut feedback_again);
                proof {
                    assert(feedback.deep_view() =~= f1 + feedback_all(
                        command@->RestartServices_0,
                        self@.config,
                    ));
                }
                self.stop(names, feedback, names_again, false)
            },
            Commands::SendStatusToStream(services) => {
                let (names, mut feedback) = self.filter_service_names(services);
                let mut status = self.status_of(&names);
                let ghost f1 = feedback.deep_view();
                feedback.append(&mut status);
                proof {
                    assert(feedback.deep_view() =~= f1 + status_texts(names.deep_view(), self@.connections));
                }
                spawn_only(feedback, no_names())
            },
            Commands::StartAll => {
                let names = self.all_service_names();
                spawn_only(no_names(), names)
            },
            Commands::StopAll => {
                let names = self.all_service_names();
                self.stop(names, no_names(), no_names(), false)
            },
            Commands::RestartAll => {
                let names = self.all_service_names();
                let again = self.all_service_names();
                self.stop(names, no_names(), again, false)
            },
            Commands::Exit => {
                let names = self.all_service_names();
                self.stop(names, no_names(), no_names(), true)
            },
        }
    }
}

} // verus!

verus! {

/// The configurations named in `names`, in configuration order.
pub open spec fn spawn_selection(cfg: Seq<ServiceConfigView>, names: Seq<Seq<char>>) -> Seq<
    ServiceConfigView,
>
    decreases cfg.len(),
{
    if cfg.len() == 0 {
        Seq::empty()
    } else {
        let rest = spawn_selection(cfg.drop_last(), names);
        if names.contains(cfg.last().name) {
            rest.push(cfg.last())
        } else {
            rest
        }
    }
}

/// Seconds between two health checks: an hour divided by the configured
/// number of checks per hour (one when not set).
pub open spec fn health_interval(rate: Option<u32>) -> int {
    match rate {
        Some(r) => 3600int / (r as int),
        None => 3600int,
    }
}

/// How one run of a health check program ended.
#[derive(Debug, Clone, Copy, PartialEq, Eq, Structural)]
pub enum CheckRun {
    /// It exited with success.
    Passed,
    /// It exited with an error: the unit is unhealthy.
    Failed,
    /// It started, but waiting for it failed.
    WaitFailed,
    /// It could not be started.
    StartFailed,
}

/// What a health check task does after a run.
#[derive(Debug, Clone, Copy, PartialEq, Eq, Structural)]
pub enum CheckNext {
    /// Run the check again after the interval.
    Again,
    /// Tell the bunch the unit failed its check, and stop checking.
    ReportFailure,
    /// Stop checking.
    Stop,
}

/// A passed check is repeated; a failed one is reported and ends the
/// checks; a check that could not be run or waited on ends them.
pub open spec fn check_next(run: CheckRun) -> CheckNext {
    match run {
        CheckRun::Passed => CheckNext::Again,
        CheckRun::Failed => CheckNext::ReportFailure,
        CheckRun::WaitFailed | CheckRun::StartFailed => CheckNext::Stop,
    }
}

/// What a health check task does after a run (see `check_next`).
pub fn after_health_check(run: CheckRun) -> (n: CheckNext)
    ensures
        n == check_next(run),
{
    match run {
        CheckRun::Passed => CheckNext::Again,
        CheckRun::Failed => CheckNext::ReportFailure,
        CheckRun::WaitFailed | CheckRun::StartFailed => CheckNext::Stop,
    }
}

/// Health checks to start for the units of one service.
pub struct HealthCheckPlan {
    /// Position of the connection to the service's bunch.
    pub connection: usize,
    pub exec_path: String,
    pub service_name: String,
    pub interval_secs: u64,
    /// The addresses to check, and their texts (the checker's argument).
    pub targets: Vec<ConnectAddr>,
    pub target_texts: Vec<String>,
}

pub struct HealthCheckPlanView {
    pub connection: int,
    pub exec_path: Seq<char>,
    pub service_name: Seq<char>,
    pub interval_secs: int,
    pub targets: Seq<ConnectAddrView>,
    pub target_texts: Seq<Seq<char>>,
}

impl View for HealthCheckPlan {
    type V = HealthCheckPlanView;

    open spec fn view(&self) -> HealthCheckPlanView {
        HealthCheckPlanView {
            connection: self.connection as int,
            exec_path: self.exec_path@,
            service_name: self.service_name@,
            interval_secs: self.interval_secs as int,
            targets: addrs_view(self.targets@),
            target_texts: self.target_texts.deep_view(),
        }
    }
}

/// The texts of the addresses.
pub open spec fn addr_texts(addrs: Seq<ConnectAddrView>) -> Seq<Seq<char>> {
    addrs.map_values(|a: ConnectAddrView| addr_text(a))
}

/// Health checks run for the units of service `name` on `addrs` when the
/// service is configured with a health check program, its bunch is
/// connected, and there are addresses to check.
#[verifier::opaque]
pub open spec fn health_check_effect<T>(
    b: BunchControllerView<T>,
    name: Seq<char>,
    addrs: Seq<ConnectAddrView>,
) -> Option<HealthCheckPlanView> {
    match first_config_named(b.config, name) {
        Some(i) => {
            let c = b.config[i];
            match c.health_check_exec {
                Some(exec) => if is_connected(b.connections, name) && addrs.len() > 0 {
                    Some(
                        HealthCheckPlanView {
                            connection: first_conn_named(b.connections, name),
                            exec_path: exec,
                            service_name: c.name,
                            interval_secs: health_interval(c.health_check_rate),
                            targets: addrs,
                            target_texts: addr_texts(addrs),
                        },
                    )
                } else {
                    None
                },
                None => None,
            }
        },
        None => None,
    }
}

/// A health check would divide by a rate of zero.
#[verifier::opaque]
pub open spec fn health_rate_is_zero<T>(b: BunchControllerView<T>, name: Seq<char>, addrs: Seq<ConnectAddrView>) -> bool {
    match first_config_named(b.config, name) {
        Some(i) => b.config[i].health_check_exec is Some && is_connected(b.connections, name)
            && addrs.len() > 0 && b.config[i].health_check_rate == Some(0u32),
        None => false,
    }
}

/// The elements of `s` that `other` does not contain, in order.
pub open spec fn without(s: Seq<ConnectAddrView>, other: Seq<ConnectAddrView>) -> Seq<ConnectAddrView>
    decreases s.len(),
{
    if s.len() == 0 {
        Seq::empty()
    } else {
        let rest = without(s.drop_last(), other);
        if other.contains(s.last()) {
            rest
        } else {
            rest.push(s.last())
        }
    }
}

/// `first` followed by the texts of the addresses, or nothing when there are
/// no addresses.
pub open spec fn flag_args(addrs: Seq<ConnectAddrView>, first: Seq<char>) -> Seq<Seq<char>> {
    if addrs.len() == 0 {
        Seq::empty()
    } else {
        seq![first] + addr_texts(addrs)
    }
}

/// The update script's arguments: `--add` with the addresses to add and
/// `--remove` with the addresses to remove; when there are both, addresses
/// that appear in both lists are left out of both. Nothing to add or
/// remove: the script is not run.
pub open spec fn update_args(to_add: Option<Seq<ConnectAddrView>>, to_remove: Option<Seq<ConnectAddrView>>) -> Option<
    Seq<Seq<char>>,
> {
    match (to_add, to_remove) {
        (None, None) => None,
        (None, Some(rm)) => Some(flag_args(rm, "--remove"@)),
        (Some(add), None) => Some(flag_args(add, "--add"@)),
        (Some(add), Some(rm)) => Some(
            flag_args(without(add, rm), "--add"@) + flag_args(without(rm, add), "--remove"@),
        ),
    }
}

/// The update script to run, with its arguments.
pub struct UpdateScriptPlan {
    pub script: String,
    pub args: Vec<String>,
    pub service_name: String,
}

pub struct UpdateScriptPlanView {
    pub script: Seq<char>,
    pub args: Seq<Seq<char>>,
    pub service_name: Seq<char>,
}

impl View for UpdateScriptPlan {
    type V = UpdateScriptPlanView;

    open spec fn view(&self) -> UpdateScriptPlanView {
        UpdateScriptPlanView {
            script: self.script@,
            args: self.args.deep_view(),
            service_name: self.service_name@,
        }
    }
}

/// The update script of service `name` runs when the service is configured
/// with one and there is something to add or remove.
#[verifier::opaque]
pub open spec fn update_script_effect<T>(
    b: BunchControllerView<T>,
    name: Seq<char>,
    to_add: Option<Seq<ConnectAddrView>>,
    to_remove: Option<Seq<ConnectAddrView>>,
) -> Option<UpdateScriptPlanView> {
    match first_config_named(b.config, name) {
        Some(i) => match b.config[i].update_script {
            Some(exec) => match update_args(to_add, to_remove) {
                Some(args) => Some(
                    UpdateScriptPlanView { script: exec, args, service_name: b.config[i].name },
                ),
                None => None,
            },
            None => None,
        },
        None => None,
    }
}

/// The executables to swap at the end of a rolling update: the stable one
/// is removed and the new one renamed to it.
pub struct ReplaceExecPlan {
    pub stable_exec: String,
    pub new_exec: String,
    pub service_name: String,
}

pub struct ReplaceExecPlanView {
    pub stable_exec: Seq<char>,
    pub new_exec: Seq<char>,
    pub service_name: Seq<char>,
}

impl View for ReplaceExecPlan {
    type V = ReplaceExecPlanView;

    open spec fn view(&self) -> ReplaceExecPlanView {
        ReplaceExecPlanView {
            stable_exec: self.stable_exec@,
            new_exec: self.new_exec@,
            service_name: self.service_name@,
        }
    }
}

/// The executables of service `name`, when it is configured.
#[verifier::opaque]
pub open spec fn replace_exec_effect(cfg: Seq<ServiceConfigView>, name: Seq<char>) -> Option<
    ReplaceExecPlanView,
> {
    match first_config_named(cfg, name) {
        Some(i) => Some(
            ReplaceExecPlanView {
                stable_exec: path_join(cfg[i].app_dir, cfg[i].stable_exec_name),
                new_exec: path_join(cfg[i].app_dir, cfg[i].new_exec_name),
                service_name: cfg[i].name,
            },
        ),
        None => None,
    }
}

/// The first service whose new executable is at `path`.
pub open spec fn service_with_new_exec(cfg: Seq<ServiceConfigView>, path: Seq<char>) -> Option<int> {
    if exists|i: int|
        0 <= i < cfg.len() && same_path(path_join(cfg[i].app_dir, cfg[i].new_exec_name), path) {
        Some(
            choose|i: int|
                0 <= i < cfg.len() && same_path(path_join(cfg[i].app_dir, cfg[i].new_exec_name), path)
                    && forall|j: int|
                    0 <= j < i ==> !same_path(
                        path_join(cfg[j].app_dir, cfg[j].new_exec_name),
                        path,
                    ),
        )
    } else {
        None
    }
}

/// A new executable appeared at `path`: the bunch of the first service
/// whose new executable lives there, if it is connected, is asked to update.
pub open spec fn update_target<T>(b: BunchControllerView<T>, path: Seq<char>) -> Option<int> {
    match service_with_new_exec(b.config, path) {
        Some(i) => if is_connected(b.connections, b.config[i].name) {
            Some(first_conn_named(b.connections, b.config[i].name))
        } else {
            None
        },
        None => None,
    }
}

/// The arguments `first_arg addr...`, or none when there is no address.
pub fn pass_args(addrs: &Vec<ConnectAddr>, first_arg: &str) -> (args: Vec<String>)
    ensures
        args.deep_view() == flag_args(addrs_view(addrs@), first_arg@),
{
    let mut args: Vec<String> = Vec::new();
    if addrs.len() > 0 {
        args.push(to_owned_string(first_arg));
        let mut i: usize = 0;
        while i < addrs.len()
            invariant
                i <= addrs@.len(),
                addrs@.len() > 0,
                args.deep_view() == seq![first_arg@] + addr_texts(addrs_view(addrs@).take(i as int)),
            decreases addrs@.len() - i,
        {
            let ghost before = args.deep_view();
            args.push(addrs[i].to_display_string());
            proof {
                assert(args.deep_view() =~= before.push(addr_text(addrs@[i as int]@)));
                assert(addr_texts(addrs_view(addrs@).take(i + 1)) =~= addr_texts(
                    addrs_view(addrs@).take(i as int),
                ).push(addr_text(addrs@[i as int]@)));
                assert(args.deep_view() =~= seq![first_arg@] + addr_texts(addrs_view(addrs@).take(i + 1)));
            }
            i += 1;
        }
        proof {
            assert(addrs_view(addrs@).take(i as int) =~= addrs_view(addrs@));
        }
    } else {
        proof {
            assert(args.deep_view() =~= Seq::<Seq<char>>::empty());
        }
    }
    args
}

/// The addresses of `s` that `other` does not contain, in order.
pub fn addrs_without(s: &Vec<ConnectAddr>, other: &Vec<ConnectAddr>) -> (r: Vec<ConnectAddr>)
    ensures
        addrs_view(r@) == without(addrs_view(s@), addrs_view(other@)),
{
    let mut r: Vec<ConnectAddr> = Vec::new();
    let mut i: usize = 0;
    while i < s.len()
        invariant
            i <= s@.len(),
            addrs_view(r@) == without(addrs_view(s@).take(i as int), addrs_view(other@)),
        decreases s@.len() - i,
    {
        let ghost pre = addrs_view(s@).take(i as int);
        let ghost cur = addrs_view(s@).take(i + 1);
        proof {
            assert(cur.drop_last() =~= pre);
            assert(cur.last() == s@[i as int]@);
        }
        if !contains_addr(other, &s[i]) {
            let ghost before = addrs_view(r@);
            r.push(s[i].clone());
            proof {
                assert(addrs_view(r@) =~= before.push(s@[i as int]@));
            }
        }
        i += 1;
    }
    proof {
        assert(addrs_view(s@).take(i as int) =~= addrs_view(s@));
    }
    r
}

/// The update script's arguments (see `update_args`).
pub fn update_script_args(to_add: &Option<Vec<ConnectAddr>>, to_remove: &Option<Vec<ConnectAddr>>) -> (r: Option<Vec<String>>)
    ensures
        match r {
            Some(args) => update_args(opt_addrs_view(to_add), opt_addrs_view(to_remove)) == Some(
                args.deep_view(),
            ),
            None => update_args(opt_addrs_view(to_add), opt_addrs_view(to_remove)).is_none(),
        },
{
    match (to_add, to_remove) {
        (None, None) => None,
        (None, Some(rm)) => Some(pass_args(rm, "--remove")),
        (Some(add), None) => Some(pass_args(add, "--add")),
        (Some(add), Some(rm)) => {
            let add_filtered = addrs_without(add, rm);
            let remove_filtered = addrs_without(rm, add);
            let mut args = pass_args(&add_filtered, "--add");
            let mut more = pass_args(&remove_filtered, "--remove");
            let ghost a1 = args.deep_view();
            args.append(&mut more);
            proof {
                assert(args.deep_view() =~= a1 + flag_args(without(addrs_view(rm@), addrs_view(add@)), "--remove"@));
            }
            Some(args)
        },
    }
}

/// The views of optional address lists.
pub open spec fn opt_addrs_view(a: &Option<Vec<ConnectAddr>>) -> Option<Seq<ConnectAddrView>> {
    match a {
        Some(v) => Some(addrs_view(v@)),
        None => None,
    }
}

} // verus!

verus! {

/// What a message from a bunch leads to.
pub struct MessagePlan {
    pub health_checks: Option<HealthCheckPlan>,
    pub update_script: Option<UpdateScriptPlan>,
    pub replace_exec: Option<ReplaceExecPlan>,
}

pub struct MessagePlanView {
    pub health_checks: Option<HealthCheckPlanView>,
    pub update_script: Option<UpdateScriptPlanView>,
    pub replace_exec: Option<ReplaceExecPlanView>,
}

impl View for MessagePlan {
    type V = MessagePlanView;

    open spec fn view(&self) -> MessagePlanView {
        MessagePlanView {
            health_checks: match &self.health_checks {
                Some(p) => Some(p@),
                None => None,
            },
            update_script: match &self.update_script {
                Some(p) => Some(p@),
                None => None,
            },
            replace_exec: match &self.replace_exec {
                Some(p) => Some(p@),
                None => None,
            },
        }
    }
}

/// Bunches send the controller only reports about their units and updates.
pub open spec fn is_bunch_report(m: MessageView) -> bool {
    match m {
        MessageView::StartUpdate | MessageView::Shutdown | MessageView::HealthCheckFailed(_) => false,
        _ => true,
    }
}

/// What a report of a bunch leads to:
/// - units spawned: their health checks start and the update script adds
///   their addresses;
/// - units despawned: the update script removes their addresses;
/// - a unit replaced: the new one's health check starts, and the update
///   script adds the new address and removes the old one;
/// - an update failed: the update script adds the new addresses and removes
///   the old ones;
/// - an update finished: the new executable replaces the stable one.
pub open spec fn message_effect<T>(b: BunchControllerView<T>, m: MessageView) -> MessagePlanView {
    match m {
        MessageView::UnitSpawned(name, addr) => MessagePlanView {
            health_checks: health_check_effect(b, name, seq![addr]),
            update_script: update_script_effect(b, name, Some(seq![addr]), None),
            replace_exec: None,
        },
        MessageView::UnitsSpawned(name, addrs) => MessagePlanView {
            health_checks: health_check_effect(b, name, addrs),
            update_script: update_script_effect(b, name, Some(addrs), None),
            replace_exec: None,
        },
        MessageView::UnitDespawned(name, old) => MessagePlanView {
            health_checks: None,
            update_script: update_script_effect(b, name, None, Some(seq![old])),
            replace_exec: None,
        },
        MessageView::UnitsDespawned(name, old) => MessagePlanView {
            health_checks: None,
            update_script: update_script_effect(b, name, None, Some(old)),
            replace_exec: None,
        },
        MessageView::UnitReplaced { name, old, new } => MessagePlanView {
            health_checks: health_check_effect(b, name, seq![new]),
            update_script: update_script_effect(b, name, Some(seq![new]), Some(seq![old])),
            replace_exec: None,
        },
        MessageView::UpdateFail { name, old, new } => MessagePlanView {
            health_checks: None,
            update_script: update_script_effect(b, name, Some(new), Some(old)),
            replace_exec: None,
        },
        MessageView::UpdateFinished(name) => MessagePlanView {
            health_checks: None,
            update_script: None,
            replace_exec: replace_exec_effect(b.config, name),
        },
        _ => MessagePlanView { health_checks: None, update_script: None, replace_exec: None },
    }
}

/// No health check of a report would divide by a rate of zero.
pub open spec fn message_rates_ok<T>(b: BunchControllerView<T>, m: MessageView) -> bool {
    match m {
        MessageView::UnitSpawned(name, addr) => !health_rate_is_zero(b, name, seq![addr]),
        MessageView::UnitsSpawned(name, addrs) => !health_rate_is_zero(b, name, addrs),
        MessageView::UnitReplaced { name, new, .. } => !health_rate_is_zero(b, name, seq![new]),
        _ => true,
    }
}

impl<T> BunchController<T> {
    /// The configurations of the services to spawn for `names`, in
    /// configuration order.
    pub fn spawn_plan(&self, names: &Vec<String>) -> (r: Vec<ServiceConfig>)
        ensures
            configs_view(r@) == spawn_selection(self@.config, names.deep_view()),
    {
        let mut r: Vec<ServiceConfig> = Vec::new();
        let mut i: usize = 0;
        while i < self.config.services.len()
            invariant
                i <= self@.config.len(),
                configs_view(r@) == spawn_selection(self@.config.take(i as int), names.deep_view()),
            decreases self@.config.len() - i,
        {
            let ghost pre = self@.config.take(i as int);
            let ghost cur = self@.config.take(i + 1);
            proof {
                assert(cur.drop_last() =~= pre);
                assert(cur.last() == self@.config[i as int]);
            }
            if contains_name(names, self.config.services[i].name.as_str()) {
                let ghost before = configs_view(r@);
                r.push(self.config.services[i].clone());
                proof {
                    assert(configs_view(r@) =~= before.push(self@.config[i as int]));
                }
            }
            i += 1;
        }
        proof {
            assert(self@.config.take(i as int) =~= self@.config);
        }
        r
    }

    /// The health checks to start for the units of service `name` on
    /// `addrs` (see `health_check_effect`); they run until a check fails.
    #[verifier::rlimit(40)]
    pub fn start_health_check_tasks(&self, name: &str, addrs: &Vec<ConnectAddr>) -> (p: Option<HealthCheckPlan>)
        requires
            !health_rate_is_zero(self@, name@, addrs_view(addrs@)),
        ensures
            match p {
                Some(plan) => health_check_effect(self@, name@, addrs_view(addrs@)) == Some(plan@),
                None => health_check_effect(self@, name@, addrs_view(addrs@)).is_none(),
            },
    {
        proof {
            reveal(health_check_effect);
            reveal(health_rate_is_zero);
        }
        // Find service config by name
        let i = match self.config.find_service_config(name) {
            Some(i) => i,
            None => return None,
        };
        proof {
            lemma_config_found(self@.config, name@, i as int);
        }
        let service_config = &self.config.services[i];
        // If exec path is set
        let exec_path = match &service_config.health_check_exec {
            Some(e) => e.clone(),
            None => return None,
        };
        // If there are a connection to this service
        let connection = match self.position_of_connection(name) {
            Some(c) => c,
            None => return None,
        };
        if addrs.len() == 0 {
            return None;
        }
        let times_per_hour = match service_config.health_check_rate {
            Some(r) => r,
            None => 1,
        };
        let secs_count = 60 * 60 / times_per_hour as u64;
        let mut texts: Vec<String> = Vec::new();
        let mut k: usize = 0;
        while k < addrs.len()
            invariant
                k <= addrs@.len(),
                texts@.len() == k,
                forall|j: int| 0 <= j < k ==> #[trigger] texts@[j]@ == addr_text(addrs@[j]@),
            decreases addrs@.len() - k,
        {
            texts.push(addrs[k].to_display_string());
            k += 1;
        }
        proof {
            assert(texts.deep_view() =~= addr_texts(addrs_view(addrs@)));
        }
        Some(
            HealthCheckPlan {
                connection,
                exec_path,
                service_name: service_config.name.clone(),
                interval_secs: secs_count,
                targets: clone_addrs(addrs),
                target_texts: texts,
            },
        )
    }

    /// The update script to run for service `name`, which passes the
    /// addresses to add and to remove (see `update_script_effect`).
    pub fn run_update_script(
        &self,
        name: &str,
        to_add: Option<Vec<ConnectAddr>>,
        to_remove: Option<Vec<ConnectAddr>>,
    ) -> (p: Option<UpdateScriptPlan>)
        ensures
            match p {
                Some(plan) => update_script_effect(
                    self@,
                    name@,
                    opt_addrs_view(&to_add),
                    opt_addrs_view(&to_remove),
                ) == Some(plan@),
                None => update_script_effect(
                    self@,
                    name@,
                    opt_addrs_view(&to_add),
                    opt_addrs_view(&to_remove),
                ).is_none(),
            },
    {
        proof {
            reveal(update_script_effect);
        }
        let i = match self.config.find_service_config(name) {
            Some(i) => i,
            None => return None,
        };
        proof {
            lemma_config_found(self@.config, name@, i as int);
        }
        let service_config = &self.config.services[i];
        let update_exec = match &service_config.update_script {
            Some(e) => e.clone(),
            None => return None,
        };
        match update_script_args(&to_add, &to_remove) {
            Some(args) => Some(
                UpdateScriptPlan { script: update_exec, args, service_name: service_config.name.clone() },
            ),
            None => None,
        }
    }

    /// The executables to swap for service `name` at the end of its
    /// rolling update: the stable one is removed from the application
    /// directory and the new one renamed to it.
    pub fn replace_stable_exec(&self, name: &str) -> (p: Option<ReplaceExecPlan>)
        ensures
            match p {
                Some(plan) => replace_exec_effect(self@.config, name@) == Some(plan@),
                None => replace_exec_effect(self@.config, name@).is_none(),
            },
    {
        proof {
            reveal(replace_exec_effect);
        }
        match self.config.find_service_config(name) {
            Some(i) => {
                proof {
                    lemma_config_found(self@.config, name@, i as int);
                }
                let service = &self.config.services[i];
                Some(
                    ReplaceExecPlan {
                        stable_exec: join_path(service.app_dir.as_str(), service.stable_exec_name.as_str()),
                        new_exec: join_path(service.app_dir.as_str(), service.new_exec_name.as_str()),
                        service_name: service.name.clone(),
                    },
                )
            },
            None => None,
        }
    }

    /// The connection to ask for a rolling update when a new executable
    /// appears at `path` (see `update_target`).
    pub fn send_update_message(&self, path: &str) -> (r: Option<usize>)
        ensures
            match r {
                Some(i) => update_target(self@, path@) == Some(i as int),
                None => update_target(self@, path@).is_none(),
            },
    {
        let ghost cfg = self@.config;
        let mut i: usize = 0;
        while i < self.config.services.len()
            invariant
                i <= cfg.len(),
                cfg == self@.config,
                cfg == configs_view(self.config.services@),
                forall|j: int|
                    0 <= j < i ==> !same_path(path_join(cfg[j].app_dir, cfg[j].new_exec_name), path@),
            decreases cfg.len() - i,
        {
            let service = &self.config.services[i];
            let candidate = join_path(service.app_dir.as_str(), service.new_exec_name.as_str());
            if paths_equal(candidate.as_str(), path) {
                proof {
                    lemma_service_with_new_exec(cfg, path@, i as int);
                }
                return self.position_of_connection(service.name.as_str());
            }
            i += 1;
        }
        proof {
            if exists|k: int|
                0 <= k < cfg.len() && same_path(path_join(cfg[k].app_dir, cfg[k].new_exec_name), path@) {
                let k = choose|k: int|
                    0 <= k < cfg.len() && same_path(path_join(cfg[k].app_dir, cfg[k].new_exec_name), path@);
                assert(!same_path(path_join(cfg[k].app_dir, cfg[k].new_exec_name), path@));
            }
        }
        None
    }

    fn rate_is_zero(&self, name: &str, addrs: &Vec<ConnectAddr>) -> (b: bool)
        ensures
            b == health_rate_is_zero(self@, name@, addrs_view(addrs@)),
    {
        proof {
            reveal(health_rate_is_zero);
        }
        match self.config.find_service_config(name) {
            Some(i) => {
                proof {
                    lemma_config_found(self@.config, name@, i as int);
                }
                let c = &self.config.services[i];
                c.health_check_exec.is_some() && self.is_running(name) && addrs.len() > 0 && match c.health_check_rate {
                    Some(r) => r == 0,
                    None => false,
                }
            },
            None => false,
        }
    }

    /// Whether no health check of the report `message` would divide by a
    /// rate of zero (see `message_rates_ok`).
    pub fn health_rates_ok(&self, message: &Message) -> (b: bool)
        ensures
            b == message_rates_ok(self@, message@),
    {
        match message {
            Message::UnitSpawned(name, addr) => {
                let addrs = vec![addr.clone()];
                proof {
                    assert(addrs_view(addrs@) =~= seq![addr@]);
                }
                !self.rate_is_zero(name.as_str(), &addrs)
            },
            Message::UnitsSpawned(name, addrs) => !self.rate_is_zero(name.as_str(), addrs),
            Message::UnitReplaced { name, new, .. } => {
                let addrs = vec![new.clone()];
                proof {
                    assert(addrs_view(addrs@) =~= seq![new@]);
                }
                !self.rate_is_zero(name.as_str(), &addrs)
            },
            _ => true,
        }
    }

    /// Decides what a report of a bunch leads to (see `message_effect`).
    #[verifier::rlimit(40)]
    pub fn on_bunch_message(&self, message: &Message) -> (p: MessagePlan)
        requires
            is_bunch_report(message@),
            message_rates_ok(self@, message@),
        ensures
            p@ == message_effect(self@, message@),
    {
        match message {
            Message::UnitSpawned(name, addr) => {
                let addrs = vec![addr.clone()];
                proof {
                    assert(addrs_view(addrs@) =~= seq![addr@]);
                }
                let health_checks = self.start_health_check_tasks(name.as_str(), &addrs);
                let update_script = self.run_update_script(name.as_str(), Some(addrs), None);
                MessagePlan { health_checks, update_script, replace_exec: None }
            },
            Message::UnitsSpawned(name, addrs) => {
                let health_checks = self.start_health_check_tasks(name.as_str(), addrs);
                let update_script = self.run_update_script(
                    name.as_str(),
                    Some(clone_addrs(addrs)),
                    None,
                );
                MessagePlan { health_checks, update_script, replace_exec: None }
            },
            Message::UnitDespawned(name, old) => {
                let olds = vec![old.clone()];
                proof {
                    assert(addrs_view(olds@) =~= seq![old@]);
                }
                let update_script = self.run_update_script(name.as_str(), None, Some(olds));
                MessagePlan { health_checks: None, update_script, replace_exec: None }
            },
            Message::UnitsDespawned(name, old) => {
                let update_script = self.run_update_script(
                    name.as_str(),
                    None,
                    Some(clone_addrs(old)),
                );
                MessagePlan { health_checks: None, update_script, replace_exec: None }
            },
            Message::UnitReplaced { name, old, new } => {
                let news = vec![new.clone()];
                let olds = vec![old.clone()];
                proof {
                    assert(addrs_view(news@) =~= seq![new@]);
                    assert(addrs_view(olds@) =~= seq![old@]);
                }
                let health_checks = self.start_health_check_tasks(name.as_str(), &news);
                let update_script = self.run_update_script(name.as_str(), Some(news), Some(olds));
                MessagePlan { health_checks, update_script, replace_exec: None }
            },
            Message::UpdateFail { name, old, new } => {
                let update_script = self.run_update_script(
                    name.as_str(),
                    Some(clone_addrs(new)),
                    Some(clone_addrs(old)),
                );
                MessagePlan { health_checks: None, update_script, replace_exec: None }
            },
            Message::UpdateFinished(name) => {
                let replace_exec = self.replace_stable_exec(name.as_str());
                MessagePlan { health_checks: None, update_script: None, replace_exec }
            },
            _ => MessagePlan { health_checks: None, update_script: None, replace_exec: None },
        }
    }
}

/// Whether `names` holds `name`.
pub fn contains_name(names: &Vec<String>, name: &str) -> (b: bool)
    ensures
        b == names.deep_view().contains(name@),
{
    let mut i: usize = 0;
    while i < names.len()
        invariant
            i <= names@.len(),
            forall|j: int| 0 <= j < i ==> names@[j]@ != name@,
        decreases names@.len() - i,
    {
        if str_eq(names[i].as_str(), name) {
            proof {
                assert(names.deep_view()[i as int] == name@);
            }
            return true;
        }
        i += 1;
    }
    proof {
        if names.deep_view().contains(name@) {
            let k = choose|k: int| 0 <= k < names.deep_view().len() && names.deep_view()[k] == name@;
            assert(names@[k]@ == name@);
        }
    }
    false
}

proof fn lemma_config_found(s: Seq<ServiceConfigView>, name: Seq<char>, i: int)
    requires
        first_config_named(s, name) == Some(i),
    ensures
        0 <= i < s.len(),
        s[i].name == name,
{
    if exists|k: int| 0 <= k < s.len() && #[trigger] s[k].name == name {
        let k = choose|k: int| 0 <= k < s.len() && #[trigger] s[k].name == name;
        lemma_least_config_index(s, name, k);
    }
}

proof fn lemma_least_config_index(s: Seq<ServiceConfigView>, name: Seq<char>, k: int)
    requires
        0 <= k < s.len(),
        s[k].name == name,
    ensures
        exists|i: int|
            0 <= i < s.len() && #[trigger] s[i].name == name && forall|j: int|
                0 <= j < i ==> s[j].name != name,
    decreases k,
{
    if exists|j: int| 0 <= j < k && #[trigger] s[j].name == name {
        let j = choose|j: int| 0 <= j < k && #[trigger] s[j].name == name;
        lemma_least_config_index(s, name, j);
    } else {
        assert(forall|j: int| 0 <= j < k ==> s[j].name != name);
    }
}

proof fn lemma_service_with_new_exec(cfg: Seq<ServiceConfigView>, path: Seq<char>, i: int)
    requires
        0 <= i < cfg.len(),
        same_path(path_join(cfg[i].app_dir, cfg[i].new_exec_name), path),
        forall|j: int|
            0 <= j < i ==> !same_path(path_join(cfg[j].app_dir, cfg[j].new_exec_name), path),
    ensures
        service_with_new_exec(cfg, path) == Some(i),
{
    let k = choose|k: int|
        0 <= k < cfg.len() && same_path(path_join(cfg[k].app_dir, cfg[k].new_exec_name), path)
            && forall|j: int|
            0 <= j < k ==> !same_path(path_join(cfg[j].app_dir, cfg[j].new_exec_name), path);
    if k < i {
    } else if i < k {
    }
}

} // verus!

verus! {

/// Despawning neither loses nor invents connections: every connection is
/// either kept or removed, and every name either removed one connection or
/// is reported as not running.
pub proof fn lemma_despawn_accounts_for_everything<T>(
    conns: Seq<BunchConnectionView<T>>,
    names: Seq<Seq<char>>,
)
    ensures
        ({
            let (rest, removed, missing) = despawn_effect(conns, names);
            &&& rest.len() + removed.len() == conns.len()
            &&& removed.len() + missing.len() == names.len()
        }),
    decreases names.len(),
{
    if names.len() > 0 {
        lemma_despawn_accounts_for_everything(conns, names.drop_last());
        let (rest, removed, missing) = despawn_effect(conns, names.drop_last());
        let name = names.last();
        if is_connected(rest, name) {
            let k = choose|k: int| 0 <= k < rest.len() && #[trigger] rest[k].name == name;
            lemma_least_conn_index(rest, name, k);
        }
    }
}

proof fn lemma_least_conn_index<T>(s: Seq<BunchConnectionView<T>>, name: Seq<char>, k: int)
    requires
        0 <= k < s.len(),
        s[k].name == name,
    ensures
        0 <= first_conn_named(s, name) < s.len(),
        s[first_conn_named(s, name)].name == name,
    decreases k,
{
    if exists|j: int| 0 <= j < k && #[trigger] s[j].name == name {
        let j = choose|j: int| 0 <= j < k && #[trigger] s[j].name == name;
        lemma_least_conn_index(s, name, j);
    } else {
        lemma_first_conn_named(s, name, k);
    }
}

proof fn lemma_without(s: Seq<ConnectAddrView>, other: Seq<ConnectAddrView>)
    ensures
        forall|a: ConnectAddrView| #[trigger] without(s, other).contains(a) ==> s.contains(a)
            && !other.contains(a),
    decreases s.len(),
{
    if s.len() > 0 {
        lemma_without(s.drop_last(), other);
        assert forall|a: ConnectAddrView| #[trigger] without(s, other).contains(a) implies s.contains(a)
            && !other.contains(a) by {
            let r = without(s.drop_last(), other);
            if r.contains(a) {
                let k = choose|k: int| 0 <= k < s.drop_last().len() && s.drop_last()[k] == a;
                assert(s[k] == a);
            } else {
                assert(a == s.last());
            }
        }
    }
}

/// When an update both adds and removes addresses, an address in both lists
/// is passed in neither: every address passed with `--add` is one to add
/// and not one to remove, and every address passed with `--remove` is one
/// to remove and not one to add.
pub proof fn lemma_common_addresses_cancel(add: Seq<ConnectAddrView>, rm: Seq<ConnectAddrView>)
    ensures
        forall|a: ConnectAddrView| #[trigger] without(add, rm).contains(a) ==> add.contains(a)
            && !rm.contains(a),
        forall|a: ConnectAddrView| #[trigger] without(rm, add).contains(a) ==> rm.contains(a)
            && !add.contains(a),
        update_args(Some(add), Some(rm)) == Some(
            flag_args(without(add, rm), "--add"@) + flag_args(without(rm, add), "--remove"@),
        ),
{
    lemma_without(add, rm);
    lemma_without(rm, add);
}

/// Filtering keeps exactly the configured names, in their order: each kept
/// name is configured, and a name is kept as often as it was given when it
/// is configured.
pub proof fn lemma_filter_keeps_configured(names: Seq<Seq<char>>, configs: Seq<ServiceConfigView>)
    ensures
        forall|n: Seq<char>| #[trigger] configured_names(names, configs).contains(n) ==> is_configured(
            configs,
            n,
        ) && names.contains(n),
        (forall|i: int| 0 <= i < names.len() ==> is_configured(configs, #[trigger] names[i]))
            ==> configured_names(names, configs) == names,
    decreases names.len(),
{
    if names.len() > 0 {
        let d = names.drop_last();
        lemma_filter_keeps_configured(d, configs);
        assert forall|n: Seq<char>| #[trigger] configured_names(names, configs).contains(n) implies is_configured(configs, n)
            && names.contains(n) by {
            if configured_names(d, configs).contains(n) {
                let k = choose|k: int| 0 <= k < d.len() && d[k] == n;
                assert(names[k] == n);
            } else {
                assert(n == names.last());
                assert(names[names.len() - 1] == n);
            }
        }
        if forall|i: int| 0 <= i < names.len() ==> is_configured(configs, #[trigger] names[i]) {
            assert forall|i: int| 0 <= i < d.len() implies is_configured(configs, #[trigger] d[i]) by {
                assert(d[i] == names[i]);
            }
            assert(is_configured(configs, names[names.len() - 1]));
            assert(d.push(names.last()) =~= names);
        }
    } else {
        assert(configured_names(names, configs) =~= names);
    }
}

proof fn lemma_single_configured(n: Seq<char>, configs: Seq<ServiceConfigView>)
    requires
        is_configured(configs, n),
    ensures
        configured_names(seq![n], configs) == seq![n],
{
    assert(seq![n].drop_last() =~= Seq::<Seq<char>>::empty());
    assert(seq![n].last() == n);
    assert(configured_names(Seq::<Seq<char>>::empty(), configs) == Seq::<Seq<char>>::empty());
    assert(Seq::<Seq<char>>::empty().push(n) =~= seq![n]);
}

/// Stopping a configured service that runs as one bunch disconnects it: its
/// connection is the one handed out for a shutdown, the other connections
/// stay, and the service is no longer running.
pub proof fn lemma_stop_disconnects<T>(b: BunchControllerView<T>, n: Seq<char>, i: int)
    requires
        is_configured(b.config, n),
        0 <= i < b.connections.len(),
        b.connections[i].name == n,
        forall|j: int| 0 <= j < b.connections.len() && j != i ==> #[trigger] b.connections[j].name != n,
    ensures
        ({
            let (b1, p) = command_effect(b, CommandsView::StopServices(seq![n]));
            &&& !is_connected(b1.connections, n)
            &&& b1.connections == b.connections.remove(i)
            &&& p.despawned == seq![b.connections[i]]
            &&& p.not_running.len() == 0
            &&& p.spawn.len() == 0
        }),
{
    let conns = b.connections;
    lemma_single_configured(n, b.config);
    assert(seq![n].drop_last() =~= Seq::<Seq<char>>::empty());
    assert(seq![n].last() == n);
    lemma_first_conn_named(conns, n, i);
    assert(is_connected(conns, n));
    let none = Seq::<Seq<char>>::empty();
    assert(despawn_effect(conns, none) == (conns, Seq::<BunchConnectionView<T>>::empty(), none));
    assert(Seq::<BunchConnectionView<T>>::empty().push(conns[i]) =~= seq![conns[i]]);
    assert(despawn_effect(conns, seq![n]) == (conns.remove(i), seq![conns[i]], none));
    let rest = conns.remove(i);
    assert forall|k: int| 0 <= k < rest.len() implies #[trigger] rest[k].name != n by {
        if k < i {
            assert(rest[k] == conns[k]);
        } else {
            assert(rest[k] == conns[k + 1]);
        }
    }
}

/// The status of a configured service says whether it is running.
pub proof fn lemma_status_reports_running<T>(b: BunchControllerView<T>, n: Seq<char>)
    requires
        is_configured(b.config, n),
    ensures
        ({
            let (b1, p) = command_effect(b, CommandsView::SendStatusToStream(seq![n]));
            &&& b1 == b
            &&& p.feedback.last() == (if is_connected(b.connections, n) {
                running_text(n)
            } else {
                not_running_text(n)
            })
        }),
{
    lemma_single_configured(n, b.config);
    assert(seq![n].drop_last() =~= Seq::<Seq<char>>::empty());
    assert(seq![n].last() == n);
}

/// A restart is a stop followed by a start: it removes the same
/// connections, reports the same services as not running, and spawns what a
/// start would spawn afterwards, with the feedback of both.
pub proof fn lemma_restart_is_stop_then_start<T>(b: BunchControllerView<T>, names: Seq<Seq<char>>)
    ensures
        ({
            let (b1, p) = command_effect(b, CommandsView::RestartServices(names));
            let (b2, q) = command_effect(b, CommandsView::StopServices(names));
            let (b3, r) = command_effect(b2, CommandsView::StartServices(names));
            &&& b1 == b3
            &&& p.despawned == q.despawned
            &&& p.not_running == q.not_running
            &&& p.spawn == r.spawn
            &&& p.feedback == q.feedback + r.feedback
            &&& !p.exit
        }),
{
}

/// When a bunch reports units despawned (one, or all of a stopped bunch),
/// their addresses are only ever passed to the update script after
/// `--remove`, in order, never after `--add`; no health check starts; and
/// the script runs whenever the service is configured with one.
pub proof fn lemma_despawned_addresses_are_removed<T>(
    b: BunchControllerView<T>,
    name: Seq<char>,
    addrs: Seq<ConnectAddrView>,
)
    ensures
        ({
            let p = message_effect(b, MessageView::UnitsDespawned(name, addrs));
            &&& p.health_checks is None
            &&& p.replace_exec is None
            &&& match p.update_script {
                Some(plan) => plan.args == flag_args(addrs, "--remove"@),
                None => true,
            }
            &&& (match first_config_named(b.config, name) {
                Some(i) => b.config[i].update_script is Some,
                None => false,
            }) ==> p.update_script is Some
        }),
        ({
            let a = if addrs.len() > 0 { addrs[0] } else { ConnectAddrView::Unix(Seq::empty()) };
            let p = message_effect(b, MessageView::UnitDespawned(name, a));
            &&& p.health_checks is None
            &&& match p.update_script {
                Some(plan) => plan.args == flag_args(seq![a], "--remove"@),
                None => true,
            }
        }),
{
    reveal(update_script_effect);
}

} // verus!
