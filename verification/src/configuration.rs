//! The user's configuration of the supervised services.

use vstd::prelude::*;
use crate::connect_addr::{ConnectAddr, ConnectAddrView};
use vstd::string::*;
use crate::text::{join_path, path_join, to_owned_string};

verus! {

/// Configuration of the supervisor itself.
#[derive(Debug)]
pub struct AppConfig {
    pub log_dir: String,
}

/// Configuration of one service: how many instances to run, which
/// executables, on which addresses, and how failures are tolerated.
#[derive(Debug)]
pub struct ServiceConfig {
    pub name: String,
    pub instances_count: u16,
    pub stable_exec_name: String,
    pub new_exec_name: String,
    pub connect_addr: ConnectAddr,
    pub roll_time_sec: Option<u32>,
    pub start_args: Option<Vec<String>>,
    pub update_script: Option<String>,
    pub app_dir: String,
    pub log_dir: Option<String>,
    pub fails_limit: u16,
    /// Program run against each instance's address to check its health.
    pub health_check_exec: Option<String>,
    /// How many health checks per hour.
    pub health_check_rate: Option<u32>,
}

/// The mathematical value of a `ServiceConfig`.
pub struct ServiceConfigView {
    pub name: Seq<char>,
    pub instances_count: u16,
    pub stable_exec_name: Seq<char>,
    pub new_exec_name: Seq<char>,
    pub connect_addr: ConnectAddrView,
    pub roll_time_sec: Option<u32>,
    pub start_args: Option<Seq<Seq<char>>>,
    pub update_script: Option<Seq<char>>,
    pub app_dir: Seq<char>,
    pub log_dir: Option<Seq<char>>,
    pub fails_limit: u16,
    pub health_check_exec: Option<Seq<char>>,
    pub health_check_rate: Option<u32>,
}

impl View for ServiceConfig {
    type V = ServiceConfigView;

    open spec fn view(&self) -> ServiceConfigView {
        ServiceConfigView {
            name: self.name@,
            instances_count: self.instances_count,
            stable_exec_name: self.stable_exec_name@,
            new_exec_name: self.new_exec_name@,
            connect_addr: self.connect_addr@,
            roll_time_sec: self.roll_time_sec,
            start_args: self.start_args.deep_view(),
            update_script: self.update_script.deep_view(),
            app_dir: self.app_dir@,
            log_dir: self.log_dir.deep_view(),
            fails_limit: self.fails_limit,
            health_check_exec: self.health_check_exec.deep_view(),
            health_check_rate: self.health_check_rate,
        }
    }
}

/// All services of the configuration file.
#[derive(Debug)]
pub struct Configuration {
    pub services: Vec<ServiceConfig>,
}

/// The views of a sequence of service configurations.
pub open spec fn configs_view(s: Seq<ServiceConfig>) -> Seq<ServiceConfigView> {
    s.map_values(|c: ServiceConfig| c@)
}

impl View for Configuration {
    type V = Seq<ServiceConfigView>;

    open spec fn view(&self) -> Seq<ServiceConfigView> {
        configs_view(self.services@)
    }
}

/// A copy of an optional string.
pub fn clone_opt_string(s: &Option<String>) -> (r: Option<String>)
    ensures
        r.deep_view() == s.deep_view(),
{
    match s {
        Some(v) => Some(v.clone()),
        None => None,
    }
}

/// A copy of a list of strings.
pub fn clone_strings(v: &Vec<String>) -> (r: Vec<String>)
    ensures
        r.deep_view() == v.deep_view(),
{
    let mut r: Vec<String> = Vec::new();
    let mut i: usize = 0;
    while i < v.len()
        invariant
            i <= v@.len(),
            r@.len() == i,
            forall|j: int| 0 <= j < i ==> #[trigger] r@[j]@ == v@[j]@,
        decreases v@.len() - i,
    {
        r.push(v[i].clone());
        i += 1;
    }
    proof {
        assert(r.deep_view() =~= v.deep_view());
    }
    r
}

impl Clone for ServiceConfig {
    fn clone(&self) -> (r: Self)
        ensures
            r@ == self@,
    {
        let start_args = match &self.start_args {
            Some(args) => Some(clone_strings(args)),
            None => None,
        };
        ServiceConfig {
            name: self.name.clone(),
            instances_count: self.instances_count,
            stable_exec_name: self.stable_exec_name.clone(),
            new_exec_name: self.new_exec_name.clone(),
            connect_addr: self.connect_addr.clone(),
            roll_time_sec: self.roll_time_sec,
            start_args,
            update_script: clone_opt_string(&self.update_script),
            app_dir: self.app_dir.clone(),
            log_dir: clone_opt_string(&self.log_dir),
            fails_limit: self.fails_limit,
            health_check_exec: clone_opt_string(&self.health_check_exec),
            health_check_rate: self.health_check_rate,
        }
    }
}

/// The directory name used for logs when none is configured.
pub open spec fn logs_dir_name() -> Seq<char> {
    seq!['l', 'o', 'g', 's']
}

/// The log directory of a service: the configured one, or `logs` in the
/// application directory.
pub open spec fn log_dir_of(c: ServiceConfigView) -> Seq<char> {
    match c.log_dir {
        Some(d) => d,
        None => path_join(c.app_dir, logs_dir_name()),
    }
}

impl ServiceConfig {
    /// If `log_dir` param not set, `log` directory create automatically in the
    /// app directory
    pub fn get_log_dir(&self) -> (d: String)
        ensures
            d@ == log_dir_of(self@),
    {
        match &self.log_dir {
            Some(d) => d.clone(),
            None => {
                let logs = to_owned_string("logs");
                proof {
                    reveal_strlit("logs");
                    assert(logs@ =~= logs_dir_name());
                }
                join_path(self.app_dir.as_str(), logs.as_str())
            },
        }
    }

    /// A configuration for tests: service `test`, five instances on unix
    /// sockets in `test_app/sockets`.
    pub fn create_test_config() -> (c: ServiceConfig)
        ensures
            c.name@ == "test"@,
            c.instances_count == 5,
            c.stable_exec_name@ == "test_stable"@,
            c.new_exec_name@ == "test_new"@,
            c.connect_addr@ == ConnectAddrView::Unix("test_app/sockets"@),
            c.roll_time_sec == Some(10u32),
            c.start_args.is_none(),
            c.update_script.is_none(),
            c.app_dir@ == "test_app"@,
            c.log_dir.is_none(),
            c.fails_limit == 5,
            c.health_check_exec.is_none(),
            c.health_check_rate.is_none(),
    {
        ServiceConfig {
            name: to_owned_string("test"),
            instances_count: 5,
            stable_exec_name: to_owned_string("test_stable"),
            new_exec_name: to_owned_string("test_new"),
            connect_addr: ConnectAddr::Unix(to_owned_string("test_app/sockets")),
            roll_time_sec: Some(10),
            start_args: None,
            update_script: None,
            app_dir: to_owned_string("test_app"),
            log_dir: None,
            fails_limit: 5,
            health_check_exec: None,
            health_check_rate: None,
        }
    }
}

/// The number of failures tolerated when the configuration gives none.
pub fn default_fail_limit() -> (n: u16)
    ensures
        n == 5,
{
    5
}

/// The index of the first service configuration named `name`.
pub open spec fn first_config_named(s: Seq<ServiceConfigView>, name: Seq<char>) -> Option<int> {
    if exists|i: int| 0 <= i < s.len() && #[trigger] s[i].name == name {
        Some(
            choose|i: int|
                0 <= i < s.len() && #[trigger] s[i].name == name && forall|j: int|
                    0 <= j < i ==> s[j].name != name,
        )
    } else {
        None
    }
}

proof fn lemma_first_config_named(s: Seq<ServiceConfigView>, name: Seq<char>, i: int)
    requires
        0 <= i < s.len(),
        s[i].name == name,
        forall|j: int| 0 <= j < i ==> s[j].name != name,
    ensures
        first_config_named(s, name) == Some(i),
{
    let k = choose|k: int|
        0 <= k < s.len() && #[trigger] s[k].name == name && forall|j: int|
            0 <= j < k ==> s[j].name != name;
    if k < i {
    } else if i < k {
    }
}

impl Configuration {
    /// Try to find the service config by a name: the index of the first one
    /// with that name.
    pub fn find_service_config(&self, name: &str) -> (r: Option<usize>)
        ensures
            match r {
                Some(i) => first_config_named(self@, name@) == Some(i as int),
                None => first_config_named(self@, name@).is_none(),
            },
    {
        let mut i: usize = 0;
        while i < self.services.len()
            invariant
                i <= self.services@.len(),
                forall|j: int| 0 <= j < i ==> self@[j].name != name@,
            decreases self.services@.len() - i,
        {
            let n = self.services[i].name.as_str();
            if str_eq(n, name) {
                proof {
                    assert(self@[i as int].name == name@);
                    lemma_first_config_named(self@, name@, i as int);
                }
                return Some(i);
            }
            i += 1;
        }
        proof {
            if exists|k: int| 0 <= k < self@.len() && #[trigger] self@[k].name == name@ {
                let k = choose|k: int| 0 <= k < self@.len() && #[trigger] self@[k].name == name@;
                assert(self@[k].name != name@);
            }
        }
        None
    }
}

/// Whether two string slices are equal.
pub fn str_eq(a: &str, b: &str) -> (r: bool)
    ensures
        r == (a@ == b@),
{
    let la = a.unicode_len();
    let lb = b.unicode_len();
    if la != lb {
        return false;
    }
    let mut i: usize = 0;
    while i < la
        invariant
            i <= la,
            la == a@.len(),
            lb == b@.len(),
            la == lb,
            forall|j: int| 0 <= j < i ==> a@[j] == b@[j],
        decreases la - i,
    {
        if a.get_char(i) != b.get_char(i) {
            return false;
        }
        i += 1;
    }
    proof {
        assert(a@ =~= b@);
    }
    true
}

} // verus!
