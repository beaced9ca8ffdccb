use buzzoperator::bunch_controller::{
    after_health_check, CheckNext, CheckRun,
    addrs_without, contains_name, pass_args, update_script_args, BunchController, Commands,
};
use buzzoperator::cli::{Command, ServiceName};
use buzzoperator::configuration::{Configuration, ServiceConfig};
use buzzoperator::connect_addr::{ConnectAddr, IpAddr};
use buzzoperator::message::Message;

fn service(name: &str) -> ServiceConfig {
    let mut c = ServiceConfig::create_test_config();
    c.name = name.to_string();
    c.app_dir = format!("/srv/{}", name);
    c.stable_exec_name = "app".to_string();
    c.new_exec_name = "app_new".to_string();
    c
}

fn controller(names: &[&str]) -> BunchController<u32> {
    BunchController::new(Configuration { services: names.iter().map(|n| service(n)).collect() })
}

fn strings(v: &[&str]) -> Vec<String> {
    v.iter().map(|s| s.to_string()).collect()
}

fn tcp(port: u16) -> ConnectAddr {
    ConnectAddr::Tcp { addr: IpAddr::V4(127, 0, 0, 1), port }
}

fn names_of(conns: &[buzzoperator::bunch_controller::BunchConnection<u32>]) -> Vec<(String, u32)> {
    conns.iter().map(|c| (c.name.clone(), c.tx)).collect()
}

#[test]
fn filtering_keeps_configured_names_and_writes_lookup_feedback() {
    let c = controller(&["a", "b"]);
    let (names, feedback) = c.filter_service_names(strings(&["b", "x"]));
    assert_eq!(names, strings(&["b"]));
    assert_eq!(
        feedback,
        strings(&[
            "Found b service in configuration\0",
            "Failed to run b, no entry on configuration file!\0",
            "Found x service in configuration\0",
            "Found x service in configuration\0",
        ])
    );
}

#[test]
fn start_services_spawns_the_configured_ones() {
    let mut c = controller(&["a", "b"]);
    let plan = c.run_command(Commands::StartServices(strings(&["a", "zzz"])));
    assert_eq!(plan.spawn, strings(&["a"]));
    assert!(plan.despawned.is_empty());
    assert!(!plan.exit);
    assert_eq!(plan.feedback.len(), 3);
}

#[test]
fn stop_services_despawns_running_ones_and_reports_the_rest() {
    let mut c = controller(&["a", "b", "c"]);
    c.add_connection("a".to_string(), 1);
    c.add_connection("b".to_string(), 2);
    let plan = c.run_command(Commands::StopServices(strings(&["a", "c", "nope"])));
    assert_eq!(names_of(&plan.despawned), vec![("a".to_string(), 1)]);
    assert_eq!(plan.not_running, strings(&["c"]));
    assert!(plan.spawn.is_empty());
    assert!(!c.is_running("a"));
    assert!(c.is_running("b"));
}

#[test]
fn restart_despawns_then_spawns_and_looks_names_up_twice() {
    let mut c = controller(&["a", "b"]);
    c.add_connection("b".to_string(), 7);
    let plan = c.run_command(Commands::RestartServices(strings(&["b"])));
    assert_eq!(names_of(&plan.despawned), vec![("b".to_string(), 7)]);
    assert_eq!(plan.spawn, strings(&["b"]));
    assert_eq!(
        plan.feedback,
        strings(&[
            "Found b service in configuration\0",
            "Failed to run b, no entry on configuration file!\0",
            "Found b service in configuration\0",
            "Failed to run b, no entry on configuration file!\0",
        ])
    );
    assert!(!c.is_running("b"));
}

#[test]
fn status_is_written_for_configured_names() {
    let mut c = controller(&["a", "b"]);
    c.add_connection("a".to_string(), 1);
    let plan = c.run_command(Commands::SendStatusToStream(strings(&["a", "b"])));
    let status: Vec<String> = plan.feedback[plan.feedback.len() - 2..].to_vec();
    assert_eq!(status, strings(&["a is run!\0", "b is not run!\0"]));
    assert!(c.is_running("a"));
}

#[test]
fn all_commands_cover_every_configured_service() {
    let mut c = controller(&["a", "b"]);
    let start = c.run_command(Commands::StartAll);
    assert_eq!(start.spawn, strings(&["a", "b"]));
    c.add_connection("a".to_string(), 1);
    c.add_connection("b".to_string(), 2);
    let restart = c.run_command(Commands::RestartAll);
    assert_eq!(names_of(&restart.despawned), vec![("a".to_string(), 1), ("b".to_string(), 2)]);
    assert_eq!(restart.spawn, strings(&["a", "b"]));
    c.add_connection("a".to_string(), 3);
    let stop = c.run_command(Commands::StopAll);
    assert_eq!(names_of(&stop.despawned), vec![("a".to_string(), 3)]);
    assert_eq!(stop.not_running, strings(&["b"]));
    assert!(c.connections().is_empty());
}

#[test]
fn exit_despawns_everything_and_signals() {
    let mut c = controller(&["a", "b"]);
    c.add_connection("b".to_string(), 9);
    let plan = c.run_command(Commands::Exit);
    assert!(plan.exit);
    assert_eq!(names_of(&plan.despawned), vec![("b".to_string(), 9)]);
    assert!(c.connections().is_empty());
}

#[test]
fn despawn_removes_the_first_connection_of_each_name() {
    let mut c = controller(&["a"]);
    c.add_connection("a".to_string(), 1);
    c.add_connection("a".to_string(), 2);
    let (removed, missing) = c.despawn(strings(&["a", "q"]));
    assert_eq!(names_of(&removed), vec![("a".to_string(), 1)]);
    assert_eq!(missing, strings(&["q"]));
    assert_eq!(names_of(c.connections()), vec![("a".to_string(), 2)]);
}

#[test]
fn cli_commands_become_controller_commands() {
    let cmd = Command::Restart(ServiceName { name: "web".to_string() }).into_controller_command();
    assert!(matches!(cmd, Commands::RestartServices(ref v) if v == &strings(&["web"])));
    let cmd = Command::Start(ServiceName { name: "a".to_string() }).into_controller_command();
    assert!(matches!(cmd, Commands::StartServices(ref v) if v == &strings(&["a"])));
    let cmd = Command::Stop(ServiceName { name: "b".to_string() }).into_controller_command();
    assert!(matches!(cmd, Commands::StopServices(ref v) if v == &strings(&["b"])));
}

#[test]
fn spawn_plan_follows_configuration_order() {
    let c = controller(&["a", "b", "c"]);
    let plan = c.spawn_plan(&strings(&["c", "a", "x"]));
    let names: Vec<String> = plan.iter().map(|s| s.name.clone()).collect();
    assert_eq!(names, strings(&["a", "c"]));
    assert_eq!(c.all_service_names(), strings(&["a", "b", "c"]));
    assert_eq!(c.get_config().services.len(), 3);
}

#[test]
fn health_checks_start_for_connected_services_with_a_checker() {
    let mut svc = service("a");
    svc.health_check_exec = Some("/bin/check".to_string());
    svc.health_check_rate = Some(4);
    let mut c: BunchController<u32> =
        BunchController::new(Configuration { services: vec![service("z"), svc] });
    let addrs = vec![tcp(8000), ConnectAddr::Unix("/run/a.sock".to_string())];
    assert!(c.start_health_check_tasks("a", &addrs).is_none());
    c.add_connection("z".to_string(), 1);
    c.add_connection("a".to_string(), 2);
    let plan = c.start_health_check_tasks("a", &addrs).expect("checks start");
    assert_eq!(plan.connection, 1);
    assert_eq!(plan.exec_path, "/bin/check");
    assert_eq!(plan.service_name, "a");
    assert_eq!(plan.interval_secs, 900);
    assert_eq!(plan.target_texts, strings(&["127.0.0.1:8000", "/run/a.sock"]));
    assert_eq!(plan.targets.len(), 2);
    assert!(c.start_health_check_tasks("a", &Vec::new()).is_none());
    // no checker configured
    assert!(c.start_health_check_tasks("z", &addrs).is_none());
}

#[test]
fn health_checks_default_to_once_an_hour() {
    let mut svc = service("a");
    svc.health_check_exec = Some("/bin/check".to_string());
    let mut c: BunchController<u32> = BunchController::new(Configuration { services: vec![svc] });
    c.add_connection("a".to_string(), 5);
    let plan = c.start_health_check_tasks("a", &vec![tcp(1)]).unwrap();
    assert_eq!(plan.interval_secs, 3600);
}

#[test]
fn update_script_arguments() {
    let a = vec![tcp(1), tcp(2)];
    let r = vec![tcp(2), tcp(3)];
    assert_eq!(update_script_args(&None, &None), None);
    assert_eq!(
        update_script_args(&Some(a.clone()), &None),
        Some(strings(&["--add", "127.0.0.1:1", "127.0.0.1:2"]))
    );
    assert_eq!(
        update_script_args(&None, &Some(r.clone())),
        Some(strings(&["--remove", "127.0.0.1:2", "127.0.0.1:3"]))
    );
    assert_eq!(
        update_script_args(&Some(a.clone()), &Some(r.clone())),
        Some(strings(&["--add", "127.0.0.1:1", "--remove", "127.0.0.1:3"]))
    );
    assert_eq!(update_script_args(&Some(a.clone()), &Some(a.clone())), Some(Vec::new()));
    assert_eq!(pass_args(&Vec::new(), "--add"), Vec::<String>::new());
    let rest = addrs_without(&a, &r);
    assert_eq!(rest.len(), 1);
    assert_eq!(rest[0].to_display_string(), "127.0.0.1:1");
}

#[test]
fn update_script_plan_needs_a_configured_script() {
    let mut svc = service("a");
    svc.update_script = Some("/usr/bin/nginx-update".to_string());
    let c: BunchController<u32> =
        BunchController::new(Configuration { services: vec![svc, service("b")] });
    let plan = c.run_update_script("a", Some(vec![tcp(5)]), None).expect("script runs");
    assert_eq!(plan.script, "/usr/bin/nginx-update");
    assert_eq!(plan.args, strings(&["--add", "127.0.0.1:5"]));
    assert_eq!(plan.service_name, "a");
    assert!(c.run_update_script("a", None, None).is_none());
    assert!(c.run_update_script("b", Some(vec![tcp(5)]), None).is_none());
    assert!(c.run_update_script("x", Some(vec![tcp(5)]), None).is_none());
}

#[test]
fn replacing_the_stable_executable() {
    let c = controller(&["a"]);
    let plan = c.replace_stable_exec("a").expect("configured");
    assert_eq!(plan.stable_exec, "/srv/a/app");
    assert_eq!(plan.new_exec, "/srv/a/app_new");
    assert!(c.replace_stable_exec("b").is_none());
}

#[test]
fn a_new_executable_asks_its_bunch_to_update() {
    let mut c = controller(&["a", "b"]);
    c.add_connection("b".to_string(), 1);
    c.add_connection("a".to_string(), 2);
    assert_eq!(c.send_update_message("/srv/a/app_new"), Some(1));
    assert_eq!(c.send_update_message("/srv/a//./app_new/"), Some(1));
    assert_eq!(c.send_update_message("/srv/b/app_new"), Some(0));
    assert_eq!(c.send_update_message("/srv/a/app"), None);
    let c2 = controller(&["a"]);
    assert_eq!(c2.send_update_message("/srv/a/app_new"), None);
}

#[test]
fn bunch_reports_lead_to_scripts_checks_and_replacements() {
    let mut svc = service("a");
    svc.update_script = Some("/bin/upd".to_string());
    svc.health_check_exec = Some("/bin/check".to_string());
    svc.health_check_rate = Some(60);
    let mut c: BunchController<u32> = BunchController::new(Configuration { services: vec![svc] });
    c.add_connection("a".to_string(), 3);

    let plan = c.on_bunch_message(&Message::UnitsSpawned("a".to_string(), vec![tcp(1), tcp(2)]));
    assert_eq!(plan.health_checks.as_ref().unwrap().interval_secs, 60);
    assert_eq!(
        plan.update_script.unwrap().args,
        strings(&["--add", "127.0.0.1:1", "127.0.0.1:2"])
    );
    assert!(plan.replace_exec.is_none());

    let plan = c.on_bunch_message(&Message::UnitDespawned("a".to_string(), tcp(1)));
    assert!(plan.health_checks.is_none());
    assert_eq!(plan.update_script.unwrap().args, strings(&["--remove", "127.0.0.1:1"]));

    let plan = c.on_bunch_message(&Message::UnitReplaced {
        name: "a".to_string(),
        old: tcp(1),
        new: tcp(3),
    });
    assert_eq!(plan.health_checks.unwrap().target_texts, strings(&["127.0.0.1:3"]));
    assert_eq!(
        plan.update_script.unwrap().args,
        strings(&["--add", "127.0.0.1:3", "--remove", "127.0.0.1:1"])
    );

    let plan = c.on_bunch_message(&Message::UpdateFail {
        name: "a".to_string(),
        old: vec![tcp(1)],
        new: vec![tcp(4)],
    });
    assert_eq!(
        plan.update_script.unwrap().args,
        strings(&["--add", "127.0.0.1:4", "--remove", "127.0.0.1:1"])
    );

    let plan = c.on_bunch_message(&Message::UpdateFinished("a".to_string()));
    assert_eq!(plan.replace_exec.unwrap().new_exec, "/srv/a/app_new");
    assert!(plan.update_script.is_none());

    let plan = c.on_bunch_message(&Message::UnitSpawned("other".to_string(), tcp(9)));
    assert!(plan.health_checks.is_none() && plan.update_script.is_none());
}

#[test]
fn name_lookup() {
    let names = strings(&["x", "y"]);
    assert!(contains_name(&names, "y"));
    assert!(!contains_name(&names, "z"));
}

#[test]
fn a_zero_health_check_rate_is_detected_before_planning() {
    let mut svc = service("a");
    svc.health_check_exec = Some("/bin/check".to_string());
    svc.health_check_rate = Some(0);
    let mut c: BunchController<u32> = BunchController::new(Configuration { services: vec![svc] });
    let report = Message::UnitsSpawned("a".to_string(), vec![tcp(1)]);
    // not connected yet: no check would run
    assert!(c.health_rates_ok(&report));
    c.add_connection("a".to_string(), 1);
    assert!(!c.health_rates_ok(&report));
    assert!(!c.health_rates_ok(&Message::UnitSpawned("a".to_string(), tcp(2))));
    assert!(c.health_rates_ok(&Message::UnitsSpawned("a".to_string(), Vec::new())));
    assert!(c.health_rates_ok(&Message::UnitDespawned("a".to_string(), tcp(2))));
}

#[test]
fn the_exit_signal_is_sent_once() {
    let mut c = controller(&["a"]);
    assert!(c.exit_pending());
    let plan = c.run_command(Commands::Exit);
    assert!(plan.exit);
    assert!(!c.exit_pending());
}

#[test]
fn health_check_runs_decide_what_follows() {
    assert_eq!(after_health_check(CheckRun::Passed), CheckNext::Again);
    assert_eq!(after_health_check(CheckRun::Failed), CheckNext::ReportFailure);
    assert_eq!(after_health_check(CheckRun::WaitFailed), CheckNext::Stop);
    assert_eq!(after_health_check(CheckRun::StartFailed), CheckNext::Stop);
}
