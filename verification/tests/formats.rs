use buzzoperator::configuration::{default_fail_limit, str_eq, AppConfig, Configuration, ServiceConfig};
use buzzoperator::connect_addr::{contains_addr, ConnectAddr, IpAddr};
use buzzoperator::paths::{components, paths_equal};
use buzzoperator::error::ServiceUnitError;
use buzzoperator::service_unit::{exit_status_result, unit_command_args, unit_exec, UnitVersion};
use buzzoperator::state_machine::{Event, State, StateBox};
use buzzoperator::text::{chars_of, decimal_string, is_whitespace, join_path};

#[test]
fn ipv4_text() {
    assert_eq!(IpAddr::V4(127, 0, 0, 1).to_display_string(), "127.0.0.1");
    assert_eq!(IpAddr::V4(255, 10, 0, 200).to_display_string(), "255.10.0.200");
}

#[test]
fn ipv6_text_shortens_the_first_longest_zero_run() {
    assert_eq!(IpAddr::V6(0, 0, 0, 0, 0, 0, 0, 1).to_display_string(), "::1");
    assert_eq!(IpAddr::V6(0, 0, 0, 0, 0, 0, 0, 0).to_display_string(), "::");
    assert_eq!(
        IpAddr::V6(0x2001, 0xdb8, 0, 0, 1, 0, 0, 1).to_display_string(),
        "2001:db8::1:0:0:1"
    );
    assert_eq!(
        IpAddr::V6(0x2001, 0xdb8, 0, 0, 0, 0, 0, 0).to_display_string(),
        "2001:db8::"
    );
    assert_eq!(IpAddr::V6(1, 0, 1, 0, 1, 0, 1, 0).to_display_string(), "1:0:1:0:1:0:1:0");
    assert_eq!(
        IpAddr::V6(0xfe80, 0, 0, 0, 0xabcd, 0, 0, 0).to_display_string(),
        "fe80::abcd:0:0:0"
    );
}

#[test]
fn ipv6_mapped_ipv4_text() {
    assert_eq!(
        IpAddr::V6(0, 0, 0, 0, 0, 0xffff, 0xc000, 0x0280).to_display_string(),
        "::ffff:192.0.2.128"
    );
}

#[test]
fn connect_addr_text_and_equality() {
    let unix = ConnectAddr::Unix("/run/app.sock".to_string());
    let tcp = ConnectAddr::Tcp { addr: IpAddr::V4(10, 0, 0, 1), port: 443 };
    let tcp6 = ConnectAddr::Tcp { addr: IpAddr::V6(0, 0, 0, 0, 0, 0, 0, 1), port: 80 };
    assert_eq!(unix.to_display_string(), "/run/app.sock");
    assert_eq!(tcp.to_display_string(), "10.0.0.1:443");
    assert_eq!(tcp6.to_display_string(), "::1:80");
    assert_eq!(tcp.clone().into_string(), "10.0.0.1:443");
    assert!(tcp.same_as(&tcp.clone()));
    assert!(!tcp.same_as(&unix));
    assert!(!tcp.same_as(&ConnectAddr::Tcp { addr: IpAddr::V4(10, 0, 0, 1), port: 444 }));
    let list = vec![unix.clone(), tcp.clone()];
    assert!(contains_addr(&list, &tcp));
    assert!(!contains_addr(&list, &tcp6));
}

#[test]
fn paths_compare_by_components() {
    assert!(paths_equal("/srv/a/b", "/srv//a/./b/"));
    assert!(paths_equal("a/b", "a/b/"));
    assert!(paths_equal("./a", "./a/"));
    assert!(!paths_equal("./a", "a"));
    assert!(!paths_equal("/a", "a"));
    assert!(!paths_equal("a/../b", "b"));
    assert!(paths_equal("", ""));
    let (rooted, parts) = components("/x/./y//z/");
    assert!(rooted);
    assert_eq!(parts, vec!["x".to_string(), "y".to_string(), "z".to_string()]);
    let (rooted, parts) = components("./q/..");
    assert!(!rooted);
    assert_eq!(parts, vec![".".to_string(), "q".to_string(), "..".to_string()]);
}

#[test]
fn joining_paths() {
    assert_eq!(join_path("test_app", "logs"), "test_app/logs");
    assert_eq!(join_path("test_app/", "logs"), "test_app/logs");
    assert_eq!(join_path("", "logs"), "logs");
    assert_eq!(join_path("test_app", "/var/log"), "/var/log");
}

#[test]
fn numbers_and_characters() {
    assert_eq!(decimal_string(0), "0");
    assert_eq!(decimal_string(65535), "65535");
    assert_eq!(decimal_string(u64::MAX), u64::MAX.to_string());
    for c in [' ', '\t', '\n', '\u{a0}', '\u{3000}', 'a', '0', '\u{200b}'] {
        assert_eq!(is_whitespace(c), c.is_whitespace());
    }
    assert_eq!(chars_of("héllo"), vec!['h', 'é', 'l', 'l', 'o']);
    assert!(str_eq("abc", "abc"));
    assert!(!str_eq("abc", "abd"));
}

#[test]
fn log_directory_defaults_to_logs_in_the_app_dir() {
    let mut c = ServiceConfig::create_test_config();
    assert_eq!(c.get_log_dir(), "test_app/logs");
    c.log_dir = Some("/var/log/test".to_string());
    assert_eq!(c.get_log_dir(), "/var/log/test");
    let app = AppConfig { log_dir: "/var/log/buzz".to_string() };
    assert_eq!(app.log_dir, "/var/log/buzz");
}

#[test]
fn test_configuration_values() {
    let c = ServiceConfig::create_test_config();
    assert_eq!(c.name, "test");
    assert_eq!(c.instances_count, 5);
    assert_eq!(c.stable_exec_name, "test_stable");
    assert_eq!(c.new_exec_name, "test_new");
    assert_eq!(c.connect_addr.to_display_string(), "test_app/sockets");
    assert_eq!(c.roll_time_sec, Some(10));
    assert_eq!(c.fails_limit, 5);
    assert_eq!(default_fail_limit(), 5);
}

#[test]
fn finding_a_service_configuration() {
    let mut b = ServiceConfig::create_test_config();
    b.name = "b".to_string();
    let mut b2 = ServiceConfig::create_test_config();
    b2.name = "b".to_string();
    let config = Configuration { services: vec![ServiceConfig::create_test_config(), b, b2] };
    assert_eq!(config.find_service_config("b"), Some(1));
    assert_eq!(config.find_service_config("test"), Some(0));
    assert_eq!(config.find_service_config("c"), None);
}

#[test]
fn unit_arguments() {
    let unix = ConnectAddr::Unix("/run/s1".to_string());
    assert_eq!(unit_command_args(&unix, &None), vec!["--unix-socket", "/run/s1"]);
    let tcp = ConnectAddr::Tcp { addr: IpAddr::V4(127, 0, 0, 1), port: 8080 };
    let extra = Some(vec!["--verbose".to_string(), "-j".to_string()]);
    assert_eq!(
        unit_command_args(&tcp, &extra),
        vec!["--ip", "127.0.0.1", "--port", "8080", "--verbose", "-j"]
    );
    let c = ServiceConfig::create_test_config();
    assert_eq!(unit_exec(&c, UnitVersion::Stable), "test_app/test_stable");
    assert_eq!(unit_exec(&c, UnitVersion::New), "test_app/test_new");
}

#[test]
fn state_machine_transitions() {
    let mut sb = StateBox::new();
    assert_eq!(*sb.current(), State::Starting);
    assert_eq!(*sb.update(Event::StopRequest), State::Starting);
    assert_eq!(*sb.update(Event::UpdateRequest), State::Starting);
    assert_eq!(*sb.update(Event::ServicesEstablished), State::Running);
    assert_eq!(*sb.update(Event::UpdateRequest), State::Updating);
    assert_eq!(*sb.update(Event::UpdatingFailed), State::Running);
    assert_eq!(*sb.update(Event::UpdateRequest), State::Updating);
    assert_eq!(*sb.update(Event::UpdatingFinished), State::Running);
    assert!(sb.is(State::Running));
    assert_eq!(*sb.update(Event::StopRequest), State::Stopping);
    for e in [
        Event::UpdateRequest,
        Event::StopRequest,
        Event::ServicesEstablished,
        Event::UpdatingFinished,
        Event::UpdatingFailed,
    ] {
        assert_eq!(*sb.update(e), State::Stopping);
    }
    assert!(sb.is(State::Stopping));
    assert!(!sb.is(State::Running));
}

#[test]
fn updating_can_be_stopped() {
    let mut sb = StateBox::new();
    sb.update(Event::ServicesEstablished);
    sb.update(Event::UpdateRequest);
    assert_eq!(*sb.update(Event::ServicesEstablished), State::Updating);
    assert_eq!(*sb.update(Event::StopRequest), State::Stopping);
}

#[test]
fn unit_exit_results() {
    assert!(exit_status_result(7, true, Some(0)).is_ok());
    for code in [Some(3), Some(-2), Some(i32::MIN), None] {
        match exit_status_result(7, false, code) {
            Err(ServiceUnitError::ExitError { id, err }) => {
                assert_eq!(id, 7);
                assert_eq!(err, format!("Exited with code {:?}", code));
            }
            other => panic!("unexpected {:?}", other),
        }
    }
}
