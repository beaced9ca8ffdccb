use buzzoperator::nginx::{
    addition_commands, lines_of, occurs, removal_commands, rewrite_upstream, string_of,
    trim_bounds, update_upstream, upstream_matcher, upstream_pattern,
};

fn strings(v: &[&str]) -> Vec<String> {
    v.iter().map(|s| s.to_string()).collect()
}

const CONF: &str = "http {\n    upstream my_backend {\n        server 127.0.0.1:8000;\n        server 127.0.0.1:8001;\n    }\n}\n";

#[test]
fn upstream_servers_are_added_and_removed() {
    let matcher = upstream_matcher("my_backend").expect("pattern compiles");
    let add = strings(&["127.0.0.1:8002", "127.0.0.1:8000"]);
    let remove = strings(&["127.0.0.1:8001"]);
    let r = update_upstream(CONF, &add, &remove, &matcher);
    assert_eq!(
        r.output,
        "http {\n    upstream my_backend {\n    \tserver 127.0.0.1:8002;\n        server 127.0.0.1:8000;\n    }\n}\n"
    );
    assert_eq!(
        r.notes,
        strings(&[
            "Found match on 1 line.",
            "Add 127.0.0.1:8002",
            "Remove old:         server 127.0.0.1:8001;",
        ])
    );
}

#[test]
fn other_upstreams_are_left_alone() {
    let matcher = upstream_matcher("other").expect("pattern compiles");
    let r = update_upstream(CONF, &strings(&["unix:/run/a.sock"]), &Vec::new(), &matcher);
    assert_eq!(r.output, CONF);
    assert!(r.notes.is_empty());
}

#[test]
fn crlf_lines_and_a_missing_final_line_feed() {
    let conf = "upstream b {\r\n  server x;\r\n}";
    let matcher = upstream_matcher("b").unwrap();
    let r = update_upstream(conf, &strings(&["y"]), &strings(&["x"]), &matcher);
    assert_eq!(r.output, "upstream b {\n\tserver y;\n}\n");
    assert_eq!(
        r.notes,
        strings(&["Found match on 0 line.", "Add y", "Remove old:   server x;"])
    );
}

#[test]
fn a_server_line_without_semicolon_is_kept() {
    let conf = "upstream b {\nserver x\n}\n";
    let flags = vec![true, false, false];
    let r = rewrite_upstream(conf, &Vec::new(), &strings(&["x"]), &flags);
    assert_eq!(r.output, conf);
    assert_eq!(r.notes, strings(&["Found match on 0 line."]));
}

#[test]
fn an_invalid_upstream_name_is_an_error() {
    assert!(upstream_matcher("bad(").is_err());
    assert_eq!(upstream_pattern("my_backend"), ".*upstream my_backend \\{");
}

#[test]
fn line_helpers() {
    let c: Vec<char> = "a\r\nb\n\nc".chars().collect();
    let lines: Vec<String> = lines_of(&c).iter().map(|l| string_of(l)).collect();
    let expected: Vec<String> = "a\r\nb\n\nc".lines().map(|s| s.to_string()).collect();
    assert_eq!(lines, expected);
    let l: Vec<char> = "  \t server a; \n".chars().collect();
    let (from, to) = trim_bounds(&l);
    assert_eq!(string_of(&l[from..to].to_vec()), "server a;");
    let hay: Vec<char> = "abcabd".chars().collect();
    assert!(occurs(&hay, &"abd".chars().collect()));
    assert!(!occurs(&hay, &"abe".chars().collect()));
    assert!(occurs(&hay, &Vec::new()));
}

#[test]
fn shell_commands_for_the_second_updater() {
    let conf = "/etc/nginx/nginx.conf";
    assert_eq!(
        removal_commands(&strings(&["127.0.0.1:1", "unix:/a"]), conf),
        strings(&[
            "sed -i '/^server 127.0.0.1:1;/d' /etc/nginx/nginx.conf",
            "sed -i '/^server unix:/a;/d' /etc/nginx/nginx.conf",
        ])
    );
    assert_eq!(
        addition_commands(&strings(&["127.0.0.1:2"]), "ghashy_backend", conf),
        strings(&[
            "awk '/^upstream ghashy_backend {/ { print; print \"\\tserver 127.0.0.1:2;\"; next };1' /etc/nginx/nginx.conf",
        ])
    );
}

#[test]
fn nothing_to_change_keeps_every_line() {
    let matcher = upstream_matcher("my_backend").unwrap();
    let conf = "a\r\n    upstream my_backend {\n\tserver x;\n}";
    let r = update_upstream(conf, &Vec::new(), &Vec::new(), &matcher);
    assert_eq!(r.output, "a\n    upstream my_backend {\n\tserver x;\n}\n");
    assert_eq!(r.notes, strings(&["Found match on 1 line."]));
}
