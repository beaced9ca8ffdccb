use buzzoperator::sockets::{
    allocation_fits_exec, checked_min_not_occupied, find_min_not_occupied, get_sockets_paths,
    indices_from_entries, parse_socket_index,
};

fn assert_all_under(paths: &[String], dir: &str) {
    for path in paths.iter() {
        assert_eq!(std::path::Path::new(path).starts_with(dir), true);
    }
}

#[test]
fn service_test_get_socket_path() {
    let unix_socket_path = "test_app/sockets";
    let socket_path = get_sockets_paths("test", 5, unix_socket_path, &Vec::new());
    assert_all_under(&socket_path, "test_app/sockets");
}

#[test]
fn service_bunch_test_get_socket_path() {
    let unix_socket_path = "test_app/sockets";
    let socket_path = get_sockets_paths("test", 5, unix_socket_path, &Vec::new());
    assert_all_under(&socket_path, "test_app/sockets");
}

#[test]
fn mod_test_get_socket_path() {
    let unix_socket_path = "test_app/sockets";
    let socket_path = get_sockets_paths("test", 5, unix_socket_path, &Vec::new());
    assert_all_under(&socket_path, "test_app/sockets");
}

#[test]
fn service_test_find_min_not_occupied() {
    let numbers = vec![1, 2, 4, 5, 6];
    let min = find_min_not_occupied(numbers);
    assert_eq!(min, 3);
}

#[test]
fn service_bunch_test_find_min_not_occupied() {
    let numbers = vec![1, 2, 4, 5, 6];
    let min = find_min_not_occupied(numbers);
    assert_eq!(min, 3);
}

#[test]
fn mod_test_find_min_not_occupied() {
    let numbers = vec![1, 2, 4, 5, 6];
    let min = find_min_not_occupied(numbers);
    assert_eq!(min, 3);
}

#[test]
fn find_min_not_occupied_unsorted_and_edge_cases() {
    assert_eq!(find_min_not_occupied(vec![6, 4, 2, 1, 5]), 3);
    assert_eq!(find_min_not_occupied(vec![]), 1);
    // zero and repeats make no difference
    assert_eq!(find_min_not_occupied(vec![0]), 1);
    assert_eq!(find_min_not_occupied(vec![1, 1]), 2);
    assert_eq!(find_min_not_occupied(vec![2, 0, 1, 2, 1]), 3);
    assert_eq!(find_min_not_occupied(vec![2, 3]), 1);
}

#[test]
fn checked_min_not_occupied_detects_overflow() {
    let all: Vec<u16> = (1..=u16::MAX).collect();
    assert_eq!(checked_min_not_occupied(&all), None);
    let almost: Vec<u16> = (1..u16::MAX).collect();
    assert_eq!(checked_min_not_occupied(&almost), Some(u16::MAX));
}

#[test]
fn socket_paths_are_joined_and_numbered() {
    let paths = get_sockets_paths("test", 3, "test_app/sockets", &Vec::new());
    assert_eq!(
        paths,
        vec![
            "test_app/sockets/test-socket-1".to_string(),
            "test_app/sockets/test-socket-2".to_string(),
            "test_app/sockets/test-socket-3".to_string(),
        ]
    );
    let paths = get_sockets_paths("web", 1, "/run/", &Vec::new());
    assert_eq!(paths, vec!["/run/web-socket-1".to_string()]);
}

#[test]
fn existing_socket_files_are_skipped() {
    let entries = vec![
        "a-socket-1".to_string(),
        "a-socket-3".to_string(),
        "b-socket-2".to_string(),
        "readme".to_string(),
        "a-socket-x".to_string(),
        "sock2".to_string(),
    ];
    let paths = get_sockets_paths("a", 2, "d", &entries);
    assert_eq!(paths, vec!["d/a-socket-2".to_string(), "d/a-socket-4".to_string()]);
    for p in paths.iter() {
        let file = std::path::Path::new(p).file_name().unwrap().to_str().unwrap().to_string();
        assert!(!entries.contains(&file));
    }
}

#[test]
fn the_required_count_of_paths_is_returned() {
    let entries: Vec<String> = (1..=4).map(|n| format!("test-socket-{}", n)).collect();
    let paths = get_sockets_paths("test", 5, "test_app/sockets", &entries);
    assert_eq!(paths.len(), 5);
    assert_eq!(paths[0], "test_app/sockets/test-socket-5");
    assert_eq!(paths[4], "test_app/sockets/test-socket-9");
}

#[test]
fn socket_index_parsing_follows_u16_from_str() {
    assert_eq!(parse_socket_index("web", "web-socket-12"), Some(12));
    assert_eq!(parse_socket_index("web", "web-socket-+7"), Some(7));
    assert_eq!(parse_socket_index("web", "web-socket-007"), Some(7));
    assert_eq!(parse_socket_index("web", "web-socket-65535"), Some(65535));
    assert_eq!(parse_socket_index("web", "web-socket-65536"), None);
    assert_eq!(parse_socket_index("web", "web-socket-"), None);
    assert_eq!(parse_socket_index("web", "web-socket--1"), None);
    assert_eq!(parse_socket_index("web", "web-socket-1a"), None);
    assert_eq!(parse_socket_index("web", "api-socket-1"), None);
    assert_eq!(parse_socket_index("web", "sock1"), None);
    assert_eq!(parse_socket_index("web", "web"), None);
    for s in ["web-socket-0", "web-socket-+0", "web-socket-99999", "web-socket-1a"] {
        let expected = s.strip_prefix("web-socket-").and_then(|r| r.parse::<u16>().ok());
        assert_eq!(parse_socket_index("web", s), expected);
    }
}

#[test]
fn indices_are_read_in_order() {
    let entries = vec!["x-socket-5".to_string(), "x".to_string(), "x-socket-2".to_string()];
    assert_eq!(indices_from_entries("x", &entries), vec![5, 2]);
}

#[test]
fn allocation_fit_check() {
    assert!(allocation_fits_exec(&vec![1, 2, 3], 10));
    let almost: Vec<u16> = (1..u16::MAX).collect();
    assert!(allocation_fits_exec(&almost, 1));
    assert!(!allocation_fits_exec(&almost, 2));
}

#[test]
fn distinct_positive_numbers_give_the_least_missing_one() {
    assert_eq!(find_min_not_occupied(vec![3, 1, 2, 5]), 4);
    assert_eq!(find_min_not_occupied(vec![7, 8]), 1);
    assert_eq!(find_min_not_occupied(vec![2, 1]), 3);
}

#[test]
fn only_the_set_of_numbers_matters() {
    let ones = vec![1u16; 65535];
    assert_eq!(find_min_not_occupied(ones), 2);
    assert_eq!(find_min_not_occupied(vec![1]), find_min_not_occupied(vec![1, 1, 1]));
    assert_eq!(find_min_not_occupied(vec![3, 1]), find_min_not_occupied(vec![1, 3, 3]));
}
