use std::collections::HashSet;

use tusker_core::discovery::{
    discover_local_databases, get_current_username, probe_server, probe_tcp_ports, probe_url,
    scan_socket_dirs, socket_port, AuthStatus, ProbeOutcome, ServerProbe,
};

fn names(list: &[&str]) -> Vec<String> {
    list.iter().map(|s| s.to_string()).collect()
}

#[test]
fn ports_are_read_from_socket_file_names() {
    assert_eq!(socket_port(".s.PGSQL.5432"), Some(5432));
    assert_eq!(socket_port(".s.PGSQL.0"), Some(0));
    assert_eq!(socket_port(".s.PGSQL.65535"), Some(65535));
    assert_eq!(socket_port(".s.PGSQL.65536"), None);
    assert_eq!(socket_port(".s.PGSQL.99999999999999999999"), None);
    assert_eq!(socket_port(".s.PGSQL.005432"), Some(5432));
    assert_eq!(socket_port(".s.PGSQL.+5432"), Some(5432));
    assert_eq!(socket_port(".s.PGSQL.-5432"), None);
    assert_eq!(socket_port(".s.PGSQL.+"), None);
    assert_eq!(socket_port(".s.PGSQL."), None);
    assert_eq!(socket_port(".s.PGSQL.5432.lock"), None);
    assert_eq!(socket_port(".s.PGSQL.54 32"), None);
    assert_eq!(socket_port("s.PGSQL.5432"), None);
    assert_eq!(socket_port(""), None);
    assert_eq!(socket_port(".s.PGSQL.５４３２"), None);
}

#[test]
fn socket_ports_agree_with_the_standard_parser() {
    for tail in ["", "1", "+1", "++1", "65535", "65536", "0x10", "12a", " 12", "007", "+"] {
        let name = format!(".s.PGSQL.{}", tail);
        assert_eq!(socket_port(&name), tail.parse::<u16>().ok(), "{:?}", tail);
    }
}

#[test]
fn socket_scan_collects_each_port_once() {
    let files = names(&[".s.PGSQL.5433", "other", ".s.PGSQL.5432", ".s.PGSQL.5433", ".s.PGSQL.5432.lock"]);
    assert_eq!(scan_socket_dirs(&files), HashSet::from([5433, 5432]));
    assert_eq!(scan_socket_dirs(&files).len(), 2);
    assert!(scan_socket_dirs(&Vec::new()).is_empty());
    assert!(scan_socket_dirs(&names(&["postgres.pid", ".s.PGSQL.70000"])).is_empty());
}

#[test]
fn tcp_ports_to_try_skip_the_known_ones() {
    assert_eq!(
        probe_tcp_ports(&HashSet::new()),
        vec![5432, 5433, 5434, 5435, 5436, 5437, 5438, 5439]
    );
    assert_eq!(
        probe_tcp_ports(&HashSet::from([5432, 5439, 6000, 5435])),
        vec![5433, 5434, 5436, 5437, 5438]
    );
}

#[test]
fn probe_url_encodes_the_user() {
    assert_eq!(
        probe_url("localhost", 5432, "ann lee"),
        "postgres://ann%20lee@localhost:5432/postgres?sslmode=disable"
    );
}

#[test]
fn probes_are_judged() {
    assert_eq!(
        probe_server(ProbeOutcome::Listed(names(&["app", "postgres"]))),
        (AuthStatus::Trust, names(&["app", "postgres"]))
    );
    assert_eq!(probe_server(ProbeOutcome::ListFailed), (AuthStatus::Trust, names(&["postgres"])));
    assert_eq!(
        probe_server(ProbeOutcome::ConnectFailed("error 28P01: password authentication failed".to_string())),
        (AuthStatus::PasswordRequired, names(&["postgres"]))
    );
    assert_eq!(
        probe_server(ProbeOutcome::ConnectFailed("code 28000".to_string())),
        (AuthStatus::PasswordRequired, names(&["postgres"]))
    );
    assert_eq!(
        probe_server(ProbeOutcome::ConnectFailed("connection refused".to_string())),
        (AuthStatus::PasswordRequired, names(&["__unreachable__"]))
    );
}

#[test]
fn username_falls_back() {
    assert_eq!(get_current_username(Some("ann".to_string()), Some("bob".to_string())), "ann");
    assert_eq!(get_current_username(None, Some("bob".to_string())), "bob");
    assert_eq!(get_current_username(None, None), "postgres");
}

#[test]
fn nothing_is_discovered_without_a_server() {
    assert!(discover_local_databases(&Vec::new(), "ann", &Vec::new()).is_empty());
    let unreachable = vec![ServerProbe {
        port: 5432,
        auth_status: AuthStatus::PasswordRequired,
        databases: names(&["__unreachable__"]),
    }];
    assert!(discover_local_databases(&Vec::new(), "ann", &unreachable).is_empty());
}

#[test]
fn a_trusting_server_lists_its_databases_by_name() {
    let probes = vec![ServerProbe {
        port: 5432,
        auth_status: AuthStatus::Trust,
        databases: names(&["postgres", "app"]),
    }];
    let found = discover_local_databases(&Vec::new(), "ann", &probes);
    assert_eq!(found.len(), 2);
    assert_eq!(found[0].database_name, "app");
    assert_eq!(found[1].database_name, "postgres");
    for d in &found {
        assert_eq!(d.host, "localhost");
        assert_eq!(d.port, 5432);
        assert_eq!(d.username, "ann");
        assert_eq!(d.auth_status, AuthStatus::Trust);
        assert!(!d.already_imported);
    }
}

#[test]
fn discovered_databases_are_sorted_and_marked() {
    let existing = vec![
        ("127.0.0.1".to_string(), 5433, "app".to_string()),
        ("localhost".to_string(), 5432, "postgres".to_string()),
        ("db.example.com".to_string(), 5432, "zoo".to_string()),
        ("localhost".to_string(), 9999, "app".to_string()),
    ];
    let probes = vec![
        ServerProbe { port: 5433, auth_status: AuthStatus::Trust, databases: names(&["zoo", "app"]) },
        ServerProbe { port: 5434, auth_status: AuthStatus::PasswordRequired, databases: names(&["__unreachable__"]) },
        ServerProbe { port: 5432, auth_status: AuthStatus::PasswordRequired, databases: names(&["postgres"]) },
        ServerProbe { port: 5431, auth_status: AuthStatus::Trust, databases: names(&["__unreachable__", "x"]) },
        ServerProbe { port: 5432, auth_status: AuthStatus::Trust, databases: names(&["zoo"]) },
    ];
    let found = discover_local_databases(&existing, "u", &probes);
    let shape: Vec<(u16, &str, AuthStatus, bool)> = found
        .iter()
        .map(|d| (d.port, d.database_name.as_str(), d.auth_status, d.already_imported))
        .collect();
    assert_eq!(
        shape,
        vec![
            (5431, "__unreachable__", AuthStatus::Trust, false),
            (5431, "x", AuthStatus::Trust, false),
            (5432, "postgres", AuthStatus::PasswordRequired, true),
            (5432, "zoo", AuthStatus::Trust, false),
            (5433, "app", AuthStatus::Trust, true),
            (5433, "zoo", AuthStatus::Trust, false),
        ]
    );
}
