use dockerbeam::cli::{image_choices, log_filter, parse_command, take_log_level, Command, LogLevel};
use dockerbeam::io::{beamfiles_dir, load_or_create_config, match_error, recv_tar_path, send_tar_path};
use dockerbeam::webrtc_control::{
    data_channel_label, ice_servers, DATA_CHANNEL_ORDERED, ICE_CANDIDATE_POOL_SIZE,
};

fn args(a: &[&str]) -> Vec<String> {
    a.iter().map(|s| s.to_string()).collect()
}

#[test]
fn log_level_flags() {
    let mut a = args(&["dockerbeam", "send", "--verbose"]);
    assert_eq!(take_log_level(&mut a), LogLevel::Info);
    assert_eq!(a, args(&["dockerbeam", "send"]));
    let mut a = args(&["dockerbeam", "get", "--verbose-max"]);
    assert_eq!(take_log_level(&mut a), LogLevel::Debug);
    assert_eq!(a.len(), 2);
    let mut a = args(&["dockerbeam", "--verbose", "get"]);
    assert_eq!(take_log_level(&mut a), LogLevel::Error);
    assert_eq!(a.len(), 3);
    assert_eq!(log_filter(LogLevel::Error), "error");
    assert_eq!(log_filter(LogLevel::Info), "info");
    assert_eq!(log_filter(LogLevel::Debug), "debug");
}

#[test]
fn send_commands() {
    assert!(matches!(parse_command(&args(&["db", "send", "rust:latest"])), Command::Send { image: Some(i) } if i == "rust:latest"));
    assert!(matches!(parse_command(&args(&["db", "push"])), Command::Send { image: None }));
    assert!(matches!(parse_command(&args(&["db", "send", "a", "b"])), Command::Send { image: None }));
}

#[test]
fn get_commands() {
    assert!(matches!(parse_command(&args(&["db", "get", "@MTI3LjAuMC4x"])), Command::Get { peer } if peer == "MTI3LjAuMC4x"));
    assert!(matches!(parse_command(&args(&["db", "pull", "@@x"])), Command::Get { peer } if peer == "x"));
    assert!(matches!(parse_command(&args(&["db", "recieve"])), Command::Get { peer } if peer == "NULL"));
    assert!(matches!(parse_command(&args(&["db", "get", "x"])), Command::Get { peer } if peer == "NULL"));
}

#[test]
fn unknown_commands() {
    assert!(matches!(parse_command(&args(&["db", "receive"])), Command::Unknown(c) if c == "receive"));
}

#[test]
fn image_choices_join_repository_names() {
    let images = vec![
        vec!["rust:latest".to_string()],
        vec!["alpine:3.19".to_string(), "alpine:latest".to_string()],
        vec![],
        vec!["localhost:5000/app:1".to_string()],
    ];
    assert_eq!(image_choices(&images), vec!["rust", "alpinealpine", "", "localhost"]);
}

#[test]
fn error_lines() {
    assert_eq!(match_error::<u8>(Ok(3)), None);
    assert_eq!(match_error::<()>(Err("disk full".to_string())), Some("Err : disk full".to_string()));
}

#[test]
fn config_folders_and_files() {
    assert!(load_or_create_config(None).is_empty());
    assert_eq!(
        load_or_create_config(Some("/home/u/.config/beamEngine".to_string())),
        vec!["/home/u/.config/beamEngine", "/home/u/.config/beamEngine/beamfiles"]
    );
    assert_eq!(send_tar_path("/c"), "/c/beamfiles/send.tar");
    assert_eq!(recv_tar_path("/c"), "/c/beamfiles/recv.tar");
    assert_eq!(beamfiles_dir("/c"), "/c/beamfiles/");
}

#[test]
fn connection_settings() {
    let servers = ice_servers();
    assert_eq!(servers.len(), 2);
    assert_eq!(servers[0].urls.len(), 7);
    assert_eq!(servers[0].urls[0], "stun:stun.l.google.com:19302");
    assert_eq!(servers[0].username, "");
    assert_eq!(servers[1].urls, vec!["turn:numb.viagenie.ca"]);
    assert_eq!(servers[1].username, "webrtc@live.com");
    assert_eq!(data_channel_label(), "beamEngine");
    assert_eq!(ICE_CANDIDATE_POOL_SIZE, 5);
    assert!(DATA_CHANNEL_ORDERED);
}
