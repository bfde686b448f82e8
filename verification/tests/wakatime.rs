use ki::path::AbsolutePath;
use ki::wakatime::{LastHeartbeat, WakaTime, WakaTimeConfig, HEARTBEAT_INTERVAL};

fn path() -> AbsolutePath {
    AbsolutePath::new("/tmp/wakatime-test.rs").unwrap()
}

fn wakatime() -> WakaTime {
    let mut wakatime = WakaTime::new(WakaTimeConfig::default());
    wakatime.last_heartbeat = Some(LastHeartbeat {
        path: path(),
        sent_at: 1000,
    });
    wakatime
}

#[test]
fn write_heartbeats_are_never_rate_limited() {
    assert!(wakatime().should_send(&path(), true, 1000));
}

#[test]
fn repeated_non_write_heartbeats_are_rate_limited() {
    assert!(!wakatime().should_send(&path(), false, 1000));
}

#[test]
fn heartbeats_are_due_again_after_the_interval() {
    assert_eq!(HEARTBEAT_INTERVAL, 120_000_000_000);
    assert!(!wakatime().should_send(&path(), false, 1000 + HEARTBEAT_INTERVAL - 1));
    assert!(wakatime().should_send(&path(), false, 1000 + HEARTBEAT_INTERVAL));
    assert!(!wakatime().should_send(&path(), false, 0));
    let other = AbsolutePath::new("/tmp/other.rs").unwrap();
    assert!(wakatime().should_send(&other, false, 1000));
}

#[test]
fn heartbeats_name_the_file_and_the_editor() {
    let config = WakaTimeConfig::default();
    assert!(!config.enabled());
    assert_eq!(config.cli_path(), "wakatime-cli");
    let mut wakatime = WakaTime::new(config);
    assert!(wakatime
        .send_heartbeat(path(), true, false, 5, "1.2")
        .is_none());
    assert!(wakatime.last_heartbeat.is_none());
    let heartbeat = wakatime
        .send_heartbeat(path(), true, true, 5, "1.2")
        .unwrap();
    assert_eq!(heartbeat.program, "wakatime-cli");
    assert_eq!(
        heartbeat.args,
        vec![
            "--entity",
            "/tmp/wakatime-test.rs",
            "--plugin",
            "ki/1.2 ki-wakatime/1.2",
            "--write"
        ]
    );
    assert!(wakatime
        .send_heartbeat(path(), false, true, 6, "1.2")
        .is_none());
    let later = wakatime
        .send_heartbeat(path(), false, true, 5 + HEARTBEAT_INTERVAL, "1.2")
        .unwrap();
    assert_eq!(later.args.len(), 4);
}
