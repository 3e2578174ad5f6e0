use rustea::error::{Error, IoKind};
use rustea::paths::{to_local_path, to_remote_path};

#[test]
fn test_to_remote_path() {
    let path = ".gitignore";
    let remote_path = to_remote_path(path, false).unwrap();
    assert_eq!(remote_path, ".gitignore");
    let remote_path = to_remote_path(path, true).unwrap();
    assert_eq!(remote_path, "/scripts/.gitignore");
    let remote_path = to_remote_path("/", true);
    assert!(remote_path.is_err())
}

#[test]
fn test_to_local_path() {
    let remote_path = "testing/etc/test";
    let local_path = to_local_path(remote_path, false, "").unwrap();
    assert_eq!(local_path, "/etc/test");
    let local_path = to_local_path(remote_path, true, "/usr/local/bin").unwrap();
    assert_eq!(local_path, "/usr/local/bin/test");
    let local_path = to_local_path("test", false, "");
    assert!(local_path.is_err());
}

#[test]
fn script_path_ignores_directories() {
    assert_eq!(to_remote_path("/home/op/bin/run.sh", true).unwrap(), "/scripts/run.sh");
    assert_eq!(to_remote_path("run.sh", true).unwrap(), "/scripts/run.sh");
    assert_eq!(to_remote_path("/opt/tools/", true).unwrap(), "/scripts/tools");
}

#[test]
fn config_path_is_unchanged() {
    assert_eq!(to_remote_path("/etc/app/app.conf", false).unwrap(), "/etc/app/app.conf");
    assert_eq!(to_remote_path("/", false).unwrap(), "/");
}

#[test]
fn script_path_without_file_name_fails() {
    match to_remote_path("/", true) {
        Err(Error::Io(e)) => assert_eq!(e.kind, IoKind::Other),
        other => panic!("unexpected {:?}", other),
    }
    assert!(to_remote_path("a/..", true).is_err());
}

#[test]
fn local_path_without_separator_fails() {
    match to_local_path("plain", true, "/bin") {
        Err(Error::Io(e)) => assert_eq!(e.kind, IoKind::InvalidInput),
        other => panic!("unexpected {:?}", other),
    }
}

#[test]
fn config_round_trip_drops_feature_set() {
    let local = to_local_path("demo/etc/nginx/nginx.conf", false, "/bin").unwrap();
    assert_eq!(local, "/etc/nginx/nginx.conf");
    assert_eq!(to_remote_path(&local, false).unwrap(), "/etc/nginx/nginx.conf");
}

#[test]
fn script_local_path_uses_last_segment() {
    assert_eq!(to_local_path("demo/scripts/run.sh", true, "/opt/bin").unwrap(), "/opt/bin/run.sh");
    assert_eq!(to_local_path("demo/", true, "/opt/bin").unwrap(), "/opt/bin/");
}

#[test]
fn script_round_trip_keeps_last_segment() {
    let local = to_local_path("demo/scripts/sub/run.sh", true, "/opt/bin").unwrap();
    assert_eq!(to_remote_path(&local, true).unwrap(), "/scripts/run.sh");
    let other = to_local_path("demo/x/run.sh", true, "/opt/bin").unwrap();
    assert_eq!(to_remote_path(&other, true).unwrap(), "/scripts/run.sh");
}
