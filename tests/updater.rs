use rustea::config::{default_config_path, RusteaConfiguration};
use rustea::error::Error;
use rustea::info::{Permission, Version as ServerVersion};
use rustea::updater::{backup_path, parse_u8, split_fields, update_target, Asset, Release, Version};

fn release(tag: &str, assets: usize) -> Release {
    Release {
        name: tag.to_string(),
        tag_name: tag.to_string(),
        draft: false,
        prerelease: false,
        assets: (0..assets)
            .map(|i| Asset {
                name: format!("asset{}", i),
                browser_download_url: format!("https://dl/{}/{}", tag, i),
            })
            .collect(),
    }
}

#[test]
fn versions_parse() {
    assert_eq!(Version::new("v1.2.3").unwrap(), Version { major: 1, minor: 2, patch: 3 });
    assert_eq!(Version::new("0.10.255").unwrap(), Version { major: 0, minor: 10, patch: 255 });
    assert_eq!(Version::new("1.2.3.4").unwrap(), Version { major: 1, minor: 2, patch: 3 });
    assert!(matches!(Version::new("1.2"), Err(Error::Version(_))));
    assert!(matches!(Version::new("1.256.0"), Err(Error::Version(_))));
    assert!(matches!(Version::new("1.x.0"), Err(Error::Version(_))));
    assert!(matches!(Version::new("1.2.3.x"), Err(Error::Version(_))));
    assert!(matches!(Version::new("vv1.2.3"), Err(Error::Version(_))));
}

#[test]
fn bytes_parse_as_std_does() {
    assert_eq!(parse_u8("0"), Some(0));
    assert_eq!(parse_u8("+7"), Some(7));
    assert_eq!(parse_u8("007"), Some(7));
    assert_eq!(parse_u8("255"), Some(255));
    assert_eq!(parse_u8("256"), None);
    assert_eq!(parse_u8(""), None);
    assert_eq!(parse_u8("+"), None);
    assert_eq!(parse_u8("-1"), None);
    assert_eq!(parse_u8(" 1"), None);
    for s in ["0", "+7", "007", "255", "256", "", "+", "-1", " 1", "99999"] {
        assert_eq!(parse_u8(s), s.parse::<u8>().ok());
    }
}

#[test]
fn fields_split_at_dots() {
    assert_eq!(split_fields("1.2.3"), vec!["1", "2", "3"]);
    assert_eq!(split_fields(""), vec![""]);
    assert_eq!(split_fields(".a."), vec!["", "a", ""]);
}

#[test]
fn version_order() {
    let a = Version::new("1.2.3").unwrap();
    assert!(a.is_older_than(&Version::new("1.2.4").unwrap()));
    assert!(a.is_older_than(&Version::new("1.3.0").unwrap()));
    assert!(a.is_older_than(&Version::new("2.0.0").unwrap()));
    assert!(!a.is_older_than(&Version::new("1.2.3").unwrap()));
    assert!(!a.is_older_than(&Version::new("0.9.9").unwrap()));
}

#[test]
fn update_decisions() {
    let r = vec![release("v0.3.0", 2)];
    let t = update_target(&r, "0.2.9", true).unwrap();
    assert_eq!(t.url, "https://dl/v0.3.0/1");
    assert_eq!(t.tag_name, "v0.3.0");
    assert_eq!(update_target(&r, "0.2.9", false).unwrap().url, "https://dl/v0.3.0/0");
    assert!(matches!(update_target(&r, "0.3.0", false), Err(Error::Rustea(_))));
    assert!(matches!(update_target(&vec![], "0.3.0", false), Err(Error::Rustea(_))));
    assert!(matches!(update_target(&vec![release("v0.4.0", 1)], "0.3.0", true), Err(Error::Update(_))));
    assert!(matches!(update_target(&vec![release("latest", 2)], "0.3.0", true), Err(Error::Version(_))));
    let plain = release("v1.0.0", 1);
    assert_eq!(plain.get_download_url(false).as_deref(), Some("https://dl/v1.0.0/0"));
    assert!(plain.get_download_url(true).is_none());
}

#[test]
fn configuration_defaults() {
    let c = RusteaConfiguration::create_initial_configuration("https://g", "tok", "repo", "owner");
    assert_eq!(c.script_folder, "/usr/local/bin");
    assert_eq!(c.exclude, ".git");
    assert_eq!(c.repo.author, "owner");
    assert_eq!(c.repo.owner, "owner");
    assert_eq!(c.repo.email, "");
    assert_eq!(default_config_path("/home/op"), "/home/op/.rustea.toml");
    assert_eq!(backup_path("/usr/bin"), "/usr/bin/rustea.bak");
}

#[test]
fn server_descriptions() {
    let v = ServerVersion { version: "1.14.4".to_string() };
    assert_eq!(v.describe(), "Gitea version: 1.14.4");
    let p = Permission { admin: false, pull: true, push: true };
    assert_eq!(p.describe(), "Permissions: admin[false], pull[true], push[true]");
}
