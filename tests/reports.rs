use rustea::config::{RepositoryConfig, RusteaConfiguration};
use rustea::content::{ContentEntry, ContentType, ContentsResponse};
use rustea::error::{ApiError, ConfigError, Error, IoKind};
use rustea::info::{ApiToken, Permission, Repository, User};
use rustea::text::{i64_text, u64_text};

fn entry(name: &str, path: &str) -> ContentEntry {
    ContentEntry {
        download_url: None,
        name: name.to_string(),
        path: path.to_string(),
        content_type: ContentType::File,
        sha: None,
    }
}

fn user(id: i64) -> User {
    User {
        id,
        full_name: "Op Erator".to_string(),
        created: "2021".to_string(),
        email: "op@example.org".to_string(),
        is_admin: true,
        language: "en".to_string(),
        last_login: "today".to_string(),
        login: "op".to_string(),
        restricted: false,
    }
}

#[test]
fn listing_table_aligns_columns() {
    let l = ContentsResponse {
        content: vec![entry("app.conf", "demo/app.conf"), entry("a", "demo/a")],
    };
    let table = l.table();
    assert!(!table.contains('\t'));
    let lines: Vec<&str> = table.lines().collect();
    assert!(lines[0].starts_with("Name"));
    let col = lines[0].find("Path").unwrap();
    assert_eq!(lines[1].find("demo/app.conf").unwrap(), col);
    assert_eq!(lines[2].find("demo/a").unwrap(), col);
    assert!(col >= "app.conf".len() + 15);
    let msg = l.listing_message("demo");
    assert!(msg.starts_with("demo content:\n"));
    assert!(msg.ends_with(&table));
}

#[test]
fn token_report_writes_negative_ids() {
    let t = ApiToken {
        id: -42,
        name: "ci".to_string(),
        sha1: "SECRET-REDACTED".to_string(),
        token_last_eight: "abcdefgh".to_string(),
    };
    assert_eq!(t.describe(), "Api Token number -42, name ci: abcdefgh");
}

#[test]
fn user_and_repository_reports() {
    let u = user(7).describe();
    assert!(!u.contains('\t'));
    assert!(u.contains("id"));
    assert!(u.contains("= 7"));
    assert!(u.contains("= Op Erator"));
    assert!(u.contains("= true"));
    let r = Repository {
        empty: false,
        id: 12,
        default_branch: "main".to_string(),
        description: "feature sets".to_string(),
        name: "devops".to_string(),
        full_name: "ops/devops".to_string(),
        permissions: Permission { admin: true, pull: true, push: false },
        owner: user(7),
        updated_at: "now".to_string(),
    }
    .describe();
    assert!(r.starts_with("Repository 12 {"));
    assert!(r.contains("= ops/devops"));
    assert!(r.contains("Permissions: admin[true], pull[true], push[false]"));
    assert!(r.ends_with("}"));
}

#[test]
fn configuration_report() {
    let c = RusteaConfiguration {
        script_folder: "/usr/local/bin".to_string(),
        exclude: ".git".to_string(),
        repo: RepositoryConfig {
            url: "https://g".to_string(),
            api_token: "t".to_string(),
            repository: "r".to_string(),
            owner: "o".to_string(),
            email: "e".to_string(),
            author: "a".to_string(),
        },
    };
    let text = c.describe("0.1.0", "/usr/local/bin");
    assert!(text.starts_with("rustea version 0.1.0\nscript_folder = /usr/local/bin\nexclude= .git\nrepo = {\n"));
    assert!(text.ends_with("\n}"));
    assert!(text.contains("= https://g"));
}

#[test]
fn error_reports() {
    let e = Error::Api(ApiError::InvalidContentResponse("File name missing.".to_string()));
    assert_eq!(
        e.describe(),
        "Gitea api error: Invalid content response from server. Cause: File name missing."
    );
    assert_eq!(Error::Rustea("No features set named x".to_string()).describe(), "Error pushing configuration: No features set named x");
    assert_eq!(Error::io(IoKind::NotFound, "gone".to_string()).describe(), "IO Error: gone");
    assert_eq!(Error::Configuration(ConfigError::LocationError).describe(), "Could not find home directory");
    assert_eq!(Error::Update("down".to_string()).describe(), "Update failed: down");
    assert_eq!(ApiError::Ureq("404".to_string()).describe(), "Failed to make a request. Cause: 404");
}

#[test]
fn integer_texts() {
    assert_eq!(i64_text(0), "0");
    assert_eq!(i64_text(9), "9");
    assert_eq!(i64_text(10), "10");
    assert_eq!(i64_text(-1), "-1");
    assert_eq!(i64_text(i64::MIN), i64::MIN.to_string());
    assert_eq!(i64_text(i64::MAX), i64::MAX.to_string());
    assert_eq!(u64_text(u64::MAX), u64::MAX.to_string());
    assert_eq!(u64_text(1203), "1203");
}
