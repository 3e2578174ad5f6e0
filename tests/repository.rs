use rustea::client::{GiteaClient, Method};
use rustea::config::{RepositoryConfig, RusteaConfiguration};
use rustea::content::{ContentEntry, ContentType, ContentsResponse, Json};
use rustea::error::{ApiError, Error};
use rustea::repository::{
    delete_target, feature_set_in, is_vcs_path, new_feature_set_files, push_targets,
    rename_plan, require_feature_set, select_present, PushCandidate, RemoteRepository,
};

fn entry(name: &str, path: &str, kind: ContentType) -> ContentEntry {
    ContentEntry {
        download_url: None,
        name: name.to_string(),
        path: path.to_string(),
        content_type: kind,
        sha: Some(format!("sha-{}", path)),
    }
}

fn listing(entries: Vec<ContentEntry>) -> ContentsResponse {
    ContentsResponse { content: entries }
}

fn repo(script_folder: &str) -> RemoteRepository {
    RemoteRepository::new(RusteaConfiguration {
        script_folder: script_folder.to_string(),
        exclude: ".git".to_string(),
        repo: RepositoryConfig {
            url: "https://git.example.org".to_string(),
            api_token: "SECRET-REDACTED".to_string(),
            repository: "devops".to_string(),
            owner: "ops".to_string(),
            email: "ops@example.org".to_string(),
            author: "Operator".to_string(),
        },
    })
}

fn demo_files() -> ContentsResponse {
    listing(vec![
        entry(".gitkeep", "demo/.gitkeep", ContentType::File),
        entry("app.conf", "demo/app.conf", ContentType::File),
        entry("run.sh", "demo/scripts/run.sh", ContentType::File),
    ])
}

fn dir_json(name: &str) -> Json {
    Json::Object(vec![
        ("name".to_string(), Json::Str(name.to_string())),
        ("path".to_string(), Json::Str(name.to_string())),
        ("type".to_string(), Json::Str("dir".to_string())),
    ])
}

fn file_json(name: &str) -> Json {
    Json::Object(vec![
        ("name".to_string(), Json::Str(name.to_string())),
        ("path".to_string(), Json::Str(name.to_string())),
        ("type".to_string(), Json::Str("file".to_string())),
    ])
}

#[test]
fn test_create_feature_set() {
    let files = new_feature_set_files(false);
    assert_eq!(files, vec!["/.gitkeep".to_string(), "/scripts/.gitkeep".to_string()]);
    assert!(new_feature_set_files(true).is_empty());
}

#[test]
fn test_delete_feature_set() {
    assert_eq!(delete_target("demo", &None, false, false), ("demo".to_string(), true));
    assert_eq!(delete_target("demo", &None, true, false), ("demo".to_string(), true));
    let root = Json::Array(vec![dir_json("other")]);
    assert_eq!(RemoteRepository::check_feature_set_exists(root, "demo").unwrap(), false);
}

#[test]
fn test_push_config() {
    let r = repo("/usr/local/bin");
    let files = listing(vec![
        entry("app.conf", "demo/etc/app.conf", ContentType::File),
        entry("run.sh", "demo/scripts/run.sh", ContentType::File),
    ]);
    let c = r.push_candidates("demo", &files).unwrap();
    assert_eq!(c.len(), 2);
    assert_eq!(c[0].local_path, "/etc/app.conf");
    assert!(!c[0].script);
    assert_eq!(c[1].local_path, "/usr/local/bin/run.sh");
    assert!(c[1].script);
    let targets = push_targets(&vec!["/etc/app.conf".to_string()], false).unwrap();
    assert_eq!(targets, vec!["/etc/app.conf".to_string()]);
}

#[test]
fn test_pull_config() {
    let r = repo("/usr/local/bin");
    let plan = r.pull_plan("demo", &demo_files(), &None, false, true).unwrap();
    let locals: Vec<&str> = plan.iter().map(|p| p.local_path.as_str()).collect();
    assert_eq!(locals, vec!["/.gitkeep", "/app.conf"]);
    assert!(plan.iter().all(|p| !p.script));
}

#[test]
fn pull_config_writes_no_script() {
    let r = repo("/usr/local/bin");
    let plan = r.pull_plan("demo", &demo_files(), &None, false, true).unwrap();
    assert!(plan.iter().any(|p| p.local_path == "/app.conf"));
    assert!(plan.iter().all(|p| !p.local_path.contains("run.sh")));
    assert!(plan.iter().all(|p| p.local_path == "/app.conf" || p.local_path == "/.gitkeep"));
}

#[test]
fn pull_scripts_only() {
    let r = repo("/opt/bin");
    let plan = r.pull_plan("demo", &demo_files(), &None, true, false).unwrap();
    assert_eq!(plan.len(), 1);
    assert_eq!(plan[0].remote_path, "demo/scripts/run.sh");
    assert_eq!(plan[0].local_path, "/opt/bin/run.sh");
    assert!(plan[0].script);
    let both = r.pull_plan("demo", &demo_files(), &None, true, true).unwrap();
    assert_eq!(both.len(), 1);
}

#[test]
fn pull_everything_decides_per_file() {
    let r = repo("/opt/bin");
    let plan = r.pull_plan("demo", &demo_files(), &Some("x".to_string()), false, false).unwrap();
    assert_eq!(plan.len(), 3);
    assert!(!plan[1].script);
    assert!(plan[2].script);
    assert_eq!(plan[2].local_path, "/opt/bin/run.sh");
}

#[test]
fn pull_path_is_a_suffix_match() {
    let r = repo("/opt/bin");
    let files = listing(vec![
        entry("test", "demo/a/test", ContentType::File),
        entry("test", "demo/b/test", ContentType::File),
        entry("other", "demo/b/other", ContentType::File),
    ]);
    let plan = r.pull_plan("demo", &files, &Some("test".to_string()), false, true).unwrap();
    let locals: Vec<&str> = plan.iter().map(|p| p.local_path.as_str()).collect();
    assert_eq!(locals, vec!["/a/test", "/b/test"]);
}

#[test]
fn push_skips_absent_files() {
    let cands = vec![
        PushCandidate { local_path: "/a".to_string(), script: false },
        PushCandidate { local_path: "/b".to_string(), script: true },
        PushCandidate { local_path: "/c".to_string(), script: false },
    ];
    let kept = select_present(cands, &vec![false, true, true]);
    let paths: Vec<&str> = kept.iter().map(|c| c.local_path.as_str()).collect();
    assert_eq!(paths, vec!["/b", "/c"]);
    assert!(kept[0].script);
}

#[test]
fn push_script_targets_flatten() {
    let t = push_targets(&vec!["/home/op/tools/run.sh".to_string()], true).unwrap();
    assert_eq!(t, vec!["/scripts/run.sh".to_string()]);
    assert!(push_targets(&vec!["/".to_string()], true).is_err());
}

#[test]
fn feature_set_existence() {
    let root = Json::Array(vec![dir_json("demo"), file_json("README.md"), dir_json("web")]);
    assert!(RemoteRepository::check_feature_set_exists(root, "demo").unwrap());
    let root = Json::Array(vec![dir_json("demo"), file_json("README.md")]);
    assert!(!RemoteRepository::check_feature_set_exists(root, "README.md").unwrap());
    let root = Json::Array(vec![dir_json("demo")]);
    assert!(!RemoteRepository::check_feature_set_exists(root, "dem").unwrap());
    assert!(matches!(
        RemoteRepository::check_feature_set_exists(Json::Null, "demo"),
        Err(Error::Api(ApiError::InvalidContentResponse(_)))
    ));
    assert!(feature_set_in(&listing(vec![entry("x", "x", ContentType::Dir)]), "x"));
    assert!(require_feature_set(true, "x").is_ok());
    assert!(matches!(require_feature_set(false, "x"), Err(Error::Rustea(_))));
}

#[test]
fn delete_targets() {
    assert_eq!(
        delete_target("demo", &Some("run.sh".to_string()), true, true),
        ("demo/scripts/run.sh".to_string(), false)
    );
    assert_eq!(
        delete_target("demo", &Some("etc".to_string()), false, true),
        ("demo/etc".to_string(), true)
    );
    assert_eq!(
        delete_target("demo", &Some("etc".to_string()), false, false),
        ("demo/etc".to_string(), false)
    );
}

#[test]
fn rename_strips_feature_set_name() {
    let plan = rename_plan("demo", &demo_files()).unwrap();
    assert_eq!(plan.len(), 3);
    assert_eq!(plan[1].remote_path, "demo/app.conf");
    assert_eq!(plan[1].filename, "/app.conf");
    let foreign = listing(vec![entry("x", "other/x", ContentType::File)]);
    assert!(matches!(rename_plan("demo", &foreign), Err(Error::Rustea(_))));
}

#[test]
fn vcs_paths() {
    assert!(is_vcs_path("/home/op/project/.git"));
    assert!(is_vcs_path(".git/objects"));
    assert!(!is_vcs_path("/home/op/.github"));
    assert!(!is_vcs_path("/home/op/x.git"));
    assert!(!is_vcs_path(""));
}

#[test]
fn feature_set_root_request() {
    let r = repo("/bin");
    let q = r.feature_sets_request();
    assert_eq!(q.method, Method::Get);
    assert_eq!(q.url, "https://git.example.org/api/v1/repos/ops/devops/contents/");
    let c = GiteaClient::new("u", "t", "r", "o");
    assert_eq!(c.contents_request("p").authorization, "token t");
}

#[test]
fn listing_titles() {
    let r = repo("/bin");
    assert_eq!(r.list_title(&Some("demo".to_string())), "demo");
    assert_eq!(r.list_title(&None), "devops");
    assert_eq!(rustea::client::feature_file_path("demo", "/app.conf"), "demo/app.conf");
}

#[test]
fn root_file_is_no_feature_set() {
    assert!(!RemoteRepository::check_feature_set_exists(file_json("demo"), "demo").unwrap());
    assert!(RemoteRepository::check_feature_set_exists(dir_json("demo"), "demo").unwrap());
}

#[test]
fn missing_feature_set_message() {
    match require_feature_set(false, "demo") {
        Err(Error::Rustea(m)) => assert_eq!(m, "No features set named demo"),
        other => panic!("unexpected {:?}", other),
    }
}
