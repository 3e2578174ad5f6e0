use rustea::client::{check_file_exists, last_file, GiteaClient, Method};
use rustea::content::{ContentEntry, ContentType, ContentsResponse};
use rustea::error::ApiError;
use rustea::walk::{DeleteStep, DeleteWalk, FolderWalk};

fn client() -> GiteaClient {
    GiteaClient::new("https://git.example.org", "SECRET-REDACTED", "devops", "ops")
}

fn entry(name: &str, path: &str, kind: ContentType, sha: Option<&str>) -> ContentEntry {
    ContentEntry {
        download_url: None,
        name: name.to_string(),
        path: path.to_string(),
        content_type: kind,
        sha: sha.map(|s| s.to_string()),
    }
}

fn listing(entries: Vec<ContentEntry>) -> ContentsResponse {
    ContentsResponse { content: entries }
}

#[test]
fn request_addresses() {
    let c = client();
    assert_eq!(c.version_request().url, "https://git.example.org/api/v1/version");
    assert_eq!(c.repository_request().url, "https://git.example.org/api/v1/repos/ops/devops");
    assert_eq!(
        c.contents_request("demo/app.conf").url,
        "https://git.example.org/api/v1/repos/ops/devops/contents/demo/app.conf"
    );
    let raw = c.raw_request("demo/app.conf");
    assert_eq!(raw.url, "https://git.example.org/api/v1/repos/ops/devops/raw/demo/app.conf");
    assert_eq!(raw.method, Method::Get);
    assert_eq!(raw.authorization, "token SECRET-REDACTED");
}

#[test]
fn create_encodes_content_in_base64() {
    let c = client();
    let q = c.create_file("demo", "/app.conf", b"hello", "Op", "op@x", &Some("msg".to_string()));
    assert_eq!(q.method, Method::Post);
    assert_eq!(q.url, "https://git.example.org/api/v1/repos/ops/devops/contents/demo/app.conf");
    let body = q.body.unwrap();
    assert_eq!(body.content.as_deref(), Some("aGVsbG8="));
    assert_eq!(body.author, "Op");
    assert_eq!(body.email, "op@x");
    assert_eq!(body.message.as_deref(), Some("msg"));
    assert!(body.sha.is_none());
    let empty = c.create_file("demo", "/.gitkeep", b"", "Op", "op@x", &None);
    assert_eq!(empty.body.unwrap().content.as_deref(), Some(""));
}

#[test]
fn write_updates_a_found_file() {
    let c = client();
    let found: Result<ContentEntry, ApiError> =
        Ok(entry("app.conf", "demo/app.conf", ContentType::File, Some("abc")));
    let q = c
        .create_or_update_file("demo", "/app.conf", b"x", "Op", "m", &None, &found)
        .unwrap();
    assert_eq!(q.method, Method::Put);
    assert_eq!(q.body.unwrap().sha.as_deref(), Some("abc"));
}

#[test]
fn write_creates_when_lookup_finds_another_path() {
    let c = client();
    let found: Result<ContentEntry, ApiError> =
        Ok(entry("app.conf", "demo/other.conf", ContentType::File, Some("abc")));
    let q = c
        .create_or_update_file("demo", "/app.conf", b"x", "Op", "m", &None, &found)
        .unwrap();
    assert_eq!(q.method, Method::Post);
    let failed: Result<ContentEntry, ApiError> = Err(ApiError::Ureq("404".to_string()));
    let q = c
        .create_or_update_file("demo", "/app.conf", b"x", "Op", "m", &None, &failed)
        .unwrap();
    assert_eq!(q.method, Method::Post);
}

#[test]
fn write_without_hash_fails() {
    let c = client();
    let found: Result<ContentEntry, ApiError> =
        Ok(entry("app.conf", "demo/app.conf", ContentType::File, None));
    assert!(matches!(
        c.create_or_update_file("demo", "/app.conf", b"x", "Op", "m", &None, &found),
        Err(ApiError::InvalidContentResponse(_))
    ));
}

#[test]
fn delete_requests_need_hash() {
    let c = client();
    let q = c
        .delete_entry(&entry("a", "demo/a", ContentType::File, Some("h")), "Op", "m", &None)
        .unwrap();
    assert_eq!(q.method, Method::Delete);
    assert_eq!(q.url, "https://git.example.org/api/v1/repos/ops/devops/contents/demo/a");
    assert_eq!(q.body.unwrap().sha.as_deref(), Some("h"));
    assert!(c
        .delete_entry(&entry("a", "demo/a", ContentType::File, None), "Op", "m", &None)
        .is_err());
}

#[test]
fn last_file_of_listing() {
    let l = listing(vec![
        entry("a", "x/a", ContentType::File, None),
        entry("b", "x/b", ContentType::File, None),
    ]);
    assert_eq!(last_file(l, "x").unwrap().name, "b");
    assert!(matches!(
        last_file(listing(vec![]), "x"),
        Err(ApiError::InvalidContentResponse(_))
    ));
}

#[test]
fn folder_walk_is_depth_first_without_placeholders() {
    let mut w = FolderWalk::new(listing(vec![
        entry(".gitkeep", "demo/.gitkeep", ContentType::File, None),
        entry("etc", "demo/etc", ContentType::Dir, None),
        entry("z.conf", "demo/z.conf", ContentType::File, None),
    ]));
    assert_eq!(w.step().as_deref(), Some("demo/etc"));
    w.enter(listing(vec![
        entry("a.conf", "demo/etc/a.conf", ContentType::File, None),
        entry(".gitkeep", "demo/etc/.gitkeep", ContentType::File, None),
    ]));
    assert_eq!(w.step(), None);
    let files = w.finish();
    let paths: Vec<&str> = files.content.iter().map(|e| e.path.as_str()).collect();
    assert_eq!(paths, vec!["demo/etc/a.conf", "demo/z.conf"]);
}

#[test]
fn delete_walk_recursive_and_not() {
    let top = || {
        listing(vec![
            entry("sub", "demo/sub", ContentType::Dir, Some("d")),
            entry("f", "demo/f", ContentType::File, Some("f")),
        ])
    };
    let mut w = DeleteWalk::new(top(), true);
    match w.step() {
        Some(DeleteStep::List(p)) => assert_eq!(p, "demo/sub"),
        other => panic!("unexpected {:?}", other),
    }
    w.enter(listing(vec![entry("g", "demo/sub/g", ContentType::File, Some("g"))]));
    let mut deleted = vec![];
    while let Some(step) = w.step() {
        match step {
            DeleteStep::Delete(e) => deleted.push(e.path),
            DeleteStep::List(p) => panic!("unexpected listing of {}", p),
        }
    }
    assert_eq!(deleted, vec!["demo/sub/g".to_string(), "demo/f".to_string()]);

    let mut w = DeleteWalk::new(top(), false);
    match w.step() {
        Some(DeleteStep::Delete(e)) => assert_eq!(e.path, "demo/sub"),
        other => panic!("unexpected {:?}", other),
    }
}

#[test]
fn file_exists_only_at_its_path() {
    let at: Result<ContentEntry, ApiError> = Ok(entry("a", "demo/a", ContentType::File, None));
    assert!(check_file_exists(&at, "demo", "/a"));
    assert!(!check_file_exists(&at, "demo", "/b"));
    let failed: Result<ContentEntry, ApiError> = Err(ApiError::Json("bad".to_string()));
    assert!(!check_file_exists(&failed, "demo", "/a"));
}
