use rustea::content::{ContentEntry, ContentType, ContentsResponse, Json};
use rustea::error::ApiError;

fn s(v: &str) -> Json {
    Json::Str(v.to_string())
}

fn object(members: Vec<(&str, Json)>) -> Json {
    Json::Object(members.into_iter().map(|(k, v)| (k.to_string(), v)).collect())
}

fn entry_json(download_url: Option<&str>, name: &str, path: &str, kind: &str) -> Json {
    let mut members = vec![];
    if let Some(u) = download_url {
        members.push(("download_url", s(u)));
    }
    members.push(("name", s(name)));
    members.push(("path", s(path)));
    members.push(("type", s(kind)));
    object(members)
}

#[test]
fn test_content_response_new() {
    let v = Json::Array(vec![entry_json(Some("test_url"), "test_name", "test_path", "dir")]);
    let content = ContentsResponse::new(v, None);
    println!("{:#?}", content);
    let content = content.unwrap();
    assert_eq!(content.content[0].download_url.as_ref().unwrap(), "test_url");
    assert_eq!(content.content[0].name, "test_name");
    assert_eq!(content.content[0].path, "test_path");
    assert_eq!(content.content[0].content_type, ContentType::Dir);
}

#[test]
fn test_content_response_wrong_content_type() {
    let v = Json::Array(vec![entry_json(Some("test_url"), "test_name", "test_path", "d")]);
    let content = ContentsResponse::new(v, None);
    println!("{:#?}", content);
    let content = content.unwrap();
    assert_eq!(content.content[0].download_url.as_ref().unwrap(), "test_url");
    assert_eq!(content.content[0].name, "test_name");
    assert_eq!(content.content[0].path, "test_path");
    assert_eq!(content.content[0].content_type, ContentType::File);
}

#[test]
fn test_content_response_no_download_url() {
    let v = Json::Array(vec![entry_json(None, "test_name", "test_path", "d")]);
    let content = ContentsResponse::new(v, None);
    println!("{:#?}", content);
    let content = content.unwrap();
    assert!(content.content[0].download_url.is_none());
    assert_eq!(content.content[0].name, "test_name");
    assert_eq!(content.content[0].path, "test_path");
    assert_eq!(content.content[0].content_type, ContentType::File);
}

#[test]
fn test_content_response_is_object() {
    let v = entry_json(Some("test_url"), "test_name", "test_path", "d");
    let content = ContentsResponse::new(v, None);
    assert!(content.is_ok());
}

#[test]
fn test_new_content_response_empty_array() {
    let v = Json::Array(vec![]);
    let content = ContentsResponse::new(v, None);
    assert!(content.is_ok());
    assert_eq!(0, content.unwrap().content.len());
}

#[test]
fn test_new_content_response_not_an_object() {
    let v = Json::Array(vec![Json::Number("1".to_string()), Json::Number("2".to_string())]);
    let content = ContentsResponse::new(v, None);
    assert!(content.is_err());
}

#[test]
fn listing_keeps_order() {
    let v = Json::Array(vec![
        entry_json(None, "b", "fs/b", "file"),
        entry_json(None, "a", "fs/a", "dir"),
        entry_json(None, "c", "fs/c", "symlink"),
    ]);
    let c = ContentsResponse::new(v, None).unwrap();
    let names: Vec<&str> = c.content.iter().map(|e| e.name.as_str()).collect();
    assert_eq!(names, vec!["b", "a", "c"]);
    assert_eq!(c.content[2].content_type, ContentType::Symlink);
}

#[test]
fn listing_filter_keeps_one_kind() {
    let v = Json::Array(vec![
        entry_json(None, "b", "b", "file"),
        entry_json(None, "a", "a", "dir"),
        entry_json(None, "m", "m", "submodule"),
        entry_json(None, "d", "d", "dir"),
    ]);
    let c = ContentsResponse::new(v, Some(ContentType::Dir)).unwrap();
    let names: Vec<&str> = c.content.iter().map(|e| e.name.as_str()).collect();
    assert_eq!(names, vec!["a", "d"]);
}

#[test]
fn non_object_element_is_invalid_content() {
    let v = Json::Array(vec![entry_json(None, "a", "a", "file"), Json::Null]);
    assert!(matches!(
        ContentsResponse::new(v, None),
        Err(ApiError::InvalidContentResponse(_))
    ));
}

#[test]
fn scalar_response_is_invalid_content() {
    assert!(matches!(
        ContentsResponse::new(Json::Bool(true), None),
        Err(ApiError::InvalidContentResponse(_))
    ));
    assert!(matches!(
        ContentsResponse::new(s("text"), None),
        Err(ApiError::InvalidContentResponse(_))
    ));
}

#[test]
fn single_object_is_one_entry() {
    let v = entry_json(Some("u"), "f", "fs/f", "file");
    let c = ContentsResponse::new(v, None).unwrap();
    assert_eq!(c.content.len(), 1);
    assert_eq!(c.content[0].path, "fs/f");
}

#[test]
fn missing_required_members_fail() {
    let no_name = object(vec![("path", s("p")), ("type", s("file"))]);
    let no_path = object(vec![("name", s("n")), ("type", s("file"))]);
    let no_type = object(vec![("name", s("n")), ("path", s("p"))]);
    let name_not_string = object(vec![
        ("name", Json::Number("3".to_string())),
        ("path", s("p")),
        ("type", s("file")),
    ]);
    for v in [no_name, no_path, no_type, name_not_string] {
        assert!(matches!(
            ContentEntry::new(v),
            Err(ApiError::InvalidContentResponse(_))
        ));
    }
}

#[test]
fn optional_members_are_kept() {
    let v = object(vec![
        ("name", s("n")),
        ("path", s("p")),
        ("type", s("file")),
        ("sha", s("abc")),
        ("download_url", Json::Null),
    ]);
    let e = ContentEntry::new(v).unwrap();
    assert_eq!(e.sha.as_deref(), Some("abc"));
    assert!(e.download_url.is_none());
}

#[test]
fn first_member_of_a_key_counts() {
    let v = object(vec![
        ("name", s("first")),
        ("name", s("second")),
        ("path", s("p")),
        ("type", s("dir")),
    ]);
    assert_eq!(ContentEntry::new(v).unwrap().name, "first");
}

#[test]
fn content_type_names() {
    assert_eq!(ContentType::new("file"), ContentType::File);
    assert_eq!(ContentType::new("dir"), ContentType::Dir);
    assert_eq!(ContentType::new("symlink"), ContentType::Symlink);
    assert_eq!(ContentType::new("submodule"), ContentType::Submodule);
    assert_eq!(ContentType::new("Dir"), ContentType::File);
    assert_eq!(ContentType::new(""), ContentType::File);
    assert_eq!(ContentType::default(), ContentType::File);
}

#[test]
fn single_object_obeys_type_filter() {
    let dir = entry_json(None, "demo", "demo", "dir");
    let c = ContentsResponse::new(dir, Some(ContentType::File)).unwrap();
    assert!(c.content.is_empty());
    let file = entry_json(None, "demo", "demo", "file");
    let c = ContentsResponse::new(file, Some(ContentType::File)).unwrap();
    assert_eq!(c.content.len(), 1);
    let file = entry_json(None, "demo", "demo", "file");
    let c = ContentsResponse::new(file, Some(ContentType::Dir)).unwrap();
    assert!(c.content.is_empty());
}
