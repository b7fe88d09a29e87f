use caustic::store::{
    content_disposition, copy_source, decide_load_project, default_bind,
    default_jwt_expire_duration_hours, deletion_failure, email_to_s3_key, get_project_file_key,
    get_project_json_key, keys_to_delete, new_copy, new_project, next_listing, project_or_status,
    push_failure_line, sanitize_key, DeleteFailure, LoadProjectResult, Project, ProjectFile, RepositoryError,
    CONTENT_TYPE_OPENSCAD, PROJECT_OWNER_EXAMPLE,
};

#[test]
fn test_basic_email() {
    assert_eq!(email_to_s3_key("user@example.com"), "user_at_example_com");
}

#[test]
fn test_email_with_dots() {
    assert_eq!(
        email_to_s3_key("first.last@example.com"),
        "first_last_at_example_com"
    );
}

#[test]
fn test_email_with_special_chars() {
    assert_eq!(
        email_to_s3_key("user+tag@example.com"),
        "user-tag_at_example_com"
    );
}

#[test]
fn test_uppercase_email() {
    assert_eq!(email_to_s3_key("User@Example.COM"), "user_at_example_com");
}

#[test]
fn test_key_edge_cases() {
    assert_eq!(email_to_s3_key(""), "");
    assert_eq!(email_to_s3_key("@"), "_at_");
    assert_eq!(email_to_s3_key("a-b_c9"), "a-b_c9");
    assert_eq!(email_to_s3_key("a b/c\\d"), "a-b-c-d");
    assert_eq!(email_to_s3_key("\u{c9}t\u{e9}@x"), "-t-_at_x");
    // the key of a text is made after the text is put in lower case
    assert_eq!(sanitize_key("User"), "-ser");
    assert_eq!(sanitize_key("user"), "user");
}

#[test]
fn test_key_holds_only_safe_characters() {
    for email in ["A.b+c@D.example", "\u{130}stanbul@x.y", "tab\there", "semi;colon:@"] {
        let key = email_to_s3_key(email);
        assert!(key
            .chars()
            .all(|c| c.is_ascii_lowercase() || c.is_ascii_digit() || c == '-' || c == '_'));
        let lowered = email.to_lowercase().chars().count();
        assert!(lowered <= key.chars().count());
        assert!(key.chars().count() <= 4 * lowered);
    }
}

#[test]
fn test_project_keys() {
    assert_eq!(get_project_json_key("p1"), "store/project/p1/project.json");
    assert_eq!(get_project_json_key(""), "store/project//project.json");
    assert_eq!(get_project_file_key("p1", "main.scad").unwrap(), "store/project/p1/main.scad");
    assert_eq!(get_project_file_key("p1", "").unwrap(), "store/project/p1/");
    assert_eq!(
        get_project_file_key("p1", "Project.json").unwrap(),
        "store/project/p1/Project.json"
    );
}

#[test]
fn test_project_json_is_no_file_name() {
    match get_project_file_key("p1", "project.json") {
        Err(RepositoryError::InvalidFilename(name)) => assert_eq!(name, "project.json"),
        other => panic!("unexpected {:?}", other),
    }
}

#[test]
fn test_error_messages() {
    assert_eq!(
        RepositoryError::InvalidFilename("project.json".to_string()).to_string(),
        "invalid filename project.json"
    );
    assert_eq!(
        RepositoryError::FailedToRead {
            bucket: "b".to_string(),
            key: "k".to_string(),
            cause: "timeout".to_string(),
        }
        .to_string(),
        "failed to read s3://b/k: timeout"
    );
    assert_eq!(
        RepositoryError::FailedToWrite {
            bucket: "b".to_string(),
            key: "k/l".to_string(),
            cause: "denied".to_string(),
        }
        .to_string(),
        "failed to write s3://b/k/l: denied"
    );
}

fn project(owner: &str) -> Project {
    Project {
        id: "id".to_string(),
        owner: owner.to_string(),
        name: "Name".to_string(),
        files: vec![
            ProjectFile { filename: "main.scad".to_string() },
            ProjectFile { filename: "wood.png".to_string() },
        ],
    }
}

#[test]
fn test_missing_project_is_not_found() {
    assert!(matches!(decide_load_project(None, None), LoadProjectResult::NotFound));
    assert!(matches!(decide_load_project(None, Some("a@b")), LoadProjectResult::NotFound));
}

#[test]
fn test_examples_are_handed_to_everybody() {
    assert_eq!(PROJECT_OWNER_EXAMPLE, "example");
    assert!(matches!(
        decide_load_project(Some(project("example")), None),
        LoadProjectResult::Project(_)
    ));
    assert!(matches!(
        decide_load_project(Some(project("example")), Some("example")),
        LoadProjectResult::Project(_)
    ));
    match decide_load_project(Some(project("example")), Some("a@b")) {
        LoadProjectResult::Project(p) => {
            assert_eq!(p.id, "id");
            assert_eq!(p.files.len(), 2);
        }
        other => panic!("unexpected {:?}", other),
    }
}

#[test]
fn test_other_projects() {
    assert!(matches!(
        decide_load_project(Some(project("a@b")), None),
        LoadProjectResult::AccessDenied
    ));
    assert!(matches!(
        decide_load_project(Some(project("a@b")), Some("c@d")),
        LoadProjectResult::Project(_)
    ));
    assert!(matches!(
        decide_load_project(Some(project("a@b")), Some("a@b")),
        LoadProjectResult::AccessDenied
    ));
}

#[test]
fn test_status_for_each_result() {
    assert_eq!(project_or_status(LoadProjectResult::NotFound).unwrap_err(), 404);
    assert_eq!(project_or_status(LoadProjectResult::AccessDenied).unwrap_err(), 401);
    let p = project_or_status(LoadProjectResult::Project(project("x"))).unwrap();
    assert_eq!(p.owner, "x");
}

#[test]
fn test_created_project() {
    let p = Project::create("i".to_string(), "o@x".to_string(), "N".to_string());
    assert_eq!((p.id.as_str(), p.owner.as_str(), p.name.as_str()), ("i", "o@x", "N"));
    assert_eq!(p.files.len(), 1);
    assert_eq!(p.files[0].filename, "main.scad");
}

#[test]
fn test_copied_project() {
    let p = project("a@b").copy_as("new".to_string(), "c@d".to_string());
    assert_eq!(p.id, "new");
    assert_eq!(p.owner, "c@d");
    assert_eq!(p.name, "Name Copy");
    let names: Vec<&str> = p.files.iter().map(|f| f.filename.as_str()).collect();
    assert_eq!(names, vec!["main.scad", "wood.png"]);
}

#[test]
fn test_new_projects_get_fresh_identifiers() {
    let a = new_project("o@x".to_string(), "A".to_string());
    let b = new_project("o@x".to_string(), "A".to_string());
    assert_ne!(a.id, b.id);
    assert_ne!(a.id, "o@x");
    assert_ne!(a.id, "A");
    assert_eq!(a.id.len(), 36);
    assert_eq!(a.owner, "o@x");
    assert_eq!(a.name, "A");
    assert_eq!(a.files.len(), 1);
    let c = new_copy(&a, "p@y".to_string());
    assert_ne!(c.id, a.id);
    assert_eq!(c.name, "A Copy");
    assert_eq!(c.owner, "p@y");
    assert_eq!(c.files.len(), 1);
    assert_eq!(c.files[0].filename, "main.scad");
}

#[test]
fn test_header_and_copy_source() {
    assert_eq!(copy_source("bucket", "a/b.scad"), "bucket/a/b.scad");
    assert_eq!(content_disposition("main.scad"), "attachment; filename=\"main.scad\"");
    assert_eq!(CONTENT_TYPE_OPENSCAD, "application/x-openscad");
}

#[test]
fn test_keys_to_delete() {
    assert_eq!(keys_to_delete(&vec![]), Vec::<String>::new());
    assert_eq!(keys_to_delete(&vec![None, None]), Vec::<String>::new());
    assert_eq!(
        keys_to_delete(&vec![Some("a".to_string()), None, Some("b".to_string())]),
        vec!["a".to_string(), "b".to_string()]
    );
}

#[test]
fn test_next_listing() {
    assert_eq!(next_listing(0, Some("t".to_string())), None);
    assert_eq!(next_listing(0, None), None);
    assert_eq!(next_listing(3, None), None);
    assert_eq!(next_listing(3, Some("t".to_string())), Some("t".to_string()));
}

#[test]
fn test_deletion_failure() {
    assert_eq!(deletion_failure(&vec![]), None);
    let failures = vec![
        DeleteFailure { key: Some("a/b".to_string()), message: Some("Access \"Denied\"".to_string()) },
        DeleteFailure { key: None, message: None },
    ];
    assert_eq!(
        deletion_failure(&failures),
        Some(
            "Error deleting a/b: Some(\"Access \\\"Denied\\\"\")Error deleting unknown: None"
                .to_string()
        )
    );
}

#[test]
fn test_defaults() {
    assert_eq!(default_bind(), "0.0.0.0:3000");
    assert_eq!(default_jwt_expire_duration_hours(), 720);
}

#[test]
fn test_failure_line() {
    let mut report = String::from("x");
    push_failure_line(&mut report, Some("k"), Some("\"m\""));
    assert_eq!(report, "xError deleting k: Some(\"m\")");
    push_failure_line(&mut report, None, None);
    assert_eq!(report, "xError deleting k: Some(\"m\")Error deleting unknown: None");
}
