use celadon::auth::{
    bearer_text, bearer_token, check_login, hash_password, is_admin, normalize_email,
    registration_failure,
};
use celadon::common::ServiceError;
use celadon::files::{arrange_entries, is_listed, Entry, FileNode};

fn entry(name: &str, is_dir: bool) -> Entry {
    Entry { name: name.to_string(), is_dir }
}

#[test]
fn bearer_header_gives_the_token() {
    let id = "67e55044-10b1-426f-9247-bb680e5fe0c8";
    assert_eq!(bearer_token(&format!("Bearer {}", id)).as_deref(), Some(id));
    assert_eq!(bearer_token(&format!("Bearer   {}  ", id)).as_deref(), Some(id));
    assert_eq!(
        bearer_token("Bearer 67E5504410B1426F9247BB680E5FE0C8").as_deref(),
        Some(id)
    );
    assert_eq!(bearer_token(&format!("bearer {}", id)), None);
    assert_eq!(bearer_token(&format!("Bearer{}", id)), None);
    assert_eq!(bearer_token("Bearer not-a-token"), None);
    assert_eq!(bearer_token("Bearer "), None);
    assert_eq!(bearer_token(""), None);
    assert_eq!(bearer_text("Bearer  abc ").as_deref(), Some("abc"));
    assert_eq!(bearer_text("Bearer ").as_deref(), Some(""));
    assert_eq!(bearer_text("Bearer"), None);
    assert_eq!(bearer_text("Basic abc"), None);
}

#[test]
fn administrator_is_the_configured_address() {
    assert!(is_admin("a@b.c", &Some("a@b.c".to_string())));
    assert!(!is_admin("a@b.c", &Some("A@b.c".to_string())));
    assert!(!is_admin("a@b.c", &None));
    assert!(!is_admin("", &None));
}

#[test]
fn registration_failure_names_a_taken_address() {
    assert_eq!(
        registration_failure("duplicate key value violates unique constraint"),
        "邮箱已被注册"
    );
    assert_eq!(registration_failure("not unique"), "邮箱已被注册");
    assert_eq!(registration_failure("connection reset"), "注册失败: connection reset");
    assert_eq!(registration_failure(""), "注册失败: ");
}

#[test]
fn listing_shows_folders_first_and_hides_some() {
    let read = vec![
        entry("zeta.txt", false),
        entry("src", true),
        entry(".git", true),
        entry("alpha.txt", false),
        entry("node_modules", true),
        entry("docs", true),
        entry("target", true),
        entry(".env", false),
        entry("Beta.txt", false),
        entry("targets", true),
    ];
    let out = arrange_entries(&read);
    let got: Vec<(&str, bool)> = out.iter().map(|e| (e.name.as_str(), e.is_dir)).collect();
    assert_eq!(
        got,
        vec![
            ("docs", true),
            ("src", true),
            ("targets", true),
            ("Beta.txt", false),
            ("alpha.txt", false),
            ("zeta.txt", false),
        ]
    );
    assert!(arrange_entries(&Vec::new()).is_empty());
    assert!(arrange_entries(&vec![entry(".hidden", false)]).is_empty());
}

#[test]
fn listed_names() {
    assert!(is_listed("src"));
    assert!(is_listed(""));
    assert!(is_listed("a.b"));
    assert!(!is_listed(".git"));
    assert!(!is_listed("."));
    assert!(!is_listed("node_modules"));
    assert!(!is_listed("target"));
    assert!(is_listed("Target"));
}

#[test]
fn file_nodes() {
    let f = FileNode::file("a.rs".to_string(), "src/a.rs".to_string());
    assert_eq!((f.name.as_str(), f.path.as_str(), f.node_type.as_str()), ("a.rs", "src/a.rs", "file"));
    assert!(f.children.is_none());
    let d = FileNode::folder("src".to_string(), "src".to_string(), vec![f]);
    assert_eq!(d.node_type, "folder");
    assert_eq!(d.children.as_ref().map(|c| c.len()), Some(1));
    assert_eq!(d.children.unwrap()[0].name, "a.rs");
}

#[test]
fn hashed_password_logs_in() {
    let hash = hash_password("correct horse").unwrap();
    assert_ne!(hash, "correct horse");
    assert!(hash.starts_with("$2"));
    assert!(check_login("correct horse", &Some(hash)).is_ok());
}

#[test]
fn wrong_password_is_refused() {
    let hash = hash_password("correct horse").unwrap();
    let err = check_login("battery staple", &Some(hash)).unwrap_err();
    assert!(matches!(&err, ServiceError::Auth(_)));
    assert_eq!(err.message(), "邮箱或密码错误");
}

#[test]
fn login_without_a_readable_hash_is_refused() {
    assert_eq!(check_login("pw", &None).unwrap_err().message(), "邮箱或密码错误");
    assert_eq!(check_login("pw", &Some("pw".to_string())).unwrap_err().message(), "邮箱或密码错误");
    assert!(check_login("", &Some(String::new())).is_err());
}

#[test]
fn addresses_are_normalized() {
    assert_eq!(normalize_email("  Foo@Example.COM \n"), "foo@example.com");
    assert_eq!(normalize_email("a@b.c"), "a@b.c");
    assert_eq!(normalize_email("ÄB@x.y"), "äb@x.y");
    assert_eq!(normalize_email("   "), "");
}
