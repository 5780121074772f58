use maze_ssh::repo::{lookup_mapping, nearest_git_root, repo_name_from_path, RepoMapping};

#[test]
fn test_repo_name_from_path() {
    let name = repo_name_from_path("C:\\Users\\dev\\my-project");
    assert_eq!(name, "my-project");
}

#[test]
fn repo_name_edge_cases() {
    assert_eq!(repo_name_from_path("/home/dev/repo/"), "repo");
    assert_eq!(repo_name_from_path("/home/dev/repo/."), "repo");
    assert_eq!(repo_name_from_path("/home/dev/.."), "unknown");
    assert_eq!(repo_name_from_path("C:\\"), "unknown");
    assert_eq!(repo_name_from_path(""), "unknown");
}

#[test]
fn mapping_lookup_ignores_case() {
    let ms = vec![
        RepoMapping { id: "1".into(), repo_path: "C:\\Work\\A".into(), profile_id: "p1".into() },
        RepoMapping { id: "2".into(), repo_path: "C:\\Work\\B".into(), profile_id: "p2".into() },
    ];
    assert_eq!(lookup_mapping("c:\\work\\b", &ms).map(|m| m.id.clone()), Some("2".to_string()));
    assert!(lookup_mapping("c:\\work\\c", &ms).is_none());
}

#[test]
fn git_root_is_the_nearest_directory_with_git() {
    let probes = vec![
        ("/tmp/repo/a/b/c".to_string(), false),
        ("/tmp/repo/a/b".to_string(), false),
        ("/tmp/repo/a".to_string(), true),
        ("/tmp/repo".to_string(), true),
        ("/tmp".to_string(), false),
        ("/".to_string(), false),
    ];
    assert_eq!(nearest_git_root(&probes), Some("/tmp/repo/a".to_string()));
    let none = vec![("/tmp/x".to_string(), false), ("/tmp".to_string(), false), ("/".to_string(), false)];
    assert_eq!(nearest_git_root(&none), None);
    assert_eq!(nearest_git_root(&[]), None);
    let here = vec![("/work/app".to_string(), true), ("/work".to_string(), true)];
    assert_eq!(nearest_git_root(&here), Some("/work/app".to_string()));
}
