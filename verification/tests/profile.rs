use maze_ssh::error::MazeSshError;
use maze_ssh::profile::{
    build_env_file_content, build_git_ssh_command, generate_config_block, git_ssh_env_script,
    replace_managed_section, shell_escape, validate_hostname, validate_pin, validate_profile_input,
    CreateProfileInput, ProfileSummary, Provider, SshProfile,
};

fn test_profile(port: Option<u16>) -> SshProfile {
    SshProfile {
        id: "test-id".to_string(),
        name: "Test Profile".to_string(),
        provider: Provider::GitHub,
        email: "test@example.com".to_string(),
        git_username: "testuser".to_string(),
        private_key_path: "/home/user/.ssh/id_ed25519".to_string(),
        public_key_path: "/home/user/.ssh/id_ed25519.pub".to_string(),
        host_alias: "github-test".to_string(),
        hostname: "github.com".to_string(),
        port,
        ssh_user: None,
        has_passphrase: false,
        created_at: "2024-01-01T00:00:00Z".to_string(),
        updated_at: "2024-01-01T00:00:00Z".to_string(),
        vault_key_id: None,
    }
}

fn input() -> CreateProfileInput {
    CreateProfileInput {
        name: "Work".to_string(),
        provider: Provider::GitLab,
        email: "me@work.example".to_string(),
        git_username: "me".to_string(),
        private_key_path: "/k".to_string(),
        host_alias: "gitlab-work".to_string(),
        hostname: "gitlab.com".to_string(),
        port: None,
        ssh_user: None,
        has_passphrase: false,
    }
}

#[test]
fn test_replace_managed_section_no_existing() {
    let existing = "Host personal\n  HostName github.com\n";
    let new_block = "# === BEGIN MAZE-SSH MANAGED ===\nHost test\n# === END MAZE-SSH MANAGED ===\n";
    let result = replace_managed_section(existing, new_block);
    assert!(result.contains("Host personal"));
    assert!(result.contains("Host test"));
}

#[test]
fn test_replace_managed_section_with_existing() {
    let existing = "Host personal\n  HostName github.com\n\n# === BEGIN MAZE-SSH MANAGED ===\nHost old\n# === END MAZE-SSH MANAGED ===\n\nHost other\n";
    let new_block = "# === BEGIN MAZE-SSH MANAGED ===\nHost new\n# === END MAZE-SSH MANAGED ===\n";
    let result = replace_managed_section(existing, new_block);
    assert!(result.contains("Host personal"));
    assert!(result.contains("Host new"));
    assert!(!result.contains("Host old"));
    assert!(result.contains("Host other"));
}

#[test]
fn test_validate_hostname_valid() {
    assert!(validate_hostname("github.com").is_ok());
    assert!(validate_hostname("my-server.example.org").is_ok());
    assert!(validate_hostname("192.168.1.1").is_ok());
}

#[test]
fn test_validate_hostname_invalid() {
    assert!(validate_hostname("").is_err());
    assert!(validate_hostname("host;rm -rf /").is_err());
    assert!(validate_hostname("host`whoami`").is_err());
    assert!(validate_hostname("host$(cmd)").is_err());
}

#[test]
fn test_validate_pin_length() {
    assert!(validate_pin("123").is_err());
    assert!(validate_pin("1234").is_ok());
    assert!(validate_pin("longpin123").is_ok());
}

#[test]
fn test_shell_escape() {
    assert_eq!(shell_escape("hello"), "hello");
    assert_eq!(shell_escape("it's"), "it'\\''s");
}

#[test]
fn test_build_git_ssh_command_default_port() {
    let profile = test_profile(None);
    let cmd = build_git_ssh_command(&profile);
    assert!(cmd.contains("ssh -i"));
    assert!(cmd.contains("id_ed25519"));
    assert!(cmd.contains("IdentitiesOnly=yes"));
    assert!(!cmd.contains("-p "));
}

#[test]
fn test_build_git_ssh_command_custom_port() {
    let profile = test_profile(Some(2222));
    let cmd = build_git_ssh_command(&profile);
    assert!(cmd.contains("-p 2222"));
}

#[test]
fn test_build_env_file_content() {
    let profile = test_profile(None);
    let content = build_env_file_content(&profile);
    assert!(content.contains("export GIT_SSH_COMMAND="));
    assert!(content.contains("Active profile: Test Profile"));
}

// ── Further cases ──

#[test]
fn config_block_exact_text() {
    let mut p2 = test_profile(Some(2222));
    p2.host_alias = "gh2".to_string();
    p2.ssh_user = Some("alice".to_string());
    let block = generate_config_block(&[test_profile(Some(22)), p2]);
    assert_eq!(
        block,
        "# === BEGIN MAZE-SSH MANAGED ===\n# Do not edit this section manually. Managed by Maze SSH.\n\n\
Host github-test\n  HostName github.com\n  User git\n  IdentityFile /home/user/.ssh/id_ed25519\n  IdentitiesOnly yes\n\n\
Host gh2\n  HostName github.com\n  User alice\n  IdentityFile /home/user/.ssh/id_ed25519\n  IdentitiesOnly yes\n  Port 2222\n\n\
# === END MAZE-SSH MANAGED ===\n"
    );
}

#[test]
fn managed_section_replacement_exact() {
    let block = "# === BEGIN MAZE-SSH MANAGED ===\nX\n# === END MAZE-SSH MANAGED ===\n";
    assert_eq!(replace_managed_section("", block), block);
    assert_eq!(replace_managed_section("a", block), format!("a\n\n{}", block));
    let existing = format!("top\n{}tail\n", "# === BEGIN MAZE-SSH MANAGED ===\nold\n# === END MAZE-SSH MANAGED ===\n");
    assert_eq!(replace_managed_section(&existing, block), format!("top\n{}tail\n", block));
}

#[test]
fn git_ssh_command_exact() {
    assert_eq!(
        build_git_ssh_command(&test_profile(Some(2222))),
        "ssh -i \"/home/user/.ssh/id_ed25519\" -p 2222 -o IdentitiesOnly=yes -o StrictHostKeyChecking=accept-new"
    );
    assert_eq!(
        build_env_file_content(&test_profile(None)),
        "export GIT_SSH_COMMAND='ssh -i \"/home/user/.ssh/id_ed25519\" -o IdentitiesOnly=yes -o StrictHostKeyChecking=accept-new'\n# Active profile: Test Profile (github)\n"
    );
    let mut p = test_profile(None);
    p.private_key_path = "C:/it's/key".to_string();
    assert_eq!(
        git_ssh_env_script(&p),
        "[Environment]::SetEnvironmentVariable('GIT_SSH_COMMAND', 'ssh -i \"C:/it''s/key\" -o IdentitiesOnly=yes -o StrictHostKeyChecking=accept-new', 'User')"
    );
}

#[test]
fn profile_input_errors_in_order() {
    assert!(validate_profile_input(&input()).is_ok());
    let mut i = input();
    i.name = "   ".to_string();
    assert_eq!(validate_profile_input(&i), Err(MazeSshError::ValidationError("Profile name must be 1-100 characters".to_string())));
    let mut i = input();
    i.name = "a\u{7}b".to_string();
    assert_eq!(validate_profile_input(&i), Err(MazeSshError::ValidationError("Profile name must not contain control characters".to_string())));
    let mut i = input();
    i.email = "nobody".to_string();
    assert_eq!(validate_profile_input(&i), Err(MazeSshError::ValidationError("Invalid email address".to_string())));
    let mut i = input();
    i.host_alias = "bad alias".to_string();
    assert!(validate_profile_input(&i).is_err());
    let mut i = input();
    i.port = Some(0);
    assert_eq!(validate_profile_input(&i), Err(MazeSshError::ValidationError("Port must be between 1 and 65535".to_string())));
}

#[test]
fn summary_marks_active_profile() {
    let p = test_profile(None);
    assert!(ProfileSummary::from_profile(&p, &Some("test-id".to_string())).is_active);
    assert!(!ProfileSummary::from_profile(&p, &None).is_active);
    assert_eq!(Provider::Custom("forge".into()).to_text(), "forge");
    assert_eq!(p.ssh_user_or_default(), "git");
    assert_eq!(p.port_or_default(), 22);
}
