use maze_ssh::error::MazeSshError;
use maze_ssh::git::{sync_git_identity, GitConfigScope};
use maze_ssh::history::get_audit_logs;
use maze_ssh::profile::{
    generate_config_block, replace_managed_section, CreateProfileInput, Provider, SshProfile, UpdateProfileInput,
};
use maze_ssh::profile_store::{
    create_profile, create_repo_mapping, delete_profile, delete_repo_mapping, get_profile, get_profiles,
    tray_tooltip, update_profile,
};
use maze_ssh::provider::{npiperelay_path, relay_binary_path, RelayBinary};
use maze_ssh::repo::RepoMapping;
use maze_ssh::security::{
    get_security_settings, lock_on_close, update_security_settings, AgentMode, AuditEntry, SecuritySettings, SecurityState,
    VaultUnlockMode,
};
use maze_ssh::state::AppStateInner;

fn profile(id: &str, name: &str) -> SshProfile {
    SshProfile {
        id: id.to_string(),
        name: name.to_string(),
        provider: Provider::GitHub,
        email: format!("{}@example.com", name),
        git_username: name.to_string(),
        private_key_path: format!("/home/u/.ssh/{}", name),
        public_key_path: format!("/home/u/.ssh/{}.pub", name),
        host_alias: format!("github-{}", name),
        hostname: "github.com".to_string(),
        port: None,
        ssh_user: None,
        has_passphrase: false,
        created_at: "2024-01-01T00:00:00Z".to_string(),
        updated_at: "2024-01-01T00:00:00Z".to_string(),
        vault_key_id: None,
    }
}

fn settings() -> SecuritySettings {
    SecuritySettings {
        auto_lock_timeout_minutes: None,
        agent_key_timeout_minutes: None,
        lock_on_minimize: false,
        vault_unlock_mode: VaultUnlockMode::SameAsPin,
        agent_mode: AgentMode::FileSystem,
    }
}

fn security(locked: bool) -> SecurityState {
    SecurityState {
        is_locked: locked,
        pin_is_set: locked,
        last_activity: 0,
        agent_activated_at: None,
        settings: settings(),
        failed_pin_attempts: 0,
        last_failed_attempt: None,
    }
}

fn mapping(id: &str, path: &str, profile_id: &str) -> RepoMapping {
    RepoMapping { id: id.to_string(), repo_path: path.to_string(), profile_id: profile_id.to_string() }
}

fn state() -> AppStateInner {
    AppStateInner {
        profiles: vec![profile("p1", "work"), profile("p2", "home")],
        active_profile_id: Some("p2".to_string()),
        repo_mappings: vec![
            mapping("m1", "C:\\src\\a", "p2"),
            mapping("m2", "C:\\src\\b", "p1"),
            mapping("m3", "C:\\src\\c", "p2"),
        ],
    }
}

#[test]
fn profiles_are_listed_with_the_active_one_marked() {
    let inner = state();
    let mut sec = security(false);
    let list = get_profiles(&inner, &mut sec, 42).unwrap();
    assert_eq!(list.len(), 2);
    assert_eq!(list[0].name, "work");
    assert!(!list[0].is_active);
    assert!(list[1].is_active);
    assert_eq!(sec.last_activity, 42);
}

#[test]
fn profile_commands_are_refused_while_locked() {
    let mut inner = state();
    let mut sec = security(true);
    assert!(matches!(get_profiles(&inner, &mut sec, 5), Err(MazeSshError::AppLocked)));
    assert!(matches!(delete_profile(&mut inner, &mut sec, "p1", 5), Err(MazeSshError::AppLocked)));
    assert_eq!(inner.profiles.len(), 2);
    assert_eq!(sec.last_activity, 0);
}

#[test]
fn get_profile_finds_by_id() {
    let inner = state();
    let mut sec = security(false);
    assert_eq!(get_profile(&inner, &mut sec, "p2", 1).unwrap().name, "home");
    assert_eq!(
        get_profile(&inner, &mut sec, "nope", 1).unwrap_err(),
        MazeSshError::ProfileNotFound("nope".to_string())
    );
}

fn create_input() -> CreateProfileInput {
    CreateProfileInput {
        name: "oss".to_string(),
        provider: Provider::GitLab,
        email: "oss@example.com".to_string(),
        git_username: "oss".to_string(),
        private_key_path: "/home/u/.ssh/id_oss".to_string(),
        host_alias: "gitlab-oss".to_string(),
        hostname: "gitlab.com".to_string(),
        port: Some(2222),
        ssh_user: None,
        has_passphrase: true,
    }
}

#[test]
fn create_profile_adds_it_with_public_key_path() {
    let mut inner = state();
    let mut sec = security(false);
    let p = create_profile(&mut inner, &mut sec, create_input(), true, 9).unwrap();
    assert_eq!(p.public_key_path, "/home/u/.ssh/id_oss.pub");
    assert_eq!(p.port, Some(2222));
    assert_eq!(p.created_at, p.updated_at);
    assert!(p.vault_key_id.is_none());
    assert_eq!(inner.profiles.len(), 3);
    assert_eq!(inner.profiles[2].id, p.id);
    assert_ne!(p.id, "");
}

#[test]
fn create_profile_needs_the_key_file() {
    let mut inner = state();
    let mut sec = security(false);
    let e = create_profile(&mut inner, &mut sec, create_input(), false, 9).unwrap_err();
    assert_eq!(e, MazeSshError::KeyNotFound("/home/u/.ssh/id_oss".to_string()));
    assert_eq!(inner.profiles.len(), 2);
}

#[test]
fn update_profile_changes_only_given_fields() {
    let mut inner = state();
    let mut sec = security(false);
    let input = UpdateProfileInput {
        name: Some("job".to_string()),
        provider: None,
        email: None,
        git_username: None,
        host_alias: None,
        hostname: Some("github.example.com".to_string()),
        port: Some(443),
        ssh_user: None,
    };
    let q = update_profile(&mut inner, &mut sec, "p1", input, 3).unwrap();
    assert_eq!(q.name, "job");
    assert_eq!(q.hostname, "github.example.com");
    assert_eq!(q.port, Some(443));
    assert_eq!(q.email, "work@example.com");
    assert_eq!(q.id, "p1");
    assert_ne!(q.updated_at, "2024-01-01T00:00:00Z");
    assert_eq!(inner.profiles[0].name, "job");
    assert_eq!(inner.profiles[1].name, "home");
}

#[test]
fn update_unknown_profile_fails() {
    let mut inner = state();
    let mut sec = security(false);
    let input = UpdateProfileInput {
        name: Some("x".to_string()),
        provider: None,
        email: None,
        git_username: None,
        host_alias: None,
        hostname: None,
        port: None,
        ssh_user: None,
    };
    let e = update_profile(&mut inner, &mut sec, "zz", input, 3).unwrap_err();
    assert_eq!(e, MazeSshError::ProfileNotFound("zz".to_string()));
    assert_eq!(inner.profiles[0].name, "work");
}

#[test]
fn deleting_the_active_profile_clears_it_and_its_mappings() {
    let mut inner = state();
    let mut sec = security(false);
    let d = delete_profile(&mut inner, &mut sec, "p2", 4).unwrap();
    assert!(d.active_cleared);
    assert!(d.mappings_removed);
    assert_eq!(inner.profiles.len(), 1);
    assert!(inner.active_profile_id.is_none());
    assert_eq!(inner.repo_mappings.len(), 1);
    assert_eq!(inner.repo_mappings[0].id, "m2");
}

#[test]
fn deleting_another_profile_keeps_the_active_one() {
    let mut inner = state();
    let mut sec = security(false);
    let d = delete_profile(&mut inner, &mut sec, "p1", 4).unwrap();
    assert!(!d.active_cleared);
    assert!(d.mappings_removed);
    assert_eq!(inner.active_profile_id.as_deref(), Some("p2"));
    assert_eq!(inner.repo_mappings.len(), 2);
    assert_eq!(
        delete_profile(&mut inner, &mut sec, "p1", 4).unwrap_err(),
        MazeSshError::ProfileNotFound("p1".to_string())
    );
}

#[test]
fn repo_mapping_creation_checks_in_order() {
    let mut inner = state();
    let mut sec = security(false);
    assert_eq!(
        create_repo_mapping(&mut inner, &mut sec, "C:\\x", false, None, "p1", 1).unwrap_err(),
        MazeSshError::IoError("Path does not exist: C:\\x".to_string())
    );
    assert_eq!(
        create_repo_mapping(&mut inner, &mut sec, "C:\\x", true, None, "p1", 1).unwrap_err(),
        MazeSshError::NotAGitRepo("C:\\x".to_string())
    );
    assert_eq!(
        create_repo_mapping(&mut inner, &mut sec, "C:\\x", true, Some("C:\\x".to_string()), "p9", 1).unwrap_err(),
        MazeSshError::ProfileNotFound("p9".to_string())
    );
    assert_eq!(
        create_repo_mapping(&mut inner, &mut sec, "c:\\SRC\\B\\sub", true, Some("c:\\SRC\\B".to_string()), "p1", 1)
            .unwrap_err(),
        MazeSshError::DuplicateMapping("c:\\SRC\\B".to_string())
    );
    let m = create_repo_mapping(&mut inner, &mut sec, "C:\\src\\d\\x", true, Some("C:\\src\\d".to_string()), "p1", 1)
        .unwrap();
    assert_eq!(m.repo_path, "C:\\src\\d");
    assert_eq!(m.profile_id, "p1");
    assert_eq!(inner.repo_mappings.len(), 4);
}

#[test]
fn repo_mapping_deletion() {
    let mut inner = state();
    let mut sec = security(false);
    delete_repo_mapping(&mut inner, &mut sec, "m2", 1).unwrap();
    assert_eq!(inner.repo_mappings.len(), 2);
    assert_eq!(inner.repo_mappings[1].id, "m3");
    assert_eq!(
        delete_repo_mapping(&mut inner, &mut sec, "m2", 1).unwrap_err(),
        MazeSshError::RepoMappingNotFound("m2".to_string())
    );
}

#[test]
fn security_settings_read_and_replace() {
    let mut sec = security(false);
    assert_eq!(get_security_settings(&mut sec, 7).unwrap(), settings());
    let mut s = settings();
    s.auto_lock_timeout_minutes = Some(15);
    s.lock_on_minimize = true;
    update_security_settings(&mut sec, s, 8).unwrap();
    assert_eq!(sec.settings, s);
    assert_eq!(sec.last_activity, 8);
    let mut locked = security(true);
    assert_eq!(update_security_settings(&mut locked, s, 8), Err(MazeSshError::AppLocked));
    assert_eq!(locked.settings, settings());
}

fn audit(action: &str, n: u32) -> AuditEntry {
    AuditEntry {
        timestamp: format!("t{}", n),
        action: action.to_string(),
        profile_name: None,
        result: "success".to_string(),
        distro: None,
        provider: None,
    }
}

#[test]
fn audit_logs_page_newest_first() {
    let mut sec = security(false);
    let entries = vec![audit("lock", 1), audit("unlock", 2), audit("lock", 3), audit("lock", 4)];
    let page = get_audit_logs(&mut sec, entries.clone(), 2, 1, Some("lock"), 1).unwrap();
    assert_eq!(page.len(), 2);
    assert_eq!(page[0].timestamp, "t3");
    assert_eq!(page[1].timestamp, "t1");
    let mut locked = security(true);
    assert!(get_audit_logs(&mut locked, entries, 2, 0, None, 1).is_err());
}

#[test]
fn git_identity_sync_commands() {
    let ps = vec![profile("p1", "work")];
    let (a, b) = sync_git_identity(&ps, "p1", None, GitConfigScope::Global).unwrap();
    assert_eq!(a, vec!["config", "--global", "user.name", "work"]);
    assert_eq!(b, vec!["config", "--global", "user.email", "work@example.com"]);
    let (a, _) = sync_git_identity(&ps, "p1", Some("C:\\repo"), GitConfigScope::Local).unwrap();
    assert_eq!(a, vec!["-C", "C:\\repo", "config", "user.name", "work"]);
    assert_eq!(
        sync_git_identity(&ps, "p1", None, GitConfigScope::Local).unwrap_err(),
        MazeSshError::GitConfigError("repo_path required for local scope".to_string())
    );
    assert_eq!(
        sync_git_identity(&ps, "p2", None, GitConfigScope::Global).unwrap_err(),
        MazeSshError::ProfileNotFound("p2".to_string())
    );
}

#[test]
fn relay_binaries_live_under_bin() {
    assert_eq!(
        relay_binary_path("C:\\Users\\me\\.maze-ssh", RelayBinary::WslSshPageant),
        "C:\\Users\\me\\.maze-ssh\\bin\\wsl-ssh-pageant.exe"
    );
    assert_eq!(npiperelay_path("C:\\data\\"), "C:\\data\\bin\\npiperelay.exe");
    assert_eq!(npiperelay_path(""), "bin\\npiperelay.exe");
}

#[test]
fn writing_the_managed_section_twice_changes_nothing() {
    let block = generate_config_block(&[profile("p1", "work")]);
    for existing in [
        "",
        "Host a\n  HostName a.example\n",
        "no newline at end",
        "top\n# === BEGIN MAZE-SSH MANAGED ===\nold\n# === END MAZE-SSH MANAGED ===\nbottom\n",
    ] {
        let once = replace_managed_section(existing, &block);
        let twice = replace_managed_section(&once, &block);
        assert_eq!(once, twice);
    }
}

#[test]
fn tray_tooltip_names_the_active_profile() {
    let ps = vec![profile("p1", "work")];
    assert_eq!(tray_tooltip(&ps, Some("p1")), "Maze SSH - work");
    assert_eq!(tray_tooltip(&ps, Some("p9")), "Maze SSH - No active profile");
    assert_eq!(tray_tooltip(&ps, None), "Maze SSH - No active profile");
}

#[test]
fn closing_the_window_locks_only_when_asked() {
    let mut s = security(false);
    s.pin_is_set = true;
    assert!(!lock_on_close(&s));
    s.settings.lock_on_minimize = true;
    assert!(lock_on_close(&s));
    s.is_locked = true;
    assert!(!lock_on_close(&s));
    let mut t = security(false);
    t.settings.lock_on_minimize = true;
    assert!(!lock_on_close(&t));
    t.pin_is_set = false;
}
