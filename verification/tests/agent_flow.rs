use maze_ssh::activation::agent_key_lines;
use maze_ssh::agent::{
    apply_consent, client_info, perform_sign, sign_flow_step, start_sign_request, ConsentDecision, ConsentEvent, SignAction,
    SignEvent, SignFlow, SignStart,
};
use maze_ssh::git::{find_git_binary, git_config_result, set_git_identity};
use maze_ssh::error::MazeSshError;
use maze_ssh::pipes::scan_named_pipes;
use maze_ssh::policy::{has_always_rule, PolicyRule, SessionRules};
use maze_ssh::profile::{find_profile_by_name, Provider, SshProfile};
use maze_ssh::protocol::AgentResponse;
use maze_ssh::scanner::{parse_public_key, scan_ssh_keys, SshDirEntry};
use maze_ssh::vault::{GenerateKeyInput, KeyAlgorithm, SshKeyVault};
use ssh_key::PublicKey;

#[test]
fn signing_asks_consent_then_remembers_it() {
    let mut meta = SshKeyVault::init("pass", &None).unwrap();
    let session = SshKeyVault::unlock_checked("pass", &meta).unwrap().unwrap();
    let (item, file) = SshKeyVault::generate_key(
        &session,
        GenerateKeyInput { name: "Work".into(), algorithm: KeyAlgorithm::Ed25519, comment: None, export_policy: None, allowed_hosts: vec![] },
        &mut meta,
    )
    .unwrap();
    let blob = PublicKey::from_openssh(&item.public_key_openssh).unwrap().to_bytes().unwrap();
    let mut rules: Vec<PolicyRule> = Vec::new();
    let mut session_rules = SessionRules::new();

    match start_sign_request(&meta, &rules, &session_rules, &blob) {
        SignStart::AskConsent(id, name, fp) => {
            assert_eq!(id, item.id);
            assert_eq!(name, "Work");
            assert_eq!(fp, item.fingerprint);
        },
        other => panic!("unexpected {:?}", other),
    }
    assert!(matches!(start_sign_request(&meta, &rules, &session_rules, &[1, 2, 3]), SignStart::Refuse));

    let decision = ConsentDecision { approved: true, selected_key_id: String::new(), allow_mode: "always".into() };
    let key = apply_consent(&decision, &item.id, &meta, &mut rules, &mut session_rules, "2024-01-01T00:00:00Z").unwrap();
    assert_eq!(key, item.id);
    assert!(has_always_rule(&rules, &item.id));
    assert_eq!(rules[0].key_name, "Work");
    match start_sign_request(&meta, &rules, &session_rules, &blob) {
        SignStart::Sign(id) => assert_eq!(id, item.id),
        other => panic!("unexpected {:?}", other),
    }

    match perform_sign(Some(&session), &meta, &item.id, b"data", Some(&file)) {
        AgentResponse::SignResponse { signature_blob } => {
            assert_eq!(&signature_blob[0..4], &[0, 0, 0, 11]);
            assert_eq!(&signature_blob[4..15], b"ssh-ed25519");
        },
        other => panic!("unexpected {:?}", other),
    }
    assert!(matches!(perform_sign(None, &meta, &item.id, b"data", Some(&file)), AgentResponse::Failure));
    assert!(matches!(perform_sign(Some(&session), &meta, "nope", b"data", Some(&file)), AgentResponse::Failure));

    let refused = ConsentDecision { approved: false, selected_key_id: String::new(), allow_mode: "session".into() };
    assert!(apply_consent(&refused, &item.id, &meta, &mut rules, &mut session_rules, "t").is_none());
}

#[test]
fn client_is_named_after_its_executable() {
    let c = client_info(7, Some("C:\\Windows\\System32\\OpenSSH\\ssh.exe".into()));
    assert_eq!(c.process_name, "ssh.exe");
    assert_eq!(c.process_path, "C:\\Windows\\System32\\OpenSSH\\ssh.exe");
    let c = client_info(42, None);
    assert_eq!(c.process_name, "PID 42");
    assert_eq!(c.process_path, "");
}

#[test]
fn agent_pipes_are_found_and_sorted() {
    let out = scan_named_pipes(Some("[\"openssh-ssh-agent\",\"foo\",\"Bar-KEY\",\"chrome.sync\"]\r\n".into()));
    let names: Vec<&str> = out.iter().map(|e| e.display.as_str()).collect();
    assert_eq!(names, vec!["Bar-KEY", "openssh-ssh-agent"]);
    assert_eq!(out[1].path, "\\\\.\\pipe\\openssh-ssh-agent");
    let single = scan_named_pipes(Some("\"pageant.user\"".into()));
    assert!(single.is_empty());
    let single = scan_named_pipes(Some("\"my-agent\"".into()));
    assert_eq!(single.len(), 1);
    assert!(scan_named_pipes(None).is_empty());
    assert!(scan_named_pipes(Some("not json".into())).is_empty());
}

fn dir_entry(path: &str, name: &str, ext: Option<&str>, is_dir: bool, pub_exists: bool, content: Option<&str>) -> SshDirEntry {
    SshDirEntry {
        path: path.into(),
        file_name: name.into(),
        extension: ext.map(|e| e.to_string()),
        is_dir,
        public_path: format!("{}.pub", path),
        public_exists: pub_exists,
        public_content: content.map(|c| c.to_string()),
    }
}

#[test]
fn key_pairs_are_found_in_ssh_dir() {
    let entries = vec![
        dir_entry("/h/.ssh/work", "work", None, false, true, Some("ssh-rsa AAAA work key\n")),
        dir_entry("/h/.ssh/work.pub", "work.pub", Some("pub"), false, false, None),
        dir_entry("/h/.ssh/config", "config", None, false, true, Some("x")),
        dir_entry("/h/.ssh/id_ed25519", "id_ed25519", None, false, true, Some("ssh-ed25519 AAAA me@host")),
        dir_entry("/h/.ssh/lonely", "lonely", None, false, false, None),
        dir_entry("/h/.ssh/sub", "sub", None, true, true, None),
    ];
    let keys = scan_ssh_keys(&entries);
    assert_eq!(keys.len(), 2);
    assert_eq!(keys[0].private_key_path, "/h/.ssh/id_ed25519");
    assert_eq!(keys[0].key_type, "ed25519");
    assert_eq!(keys[0].comment, "me@host");
    assert_eq!(keys[1].key_type, "rsa");
    assert_eq!(keys[1].comment, "work key");
    assert_eq!(parse_public_key(None), ("unknown".to_string(), String::new()));
}

#[test]
fn git_identity_commands() {
    let (a, b) = set_git_identity(None, "dev", "dev@example.com");
    assert_eq!(a, vec!["config", "--global", "user.name", "dev"]);
    assert_eq!(b, vec!["config", "--global", "user.email", "dev@example.com"]);
    let (a, _) = set_git_identity(Some("/repo"), "dev", "d@e");
    assert_eq!(a, vec!["-C", "/repo", "config", "user.name", "dev"]);
    assert_eq!(
        git_config_result("user.name", false, "boom"),
        Err(MazeSshError::GitConfigError("git config user.name failed: boom".into()))
    );
    assert_eq!(find_git_binary(false, false), "git");
}

#[test]
fn profiles_are_found_by_name_ignoring_case() {
    let p = SshProfile {
        id: "1".into(),
        name: "Work".into(),
        provider: Provider::GitLab,
        email: "e".into(),
        git_username: "u".into(),
        private_key_path: "k".into(),
        public_key_path: "k.pub".into(),
        host_alias: "a".into(),
        hostname: "gitlab.com".into(),
        port: None,
        ssh_user: None,
        has_passphrase: true,
        created_at: String::new(),
        updated_at: String::new(),
        vault_key_id: None,
    };
    assert_eq!(find_profile_by_name(&[p.clone()], "WORK"), Some(0));
    assert_eq!(find_profile_by_name(&[p], "home"), None);
    assert!(agent_key_lines("The agent has no identities.\n").is_none());
    assert_eq!(agent_key_lines("256 SHA256:a k (ED25519)\n2048 SHA256:b j (RSA)").unwrap().len(), 2);
}

#[test]
fn signing_flow_times_out_drops_or_signs_after_consent() {
    let mut meta = SshKeyVault::init("pass", &None).unwrap();
    let session = SshKeyVault::unlock_checked("pass", &meta).unwrap().unwrap();
    let (item, _file) = SshKeyVault::generate_key(
        &session,
        GenerateKeyInput { name: "Work".into(), algorithm: KeyAlgorithm::Ed25519, comment: None, export_policy: None, allowed_hosts: vec![] },
        &mut meta,
    )
    .unwrap();
    let blob = PublicKey::from_openssh(&item.public_key_openssh).unwrap().to_bytes().unwrap();
    let mut rules: Vec<PolicyRule> = Vec::new();
    let mut session_rules = SessionRules::new();
    let request = |now: u64| SignEvent::Request { key_blob: blob.clone(), now };

    // no rule: the user is asked, and silence for a minute refuses with an audit line
    let (flow, action) = sign_flow_step(SignFlow::Start, request(1_000), &meta, &mut rules, &mut session_rules, "t");
    match action {
        SignAction::AskConsent(id, name, fp) => {
            assert_eq!(id, item.id);
            assert_eq!(name, "Work");
            assert_eq!(fp, item.fingerprint);
        },
        other => panic!("unexpected {:?}", other),
    }
    let (flow, action) = sign_flow_step(flow, SignEvent::Consent(ConsentEvent::Tick(30_000)), &meta, &mut rules, &mut session_rules, "t");
    assert!(matches!(action, SignAction::Wait));
    let (flow, action) = sign_flow_step(flow, SignEvent::Consent(ConsentEvent::Tick(61_000)), &meta, &mut rules, &mut session_rules, "t");
    match action {
        SignAction::Refuse(Some(note)) => {
            assert_eq!(note.action, "consent_timeout");
            assert_eq!(note.key_name, "Work");
            assert_eq!(note.result, "auto-denied after 60s");
        },
        other => panic!("unexpected {:?}", other),
    }
    assert!(matches!(flow, SignFlow::Finished));
    let (_, action) = sign_flow_step(flow, request(2_000), &meta, &mut rules, &mut session_rules, "t");
    assert!(matches!(action, SignAction::Refuse(None)));

    // a closed window refuses with its own audit line
    let (flow, _) = sign_flow_step(SignFlow::Start, request(5_000), &meta, &mut rules, &mut session_rules, "t");
    let (_, action) = sign_flow_step(flow, SignEvent::Consent(ConsentEvent::Closed), &meta, &mut rules, &mut session_rules, "t");
    match action {
        SignAction::Refuse(Some(note)) => {
            assert_eq!(note.action, "consent_dropped");
            assert_eq!(note.key_name, "Work");
            assert_eq!(note.result, "channel closed");
        },
        other => panic!("unexpected {:?}", other),
    }

    // a refusal refuses without a line
    let (flow, _) = sign_flow_step(SignFlow::Start, request(6_000), &meta, &mut rules, &mut session_rules, "t");
    let no = ConsentDecision { approved: false, selected_key_id: String::new(), allow_mode: "session".into() };
    let (_, action) = sign_flow_step(flow, SignEvent::Consent(ConsentEvent::Answered(no)), &meta, &mut rules, &mut session_rules, "t");
    assert!(matches!(action, SignAction::Refuse(None)));
    assert!(!session_rules.is_allowed(&item.id));

    // an approval for the session signs, and the next request signs at once
    let (flow, _) = sign_flow_step(SignFlow::Start, request(7_000), &meta, &mut rules, &mut session_rules, "t");
    let yes = ConsentDecision { approved: true, selected_key_id: String::new(), allow_mode: "session".into() };
    let (flow, action) = sign_flow_step(flow, SignEvent::Consent(ConsentEvent::Answered(yes)), &meta, &mut rules, &mut session_rules, "t");
    match action {
        SignAction::Sign(id) => assert_eq!(id, item.id),
        other => panic!("unexpected {:?}", other),
    }
    assert!(matches!(flow, SignFlow::Finished));
    assert!(session_rules.is_allowed(&item.id));
    assert!(rules.is_empty());
    let (_, action) = sign_flow_step(SignFlow::Start, request(8_000), &meta, &mut rules, &mut session_rules, "t");
    match action {
        SignAction::Sign(id) => assert_eq!(id, item.id),
        other => panic!("unexpected {:?}", other),
    }

    // an unknown key is refused outright
    let unknown = SignEvent::Request { key_blob: vec![1, 2, 3], now: 9_000 };
    let (_, action) = sign_flow_step(SignFlow::Start, unknown, &meta, &mut rules, &mut session_rules, "t");
    assert!(matches!(action, SignAction::Refuse(None)));
}
