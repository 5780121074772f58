use maze_ssh::provider::{recommend_provider, BridgeProvider, ProviderStatus, RelayBinary};

#[test]
fn test_provider_default_is_windows_openssh() {
    assert_eq!(BridgeProvider::default(), BridgeProvider::WindowsOpenSsh);
}

#[test]
fn test_pipe_providers_need_socat() {
    assert!(BridgeProvider::WindowsOpenSsh.needs_socat());
    assert!(BridgeProvider::OnePassword.needs_socat());
    assert!(!BridgeProvider::Pageant.needs_socat());
    assert!(BridgeProvider::Custom { pipe_path: "test".into() }.needs_socat());
}

#[test]
fn test_relay_binaries() {
    assert_eq!(BridgeProvider::Pageant.relay_binary(), RelayBinary::WslSshPageant);
    assert_eq!(BridgeProvider::WindowsOpenSsh.relay_binary(), RelayBinary::Npiperelay);
    assert_eq!(BridgeProvider::OnePassword.relay_binary(), RelayBinary::Npiperelay);
    assert_eq!(BridgeProvider::Custom { pipe_path: "x".into() }.relay_binary(), RelayBinary::Npiperelay);
}

#[test]
fn test_custom_named_pipe() {
    let p = BridgeProvider::Custom { pipe_path: "//./pipe/test".to_string() };
    assert_eq!(p.named_pipe(), Some("//./pipe/test".to_string()));

    let empty = BridgeProvider::Custom { pipe_path: String::new() };
    assert_eq!(empty.named_pipe(), None);
}

#[test]
fn test_recommendation_scores() {
    assert!(BridgeProvider::OnePassword.recommendation_score() > BridgeProvider::WindowsOpenSsh.recommendation_score());
    assert!(BridgeProvider::WindowsOpenSsh.recommendation_score() > BridgeProvider::Pageant.recommendation_score());
    assert!(BridgeProvider::Pageant.recommendation_score() > BridgeProvider::Custom { pipe_path: "x".into() }.recommendation_score());
}

#[test]
fn test_recommend_provider_picks_highest_score() {
    let statuses = vec![
        ProviderStatus { provider: BridgeProvider::WindowsOpenSsh, display_name: "OpenSSH".into(), available: true, error: None },
        ProviderStatus { provider: BridgeProvider::OnePassword, display_name: "1Password".into(), available: true, error: None },
        ProviderStatus { provider: BridgeProvider::Pageant, display_name: "Pageant".into(), available: true, error: None },
    ];
    let rec = recommend_provider(&statuses);
    assert_eq!(rec, Some(BridgeProvider::OnePassword));
}

#[test]
fn test_recommend_provider_skips_unavailable() {
    let statuses = vec![
        ProviderStatus { provider: BridgeProvider::OnePassword, display_name: "1Password".into(), available: false, error: Some("not running".into()) },
        ProviderStatus { provider: BridgeProvider::WindowsOpenSsh, display_name: "OpenSSH".into(), available: true, error: None },
    ];
    let rec = recommend_provider(&statuses);
    assert_eq!(rec, Some(BridgeProvider::WindowsOpenSsh));
}

#[test]
fn test_recommend_provider_none_available() {
    let statuses = vec![ProviderStatus {
        provider: BridgeProvider::WindowsOpenSsh,
        display_name: "OpenSSH".into(),
        available: false,
        error: Some("down".into()),
    }];
    assert_eq!(recommend_provider(&statuses), None);
}

#[test]
fn relay_binary_keys_round_trip() {
    for b in RelayBinary::all() {
        assert_eq!(RelayBinary::from_key(b.version_key()), Some(b));
    }
    assert_eq!(RelayBinary::from_key("wsl_ssh_pageant"), Some(RelayBinary::WslSshPageant));
    assert_eq!(RelayBinary::from_key("nope"), None);
}
