use maze_ssh::error::MazeSshError;
use maze_ssh::wsl::{decode_wsl_output, detect_shells, has_systemd, parse_distro_list, validate_distro_name, CmdOutput};

#[test]
fn test_parse_distro_list_typical() {
    let text = "  NAME      STATE    VERSION\n\
                 * Ubuntu    Running  2\n\
                   Debian    Stopped  2\n";
    let distros = parse_distro_list(text).unwrap();
    assert_eq!(distros.len(), 2);

    assert_eq!(distros[0].name, "Ubuntu");
    assert_eq!(distros[0].state, "Running");
    assert_eq!(distros[0].version, 2);
    assert!(distros[0].is_default);

    assert_eq!(distros[1].name, "Debian");
    assert_eq!(distros[1].state, "Stopped");
    assert_eq!(distros[1].version, 2);
    assert!(!distros[1].is_default);
}

#[test]
fn test_parse_distro_list_with_spaces_in_name() {
    let text = "  NAME                STATE    VERSION\n\
                 * Ubuntu 24.04 LTS   Running  2\n";
    let distros = parse_distro_list(text).unwrap();
    assert_eq!(distros.len(), 1);
    assert_eq!(distros[0].name, "Ubuntu 24.04 LTS");
    assert_eq!(distros[0].version, 2);
}

#[test]
fn test_parse_distro_list_empty() {
    let text = "  NAME      STATE    VERSION\n";
    let distros = parse_distro_list(text).unwrap();
    assert!(distros.is_empty());
}

#[test]
fn test_decode_utf16le_with_bom() {
    let raw: Vec<u8> = vec![0xFF, 0xFE, b'H', 0x00, b'i', 0x00, b'\n', 0x00];
    let decoded = decode_wsl_output(&raw);
    assert_eq!(decoded, "Hi\n");
}

// ── Further cases ──

#[test]
fn parse_skips_bad_versions_and_short_lines() {
    let text = "NAME STATE VERSION\n  Foo Running x\n  Bar Running\n  Baz Stopped 1\r\n\n  Big Running 300\n";
    let d = parse_distro_list(text).unwrap();
    assert_eq!(d.len(), 1);
    assert_eq!(d[0].name, "Baz");
    assert_eq!(d[0].version, 1);
}

#[test]
fn decode_falls_back_to_utf8() {
    assert_eq!(decode_wsl_output(&[0x31, 0x32, 0x33]), "123");
    assert_eq!(decode_wsl_output(b"abc\n"), "abc\n");
}

#[test]
fn distro_name_rules() {
    assert_eq!(validate_distro_name("Ubuntu-22.04"), Ok(()));
    assert_eq!(validate_distro_name("  "), Err(MazeSshError::WslCommandFailed("Distro name cannot be empty".to_string())));
    assert_eq!(
        validate_distro_name("a;b"),
        Err(MazeSshError::WslCommandFailed("Distro name 'a;b' contains invalid characters".to_string()))
    );
    assert!(validate_distro_name(&"x".repeat(129)).is_err());
}

#[test]
fn shells_and_systemd() {
    let yes = Some(CmdOutput { stdout: "/usr/bin/zsh".into(), stderr: String::new(), success: true });
    let s = detect_shells(&yes, &None);
    assert_eq!(s.len(), 3);
    assert!(s[0].is_installed && s[1].is_installed && !s[2].is_installed);
    let booted = Some(CmdOutput { stdout: String::new(), stderr: "System has not been booted with systemd as init system".into(), success: false });
    assert!(!has_systemd(&booted));
    assert!(has_systemd(&Some(CmdOutput { stdout: String::new(), stderr: String::new(), success: false })));
    assert!(!has_systemd(&None));
}
