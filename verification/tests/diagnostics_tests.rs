use wings_rs::diagnostics::{
    bool_string, decimal_string, redact_report, render_report, strip_ansi_escapes,
    tail_log_lines, write_header, write_line, DiagnosticsInfo,
};

fn lines(v: &[&str]) -> Vec<String> {
    v.iter().map(|s| s.to_string()).collect()
}

#[test]
fn header_layout() {
    let mut out = String::from("x");
    write_header(&mut out, "versions");
    assert_eq!(out, "x\n|\n| versions\n| ------------------------------\n");
}

#[test]
fn line_is_right_aligned_in_twenty_columns() {
    let mut out = String::new();
    write_line(&mut out, "os", "linux");
    assert_eq!(out, format!("{:>20}: {}\n", "os", "linux"));
    assert_eq!(out, "                  os: linux\n");
}

#[test]
fn long_label_is_not_padded() {
    let mut out = String::new();
    write_line(&mut out, "a label longer than twenty", "v");
    assert_eq!(out, "a label longer than twenty: v\n");
}

#[test]
fn label_padding_counts_characters() {
    let mut out = String::new();
    write_line(&mut out, "\u{e9}t\u{e9}", "1");
    assert_eq!(out, format!("{:>20}: {}\n", "\u{e9}t\u{e9}", "1"));
}

#[test]
fn escape_sequences_are_removed() {
    assert_eq!(strip_ansi_escapes("\u{1b}[31mred\u{1b}[0m text\n"), "red text\n");
    assert_eq!(strip_ansi_escapes("plain"), "plain");
    assert_eq!(strip_ansi_escapes("cut \u{1b}[1;2"), "cut ");
}

#[test]
fn tail_keeps_last_non_blank_lines() {
    let input = lines(&["a\n", "\n", "b\n", "  \n", "c\n", "d\n"]);
    assert_eq!(tail_log_lines(input, 2), lines(&["c\n", "d\n"]));
}

#[test]
fn tail_with_zero_count_keeps_every_non_blank_line() {
    let input = lines(&["a\n", "\n", "b\n"]);
    assert_eq!(tail_log_lines(input, 0), lines(&["a\n", "b\n"]));
}

#[test]
fn tail_with_few_lines_keeps_them_all() {
    let input = lines(&["a\n", "b\n"]);
    assert_eq!(tail_log_lines(input, 10), lines(&["a\n", "b\n"]));
}

#[test]
fn decimal_matches_to_string() {
    for n in [0u64, 7, 10, 2022, 65535, u64::MAX] {
        assert_eq!(decimal_string(n), n.to_string());
    }
}

#[test]
fn bools_are_displayed() {
    assert_eq!(bool_string(true), "true");
    assert_eq!(bool_string(false), "false");
}

fn sample_info() -> DiagnosticsInfo {
    DiagnosticsInfo {
        version: "1.2.3".to_string(),
        git_commit: "abc1234".to_string(),
        docker_version: Some("27.0.1".to_string()),
        kernel_version: None,
        os: Some("linux".to_string()),
        remote: "https://panel.example.com".to_string(),
        api_host: "0.0.0.0".to_string(),
        api_port: 8080,
        ssl_enabled: false,
        ssl_cert: String::new(),
        ssl_key: String::new(),
        sftp_bind_address: "0.0.0.0".to_string(),
        sftp_bind_port: 2022,
        sftp_read_only: false,
        sftp_key_algorithm: "ssh-ed25519".to_string(),
        sftp_disable_password_auth: false,
        root_directory: "/var/lib/pterodactyl".to_string(),
        log_directory: "/var/log/pterodactyl".to_string(),
        data_directory: "/var/lib/pterodactyl/volumes".to_string(),
        archive_directory: "/var/lib/pterodactyl/archives".to_string(),
        backup_directory: "/var/lib/pterodactyl/backups".to_string(),
        username: "pterodactyl".to_string(),
        server_time: "2024-01-01 00:00:00".to_string(),
        timezone: "+00:00".to_string(),
        debug: false,
    }
}

#[test]
fn report_layout() {
    let info = sample_info();
    let report = render_report(&info, &lines(&["\u{1b}[32mINFO\u{1b}[0m booted\n"]));
    let mut expected = String::from("cyrogopus - diagnostics report\n");
    expected.push_str("\n|\n| versions\n| ------------------------------\n");
    expected.push_str(&format!("{:>20}: {}\n", "cyrogopus", "1.2.3:abc1234"));
    expected.push_str(&format!("{:>20}: {}\n", "docker", "27.0.1"));
    expected.push_str(&format!("{:>20}: {}\n", "kernel", "unknown"));
    expected.push_str(&format!("{:>20}: {}\n", "os", "linux"));
    expected.push_str("\n|\n| cyrogopus configuration\n| ------------------------------\n");
    expected.push_str(&format!("{:>20}: {}\n", "panel location", "https://panel.example.com"));
    expected.push('\n');
    expected.push_str(&format!("{:>20}: {}\n", "internal webserver", "0.0.0.0 : 8080"));
    expected.push_str(&format!("{:>20}: {}\n", "ssl enabled", "false"));
    expected.push_str(&format!("{:>20}: {}\n", "ssl certificate", ""));
    expected.push_str(&format!("{:>20}: {}\n", "ssl key", ""));
    expected.push('\n');
    expected.push_str(&format!("{:>20}: {}\n", "sftp server", "0.0.0.0 : 2022"));
    expected.push_str(&format!("{:>20}: {}\n", "sftp read-only", "false"));
    expected.push_str(&format!("{:>20}: {}\n", "sftp key algorithm", "ssh-ed25519"));
    expected.push_str(&format!("{:>20}: {}\n", "sftp password auth", "true"));
    expected.push('\n');
    expected.push_str(&format!("{:>20}: {}\n", "root directory", "/var/lib/pterodactyl"));
    expected.push_str(&format!("{:>20}: {}\n", "logs directory", "/var/log/pterodactyl"));
    expected.push_str(&format!("{:>20}: {}\n", "data directory", "/var/lib/pterodactyl/volumes"));
    expected.push_str(&format!("{:>20}: {}\n", "archive directory", "/var/lib/pterodactyl/archives"));
    expected.push_str(&format!("{:>20}: {}\n", "backup directory", "/var/lib/pterodactyl/backups"));
    expected.push('\n');
    expected.push_str(&format!("{:>20}: {}\n", "username", "pterodactyl"));
    expected.push_str(&format!("{:>20}: {}\n", "server time", "2024-01-01 00:00:00"));
    expected.push_str(&format!("{:>20}: {}\n", "timezone", "+00:00"));
    expected.push_str(&format!("{:>20}: {}\n", "debug mode", "false"));
    expected.push_str("\n|\n| latest cyrogopus logs\n| ------------------------------\n");
    expected.push_str("INFO booted\n");
    assert_eq!(report, expected);
}

#[test]
fn redaction_hides_endpoints() {
    let report = "panel: https://panel.example.com\nweb: 10.0.0.5 : 8080\nsftp: 10.0.0.6 : 2022\ncert: /etc/cert.pem\n";
    let out = redact_report(report, "https://panel.example.com", "10.0.0.5", "10.0.0.6", "/etc/cert.pem", "");
    assert_eq!(
        out,
        "panel: https://{redacted}\nweb: {redacted} : 8080\nsftp: {redacted} : 2022\ncert: {redacted}\n"
    );
}

#[test]
fn redaction_skips_empty_certificate_paths() {
    let out = redact_report("ab", "x", "y", "z", "", "");
    assert_eq!(out, "ab");
}

#[test]
fn plain_lines_pass_through_stripping() {
    assert_eq!(strip_ansi_escapes("no escapes here\n"), "no escapes here\n");
}
