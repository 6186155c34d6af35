use simple_ssh_tui::ssh_config::{parse_ssh_config, ssh_config_is_well_formed, SshHost};

fn names(hosts: &[SshHost]) -> Vec<String> {
    hosts.iter().map(|h| h.host.clone()).collect()
}

#[test]
fn parse_finishes_entries_at_next_host_line() {
    let config = "Host alpha\n  HostName alpha.example.com\n  User root\n  Port 2222\n\nHost beta\n  HostName beta.example.com\nHost gamma\n";
    let hosts = parse_ssh_config(config);
    assert_eq!(names(&hosts), vec!["alpha", "beta"]);
    assert_eq!(hosts[0].host_name.as_deref(), Some("alpha.example.com"));
    assert_eq!(hosts[0].user.as_deref(), Some("root"));
    assert_eq!(hosts[0].port.as_deref(), Some("2222"));
    assert_eq!(hosts[0].proxy_jump, None);
    assert_eq!(hosts[1].host_name.as_deref(), Some("beta.example.com"));
}

#[test]
fn parse_drops_last_open_entry() {
    let hosts = parse_ssh_config("Host only\n  HostName only.example.com\n");
    assert!(hosts.is_empty());
}

#[test]
fn parse_fields_carry_over_to_next_entry() {
    let hosts = parse_ssh_config("Host a\nUser alice\nHost b\nHostName b.example\nHost c\n");
    assert_eq!(names(&hosts), vec!["a", "b"]);
    assert_eq!(hosts[1].user.as_deref(), Some("alice"));
    assert_eq!(hosts[1].host_name.as_deref(), Some("b.example"));
}

#[test]
fn parse_skips_wildcard_and_comments() {
    let config = "# global\nHost *\n  ServerAliveInterval 60\nHost web\n\t# note\n  ProxyJump bastion\nHost db\n";
    let hosts = parse_ssh_config(config);
    assert_eq!(names(&hosts), vec!["web"]);
    assert_eq!(hosts[0].proxy_jump.as_deref(), Some("bastion"));
}

#[test]
fn parse_keywords_ignore_ascii_case_and_crlf() {
    let config = "HOST one\r\nhostNAME one.example\r\nPORT 22\r\nHost two\r\n";
    let hosts = parse_ssh_config(config);
    assert_eq!(names(&hosts), vec!["one"]);
    assert_eq!(hosts[0].host_name.as_deref(), Some("one.example"));
    assert_eq!(hosts[0].port.as_deref(), Some("22"));
}

#[test]
fn parse_same_host_twice_merges() {
    let hosts = parse_ssh_config("Host a\nUser x\nHost a\nPort 1\nHost b\n");
    assert_eq!(names(&hosts), vec!["a"]);
    assert_eq!(hosts[0].user.as_deref(), Some("x"));
    assert_eq!(hosts[0].port.as_deref(), Some("1"));
}

#[test]
fn parse_only_first_value_word() {
    let hosts = parse_ssh_config("Host a b\nUser  joe   extra\nHost c\n");
    assert_eq!(names(&hosts), vec!["a"]);
    assert_eq!(hosts[0].user.as_deref(), Some("joe"));
}

#[test]
fn parse_blank_and_comment_lines_change_nothing() {
    let base = "Host a\nUser u\nHost b\n";
    let with_extra = "Host a\nUser u\nHost b\n   \n# trailing comment\n";
    assert_eq!(names(&parse_ssh_config(base)), names(&parse_ssh_config(with_extra)));
}

#[test]
fn parse_empty_config() {
    assert!(parse_ssh_config("").is_empty());
}

#[test]
fn well_formedness_needs_values() {
    assert!(ssh_config_is_well_formed("Host a\n# c\n\nUser b\n"));
    assert!(!ssh_config_is_well_formed("Host a\nUser\n"));
    assert!(!ssh_config_is_well_formed("Compression\n"));
    assert!(ssh_config_is_well_formed(""));
}

#[test]
fn copy_keeps_fields() {
    let h = SshHost {
        host: "x".to_string(),
        host_name: Some("y".to_string()),
        port: None,
        user: Some("u".to_string()),
        proxy_jump: None,
    };
    let c = h.copy();
    assert_eq!(c.host, "x");
    assert_eq!(c.host_name.as_deref(), Some("y"));
    assert_eq!(c.user.as_deref(), Some("u"));
    let w = SshHost::wildcard();
    assert_eq!(w.host, "*");
    assert!(w.host_name.is_none());
}

#[test]
fn parse_ignores_unknown_keywords_and_indentation_anywhere() {
    let a = "Host a\nUser u\nHost b\nPort 2\nHost c\n";
    let b = "  # top\nCompression yes\nhost a\n\t\tUSER u\nForwardAgent no\n\nHOST b\n   port 2\nHost c\n";
    let pa = parse_ssh_config(a);
    let pb = parse_ssh_config(b);
    assert_eq!(names(&pa), names(&pb));
    assert_eq!(pa[0].user, pb[0].user);
    assert_eq!(pa[1].port, pb[1].port);
}

#[test]
fn non_ascii_case_changes() {
    // A case change of a line that is passed over changes nothing.
    let a = parse_ssh_config("Host a\nÜberOption x\nHost b\n");
    let b = parse_ssh_config("Host a\nüberoption x\nHost b\n");
    assert_eq!(names(&a), names(&b));
    // `ſ` (long s) is already lower case, so `hoſt` is no keyword, while its
    // upper-case form `HOST` is one.
    assert!(parse_ssh_config("hoſt a\nhoſt b\n").is_empty());
    assert_eq!(names(&parse_ssh_config("HOST a\nHOST b\n")), vec!["a"]);
}
