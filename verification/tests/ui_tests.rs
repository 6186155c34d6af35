use simple_ssh_tui::app::{RsyncActiveInput, StatusMsgLevel};
use simple_ssh_tui::ui::{
    active_cursor_pos, active_row, active_suggestions, cursor_column, cursor_column_in_range,
    shows_search_line, status_color, StatusColor,
};
use simple_ssh_tui::app::init_app;
use simple_ssh_tui::ssh_config::SshHost;
use simple_ssh_tui::ui::{
    host_detail_lines, host_list_entries, host_list_entry, labelled_line, search_line,
    suggestion_segments, SegmentKind,
};

#[test]
fn detail_lines_skip_unset_fields() {
    let h = SshHost {
        host: "web".to_string(),
        host_name: Some("10.0.0.1".to_string()),
        port: None,
        user: Some("root".to_string()),
        proxy_jump: Some("bastion".to_string()),
    };
    assert_eq!(
        host_detail_lines(&h),
        vec!["Alias:     web", "Host:      10.0.0.1", "User:      root", "ProxyJump: bastion"]
    );
}

#[test]
fn list_entry_pieces() {
    let h = SshHost { host: "db".to_string(), host_name: None, port: Some("22".to_string()), user: None, proxy_jump: None };
    assert_eq!(host_list_entry(&h), vec!["db", " (", "", "@", "", ":", "22", ")"]);
    let app = init_app(vec![h], "/".to_string());
    assert_eq!(host_list_entries(&app).len(), 1);
}

#[test]
fn suggestion_pieces() {
    let segs = suggestion_segments(&vec!["bin".to_string()], &vec!["a.txt".to_string(), "b".to_string()]);
    let texts: Vec<&str> = segs.iter().map(|s| s.text.as_str()).collect();
    assert_eq!(texts, vec![" bin", "/", " a.txt", " b"]);
    assert_eq!(segs[0].kind, SegmentKind::Folder);
    assert_eq!(segs[1].kind, SegmentKind::Separator);
    assert_eq!(segs[3].kind, SegmentKind::File);
}

#[test]
fn lines_of_the_screen() {
    assert_eq!(search_line(&"we".to_string()), "search: we ");
    assert_eq!(labelled_line("Local Path:  ", &"/tmp".to_string()), "Local Path:  /tmp ");
}

#[test]
fn draw_time_choices() {
    assert_eq!(status_color(StatusMsgLevel::Info), StatusColor::Green);
    assert_eq!(status_color(StatusMsgLevel::Warn), StatusColor::Yellow);
    assert_eq!(status_color(StatusMsgLevel::Error), StatusColor::Red);
    let h = SshHost { host: "a".to_string(), host_name: None, port: None, user: None, proxy_jump: None };
    let mut app = init_app(vec![h], "/home".to_string());
    assert!(!shows_search_line(&app));
    app.search_query = "x".to_string();
    assert!(shows_search_line(&app));
    assert_eq!(active_row(&app), 1);
    assert_eq!(active_cursor_pos(&app), 5);
    app.local_suggestions.folders = vec!["l".to_string()];
    app.remote_suggestions.files = vec!["r".to_string()];
    assert_eq!(active_suggestions(&app).0, &vec!["l".to_string()]);
    app.rsync_active_input = RsyncActiveInput::Remote;
    assert_eq!(active_row(&app), 2);
    assert_eq!(active_cursor_pos(&app), 1);
    assert_eq!(active_suggestions(&app).1, &vec!["r".to_string()]);
    assert_eq!(cursor_column(2, 5), 20);
    assert!(cursor_column_in_range(0, 100));
    assert!(!cursor_column_in_range(65530, 3));
}
