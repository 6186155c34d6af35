use simple_ssh_tui::app::{
    init_app, login_send_failed_message, rsync_prepare_failed_message, rsync_status_message,
    AppMode, PathSuggestions, RsyncStatus, SshEstablishControlMaster, StatusMsg, StatusMsgLevel,
};
use simple_ssh_tui::ssh_config::SshHost;

fn host(name: &str, host_name: Option<&str>) -> SshHost {
    SshHost {
        host: name.to_string(),
        host_name: host_name.map(|s| s.to_string()),
        port: None,
        user: None,
        proxy_jump: None,
    }
}

#[test]
fn init_app_starting_state() {
    let app = init_app(vec![host("a", None), host("b", None)], "/home/jü".to_string());
    assert_eq!(app.app_mode, AppMode::SelectHost);
    assert_eq!(app.selected_index, Some(0));
    assert_eq!(app.selected_ssh_host.host, "a");
    assert_eq!(app.rsync_local_path, "/home/jü");
    assert_eq!(app.rsync_local_path_cursor_pos, 9);
    assert_eq!(app.rsync_remote_path, "/");
    assert_eq!(app.rsync_remote_path_cursor_pos, 1);
    assert_eq!(app.status_msg.level, StatusMsgLevel::Info);
    assert_eq!(app.status_msg.msg, "");
    assert!(app.commands.is_empty());
}

#[test]
fn search_filters_by_alias_or_host_name() {
    let mut app = init_app(
        vec![host("web", Some("10.0.0.1")), host("db", Some("web-db.example")), host("mail", None)],
        "/".to_string(),
    );
    assert_eq!(app.get_filtered_ssh_hosts().len(), 3);
    app.search_query = "web".to_string();
    let shown: Vec<String> = app.get_filtered_ssh_hosts().iter().map(|h| h.host.clone()).collect();
    assert_eq!(shown, vec!["web", "db"]);
    app.search_query = "zzz".to_string();
    assert!(app.get_filtered_ssh_hosts().is_empty());
}

#[test]
fn rsync_status_messages() {
    let m = rsync_status_message(RsyncStatus::Completed(1234));
    assert_eq!(m.level, StatusMsgLevel::Info);
    assert_eq!(m.msg, "rsync finished in 1234ms");
    let m = rsync_status_message(RsyncStatus::Failed("boom".to_string(), 0));
    assert_eq!(m.level, StatusMsgLevel::Error);
    assert_eq!(m.msg, "rsync failed after 0ms with error: boom");
    let m = rsync_status_message(RsyncStatus::Progress("50% done".to_string()));
    assert_eq!(m.level, StatusMsgLevel::Info);
    assert_eq!(m.msg, "50% done");
    let m = rsync_status_message(RsyncStatus::Completed(u128::MAX));
    assert_eq!(m.msg, format!("rsync finished in {}ms", u128::MAX));
}

#[test]
fn other_status_messages() {
    let m = login_send_failed_message("closed");
    assert_eq!(m.level, StatusMsgLevel::Error);
    assert_eq!(m.msg, "error while sending user input to portable_pty: closed");
    let m = rsync_prepare_failed_message("denied");
    assert_eq!(m.level, StatusMsgLevel::Warn);
    assert_eq!(m.msg, "failed to prepare bundeled rsync binary -> use host rsync error: denied");
}

#[test]
fn apply_channel_messages() {
    let mut app = init_app(vec![host("a", None)], "/x".to_string());
    app.apply_rsync_status(RsyncStatus::Completed(7));
    assert_eq!(app.status_msg.msg, "rsync finished in 7ms");
    app.apply_ssh_event(SshEstablishControlMaster::UserInputReqired);
    assert_eq!(app.app_mode, AppMode::SshPasswordPromt);
    app.apply_ssh_event(SshEstablishControlMaster::PasswordPromt("password: ".to_string()));
    app.apply_ssh_event(SshEstablishControlMaster::PasswordPromt("again".to_string()));
    assert_eq!(app.ssh_login_output, "password: again");
    app.apply_ssh_event(SshEstablishControlMaster::Succsess);
    assert_eq!(app.app_mode, AppMode::Rsync);
    app.apply_ssh_event(SshEstablishControlMaster::Failure);
    assert_eq!(app.app_mode, AppMode::SelectHost);
    app.apply_status_msg(StatusMsg { level: StatusMsgLevel::Warn, msg: "w".to_string() });
    assert_eq!(app.status_msg.level, StatusMsgLevel::Warn);
    app.rsync_remote_path = "/srv/ap".to_string();
    app.apply_remote_suggestions(PathSuggestions { folders: vec!["app".to_string()], files: vec![] });
    assert_eq!(app.rsync_remote_path, "/srv/app/");
}

#[test]
fn control_master_failure_returns_to_host_list() {
    let mut app = init_app(vec![host("a", None)], "/x".to_string());
    app.app_mode = AppMode::SshPasswordPromt;
    let m = app.control_master_checked(false).expect("a status message");
    assert_eq!(m.level, StatusMsgLevel::Error);
    assert_eq!(m.msg, "failed to establisch control master");
    assert_eq!(app.app_mode, AppMode::SelectHost);
}

#[test]
fn longer_query_shows_fewer_hosts() {
    let mut app = init_app(
        vec![host("web1", None), host("web2", Some("w.example")), host("mail", Some("web.mail"))],
        "/".to_string(),
    );
    app.search_query = "we".to_string();
    let short: Vec<String> = app.get_filtered_ssh_hosts().iter().map(|h| h.host.clone()).collect();
    app.search_query = "web1".to_string();
    let long: Vec<String> = app.get_filtered_ssh_hosts().iter().map(|h| h.host.clone()).collect();
    assert_eq!(short, vec!["web1", "web2", "mail"]);
    assert_eq!(long, vec!["web1"]);
}
