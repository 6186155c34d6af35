use simple_ssh_tui::actions::{handle_backspace, handle_input, handle_move_down, handle_move_up};
use simple_ssh_tui::actions::{
    complete_local_path, handle_action, process_local_suggestions, process_remote_suggestions,
    sort_matches, split_path, Action, Effect, LocalEntry, TransferDirection,
};
use simple_ssh_tui::app::{init_app, App, AppCommand, AppMode, RsyncActiveInput};
use simple_ssh_tui::ssh_config::SshHost;

fn host(name: &str) -> SshHost {
    SshHost {
        host: name.to_string(),
        host_name: Some(format!("{}.example", name)),
        port: None,
        user: None,
        proxy_jump: None,
    }
}

fn app3() -> App {
    init_app(vec![host("a"), host("b"), host("c")], "/home/me".to_string())
}

fn s(v: &[&str]) -> Vec<String> {
    v.iter().map(|x| x.to_string()).collect()
}

#[test]
fn split_path_cases() {
    assert_eq!(split_path("/usr/lo"), ("/usr/".to_string(), "lo".to_string()));
    assert_eq!(split_path("/"), ("/".to_string(), "".to_string()));
    assert_eq!(split_path("docs"), ("./".to_string(), "docs".to_string()));
    assert_eq!(split_path(""), ("./".to_string(), "".to_string()));
    assert_eq!(split_path("a/b/"), ("a/b/".to_string(), "".to_string()));
    assert_eq!(split_path("ü/ß"), ("ü/".to_string(), "ß".to_string()));
}

#[test]
fn move_down_wraps_and_selects() {
    let mut app = app3();
    assert_eq!(app.selected_index, Some(0));
    handle_action(&mut app, Action::MoveDown);
    assert_eq!(app.selected_index, Some(1));
    assert_eq!(app.selected_ssh_host.host, "b");
    handle_action(&mut app, Action::MoveDown);
    handle_action(&mut app, Action::MoveDown);
    assert_eq!(app.selected_index, Some(0));
    assert_eq!(app.selected_ssh_host.host, "a");
}

#[test]
fn move_up_wraps_to_last() {
    let mut app = app3();
    handle_action(&mut app, Action::MoveUp);
    assert_eq!(app.selected_index, Some(2));
    assert_eq!(app.selected_ssh_host.host, "c");
    handle_action(&mut app, Action::MoveDown);
    assert_eq!(app.selected_index, Some(0));
}

#[test]
fn quit_and_enter_queue_commands() {
    let mut app = app3();
    handle_action(&mut app, Action::Quit);
    handle_action(&mut app, Action::Enter);
    assert_eq!(app.pop_command(), Some(AppCommand::Quit));
    assert_eq!(app.pop_command(), Some(AppCommand::StartSsh));
    assert_eq!(app.pop_command(), None);
}

#[test]
fn toggle_starts_background_ssh() {
    let mut app = app3();
    handle_action(&mut app, Action::MoveDown);
    match handle_action(&mut app, Action::ToggleAppMode) {
        Effect::StartBackgroundSsh(h) => assert_eq!(h.host, "b"),
        other => panic!("unexpected {:?}", other),
    }
    assert_eq!(app.app_mode, AppMode::Rsync);
    assert!(matches!(handle_action(&mut app, Action::ToggleAppMode), Effect::Nothing));
    assert_eq!(app.app_mode, AppMode::SelectHost);
}

#[test]
fn typing_and_backspace_in_rsync_mode() {
    let mut app = app3();
    handle_action(&mut app, Action::ToggleAppMode);
    handle_action(&mut app, Action::Input('/'));
    handle_action(&mut app, Action::Input('x'));
    assert_eq!(app.rsync_local_path, "/home/me/x");
    handle_action(&mut app, Action::Backspace);
    assert_eq!(app.rsync_local_path, "/home/me/");
    handle_action(&mut app, Action::MoveDown);
    assert_eq!(app.rsync_active_input, RsyncActiveInput::Remote);
    handle_action(&mut app, Action::Input('t'));
    assert_eq!(app.rsync_remote_path, "/t");
    handle_action(&mut app, Action::Backspace);
    handle_action(&mut app, Action::Backspace);
    handle_action(&mut app, Action::Backspace);
    assert_eq!(app.rsync_remote_path, "");
    handle_action(&mut app, Action::MoveUp);
    assert_eq!(app.rsync_active_input, RsyncActiveInput::Local);
}

#[test]
fn typing_on_host_list_does_nothing() {
    let mut app = app3();
    handle_action(&mut app, Action::Input('q'));
    handle_action(&mut app, Action::Backspace);
    assert_eq!(app.rsync_local_path, "/home/me");
    assert_eq!(app.search_query, "");
}

#[test]
fn password_prompt_input_and_enter() {
    let mut app = app3();
    app.app_mode = AppMode::SshPasswordPromt;
    handle_action(&mut app, Action::Input('p'));
    handle_action(&mut app, Action::Input('w'));
    match handle_action(&mut app, Action::Enter) {
        Effect::SendLoginInput(t) => assert_eq!(t, "pw\n"),
        other => panic!("unexpected {:?}", other),
    }
    let h = app.login_input_sent();
    assert_eq!(h.host, "a");
    assert_eq!(app.ssh_login_input, "");
    assert!(app.control_master_checked(true).is_none());
    assert_eq!(app.app_mode, AppMode::Rsync);
}

#[test]
fn enter_in_rsync_mode_uploads() {
    let mut app = app3();
    handle_action(&mut app, Action::ToggleAppMode);
    match handle_action(&mut app, Action::Enter) {
        Effect::RunRsync { host, local_path, remote_path, direction } => {
            assert_eq!(host.host, "a");
            assert_eq!(local_path, "/home/me");
            assert_eq!(remote_path, "/");
            assert_eq!(direction, TransferDirection::Upload);
        },
        other => panic!("unexpected {:?}", other),
    }
    match handle_action(&mut app, Action::RsyncRemoteToLocal) {
        Effect::RunRsync { direction, .. } => assert_eq!(direction, TransferDirection::Download),
        other => panic!("unexpected {:?}", other),
    }
    assert!(matches!(handle_action(&mut app, Action::MoveLeft), Effect::Nothing));
}

#[test]
fn tab_asks_for_listings() {
    let mut app = app3();
    assert!(matches!(handle_action(&mut app, Action::Tab), Effect::Nothing));
    handle_action(&mut app, Action::ToggleAppMode);
    match handle_action(&mut app, Action::Tab) {
        Effect::ListLocalDir { parent_dir, prefix } => {
            assert_eq!(parent_dir, "/home/");
            assert_eq!(prefix, "me");
        },
        other => panic!("unexpected {:?}", other),
    }
    handle_action(&mut app, Action::MoveDown);
    match handle_action(&mut app, Action::Tab) {
        Effect::ListRemoteDir { host, path } => {
            assert_eq!(host.host, "a");
            assert_eq!(path, "/");
        },
        other => panic!("unexpected {:?}", other),
    }
}

#[test]
fn single_folder_completes_path() {
    let mut app = app3();
    app.rsync_local_path = "/home/do".to_string();
    process_local_suggestions(s(&["docs"]), vec![], &mut app);
    assert_eq!(app.rsync_local_path, "/home/docs/");
    assert!(app.local_suggestions.folders.is_empty());
    assert!(app.local_suggestions.files.is_empty());
}

#[test]
fn single_file_completes_path() {
    let mut app = app3();
    app.rsync_remote_path = "/etc/hos".to_string();
    process_remote_suggestions(vec![], s(&["hosts"]), &mut app);
    assert_eq!(app.rsync_remote_path, "/etc/hosts");
}

#[test]
fn several_matches_become_suggestions() {
    let mut app = app3();
    process_local_suggestions(s(&["a", "b"]), s(&["c"]), &mut app);
    assert_eq!(app.rsync_local_path, "/home/me");
    assert_eq!(app.local_suggestions.folders, s(&["a", "b"]));
    assert_eq!(app.local_suggestions.files, s(&["c"]));
}

#[test]
fn completion_ignores_case() {
    let mut app = app3();
    app.rsync_local_path = "/tmp/rea".to_string();
    let entries = vec![
        LocalEntry { name: "README.md".to_string(), is_dir: false },
        LocalEntry { name: "src".to_string(), is_dir: true },
    ];
    complete_local_path(&mut app, "rea", entries);
    assert_eq!(app.rsync_local_path, "/tmp/README.md");
}

#[test]
fn completion_sorts_folders_and_files() {
    let entries = vec![
        LocalEntry { name: "Data".to_string(), is_dir: true },
        LocalEntry { name: "dump.sql".to_string(), is_dir: false },
        LocalEntry { name: "docs".to_string(), is_dir: true },
        LocalEntry { name: "x".to_string(), is_dir: false },
    ];
    let lowered = s(&["data", "dump.sql", "docs", "x"]);
    let (folders, files) = sort_matches(&entries, &lowered, "d");
    assert_eq!(folders, s(&["Data", "docs"]));
    assert_eq!(files, s(&["dump.sql"]));
}

#[test]
fn handlers_undo_each_other() {
    let mut app = app3();
    handle_move_down(&mut app);
    handle_move_up(&mut app);
    assert_eq!(app.selected_index, Some(0));
    assert_eq!(app.selected_ssh_host.host, "a");
    handle_move_up(&mut app);
    handle_move_down(&mut app);
    assert_eq!(app.selected_index, Some(0));
    app.app_mode = AppMode::SshPasswordPromt;
    handle_input(&mut app, 'z');
    handle_backspace(&mut app);
    assert_eq!(app.ssh_login_input, "");
    handle_backspace(&mut app);
    assert_eq!(app.ssh_login_input, "");
}

#[test]
fn moves_from_no_selection_select_first_host() {
    let mut app = app3();
    app.selected_index = None;
    handle_move_up(&mut app);
    assert_eq!(app.selected_index, Some(0));
    assert_eq!(app.selected_ssh_host.host, "a");
    app.selected_index = None;
    handle_action(&mut app, Action::MoveDown);
    assert_eq!(app.selected_index, Some(0));
}

#[test]
fn remote_to_local_copies_remote_to_local() {
    let app = app3();
    match simple_ssh_tui::actions::handle_rsync_remote_to_local(&app) {
        Effect::RunRsync { host, local_path, remote_path, direction } => {
            assert_eq!(host.host, "a");
            assert_eq!(local_path, "/home/me");
            assert_eq!(remote_path, "/");
            assert_eq!(direction, TransferDirection::Download);
        },
        other => panic!("unexpected {:?}", other),
    }
}
