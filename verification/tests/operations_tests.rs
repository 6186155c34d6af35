use simple_ssh_tui::actions::TransferDirection;
use simple_ssh_tui::app::{RsyncStatus, SshEstablishControlMaster, StatusMsgLevel};
use simple_ssh_tui::events::{key_to_action, KeyCode, KeyEvent};
use simple_ssh_tui::actions::Action;
use simple_ssh_tui::ssh_config::SshHost;
use simple_ssh_tui::ssh_operations::{
    background_ssh_args, check_control_master_args, contains_paasswd_promt, control_path,
    interactive_ssh_args, ls_over_ssh_args, pty_output_events, pty_text_events, remote_folders,
    remote_folders_from_output, remote_listing_status, rsync_args, rsync_outcome,
    rsync_progress, rsync_rsh, ssh_base_args,
};

fn host(name: &str) -> SshHost {
    SshHost { host: name.to_string(), host_name: None, port: None, user: None, proxy_jump: None }
}

#[test]
fn control_path_replaces_colons() {
    assert_eq!(control_path(&host("srv:2222")), "/tmp/simple-ssh-tui-rs-srv-2222");
    assert_eq!(control_path(&host("web")), "/tmp/simple-ssh-tui-rs-web");
}

#[test]
fn base_args_list() {
    let args = ssh_base_args(&host("web"));
    assert_eq!(args.len(), 20);
    assert_eq!(args[0], "-o");
    assert_eq!(args[1], "ControlMaster=auto");
    assert_eq!(args[3], "ControlPath=/tmp/simple-ssh-tui-rs-web");
    assert_eq!(args[5], "ControlPersist=90m");
    assert_eq!(args[19], "StrictHostKeyChecking=accept-new");
}

#[test]
fn command_lines() {
    let h = host("web");
    let i = interactive_ssh_args(&h);
    assert_eq!(i.len(), 21);
    assert_eq!(i[20], "web");
    let b = background_ssh_args(&h);
    assert_eq!(&b[20..], &["-o", "ExitOnForwardFailure=yes", "-MN", "web"]);
    let c = check_control_master_args(&h);
    assert_eq!(c, vec!["-o", "ControlPath=/tmp/simple-ssh-tui-rs-web", "-O", "check", "web"]);
    let l = ls_over_ssh_args(&h, "/var/lo");
    assert_eq!(&l[20..], &["web", "ls -p /var/"]);
    let rsh = rsync_rsh(&h);
    assert!(rsh.starts_with("ssh -o ControlMaster=auto -o ControlPath=/tmp/simple-ssh-tui-rs-web "));
    assert!(rsh.ends_with("-o StrictHostKeyChecking=accept-new"));
}

#[test]
fn rsync_args_by_direction() {
    let h = host("web");
    let up = rsync_args(&h, &"/home/a".to_string(), &"/srv".to_string(), TransferDirection::Upload);
    assert_eq!(
        up,
        vec!["-avz", "--no-perms", "--no-owner", "--no-group", "--info=progress2", "/home/a", "web:/srv"]
    );
    let down = rsync_args(&h, &"/home/a".to_string(), &"/srv".to_string(), TransferDirection::Download);
    assert_eq!(&down[5..], &["web:/srv", "/home/a"]);
}

#[test]
fn progress_lines() {
    assert_eq!(
        rsync_progress("   1,234,567  45%   10.00MB/s    0:00:01  "),
        Some("1,234,567 45% 10.00MB/s 0:00:01".to_string())
    );
    assert_eq!(rsync_progress("sending incremental file list"), None);
    assert_eq!(rsync_progress("%"), Some("%".to_string()));
}

#[test]
fn outcomes() {
    assert_eq!(rsync_outcome(true, 12), RsyncStatus::Completed(12));
    assert_eq!(rsync_outcome(false, 3), RsyncStatus::Failed("Rsync failed with an error".to_string(), 3));
}

#[test]
fn remote_listing() {
    assert_eq!(remote_folders("bin/\nfile.txt\nlib/\r\n\n"), vec!["bin/", "lib/"]);
    assert_eq!(remote_folders_from_output(b"a/\nb\n"), vec!["a/"]);
    assert_eq!(remote_folders_from_output(b"\xffx/\n"), vec!["\u{fffd}x/"]);
    let m = remote_listing_status(true, 42);
    assert_eq!(m.level, StatusMsgLevel::Info);
    assert_eq!(m.msg, "getting remote folders took: 42ms");
    let m = remote_listing_status(false, 9);
    assert_eq!(m.level, StatusMsgLevel::Error);
    assert_eq!(m.msg, "getting remote folders failed after: 9ms");
}

#[test]
fn password_prompts() {
    assert!(contains_paasswd_promt(&"user@host's password: ".to_string()));
    assert!(contains_paasswd_promt(&"Password:".to_string()));
    assert!(!contains_paasswd_promt(&"PASSWORD".to_string()));
    let e = pty_text_events("Enter passphrase".to_string());
    assert_eq!(e.len(), 2);
    assert!(matches!(e[0], SshEstablishControlMaster::UserInputReqired));
    assert!(matches!(&e[1], SshEstablishControlMaster::PasswordPromt(t) if t == "Enter passphrase"));
    let e = pty_output_events(b"Welcome");
    assert_eq!(e.len(), 1);
    assert!(matches!(&e[0], SshEstablishControlMaster::PasswordPromt(t) if t == "Welcome"));
}

#[test]
fn keys_map_to_actions() {
    let ctrl = |c| KeyEvent { code: KeyCode::Char(c), control: true };
    assert_eq!(key_to_action(ctrl('c')), Some(Action::Quit));
    assert_eq!(key_to_action(ctrl('r')), Some(Action::ToggleAppMode));
    assert_eq!(key_to_action(ctrl('d')), Some(Action::Download));
    assert_eq!(key_to_action(ctrl('s')), Some(Action::DownloadSync));
    assert_eq!(key_to_action(ctrl('u')), Some(Action::Upload));
    assert_eq!(key_to_action(ctrl('z')), Some(Action::UploadSync));
    assert_eq!(key_to_action(ctrl('x')), Some(Action::Input('x')));
    assert_eq!(key_to_action(KeyEvent { code: KeyCode::Char('c'), control: false }), Some(Action::Input('c')));
    assert_eq!(key_to_action(KeyEvent { code: KeyCode::Up, control: false }), Some(Action::MoveUp));
    assert_eq!(key_to_action(KeyEvent { code: KeyCode::Tab, control: true }), Some(Action::Tab));
    assert_eq!(key_to_action(KeyEvent { code: KeyCode::Other, control: false }), None);
}
