//! What each user action does to the application state, and which outside
//! work it asks for.
use vstd::prelude::*;

use crate::app::{App, AppCommand, AppMode, AppView, RsyncActiveInput, view_wf};
use crate::ssh_config::{SshHost, SshHostView};
use crate::text::{chars_of, ends_with_char, push_all, string_from_range, starts_with};

verus! {

/// A user action.
#[derive(Debug, Clone, Copy, PartialEq, Eq, Structural)]
pub enum Action {
    Quit,
    ToggleAppMode,
    MoveUp,
    MoveDown,
    MoveLeft,
    MoveRight,
    Tab,
    Enter,
    Backspace,
    Input(char),
    RsyncRemoteToLocal,
    Download,
    DownloadSync,
    Upload,
    UploadSync,
}

/// Which way a transfer copies: `Upload` from the local path to the remote
/// one, `Download` from the remote path to the local one.
#[derive(Debug, Clone, Copy, PartialEq, Eq, Structural)]
pub enum TransferDirection {
    Download,
    Upload,
}

/// Outside work that an action asks for.
#[derive(Debug)]
pub enum Effect {
    /// Nothing to do.
    Nothing,
    /// Open the background connection to the host.
    StartBackgroundSsh(SshHost),
    /// Run a transfer between the two paths.
    RunRsync {
        host: SshHost,
        local_path: String,
        remote_path: String,
        direction: TransferDirection,
    },
    /// Send this text to the background connection.
    SendLoginInput(String),
    /// List the local directory `parent_dir` and complete the names that
    /// start with `prefix`.
    ListLocalDir { parent_dir: String, prefix: String },
    /// List the folders of the remote directory of `path` on the host.
    ListRemoteDir { host: SshHost, path: String },
}

/// The model of an [`Effect`].
pub enum EffectView {
    Nothing,
    StartBackgroundSsh(SshHostView),
    RunRsync {
        host: SshHostView,
        local_path: Seq<char>,
        remote_path: Seq<char>,
        direction: TransferDirection,
    },
    SendLoginInput(Seq<char>),
    ListLocalDir { parent_dir: Seq<char>, prefix: Seq<char> },
    ListRemoteDir { host: SshHostView, path: Seq<char> },
}

impl View for Effect {
    type V = EffectView;

    open spec fn view(&self) -> EffectView {
        match self {
            Effect::Nothing => EffectView::Nothing,
            Effect::StartBackgroundSsh(h) => EffectView::StartBackgroundSsh(h@),
            Effect::RunRsync { host, local_path, remote_path, direction } => EffectView::RunRsync {
                host: host@,
                local_path: local_path@,
                remote_path: remote_path@,
                direction: *direction,
            },
            Effect::SendLoginInput(s) => EffectView::SendLoginInput(s@),
            Effect::ListLocalDir { parent_dir, prefix } => EffectView::ListLocalDir {
                parent_dir: parent_dir@,
                prefix: prefix@,
            },
            Effect::ListRemoteDir { host, path } => EffectView::ListRemoteDir {
                host: host@,
                path: path@,
            },
        }
    }
}

/// The index of the last `c` in `s`, or -1 when `s` holds none.
pub open spec fn last_index_of(s: Seq<char>, c: char) -> int
    decreases s.len(),
{
    if s.len() == 0 {
        -1
    } else if s.last() == c {
        s.len() - 1
    } else {
        last_index_of(s.drop_last(), c)
    }
}

/// A path split after its last `/` into the directory and the name prefix
/// that follows; a path without `/` lies in `./`.
pub open spec fn split_path_spec(input: Seq<char>) -> (Seq<char>, Seq<char>) {
    let i = last_index_of(input, '/');
    if i >= 0 {
        (input.take(i + 1), input.skip(i + 1))
    } else {
        (seq!['.', '/'], input)
    }
}

proof fn lemma_last_index_take(s: Seq<char>, c: char, k: int)
    requires
        0 <= k <= s.len(),
        forall|j: int| k <= j < s.len() ==> #[trigger] s[j] != c,
    ensures
        last_index_of(s, c) == last_index_of(s.take(k), c),
    decreases s.len() - k,
{
    if k < s.len() {
        lemma_last_index_take(s.drop_last(), c, k);
        assert(s.drop_last().take(k) == s.take(k));
    } else {
        assert(s.take(k) == s);
    }
}

/// Splits a path after its last `/` into the directory and the name prefix
/// that follows; a path without `/` lies in `./`.
pub fn split_path(input: &str) -> (r: (String, String))
    ensures
        (r.0@, r.1@) == split_path_spec(input@),
{
    let v = chars_of(input);
    let mut k: usize = v.len();
    while k > 0 && v[k - 1] != '/'
        invariant
            0 <= k <= v.len(),
            v@ == input@,
            forall|j: int| k <= j < v.len() ==> #[trigger] v@[j] != '/',
        decreases k,
    {
        k -= 1;
    }
    proof {
        lemma_last_index_take(v@, '/', k as int);
        if k > 0 {
            assert(v@.take(k as int).last() == '/');
        } else {
            assert(v@.take(0) =~= seq![]);
        }
    }
    if k > 0 {
        let parent = string_from_range(&v, 0, k);
        let prefix = string_from_range(&v, k, v.len());
        assert(v@.subrange(0, k as int) == v@.take(k as int));
        assert(v@.subrange(k as int, v.len() as int) == v@.skip(k as int));
        (parent, prefix)
    } else {
        let mut parent = String::new();
        parent.push('.');
        parent.push('/');
        let prefix = string_from_range(&v, 0, v.len());
        assert(v@.subrange(0, v.len() as int) == v@);
        assert(parent@ =~= seq!['.', '/']);
        (parent, prefix)
    }
}

/// The state after choosing host `i` of the list: the selection moves to
/// `i`, and the selected host becomes that entry when there is one.
pub open spec fn select_view(v: AppView, i: usize) -> AppView {
    AppView {
        selected_index: Some(i),
        selected_ssh_host: if i < v.ssh_hosts.len() {
            v.ssh_hosts[i as int]
        } else {
            v.selected_ssh_host
        },
        ..v
    }
}

/// The host one up from the selection, wrapping from the first to the
/// last.
pub open spec fn move_up_index(v: AppView) -> usize {
    match v.selected_index {
        Some(i) => if i == 0 {
            (v.ssh_hosts.len() - 1) as usize
        } else {
            (i - 1) as usize
        },
        None => 0,
    }
}

/// The host one down from the selection, wrapping from the last to the
/// first.
pub open spec fn move_down_index(v: AppView) -> usize {
    match v.selected_index {
        Some(i) => if i >= v.ssh_hosts.len() - 1 {
            0
        } else {
            (i + 1) as usize
        },
        None => 0,
    }
}

/// The text without its last character, if it has one (as `String::pop`).
pub open spec fn drop_last_char(s: Seq<char>) -> Seq<char> {
    if s.len() > 0 {
        s.drop_last()
    } else {
        s
    }
}

/// The local path completed with one name: the directory part of the
/// current path followed by the name.
pub open spec fn completed_path(path: Seq<char>, name: Seq<char>) -> Seq<char> {
    split_path_spec(path).0 + name
}

/// What one action does: the next state and the outside work it asks for.
/// Enter on the transfer screen copies the local path to the remote one;
/// the remote-to-local action copies the remote path to the local one.
pub open spec fn next(v: AppView, action: Action) -> (AppView, EffectView) {
    match action {
        Action::Quit => (AppView { commands: v.commands.push(AppCommand::Quit), ..v }, EffectView::Nothing),
        Action::ToggleAppMode => match v.app_mode {
            AppMode::SelectHost => (
                AppView { app_mode: AppMode::Rsync, ..v },
                EffectView::StartBackgroundSsh(v.selected_ssh_host),
            ),
            AppMode::Rsync => (AppView { app_mode: AppMode::SelectHost, ..v }, EffectView::Nothing),
            AppMode::SshPasswordPromt => (v, EffectView::Nothing),
        },
        Action::Enter => match v.app_mode {
            AppMode::SelectHost => (
                AppView { commands: v.commands.push(AppCommand::StartSsh), ..v },
                EffectView::Nothing,
            ),
            AppMode::Rsync => (v, rsync_effect(v, TransferDirection::Upload)),
            AppMode::SshPasswordPromt => (
                v,
                EffectView::SendLoginInput(v.ssh_login_input.push('\n')),
            ),
        },
        Action::MoveUp => match v.app_mode {
            AppMode::SelectHost => (select_view(v, move_up_index(v)), EffectView::Nothing),
            AppMode::Rsync => (
                AppView { rsync_active_input: RsyncActiveInput::Local, ..v },
                EffectView::Nothing,
            ),
            AppMode::SshPasswordPromt => (v, EffectView::Nothing),
        },
        Action::MoveDown => match v.app_mode {
            AppMode::SelectHost => (select_view(v, move_down_index(v)), EffectView::Nothing),
            AppMode::Rsync => (
                AppView { rsync_active_input: RsyncActiveInput::Remote, ..v },
                EffectView::Nothing,
            ),
            AppMode::SshPasswordPromt => (v, EffectView::Nothing),
        },
        Action::Input(c) => match v.app_mode {
            AppMode::SelectHost => (v, EffectView::Nothing),
            AppMode::Rsync => match v.rsync_active_input {
                RsyncActiveInput::Local => (
                    AppView { rsync_local_path: v.rsync_local_path.push(c), ..v },
                    EffectView::Nothing,
                ),
                RsyncActiveInput::Remote => (
                    AppView { rsync_remote_path: v.rsync_remote_path.push(c), ..v },
                    EffectView::Nothing,
                ),
            },
            AppMode::SshPasswordPromt => (
                AppView { ssh_login_input: v.ssh_login_input.push(c), ..v },
                EffectView::Nothing,
            ),
        },
        Action::Backspace => match v.app_mode {
            AppMode::SelectHost => (v, EffectView::Nothing),
            AppMode::Rsync => match v.rsync_active_input {
                RsyncActiveInput::Local => (
                    AppView { rsync_local_path: drop_last_char(v.rsync_local_path), ..v },
                    EffectView::Nothing,
                ),
                RsyncActiveInput::Remote => (
                    AppView { rsync_remote_path: drop_last_char(v.rsync_remote_path), ..v },
                    EffectView::Nothing,
                ),
            },
            AppMode::SshPasswordPromt => (
                AppView { ssh_login_input: drop_last_char(v.ssh_login_input), ..v },
                EffectView::Nothing,
            ),
        },
        Action::Tab => match v.app_mode {
            AppMode::Rsync => match v.rsync_active_input {
                RsyncActiveInput::Local => (
                    v,
                    EffectView::ListLocalDir {
                        parent_dir: split_path_spec(v.rsync_local_path).0,
                        prefix: split_path_spec(v.rsync_local_path).1,
                    },
                ),
                RsyncActiveInput::Remote => (
                    v,
                    EffectView::ListRemoteDir {
                        host: v.selected_ssh_host,
                        path: v.rsync_remote_path,
                    },
                ),
            },
            _ => (v, EffectView::Nothing),
        },
        Action::RsyncRemoteToLocal => (v, rsync_effect(v, TransferDirection::Download)),
        Action::Upload => (v, rsync_effect(v, TransferDirection::Upload)),
        Action::Download => (v, rsync_effect(v, TransferDirection::Download)),
        Action::MoveLeft => (v, EffectView::Nothing),
        Action::MoveRight => (v, EffectView::Nothing),
        Action::DownloadSync => (v, EffectView::Nothing),
        Action::UploadSync => (v, EffectView::Nothing),
    }
}

/// A transfer of the selected host's paths in the given direction.
pub open spec fn rsync_effect(v: AppView, direction: TransferDirection) -> EffectView {
    EffectView::RunRsync {
        host: v.selected_ssh_host,
        local_path: v.rsync_local_path,
        remote_path: v.rsync_remote_path,
        direction,
    }
}

/// The remote-to-local transfer: copies the remote path of the selected host
/// to the local path; the state stays as it is.
pub fn handle_rsync_remote_to_local(app: &App) -> (e: Effect)
    ensures
        e@ == rsync_effect(app@, TransferDirection::Download),
        (app@, e@) == next(app@, Action::RsyncRemoteToLocal),
{
    rsync_transfer(app, TransferDirection::Download)
}

fn rsync_transfer(app: &App, direction: TransferDirection) -> (e: Effect)
    ensures
        e@ == rsync_effect(app@, direction),
{
    Effect::RunRsync {
        host: app.selected_ssh_host.copy(),
        local_path: app.rsync_local_path.clone(),
        remote_path: app.rsync_remote_path.clone(),
        direction,
    }
}

fn set_selected_index(app: &mut App, i: usize)
    ensures
        final(app)@ == select_view(old(app)@, i),
{
    app.selected_index = Some(i);
    if i < app.ssh_hosts.len() {
        app.selected_ssh_host = app.ssh_hosts[i].copy();
    }
    assert(final(app)@ =~= select_view(old(app)@, i));
}

/// Switches between the host list and the transfer screen (see [`next`]).
pub fn handle_toggle_app_mode(app: &mut App) -> (e: Effect)
    ensures
        (final(app)@, e@) == next(old(app)@, Action::ToggleAppMode),
{
    match app.app_mode {
        AppMode::SelectHost => {
            app.app_mode = AppMode::Rsync;
            Effect::StartBackgroundSsh(app.selected_ssh_host.copy())
        },
        AppMode::Rsync => {
            app.app_mode = AppMode::SelectHost;
            Effect::Nothing
        },
        AppMode::SshPasswordPromt => Effect::Nothing,
    }
}

/// Enter: start the session, copy the local path to the remote one, or send
/// the typed input, depending on the screen (see [`next`]).
pub fn handle_enter(app: &mut App) -> (e: Effect)
    ensures
        (final(app)@, e@) == next(old(app)@, Action::Enter),
{
    match app.app_mode {
        AppMode::SelectHost => {
            app.commands.push_back(AppCommand::StartSsh);
            Effect::Nothing
        },
        AppMode::Rsync => rsync_transfer(app, TransferDirection::Upload),
        AppMode::SshPasswordPromt => {
            let mut text = app.ssh_login_input.clone();
            text.push('\n');
            Effect::SendLoginInput(text)
        },
    }
}

/// Moves the host selection up, or makes the local path input active (see
/// [`next`]).
pub fn handle_move_up(app: &mut App)
    requires
        old(app).can_move(),
    ensures
        (final(app)@, EffectView::Nothing) == next(old(app)@, Action::MoveUp),
        old(app).wf() ==> final(app).wf(),
{
    proof {
        if old(app).wf() {
            lemma_next_keeps_wf(old(app)@, Action::MoveUp);
        }
    }
    match app.app_mode {
        AppMode::SelectHost => {
            let i = match app.selected_index {
                Some(i) => if i == 0 {
                    app.ssh_hosts.len() - 1
                } else {
                    i - 1
                },
                None => 0,
            };
            set_selected_index(app, i);
        },
        AppMode::Rsync => {
            app.rsync_active_input = RsyncActiveInput::Local;
        },
        AppMode::SshPasswordPromt => {},
    }
}

/// Moves the host selection down, or makes the remote path input active (see
/// [`next`]).
pub fn handle_move_down(app: &mut App)
    requires
        old(app).can_move(),
    ensures
        (final(app)@, EffectView::Nothing) == next(old(app)@, Action::MoveDown),
        old(app).wf() ==> final(app).wf(),
{
    proof {
        if old(app).wf() {
            lemma_next_keeps_wf(old(app)@, Action::MoveDown);
        }
    }
    match app.app_mode {
        AppMode::SelectHost => {
            let i = match app.selected_index {
                Some(i) => if i >= app.ssh_hosts.len() - 1 {
                    0
                } else {
                    i + 1
                },
                None => 0,
            };
            set_selected_index(app, i);
        },
        AppMode::Rsync => {
            app.rsync_active_input = RsyncActiveInput::Remote;
        },
        AppMode::SshPasswordPromt => {},
    }
}

/// Types a character into the active input (see [`next`]).
pub fn handle_input(app: &mut App, c: char)
    ensures
        (final(app)@, EffectView::Nothing) == next(old(app)@, Action::Input(c)),
{
    match app.app_mode {
        AppMode::SelectHost => {},
        AppMode::Rsync => match app.rsync_active_input {
            RsyncActiveInput::Local => app.rsync_local_path.push(c),
            RsyncActiveInput::Remote => app.rsync_remote_path.push(c),
        },
        AppMode::SshPasswordPromt => {
            app.ssh_login_input.push(c);
        },
    }
}

/// Deletes the last character of the active input (see [`next`]).
pub fn handle_backspace(app: &mut App)
    ensures
        (final(app)@, EffectView::Nothing) == next(old(app)@, Action::Backspace),
{
    match app.app_mode {
        AppMode::SelectHost => {},
        AppMode::Rsync => match app.rsync_active_input {
            RsyncActiveInput::Local => {
                app.rsync_local_path.pop();
            },
            RsyncActiveInput::Remote => {
                app.rsync_remote_path.pop();
            },
        },
        AppMode::SshPasswordPromt => {
            app.ssh_login_input.pop();
        },
    }
}

/// Asks for a listing to complete the active path (see [`next`]).
pub fn handle_tab(app: &mut App) -> (e: Effect)
    ensures
        (final(app)@, e@) == next(old(app)@, Action::Tab),
{
    match app.app_mode {
        AppMode::Rsync => match app.rsync_active_input {
            RsyncActiveInput::Local => {
                let (parent_dir, prefix) = split_path(app.rsync_local_path.as_str());
                Effect::ListLocalDir { parent_dir, prefix }
            },
            RsyncActiveInput::Remote => Effect::ListRemoteDir {
                host: app.selected_ssh_host.copy(),
                path: app.rsync_remote_path.clone(),
            },
        },
        _ => Effect::Nothing,
    }
}

/// Applies a user action to the state and returns the outside work it asks
/// for (see [`next`]).
pub fn handle_action(app: &mut App, action: Action) -> (e: Effect)
    requires
        old(app).can_move(),
    ensures
        (final(app)@, e@) == next(old(app)@, action),
        old(app).wf() ==> final(app).wf(),
{
    let e = match action {
        Action::Quit => {
            app.commands.push_back(AppCommand::Quit);
            Effect::Nothing
        },
        Action::ToggleAppMode => handle_toggle_app_mode(app),
        Action::Enter => handle_enter(app),
        Action::MoveUp => {
            handle_move_up(app);
            Effect::Nothing
        },
        Action::MoveDown => {
            handle_move_down(app);
            Effect::Nothing
        },
        Action::Input(c) => {
            handle_input(app, c);
            Effect::Nothing
        },
        Action::Backspace => {
            handle_backspace(app);
            Effect::Nothing
        },
        Action::Tab => handle_tab(app),
        Action::RsyncRemoteToLocal => handle_rsync_remote_to_local(app),
        Action::Upload => rsync_transfer(app, TransferDirection::Upload),
        Action::Download => rsync_transfer(app, TransferDirection::Download),
        Action::MoveLeft | Action::MoveRight | Action::DownloadSync | Action::UploadSync => {
            Effect::Nothing
        },
    };
    proof {
        if old(app).wf() {
            lemma_next_keeps_wf(old(app)@, action);
        }
    }
    e
}

/// A path input and its suggestions after a listing offered `folders` and
/// `files`: a single folder completes the path with the folder and a `/`, a
/// single file completes it with the file; either way the suggestions are
/// cleared.  Otherwise the path stays and the listing becomes the
/// suggestions.
pub open spec fn apply_suggestions(
    path: Seq<char>,
    folders: Seq<Seq<char>>,
    files: Seq<Seq<char>>,
) -> (Seq<char>, Seq<Seq<char>>, Seq<Seq<char>>) {
    if folders.len() == 1 && files.len() == 0 {
        (completed_path(path, folders[0]).push('/'), seq![], seq![])
    } else if files.len() == 1 && folders.len() == 0 {
        (completed_path(path, files[0]), seq![], seq![])
    } else {
        (path, folders, files)
    }
}

/// The state after the local path input got the suggestions `folders` and
/// `files`.
pub open spec fn local_suggestions_view(
    v: AppView,
    folders: Seq<Seq<char>>,
    files: Seq<Seq<char>>,
) -> AppView {
    let r = apply_suggestions(v.rsync_local_path, folders, files);
    AppView { rsync_local_path: r.0, local_folders: r.1, local_files: r.2, ..v }
}

/// The state after the remote path input got the suggestions `folders` and
/// `files`.
pub open spec fn remote_suggestions_view(
    v: AppView,
    folders: Seq<Seq<char>>,
    files: Seq<Seq<char>>,
) -> AppView {
    let r = apply_suggestions(v.rsync_remote_path, folders, files);
    AppView { rsync_remote_path: r.0, remote_folders: r.1, remote_files: r.2, ..v }
}

/// The completed path, or `None` when the listing does not settle it.
fn settle_path(path: &String, folder_list: &Vec<String>, file_list: &Vec<String>) -> (r: Option<
    String,
>)
    ensures
        (folder_list@.len() == 1 && file_list@.len() == 0) || (file_list@.len() == 1
            && folder_list@.len() == 0) <==> r is Some,
        r matches Some(p) ==> p@ == apply_suggestions(
            path@,
            folder_list.deep_view(),
            file_list.deep_view(),
        ).0,
{
    if folder_list.len() == 1 && file_list.len() == 0 {
        let (parent_dir, _) = split_path(path.as_str());
        let mut p = parent_dir;
        push_all(&mut p, folder_list[0].as_str());
        p.push('/');
        assert(folder_list.deep_view()[0] == folder_list@[0]@);
        Some(p)
    } else if file_list.len() == 1 && folder_list.len() == 0 {
        let (parent_dir, _) = split_path(path.as_str());
        let mut p = parent_dir;
        push_all(&mut p, file_list[0].as_str());
        assert(file_list.deep_view()[0] == file_list@[0]@);
        Some(p)
    } else {
        None
    }
}

/// Applies a listing of the local directory to the local path input (see
/// [`apply_suggestions`]).
pub fn process_local_suggestions(folder_list: Vec<String>, file_list: Vec<String>, app: &mut App)
    ensures
        final(app)@ == local_suggestions_view(
            old(app)@,
            folder_list.deep_view(),
            file_list.deep_view(),
        ),
{
    match settle_path(&app.rsync_local_path, &folder_list, &file_list) {
        Some(p) => {
            app.rsync_local_path = p;
            app.local_suggestions.folders.clear();
            app.local_suggestions.files.clear();
        },
        None => {
            app.local_suggestions.folders = folder_list;
            app.local_suggestions.files = file_list;
        },
    }
    assert(final(app)@ =~= local_suggestions_view(
        old(app)@,
        folder_list.deep_view(),
        file_list.deep_view(),
    ));
}

/// Applies a listing of the remote directory to the remote path input (see
/// [`apply_suggestions`]).
pub fn process_remote_suggestions(folder_list: Vec<String>, file_list: Vec<String>, app: &mut App)
    ensures
        final(app)@ == remote_suggestions_view(
            old(app)@,
            folder_list.deep_view(),
            file_list.deep_view(),
        ),
{
    match settle_path(&app.rsync_remote_path, &folder_list, &file_list) {
        Some(p) => {
            app.rsync_remote_path = p;
            app.remote_suggestions.folders.clear();
            app.remote_suggestions.files.clear();
        },
        None => {
            app.remote_suggestions.folders = folder_list;
            app.remote_suggestions.files = file_list;
        },
    }
    assert(final(app)@ =~= remote_suggestions_view(
        old(app)@,
        folder_list.deep_view(),
        file_list.deep_view(),
    ));
}

/// A name in a listed local directory, and whether it names a directory.
#[derive(Debug)]
pub struct LocalEntry {
    pub name: String,
    pub is_dir: bool,
}

/// What `str::to_lowercase` returns for a text: the Unicode lower-case
/// mapping of its characters.
pub uninterp spec fn lowercase(s: Seq<char>) -> Seq<char>;

/// `str::to_lowercase`; the contract only names its result [`lowercase`].
#[verifier::external_body]
fn to_lowercase(s: &str) -> (r: String)
    ensures
        r@ == lowercase(s@),
{
    s.to_lowercase()
}

/// The names of `entries` that are directories (`dirs`) or files (not
/// `dirs`) and whose lower-case form `lowered[i]` starts with
/// `lowered_prefix`, in listing order.
pub open spec fn matching_names(
    entries: Seq<LocalEntry>,
    lowered: Seq<Seq<char>>,
    lowered_prefix: Seq<char>,
    dirs: bool,
) -> Seq<Seq<char>>
    decreases entries.len(),
{
    if entries.len() == 0 {
        seq![]
    } else {
        let n = entries.len() - 1;
        let prev = matching_names(entries.drop_last(), lowered.take(n), lowered_prefix, dirs);
        if entries.last().is_dir == dirs && starts_with(lowered[n], lowered_prefix) {
            prev.push(entries.last().name@)
        } else {
            prev
        }
    }
}

/// The lower-case forms of the names of `entries`.
pub open spec fn lowered_names(entries: Seq<LocalEntry>) -> Seq<Seq<char>> {
    entries.map_values(|e: LocalEntry| lowercase(e.name@))
}

proof fn lemma_matching_names_take(
    entries: Seq<LocalEntry>,
    lowered: Seq<Seq<char>>,
    lowered_prefix: Seq<char>,
    dirs: bool,
    i: int,
)
    requires
        0 <= i < entries.len(),
        lowered.len() == entries.len(),
    ensures
        matching_names(entries.take(i + 1), lowered.take(i + 1), lowered_prefix, dirs) == if (
        entries[i].is_dir == dirs && starts_with(lowered[i], lowered_prefix)) {
            matching_names(entries.take(i), lowered.take(i), lowered_prefix, dirs).push(
                entries[i].name@,
            )
        } else {
            matching_names(entries.take(i), lowered.take(i), lowered_prefix, dirs)
        },
{
    assert(entries.take(i + 1).drop_last() =~= entries.take(i));
    assert(lowered.take(i + 1).take(i) =~= lowered.take(i));
}

/// The entry `k` is listed: it is a directory when `dirs` (a file when not),
/// and its lower-case name starts with the lower-case prefix.
pub open spec fn entry_listed(
    entries: Seq<LocalEntry>,
    lowered: Seq<Seq<char>>,
    lowered_prefix: Seq<char>,
    dirs: bool,
    k: int,
) -> bool {
    &&& 0 <= k < entries.len()
    &&& entries[k].is_dir == dirs
    &&& starts_with(lowered[k], lowered_prefix)
}

/// The names that completion offers are exactly those of the entries of the
/// right kind whose lower-case name starts with the lower-case prefix: each
/// offered name is such an entry's, each such entry's name is offered, and
/// no more names are offered than there are entries.
pub proof fn law_matching_names(
    entries: Seq<LocalEntry>,
    lowered: Seq<Seq<char>>,
    lowered_prefix: Seq<char>,
    dirs: bool,
)
    requires
        lowered.len() == entries.len(),
    ensures
        matching_names(entries, lowered, lowered_prefix, dirs).len() <= entries.len(),
        forall|x: Seq<char>|
            #[trigger] matching_names(entries, lowered, lowered_prefix, dirs).contains(x) ==> exists|
                k: int,
            |
                #![trigger entries[k]]
                entry_listed(entries, lowered, lowered_prefix, dirs, k) && entries[k].name@ == x,
        forall|k: int|
            #![trigger entries[k]]
            entry_listed(entries, lowered, lowered_prefix, dirs, k) ==> matching_names(
                entries,
                lowered,
                lowered_prefix,
                dirs,
            ).contains(entries[k].name@),
    decreases entries.len(),
{
    if entries.len() > 0 {
        let n = entries.len() - 1;
        let init = entries.drop_last();
        let lw = lowered.take(n);
        law_matching_names(init, lw, lowered_prefix, dirs);
        let prev = matching_names(init, lw, lowered_prefix, dirs);
        let res = matching_names(entries, lowered, lowered_prefix, dirs);
        let last_in = entries.last().is_dir == dirs && starts_with(lowered[n], lowered_prefix);
        assert forall|x: Seq<char>| #[trigger] res.contains(x) implies exists|k: int|
            #![trigger entries[k]]
            entry_listed(entries, lowered, lowered_prefix, dirs, k) && entries[k].name@ == x by {
            if last_in && x == entries[n].name@ {
                assert(entry_listed(entries, lowered, lowered_prefix, dirs, n));
            } else {
                if last_in {
                    let j = choose|j: int| 0 <= j < res.len() && res[j] == x;
                    assert(j < prev.len());
                    assert(prev[j] == x);
                }
                assert(prev.contains(x));
                let k = choose|k: int|
                    #![trigger init[k]]
                    entry_listed(init, lw, lowered_prefix, dirs, k) && init[k].name@ == x;
                assert(init[k] == entries[k]);
                assert(lw[k] == lowered[k]);
                assert(entry_listed(entries, lowered, lowered_prefix, dirs, k));
            }
        }
        assert forall|k: int|
            #![trigger entries[k]]
            entry_listed(entries, lowered, lowered_prefix, dirs, k) implies res.contains(
            entries[k].name@,
        ) by {
            if k == n {
                assert(res[res.len() - 1] == entries[n].name@);
            } else {
                assert(init[k] == entries[k]);
                assert(lw[k] == lowered[k]);
                assert(entry_listed(init, lw, lowered_prefix, dirs, k));
                assert(prev.contains(init[k].name@));
                let j = choose|j: int| 0 <= j < prev.len() && prev[j] == init[k].name@;
                if last_in {
                    assert(res[j] == prev[j]);
                }
                assert(res[j] == entries[k].name@);
            }
        }
    }
}

/// Sorts the entries whose lower-case name `lowered[i]` starts with
/// `lowered_prefix` into directories and files, in listing order.
pub fn sort_matches(entries: &Vec<LocalEntry>, lowered: &Vec<String>, lowered_prefix: &str) -> (r: (
    Vec<String>,
    Vec<String>,
))
    requires
        lowered@.len() == entries@.len(),
    ensures
        r.0.deep_view() == matching_names(entries@, lowered.deep_view(), lowered_prefix@, true),
        r.1.deep_view() == matching_names(entries@, lowered.deep_view(), lowered_prefix@, false),
{
    let p = chars_of(lowered_prefix);
    let mut folders: Vec<String> = Vec::new();
    let mut files: Vec<String> = Vec::new();
    let ghost lw = lowered.deep_view();
    let mut i: usize = 0;
    assert(entries@.take(0) =~= seq![]);
    assert(folders.deep_view() =~= seq![]);
    assert(files.deep_view() =~= seq![]);
    while i < entries.len()
        invariant
            0 <= i <= entries@.len(),
            lowered@.len() == entries@.len(),
            lw == lowered.deep_view(),
            p@ == lowered_prefix@,
            folders.deep_view() == matching_names(
                entries@.take(i as int),
                lw.take(i as int),
                lowered_prefix@,
                true,
            ),
            files.deep_view() == matching_names(
                entries@.take(i as int),
                lw.take(i as int),
                lowered_prefix@,
                false,
            ),
        decreases entries.len() - i,
    {
        proof {
            lemma_matching_names_take(entries@, lw, lowered_prefix@, true, i as int);
            lemma_matching_names_take(entries@, lw, lowered_prefix@, false, i as int);
        }
        let l = chars_of(lowered[i].as_str());
        assert(lw[i as int] == lowered@[i as int]@);
        if crate::text::occurs_at_exec(&l, &p, 0) {
            let name = entries[i].name.clone();
            if entries[i].is_dir {
                let ghost before = folders.deep_view();
                folders.push(name);
                assert(folders.deep_view() =~= before.push(entries@[i as int].name@));
            } else {
                let ghost before = files.deep_view();
                files.push(name);
                assert(files.deep_view() =~= before.push(entries@[i as int].name@));
            }
        }
        i += 1;
    }
    assert(entries@.take(entries@.len() as int) =~= entries@);
    assert(lw.take(entries@.len() as int) =~= lw);
    (folders, files)
}

/// Completes the local path from a listing of its directory: the entries
/// whose name, in lower case, starts with the lower-case `prefix` become
/// the suggestions (see [`process_local_suggestions`]).
pub fn complete_local_path(app: &mut App, prefix: &str, entries: Vec<LocalEntry>)
    ensures
        final(app)@ == local_suggestions_view(
            old(app)@,
            matching_names(entries@, lowered_names(entries@), lowercase(prefix@), true),
            matching_names(entries@, lowered_names(entries@), lowercase(prefix@), false),
        ),
{
    let mut lowered: Vec<String> = Vec::new();
    let mut i: usize = 0;
    while i < entries.len()
        invariant
            0 <= i <= entries@.len(),
            lowered@.len() == i,
            forall|j: int| 0 <= j < i ==> (#[trigger] lowered@[j])@ == lowercase(entries@[j].name@),
        decreases entries.len() - i,
    {
        lowered.push(to_lowercase(entries[i].name.as_str()));
        i += 1;
    }
    assert(lowered.deep_view() =~= lowered_names(entries@));
    let lowered_prefix = to_lowercase(prefix);
    let (folders, files) = sort_matches(&entries, &lowered, lowered_prefix.as_str());
    process_local_suggestions(folders, files, app);
}

/// A listing that is not exactly one folder and no file, nor exactly one
/// file and no folder, leaves the path as it is and becomes the
/// suggestions, for the local and the remote input alike.
pub proof fn law_unsettled_listing_keeps_path(
    v: AppView,
    folders: Seq<Seq<char>>,
    files: Seq<Seq<char>>,
)
    requires
        !(folders.len() == 1 && files.len() == 0),
        !(files.len() == 1 && folders.len() == 0),
    ensures
        local_suggestions_view(v, folders, files).rsync_local_path == v.rsync_local_path,
        local_suggestions_view(v, folders, files).local_folders == folders,
        local_suggestions_view(v, folders, files).local_files == files,
        remote_suggestions_view(v, folders, files).rsync_remote_path == v.rsync_remote_path,
        remote_suggestions_view(v, folders, files).remote_folders == folders,
        remote_suggestions_view(v, folders, files).remote_files == files,
{
}

/// A listing of exactly one folder (and no file) completes the path to the
/// directory of the path, then the folder and a `/`; exactly one file (and
/// no folder) completes it to the directory and the file.  Either way the
/// suggestions are cleared.
pub proof fn law_settled_listing_completes_path(
    v: AppView,
    folders: Seq<Seq<char>>,
    files: Seq<Seq<char>>,
)
    requires
        (folders.len() == 1 && files.len() == 0) || (files.len() == 1 && folders.len() == 0),
    ensures
        folders.len() == 1 ==> local_suggestions_view(v, folders, files).rsync_local_path
            == split_path_spec(v.rsync_local_path).0 + folders[0] + seq!['/'],
        files.len() == 1 ==> local_suggestions_view(v, folders, files).rsync_local_path
            == split_path_spec(v.rsync_local_path).0 + files[0],
        folders.len() == 1 ==> remote_suggestions_view(v, folders, files).rsync_remote_path
            == split_path_spec(v.rsync_remote_path).0 + folders[0] + seq!['/'],
        files.len() == 1 ==> remote_suggestions_view(v, folders, files).rsync_remote_path
            == split_path_spec(v.rsync_remote_path).0 + files[0],
        local_suggestions_view(v, folders, files).local_folders.len() == 0,
        local_suggestions_view(v, folders, files).local_files.len() == 0,
        remote_suggestions_view(v, folders, files).remote_folders.len() == 0,
        remote_suggestions_view(v, folders, files).remote_files.len() == 0,
{
    if folders.len() == 1 {
        assert((split_path_spec(v.rsync_local_path).0 + folders[0]).push('/') =~= split_path_spec(
            v.rsync_local_path,
        ).0 + folders[0] + seq!['/']);
        assert((split_path_spec(v.rsync_remote_path).0 + folders[0]).push('/') =~= split_path_spec(
            v.rsync_remote_path,
        ).0 + folders[0] + seq!['/']);
    }
}

/// The copy that a transfer makes: its source and its target, as the last
/// two arguments of `rsync`.
pub open spec fn transfer_ends(e: EffectView) -> (Seq<char>, Seq<char>) {
    match e {
        EffectView::RunRsync { host, local_path, remote_path, direction } => {
            let args = crate::ssh_operations::rsync_args_spec(
                host,
                local_path,
                remote_path,
                direction,
            );
            (args[5], args[6])
        },
        _ => (seq![], seq![]),
    }
}

/// The remote location of the selected host's remote path:
/// `alias:remote_path`.
pub open spec fn remote_location(v: AppView) -> Seq<char> {
    v.selected_ssh_host.host + seq![':'] + v.rsync_remote_path
}

/// Upload, and Enter on the transfer screen, copy the local path to the
/// selected host's remote path; Download and the remote-to-local action copy
/// the remote path to the local path.  None of them changes the state.
pub proof fn law_transfer_directions(v: AppView)
    ensures
        next(v, Action::Upload).1 is RunRsync,
        transfer_ends(next(v, Action::Upload).1) == (v.rsync_local_path, remote_location(v)),
        next(v, Action::Download).1 is RunRsync,
        transfer_ends(next(v, Action::Download).1) == (remote_location(v), v.rsync_local_path),
        next(v, Action::RsyncRemoteToLocal).1 is RunRsync,
        transfer_ends(next(v, Action::RsyncRemoteToLocal).1) == (
            remote_location(v),
            v.rsync_local_path,
        ),
        v.app_mode == AppMode::Rsync ==> next(v, Action::Enter).1 is RunRsync && transfer_ends(
            next(v, Action::Enter).1,
        ) == (v.rsync_local_path, remote_location(v)),
        next(v, Action::Upload).0 == v,
        next(v, Action::Download).0 == v,
        next(v, Action::RsyncRemoteToLocal).0 == v,
{
    reveal_strlit(":");
    assert(":"@ =~= seq![':']);
}

/// On the host list, moving down selects the next host, and the first after
/// the last; moving up selects the previous host, and the last before the
/// first; the selected host follows.
pub proof fn law_move_steps(v: AppView)
    requires
        v.app_mode == AppMode::SelectHost,
        v.selected_index matches Some(i) && i < v.ssh_hosts.len(),
        v.ssh_hosts.len() <= usize::MAX,
    ensures
        ({
            let i = v.selected_index->0;
            let n = v.ssh_hosts.len();
            let d = if i + 1 < n {
                i + 1
            } else {
                0
            };
            let u = if i > 0 {
                i - 1
            } else {
                n - 1
            };
            &&& next(v, Action::MoveDown).0.selected_index == Some(d as usize)
            &&& next(v, Action::MoveDown).0.selected_ssh_host == v.ssh_hosts[d]
            &&& next(v, Action::MoveUp).0.selected_index == Some(u as usize)
            &&& next(v, Action::MoveUp).0.selected_ssh_host == v.ssh_hosts[u]
        }),
{
}

/// A typed character goes to the end of the active path input on the
/// transfer screen, or of the typed login input on the password prompt, and
/// nowhere else; on the host list it is ignored.  Backspace removes the last
/// character of the same input, if it has one.
pub proof fn law_typing_goes_to_active_input(v: AppView, c: char)
    ensures
        v.app_mode == AppMode::SelectHost ==> next(v, Action::Input(c)).0 == v && next(
            v,
            Action::Backspace,
        ).0 == v,
        v.app_mode == AppMode::Rsync && v.rsync_active_input == RsyncActiveInput::Local ==> (
        next(v, Action::Input(c)).0 == (AppView {
            rsync_local_path: v.rsync_local_path + seq![c],
            ..v
        }) && next(v, Action::Backspace).0 == (AppView {
            rsync_local_path: if v.rsync_local_path.len() > 0 {
                v.rsync_local_path.subrange(0, v.rsync_local_path.len() - 1)
            } else {
                v.rsync_local_path
            },
            ..v
        })),
        v.app_mode == AppMode::Rsync && v.rsync_active_input == RsyncActiveInput::Remote ==> (
        next(v, Action::Input(c)).0 == (AppView {
            rsync_remote_path: v.rsync_remote_path + seq![c],
            ..v
        }) && next(v, Action::Backspace).0 == (AppView {
            rsync_remote_path: if v.rsync_remote_path.len() > 0 {
                v.rsync_remote_path.subrange(0, v.rsync_remote_path.len() - 1)
            } else {
                v.rsync_remote_path
            },
            ..v
        })),
        v.app_mode == AppMode::SshPasswordPromt ==> (next(v, Action::Input(c)).0 == (AppView {
            ssh_login_input: v.ssh_login_input + seq![c],
            ..v
        }) && next(v, Action::Backspace).0 == (AppView {
            ssh_login_input: if v.ssh_login_input.len() > 0 {
                v.ssh_login_input.subrange(0, v.ssh_login_input.len() - 1)
            } else {
                v.ssh_login_input
            },
            ..v
        })),
        next(v, Action::Input(c)).1 == EffectView::Nothing,
        next(v, Action::Backspace).1 == EffectView::Nothing,
{
    assert(v.rsync_local_path + seq![c] =~= v.rsync_local_path.push(c));
    assert(v.rsync_remote_path + seq![c] =~= v.rsync_remote_path.push(c));
    assert(v.ssh_login_input + seq![c] =~= v.ssh_login_input.push(c));
}

/// On the transfer screen, Up makes the local path input active and Down
/// the remote one, and nothing else changes; on the password prompt the
/// arrows change nothing.
pub proof fn law_arrows_on_other_screens(v: AppView)
    ensures
        v.app_mode == AppMode::Rsync ==> next(v, Action::MoveUp).0 == (AppView {
            rsync_active_input: RsyncActiveInput::Local,
            ..v
        }) && next(v, Action::MoveDown).0 == (AppView {
            rsync_active_input: RsyncActiveInput::Remote,
            ..v
        }),
        v.app_mode == AppMode::SshPasswordPromt ==> next(v, Action::MoveUp).0 == v && next(
            v,
            Action::MoveDown,
        ).0 == v,
{
}

/// Toggling from the host list opens the transfer screen and starts the
/// background connection to the selected host; toggling from the transfer
/// screen returns to the host list; on the password prompt it does nothing.
/// Only the screen changes.
pub proof fn law_toggle_screens(v: AppView)
    ensures
        v.app_mode == AppMode::SelectHost ==> next(v, Action::ToggleAppMode).0 == (AppView {
            app_mode: AppMode::Rsync,
            ..v
        }) && next(v, Action::ToggleAppMode).1 == EffectView::StartBackgroundSsh(
            v.selected_ssh_host,
        ),
        v.app_mode == AppMode::Rsync ==> next(v, Action::ToggleAppMode).0 == (AppView {
            app_mode: AppMode::SelectHost,
            ..v
        }) && next(v, Action::ToggleAppMode).1 == EffectView::Nothing,
        v.app_mode == AppMode::SshPasswordPromt ==> next(v, Action::ToggleAppMode).0 == v,
{
}

/// Quit queues the quit command; Enter on the host list queues the session
/// command; Enter on the password prompt sends the typed input followed by
/// a line break and changes nothing.
pub proof fn law_quit_and_enter(v: AppView)
    ensures
        next(v, Action::Quit).0.commands == v.commands + seq![AppCommand::Quit],
        next(v, Action::Quit).0 == (AppView { commands: next(v, Action::Quit).0.commands, ..v }),
        v.app_mode == AppMode::SelectHost ==> next(v, Action::Enter).0.commands == v.commands
            + seq![AppCommand::StartSsh] && next(v, Action::Enter).1 == EffectView::Nothing,
        v.app_mode == AppMode::SshPasswordPromt ==> next(v, Action::Enter).0 == v && next(
            v,
            Action::Enter,
        ).1 == EffectView::SendLoginInput(v.ssh_login_input + seq!['\n']),
{
    assert(v.commands + seq![AppCommand::Quit] =~= v.commands.push(AppCommand::Quit));
    assert(v.commands + seq![AppCommand::StartSsh] =~= v.commands.push(AppCommand::StartSsh));
    assert(v.ssh_login_input + seq!['\n'] =~= v.ssh_login_input.push('\n'));
}

/// Tab on the transfer screen asks for a listing of the directory of the
/// active path, with the name typed after the last `/` as prefix (the two
/// together give the path back when it holds a `/`); elsewhere it does
/// nothing.  The state never changes.
pub proof fn law_tab_lists_active_directory(v: AppView)
    ensures
        next(v, Action::Tab).0 == v,
        v.app_mode != AppMode::Rsync ==> next(v, Action::Tab).1 == EffectView::Nothing,
        v.app_mode == AppMode::Rsync && v.rsync_active_input == RsyncActiveInput::Local ==> (
        next(v, Action::Tab).1 matches EffectView::ListLocalDir { parent_dir, prefix } && (
        v.rsync_local_path.contains('/') ==> parent_dir + prefix == v.rsync_local_path)
            && !prefix.contains('/')),
        v.app_mode == AppMode::Rsync && v.rsync_active_input == RsyncActiveInput::Remote ==> next(
            v,
            Action::Tab,
        ).1 == (EffectView::ListRemoteDir { host: v.selected_ssh_host, path: v.rsync_remote_path }),
{
    law_split_path(v.rsync_local_path);
}

/// The left and right arrows and the two sync transfers have no handler:
/// they change nothing and ask for nothing, on every screen.
pub proof fn law_unhandled_actions(v: AppView)
    ensures
        next(v, Action::MoveLeft) == (v, EffectView::Nothing),
        next(v, Action::MoveRight) == (v, EffectView::Nothing),
        next(v, Action::DownloadSync) == (v, EffectView::Nothing),
        next(v, Action::UploadSync) == (v, EffectView::Nothing),
{
}

/// Every action keeps the state well formed.
pub proof fn lemma_next_keeps_wf(v: AppView, action: Action)
    requires
        view_wf(v),
    ensures
        view_wf(next(v, action).0),
{
}

/// No action changes the host list or the search query, and an action adds
/// at most one command, after the pending ones.
pub proof fn law_action_keeps_hosts(v: AppView, action: Action)
    ensures
        next(v, action).0.ssh_hosts == v.ssh_hosts,
        next(v, action).0.search_query == v.search_query,
        next(v, action).0.commands == v.commands || exists|c: AppCommand|
            next(v, action).0.commands == #[trigger] v.commands.push(c),
{
    match action {
        Action::Quit => {
            assert(next(v, action).0.commands == v.commands.push(AppCommand::Quit));
        },
        Action::Enter => {
            if v.app_mode == AppMode::SelectHost {
                assert(next(v, action).0.commands == v.commands.push(AppCommand::StartSsh));
            }
        },
        _ => {},
    }
}

/// On the host list, a selection of host `i` that moves down and then up
/// is back at host `i`, with that host selected; from a well-formed state
/// this is the same state.
pub proof fn law_move_down_then_up(v: AppView)
    requires
        v.app_mode == AppMode::SelectHost,
        v.selected_index matches Some(i) && i < v.ssh_hosts.len(),
        v.ssh_hosts.len() <= usize::MAX,
    ensures
        next(next(v, Action::MoveDown).0, Action::MoveUp).0 == select_view(v, v.selected_index->0),
        view_wf(v) ==> next(next(v, Action::MoveDown).0, Action::MoveUp).0 == v,
{
    let w = next(v, Action::MoveDown).0;
    let i = v.selected_index->0;
    let d = move_down_index(v);
    assert(d < v.ssh_hosts.len());
    assert(w.selected_index == Some(d));
    assert(move_up_index(w) == i);
    assert(next(w, Action::MoveUp).0 =~= select_view(v, i));
    if view_wf(v) {
        assert(select_view(v, i) =~= v);
    }
}

/// On the host list, a selection of host `i` that moves up and then down
/// is back at host `i`, with that host selected; from a well-formed state
/// this is the same state.
pub proof fn law_move_up_then_down(v: AppView)
    requires
        v.app_mode == AppMode::SelectHost,
        v.selected_index matches Some(i) && i < v.ssh_hosts.len(),
        v.ssh_hosts.len() <= usize::MAX,
    ensures
        next(next(v, Action::MoveUp).0, Action::MoveDown).0 == select_view(v, v.selected_index->0),
        view_wf(v) ==> next(next(v, Action::MoveUp).0, Action::MoveDown).0 == v,
{
    let w = next(v, Action::MoveUp).0;
    let i = v.selected_index->0;
    let u = move_up_index(v);
    assert(u < v.ssh_hosts.len());
    assert(w.selected_index == Some(u));
    assert(move_down_index(w) == i);
    assert(next(w, Action::MoveDown).0 =~= select_view(v, i));
    if view_wf(v) {
        assert(select_view(v, i) =~= v);
    }
}

/// Typing a character and then deleting one leaves the state as it was.
pub proof fn law_input_then_backspace(v: AppView, c: char)
    ensures
        next(next(v, Action::Input(c)).0, Action::Backspace).0 == v,
{
    let w = next(v, Action::Input(c)).0;
    assert(v.rsync_local_path.push(c).drop_last() =~= v.rsync_local_path);
    assert(v.rsync_remote_path.push(c).drop_last() =~= v.rsync_remote_path);
    assert(v.ssh_login_input.push(c).drop_last() =~= v.ssh_login_input);
    assert(next(w, Action::Backspace).0 =~= v);
}

/// Toggling the screen twice leaves the state as it was.
pub proof fn law_toggle_twice(v: AppView)
    ensures
        next(next(v, Action::ToggleAppMode).0, Action::ToggleAppMode).0 == v,
{
    let w = next(v, Action::ToggleAppMode).0;
    assert(next(w, Action::ToggleAppMode).0 =~= v);
}

proof fn lemma_last_index_of(s: Seq<char>, c: char)
    ensures
        -1 <= last_index_of(s, c) < s.len(),
        last_index_of(s, c) >= 0 ==> s[last_index_of(s, c)] == c,
        forall|j: int| last_index_of(s, c) < j < s.len() ==> s[j] != c,
    decreases s.len(),
{
    if s.len() > 0 && s.last() != c {
        lemma_last_index_of(s.drop_last(), c);
        assert forall|j: int| last_index_of(s, c) < j < s.len() implies s[j] != c by {
            if j < s.len() - 1 {
                assert(s.drop_last()[j] == s[j]);
            }
        }
    }
}

/// Splitting a path gives a directory that ends with `/` and a name prefix
/// without `/`; when the path holds a `/`, the two together are the path.
pub proof fn law_split_path(input: Seq<char>)
    ensures
        ends_with_char(split_path_spec(input).0, '/'),
        !split_path_spec(input).1.contains('/'),
        input.contains('/') ==> split_path_spec(input).0 + split_path_spec(input).1 == input,
        !input.contains('/') ==> split_path_spec(input).1 == input,
{
    lemma_last_index_of(input, '/');
    let i = last_index_of(input, '/');
    if i >= 0 {
        assert(input.take(i + 1) + input.skip(i + 1) =~= input);
        let rest = input.skip(i + 1);
        assert forall|j: int| 0 <= j < rest.len() implies #[trigger] rest[j] != '/' by {
            assert(input.skip(i + 1)[j] == input[i + 1 + j]);
        }
    } else {
        assert forall|j: int| 0 <= j < input.len() implies #[trigger] input[j] != '/' by {}
    }
}

/// A path completed with a folder and its `/` is split into the whole path
/// and an empty prefix, so the next completion lists inside that folder.
pub proof fn law_completed_folder_splits_whole(path: Seq<char>, folder: Seq<char>)
    ensures
        split_path_spec(completed_path(path, folder).push('/')) == (
            completed_path(path, folder).push('/'),
            Seq::<char>::empty(),
        ),
{
    let p = completed_path(path, folder).push('/');
    assert(last_index_of(p, '/') == p.len() - 1);
    assert(p.take(p.len() as int) =~= p);
    assert(p.skip(p.len() as int) =~= Seq::<char>::empty());
}

} // verus!
