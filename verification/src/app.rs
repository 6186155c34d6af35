//! The application state and what the messages of the background workers do
//! to it.
use std::collections::VecDeque;

use vstd::prelude::*;

use crate::ssh_config::{SshHost, SshHostView, host_views};
use crate::text::{contains_chars, chars_of, contains_seq, push_all, push_decimal, decimal};
use crate::actions::{process_remote_suggestions, remote_suggestions_view};

verus! {

/// What the screen shows and which keys mean what.
#[derive(Debug, Clone, Copy, PartialEq, Eq, Structural)]
pub enum AppMode {
    SelectHost,
    Rsync,
    SshPasswordPromt,
}

/// Which of the two path inputs takes typed characters.
#[derive(Debug, Clone, Copy, PartialEq, Eq, Structural)]
pub enum RsyncActiveInput {
    Local,
    Remote,
}

/// The state of a running transfer; times are in milliseconds.
#[derive(Debug, PartialEq)]
pub enum RsyncStatus {
    Progress(String),
    Completed(u128),
    Failed(String, u128),
}

/// Work that leaves the interactive screen.
#[derive(Debug, Clone, Copy, PartialEq, Eq, Structural)]
pub enum AppCommand {
    Quit,
    StartSsh,
}

/// A message from the background connection that establishes the SSH control
/// master.
#[derive(Debug)]
pub enum SshEstablishControlMaster {
    UserInputReqired,
    PasswordPromt(String),
    Succsess,
    Failure,
}

/// How serious a status message is.
#[derive(Debug, Clone, Copy, PartialEq, Eq, Structural)]
pub enum StatusMsgLevel {
    Info,
    Warn,
    Error,
}

/// The line shown at the bottom of the screen.
#[derive(Debug)]
pub struct StatusMsg {
    pub level: StatusMsgLevel,
    pub msg: String,
}

/// Completions offered for a path input.
#[derive(Debug)]
pub struct PathSuggestions {
    pub folders: Vec<String>,
    pub files: Vec<String>,
}

/// The state of the application.  `selected_index` is the selection of the
/// host list.
pub struct App {
    pub app_mode: AppMode,
    pub rsync_active_input: RsyncActiveInput,
    pub ssh_hosts: Vec<SshHost>,
    pub selected_ssh_host: SshHost,
    pub selected_index: Option<usize>,
    pub rsync_local_path: String,
    pub rsync_local_path_cursor_pos: usize,
    pub rsync_remote_path: String,
    pub rsync_remote_path_cursor_pos: usize,
    pub local_suggestions: PathSuggestions,
    pub remote_suggestions: PathSuggestions,
    pub status_msg: StatusMsg,
    pub commands: VecDeque<AppCommand>,
    pub ssh_login_output: String,
    pub ssh_login_input: String,
    pub search_query: String,
}

/// The model of a status message.
pub struct StatusView {
    pub level: StatusMsgLevel,
    pub msg: Seq<char>,
}

impl View for StatusMsg {
    type V = StatusView;

    open spec fn view(&self) -> StatusView {
        StatusView { level: self.level, msg: self.msg@ }
    }
}

/// The model of the application state: every field by its view.
#[verifier::ext_equal]
pub struct AppView {
    pub app_mode: AppMode,
    pub rsync_active_input: RsyncActiveInput,
    pub ssh_hosts: Seq<SshHostView>,
    pub selected_ssh_host: SshHostView,
    pub selected_index: Option<usize>,
    pub rsync_local_path: Seq<char>,
    pub rsync_local_path_cursor_pos: usize,
    pub rsync_remote_path: Seq<char>,
    pub rsync_remote_path_cursor_pos: usize,
    pub local_folders: Seq<Seq<char>>,
    pub local_files: Seq<Seq<char>>,
    pub remote_folders: Seq<Seq<char>>,
    pub remote_files: Seq<Seq<char>>,
    pub status_msg: StatusView,
    pub commands: Seq<AppCommand>,
    pub ssh_login_output: Seq<char>,
    pub ssh_login_input: Seq<char>,
    pub search_query: Seq<char>,
}

impl View for App {
    type V = AppView;

    open spec fn view(&self) -> AppView {
        AppView {
            app_mode: self.app_mode,
            rsync_active_input: self.rsync_active_input,
            ssh_hosts: host_views(self.ssh_hosts@),
            selected_ssh_host: self.selected_ssh_host@,
            selected_index: self.selected_index,
            rsync_local_path: self.rsync_local_path@,
            rsync_local_path_cursor_pos: self.rsync_local_path_cursor_pos,
            rsync_remote_path: self.rsync_remote_path@,
            rsync_remote_path_cursor_pos: self.rsync_remote_path_cursor_pos,
            local_folders: self.local_suggestions.folders.deep_view(),
            local_files: self.local_suggestions.files.deep_view(),
            remote_folders: self.remote_suggestions.folders.deep_view(),
            remote_files: self.remote_suggestions.files.deep_view(),
            status_msg: self.status_msg@,
            commands: self.commands@,
            ssh_login_output: self.ssh_login_output@,
            ssh_login_input: self.ssh_login_input@,
            search_query: self.search_query@,
        }
    }
}

/// The host list is not empty, the selection is one of its entries, and the
/// selected host is that entry.
pub open spec fn view_wf(v: AppView) -> bool {
    &&& 0 < v.ssh_hosts.len() <= usize::MAX
    &&& v.selected_index matches Some(i)
    &&& i < v.ssh_hosts.len()
    &&& v.selected_ssh_host == v.ssh_hosts[i as int]
}

/// A selection can move: when there is one, the host list is not empty.
pub open spec fn view_can_move(v: AppView) -> bool {
    v.selected_index is Some ==> v.ssh_hosts.len() > 0
}

impl App {
    /// A selection can move (see [`view_can_move`]).
    pub open spec fn can_move(&self) -> bool {
        view_can_move(self@)
    }

    /// The state is well formed (see [`view_wf`]).
    pub open spec fn wf(&self) -> bool {
        view_wf(self@)
    }
}

/// A `String` with the characters of `s`.
pub fn string_of(s: &str) -> (r: String)
    ensures
        r@ == s@,
{
    let mut r = String::new();
    push_all(&mut r, s);
    r
}

/// The number of bytes of the UTF-8 encoding of `s`.
pub open spec fn utf8_len(s: Seq<char>) -> nat {
    vstd::utf8::encode_utf8(s).len()
}

/// The state at start: the host list with its first entry selected, the
/// local path set to `current_dir` and the remote path to `/`, each cursor
/// after its path (counted in bytes), and nothing else set.
pub fn init_app(ssh_hosts: Vec<SshHost>, current_dir: String) -> (app: App)
    requires
        ssh_hosts@.len() > 0,
    ensures
        app.wf(),
        app.app_mode == AppMode::SelectHost,
        app.rsync_active_input == RsyncActiveInput::Local,
        host_views(app.ssh_hosts@) == host_views(ssh_hosts@),
        app.selected_index == Some(0usize),
        app.rsync_local_path@ == current_dir@,
        app.rsync_local_path_cursor_pos == utf8_len(current_dir@) as usize,
        app.rsync_remote_path@ == seq!['/'],
        app.rsync_remote_path_cursor_pos == 1,
        app.local_suggestions.folders@.len() == 0,
        app.local_suggestions.files@.len() == 0,
        app.remote_suggestions.folders@.len() == 0,
        app.remote_suggestions.files@.len() == 0,
        app.status_msg.level == StatusMsgLevel::Info,
        app.status_msg.msg@.len() == 0,
        app.commands@.len() == 0,
        app.ssh_login_output@.len() == 0,
        app.ssh_login_input@.len() == 0,
        app.search_query@.len() == 0,
{
    let selected_ssh_host = ssh_hosts[0].copy();
    let count = ssh_hosts.len();
    assert(count == host_views(ssh_hosts@).len());
    let cursor = current_dir.as_str().len();
    let mut remote = String::new();
    remote.push('/');
    App {
        app_mode: AppMode::SelectHost,
        rsync_active_input: RsyncActiveInput::Local,
        ssh_hosts,
        selected_ssh_host,
        selected_index: Some(0),
        rsync_local_path: current_dir,
        rsync_local_path_cursor_pos: cursor,
        rsync_remote_path: remote,
        rsync_remote_path_cursor_pos: 1,
        local_suggestions: PathSuggestions { folders: Vec::new(), files: Vec::new() },
        remote_suggestions: PathSuggestions { folders: Vec::new(), files: Vec::new() },
        status_msg: StatusMsg { level: StatusMsgLevel::Info, msg: String::new() },
        commands: VecDeque::new(),
        ssh_login_output: String::new(),
        ssh_login_input: String::new(),
        search_query: String::new(),
    }
}

/// A host is shown for the search `query` when its alias or its host name
/// contains the query; every host is shown for the empty query.
pub open spec fn matches_search(h: SshHostView, query: Seq<char>) -> bool {
    ||| query.len() == 0
    ||| contains_seq(h.host, query)
    ||| (h.host_name matches Some(n) && contains_seq(n, query))
}

/// The hosts shown for `query`, in list order.
pub open spec fn filtered_hosts(hosts: Seq<SshHostView>, query: Seq<char>) -> Seq<SshHostView> {
    hosts.filter(|h: SshHostView| matches_search(h, query))
}

impl App {
    /// The hosts that match the search query, in list order.
    pub fn get_filtered_ssh_hosts(&self) -> (r: Vec<&SshHost>)
        ensures
            r@.map_values(|h: &SshHost| h@) == filtered_hosts(
                host_views(self.ssh_hosts@),
                self.search_query@,
            ),
    {
        let ghost all = host_views(self.ssh_hosts@);
        let ghost q = self.search_query@;
        let ghost pred = |h: SshHostView| matches_search(h, q);
        let query = chars_of(self.search_query.as_str());
        let mut r: Vec<&SshHost> = Vec::new();
        let mut i: usize = 0;
        assert(all.take(0) =~= seq![]);
        assert(r@.map_values(|h: &SshHost| h@) =~= seq![]);
        while i < self.ssh_hosts.len()
            invariant
                0 <= i <= self.ssh_hosts@.len(),
                all == host_views(self.ssh_hosts@),
                q == self.search_query@,
                query@ == q,
                pred == (|h: SshHostView| matches_search(h, q)),
                r@.map_values(|h: &SshHost| h@) == all.take(i as int).filter(pred),
            decreases self.ssh_hosts.len() - i,
        {
            reveal_with_fuel(Seq::filter, 1);
            let h = &self.ssh_hosts[i];
            let shown = if self.search_query.as_str().is_empty() {
                true
            } else {
                let name = chars_of(h.host.as_str());
                if contains_chars(&name, &query) {
                    true
                } else {
                    match &h.host_name {
                        Some(n) => {
                            let nc = chars_of(n.as_str());
                            contains_chars(&nc, &query)
                        },
                        None => false,
                    }
                }
            };
            assert(all[i as int] == h@);
            assert(shown == pred(all[i as int]));
            let ghost before = r@.map_values(|h: &SshHost| h@);
            if shown {
                r.push(h);
                assert(r@.map_values(|h: &SshHost| h@) =~= before.push(h@));
            }
            assert(all.take(i + 1).drop_last() =~= all.take(i as int));
            i += 1;
        }
        assert(all.take(self.ssh_hosts@.len() as int) =~= all);
        r
    }
}

proof fn lemma_filter_all(hosts: Seq<SshHostView>, q: Seq<char>)
    requires
        q.len() == 0,
    ensures
        filtered_hosts(hosts, q) == hosts,
    decreases hosts.len(),
{
    reveal_with_fuel(Seq::filter, 1);
    if hosts.len() > 0 {
        lemma_filter_all(hosts.drop_last(), q);
        assert(hosts.drop_last().push(hosts.last()) =~= hosts);
    }
}

/// With an empty search every host is shown, in list order.
pub proof fn law_empty_search_shows_all(hosts: Seq<SshHostView>)
    ensures
        filtered_hosts(hosts, Seq::<char>::empty()) == hosts,
{
    lemma_filter_all(hosts, Seq::<char>::empty());
}

/// Every shown host matches the search, and no more hosts are shown than
/// there are.
pub proof fn law_shown_hosts_match(hosts: Seq<SshHostView>, query: Seq<char>)
    ensures
        filtered_hosts(hosts, query).len() <= hosts.len(),
        forall|i: int|
            0 <= i < filtered_hosts(hosts, query).len() ==> matches_search(
                #[trigger] filtered_hosts(hosts, query)[i],
                query,
            ),
{
    let pred = |h: SshHostView| matches_search(h, query);
    hosts.lemma_filter_len(pred);
    assert forall|i: int| 0 <= i < filtered_hosts(hosts, query).len() implies matches_search(
        #[trigger] filtered_hosts(hosts, query)[i],
        query,
    ) by {
        hosts.lemma_filter_pred(pred, i);
    }
}

/// A host is shown for a search exactly when the search text occurs in its
/// alias or in its host name (the empty text occurs in every text); its
/// user, port and jump host play no part.
pub proof fn law_search_by_alias_or_host_name(hosts: Seq<SshHostView>, query: Seq<char>, i: int)
    requires
        0 <= i < hosts.len(),
    ensures
        filtered_hosts(hosts, query).contains(hosts[i]) <==> (contains_seq(hosts[i].host, query)
            || (hosts[i].host_name matches Some(n) && contains_seq(n, query))),
{
    let pred = |h: SshHostView| matches_search(h, query);
    let h = hosts[i];
    if query.len() == 0 {
        assert(h.host.subrange(0, 0) =~= query);
        assert(crate::text::occurs_at(h.host, query, 0));
    }
    if matches_search(h, query) {
        hosts.lemma_filter_contains(pred, i);
    }
    if filtered_hosts(hosts, query).contains(h) {
        let k = choose|k: int|
            0 <= k < filtered_hosts(hosts, query).len() && filtered_hosts(hosts, query)[k] == h;
        hosts.lemma_filter_pred(pred, k);
    }
}

proof fn lemma_contains_trans(s: Seq<char>, q2: Seq<char>, q1: Seq<char>)
    requires
        contains_seq(s, q2),
        contains_seq(q2, q1),
    ensures
        contains_seq(s, q1),
{
    let i = choose|i: int| crate::text::occurs_at(s, q2, i);
    let j = choose|j: int| crate::text::occurs_at(q2, q1, j);
    assert(s.subrange(i + j, i + j + q1.len()) =~= q2.subrange(j, j + q1.len()));
    assert(crate::text::occurs_at(s, q1, i + j));
}

proof fn lemma_match_longer(h: SshHostView, q1: Seq<char>, q2: Seq<char>)
    requires
        contains_seq(q2, q1),
        matches_search(h, q2),
    ensures
        matches_search(h, q1),
{
    if q2.len() == 0 {
        let j = choose|j: int| crate::text::occurs_at(q2, q1, j);
        assert(q1.len() == 0);
    } else if contains_seq(h.host, q2) {
        lemma_contains_trans(h.host, q2, q1);
    } else {
        let n = h.host_name->0;
        lemma_contains_trans(n, q2, q1);
    }
}

/// A longer search never shows more hosts: when `q1` occurs in `q2`, the
/// hosts shown for `q2` are those shown for `q1` that also match `q2`, in
/// the same order.
pub proof fn law_longer_query_shows_fewer(hosts: Seq<SshHostView>, q1: Seq<char>, q2: Seq<char>)
    requires
        contains_seq(q2, q1),
    ensures
        filtered_hosts(hosts, q2) == filtered_hosts(hosts, q1).filter(
            |h: SshHostView| matches_search(h, q2),
        ),
        filtered_hosts(hosts, q2).len() <= filtered_hosts(hosts, q1).len(),
    decreases hosts.len(),
{
    reveal_with_fuel(Seq::filter, 1);
    let p2 = |h: SshHostView| matches_search(h, q2);
    if hosts.len() > 0 {
        law_longer_query_shows_fewer(hosts.drop_last(), q1, q2);
        let h = hosts.last();
        let f1 = filtered_hosts(hosts.drop_last(), q1);
        if matches_search(h, q2) {
            lemma_match_longer(h, q1, q2);
        }
        if matches_search(h, q1) {
            assert(f1.push(h).drop_last() =~= f1);
        }
    }
    filtered_hosts(hosts, q1).lemma_filter_len(p2);
}

/// A connection success opens the transfer screen, a failure returns to the
/// host list, a request for input opens the password prompt, and output is
/// appended to what the prompt shows; nothing else changes.
pub proof fn law_ssh_events(v: AppView, text: String)
    ensures
        ssh_event_view(v, SshEstablishControlMaster::Succsess) == (AppView {
            app_mode: AppMode::Rsync,
            ..v
        }),
        ssh_event_view(v, SshEstablishControlMaster::Failure) == (AppView {
            app_mode: AppMode::SelectHost,
            ..v
        }),
        ssh_event_view(v, SshEstablishControlMaster::UserInputReqired) == (AppView {
            app_mode: AppMode::SshPasswordPromt,
            ..v
        }),
        ssh_event_view(v, SshEstablishControlMaster::PasswordPromt(text)).ssh_login_output
            == v.ssh_login_output + text@,
        ssh_event_view(v, SshEstablishControlMaster::PasswordPromt(text)).app_mode == v.app_mode,
{
}

/// Progress and completion show as information and a failure as an error;
/// progress shows its own text, and the other two end with the error text
/// or `ms` after the elapsed time.
pub proof fn law_rsync_status_levels(m: String, ms: u128, err: String)
    ensures
        rsync_status_view(RsyncStatus::Progress(m)) == (StatusView {
            level: StatusMsgLevel::Info,
            msg: m@,
        }),
        rsync_status_view(RsyncStatus::Completed(ms)).level == StatusMsgLevel::Info,
        rsync_status_view(RsyncStatus::Failed(err, ms)).level == StatusMsgLevel::Error,
        rsync_status_view(RsyncStatus::Completed(ms)).msg.subrange(
            "rsync finished in "@.len() as int,
            ("rsync finished in "@.len() + decimal(ms as nat).len()) as int,
        ) == decimal(ms as nat),
        rsync_status_view(RsyncStatus::Failed(err, ms)).msg.subrange(
            rsync_status_view(RsyncStatus::Failed(err, ms)).msg.len() - err@.len(),
            rsync_status_view(RsyncStatus::Failed(err, ms)).msg.len() as int,
        ) == err@,
{
    let a = "rsync finished in "@;
    let d = decimal(ms as nat);
    assert((a + d + "ms"@).subrange(a.len() as int, (a.len() + d.len()) as int) =~= d);
    let f = "rsync failed after "@ + d + "ms with error: "@ + err@;
    assert(f.subrange(f.len() - err@.len(), f.len() as int) =~= err@);
}

/// The status line that a transfer report shows.
pub open spec fn rsync_status_view(status: RsyncStatus) -> StatusView {
    match status {
        RsyncStatus::Progress(m) => StatusView { level: StatusMsgLevel::Info, msg: m@ },
        RsyncStatus::Completed(ms) => StatusView {
            level: StatusMsgLevel::Info,
            msg: "rsync finished in "@ + decimal(ms as nat) + "ms"@,
        },
        RsyncStatus::Failed(err, ms) => StatusView {
            level: StatusMsgLevel::Error,
            msg: "rsync failed after "@ + decimal(ms as nat) + "ms with error: "@ + err@,
        },
    }
}

/// The status line for a transfer report.
pub fn rsync_status_message(status: RsyncStatus) -> (m: StatusMsg)
    ensures
        m@ == rsync_status_view(status),
{
    match status {
        RsyncStatus::Progress(msg) => StatusMsg { level: StatusMsgLevel::Info, msg },
        RsyncStatus::Completed(ms) => {
            let mut msg = string_of("rsync finished in ");
            push_decimal(&mut msg, ms);
            push_all(&mut msg, "ms");
            StatusMsg { level: StatusMsgLevel::Info, msg }
        },
        RsyncStatus::Failed(err, ms) => {
            let mut msg = string_of("rsync failed after ");
            push_decimal(&mut msg, ms);
            push_all(&mut msg, "ms with error: ");
            push_all(&mut msg, err.as_str());
            StatusMsg { level: StatusMsgLevel::Error, msg }
        },
    }
}

/// What a message from the background connection does: success opens the
/// transfer screen, failure returns to the host list, a request for input
/// opens the password prompt, and its output is kept for that prompt.
pub open spec fn ssh_event_view(v: AppView, event: SshEstablishControlMaster) -> AppView {
    match event {
        SshEstablishControlMaster::Succsess => AppView { app_mode: AppMode::Rsync, ..v },
        SshEstablishControlMaster::Failure => AppView { app_mode: AppMode::SelectHost, ..v },
        SshEstablishControlMaster::PasswordPromt(text) => AppView {
            ssh_login_output: v.ssh_login_output + text@,
            ..v
        },
        SshEstablishControlMaster::UserInputReqired => AppView {
            app_mode: AppMode::SshPasswordPromt,
            ..v
        },
    }
}

/// The status line when sending the typed input to the background
/// connection failed with `error`.
pub open spec fn login_send_failed_view(error: Seq<char>) -> StatusView {
    StatusView {
        level: StatusMsgLevel::Error,
        msg: "error while sending user input to portable_pty: "@ + error,
    }
}

/// The status line when the bundled transfer program could not be prepared
/// for the reason `error`.
pub open spec fn rsync_prepare_failed_view(error: Seq<char>) -> StatusView {
    StatusView {
        level: StatusMsgLevel::Warn,
        msg: "failed to prepare bundeled rsync binary -> use host rsync error: "@ + error,
    }
}

/// The status line when sending the typed input to the background
/// connection failed with `error`.
pub fn login_send_failed_message(error: &str) -> (m: StatusMsg)
    ensures
        m@ == login_send_failed_view(error@),
{
    let mut msg = string_of("error while sending user input to portable_pty: ");
    push_all(&mut msg, error);
    StatusMsg { level: StatusMsgLevel::Error, msg }
}

/// The status line when the bundled transfer program could not be prepared
/// for the reason `error`; the host's own program is used instead.
pub fn rsync_prepare_failed_message(error: &str) -> (m: StatusMsg)
    ensures
        m@ == rsync_prepare_failed_view(error@),
{
    let mut msg = string_of("failed to prepare bundeled rsync binary -> use host rsync error: ");
    push_all(&mut msg, error);
    StatusMsg { level: StatusMsgLevel::Warn, msg }
}

/// The status line when the control master could not be established.
pub open spec fn control_master_failed_view() -> StatusView {
    StatusView { level: StatusMsgLevel::Error, msg: "failed to establisch control master"@ }
}

impl App {
    /// Shows a transfer report in the status line.
    pub fn apply_rsync_status(&mut self, status: RsyncStatus)
        ensures
            final(self)@ == (AppView { status_msg: rsync_status_view(status), ..old(self)@ }),
    {
        self.status_msg = rsync_status_message(status);
    }

    /// Applies a message from the background connection (see
    /// [`ssh_event_view`]).
    pub fn apply_ssh_event(&mut self, event: SshEstablishControlMaster)
        ensures
            final(self)@ == ssh_event_view(old(self)@, event),
    {
        match event {
            SshEstablishControlMaster::Succsess => {
                self.app_mode = AppMode::Rsync;
            },
            SshEstablishControlMaster::Failure => {
                self.app_mode = AppMode::SelectHost;
            },
            SshEstablishControlMaster::PasswordPromt(text) => {
                push_all(&mut self.ssh_login_output, text.as_str());
            },
            SshEstablishControlMaster::UserInputReqired => {
                self.app_mode = AppMode::SshPasswordPromt;
            },
        }
    }

    /// Shows a status message.
    pub fn apply_status_msg(&mut self, msg: StatusMsg)
        ensures
            final(self)@ == (AppView { status_msg: msg@, ..old(self)@ }),
    {
        self.status_msg = msg;
    }

    /// Takes the oldest pending command, if any.
    pub fn pop_command(&mut self) -> (c: Option<AppCommand>)
        ensures
            old(self)@.commands.len() == 0 ==> c is None && final(self)@ == old(self)@,
            old(self)@.commands.len() > 0 ==> c == Some(old(self)@.commands[0]) && final(self)@
                == (AppView { commands: old(self)@.commands.drop_first(), ..old(self)@ }),
    {
        let c = self.commands.pop_front();
        proof {
            if old(self)@.commands.len() > 0 {
                assert(final(self)@ =~= (AppView {
                    commands: old(self)@.commands.drop_first(),
                    ..old(self)@
                }));
            }
        }
        c
    }

    /// The typed input was sent to the background connection: the input is
    /// cleared, and the selected host is returned so that its control
    /// master can be checked.
    pub fn login_input_sent(&mut self) -> (h: SshHost)
        ensures
            final(self)@ == (AppView { ssh_login_input: seq![], ..old(self)@ }),
            h@ == old(self)@.selected_ssh_host,
    {
        self.ssh_login_input = String::new();
        assert(final(self)@ =~= (AppView { ssh_login_input: seq![], ..old(self)@ }));
        self.selected_ssh_host.copy()
    }

    /// The control master check after the input: an established master
    /// opens the transfer screen; otherwise the host list returns and the
    /// status message to post is returned.
    pub fn control_master_checked(&mut self, established: bool) -> (m: Option<StatusMsg>)
        ensures
            established ==> m is None && final(self)@ == (AppView {
                app_mode: AppMode::Rsync,
                ..old(self)@
            }),
            !established ==> (m matches Some(s) && s@ == control_master_failed_view()),
            !established ==> final(self)@ == (AppView {
                app_mode: AppMode::SelectHost,
                ..old(self)@
            }),
    {
        if established {
            self.app_mode = AppMode::Rsync;
            None
        } else {
            self.app_mode = AppMode::SelectHost;
            Some(StatusMsg {
                level: StatusMsgLevel::Error,
                msg: string_of("failed to establisch control master"),
            })
        }
    }

    /// Applies a listing of remote folders to the remote path input (see
    /// [`crate::actions::process_remote_suggestions`]).
    pub fn apply_remote_suggestions(&mut self, suggestions: PathSuggestions)
        ensures
            final(self)@ == remote_suggestions_view(
                old(self)@,
                suggestions.folders.deep_view(),
                suggestions.files.deep_view(),
            ),
    {
        process_remote_suggestions(suggestions.folders, suggestions.files, self);
    }
}

} // verus!
