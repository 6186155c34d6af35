//! The texts that the screen shows, apart from their colours and layout.
use vstd::prelude::*;

use crate::app::{App, RsyncActiveInput, StatusMsgLevel, filtered_hosts};
use crate::ssh_config::{SshHost, SshHostView, host_views};
use crate::text::push_all;
use crate::app::string_of;

verus! {

/// `label` followed by the text of `o`, if there is one.
pub open spec fn labelled(label: Seq<char>, o: Option<Seq<char>>) -> Seq<Seq<char>> {
    match o {
        Some(t) => seq![label + t],
        None => seq![],
    }
}

/// The detail lines of a host: its alias, then its host name, port, user
/// and jump host where they are set.
pub open spec fn host_detail_lines_spec(h: SshHostView) -> Seq<Seq<char>> {
    seq!["Alias:     "@ + h.host] + labelled("Host:      "@, h.host_name) + labelled(
        "Port:      "@,
        h.port,
    ) + labelled("User:      "@, h.user) + labelled("ProxyJump: "@, h.proxy_jump)
}

fn push_labelled(lines: &mut Vec<String>, label: &str, o: &Option<String>)
    ensures
        final(lines).deep_view() == old(lines).deep_view() + labelled(label@, o.deep_view()),
{
    let ghost before = lines.deep_view();
    match o {
        Some(t) => {
            let mut s = string_of(label);
            push_all(&mut s, t.as_str());
            lines.push(s);
            assert(lines.deep_view() =~= before + labelled(label@, o.deep_view()));
        },
        None => {
            assert(lines.deep_view() =~= before + labelled(label@, o.deep_view()));
        },
    }
}

/// The detail lines of a host (see [`host_detail_lines_spec`]).
pub fn host_detail_lines(ssh_host: &SshHost) -> (lines: Vec<String>)
    ensures
        lines.deep_view() == host_detail_lines_spec(ssh_host@),
{
    let mut lines: Vec<String> = Vec::new();
    let mut alias = string_of("Alias:     ");
    push_all(&mut alias, ssh_host.host.as_str());
    lines.push(alias);
    assert(lines.deep_view() =~= seq!["Alias:     "@ + ssh_host@.host]);
    push_labelled(&mut lines, "Host:      ", &ssh_host.host_name);
    push_labelled(&mut lines, "Port:      ", &ssh_host.port);
    push_labelled(&mut lines, "User:      ", &ssh_host.user);
    push_labelled(&mut lines, "ProxyJump: ", &ssh_host.proxy_jump);
    lines
}

/// The text of `o`, or the empty text.
pub open spec fn or_empty(o: Option<Seq<char>>) -> Seq<char> {
    match o {
        Some(t) => t,
        None => seq![],
    }
}

/// The pieces of a host's line in the host list:
/// `alias (user@host_name:port)`, with unset fields left empty.
pub open spec fn host_list_entry_spec(h: SshHostView) -> Seq<Seq<char>> {
    seq![
        h.host,
        " ("@,
        or_empty(h.user),
        "@"@,
        or_empty(h.host_name),
        ":"@,
        or_empty(h.port),
        ")"@,
    ]
}

/// A host's list line is its alias, ` (`, its user, `@`, its host name,
/// `:`, its port and `)`, with an unset field shown as nothing.
pub proof fn law_host_list_entry_order(h: SshHostView)
    ensures
        host_list_entry_spec(h).len() == 8,
        host_list_entry_spec(h)[0] == h.host,
        host_list_entry_spec(h)[2] == match h.user {
            Some(u) => u,
            None => Seq::<char>::empty(),
        },
        host_list_entry_spec(h)[4] == match h.host_name {
            Some(n) => n,
            None => Seq::<char>::empty(),
        },
        host_list_entry_spec(h)[6] == match h.port {
            Some(p) => p,
            None => Seq::<char>::empty(),
        },
        host_list_entry_spec(h)[3] == "@"@,
        host_list_entry_spec(h)[5] == ":"@,
{
}

/// A host's detail lines start with its alias and list the set fields in
/// the order host name, port, user, jump host, each after its label.
pub proof fn law_host_detail_lines(h: SshHostView)
    ensures
        host_detail_lines_spec(h)[0] == "Alias:     "@ + h.host,
        host_detail_lines_spec(h).len() == 1 + (if h.host_name is Some {
            1int
        } else {
            0
        }) + (if h.port is Some {
            1int
        } else {
            0
        }) + (if h.user is Some {
            1int
        } else {
            0
        }) + (if h.proxy_jump is Some {
            1int
        } else {
            0
        }),
        h.host_name matches Some(n) ==> host_detail_lines_spec(h)[1] == "Host:      "@ + n,
        h.host_name is None ==> (h.port matches Some(p) ==> host_detail_lines_spec(h)[1]
            == "Port:      "@ + p),
        h.proxy_jump matches Some(j) ==> host_detail_lines_spec(h).last() == "ProxyJump: "@ + j,
{
}

fn text_or_empty(o: &Option<String>) -> (s: String)
    ensures
        s@ == or_empty(o.deep_view()),
{
    match o {
        Some(t) => t.clone(),
        None => String::new(),
    }
}

/// The pieces of a host's line in the host list (see
/// [`host_list_entry_spec`]).
pub fn host_list_entry(ssh_host: &SshHost) -> (pieces: Vec<String>)
    ensures
        pieces.deep_view() == host_list_entry_spec(ssh_host@),
{
    let pieces = vec![
        ssh_host.host.clone(),
        string_of(" ("),
        text_or_empty(&ssh_host.user),
        string_of("@"),
        text_or_empty(&ssh_host.host_name),
        string_of(":"),
        text_or_empty(&ssh_host.port),
        string_of(")"),
    ];
    assert(pieces.deep_view() =~= host_list_entry_spec(ssh_host@));
    pieces
}

/// The host list for the current search: the pieces of each shown host's
/// line, in list order.
pub fn host_list_entries(app: &App) -> (entries: Vec<Vec<String>>)
    ensures
        entries@.len() == filtered_hosts(host_views(app.ssh_hosts@), app.search_query@).len(),
        forall|i: int|
            0 <= i < entries@.len() ==> (#[trigger] entries@[i]).deep_view()
                == host_list_entry_spec(
                filtered_hosts(host_views(app.ssh_hosts@), app.search_query@)[i],
            ),
{
    let hosts = app.get_filtered_ssh_hosts();
    let ghost shown = hosts@.map_values(|h: &SshHost| h@);
    let mut entries: Vec<Vec<String>> = Vec::new();
    let mut i: usize = 0;
    while i < hosts.len()
        invariant
            0 <= i <= hosts@.len(),
            shown == hosts@.map_values(|h: &SshHost| h@),
            entries@.len() == i,
            forall|j: int|
                0 <= j < i ==> (#[trigger] entries@[j]).deep_view() == host_list_entry_spec(
                    shown[j],
                ),
        decreases hosts.len() - i,
    {
        entries.push(host_list_entry(hosts[i]));
        i += 1;
    }
    entries
}

/// How a piece of the completion line is shown.
#[derive(Debug, Clone, Copy, PartialEq, Eq, Structural)]
pub enum SegmentKind {
    Folder,
    Separator,
    File,
}

/// A piece of the completion line.
#[derive(Debug)]
pub struct Segment {
    pub text: String,
    pub kind: SegmentKind,
}

/// The pieces of the completion line: each folder as ` name` followed by
/// `/`, then each file as ` name`.
pub open spec fn suggestion_segments_spec(folders: Seq<Seq<char>>, files: Seq<Seq<char>>) -> Seq<
    (Seq<char>, SegmentKind),
> {
    folder_segments(folders) + file_segments(files)
}

/// Each folder as ` name` followed by `/`.
pub open spec fn folder_segments(folders: Seq<Seq<char>>) -> Seq<(Seq<char>, SegmentKind)>
    decreases folders.len(),
{
    if folders.len() == 0 {
        seq![]
    } else {
        folder_segments(folders.drop_last()) + seq![
            (seq![' '] + folders.last(), SegmentKind::Folder),
            (seq!['/'], SegmentKind::Separator),
        ]
    }
}

/// Each file as ` name`.
pub open spec fn file_segments(files: Seq<Seq<char>>) -> Seq<(Seq<char>, SegmentKind)>
    decreases files.len(),
{
    if files.len() == 0 {
        seq![]
    } else {
        file_segments(files.drop_last()) + seq![(seq![' '] + files.last(), SegmentKind::File)]
    }
}

proof fn lemma_folder_segments(folders: Seq<Seq<char>>)
    ensures
        folder_segments(folders).len() == 2 * folders.len(),
        forall|i: int|
            #![trigger folders[i]]
            0 <= i < folders.len() ==> folder_segments(folders)[2 * i] == (
                seq![' '] + folders[i],
                SegmentKind::Folder,
            ) && folder_segments(folders)[2 * i + 1] == (seq!['/'], SegmentKind::Separator),
    decreases folders.len(),
{
    if folders.len() > 0 {
        let init = folders.drop_last();
        lemma_folder_segments(init);
        assert forall|i: int| #![trigger folders[i]] 0 <= i < folders.len() implies folder_segments(
            folders,
        )[2 * i] == (seq![' '] + folders[i], SegmentKind::Folder) && folder_segments(folders)[2 * i
            + 1] == (seq!['/'], SegmentKind::Separator) by {
            if i < init.len() {
                assert(init[i] == folders[i]);
            }
        }
    }
}

proof fn lemma_file_segments(files: Seq<Seq<char>>)
    ensures
        file_segments(files).len() == files.len(),
        forall|j: int|
            #![trigger files[j]]
            0 <= j < files.len() ==> file_segments(files)[j] == (
                seq![' '] + files[j],
                SegmentKind::File,
            ),
    decreases files.len(),
{
    if files.len() > 0 {
        let init = files.drop_last();
        lemma_file_segments(init);
        assert forall|j: int| #![trigger files[j]] 0 <= j < files.len() implies file_segments(
            files,
        )[j] == (seq![' '] + files[j], SegmentKind::File) by {
            if j < init.len() {
                assert(init[j] == files[j]);
            }
        }
    }
}

/// The completion line shows every folder, in order, as ` name` followed by
/// a `/` separator, and after all folders every file, in order, as
/// ` name`; nothing else.
pub proof fn law_suggestion_segments(folders: Seq<Seq<char>>, files: Seq<Seq<char>>)
    ensures
        suggestion_segments_spec(folders, files).len() == 2 * folders.len() + files.len(),
        forall|i: int|
            #![trigger folders[i]]
            0 <= i < folders.len() ==> suggestion_segments_spec(folders, files)[2 * i] == (
                seq![' '] + folders[i],
                SegmentKind::Folder,
            ) && suggestion_segments_spec(folders, files)[2 * i + 1] == (
                seq!['/'],
                SegmentKind::Separator,
            ),
        forall|j: int|
            #![trigger files[j]]
            0 <= j < files.len() ==> suggestion_segments_spec(folders, files)[2 * folders.len()
                + j] == (seq![' '] + files[j], SegmentKind::File),
{
    lemma_folder_segments(folders);
    lemma_file_segments(files);
}

/// The model of a list of pieces.
pub open spec fn segment_views(s: Seq<Segment>) -> Seq<(Seq<char>, SegmentKind)> {
    s.map_values(|x: Segment| (x.text@, x.kind))
}

/// The pieces of the completion line (see [`suggestion_segments_spec`]).
pub fn suggestion_segments(folders: &Vec<String>, files: &Vec<String>) -> (r: Vec<Segment>)
    ensures
        segment_views(r@) == suggestion_segments_spec(folders.deep_view(), files.deep_view()),
{
    let mut r: Vec<Segment> = Vec::new();
    let ghost fs = folders.deep_view();
    let ghost gs = files.deep_view();
    let mut i: usize = 0;
    assert(fs.take(0) =~= seq![]);
    assert(segment_views(r@) =~= seq![]);
    while i < folders.len()
        invariant
            0 <= i <= folders@.len(),
            fs == folders.deep_view(),
            segment_views(r@) == folder_segments(fs.take(i as int)),
        decreases folders.len() - i,
    {
        assert(fs.take(i + 1).drop_last() =~= fs.take(i as int));
        assert(fs[i as int] == folders@[i as int]@);
        let ghost before = segment_views(r@);
        let mut t = String::new();
        t.push(' ');
        push_all(&mut t, folders[i].as_str());
        r.push(Segment { text: t, kind: SegmentKind::Folder });
        let mut sep = String::new();
        sep.push('/');
        r.push(Segment { text: sep, kind: SegmentKind::Separator });
        assert(segment_views(r@) =~= folder_segments(fs.take(i + 1)));
        i += 1;
    }
    assert(fs.take(folders@.len() as int) =~= fs);
    let ghost mid = segment_views(r@);
    let mut k: usize = 0;
    assert(gs.take(0) =~= seq![]);
    assert(mid + file_segments(gs.take(0)) =~= mid);
    while k < files.len()
        invariant
            0 <= k <= files@.len(),
            gs == files.deep_view(),
            segment_views(r@) == mid + file_segments(gs.take(k as int)),
        decreases files.len() - k,
    {
        assert(gs.take(k + 1).drop_last() =~= gs.take(k as int));
        assert(gs[k as int] == files@[k as int]@);
        let ghost before = segment_views(r@);
        let mut t = String::new();
        t.push(' ');
        push_all(&mut t, files[k].as_str());
        let ghost tv = t@;
        r.push(Segment { text: t, kind: SegmentKind::File });
        assert(segment_views(r@) =~= before.push((tv, SegmentKind::File)));
        let ghost x = file_segments(gs.take(k as int));
        let ghost y = seq![(seq![' '] + gs[k as int], SegmentKind::File)];
        assert(file_segments(gs.take(k + 1)) == x + y);
        assert(mid + (x + y) =~= (mid + x) + y);
        assert(segment_views(r@) =~= mid + file_segments(gs.take(k + 1)));
        k += 1;
    }
    assert(gs.take(files@.len() as int) =~= gs);
    r
}

/// The search line: `search: ` and the query, then a space.
pub fn search_line(query: &String) -> (s: String)
    ensures
        s@ == "search: "@ + query@ + " "@,
{
    let mut s = string_of("search: ");
    push_all(&mut s, query.as_str());
    push_all(&mut s, " ");
    s
}

/// A line of the transfer screen: the label, the value, then a space.
pub fn labelled_line(label: &str, value: &String) -> (s: String)
    ensures
        s@ == label@ + value@ + " "@,
{
    let mut s = string_of(label);
    push_all(&mut s, value.as_str());
    push_all(&mut s, " ");
    s
}

/// The colour of the status line.
#[derive(Debug, Clone, Copy, PartialEq, Eq, Structural)]
pub enum StatusColor {
    Green,
    Yellow,
    Red,
}

/// The colour of the status line: green for information, yellow for a
/// warning, red for an error.
pub fn status_color(level: StatusMsgLevel) -> (c: StatusColor)
    ensures
        c == match level {
            StatusMsgLevel::Info => StatusColor::Green,
            StatusMsgLevel::Warn => StatusColor::Yellow,
            StatusMsgLevel::Error => StatusColor::Red,
        },
{
    match level {
        StatusMsgLevel::Info => StatusColor::Green,
        StatusMsgLevel::Warn => StatusColor::Yellow,
        StatusMsgLevel::Error => StatusColor::Red,
    }
}

/// Whether the host list shows the search line: when the query is not
/// empty.
pub fn shows_search_line(app: &App) -> (b: bool)
    ensures
        b == (app.search_query@.len() > 0),
{
    !app.search_query.as_str().is_empty()
}

/// The row of the transfer screen's path lines that holds the cursor:
/// 1 for the local path, 2 for the remote path (row 0 names the host).
pub fn active_row(app: &App) -> (r: usize)
    ensures
        r == match app.rsync_active_input {
            RsyncActiveInput::Local => 1usize,
            RsyncActiveInput::Remote => 2usize,
        },
{
    match app.rsync_active_input {
        RsyncActiveInput::Local => 1,
        RsyncActiveInput::Remote => 2,
    }
}

/// The cursor position of the active path input.
pub fn active_cursor_pos(app: &App) -> (p: usize)
    ensures
        p == match app.rsync_active_input {
            RsyncActiveInput::Local => app.rsync_local_path_cursor_pos,
            RsyncActiveInput::Remote => app.rsync_remote_path_cursor_pos,
        },
{
    match app.rsync_active_input {
        RsyncActiveInput::Local => app.rsync_local_path_cursor_pos,
        RsyncActiveInput::Remote => app.rsync_remote_path_cursor_pos,
    }
}

/// Whether [`cursor_column`] can place the cursor: the column fits in a
/// screen coordinate.
pub open spec fn cursor_column_fits(area_x: u16, pos: usize) -> bool {
    area_x + 13 + (pos as u16) <= u16::MAX
}

/// The screen column of the cursor: after the 13 characters of the label
/// that starts at `area_x`, and `pos` (taken as a screen coordinate)
/// further.
pub fn cursor_column(area_x: u16, pos: usize) -> (c: u16)
    requires
        cursor_column_fits(area_x, pos),
    ensures
        c == area_x + 13 + (pos as u16),
{
    area_x + 13 + (pos as u16)
}

/// Whether the cursor column fits in a screen coordinate (see
/// [`cursor_column_fits`]).
pub fn cursor_column_in_range(area_x: u16, pos: usize) -> (b: bool)
    ensures
        b == cursor_column_fits(area_x, pos),
{
    (area_x as u32) + 13 + ((pos as u16) as u32) <= 65535
}

/// The suggestions of the active path input: its folders and its files.
pub fn active_suggestions(app: &App) -> (r: (&Vec<String>, &Vec<String>))
    ensures
        r.0@ == match app.rsync_active_input {
            RsyncActiveInput::Local => app.local_suggestions.folders@,
            RsyncActiveInput::Remote => app.remote_suggestions.folders@,
        },
        r.1@ == match app.rsync_active_input {
            RsyncActiveInput::Local => app.local_suggestions.files@,
            RsyncActiveInput::Remote => app.remote_suggestions.files@,
        },
{
    match app.rsync_active_input {
        RsyncActiveInput::Local => (&app.local_suggestions.folders, &app.local_suggestions.files),
        RsyncActiveInput::Remote => (&app.remote_suggestions.folders, &app.remote_suggestions.files),
    }
}

} // verus!
