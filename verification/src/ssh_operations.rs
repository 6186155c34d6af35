//! The command lines of the `ssh` and `rsync` processes, and what their
//! output means.
use vstd::prelude::*;

use crate::actions::{TransferDirection, split_path, split_path_spec};
use crate::app::{
    RsyncStatus, SshEstablishControlMaster, StatusMsg, StatusMsgLevel, StatusView, string_of,
};
use crate::ssh_config::{SshHost, SshHostView};
use crate::text::{
    chars_of, contains_chars, contains_seq, decimal, ends_with_char, join_spaces, lines_of,
    push_all, push_decimal, split_lines, split_words, string_from_chars, trim, trim_chars, words,
};

verus! {

/// What `String::from_utf8_lossy` makes of a byte sequence: its UTF-8
/// decoding, with each invalid sequence replaced by U+FFFD.
pub uninterp spec fn utf8_lossy(bytes: Seq<u8>) -> Seq<char>;

/// `String::from_utf8_lossy`, turned into an owned `String`.  The result is
/// named [`utf8_lossy`]; for valid UTF-8 it is the decoding of the bytes.
#[verifier::external_body]
fn decode_utf8_lossy(bytes: &[u8]) -> (s: String)
    ensures
        s@ == utf8_lossy(bytes@),
        vstd::utf8::valid_utf8(bytes@) ==> s@ == vstd::utf8::decode_utf8(bytes@),
{
    String::from_utf8_lossy(bytes).into_owned()
}

/// `s` with every `from` replaced by `to`.
pub open spec fn replace_char(s: Seq<char>, from: char, to: char) -> Seq<char> {
    s.map_values(|c: char| if c == from { to } else { c })
}

/// The path of the control socket for a host: the alias, with `:` replaced
/// by `-`, after `/tmp/simple-ssh-tui-rs-`.
pub open spec fn control_path_spec(h: SshHostView) -> Seq<char> {
    "/tmp/simple-ssh-tui-rs-"@ + replace_char(h.host, ':', '-')
}

/// The path of the control socket for a host (see [`control_path_spec`]).
pub fn control_path(ssh_host: &SshHost) -> (p: String)
    ensures
        p@ == control_path_spec(ssh_host@),
{
    let mut p = string_of("/tmp/simple-ssh-tui-rs-");
    let ghost start = p@;
    let v = chars_of(ssh_host.host.as_str());
    let ghost r = replace_char(v@, ':', '-');
    let mut i: usize = 0;
    while i < v.len()
        invariant
            0 <= i <= v.len(),
            v@ == ssh_host.host@,
            r == replace_char(v@, ':', '-'),
            p@ == start + r.take(i as int),
        decreases v.len() - i,
    {
        let c = v[i];
        if c == ':' {
            p.push('-');
        } else {
            p.push(c);
        }
        assert(r.take(i + 1) =~= r.take(i as int).push(r[i as int]));
        i += 1;
    }
    assert(r.take(v.len() as int) =~= r);
    p
}

/// The control socket path never holds a `:`, which `ssh` would not accept
/// in a socket path.
pub proof fn law_control_path_has_no_colon(h: SshHostView)
    ensures
        !control_path_spec(h).contains(':'),
{
    let pre = "/tmp/simple-ssh-tui-rs-"@;
    let r = replace_char(h.host, ':', '-');
    reveal_strlit("/tmp/simple-ssh-tui-rs-");
    assert forall|i: int| 0 <= i < control_path_spec(h).len() implies #[trigger] control_path_spec(
        h,
    )[i] != ':' by {
        if i >= pre.len() {
            assert(control_path_spec(h)[i] == r[i - pre.len()]);
        }
    }
}

/// The control socket path of a host is `/tmp/simple-ssh-tui-rs-` followed
/// by the alias, character for character, except that each `:` of the alias
/// becomes `-`.
pub proof fn law_control_path_follows_alias(h: SshHostView)
    ensures
        ({
            let pre = "/tmp/simple-ssh-tui-rs-"@;
            let p = control_path_spec(h);
            &&& p.len() == pre.len() + h.host.len()
            &&& p.subrange(0, pre.len() as int) == pre
            &&& forall|i: int|
                #![trigger h.host[i]]
                0 <= i < h.host.len() ==> p[pre.len() + i] == if h.host[i] == ':' {
                    '-'
                } else {
                    h.host[i]
                }
        }),
{
    let pre = "/tmp/simple-ssh-tui-rs-"@;
    let p = control_path_spec(h);
    assert(p.subrange(0, pre.len() as int) =~= pre);
}

/// The options of every `ssh` call: share one connection per host through a
/// control socket kept for 90 minutes, and fixed timeouts, keep-alives,
/// compression, service class and host key policy.
pub open spec fn ssh_base_args_spec(h: SshHostView) -> Seq<Seq<char>> {
    seq![
        "-o"@,
        "ControlMaster=auto"@,
        "-o"@,
        "ControlPath="@ + control_path_spec(h),
        "-o"@,
        "ControlPersist=90m"@,
        "-o"@,
        "ConnectTimeout=15"@,
        "-o"@,
        "ConnectionAttempts=2"@,
        "-o"@,
        "ServerAliveInterval=30"@,
        "-o"@,
        "ServerAliveCountMax=3"@,
        "-o"@,
        "Compression=yes"@,
        "-o"@,
        "IPQoS=throughput"@,
        "-o"@,
        "StrictHostKeyChecking=accept-new"@,
    ]
}

/// The options of every `ssh` call (see [`ssh_base_args_spec`]).
pub fn ssh_base_args(ssh_host: &SshHost) -> (args: Vec<String>)
    ensures
        args.deep_view() == ssh_base_args_spec(ssh_host@),
{
    let mut control = string_of("ControlPath=");
    let cp = control_path(ssh_host);
    push_all(&mut control, cp.as_str());
    let args = vec![
        string_of("-o"),
        string_of("ControlMaster=auto"),
        string_of("-o"),
        control,
        string_of("-o"),
        string_of("ControlPersist=90m"),
        string_of("-o"),
        string_of("ConnectTimeout=15"),
        string_of("-o"),
        string_of("ConnectionAttempts=2"),
        string_of("-o"),
        string_of("ServerAliveInterval=30"),
        string_of("-o"),
        string_of("ServerAliveCountMax=3"),
        string_of("-o"),
        string_of("Compression=yes"),
        string_of("-o"),
        string_of("IPQoS=throughput"),
        string_of("-o"),
        string_of("StrictHostKeyChecking=accept-new"),
    ];
    assert(args.deep_view() =~= ssh_base_args_spec(ssh_host@));
    args
}

/// Appends copies of `extra` to `args`.
fn append_strings(args: &mut Vec<String>, extra: Vec<String>)
    ensures
        final(args).deep_view() == old(args).deep_view() + extra.deep_view(),
{
    let ghost start = args.deep_view();
    let mut i: usize = 0;
    while i < extra.len()
        invariant
            0 <= i <= extra@.len(),
            args.deep_view() == start + extra.deep_view().take(i as int),
        decreases extra.len() - i,
    {
        let ghost before = args.deep_view();
        args.push(extra[i].clone());
        assert(args.deep_view() =~= before.push(extra@[i as int]@));
        assert(extra.deep_view().take(i + 1) =~= extra.deep_view().take(i as int).push(
            extra@[i as int]@,
        ));
        i += 1;
    }
    assert(extra.deep_view().take(extra@.len() as int) =~= extra.deep_view());
}

/// The arguments of the interactive `ssh` session with a host: the common
/// options and the alias.
pub open spec fn interactive_ssh_args_spec(h: SshHostView) -> Seq<Seq<char>> {
    ssh_base_args_spec(h).push(h.host)
}

/// The arguments of the interactive `ssh` session with a host.
pub fn interactive_ssh_args(ssh_host: &SshHost) -> (args: Vec<String>)
    ensures
        args.deep_view() == interactive_ssh_args_spec(ssh_host@),
{
    let mut args = ssh_base_args(ssh_host);
    let ghost before = args.deep_view();
    args.push(ssh_host.host.clone());
    assert(args.deep_view() =~= before.push(ssh_host@.host));
    args
}

/// The arguments of the background `ssh` process that establishes the
/// control master without a remote command.
pub open spec fn background_ssh_args_spec(h: SshHostView) -> Seq<Seq<char>> {
    ssh_base_args_spec(h) + seq!["-o"@, "ExitOnForwardFailure=yes"@, "-MN"@, h.host]
}

/// The arguments of the background `ssh` process that establishes the
/// control master.
pub fn background_ssh_args(ssh_host: &SshHost) -> (args: Vec<String>)
    ensures
        args.deep_view() == background_ssh_args_spec(ssh_host@),
{
    let mut args = ssh_base_args(ssh_host);
    let extra = vec![
        string_of("-o"),
        string_of("ExitOnForwardFailure=yes"),
        string_of("-MN"),
        ssh_host.host.clone(),
    ];
    assert(extra.deep_view() =~= seq![
        "-o"@,
        "ExitOnForwardFailure=yes"@,
        "-MN"@,
        ssh_host@.host,
    ]);
    append_strings(&mut args, extra);
    args
}

/// The arguments of the `ssh` call that asks whether a host's control
/// master runs.
pub open spec fn check_control_master_args_spec(h: SshHostView) -> Seq<Seq<char>> {
    seq!["-o"@, "ControlPath="@ + control_path_spec(h), "-O"@, "check"@, h.host]
}

/// The arguments of the `ssh` call that asks whether a host's control
/// master runs.
pub fn check_control_master_args(ssh_host: &SshHost) -> (args: Vec<String>)
    ensures
        args.deep_view() == check_control_master_args_spec(ssh_host@),
{
    let mut control = string_of("ControlPath=");
    let cp = control_path(ssh_host);
    push_all(&mut control, cp.as_str());
    let args = vec![
        string_of("-o"),
        control,
        string_of("-O"),
        string_of("check"),
        ssh_host.host.clone(),
    ];
    assert(args.deep_view() =~= check_control_master_args_spec(ssh_host@));
    args
}

/// Whether the output of the background connection asks for a password: it
/// holds `pass` or `Pass`.
pub open spec fn asks_password(text: Seq<char>) -> bool {
    contains_seq(text, "pass"@) || contains_seq(text, "Pass"@)
}

/// Whether the output of the background connection asks for a password.
pub fn contains_paasswd_promt(text: &String) -> (b: bool)
    ensures
        b == asks_password(text@),
{
    let v = chars_of(text.as_str());
    let p1 = chars_of("pass");
    let p2 = chars_of("Pass");
    contains_chars(&v, &p1) || contains_chars(&v, &p2)
}

/// `e` passes on the output `text` of the background connection.
pub open spec fn is_output_text(e: SshEstablishControlMaster, text: Seq<char>) -> bool {
    e matches SshEstablishControlMaster::PasswordPromt(t) && t@ == text
}

/// The reports for one piece of decoded output of the background
/// connection: [`SshEstablishControlMaster::UserInputReqired`] when it asks
/// for a password, then the text as
/// [`SshEstablishControlMaster::PasswordPromt`].
pub fn pty_text_events(text: String) -> (r: Vec<SshEstablishControlMaster>)
    ensures
        asks_password(text@) ==> r@.len() == 2 && r@[0] is UserInputReqired && is_output_text(
            r@[1],
            text@,
        ),
        !asks_password(text@) ==> r@.len() == 1 && is_output_text(r@[0], text@),
{
    let mut r: Vec<SshEstablishControlMaster> = Vec::new();
    if contains_paasswd_promt(&text) {
        r.push(SshEstablishControlMaster::UserInputReqired);
    }
    r.push(SshEstablishControlMaster::PasswordPromt(text));
    r
}

/// The reports for bytes read from the background connection: those of
/// their lossy UTF-8 decoding (see [`pty_text_events`]).
pub fn pty_output_events(bytes: &[u8]) -> (r: Vec<SshEstablishControlMaster>)
    ensures
        asks_password(utf8_lossy(bytes@)) ==> r@.len() == 2 && r@[0] is UserInputReqired
            && is_output_text(r@[1], utf8_lossy(bytes@)),
        !asks_password(utf8_lossy(bytes@)) ==> r@.len() == 1 && is_output_text(
            r@[0],
            utf8_lossy(bytes@),
        ),
{
    pty_text_events(decode_utf8_lossy(bytes))
}

/// The target of a transfer: `alias:remote_path`.
pub open spec fn rsync_destination_spec(h: SshHostView, remote_path: Seq<char>) -> Seq<char> {
    h.host + ":"@ + remote_path
}

/// The remote shell that a transfer uses: `ssh` with the common options,
/// joined by spaces.
pub open spec fn rsync_rsh_spec(h: SshHostView) -> Seq<char> {
    "ssh "@ + join_spaces(ssh_base_args_spec(h))
}

/// The arguments of a transfer: archive mode, compression, no permissions,
/// owners or groups, overall progress, then source and target; an upload
/// copies the local path to the remote one, a download the other way.
pub open spec fn rsync_args_spec(
    h: SshHostView,
    local_path: Seq<char>,
    remote_path: Seq<char>,
    direction: TransferDirection,
) -> Seq<Seq<char>> {
    let opts = seq!["-avz"@, "--no-perms"@, "--no-owner"@, "--no-group"@, "--info=progress2"@];
    let remote = rsync_destination_spec(h, remote_path);
    match direction {
        TransferDirection::Upload => opts + seq![local_path, remote],
        TransferDirection::Download => opts + seq![remote, local_path],
    }
}

/// The remote shell that a transfer uses (see [`rsync_rsh_spec`]).
pub fn rsync_rsh(ssh_host: &SshHost) -> (s: String)
    ensures
        s@ == rsync_rsh_spec(ssh_host@),
{
    let args = ssh_base_args(ssh_host);
    let mut s = string_of("ssh ");
    let ghost start = s@;
    let ghost a = args.deep_view();
    let mut i: usize = 0;
    assert(a.take(0) =~= seq![]);
    while i < args.len()
        invariant
            0 <= i <= args@.len(),
            a == args.deep_view(),
            s@ == start + join_spaces(a.take(i as int)),
        decreases args.len() - i,
    {
        assert(a.take(i + 1).drop_last() =~= a.take(i as int));
        assert(a[i as int] == args@[i as int]@);
        if i > 0 {
            s.push(' ');
            assert(start + join_spaces(a.take(i as int)) + seq![' '] =~= start + (join_spaces(
                a.take(i as int),
            ) + seq![' ']));
        } else {
            assert(join_spaces(a.take(1)) == a[0]);
        }
        push_all(&mut s, args[i].as_str());
        assert(s@ =~= start + join_spaces(a.take(i + 1)));
        i += 1;
    }
    assert(a.take(args@.len() as int) =~= a);
    s
}

/// The arguments of a transfer (see [`rsync_args_spec`]).
pub fn rsync_args(
    ssh_host: &SshHost,
    local_path: &String,
    remote_path: &String,
    direction: TransferDirection,
) -> (args: Vec<String>)
    ensures
        args.deep_view() == rsync_args_spec(ssh_host@, local_path@, remote_path@, direction),
{
    let mut remote = ssh_host.host.clone();
    remote.push(':');
    push_all(&mut remote, remote_path.as_str());
    assert(remote@ =~= rsync_destination_spec(ssh_host@, remote_path@)) by {
        assert(":"@ == seq![':']) by {
            reveal_strlit(":");
        }
    }
    let (src, dst) = match direction {
        TransferDirection::Upload => (local_path.clone(), remote),
        TransferDirection::Download => (remote, local_path.clone()),
    };
    let args = vec![
        string_of("-avz"),
        string_of("--no-perms"),
        string_of("--no-owner"),
        string_of("--no-group"),
        string_of("--info=progress2"),
        src,
        dst,
    ];
    assert(args.deep_view() =~= rsync_args_spec(ssh_host@, local_path@, remote_path@, direction));
    args
}

/// What a line of the transfer's output reports: a line holding `%` is
/// progress, shown as its words separated by single spaces.
pub open spec fn rsync_progress_spec(line: Seq<char>) -> Option<Seq<char>> {
    let t = trim(line);
    if contains_seq(t, seq!['%']) {
        Some(join_spaces(words(t)))
    } else {
        None
    }
}

/// The progress text of a line of the transfer's output, if it reports
/// progress (see [`rsync_progress_spec`]).
pub fn rsync_progress(line: &str) -> (r: Option<String>)
    ensures
        r.deep_view() == rsync_progress_spec(line@),
{
    let v = chars_of(line);
    let t = trim_chars(&v);
    let pct = vec!['%'];
    assert(pct@ =~= seq!['%']);
    if !contains_chars(&t, &pct) {
        return None;
    }
    let ws = split_words(&t);
    let ghost a = ws.deep_view();
    let mut s = String::new();
    let mut i: usize = 0;
    assert(a.take(0) =~= seq![]);
    while i < ws.len()
        invariant
            0 <= i <= ws@.len(),
            a == ws.deep_view(),
            s@ == join_spaces(a.take(i as int)),
        decreases ws.len() - i,
    {
        assert(a.take(i + 1).drop_last() =~= a.take(i as int));
        assert(a[i as int] == ws@[i as int]@);
        if i > 0 {
            s.push(' ');
        } else {
            assert(join_spaces(a.take(1)) == a[0]);
        }
        let w = string_from_chars(&ws[i]);
        assert(a[i as int] =~= ws@[i as int]@);
        push_all(&mut s, w.as_str());
        assert(s@ =~= join_spaces(a.take(i + 1)));
        i += 1;
    }
    assert(a.take(ws@.len() as int) =~= a);
    Some(s)
}

/// The report when a transfer ended after `elapsed_ms` milliseconds.
pub fn rsync_outcome(success: bool, elapsed_ms: u128) -> (r: RsyncStatus)
    ensures
        success ==> r == RsyncStatus::Completed(elapsed_ms),
        !success ==> (r matches RsyncStatus::Failed(e, ms) && e@ == "Rsync failed with an error"@
            && ms == elapsed_ms),
{
    if success {
        RsyncStatus::Completed(elapsed_ms)
    } else {
        RsyncStatus::Failed(string_of("Rsync failed with an error"), elapsed_ms)
    }
}

/// The arguments of the `ssh` call that lists the remote directory of
/// `path` with `ls -p`, which marks folders with a trailing `/`.
pub open spec fn ls_over_ssh_args_spec(h: SshHostView, path: Seq<char>) -> Seq<Seq<char>> {
    ssh_base_args_spec(h) + seq![h.host, "ls -p "@ + split_path_spec(path).0]
}

/// The arguments of the `ssh` call that lists the remote directory of
/// `path` (see [`ls_over_ssh_args_spec`]).
pub fn ls_over_ssh_args(ssh_host: &SshHost, path: &str) -> (args: Vec<String>)
    ensures
        args.deep_view() == ls_over_ssh_args_spec(ssh_host@, path@),
{
    let mut args = ssh_base_args(ssh_host);
    let (parent_dir, _) = split_path(path);
    let mut cmd = string_of("ls -p ");
    push_all(&mut cmd, parent_dir.as_str());
    let extra = vec![ssh_host.host.clone(), cmd];
    assert(extra.deep_view() =~= seq![ssh_host@.host, "ls -p "@ + split_path_spec(path@).0]);
    append_strings(&mut args, extra);
    args
}

/// Every `ssh` call for a host goes through the same control socket, that
/// of the host's alias, and is addressed to the alias: the session, the
/// background connection and the check end with it, and the listing names
/// it before its command, which lists the directory of the path.
pub proof fn law_ssh_calls_share_connection(h: SshHostView, path: Seq<char>)
    ensures
        interactive_ssh_args_spec(h).last() == h.host,
        background_ssh_args_spec(h).last() == h.host,
        check_control_master_args_spec(h).last() == h.host,
        ls_over_ssh_args_spec(h, path)[ls_over_ssh_args_spec(h, path).len() - 2] == h.host,
        ls_over_ssh_args_spec(h, path).last() == "ls -p "@ + split_path_spec(path).0,
        interactive_ssh_args_spec(h).contains("ControlPath="@ + control_path_spec(h)),
        background_ssh_args_spec(h).contains("ControlPath="@ + control_path_spec(h)),
        check_control_master_args_spec(h).contains("ControlPath="@ + control_path_spec(h)),
        ls_over_ssh_args_spec(h, path).contains("ControlPath="@ + control_path_spec(h)),
{
    let cp = "ControlPath="@ + control_path_spec(h);
    assert(interactive_ssh_args_spec(h)[3] == cp);
    assert(background_ssh_args_spec(h)[3] == cp);
    assert(check_control_master_args_spec(h)[1] == cp);
    assert(ls_over_ssh_args_spec(h, path)[3] == cp);
}

/// A remote listing that succeeded is reported as information and one that
/// failed as an error, each with the elapsed milliseconds in decimal.
pub proof fn law_remote_listing_levels(elapsed_ms: u128)
    ensures
        remote_listing_status_spec(true, elapsed_ms).level == StatusMsgLevel::Info,
        remote_listing_status_spec(false, elapsed_ms).level == StatusMsgLevel::Error,
        contains_seq(remote_listing_status_spec(true, elapsed_ms).msg, decimal(elapsed_ms as nat)),
        contains_seq(remote_listing_status_spec(false, elapsed_ms).msg, decimal(elapsed_ms as nat)),
{
    let d = decimal(elapsed_ms as nat);
    let a = "getting remote folders took: "@;
    let b = "getting remote folders failed after: "@;
    assert((a + d + "ms"@).subrange(a.len() as int, (a.len() + d.len()) as int) =~= d);
    assert(crate::text::occurs_at(a + d + "ms"@, d, a.len() as int));
    assert((b + d + "ms"@).subrange(b.len() as int, (b.len() + d.len()) as int) =~= d);
    assert(crate::text::occurs_at(b + d + "ms"@, d, b.len() as int));
}

/// The folders in a listing made by `ls -p`: its lines that end with `/`,
/// in order.
pub open spec fn remote_folders_spec(listing: Seq<char>) -> Seq<Seq<char>> {
    lines_of(listing).filter(|l: Seq<char>| ends_with_char(l, '/'))
}

/// Every line of a listing that ends with `/` is among its folders.
pub proof fn law_remote_folders_complete(listing: Seq<char>, i: int)
    requires
        0 <= i < lines_of(listing).len(),
        ends_with_char(lines_of(listing)[i], '/'),
    ensures
        remote_folders_spec(listing).contains(lines_of(listing)[i]),
{
    let pred = |l: Seq<char>| ends_with_char(l, '/');
    lines_of(listing).lemma_filter_contains(pred, i);
}

/// A line of the transfer's output reports progress exactly when it holds
/// `%`; the progress text is its words separated by single spaces.
pub proof fn law_rsync_progress(line: Seq<char>)
    ensures
        rsync_progress_spec(line) is Some <==> line.contains('%'),
        rsync_progress_spec(line) is Some ==> rsync_progress_spec(line)->0 == join_spaces(
            words(line),
        ),
{
    crate::text::lemma_trim_contains(line, '%');
    crate::text::lemma_words_trim(line);
    if contains_seq(trim(line), seq!['%']) {
        let i = choose|i: int| crate::text::occurs_at(trim(line), seq!['%'], i);
        assert(trim(line)[i] == trim(line).subrange(i, i + 1)[0]);
    }
    if trim(line).contains('%') {
        let i = choose|i: int| 0 <= i < trim(line).len() && trim(line)[i] == '%';
        assert(trim(line).subrange(i, i + 1) =~= seq!['%']);
        assert(crate::text::occurs_at(trim(line), seq!['%'], i));
    }
}

/// Every folder taken from a listing ends with `/`.
pub proof fn law_remote_folders_are_marked(listing: Seq<char>)
    ensures
        forall|i: int|
            0 <= i < remote_folders_spec(listing).len() ==> ends_with_char(
                #[trigger] remote_folders_spec(listing)[i],
                '/',
            ),
{
    let pred = |l: Seq<char>| ends_with_char(l, '/');
    assert forall|i: int| 0 <= i < remote_folders_spec(listing).len() implies ends_with_char(
        #[trigger] remote_folders_spec(listing)[i],
        '/',
    ) by {
        lines_of(listing).lemma_filter_pred(pred, i);
    }
}

/// The folders in a listing made by `ls -p` (see [`remote_folders_spec`]).
pub fn remote_folders(listing: &str) -> (r: Vec<String>)
    ensures
        r.deep_view() == remote_folders_spec(listing@),
{
    let v = chars_of(listing);
    let lines = split_lines(&v);
    let ghost ls = lines.deep_view();
    let ghost pred = |l: Seq<char>| ends_with_char(l, '/');
    let mut r: Vec<String> = Vec::new();
    let mut i: usize = 0;
    assert(ls.take(0) =~= seq![]);
    assert(r.deep_view() =~= seq![]);
    while i < lines.len()
        invariant
            0 <= i <= lines@.len(),
            ls == lines.deep_view(),
            ls == lines_of(listing@),
            pred == (|l: Seq<char>| ends_with_char(l, '/')),
            r.deep_view() == ls.take(i as int).filter(pred),
        decreases lines.len() - i,
    {
        reveal_with_fuel(Seq::filter, 1);
        assert(ls.take(i + 1).drop_last() =~= ls.take(i as int));
        assert(ls[i as int] =~= lines@[i as int]@);
        let l = &lines[i];
        if l.len() > 0 && l[l.len() - 1] == '/' {
            let ghost before = r.deep_view();
            r.push(string_from_chars(l));
            assert(r.deep_view() =~= before.push(ls[i as int]));
        }
        i += 1;
    }
    assert(ls.take(lines@.len() as int) =~= ls);
    r
}

/// The folders in the raw output of `ls -p`, decoded as lossy UTF-8.
pub fn remote_folders_from_output(stdout: &[u8]) -> (r: Vec<String>)
    ensures
        r.deep_view() == remote_folders_spec(utf8_lossy(stdout@)),
{
    let text = decode_utf8_lossy(stdout);
    remote_folders(text.as_str())
}

/// The status line after a remote listing that took `elapsed_ms`
/// milliseconds.
pub open spec fn remote_listing_status_spec(success: bool, elapsed_ms: u128) -> StatusView {
    if success {
        StatusView {
            level: StatusMsgLevel::Info,
            msg: "getting remote folders took: "@ + decimal(elapsed_ms as nat) + "ms"@,
        }
    } else {
        StatusView {
            level: StatusMsgLevel::Error,
            msg: "getting remote folders failed after: "@ + decimal(elapsed_ms as nat) + "ms"@,
        }
    }
}

/// The status line after a remote listing that took `elapsed_ms`
/// milliseconds.
pub fn remote_listing_status(success: bool, elapsed_ms: u128) -> (m: StatusMsg)
    ensures
        m@ == remote_listing_status_spec(success, elapsed_ms),
{
    if success {
        let mut msg = string_of("getting remote folders took: ");
        push_decimal(&mut msg, elapsed_ms);
        push_all(&mut msg, "ms");
        StatusMsg { level: StatusMsgLevel::Info, msg }
    } else {
        let mut msg = string_of("getting remote folders failed after: ");
        push_decimal(&mut msg, elapsed_ms);
        push_all(&mut msg, "ms");
        StatusMsg { level: StatusMsgLevel::Error, msg }
    }
}

} // verus!
