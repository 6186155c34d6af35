//! Reading the host entries of an OpenSSH client configuration.
use vstd::prelude::*;

use crate::text::{chars_of, split_words, string_from_chars, trim, trim_chars, words, lines_of, split_lines, strip_cr, lemma_lines_of_push_line, lemma_trim_strip_cr};

verus! {

/// One host entry of the SSH configuration.
#[derive(Debug)]
pub struct SshHost {
    pub host: String,
    pub host_name: Option<String>,
    pub port: Option<String>,
    pub user: Option<String>,
    pub proxy_jump: Option<String>,
}

/// The model of a host entry: its fields as character sequences.
pub struct SshHostView {
    pub host: Seq<char>,
    pub host_name: Option<Seq<char>>,
    pub port: Option<Seq<char>>,
    pub user: Option<Seq<char>>,
    pub proxy_jump: Option<Seq<char>>,
}

impl View for SshHost {
    type V = SshHostView;

    open spec fn view(&self) -> SshHostView {
        SshHostView {
            host: self.host@,
            host_name: self.host_name.deep_view(),
            port: self.port.deep_view(),
            user: self.user.deep_view(),
            proxy_jump: self.proxy_jump.deep_view(),
        }
    }
}

/// The models of a sequence of host entries.
pub open spec fn host_views(hosts: Seq<SshHost>) -> Seq<SshHostView> {
    hosts.map_values(|h: SshHost| h@)
}

/// A copy of an optional string.
pub fn copy_opt(o: &Option<String>) -> (r: Option<String>)
    ensures
        r.deep_view() == o.deep_view(),
{
    match o {
        Some(s) => Some(s.clone()),
        None => None,
    }
}

impl SshHost {
    /// A copy of this host entry.
    pub fn copy(&self) -> (r: SshHost)
        ensures
            r@ == self@,
    {
        SshHost {
            host: self.host.clone(),
            host_name: copy_opt(&self.host_name),
            port: copy_opt(&self.port),
            user: copy_opt(&self.user),
            proxy_jump: copy_opt(&self.proxy_jump),
        }
    }

    /// The entry that stands for every host before the first `Host` line:
    /// named `*`, with no other field set.
    pub fn wildcard() -> (r: SshHost)
        ensures
            r@ == wildcard_view(),
    {
        let mut host = String::new();
        host.push('*');
        SshHost { host, host_name: None, port: None, user: None, proxy_jump: None }
    }
}

/// The name `*`.
pub open spec fn star() -> Seq<char> {
    seq!['*']
}

/// The model of [`SshHost::wildcard`].
pub open spec fn wildcard_view() -> SshHostView {
    SshHostView { host: star(), host_name: None, port: None, user: None, proxy_jump: None }
}

/// The keyword `host`.
pub open spec fn kw_host() -> Seq<char> {
    seq!['h', 'o', 's', 't']
}

/// The keyword `hostname`.
pub open spec fn kw_hostname() -> Seq<char> {
    seq!['h', 'o', 's', 't', 'n', 'a', 'm', 'e']
}

/// The keyword `port`.
pub open spec fn kw_port() -> Seq<char> {
    seq!['p', 'o', 'r', 't']
}

/// The keyword `user`.
pub open spec fn kw_user() -> Seq<char> {
    seq!['u', 's', 'e', 'r']
}

/// The keyword `proxyjump`.
pub open spec fn kw_proxyjump() -> Seq<char> {
    seq!['p', 'r', 'o', 'x', 'y', 'j', 'u', 'm', 'p']
}

/// The code of `c` with ASCII capitals mapped to small letters.
pub open spec fn ascii_lower_code(c: char) -> u32 {
    let u = c as u32;
    if 65 <= u <= 90 {
        (u + 32) as u32
    } else {
        u
    }
}

/// `w` in lower case equals the lower-case keyword `kw`.  For the
/// configuration keywords, which hold only ASCII letters and no `k`, this is
/// exactly `w.to_lowercase() == kw`.
pub open spec fn keyword_eq(w: Seq<char>, kw: Seq<char>) -> bool {
    &&& w.len() == kw.len()
    &&& forall|i: int| 0 <= i < w.len() ==> ascii_lower_code(#[trigger] w[i]) == kw[i] as u32
}

/// A line that the parser reads: after trimming, neither empty nor a
/// comment.
pub open spec fn significant(line: Seq<char>) -> bool {
    let t = trim(line);
    t.len() > 0 && t[0] != '#'
}

/// Every significant line has a keyword and a value.
pub open spec fn config_well_formed(text: Seq<char>) -> bool {
    let lines = lines_of(text);
    forall|i: int|
        0 <= i < lines.len() && significant(#[trigger] lines[i]) ==> words(trim(lines[i])).len()
            >= 2
}

/// The parser's state: the entries finished so far and the current entry.
pub struct ConfigState {
    pub hosts: Seq<SshHostView>,
    pub current: SshHostView,
}

/// The state before the first line.
pub open spec fn initial_state() -> ConfigState {
    ConfigState { hosts: seq![], current: wildcard_view() }
}

/// The state after reading one line.  A `Host` line that names another host
/// than the current one finishes the current entry, unless it is the
/// wildcard, and renames the current entry, whose other fields stay as they
/// were.  `HostName`, `Port`, `User` and `ProxyJump` set a field of the
/// current entry.  Other lines change nothing.
pub open spec fn apply_line(st: ConfigState, line: Seq<char>) -> ConfigState {
    if !significant(line) {
        st
    } else {
        let w = words(trim(line));
        let key = w[0];
        let value = w[1];
        let cur = st.current;
        if keyword_eq(key, kw_host()) {
            ConfigState {
                hosts: if cur.host != value && cur.host != star() {
                    st.hosts.push(cur)
                } else {
                    st.hosts
                },
                current: SshHostView { host: value, ..cur },
            }
        } else if keyword_eq(key, kw_hostname()) {
            ConfigState { hosts: st.hosts, current: SshHostView { host_name: Some(value), ..cur } }
        } else if keyword_eq(key, kw_port()) {
            ConfigState { hosts: st.hosts, current: SshHostView { port: Some(value), ..cur } }
        } else if keyword_eq(key, kw_user()) {
            ConfigState { hosts: st.hosts, current: SshHostView { user: Some(value), ..cur } }
        } else if keyword_eq(key, kw_proxyjump()) {
            ConfigState { hosts: st.hosts, current: SshHostView { proxy_jump: Some(value), ..cur } }
        } else {
            st
        }
    }
}

/// The state after reading `lines` in order.
pub open spec fn apply_lines(lines: Seq<Seq<char>>) -> ConfigState
    decreases lines.len(),
{
    if lines.len() == 0 {
        initial_state()
    } else {
        apply_line(apply_lines(lines.drop_last()), lines.last())
    }
}

/// The host entries that a configuration text yields: those finished by a
/// later `Host` line.
pub open spec fn parsed_hosts(text: Seq<char>) -> Seq<SshHostView> {
    apply_lines(lines_of(text)).hosts
}

/// Whether `w` equals the lower-case keyword `kw` when ASCII capitals are
/// read as small letters.
pub fn keyword_is(w: &Vec<char>, kw: &Vec<char>) -> (b: bool)
    ensures
        b == keyword_eq(w@, kw@),
{
    if w.len() != kw.len() {
        return false;
    }
    let mut i: usize = 0;
    while i < w.len()
        invariant
            0 <= i <= w.len(),
            w.len() == kw.len(),
            forall|j: int| 0 <= j < i ==> ascii_lower_code(#[trigger] w@[j]) == kw@[j] as u32,
        decreases w.len() - i,
    {
        let u = w[i] as u32;
        let l = if 65 <= u && u <= 90 {
            u + 32
        } else {
            u
        };
        if l != kw[i] as u32 {
            return false;
        }
        i += 1;
    }
    true
}

/// Whether a line is significant (see [`significant`]), and its words.
fn line_words(line: &Vec<char>) -> (r: (bool, Vec<Vec<char>>))
    ensures
        r.0 == significant(line@),
        r.0 ==> r.1.deep_view() == words(trim(line@)),
{
    let t = trim_chars(line);
    if t.len() == 0 || t[0] == '#' {
        (false, Vec::new())
    } else {
        (true, split_words(&t))
    }
}

proof fn lemma_chars_deep_view(v: Vec<char>)
    ensures
        v.deep_view() == v@,
{
    assert(v.deep_view() =~= v@);
}

/// Reads one line into the parser's state.
fn read_line(hosts: &mut Vec<SshHost>, current: &mut SshHost, line: &Vec<char>)
    requires
        significant(line@) ==> words(trim(line@)).len() >= 2,
    ensures
        apply_line(ConfigState { hosts: host_views(old(hosts)@), current: old(current)@ }, line@)
            == (ConfigState { hosts: host_views(final(hosts)@), current: final(current)@ }),
{
    let ghost st = ConfigState { hosts: host_views(hosts@), current: current@ };
    let (sig, w) = line_words(line);
    if !sig {
        return ;
    }
    let ghost wv = words(trim(line@));
    assert(w.deep_view()[0] == w@[0].deep_view());
    assert(w.deep_view()[1] == w@[1].deep_view());
    proof {
        lemma_chars_deep_view(w@[0]);
        lemma_chars_deep_view(w@[1]);
    }
    let key = &w[0];
    let value = string_from_chars(&w[1]);
    assert(key@ == wv[0]);
    assert(value@ == wv[1]);
    if keyword_is(key, &vec!['h', 'o', 's', 't']) {
        let same = current.host == value;
        let hc = chars_of(current.host.as_str());
        let is_star = hc.len() == 1 && hc[0] == '*';
        proof {
            if hc@.len() == 1 && hc@[0] == '*' {
                assert(hc@ =~= star());
            }
        }
        if !same && !is_star {
            hosts.push(current.copy());
            assert(host_views(hosts@) =~= st.hosts.push(st.current));
        } else {
            assert(host_views(hosts@) =~= st.hosts);
        }
        current.host = value;
    } else if keyword_is(key, &vec!['h', 'o', 's', 't', 'n', 'a', 'm', 'e']) {
        current.host_name = Some(value);
    } else if keyword_is(key, &vec!['p', 'o', 'r', 't']) {
        current.port = Some(value);
    } else if keyword_is(key, &vec!['u', 's', 'e', 'r']) {
        current.user = Some(value);
    } else if keyword_is(key, &vec!['p', 'r', 'o', 'x', 'y', 'j', 'u', 'm', 'p']) {
        current.proxy_jump = Some(value);
    }
    assert(host_views(hosts@) =~= apply_line(st, line@).hosts);
}

/// Whether every significant line of `config` has a keyword and a value,
/// which [`parse_ssh_config`] needs.
pub fn ssh_config_is_well_formed(config: &str) -> (b: bool)
    ensures
        b == config_well_formed(config@),
{
    let chars = chars_of(config);
    let lines = split_lines(&chars);
    let mut i: usize = 0;
    while i < lines.len()
        invariant
            0 <= i <= lines.len(),
            lines.deep_view() == lines_of(config@),
            forall|j: int|
                0 <= j < i && significant(#[trigger] lines_of(config@)[j]) ==> words(
                    trim(lines_of(config@)[j]),
                ).len() >= 2,
        decreases lines.len() - i,
    {
        proof {
            lemma_chars_deep_view(lines@[i as int]);
        }
        assert(lines.deep_view()[i as int] == lines@[i as int]@);
        let (sig, w) = line_words(&lines[i]);
        if sig && w.len() < 2 {
            assert(significant(lines_of(config@)[i as int]));
            assert(w.deep_view().len() == w.len());
            return false;
        }
        i += 1;
    }
    true
}

/// The host entries of the SSH configuration text `config`, in the order in
/// which later `Host` lines finish them.  The entry that is still open at the
/// end of the text is not among them, nor is one named `*`.
pub fn parse_ssh_config(config: &str) -> (hosts: Vec<SshHost>)
    requires
        config_well_formed(config@),
    ensures
        host_views(hosts@) == parsed_hosts(config@),
{
    let chars = chars_of(config);
    let lines = split_lines(&chars);
    let mut hosts: Vec<SshHost> = Vec::new();
    let mut current = SshHost::wildcard();
    let mut i: usize = 0;
    assert(lines_of(config@).take(0) =~= seq![]);
    assert(host_views(hosts@) =~= seq![]);
    while i < lines.len()
        invariant
            0 <= i <= lines.len(),
            lines.deep_view() == lines_of(config@),
            config_well_formed(config@),
            apply_lines(lines_of(config@).take(i as int)) == (ConfigState {
                hosts: host_views(hosts@),
                current: current@,
            }),
        decreases lines.len() - i,
    {
        proof {
            lemma_chars_deep_view(lines@[i as int]);
            assert(lines_of(config@).take(i + 1).drop_last() == lines_of(config@).take(i as int));
            assert(lines.deep_view()[i as int] == lines@[i as int]@);
            assert(significant(lines_of(config@)[i as int]) ==> words(trim(lines_of(config@)[i as int])).len() >= 2);
        }
        read_line(&mut hosts, &mut current, &lines[i]);
        i += 1;
    }
    assert(lines_of(config@).take(lines.len() as int) == lines_of(config@));
    hosts
}

proof fn lemma_no_wildcard_in_state(lines: Seq<Seq<char>>)
    ensures
        forall|i: int|
            0 <= i < apply_lines(lines).hosts.len() ==> (#[trigger] apply_lines(lines).hosts[i]).host
                != star(),
    decreases lines.len(),
{
    if lines.len() > 0 {
        lemma_no_wildcard_in_state(lines.drop_last());
    }
}

/// `line` is read by the parser and has the keyword `kw` (up to ASCII case)
/// and the value `value`.
pub open spec fn keyword_line(line: Seq<char>, kw: Seq<char>, value: Seq<char>) -> bool {
    &&& significant(line)
    &&& words(trim(line)).len() >= 2
    &&& keyword_eq(words(trim(line))[0], kw)
    &&& words(trim(line))[1] == value
}

proof fn lemma_keywords_differ(w: Seq<char>)
    ensures
        keyword_eq(w, kw_host()) ==> !keyword_eq(w, kw_hostname()) && !keyword_eq(w, kw_port())
            && !keyword_eq(w, kw_user()) && !keyword_eq(w, kw_proxyjump()),
        keyword_eq(w, kw_hostname()) ==> !keyword_eq(w, kw_port()) && !keyword_eq(w, kw_user())
            && !keyword_eq(w, kw_proxyjump()),
        keyword_eq(w, kw_port()) ==> !keyword_eq(w, kw_user()) && !keyword_eq(w, kw_proxyjump()),
        keyword_eq(w, kw_user()) ==> !keyword_eq(w, kw_proxyjump()),
{
    if w.len() > 0 {
        let c0 = ascii_lower_code(w[0]);
        assert(keyword_eq(w, kw_host()) ==> c0 == 'h' as u32);
        assert(keyword_eq(w, kw_hostname()) ==> c0 == 'h' as u32);
        assert(keyword_eq(w, kw_port()) ==> c0 == 'p' as u32);
        assert(keyword_eq(w, kw_user()) ==> c0 == 'u' as u32);
        assert(keyword_eq(w, kw_proxyjump()) ==> c0 == 'p' as u32);
    }
    if w.len() > 1 {
        let c1 = ascii_lower_code(w[1]);
        assert(keyword_eq(w, kw_port()) ==> c1 == 'o' as u32);
        assert(keyword_eq(w, kw_proxyjump()) ==> c1 == 'r' as u32);
    }
}

/// A `User` line sets the user of the current entry to its value, whatever
/// user it had; nothing else changes.
pub proof fn law_user_line_sets_user(st: ConfigState, line: Seq<char>, v: Seq<char>)
    requires
        keyword_line(line, kw_user(), v),
    ensures
        apply_line(st, line).current.user == Some(v),
        apply_line(st, line).current.host == st.current.host,
        apply_line(st, line).current.host_name == st.current.host_name,
        apply_line(st, line).current.port == st.current.port,
        apply_line(st, line).current.proxy_jump == st.current.proxy_jump,
        apply_line(st, line).hosts == st.hosts,
{
    lemma_keywords_differ(words(trim(line))[0]);
}

/// A `HostName` line sets the host name of the current entry to its value,
/// whatever it was; nothing else changes.
pub proof fn law_hostname_line_sets_host_name(st: ConfigState, line: Seq<char>, v: Seq<char>)
    requires
        keyword_line(line, kw_hostname(), v),
    ensures
        apply_line(st, line).current.host_name == Some(v),
        apply_line(st, line).current.host == st.current.host,
        apply_line(st, line).current.port == st.current.port,
        apply_line(st, line).current.user == st.current.user,
        apply_line(st, line).current.proxy_jump == st.current.proxy_jump,
        apply_line(st, line).hosts == st.hosts,
{
    lemma_keywords_differ(words(trim(line))[0]);
}

/// A `Port` line sets the port of the current entry to its value, whatever
/// it was; nothing else changes.
pub proof fn law_port_line_sets_port(st: ConfigState, line: Seq<char>, v: Seq<char>)
    requires
        keyword_line(line, kw_port(), v),
    ensures
        apply_line(st, line).current.port == Some(v),
        apply_line(st, line).current.host == st.current.host,
        apply_line(st, line).current.host_name == st.current.host_name,
        apply_line(st, line).current.user == st.current.user,
        apply_line(st, line).current.proxy_jump == st.current.proxy_jump,
        apply_line(st, line).hosts == st.hosts,
{
    lemma_keywords_differ(words(trim(line))[0]);
}

/// A `ProxyJump` line sets the jump host of the current entry to its value,
/// whatever it was; nothing else changes.
pub proof fn law_proxyjump_line_sets_proxy_jump(st: ConfigState, line: Seq<char>, v: Seq<char>)
    requires
        keyword_line(line, kw_proxyjump(), v),
    ensures
        apply_line(st, line).current.proxy_jump == Some(v),
        apply_line(st, line).current.host == st.current.host,
        apply_line(st, line).current.host_name == st.current.host_name,
        apply_line(st, line).current.port == st.current.port,
        apply_line(st, line).current.user == st.current.user,
        apply_line(st, line).hosts == st.hosts,
{
    lemma_keywords_differ(words(trim(line))[0]);
}

/// A `Host` line renames the current entry to its value and keeps its other
/// fields; the current entry is finished (appended to the entries) exactly
/// when it has another name and is not the wildcard.
pub proof fn law_host_line(st: ConfigState, line: Seq<char>, v: Seq<char>)
    requires
        keyword_line(line, kw_host(), v),
    ensures
        apply_line(st, line).current.host == v,
        apply_line(st, line).current.host_name == st.current.host_name,
        apply_line(st, line).current.port == st.current.port,
        apply_line(st, line).current.user == st.current.user,
        apply_line(st, line).current.proxy_jump == st.current.proxy_jump,
        st.current.host != v && st.current.host != seq!['*'] ==> apply_line(st, line).hosts
            == st.hosts.push(st.current),
        !(st.current.host != v && st.current.host != seq!['*']) ==> apply_line(st, line).hosts
            == st.hosts,
{
}

/// After a configuration text, a final `User` line (and its line break)
/// leaves the current entry with that line's value as its user, and the
/// finished entries as they were.
pub proof fn law_last_user_line_wins(text: Seq<char>, line: Seq<char>, v: Seq<char>)
    requires
        text.len() == 0 || text.last() == '\n',
        !line.contains('\n'),
        keyword_line(line, kw_user(), v),
    ensures
        apply_lines(lines_of(text + line.push('\n'))).current.user == Some(v),
        apply_lines(lines_of(text + line.push('\n'))).hosts == apply_lines(lines_of(text)).hosts,
{
    lemma_lines_of_push_line(text, line);
    lemma_trim_strip_cr(line);
    let ls = lines_of(text).push(strip_cr(line));
    assert(ls.drop_last() =~= lines_of(text));
    assert(keyword_line(strip_cr(line), kw_user(), v));
    law_user_line_sets_user(apply_lines(lines_of(text)), strip_cr(line), v);
}

/// A line that parsing passes over: blank, a comment, or a line whose
/// keyword is none of `Host`, `HostName`, `Port`, `User` and `ProxyJump`.
pub open spec fn inert(line: Seq<char>) -> bool {
    !significant(line) || {
        let key = words(trim(line))[0];
        &&& !keyword_eq(key, kw_host())
        &&& !keyword_eq(key, kw_hostname())
        &&& !keyword_eq(key, kw_port())
        &&& !keyword_eq(key, kw_user())
        &&& !keyword_eq(key, kw_proxyjump())
    }
}

/// The lines that parsing reads, in order.
pub open spec fn relevant_lines(lines: Seq<Seq<char>>) -> Seq<Seq<char>> {
    lines.filter(|l: Seq<char>| !inert(l))
}

proof fn lemma_apply_lines_relevant(lines: Seq<Seq<char>>)
    ensures
        apply_lines(lines) == apply_lines(relevant_lines(lines)),
    decreases lines.len(),
{
    reveal_with_fuel(Seq::filter, 1);
    if lines.len() > 0 {
        lemma_apply_lines_relevant(lines.drop_last());
        let r = relevant_lines(lines.drop_last());
        if !inert(lines.last()) {
            assert(r.push(lines.last()).drop_last() =~= r);
        }
    }
}

/// Blank lines, comments and lines with other keywords, added or removed
/// anywhere, do not change the entries that parsing returns.
pub proof fn law_inert_lines_change_nothing(text1: Seq<char>, text2: Seq<char>)
    requires
        relevant_lines(lines_of(text1)) == relevant_lines(lines_of(text2)),
    ensures
        parsed_hosts(text1) == parsed_hosts(text2),
{
    lemma_apply_lines_relevant(lines_of(text1));
    lemma_apply_lines_relevant(lines_of(text2));
}

/// `a` and `b` are equal when ASCII capitals are read as small letters.
pub open spec fn same_ascii_fold(a: Seq<char>, b: Seq<char>) -> bool {
    &&& a.len() == b.len()
    &&& forall|i: int| 0 <= i < a.len() ==> ascii_lower_code(#[trigger] a[i]) == ascii_lower_code(b[i])
}

/// Two lines say the same to the parser: both are passed over (see
/// [`inert`]), whatever their words, or both are read, with the same
/// keyword up to ASCII case and the same value.
pub open spec fn same_directive(l1: Seq<char>, l2: Seq<char>) -> bool {
    ||| inert(l1) && inert(l2)
    ||| {
        &&& significant(l1) == significant(l2)
        &&& significant(l1) ==> {
            &&& same_ascii_fold(words(trim(l1))[0], words(trim(l2))[0])
            &&& words(trim(l1))[1] == words(trim(l2))[1]
        }
    }
}

proof fn lemma_keyword_fold(a: Seq<char>, b: Seq<char>, kw: Seq<char>)
    requires
        same_ascii_fold(a, b),
    ensures
        keyword_eq(a, kw) == keyword_eq(b, kw),
{
    if keyword_eq(a, kw) {
        assert forall|i: int| 0 <= i < b.len() implies ascii_lower_code(#[trigger] b[i])
            == kw[i] as u32 by {
            assert(ascii_lower_code(a[i]) == kw[i] as u32);
        }
    }
    if keyword_eq(b, kw) {
        assert forall|i: int| 0 <= i < a.len() implies ascii_lower_code(#[trigger] a[i])
            == kw[i] as u32 by {
            assert(ascii_lower_code(b[i]) == kw[i] as u32);
        }
    }
}

proof fn lemma_same_directive_apply(st: ConfigState, l1: Seq<char>, l2: Seq<char>)
    requires
        same_directive(l1, l2),
    ensures
        apply_line(st, l1) == apply_line(st, l2),
{
    if significant(l1) && !(inert(l1) && inert(l2)) {
        let a = words(trim(l1))[0];
        let b = words(trim(l2))[0];
        lemma_keyword_fold(a, b, kw_host());
        lemma_keyword_fold(a, b, kw_hostname());
        lemma_keyword_fold(a, b, kw_port());
        lemma_keyword_fold(a, b, kw_user());
        lemma_keyword_fold(a, b, kw_proxyjump());
    }
}

proof fn lemma_apply_lines_same(ls1: Seq<Seq<char>>, ls2: Seq<Seq<char>>)
    requires
        ls1.len() == ls2.len(),
        forall|i: int| 0 <= i < ls1.len() ==> same_directive(#[trigger] ls1[i], ls2[i]),
    ensures
        apply_lines(ls1) == apply_lines(ls2),
    decreases ls1.len(),
{
    if ls1.len() > 0 {
        let n = ls1.len() - 1;
        assert forall|i: int| 0 <= i < n implies same_directive(
            #[trigger] ls1.drop_last()[i],
            ls2.drop_last()[i],
        ) by {
            assert(same_directive(ls1[i], ls2[i]));
        }
        lemma_apply_lines_same(ls1.drop_last(), ls2.drop_last());
        assert(same_directive(ls1[n], ls2[n]));
        lemma_same_directive_apply(apply_lines(ls1.drop_last()), ls1.last(), ls2.last());
    }
}

/// Changing the ASCII case of keywords, changing lines that parsing passes
/// over, or anything else that leaves each line saying the same to the
/// parser, does not change the entries that parsing returns.
pub proof fn law_same_directives_same_hosts(text1: Seq<char>, text2: Seq<char>)
    requires
        lines_of(text1).len() == lines_of(text2).len(),
        forall|i: int|
            0 <= i < lines_of(text1).len() ==> same_directive(
                #[trigger] lines_of(text1)[i],
                lines_of(text2)[i],
            ),
    ensures
        parsed_hosts(text1) == parsed_hosts(text2),
{
    lemma_apply_lines_same(lines_of(text1), lines_of(text2));
}

/// Lines that differ only in leading and trailing whitespace, such as their
/// indentation, say the same to the parser.
pub proof fn law_indentation_is_ignored(l1: Seq<char>, l2: Seq<char>)
    requires
        trim(l1) == trim(l2),
    ensures
        same_directive(l1, l2),
{
}

/// `line` is a `Host` line naming `name`.
pub open spec fn names_host(line: Seq<char>, name: Seq<char>) -> bool {
    &&& significant(line)
    &&& keyword_eq(words(trim(line))[0], kw_host())
    &&& words(trim(line))[1] == name
}

/// `name` is named by one of the `Host` lines among `lines`.
pub open spec fn named_in(lines: Seq<Seq<char>>, name: Seq<char>) -> bool {
    exists|j: int| 0 <= j < lines.len() && names_host(#[trigger] lines[j], name)
}

proof fn lemma_named_in_prefix(lines: Seq<Seq<char>>, name: Seq<char>)
    requires
        lines.len() > 0,
        named_in(lines.drop_last(), name),
    ensures
        named_in(lines, name),
{
    let j = choose|j: int| 0 <= j < lines.drop_last().len() && names_host(
        #[trigger] lines.drop_last()[j],
        name,
    );
    assert(lines.drop_last()[j] == lines[j]);
}

proof fn lemma_hosts_are_named(lines: Seq<Seq<char>>)
    ensures
        forall|i: int|
            0 <= i < apply_lines(lines).hosts.len() ==> named_in(
                lines,
                (#[trigger] apply_lines(lines).hosts[i]).host,
            ),
        apply_lines(lines).current.host == star() || named_in(
            lines,
            apply_lines(lines).current.host,
        ),
    decreases lines.len(),
{
    if lines.len() > 0 {
        let prev = lines.drop_last();
        lemma_hosts_are_named(prev);
        let st = apply_lines(prev);
        let l = lines.last();
        assert(l == lines[lines.len() - 1]);
        assert forall|i: int|
            0 <= i < apply_lines(lines).hosts.len() implies named_in(
            lines,
            (#[trigger] apply_lines(lines).hosts[i]).host,
        ) by {
            if i < st.hosts.len() {
                assert(apply_lines(lines).hosts[i] == st.hosts[i]);
                lemma_named_in_prefix(lines, st.hosts[i].host);
            } else {
                assert(apply_lines(lines).hosts[i] == st.current);
                lemma_named_in_prefix(lines, st.current.host);
            }
        }
        if apply_lines(lines).current.host != star() {
            if apply_lines(lines).current.host == st.current.host {
                lemma_named_in_prefix(lines, st.current.host);
            } else {
                assert(names_host(lines[lines.len() - 1], apply_lines(lines).current.host));
            }
        }
    }
}

/// Every entry that parsing returns is named by a `Host` line of the text.
pub proof fn law_hosts_come_from_host_lines(text: Seq<char>)
    ensures
        forall|i: int|
            0 <= i < parsed_hosts(text).len() ==> named_in(
                lines_of(text),
                (#[trigger] parsed_hosts(text)[i]).host,
            ),
{
    lemma_hosts_are_named(lines_of(text));
}

/// No entry that parsing returns is the wildcard `*`.
pub proof fn law_no_wildcard_host(text: Seq<char>)
    ensures
        forall|i: int|
            0 <= i < parsed_hosts(text).len() ==> (#[trigger] parsed_hosts(text)[i]).host != star(),
{
    lemma_no_wildcard_in_state(lines_of(text));
}

/// A blank or comment line added at the end of a configuration does not
/// change the entries that parsing returns.
pub proof fn law_insignificant_line_changes_nothing(text: Seq<char>, line: Seq<char>)
    requires
        text.len() == 0 || text.last() == '\n',
        !line.contains('\n'),
        !significant(line),
    ensures
        parsed_hosts(text + line.push('\n')) == parsed_hosts(text),
{
    lemma_lines_of_push_line(text, line);
    lemma_trim_strip_cr(line);
    let ls = lines_of(text).push(strip_cr(line));
    assert(ls.drop_last() =~= lines_of(text));
    assert(!significant(strip_cr(line)));
}

} // verus!
