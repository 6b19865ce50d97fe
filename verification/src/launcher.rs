//! Launching a version's `dsh web`: the entry point, reading its address from its
//! output, waiting for it, and desktop shortcuts.

use vstd::prelude::*;
use vstd::string::StringExecFns;
use crate::paths::{join_path, parent_path, path_join, path_parent};
use crate::text::{
    decimal, decimal_exec, strs,
    chars_of, contains, contains_exec, find, find_exec, is_space, is_space_char, replace_char,
    replace_char_exec, slice_chars, string_of, trim, trim_range, CharClass,
};
use crate::text::{occurs_at, skip_leading, skip_trailing, starts_with};

verus! {

/// The executable that starts a version's dsh: `node_modules/.bin/dsh`, or `dsh.cmd` on
/// Windows.
pub fn web_entry(version_dir: &str, windows: bool) -> (r: String)
    ensures
        r@ == path_join(
            path_join(path_join(version_dir@, "node_modules"@), ".bin"@),
            if windows {
                "dsh.cmd"@
            } else {
                "dsh"@
            },
        ),
{
    let m = join_path(version_dir, "node_modules");
    let b = join_path(m.as_str(), ".bin");
    join_path(b.as_str(), if windows { "dsh.cmd" } else { "dsh" })
}

/// The arguments of `dsh` that start its web interface: on a port the system picks and
/// without opening a browser when `hidden`; on `port`, opening the browser, otherwise.
pub fn web_args(hidden: bool, port: u16) -> (r: Vec<String>)
    ensures
        hidden ==> strs(r@) == seq!["web"@, "--port"@, "0"@, "--no-open"@],
        !hidden ==> strs(r@) == seq!["web"@, "--port"@, decimal(port as nat)],
{
    let mut r: Vec<String> = Vec::new();
    r.push(String::from_str("web"));
    r.push(String::from_str("--port"));
    if hidden {
        r.push(String::from_str("0"));
        r.push(String::from_str("--no-open"));
        assert(strs(r@) =~= seq!["web"@, "--port"@, "0"@, "--no-open"@]);
    } else {
        r.push(decimal_exec(port as u64));
        assert(strs(r@) =~= seq!["web"@, "--port"@, decimal(port as nat)]);
    }
    r
}

/// The longest prefix of `s` without white space.
pub open spec fn leading_token(s: Seq<char>) -> Seq<char>
    decreases s.len(),
{
    if s.len() > 0 && !is_space(s[0]) {
        seq![s[0]] + leading_token(s.drop_first())
    } else {
        Seq::empty()
    }
}

/// Where to look for the address in a line of dsh's output: after the `dsh web:` marker
/// if the line has one, else the whole line; trimmed.
pub open spec fn url_candidate(line: Seq<char>) -> Seq<char> {
    match find(line, "dsh web:"@) {
        Some(i) => trim(line.skip(i + "dsh web:"@.len())),
        None => trim(line),
    }
}

/// The local address a line of dsh's output announces: from the first `http://` to the
/// first white space, if it names `127.0.0.1:` or `localhost:`.
pub open spec fn url_in(line: Seq<char>) -> Option<Seq<char>> {
    let c = url_candidate(line);
    match find(c, "http://"@) {
        None => None,
        Some(st) => {
            let u = leading_token(c.skip(st));
            if contains(u, "127.0.0.1:"@) || contains(u, "localhost:"@) {
                Some(u)
            } else {
                None
            }
        },
    }
}

/// The full address, token included, that a line of `dsh web` output announces.
pub fn parse_url(line: &str) -> (r: Option<String>)
    ensures
        r is None <==> url_in(line@) is None,
        r matches Some(u) ==> url_in(line@) == Some(u@),
{
    let v = chars_of(line);
    let marker = chars_of("dsh web:");
    let (a, b) = match find_exec(&v, &marker, 0) {
        Some(i) => {
            proof {
                crate::text::lemma_find_from(v@, marker@, 0);
            }
            let r = trim_range(&v, i + marker.len(), v.len(), &CharClass::Space);
            assert(v@.subrange(i + marker.len(), v.len() as int) =~= v@.skip(i + marker@.len()));
            r
        },
        None => {
            let r = trim_range(&v, 0, v.len(), &CharClass::Space);
            assert(v@.subrange(0, v.len() as int) =~= v@);
            r
        },
    };
    let c = slice_chars(&v, a, b);
    assert(c@ == url_candidate(line@));
    let http = chars_of("http://");
    let st = match find_exec(&c, &http, 0) {
        Some(st) => st,
        None => return None,
    };
    proof {
        crate::text::lemma_find_from(c@, http@, 0);
    }
    let mut j = st;
    assert(c@.subrange(st as int, st as int) + leading_token(c@.skip(st as int)) =~= leading_token(c@.skip(st as int)));
    while j < c.len() && !is_space_char(c[j])
        invariant
            st <= j <= c.len(),
            leading_token(c@.skip(st as int)) == c@.subrange(st as int, j as int) + leading_token(
                c@.skip(j as int),
            ),
        decreases c.len() - j,
    {
        assert(c@.skip(j as int).drop_first() =~= c@.skip(j + 1));
        assert(c@.subrange(st as int, j + 1) =~= c@.subrange(st as int, j as int) + seq![c@[j as int]]);
        j += 1;
    }
    assert(leading_token(c@.skip(j as int)) =~= Seq::<char>::empty());
    let u = slice_chars(&c, st, j);
    assert(u@ =~= leading_token(c@.skip(st as int)));
    if contains_exec(&u, "127.0.0.1:") || contains_exec(&u, "localhost:") {
        Some(string_of(&u))
    } else {
        None
    }
}

/// An address read from dsh's output holds no white space and names a local host.
pub proof fn law_url_is_one_local_token(line: Seq<char>)
    ensures
        url_in(line) matches Some(u) ==> {
            &&& forall|k: int| 0 <= k < u.len() ==> !is_space(#[trigger] u[k])
            &&& contains(u, "127.0.0.1:"@) || contains(u, "localhost:"@)
        },
{
    let c = url_candidate(line);
    if let Some(st) = find(c, "http://"@) {
        lemma_leading_token(c.skip(st));
    }
}

/// The leading token is the prefix of `s` up to its first white space, or all of `s`.
proof fn lemma_leading_token_maximal(s: Seq<char>)
    ensures
        leading_token(s).len() <= s.len(),
        leading_token(s) == s.take(leading_token(s).len() as int),
        leading_token(s).len() == s.len() || is_space(s[leading_token(s).len() as int]),
    decreases s.len(),
{
    if s.len() > 0 && !is_space(s[0]) {
        let t = s.drop_first();
        lemma_leading_token_maximal(t);
        assert(leading_token(s) =~= s.take(leading_token(s).len() as int)) by {
            assert forall|k: int| 0 <= k < leading_token(s).len() implies leading_token(s)[k] == s[k] by {
                if k > 0 {
                    assert(leading_token(s)[k] == leading_token(t)[k - 1]);
                    assert(leading_token(t)[k - 1] == t.take(leading_token(t).len() as int)[k - 1]);
                }
            }
        }
        if leading_token(t).len() < t.len() {
            assert(s[leading_token(s).len() as int] == t[leading_token(t).len() as int]);
        }
    }
}

/// The address read from a line is the whole address: it is the text of the candidate
/// from its first `http://` on, up to the candidate's end or to the first white space,
/// never stopping short of either.
pub proof fn law_url_is_whole(line: Seq<char>)
    ensures
        url_in(line) matches Some(u) ==> {
            let c = url_candidate(line);
            &&& find(c, "http://"@) matches Some(st) && {
                &&& st + u.len() <= c.len()
                &&& c.subrange(st, st + u.len()) == u
                &&& st + u.len() == c.len() || is_space(c[st + u.len()])
            }
        },
{
    let c = url_candidate(line);
    if let Some(st) = find(c, "http://"@) {
        crate::text::lemma_find_from(c, "http://"@, 0);
        lemma_leading_token_maximal(c.skip(st));
        let u = leading_token(c.skip(st));
        assert(c.subrange(st, st + u.len()) =~= c.skip(st).take(u.len() as int));
        if st + u.len() < c.len() {
            assert(c[st + u.len()] == c.skip(st)[u.len() as int]);
        }
    }
}

/// As dsh prints it: after `dsh web: ` comes the address, up to the end of the line;
/// every such local address without white space is read whole.
pub proof fn law_url_after_marker(u: Seq<char>)
    requires
        starts_with(u, "http://127.0.0.1:"@),
        forall|k: int| 0 <= k < u.len() ==> !is_space(#[trigger] u[k]),
    ensures
        url_in("dsh web: "@ + u) == Some(u),
{
    reveal_strlit("http://127.0.0.1:");
    reveal_strlit("http://");
    reveal_strlit("127.0.0.1:");
    reveal_strlit("dsh web: ");
    reveal_strlit("dsh web:");
    let line = "dsh web: "@ + u;
    assert(occurs_at(line, "dsh web:"@, 0)) by {
        assert(line.subrange(0, 8) =~= "dsh web:"@);
    }
    crate::text::lemma_find_from(line, "dsh web:"@, 0);
    assert(find(line, "dsh web:"@) == Some(0int));
    let rest = line.skip(8);
    assert(rest =~= seq![' '] + u);
    assert(u.len() >= 17);
    assert(u[0] == 'h') by {
        assert(u.subrange(0, 17)[0] == u[0]);
    }
    assert(!is_space(u[0]));
    assert(!is_space(u.last()));
    assert(rest.drop_first() =~= u);
    assert(skip_leading(rest, CharClass::Space) == skip_leading(u, CharClass::Space));
    assert(skip_leading(u, CharClass::Space) == u);
    assert(skip_trailing(u, CharClass::Space) == u);
    assert(url_candidate(line) == u);
    assert(occurs_at(u, "http://"@, 0)) by {
        assert(u.subrange(0, 7) =~= u.subrange(0, 17).subrange(0, 7));
        assert("http://127.0.0.1:"@.subrange(0, 7) =~= "http://"@);
    }
    crate::text::lemma_find_from(u, "http://"@, 0);
    assert(find(u, "http://"@) == Some(0int));
    lemma_leading_token_maximal(u);
    assert(u.skip(0) =~= u);
    let t = leading_token(u);
    if t.len() < u.len() {
        assert(is_space(u[t.len() as int]));
    }
    assert(t =~= u);
    assert(occurs_at(u, "127.0.0.1:"@, 7)) by {
        assert(u.subrange(7, 17) =~= u.subrange(0, 17).subrange(7, 17));
        assert("http://127.0.0.1:"@.subrange(7, 17) =~= "127.0.0.1:"@);
    }
    crate::text::lemma_find_from(u, "127.0.0.1:"@, 0);
    assert(contains(u, "127.0.0.1:"@));
}

/// The leading token has no white space.
proof fn lemma_leading_token(s: Seq<char>)
    ensures
        forall|k: int| 0 <= k < leading_token(s).len() ==> !is_space(#[trigger] leading_token(s)[k]),
    decreases s.len(),
{
    if s.len() > 0 && !is_space(s[0]) {
        lemma_leading_token(s.drop_first());
        let t = leading_token(s.drop_first());
        assert forall|k: int| 0 <= k < leading_token(s).len() implies !is_space(
            #[trigger] leading_token(s)[k],
        ) by {
            if k > 0 {
                assert(leading_token(s)[k] == t[k - 1]);
            }
        }
    }
}

/// How the wait for `dsh web`'s address went on one turn.
pub enum WebWaitEvent {
    /// The output announced this address.
    Url(String),
    /// Nothing arrived in this turn; whether the deadline has passed and, if it has not,
    /// the exit status of the process if it already ended.
    Tick { past_deadline: bool, exit_status: Option<String> },
    /// The output ended without an address.
    Closed,
}

/// What to do next while waiting for `dsh web`'s address.
pub enum WebWaitAction {
    /// The window can open at this address.
    Ready(String),
    /// Wait another turn.
    KeepWaiting,
    /// Give up with this message, first killing the process tree if `kill`.
    Stop { kill: bool, message: String },
}

/// The decision for one turn of waiting for `dsh web`'s address: the address ends the
/// wait; past the deadline the process is killed; a process that ended is reported with
/// its status; output that ended without an address has the process killed.
pub fn web_wait_step(event: WebWaitEvent) -> (a: WebWaitAction)
    ensures
        (match event {
            WebWaitEvent::Url(u) => a matches WebWaitAction::Ready(v) && v == u,
            WebWaitEvent::Tick { past_deadline, exit_status } => if past_deadline {
                a matches WebWaitAction::Stop { kill, message } && kill && message@
                    == "启动超时：30 秒内未解析到 dsh web 地址"@
            } else {
                match exit_status {
                    Some(st) => a matches WebWaitAction::Stop { kill, message } && !kill
                        && message@ == "dsh web 进程提前退出（状态: "@ + st@ + "）"@,
                    None => a is KeepWaiting,
                }
            },
            WebWaitEvent::Closed => a matches WebWaitAction::Stop { kill, message } && kill
                && message@ == "未能从 dsh web 输出中解析到访问地址（输出格式可能已变化）"@,
        }),
{
    match event {
        WebWaitEvent::Url(u) => WebWaitAction::Ready(u),
        WebWaitEvent::Tick { past_deadline, exit_status } => {
            if past_deadline {
                WebWaitAction::Stop {
                    kill: true,
                    message: String::from_str("启动超时：30 秒内未解析到 dsh web 地址"),
                }
            } else {
                match exit_status {
                    Some(st) => {
                        let mut m = String::from_str("dsh web 进程提前退出（状态: ");
                        m.append(st.as_str());
                        m.append("）");
                        WebWaitAction::Stop { kill: false, message: m }
                    },
                    None => WebWaitAction::KeepWaiting,
                }
            }
        },
        WebWaitEvent::Closed => WebWaitAction::Stop {
            kill: true,
            message: String::from_str("未能从 dsh web 输出中解析到访问地址（输出格式可能已变化）"),
        },
    }
}

/// The message when the entry point of a version is missing.
pub fn missing_entry_message(entry: &str) -> (r: String)
    ensures
        r@ == "找不到启动入口: "@ + entry@,
{
    String::from_str("找不到启动入口: ").concat(entry)
}

/// The message when `dsh web` cannot be started in the background.
pub fn hidden_spawn_failure(error: &str) -> (r: String)
    ensures
        r@ == "启动 dsh web 失败: "@ + error@,
{
    String::from_str("启动 dsh web 失败: ").concat(error)
}

/// The message when the output of `dsh web` cannot be captured.
pub fn output_unavailable_message() -> (r: String)
    ensures
        r@ == "无法捕获 dsh web 输出"@,
{
    String::from_str("无法捕获 dsh web 输出")
}

/// The report of starting `dsh web` in a new console.
pub fn console_launch_report(outcome: Result<(), String>) -> (r: (bool, String))
    ensures
        r.0 == outcome is Ok,
        outcome is Ok ==> r.1@ == "已在新终端启动 dsh web，稍候会自动打开浏览器"@,
        outcome matches Err(e) ==> r.1@ == "启动失败: "@ + e@,
{
    match outcome {
        Ok(()) => (true, String::from_str("已在新终端启动 dsh web，稍候会自动打开浏览器")),
        Err(e) => (false, String::from_str("启动失败: ").concat(e.as_str())),
    }
}

/// `s` quoted for a PowerShell single-quoted string: each `'` doubled.
pub open spec fn ps_escaped(s: Seq<char>) -> Seq<char> {
    replace_char(s, '\'', "''"@)
}

/// `s` with each `''` read as one `'`, from left to right: how PowerShell reads a
/// single-quoted string back (`str::replace("''", "'")`).
pub open spec fn ps_unescaped(s: Seq<char>) -> Seq<char>
    decreases s.len(),
{
    if s.len() == 0 {
        s
    } else if s.len() >= 2 && s[0] == '\'' && s[1] == '\'' {
        seq!['\''] + ps_unescaped(s.skip(2))
    } else {
        seq![s[0]] + ps_unescaped(s.drop_first())
    }
}

/// Replacing in a text that starts with `c` replaces `c`, then the rest.
proof fn lemma_replace_char_front(c: char, t: Seq<char>, from: char, to: Seq<char>)
    ensures
        replace_char(seq![c] + t, from, to) == (if c == from {
            to
        } else {
            seq![c]
        }) + replace_char(t, from, to),
    decreases t.len(),
{
    let whole = seq![c] + t;
    if t.len() == 0 {
        assert(whole =~= seq![c]);
        assert(whole.drop_last() =~= Seq::<char>::empty());
        assert(replace_char(t, from, to) =~= Seq::<char>::empty());
    } else {
        lemma_replace_char_front(c, t.drop_last(), from, to);
        assert(whole.drop_last() =~= seq![c] + t.drop_last());
        assert(whole.last() == t.last());
    }
}

/// Reading the escaped text back gives the original: doubling each `'` loses nothing.
pub proof fn law_ps_escape_round_trip(s: Seq<char>)
    ensures
        ps_unescaped(ps_escaped(s)) == s,
    decreases s.len(),
{
    reveal_strlit("''");
    assert("''"@ =~= seq!['\'', '\'']);
    if s.len() > 0 {
        let rest = s.drop_first();
        assert(s =~= seq![s[0]] + rest);
        lemma_replace_char_front(s[0], rest, '\'', "''"@);
        law_ps_escape_round_trip(rest);
        let e = ps_escaped(s);
        if s[0] == '\'' {
            assert(e == seq!['\'', '\''] + ps_escaped(rest));
            assert(e.skip(2) =~= ps_escaped(rest));
        } else {
            assert(e == seq![s[0]] + ps_escaped(rest));
            assert(e.drop_first() =~= ps_escaped(rest));
        }
    }
}

/// `s` escaped for a PowerShell single-quoted string.
pub fn escape_ps(s: &str) -> (r: String)
    ensures
        r@ == ps_escaped(s@),
{
    replace_char_exec(s, '\'', "''")
}

/// The file name of a version's desktop shortcut.
pub fn shortcut_file_name(version: &str) -> (r: String)
    ensures
        r@ == "DSH "@ + version@ + ".lnk"@,
{
    let mut r = String::from_str("DSH ");
    r.append(version);
    r.append(".lnk");
    r
}

/// The working directory of a shortcut: the directory of the executable, or `.` when its
/// path has no parent.
pub open spec fn shortcut_work_dir(exe_path: Seq<char>) -> Seq<char> {
    match path_parent(exe_path) {
        Some(p) => p,
        None => "."@,
    }
}

/// The PowerShell command that writes the shortcut `lnk`, which starts `exe_path` with
/// `--launch-version <version>` in the executable's directory.
pub open spec fn shortcut_script(lnk: Seq<char>, exe_path: Seq<char>, version: Seq<char>) -> Seq<char> {
    "$ws = New-Object -ComObject WScript.Shell; $lnk = $ws.CreateShortcut('"@ + ps_escaped(lnk)
        + "'); $lnk.TargetPath = '"@ + ps_escaped(exe_path) + "'; $lnk.Arguments = '--launch-version "@
        + ps_escaped(version) + "'; $lnk.WorkingDirectory = '"@ + ps_escaped(shortcut_work_dir(exe_path))
        + "'; $lnk.Save()"@
}

/// The PowerShell command that writes a version's desktop shortcut.
pub fn build_shortcut_script(lnk: &str, exe_path: &str, version: &str) -> (r: String)
    ensures
        r@ == shortcut_script(lnk@, exe_path@, version@),
{
    let work = match parent_path(exe_path) {
        Some(p) => p,
        None => String::from_str("."),
    };
    let mut r = String::from_str("$ws = New-Object -ComObject WScript.Shell; $lnk = $ws.CreateShortcut('");
    r.append(escape_ps(lnk).as_str());
    r.append("'); $lnk.TargetPath = '");
    r.append(escape_ps(exe_path).as_str());
    r.append("'; $lnk.Arguments = '--launch-version ");
    r.append(escape_ps(version).as_str());
    r.append("'; $lnk.WorkingDirectory = '");
    r.append(escape_ps(work.as_str()).as_str());
    r.append("'; $lnk.Save()");
    r
}

} // verus!
