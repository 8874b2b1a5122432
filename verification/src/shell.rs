//! POSIX shell quoting and the decisions around terminal sessions: which
//! child process is an `ssh` client, which host it reaches, and what the
//! helper commands print.
use vstd::prelude::*;

use crate::text::{
    find, find_from, lemma_find_bound, matches_at, chars_of, chars_of_string, contains, contains_str, eq_str, lines, lines_of, push_all,
    push_str, replace, replace_str, split_ws, split_ws_chars, starts_with, starts_with_str,
    string_of, string_views, strings_of, strip_prefix, trim, trim_ws, views, slice_of,
};

verus! {

broadcast use vstd::seq_lib::group_seq_properties;

/// Every `'` of `s` written as `'\''`, so that `s` can stand between single
/// quotes in a `sh` command line (`str::replace('\'', "'\\''")`).
pub open spec fn escape_single_quotes(s: Seq<char>) -> Seq<char> {
    replace(s, "'"@, "'\\''"@)
}

/// `s.replace('\'', "'\\''")`.
pub fn escape_single_quotes_chars(v: &Vec<char>) -> (r: Vec<char>)
    ensures
        r@ == escape_single_quotes(v@),
{
    proof {
        reveal_strlit("'");
    }
    replace_str(v, "'", "'\\''")
}

/// `s.replace('\'', "'\\''")` on a string slice.
pub fn escape_single_quotes_str(s: &str) -> (r: String)
    ensures
        r@ == escape_single_quotes(s@),
{
    let v = chars_of(s);
    string_of(&escape_single_quotes_chars(&v))
}

/// The text `sh` reads from between the single quotes of a word written by
/// `escape_single_quotes`: each `'\''` (close the quote, an escaped quote,
/// reopen) is one `'`, and every other character stands for itself.
pub open spec fn sh_unquote(t: Seq<char>) -> Seq<char>
    decreases t.len(),
{
    if t.len() == 0 {
        seq![]
    } else if t.len() >= 4 && t.take(4) == seq!['\'', '\\', '\'', '\''] {
        seq!['\''] + sh_unquote(t.skip(4))
    } else {
        seq![t[0]] + sh_unquote(t.skip(1))
    }
}

proof fn lemma_find_shift(s: Seq<char>, p: Seq<char>, i: int)
    requires
        s.len() > 0,
        i >= 0,
    ensures
        find_from(s, p, i + 1) == match find_from(s.drop_first(), p, i) {
            Some(k) => Some(k + 1),
            None => None::<int>,
        },
    decreases s.len() - i,
{
    let t = s.drop_first();
    if i + p.len() <= t.len() {
        assert(s.subrange(i + 1, i + 1 + p.len()) =~= t.subrange(i, i + p.len()));
        if !matches_at(t, p, i) {
            lemma_find_shift(s, p, i + 1);
        }
    }
}

proof fn lemma_escape_cons(s: Seq<char>)
    requires
        s.len() > 0,
    ensures
        escape_single_quotes(s) == (if s[0] == '\'' {
            seq!['\'', '\\', '\'', '\'']
        } else {
            seq![s[0]]
        }) + escape_single_quotes(s.drop_first()),
{
    reveal_strlit("'");
    reveal_strlit("'\\''");
    let p = seq!['\''];
    let r = seq!['\'', '\\', '\'', '\''];
    assert("'"@ =~= p);
    assert("'\\''"@ =~= r);
    let t = s.drop_first();
    if s[0] == '\'' {
        assert(matches_at(s, p, 0)) by {
            assert(s.subrange(0, 1) =~= p);
        }
        assert(s.take(0) + r + replace(s.skip(1), p, r) =~= r + replace(t, p, r));
    } else {
        assert(!matches_at(s, p, 0)) by {
            if matches_at(s, p, 0) {
                assert(s.subrange(0, 1)[0] == s[0]);
            }
        }
        lemma_find_shift(s, p, 0);
        lemma_find_bound(t, p);
        match find(t, p) {
            Some(k) => {
                assert(find(s, p) == Some(k + 1));
                assert(s.take(k + 1) =~= seq![s[0]] + t.take(k));
                assert(s.skip(k + 1 + 1) =~= t.skip(k + 1));
            },
            None => {
                assert(find(s, p) is None);
                assert(s =~= seq![s[0]] + t);
            },
        }
    }
}

/// Quoting round-trips: `sh` reads the word `'` + `escape_single_quotes(s)` +
/// `'` as exactly `s`, whatever quotes `s` holds.
pub proof fn lemma_quoting_round_trip(s: Seq<char>)
    ensures
        sh_unquote(escape_single_quotes(s)) == s,
    decreases s.len(),
{
    if s.len() == 0 {
        reveal_strlit("'");
        assert(find(s, "'"@) is None);
    } else {
        lemma_escape_cons(s);
        lemma_quoting_round_trip(s.drop_first());
        let e = escape_single_quotes(s.drop_first());
        let g = seq!['\'', '\\', '\'', '\''];
        if s[0] == '\'' {
            let t = g + e;
            assert(t.take(4) =~= g);
            assert(t.skip(4) =~= e);
        } else {
            let t = seq![s[0]] + e;
            assert(!(t.len() >= 4 && t.take(4) == g)) by {
                if t.len() >= 4 {
                    assert(t.take(4)[0] == s[0]);
                    assert(g[0] == '\'');
                }
            }
            assert(t.skip(1) =~= e);
        }
        assert(s =~= seq![s[0]] + s.drop_first());
    }
}

// ───────────────────────── the local shell ─────────────────────────

/// How a new terminal session is started.
#[derive(Debug)]
pub struct ShellLaunch {
    pub rows: u16,
    pub cols: u16,
    pub program: String,
    pub args: Vec<String>,
    pub env: Vec<(String, String)>,
    pub cwd: Option<String>,
}

/// The program, arguments, environment, working directory and initial size
/// of a new login shell: 24 rows and 80 columns unless given, `$SHELL` or
/// `/bin/zsh`, a login shell (`-l`) with 256 colours, UTF-8 and coloured `ls`,
/// started in the home directory when there is one.
pub fn shell_launch(rows: Option<u16>, cols: Option<u16>, env_shell: Option<String>, home: Option<
    String,
>) -> (r: ShellLaunch)
    ensures
        r.rows == match rows {
            Some(x) => x,
            None => 24u16,
        },
        r.cols == match cols {
            Some(x) => x,
            None => 80u16,
        },
        r.program@ == match env_shell {
            Some(s) => s@,
            None => "/bin/zsh"@,
        },
        string_views(r.args@) == seq!["-l"@],
        r.env@.map_values(|kv: (String, String)| (kv.0@, kv.1@)) == seq![
            ("TERM"@, "xterm-256color"@),
            ("LANG"@, "en_US.UTF-8"@),
            ("CLICOLOR"@, "1"@),
            ("CLICOLOR_FORCE"@, "1"@),
            ("LSCOLORS"@, "ExGxFxdaCxDaDahbadacec"@),
        ],
        r.cwd == home,
{
    let program = match env_shell {
        Some(s) => s,
        None => String::from_str("/bin/zsh"),
    };
    let mut args: Vec<String> = Vec::new();
    args.push(String::from_str("-l"));
    assert(string_views(args@) =~= seq!["-l"@]);
    let mut env: Vec<(String, String)> = Vec::new();
    env.push((String::from_str("TERM"), String::from_str("xterm-256color")));
    env.push((String::from_str("LANG"), String::from_str("en_US.UTF-8")));
    env.push((String::from_str("CLICOLOR"), String::from_str("1")));
    env.push((String::from_str("CLICOLOR_FORCE"), String::from_str("1")));
    env.push((String::from_str("LSCOLORS"), String::from_str("ExGxFxdaCxDaDahbadacec")));
    assert(env@.map_values(|kv: (String, String)| (kv.0@, kv.1@)) =~= seq![
        ("TERM"@, "xterm-256color"@),
        ("LANG"@, "en_US.UTF-8"@),
        ("CLICOLOR"@, "1"@),
        ("CLICOLOR_FORCE"@, "1"@),
        ("LSCOLORS"@, "ExGxFxdaCxDaDahbadacec"@),
    ]);
    ShellLaunch {
        rows: match rows {
            Some(x) => x,
            None => 24,
        },
        cols: match cols {
            Some(x) => x,
            None => 80,
        },
        program,
        args,
        env,
        cwd: home,
    }
}

/// How a new terminal session is started in this environment: as
/// `shell_launch` says, in the home directory when the environment names one.
pub fn default_shell_launch(rows: Option<u16>, cols: Option<u16>, env_shell: Option<String>) -> (r:
    ShellLaunch)
    ensures
        r.rows == match rows {
            Some(x) => x,
            None => 24u16,
        },
        r.cols == match cols {
            Some(x) => x,
            None => 80u16,
        },
        r.program@ == match env_shell {
            Some(s) => s@,
            None => "/bin/zsh"@,
        },
        string_views(r.args@) == seq!["-l"@],
        r.env@.map_values(|kv: (String, String)| (kv.0@, kv.1@)) == seq![
            ("TERM"@, "xterm-256color"@),
            ("LANG"@, "en_US.UTF-8"@),
            ("CLICOLOR"@, "1"@),
            ("CLICOLOR_FORCE"@, "1"@),
            ("LSCOLORS"@, "ExGxFxdaCxDaDahbadacec"@),
        ],
{
    let home = crate::files::home_dir();
    shell_launch(rows, cols, env_shell, home)
}

/// The working directory in `lsof -Fn` output: the first `n` line that holds
/// an absolute path.
pub open spec fn lsof_cwd(out: Seq<Seq<char>>) -> Option<Seq<char>>
    decreases out.len(),
{
    if out.len() == 0 {
        None
    } else {
        let l = out[0];
        if l.len() > 0 && l[0] == 'n' && l.len() > 1 && l[1] == '/' {
            Some(l.skip(1))
        } else {
            lsof_cwd(out.drop_first())
        }
    }
}

/// The working directory reported by `lsof -a -p <pid> -d cwd -Fn`, or the
/// error the original reports.
pub fn parse_lsof_cwd(stdout: &str) -> (r: Result<String, String>)
    ensures
        match r {
            Ok(p) => lsof_cwd(lines(stdout@)) == Some(p@),
            Err(e) => lsof_cwd(lines(stdout@)) is None && e@ == "Could not determine CWD"@,
        },
{
    let ls = lines_of(&chars_of(stdout));
    let mut k: usize = 0;
    while k < ls.len()
        invariant
            k <= ls.len(),
            views(ls@) == lines(stdout@),
            lsof_cwd(lines(stdout@)) == lsof_cwd(views(ls@).skip(k as int)),
        decreases ls.len() - k,
    {
        let l = &ls[k];
        assert(views(ls@).skip(k as int)[0] == l@);
        assert(views(ls@).skip(k as int).drop_first() =~= views(ls@).skip(k + 1));
        if l.len() > 1 && l[0] == 'n' && l[1] == '/' {
            return Ok(string_of(&slice_of(l, 1, l.len())));
        }
        k += 1;
    }
    assert(views(ls@).skip(k as int) =~= Seq::<Seq<char>>::empty());
    Err(String::from_str("Could not determine CWD"))
}

// ───────────────────────── ssh sessions ─────────────────────────

/// The trimmed, non-empty lines of `pgrep -P <pid>`: the child process ids.
pub open spec fn child_pid_lines(ls: Seq<Seq<char>>) -> Seq<Seq<char>>
    decreases ls.len(),
{
    if ls.len() == 0 {
        seq![]
    } else {
        let prev = child_pid_lines(ls.drop_last());
        let t = trim(ls.last());
        if t.len() == 0 {
            prev
        } else {
            prev.push(t)
        }
    }
}

/// The child process ids listed by `pgrep -P <pid>`.
pub fn child_pids(stdout: &str) -> (r: Vec<String>)
    ensures
        string_views(r@) == child_pid_lines(lines(stdout@)),
{
    let ls = lines_of(&chars_of(stdout));
    let mut out: Vec<Vec<char>> = Vec::new();
    let mut k: usize = 0;
    while k < ls.len()
        invariant
            k <= ls.len(),
            views(ls@) == lines(stdout@),
            views(out@) == child_pid_lines(views(ls@).take(k as int)),
        decreases ls.len() - k,
    {
        let ghost pre = views(ls@).take(k + 1);
        assert(pre.drop_last() =~= views(ls@).take(k as int));
        let t = trim_ws(&ls[k]);
        if t.len() != 0 {
            let ghost o = out@;
            out.push(t);
            assert(views(out@) =~= views(o).push(t@));
        }
        k += 1;
    }
    assert(views(ls@).take(ls.len() as int) =~= views(ls@));
    strings_of(&out)
}

/// The `ssh` options that take a value.
pub open spec fn is_flag_with_arg(p: Seq<char>) -> bool {
    ||| p == "-b"@
    ||| p == "-c"@
    ||| p == "-D"@
    ||| p == "-E"@
    ||| p == "-e"@
    ||| p == "-F"@
    ||| p == "-I"@
    ||| p == "-i"@
    ||| p == "-J"@
    ||| p == "-L"@
    ||| p == "-l"@
    ||| p == "-m"@
    ||| p == "-O"@
    ||| p == "-o"@
    ||| p == "-p"@
    ||| p == "-Q"@
    ||| p == "-R"@
    ||| p == "-S"@
    ||| p == "-W"@
    ||| p == "-w"@
}

/// The first argument that is neither an option nor an option's value.
pub open spec fn target_in(parts: Seq<Seq<char>>, skip_next: bool) -> Seq<char>
    decreases parts.len(),
{
    if parts.len() == 0 {
        seq![]
    } else if skip_next {
        target_in(parts.drop_first(), false)
    } else if is_flag_with_arg(parts[0]) {
        target_in(parts.drop_first(), true)
    } else if starts_with(parts[0], "-"@) {
        target_in(parts.drop_first(), false)
    } else {
        parts[0]
    }
}

/// The `[user@]host` of an `ssh` command line (words after the program name,
/// options and their values skipped), or the empty text.
pub open spec fn ssh_target(cmd_line: Seq<char>) -> Seq<char> {
    let parts = split_ws(cmd_line);
    if parts.len() == 0 {
        seq![]
    } else {
        target_in(parts.drop_first(), false)
    }
}

fn is_flag_with_arg_exec(p: &Vec<char>) -> (b: bool)
    ensures
        b == is_flag_with_arg(p@),
{
    eq_str(p, "-b") || eq_str(p, "-c") || eq_str(p, "-D") || eq_str(p, "-E") || eq_str(p, "-e")
        || eq_str(p, "-F") || eq_str(p, "-I") || eq_str(p, "-i") || eq_str(p, "-J") || eq_str(
        p,
        "-L",
    ) || eq_str(p, "-l") || eq_str(p, "-m") || eq_str(p, "-O") || eq_str(p, "-o") || eq_str(
        p,
        "-p",
    ) || eq_str(p, "-Q") || eq_str(p, "-R") || eq_str(p, "-S") || eq_str(p, "-W") || eq_str(
        p,
        "-w",
    )
}

/// The `[user@]host` that an `ssh` command line connects to, or the empty string.
pub fn parse_ssh_target(cmd_line: &str) -> (r: String)
    ensures
        r@ == ssh_target(cmd_line@),
{
    let parts = split_ws_chars(&chars_of(cmd_line));
    if parts.len() == 0 {
        return String::new();
    }
    let ghost ps = views(parts@);
    let mut skip_next = false;
    let mut i: usize = 1;
    assert(ps.skip(1) =~= ps.drop_first());
    while i < parts.len()
        invariant
            1 <= i <= parts.len(),
            ps == views(parts@),
            ssh_target(cmd_line@) == target_in(ps.skip(i as int), skip_next),
        decreases parts.len() - i,
    {
        let part = &parts[i];
        assert(ps.skip(i as int)[0] == part@);
        assert(ps.skip(i as int).drop_first() =~= ps.skip(i + 1));
        if skip_next {
            skip_next = false;
        } else if is_flag_with_arg_exec(part) {
            skip_next = true;
        } else if part.len() > 0 && part[0] == '-' {
            proof {
                reveal_strlit("-");
                assert(part@.take(1) =~= "-"@);
            }
        } else {
            proof {
                reveal_strlit("-");
                if part@.len() > 0 {
                    assert(part@.take(1)[0] != '-');
                    assert(part@.take(1) != "-"@);
                }
                assert(!starts_with(part@, "-"@));
            }
            return string_of(part);
        }
        i += 1;
    }
    assert(ps.skip(i as int) =~= Seq::<Seq<char>>::empty());
    String::new()
}

/// An `ssh` client's command line: it starts with `ssh ` or names a path
/// ending in `/ssh `.
pub open spec fn is_ssh_command_line(c: Seq<char>) -> bool {
    starts_with(c, "ssh "@) || contains(c, "/ssh "@)
}

/// The target of a child process whose (trimmed) command line is an `ssh`
/// client with a target; `None` for any other process.
pub open spec fn ssh_child_target(cmd_line: Seq<char>) -> Option<Seq<char>> {
    let c = trim(cmd_line);
    if is_ssh_command_line(c) && ssh_target(c).len() > 0 {
        Some(ssh_target(c))
    } else {
        None
    }
}

/// Whether the process with this `ps -o command=` output is an `ssh` client,
/// and the host it connects to.
pub fn ssh_child_target_of(ps_output: &str) -> (r: Option<String>)
    ensures
        match r {
            Some(t) => ssh_child_target(ps_output@) == Some(t@),
            None => ssh_child_target(ps_output@) is None,
        },
{
    let c = trim_ws(&chars_of(ps_output));
    if starts_with_str(&c, "ssh ") || contains_str(&c, "/ssh ") {
        let cs = string_of(&c);
        let t = parse_ssh_target(cs.as_str());
        if t.as_str().unicode_len() > 0 {
            return Some(t);
        }
    }
    None
}

/// The name of the `ssh` control socket for a target: `ctrl-` and the target
/// with every `@`, `.` and `:` made `_`.
pub open spec fn control_socket_name(target: Seq<char>) -> Seq<char> {
    "ctrl-"@ + target.map_values(
        |c: char|
            if c == '@' || c == '.' || c == ':' {
                '_'
            } else {
                c
            },
    )
}

/// The name of the `ssh` control socket for a target.
pub fn ssh_control_socket_name(target: &str) -> (r: String)
    ensures
        r@ == control_socket_name(target@),
{
    let t = chars_of(target);
    let mut out = chars_of("ctrl-");
    let ghost base = out@;
    let mut k: usize = 0;
    while k < t.len()
        invariant
            k <= t.len(),
            base == "ctrl-"@,
            out@ == base + t@.take(k as int).map_values(
                |c: char|
                    if c == '@' || c == '.' || c == ':' {
                        '_'
                    } else {
                        c
                    },
            ),
        decreases t.len() - k,
    {
        let c = t[k];
        let m = if c == '@' || c == '.' || c == ':' {
            '_'
        } else {
            c
        };
        out.push(m);
        assert(t@.take(k + 1) =~= t@.take(k as int).push(c));
        k += 1;
    }
    assert(t@.take(t.len() as int) =~= t@);
    string_of(&out)
}

/// The arguments of an `ssh` client that shares one connection per target
/// through a control socket, kept open for a minute, with a five-second
/// connect timeout and no password prompts.
pub open spec fn multiplex_args(target: Seq<char>, socket_path: Seq<char>) -> Seq<Seq<char>> {
    seq![
        "-o"@,
        "ControlMaster=auto"@,
        "-o"@,
        "ControlPath="@ + socket_path,
        "-o"@,
        "ControlPersist=60"@,
        "-o"@,
        "ConnectTimeout=5"@,
        "-o"@,
        "BatchMode=yes"@,
        target,
    ]
}

/// The `ssh` arguments that reach `target` over the control socket at
/// `socket_path`.
pub fn ssh_multiplex_args(target: &str, socket_path: &str) -> (r: Vec<String>)
    ensures
        string_views(r@) == multiplex_args(target@, socket_path@),
{
    let mut cp = chars_of("ControlPath=");
    push_str(&mut cp, socket_path);
    let r = vec![
        String::from_str("-o"),
        String::from_str("ControlMaster=auto"),
        String::from_str("-o"),
        string_of(&cp),
        String::from_str("-o"),
        String::from_str("ControlPersist=60"),
        String::from_str("-o"),
        String::from_str("ConnectTimeout=5"),
        String::from_str("-o"),
        String::from_str("BatchMode=yes"),
        String::from_str(target),
    ];
    assert(string_views(r@) =~= multiplex_args(target@, socket_path@));
    r
}

/// The remote script that prints the working directory of the newest
/// interactive shell on a terminal, or of the `ssh` session itself.
pub fn remote_cwd_script() -> (r: String)
    ensures
        r@ == "\npid=$(ps -eo pid,tty,comm --no-headers 2>/dev/null | awk '$2 ~ /pts/ && ($3 == \"bash\" || $3 == \"zsh\" || $3 == \"sh\" || $3 == \"fish\") {print $1}' | tail -1)\nif [ -n \"$pid\" ] && [ -d \"/proc/$pid\" ]; then\n  readlink /proc/$pid/cwd 2>/dev/null && exit 0\nfi\npwd\n"@,
{
    String::from_str("\npid=$(ps -eo pid,tty,comm --no-headers 2>/dev/null | awk '$2 ~ /pts/ && ($3 == \"bash\" || $3 == \"zsh\" || $3 == \"sh\" || $3 == \"fish\") {print $1}' | tail -1)\nif [ -n \"$pid\" ] && [ -d \"/proc/$pid\" ]; then\n  readlink /proc/$pid/cwd 2>/dev/null && exit 0\nfi\npwd\n")
}

/// The remote command that prints the system's name, release and machine.
pub fn remote_os_command() -> (r: String)
    ensures
        r@ == "uname -srm 2>/dev/null || echo unknown"@,
{
    String::from_str("uname -srm 2>/dev/null || echo unknown")
}

/// The remote command that prints the name of the login shell.
pub fn remote_shell_command() -> (r: String)
    ensures
        r@ == "basename \"$SHELL\" 2>/dev/null || echo sh"@,
{
    String::from_str("basename \"$SHELL\" 2>/dev/null || echo sh")
}

/// The process id of a terminal session, from the session found under its
/// id (`None` when there is none) and the pid it recorded.
pub fn session_pid(session: Option<Option<u32>>) -> (r: Result<u32, String>)
    ensures
        match session {
            None => r matches Err(e) && e@ == "Session not found"@,
            Some(None) => r matches Err(e) && e@ == "No PID available"@,
            Some(Some(p)) => r == Ok::<u32, String>(p),
        },
{
    match session {
        None => Err(String::from_str("Session not found")),
        Some(None) => Err(String::from_str("No PID available")),
        Some(Some(p)) => Ok(p),
    }
}

/// The remote working directory from the reply of the `pwd` query.
pub fn get_remote_cwd(success: bool, stdout: &str) -> (r: Result<String, String>)
    ensures
        success ==> (r matches Ok(s) && s@ == trim(stdout@)),
        !success ==> (r matches Err(e) && e@ == "Failed to get remote CWD"@),
{
    remote_query_output(success, stdout, "Failed to get remote CWD")
}

/// The remote system from the reply of the `uname -srm` query.
pub fn get_remote_os(success: bool, stdout: &str) -> (r: Result<String, String>)
    ensures
        success ==> (r matches Ok(s) && s@ == trim(stdout@)),
        !success ==> (r matches Err(e) && e@ == "Failed to get remote OS"@),
{
    remote_query_output(success, stdout, "Failed to get remote OS")
}

/// The remote login shell from the reply of the `basename "$SHELL"` query.
pub fn get_remote_shell(success: bool, stdout: &str) -> (r: Result<String, String>)
    ensures
        success ==> (r matches Ok(s) && s@ == trim(stdout@)),
        !success ==> (r matches Err(e) && e@ == "Failed to get remote shell"@),
{
    remote_query_output(success, stdout, "Failed to get remote shell")
}

/// The outcome of a remote query: its trimmed output, or the given error.
pub fn remote_query_output(success: bool, stdout: &str, failure: &str) -> (r: Result<String, String>)
    ensures
        success ==> (r matches Ok(s) && s@ == trim(stdout@)),
        !success ==> (r matches Err(e) && e@ == failure@),
{
    if success {
        Ok(string_of(&trim_ws(&chars_of(stdout))))
    } else {
        Err(String::from_str(failure))
    }
}

/// What is known of the session's `ssh` connection.
#[derive(Debug)]
pub struct SshInfo {
    pub is_ssh: bool,
    pub target: String,
    pub remote_cwd: String,
    pub remote_os: String,
    pub remote_shell: String,
}

/// The report for an `ssh` session: each remote detail, or the empty string
/// where its query failed.
pub fn ssh_info(
    target: String,
    cwd: Result<String, String>,
    os: Result<String, String>,
    shell: Result<String, String>,
) -> (r: SshInfo)
    ensures
        r.is_ssh,
        r.target == target,
        r.remote_cwd@ == match cwd {
            Ok(s) => s@,
            Err(_) => Seq::<char>::empty(),
        },
        r.remote_os@ == match os {
            Ok(s) => s@,
            Err(_) => Seq::<char>::empty(),
        },
        r.remote_shell@ == match shell {
            Ok(s) => s@,
            Err(_) => Seq::<char>::empty(),
        },
{
    SshInfo {
        is_ssh: true,
        target,
        remote_cwd: match cwd {
            Ok(s) => s,
            Err(_) => String::new(),
        },
        remote_os: match os {
            Ok(s) => s,
            Err(_) => String::new(),
        },
        remote_shell: match shell {
            Ok(s) => s,
            Err(_) => String::new(),
        },
    }
}

/// The report for a session without an `ssh` connection.
pub fn no_ssh() -> (r: SshInfo)
    ensures
        !r.is_ssh,
        r.target@.len() == 0,
        r.remote_cwd@.len() == 0,
        r.remote_os@.len() == 0,
        r.remote_shell@.len() == 0,
{
    SshInfo {
        is_ssh: false,
        target: String::new(),
        remote_cwd: String::new(),
        remote_os: String::new(),
        remote_shell: String::new(),
    }
}
} // verus!
