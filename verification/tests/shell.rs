use drover::shell::{
    child_pids, default_shell_launch, escape_single_quotes_str, get_remote_cwd, get_remote_os,
    get_remote_shell, no_ssh, parse_lsof_cwd, parse_ssh_target, remote_cwd_script,
    remote_os_command, remote_shell_command, session_pid, shell_launch, ssh_child_target_of,
    ssh_control_socket_name, ssh_info, ssh_multiplex_args,
};

#[test]
fn quoting_for_sh() {
    assert_eq!(escape_single_quotes_str("it's"), "it'\\''s");
    assert_eq!(escape_single_quotes_str("plain"), "plain");
    assert_eq!(escape_single_quotes_str("''"), "'\\'''\\''");
}

#[test]
fn quoting_reads_back() {
    for s in ["it's", "''", "plain", "a'b'c", "'\\''"] {
        let e = escape_single_quotes_str(s);
        assert_eq!(e.replace("'\\''", "'"), s);
    }
}

#[test]
fn launch_defaults() {
    let l = shell_launch(None, None, None, None);
    assert_eq!((l.rows, l.cols), (24, 80));
    assert_eq!(l.program, "/bin/zsh");
    assert_eq!(l.args, vec!["-l"]);
    assert_eq!(l.env[0], ("TERM".to_string(), "xterm-256color".to_string()));
    assert_eq!(l.env.len(), 5);
    assert_eq!(l.cwd, None);
    let m = shell_launch(Some(40), Some(120), Some("/bin/bash".into()), Some("/home/u".into()));
    assert_eq!((m.rows, m.cols), (40, 120));
    assert_eq!(m.program, "/bin/bash");
    assert_eq!(m.cwd.as_deref(), Some("/home/u"));
    let d = default_shell_launch(Some(10), None, Some("/bin/fish".into()));
    assert_eq!((d.rows, d.cols), (10, 80));
    assert_eq!(d.program, "/bin/fish");
}

#[test]
fn lsof_working_directory() {
    assert_eq!(parse_lsof_cwd("p123\nfcwd\nn/Users/me\n").unwrap(), "/Users/me");
    assert_eq!(parse_lsof_cwd("p1\nnrelative\n").unwrap_err(), "Could not determine CWD");
}

#[test]
fn child_process_ids() {
    assert_eq!(child_pids("123\n 456 \n\n"), vec!["123", "456"]);
    assert!(child_pids("").is_empty());
}

#[test]
fn ssh_targets() {
    assert_eq!(parse_ssh_target("ssh -p 2222 -i key user@host ls"), "user@host");
    assert_eq!(parse_ssh_target("ssh -v -N host"), "host");
    assert_eq!(parse_ssh_target("ssh -o ControlMaster=no -J jump me@box"), "me@box");
    assert_eq!(parse_ssh_target("ssh"), "");
    assert_eq!(parse_ssh_target("ssh -p"), "");
    assert_eq!(parse_ssh_target(""), "");
}

#[test]
fn ssh_children() {
    assert_eq!(ssh_child_target_of("/usr/bin/ssh me@box\n"), Some("me@box".to_string()));
    assert_eq!(ssh_child_target_of("ssh -v host"), Some("host".to_string()));
    assert_eq!(ssh_child_target_of("vim notes"), None);
    assert_eq!(ssh_child_target_of("ssh -v"), None);
}

#[test]
fn control_sockets_and_arguments() {
    assert_eq!(ssh_control_socket_name("me@h.example.com:22"), "ctrl-me_h_example_com_22");
    let a = ssh_multiplex_args("me@h", "/tmp/drover-ssh/ctrl-me_h");
    assert_eq!(
        a,
        vec![
            "-o",
            "ControlMaster=auto",
            "-o",
            "ControlPath=/tmp/drover-ssh/ctrl-me_h",
            "-o",
            "ControlPersist=60",
            "-o",
            "ConnectTimeout=5",
            "-o",
            "BatchMode=yes",
            "me@h",
        ]
    );
}

#[test]
fn remote_queries() {
    assert!(remote_cwd_script().contains("readlink /proc/$pid/cwd"));
    assert_eq!(remote_os_command(), "uname -srm 2>/dev/null || echo unknown");
    assert_eq!(remote_shell_command(), "basename \"$SHELL\" 2>/dev/null || echo sh");
    assert_eq!(get_remote_cwd(true, " /srv/app \n").unwrap(), "/srv/app");
    assert_eq!(get_remote_cwd(false, "x").unwrap_err(), "Failed to get remote CWD");
    assert_eq!(get_remote_os(false, "").unwrap_err(), "Failed to get remote OS");
    assert_eq!(get_remote_shell(true, "bash\n").unwrap(), "bash");
    assert_eq!(get_remote_shell(false, "").unwrap_err(), "Failed to get remote shell");
}

#[test]
fn sessions_and_reports() {
    assert_eq!(session_pid(None).unwrap_err(), "Session not found");
    assert_eq!(session_pid(Some(None)).unwrap_err(), "No PID available");
    assert_eq!(session_pid(Some(Some(42))).unwrap(), 42);
    let i = ssh_info("me@h".into(), Ok("/srv".into()), Err("x".into()), Ok("zsh".into()));
    assert!(i.is_ssh);
    assert_eq!(i.remote_cwd, "/srv");
    assert_eq!(i.remote_os, "");
    assert_eq!(i.remote_shell, "zsh");
    let n = no_ssh();
    assert!(!n.is_ssh);
    assert_eq!(n.target, "");
}
