use mux::config::Layout;
use mux::query::{ForegroundError, QueryReply, TmuxError};
use mux::tmux::{pane_target, window_target, Tmux};

fn ok(stdout: &str) -> Option<Result<QueryReply, String>> {
    Some(Ok(QueryReply { success: true, stdout: stdout.to_string(), stderr: String::new() }))
}

fn failed(stderr: &str) -> Option<Result<QueryReply, String>> {
    Some(Ok(QueryReply { success: false, stdout: String::new(), stderr: stderr.to_string() }))
}

const IN: Option<&str> = Some("/tmp/tmux-1000/default,1,0");

#[test]
fn new_session() {
    let t = Tmux::new("work", "~/src");
    assert_eq!(t.session, "work");
    assert_eq!(t.root_dir, Some("~/src".to_string()));
}

#[test]
fn has_session_args() {
    assert_eq!(Tmux::new("w", "r").has_session(), vec!["has-session", "-t", "w"]);
}

#[test]
fn session_exists_from_stderr() {
    assert!(Tmux::is_session_exist(""));
    assert!(!Tmux::is_session_exist("can't find session: work\n"));
    assert!(!Tmux::is_session_exist("no server running on /tmp/tmux-1000/default\n"));
    assert!(Tmux::is_session_exist("something else"));
}

#[test]
fn start_in_background_args() {
    let t = Tmux::new("work", "~/src");
    assert_eq!(
        t.start_in_background(false, "/home/u"),
        Some(vec![
            "new".to_string(),
            "-d".to_string(),
            "-s".to_string(),
            "work".to_string(),
            "-c".to_string(),
            "/home/u/src".to_string()
        ])
    );
    let t = Tmux { session: "s".to_string(), root_dir: None };
    assert_eq!(
        t.start_in_background(false, "/home/u").unwrap(),
        vec!["new", "-d", "-s", "s", "-c", "."]
    );
}

#[test]
fn start_in_background_leaves_an_existing_session() {
    let t = Tmux::new("work", "~/src");
    assert_eq!(t.start_in_background(true, "/home/u"), None);
    // Once a start has made the session, starting again makes nothing.
    let first = t.start_in_background(Tmux::is_session_exist("can't find session: work\n"), "/h");
    assert!(first.is_some());
    assert_eq!(t.start_in_background(Tmux::is_session_exist(""), "/h"), None);
}

#[test]
fn set_config_name_args() {
    assert_eq!(
        Tmux::new("s", "r").set_config_name("work"),
        vec!["set-option", "-t", "s", "@mux_config", "work"]
    );
}

#[test]
fn config_name_from_reply() {
    assert_eq!(Tmux::config_name("work\n"), Some("work".to_string()));
    assert_eq!(Tmux::config_name("  work \n"), Some("work".to_string()));
    assert_eq!(Tmux::config_name("\n"), None);
    assert_eq!(Tmux::config_name(""), None);
}

#[test]
fn config_name_reads_back_what_is_set() {
    let t = Tmux::new("s", "r");
    for name in ["work", "a b", "x"] {
        let args = t.set_config_name(name);
        let reply = format!("{}\n", args[4]);
        assert_eq!(Tmux::config_name(&reply), Some(name.to_string()));
    }
}

#[test]
fn in_tmux_from_variable() {
    assert!(Tmux::is_in_tmux(Some("/tmp/tmux-1000/default,1,0")));
    assert!(!Tmux::is_in_tmux(Some("")));
    assert!(!Tmux::is_in_tmux(None));
}

#[test]
fn attach_or_switch_args() {
    let t = Tmux::new("work", "r");
    assert_eq!(t.attach_or_switch(true), vec!["switch-client", "-t", "work"]);
    assert_eq!(t.attach_or_switch(false), vec!["attach", "-t", "work"]);
}

#[test]
fn add_window_directories() {
    let t = Tmux::new("s", "~/root");
    assert_eq!(
        t.add_window("w", Some("~/dir"), "/h"),
        vec!["new-window", "-t", "s", "-n", "w", "-c", "/h/dir"]
    );
    assert_eq!(
        t.add_window("w", None, "/h"),
        vec!["new-window", "-t", "s", "-n", "w", "-c", "/h/root"]
    );
    let t = Tmux { session: "s".to_string(), root_dir: None };
    assert_eq!(t.add_window("w", None, "/h"), vec!["new-window", "-t", "s", "-n", "w", "-c", "/h"]);
}

#[test]
fn window_commands() {
    let t = Tmux::new("s", "r");
    assert_eq!(t.remove_window("s:1"), vec!["kill-window", "-t", "s:1"]);
    assert_eq!(t.set_renumber_windows(true), vec!["set", "-t", "s", "renumber-windows", "on"]);
    assert_eq!(t.set_renumber_windows(false), vec!["set", "-t", "s", "renumber-windows", "off"]);
}

#[test]
fn split_window_flags() {
    let t = Tmux::new("s", "r");
    let expected = |flag: &str| {
        vec![
            "split-window".to_string(),
            "-t".to_string(),
            "s:w".to_string(),
            flag.to_string(),
            "-c".to_string(),
            "#{pane_current_path}".to_string(),
            "-P".to_string(),
            "-F".to_string(),
            "#{pane_index}".to_string(),
        ]
    };
    assert_eq!(t.split_window("s:w", None), expected("-h"));
    assert_eq!(t.split_window("s:w", Some(Layout::EvenHorizontal)), expected("-h"));
    assert_eq!(t.split_window("s:w", Some(Layout::EvenVertical)), expected("-v"));
}

#[test]
fn pane_commands() {
    let t = Tmux::new("s", "r");
    assert_eq!(t.select_pane("2", "editor"), vec!["select-pane", "-t", "2", "-T", "editor"]);
    let (text, enter) = t.send_cmd("s:w.2", "ls -la");
    assert_eq!(text, vec!["send-keys", "-t", "s:w.2", "-l", "ls -la"]);
    assert_eq!(enter, vec!["send-keys", "-t", "s:w.2", "Enter"]);
}

#[test]
fn targets() {
    assert_eq!(window_target("s", "w"), "s:w");
    assert_eq!(pane_target("s:w", "3"), "s:w.3");
}

#[test]
fn kill_commands() {
    assert_eq!(Tmux::kill_session("s"), vec!["kill-session", "-t", "s"]);
    assert_eq!(Tmux::kill_window("s", 12), vec!["kill-window", "-t", "s:12"]);
    assert_eq!(Tmux::kill_pane("s", 1, 0), vec!["kill-pane", "-t", "s:1.0"]);
}


#[test]
fn split_window_reply_gives_id_and_title() {
    let t = Tmux::new("s", "r");
    let (id, select) = t.split_window_reply("2\n", Some("editor"));
    assert_eq!(id, "2");
    assert_eq!(select, Some(vec![
        "select-pane".to_string(),
        "-t".to_string(),
        "2".to_string(),
        "-T".to_string(),
        "editor".to_string()
    ]));
    assert_eq!(t.split_window_reply("3 \n", None), ("3".to_string(), None));
    assert_eq!(t.split_window_reply("", None), (String::new(), None));
}

#[test]
fn current_session_name_replies() {
    assert_eq!(Tmux::current_session_name(IN, &ok("work\n")), Ok("work".to_string()));
    assert_eq!(Tmux::current_session_name(IN, &ok(" w \n")), Ok(" w".to_string()));
    assert_eq!(
        Tmux::current_session_name(IN, &failed("  no server running \n")),
        Err(TmuxError::Failed("no server running".to_string()))
    );
    assert_eq!(Tmux::current_session_name(None, &ok("work\n")), Err(TmuxError::NotInTmux));
    assert_eq!(Tmux::current_session_name(Some(""), &None), Err(TmuxError::NotInTmux));
    assert_eq!(
        Tmux::current_session_name(IN, &Some(Err("no tmux".to_string()))),
        Err(TmuxError::Spawn("no tmux".to_string()))
    );
    assert_eq!(Tmux::current_session_name(IN, &None), Err(TmuxError::NoReply));
}

#[test]
fn current_index_replies() {
    assert_eq!(Tmux::current_index(IN, &ok("3\n")), Ok(3));
    assert_eq!(Tmux::current_index(IN, &ok("x\n")), Err(TmuxError::NotAnIndex));
    assert_eq!(Tmux::current_index(IN, &failed("bad\n")), Err(TmuxError::Failed("bad".to_string())));
    assert_eq!(Tmux::current_index(None, &ok("3\n")), Err(TmuxError::NotInTmux));
}

#[test]
fn foreground_session_from_attached_count() {
    assert_eq!(Tmux::foreground_session_name(Ok("s".to_string()), Some("1\n")), Ok("s".to_string()));
    assert_eq!(Tmux::foreground_session_name(Ok("s".to_string()), Some("2")), Ok("s".to_string()));
    assert_eq!(
        Tmux::foreground_session_name(Ok("s".to_string()), Some("0\n")),
        Err(ForegroundError::NotAttached)
    );
    assert_eq!(
        Tmux::foreground_session_name(Ok("s".to_string()), Some(" 0 ")),
        Err(ForegroundError::NotAttached)
    );
    assert_eq!(
        Tmux::foreground_session_name(Err(TmuxError::NotInTmux), None),
        Err(ForegroundError::NoSession(TmuxError::NotInTmux))
    );
    assert_eq!(Tmux::foreground_session_name(Ok("s".to_string()), None), Err(ForegroundError::NoReply));
}

#[test]
fn kill_commands_from_queries() {
    assert_eq!(
        Tmux::kill_session_command(IN, &ok("work\n")),
        Ok(vec!["kill-session".to_string(), "-t".to_string(), "work".to_string()])
    );
    assert_eq!(Tmux::kill_session_command(None, &None), Err(TmuxError::NotInTmux));
    assert_eq!(
        Tmux::kill_window_command(IN, &ok("work\n"), &ok("4\n")),
        Ok(vec!["kill-window".to_string(), "-t".to_string(), "work:4".to_string()])
    );
    assert_eq!(Tmux::kill_window_command(Some(""), &None, &None), Err(TmuxError::NotInTmux));
    assert_eq!(
        Tmux::kill_window_command(IN, &failed("lost\n"), &ok("4\n")),
        Err(TmuxError::Failed("lost".to_string()))
    );
    assert_eq!(
        Tmux::kill_pane_command(IN, &ok("work\n"), &ok("4\n"), &ok("1\n")),
        Ok(vec!["kill-pane".to_string(), "-t".to_string(), "work:4.1".to_string()])
    );
    assert_eq!(
        Tmux::kill_pane_command(IN, &ok("work\n"), &ok("x\n"), &ok("1\n")),
        Err(TmuxError::NotAnIndex)
    );
}

#[test]
fn index_read_is_index_killed() {
    for n in [0u32, 7, 42, 4294967295] {
        let reply = format!("{n}\n");
        let idx = Tmux::current_index(IN, &ok(&reply)).unwrap();
        assert_eq!(idx, n);
        assert_eq!(Tmux::kill_window("s", idx)[2], format!("s:{n}"));
    }
}
