use mux::capture::capture_pane;
use mux::config::{CmdPanes, Config, Layout, Pane, Panes, Window};
use mux::name_map::NameMap;
use mux::start::{start, StartStep};

fn s(v: &[&str]) -> Vec<String> {
    v.iter().map(|x| x.to_string()).collect()
}

fn describe(step: &StartStep) -> String {
    match step {
        StartStep::Tmux(a) => format!("tmux {}", a.join(" ")),
        StartStep::TmuxPrint(a) => format!("print tmux {}", a.join(" ")),
        StartStep::SplitWindow { args, title } => format!("split {} title {:?}", args.join(" "), title),
        StartStep::SendKeys { window, cmd } => format!("send {window} {cmd}"),
        StartStep::Exec(a) => format!("exec tmux {}", a.join(" ")),
        StartStep::Abort => "abort".to_string(),
    }
}

fn split(window: &str, flag: &str) -> String {
    format!("split-window -t {window} {flag} -c #{{pane_current_path}} -P -F #{{pane_index}}")
}

#[test]
fn existing_session_is_attached() {
    let cfg = Config::default();
    let plan = start(&cfg, true, false, "/h");
    assert_eq!(plan.len(), 1);
    assert_eq!(describe(&plan[0]), "exec tmux attach -t Default");
    let plan = start(&cfg, true, true, "/h");
    assert_eq!(describe(&plan[0]), "exec tmux switch-client -t Default");
}

#[test]
fn default_config_plan() {
    let cfg = Config::default();
    let plan: Vec<String> = start(&cfg, false, false, "/home/u").iter().map(describe).collect();
    let expected = vec![
        "print tmux new -d -s Default -c /home/u/Documents/PlayGround/".to_string(),
        "tmux new-window -t Default -n editor -c /home/u/Documents/PlayGround/".to_string(),
        format!("split {} title Some(\"editor\")", split("Default:editor", "-h")),
        "send Default:editor nvim".to_string(),
        "send Default:editor :RestoreSession".to_string(),
        "tmux new-window -t Default -n misc -c /home/u/Documents/PlayGround/".to_string(),
        format!("split {} title None", split("Default:misc", "-h")),
        "send Default:misc clear".to_string(),
        format!("split {} title None", split("Default:misc", "-h")),
        "send Default:misc clear".to_string(),
        "exec tmux attach -t Default".to_string(),
    ];
    assert_eq!(plan, expected);
}

#[test]
fn command_windows_named_windows_and_roots() {
    let mut m = NameMap::new();
    m.insert("logs".to_string(), CmdPanes::Command("tail -f x".to_string()));
    m.insert(
        "build".to_string(),
        CmdPanes::Panes(Panes {
            panes: vec![Pane::Command("make".to_string())],
            layout: Some(Layout::EvenVertical),
            root: Some("~/b".to_string()),
        }),
    );
    let cfg = Config {
        name: "s".to_string(),
        root: "/r".to_string(),
        windows: vec![Window::WindowName("plain".to_string()), Window::WindowWithPanes(m)],
    };
    let plan: Vec<String> = start(&cfg, false, true, "/h").iter().map(describe).collect();
    let expected = vec![
        "print tmux new -d -s s -c /r".to_string(),
        "tmux new-window -t s -n plain -c /r".to_string(),
        "tmux new-window -t s -n build -c /h/b".to_string(),
        format!("split {} title None", split("s:build", "-v")),
        "send s:build make".to_string(),
        "tmux new-window -t s -n logs -c /r".to_string(),
        "tmux send-keys -t s:logs -l tail -f x".to_string(),
        "tmux send-keys -t s:logs Enter".to_string(),
        "exec tmux switch-client -t s".to_string(),
    ];
    assert_eq!(plan, expected);
}

#[test]
fn pane_with_two_names_aborts() {
    let mut pm = NameMap::new();
    pm.insert("a".to_string(), s(&["x"]));
    pm.insert("b".to_string(), s(&["y"]));
    let cfg = Config {
        name: "s".to_string(),
        root: "/r".to_string(),
        windows: vec![Window::WindowWithPanes(NameMap::single(
            "w".to_string(),
            CmdPanes::Panes(Panes {
                panes: vec![Pane::PaneWithCommands(pm), Pane::Command("ls".to_string())],
                layout: None,
                root: None,
            }),
        )), Window::WindowName("later".to_string())],
    };
    let plan: Vec<String> = start(&cfg, false, false, "/h").iter().map(describe).collect();
    // The start stops at the pane: nothing after it is made, and no client attaches.
    assert_eq!(plan.len(), 3);
    assert_eq!(plan[2], "abort");
    let empty = Config {
        name: "s".to_string(),
        root: "/r".to_string(),
        windows: vec![Window::WindowWithPanes(NameMap::single(
            "w".to_string(),
            CmdPanes::Panes(Panes {
                panes: vec![Pane::PaneWithCommands(NameMap::new())],
                layout: None,
                root: None,
            }),
        ))],
    };
    let plan: Vec<String> = start(&empty, false, false, "/h").iter().map(describe).collect();
    assert_eq!(plan.len(), 3);
    assert_eq!(plan[2], "abort");
}

#[test]
fn saved_pane_is_replayed() {
    let pane = capture_pane("editor", Some("nvim .\n")).unwrap();
    let cfg = Config {
        name: "s".to_string(),
        root: "/r".to_string(),
        windows: vec![Window::WindowWithPanes(NameMap::single(
            "w".to_string(),
            CmdPanes::Panes(Panes { panes: vec![pane], layout: None, root: None }),
        ))],
    };
    let plan: Vec<String> = start(&cfg, false, false, "/h").iter().map(describe).collect();
    assert_eq!(plan[2], format!("split {} title Some(\"editor\")", split("s:w", "-h")));
    assert_eq!(plan[3], "send s:w nvim .");
    assert_eq!(plan[4], "exec tmux attach -t s");
}
