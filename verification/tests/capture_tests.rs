use mux::capture::{
    capture_pane, capture_panes, capture_window, has_foreground_process, list_panes,
    list_windows, pane_line, saved_command_query, show_saved_command, CaptureError,
    PaneAnswers, WindowAnswers,
};
use mux::config::{CmdPanes, Layout, Pane, Panes, Window};
use mux::name_map::NameMap;
use mux::tmux::Tmux;

fn pane_commands(p: &Pane) -> (String, Vec<String>) {
    match p {
        Pane::PaneWithCommands(m) => {
            assert_eq!(m.len(), 1);
            m.entries()[0].clone()
        }
        Pane::Command(_) => panic!("expected a pane with commands"),
    }
}

fn window_panes(w: &Window) -> (&str, &Panes) {
    match w {
        Window::WindowWithPanes(m) => {
            assert_eq!(m.len(), 1);
            let (name, cp) = &m.entries()[0];
            match cp {
                CmdPanes::Panes(p) => (name.as_str(), p),
                CmdPanes::Command(_) => panic!("expected panes"),
            }
        }
        Window::WindowName(_) => panic!("expected a window with panes"),
    }
}

#[test]
fn query_args() {
    assert_eq!(list_windows("s"), vec!["list-windows", "-t", "s", "-F", "#{window_id}\t#{window_name}"]);
    assert_eq!(
        list_panes("@1"),
        vec!["list-panes", "-t", "@1", "-F", "#{pane_id}\t#{pane_pid}\t#{pane_tty}\t#{pane_title}"]
    );
    assert_eq!(
        show_saved_command("%3"),
        vec!["show-option", "-pqv", "-t", "%3", "@mux_running_command"]
    );
}

#[test]
fn foreground_process_examples() {
    let ps = "  100   100   300\n  300   300   300\n";
    assert_eq!(has_foreground_process(ps, "100", "999"), Some(true));
    assert_eq!(has_foreground_process(ps, "100", "300"), Some(false));
    let shell_only = "  100   100   100\n";
    assert_eq!(has_foreground_process(shell_only, "100", "999"), Some(false));
    assert_eq!(has_foreground_process("", "100", "999"), Some(false));
    assert_eq!(has_foreground_process("100 100\n", "100", "999"), None);
    assert_eq!(has_foreground_process("100 100 300\n7\n", "100", "999"), None);
    assert_eq!(has_foreground_process("100 100 300\n300 300 300\n7\n", "100", "999"), Some(true));
}

#[test]
fn capture_pane_examples() {
    let p = capture_pane("shell", None).unwrap();
    assert_eq!(pane_commands(&p), ("shell".to_string(), vec![]));
    let p = capture_pane("editor", Some("nvim .\n")).unwrap();
    assert_eq!(pane_commands(&p), ("editor".to_string(), vec!["nvim .".to_string()]));
    assert!(capture_pane("editor", Some("\n")).is_none());
    assert!(capture_pane("editor", Some("")).is_none());
}

fn previous_config() -> Vec<Window> {
    let editor = CmdPanes::Panes(Panes {
        panes: vec![],
        layout: Some(Layout::EvenVertical),
        root: Some("~/code".to_string()),
    });
    vec![
        Window::WindowName("editor".to_string()),
        Window::WindowWithPanes(NameMap::single("misc".to_string(), CmdPanes::Command("ls".to_string()))),
        Window::WindowWithPanes(NameMap::single("editor".to_string(), editor)),
    ]
}

#[test]
fn capture_window_keeps_previous_layout_and_root() {
    let previous = previous_config();
    let w = capture_window("editor", vec![capture_pane("a", None).unwrap()], &previous);
    let (name, p) = window_panes(&w);
    assert_eq!(name, "editor");
    assert_eq!(p.layout, Some(Layout::EvenVertical));
    assert_eq!(p.root, Some("~/code".to_string()));
    assert_eq!(p.panes.len(), 1);

    let w = capture_window("misc", vec![], &previous);
    let (_, p) = window_panes(&w);
    assert_eq!(p.layout, None);
    assert_eq!(p.root, None);

    let w = capture_window("new", vec![], &previous);
    let (_, p) = window_panes(&w);
    assert_eq!(p.layout, None);
    assert_eq!(p.root, None);
}


#[test]
fn pane_line_examples() {
    let p = pane_line("%1\t100\t/dev/pts/1\ttitle\twith tab").unwrap();
    assert_eq!(p.pane_id, "%1");
    assert_eq!(p.pane_pid, "100");
    assert_eq!(p.tty, "/dev/pts/1");
    assert_eq!(p.title, "title\twith tab");
    assert_eq!(pane_line("%2\t200\t/dev/pts/2\t").unwrap().title, "");
    assert!(pane_line("%1\t100\t/dev/pts/1").is_none());
}

#[test]
fn saved_command_is_asked_only_for_foreground_programs() {
    let pane = pane_line("%4\t100\t/dev/pts/4\ttitle").unwrap();
    assert_eq!(
        saved_command_query("100 100 300\n300 300 300\n", &pane, "999"),
        Some(Some(vec![
            "show-option".to_string(),
            "-pqv".to_string(),
            "-t".to_string(),
            "%4".to_string(),
            "@mux_running_command".to_string()
        ]))
    );
    assert_eq!(saved_command_query("100 100 100\n", &pane, "999"), Some(None));
    assert_eq!(saved_command_query("100 100\n", &pane, "999"), None);
}

const FG: &str = "10 10 30\n30 30 30\n";
const NO_FG: &str = "10 10 10\n";

fn answer(ps: &str, saved: Option<&str>) -> PaneAnswers {
    PaneAnswers { ps: ps.to_string(), saved: saved.map(|s| s.to_string()) }
}

#[test]
fn capture_panes_follows_the_listing() {
    let list = "%1\t10\t/dev/pts/1\tone\n%2\t10\t/dev/pts/2\ttwo\n";
    let panes = capture_panes(list, &vec![answer(NO_FG, None), answer(FG, Some("htop\n"))], "99").unwrap();
    assert_eq!(panes.len(), 2);
    assert_eq!(pane_commands(&panes[0]), ("one".to_string(), vec![]));
    assert_eq!(pane_commands(&panes[1]), ("two".to_string(), vec!["htop".to_string()]));
    // A pane with no foreground program records no command, whatever was asked.
    let panes = capture_panes(list, &vec![answer(NO_FG, Some("x\n")), answer(FG, Some("y"))], "99").unwrap();
    assert_eq!(pane_commands(&panes[0]), ("one".to_string(), vec![]));
    assert_eq!(
        capture_panes(list, &vec![answer(NO_FG, None), answer(FG, Some("\n"))], "99").err(),
        Some(CaptureError::NoCommandRecorded("%2".to_string()))
    );
    assert_eq!(
        capture_panes(list, &vec![answer(NO_FG, None), answer(FG, None)], "99").err(),
        Some(CaptureError::AnswerCount)
    );
    assert_eq!(capture_panes(list, &vec![answer(NO_FG, None)], "99").err(), Some(CaptureError::AnswerCount));
    assert_eq!(
        capture_panes(list, &vec![answer("10 10\n", None), answer(FG, None)], "99").err(),
        Some(CaptureError::BadProcessLine)
    );
    assert_eq!(capture_panes("%1\t10\n", &vec![], "99").err(), Some(CaptureError::BadPaneLine));
    // The group of this program is no foreground program.
    let own = capture_panes("%1\t10\t/dev/pts/1\tone\n", &vec![answer(FG, None)], "30").unwrap();
    assert_eq!(pane_commands(&own[0]), ("one".to_string(), vec![]));
}

#[test]
fn current_windows_follow_the_listing() {
    let previous = previous_config();
    let listed = "@1\teditor\n@7\tzsh\n";
    let answers = vec![
        WindowAnswers {
            pane_list: "%1\t10\t/dev/pts/1\te\n".to_string(),
            panes: vec![answer(FG, Some("nvim\n"))],
        },
        WindowAnswers { pane_list: String::new(), panes: vec![] },
    ];
    let ws = Tmux::current_windows(listed, " 99\n", &answers, &previous).unwrap();
    assert_eq!(ws.len(), 2);
    let (n0, p0) = window_panes(&ws[0]);
    assert_eq!(n0, "editor");
    assert_eq!(p0.root, Some("~/code".to_string()));
    assert_eq!(p0.layout, Some(Layout::EvenVertical));
    assert_eq!(pane_commands(&p0.panes[0]), ("e".to_string(), vec!["nvim".to_string()]));
    let (n1, p1) = window_panes(&ws[1]);
    assert_eq!(n1, "zsh");
    assert_eq!(p1.layout, None);
    assert!(p1.panes.is_empty());
    assert_eq!(
        Tmux::current_windows(listed, "99", &answers[..1].iter().map(|a| WindowAnswers {
            pane_list: a.pane_list.clone(),
            panes: vec![answer(FG, Some("nvim\n"))],
        }).collect(), &previous).err(),
        Some(CaptureError::AnswerCount)
    );
    assert_eq!(
        Tmux::current_windows("broken\n", "99", &vec![], &previous).err(),
        Some(CaptureError::BadWindowLine)
    );
    assert_eq!(Tmux::current_windows("", "99", &vec![], &previous).unwrap().len(), 0);
    assert_eq!(
        Tmux::current_windows("", "99", &answers, &previous).err(),
        Some(CaptureError::AnswerCount)
    );
}
