use mux::config::{
    config_dir, config_path, default_layout, join_path_str, xdg_config_home, CmdPanes, Config,
    Layout, Pane, Window,
};
use mux::util::{expand_tilde, home_dir};

#[test]
fn default_layout_is_even_horizontal() {
    assert_eq!(default_layout(), Some(Layout::EvenHorizontal));
}

#[test]
fn default_config_contents() {
    let c = Config::default();
    assert_eq!(c.name, "Default");
    assert_eq!(c.root, "~/Documents/PlayGround/");
    assert_eq!(c.windows.len(), 2);
    match &c.windows[0] {
        Window::WindowWithPanes(m) => {
            assert_eq!(m.len(), 1);
            let (name, cp) = &m.entries()[0];
            assert_eq!(name, "editor");
            match cp {
                CmdPanes::Panes(p) => {
                    assert_eq!(p.layout, None);
                    assert_eq!(p.root, None);
                    assert_eq!(p.panes.len(), 1);
                    match &p.panes[0] {
                        Pane::PaneWithCommands(pm) => {
                            assert_eq!(
                                pm.entries(),
                                &vec![(
                                    "editor".to_string(),
                                    vec!["nvim".to_string(), ":RestoreSession".to_string()]
                                )]
                            );
                        }
                        Pane::Command(_) => panic!("expected a pane with commands"),
                    }
                }
                CmdPanes::Command(_) => panic!("expected panes"),
            }
        }
        Window::WindowName(_) => panic!("expected a window with panes"),
    }
    match &c.windows[1] {
        Window::WindowWithPanes(m) => {
            let (name, cp) = &m.entries()[0];
            assert_eq!(name, "misc");
            match cp {
                CmdPanes::Panes(p) => {
                    assert_eq!(p.layout, Some(Layout::EvenHorizontal));
                    assert_eq!(p.panes.len(), 2);
                    for pane in &p.panes {
                        match pane {
                            Pane::Command(c) => assert_eq!(c, "clear"),
                            _ => panic!("expected a command"),
                        }
                    }
                }
                CmdPanes::Command(_) => panic!("expected panes"),
            }
        }
        Window::WindowName(_) => panic!("expected a window with panes"),
    }
}

#[test]
fn join_path_matches_std() {
    for (base, rel) in [
        ("/home/u", ".config"),
        ("/home/u/", ".config"),
        ("", ".config"),
        ("/a", "/abs"),
        ("rel", "x.yml"),
    ] {
        let expected = std::path::PathBuf::from(base).join(rel);
        assert_eq!(join_path_str(base, rel), expected.to_str().unwrap());
    }
}

#[test]
fn xdg_config_home_examples() {
    assert_eq!(xdg_config_home(Some("/x"), Some("/h")), "/x");
    assert_eq!(xdg_config_home(Some(""), Some("/h")), "/h/.config");
    assert_eq!(xdg_config_home(None, Some("/h/")), "/h/.config");
    assert_eq!(xdg_config_home(None, None), ".config");
}

#[test]
fn config_dir_and_path() {
    assert_eq!(config_dir("/h/.config"), "/h/.config/mux");
    assert_eq!(config_path("/h/.config", "work"), "/h/.config/mux/work.yml");
    assert_eq!(config_path("/h/.config", "/tmp/abs"), "/tmp/abs.yml");
}

#[test]
fn expand_tilde_examples() {
    assert_eq!(expand_tilde("~/code", "/home/u"), "/home/u/code");
    assert_eq!(expand_tilde("~", "/home/u"), "/home/u");
    assert_eq!(expand_tilde("/abs/~", "/home/u"), "/abs/~");
    assert_eq!(expand_tilde("", "/home/u"), "");
    assert_eq!(expand_tilde("~é", ""), "é");
}

#[test]
fn home_dir_examples() {
    assert_eq!(home_dir(Some("/home/u")), "/home/u");
    assert_eq!(home_dir(None), "");
}
