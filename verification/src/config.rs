//! The session config: its data, the default config, and where config files
//! are kept.
use vstd::prelude::*;
use crate::name_map::NameMap;
use crate::text::{chars_of, owned, string_of, string_seqs};

verus! {

/// How the panes of a window are laid out.
#[derive(Clone, Copy, Debug, PartialEq, Eq, Structural)]
pub enum Layout {
    EvenHorizontal,
    EvenVertical,
}

/// A pane: a named pane with the commands that are typed into it, or a
/// single command.
#[derive(Debug)]
pub enum Pane {
    PaneWithCommands(NameMap<Vec<String>>),
    Command(String),
}

/// The panes of a window, how they are laid out, and the directory the
/// window starts in.
#[derive(Debug)]
pub struct Panes {
    pub panes: Vec<Pane>,
    pub layout: Option<Layout>,
    pub root: Option<String>,
}

/// What a named window holds: panes, or a single command.
#[derive(Debug)]
pub enum CmdPanes {
    Panes(Panes),
    Command(String),
}

/// A window: named windows with their contents, or just a window name.
#[derive(Debug)]
pub enum Window {
    WindowWithPanes(NameMap<CmdPanes>),
    WindowName(String),
}

/// A session config: the session's name, its root directory and its windows.
#[derive(Debug)]
pub struct Config {
    pub name: String,
    pub root: String,
    pub windows: Vec<Window>,
}

/// A pane, as plain values.
pub enum PaneView {
    PaneWithCommands(Seq<(Seq<char>, Seq<Seq<char>>)>),
    Command(Seq<char>),
}

/// The panes of a window, as plain values.
pub struct PanesView {
    pub panes: Seq<PaneView>,
    pub layout: Option<Layout>,
    pub root: Option<Seq<char>>,
}

/// What a named window holds, as plain values.
pub enum CmdPanesView {
    Panes(PanesView),
    Command(Seq<char>),
}

/// A window, as plain values.
pub enum WindowView {
    WindowWithPanes(Seq<(Seq<char>, CmdPanesView)>),
    WindowName(Seq<char>),
}

/// A session config, as plain values.
pub struct ConfigView {
    pub name: Seq<char>,
    pub root: Seq<char>,
    pub windows: Seq<WindowView>,
}

/// An optional string as an optional sequence of characters.
pub open spec fn opt_view(s: Option<String>) -> Option<Seq<char>> {
    match s {
        Some(s) => Some(s@),
        None => None,
    }
}

/// Named command lists as plain values.
pub open spec fn commands_view(es: Seq<(String, Vec<String>)>) -> Seq<(Seq<char>, Seq<Seq<char>>)> {
    es.map_values(|e: (String, Vec<String>)| (e.0@, string_seqs(e.1@)))
}

impl View for Pane {
    type V = PaneView;

    open spec fn view(&self) -> PaneView {
        match self {
            Pane::PaneWithCommands(m) => PaneView::PaneWithCommands(commands_view(m.entries_view())),
            Pane::Command(c) => PaneView::Command(c@),
        }
    }
}

impl View for Panes {
    type V = PanesView;

    open spec fn view(&self) -> PanesView {
        PanesView {
            panes: self.panes@.map_values(|p: Pane| p@),
            layout: self.layout,
            root: opt_view(self.root),
        }
    }
}

impl View for CmdPanes {
    type V = CmdPanesView;

    open spec fn view(&self) -> CmdPanesView {
        match self {
            CmdPanes::Panes(p) => CmdPanesView::Panes(p@),
            CmdPanes::Command(c) => CmdPanesView::Command(c@),
        }
    }
}

/// Named window contents as plain values.
pub open spec fn windows_view(es: Seq<(String, CmdPanes)>) -> Seq<(Seq<char>, CmdPanesView)> {
    es.map_values(|e: (String, CmdPanes)| (e.0@, e.1@))
}

impl View for Window {
    type V = WindowView;

    open spec fn view(&self) -> WindowView {
        match self {
            Window::WindowWithPanes(m) => WindowView::WindowWithPanes(windows_view(m.entries_view())),
            Window::WindowName(n) => WindowView::WindowName(n@),
        }
    }
}

impl View for Config {
    type V = ConfigView;

    open spec fn view(&self) -> ConfigView {
        ConfigView {
            name: self.name@,
            root: self.root@,
            windows: self.windows@.map_values(|w: Window| w@),
        }
    }
}

/// The layout of a window whose config names none.
pub fn default_layout() -> (r: Option<Layout>)
    ensures
        r == Some(Layout::EvenHorizontal),
{
    Some(Layout::EvenHorizontal)
}

/// The config that is written for a config name that has no file yet.
pub open spec fn default_config_view() -> ConfigView {
    ConfigView {
        name: "Default"@,
        root: "~/Documents/PlayGround/"@,
        windows: seq![
            WindowView::WindowWithPanes(
                seq![
                    (
                        "editor"@,
                        CmdPanesView::Panes(
                            PanesView {
                                panes: seq![
                                    PaneView::PaneWithCommands(
                                        seq![("editor"@, seq!["nvim"@, ":RestoreSession"@])],
                                    ),
                                ],
                                layout: None,
                                root: None,
                            },
                        ),
                    ),
                ],
            ),
            WindowView::WindowWithPanes(
                seq![
                    (
                        "misc"@,
                        CmdPanesView::Panes(
                            PanesView {
                                panes: seq![PaneView::Command("clear"@), PaneView::Command("clear"@)],
                                layout: Some(Layout::EvenHorizontal),
                                root: None,
                            },
                        ),
                    ),
                ],
            ),
        ],
    }
}

impl Config {
    /// The config that is written for a config name that has no file yet: an
    /// `editor` window that runs nvim and a `misc` window with two shells.
    pub fn default() -> (c: Config)
        ensures
            c@ == default_config_view(),
    {
        let cmds: Vec<String> = vec![owned("nvim"), owned(":RestoreSession")];
        assert(string_seqs(cmds@) =~= seq!["nvim"@, ":RestoreSession"@]);
        let editor_pane = Pane::PaneWithCommands(NameMap::single(owned("editor"), cmds));
        let editor_panes: Vec<Pane> = vec![editor_pane];
        let editor = Window::WindowWithPanes(
            NameMap::single(
                owned("editor"),
                CmdPanes::Panes(Panes { panes: editor_panes, layout: None, root: None }),
            ),
        );
        let misc_panes: Vec<Pane> = vec![Pane::Command(owned("clear")), Pane::Command(owned("clear"))];
        let misc = Window::WindowWithPanes(
            NameMap::single(
                owned("misc"),
                CmdPanes::Panes(
                    Panes { panes: misc_panes, layout: Some(Layout::EvenHorizontal), root: None },
                ),
            ),
        );
        let windows: Vec<Window> = vec![editor, misc];
        let c = Config { name: owned("Default"), root: owned("~/Documents/PlayGround/"), windows };
        assert(c@.windows[0] == default_config_view().windows[0]) by {
            if let Window::WindowWithPanes(m) = windows@[0] {
                if let CmdPanes::Panes(p) = m.entries_view()[0].1 {
                    assert(p@.panes =~= seq![
                        PaneView::PaneWithCommands(seq![("editor"@, seq!["nvim"@, ":RestoreSession"@])]),
                    ]) by {
                        if let Pane::PaneWithCommands(pm) = p.panes@[0] {
                            assert(commands_view(pm.entries_view()) =~= seq![
                                ("editor"@, seq!["nvim"@, ":RestoreSession"@]),
                            ]);
                        }
                    }
                }
                assert(windows_view(m.entries_view()) =~= seq![
                    (
                        "editor"@,
                        CmdPanesView::Panes(
                            PanesView {
                                panes: seq![
                                    PaneView::PaneWithCommands(
                                        seq![("editor"@, seq!["nvim"@, ":RestoreSession"@])],
                                    ),
                                ],
                                layout: None,
                                root: None,
                            },
                        ),
                    ),
                ]);
            }
        }
        assert(c@.windows[1] == default_config_view().windows[1]) by {
            if let Window::WindowWithPanes(m) = windows@[1] {
                if let CmdPanes::Panes(p) = m.entries_view()[0].1 {
                    assert(p@.panes =~= seq![PaneView::Command("clear"@), PaneView::Command("clear"@)]);
                }
                assert(windows_view(m.entries_view()) =~= seq![
                    (
                        "misc"@,
                        CmdPanesView::Panes(
                            PanesView {
                                panes: seq![PaneView::Command("clear"@), PaneView::Command("clear"@)],
                                layout: Some(Layout::EvenHorizontal),
                                root: None,
                            },
                        ),
                    ),
                ]);
            }
        }
        assert(c@.windows =~= default_config_view().windows);
        c
    }
}

// ---------------------------------------------------------------------------
// Where config files are kept
// ---------------------------------------------------------------------------

/// `base` joined with the relative or absolute path `rel`, as
/// `PathBuf::join` does it on Unix: an absolute `rel` replaces `base`, and a
/// `/` is put between the two where `base` is not empty and does not end in
/// one.
pub open spec fn join_path(base: Seq<char>, rel: Seq<char>) -> Seq<char> {
    if rel.len() > 0 && rel[0] == '/' {
        rel
    } else if base.len() == 0 || base.last() == '/' {
        base + rel
    } else {
        base + seq!['/'] + rel
    }
}

/// `base` joined with `rel` (`PathBuf::join`).
pub fn join_path_str(base: &str, rel: &str) -> (r: String)
    ensures
        r@ == join_path(base@, rel@),
{
    let b = chars_of(base);
    let mut v = chars_of(rel);
    if v.len() > 0 && v[0] == '/' {
        return string_of(&v);
    }
    let mut out = b;
    let n = out.len();
    if n > 0 && out[n - 1] != '/' {
        out.push('/');
    }
    out.append(&mut v);
    string_of(&out)
}

/// The base directory of user configs: `$XDG_CONFIG_HOME` where it is set and
/// not empty, else `.config` in `$HOME` (taken as empty where unset).
pub open spec fn config_home_spec(xdg: Option<Seq<char>>, home: Option<Seq<char>>) -> Seq<char> {
    match xdg {
        Some(p) if p.len() > 0 => p,
        _ => join_path(
            match home {
                Some(h) => h,
                None => Seq::<char>::empty(),
            },
            ".config"@,
        ),
    }
}

/// The base directory of user configs, from the values of `XDG_CONFIG_HOME`
/// and `HOME`.
pub fn xdg_config_home(xdg: Option<&str>, home: Option<&str>) -> (r: String)
    ensures
        r@ == config_home_spec(
            match xdg {
                Some(x) => Some(x@),
                None => None,
            },
            match home {
                Some(h) => Some(h@),
                None => None,
            },
        ),
{
    if let Some(p) = xdg {
        if !p.is_empty() {
            return owned(p);
        }
    }
    let h = match home {
        Some(h) => h,
        None => "",
    };
    proof {
        reveal_strlit("");
    }
    join_path_str(h, ".config")
}

/// The directory of this program's configs, inside the config base directory.
pub open spec fn config_dir_spec(config_home: Seq<char>) -> Seq<char> {
    join_path(config_home, "mux"@)
}

/// The directory of this program's configs, inside `config_home`.
pub fn config_dir(config_home: &str) -> (r: String)
    ensures
        r@ == config_dir_spec(config_home@),
{
    join_path_str(config_home, "mux")
}

/// The file of the config named `config_name`.
pub open spec fn config_path_spec(config_home: Seq<char>, config_name: Seq<char>) -> Seq<char> {
    join_path(config_dir_spec(config_home), config_name + ".yml"@)
}

/// The file of the config named `config_name`: `<name>.yml` in the config
/// directory.
pub fn config_path(config_home: &str, config_name: &str) -> (r: String)
    ensures
        r@ == config_path_spec(config_home@, config_name@),
{
    let dir = config_dir(config_home);
    let mut file = owned(config_name);
    file.append(".yml");
    join_path_str(dir.as_str(), file.as_str())
}

} // verus!
