//! The tmux commands that drive a session, and the reading of what tmux
//! answers.
//!
//! Each command is given as the list of arguments that follow `tmux` on its
//! command line; the caller runs it.
use vstd::prelude::*;
use crate::config::{Layout, opt_view};
use crate::text::{
    contains, contains_seq, decimal, format_u32, is_space, lemma_trim_end_line, lemma_trim_line,
    owned, parse_u32, parse_u32_seq, string_seqs, trim, trim_end, trim_end_seq, trim_seq,
};
use crate::util::{expand_tilde, expand_tilde_spec};

verus! {

/// The strings of `parts`, in order.
pub open spec fn strs_view(parts: Seq<&str>) -> Seq<Seq<char>> {
    parts.map_values(|s: &str| s@)
}

/// The strings of `parts`, as owned strings.
pub fn args(parts: &[&str]) -> (r: Vec<String>)
    ensures
        string_seqs(r@) == strs_view(parts@),
{
    let mut r: Vec<String> = Vec::new();
    for i in 0..parts.len()
        invariant
            string_seqs(r@) == strs_view(parts@.take(i as int)),
    {
        let s = owned(parts[i]);
        r.push(s);
        assert(strs_view(parts@.take(i + 1)) == strs_view(parts@.take(i as int)).push(parts@[i as int]@));
        assert(string_seqs(r@) == string_seqs(r@.drop_last()).push(s@));
    }
    assert(parts@.take(parts@.len() as int) == parts@);
    r
}

/// `a`, `sep` and `b` one after the other.
pub fn join3(a: &str, sep: &str, b: &str) -> (r: String)
    ensures
        r@ == a@ + sep@ + b@,
{
    let mut r = owned(a);
    r.append(sep);
    r.append(b);
    r
}

/// The target of the window named `window` in session `session`.
pub open spec fn window_target_spec(session: Seq<char>, window: Seq<char>) -> Seq<char> {
    session + ":"@ + window
}

/// The target `<session>:<window>` of a window of a session.
pub fn window_target(session: &str, window: &str) -> (r: String)
    ensures
        r@ == window_target_spec(session@, window@),
{
    join3(session, ":", window)
}

/// The target of pane `pane_id` of the window `window`.
pub open spec fn pane_target_spec(window: Seq<char>, pane_id: Seq<char>) -> Seq<char> {
    window + "."@ + pane_id
}

/// The target `<window>.<pane>` of a pane of a window.
pub fn pane_target(window: &str, pane_id: &str) -> (r: String)
    ensures
        r@ == pane_target_spec(window@, pane_id@),
{
    join3(window, ".", pane_id)
}

/// The flag of `split-window` for a layout: `-h` side by side (also where
/// no layout is given), `-v` one above the other.
pub open spec fn split_flag(layout: Option<Layout>) -> Seq<char> {
    match layout {
        Some(Layout::EvenVertical) => "-v"@,
        _ => "-h"@,
    }
}

/// The arguments that send `cmd` to `target` as typed text.
pub open spec fn send_text_spec(target: Seq<char>, cmd: Seq<char>) -> Seq<Seq<char>> {
    seq!["send-keys"@, "-t"@, target, "-l"@, cmd]
}

/// The arguments that press Enter in `target`.
pub open spec fn send_enter_spec(target: Seq<char>) -> Seq<Seq<char>> {
    seq!["send-keys"@, "-t"@, target, "Enter"@]
}

/// The arguments that split the window `window`.
pub open spec fn split_window_spec(window: Seq<char>, layout: Option<Layout>) -> Seq<Seq<char>> {
    seq![
        "split-window"@,
        "-t"@,
        window,
        split_flag(layout),
        "-c"@,
        "#{pane_current_path}"@,
        "-P"@,
        "-F"@,
        "#{pane_index}"@,
    ]
}

/// The directory a new window starts in: the one given, else the session's
/// root, else the home directory, with a leading `~` expanded.
pub open spec fn window_dir_spec(
    dir: Option<Seq<char>>,
    root_dir: Option<Seq<char>>,
    home: Seq<char>,
) -> Seq<char> {
    let d = match dir {
        Some(d) => d,
        None => match root_dir {
            Some(r) => r,
            None => home,
        },
    };
    expand_tilde_spec(d, home)
}

/// The arguments that open a window named `name` in `session`.
pub open spec fn add_window_spec(
    session: Seq<char>,
    name: Seq<char>,
    dir: Option<Seq<char>>,
    root_dir: Option<Seq<char>>,
    home: Seq<char>,
) -> Seq<Seq<char>> {
    seq!["new-window"@, "-t"@, session, "-n"@, name, "-c"@, window_dir_spec(dir, root_dir, home)]
}

/// The arguments that start `session` in the background.
pub open spec fn new_session_spec(session: Seq<char>, root_dir: Option<Seq<char>>, home: Seq<char>) -> Seq<
    Seq<char>,
> {
    let d = match root_dir {
        Some(r) => r,
        None => "."@,
    };
    seq!["new"@, "-d"@, "-s"@, session, "-c"@, expand_tilde_spec(d, home)]
}

/// The arguments that attach to `session`: a client inside tmux switches to
/// it, one outside attaches.
pub open spec fn attach_spec(session: Seq<char>, in_tmux: bool) -> Seq<Seq<char>> {
    if in_tmux {
        seq!["switch-client"@, "-t"@, session]
    } else {
        seq!["attach"@, "-t"@, session]
    }
}

/// A tmux session, named `session`, whose windows start in `root_dir`.
#[derive(Debug)]
pub struct Tmux {
    pub session: String,
    pub root_dir: Option<String>,
}

impl Tmux {
    /// The session `session` whose windows start in `root_dir`.
    pub fn new(session: &str, root_dir: &str) -> (t: Tmux)
        ensures
            t.session@ == session@,
            opt_view(t.root_dir) == Some(root_dir@),
    {
        Tmux { session: owned(session), root_dir: Some(owned(root_dir)) }
    }

    /// The arguments of `has-session`, whose error output tells whether the
    /// session exists.
    pub fn has_session(&self) -> (r: Vec<String>)
        ensures
            string_seqs(r@) == seq!["has-session"@, "-t"@, self.session@],
    {
        let s = self.session.as_str();
        let r = args(&["has-session", "-t", s]);
        assert(strs_view(seq!["has-session", "-t", s]) =~= seq![
            "has-session"@,
            "-t"@,
            self.session@,
        ]);
        r
    }

    /// Whether the session exists, from the error output of `has-session`.
    pub fn is_session_exist(stderr: &str) -> (r: bool)
        ensures
            r == (!contains_seq(stderr@, "can't find session"@) && !contains_seq(
                stderr@,
                "no server running"@,
            )),
    {
        !contains(stderr, "can't find session") && !contains(stderr, "no server running")
    }

    /// The arguments that start the session in the background, in its root
    /// directory (the working directory where it has none); `None`, so that
    /// nothing is started, where the session exists already
    /// (`session_exists`, as `is_session_exist` tells it).
    pub fn start_in_background(&self, session_exists: bool, home: &str) -> (r: Option<Vec<String>>)
        ensures
            session_exists ==> r is None,
            !session_exists ==> (r matches Some(a) && string_seqs(a@) == new_session_spec(
                self.session@,
                opt_view(self.root_dir),
                home@,
            )),
    {
        if session_exists {
            return None;
        }
        let s = self.session.as_str();
        let dir = match &self.root_dir {
            Some(d) => d.as_str(),
            None => ".",
        };
        let d = expand_tilde(dir, home);
        let ds = d.as_str();
        let r = args(&["new", "-d", "-s", s, "-c", ds]);
        assert(strs_view(seq!["new", "-d", "-s", s, "-c", ds]) =~= seq![
            "new"@,
            "-d"@,
            "-s"@,
            self.session@,
            "-c"@,
            d@,
        ]);
        Some(r)
    }

    /// The arguments that record the config name `config_name` on the
    /// session, in its user option `@mux_config`.
    pub fn set_config_name(&self, config_name: &str) -> (r: Vec<String>)
        ensures
            string_seqs(r@) == seq![
                "set-option"@,
                "-t"@,
                self.session@,
                "@mux_config"@,
                config_name@,
            ],
    {
        let s = self.session.as_str();
        let r = args(&["set-option", "-t", s, "@mux_config", config_name]);
        assert(strs_view(
            seq!["set-option", "-t", s, "@mux_config", config_name],
        ) =~= seq!["set-option"@, "-t"@, self.session@, "@mux_config"@, config_name@]);
        r
    }

    /// The config name recorded on the current session, from what
    /// `display-message -p -F '#{@mux_config}'` printed: the printed text
    /// without surrounding white space, where that is not empty.
    pub fn config_name(reply: &str) -> (r: Option<String>)
        ensures
            match r {
                Some(name) => trim_seq(reply@).len() > 0 && name@ == trim_seq(reply@),
                None => trim_seq(reply@).len() == 0,
            },
    {
        let name = trim(reply);
        if name.as_str().is_empty() {
            None
        } else {
            Some(name)
        }
    }

    /// Whether this program runs inside tmux, from the value of `TMUX`: set
    /// and not empty.
    pub fn is_in_tmux(tmux_var: Option<&str>) -> (r: bool)
        ensures
            r == match tmux_var {
                Some(v) => v@.len() > 0,
                None => false,
            },
    {
        match tmux_var {
            Some(v) => !v.is_empty(),
            None => false,
        }
    }

    /// The arguments that attach to the session: `switch-client` from inside
    /// tmux, `attach` from outside.
    pub fn attach_or_switch(&self, in_tmux: bool) -> (r: Vec<String>)
        ensures
            string_seqs(r@) == attach_spec(self.session@, in_tmux),
    {
        let s = self.session.as_str();
        let r = if in_tmux {
            args(&["switch-client", "-t", s])
        } else {
            args(&["attach", "-t", s])
        };
        assert(strs_view(seq!["switch-client", "-t", s]) =~= seq![
            "switch-client"@,
            "-t"@,
            self.session@,
        ]);
        assert(strs_view(seq!["attach", "-t", s]) =~= seq![
            "attach"@,
            "-t"@,
            self.session@,
        ]);
        r
    }

    /// The arguments that open a window named `name`, starting in `dir`, else
    /// in the session's root, else in the home directory `home`.
    pub fn add_window(&self, name: &str, dir: Option<&str>, home: &str) -> (r: Vec<String>)
        ensures
            string_seqs(r@) == add_window_spec(
                self.session@,
                name@,
                match dir {
                    Some(d) => Some(d@),
                    None => None,
                },
                opt_view(self.root_dir),
                home@,
            ),
    {
        let s = self.session.as_str();
        let d: &str = match dir {
            Some(d) => d,
            None => match &self.root_dir {
                Some(r) => r.as_str(),
                None => home,
            },
        };
        let d = expand_tilde(d, home);
        let ds = d.as_str();
        let r = args(&["new-window", "-t", s, "-n", name, "-c", ds]);
        assert(strs_view(
            seq!["new-window", "-t", s, "-n", name, "-c", ds],
        ) =~= seq!["new-window"@, "-t"@, self.session@, "-n"@, name@, "-c"@, d@]);
        r
    }

    /// The arguments that close the window `window`.
    pub fn remove_window(&self, window: &str) -> (r: Vec<String>)
        ensures
            string_seqs(r@) == seq!["kill-window"@, "-t"@, window@],
    {
        let r = args(&["kill-window", "-t", window]);
        assert(strs_view(seq!["kill-window", "-t", window]) =~= seq![
            "kill-window"@,
            "-t"@,
            window@,
        ]);
        r
    }

    /// The arguments that turn the renumbering of the session's windows on or
    /// off.
    pub fn set_renumber_windows(&self, flag: bool) -> (r: Vec<String>)
        ensures
            string_seqs(r@) == seq![
                "set"@,
                "-t"@,
                self.session@,
                "renumber-windows"@,
                if flag {
                    "on"@
                } else {
                    "off"@
                },
            ],
    {
        let s = self.session.as_str();
        let flag_str = if flag {
            "on"
        } else {
            "off"
        };
        let r = args(&["set", "-t", s, "renumber-windows", flag_str]);
        assert(strs_view(seq!["set", "-t", s, "renumber-windows", flag_str])
            =~= seq!["set"@, "-t"@, self.session@, "renumber-windows"@, flag_str@]);
        r
    }

    /// The arguments that split the window `window` in the given layout;
    /// tmux prints the index of the new pane.
    pub fn split_window(&self, window: &str, layout: Option<Layout>) -> (r: Vec<String>)
        ensures
            string_seqs(r@) == split_window_spec(window@, layout),
    {
        let flag = match layout {
            Some(Layout::EvenVertical) => "-v",
            _ => "-h",
        };
        let r = args(
            &[
                "split-window",
                "-t",
                window,
                flag,
                "-c",
                "#{pane_current_path}",
                "-P",
                "-F",
                "#{pane_index}",
            ],
        );
        assert(strs_view(
            seq![
                "split-window",
                "-t",
                window,
                flag,
                "-c",
                "#{pane_current_path}",
                "-P",
                "-F",
                "#{pane_index}",
            ],
        ) =~= split_window_spec(window@, layout));
        r
    }

    /// The arguments that give the pane `pane_id` the title `name`.
    pub fn select_pane(&self, pane_id: &str, name: &str) -> (r: Vec<String>)
        ensures
            string_seqs(r@) == seq!["select-pane"@, "-t"@, pane_id@, "-T"@, name@],
    {
        let r = args(&["select-pane", "-t", pane_id, "-T", name]);
        assert(strs_view(seq!["select-pane", "-t", pane_id, "-T", name]) =~= seq![
            "select-pane"@,
            "-t"@,
            pane_id@,
            "-T"@,
            name@,
        ]);
        r
    }

    /// What a split of a window leaves to do, from what `split-window`
    /// printed (whether or not it succeeded): the index of the new pane (the
    /// output without trailing white space), and where a title `name` is
    /// given, the arguments that give the new pane that title.
    pub fn split_window_reply(&self, split_stdout: &str, name: Option<&str>) -> (r: (
        String,
        Option<Vec<String>>,
    ))
        ensures
            r.0@ == trim_end_seq(split_stdout@),
            name is None ==> r.1 is None,
            name matches Some(n) ==> (r.1 matches Some(a) && string_seqs(a@) == seq![
                "select-pane"@,
                "-t"@,
                trim_end_seq(split_stdout@),
                "-T"@,
                n@,
            ]),
    {
        let id = trim_end(split_stdout);
        let title = match name {
            Some(n) => Some(self.select_pane(id.as_str(), n)),
            None => None,
        };
        (id, title)
    }

    /// The two commands that type `cmd` into `target` and press Enter.
    pub fn send_cmd(&self, target: &str, cmd: &str) -> (r: (Vec<String>, Vec<String>))
        ensures
            string_seqs(r.0@) == send_text_spec(target@, cmd@),
            string_seqs(r.1@) == send_enter_spec(target@),
    {
        let text = args(&["send-keys", "-t", target, "-l", cmd]);
        let enter = args(&["send-keys", "-t", target, "Enter"]);
        assert(strs_view(seq!["send-keys", "-t", target, "-l", cmd]) =~= send_text_spec(
            target@,
            cmd@,
        ));
        assert(strs_view(seq!["send-keys", "-t", target, "Enter"]) =~= send_enter_spec(target@));
        (text, enter)
    }

    /// The arguments that end the session `session`.
    pub fn kill_session(session: &str) -> (r: Vec<String>)
        ensures
            string_seqs(r@) == seq!["kill-session"@, "-t"@, session@],
    {
        let r = args(&["kill-session", "-t", session]);
        assert(strs_view(seq!["kill-session", "-t", session]) =~= seq![
            "kill-session"@,
            "-t"@,
            session@,
        ]);
        r
    }

    /// The arguments that close window number `window_idx` of `session`.
    pub fn kill_window(session: &str, window_idx: u32) -> (r: Vec<String>)
        ensures
            string_seqs(r@) == seq![
                "kill-window"@,
                "-t"@,
                session@ + ":"@ + decimal(window_idx as nat),
            ],
    {
        let idx = format_u32(window_idx);
        let target = join3(session, ":", idx.as_str());
        let t = target.as_str();
        let r = args(&["kill-window", "-t", t]);
        assert(strs_view(seq!["kill-window", "-t", t]) =~= seq![
            "kill-window"@,
            "-t"@,
            target@,
        ]);
        r
    }

    /// The arguments that close pane number `pane_idx` of window number
    /// `window_idx` of `session`.
    pub fn kill_pane(session: &str, window_idx: u32, pane_idx: u32) -> (r: Vec<String>)
        ensures
            string_seqs(r@) == seq![
                "kill-pane"@,
                "-t"@,
                session@ + ":"@ + decimal(window_idx as nat) + "."@ + decimal(pane_idx as nat),
            ],
    {
        let w = format_u32(window_idx);
        let p = format_u32(pane_idx);
        let window = join3(session, ":", w.as_str());
        let target = join3(window.as_str(), ".", p.as_str());
        let t = target.as_str();
        let r = args(&["kill-pane", "-t", t]);
        assert(strs_view(seq!["kill-pane", "-t", t]) =~= seq![
            "kill-pane"@,
            "-t"@,
            target@,
        ]);
        r
    }
}

/// A window whose config gives no layout is split as one in the default
/// layout (`default_layout`, side by side) is.
pub proof fn lemma_no_layout_splits_as_default(window: Seq<char>)
    ensures
        split_window_spec(window, None) == split_window_spec(window, Some(Layout::EvenHorizontal)),
{
}

/// The config name that `set_config_name` records on a session is the one
/// that `config_name` reads back from tmux's reply (the value and a line
/// feed), for a name that is not empty and neither starts nor ends in white
/// space.
pub proof fn lemma_config_name_round_trip(name: Seq<char>)
    requires
        name.len() > 0,
        !is_space(name[0]),
        !is_space(name.last()),
    ensures
        trim_seq(name + seq!['\n']).len() > 0,
        trim_seq(name + seq!['\n']) == name,
{
    lemma_trim_line(name);
}

/// The session name that tmux prints on a line is what
/// `current_session_name` gives back, for a name that does not end in white
/// space.
pub proof fn lemma_session_name_round_trip(name: Seq<char>)
    requires
        name.len() == 0 || !is_space(name.last()),
    ensures
        trim_end_seq(name + seq!['\n']) == name,
{
    lemma_trim_end_line(name);
}

} // verus!
