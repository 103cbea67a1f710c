//! Reading a running session back into config windows: the tmux queries
//! that list its windows and panes, and what their answers mean.
use vstd::prelude::*;
use crate::config::{CmdPanes, CmdPanesView, Layout, Pane, PaneView, Panes, PanesView, Window, WindowView, opt_view};
use crate::name_map::{NameMap, value_named};
use crate::text::{
    lines, lines_seq, owned, split_once, split_once_seq, str_eq, string_seqs, strip_newline,
    strip_newline_str, trim, trim_seq, words, words_seq, lemma_trim_idempotent,
};
use crate::tmux::{Tmux, args, strs_view};

verus! {

/// The arguments that list the windows of `session`, one line each: the
/// window's id and name, separated by a tab.
pub fn list_windows(session: &str) -> (r: Vec<String>)
    ensures
        string_seqs(r@) == seq!["list-windows"@, "-t"@, session@, "-F"@, "#{window_id}\t#{window_name}"@],
{
    let r = args(&["list-windows", "-t", session, "-F", "#{window_id}\t#{window_name}"]);
    assert(strs_view(seq!["list-windows", "-t", session, "-F", "#{window_id}\t#{window_name}"]) =~= seq![
        "list-windows"@,
        "-t"@,
        session@,
        "-F"@,
        "#{window_id}\t#{window_name}"@,
    ]);
    r
}

/// The arguments that list the panes of the window `window_id`, one line
/// each: the pane's id, the id of its shell process, its terminal and its
/// title, separated by tabs.
pub fn list_panes(window_id: &str) -> (r: Vec<String>)
    ensures
        string_seqs(r@) == seq![
            "list-panes"@,
            "-t"@,
            window_id@,
            "-F"@,
            "#{pane_id}\t#{pane_pid}\t#{pane_tty}\t#{pane_title}"@,
        ],
{
    let r = args(
        &["list-panes", "-t", window_id, "-F", "#{pane_id}\t#{pane_pid}\t#{pane_tty}\t#{pane_title}"],
    );
    assert(strs_view(
        seq!["list-panes", "-t", window_id, "-F", "#{pane_id}\t#{pane_pid}\t#{pane_tty}\t#{pane_title}"],
    ) =~= seq![
        "list-panes"@,
        "-t"@,
        window_id@,
        "-F"@,
        "#{pane_id}\t#{pane_pid}\t#{pane_tty}\t#{pane_title}"@,
    ]);
    r
}

/// The arguments that print the command line recorded for the pane
/// `pane_id`, in its pane option `@mux_running_command`.
pub fn show_saved_command(pane_id: &str) -> (r: Vec<String>)
    ensures
        string_seqs(r@) == seq!["show-option"@, "-pqv"@, "-t"@, pane_id@, "@mux_running_command"@],
{
    let r = args(&["show-option", "-pqv", "-t", pane_id, "@mux_running_command"]);
    assert(strs_view(seq!["show-option", "-pqv", "-t", pane_id, "@mux_running_command"]) =~= seq![
        "show-option"@,
        "-pqv"@,
        "-t"@,
        pane_id@,
        "@mux_running_command"@,
    ]);
    r
}

/// A pane as `list-panes` describes it.
pub struct PaneLine {
    pub pane_id: String,
    pub pane_pid: String,
    pub tty: String,
    pub title: String,
}

/// The four fields of a line of `list-panes`: the text up to each of the
/// first three tabs, and the rest (`splitn(4, '\t')`); `None` where the line
/// has fewer than three tabs.
pub open spec fn pane_line_spec(l: Seq<char>) -> Option<(Seq<char>, Seq<char>, Seq<char>, Seq<char>)> {
    match split_once_seq(l, '\t') {
        Some((a, r1)) => match split_once_seq(r1, '\t') {
            Some((b, r2)) => match split_once_seq(r2, '\t') {
                Some((c, d)) => Some((a, b, c, d)),
                None => None,
            },
            None => None,
        },
        None => None,
    }
}

/// The fields of a pane line as plain values.
pub open spec fn pane_line_view(p: PaneLine) -> (Seq<char>, Seq<char>, Seq<char>, Seq<char>) {
    (p.pane_id@, p.pane_pid@, p.tty@, p.title@)
}

/// The pane that a line of `list-panes` describes.
pub fn pane_line(line: &str) -> (r: Option<PaneLine>)
    ensures
        match r {
            Some(p) => pane_line_spec(line@) == Some(pane_line_view(p)),
            None => pane_line_spec(line@) is None,
        },
{
    let (pane_id, r1) = split_once(line, '\t')?;
    let (pane_pid, r2) = split_once(r1.as_str(), '\t')?;
    let (tty, title) = split_once(r2.as_str(), '\t')?;
    Some(PaneLine { pane_id, pane_pid, tty, title })
}

/// The processes that `ps -o pid=,pgid=,tpgid=` printed, each as its fields.
pub open spec fn processes_spec(out: Seq<char>) -> Seq<Seq<Seq<char>>> {
    lines_seq(out).map_values(|l: Seq<char>| words_seq(l))
}

/// Whether some process of `procs` is in the group `fg` and is not the
/// process `pane_pid`, looking at them in order; `None` where a process
/// without a group field is reached first.
pub open spec fn any_in_group(procs: Seq<Seq<Seq<char>>>, fg: Seq<char>, pane_pid: Seq<char>) -> Option<
    bool,
>
    decreases procs.len(),
{
    if procs.len() == 0 {
        Some(false)
    } else {
        let p = procs[0];
        if p.len() < 2 {
            None
        } else if p[1] == fg && p[0] != pane_pid {
            Some(true)
        } else {
            any_in_group(procs.drop_first(), fg, pane_pid)
        }
    }
}

/// Whether a program other than the pane's shell runs in the foreground of a
/// terminal, from the processes that `ps -t <tty> -o pid=,pgid=,tpgid=`
/// printed: the foreground group is the third field of the first process; it
/// is not this program's own group `own_group`, and some process other than
/// the shell `pane_pid` is in it. `None` where a field that this needs is
/// missing.
pub open spec fn foreground_spec(out: Seq<char>, pane_pid: Seq<char>, own_group: Seq<char>) -> Option<
    bool,
> {
    let ps = processes_spec(out);
    if ps.len() == 0 {
        Some(false)
    } else if ps[0].len() < 3 {
        None
    } else if ps[0][2] == own_group {
        Some(false)
    } else {
        any_in_group(ps, ps[0][2], pane_pid)
    }
}

/// Whether a program other than the pane's shell runs in the foreground of
/// the pane's terminal (see `foreground_spec`).
pub fn has_foreground_process(ps_output: &str, pane_pid: &str, own_group: &str) -> (r: Option<bool>)
    ensures
        r == foreground_spec(ps_output@, pane_pid@, own_group@),
{
    let ls = lines(ps_output);
    let ghost procs = processes_spec(ps_output@);
    let n = ls.len();
    if n == 0 {
        return Some(false);
    }
    assert(ls@[0]@ == lines_seq(ps_output@)[0]);
    let first = words(ls[0].as_str());
    if first.len() < 3 {
        return None;
    }
    let fg = &first[2];
    if str_eq(fg.as_str(), own_group) {
        return Some(false);
    }
    assert(procs.skip(0) == procs);
    for i in 0..n
        invariant
            n == ls@.len(),
            procs.len() == n,
            string_seqs(ls@) == lines_seq(ps_output@),
            procs == processes_spec(ps_output@),
            fg@ == procs[0][2],
            foreground_spec(ps_output@, pane_pid@, own_group@) == any_in_group(
                procs.skip(i as int),
                fg@,
                pane_pid@,
            ),
    {
        assert(ls@[i as int]@ == lines_seq(ps_output@)[i as int]);
        let fields = words(ls[i].as_str());
        assert(procs.skip(i as int)[0] == string_seqs(fields@));
        assert(procs.skip(i as int).drop_first() == procs.skip(i + 1));
        if fields.len() < 2 {
            return None;
        }
        assert(string_seqs(fields@)[0] == fields@[0]@);
        assert(string_seqs(fields@)[1] == fields@[1]@);
        if str_eq(fields[1].as_str(), fg.as_str()) && !str_eq(fields[0].as_str(), pane_pid) {
            return Some(true);
        }
    }
    assert(procs.skip(n as int).len() == 0);
    Some(false)
}

/// The pane that is saved for a pane titled `title`: with no commands where
/// no program runs in its foreground (`saved` is `None`), else with the one
/// command line that `show-option` printed for it (`saved`), without its
/// final line feed. `None` where that command line is empty.
pub open spec fn captured_pane_spec(title: Seq<char>, saved: Option<Seq<char>>) -> Option<PaneView> {
    match saved {
        None => Some(PaneView::PaneWithCommands(seq![(title, Seq::<Seq<char>>::empty())])),
        Some(out) => if strip_newline(out).len() == 0 {
            None
        } else {
            Some(PaneView::PaneWithCommands(seq![(title, seq![strip_newline(out)])]))
        },
    }
}

/// The pane that is saved for a pane titled `title` (see `captured_pane_spec`).
pub fn capture_pane(title: &str, saved: Option<&str>) -> (r: Option<Pane>)
    ensures
        match r {
            Some(p) => captured_pane_spec(
                title@,
                match saved {
                    Some(s) => Some(s@),
                    None => None,
                },
            ) == Some(p@),
            None => captured_pane_spec(
                title@,
                match saved {
                    Some(s) => Some(s@),
                    None => None,
                },
            ) is None,
        },
{
    let commands: Vec<String> = match saved {
        None => Vec::new(),
        Some(out) => {
            let cmd = strip_newline_str(out);
            if cmd.as_str().is_empty() {
                return None;
            }
            vec![cmd]
        },
    };
    let pane = Pane::PaneWithCommands(NameMap::single(owned(title), commands));
    assert(pane@ == captured_pane_spec(
        title@,
        match saved {
            Some(s) => Some(s@),
            None => None,
        },
    )->0) by {
        if let Pane::PaneWithCommands(m) = pane {
            assert(string_seqs(commands@) =~= match saved {
                Some(s) => seq![strip_newline(s@)],
                None => Seq::<Seq<char>>::empty(),
            });
            assert(crate::config::commands_view(m.entries_view()) =~= seq![
                (title@, string_seqs(commands@)),
            ]);
        }
    }
    Some(pane)
}

/// The layout and root that the window `w` records for the window `name`:
/// `w` holds windows with panes, and the one named `name` has panes.
pub open spec fn recorded_in(w: Window, name: Seq<char>) -> Option<(Option<Layout>, Option<Seq<char>>)> {
    match w {
        Window::WindowWithPanes(m) => match value_named(m.entries_view(), name) {
            Some(CmdPanes::Panes(p)) => Some((p.layout, opt_view(p.root))),
            _ => None,
        },
        Window::WindowName(_) => None,
    }
}

/// The layout and root that the first of `ws` that records them for the
/// window `name` gives, or none of either.
pub open spec fn previous_layout_root(ws: Seq<Window>, name: Seq<char>) -> (Option<Layout>, Option<Seq<char>>)
    decreases ws.len(),
{
    if ws.len() == 0 {
        (None, None)
    } else {
        match recorded_in(ws[0], name) {
            Some(x) => x,
            None => previous_layout_root(ws.drop_first(), name),
        }
    }
}

/// The layout and root recorded in `w` for the window `name`.
fn recorded(w: &Window, name: &str) -> (r: Option<(Option<Layout>, Option<String>)>)
    ensures
        match r {
            Some((l, root)) => recorded_in(*w, name@) == Some((l, opt_view(root))),
            None => recorded_in(*w, name@) is None,
        },
{
    match w {
        Window::WindowWithPanes(m) => match m.get(name) {
            Some(CmdPanes::Panes(p)) => {
                let root = match &p.root {
                    Some(r) => Some(r.clone()),
                    None => None,
                };
                Some((p.layout, root))
            },
            _ => None,
        },
        Window::WindowName(_) => None,
    }
}

/// The window that is saved for the window `name` with the panes `panes`:
/// it keeps the layout and root that the previous config `previous` records
/// for a window of that name.
pub open spec fn captured_window_spec(name: Seq<char>, panes: Seq<PaneView>, previous: Seq<Window>) -> WindowView {
    WindowView::WindowWithPanes(
        seq![
            (
                name,
                CmdPanesView::Panes(
                    PanesView {
                        panes,
                        layout: previous_layout_root(previous, name).0,
                        root: previous_layout_root(previous, name).1,
                    },
                ),
            ),
        ],
    )
}

/// The window that is saved for the window `name` with the panes `panes`
/// (see `captured_window_spec`).
pub fn capture_window(name: &str, panes: Vec<Pane>, previous: &Vec<Window>) -> (w: Window)
    ensures
        w@ == captured_window_spec(name@, panes@.map_values(|p: Pane| p@), previous@),
{
    let mut layout: Option<Layout> = None;
    let mut root: Option<String> = None;
    let n = previous.len();
    let mut i: usize = 0;
    let mut found = false;
    assert(previous@.skip(0) == previous@);
    while i < n && !found
        invariant
            n == previous@.len(),
            i <= n,
            found ==> previous_layout_root(previous@, name@) == (layout, opt_view(root)),
            !found ==> previous_layout_root(previous@, name@) == previous_layout_root(
                previous@.skip(i as int),
                name@,
            ),
            !found ==> layout is None && root is None,
        decreases n - i,
    {
        assert(previous@.skip(i as int)[0] == previous@[i as int]);
        assert(previous@.skip(i as int).drop_first() == previous@.skip(i + 1));
        if let Some((l, r)) = recorded(&previous[i], name) {
            layout = l;
            root = r;
            found = true;
        }
        i = i + 1;
    }
    proof {
        if !found {
            assert(previous@.skip(i as int).len() == 0);
        }
    }
    assert(previous_layout_root(previous@, name@) == (layout, opt_view(root)));
    let ghost pv = panes@.map_values(|p: Pane| p@);
    let cp = CmdPanes::Panes(Panes { panes, layout, root });
    let w = Window::WindowWithPanes(NameMap::single(owned(name), cp));
    assert(w@ == WindowView::WindowWithPanes(
        seq![
            (
                name@,
                CmdPanesView::Panes(
                    PanesView {
                        panes: pv,
                        layout: previous_layout_root(previous@, name@).0,
                        root: previous_layout_root(previous@, name@).1,
                    },
                ),
            ),
        ],
    )) by {
        if let Window::WindowWithPanes(m) = w {
            assert(crate::config::windows_view(m.entries_view()) =~= seq![(name@, cp@)]);
        }
    }
    w
}

/// The arguments that print the command recorded for the pane `pane_id`.
pub open spec fn show_saved_spec(pane_id: Seq<char>) -> Seq<Seq<char>> {
    seq!["show-option"@, "-pqv"@, "-t"@, pane_id, "@mux_running_command"@]
}

/// Whether the command recorded for the pane `pane` must be asked for, from
/// the processes that `ps -t <tty> -o pid=,pgid=,tpgid=` printed for its
/// terminal: the arguments of `show-option` where a program other than the
/// pane's shell runs in the foreground (see `foreground_spec`), no query
/// where none does, and `None` where a field that this needs is missing.
pub fn saved_command_query(ps_output: &str, pane: &PaneLine, own_group: &str) -> (r: Option<
    Option<Vec<String>>,
>)
    ensures
        match foreground_spec(ps_output@, pane.pane_pid@, own_group@) {
            None => r is None,
            Some(false) => r == Some(None::<Vec<String>>),
            Some(true) => (r matches Some(Some(a)) && string_seqs(a@) == show_saved_spec(pane.pane_id@)),
        },
{
    match has_foreground_process(ps_output, pane.pane_pid.as_str(), own_group) {
        None => None,
        Some(false) => Some(None),
        Some(true) => Some(Some(show_saved_command(pane.pane_id.as_str()))),
    }
}

/// Why a running session cannot be saved.
#[derive(Debug, PartialEq, Eq)]
pub enum CaptureError {
    /// A line of `list-windows` has no tab.
    BadWindowLine,
    /// A line of `list-panes` has fewer than three tabs.
    BadPaneLine,
    /// A process that `ps` printed lacks a field that is needed.
    BadProcessLine,
    /// The answers do not match the listed windows or panes: one is missing,
    /// or there are more answers than listed items.
    AnswerCount,
    /// A program runs in the foreground of a pane, but the pane has no
    /// command recorded; the pane's id.
    NoCommandRecorded(String),
}

/// Why a running session cannot be saved, as plain values.
pub enum CaptureErrorView {
    BadWindowLine,
    BadPaneLine,
    BadProcessLine,
    AnswerCount,
    NoCommandRecorded(Seq<char>),
}

impl View for CaptureError {
    type V = CaptureErrorView;

    open spec fn view(&self) -> CaptureErrorView {
        match self {
            CaptureError::BadWindowLine => CaptureErrorView::BadWindowLine,
            CaptureError::BadPaneLine => CaptureErrorView::BadPaneLine,
            CaptureError::BadProcessLine => CaptureErrorView::BadProcessLine,
            CaptureError::AnswerCount => CaptureErrorView::AnswerCount,
            CaptureError::NoCommandRecorded(id) => CaptureErrorView::NoCommandRecorded(id@),
        }
    }
}

/// What was learnt of one listed pane: what `ps -t <tty> -o
/// pid=,pgid=,tpgid=` printed for its terminal, and what `show-option`
/// printed for it where it was asked (see `saved_command_query`).
pub struct PaneAnswers {
    pub ps: String,
    pub saved: Option<String>,
}

/// What was learnt of one listed window: what `list-panes` printed for it,
/// and what was learnt of each of its panes, in order.
pub struct WindowAnswers {
    pub pane_list: String,
    pub panes: Vec<PaneAnswers>,
}

/// What was learnt of a pane, as plain values.
pub open spec fn pane_answers_view(a: PaneAnswers) -> (Seq<char>, Option<Seq<char>>) {
    (a.ps@, opt_view(a.saved))
}

/// What was learnt of a window, as plain values.
pub open spec fn window_answers_view(a: WindowAnswers) -> (Seq<char>, Seq<(Seq<char>, Option<Seq<char>>)>) {
    (a.pane_list@, a.panes@.map_values(|p: PaneAnswers| pane_answers_view(p)))
}

/// Element `k` of `s`, where there is one.
pub open spec fn item_at<T>(s: Seq<T>, k: int) -> Option<T> {
    if 0 <= k < s.len() {
        Some(s[k])
    } else {
        None
    }
}

/// The pane that is saved for the line `line` of `list-panes`, with what was
/// learnt of it (`ans`) and this program's process group `own_group`: the
/// pane titled as the line says, with no commands where no program runs in
/// its foreground, else with the command recorded for it (see
/// `captured_pane_spec`).
pub open spec fn pane_result(
    line: Seq<char>,
    ans: Option<(Seq<char>, Option<Seq<char>>)>,
    own_group: Seq<char>,
) -> Result<PaneView, CaptureErrorView> {
    match pane_line_spec(line) {
        None => Err(CaptureErrorView::BadPaneLine),
        Some((id, pid, _tty, title)) => match ans {
            None => Err(CaptureErrorView::AnswerCount),
            Some((ps, saved)) => match foreground_spec(ps, pid, own_group) {
                None => Err(CaptureErrorView::BadProcessLine),
                Some(false) => Ok(captured_pane_spec(title, None)->0),
                Some(true) => match saved {
                    None => Err(CaptureErrorView::AnswerCount),
                    Some(out) => match captured_pane_spec(title, Some(out)) {
                        Some(p) => Ok(p),
                        None => Err(CaptureErrorView::NoCommandRecorded(id)),
                    },
                },
            },
        },
    }
}

/// `xs` in front of the items of `r`, or the error of `r`.
pub open spec fn prepend<T, E>(xs: Seq<T>, r: Result<Seq<T>, E>) -> Result<Seq<T>, E> {
    match r {
        Ok(rest) => Ok(xs + rest),
        Err(e) => Err(e),
    }
}

/// The panes saved for the lines `lines` of `list-panes` from index `k` on,
/// with what was learnt of each (`answers`): each line's pane in order, or
/// the first line's error; an error too where there are answers for more
/// panes than listed.
pub open spec fn panes_result(
    lines: Seq<Seq<char>>,
    answers: Seq<(Seq<char>, Option<Seq<char>>)>,
    own_group: Seq<char>,
    k: nat,
) -> Result<Seq<PaneView>, CaptureErrorView>
    decreases lines.len() - k,
{
    if k >= lines.len() {
        if answers.len() > lines.len() {
            Err(CaptureErrorView::AnswerCount)
        } else {
            Ok(Seq::<PaneView>::empty())
        }
    } else {
        match pane_result(lines[k as int], item_at(answers, k as int), own_group) {
            Err(e) => Err(e),
            Ok(p) => prepend(seq![p], panes_result(lines, answers, own_group, k + 1)),
        }
    }
}

/// The window saved for the line `line` of `list-windows`, with what was
/// learnt of it (`ans`): named as the line says, holding the panes saved for
/// its pane listing (see `panes_result`), and keeping what `previous`
/// records for its name (see `captured_window_spec`).
pub open spec fn window_result(
    line: Seq<char>,
    ans: Option<(Seq<char>, Seq<(Seq<char>, Option<Seq<char>>)>)>,
    own_group: Seq<char>,
    previous: Seq<Window>,
) -> Result<WindowView, CaptureErrorView> {
    match split_once_seq(line, '\t') {
        None => Err(CaptureErrorView::BadWindowLine),
        Some((_id, name)) => match ans {
            None => Err(CaptureErrorView::AnswerCount),
            Some((pane_list, pane_answers)) => match panes_result(
                lines_seq(pane_list),
                pane_answers,
                own_group,
                0,
            ) {
                Err(e) => Err(e),
                Ok(ps) => Ok(captured_window_spec(name, ps, previous)),
            },
        },
    }
}

/// The windows saved for the lines `lines` of `list-windows` from index `k`
/// on: each line's window in order, or the first line's error; an error too
/// where there are answers for more windows than listed.
pub open spec fn windows_result(
    lines: Seq<Seq<char>>,
    answers: Seq<(Seq<char>, Seq<(Seq<char>, Option<Seq<char>>)>)>,
    own_group: Seq<char>,
    previous: Seq<Window>,
    k: nat,
) -> Result<Seq<WindowView>, CaptureErrorView>
    decreases lines.len() - k,
{
    if k >= lines.len() {
        if answers.len() > lines.len() {
            Err(CaptureErrorView::AnswerCount)
        } else {
            Ok(Seq::<WindowView>::empty())
        }
    } else {
        match window_result(lines[k as int], item_at(answers, k as int), own_group, previous) {
            Err(e) => Err(e),
            Ok(w) => prepend(seq![w], windows_result(lines, answers, own_group, previous, k + 1)),
        }
    }
}

/// The windows saved for a running session (see `windows_result`), from
/// what `list-windows` printed (`listed`), what `ps -p <pid> -o pgid=`
/// printed for this program (`own_ps`: its process group, once trimmed),
/// what was learnt of each listed window, and the session's previous config.
pub open spec fn current_windows_spec(
    listed: Seq<char>,
    own_ps: Seq<char>,
    answers: Seq<(Seq<char>, Seq<(Seq<char>, Option<Seq<char>>)>)>,
    previous: Seq<Window>,
) -> Result<Seq<WindowView>, CaptureErrorView> {
    windows_result(lines_seq(listed), answers, trim_seq(own_ps), previous, 0)
}

/// Putting `xs` and then `x` in front is putting `xs` with `x` at its end.
proof fn lemma_prepend_push<T, E>(xs: Seq<T>, x: T, r: Result<Seq<T>, E>)
    ensures
        prepend(xs, prepend(seq![x], r)) == prepend(xs.push(x), r),
{
    if let Ok(rest) = r {
        assert(xs + (seq![x] + rest) =~= xs.push(x) + rest);
    }
}

/// The pane saved for one line of `list-panes` (see `pane_result`).
fn capture_one(line: &str, ans: Option<&PaneAnswers>, own_group: &str) -> (r: Result<Pane, CaptureError>)
    ensures
        match r {
            Ok(p) => pane_result(
                line@,
                match ans {
                    Some(a) => Some(pane_answers_view(*a)),
                    None => None,
                },
                own_group@,
            ) == Ok::<PaneView, CaptureErrorView>(p@),
            Err(e) => pane_result(
                line@,
                match ans {
                    Some(a) => Some(pane_answers_view(*a)),
                    None => None,
                },
                own_group@,
            ) == Err::<PaneView, CaptureErrorView>(e@),
        },
{
    let pl = match pane_line(line) {
        Some(pl) => pl,
        None => {
            return Err(CaptureError::BadPaneLine);
        },
    };
    let a = match ans {
        Some(a) => a,
        None => {
            return Err(CaptureError::AnswerCount);
        },
    };
    match has_foreground_process(a.ps.as_str(), pl.pane_pid.as_str(), own_group) {
        None => Err(CaptureError::BadProcessLine),
        Some(false) => {
            match capture_pane(pl.title.as_str(), None) {
                Some(p) => Ok(p),
                None => Err(CaptureError::AnswerCount),
            }
        },
        Some(true) => {
            match &a.saved {
                None => Err(CaptureError::AnswerCount),
                Some(out) => match capture_pane(pl.title.as_str(), Some(out.as_str())) {
                    Some(p) => Ok(p),
                    None => Err(CaptureError::NoCommandRecorded(pl.pane_id)),
                },
            }
        },
    }
}

/// The panes saved for what `list-panes` printed (`pane_list`), with what
/// was learnt of each listed pane (`answers`) and this program's process
/// group `own_group` (see `panes_result`).
pub fn capture_panes(pane_list: &str, answers: &Vec<PaneAnswers>, own_group: &str) -> (r: Result<
    Vec<Pane>,
    CaptureError,
>)
    ensures
        match r {
            Ok(ps) => panes_result(
                lines_seq(pane_list@),
                answers@.map_values(|p: PaneAnswers| pane_answers_view(p)),
                own_group@,
                0,
            ) == Ok::<Seq<PaneView>, CaptureErrorView>(ps@.map_values(|p: Pane| p@)),
            Err(e) => panes_result(
                lines_seq(pane_list@),
                answers@.map_values(|p: PaneAnswers| pane_answers_view(p)),
                own_group@,
                0,
            ) == Err::<Seq<PaneView>, CaptureErrorView>(e@),
        },
{
    let lines = lines(pane_list);
    let ghost lv = lines_seq(pane_list@);
    let ghost av = answers@.map_values(|p: PaneAnswers| pane_answers_view(p));
    let ghost own = own_group@;
    let n = lines.len();
    let mut out: Vec<Pane> = Vec::new();
    proof {
        assert(prepend(Seq::<PaneView>::empty(), panes_result(lv, av, own, 0)) == panes_result(
            lv,
            av,
            own,
            0,
        )) by {
            if let Ok(rest) = panes_result(lv, av, own, 0) {
                assert(Seq::<PaneView>::empty() + rest =~= rest);
            }
        }
    }
    for k in 0..n
        invariant
            n == lv.len(),
            string_seqs(lines@) == lv,
            lv == lines_seq(pane_list@),
            av == answers@.map_values(|p: PaneAnswers| pane_answers_view(p)),
            own == own_group@,
            out@.len() == k,
            panes_result(lv, av, own, 0) == prepend(
                out@.map_values(|p: Pane| p@),
                panes_result(lv, av, own, k as nat),
            ),
    {
        assert(lines@[k as int]@ == lv[k as int]);
        let ans: Option<&PaneAnswers> = if k < answers.len() {
            Some(&answers[k])
        } else {
            None
        };
        assert(match ans {
            Some(a) => Some(pane_answers_view(*a)),
            None => None,
        } == item_at(av, k as int));
        match capture_one(lines[k].as_str(), ans, own_group) {
            Ok(p) => {
                let ghost pv = p@;
                let ghost old_out = out@;
                out.push(p);
                proof {
                    lemma_prepend_push(
                        old_out.map_values(|p: Pane| p@),
                        pv,
                        panes_result(lv, av, own, (k + 1) as nat),
                    );
                    assert(old_out.map_values(|p: Pane| p@).push(pv) =~= out@.map_values(|p: Pane| p@));
                }
            },
            Err(e) => {
                return Err(e);
            },
        }
    }
    if answers.len() > n {
        return Err(CaptureError::AnswerCount);
    }
    proof {
        assert(out@.map_values(|p: Pane| p@) + Seq::<PaneView>::empty() =~= out@.map_values(
            |p: Pane| p@,
        ));
    }
    Ok(out)
}

impl Tmux {
    /// The windows saved for a running session (see `current_windows_spec`):
    /// from what `list-windows` printed (`listed`), what `ps -p <pid> -o
    /// pgid=` printed for this program (`own_ps`), what was learnt of each
    /// listed window in order (its `list-panes` output, and for each of its
    /// panes the `ps` output of its terminal and the recorded command where
    /// `saved_command_query` asks for it), and the session's previous config
    /// `previous`.
    pub fn current_windows(
        listed: &str,
        own_ps: &str,
        answers: &Vec<WindowAnswers>,
        previous: &Vec<Window>,
    ) -> (r: Result<Vec<Window>, CaptureError>)
        ensures
            match r {
                Ok(ws) => current_windows_spec(
                    listed@,
                    own_ps@,
                    answers@.map_values(|a: WindowAnswers| window_answers_view(a)),
                    previous@,
                ) == Ok::<Seq<WindowView>, CaptureErrorView>(ws@.map_values(|w: Window| w@)),
                Err(e) => current_windows_spec(
                    listed@,
                    own_ps@,
                    answers@.map_values(|a: WindowAnswers| window_answers_view(a)),
                    previous@,
                ) == Err::<Seq<WindowView>, CaptureErrorView>(e@),
            },
    {
        let own_group = trim(own_ps);
        let lines = lines(listed);
        let ghost lv = lines_seq(listed@);
        let ghost av = answers@.map_values(|a: WindowAnswers| window_answers_view(a));
        let ghost own = own_group@;
        let n = lines.len();
        let mut out: Vec<Window> = Vec::new();
        proof {
            if let Ok(rest) = windows_result(lv, av, own, previous@, 0) {
                assert(Seq::<WindowView>::empty() + rest =~= rest);
            }
        }
        for k in 0..n
            invariant
                n == lv.len(),
                string_seqs(lines@) == lv,
                lv == lines_seq(listed@),
                av == answers@.map_values(|a: WindowAnswers| window_answers_view(a)),
                own == own_group@,
                own == trim_seq(own_ps@),
                out@.len() == k,
                windows_result(lv, av, own, previous@, 0) == prepend(
                    out@.map_values(|w: Window| w@),
                    windows_result(lv, av, own, previous@, k as nat),
                ),
        {
            assert(lines@[k as int]@ == lv[k as int]);
            let name = match split_once(lines[k].as_str(), '\t') {
                Some((_id, name)) => name,
                None => {
                    return Err(CaptureError::BadWindowLine);
                },
            };
            if k >= answers.len() {
                return Err(CaptureError::AnswerCount);
            }
            let a = &answers[k];
            assert(av[k as int] == window_answers_view(*a));
            let panes = match capture_panes(a.pane_list.as_str(), &a.panes, own_group.as_str()) {
                Ok(ps) => ps,
                Err(e) => {
                    return Err(e);
                },
            };
            let w = capture_window(name.as_str(), panes, previous);
            let ghost wv = w@;
            let ghost old_out = out@;
            out.push(w);
            proof {
                lemma_prepend_push(
                    old_out.map_values(|w: Window| w@),
                    wv,
                    windows_result(lv, av, own, previous@, (k + 1) as nat),
                );
                assert(old_out.map_values(|w: Window| w@).push(wv) =~= out@.map_values(|w: Window| w@));
            }
        }
        if answers.len() > n {
            return Err(CaptureError::AnswerCount);
        }
        proof {
            assert(out@.map_values(|w: Window| w@) + Seq::<WindowView>::empty() =~= out@.map_values(
                |w: Window| w@,
            ));
        }
        Ok(out)
    }
}

/// The process group that saving leaves out is this program's own group as
/// `ps -p <pid> -o pgid=` prints it, once trimmed: saving with that output
/// and saving with the trimmed output give the same windows.
pub proof fn lemma_own_group_is_trimmed(
    listed: Seq<char>,
    own_ps: Seq<char>,
    answers: Seq<(Seq<char>, Seq<(Seq<char>, Option<Seq<char>>)>)>,
    previous: Seq<Window>,
)
    ensures
        current_windows_spec(listed, own_ps, answers, previous) == current_windows_spec(
            listed,
            trim_seq(own_ps),
            answers,
            previous,
        ),
{
    lemma_trim_idempotent(own_ps);
}

/// A pane whose terminal's foreground group is this program's own group
/// (the third field of the first process `ps` prints for it is the trimmed
/// group) runs no program of its own in the foreground: it is saved with its
/// title and no commands, whatever was asked for it.
pub proof fn lemma_own_foreground_saves_no_command(
    line: Seq<char>,
    ps: Seq<char>,
    saved: Option<Seq<char>>,
    own_ps: Seq<char>,
)
    requires
        pane_line_spec(line) is Some,
        lines_seq(ps).len() > 0,
        words_seq(lines_seq(ps)[0]).len() >= 3,
        words_seq(lines_seq(ps)[0])[2] == trim_seq(own_ps),
    ensures
        match pane_line_spec(line) {
            Some((_id, _pid, _tty, title)) => pane_result(line, Some((ps, saved)), trim_seq(own_ps))
                == Ok::<PaneView, CaptureErrorView>(
                PaneView::PaneWithCommands(seq![(title, Seq::<Seq<char>>::empty())]),
            ),
            None => false,
        },
{
    assert(processes_spec(ps)[0] == words_seq(lines_seq(ps)[0]));
}

/// Whether some process of `procs` is in the group `fg` by its process group
/// (second field) and is not the process `pane_pid`.
proof fn lemma_any_in_group(procs: Seq<Seq<Seq<char>>>, fg: Seq<char>, pane_pid: Seq<char>)
    ensures
        any_in_group(procs, fg, pane_pid) matches Some(b) ==> b == exists|i: int|
            0 <= i < procs.len() && (#[trigger] procs[i])[1] == fg && procs[i][0] != pane_pid,
    decreases procs.len(),
{
    if procs.len() > 0 && procs[0].len() >= 2 {
        lemma_any_in_group(procs.drop_first(), fg, pane_pid);
        if !(procs[0][1] == fg && procs[0][0] != pane_pid) {
            if let Some(b) = any_in_group(procs, fg, pane_pid) {
                if b {
                    let i = choose|i: int|
                        0 <= i < procs.drop_first().len() && (#[trigger] procs.drop_first()[i])[1]
                            == fg && procs.drop_first()[i][0] != pane_pid;
                    assert(procs[i + 1] == procs.drop_first()[i]);
                } else {
                    assert forall|i: int|
                        0 <= i < procs.len() && (#[trigger] procs[i])[1] == fg implies procs[i][0]
                        == pane_pid by {
                        if i > 0 {
                            assert(procs.drop_first()[i - 1] == procs[i]);
                        }
                    }
                }
            }
        }
    }
}

/// Whether a program other than the pane's shell runs in the foreground of a
/// terminal, where the answer can be given: there are processes, the
/// foreground group (third field of the first) is not this program's
/// group, and some process other than the shell has that group as its own
/// process group (its second field). A process of another group, such as a
/// job in the background, never counts.
pub proof fn lemma_foreground_by_process_group(out: Seq<char>, pane_pid: Seq<char>, own_group: Seq<char>)
    ensures
        foreground_spec(out, pane_pid, own_group) matches Some(b) ==> b == ({
            let procs = lines_seq(out).map_values(|l: Seq<char>| words_seq(l));
            &&& procs.len() > 0
            &&& procs[0][2] != own_group
            &&& exists|i: int|
                0 <= i < procs.len() && (#[trigger] procs[i])[1] == procs[0][2] && procs[i][0]
                    != pane_pid
        }),
{
    let procs = processes_spec(out);
    assert(procs == lines_seq(out).map_values(|l: Seq<char>| words_seq(l)));
    if procs.len() > 0 && procs[0].len() >= 3 && procs[0][2] != own_group {
        lemma_any_in_group(procs, procs[0][2], pane_pid);
    }
}

/// The layout and root that a saved window keeps are those of the first
/// window of the previous config that records panes for its name: windows
/// put after it never change them.
pub proof fn lemma_first_record_wins(
    name: Seq<char>,
    panes: Seq<PaneView>,
    previous: Seq<Window>,
    extra: Seq<Window>,
)
    requires
        exists|i: int| 0 <= i < previous.len() && (#[trigger] recorded_in(previous[i], name)) is Some,
    ensures
        captured_window_spec(name, panes, previous + extra) == captured_window_spec(name, panes, previous),
{
    lemma_previous_append(previous, extra, name);
}

/// Windows put after one that records panes for `name` do not change what
/// is kept for it.
proof fn lemma_previous_append(previous: Seq<Window>, extra: Seq<Window>, name: Seq<char>)
    requires
        exists|i: int| 0 <= i < previous.len() && (#[trigger] recorded_in(previous[i], name)) is Some,
    ensures
        previous_layout_root(previous + extra, name) == previous_layout_root(previous, name),
    decreases previous.len(),
{
    let all = previous + extra;
    assert(all[0] == previous[0]);
    if recorded_in(previous[0], name) is None {
        let i = choose|i: int| 0 <= i < previous.len() && (#[trigger] recorded_in(previous[i], name)) is Some;
        assert(i > 0);
        assert(previous.drop_first()[i - 1] == previous[i]);
        lemma_previous_append(previous.drop_first(), extra, name);
        assert(all.drop_first() == previous.drop_first() + extra);
    }
}

/// Where the window at `i` of the previous config is the first that records
/// panes for `name`, the saved window keeps that window's layout and root.
pub proof fn lemma_first_record_kept(previous: Seq<Window>, i: int, name: Seq<char>)
    requires
        0 <= i < previous.len(),
        recorded_in(previous[i], name) is Some,
        forall|j: int| 0 <= j < i ==> (#[trigger] recorded_in(previous[j], name)) is None,
    ensures
        previous_layout_root(previous, name) == recorded_in(previous[i], name)->0,
    decreases i,
{
    if i > 0 {
        assert forall|j: int| 0 <= j < i - 1 implies (#[trigger] recorded_in(previous.drop_first()[j], name)) is None by {
            assert(previous.drop_first()[j] == previous[j + 1]);
        }
        assert(recorded_in(previous[0], name) is None);
        assert(previous.drop_first()[i - 1] == previous[i]);
        lemma_first_record_kept(previous.drop_first(), i - 1, name);
    }
}

/// Whether the saved pane `p` is the one pane titled as the line `line` of
/// `list-panes` says.
pub open spec fn pane_titled(p: PaneView, line: Seq<char>) -> bool {
    match (p, pane_line_spec(line)) {
        (PaneView::PaneWithCommands(m), Some((_id, _pid, _tty, title))) => m.len() == 1 && m[0].0 == title,
        _ => false,
    }
}

/// Whether the saved window `w` is the one window named as the line `line`
/// of `list-windows` says.
pub open spec fn window_named(w: WindowView, line: Seq<char>) -> bool {
    match (w, split_once_seq(line, '\t')) {
        (WindowView::WindowWithPanes(es), Some((_id, name))) => es.len() == 1 && es[0].0 == name,
        _ => false,
    }
}

/// The panes saved from index `k` on follow the listing from `k` on.
proof fn lemma_panes_from(
    lines: Seq<Seq<char>>,
    answers: Seq<(Seq<char>, Option<Seq<char>>)>,
    own_group: Seq<char>,
    k: nat,
)
    requires
        k <= lines.len(),
    ensures
        panes_result(lines, answers, own_group, k) matches Ok(ps) ==> ps.len() == lines.len() - k
            && forall|i: int| 0 <= i < ps.len() ==> pane_titled(#[trigger] ps[i], lines[k + i]),
    decreases lines.len() - k,
{
    if k < lines.len() {
        lemma_panes_from(lines, answers, own_group, k + 1);
        if let Ok(p) = pane_result(lines[k as int], item_at(answers, k as int), own_group) {
            assert(pane_titled(p, lines[k as int]));
            if let Ok(rest) = panes_result(lines, answers, own_group, k + 1) {
                let ps = seq![p] + rest;
                assert forall|i: int| 0 <= i < ps.len() implies pane_titled(#[trigger] ps[i], lines[k + i]) by {
                    if i > 0 {
                        assert(ps[i] == rest[i - 1]);
                        assert(k + i == (k + 1) + (i - 1));
                    }
                }
            }
        }
    }
}

/// Saving the panes of a window follows its pane listing: one pane for
/// each listed line, in the listing's order, each titled as its line says.
pub proof fn lemma_saved_panes_follow_listing(
    pane_list: Seq<char>,
    answers: Seq<(Seq<char>, Option<Seq<char>>)>,
    own_group: Seq<char>,
)
    ensures
        panes_result(lines_seq(pane_list), answers, own_group, 0) matches Ok(ps) ==> ps.len()
            == lines_seq(pane_list).len() && forall|i: int|
            0 <= i < ps.len() ==> pane_titled(#[trigger] ps[i], lines_seq(pane_list)[i]),
{
    lemma_panes_from(lines_seq(pane_list), answers, own_group, 0);
}

/// The windows saved from index `k` on follow the listing from `k` on.
proof fn lemma_windows_from(
    lines: Seq<Seq<char>>,
    answers: Seq<(Seq<char>, Seq<(Seq<char>, Option<Seq<char>>)>)>,
    own_group: Seq<char>,
    previous: Seq<Window>,
    k: nat,
)
    requires
        k <= lines.len(),
    ensures
        windows_result(lines, answers, own_group, previous, k) matches Ok(ws) ==> ws.len()
            == lines.len() - k && forall|i: int|
            0 <= i < ws.len() ==> window_named(#[trigger] ws[i], lines[k + i]),
    decreases lines.len() - k,
{
    if k < lines.len() {
        lemma_windows_from(lines, answers, own_group, previous, k + 1);
        if let Ok(w) = window_result(lines[k as int], item_at(answers, k as int), own_group, previous) {
            assert(window_named(w, lines[k as int]));
            if let Ok(rest) = windows_result(lines, answers, own_group, previous, k + 1) {
                let ws = seq![w] + rest;
                assert forall|i: int| 0 <= i < ws.len() implies window_named(#[trigger] ws[i], lines[k + i]) by {
                    if i > 0 {
                        assert(ws[i] == rest[i - 1]);
                        assert(k + i == (k + 1) + (i - 1));
                    }
                }
            }
        }
    }
}

/// Saving a session follows its window listing: one window for each line
/// of `list-windows`, in the listing's order, each named as its line says.
pub proof fn lemma_saved_windows_follow_listing(
    listed: Seq<char>,
    own_ps: Seq<char>,
    answers: Seq<(Seq<char>, Seq<(Seq<char>, Option<Seq<char>>)>)>,
    previous: Seq<Window>,
)
    ensures
        current_windows_spec(listed, own_ps, answers, previous) matches Ok(ws) ==> ws.len()
            == lines_seq(listed).len() && forall|i: int|
            0 <= i < ws.len() ==> window_named(#[trigger] ws[i], lines_seq(listed)[i]),
{
    lemma_windows_from(lines_seq(listed), answers, trim_seq(own_ps), previous, 0);
}

} // verus!
