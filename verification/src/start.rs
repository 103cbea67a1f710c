//! Starting a session from its config: the tmux commands that build it,
//! window by window and pane by pane, in order.
use vstd::prelude::*;
use crate::config::{
    CmdPanes, CmdPanesView, Config, ConfigView, Layout, Pane, PaneView, Panes, PanesView, Window, WindowView,
    commands_view, opt_view, windows_view,
};
use crate::capture::captured_pane_spec;
use crate::text::{owned, string_seqs, strip_newline};
use crate::tmux::{
    Tmux, add_window_spec, attach_spec, new_session_spec, send_enter_spec, send_text_spec,
    split_window_spec, window_target, window_target_spec,
};

verus! {

/// One step of starting a session. The steps are carried out in order; a
/// plan ends in `Abort` where the start stops without attaching.
pub enum StartStep {
    /// Run tmux with these arguments and wait for it.
    Tmux(Vec<String>),
    /// Run tmux with these arguments and print what it writes.
    TmuxPrint(Vec<String>),
    /// Split a window: run tmux with `args`, which prints the index of the new
    /// pane; where `title` is given, give the new pane that title.
    SplitWindow { args: Vec<String>, title: Option<String> },
    /// Type `cmd` into the pane that the last split made in `window`, and
    /// press Enter.
    SendKeys { window: String, cmd: String },
    /// Replace this program by tmux with these arguments.
    Exec(Vec<String>),
    /// Stop: a pane with commands does not name exactly one pane.
    Abort,
}

/// A step of starting a session, as plain values.
pub enum StepView {
    Tmux(Seq<Seq<char>>),
    TmuxPrint(Seq<Seq<char>>),
    SplitWindow { args: Seq<Seq<char>>, title: Option<Seq<char>> },
    SendKeys { window: Seq<char>, cmd: Seq<char> },
    Exec(Seq<Seq<char>>),
    Abort,
}

impl View for StartStep {
    type V = StepView;

    open spec fn view(&self) -> StepView {
        match self {
            StartStep::Tmux(a) => StepView::Tmux(string_seqs(a@)),
            StartStep::TmuxPrint(a) => StepView::TmuxPrint(string_seqs(a@)),
            StartStep::SplitWindow { args, title } => StepView::SplitWindow {
                args: string_seqs(args@),
                title: opt_view(*title),
            },
            StartStep::SendKeys { window, cmd } => StepView::SendKeys { window: window@, cmd: cmd@ },
            StartStep::Exec(a) => StepView::Exec(string_seqs(a@)),
            StartStep::Abort => StepView::Abort,
        }
    }
}

/// Steps as plain values.
pub open spec fn steps_view(s: Seq<StartStep>) -> Seq<StepView> {
    s.map_values(|x: StartStep| x@)
}

/// The steps that make the pane `p` in the window `window`: split the
/// window, then type the pane's commands into the new pane. A pane with
/// commands must name exactly one pane; else the start stops there.
pub open spec fn pane_steps(window: Seq<char>, layout: Option<Layout>, p: PaneView) -> Seq<StepView> {
    match p {
        PaneView::PaneWithCommands(m) => if m.len() == 1 {
            seq![StepView::SplitWindow { args: split_window_spec(window, layout), title: Some(m[0].0) }]
                + m[0].1.map_values(|c: Seq<char>| StepView::SendKeys { window, cmd: c })
        } else {
            seq![StepView::Abort]
        },
        PaneView::Command(c) => seq![
            StepView::SplitWindow { args: split_window_spec(window, layout), title: None },
            StepView::SendKeys { window, cmd: c },
        ],
    }
}

/// The steps that make the panes `ps`, one after the other.
pub open spec fn panes_steps(window: Seq<char>, layout: Option<Layout>, ps: Seq<PaneView>) -> Seq<
    StepView,
>
    decreases ps.len(),
{
    if ps.len() == 0 {
        seq![]
    } else {
        panes_steps(window, layout, ps.drop_last()) + pane_steps(window, layout, ps.last())
    }
}

/// The steps that make the window named `name` with the contents `cp` in the
/// session `session` whose root is `root`: open the window (in the panes'
/// root where they give one), then make its panes; or open it and type its
/// one command into it.
pub open spec fn entry_steps(
    session: Seq<char>,
    root: Seq<char>,
    home: Seq<char>,
    name: Seq<char>,
    cp: CmdPanesView,
) -> Seq<StepView> {
    let target = window_target_spec(session, name);
    match cp {
        CmdPanesView::Panes(p) => seq![
            StepView::Tmux(add_window_spec(session, name, p.root, Some(root), home)),
        ] + panes_steps(target, p.layout, p.panes),
        CmdPanesView::Command(c) => seq![
            StepView::Tmux(add_window_spec(session, name, None, Some(root), home)),
            StepView::Tmux(send_text_spec(target, c)),
            StepView::Tmux(send_enter_spec(target)),
        ],
    }
}

/// The steps that make the named windows `es`, in the order of their names.
pub open spec fn entries_steps(
    session: Seq<char>,
    root: Seq<char>,
    home: Seq<char>,
    es: Seq<(Seq<char>, CmdPanesView)>,
) -> Seq<StepView>
    decreases es.len(),
{
    if es.len() == 0 {
        seq![]
    } else {
        entries_steps(session, root, home, es.drop_last()) + entry_steps(
            session,
            root,
            home,
            es.last().0,
            es.last().1,
        )
    }
}

/// The steps that make the window `w`.
pub open spec fn window_steps(session: Seq<char>, root: Seq<char>, home: Seq<char>, w: WindowView) -> Seq<
    StepView,
> {
    match w {
        WindowView::WindowWithPanes(es) => entries_steps(session, root, home, es),
        WindowView::WindowName(n) => seq![
            StepView::Tmux(add_window_spec(session, n, None, Some(root), home)),
        ],
    }
}

/// The steps that make the windows `ws`, in order.
pub open spec fn windows_steps(session: Seq<char>, root: Seq<char>, home: Seq<char>, ws: Seq<WindowView>) -> Seq<
    StepView,
>
    decreases ws.len(),
{
    if ws.len() == 0 {
        seq![]
    } else {
        windows_steps(session, root, home, ws.drop_last()) + window_steps(session, root, home, ws.last())
    }
}

/// The index of the first `Abort` of `s`.
pub open spec fn first_abort(s: Seq<StepView>) -> Option<int>
    decreases s.len(),
{
    if s.len() == 0 {
        None
    } else {
        let r = first_abort(s.drop_last());
        if r is Some {
            r
        } else if s.last() is Abort {
            Some(s.len() - 1)
        } else {
            None
        }
    }
}

/// `first_abort` finds the first `Abort`, and nothing where there is none.
proof fn lemma_first_abort(s: Seq<StepView>)
    ensures
        first_abort(s) matches Some(k) ==> 0 <= k < s.len() && s[k] is Abort && forall|j: int|
            0 <= j < k ==> !(#[trigger] s[j] is Abort),
        first_abort(s) is None ==> forall|j: int| 0 <= j < s.len() ==> !(#[trigger] s[j] is Abort),
    decreases s.len(),
{
    if s.len() > 0 {
        lemma_first_abort(s.drop_last());
        assert forall|j: int| 0 <= j < s.len() - 1 implies s.drop_last()[j] == s[j] by {}
    }
}

/// A start stops at its first stop: every step of the plan but the last is
/// no `Abort`, so nothing is made and no client attaches after a pane that
/// does not name exactly one pane.
pub proof fn lemma_plan_stops_at_abort(s: Seq<StepView>)
    ensures
        forall|i: int| 0 <= i < until_abort(s).len() - 1 ==> !(#[trigger] until_abort(s)[i] is Abort),
        until_abort(s).len() <= s.len(),
        forall|i: int| 0 <= i < until_abort(s).len() ==> #[trigger] until_abort(s)[i] == s[i],
{
    lemma_first_abort(s);
}

/// `s` up to and including its first `Abort`: the start stops there.
pub open spec fn until_abort(s: Seq<StepView>) -> Seq<StepView> {
    match first_abort(s) {
        Some(k) => s.take(k + 1),
        None => s,
    }
}

/// The steps that start the session of `cfg`, up to and including the first
/// `Abort` where a pane with commands does not name exactly one pane (see
/// `all_steps_spec`).
pub open spec fn start_spec(cfg: ConfigView, session_exists: bool, in_tmux: bool, home: Seq<char>) -> Seq<
    StepView,
> {
    until_abort(all_steps_spec(cfg, session_exists, in_tmux, home))
}

/// The steps of starting the session of `cfg`, had no pane to stop it: where
/// the session exists already, attach to it; else start it in the
/// background in its root, make its windows, and attach to it.
pub open spec fn all_steps_spec(cfg: ConfigView, session_exists: bool, in_tmux: bool, home: Seq<char>) -> Seq<
    StepView,
> {
    if session_exists {
        seq![StepView::Exec(attach_spec(cfg.name, in_tmux))]
    } else {
        seq![StepView::TmuxPrint(new_session_spec(cfg.name, Some(cfg.root), home))] + windows_steps(
            cfg.name,
            cfg.root,
            home,
            cfg.windows,
        ) + seq![StepView::Exec(attach_spec(cfg.name, in_tmux))]
    }
}

/// Appends `step` to `out`.
fn push_step(out: &mut Vec<StartStep>, step: StartStep)
    ensures
        steps_view(final(out)@) == steps_view(old(out)@).push(step@),
{
    let ghost sv = step@;
    out.push(step);
    assert(steps_view(final(out)@) =~= steps_view(old(out)@).push(sv));
}

/// Appends the steps that make the pane `pane` in the window `window`.
fn push_pane_steps(
    t: &Tmux,
    window: &String,
    layout: Option<Layout>,
    pane: &Pane,
    out: &mut Vec<StartStep>,
)
    ensures
        steps_view(final(out)@) == steps_view(old(out)@) + pane_steps(window@, layout, pane@),
{
    match pane {
        Pane::PaneWithCommands(m) => {
            if m.len() != 1 {
                push_step(out, StartStep::Abort);
                assert(steps_view(old(out)@).push(StepView::Abort) =~= steps_view(old(out)@)
                    + seq![StepView::Abort]);
                return ;
            }
            let entries = m.entries();
            let title = entries[0].0.clone();
            let cmds = &entries[0].1;
            let ghost cv = commands_view(m.entries_view());
            assert(cv[0] == (title@, string_seqs(cmds@)));
            let ghost start = steps_view(out@);
            push_step(
                out,
                StartStep::SplitWindow { args: t.split_window(window.as_str(), layout), title: Some(title) },
            );
            let ghost sends = string_seqs(cmds@).map_values(
                |c: Seq<char>| StepView::SendKeys { window: window@, cmd: c },
            );
            for j in 0..cmds.len()
                invariant
                    steps_view(out@) == start.push(
                        StepView::SplitWindow {
                            args: split_window_spec(window@, layout),
                            title: Some(title@),
                        },
                    ) + sends.take(j as int),
                    sends == string_seqs(cmds@).map_values(
                        |c: Seq<char>| StepView::SendKeys { window: window@, cmd: c },
                    ),
                    sends.len() == cmds@.len(),
            {
                let ghost before = steps_view(out@);
                let step = StartStep::SendKeys { window: window.clone(), cmd: cmds[j].clone() };
                assert(step@ == sends[j as int]);
                push_step(out, step);
                assert(sends.take(j + 1) =~= sends.take(j as int).push(sends[j as int]));
                assert(steps_view(out@) =~= start.push(
                    StepView::SplitWindow { args: split_window_spec(window@, layout), title: Some(title@) },
                ) + sends.take(j + 1));
            }
            assert(sends.take(cmds.len() as int) == sends);
            assert(steps_view(out@) =~= start + pane_steps(window@, layout, pane@));
        },
        Pane::Command(c) => {
            let ghost start = steps_view(out@);
            push_step(out, StartStep::SplitWindow { args: t.split_window(window.as_str(), layout), title: None });
            push_step(out, StartStep::SendKeys { window: window.clone(), cmd: c.clone() });
            assert(steps_view(out@) =~= start + pane_steps(window@, layout, pane@));
        },
    }
}

/// Appends the steps that make the window named `name` with contents `cp`.
fn push_entry_steps(
    t: &Tmux,
    root: &String,
    home: &str,
    name: &String,
    cp: &CmdPanes,
    out: &mut Vec<StartStep>,
)
    requires
        opt_view(t.root_dir) == Some(root@),
    ensures
        steps_view(final(out)@) == steps_view(old(out)@) + entry_steps(t.session@, root@, home@, name@, cp@),
{
    let target = window_target(t.session.as_str(), name.as_str());
    match cp {
        CmdPanes::Panes(p) => {
            let dir = match &p.root {
                Some(d) => Some(d.as_str()),
                None => None,
            };
            let ghost start = steps_view(out@);
            push_step(out, StartStep::Tmux(t.add_window(name.as_str(), dir, home)));
            let ghost after_open = steps_view(out@);
            let ghost pv = p.panes@.map_values(|x: Pane| x@);
            for i in 0..p.panes.len()
                invariant
                    steps_view(out@) == after_open + panes_steps(target@, p.layout, pv.take(i as int)),
                    pv == p.panes@.map_values(|x: Pane| x@),
            {
                push_pane_steps(t, &target, p.layout, &p.panes[i], out);
                assert(pv.take(i + 1).drop_last() == pv.take(i as int));
            }
            assert(pv.take(p.panes.len() as int) == pv);
            assert(steps_view(out@) =~= start + entry_steps(t.session@, root@, home@, name@, cp@));
        },
        CmdPanes::Command(c) => {
            let ghost start = steps_view(out@);
            push_step(out, StartStep::Tmux(t.add_window(name.as_str(), None, home)));
            let (text, enter) = t.send_cmd(target.as_str(), c.as_str());
            push_step(out, StartStep::Tmux(text));
            push_step(out, StartStep::Tmux(enter));
            assert(steps_view(out@) =~= start + entry_steps(t.session@, root@, home@, name@, cp@));
        },
    }
}

/// Appends the steps that make the window `w`.
fn push_window_steps(t: &Tmux, root: &String, home: &str, w: &Window, out: &mut Vec<StartStep>)
    requires
        opt_view(t.root_dir) == Some(root@),
    ensures
        steps_view(final(out)@) == steps_view(old(out)@) + window_steps(t.session@, root@, home@, w@),
{
    match w {
        Window::WindowWithPanes(m) => {
            let entries = m.entries();
            let ghost start = steps_view(out@);
            let ghost ev = windows_view(m.entries_view());
            for i in 0..entries.len()
                invariant
                    opt_view(t.root_dir) == Some(root@),
                    entries@ == m.entries_view(),
                    ev == windows_view(entries@),
                    steps_view(out@) == start + entries_steps(t.session@, root@, home@, ev.take(i as int)),
            {
                push_entry_steps(t, root, home, &entries[i].0, &entries[i].1, out);
                assert(ev.take(i + 1).drop_last() == ev.take(i as int));
            }
            assert(ev.take(entries.len() as int) == ev);
        },
        Window::WindowName(n) => {
            let ghost start = steps_view(out@);
            push_step(out, StartStep::Tmux(t.add_window(n.as_str(), None, home)));
            assert(steps_view(out@) =~= start + window_steps(t.session@, root@, home@, w@));
        },
    }
}

/// The steps that start the session of `cfg` (see `start_spec`): where
/// `session_exists`, attach to it; else start it, make its windows and
/// attach. `in_tmux` tells whether this program runs inside tmux, and `home`
/// is the home directory.
pub fn start(cfg: &Config, session_exists: bool, in_tmux: bool, home: &str) -> (plan: Vec<StartStep>)
    ensures
        steps_view(plan@) == start_spec(cfg@, session_exists, in_tmux, home@),
{
    let mut all = all_steps(cfg, session_exists, in_tmux, home);
    let ghost sv = steps_view(all@);
    let n = all.len();
    let mut found: Option<usize> = None;
    for i in 0..n
        invariant
            n == all@.len(),
            sv == steps_view(all@),
            found matches Some(k) ==> first_abort(sv.take(i as int)) == Some(k as int) && k < i,
            found is None ==> first_abort(sv.take(i as int)) is None,
    {
        assert(sv.take(i + 1).drop_last() == sv.take(i as int));
        assert(sv.take(i + 1).last() == all@[i as int]@);
        if found.is_none() {
            if let StartStep::Abort = all[i] {
                found = Some(i);
            }
        }
    }
    assert(sv.take(n as int) == sv);
    if let Some(k) = found {
        all.truncate(k + 1);
        assert(steps_view(all@) =~= sv.take(k + 1));
    }
    all
}

/// The steps of starting the session of `cfg` (see `all_steps_spec`).
fn all_steps(cfg: &Config, session_exists: bool, in_tmux: bool, home: &str) -> (plan: Vec<StartStep>)
    ensures
        steps_view(plan@) == all_steps_spec(cfg@, session_exists, in_tmux, home@),
{
    let t = Tmux::new(cfg.name.as_str(), cfg.root.as_str());
    let mut out: Vec<StartStep> = Vec::new();
    if session_exists {
        push_step(&mut out, StartStep::Exec(t.attach_or_switch(in_tmux)));
        assert(steps_view(out@) =~= all_steps_spec(cfg@, session_exists, in_tmux, home@));
        return out;
    }
    let new_session = match t.start_in_background(false, home) {
        Some(a) => a,
        None => Vec::new(),
    };
    push_step(&mut out, StartStep::TmuxPrint(new_session));
    let ghost first = steps_view(out@);
    let ghost wv = cfg.windows@.map_values(|w: Window| w@);
    for i in 0..cfg.windows.len()
        invariant
            opt_view(t.root_dir) == Some(cfg.root@),
            t.session@ == cfg.name@,
            wv == cfg.windows@.map_values(|w: Window| w@),
            steps_view(out@) == first + windows_steps(cfg.name@, cfg.root@, home@, wv.take(i as int)),
    {
        push_window_steps(&t, &cfg.root, home, &cfg.windows[i], &mut out);
        assert(wv.take(i + 1).drop_last() == wv.take(i as int));
    }
    assert(wv.take(cfg.windows.len() as int) == wv);
    push_step(&mut out, StartStep::Exec(t.attach_or_switch(in_tmux)));
    assert(steps_view(out@) =~= all_steps_spec(cfg@, session_exists, in_tmux, home@));
    out
}

/// What saving records for a pane, starting replays: the saved pane is
/// made by splitting the window, titling the new pane as it was titled, and
/// typing the command that ran in its foreground (none where none ran).
pub proof fn lemma_saved_pane_replays(
    window: Seq<char>,
    layout: Option<Layout>,
    title: Seq<char>,
    saved: Option<Seq<char>>,
)
    requires
        captured_pane_spec(title, saved) is Some,
    ensures
        pane_steps(window, layout, captured_pane_spec(title, saved)->0) == seq![
            StepView::SplitWindow { args: split_window_spec(window, layout), title: Some(title) },
        ] + match saved {
            None => Seq::<StepView>::empty(),
            Some(out) => seq![StepView::SendKeys { window, cmd: strip_newline(out) }],
        },
{
    let p = captured_pane_spec(title, saved)->0;
    if let PaneView::PaneWithCommands(m) = p {
        assert(m.len() == 1);
        match saved {
            None => {
                assert(m[0].1.map_values(|c: Seq<char>| StepView::SendKeys { window, cmd: c })
                    =~= Seq::<StepView>::empty());
            },
            Some(out) => {
                assert(m[0].1.map_values(|c: Seq<char>| StepView::SendKeys { window, cmd: c })
                    =~= seq![StepView::SendKeys { window, cmd: strip_newline(out) }]);
            },
        }
    }
}

/// Whether every split of `steps` splits with the arguments `args`.
pub open spec fn splits_with(steps: Seq<StepView>, args: Seq<Seq<char>>) -> bool {
    forall|i: int|
        0 <= i < steps.len() ==> (#[trigger] steps[i] matches StepView::SplitWindow { args: a, .. }
            ==> a == args)
}

/// The steps of one pane split its window in the window's layout.
proof fn lemma_pane_splits_in_layout(window: Seq<char>, layout: Option<Layout>, p: PaneView)
    ensures
        splits_with(pane_steps(window, layout, p), split_window_spec(window, layout)),
{
    let steps = pane_steps(window, layout, p);
    if let PaneView::PaneWithCommands(m) = p {
        if m.len() == 1 {
            let sends = m[0].1.map_values(|c: Seq<char>| StepView::SendKeys { window, cmd: c });
            assert forall|i: int| 0 <= i < steps.len() implies (#[trigger] steps[i] matches StepView::SplitWindow {
                args: a,
                ..
            } ==> a == split_window_spec(window, layout)) by {
                if i > 0 {
                    assert(steps[i] == sends[i - 1]);
                }
            }
        }
    }
}

/// Every pane of a window is split in the window's layout, wherever it
/// stands among the panes: each split of the steps that make the panes `ps`
/// of the window `window` carries the split flag of `layout`.
pub proof fn lemma_every_pane_splits_in_layout(window: Seq<char>, layout: Option<Layout>, ps: Seq<PaneView>)
    ensures
        splits_with(panes_steps(window, layout, ps), split_window_spec(window, layout)),
    decreases ps.len(),
{
    if ps.len() > 0 {
        lemma_every_pane_splits_in_layout(window, layout, ps.drop_last());
        lemma_pane_splits_in_layout(window, layout, ps.last());
        let a = panes_steps(window, layout, ps.drop_last());
        let b = pane_steps(window, layout, ps.last());
        assert forall|i: int| 0 <= i < (a + b).len() implies (#[trigger] (a + b)[i] matches StepView::SplitWindow {
            args: x,
            ..
        } ==> x == split_window_spec(window, layout)) by {
            if i < a.len() {
                assert((a + b)[i] == a[i]);
            } else {
                assert((a + b)[i] == b[i - a.len()]);
            }
        }
    }
}

/// Every split made for a window of panes in a session splits the window
/// `<session>:<name>` with the flag of the window's layout.
pub proof fn lemma_window_splits_in_layout(
    session: Seq<char>,
    root: Seq<char>,
    home: Seq<char>,
    name: Seq<char>,
    p: PanesView,
)
    ensures
        splits_with(
            entry_steps(session, root, home, name, CmdPanesView::Panes(p)),
            split_window_spec(window_target_spec(session, name), p.layout),
        ),
{
    let target = window_target_spec(session, name);
    lemma_every_pane_splits_in_layout(target, p.layout, p.panes);
    let a = seq![StepView::Tmux(add_window_spec(session, name, p.root, Some(root), home))];
    let b = panes_steps(target, p.layout, p.panes);
    let steps = entry_steps(session, root, home, name, CmdPanesView::Panes(p));
    assert(steps == a + b);
    assert forall|i: int| 0 <= i < steps.len() implies (#[trigger] steps[i] matches StepView::SplitWindow {
        args: x,
        ..
    } ==> x == split_window_spec(target, p.layout)) by {
        if i > 0 {
            assert(steps[i] == b[i - 1]);
        }
    }
}

} // verus!
