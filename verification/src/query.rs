//! Asking tmux about the client this program runs in (its session, window
//! and pane), and the commands that end them.
use vstd::prelude::*;
use crate::text::{parse_u32, parse_u32_seq, str_eq, string_seqs, trim, trim_end, trim_end_seq, trim_seq, decimal};
use crate::tmux::Tmux;

verus! {

/// How a tmux query that ran ended: whether it succeeded, and what it wrote.
pub struct QueryReply {
    pub success: bool,
    pub stdout: String,
    pub stderr: String,
}

/// Why a question about the current client has no answer.
#[derive(Debug, PartialEq, Eq)]
pub enum TmuxError {
    /// This program does not run inside tmux; tmux is not asked.
    NotInTmux,
    /// tmux could not be run; the message of that failure.
    Spawn(String),
    /// tmux failed; its error output without surrounding white space.
    Failed(String),
    /// tmux printed an index that is no number.
    NotAnIndex,
    /// The question was not asked.
    NoReply,
}

/// Why a question about the current client has no answer, as plain values.
pub enum TmuxErrorView {
    NotInTmux,
    Spawn(Seq<char>),
    Failed(Seq<char>),
    NotAnIndex,
    NoReply,
}

impl View for TmuxError {
    type V = TmuxErrorView;

    open spec fn view(&self) -> TmuxErrorView {
        match self {
            TmuxError::NotInTmux => TmuxErrorView::NotInTmux,
            TmuxError::Spawn(m) => TmuxErrorView::Spawn(m@),
            TmuxError::Failed(m) => TmuxErrorView::Failed(m@),
            TmuxError::NotAnIndex => TmuxErrorView::NotAnIndex,
            TmuxError::NoReply => TmuxErrorView::NoReply,
        }
    }
}

/// A result whose error is a `TmuxError`, as plain values.
pub open spec fn result_view<T, U>(r: Result<T, TmuxError>, f: spec_fn(T) -> U) -> Result<U, TmuxErrorView> {
    match r {
        Ok(v) => Ok(f(v)),
        Err(e) => Err(e@),
    }
}

/// Whether this program runs inside tmux, from the value of `TMUX`: set and
/// not empty.
pub open spec fn in_tmux_spec(tmux_var: Option<Seq<char>>) -> bool {
    match tmux_var {
        Some(v) => v.len() > 0,
        None => false,
    }
}

/// The value of an optional string.
pub open spec fn opt_str(s: Option<&str>) -> Option<Seq<char>> {
    match s {
        Some(v) => Some(v@),
        None => None,
    }
}

/// What a query printed where it ran and succeeded; else why there is no
/// answer.
pub open spec fn reply_text(reply: Option<Result<QueryReply, String>>) -> Result<Seq<char>, TmuxErrorView> {
    match reply {
        None => Err(TmuxErrorView::NoReply),
        Some(Err(m)) => Err(TmuxErrorView::Spawn(m@)),
        Some(Ok(q)) => if q.success {
            Ok(q.stdout@)
        } else {
            Err(TmuxErrorView::Failed(trim_seq(q.stderr@)))
        },
    }
}

/// The name of the current session: outside tmux none; else what
/// `display-message -p -F '#{session_name}'` printed, without trailing white
/// space.
pub open spec fn session_spec(tmux_var: Option<Seq<char>>, reply: Option<Result<QueryReply, String>>) -> Result<
    Seq<char>,
    TmuxErrorView,
> {
    if !in_tmux_spec(tmux_var) {
        Err(TmuxErrorView::NotInTmux)
    } else {
        match reply_text(reply) {
            Ok(o) => Ok(trim_end_seq(o)),
            Err(e) => Err(e),
        }
    }
}

/// The index of the current window or pane: outside tmux none; else the
/// number that `display-message -p -F '#{window_index}'` (or
/// `'#{pane_index}'`) printed, once its trailing white space is taken off.
pub open spec fn index_spec(tmux_var: Option<Seq<char>>, reply: Option<Result<QueryReply, String>>) -> Result<
    u32,
    TmuxErrorView,
> {
    if !in_tmux_spec(tmux_var) {
        Err(TmuxErrorView::NotInTmux)
    } else {
        match reply_text(reply) {
            Ok(o) => match parse_u32_seq(trim_end_seq(o)) {
                Some(n) => Ok(n),
                None => Err(TmuxErrorView::NotAnIndex),
            },
            Err(e) => Err(e),
        }
    }
}

/// What a query printed where it ran and succeeded.
fn reply_stdout(reply: &Option<Result<QueryReply, String>>) -> (r: Result<String, TmuxError>)
    ensures
        result_view(r, |s: String| s@) == reply_text(*reply),
{
    match reply {
        None => Err(TmuxError::NoReply),
        Some(Err(m)) => Err(TmuxError::Spawn(m.clone())),
        Some(Ok(q)) => {
            if q.success {
                Ok(q.stdout.clone())
            } else {
                Err(TmuxError::Failed(trim(q.stderr.as_str())))
            }
        },
    }
}

/// Why a client's foreground session cannot be named.
#[derive(Debug, PartialEq, Eq)]
pub enum ForegroundError {
    /// The current session cannot be named.
    NoSession(TmuxError),
    /// No client is attached to the session.
    NotAttached,
    /// The number of attached clients was not asked.
    NoReply,
}

impl Tmux {
    /// The name of the session this program runs in, from the value of
    /// `TMUX` and how `display-message -p -F '#{session_name}'` ended (`None`
    /// where it was not run): see `session_spec`.
    pub fn current_session_name(tmux_var: Option<&str>, reply: &Option<Result<QueryReply, String>>) -> (r: Result<
        String,
        TmuxError,
    >)
        ensures
            result_view(r, |s: String| s@) == session_spec(opt_str(tmux_var), *reply),
    {
        if !Tmux::is_in_tmux(tmux_var) {
            return Err(TmuxError::NotInTmux);
        }
        match reply_stdout(reply) {
            Ok(o) => Ok(trim_end(o.as_str())),
            Err(e) => Err(e),
        }
    }

    /// The index of the window or pane this program runs in, from the value
    /// of `TMUX` and how the `display-message` query ended: see `index_spec`.
    pub fn current_index(tmux_var: Option<&str>, reply: &Option<Result<QueryReply, String>>) -> (r: Result<
        u32,
        TmuxError,
    >)
        ensures
            result_view(r, |n: u32| n) == index_spec(opt_str(tmux_var), *reply),
    {
        if !Tmux::is_in_tmux(tmux_var) {
            return Err(TmuxError::NotInTmux);
        }
        match reply_stdout(reply) {
            Ok(o) => {
                let t = trim_end(o.as_str());
                match parse_u32(t.as_str()) {
                    Some(n) => Ok(n),
                    None => Err(TmuxError::NotAnIndex),
                }
            },
            Err(e) => Err(e),
        }
    }

    /// The name of the session that a client shows, from the current session
    /// (see `current_session_name`) and what `display-message -p -F
    /// '#{session_attached}'` printed (`None` where it was not asked): the
    /// session, where it has a name and the number of attached clients is not
    /// `0`.
    pub fn foreground_session_name(session: Result<String, TmuxError>, attached_reply: Option<&str>) -> (r: Result<
        String,
        ForegroundError,
    >)
        ensures
            match session {
                Err(e) => r == Err::<String, ForegroundError>(ForegroundError::NoSession(e)),
                Ok(s) => match attached_reply {
                    None => r == Err::<String, ForegroundError>(ForegroundError::NoReply),
                    Some(a) => if trim_seq(a@) == "0"@ {
                        r == Err::<String, ForegroundError>(ForegroundError::NotAttached)
                    } else {
                        r == Ok::<String, ForegroundError>(s)
                    },
                },
            },
    {
        match session {
            Err(e) => Err(ForegroundError::NoSession(e)),
            Ok(s) => match attached_reply {
                None => Err(ForegroundError::NoReply),
                Some(a) => {
                    let attached = trim(a);
                    if str_eq(attached.as_str(), "0") {
                        Err(ForegroundError::NotAttached)
                    } else {
                        Ok(s)
                    }
                },
            },
        }
    }

    /// The command that ends the session this program runs in, from the value
    /// of `TMUX` and the session query: `kill-session -t <session>`, where
    /// the session can be named (see `session_spec`).
    pub fn kill_session_command(tmux_var: Option<&str>, session_reply: &Option<Result<QueryReply, String>>) -> (r: Result<
        Vec<String>,
        TmuxError,
    >)
        ensures
            result_view(r, |a: Vec<String>| string_seqs(a@)) == match session_spec(
                opt_str(tmux_var),
                *session_reply,
            ) {
                Ok(s) => Ok(seq!["kill-session"@, "-t"@, s]),
                Err(e) => Err(e),
            },
    {
        let session = Tmux::current_session_name(tmux_var, session_reply)?;
        Ok(Tmux::kill_session(session.as_str()))
    }

    /// The command that closes the window this program runs in, from the
    /// value of `TMUX`, the session query and the window index query:
    /// `kill-window -t <session>:<index>`, where both can be read, the
    /// session first.
    pub fn kill_window_command(
        tmux_var: Option<&str>,
        session_reply: &Option<Result<QueryReply, String>>,
        window_reply: &Option<Result<QueryReply, String>>,
    ) -> (r: Result<Vec<String>, TmuxError>)
        ensures
            result_view(r, |a: Vec<String>| string_seqs(a@)) == match session_spec(
                opt_str(tmux_var),
                *session_reply,
            ) {
                Err(e) => Err(e),
                Ok(s) => match index_spec(opt_str(tmux_var), *window_reply) {
                    Err(e) => Err(e),
                    Ok(w) => Ok(seq!["kill-window"@, "-t"@, s + ":"@ + decimal(w as nat)]),
                },
            },
    {
        let session = Tmux::current_session_name(tmux_var, session_reply)?;
        let window = Tmux::current_index(tmux_var, window_reply)?;
        Ok(Tmux::kill_window(session.as_str(), window))
    }

    /// The command that closes the pane this program runs in, from the value
    /// of `TMUX` and the session, window index and pane index queries:
    /// `kill-pane -t <session>:<window>.<pane>`, where all three can be read,
    /// in that order.
    pub fn kill_pane_command(
        tmux_var: Option<&str>,
        session_reply: &Option<Result<QueryReply, String>>,
        window_reply: &Option<Result<QueryReply, String>>,
        pane_reply: &Option<Result<QueryReply, String>>,
    ) -> (r: Result<Vec<String>, TmuxError>)
        ensures
            result_view(r, |a: Vec<String>| string_seqs(a@)) == match session_spec(
                opt_str(tmux_var),
                *session_reply,
            ) {
                Err(e) => Err(e),
                Ok(s) => match index_spec(opt_str(tmux_var), *window_reply) {
                    Err(e) => Err(e),
                    Ok(w) => match index_spec(opt_str(tmux_var), *pane_reply) {
                        Err(e) => Err(e),
                        Ok(p) => Ok(
                            seq![
                                "kill-pane"@,
                                "-t"@,
                                s + ":"@ + decimal(w as nat) + "."@ + decimal(p as nat),
                            ],
                        ),
                    },
                },
            },
    {
        let session = Tmux::current_session_name(tmux_var, session_reply)?;
        let window = Tmux::current_index(tmux_var, window_reply)?;
        let pane = Tmux::current_index(tmux_var, pane_reply)?;
        Ok(Tmux::kill_pane(session.as_str(), window, pane))
    }
}

} // verus!
