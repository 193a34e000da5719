//! The multiplexer coordinator: it brings together sessions, windows and
//! the pane tree of each window.
//!
//! Platform windows are identified by the number their window id converts
//! to; the terminals shown in panes are kept by the embedding program, and
//! a pane names the one it shows by its key.

use vstd::prelude::*;
use std::collections::HashMap;
use vstd::std_specs::iter::IteratorSpec;

use crate::pane::{manager_views, Direction, PaneId, PaneManager, PaneManagerView, SplitDirection};
use crate::session::{
    first_position, is_first_position, lemma_first_position_unique, window_keys, Session, SessionId,
    SessionManager, SessionManagerView, SessionWindowId, Window,
};
use crate::sys::{
    duration_debug_text, duration_seconds, duration_subsec_nanos, duration_text, elapsed_since,
    hash_map_get_mut,
};
use crate::text::{decimal, decimal_string, push_decimal};

verus! {

/// Multiplexer events that need to be handled by the event loop.
#[derive(Debug, Clone)]
#[allow(inconsistent_fields)]
pub enum MultiplexerEvent {
    /// Create a new pane in the specified direction.
    SplitPane { window_id: SessionWindowId, direction: SplitDirection },
    /// Navigate to a pane.
    NavigatePane { window_id: SessionWindowId, direction: Direction },
    /// Close the active pane.
    ClosePane { window_id: SessionWindowId },
    /// Create a new window in the session.
    CreateWindow { session_id: SessionId },
    /// Close a window.
    CloseWindow { window_id: SessionWindowId },
    /// Select next window.
    NextWindow { session_id: SessionId },
    /// Select previous window.
    PreviousWindow { session_id: SessionId },
    /// Select window by index.
    SelectWindow { session_id: SessionId, index: usize },
    /// Rename the current window.
    RenameWindow { window_id: SessionWindowId, name: String },
    /// Create a new session.
    CreateSession { name: String },
    /// Attach to a session.
    AttachSession { name: String },
    /// Detach from the current session.
    DetachSession,
    /// Kill a session.
    KillSession { name: String },
    /// Rename the current session.
    RenameSession { name: String },
}

/// Result of handling a multiplexer event.
#[derive(Debug, Clone)]
pub enum MultiplexerResult {
    /// Operation succeeded.
    Success,
    /// A new session was created.
    SessionCreated(SessionId),
    /// An error occurred.
    Error(String),
    /// Should exit/detach.
    ShouldExit,
}

impl Window {
    /// `other` is `self` after `add_pane(p)` followed by making `p` the
    /// active pane.
    pub open spec fn with_pane_added(self, other: Window, p: PaneId) -> bool {
        &&& other.panes@ == self.panes@.push(p)
        &&& other.active_pane == Some(p)
        &&& other.same_but_panes(self)
    }

    /// `other` is `self` after `remove_pane(p)` followed by setting the
    /// active pane to `active`.
    pub open spec fn with_pane_removed(self, other: Window, p: PaneId, active: Option<PaneId>) -> bool {
        &&& other.panes@ == (if self.panes@.contains(p) {
            self.panes@.remove(first_position(self.panes@, p))
        } else {
            self.panes@
        })
        &&& other.active_pane == active
        &&& other.same_but_panes(self)
    }

    /// The window with another active pane.
    pub open spec fn with_active_pane(self, p: Option<PaneId>) -> Window {
        Window { active_pane: p, ..self }
    }
}

impl PaneManagerView {
    /// A pane manager as `new` followed by `create_root(terminal,
    /// window_id)` leaves it: one active root pane, covering the window.
    pub open spec fn is_single_root(self, terminal: u64, window_id: u64) -> bool {
        &&& self.panes.dom() == set![1u64]
        &&& self.panes[1].is_active
        &&& self.panes[1].with_active(false).is_fresh(PaneId(1), terminal, window_id)
        &&& self.active_pane == Some(PaneId(1))
        &&& self.root_pane == Some(PaneId(1))
        &&& self.next_id == 2
        &&& self.border_width == 2
        &&& self.active_border_color == crate::pane::default_active_border_color()
        &&& self.inactive_border_color == crate::pane::default_inactive_border_color()
        &&& self.wf()
    }
}

/// The abstract state of a [`Multiplexer`].
#[verifier::ext_equal]
pub struct MultiplexerView {
    /// The session manager.
    pub sessions: SessionManagerView,
    /// The state of the pane manager of each window, by the number inside
    /// the window's id.
    pub panes: Map<u64, PaneManagerView>,
    /// Session windows to platform window numbers.
    pub window_ids: Map<u64, u64>,
    /// Platform window numbers to session windows.
    pub platform_windows: Map<u64, u64>,
    /// The number the next internal window name will carry.
    pub next_window_id: u64,
}

/// The text listing no sessions.
pub open spec fn no_sessions_text() -> Seq<char> {
    "no server running on /tmp/cmux"@
}

/// One line of the session listing.
pub open spec fn session_line(attached: bool, name: Seq<char>, count: nat, created: Seq<char>) -> Seq<char> {
    (if attached {
        "*"@
    } else {
        " "@
    }) + " "@ + name + ": "@ + decimal(count) + " window"@ + (if count == 1 {
        ""@
    } else {
        "s"@
    }) + " (created "@ + created + ")\n"@
}

/// The lines of the session listing for `sessions`, in order, with the
/// creation ages `created`.
pub open spec fn session_lines(sessions: Seq<Session>, created: Seq<Seq<char>>) -> Seq<char>
    decreases sessions.len(),
{
    if sessions.len() == 0 || created.len() != sessions.len() {
        Seq::empty()
    } else {
        let s = sessions.last();
        session_lines(sessions.drop_last(), created.drop_last()) + session_line(
            s.is_attached,
            s.name@,
            s.windows@.len(),
            created.last(),
        )
    }
}

/// Formats one line of the session listing.
pub fn format_session_line(attached: bool, name: &str, window_count: usize, created: &str) -> (line: String)
    ensures
        line@ == session_line(attached, name@, window_count as nat, created@),
{
    let mut line = String::new();
    if attached {
        line.append("*");
    } else {
        line.append(" ");
    }
    line.append(" ");
    line.append(name);
    line.append(": ");
    push_decimal(&mut line, window_count as u64);
    line.append(" window");
    if window_count == 1 {
        line.append("");
    } else {
        line.append("s");
    }
    line.append(" (created ");
    line.append(created);
    line.append(")\n");
    assert(line@ =~= session_line(attached, name@, window_count as nat, created@));
    line
}

/// The report of an operation that succeeds or fails with a message.
pub open spec fn result_of(c: Result<(), String>) -> MultiplexerResult {
    match c {
        Ok(_) => MultiplexerResult::Success,
        Err(e) => MultiplexerResult::Error(e),
    }
}

/// The texts of the ages `(seconds, nanoseconds)` of sessions, as `Debug`
/// formats durations.
pub open spec fn age_texts(ages: Seq<(u64, u32)>) -> Seq<Seq<char>> {
    ages.map_values(|a: (u64, u32)| duration_text(a.0, a.1))
}

/// The message of a name that matches no session.
pub open spec fn not_found_message(name: Seq<char>) -> Seq<char> {
    "Session '"@ + name + "' not found"@
}

impl MultiplexerView {
    /// The multiplexer's invariant: the session manager and every pane
    /// manager are well formed, there are finitely many pane managers, the windows with a pane manager are those
    /// with a platform window, and each carries an id the session manager
    /// has handed out.
    pub open spec fn wf(self) -> bool {
        &&& self.sessions.wf()
        &&& self.panes.dom().finite()
        &&& forall|k: u64| #[trigger] self.panes.contains_key(k) ==> self.panes[k].wf()
        &&& self.window_ids.dom() == self.panes.dom()
        &&& forall|k: u64| #[trigger] self.panes.contains_key(k) ==> k < self.sessions.next_window_id
        &&& forall|k: u64| #[trigger] self.window_ids.contains_key(k) ==> k
            < self.sessions.next_window_id
    }

    /// A state is well formed when its parts are, and it keeps the window
    /// keys and the window-id counter of a well-formed state.
    proof fn lemma_wf_same_windows(o: MultiplexerView, n: MultiplexerView)
        requires
            o.wf(),
            n.sessions.wf(),
            forall|k: u64| #[trigger] n.panes.contains_key(k) ==> n.panes[k].wf(),
            n.panes.dom() =~= o.panes.dom(),
            n.window_ids.dom() =~= o.window_ids.dom(),
            n.sessions.next_window_id == o.sessions.next_window_id,
        ensures
            n.wf(),
    {
        assert forall|k: u64| #[trigger] n.panes.contains_key(k) implies k < n.sessions.next_window_id by {
            assert(o.panes.dom().contains(k));
        }
        assert forall|k: u64| #[trigger] n.window_ids.contains_key(k) implies k
            < n.sessions.next_window_id by {
            assert(o.window_ids.dom().contains(k));
        }
    }

    /// The state with another session manager state.
    pub open spec fn with_sessions(self, s: SessionManagerView) -> MultiplexerView {
        MultiplexerView { sessions: s, ..self }
    }

    /// The active window of the attached session.
    pub open spec fn active_window(self) -> Option<SessionWindowId> {
        match self.sessions.attached() {
            Some(s) => s.spec_active_window(),
            None => None,
        }
    }

    /// The id recorded in the session that the name `name` maps to, if
    /// there is one.
    pub open spec fn session_named(self, name: Seq<char>) -> Option<SessionId> {
        if self.sessions.names.contains_key(name) && self.sessions.sessions.contains_key(
            self.sessions.names[name].0,
        ) {
            Some(self.sessions.sessions[self.sessions.names[name].0].id)
        } else {
            None
        }
    }

    /// The outcome of `create_window`.
    pub open spec fn create_window_post(
        self,
        post: MultiplexerView,
        winit_id: u64,
        terminal: u64,
        r: Option<SessionWindowId>,
    ) -> bool {
        match self.sessions.attached_session {
            None => r is None && post =~= self,
            Some(sid) => {
                &&& post.next_window_id == self.next_window_id + 1
                &&& self.sessions.create_window_post(post.sessions, sid, decimal(self.next_window_id as nat), r)
                &&& r is None ==> {
                    &&& post.panes =~= self.panes
                    &&& post.window_ids =~= self.window_ids
                    &&& post.platform_windows =~= self.platform_windows
                }
                &&& r matches Some(w) ==> {
                    &&& post.panes.dom() =~= self.panes.dom().insert(w.0)
                    &&& post.panes[w.0].is_single_root(terminal, winit_id)
                    &&& self.wf() ==> post.panes.len() == self.panes.len() + 1
                    &&& forall|k: u64| k != w.0 && self.panes.contains_key(k)
                        ==> #[trigger] post.panes[k] == self.panes[k]
                    &&& post.window_ids =~= self.window_ids.insert(w.0, winit_id)
                    &&& post.platform_windows =~= self.platform_windows.insert(winit_id, w.0)
                }
            },
        }
    }

    /// The outcome of `split_pane`.
    pub open spec fn split_pane_post(
        self,
        post: MultiplexerView,
        window_id: SessionWindowId,
        direction: SplitDirection,
        new_terminal: u64,
        r: Option<PaneId>,
    ) -> bool {
        if !self.panes.contains_key(window_id.0) || self.panes[window_id.0].active_pane is None {
            r is None && post =~= self
        } else {
            let pm = self.panes[window_id.0];
            let active = pm.active_pane->Some_0;
            &&& post.panes.dom() =~= self.panes.dom()
            &&& pm.split_pane_post(post.panes[window_id.0], active, direction, new_terminal, r)
            &&& forall|k: u64| k != window_id.0 && self.panes.contains_key(k)
                ==> #[trigger] post.panes[k] == self.panes[k]
            &&& post.window_ids =~= self.window_ids
            &&& post.platform_windows =~= self.platform_windows
            &&& post.next_window_id == self.next_window_id
            &&& (r is None || !self.sessions.windows.contains_key(window_id.0)) ==> post.sessions
                =~= self.sessions
            &&& r matches Some(p) ==> self.sessions.windows.contains_key(window_id.0) ==> {
                &&& post.sessions.windows.dom() =~= self.sessions.windows.dom()
                &&& self.sessions.windows[window_id.0].with_pane_added(
                    post.sessions.windows[window_id.0],
                    p,
                )
                &&& forall|k: u64| k != window_id.0 && self.sessions.windows.contains_key(k)
                    ==> #[trigger] post.sessions.windows[k] == self.sessions.windows[k]
                &&& post.sessions == (SessionManagerView { windows: post.sessions.windows, ..self.sessions })
            }
        }
    }

    /// The outcome of `navigate_pane`.
    pub open spec fn navigate_pane_post(self, post: MultiplexerView, window_id: SessionWindowId, direction: Direction, r: Option<PaneId>) -> bool {
        if !self.panes.contains_key(window_id.0) {
            r is None && post =~= self
        } else {
            &&& post.panes.dom() =~= self.panes.dom()
            &&& self.panes[window_id.0].navigate_post(post.panes[window_id.0], direction, r)
            &&& forall|k: u64| k != window_id.0 && self.panes.contains_key(k)
                ==> #[trigger] post.panes[k] == self.panes[k]
            &&& post.window_ids =~= self.window_ids
            &&& post.platform_windows =~= self.platform_windows
            &&& post.next_window_id == self.next_window_id
            &&& post.sessions == (match r {
                Some(p) => if self.sessions.windows.contains_key(window_id.0) {
                    SessionManagerView {
                        windows: self.sessions.windows.insert(
                            window_id.0,
                            self.sessions.windows[window_id.0].with_active_pane(Some(p)),
                        ),
                        ..self.sessions
                    }
                } else {
                    self.sessions
                },
                None => self.sessions,
            })
        }
    }

    /// The outcome of `close_window`.
    pub open spec fn close_window_post(self, post: MultiplexerView, window_id: SessionWindowId, r: bool) -> bool {
        &&& post.panes =~= self.panes.remove(window_id.0)
        &&& post.window_ids =~= self.window_ids.remove(window_id.0)
        &&& post.platform_windows =~= if self.window_ids.contains_key(window_id.0) {
            self.platform_windows.remove(self.window_ids[window_id.0])
        } else {
            self.platform_windows
        }
        &&& post.next_window_id == self.next_window_id
        &&& self.sessions.kill_window_post(post.sessions, window_id, r)
    }

    /// The state after the pane step of `close_pane` has closed the active
    /// pane `active` of window `window_id`, leaving its pane manager in
    /// state `pm`.
    pub open spec fn after_pane_closed(self, mid: MultiplexerView, window_id: SessionWindowId, active: PaneId, pm: PaneManagerView) -> bool {
        &&& mid.panes =~= self.panes.insert(window_id.0, pm)
        &&& mid.window_ids =~= self.window_ids
        &&& mid.platform_windows =~= self.platform_windows
        &&& mid.next_window_id == self.next_window_id
        &&& if self.sessions.windows.contains_key(window_id.0) {
            &&& mid.sessions.windows.dom() =~= self.sessions.windows.dom()
            &&& self.sessions.windows[window_id.0].with_pane_removed(
                mid.sessions.windows[window_id.0],
                active,
                pm.active_pane,
            )
            &&& forall|k: u64| k != window_id.0 && self.sessions.windows.contains_key(k)
                ==> #[trigger] mid.sessions.windows[k] == self.sessions.windows[k]
            &&& mid.sessions == (SessionManagerView { windows: mid.sessions.windows, ..self.sessions })
        } else {
            mid.sessions =~= self.sessions
        }
    }

    /// The outcome of `close_pane`.
    pub open spec fn close_pane_post(self, post: MultiplexerView, window_id: SessionWindowId, r: bool) -> bool {
        if !self.panes.contains_key(window_id.0) || self.panes[window_id.0].active_pane is None {
            !r && post =~= self
        } else {
            let pm = self.panes[window_id.0];
            let active = pm.active_pane->Some_0;
            &&& r == pm.is_leaf_key(active.0)
            &&& !r ==> post =~= self
            &&& r ==> exists|closed: PaneManagerView, mid: MultiplexerView| {
                &&& pm.close_pane_post(closed, active, true)
                &&& #[trigger] self.after_pane_closed(mid, window_id, active, closed)
                &&& if pm.leaf_keys().len() <= 1 {
                    mid.close_window_post(post, window_id, mid.sessions.windows.contains_key(window_id.0))
                } else {
                    post =~= mid
                }
            }
        }
    }

    /// The outcome of `remove_window_by_winit`.
    pub open spec fn remove_window_by_winit_post(self, post: MultiplexerView, winit_id: u64, r: Option<SessionWindowId>) -> bool {
        if !self.platform_windows.contains_key(winit_id) {
            r is None && post =~= self
        } else {
            let w = self.platform_windows[winit_id];
            &&& r == Some(SessionWindowId(w))
            &&& post.platform_windows =~= self.platform_windows.remove(winit_id)
            &&& post.window_ids =~= self.window_ids.remove(w)
            &&& post.panes =~= self.panes.remove(w)
            &&& post.next_window_id == self.next_window_id
            &&& self.sessions.kill_window_post(
                post.sessions,
                SessionWindowId(w),
                self.sessions.windows.contains_key(w),
            )
        }
    }

    /// The outcome of `rename_window` on the active window.
    pub open spec fn rename_window_post(self, post: MultiplexerView, name: Seq<char>, r: bool) -> bool {
        match self.active_window() {
            None => !r && post =~= self,
            Some(w) => {
                &&& self.sessions.rename_window_post(post.sessions, w, name, r)
                &&& post == self.with_sessions(post.sessions)
            },
        }
    }

    /// The outcome of `attach_session` by name.
    pub open spec fn attach_session_post(self, post: MultiplexerView, name: Seq<char>, r: Result<(), String>) -> bool {
        match self.session_named(name) {
            None => r is Err && r->Err_0@ == not_found_message(name) && post =~= self,
            Some(id) => {
                &&& self.sessions.attach_session_post(post.sessions, id, r)
                &&& post == self.with_sessions(post.sessions)
            },
        }
    }

    /// The outcome of `kill_session` by name.
    pub open spec fn kill_session_post(self, post: MultiplexerView, name: Seq<char>, r: Result<(), String>) -> bool {
        match self.session_named(name) {
            None => r is Err && r->Err_0@ == not_found_message(name) && post =~= self,
            Some(id) => {
                &&& r is Ok
                &&& self.sessions.kill_session_post(post.sessions, id, self.sessions.sessions.contains_key(id.0))
                &&& post == self.with_sessions(post.sessions)
            },
        }
    }

    /// The events whose handling cannot overflow a counter or index.
    pub open spec fn event_allowed(self, event: MultiplexerEvent) -> bool {
        match event {
            MultiplexerEvent::CreateSession { name } => !self.sessions.names.contains_key(name@)
                ==> self.sessions.next_session_id < u64::MAX,
            MultiplexerEvent::NextWindow { .. } => self.sessions.attached() is Some
                && self.sessions.attached()->Some_0.windows@.len() > 1
                ==> self.sessions.attached()->Some_0.active_window_index < usize::MAX,
            MultiplexerEvent::PreviousWindow { .. } => self.sessions.attached() is Some
                && self.sessions.attached()->Some_0.windows@.len() > 1
                && self.sessions.attached()->Some_0.active_window_index != 0
                ==> self.sessions.attached()->Some_0.active_window_index - 1
                < self.sessions.attached()->Some_0.windows@.len(),
            _ => true,
        }
    }

    /// The outcome of handling `event`: the operation it names is performed
    /// and its outcome reported.
    pub open spec fn handle_event_post(self, post: MultiplexerView, event: MultiplexerEvent, r: Option<MultiplexerResult>) -> bool {
        match event {
            MultiplexerEvent::CreateSession { name } => exists|c: Result<SessionId, String>| {
                &&& #[trigger] self.sessions.create_session_post(post.sessions, name@, c)
                &&& post == self.with_sessions(post.sessions)
                &&& r == Some(match c {
                    Ok(id) => MultiplexerResult::SessionCreated(id),
                    Err(e) => MultiplexerResult::Error(e),
                })
            },
            MultiplexerEvent::AttachSession { name } => exists|c: Result<(), String>| {
                &&& #[trigger] self.attach_session_post(post, name@, c)
                &&& r == Some(result_of(c))
            },
            MultiplexerEvent::DetachSession => exists|d: Option<SessionId>| {
                &&& #[trigger] self.sessions.detach_session_post(post.sessions, d)
                &&& post == self.with_sessions(post.sessions)
                &&& r == Some(MultiplexerResult::ShouldExit)
            },
            MultiplexerEvent::KillSession { name } => exists|c: Result<(), String>| {
                &&& #[trigger] self.kill_session_post(post, name@, c)
                &&& r == Some(result_of(c))
            },
            MultiplexerEvent::RenameSession { name } => exists|c: Result<(), String>| {
                &&& #[trigger] self.rename_session_post(post, name@, c)
                &&& r == Some(result_of(c))
            },
            MultiplexerEvent::CreateWindow { .. } => post == self && r == Some(
                MultiplexerResult::Success,
            ),
            MultiplexerEvent::CloseWindow { window_id } => exists|k: bool| {
                &&& #[trigger] self.close_window_post(post, window_id, k)
                &&& r == Some(MultiplexerResult::Success)
            },
            MultiplexerEvent::NextWindow { .. } => exists|w: Option<SessionWindowId>| {
                &&& #[trigger] self.sessions.next_window_post(post.sessions, w)
                &&& post == self.with_sessions(post.sessions)
                &&& r == Some(MultiplexerResult::Success)
            },
            MultiplexerEvent::PreviousWindow { .. } => exists|w: Option<SessionWindowId>| {
                &&& #[trigger] self.sessions.previous_window_post(post.sessions, w)
                &&& post == self.with_sessions(post.sessions)
                &&& r == Some(MultiplexerResult::Success)
            },
            MultiplexerEvent::SelectWindow { index, .. } => exists|w: Option<SessionWindowId>| {
                &&& #[trigger] self.sessions.select_window_post(post.sessions, index, w)
                &&& post == self.with_sessions(post.sessions)
                &&& r == Some(MultiplexerResult::Success)
            },
            MultiplexerEvent::RenameWindow { window_id, name } => exists|k: bool| {
                &&& #[trigger] self.sessions.rename_window_post(post.sessions, window_id, name@, k)
                &&& post == self.with_sessions(post.sessions)
                &&& r == Some(MultiplexerResult::Success)
            },
            MultiplexerEvent::SplitPane { .. } => post == self && r is None,
            MultiplexerEvent::NavigatePane { window_id, direction } => exists|p: Option<PaneId>| {
                &&& #[trigger] self.navigate_pane_post(post, window_id, direction, p)
                &&& r == Some(MultiplexerResult::Success)
            },
            MultiplexerEvent::ClosePane { window_id } => exists|k: bool| {
                &&& #[trigger] self.close_pane_post(post, window_id, k)
                &&& r == Some(MultiplexerResult::Success)
            },
        }
    }

    /// The outcome of `rename_session` on the attached session.
    pub open spec fn rename_session_post(self, post: MultiplexerView, name: Seq<char>, r: Result<(), String>) -> bool {
        match self.sessions.attached_session {
            None => r is Err && r->Err_0@ == "No session attached"@ && post =~= self,
            Some(id) => {
                &&& self.sessions.rename_session_post(post.sessions, id, name, r)
                &&& post == self.with_sessions(post.sessions)
            },
        }
    }
}

/// Builds the message of a name that matches no session.
fn not_found_text(name: &str) -> (msg: String)
    ensures
        msg@ == not_found_message(name@),
{
    let mut msg = String::from_str("Session '");
    msg.append(name);
    msg.append("' not found");
    msg
}

broadcast use crate::pane::lemma_manager_views;

/// The listing of `order` with ages `created` is its lines, one per
/// session in order, laid end to end.
proof fn lemma_session_lines_flat(order: Seq<Session>, created: Seq<Seq<char>>)
    requires
        created.len() == order.len(),
    ensures
        session_lines(order, created) == Seq::new(
            order.len(),
            |i: int| session_line(order[i].is_attached, order[i].name@, order[i].windows@.len(), created[i]),
        ).flatten_alt(),
    decreases order.len(),
{
    let lines = Seq::new(
        order.len(),
        |i: int| session_line(order[i].is_attached, order[i].name@, order[i].windows@.len(), created[i]),
    );
    if order.len() > 0 {
        let (o1, c1) = (order.drop_last(), created.drop_last());
        lemma_session_lines_flat(o1, c1);
        let lines1 = Seq::new(
            o1.len(),
            |i: int| session_line(o1[i].is_attached, o1[i].name@, o1[i].windows@.len(), c1[i]),
        );
        assert(lines.drop_last() =~= lines1);
    } else {
        assert(lines =~= Seq::<Seq<char>>::empty());
    }
}

/// The session listing has one line per session of the manager, attached
/// or not, each once and in the listing order: the line is `*` for the
/// attached session or a space otherwise, a space, the session's name,
/// `: `, its window count in decimal, ` window` with `s` unless the count
/// is one, ` (created `, the `Debug` text of some duration, and `)` with a
/// line break.
pub proof fn lemma_listing_one_line_per_session(v: MultiplexerView, r: Seq<char>)
    requires
        v.sessions.sessions.len() > 0,
        exists|order: Seq<Session>, ages: Seq<(u64, u32)>|
            {
                &&& v.sessions.is_listing(order)
                &&& ages.len() == order.len()
                &&& forall|i: int| 0 <= i < ages.len() ==> ages[i].1 < 1_000_000_000
                &&& r == #[trigger] session_lines(order, age_texts(ages))
            },
    ensures
        exists|order: Seq<Session>, lines: Seq<Seq<char>>|
            #![trigger v.sessions.is_listing(order), lines.flatten()]
            {
                &&& v.sessions.is_listing(order)
                &&& lines.len() == v.sessions.sessions.len()
                &&& order.len() == lines.len()
                &&& r == lines.flatten()
                &&& forall|i: int| 0 <= i < lines.len() ==> exists|secs: u64, nanos: u32|
                    nanos < 1_000_000_000 && #[trigger] lines[i] == (if order[i].is_attached {
                        "*"@
                    } else {
                        " "@
                    }) + " "@ + order[i].name@ + ": "@ + decimal(order[i].windows@.len()) + " window"@
                        + (if order[i].windows@.len() == 1 {
                        ""@
                    } else {
                        "s"@
                    }) + " (created "@ + duration_text(secs, nanos) + ")\n"@
            },
{
    let (order, ages) = choose|order: Seq<Session>, ages: Seq<(u64, u32)>|
        {
            &&& v.sessions.is_listing(order)
            &&& ages.len() == order.len()
            &&& forall|i: int| 0 <= i < ages.len() ==> ages[i].1 < 1_000_000_000
            &&& r == #[trigger] session_lines(order, age_texts(ages))
        };
    let created = age_texts(ages);
    lemma_session_lines_flat(order, created);
    let lines = Seq::new(
        order.len(),
        |i: int| session_line(order[i].is_attached, order[i].name@, order[i].windows@.len(), created[i]),
    );
    lines.lemma_flatten_and_flatten_alt_are_equivalent();
    let ks = choose|ks: Seq<u64>| v.sessions.lists_keys(order, ks);
    ks.unique_seq_to_set();
    assert forall|i: int| 0 <= i < lines.len() implies exists|secs: u64, nanos: u32|
        nanos < 1_000_000_000 && #[trigger] lines[i] == (if order[i].is_attached {
            "*"@
        } else {
            " "@
        }) + " "@ + order[i].name@ + ": "@ + decimal(order[i].windows@.len()) + " window"@ + (if order[i].windows@.len()
            == 1 {
            ""@
        } else {
            "s"@
        }) + " (created "@ + duration_text(secs, nanos) + ")\n"@ by {
        assert(created[i] == duration_text(ages[i].0, ages[i].1));
    }
}

/// Closing a window that was just created on a platform window not in use
/// succeeds and gives back the pane managers, the window maps and the
/// windows that the multiplexer had before, and the window list of the
/// session it was created in.
pub proof fn lemma_close_undoes_create_window(
    v: MultiplexerView,
    v1: MultiplexerView,
    v2: MultiplexerView,
    winit_id: u64,
    terminal: u64,
    w: SessionWindowId,
    r: bool,
)
    requires
        v.wf(),
        !v.platform_windows.contains_key(winit_id),
        v.create_window_post(v1, winit_id, terminal, Some(w)),
        v1.close_window_post(v2, w, r),
    ensures
        r,
        v2.panes == v.panes,
        v2.window_ids == v.window_ids,
        v2.platform_windows == v.platform_windows,
        v2.sessions.windows == v.sessions.windows,
        ({
            let sid = v.sessions.attached_session->Some_0.0;
            v2.sessions.sessions.contains_key(sid) ==> v2.sessions.sessions[sid].windows@
                == v.sessions.sessions[sid].windows@
        }),
{
    let sid = v.sessions.attached_session->Some_0.0;
    let k = w.0;
    assert(!v.panes.contains_key(k));
    assert(!v.window_ids.contains_key(k));
    assert(!v.sessions.windows.contains_key(k));
    let s = v.sessions.sessions[sid];
    let s1 = v1.sessions.sessions[sid];
    assert(!s.windows@.contains(w)) by {
        if s.windows@.contains(w) {
            let i = choose|i: int| 0 <= i < s.windows@.len() && s.windows@[i] == w;
            assert(v.sessions.windows.contains_key(s.windows@[i].0));
        }
    }
    let n = s.windows@.len() as int;
    assert(is_first_position(s1.windows@, w, n));
    lemma_first_position_unique(s1.windows@, w, n);
    assert(s1.windows@.remove(n) =~= s.windows@);
    if n == 0 {
        assert(window_keys(s1.windows@) =~= set![k]) by {
            assert(s1.windows@[0].0 == k);
        }
    }
    assert(v2.panes =~= v.panes);
    assert(v2.window_ids =~= v.window_ids);
    assert(v2.platform_windows =~= v.platform_windows);
    assert(v2.sessions.windows =~= v.sessions.windows);
}

/// Manages the multiplexer state across all windows.
pub struct Multiplexer {
    /// Session manager.
    pub sessions: SessionManager,
    /// Pane managers for each window, by the number inside the window's id.
    pub pane_managers: HashMap<u64, PaneManager>,
    /// Session windows to platform window numbers.
    pub window_id_map: HashMap<u64, u64>,
    /// Platform window numbers to session windows.
    pub reverse_window_map: HashMap<u64, u64>,
    /// Next internal window ID.
    next_window_id: u64,
}

impl View for Multiplexer {
    type V = MultiplexerView;

    closed spec fn view(&self) -> MultiplexerView {
        MultiplexerView {
            sessions: self.sessions@,
            panes: manager_views(self.pane_managers@),
            window_ids: self.window_id_map@,
            platform_windows: self.reverse_window_map@,
            next_window_id: self.next_window_id,
        }
    }
}

impl Multiplexer {
    /// Create a new multiplexer.
    pub fn new() -> (m: Self)
        ensures
            m@.sessions == SessionManagerView::initial(),
            m@.panes == Map::<u64, PaneManagerView>::empty(),
            m@.window_ids == Map::<u64, u64>::empty(),
            m@.platform_windows == Map::<u64, u64>::empty(),
            m@.next_window_id == 1,
            m@.wf(),
    {
        Self {
            sessions: SessionManager::new(),
            pane_managers: HashMap::new(),
            window_id_map: HashMap::new(),
            reverse_window_map: HashMap::new(),
            next_window_id: 1,
        }
    }

    /// Initialize with a default session named "0", and attach to it.
    pub fn initialize_default_session(&mut self) -> (r: Result<SessionId, String>)
        requires
            !old(self)@.sessions.names.contains_key("0"@) ==> old(self)@.sessions.next_session_id
                < u64::MAX,
        ensures
            exists|mid: SessionManagerView, r1: Result<SessionId, String>| {
                &&& #[trigger] old(self)@.sessions.create_session_post(mid, "0"@, r1)
                &&& r1 is Err ==> r == r1 && final(self)@ == old(self)@.with_sessions(mid)
                &&& r1 is Ok ==> exists|r2: Result<(), String>| {
                    &&& #[trigger] mid.attach_session_post(final(self)@.sessions, r1->Ok_0, r2)
                    &&& r == match r2 {
                        Ok(_) => r1,
                        Err(e) => Err::<SessionId, String>(e),
                    }
                    &&& final(self)@ == old(self)@.with_sessions(final(self)@.sessions)
                }
            },
            old(self)@.wf() ==> final(self)@.wf(),
    {
        let r1 = self.sessions.create_session("0");
        let ghost mid = self.sessions@;
        let session_id = match r1 {
            Ok(id) => id,
            Err(e) => return Err(e),
        };
        let r2 = self.sessions.attach_session(session_id);
        match r2 {
            Ok(()) => Ok(session_id),
            Err(e) => Err(e),
        }
    }

    /// Whether `create_window` can be called: with a session attached, both
    /// window counters have room for another window.
    pub fn can_create_window(&self) -> (b: bool)
        ensures
            b == (self@.sessions.attached_session is Some ==> self@.next_window_id < u64::MAX
                && self@.sessions.next_window_id < u64::MAX),
    {
        match self.sessions.attached_session() {
            Some(_) => self.next_window_id < u64::MAX && self.sessions.next_window_id() < u64::MAX,
            None => true,
        }
    }

    /// Create a new window in the attached session, with a pane tree of
    /// one root pane showing `terminal`, in platform window `winit_id`.
    pub fn create_window(&mut self, winit_id: u64, terminal: u64) -> (r: Option<SessionWindowId>)
        requires
            old(self)@.sessions.attached_session is Some ==> old(self)@.next_window_id < u64::MAX
                && old(self)@.sessions.next_window_id < u64::MAX,
        ensures
            old(self)@.create_window_post(final(self)@, winit_id, terminal, r),
            old(self)@.wf() ==> final(self)@.wf(),
    {
        let session_id = match self.sessions.attached_session() {
            Some(id) => id,
            None => return None,
        };
        let internal_id = SessionWindowId(self.next_window_id);
        self.next_window_id = self.next_window_id + 1;

        let name = decimal_string(internal_id.0);
        let window_id = match self.sessions.create_window(session_id, name.as_str()) {
            Some(id) => id,
            None => return None,
        };

        let mut pane_manager = PaneManager::new();
        pane_manager.create_root(terminal, winit_id);
        proof {
            assert(pane_manager@.panes.dom() =~= set![1u64]);
        }

        self.pane_managers.insert(window_id.0, pane_manager);
        self.window_id_map.insert(window_id.0, winit_id);
        self.reverse_window_map.insert(winit_id, window_id.0);

        Some(window_id)
    }

    /// Get the session window shown in platform window `winit_id`.
    pub fn get_window_id(&self, winit_id: u64) -> (r: Option<SessionWindowId>)
        ensures
            r == (if self@.platform_windows.contains_key(winit_id) {
                Some(SessionWindowId(self@.platform_windows[winit_id]))
            } else {
                None
            }),
    {
        match self.reverse_window_map.get(&winit_id) {
            Some(w) => Some(SessionWindowId(*w)),
            None => None,
        }
    }

    /// Get the platform window that shows a session window.
    pub fn get_winit_id(&self, window_id: SessionWindowId) -> (r: Option<u64>)
        ensures
            r == (if self@.window_ids.contains_key(window_id.0) {
                Some(self@.window_ids[window_id.0])
            } else {
                None
            }),
    {
        match self.window_id_map.get(&window_id.0) {
            Some(w) => Some(*w),
            None => None,
        }
    }

    /// Split the active pane in a window; the new pane shows
    /// `new_terminal`, is added to the window and becomes its active pane.
    pub fn split_pane(&mut self, window_id: SessionWindowId, direction: SplitDirection, new_terminal: u64) -> (r: Option<PaneId>)
        requires
            old(self)@.wf(),
            old(self)@.panes.contains_key(window_id.0) ==> old(self)@.panes[window_id.0].next_id
                < u64::MAX - 1,
        ensures
            old(self)@.split_pane_post(final(self)@, window_id, direction, new_terminal, r),
            final(self)@.wf(),
    {
        let pane_manager = match hash_map_get_mut(&mut self.pane_managers, window_id.0) {
            Some(pm) => pm,
            None => return None,
        };
        let active_pane = match pane_manager.active_pane() {
            Some(id) => id,
            None => return None,
        };
        proof {
            assert(old(self)@.panes.contains_key(window_id.0));
        }
        let new_pane_id = match pane_manager.split_pane(active_pane, direction, new_terminal) {
            Some(id) => id,
            None => {
                proof {
                    MultiplexerView::lemma_wf_same_windows(old(self)@, self@);
                }
                return None;
            },
        };
        match self.sessions.get_window_mut(window_id) {
            Some(window) => {
                window.add_pane(new_pane_id);
                window.active_pane = Some(new_pane_id);
            },
            None => {},
        }
        proof {
            MultiplexerView::lemma_wf_same_windows(old(self)@, self@);
        }
        Some(new_pane_id)
    }

    /// Navigate to a pane of a window in the specified direction; the pane
    /// found becomes the window's active pane.
    pub fn navigate_pane(&mut self, window_id: SessionWindowId, direction: Direction) -> (r: Option<PaneId>)
        requires
            old(self)@.wf(),
        ensures
            old(self)@.navigate_pane_post(final(self)@, window_id, direction, r),
            final(self)@.wf(),
    {
        let pane_manager = match hash_map_get_mut(&mut self.pane_managers, window_id.0) {
            Some(pm) => pm,
            None => return None,
        };
        proof {
            assert(old(self)@.panes.contains_key(window_id.0));
        }
        let new_pane = match pane_manager.navigate(direction) {
            Some(id) => id,
            None => {
                proof {
                    MultiplexerView::lemma_wf_same_windows(old(self)@, self@);
                }
                return None;
            },
        };
        match self.sessions.get_window_mut(window_id) {
            Some(window) => window.active_pane = Some(new_pane),
            None => {},
        }
        proof {
            MultiplexerView::lemma_wf_same_windows(old(self)@, self@);
        }
        Some(new_pane)
    }

    /// Close a window: its pane tree and platform window mapping are
    /// dropped, and it is killed in its session. Returns whether the session
    /// manager knew the window.
    pub fn close_window(&mut self, window_id: SessionWindowId) -> (r: bool)
        ensures
            old(self)@.close_window_post(final(self)@, window_id, r),
            old(self)@.wf() ==> final(self)@.wf(),
    {
        self.pane_managers.remove(&window_id.0);
        match self.window_id_map.remove(&window_id.0) {
            Some(winit_id) => {
                self.reverse_window_map.remove(&winit_id);
            },
            None => {},
        }
        let was_killed = self.sessions.kill_window(window_id);
        proof {
            let o = old(self)@;
            let v = self@;
            assert(v.panes =~= o.panes.remove(window_id.0));
            assert(v.window_ids =~= o.window_ids.remove(window_id.0));
            assert(v.platform_windows =~= if o.window_ids.contains_key(window_id.0) {
                o.platform_windows.remove(o.window_ids[window_id.0])
            } else {
                o.platform_windows
            });
        }
        was_killed
    }

    /// Close the active pane of a window. The pane is taken out of the
    /// window's pane list and the window's active pane follows the pane
    /// tree's. If it was the window's last pane, the window is closed.
    pub fn close_pane(&mut self, window_id: SessionWindowId) -> (r: bool)
        requires
            old(self)@.wf(),
        ensures
            old(self)@.close_pane_post(final(self)@, window_id, r),
            final(self)@.wf(),
    {
        let pane_manager = match hash_map_get_mut(&mut self.pane_managers, window_id.0) {
            Some(pm) => pm,
            None => return false,
        };
        let active_pane = match pane_manager.active_pane() {
            Some(id) => id,
            None => return false,
        };
        proof {
            assert(old(self)@.panes.contains_key(window_id.0));
        }
        let pane_count = pane_manager.len();
        if !pane_manager.close_pane(active_pane) {
            return false;
        }
        let new_active = pane_manager.active_pane();
        let ghost closed = pane_manager@;
        match self.sessions.get_window_mut(window_id) {
            Some(window) => {
                window.remove_pane(active_pane);
                window.active_pane = new_active;
            },
            None => {},
        }
        let ghost mid = self@;
        proof {
            let o = old(self)@;
            assert(mid.panes =~= o.panes.insert(window_id.0, closed));
            assert(o.after_pane_closed(mid, window_id, active_pane, closed));
            assert(mid.panes.dom() =~= o.panes.dom());
            assert(mid.wf());
        }
        if pane_count <= 1 {
            let k = self.close_window(window_id);
            proof {
                assert(mid.close_window_post(self@, window_id, k));
            }
        }
        true
    }

    /// Remove the window shown in platform window `winit_id`: its mappings
    /// and pane tree are dropped and it is killed in its session.
    pub fn remove_window_by_winit(&mut self, winit_id: u64) -> (r: Option<SessionWindowId>)
        ensures
            old(self)@.remove_window_by_winit_post(final(self)@, winit_id, r),
            old(self)@.wf() ==> final(self)@.wf(),
    {
        let w = match self.reverse_window_map.remove(&winit_id) {
            Some(w) => w,
            None => {
                proof {
                    assert(self.reverse_window_map@ =~= old(self).reverse_window_map@);
                }
                return None;
            },
        };
        let window_id = SessionWindowId(w);
        self.window_id_map.remove(&w);
        self.pane_managers.remove(&w);
        let k = self.sessions.kill_window(window_id);
        proof {
            let o = old(self)@;
            let v = self@;
            assert(v.panes =~= o.panes.remove(w));
            assert(v.window_ids =~= o.window_ids.remove(w));
            assert(o.sessions.kill_window_post(v.sessions, SessionWindowId(w), k));
        }
        Some(window_id)
    }

    /// Get the active pane of a window.
    pub fn active_pane(&self, window_id: SessionWindowId) -> (r: Option<PaneId>)
        ensures
            r == (if self@.panes.contains_key(window_id.0) {
                self@.panes[window_id.0].active_pane
            } else {
                None
            }),
    {
        match self.pane_managers.get(&window_id.0) {
            Some(pm) => pm.active_pane(),
            None => None,
        }
    }

    /// Get the pane manager of a window.
    pub fn pane_manager(&self, window_id: SessionWindowId) -> (r: Option<&PaneManager>)
        ensures
            r is Some <==> self@.panes.contains_key(window_id.0),
            r is Some ==> r.unwrap()@ == self@.panes[window_id.0],
    {
        self.pane_managers.get(&window_id.0)
    }

    /// Get the pane manager of a window (mutable).
    pub fn pane_manager_mut(&mut self, window_id: SessionWindowId) -> (r: Option<&mut PaneManager>)
        ensures
            r is Some <==> old(self)@.panes.contains_key(window_id.0),
            r is Some ==> r.unwrap()@ == old(self)@.panes[window_id.0],
            r is Some ==> final(self)@ == (MultiplexerView {
                panes: old(self)@.panes.insert(window_id.0, final(r.unwrap())@),
                ..old(self)@
            }),
            r is None ==> final(self)@ == old(self)@,
    {
        hash_map_get_mut(&mut self.pane_managers, window_id.0)
    }

    /// Get the active pane of the window shown in platform window
    /// `winit_id`.
    pub fn active_pane_for_winit(&self, winit_id: u64) -> (r: Option<PaneId>)
        ensures
            r == (if self@.platform_windows.contains_key(winit_id) && self@.panes.contains_key(
                self@.platform_windows[winit_id],
            ) {
                self@.panes[self@.platform_windows[winit_id]].active_pane
            } else {
                None
            }),
    {
        let window_id = match self.get_window_id(winit_id) {
            Some(w) => w,
            None => return None,
        };
        self.active_pane(window_id)
    }

    /// Get the active window of the attached session.
    pub fn active_window(&self) -> (r: Option<SessionWindowId>)
        ensures
            r == self@.active_window(),
    {
        match self.sessions.attached() {
            Some(session) => session.active_window(),
            None => None,
        }
    }

    /// Select the next window of the attached session.
    pub fn next_window(&mut self) -> (r: Option<SessionWindowId>)
        requires
            old(self)@.sessions.attached() is Some && old(self)@.sessions.attached()->Some_0.windows@.len() > 1
                ==> old(self)@.sessions.attached()->Some_0.active_window_index < usize::MAX,
        ensures
            old(self)@.sessions.next_window_post(final(self)@.sessions, r),
            final(self)@ == old(self)@.with_sessions(final(self)@.sessions),
            old(self)@.wf() ==> final(self)@.wf(),
    {
        self.sessions.next_window()
    }

    /// Select the previous window of the attached session.
    pub fn previous_window(&mut self) -> (r: Option<SessionWindowId>)
        requires
            old(self)@.sessions.attached() is Some && old(self)@.sessions.attached()->Some_0.windows@.len() > 1
                && old(self)@.sessions.attached()->Some_0.active_window_index != 0
                ==> old(self)@.sessions.attached()->Some_0.active_window_index - 1
                < old(self)@.sessions.attached()->Some_0.windows@.len(),
        ensures
            old(self)@.sessions.previous_window_post(final(self)@.sessions, r),
            final(self)@ == old(self)@.with_sessions(final(self)@.sessions),
            old(self)@.wf() ==> final(self)@.wf(),
    {
        self.sessions.previous_window()
    }

    /// Select a window of the attached session by index.
    pub fn select_window(&mut self, index: usize) -> (r: Option<SessionWindowId>)
        ensures
            old(self)@.sessions.select_window_post(final(self)@.sessions, index, r),
            final(self)@ == old(self)@.with_sessions(final(self)@.sessions),
            old(self)@.wf() ==> final(self)@.wf(),
    {
        self.sessions.select_window(index)
    }

    /// Rename the active window of the attached session.
    pub fn rename_window(&mut self, name: &str) -> (r: bool)
        ensures
            old(self)@.rename_window_post(final(self)@, name@, r),
            old(self)@.wf() ==> final(self)@.wf(),
    {
        let window_id = match self.active_window() {
            Some(id) => id,
            None => return false,
        };
        self.sessions.rename_window(window_id, name)
    }

    /// Create a new session.
    pub fn create_session(&mut self, name: &str) -> (r: Result<SessionId, String>)
        requires
            !old(self)@.sessions.names.contains_key(name@) ==> old(self)@.sessions.next_session_id
                < u64::MAX,
        ensures
            old(self)@.sessions.create_session_post(final(self)@.sessions, name@, r),
            final(self)@ == old(self)@.with_sessions(final(self)@.sessions),
            old(self)@.wf() ==> final(self)@.wf(),
    {
        self.sessions.create_session(name)
    }

    /// Attach to the session named `name`.
    pub fn attach_session(&mut self, name: &str) -> (r: Result<(), String>)
        ensures
            old(self)@.attach_session_post(final(self)@, name@, r),
            old(self)@.wf() ==> final(self)@.wf(),
    {
        let session_id = match self.sessions.get_session_by_name(name) {
            Some(s) => s.id,
            None => return Err(not_found_text(name)),
        };
        self.sessions.attach_session(session_id)
    }

    /// Detach from the current session.
    pub fn detach_session(&mut self) -> (r: Option<SessionId>)
        ensures
            old(self)@.sessions.detach_session_post(final(self)@.sessions, r),
            final(self)@ == old(self)@.with_sessions(final(self)@.sessions),
            old(self)@.wf() ==> final(self)@.wf(),
    {
        self.sessions.detach_session()
    }

    /// Kill the session named `name`.
    pub fn kill_session(&mut self, name: &str) -> (r: Result<(), String>)
        ensures
            old(self)@.kill_session_post(final(self)@, name@, r),
            old(self)@.wf() ==> final(self)@.wf(),
    {
        let session_id = match self.sessions.get_session_by_name(name) {
            Some(s) => s.id,
            None => return Err(not_found_text(name)),
        };
        let killed = self.sessions.kill_session(session_id);
        let r: Result<(), String> = Ok(());
        proof {
            assert(old(self)@.sessions.kill_session_post(self@.sessions, session_id, killed));
            assert(old(self)@.kill_session_post(self@, name@, r));
        }
        r
    }

    /// Rename the attached session.
    pub fn rename_session(&mut self, name: &str) -> (r: Result<(), String>)
        ensures
            old(self)@.rename_session_post(final(self)@, name@, r),
            old(self)@.wf() ==> final(self)@.wf(),
    {
        let session_id = match self.sessions.attached_session() {
            Some(id) => id,
            None => return Err(String::from_str("No session attached")),
        };
        self.sessions.rename_session(session_id, name)
    }

    /// The pane that input for a window goes to: the active pane of its
    /// pane tree, if the window and that pane exist.
    pub fn input_pane(&self, window_id: SessionWindowId) -> (r: Option<PaneId>)
        ensures
            r is Some <==> self@.panes.contains_key(window_id.0) && (self@.panes[window_id.0].active_pane
                matches Some(a) && self@.panes[window_id.0].panes.contains_key(a.0)),
            r is Some ==> r == self@.panes[window_id.0].active_pane,
    {
        match self.pane_managers.get(&window_id.0) {
            Some(pm) => match pm.active() {
                Some(_) => pm.active_pane(),
                None => None,
            },
            None => None,
        }
    }

    /// Get the number of windows with a pane tree.
    pub fn window_count(&self) -> (n: usize)
        ensures
            n == self@.panes.len(),
    {
        self.pane_managers.len()
    }

    /// Check if there are any windows with a pane tree.
    pub fn has_windows(&self) -> (r: bool)
        ensures
            r == (self@.panes.len() > 0),
    {
        !self.pane_managers.is_empty()
    }

    /// Get the ids of all windows with a pane tree, each once.
    pub fn window_ids(&self) -> (r: Vec<SessionWindowId>)
        ensures
            r@.len() == self@.panes.len(),
            r@.no_duplicates(),
            forall|w: SessionWindowId| r@.contains(w) <==> self@.panes.contains_key(w.0),
    {
        let ghost all = vstd::std_specs::hash::spec_keys_iter(&self.pane_managers).remaining();
        let mut out: Vec<SessionWindowId> = Vec::new();
        for k in it: self.pane_managers.keys()
            invariant
                it.seq() == all,
                all.unref().to_set() == self@.panes.dom(),
                all.no_duplicates(),
                all.len() == self@.panes.dom().len(),
                out@ == all.take(it.index()).map_values(|k: &u64| SessionWindowId(*k)),
        {
            out.push(SessionWindowId(*k));
            assert(out@ =~= all.take(it.index() + 1).map_values(|k: &u64| SessionWindowId(*k)));
        }
        proof {
            assert(all.take(all.len() as int) =~= all);
            assert forall|w: SessionWindowId| out@.contains(w) <==> self@.panes.contains_key(w.0) by {
                if self@.panes.contains_key(w.0) {
                    assert(all.unref().to_set().contains(w.0));
                    let j = choose|j: int| 0 <= j < all.unref().len() && all.unref()[j] == w.0;
                    assert(out@[j] == w);
                }
                if out@.contains(w) {
                    let j = choose|j: int| 0 <= j < out@.len() && out@[j] == w;
                    assert(all.unref()[j] == w.0);
                    assert(all.unref().to_set().contains(w.0));
                }
            }
            assert forall|a: int, b: int| 0 <= a < b < out@.len() implies out@[a] != out@[b] by {
                assert(all[a] != all[b]);
            }
        }
        out
    }

    /// List all sessions, one line each: `*` for the attached session,
    /// the name, the window count and the session's age. Without sessions,
    /// a fixed message.
    pub fn list_sessions(&self) -> (r: String)
        ensures
            self@.sessions.sessions.len() == 0 ==> r@ == no_sessions_text(),
            self@.sessions.sessions.len() > 0 ==> exists|order: Seq<Session>, ages: Seq<(u64, u32)>|
                {
                    &&& self@.sessions.is_listing(order)
                    &&& ages.len() == order.len()
                    &&& forall|i: int| 0 <= i < ages.len() ==> ages[i].1 < 1_000_000_000
                    &&& r@ == #[trigger] session_lines(order, age_texts(ages))
                },
    {
        let sessions = self.sessions.list_sessions();
        if sessions.len() == 0 {
            return String::from_str("no server running on /tmp/cmux");
        }
        let ghost order = sessions@.unref();
        let ghost mut ages: Seq<(u64, u32)> = Seq::empty();
        let mut output = String::new();
        let mut i: usize = 0;
        while i < sessions.len()
            invariant
                i <= sessions@.len(),
                order == sessions@.unref(),
                ages.len() == i,
                forall|j: int| 0 <= j < ages.len() ==> ages[j].1 < 1_000_000_000,
                output@ == session_lines(order.take(i as int), age_texts(ages)),
            decreases sessions@.len() - i,
        {
            let session = sessions[i];
            let window_count = session.window_count();
            let age = elapsed_since(&session.created_at);
            let secs = duration_seconds(&age);
            let nanos = duration_subsec_nanos(&age);
            let created_text = duration_debug_text(secs, nanos);
            let line = format_session_line(
                session.is_attached,
                session.name.as_str(),
                window_count,
                created_text.as_str(),
            );
            output.append(line.as_str());
            proof {
                let ghost prev = ages;
                ages = ages.push((secs, nanos));
                assert(order.take(i + 1).drop_last() =~= order.take(i as int));
                assert(age_texts(ages).drop_last() =~= age_texts(prev));
                assert(order.take(i + 1).last() == *sessions@[i as int]);
            }
            i = i + 1;
            assert(output@ =~= session_lines(order.take(i as int), age_texts(ages)));
        }
        proof {
            assert(order.take(i as int) =~= order);
        }
        output
    }

    /// Handle a multiplexer event by performing the operation it names.
    /// Creating windows and splitting panes need a terminal, which only the
    /// embedding program can provide: they are not performed here.
    pub fn handle_event(&mut self, event: MultiplexerEvent) -> (r: Option<MultiplexerResult>)
        requires
            old(self)@.wf(),
            old(self)@.event_allowed(event),
        ensures
            old(self)@.handle_event_post(final(self)@, event, r),
            final(self)@.wf(),
    {
        let ghost o = self@;
        let ghost ev = event;
        match event {
            MultiplexerEvent::CreateSession { name } => {
                let c = self.create_session(name.as_str());
                proof {
                    assert(o.sessions.create_session_post(self@.sessions, name@, c));
                }
                match c {
                    Ok(id) => Some(MultiplexerResult::SessionCreated(id)),
                    Err(e) => Some(MultiplexerResult::Error(e)),
                }
            },
            MultiplexerEvent::AttachSession { name } => {
                let c = self.attach_session(name.as_str());
                proof {
                    assert(o.attach_session_post(self@, name@, c));
                }
                match c {
                    Ok(()) => Some(MultiplexerResult::Success),
                    Err(e) => Some(MultiplexerResult::Error(e)),
                }
            },
            MultiplexerEvent::DetachSession => {
                let d = self.detach_session();
                proof {
                    assert(o.sessions.detach_session_post(self@.sessions, d));
                }
                Some(MultiplexerResult::ShouldExit)
            },
            MultiplexerEvent::KillSession { name } => {
                let c = self.kill_session(name.as_str());
                proof {
                    assert(o.kill_session_post(self@, name@, c));
                }
                match c {
                    Ok(()) => Some(MultiplexerResult::Success),
                    Err(e) => Some(MultiplexerResult::Error(e)),
                }
            },
            MultiplexerEvent::RenameSession { name } => {
                let c = self.rename_session(name.as_str());
                proof {
                    assert(o.rename_session_post(self@, name@, c));
                }
                match c {
                    Ok(()) => Some(MultiplexerResult::Success),
                    Err(e) => Some(MultiplexerResult::Error(e)),
                }
            },
            MultiplexerEvent::CreateWindow { session_id: _ } => Some(MultiplexerResult::Success),
            MultiplexerEvent::CloseWindow { window_id } => {
                let k = self.close_window(window_id);
                proof {
                    assert(o.close_window_post(self@, window_id, k));
                }
                Some(MultiplexerResult::Success)
            },
            MultiplexerEvent::NextWindow { session_id: _ } => {
                let w = self.next_window();
                proof {
                    assert(o.sessions.next_window_post(self@.sessions, w));
                }
                Some(MultiplexerResult::Success)
            },
            MultiplexerEvent::PreviousWindow { session_id: _ } => {
                let w = self.previous_window();
                proof {
                    assert(o.sessions.previous_window_post(self@.sessions, w));
                }
                Some(MultiplexerResult::Success)
            },
            MultiplexerEvent::SelectWindow { session_id: _, index } => {
                let w = self.select_window(index);
                proof {
                    assert(o.sessions.select_window_post(self@.sessions, index, w));
                }
                Some(MultiplexerResult::Success)
            },
            MultiplexerEvent::RenameWindow { window_id, name } => {
                let k = self.sessions.rename_window(window_id, name.as_str());
                proof {
                    assert(o.sessions.rename_window_post(self@.sessions, window_id, name@, k));
                }
                Some(MultiplexerResult::Success)
            },
            MultiplexerEvent::SplitPane { window_id: _, direction: _ } => None,
            MultiplexerEvent::NavigatePane { window_id, direction } => {
                let p = self.navigate_pane(window_id, direction);
                proof {
                    assert(o.navigate_pane_post(self@, window_id, direction, p));
                }
                Some(MultiplexerResult::Success)
            },
            MultiplexerEvent::ClosePane { window_id } => {
                let k = self.close_pane(window_id);
                proof {
                    assert(o.close_pane_post(self@, window_id, k));
                }
                Some(MultiplexerResult::Success)
            },
        }
    }
}

} // verus!
