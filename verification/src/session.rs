//! Session management: sessions are collections of windows that can be
//! attached and detached, and windows are lists of panes.

use vstd::prelude::*;
use vstd::hash_map::StringHashMap;
use vstd::std_specs::iter::IteratorSpec;
use std::collections::HashMap;
use std::path::PathBuf;
use std::time::SystemTime;

use crate::pane::PaneId;
use crate::sys::{system_time_now, hash_map_get_mut};

verus! {

/// Unique identifier for a session.
#[derive(Debug, Clone, Copy, PartialEq, Eq, Hash, Structural)]
pub struct SessionId(pub u64);

impl From<SessionId> for u64 {
    fn from(id: SessionId) -> (r: u64) {
        id.0
    }
}

impl vstd::std_specs::convert::FromSpecImpl<SessionId> for u64 {
    open spec fn obeys_from_spec() -> bool {
        true
    }

    open spec fn from_spec(v: SessionId) -> u64 {
        v.0
    }
}

impl From<u64> for SessionId {
    fn from(id: u64) -> (r: SessionId) {
        SessionId(id)
    }
}

impl vstd::std_specs::convert::FromSpecImpl<u64> for SessionId {
    open spec fn obeys_from_spec() -> bool {
        true
    }

    open spec fn from_spec(v: u64) -> SessionId {
        SessionId(v)
    }
}

/// Window identifier within a session.
#[derive(Debug, Clone, Copy, PartialEq, Eq, Hash, Structural)]
pub struct SessionWindowId(pub u64);

impl From<SessionWindowId> for u64 {
    fn from(id: SessionWindowId) -> (r: u64) {
        id.0
    }
}

impl vstd::std_specs::convert::FromSpecImpl<SessionWindowId> for u64 {
    open spec fn obeys_from_spec() -> bool {
        true
    }

    open spec fn from_spec(v: SessionWindowId) -> u64 {
        v.0
    }
}

impl From<u64> for SessionWindowId {
    fn from(id: u64) -> (r: SessionWindowId) {
        SessionWindowId(id)
    }
}

impl vstd::std_specs::convert::FromSpecImpl<u64> for SessionWindowId {
    open spec fn obeys_from_spec() -> bool {
        true
    }

    open spec fn from_spec(v: u64) -> SessionWindowId {
        SessionWindowId(v)
    }
}

/// The first position of `x` in `s`, if it occurs.
pub open spec fn first_position<T>(s: Seq<T>, x: T) -> int {
    choose|i: int| 0 <= i < s.len() && s[i] == x && forall|j: int| 0 <= j < i ==> s[j] != x
}

/// `i` is the first position at which `x` occurs in `s`.
pub open spec fn is_first_position<T>(s: Seq<T>, x: T, i: int) -> bool {
    &&& 0 <= i < s.len()
    &&& s[i] == x
    &&& forall|j: int| 0 <= j < i ==> s[j] != x
}

/// An element that occurs has a first position, and `first_position`
/// names it.
pub proof fn lemma_first_position<T>(s: Seq<T>, x: T)
    requires
        s.contains(x),
    ensures
        is_first_position(s, x, first_position(s, x)),
    decreases s.len(),
{
    if s[0] == x {
        assert(is_first_position(s, x, 0));
    } else {
        let t = s.drop_first();
        let k = choose|k: int| 0 <= k < s.len() && s[k] == x;
        assert(t[k - 1] == x);
        lemma_first_position(t, x);
        let i = first_position(t, x);
        assert forall|j: int| 0 <= j < i + 1 implies s[j] != x by {
            if j > 0 {
                assert(s[j] == t[j - 1]);
            }
        }
        assert(is_first_position(s, x, i + 1));
    }
}

/// A first position is unique.
pub proof fn lemma_first_position_unique<T>(s: Seq<T>, x: T, i: int)
    requires
        is_first_position(s, x, i),
    ensures
        first_position(s, x) == i,
{
    let j = first_position(s, x);
    assert(is_first_position(s, x, j));
}

/// Finds the first position of `w` in `ws`.
fn position_of_window(ws: &Vec<SessionWindowId>, w: SessionWindowId) -> (r: Option<usize>)
    ensures
        match r {
            Some(i) => is_first_position(ws@, w, i as int),
            None => !ws@.contains(w),
        },
{
    let mut i: usize = 0;
    while i < ws.len()
        invariant
            i <= ws.len(),
            forall|j: int| 0 <= j < i ==> ws@[j] != w,
        decreases ws.len() - i,
    {
        if ws[i].0 == w.0 {
            return Some(i);
        }
        i = i + 1;
    }
    None
}

/// Finds the first position of `p` in `ps`.
fn position_of_pane(ps: &Vec<PaneId>, p: PaneId) -> (r: Option<usize>)
    ensures
        match r {
            Some(i) => is_first_position(ps@, p, i as int),
            None => !ps@.contains(p),
        },
{
    let mut i: usize = 0;
    while i < ps.len()
        invariant
            i <= ps.len(),
            forall|j: int| 0 <= j < i ==> ps@[j] != p,
        decreases ps.len() - i,
    {
        if ps[i].0 == p.0 {
            return Some(i);
        }
        i = i + 1;
    }
    None
}

/// Session information.
#[derive(Debug, Clone)]
pub struct Session {
    /// Session ID.
    pub id: SessionId,
    /// Session name.
    pub name: String,
    /// When the session was created.
    pub created_at: SystemTime,
    /// When the session was last attached.
    pub last_attached: Option<SystemTime>,
    /// Whether the session is currently attached.
    pub is_attached: bool,
    /// IDs of windows in this session.
    pub windows: Vec<SessionWindowId>,
    /// Currently active window index.
    pub active_window_index: usize,
    /// Whether this session should be killed when detached.
    pub kill_on_detach: bool,
    /// Working directory for new windows.
    pub working_directory: Option<PathBuf>,
    /// Environment variables.
    pub environment: HashMap<String, String>,
}

impl Session {
    /// A session as it is right after creation, whatever its timestamp.
    pub open spec fn is_fresh(self, id: SessionId, name: Seq<char>) -> bool {
        &&& self.id == id
        &&& self.name@ == name
        &&& self.last_attached is None
        &&& !self.is_attached
        &&& self.windows@ == Seq::<SessionWindowId>::empty()
        &&& self.active_window_index == 0
        &&& !self.kill_on_detach
        &&& self.working_directory is None
        &&& self.environment@ == Map::<String, String>::empty()
    }

    /// `self` and `other` agree on everything but the window list and the
    /// active window index.
    pub open spec fn same_but_windows(self, other: Session) -> bool {
        &&& self.id == other.id
        &&& self.name@ == other.name@
        &&& self.created_at == other.created_at
        &&& self.last_attached == other.last_attached
        &&& self.is_attached == other.is_attached
        &&& self.kill_on_detach == other.kill_on_detach
        &&& self.working_directory == other.working_directory
        &&& self.environment@ == other.environment@
    }

    /// The active window of a session: the window at the active index.
    pub open spec fn spec_active_window(self) -> Option<SessionWindowId> {
        if self.active_window_index < self.windows@.len() {
            Some(self.windows@[self.active_window_index as int])
        } else {
            None
        }
    }

    /// The active index after the window list has shrunk to `len` entries:
    /// it is pulled back onto the last window if it ran past the end.
    pub open spec fn clamped_index(index: usize, len: nat) -> usize {
        if len > 0 && index >= len {
            (len - 1) as usize
        } else {
            index
        }
    }

    /// The session with the first occurrence of window `w` removed.
    pub open spec fn without_window(self, other: Session, w: SessionWindowId) -> bool {
        let i = first_position(self.windows@, w);
        &&& other.same_but_windows(self)
        &&& other.windows@ == self.windows@.remove(i)
        &&& other.active_window_index == Self::clamped_index(
            self.active_window_index,
            (self.windows@.len() - 1) as nat,
        )
    }

    /// Create a new session.
    pub fn new(id: SessionId, name: &str) -> (s: Self)
        ensures
            s.is_fresh(id, name@),
    {
        Self {
            id,
            name: String::from_str(name),
            created_at: system_time_now(),
            last_attached: None,
            is_attached: false,
            windows: Vec::new(),
            active_window_index: 0,
            kill_on_detach: false,
            working_directory: None,
            environment: HashMap::new(),
        }
    }

    /// Get the active window ID.
    pub fn active_window(&self) -> (r: Option<SessionWindowId>)
        ensures
            r == self.spec_active_window(),
    {
        if self.active_window_index < self.windows.len() {
            Some(self.windows[self.active_window_index])
        } else {
            None
        }
    }

    /// Set the active window.
    pub fn set_active_window(&mut self, window_id: SessionWindowId) -> (r: bool)
        ensures
            r == old(self).windows@.contains(window_id),
            r ==> is_first_position(
                old(self).windows@,
                window_id,
                final(self).active_window_index as int,
            ),
            final(self).windows@ == old(self).windows@,
            final(self).same_but_windows(*old(self)),
            !r ==> *final(self) == *old(self),
    {
        match position_of_window(&self.windows, window_id) {
            Some(index) => {
                self.active_window_index = index;
                true
            },
            None => false,
        }
    }

    /// Add a window to the session; returns its index.
    pub fn add_window(&mut self, window_id: SessionWindowId) -> (index: usize)
        ensures
            final(self).windows@ == old(self).windows@.push(window_id),
            final(self).active_window_index == old(self).active_window_index,
            final(self).same_but_windows(*old(self)),
            index as int == old(self).windows@.len(),
    {
        self.windows.push(window_id);
        self.windows.len() - 1
    }

    /// Remove a window from the session.
    pub fn remove_window(&mut self, window_id: SessionWindowId) -> (r: bool)
        ensures
            r == old(self).windows@.contains(window_id),
            r ==> old(self).without_window(*final(self), window_id),
            !r ==> *final(self) == *old(self),
    {
        match position_of_window(&self.windows, window_id) {
            Some(index) => {
                self.windows.remove(index);
                if !self.windows.is_empty() && self.active_window_index >= self.windows.len() {
                    self.active_window_index = self.windows.len() - 1;
                }
                true
            },
            None => false,
        }
    }

    /// Get the number of windows.
    pub fn window_count(&self) -> (n: usize)
        ensures
            n == self.windows@.len(),
    {
        self.windows.len()
    }

    /// Mark the session as attached.
    pub fn attach(&mut self)
        ensures
            final(self).last_attached is Some,
            *final(self) == old(self).attached_at(final(self).last_attached),
    {
        self.is_attached = true;
        self.last_attached = Some(system_time_now());
    }

    /// Mark the session as detached.
    pub fn detach(&mut self)
        ensures
            *final(self) == old(self).detached(),
    {
        self.is_attached = false;
    }
}

/// Window information.
#[derive(Debug, Clone)]
pub struct Window {
    /// Window ID.
    pub id: SessionWindowId,
    /// Window name/title.
    pub name: String,
    /// Session this window belongs to.
    pub session_id: SessionId,
    /// Pane IDs in this window.
    pub panes: Vec<PaneId>,
    /// Currently active pane.
    pub active_pane: Option<PaneId>,
    /// Window index within the session.
    pub index: usize,
    /// Whether the window is zoomed (one pane fills the window).
    pub is_zoomed: bool,
    /// When the window was created.
    pub created_at: SystemTime,
    /// Whether this window has activity since last viewed.
    pub has_activity: bool,
    /// Whether this window has a bell since last viewed.
    pub has_bell: bool,
    /// Whether this window is silent (no activity).
    pub is_silent: bool,
}

impl Window {
    /// A window as it is right after creation, whatever its timestamp and
    /// its index in its session.
    pub open spec fn is_fresh(self, id: SessionWindowId, name: Seq<char>, session_id: SessionId) -> bool {
        &&& self.id == id
        &&& self.name@ == name
        &&& self.session_id == session_id
        &&& self.panes@ == Seq::<PaneId>::empty()
        &&& self.active_pane is None
        &&& !self.is_zoomed
        &&& !self.has_activity
        &&& !self.has_bell
        &&& !self.is_silent
    }

    /// `self` and `other` agree on everything but the pane list and the
    /// active pane.
    pub open spec fn same_but_panes(self, other: Window) -> bool {
        &&& self.id == other.id
        &&& self.name@ == other.name@
        &&& self.session_id == other.session_id
        &&& self.index == other.index
        &&& self.is_zoomed == other.is_zoomed
        &&& self.created_at == other.created_at
        &&& self.has_activity == other.has_activity
        &&& self.has_bell == other.has_bell
        &&& self.is_silent == other.is_silent
    }

    /// `self` and `other` agree on everything but the name.
    pub open spec fn same_but_name(self, other: Window) -> bool {
        &&& self.id == other.id
        &&& self.session_id == other.session_id
        &&& self.panes@ == other.panes@
        &&& self.active_pane == other.active_pane
        &&& self.index == other.index
        &&& self.is_zoomed == other.is_zoomed
        &&& self.created_at == other.created_at
        &&& self.has_activity == other.has_activity
        &&& self.has_bell == other.has_bell
        &&& self.is_silent == other.is_silent
    }

    /// Create a new window.
    pub fn new(id: SessionWindowId, name: &str, session_id: SessionId) -> (w: Self)
        ensures
            w.is_fresh(id, name@, session_id),
            w.index == 0,
    {
        Self {
            id,
            name: String::from_str(name),
            session_id,
            panes: Vec::new(),
            active_pane: None,
            index: 0,
            is_zoomed: false,
            created_at: system_time_now(),
            has_activity: false,
            has_bell: false,
            is_silent: false,
        }
    }

    /// Add a pane to the window; the first pane added becomes active.
    pub fn add_pane(&mut self, pane_id: PaneId)
        ensures
            final(self).panes@ == old(self).panes@.push(pane_id),
            final(self).active_pane == (match old(self).active_pane {
                Some(p) => Some(p),
                None => Some(pane_id),
            }),
            final(self).same_but_panes(*old(self)),
    {
        self.panes.push(pane_id);
        if self.active_pane.is_none() {
            self.active_pane = Some(pane_id);
        }
    }

    /// Remove a pane from the window. If it was the active pane, the first
    /// remaining pane becomes active.
    pub fn remove_pane(&mut self, pane_id: PaneId) -> (r: bool)
        ensures
            r == old(self).panes@.contains(pane_id),
            r ==> {
                let i = first_position(old(self).panes@, pane_id);
                let rest = old(self).panes@.remove(i);
                &&& final(self).panes@ == rest
                &&& final(self).active_pane == (if old(self).active_pane == Some(pane_id) {
                    if rest.len() > 0 { Some(rest[0]) } else { None::<PaneId> }
                } else {
                    old(self).active_pane
                })
                &&& final(self).same_but_panes(*old(self))
            },
            !r ==> *final(self) == *old(self),
    {
        match position_of_pane(&self.panes, pane_id) {
            Some(index) => {
                self.panes.remove(index);
                let is_active = match self.active_pane {
                    Some(a) => a.0 == pane_id.0,
                    None => false,
                };
                if is_active {
                    self.active_pane = if self.panes.len() > 0 { Some(self.panes[0]) } else { None };
                }
                true
            },
            None => false,
        }
    }

    /// Get the number of panes.
    pub fn pane_count(&self) -> (n: usize)
        ensures
            n == self.panes@.len(),
    {
        self.panes.len()
    }
}

/// The abstract state of a [`SessionManager`].
#[verifier::ext_equal]
pub struct SessionManagerView {
    /// Sessions by the number inside their id.
    pub sessions: Map<u64, Session>,
    /// Windows by the number inside their id.
    pub windows: Map<u64, Window>,
    /// Session names, as character sequences, to session ids.
    pub names: Map<Seq<char>, SessionId>,
    /// The number the next session id will carry.
    pub next_session_id: u64,
    /// The number the next window id will carry.
    pub next_window_id: u64,
    /// The attached session, if any.
    pub attached_session: Option<SessionId>,
    /// Where sessions would be persisted.
    pub storage_path: Option<PathBuf>,
}

/// The numbers inside the window ids of `ws`.
pub open spec fn window_keys(ws: Seq<SessionWindowId>) -> Set<u64> {
    Set::new(|k: u64| exists|j: int| 0 <= j < ws.len() && ws[j].0 == k)
}

/// Appending a window adds its number to the window keys.
proof fn lemma_window_keys_push(ws: Seq<SessionWindowId>, w: SessionWindowId)
    ensures
        window_keys(ws.push(w)) == window_keys(ws).insert(w.0),
{
    let ws2 = ws.push(w);
    assert forall|k: u64| #[trigger] window_keys(ws2).contains(k) implies window_keys(ws).insert(
        w.0,
    ).contains(k) by {
        let j = choose|j: int| 0 <= j < ws2.len() && ws2[j].0 == k;
        if j < ws.len() {
            assert(ws[j].0 == k);
        }
    }
    assert forall|k: u64| #[trigger] window_keys(ws).insert(w.0).contains(k) implies window_keys(
        ws2,
    ).contains(k) by {
        if k == w.0 {
            assert(ws2[ws.len() as int].0 == k);
        } else {
            let j = choose|j: int| 0 <= j < ws.len() && ws[j].0 == k;
            assert(ws2[j].0 == k);
        }
    }
    assert(window_keys(ws2) =~= window_keys(ws).insert(w.0));
}

impl Session {
    /// The session with its attachment flag cleared.
    pub open spec fn detached(self) -> Session {
        Session { is_attached: false, ..self }
    }

    /// The session marked attached, with `t` as its last attachment time.
    pub open spec fn attached_at(self, t: Option<SystemTime>) -> Session {
        Session { is_attached: true, last_attached: t, ..self }
    }

    /// The session with another name.
    pub open spec fn same_but_name(self, other: Session) -> bool {
        &&& self.id == other.id
        &&& self.created_at == other.created_at
        &&& self.last_attached == other.last_attached
        &&& self.is_attached == other.is_attached
        &&& self.windows == other.windows
        &&& self.active_window_index == other.active_window_index
        &&& self.kill_on_detach == other.kill_on_detach
        &&& self.working_directory == other.working_directory
        &&& self.environment == other.environment
    }

    /// `other` is `self` after `remove_window(w)`.
    pub open spec fn after_window_removal(self, other: Session, w: SessionWindowId) -> bool {
        if self.windows@.contains(w) {
            self.without_window(other, w)
        } else {
            other == self
        }
    }

    /// The session with another active window index.
    pub open spec fn with_active_index(self, i: usize) -> Session {
        Session { active_window_index: i, ..self }
    }
}

impl SessionManagerView {
    /// The state of a new manager: no sessions, windows or names, both id
    /// counters at one, nothing attached, no storage path.
    pub open spec fn initial() -> SessionManagerView {
        SessionManagerView {
            sessions: Map::empty(),
            windows: Map::empty(),
            names: Map::empty(),
            next_session_id: 1,
            next_window_id: 1,
            attached_session: None,
            storage_path: None,
        }
    }

    /// `ss` lists the sessions of the keys `ks`, in that order, where `ks`
    /// holds every key once.
    pub open spec fn lists_keys(self, ss: Seq<Session>, ks: Seq<u64>) -> bool {
        &&& ks.no_duplicates()
        &&& ks.to_set() == self.sessions.dom()
        &&& ss.len() == ks.len()
        &&& forall|i: int| 0 <= i < ss.len() ==> ss[i] == self.sessions[ks[i]]
    }

    /// `ss` lists every session once, in some order.
    pub open spec fn is_listing(self, ss: Seq<Session>) -> bool {
        exists|ks: Seq<u64>| #[trigger] self.lists_keys(ss, ks)
    }

    /// The state after session `id` has been killed: the session, its name
    /// and its windows are gone, and it is no longer attached.
    pub open spec fn after_kill(self, id: u64) -> SessionManagerView {
        let s = self.sessions[id];
        SessionManagerView {
            sessions: self.sessions.remove(id),
            windows: self.windows.remove_keys(window_keys(s.windows@)),
            names: self.names.remove(s.name@),
            attached_session: if self.attached_session == Some(SessionId(id)) {
                None
            } else {
                self.attached_session
            },
            ..self
        }
    }

    /// The state with session `id` replaced by `s`.
    pub open spec fn with_session(self, id: u64, s: Session) -> SessionManagerView {
        SessionManagerView { sessions: self.sessions.insert(id, s), ..self }
    }

    /// The attached session, if one is attached and still exists.
    pub open spec fn attached(self) -> Option<Session> {
        match self.attached_session {
            Some(id) => if self.sessions.contains_key(id.0) {
                Some(self.sessions[id.0])
            } else {
                None
            },
            None => None,
        }
    }

    /// The manager's invariant: finitely many sessions and windows; ids
    /// match their keys and lie below the next id; names and sessions correspond one to one; each window belongs to
    /// exactly the session that lists it, once; the attached session exists
    /// and is the only one marked attached.
    pub open spec fn wf(self) -> bool {
        &&& self.sessions.dom().finite()
        &&& self.windows.dom().finite()
        &&& self.next_session_id >= 1
        &&& self.next_window_id >= 1
        &&& forall|k: u64| #[trigger] self.sessions.contains_key(k) ==> {
            &&& self.sessions[k].id == SessionId(k)
            &&& 1 <= k < self.next_session_id
            &&& self.names.contains_key(self.sessions[k].name@)
            &&& self.names[self.sessions[k].name@] == SessionId(k)
            &&& self.sessions[k].windows@.no_duplicates()
            &&& (self.sessions[k].is_attached <==> self.attached_session == Some(SessionId(k)))
        }
        &&& forall|n: Seq<char>| #[trigger] self.names.contains_key(n) ==> {
            &&& self.sessions.contains_key(self.names[n].0)
            &&& self.sessions[self.names[n].0].name@ == n
        }
        &&& forall|w: u64| #[trigger] self.windows.contains_key(w) ==> {
            &&& self.windows[w].id == SessionWindowId(w)
            &&& 1 <= w < self.next_window_id
            &&& self.sessions.contains_key(self.windows[w].session_id.0)
            &&& self.sessions[self.windows[w].session_id.0].windows@.contains(SessionWindowId(w))
        }
        &&& forall|k: u64, i: int|
            #![trigger self.sessions[k].windows@[i]]
            self.sessions.contains_key(k) && 0 <= i < self.sessions[k].windows@.len() ==> {
                &&& self.windows.contains_key(self.sessions[k].windows@[i].0)
                &&& self.windows[self.sessions[k].windows@[i].0].session_id == SessionId(k)
            }
        &&& self.attached_session matches Some(a) ==> self.sessions.contains_key(a.0)
    }

    /// The outcome of `create_session`: how the state and the result relate.
    pub open spec fn create_session_post(self, post: SessionManagerView, name: Seq<char>, r: Result<SessionId, String>) -> bool {
        &&& (r is Err <==> self.names.contains_key(name))
        &&& (r is Err ==> r->Err_0@ == SessionManagerView::exists_message(name))
        &&& (r is Err ==> post =~= self)
        &&& (r is Ok ==> {
            let id = self.next_session_id;
            &&& r->Ok_0 == SessionId(id)
            &&& post.sessions.dom() =~= self.sessions.dom().insert(id)
            &&& post.sessions[id].is_fresh(SessionId(id), name)
            &&& forall|k: u64| k != id && self.sessions.contains_key(k)
                ==> #[trigger] post.sessions[k] == self.sessions[k]
            &&& post.names =~= self.names.insert(name, SessionId(id))
            &&& post.next_session_id == id + 1
            &&& self.wf() ==> post.sessions.len() == self.sessions.len() + 1
            &&& post.windows =~= self.windows
            &&& post.next_window_id == self.next_window_id
            &&& post.attached_session == self.attached_session
            &&& post.storage_path == self.storage_path
        })
    }

    /// The outcome of `kill_session`: how the state and the result relate.
    pub open spec fn kill_session_post(self, post: SessionManagerView, id: SessionId, r: bool) -> bool {
        &&& (r == self.sessions.contains_key(id.0))
        &&& (r ==> post =~= self.after_kill(id.0))
        &&& (r ==> post.sessions.len() + 1 == self.sessions.len())
        &&& (!r ==> post =~= self)
    }

    /// The outcome of `rename_session`: how the state and the result relate.
    pub open spec fn rename_session_post(self, post: SessionManagerView, id: SessionId, new_name: Seq<char>, r: Result<(), String>) -> bool {
        &&& (self.names.contains_key(new_name) ==> r is Err && r->Err_0@
            == SessionManagerView::exists_message(new_name))
        &&& (!self.names.contains_key(new_name) && !self.sessions.contains_key(id.0)
            ==> r is Err && r->Err_0@ == "Session not found"@)
        &&& (r is Err ==> post =~= self)
        &&& (r is Ok <==> !self.names.contains_key(new_name) && self.sessions.contains_key(
            id.0,
        ))
        &&& (r is Ok ==> {
            let s = self.sessions[id.0];
            &&& post.names =~= self.names.remove(s.name@).insert(new_name, id)
            &&& post.sessions.dom() =~= self.sessions.dom()
            &&& post.sessions[id.0].name@ == new_name
            &&& post.sessions[id.0].same_but_name(s)
            &&& forall|k: u64| k != id.0 && self.sessions.contains_key(k)
                ==> #[trigger] post.sessions[k] == self.sessions[k]
            &&& post.windows =~= self.windows
            &&& post.next_session_id == self.next_session_id
            &&& post.next_window_id == self.next_window_id
            &&& post.attached_session == self.attached_session
            &&& post.storage_path == self.storage_path
        })
    }

    /// The outcome of `create_window`: how the state and the result relate.
    pub open spec fn create_window_post(self, post: SessionManagerView, session_id: SessionId, name: Seq<char>, r: Option<SessionWindowId>) -> bool {
        &&& (r is Some <==> self.sessions.contains_key(session_id.0))
        &&& (r is None ==> post =~= self)
        &&& (r is Some ==> {
            let w = self.next_window_id;
            let s = self.sessions[session_id.0];
            let s2 = post.sessions[session_id.0];
            &&& r == Some(SessionWindowId(w))
            &&& post.windows.dom() =~= self.windows.dom().insert(w)
            &&& post.windows[w].is_fresh(SessionWindowId(w), name, session_id)
            &&& post.windows[w].index == s.windows@.len()
            &&& self.wf() ==> post.windows.len() == self.windows.len() + 1
            &&& forall|k: u64| k != w && self.windows.contains_key(k)
                ==> #[trigger] post.windows[k] == self.windows[k]
            &&& post.sessions.dom() =~= self.sessions.dom()
            &&& s2.windows@ == s.windows@.push(SessionWindowId(w))
            &&& s2.active_window_index == s.active_window_index
            &&& s2.same_but_windows(s)
            &&& forall|k: u64| k != session_id.0 && self.sessions.contains_key(k)
                ==> #[trigger] post.sessions[k] == self.sessions[k]
            &&& post.next_window_id == w + 1
            &&& post.names =~= self.names
            &&& post.next_session_id == self.next_session_id
            &&& post.attached_session == self.attached_session
            &&& post.storage_path == self.storage_path
        })
    }

    /// The outcome of `kill_window`: how the state and the result relate.
    pub open spec fn kill_window_post(self, post: SessionManagerView, id: SessionWindowId, r: bool) -> bool {
        &&& (r == self.windows.contains_key(id.0))
        &&& (!r ==> post =~= self)
        &&& (r ==> {
            let sid = self.windows[id.0].session_id.0;
            let v1 = SessionManagerView { windows: self.windows.remove(id.0), ..self };
            if !self.sessions.contains_key(sid) {
                post =~= v1
            } else {
                let s = self.sessions[sid];
                let remaining = if s.windows@.contains(id) {
                    s.windows@.remove(first_position(s.windows@, id))
                } else {
                    s.windows@
                };
                if remaining.len() == 0 && s.kill_on_detach {
                    post =~= v1.after_kill(sid)
                } else {
                    &&& post.sessions.dom() =~= self.sessions.dom()
                    &&& s.after_window_removal(post.sessions[sid], id)
                    &&& forall|k: u64| k != sid && self.sessions.contains_key(k)
                        ==> #[trigger] post.sessions[k] == self.sessions[k]
                    &&& post.windows =~= v1.windows
                    &&& post.names =~= v1.names
                    &&& post.next_session_id == v1.next_session_id
                    &&& post.next_window_id == v1.next_window_id
                    &&& post.attached_session == v1.attached_session
                    &&& post.storage_path == v1.storage_path
                }
            }
        })
    }

    /// The outcome of `rename_window`: how the state and the result relate.
    pub open spec fn rename_window_post(self, post: SessionManagerView, id: SessionWindowId, name: Seq<char>, r: bool) -> bool {
        &&& (r == self.windows.contains_key(id.0))
        &&& (!r ==> post =~= self)
        &&& (r ==> {
            &&& post.windows.dom() =~= self.windows.dom()
            &&& post.windows[id.0].name@ == name
            &&& post.windows[id.0].same_but_name(self.windows[id.0])
            &&& forall|k: u64| k != id.0 && self.windows.contains_key(k)
                ==> #[trigger] post.windows[k] == self.windows[k]
            &&& post.sessions =~= self.sessions
            &&& post.names =~= self.names
            &&& post.next_session_id == self.next_session_id
            &&& post.next_window_id == self.next_window_id
            &&& post.attached_session == self.attached_session
            &&& post.storage_path == self.storage_path
        })
    }

    /// The outcome of `attach_session`: how the state and the result relate.
    pub open spec fn attach_session_post(self, post: SessionManagerView, id: SessionId, r: Result<(), String>) -> bool {
        &&& (r is Ok <==> self.sessions.contains_key(id.0))
        &&& (r is Err ==> r->Err_0@ == "Session not found"@)
        &&& (r is Err ==> post =~= self)
        &&& (r is Ok ==> {
            &&& post.attached_session == Some(id)
            &&& post.sessions.dom() =~= self.sessions.dom()
            &&& post.sessions[id.0].last_attached is Some
            &&& post.sessions[id.0] == self.sessions[id.0].attached_at(
                post.sessions[id.0].last_attached,
            )
            &&& forall|k: u64| k != id.0 && self.sessions.contains_key(k)
                ==> #[trigger] post.sessions[k] == if self.attached_session == Some(
                SessionId(k),
            ) {
                self.sessions[k].detached()
            } else {
                self.sessions[k]
            }
            &&& post.windows =~= self.windows
            &&& post.names =~= self.names
            &&& post.next_session_id == self.next_session_id
            &&& post.next_window_id == self.next_window_id
            &&& post.storage_path == self.storage_path
        })
    }

    /// The outcome of `detach_session`: how the state and the result relate.
    pub open spec fn detach_session_post(self, post: SessionManagerView, r: Option<SessionId>) -> bool {
        &&& (r == self.attached_session)
        &&& (r is None ==> post =~= self)
        &&& (r is Some ==> {
            let sid = r->Some_0.0;
            let v1 = SessionManagerView { attached_session: None, ..self };
            if !self.sessions.contains_key(sid) {
                post =~= v1
            } else if self.sessions[sid].kill_on_detach {
                post =~= self.after_kill(sid)
            } else {
                post =~= v1.with_session(sid, self.sessions[sid].detached())
            }
        })
    }

    /// The outcome of `next_window`: how the state and the result relate.
    pub open spec fn next_window_post(self, post: SessionManagerView, r: Option<SessionWindowId>) -> bool {
        &&& (match self.attached() {
            None => r is None && post =~= self,
            Some(s) => if s.windows@.len() <= 1 {
                r == s.spec_active_window() && post =~= self
            } else {
                let ni = next_index(s.active_window_index, s.windows@.len());
                &&& r == Some(s.windows@[ni as int])
                &&& post =~= self.with_session(
                    self.attached_session->Some_0.0,
                    s.with_active_index(ni),
                )
            },
        })
    }

    /// The outcome of `previous_window`: how the state and the result relate.
    pub open spec fn previous_window_post(self, post: SessionManagerView, r: Option<SessionWindowId>) -> bool {
        &&& (match self.attached() {
            None => r is None && post =~= self,
            Some(s) => if s.windows@.len() <= 1 {
                r == s.spec_active_window() && post =~= self
            } else {
                let ni = previous_index(s.active_window_index, s.windows@.len());
                &&& r == Some(s.windows@[ni as int])
                &&& post =~= self.with_session(
                    self.attached_session->Some_0.0,
                    s.with_active_index(ni),
                )
            },
        })
    }

    /// The outcome of `select_window`: how the state and the result relate.
    pub open spec fn select_window_post(self, post: SessionManagerView, index: usize, r: Option<SessionWindowId>) -> bool {
        &&& (match self.attached() {
            None => r is None && post =~= self,
            Some(s) => if index >= s.windows@.len() {
                r is None && post =~= self
            } else {
                &&& r == Some(s.windows@[index as int])
                &&& post =~= self.with_session(
                    self.attached_session->Some_0.0,
                    s.with_active_index(index),
                )
            },
        })
    }

    /// The message of a refused name.
    pub open spec fn exists_message(name: Seq<char>) -> Seq<char> {
        "Session '"@ + name + "' already exists"@
    }
}

/// The window index after `i` in a list of `len` windows, wrapping around.
pub open spec fn next_index(i: usize, len: nat) -> usize {
    ((i + 1) % (len as int)) as usize
}

/// The window index before `i` in a list of `len` windows, wrapping around.
pub open spec fn previous_index(i: usize, len: nat) -> usize {
    (if i == 0 {
        len - 1
    } else {
        i - 1
    }) as usize
}

/// Selecting the next window and then the previous one returns to the
/// window one started from, and so does the reverse order.
pub proof fn lemma_previous_undoes_next(i: usize, len: nat)
    requires
        len > 1,
        i < len,
        len <= usize::MAX,
    ensures
        previous_index(next_index(i, len), len) == i,
        next_index(previous_index(i, len), len) == i,
{
    if i + 1 < len {
        assert((i + 1) % (len as int) == i + 1) by (nonlinear_arith)
            requires i + 1 < len, i >= 0;
    } else {
        assert((i + 1) % (len as int) == 0) by (nonlinear_arith)
            requires i + 1 == len, len > 0;
    }
    if i == 0 {
        assert(((len - 1) + 1) % (len as int) == 0) by (nonlinear_arith)
            requires len > 0;
    } else {
        assert((i as int) % (len as int) == i) by (nonlinear_arith)
            requires i < len, i >= 0;
    }
}

/// At most one session is attached: a session marked attached is the
/// manager's attached session.
pub proof fn lemma_at_most_one_attached(v: SessionManagerView, a: u64, b: u64)
    requires
        v.wf(),
        v.sessions.contains_key(a),
        v.sessions.contains_key(b),
        v.sessions[a].is_attached,
        v.sessions[b].is_attached,
    ensures
        a == b,
{
    assert(v.sessions.contains_key(a));
    assert(v.sessions.contains_key(b));
}

/// Session names are unique: two sessions with the same name are the same
/// session.
pub proof fn lemma_names_unique(v: SessionManagerView, a: u64, b: u64)
    requires
        v.wf(),
        v.sessions.contains_key(a),
        v.sessions.contains_key(b),
        v.sessions[a].name@ == v.sessions[b].name@,
    ensures
        a == b,
{
    assert(v.sessions.contains_key(a));
    assert(v.sessions.contains_key(b));
}

/// Killing a session just created succeeds and leaves the sessions, names,
/// windows and attached session as they were before it was created.
pub proof fn lemma_kill_undoes_create(
    v: SessionManagerView,
    v1: SessionManagerView,
    v2: SessionManagerView,
    name: Seq<char>,
    id: SessionId,
    r: bool,
)
    requires
        v.wf(),
        v.create_session_post(v1, name, Ok(id)),
        v1.kill_session_post(v2, id, r),
    ensures
        r,
        v2.sessions == v.sessions,
        v2.names == v.names,
        v2.windows == v.windows,
        v2.attached_session == v.attached_session,
{
    let k = id.0;
    assert(!v.sessions.contains_key(k));
    assert(window_keys(v1.sessions[k].windows@) =~= Set::<u64>::empty());
    assert(v2.sessions =~= v.sessions);
    assert(v2.names =~= v.names);
    assert(v2.windows =~= v.windows);
}

/// Detaching right after a successful attach gives back the session that
/// was attached, and leaves no session attached.
pub proof fn lemma_detach_after_attach(
    v: SessionManagerView,
    v1: SessionManagerView,
    v2: SessionManagerView,
    id: SessionId,
    r: Option<SessionId>,
)
    requires
        v.attach_session_post(v1, id, Ok(())),
        v1.detach_session_post(v2, r),
    ensures
        r == Some(id),
        v2.attached_session is None,
        v2.sessions.contains_key(id.0) ==> !v2.sessions[id.0].is_attached,
{
}

impl Session {
    /// `self` holds the same state as `other`: equal fields, strings,
    /// lists and maps compared by their contents.
    pub open spec fn equal_state(self, other: Session) -> bool {
        &&& self.id == other.id
        &&& self.name@ == other.name@
        &&& self.created_at == other.created_at
        &&& self.last_attached == other.last_attached
        &&& self.is_attached == other.is_attached
        &&& self.windows@ == other.windows@
        &&& self.active_window_index == other.active_window_index
        &&& self.kill_on_detach == other.kill_on_detach
        &&& self.working_directory == other.working_directory
        &&& self.environment@ == other.environment@
    }

    /// A copy of the session's state.
    pub fn clone_state(&self) -> (r: Session)
        ensures
            r.equal_state(*self),
    {
        let windows = self.windows.clone();
        proof {
            assert(windows@ =~= self.windows@);
        }
        Session {
            id: self.id,
            name: self.name.clone(),
            created_at: self.created_at,
            last_attached: self.last_attached,
            is_attached: self.is_attached,
            windows,
            active_window_index: self.active_window_index,
            kill_on_detach: self.kill_on_detach,
            working_directory: match &self.working_directory {
                Some(p) => Some(p.clone()),
                None => None,
            },
            environment: self.environment.clone(),
        }
    }
}

impl Window {
    /// `self` holds the same state as `other`: equal fields, strings and
    /// lists compared by their contents.
    pub open spec fn equal_state(self, other: Window) -> bool {
        &&& self.id == other.id
        &&& self.name@ == other.name@
        &&& self.session_id == other.session_id
        &&& self.panes@ == other.panes@
        &&& self.active_pane == other.active_pane
        &&& self.index == other.index
        &&& self.is_zoomed == other.is_zoomed
        &&& self.created_at == other.created_at
        &&& self.has_activity == other.has_activity
        &&& self.has_bell == other.has_bell
        &&& self.is_silent == other.is_silent
    }

    /// A copy of the window's state.
    pub fn clone_state(&self) -> (r: Window)
        ensures
            r.equal_state(*self),
    {
        let panes = self.panes.clone();
        proof {
            assert(panes@ =~= self.panes@);
        }
        Window {
            id: self.id,
            name: self.name.clone(),
            session_id: self.session_id,
            panes,
            active_pane: self.active_pane,
            index: self.index,
            is_zoomed: self.is_zoomed,
            created_at: self.created_at,
            has_activity: self.has_activity,
            has_bell: self.has_bell,
            is_silent: self.is_silent,
        }
    }
}

/// What a session manager persists: its sessions and windows, its id
/// counters and its attached session.
#[derive(Debug)]
pub struct SessionSnapshot {
    pub sessions: Vec<Session>,
    pub windows: Vec<Window>,
    pub next_session_id: u64,
    pub next_window_id: u64,
    pub attached_session: Option<SessionId>,
}

/// The sessions of `ss` by id; where ids repeat, the first wins.
pub open spec fn keyed_sessions(ss: Seq<Session>) -> Map<u64, Session>
    decreases ss.len(),
{
    if ss.len() == 0 {
        Map::empty()
    } else {
        keyed_sessions(ss.drop_first()).insert(ss[0].id.0, ss[0])
    }
}

/// The windows of `ws` by id; where ids repeat, the first wins.
pub open spec fn keyed_windows(ws: Seq<Window>) -> Map<u64, Window>
    decreases ws.len(),
{
    if ws.len() == 0 {
        Map::empty()
    } else {
        keyed_windows(ws.drop_first()).insert(ws[0].id.0, ws[0])
    }
}

/// The names of the sessions of `ss`, each to the id of the first session
/// that carries it.
pub open spec fn session_names_of(ss: Seq<Session>) -> Map<Seq<char>, SessionId>
    decreases ss.len(),
{
    if ss.len() == 0 {
        Map::empty()
    } else {
        session_names_of(ss.drop_first()).insert(ss[0].name@, ss[0].id)
    }
}

impl SessionSnapshot {
    /// The snapshot records the state `v`: each session and window once,
    /// with its state, and the counters and attached session.
    pub open spec fn saved_from(self, v: SessionManagerView) -> bool {
        &&& forall|i: int| 0 <= i < self.sessions@.len() ==> v.sessions.contains_key(
            #[trigger] self.sessions@[i].id.0,
        ) && self.sessions@[i].equal_state(v.sessions[self.sessions@[i].id.0])
        &&& forall|k: u64| #[trigger] v.sessions.contains_key(k) ==> exists|i: int|
            0 <= i < self.sessions@.len() && self.sessions@[i].id.0 == k
        &&& forall|i: int, j: int| 0 <= i < j < self.sessions@.len() ==> self.sessions@[i].id
            != self.sessions@[j].id
        &&& forall|i: int| 0 <= i < self.windows@.len() ==> v.windows.contains_key(
            #[trigger] self.windows@[i].id.0,
        ) && self.windows@[i].equal_state(v.windows[self.windows@[i].id.0])
        &&& forall|k: u64| #[trigger] v.windows.contains_key(k) ==> exists|i: int|
            0 <= i < self.windows@.len() && self.windows@[i].id.0 == k
        &&& forall|i: int, j: int| 0 <= i < j < self.windows@.len() ==> self.windows@[i].id
            != self.windows@[j].id
        &&& self.next_session_id == v.next_session_id
        &&& self.next_window_id == v.next_window_id
        &&& self.attached_session == v.attached_session
    }

    /// The state a manager with storage path `path` holds after loading the
    /// snapshot.
    pub open spec fn restored(self, path: Option<PathBuf>) -> SessionManagerView {
        SessionManagerView {
            sessions: keyed_sessions(self.sessions@),
            windows: keyed_windows(self.windows@),
            names: session_names_of(self.sessions@),
            next_session_id: self.next_session_id,
            next_window_id: self.next_window_id,
            attached_session: self.attached_session,
            storage_path: path,
        }
    }
}

/// In a sequence of sessions with distinct ids, each session is found
/// under its id, and only their ids are keys.
proof fn lemma_keyed_sessions(ss: Seq<Session>)
    requires
        forall|i: int, j: int| 0 <= i < j < ss.len() ==> ss[i].id != ss[j].id,
    ensures
        keyed_sessions(ss).dom().finite(),
        forall|i: int| 0 <= i < ss.len() ==> #[trigger] keyed_sessions(ss).contains_key(ss[i].id.0)
            && keyed_sessions(ss)[ss[i].id.0] == ss[i],
        forall|k: u64| #[trigger] keyed_sessions(ss).contains_key(k) ==> exists|i: int|
            0 <= i < ss.len() && ss[i].id.0 == k,
    decreases ss.len(),
{
    if ss.len() == 0 {
        assert(keyed_sessions(ss).dom() =~= Set::empty());
    }
    if ss.len() > 0 {
        let t = ss.drop_first();
        assert forall|i: int, j: int| 0 <= i < j < t.len() implies t[i].id != t[j].id by {
            assert(ss[i + 1].id != ss[j + 1].id);
        }
        lemma_keyed_sessions(t);
        assert(keyed_sessions(ss) == keyed_sessions(t).insert(ss[0].id.0, ss[0]));
        assert forall|i: int| 0 <= i < ss.len() implies #[trigger] keyed_sessions(ss).contains_key(
            ss[i].id.0,
        ) && keyed_sessions(ss)[ss[i].id.0] == ss[i] by {
            if i > 0 {
                assert(ss[i] == t[i - 1]);
                assert(keyed_sessions(t).contains_key(t[i - 1].id.0));
                assert(ss[0].id != ss[i].id);
            }
        }
        assert forall|k: u64| #[trigger] keyed_sessions(ss).contains_key(k) implies exists|i: int|
            0 <= i < ss.len() && ss[i].id.0 == k by {
            if k != ss[0].id.0 {
                let j = choose|j: int| 0 <= j < t.len() && t[j].id.0 == k;
                assert(ss[j + 1] == t[j]);
            }
        }
    }
}

/// In a sequence of windows with distinct ids, each window is found under
/// its id, and only their ids are keys.
proof fn lemma_keyed_windows(ws: Seq<Window>)
    requires
        forall|i: int, j: int| 0 <= i < j < ws.len() ==> ws[i].id != ws[j].id,
    ensures
        keyed_windows(ws).dom().finite(),
        forall|i: int| 0 <= i < ws.len() ==> #[trigger] keyed_windows(ws).contains_key(ws[i].id.0)
            && keyed_windows(ws)[ws[i].id.0] == ws[i],
        forall|k: u64| #[trigger] keyed_windows(ws).contains_key(k) ==> exists|i: int|
            0 <= i < ws.len() && ws[i].id.0 == k,
    decreases ws.len(),
{
    if ws.len() == 0 {
        assert(keyed_windows(ws).dom() =~= Set::empty());
    }
    if ws.len() > 0 {
        let t = ws.drop_first();
        assert forall|i: int, j: int| 0 <= i < j < t.len() implies t[i].id != t[j].id by {
            assert(ws[i + 1].id != ws[j + 1].id);
        }
        lemma_keyed_windows(t);
        assert(keyed_windows(ws) == keyed_windows(t).insert(ws[0].id.0, ws[0]));
        assert forall|i: int| 0 <= i < ws.len() implies #[trigger] keyed_windows(ws).contains_key(
            ws[i].id.0,
        ) && keyed_windows(ws)[ws[i].id.0] == ws[i] by {
            if i > 0 {
                assert(ws[i] == t[i - 1]);
                assert(keyed_windows(t).contains_key(t[i - 1].id.0));
                assert(ws[0].id != ws[i].id);
            }
        }
        assert forall|k: u64| #[trigger] keyed_windows(ws).contains_key(k) implies exists|i: int|
            0 <= i < ws.len() && ws[i].id.0 == k by {
            if k != ws[0].id.0 {
                let j = choose|j: int| 0 <= j < t.len() && t[j].id.0 == k;
                assert(ws[j + 1] == t[j]);
            }
        }
    }
}

/// In a sequence of sessions whose names are distinct, each name maps to
/// its session's id, and only their names are keys.
proof fn lemma_session_names_of(ss: Seq<Session>)
    requires
        forall|i: int, j: int| 0 <= i < j < ss.len() ==> ss[i].name@ != ss[j].name@,
    ensures
        forall|i: int| 0 <= i < ss.len() ==> #[trigger] session_names_of(ss).contains_key(ss[i].name@)
            && session_names_of(ss)[ss[i].name@] == ss[i].id,
        forall|n: Seq<char>| #[trigger] session_names_of(ss).contains_key(n) ==> exists|i: int|
            0 <= i < ss.len() && ss[i].name@ == n,
    decreases ss.len(),
{
    if ss.len() > 0 {
        let t = ss.drop_first();
        assert forall|i: int, j: int| 0 <= i < j < t.len() implies t[i].name@ != t[j].name@ by {
            assert(ss[i + 1].name@ != ss[j + 1].name@);
        }
        lemma_session_names_of(t);
        assert(session_names_of(ss) == session_names_of(t).insert(ss[0].name@, ss[0].id));
        assert forall|i: int| 0 <= i < ss.len() implies #[trigger] session_names_of(ss).contains_key(
            ss[i].name@,
        ) && session_names_of(ss)[ss[i].name@] == ss[i].id by {
            if i > 0 {
                assert(ss[i] == t[i - 1]);
                assert(session_names_of(t).contains_key(t[i - 1].name@));
                assert(ss[0].name@ != ss[i].name@);
            }
        }
        assert forall|n: Seq<char>| #[trigger] session_names_of(ss).contains_key(n) implies exists|i: int|
            0 <= i < ss.len() && ss[i].name@ == n by {
            if n != ss[0].name@ {
                let j = choose|j: int| 0 <= j < t.len() && t[j].name@ == n;
                assert(ss[j + 1] == t[j]);
            }
        }
    }
}

/// What `save` produces from a well-formed manager is a valid snapshot.
#[verifier::rlimit(40)]
proof fn lemma_saved_is_valid(v: SessionManagerView, snap: SessionSnapshot)
    requires
        v.wf(),
        snap.saved_from(v),
    ensures
        snap.is_valid(),
{
    let ss = snap.sessions@;
    let ws = snap.windows@;
    assert forall|i: int, j: int| 0 <= i < j < ss.len() implies ss[i].id != ss[j].id && ss[i].name@
        != ss[j].name@ by {
        assert(v.sessions.contains_key(ss[i].id.0));
        assert(v.sessions.contains_key(ss[j].id.0));
        if ss[i].name@ == ss[j].name@ {
            lemma_names_unique(v, ss[i].id.0, ss[j].id.0);
        }
    }
    assert forall|i: int| 0 <= i < ss.len() implies #[trigger] snap.session_ok(i) by {
        let k = ss[i].id.0;
        assert(v.sessions.contains_key(k));
        assert forall|e: int| 0 <= e < ss[i].windows@.len() implies holds_window(
            ws,
            #[trigger] ss[i].windows@[e],
            ss[i].id,
        ) by {
            assert(v.sessions[k].windows@[e] == ss[i].windows@[e]);
            let w = ss[i].windows@[e].0;
            assert(v.windows.contains_key(v.sessions[k].windows@[e].0));
            let j = choose|j: int| 0 <= j < ws.len() && ws[j].id.0 == w;
            assert(v.windows.contains_key(ws[j].id.0));
            assert(ws[j].id == ss[i].windows@[e]);
        }
    }
    assert forall|j: int| 0 <= j < ws.len() implies #[trigger] snap.window_ok(j) by {
        let w = ws[j].id.0;
        assert(v.windows.contains_key(w));
        let k = v.windows[w].session_id.0;
        assert(v.sessions.contains_key(k));
        let i = choose|i: int| 0 <= i < ss.len() && ss[i].id.0 == k;
        assert(v.sessions.contains_key(ss[i].id.0));
        assert(ss[i].id == ws[j].session_id);
        assert(ss[i].windows@.contains(ws[j].id));
    }
    if let Some(a) = v.attached_session {
        assert(v.sessions.contains_key(a.0));
        let i = choose|i: int| 0 <= i < ss.len() && ss[i].id.0 == a.0;
        assert(v.sessions.contains_key(ss[i].id.0));
    }
}

/// Loading what was saved gives back the saved state: the same sessions
/// and windows under the same ids (by content), the same names, counters
/// and attached session.
pub proof fn lemma_load_restores_saved(v: SessionManagerView, snap: SessionSnapshot, path: Option<PathBuf>)
    requires
        v.wf(),
        snap.saved_from(v),
    ensures
        ({
            let r = snap.restored(path);
            &&& r.sessions.dom() == v.sessions.dom()
            &&& forall|k: u64| #[trigger] r.sessions.contains_key(k) ==> r.sessions[k].equal_state(
                v.sessions[k],
            )
            &&& r.windows.dom() == v.windows.dom()
            &&& forall|k: u64| #[trigger] r.windows.contains_key(k) ==> r.windows[k].equal_state(
                v.windows[k],
            )
            &&& r.names == v.names
            &&& r.next_session_id == v.next_session_id
            &&& r.next_window_id == v.next_window_id
            &&& r.attached_session == v.attached_session
            &&& r.wf()
        }),
        snap.is_valid(),
{
    lemma_saved_is_valid(v, snap);
    lemma_valid_restores_wf(snap, path);
    let ss = snap.sessions@;
    let ws = snap.windows@;
    let r = snap.restored(path);
    lemma_keyed_sessions(ss);
    lemma_keyed_windows(ws);
    assert forall|i: int, j: int| 0 <= i < j < ss.len() implies ss[i].name@ != ss[j].name@ by {
        assert(v.sessions.contains_key(ss[i].id.0));
        assert(v.sessions.contains_key(ss[j].id.0));
        if ss[i].name@ == ss[j].name@ {
            lemma_names_unique(v, ss[i].id.0, ss[j].id.0);
        }
    }
    lemma_session_names_of(ss);
    assert forall|k: u64| r.sessions.contains_key(k) <==> v.sessions.contains_key(k) by {
        if v.sessions.contains_key(k) {
            let i = choose|i: int| 0 <= i < ss.len() && ss[i].id.0 == k;
            assert(r.sessions.contains_key(ss[i].id.0));
        }
        if r.sessions.contains_key(k) {
            let i = choose|i: int| 0 <= i < ss.len() && ss[i].id.0 == k;
            assert(v.sessions.contains_key(ss[i].id.0));
        }
    }
    assert(r.sessions.dom() =~= v.sessions.dom());
    assert forall|k: u64| #[trigger] r.sessions.contains_key(k) implies r.sessions[k].equal_state(
        v.sessions[k],
    ) by {
        let i = choose|i: int| 0 <= i < ss.len() && ss[i].id.0 == k;
        assert(v.sessions.contains_key(ss[i].id.0));
    }
    assert forall|k: u64| r.windows.contains_key(k) <==> v.windows.contains_key(k) by {
        if v.windows.contains_key(k) {
            let i = choose|i: int| 0 <= i < ws.len() && ws[i].id.0 == k;
            assert(r.windows.contains_key(ws[i].id.0));
        }
        if r.windows.contains_key(k) {
            let i = choose|i: int| 0 <= i < ws.len() && ws[i].id.0 == k;
            assert(v.windows.contains_key(ws[i].id.0));
        }
    }
    assert(r.windows.dom() =~= v.windows.dom());
    assert forall|k: u64| #[trigger] r.windows.contains_key(k) implies r.windows[k].equal_state(
        v.windows[k],
    ) by {
        let i = choose|i: int| 0 <= i < ws.len() && ws[i].id.0 == k;
        assert(v.windows.contains_key(ws[i].id.0));
    }
    assert forall|n: Seq<char>| r.names.contains_key(n) <==> v.names.contains_key(n) by {
        if v.names.contains_key(n) {
            let k = v.names[n].0;
            assert(v.sessions.contains_key(k));
            let i = choose|i: int| 0 <= i < ss.len() && ss[i].id.0 == k;
            assert(r.names.contains_key(ss[i].name@));
        }
        if r.names.contains_key(n) {
            let i = choose|i: int| 0 <= i < ss.len() && ss[i].name@ == n;
            assert(v.sessions.contains_key(ss[i].id.0));
        }
    }
    assert forall|n: Seq<char>| #[trigger] r.names.contains_key(n) implies r.names[n] == v.names[n] by {
        let i = choose|i: int| 0 <= i < ss.len() && ss[i].name@ == n;
        assert(v.sessions.contains_key(ss[i].id.0));
    }
    assert(r.names =~= v.names);
}

/// A window list without repeats has as many window keys as entries.
proof fn lemma_window_keys_len(ws: Seq<SessionWindowId>)
    requires
        ws.no_duplicates(),
    ensures
        window_keys(ws).finite(),
        window_keys(ws).len() == ws.len(),
{
    broadcast use vstd::seq_lib::seq_to_set_is_finite;
    let ks = ws.map_values(|w: SessionWindowId| w.0);
    assert forall|i: int, j: int| 0 <= i < ks.len() && 0 <= j < ks.len() && i != j implies ks[i]
        != ks[j] by {
        assert(ws[i] != ws[j]);
    }
    assert(ks.no_duplicates());
    assert forall|k: u64| #[trigger] window_keys(ws).contains(k) <==> ks.to_set().contains(k) by {
        if window_keys(ws).contains(k) {
            let j = choose|j: int| 0 <= j < ws.len() && ws[j].0 == k;
            assert(ks[j] == k);
        }
        if ks.to_set().contains(k) {
            let j = choose|j: int| 0 <= j < ks.len() && ks[j] == k;
            assert(ws[j].0 == k);
        }
    }
    assert(window_keys(ws) =~= ks.to_set());
    ks.unique_seq_to_set();
}

/// The windows listed by the sessions with the keys of `ks`.
pub open spec fn windows_listed(v: SessionManagerView, ks: Seq<u64>) -> Set<u64>
    decreases ks.len(),
{
    if ks.len() == 0 {
        Set::empty()
    } else {
        windows_listed(v, ks.drop_last()) + window_keys(v.sessions[ks.last()].windows@)
    }
}

/// The sum of the window counts of the sessions with the keys of `ks`.
pub open spec fn window_count_sum(v: SessionManagerView, ks: Seq<u64>) -> nat
    decreases ks.len(),
{
    if ks.len() == 0 {
        0
    } else {
        window_count_sum(v, ks.drop_last()) + v.sessions[ks.last()].windows@.len()
    }
}

/// The windows listed by distinct sessions are as many as their window
/// counts together, and each was listed by one of them.
proof fn lemma_windows_listed(v: SessionManagerView, ks: Seq<u64>)
    requires
        v.wf(),
        ks.no_duplicates(),
        forall|i: int| 0 <= i < ks.len() ==> v.sessions.contains_key(#[trigger] ks[i]),
    ensures
        windows_listed(v, ks).finite(),
        windows_listed(v, ks).len() == window_count_sum(v, ks),
        forall|w: u64| #[trigger] windows_listed(v, ks).contains(w) ==> v.windows.contains_key(w)
            && ks.contains(v.windows[w].session_id.0),
    decreases ks.len(),
{
    if ks.len() > 0 {
        let init = ks.drop_last();
        let k = ks.last();
        assert forall|i: int| 0 <= i < init.len() implies v.sessions.contains_key(#[trigger] init[i]) by {
            assert(init[i] == ks[i]);
        }
        assert(init.no_duplicates()) by {
            assert forall|i: int, j: int| 0 <= i < init.len() && 0 <= j < init.len() && i != j implies init[i]
                != init[j] by {
                assert(init[i] == ks[i] && init[j] == ks[j]);
            }
        }
        lemma_windows_listed(v, init);
        assert(v.sessions.contains_key(ks[ks.len() - 1]));
        let ws = v.sessions[k].windows@;
        lemma_window_keys_len(ws);
        assert forall|w: u64| #[trigger] window_keys(ws).contains(w) implies v.windows.contains_key(w)
            && v.windows[w].session_id.0 == k by {
            let j = choose|j: int| 0 <= j < ws.len() && ws[j].0 == w;
            assert(v.sessions[k].windows@[j].0 == w);
        }
        assert(windows_listed(v, init).disjoint(window_keys(ws))) by {
            assert forall|w: u64| !(windows_listed(v, init).contains(w) && window_keys(ws).contains(w)) by {
                if windows_listed(v, init).contains(w) && window_keys(ws).contains(w) {
                    let i = choose|i: int| 0 <= i < init.len() && init[i] == v.windows[w].session_id.0;
                    assert(init[i] == ks[i]);
                }
            }
        }
        vstd::set_lib::lemma_set_disjoint_lens(windows_listed(v, init), window_keys(ws));
        assert forall|w: u64| #[trigger] windows_listed(v, ks).contains(w) implies v.windows.contains_key(w)
            && ks.contains(v.windows[w].session_id.0) by {
            if windows_listed(v, init).contains(w) {
                let i = choose|i: int| 0 <= i < init.len() && init[i] == v.windows[w].session_id.0;
                assert(ks[i] == init[i]);
            } else {
                assert(ks[ks.len() - 1] == k);
            }
        }
    }
}

/// The total window count is the sum of the sessions' window counts: taken
/// over the sessions' keys in any order, each once, the window counts add
/// up to the number of windows, and every window is listed by its session.
pub proof fn lemma_total_window_count(v: SessionManagerView, ks: Seq<u64>)
    requires
        v.wf(),
        ks.no_duplicates(),
        ks.to_set() == v.sessions.dom(),
    ensures
        v.windows.len() == window_count_sum(v, ks),
{
    assert forall|i: int| 0 <= i < ks.len() implies v.sessions.contains_key(#[trigger] ks[i]) by {
        assert(ks.to_set().contains(ks[i]));
    }
    lemma_windows_listed(v, ks);
    assert forall|w: u64| v.windows.contains_key(w) implies #[trigger] windows_listed(v, ks).contains(w) by {
        let k = v.windows[w].session_id.0;
        assert(ks.to_set().contains(k));
        let i = choose|i: int| 0 <= i < ks.len() && ks[i] == k;
        lemma_windows_listed_contains(v, ks, i, w);
    }
    assert(windows_listed(v, ks) =~= v.windows.dom());
}

/// The sum of the window counts of the sessions `ss`.
pub open spec fn sessions_window_sum(ss: Seq<Session>) -> nat
    decreases ss.len(),
{
    if ss.len() == 0 {
        0
    } else {
        sessions_window_sum(ss.drop_last()) + ss.last().windows@.len()
    }
}

/// Summing over sessions or over their keys gives the same.
proof fn lemma_sums_agree(v: SessionManagerView, ss: Seq<Session>, ks: Seq<u64>)
    requires
        ss.len() == ks.len(),
        forall|i: int| 0 <= i < ss.len() ==> ss[i] == v.sessions[ks[i]],
    ensures
        sessions_window_sum(ss) == window_count_sum(v, ks),
    decreases ss.len(),
{
    if ss.len() > 0 {
        let (s1, k1) = (ss.drop_last(), ks.drop_last());
        assert forall|i: int| 0 <= i < s1.len() implies s1[i] == v.sessions[k1[i]] by {
            assert(ss[i] == v.sessions[ks[i]]);
        }
        lemma_sums_agree(v, s1, k1);
        assert(ss.last() == v.sessions[ks.last()]) by {
            assert(ss[ss.len() - 1] == v.sessions[ks[ks.len() - 1]]);
        }
    }
}

/// The total window count is the sum of the window counts of the sessions
/// as `list_sessions` lists them: every session once, in any order.
pub proof fn lemma_total_window_count_listed(v: SessionManagerView, ss: Seq<Session>)
    requires
        v.wf(),
        v.is_listing(ss),
    ensures
        v.windows.len() == sessions_window_sum(ss),
{
    let ks = choose|ks: Seq<u64>| v.lists_keys(ss, ks);
    lemma_total_window_count(v, ks);
    lemma_sums_agree(v, ss, ks);
}

/// A window listed by the session with key `ks[i]` is among the windows
/// listed by the sessions of `ks`.
proof fn lemma_windows_listed_contains(v: SessionManagerView, ks: Seq<u64>, i: int, w: u64)
    requires
        v.wf(),
        0 <= i < ks.len(),
        v.sessions.contains_key(ks[i]),
        v.windows.contains_key(w),
        v.windows[w].session_id.0 == ks[i],
    ensures
        windows_listed(v, ks).contains(w),
    decreases ks.len(),
{
    let k = ks[i];
    if i == ks.len() - 1 {
        let ws = v.sessions[k].windows@;
        assert(ws.contains(SessionWindowId(w)));
        let j = choose|j: int| 0 <= j < ws.len() && ws[j] == SessionWindowId(w);
        assert(window_keys(ws).contains(w));
    } else {
        assert(ks.drop_last()[i] == k);
        lemma_windows_listed_contains(v, ks.drop_last(), i, w);
    }
}

/// A valid snapshot restores a well-formed manager.
#[verifier::rlimit(40)]
pub proof fn lemma_valid_restores_wf(snap: SessionSnapshot, path: Option<PathBuf>)
    requires
        snap.is_valid(),
    ensures
        snap.restored(path).wf(),
{
    let ss = snap.sessions@;
    let ws = snap.windows@;
    let r = snap.restored(path);
    lemma_keyed_sessions(ss);
    lemma_keyed_windows(ws);
    lemma_session_names_of(ss);
    assert forall|k: u64| #[trigger] r.sessions.contains_key(k) implies {
        &&& r.sessions[k].id == SessionId(k)
        &&& 1 <= k < r.next_session_id
        &&& r.names.contains_key(r.sessions[k].name@)
        &&& r.names[r.sessions[k].name@] == SessionId(k)
        &&& r.sessions[k].windows@.no_duplicates()
        &&& (r.sessions[k].is_attached <==> r.attached_session == Some(SessionId(k)))
    } by {
        let i = choose|i: int| 0 <= i < ss.len() && ss[i].id.0 == k;
        assert(snap.session_ok(i));
        assert(r.names.contains_key(ss[i].name@));
    }
    assert forall|n: Seq<char>| #[trigger] r.names.contains_key(n) implies {
        &&& r.sessions.contains_key(r.names[n].0)
        &&& r.sessions[r.names[n].0].name@ == n
    } by {
        let i = choose|i: int| 0 <= i < ss.len() && ss[i].name@ == n;
        assert(r.sessions.contains_key(ss[i].id.0));
    }
    assert forall|w: u64| #[trigger] r.windows.contains_key(w) implies {
        &&& r.windows[w].id == SessionWindowId(w)
        &&& 1 <= w < r.next_window_id
        &&& r.sessions.contains_key(r.windows[w].session_id.0)
        &&& r.sessions[r.windows[w].session_id.0].windows@.contains(SessionWindowId(w))
    } by {
        let j = choose|j: int| 0 <= j < ws.len() && ws[j].id.0 == w;
        assert(snap.window_ok(j));
        let i = choose|i: int| 0 <= i < ss.len() && #[trigger] ss[i].id == ws[j].session_id
            && ss[i].windows@.contains(ws[j].id);
        assert(r.sessions.contains_key(ss[i].id.0));
    }
    assert forall|k: u64, e: int|
        r.sessions.contains_key(k) && 0 <= e < r.sessions[k].windows@.len() implies {
            &&& r.windows.contains_key(#[trigger] r.sessions[k].windows@[e].0)
            &&& r.windows[r.sessions[k].windows@[e].0].session_id == SessionId(k)
        } by {
        let i = choose|i: int| 0 <= i < ss.len() && ss[i].id.0 == k;
        assert(snap.session_ok(i));
        assert(holds_window(ws, ss[i].windows@[e], ss[i].id));
        let j = choose|j: int| 0 <= j < ws.len() && #[trigger] ws[j].id == ss[i].windows@[e]
            && ws[j].session_id == ss[i].id;
        assert(r.windows.contains_key(ws[j].id.0));
    }
    if let Some(a) = r.attached_session {
        let i = choose|i: int| 0 <= i < ss.len() && ss[i].id == a;
        assert(r.sessions.contains_key(ss[i].id.0));
    }
}

/// Every key of a set occurs in a sequence whose elements make up the set.
proof fn lemma_saved_keys_cover(ks: Seq<u64>, dom: Set<u64>)
    requires
        ks.to_set() == dom,
    ensures
        forall|k: u64| dom.contains(k) ==> exists|i: int| 0 <= i < ks.len() && ks[i] == k,
{
    assert forall|k: u64| dom.contains(k) implies exists|i: int| 0 <= i < ks.len() && ks[i] == k by {
        assert(ks.to_set().contains(k));
    }
}

/// A session of `ss` with id `sid` lists window `w`.
pub open spec fn lists_window(ss: Seq<Session>, sid: SessionId, w: SessionWindowId) -> bool {
    exists|i: int| 0 <= i < ss.len() && #[trigger] ss[i].id == sid && ss[i].windows@.contains(w)
}

/// Whether a session of `ss` with id `sid` lists window `w`.
fn lists_window_of(ss: &Vec<Session>, sid: SessionId, w: SessionWindowId) -> (b: bool)
    ensures
        b == lists_window(ss@, sid, w),
{
    let mut i: usize = 0;
    while i < ss.len()
        invariant
            i <= ss@.len(),
            forall|k: int| 0 <= k < i ==> !(ss@[k].id == sid && ss@[k].windows@.contains(w)),
        decreases ss@.len() - i,
    {
        if ss[i].id == sid {
            match position_of_window(&ss[i].windows, w) {
                Some(_) => return true,
                None => {},
            }
        }
        i = i + 1;
    }
    false
}

/// `ws` holds a window with id `id` that belongs to session `sid`.
pub open spec fn holds_window(ws: Seq<Window>, id: SessionWindowId, sid: SessionId) -> bool {
    exists|j: int| 0 <= j < ws.len() && #[trigger] ws[j].id == id && ws[j].session_id == sid
}

impl SessionSnapshot {
    /// Session `i` of the snapshot is consistent: its id lies in range, its
    /// window list has no repeats and names windows of the snapshot that
    /// belong to it, and it is marked attached exactly when it is the
    /// attached session.
    pub open spec fn session_ok(self, i: int) -> bool {
        let ss = self.sessions@;
        let ws = self.windows@;
        &&& 1 <= ss[i].id.0 < self.next_session_id
        &&& ss[i].windows@.no_duplicates()
        &&& (ss[i].is_attached <==> self.attached_session == Some(ss[i].id))
        &&& forall|e: int| 0 <= e < ss[i].windows@.len() ==> holds_window(ws, #[trigger] ss[i].windows@[e], ss[i].id)
    }

    /// Window `j` of the snapshot is consistent: its id lies in range and a
    /// session of the snapshot with its session id lists it.
    pub open spec fn window_ok(self, j: int) -> bool {
        let ss = self.sessions@;
        let ws = self.windows@;
        &&& 1 <= ws[j].id.0 < self.next_window_id
        &&& lists_window(ss, ws[j].session_id, ws[j].id)
    }

    /// The snapshot describes a well-formed manager: counters from one,
    /// sessions with distinct ids and names, windows with distinct ids,
    /// each consistent, and an attached session that exists.
    pub open spec fn is_valid(self) -> bool {
        let ss = self.sessions@;
        let ws = self.windows@;
        &&& self.next_session_id >= 1
        &&& self.next_window_id >= 1
        &&& forall|i: int, j: int| 0 <= i < j < ss.len() ==> ss[i].id != ss[j].id && ss[i].name@
            != ss[j].name@
        &&& forall|i: int| 0 <= i < ss.len() ==> #[trigger] self.session_ok(i)
        &&& forall|i: int, j: int| 0 <= i < j < ws.len() ==> ws[i].id != ws[j].id
        &&& forall|j: int| 0 <= j < ws.len() ==> #[trigger] self.window_ok(j)
        &&& self.attached_session matches Some(a) ==> exists|i: int| 0 <= i < ss.len() && ss[i].id == a
    }

    /// Decides [`SessionSnapshot::window_ok`] for window `j`.
    fn check_window(&self, j: usize) -> (b: bool)
        requires
            j < self.windows@.len(),
        ensures
            b == self.window_ok(j as int),
    {
        let w = &self.windows[j];
        if w.id.0 < 1 || w.id.0 >= self.next_window_id {
            return false;
        }
        lists_window_of(&self.sessions, w.session_id, w.id)
    }

    /// Decides [`SessionSnapshot::is_valid`].
    pub fn check(&self) -> (b: bool)
        ensures
            b == self.is_valid(),
    {
        if self.next_session_id < 1 || self.next_window_id < 1 {
            return false;
        }
        if !self.sessions_distinct() || !self.windows_distinct() {
            return false;
        }
        let mut i: usize = 0;
        while i < self.sessions.len()
            invariant
                i <= self.sessions@.len(),
                forall|a: int| 0 <= a < i ==> #[trigger] self.session_ok(a),
            decreases self.sessions@.len() - i,
        {
            if !self.check_session(i) {
                return false;
            }
            i = i + 1;
        }
        let mut j: usize = 0;
        while j < self.windows.len()
            invariant
                j <= self.windows@.len(),
                forall|a: int| 0 <= a < j ==> #[trigger] self.window_ok(a),
            decreases self.windows@.len() - j,
        {
            if !self.check_window(j) {
                return false;
            }
            j = j + 1;
        }
        match self.attached_session {
            Some(a) => match find_session(&self.sessions, a) {
                Some(_) => true,
                None => false,
            },
            None => true,
        }
    }

    /// Whether the sessions carry distinct ids and distinct names.
    fn sessions_distinct(&self) -> (b: bool)
        ensures
            b == forall|i: int, j: int| #![trigger self.sessions@[i], self.sessions@[j]] 0 <= i < j
                < self.sessions@.len() ==> self.sessions@[i].id != self.sessions@[j].id
                && self.sessions@[i].name@ != self.sessions@[j].name@,
    {
        let mut i: usize = 0;
        while i < self.sessions.len()
            invariant
                i <= self.sessions@.len(),
                forall|a: int, c: int| 0 <= a < i && a < c < self.sessions@.len() ==> self.sessions@[a].id != self.sessions@[c].id
                    && self.sessions@[a].name@ != self.sessions@[c].name@,
            decreases self.sessions@.len() - i,
        {
            let mut j: usize = i + 1;
            while j < self.sessions.len()
                invariant
                    i < j <= self.sessions@.len(),
                    i < self.sessions@.len(),
                    forall|c: int| i < c < j ==> self.sessions@[i as int].id != self.sessions@[c].id && self.sessions@[i as int].name@
                        != self.sessions@[c].name@,
                decreases self.sessions@.len() - j,
            {
                if self.sessions[i].id == self.sessions[j].id || self.sessions[i].name == self.sessions[j].name {
                    proof {
                        let (a, c) = (i as int, j as int);
                        assert(!(self.sessions@[a].id != self.sessions@[c].id && self.sessions@[a].name@
                            != self.sessions@[c].name@));
                    }
                    return false;
                }
                j = j + 1;
            }
            i = i + 1;
        }
        true
    }

    /// Whether the windows carry distinct ids.
    fn windows_distinct(&self) -> (b: bool)
        ensures
            b == forall|i: int, j: int| #![trigger self.windows@[i], self.windows@[j]] 0 <= i < j
                < self.windows@.len() ==> self.windows@[i].id != self.windows@[j].id,
    {
        let mut i: usize = 0;
        while i < self.windows.len()
            invariant
                i <= self.windows@.len(),
                forall|a: int, c: int| 0 <= a < i && a < c < self.windows@.len() ==> self.windows@[a].id != self.windows@[c].id,
            decreases self.windows@.len() - i,
        {
            let mut j: usize = i + 1;
            while j < self.windows.len()
                invariant
                    i < j <= self.windows@.len(),
                    i < self.windows@.len(),
                    forall|c: int| i < c < j ==> self.windows@[i as int].id != self.windows@[c].id,
                decreases self.windows@.len() - j,
            {
                if self.windows[i].id == self.windows[j].id {
                    proof {
                        let (a, c) = (i as int, j as int);
                        assert(!(self.windows@[a].id != self.windows@[c].id));
                    }
                    return false;
                }
                j = j + 1;
            }
            i = i + 1;
        }
        true
    }
}

/// The position of the session with id `id` in `ss`, if any.
fn find_session(ss: &Vec<Session>, id: SessionId) -> (r: Option<usize>)
    ensures
        match r {
            Some(i) => i < ss@.len() && ss@[i as int].id == id,
            None => forall|i: int| 0 <= i < ss@.len() ==> ss@[i].id != id,
        },
{
    let mut i: usize = 0;
    while i < ss.len()
        invariant
            i <= ss@.len(),
            forall|j: int| 0 <= j < i ==> ss@[j].id != id,
        decreases ss@.len() - i,
    {
        if ss[i].id == id {
            return Some(i);
        }
        i = i + 1;
    }
    None
}

/// The position of the window with id `id` in `ws`, if any.
fn find_window(ws: &Vec<Window>, id: SessionWindowId) -> (r: Option<usize>)
    ensures
        match r {
            Some(j) => j < ws@.len() && ws@[j as int].id == id,
            None => forall|j: int| 0 <= j < ws@.len() ==> ws@[j].id != id,
        },
{
    let mut j: usize = 0;
    while j < ws.len()
        invariant
            j <= ws@.len(),
            forall|k: int| 0 <= k < j ==> ws@[k].id != id,
        decreases ws@.len() - j,
    {
        if ws[j].id == id {
            return Some(j);
        }
        j = j + 1;
    }
    None
}

/// Whether `ws` holds a window with id `id` belonging to session `sid`.
fn has_window_of(ws: &Vec<Window>, id: SessionWindowId, sid: SessionId) -> (b: bool)
    ensures
        b == holds_window(ws@, id, sid),
{
    let mut j: usize = 0;
    while j < ws.len()
        invariant
            j <= ws@.len(),
            forall|k: int| 0 <= k < j ==> !(ws@[k].id == id && ws@[k].session_id == sid),
        decreases ws@.len() - j,
    {
        if ws[j].id == id && ws[j].session_id == sid {
            return true;
        }
        j = j + 1;
    }
    false
}

/// Whether a window list has no repeats.
fn windows_distinct(list: &Vec<SessionWindowId>) -> (b: bool)
    ensures
        b == list@.no_duplicates(),
{
    let mut i: usize = 0;
    while i < list.len()
        invariant
            i <= list@.len(),
            forall|a: int, c: int| 0 <= a < i && a < c < list@.len() ==> list@[a] != list@[c],
        decreases list@.len() - i,
    {
        let mut j: usize = i + 1;
        while j < list.len()
            invariant
                i < j <= list@.len(),
                i < list@.len(),
                forall|c: int| i < c < j ==> list@[i as int] != list@[c],
            decreases list@.len() - j,
        {
            if list[i] == list[j] {
                return false;
            }
            j = j + 1;
        }
        i = i + 1;
    }
    true
}

impl SessionSnapshot {
    /// Decides [`SessionSnapshot::session_ok`] for session `i`.
    fn check_session(&self, i: usize) -> (b: bool)
        requires
            i < self.sessions@.len(),
        ensures
            b == self.session_ok(i as int),
    {
        let s = &self.sessions[i];
        if s.id.0 < 1 || s.id.0 >= self.next_session_id {
            return false;
        }
        if !windows_distinct(&s.windows) {
            return false;
        }
        let attached = match self.attached_session {
            Some(a) => a == s.id,
            None => false,
        };
        if s.is_attached != attached {
            return false;
        }
        let mut e: usize = 0;
        while e < s.windows.len()
            invariant
                e <= s.windows@.len(),
                i < self.sessions@.len(),
                *s == self.sessions@[i as int],
                1 <= s.id.0 < self.next_session_id,
                s.windows@.no_duplicates(),
                s.is_attached <==> self.attached_session == Some(s.id),
                forall|f: int| 0 <= f < e ==> holds_window(self.windows@, #[trigger] s.windows@[f], s.id),
            decreases s.windows@.len() - e,
        {
            if !has_window_of(&self.windows, s.windows[e], s.id) {
                return false;
            }
            e = e + 1;
        }
        true
    }
}

/// Manages all sessions.
pub struct SessionManager {
    /// All sessions by ID.
    sessions: HashMap<u64, Session>,
    /// All windows by ID.
    windows: HashMap<u64, Window>,
    /// Session name to ID mapping.
    session_names: StringHashMap<SessionId>,
    /// Next session ID.
    next_session_id: u64,
    /// Next window ID.
    next_window_id: u64,
    /// Currently attached session (if any).
    attached_session: Option<SessionId>,
    /// Session storage path for persistence.
    storage_path: Option<PathBuf>,
}

impl View for SessionManager {
    type V = SessionManagerView;

    closed spec fn view(&self) -> SessionManagerView {
        SessionManagerView {
            sessions: self.sessions@,
            windows: self.windows@,
            names: self.session_names@,
            next_session_id: self.next_session_id,
            next_window_id: self.next_window_id,
            attached_session: self.attached_session,
            storage_path: self.storage_path,
        }
    }
}

/// Builds the message of a refused name.
fn exists_message(name: &str) -> (msg: String)
    ensures
        msg@ == SessionManagerView::exists_message(name@),
{
    let mut msg = String::from_str("Session '");
    msg.append(name);
    msg.append("' already exists");
    msg
}

impl SessionManager {
    /// Create a new session manager.
    pub fn new() -> (m: Self)
        ensures
            m@ == SessionManagerView::initial(),
            m@.wf(),
    {
        Self {
            sessions: HashMap::new(),
            windows: HashMap::new(),
            session_names: StringHashMap::new(),
            next_session_id: 1,
            next_window_id: 1,
            attached_session: None,
            storage_path: None,
        }
    }

    /// Set the storage path for session persistence.
    pub fn set_storage_path(&mut self, path: PathBuf)
        ensures
            final(self)@ == (SessionManagerView { storage_path: Some(path), ..old(self)@ }),
            old(self)@.wf() ==> final(self)@.wf(),
    {
        self.storage_path = Some(path);
    }

    /// Create a new session. A name that is already taken is refused.
    pub fn create_session(&mut self, name: &str) -> (r: Result<SessionId, String>)
        requires
            !old(self)@.names.contains_key(name@) ==> old(self)@.next_session_id < u64::MAX,
        ensures
            old(self)@.create_session_post(final(self)@, name@, r),
            old(self)@.wf() ==> final(self)@.wf(),
    {
        if self.session_names.contains_key(name) {
            return Err(exists_message(name));
        }
        let id = SessionId(self.next_session_id);
        self.next_session_id = self.next_session_id + 1;

        let session = Session::new(id, name);
        self.session_names.insert(String::from_str(name), id);
        self.sessions.insert(id.0, session);

        Ok(id)
    }

    /// Get a session by ID.
    pub fn get_session(&self, id: SessionId) -> (r: Option<&Session>)
        ensures
            r is Some <==> self@.sessions.contains_key(id.0),
            r is Some ==> *r.unwrap() == self@.sessions[id.0],
    {
        self.sessions.get(&id.0)
    }

    /// Get a session by ID (mutable).
    pub fn get_session_mut(&mut self, id: SessionId) -> (r: Option<&mut Session>)
        ensures
            r is Some <==> old(self)@.sessions.contains_key(id.0),
            r is Some ==> *r.unwrap() == old(self)@.sessions[id.0],
            r is Some ==> final(self)@ == old(self)@.with_session(id.0, *final(r.unwrap())),
            r is None ==> final(self)@ == old(self)@,
    {
        hash_map_get_mut(&mut self.sessions, id.0)
    }

    /// Get a session by name.
    pub fn get_session_by_name(&self, name: &str) -> (r: Option<&Session>)
        ensures
            r is Some <==> self@.names.contains_key(name@)
                && self@.sessions.contains_key(self@.names[name@].0),
            r is Some ==> *r.unwrap() == self@.sessions[self@.names[name@].0],
    {
        match self.session_names.get(name) {
            Some(id) => self.sessions.get(&id.0),
            None => None,
        }
    }

    /// Get a session by name (mutable).
    pub fn get_session_by_name_mut(&mut self, name: &str) -> (r: Option<&mut Session>)
        ensures
            r is Some <==> old(self)@.names.contains_key(name@)
                && old(self)@.sessions.contains_key(old(self)@.names[name@].0),
            r is Some ==> *r.unwrap() == old(self)@.sessions[old(self)@.names[name@].0],
            r is Some ==> final(self)@ == old(self)@.with_session(
                old(self)@.names[name@].0,
                *final(r.unwrap()),
            ),
            r is None ==> final(self)@ == old(self)@,
    {
        match self.session_names.get(name) {
            Some(id) => {
                let key = id.0;
                hash_map_get_mut(&mut self.sessions, key)
            },
            None => None,
        }
    }

    /// Kill a session: it is removed together with its name and its windows,
    /// and detached if it was attached.
    pub fn kill_session(&mut self, id: SessionId) -> (r: bool)
        ensures
            old(self)@.kill_session_post(final(self)@, id, r),
            old(self)@.wf() ==> final(self)@.wf(),
    {
        match self.sessions.remove(&id.0) {
            Some(session) => {
                self.session_names.remove(session.name.as_str());
                let ghost w0 = self.windows@;
                let ghost s1 = self.sessions@;
                let ghost n1 = self.session_names@;
                let ghost a1 = self.attached_session;
                let ghost p1 = self.storage_path;
                let ghost ns = self.next_session_id;
                let ghost nw = self.next_window_id;
                let mut i: usize = 0;
                while i < session.windows.len()
                    invariant
                        i <= session.windows@.len(),
                        self.windows@ == w0.remove_keys(window_keys(session.windows@.take(i as int))),
                        self.sessions@ == s1,
                        self.session_names@ == n1,
                        self.attached_session == a1,
                        self.storage_path == p1,
                        self.next_session_id == ns,
                        self.next_window_id == nw,
                    decreases session.windows@.len() - i,
                {
                    let key = session.windows[i].0;
                    self.windows.remove(&key);
                    proof {
                        assert(session.windows@.take(i + 1) =~= session.windows@.take(
                            i as int,
                        ).push(session.windows@[i as int]));
                        lemma_window_keys_push(
                            session.windows@.take(i as int),
                            session.windows@[i as int],
                        );
                    }
                    assert(self.windows@ =~= w0.remove_keys(window_keys(session.windows@.take(i + 1))));
                    i = i + 1;
                }
                assert(session.windows@.take(i as int) =~= session.windows@);
                let was_attached = match self.attached_session {
                    Some(a) => a.0 == id.0,
                    None => false,
                };
                if was_attached {
                    self.attached_session = None;
                }
                assert(self@.sessions =~= old(self)@.after_kill(id.0).sessions);
                true
            },
            None => {
                assert(self.sessions@ =~= old(self).sessions@);
                false
            },
        }
    }
    /// Rename a session. A name that is already taken is refused.
    pub fn rename_session(&mut self, id: SessionId, new_name: &str) -> (r: Result<(), String>)
        ensures
            old(self)@.rename_session_post(final(self)@, id, new_name@, r),
            old(self)@.wf() ==> final(self)@.wf(),
    {
        if self.session_names.contains_key(new_name) {
            return Err(exists_message(new_name));
        }
        match hash_map_get_mut(&mut self.sessions, id.0) {
            Some(session) => {
                self.session_names.remove(session.name.as_str());
                session.name = String::from_str(new_name);
                self.session_names.insert(String::from_str(new_name), id);
                Ok(())
            },
            None => Err(String::from_str("Session not found")),
        }
    }

    /// Create a new window in a session.
    pub fn create_window(&mut self, session_id: SessionId, name: &str) -> (r: Option<SessionWindowId>)
        requires
            old(self)@.sessions.contains_key(session_id.0) ==> old(self)@.next_window_id < u64::MAX,
        ensures
            old(self)@.create_window_post(final(self)@, session_id, name@, r),
            old(self)@.wf() ==> final(self)@.wf(),
    {
        let session = match hash_map_get_mut(&mut self.sessions, session_id.0) {
            Some(s) => s,
            None => return None,
        };
        let id = SessionWindowId(self.next_window_id);
        self.next_window_id = self.next_window_id + 1;

        let mut window = Window::new(id, name, session_id);
        window.index = session.window_count();
        self.windows.insert(id.0, window);
        session.add_window(id);

        proof {
            let o = old(self)@;
            let v = self@;
            let sid = session_id.0;
            let wnew = o.next_window_id;
            let ws = o.sessions[sid].windows@;
            if o.wf() {
                assert(!o.windows.contains_key(wnew));
                if ws.contains(SessionWindowId(wnew)) {
                    let i = choose|i: int| 0 <= i < ws.len() && ws[i] == SessionWindowId(wnew);
                    assert(o.windows.contains_key(o.sessions[sid].windows@[i].0));
                }
                assert forall|w: u64| #[trigger] v.windows.contains_key(w) implies v.sessions[v.windows[
                    w].session_id.0].windows@.contains(SessionWindowId(w)) by {
                    if w == wnew {
                        assert(v.sessions[sid].windows@[ws.len() as int] == SessionWindowId(w));
                    } else if o.windows[w].session_id.0 == sid {
                        let i = choose|i: int| 0 <= i < ws.len() && ws[i] == SessionWindowId(w);
                        assert(v.sessions[sid].windows@[i] == SessionWindowId(w));
                    }
                }
                assert forall|k: u64, i: int|
                    v.sessions.contains_key(k) && 0 <= i < v.sessions[k].windows@.len() implies {
                    &&& v.windows.contains_key(#[trigger] v.sessions[k].windows@[i].0)
                    &&& v.windows[v.sessions[k].windows@[i].0].session_id == SessionId(k)
                } by {
                    if k == sid && i < ws.len() {
                        assert(v.sessions[k].windows@[i] == o.sessions[k].windows@[i]);
                    } else if k != sid {
                        assert(v.sessions[k].windows@[i] == o.sessions[k].windows@[i]);
                    }
                }
            }
        }
        Some(id)
    }

    /// Get a window by ID.
    pub fn get_window(&self, id: SessionWindowId) -> (r: Option<&Window>)
        ensures
            r is Some <==> self@.windows.contains_key(id.0),
            r is Some ==> *r.unwrap() == self@.windows[id.0],
    {
        self.windows.get(&id.0)
    }

    /// Get a window by ID (mutable).
    pub fn get_window_mut(&mut self, id: SessionWindowId) -> (r: Option<&mut Window>)
        ensures
            r is Some <==> old(self)@.windows.contains_key(id.0),
            r is Some ==> *r.unwrap() == old(self)@.windows[id.0],
            r is Some ==> final(self)@ == (SessionManagerView {
                windows: old(self)@.windows.insert(id.0, *final(r.unwrap())),
                ..old(self)@
            }),
            r is None ==> final(self)@ == old(self)@,
    {
        hash_map_get_mut(&mut self.windows, id.0)
    }

    /// Kill a window: it is removed, and taken out of its session's window
    /// list. A session left without windows that is marked to be killed on
    /// detach is killed too.
    pub fn kill_window(&mut self, id: SessionWindowId) -> (r: bool)
        ensures
            old(self)@.kill_window_post(final(self)@, id, r),
            old(self)@.wf() ==> final(self)@.wf(),
    {
        let window = match self.windows.remove(&id.0) {
            Some(w) => w,
            None => {
                assert(self.windows@ =~= old(self).windows@);
                return false;
            },
        };
        assert(self.windows@ =~= old(self).windows@.remove(id.0));
        let session_id = window.session_id;
        let should_kill_session = match hash_map_get_mut(&mut self.sessions, session_id.0) {
            Some(session) => {
                session.remove_window(id);
                session.windows.len() == 0 && session.kill_on_detach
            },
            None => false,
        };
        proof {
            let o = old(self)@;
            let v = self@;
            if o.wf() {
                let sid = session_id.0;
                let ws = o.sessions[sid].windows@;
                assert(ws.contains(id));
                lemma_first_position(ws, id);
                let i = first_position(ws, id);
                let rest = ws.remove(i);
                assert(v.sessions[sid].windows@ == rest);
                assert forall|a: int, b: int| 0 <= a < b < rest.len() implies rest[a] != rest[b] by {
                    let a2 = if a < i { a } else { a + 1 };
                    let b2 = if b < i { b } else { b + 1 };
                    assert(rest[a] == ws[a2]);
                    assert(rest[b] == ws[b2]);
                }
                assert(rest.no_duplicates());
                assert forall|w: u64| #[trigger] v.windows.contains_key(w) implies v.sessions[v.windows[
                    w].session_id.0].windows@.contains(SessionWindowId(w)) by {
                    if o.windows[w].session_id.0 == sid {
                        let j = choose|j: int| 0 <= j < ws.len() && ws[j] == SessionWindowId(w);
                        if j < i {
                            assert(rest[j] == SessionWindowId(w));
                        } else {
                            assert(j != i);
                            assert(rest[j - 1] == SessionWindowId(w));
                        }
                    }
                }
                assert forall|k: u64, j: int|
                    v.sessions.contains_key(k) && 0 <= j < v.sessions[k].windows@.len() implies {
                    &&& v.windows.contains_key(#[trigger] v.sessions[k].windows@[j].0)
                    &&& v.windows[v.sessions[k].windows@[j].0].session_id == SessionId(k)
                } by {
                    if k == sid {
                        let j2 = if j < i { j } else { j + 1 };
                        assert(rest[j] == ws[j2]);
                        assert(ws[j2] != ws[i]);
                        assert(o.windows.contains_key(o.sessions[k].windows@[j2].0));
                    } else {
                        assert(v.sessions[k].windows@[j] == o.sessions[k].windows@[j]);
                    }
                }
                assert(v.wf());
            }
        }
        if should_kill_session {
            let ghost mid = self@;
            let ghost sid = session_id.0;
            self.kill_session(session_id);
            proof {
                let s = old(self)@.sessions[sid];
                let v1 = SessionManagerView { windows: old(self)@.windows.remove(id.0), ..old(self)@ };
                if s.windows@.contains(id) {
                    lemma_first_position(s.windows@, id);
                    assert(s.windows@.len() == 1);
                    assert(s.windows@ =~= seq![id]);
                    assert(window_keys(s.windows@) =~= set![id.0]);
                }
                assert(window_keys(mid.sessions[sid].windows@) =~= Set::empty());
                assert(self@.windows =~= v1.after_kill(sid).windows);
                assert(self@.sessions =~= v1.after_kill(sid).sessions);
                assert(self@.names =~= v1.after_kill(sid).names);
            }
        }
        true
    }

    /// Rename a window.
    pub fn rename_window(&mut self, id: SessionWindowId, name: &str) -> (r: bool)
        ensures
            old(self)@.rename_window_post(final(self)@, id, name@, r),
            old(self)@.wf() ==> final(self)@.wf(),
    {
        match hash_map_get_mut(&mut self.windows, id.0) {
            Some(window) => {
                window.name = String::from_str(name);
                true
            },
            None => false,
        }
    }

    /// Attach to a session; the session attached before, if any, is
    /// detached first.
    pub fn attach_session(&mut self, id: SessionId) -> (r: Result<(), String>)
        ensures
            old(self)@.attach_session_post(final(self)@, id, r),
            old(self)@.wf() ==> final(self)@.wf(),
    {
        if !self.sessions.contains_key(&id.0) {
            return Err(String::from_str("Session not found"));
        }
        match self.attached_session {
            Some(current) => {
                match hash_map_get_mut(&mut self.sessions, current.0) {
                    Some(session) => session.detach(),
                    None => {},
                }
            },
            None => {},
        }
        match hash_map_get_mut(&mut self.sessions, id.0) {
            Some(session) => session.attach(),
            None => {},
        }
        self.attached_session = Some(id);
        Ok(())
    }

    /// Detach from the current session; a session marked to be killed on
    /// detach is killed.
    pub fn detach_session(&mut self) -> (r: Option<SessionId>)
        ensures
            old(self)@.detach_session_post(final(self)@, r),
            old(self)@.wf() ==> final(self)@.wf(),
    {
        let session_id = match self.attached_session {
            Some(id) => id,
            None => return None,
        };
        let kill = match hash_map_get_mut(&mut self.sessions, session_id.0) {
            Some(session) => {
                session.detach();
                session.kill_on_detach
            },
            None => false,
        };
        if kill {
            let ghost sid = session_id.0;
            self.kill_session(session_id);
            proof {
                assert(self.sessions@ =~= old(self)@.after_kill(sid).sessions);
            }
        }
        self.attached_session = None;
        Some(session_id)
    }

    /// Get the attached session ID.
    pub fn attached_session(&self) -> (r: Option<SessionId>)
        ensures
            r == self@.attached_session,
    {
        self.attached_session
    }

    /// Get the attached session.
    pub fn attached(&self) -> (r: Option<&Session>)
        ensures
            r is Some <==> self@.attached() is Some,
            r is Some ==> *r.unwrap() == self@.attached()->Some_0,
    {
        match self.attached_session {
            Some(id) => self.sessions.get(&id.0),
            None => None,
        }
    }

    /// Check if a session exists.
    pub fn session_exists(&self, name: &str) -> (r: bool)
        ensures
            r == self@.names.contains_key(name@),
    {
        self.session_names.contains_key(name)
    }

    /// Get session count.
    pub fn session_count(&self) -> (n: usize)
        ensures
            n == self@.sessions.len(),
    {
        self.sessions.len()
    }

    /// The number the next session id will carry.
    pub fn next_session_id(&self) -> (n: u64)
        ensures
            n == self@.next_session_id,
    {
        self.next_session_id
    }

    /// The number the next window id will carry.
    pub fn next_window_id(&self) -> (n: u64)
        ensures
            n == self@.next_window_id,
    {
        self.next_window_id
    }

    /// Get window count across all sessions.
    pub fn total_window_count(&self) -> (n: usize)
        ensures
            n == self@.windows.len(),
    {
        self.windows.len()
    }

    /// List all sessions, each once, in the map's order.
    pub fn list_sessions(&self) -> (r: Vec<&Session>)
        ensures
            self@.is_listing(r@.unref()),
            r@.len() == self@.sessions.len(),
            r@.unref().to_set() == self@.sessions.values(),
    {
        let ghost v = self@;
        let ghost keys = vstd::std_specs::hash::spec_keys_iter(&self.sessions).remaining();
        let mut out: Vec<&Session> = Vec::new();
        for k in it: self.sessions.keys()
            invariant
                it.seq() == keys,
                keys.unref().to_set() == v.sessions.dom(),
                keys.no_duplicates(),
                v == self@,
                out@.len() == it.index(),
                forall|i: int| 0 <= i < out@.len() ==> *out@[i] == v.sessions[*keys[i]],
        {
            let key = *k;
            proof {
                assert(keys.unref().to_set().contains(key)) by {
                    assert(keys.unref()[it.index() as int] == key);
                }
            }
            match self.sessions.get(&key) {
                Some(session) => out.push(session),
                None => {},
            }
        }
        proof {
            let ks = keys.unref();
            let ss = out@.unref();
            assert forall|i: int, j: int| 0 <= i < ks.len() && 0 <= j < ks.len() && i != j implies ks[i]
                != ks[j] by {
                assert(keys[i] != keys[j]);
            }
            assert(v.lists_keys(ss, ks));
            assert(v.sessions.len() == ks.len()) by {
                ks.unique_seq_to_set();
            }
            assert forall|x: Session| ss.to_set().contains(x) <==> v.sessions.values().contains(x) by {
                if ss.to_set().contains(x) {
                    let i = choose|i: int| 0 <= i < ss.len() && ss[i] == x;
                    assert(ks.to_set().contains(ks[i]));
                }
                if v.sessions.values().contains(x) {
                    let k = choose|k: u64| v.sessions.contains_key(k) && v.sessions[k] == x;
                    assert(ks.to_set().contains(k));
                    let i = choose|i: int| 0 <= i < ks.len() && ks[i] == k;
                    assert(ss[i] == x);
                }
            }
            assert(ss.to_set() =~= v.sessions.values());
        }
        out
    }

    /// Select the next window in the attached session, wrapping around at
    /// the end. With at most one window, the active window is returned and
    /// nothing changes.
    pub fn next_window(&mut self) -> (r: Option<SessionWindowId>)
        requires
            old(self)@.attached() is Some && old(self)@.attached()->Some_0.windows@.len() > 1
                ==> old(self)@.attached()->Some_0.active_window_index < usize::MAX,
        ensures
            old(self)@.next_window_post(final(self)@, r),
            old(self)@.wf() ==> final(self)@.wf(),
    {
        let sid = match self.attached_session {
            Some(id) => id,
            None => return None,
        };
        let (new_index, new_window) = match self.sessions.get(&sid.0) {
            Some(session) => {
                if session.windows.len() <= 1 {
                    return session.active_window();
                }
                let new_index = (session.active_window_index + 1) % session.windows.len();
                (new_index, session.windows[new_index])
            },
            None => return None,
        };
        match hash_map_get_mut(&mut self.sessions, sid.0) {
            Some(session) => session.active_window_index = new_index,
            None => {},
        }
        Some(new_window)
    }

    /// Select the previous window in the attached session, wrapping around
    /// at the start. With at most one window, the active window is returned
    /// and nothing changes.
    pub fn previous_window(&mut self) -> (r: Option<SessionWindowId>)
        requires
            old(self)@.attached() is Some && old(self)@.attached()->Some_0.windows@.len() > 1
                && old(self)@.attached()->Some_0.active_window_index != 0
                ==> old(self)@.attached()->Some_0.active_window_index - 1
                < old(self)@.attached()->Some_0.windows@.len(),
        ensures
            old(self)@.previous_window_post(final(self)@, r),
            old(self)@.wf() ==> final(self)@.wf(),
    {
        let sid = match self.attached_session {
            Some(id) => id,
            None => return None,
        };
        let (new_index, new_window) = match self.sessions.get(&sid.0) {
            Some(session) => {
                if session.windows.len() <= 1 {
                    return session.active_window();
                }
                let new_index = if session.active_window_index == 0 {
                    session.windows.len() - 1
                } else {
                    session.active_window_index - 1
                };
                (new_index, session.windows[new_index])
            },
            None => return None,
        };
        match hash_map_get_mut(&mut self.sessions, sid.0) {
            Some(session) => session.active_window_index = new_index,
            None => {},
        }
        Some(new_window)
    }

    /// Select a window of the attached session by index.
    pub fn select_window(&mut self, index: usize) -> (r: Option<SessionWindowId>)
        ensures
            old(self)@.select_window_post(final(self)@, index, r),
            old(self)@.wf() ==> final(self)@.wf(),
    {
        let sid = match self.attached_session {
            Some(id) => id,
            None => return None,
        };
        let window_id = match self.sessions.get(&sid.0) {
            Some(session) => {
                if index >= session.windows.len() {
                    return None;
                }
                session.windows[index]
            },
            None => return None,
        };
        match hash_map_get_mut(&mut self.sessions, sid.0) {
            Some(session) => session.active_window_index = index,
            None => {},
        }
        Some(window_id)
    }

    /// Save the sessions: a snapshot of every session and window, the id
    /// counters and the attached session, for the program to write to its
    /// storage.
    pub fn save(&self) -> (r: Result<SessionSnapshot, String>)
        requires
            self@.wf(),
        ensures
            r is Ok,
            r matches Ok(snap) && snap.saved_from(self@),
    {
        let ghost v = self@;
        let ghost skeys = vstd::std_specs::hash::spec_keys_iter(&self.sessions).remaining();
        let mut sessions: Vec<Session> = Vec::new();
        for k in it: self.sessions.keys()
            invariant
                it.seq() == skeys,
                skeys.unref().to_set() == v.sessions.dom(),
                skeys.no_duplicates(),
                v == self@,
                v.wf(),
                sessions@.len() == it.index(),
                forall|i: int| 0 <= i < sessions@.len() ==> sessions@[i].id.0 == *skeys[i]
                    && (#[trigger] sessions@[i]).equal_state(v.sessions[*skeys[i]]),
        {
            let key = *k;
            proof {
                assert(skeys.unref().to_set().contains(key)) by {
                    assert(skeys.unref()[it.index() as int] == key);
                }
            }
            match self.sessions.get(&key) {
                Some(session) => sessions.push(session.clone_state()),
                None => {},
            }
        }
        let ghost wkeys = vstd::std_specs::hash::spec_keys_iter(&self.windows).remaining();
        let mut windows: Vec<Window> = Vec::new();
        for k in it: self.windows.keys()
            invariant
                it.seq() == wkeys,
                wkeys.unref().to_set() == v.windows.dom(),
                wkeys.no_duplicates(),
                v == self@,
                v.wf(),
                windows@.len() == it.index(),
                forall|i: int| 0 <= i < windows@.len() ==> windows@[i].id.0 == *wkeys[i]
                    && (#[trigger] windows@[i]).equal_state(v.windows[*wkeys[i]]),
        {
            let key = *k;
            proof {
                assert(wkeys.unref().to_set().contains(key)) by {
                    assert(wkeys.unref()[it.index() as int] == key);
                }
            }
            match self.windows.get(&key) {
                Some(window) => windows.push(window.clone_state()),
                None => {},
            }
        }
        let snap = SessionSnapshot {
            sessions,
            windows,
            next_session_id: self.next_session_id,
            next_window_id: self.next_window_id,
            attached_session: self.attached_session,
        };
        proof {
            lemma_saved_keys_cover(skeys.unref(), v.sessions.dom());
            lemma_saved_keys_cover(wkeys.unref(), v.windows.dom());
            assert forall|k: u64| #[trigger] v.sessions.contains_key(k) implies exists|i: int|
                0 <= i < snap.sessions@.len() && snap.sessions@[i].id.0 == k by {
                let i = choose|i: int| 0 <= i < skeys.unref().len() && skeys.unref()[i] == k;
                assert(snap.sessions@[i].id.0 == k);
            }
            assert forall|k: u64| #[trigger] v.windows.contains_key(k) implies exists|i: int|
                0 <= i < snap.windows@.len() && snap.windows@[i].id.0 == k by {
                let i = choose|i: int| 0 <= i < wkeys.unref().len() && wkeys.unref()[i] == k;
                assert(snap.windows@[i].id.0 == k);
            }
            assert forall|i: int, j: int| 0 <= i < j < snap.sessions@.len() implies snap.sessions@[i].id
                != snap.sessions@[j].id by {
                assert(skeys[i] != skeys[j]);
            }
            assert forall|i: int, j: int| 0 <= i < j < snap.windows@.len() implies snap.windows@[i].id
                != snap.windows@[j].id by {
                assert(wkeys[i] != wkeys[j]);
            }
            assert forall|i: int| 0 <= i < snap.sessions@.len() implies v.sessions.contains_key(
                #[trigger] snap.sessions@[i].id.0,
            ) by {
                assert(skeys.unref()[i] == *skeys[i]);
                assert(skeys.unref().to_set().contains(skeys.unref()[i]));
            }
            assert forall|i: int| 0 <= i < snap.windows@.len() implies v.windows.contains_key(
                #[trigger] snap.windows@[i].id.0,
            ) by {
                assert(wkeys.unref()[i] == *wkeys[i]);
                assert(wkeys.unref().to_set().contains(wkeys.unref()[i]));
            }
        }
        Ok(snap)
    }

    /// Load sessions: replace every session, window, name, id counter and
    /// the attached session by those of a snapshot the program read from
    /// its storage; the storage path stays. A snapshot that does not
    /// describe a well-formed manager is refused, and nothing changes.
    pub fn load(&mut self, snapshot: SessionSnapshot) -> (r: Result<(), String>)
        ensures
            r is Ok <==> snapshot.is_valid(),
            r is Ok ==> final(self)@ == snapshot.restored(old(self)@.storage_path),
            r is Ok ==> final(self)@.wf(),
            r is Err ==> r->Err_0@ == "Invalid session snapshot"@ && final(self)@ == old(self)@,
    {
        if !snapshot.check() {
            return Err(String::from_str("Invalid session snapshot"));
        }
        proof {
            lemma_valid_restores_wf(snapshot, self@.storage_path);
        }
        let ghost snap = snapshot;
        let SessionSnapshot { sessions, windows, next_session_id, next_window_id, attached_session } =
            snapshot;
        let mut sessions = sessions;
        let mut windows = windows;
        let mut session_map: HashMap<u64, Session> = HashMap::new();
        let mut names: StringHashMap<SessionId> = StringHashMap::new();
        let ghost ss = snap.sessions@;
        while sessions.len() > 0
            invariant
                sessions@ == ss.subrange(0, sessions@.len() as int),
                sessions@.len() <= ss.len(),
                session_map@ == keyed_sessions(ss.subrange(sessions@.len() as int, ss.len() as int)),
                names@ == session_names_of(ss.subrange(sessions@.len() as int, ss.len() as int)),
            decreases sessions@.len(),
        {
            let ghost n = sessions@.len() as int;
            let session = sessions.pop().unwrap();
            proof {
                assert(ss.subrange(n - 1, ss.len() as int).drop_first() =~= ss.subrange(n, ss.len() as int));
                assert(ss.subrange(n - 1, ss.len() as int)[0] == session);
                assert(sessions@ =~= ss.subrange(0, n - 1));
            }
            names.insert(session.name.clone(), session.id);
            session_map.insert(session.id.0, session);
        }
        let mut window_map: HashMap<u64, Window> = HashMap::new();
        let ghost ws = snap.windows@;
        while windows.len() > 0
            invariant
                windows@ == ws.subrange(0, windows@.len() as int),
                windows@.len() <= ws.len(),
                window_map@ == keyed_windows(ws.subrange(windows@.len() as int, ws.len() as int)),
            decreases windows@.len(),
        {
            let ghost n = windows@.len() as int;
            let window = windows.pop().unwrap();
            proof {
                assert(ws.subrange(n - 1, ws.len() as int).drop_first() =~= ws.subrange(n, ws.len() as int));
                assert(ws.subrange(n - 1, ws.len() as int)[0] == window);
                assert(windows@ =~= ws.subrange(0, n - 1));
            }
            window_map.insert(window.id.0, window);
        }
        proof {
            assert(ss.subrange(0, ss.len() as int) =~= ss);
            assert(ws.subrange(0, ws.len() as int) =~= ws);
        }
        self.sessions = session_map;
        self.windows = window_map;
        self.session_names = names;
        self.next_session_id = next_session_id;
        self.next_window_id = next_window_id;
        self.attached_session = attached_session;
        Ok(())
    }
}

} // verus!
