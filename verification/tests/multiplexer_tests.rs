use cmux::multiplexer::{format_session_line, Multiplexer, MultiplexerEvent, MultiplexerResult};
use cmux::pane::{Direction, PaneId, SplitDirection};
use cmux::session::{SessionId, SessionWindowId};

fn mux_with_window(winit_id: u64) -> (Multiplexer, SessionWindowId) {
    let mut mux = Multiplexer::new();
    mux.initialize_default_session().unwrap();
    let w = mux.create_window(winit_id, 100).unwrap();
    (mux, w)
}

#[test]
fn test_multiplexer_creation() {
    let mux = Multiplexer::new();
    assert!(!mux.has_windows());
    assert_eq!(mux.window_count(), 0);
}

#[test]
fn test_default_session() {
    let mut mux = Multiplexer::new();
    let id = mux.initialize_default_session().unwrap();

    assert_eq!(mux.sessions.attached_session(), Some(id));
}

#[test]
fn default_session_is_named_zero() {
    let mut mux = Multiplexer::new();
    let id = mux.initialize_default_session().unwrap();
    assert_eq!(id, SessionId(1));
    assert!(mux.sessions.session_exists("0"));
    // A second default session clashes with the first.
    assert_eq!(
        mux.initialize_default_session(),
        Err("Session '0' already exists".to_string())
    );
}

#[test]
fn create_window_needs_an_attached_session() {
    let mut mux = Multiplexer::new();
    assert_eq!(mux.create_window(5, 100), None);
    assert_eq!(mux.window_count(), 0);
}

#[test]
fn create_window_maps_platform_window_and_makes_a_root_pane() {
    let (mux, w) = mux_with_window(77);
    assert_eq!(w, SessionWindowId(1));
    assert_eq!(mux.window_count(), 1);
    assert!(mux.has_windows());
    assert_eq!(mux.get_window_id(77), Some(w));
    assert_eq!(mux.get_winit_id(w), Some(77));
    assert_eq!(mux.get_window_id(78), None);
    assert_eq!(mux.active_pane(w), Some(PaneId(1)));
    assert_eq!(mux.active_pane_for_winit(77), Some(PaneId(1)));
    assert_eq!(mux.active_window(), Some(w));
    assert_eq!(mux.sessions.get_window(w).unwrap().name, "1");
    assert_eq!(mux.pane_manager(w).unwrap().len(), 1);
    assert_eq!(mux.window_ids(), vec![w]);
    assert_eq!(mux.pane_manager(w).unwrap().get(PaneId(1)).unwrap().terminal, 100);
    assert_eq!(mux.input_pane(w), Some(PaneId(1)));
}

#[test]
fn split_and_navigate_update_the_window() {
    let (mut mux, w) = mux_with_window(3);
    assert_eq!(mux.split_pane(w, SplitDirection::Vertical, 7), Some(PaneId(3)));
    let window = mux.sessions.get_window(w).unwrap();
    assert_eq!(window.panes, vec![PaneId(3)]);
    assert_eq!(window.active_pane, Some(PaneId(3)));
    assert_eq!(mux.pane_manager(w).unwrap().len(), 2);

    assert_eq!(mux.navigate_pane(w, Direction::Left), Some(PaneId(2)));
    assert_eq!(mux.sessions.get_window(w).unwrap().active_pane, Some(PaneId(2)));
    assert_eq!(mux.navigate_pane(w, Direction::Left), None);
    assert_eq!(mux.split_pane(SessionWindowId(9), SplitDirection::Vertical, 7), None);
}

#[test]
fn closing_one_of_two_panes_keeps_the_window() {
    let (mut mux, w) = mux_with_window(3);
    mux.split_pane(w, SplitDirection::Horizontal, 7).unwrap();
    assert!(mux.close_pane(w));
    assert_eq!(mux.window_count(), 1);
    assert_eq!(mux.pane_manager(w).unwrap().len(), 1);
    assert_eq!(mux.active_pane(w), Some(PaneId(2)));
    let window = mux.sessions.get_window(w).unwrap();
    assert!(window.panes.is_empty());
    assert_eq!(window.active_pane, Some(PaneId(2)));
}

#[test]
fn closing_the_last_pane_closes_the_window() {
    let (mut mux, w) = mux_with_window(3);
    assert!(mux.close_pane(w));
    assert_eq!(mux.window_count(), 0);
    assert_eq!(mux.get_window_id(3), None);
    assert!(mux.sessions.get_window(w).is_none());
    assert!(!mux.close_pane(w));
}

#[test]
fn close_window_and_remove_by_platform_id() {
    let (mut mux, w) = mux_with_window(10);
    let w2 = mux.create_window(11, 100).unwrap();
    assert!(mux.close_window(w));
    assert!(!mux.close_window(w));
    assert_eq!(mux.window_count(), 1);
    assert_eq!(mux.remove_window_by_winit(11), Some(w2));
    assert_eq!(mux.remove_window_by_winit(11), None);
    assert!(!mux.has_windows());
    assert_eq!(mux.sessions.total_window_count(), 0);
}

#[test]
fn window_cycling_goes_through_the_session() {
    let (mut mux, w1) = mux_with_window(1);
    let w2 = mux.create_window(2, 100).unwrap();
    assert_eq!(mux.active_window(), Some(w1));
    assert_eq!(mux.next_window(), Some(w2));
    assert_eq!(mux.next_window(), Some(w1));
    assert_eq!(mux.previous_window(), Some(w2));
    assert_eq!(mux.select_window(0), Some(w1));
    assert_eq!(mux.select_window(5), None);
    assert_eq!(mux.active_window(), Some(w1));
    assert!(mux.rename_window("editor"));
    assert_eq!(mux.sessions.get_window(w1).unwrap().name, "editor");
    assert_eq!(mux.sessions.get_window(w2).unwrap().name, "2");
}

#[test]
fn rename_window_without_session_fails() {
    let mut mux = Multiplexer::new();
    assert!(!mux.rename_window("x"));
}

#[test]
fn session_commands_by_name() {
    let mut mux = Multiplexer::new();
    mux.initialize_default_session().unwrap();
    let work = mux.create_session("work").unwrap();
    assert_eq!(mux.attach_session("work"), Ok(()));
    assert_eq!(mux.sessions.attached_session(), Some(work));
    assert_eq!(mux.attach_session("nope"), Err("Session 'nope' not found".to_string()));
    assert_eq!(mux.rename_session("play"), Ok(()));
    assert!(mux.sessions.session_exists("play"));
    assert!(!mux.sessions.session_exists("work"));
    assert_eq!(mux.kill_session("nope"), Err("Session 'nope' not found".to_string()));
    assert_eq!(mux.kill_session("play"), Ok(()));
    assert_eq!(mux.sessions.session_count(), 1);
    assert_eq!(mux.detach_session(), None);
    assert_eq!(mux.rename_session("x"), Err("No session attached".to_string()));
}

#[test]
fn detach_returns_the_detached_session() {
    let mut mux = Multiplexer::new();
    let id = mux.initialize_default_session().unwrap();
    assert_eq!(mux.detach_session(), Some(id));
    assert_eq!(mux.sessions.attached_session(), None);
}

#[test]
fn list_sessions_without_sessions() {
    let mux = Multiplexer::new();
    assert_eq!(mux.list_sessions(), "no server running on /tmp/cmux");
}

#[test]
fn list_sessions_shows_one_line_per_session() {
    let (mux, _) = mux_with_window(1);
    let out = mux.list_sessions();
    assert!(out.starts_with("* 0: 1 window (created "), "{}", out);
    assert!(out.ends_with("s)\n"), "{}", out);
    let age = &out["* 0: 1 window (created ".len()..out.len() - 2];
    assert!(age.chars().next().unwrap().is_ascii_digit(), "{}", out);
    assert_eq!(out.lines().count(), 1);
}

#[test]
fn format_session_line_exact() {
    assert_eq!(format_session_line(true, "work", 1, "5s"), "* work: 1 window (created 5s)\n");
    assert_eq!(format_session_line(false, "0", 12, "1ms"), "  0: 12 windows (created 1ms)\n");
    assert_eq!(format_session_line(false, "a", 0, ""), "  a: 0 windows (created )\n");
}

#[test]
fn handle_event_session_events() {
    let mut mux = Multiplexer::new();
    let r = mux.handle_event(MultiplexerEvent::CreateSession { name: "a".to_string() });
    assert!(matches!(r, Some(MultiplexerResult::SessionCreated(SessionId(1)))));
    let r = mux.handle_event(MultiplexerEvent::CreateSession { name: "a".to_string() });
    match r {
        Some(MultiplexerResult::Error(e)) => assert_eq!(e, "Session 'a' already exists"),
        other => panic!("unexpected {:?}", other),
    }
    let r = mux.handle_event(MultiplexerEvent::AttachSession { name: "a".to_string() });
    assert!(matches!(r, Some(MultiplexerResult::Success)));
    let r = mux.handle_event(MultiplexerEvent::RenameSession { name: "b".to_string() });
    assert!(matches!(r, Some(MultiplexerResult::Success)));
    let r = mux.handle_event(MultiplexerEvent::DetachSession);
    assert!(matches!(r, Some(MultiplexerResult::ShouldExit)));
    let r = mux.handle_event(MultiplexerEvent::KillSession { name: "zzz".to_string() });
    match r {
        Some(MultiplexerResult::Error(e)) => assert_eq!(e, "Session 'zzz' not found"),
        other => panic!("unexpected {:?}", other),
    }
    let r = mux.handle_event(MultiplexerEvent::KillSession { name: "b".to_string() });
    assert!(matches!(r, Some(MultiplexerResult::Success)));
    assert_eq!(mux.sessions.session_count(), 0);
}

#[test]
fn handle_event_window_and_pane_events() {
    let (mut mux, w) = mux_with_window(4);
    let sid = SessionId(1);
    let r = mux.handle_event(MultiplexerEvent::SplitPane { window_id: w, direction: SplitDirection::Vertical });
    assert!(r.is_none());
    assert_eq!(mux.pane_manager(w).unwrap().len(), 1);
    mux.split_pane(w, SplitDirection::Vertical, 7).unwrap();
    let r = mux.handle_event(MultiplexerEvent::NavigatePane { window_id: w, direction: Direction::Left });
    assert!(matches!(r, Some(MultiplexerResult::Success)));
    assert_eq!(mux.active_pane(w), Some(PaneId(2)));
    let r = mux.handle_event(MultiplexerEvent::RenameWindow { window_id: w, name: "top".to_string() });
    assert!(matches!(r, Some(MultiplexerResult::Success)));
    assert_eq!(mux.sessions.get_window(w).unwrap().name, "top");
    let r = mux.handle_event(MultiplexerEvent::CreateWindow { session_id: sid });
    assert!(matches!(r, Some(MultiplexerResult::Success)));
    assert_eq!(mux.window_count(), 1);
    let r = mux.handle_event(MultiplexerEvent::NextWindow { session_id: sid });
    assert!(matches!(r, Some(MultiplexerResult::Success)));
    let r = mux.handle_event(MultiplexerEvent::PreviousWindow { session_id: sid });
    assert!(matches!(r, Some(MultiplexerResult::Success)));
    let r = mux.handle_event(MultiplexerEvent::SelectWindow { session_id: sid, index: 0 });
    assert!(matches!(r, Some(MultiplexerResult::Success)));
    let r = mux.handle_event(MultiplexerEvent::ClosePane { window_id: w });
    assert!(matches!(r, Some(MultiplexerResult::Success)));
    assert_eq!(mux.pane_manager(w).unwrap().len(), 1);
    let r = mux.handle_event(MultiplexerEvent::CloseWindow { window_id: w });
    assert!(matches!(r, Some(MultiplexerResult::Success)));
    assert_eq!(mux.window_count(), 0);
}

#[test]
fn pane_manager_mut_gives_access() {
    let (mut mux, w) = mux_with_window(4);
    assert!(mux.pane_manager_mut(w).unwrap().set_active(PaneId(1)));
    assert!(mux.pane_manager_mut(SessionWindowId(40)).is_none());
    assert_eq!(mux.input_pane(SessionWindowId(40)), None);
}

#[test]
fn close_undoes_create_window() {
    let (mut mux, w1) = mux_with_window(20);
    let before = mux.sessions.get_session(SessionId(1)).unwrap().windows.clone();
    let w2 = mux.create_window(21, 100).unwrap();
    assert_eq!(mux.window_count(), 2);
    assert!(mux.close_window(w2));
    assert_eq!(mux.window_ids(), vec![w1]);
    assert_eq!(mux.get_window_id(21), None);
    assert_eq!(mux.get_window_id(20), Some(w1));
    assert_eq!(mux.get_winit_id(w2), None);
    assert_eq!(mux.sessions.get_session(SessionId(1)).unwrap().windows, before);
    assert_eq!(mux.sessions.total_window_count(), 1);
}

#[test]
fn can_create_window_reports_room() {
    let mut mux = Multiplexer::new();
    assert!(mux.can_create_window());
    mux.initialize_default_session().unwrap();
    assert!(mux.can_create_window());
}
