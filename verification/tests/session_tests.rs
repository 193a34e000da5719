use cmux::pane::PaneId;
use cmux::session::{Session, SessionId, SessionManager, SessionWindowId, Window};

#[test]
fn test_session_creation() {
    let mut manager = SessionManager::new();
    let id = manager.create_session("test").unwrap();

    assert_eq!(manager.session_count(), 1);
    assert!(manager.session_exists("test"));

    let session = manager.get_session(id).unwrap();
    assert_eq!(session.name, "test");
}

#[test]
fn test_duplicate_session_name() {
    let mut manager = SessionManager::new();
    manager.create_session("test").unwrap();

    let result = manager.create_session("test");
    assert!(result.is_err());
}

#[test]
fn test_window_creation() {
    let mut manager = SessionManager::new();
    let session_id = manager.create_session("test").unwrap();

    let window_id = manager.create_window(session_id, "window1").unwrap();

    let session = manager.get_session(session_id).unwrap();
    assert_eq!(session.window_count(), 1);

    let window = manager.get_window(window_id).unwrap();
    assert_eq!(window.name, "window1");
}

#[test]
fn test_session_attach() {
    let mut manager = SessionManager::new();
    let id = manager.create_session("test").unwrap();

    manager.attach_session(id).unwrap();
    assert_eq!(manager.attached_session(), Some(id));

    let session = manager.get_session(id).unwrap();
    assert!(session.is_attached);
}

#[test]
fn duplicate_name_error_message() {
    let mut manager = SessionManager::new();
    manager.create_session("work").unwrap();
    assert_eq!(manager.create_session("work"), Err("Session 'work' already exists".to_string()));
    assert_eq!(manager.session_count(), 1);
}

#[test]
fn session_ids_count_up_from_one() {
    let mut manager = SessionManager::new();
    assert_eq!(manager.create_session("a"), Ok(SessionId(1)));
    assert_eq!(manager.create_session("b"), Ok(SessionId(2)));
    let w1 = manager.create_window(SessionId(1), "x").unwrap();
    let w2 = manager.create_window(SessionId(2), "y").unwrap();
    assert_eq!(w1, SessionWindowId(1));
    assert_eq!(w2, SessionWindowId(2));
    assert_eq!(manager.total_window_count(), 2);
}

#[test]
fn create_window_in_unknown_session_is_refused() {
    let mut manager = SessionManager::new();
    assert_eq!(manager.create_window(SessionId(7), "w"), None);
    assert_eq!(manager.total_window_count(), 0);
}

#[test]
fn kill_session_removes_name_windows_and_attachment() {
    let mut manager = SessionManager::new();
    let id = manager.create_session("s").unwrap();
    let other = manager.create_session("t").unwrap();
    manager.create_window(id, "a").unwrap();
    manager.create_window(id, "b").unwrap();
    let kept = manager.create_window(other, "c").unwrap();
    manager.attach_session(id).unwrap();

    assert!(manager.kill_session(id));
    assert!(!manager.session_exists("s"));
    assert_eq!(manager.session_count(), 1);
    assert_eq!(manager.total_window_count(), 1);
    assert!(manager.get_window(kept).is_some());
    assert_eq!(manager.attached_session(), None);
    assert!(!manager.kill_session(id));
}

#[test]
fn rename_session_moves_the_name() {
    let mut manager = SessionManager::new();
    let id = manager.create_session("old").unwrap();
    manager.create_session("taken").unwrap();

    assert_eq!(manager.rename_session(id, "taken"), Err("Session 'taken' already exists".to_string()));
    assert_eq!(manager.rename_session(SessionId(99), "fresh"), Err("Session not found".to_string()));
    assert_eq!(manager.rename_session(id, "new"), Ok(()));
    assert!(!manager.session_exists("old"));
    assert!(manager.session_exists("new"));
    assert_eq!(manager.get_session_by_name("new").unwrap().id, id);
    assert!(manager.get_session_by_name("old").is_none());
}

#[test]
fn attach_switches_the_attached_session() {
    let mut manager = SessionManager::new();
    let a = manager.create_session("a").unwrap();
    let b = manager.create_session("b").unwrap();
    manager.attach_session(a).unwrap();
    assert!(manager.get_session(a).unwrap().last_attached.is_some());
    manager.attach_session(b).unwrap();
    assert!(!manager.get_session(a).unwrap().is_attached);
    assert!(manager.get_session(b).unwrap().is_attached);
    assert_eq!(manager.attached().unwrap().id, b);
    assert_eq!(manager.attach_session(SessionId(42)), Err("Session not found".to_string()));
}

#[test]
fn detach_kills_session_marked_kill_on_detach() {
    let mut manager = SessionManager::new();
    let a = manager.create_session("a").unwrap();
    manager.attach_session(a).unwrap();
    assert_eq!(manager.detach_session(), Some(a));
    assert!(!manager.get_session(a).unwrap().is_attached);
    assert_eq!(manager.detach_session(), None);

    manager.attach_session(a).unwrap();
    manager.get_session_mut(a).unwrap().kill_on_detach = true;
    assert_eq!(manager.detach_session(), Some(a));
    assert!(manager.get_session(a).is_none());
    assert!(!manager.session_exists("a"));
}

#[test]
fn kill_last_window_kills_session_marked_kill_on_detach() {
    let mut manager = SessionManager::new();
    let a = manager.create_session("a").unwrap();
    let w = manager.create_window(a, "w").unwrap();
    manager.get_session_by_name_mut("a").unwrap().kill_on_detach = true;
    assert!(manager.kill_window(w));
    assert_eq!(manager.session_count(), 0);
    assert!(!manager.kill_window(w));
}

#[test]
fn kill_window_keeps_session_without_kill_on_detach() {
    let mut manager = SessionManager::new();
    let a = manager.create_session("a").unwrap();
    let w1 = manager.create_window(a, "one").unwrap();
    let w2 = manager.create_window(a, "two").unwrap();
    assert!(manager.kill_window(w1));
    let s = manager.get_session(a).unwrap();
    assert_eq!(s.windows, vec![w2]);
    assert!(manager.kill_window(w2));
    assert_eq!(manager.session_count(), 1);
    assert_eq!(manager.get_session(a).unwrap().window_count(), 0);
}

#[test]
fn next_and_previous_window_wrap_around() {
    let mut manager = SessionManager::new();
    let a = manager.create_session("a").unwrap();
    assert_eq!(manager.next_window(), None);
    manager.attach_session(a).unwrap();
    assert_eq!(manager.next_window(), None);
    let w1 = manager.create_window(a, "1").unwrap();
    assert_eq!(manager.next_window(), Some(w1));
    let w2 = manager.create_window(a, "2").unwrap();
    let w3 = manager.create_window(a, "3").unwrap();
    assert_eq!(manager.next_window(), Some(w2));
    assert_eq!(manager.next_window(), Some(w3));
    assert_eq!(manager.next_window(), Some(w1));
    assert_eq!(manager.previous_window(), Some(w3));
    assert_eq!(manager.previous_window(), Some(w2));
    assert_eq!(manager.next_window(), Some(w3));
}

#[test]
fn previous_undoes_next() {
    let mut manager = SessionManager::new();
    let a = manager.create_session("a").unwrap();
    manager.attach_session(a).unwrap();
    let w1 = manager.create_window(a, "1").unwrap();
    manager.create_window(a, "2").unwrap();
    manager.next_window();
    assert_eq!(manager.previous_window(), Some(w1));
    assert_eq!(manager.get_session(a).unwrap().active_window_index, 0);
}

#[test]
fn select_window_by_index() {
    let mut manager = SessionManager::new();
    let a = manager.create_session("a").unwrap();
    manager.attach_session(a).unwrap();
    manager.create_window(a, "1").unwrap();
    let w2 = manager.create_window(a, "2").unwrap();
    assert_eq!(manager.select_window(1), Some(w2));
    assert_eq!(manager.get_session(a).unwrap().active_window(), Some(w2));
    assert_eq!(manager.select_window(2), None);
    assert_eq!(manager.get_session(a).unwrap().active_window_index, 1);
}

#[test]
fn rename_window_changes_only_the_name() {
    let mut manager = SessionManager::new();
    let a = manager.create_session("a").unwrap();
    let w = manager.create_window(a, "old").unwrap();
    assert!(manager.rename_window(w, "new"));
    assert_eq!(manager.get_window(w).unwrap().name, "new");
    assert_eq!(manager.get_window(w).unwrap().session_id, a);
    assert!(!manager.rename_window(SessionWindowId(99), "x"));
}

#[test]
fn list_sessions_lists_each_session_once() {
    let mut manager = SessionManager::new();
    manager.create_session("a").unwrap();
    manager.create_session("b").unwrap();
    let mut names: Vec<String> = manager.list_sessions().iter().map(|s| s.name.clone()).collect();
    names.sort();
    assert_eq!(names, vec!["a".to_string(), "b".to_string()]);
}

#[test]
fn load_gives_back_what_save_wrote() {
    let mut m1 = SessionManager::new();
    m1.set_storage_path(std::path::PathBuf::from("/tmp/sessions"));
    let a = m1.create_session("a").unwrap();
    let b = m1.create_session("b").unwrap();
    let w1 = m1.create_window(a, "one").unwrap();
    let w2 = m1.create_window(a, "two").unwrap();
    let w3 = m1.create_window(b, "three").unwrap();
    m1.attach_session(b).unwrap();
    let snapshot = m1.save().unwrap();

    let mut m2 = SessionManager::new();
    m2.set_storage_path(std::path::PathBuf::from("/tmp/sessions"));
    m2.create_session("other").unwrap();
    assert!(m2.load(snapshot).is_ok());

    assert_eq!(m2.session_count(), 2);
    assert!(!m2.session_exists("other"));
    assert_eq!(m2.attached_session(), Some(b));
    assert_eq!(m2.get_session_by_name("a").unwrap().id, a);
    assert_eq!(m2.get_session(a).unwrap().windows, vec![w1, w2]);
    assert_eq!(m2.get_session(b).unwrap().windows, vec![w3]);
    assert!(m2.get_session(b).unwrap().is_attached);
    assert_eq!(m2.get_window(w2).unwrap().name, "two");
    assert_eq!(m2.get_window(w2).unwrap().index, 1);
    assert_eq!(m2.get_window(w3).unwrap().session_id, b);
    assert_eq!(m2.total_window_count(), 3);
    // The counters carry on where the saved manager stopped.
    assert_eq!(m2.create_session("c"), Ok(SessionId(3)));
    assert_eq!(m2.create_window(b, "four"), Some(SessionWindowId(4)));
}

#[test]
fn window_index_is_its_place_in_the_session() {
    let mut manager = SessionManager::new();
    let s = manager.create_session("s").unwrap();
    let w0 = manager.create_window(s, "a").unwrap();
    let w1 = manager.create_window(s, "b").unwrap();
    assert_eq!(manager.get_window(w0).unwrap().index, 0);
    assert_eq!(manager.get_window(w1).unwrap().index, 1);
}

#[test]
fn session_window_list_operations() {
    let mut s = Session::new(SessionId(1), "s");
    assert_eq!(s.active_window(), None);
    assert_eq!(s.add_window(SessionWindowId(5)), 0);
    assert_eq!(s.add_window(SessionWindowId(6)), 1);
    assert_eq!(s.add_window(SessionWindowId(7)), 2);
    assert!(s.set_active_window(SessionWindowId(7)));
    assert_eq!(s.active_window(), Some(SessionWindowId(7)));
    assert!(!s.set_active_window(SessionWindowId(9)));
    assert!(s.remove_window(SessionWindowId(7)));
    assert_eq!(s.active_window_index, 1);
    assert_eq!(s.active_window(), Some(SessionWindowId(6)));
    assert!(!s.remove_window(SessionWindowId(7)));
    assert_eq!(s.window_count(), 2);
    s.attach();
    assert!(s.is_attached && s.last_attached.is_some());
    s.detach();
    assert!(!s.is_attached);
}

#[test]
fn window_pane_list_operations() {
    let mut w = Window::new(SessionWindowId(1), "w", SessionId(1));
    w.add_pane(PaneId(3));
    w.add_pane(PaneId(4));
    assert_eq!(w.active_pane, Some(PaneId(3)));
    assert_eq!(w.pane_count(), 2);
    assert!(w.remove_pane(PaneId(3)));
    assert_eq!(w.active_pane, Some(PaneId(4)));
    assert!(w.remove_pane(PaneId(4)));
    assert_eq!(w.active_pane, None);
    assert!(!w.remove_pane(PaneId(4)));
}

#[test]
fn kill_undoes_create() {
    let mut manager = SessionManager::new();
    let first = manager.create_session("main").unwrap();
    manager.attach_session(first).unwrap();
    manager.create_window(first, "w").unwrap();
    let id = manager.create_session("scratch").unwrap();
    assert!(manager.kill_session(id));
    assert_eq!(manager.session_count(), 1);
    assert!(!manager.session_exists("scratch"));
    assert!(manager.session_exists("main"));
    assert_eq!(manager.total_window_count(), 1);
    assert_eq!(manager.attached_session(), Some(first));
}

#[test]
fn detach_after_attach_gives_back_the_session() {
    let mut manager = SessionManager::new();
    let a = manager.create_session("a").unwrap();
    let b = manager.create_session("b").unwrap();
    manager.attach_session(a).unwrap();
    manager.attach_session(b).unwrap();
    assert_eq!(manager.detach_session(), Some(b));
    assert_eq!(manager.attached_session(), None);
    assert!(!manager.get_session(b).unwrap().is_attached);
    assert!(!manager.get_session(a).unwrap().is_attached);
}

#[test]
fn total_window_count_is_the_sum_over_sessions() {
    let mut manager = SessionManager::new();
    let a = manager.create_session("a").unwrap();
    let b = manager.create_session("b").unwrap();
    manager.create_session("c").unwrap();
    manager.create_window(a, "1").unwrap();
    manager.create_window(a, "2").unwrap();
    let w = manager.create_window(b, "3").unwrap();
    let sum: usize = manager.list_sessions().iter().map(|s| s.window_count()).sum();
    assert_eq!(manager.total_window_count(), 3);
    assert_eq!(sum, 3);
    assert!(manager.kill_window(w));
    let sum: usize = manager.list_sessions().iter().map(|s| s.window_count()).sum();
    assert_eq!(manager.total_window_count(), sum);
}

#[test]
fn load_refuses_an_inconsistent_snapshot() {
    let mut m1 = SessionManager::new();
    let a = m1.create_session("a").unwrap();
    m1.create_window(a, "w").unwrap();

    let mut m2 = SessionManager::new();
    m2.create_session("kept").unwrap();

    let mut unknown_attached = m1.save().unwrap();
    unknown_attached.attached_session = Some(SessionId(99));
    assert_eq!(m2.load(unknown_attached), Err("Invalid session snapshot".to_string()));

    let mut repeated = m1.save().unwrap();
    let copy = repeated.sessions[0].clone_state();
    repeated.sessions.push(copy);
    assert!(m2.load(repeated).is_err());

    let mut orphan = m1.save().unwrap();
    orphan.sessions[0].windows.clear();
    assert!(m2.load(orphan).is_err());

    let mut counter = m1.save().unwrap();
    counter.next_session_id = 1;
    assert!(m2.load(counter).is_err());

    assert_eq!(m2.session_count(), 1);
    assert!(m2.session_exists("kept"));
    assert!(m2.load(m1.save().unwrap()).is_ok());
    assert!(m2.session_exists("a"));
}

#[test]
fn id_counters_are_readable() {
    let mut manager = SessionManager::new();
    assert_eq!(manager.next_session_id(), 1);
    assert_eq!(manager.next_window_id(), 1);
    let s = manager.create_session("s").unwrap();
    manager.create_window(s, "w").unwrap();
    assert_eq!(manager.next_session_id(), 2);
    assert_eq!(manager.next_window_id(), 2);
}
