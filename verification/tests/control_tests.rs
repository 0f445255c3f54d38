use xtop::control::{sort_key_for, Action, Key, Session};
use xtop::process::SortKey;

fn typed(session: &mut Session, text: &str) {
    for c in text.chars() {
        assert_eq!(session.handle_key(Key::Char(c), 0, 0), Action::Continue);
    }
}

#[test]
fn session_starts_with_memory_order_and_one_second() {
    let session = Session::new();
    assert_eq!(session.view.filter_text, "");
    assert!(!session.view.filter_mode);
    assert!(!session.view.detail_visible);
    assert_eq!(session.view.sort_key, SortKey::Memory);
    assert!(!session.view.sort_reverse);
    assert_eq!(session.view.refresh_interval_ms, 1000);
    assert_eq!(session.selection, None);
    assert!(session.fits(0));
    assert!(!session.fits(1));
}

#[test]
fn enter_without_selection_leaves_detail_closed() {
    let mut session = Session::new();
    session.sync(0);
    assert_eq!(session.selection, None);
    assert_eq!(session.handle_key(Key::Enter, 0, 0), Action::Continue);
    assert!(!session.view.detail_visible);
    session.handle_key(Key::Char('s'), 0, 0);
    assert_eq!(session.handle_key(Key::Enter, 0, 0), Action::Continue);
    assert!(!session.view.detail_visible);
}

#[test]
fn enter_with_selection_toggles_detail() {
    let mut session = Session::new();
    session.sync(3);
    session.handle_key(Key::Enter, 3, 5);
    assert!(session.view.detail_visible);
    session.handle_key(Key::Enter, 3, 5);
    assert!(!session.view.detail_visible);
    session.handle_key(Key::Char('s'), 3, 5);
    session.handle_key(Key::Enter, 3, 5);
    assert!(session.view.detail_visible);
    assert!(session.view.filter_mode);
}

#[test]
fn quit_works_outside_filter_mode_only() {
    let mut session = Session::new();
    assert_eq!(session.handle_key(Key::Char('q'), 0, 0), Action::Quit);
    let mut session = Session::new();
    session.handle_key(Key::Char('s'), 0, 0);
    assert_eq!(session.handle_key(Key::Char('q'), 0, 0), Action::Continue);
    assert_eq!(session.view.filter_text, "q");
    session.handle_key(Key::Escape, 0, 0);
    assert_eq!(session.handle_key(Key::Char('q'), 0, 0), Action::Quit);
}

#[test]
fn search_key_enters_filter_mode_and_closes_detail() {
    let mut session = Session::new();
    session.sync(2);
    session.handle_key(Key::Enter, 2, 1);
    assert!(session.view.detail_visible);
    session.handle_key(Key::Char('s'), 2, 1);
    assert!(session.view.filter_mode);
    assert!(!session.view.detail_visible);
    assert_eq!(session.view.filter_text, "");
}

#[test]
fn typing_in_filter_mode_appends_to_the_text() {
    let mut session = Session::new();
    session.handle_key(Key::Char('s'), 0, 0);
    typed(&mut session, "spf+-lq m");
    assert_eq!(session.view.filter_text, "spf+-lq m");
    assert_eq!(session.view.sort_key, SortKey::Memory);
    assert_eq!(session.view.refresh_interval_ms, 1000);
    session.handle_key(Key::Char('\u{e9}'), 0, 0);
    assert_eq!(session.view.filter_text, "spf+-lq m\u{e9}");
}

#[test]
fn escape_leaves_filter_mode_and_clears_the_text() {
    let mut session = Session::new();
    session.handle_key(Key::Char('s'), 0, 0);
    typed(&mut session, "abc");
    session.handle_key(Key::Escape, 0, 0);
    assert!(!session.view.filter_mode);
    assert_eq!(session.view.filter_text, "");
}

#[test]
fn escape_and_backspace_do_nothing_outside_filter_mode() {
    let mut session = Session::new();
    session.sync(2);
    session.handle_key(Key::Enter, 2, 1);
    session.handle_key(Key::Escape, 2, 1);
    session.handle_key(Key::Backspace, 2, 1);
    session.handle_key(Key::Other, 2, 1);
    assert!(session.view.detail_visible);
    assert!(!session.view.filter_mode);
    assert_eq!(session.selection, Some(0));
}

#[test]
fn backspace_drops_the_last_character_then_leaves_filter_mode() {
    let mut session = Session::new();
    session.sync(2);
    session.handle_key(Key::Char('s'), 2, 1);
    typed(&mut session, "ab");
    session.handle_key(Key::Enter, 2, 1);
    assert!(session.view.detail_visible);
    session.handle_key(Key::Backspace, 2, 1);
    assert_eq!(session.view.filter_text, "a");
    assert!(session.view.filter_mode);
    assert!(session.view.detail_visible);
    session.handle_key(Key::Backspace, 2, 1);
    assert_eq!(session.view.filter_text, "");
    assert!(session.view.filter_mode);
    session.handle_key(Key::Backspace, 2, 1);
    assert!(!session.view.filter_mode);
    assert!(!session.view.detail_visible);
    assert_eq!(session.view.filter_text, "");
}

#[test]
fn up_and_down_wrap_around() {
    let mut session = Session::new();
    session.sync(3);
    assert_eq!(session.selection, Some(0));
    session.handle_key(Key::Up, 3, 10);
    assert_eq!(session.selection, Some(2));
    session.handle_key(Key::Down, 3, 10);
    assert_eq!(session.selection, Some(0));
    session.handle_key(Key::Down, 3, 10);
    assert_eq!(session.selection, Some(1));
    session.handle_key(Key::Down, 3, 10);
    assert_eq!(session.selection, Some(2));
    session.handle_key(Key::Up, 3, 10);
    assert_eq!(session.selection, Some(1));
    session.handle_key(Key::Char('s'), 3, 10);
    session.handle_key(Key::Down, 3, 10);
    assert_eq!(session.selection, Some(2));
    session.handle_key(Key::Down, 3, 10);
    assert_eq!(session.selection, Some(0));
}

#[test]
fn moves_do_nothing_on_an_empty_table() {
    let mut session = Session::new();
    session.sync(0);
    for key in [
        Key::Up,
        Key::Down,
        Key::PageUp,
        Key::PageDown,
        Key::Char('f'),
        Key::Char('l'),
    ] {
        assert_eq!(session.handle_key(key, 0, 4), Action::Continue);
        assert_eq!(session.selection, None);
    }
}

#[test]
fn single_row_table_keeps_its_selection() {
    let mut session = Session::new();
    session.sync(1);
    for key in [Key::Up, Key::Down, Key::PageUp, Key::PageDown] {
        session.handle_key(key, 1, 4);
        assert_eq!(session.selection, Some(0));
    }
}

#[test]
fn first_and_last_jump_to_the_ends() {
    let mut session = Session::new();
    session.sync(5);
    session.handle_key(Key::Char('l'), 5, 2);
    assert_eq!(session.selection, Some(4));
    session.handle_key(Key::Char('f'), 5, 2);
    assert_eq!(session.selection, Some(0));
}

#[test]
fn paging_stops_at_the_ends() {
    let mut session = Session::new();
    session.sync(10);
    session.handle_key(Key::PageDown, 10, 4);
    assert_eq!(session.selection, Some(4));
    session.handle_key(Key::PageDown, 10, 4);
    assert_eq!(session.selection, Some(8));
    session.handle_key(Key::PageDown, 10, 4);
    assert_eq!(session.selection, Some(9));
    session.handle_key(Key::PageDown, 10, 4);
    assert_eq!(session.selection, Some(9));
    session.handle_key(Key::PageUp, 10, 4);
    assert_eq!(session.selection, Some(5));
    session.handle_key(Key::PageUp, 10, 4);
    assert_eq!(session.selection, Some(1));
    session.handle_key(Key::PageUp, 10, 4);
    assert_eq!(session.selection, Some(0));
    session.handle_key(Key::PageUp, 10, 0);
    assert_eq!(session.selection, Some(0));
    session.handle_key(Key::PageDown, 10, 0);
    assert_eq!(session.selection, Some(0));
    session.handle_key(Key::PageDown, 10, usize::MAX);
    assert_eq!(session.selection, Some(9));
    session.handle_key(Key::PageUp, 10, usize::MAX);
    assert_eq!(session.selection, Some(0));
}

#[test]
fn sort_keys_select_then_reverse() {
    let mut session = Session::new();
    session.handle_key(Key::Char('p'), 0, 0);
    assert_eq!((session.view.sort_key, session.view.sort_reverse), (SortKey::Pid, false));
    session.handle_key(Key::Char('p'), 0, 0);
    assert_eq!((session.view.sort_key, session.view.sort_reverse), (SortKey::Pid, true));
    session.handle_key(Key::Char('n'), 0, 0);
    assert_eq!((session.view.sort_key, session.view.sort_reverse), (SortKey::Name, false));
    session.handle_key(Key::Char('c'), 0, 0);
    assert_eq!((session.view.sort_key, session.view.sort_reverse), (SortKey::Cpu, false));
    session.handle_key(Key::Char('c'), 0, 0);
    session.handle_key(Key::Char('c'), 0, 0);
    assert_eq!((session.view.sort_key, session.view.sort_reverse), (SortKey::Cpu, false));
    session.handle_key(Key::Char('m'), 0, 0);
    assert_eq!((session.view.sort_key, session.view.sort_reverse), (SortKey::Memory, false));
}

#[test]
fn pressing_the_active_key_twice_restores_the_session() {
    for (start, c) in [('p', 'p'), ('n', 'n'), ('m', 'm'), ('c', 'c')] {
        let mut session = Session::new();
        session.sync(4);
        session.handle_key(Key::Char(start), 4, 2);
        let key = session.view.sort_key;
        let reverse = session.view.sort_reverse;
        session.handle_key(Key::Char(c), 4, 2);
        assert_eq!((session.view.sort_key, session.view.sort_reverse), (key, !reverse));
        session.handle_key(Key::Char(c), 4, 2);
        assert_eq!((session.view.sort_key, session.view.sort_reverse), (key, reverse));
        assert_eq!(session.selection, Some(0));
    }
}

#[test]
fn sort_key_for_knows_four_characters() {
    assert_eq!(sort_key_for('p'), Some(SortKey::Pid));
    assert_eq!(sort_key_for('n'), Some(SortKey::Name));
    assert_eq!(sort_key_for('m'), Some(SortKey::Memory));
    assert_eq!(sort_key_for('c'), Some(SortKey::Cpu));
    assert_eq!(sort_key_for('P'), None);
    assert_eq!(sort_key_for('x'), None);
}

#[test]
fn refresh_time_moves_in_steps_and_stays_in_range() {
    let mut session = Session::new();
    let mut seen = vec![session.view.refresh_interval_ms];
    for _ in 0..12 {
        session.handle_key(Key::Char('+'), 0, 0);
        seen.push(session.view.refresh_interval_ms);
    }
    assert_eq!(
        seen,
        vec![1000, 1200, 1400, 1600, 1800, 2000, 2200, 2400, 2600, 2800, 3000, 3000, 3000]
    );
    let mut seen = Vec::new();
    for _ in 0..16 {
        session.handle_key(Key::Char('-'), 0, 0);
        seen.push(session.view.refresh_interval_ms);
    }
    assert_eq!(
        seen,
        vec![2800, 2600, 2400, 2200, 2000, 1800, 1600, 1400, 1200, 1000, 800, 600, 400, 200, 200, 200]
    );
}

#[test]
fn refresh_time_stays_valid_under_mixed_presses() {
    let mut session = Session::new();
    let mut seed: u32 = 7;
    for _ in 0..500 {
        seed = seed.wrapping_mul(1103515245).wrapping_add(12345);
        let key = if (seed >> 16) % 3 == 0 { '-' } else { '+' };
        let before = session.view.refresh_interval_ms;
        session.handle_key(Key::Char(key), 0, 0);
        let after = session.view.refresh_interval_ms;
        assert!((200..=3000).contains(&after));
        assert_eq!(after % 200, 0);
        assert!(after == before || after + 200 == before || before + 200 == after);
        assert!(session.fits(0));
    }
}

#[test]
fn sync_clamps_the_selection() {
    let mut session = Session::new();
    session.sync(5);
    assert_eq!(session.selection, Some(0));
    session.handle_key(Key::Char('l'), 5, 2);
    session.handle_key(Key::Enter, 5, 2);
    assert_eq!(session.selection, Some(4));
    session.sync(5);
    assert_eq!(session.selection, Some(4));
    assert!(session.view.detail_visible);
    session.sync(3);
    assert_eq!(session.selection, Some(2));
    assert!(session.view.detail_visible);
    assert!(session.fits(3));
    session.sync(0);
    assert_eq!(session.selection, None);
    assert!(!session.view.detail_visible);
    assert!(session.fits(0));
    session.sync(2);
    assert_eq!(session.selection, Some(0));
    assert!(session.fits(2));
}

#[test]
fn selection_is_valid_after_every_sync() {
    let mut session = Session::new();
    for len in [0usize, 1, 7, 3, 0, 2, 100, 1] {
        session.sync(len);
        match session.selection {
            Some(i) => assert!(i < len),
            None => assert_eq!(len, 0),
        }
        session.handle_key(Key::Char('l'), len, 3);
        session.handle_key(Key::Enter, len, 3);
        assert!(session.fits(len));
    }
}

#[test]
fn fits_rejects_broken_sessions() {
    let mut session = Session::new();
    session.sync(2);
    assert!(session.fits(2));
    session.selection = Some(2);
    assert!(!session.fits(2));
    session.selection = None;
    assert!(!session.fits(2));
    session.selection = Some(0);
    session.view.refresh_interval_ms = 1100;
    assert!(!session.fits(2));
    session.view.refresh_interval_ms = 3200;
    assert!(!session.fits(2));
    session.view.refresh_interval_ms = 0;
    assert!(!session.fits(2));
    session.view.refresh_interval_ms = 200;
    assert!(session.fits(2));
    session.selection = None;
    session.view.detail_visible = true;
    assert!(!session.fits(0));
}

#[test]
fn timeout_changes_nothing() {
    let mut session = Session::new();
    session.sync(4);
    session.handle_key(Key::Down, 4, 2);
    let before = session.clone();
    assert_eq!(session.on_event(None, 4, 2), Action::Continue);
    assert_eq!(session.selection, before.selection);
    assert_eq!(session.view.filter_text, before.view.filter_text);
    assert_eq!(session.view.refresh_interval_ms, before.view.refresh_interval_ms);
    assert_eq!(session.on_event(Some(Key::Down), 4, 2), Action::Continue);
    assert_eq!(session.selection, Some(2));
    assert_eq!(session.on_event(Some(Key::Char('q')), 4, 2), Action::Quit);
}
