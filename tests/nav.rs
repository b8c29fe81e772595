use stomata::nav::{Key, NavigationState, Page, Web3Action, Web3Page, Web3State, MAIN_TAB_COUNT};

#[test]
fn page_titles_in_tab_order() {
    assert_eq!(Page::titles(), vec!["System", "Metrics", "Processes", "Network"]);
    assert_eq!(Web3Page::titles(), vec!["Address Validation", "Portfolio"]);
}

#[test]
fn page_from_index() {
    assert_eq!(Page::from_index(0), Page::System);
    assert_eq!(Page::from_index(1), Page::Metrics);
    assert_eq!(Page::from_index(2), Page::Processes);
    assert_eq!(Page::from_index(3), Page::Network);
    assert_eq!(Page::from_index(4), Page::Network);
    assert_eq!(Page::from_index(usize::MAX), Page::Network);
    assert_eq!(Web3Page::from_index(0), Web3Page::AddressValidation);
    assert_eq!(Web3Page::from_index(1), Web3Page::Portfolio);
    assert_eq!(Web3Page::from_index(9), Web3Page::Portfolio);
}

#[test]
fn next_tab_wraps_from_last_to_first() {
    let mut s = NavigationState::new();
    s.select_tab(MAIN_TAB_COUNT - 1);
    assert_eq!(s.current_page, Page::Network);
    s.handle_key(Key::Tab);
    assert_eq!(s.tab_index, 0);
    assert_eq!(s.current_page, Page::System);
}

#[test]
fn previous_tab_wraps_from_first_to_last() {
    let mut s = NavigationState::new();
    s.handle_key(Key::BackTab);
    assert_eq!(s.tab_index, 3);
    assert_eq!(s.current_page, Page::Network);
    s.previous_tab();
    assert_eq!(s.current_page, Page::Processes);
}

#[test]
fn digit_two_selects_second_tab_from_any_state() {
    for start in 0..MAIN_TAB_COUNT {
        let mut s = NavigationState::new();
        s.select_tab(start);
        s.handle_key(Key::Char('2'));
        assert_eq!(s.tab_index, 1);
        assert_eq!(s.current_page, Page::Metrics);
    }
    let mut s = NavigationState::new();
    s.select_tab(2);
    s.set_process_rows(&vec![7, 42, 99]);
    s.handle_key(Key::Down);
    s.set_process_rows(&vec![7, 42, 99]);
    s.handle_key(Key::Enter);
    assert_eq!(s.current_page, Page::SingleProcess(42));
    s.handle_key(Key::Char('2'));
    assert_eq!(s.tab_index, 1);
    assert_eq!(s.current_page, Page::Metrics);
}

#[test]
fn digits_past_last_tab_clamp() {
    let mut s = NavigationState::new();
    s.handle_key(Key::Char('9'));
    assert_eq!(s.tab_index, 3);
    s.handle_key(Key::Char('1'));
    assert_eq!(s.tab_index, 0);
    s.handle_key(Key::Char('0'));
    assert_eq!(s.tab_index, 0);
}

#[test]
fn enter_opens_selected_process_and_esc_returns() {
    let mut s = NavigationState::new();
    s.handle_key(Key::Char('3'));
    assert_eq!(s.current_page, Page::Processes);
    s.set_process_rows(&vec![1234, 5, 6, 7, 8]);
    assert_eq!(s.selected_pid, Some(1234));
    s.handle_key(Key::Enter);
    assert_eq!(s.current_page, Page::SingleProcess(1234));
    s.handle_key(Key::Esc);
    assert_eq!(s.current_page, Page::Processes);
}

#[test]
fn enter_without_selection_stays() {
    let mut s = NavigationState::new();
    s.select_tab(2);
    s.handle_key(Key::Enter);
    assert_eq!(s.current_page, Page::Processes);
    let mut t = NavigationState::new();
    t.set_process_rows(&vec![9, 10]);
    t.handle_key(Key::Enter);
    assert_eq!(t.current_page, Page::System);
}

#[test]
fn cursor_moves_within_table() {
    let mut s = NavigationState::new();
    s.select_tab(2);
    s.set_process_rows(&vec![1, 2]);
    s.handle_key(Key::Up);
    assert_eq!(s.table_cursor, 0);
    s.handle_key(Key::Down);
    assert_eq!(s.table_cursor, 1);
    s.handle_key(Key::Down);
    assert_eq!(s.table_cursor, 1);
    s.set_process_rows(&vec![1, 2]);
    assert_eq!(s.selected_pid, Some(2));
    s.set_process_rows(&vec![5]);
    assert_eq!(s.table_cursor, 0);
    assert_eq!(s.selected_pid, Some(5));
    s.set_process_rows(&vec![]);
    assert_eq!(s.table_cursor, 0);
    assert_eq!(s.selected_pid, None);
}

#[test]
fn quit_key_stops_and_other_keys_do_nothing() {
    let mut s = NavigationState::new();
    s.handle_key(Key::Other);
    s.handle_key(Key::Char('x'));
    assert!(s.render);
    assert_eq!(s.current_page, Page::System);
    s.handle_key(Key::Char('q'));
    assert!(!s.render);
}

#[test]
fn web3_tabs_cycle_and_jump() {
    let mut w = Web3State::new();
    assert_eq!(w.current_page, Web3Page::AddressValidation);
    assert_eq!(w.handle_key(Key::Tab), Web3Action::Redraw);
    assert_eq!(w.current_page, Web3Page::Portfolio);
    w.next_tab();
    assert_eq!(w.tab_index, 0);
    w.previous_tab();
    assert_eq!(w.tab_index, 1);
    w.handle_key(Key::Char('1'));
    assert_eq!(w.current_page, Web3Page::AddressValidation);
    assert_eq!(w.handle_key(Key::Char('2')), Web3Action::FetchPortfolio);
    assert_eq!(w.tab_index, 1);
    assert_eq!(w.current_page, Web3Page::Portfolio);
    w.handle_key(Key::BackTab);
    assert_eq!(w.tab_index, 0);
    w.handle_key(Key::Char('z'));
    assert!(w.render);
    w.handle_key(Key::Char('q'));
    assert!(!w.render);
}

#[test]
fn select_tab_clamps_past_last_tab() {
    let mut s = NavigationState::new();
    s.select_tab(17);
    assert_eq!(s.tab_index, MAIN_TAB_COUNT - 1);
    assert_eq!(s.current_page, Page::Network);
}

#[test]
fn web3_quit_keeps_tab() {
    let mut w = Web3State::new();
    w.handle_key(Key::Char('2'));
    w.handle_key(Key::Char('q'));
    assert!(!w.render);
    assert_eq!(w.tab_index, 1);
    assert_eq!(w.current_page, Web3Page::Portfolio);
}
