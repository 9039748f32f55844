use monitr::app::{
    fit_scroll, plan_priority, reselect, App, Effect, HandlesView, Input, Key, KeyCode, Notice, ProcessIntent, SortKey, Tab,
};
use monitr::error::message;
use monitr::filter::{Filter, FilterSubject};
use monitr::table::TableHit;

fn key(code: KeyCode) -> Input {
    Input::Key(Key { code, ctrl: false })
}

fn ch(c: char) -> Input {
    key(KeyCode::Char(c))
}

fn ctrl(c: char) -> Input {
    Input::Key(Key {
        code: KeyCode::Char(c),
        ctrl: true,
    })
}

fn app_with_rows(pids: &[u32]) -> App {
    let mut app = App::new(1_000, None);
    app.show_rows(pids.to_vec(), None);
    app
}

fn open_handles() -> HandlesView {
    HandlesView {
        pid: 1,
        name: "demo".into(),
        files: Vec::new(),
        sockets: Vec::new(),
        error: None,
    }
}

#[test]
fn ctrl_c_quits_from_filter_mode() {
    let mut app = app_with_rows(&[10, 20]);
    app.filter_mode = true;

    assert!(app.handle_input(ctrl('c')).0);
    assert!(app.should_quit);
    assert!(!app.filter_mode);
}

#[test]
fn uppercase_sort_shortcuts_select_hidden_sort_keys() {
    let mut app = app_with_rows(&[10, 20]);

    assert!(app.handle_input(ch('D')).0);
    assert_eq!(app.sort_key, SortKey::DiskRead);
    assert!(app.sort_desc);

    assert!(app.handle_input(ch('T')).0);
    assert_eq!(app.sort_key, SortKey::Runtime);
    assert!(app.sort_desc);
}

#[test]
fn tab_switch_uses_default_sort_direction() {
    let mut app = app_with_rows(&[10, 20]);

    assert!(app.handle_input(ch('2')).0);
    assert_eq!(app.sort_key, SortKey::Memory);
    assert!(app.sort_desc);

    assert!(app.handle_input(ch('5')).0);
    assert_eq!(app.sort_key, SortKey::Name);
    assert!(!app.sort_desc);

    assert!(app.handle_input(ch('6')).0);
    assert_eq!(app.sort_key, SortKey::Trend);
    assert!(app.sort_desc);
}

#[test]
fn power_action_shortcuts_prompt_for_confirmation() {
    let mut app = app_with_rows(&[10, 20]);
    assert!(app.selected_pid().is_some());

    assert!(app.handle_input(ch('z')).0);
    assert_eq!(app.confirm, Some(ProcessIntent::Stop));

    app.confirm = None;
    assert!(app.handle_input(ch('g')).0);
    assert_eq!(app.confirm, Some(ProcessIntent::Continue));

    app.confirm = None;
    assert!(app.handle_input(ch('[')).0);
    assert_eq!(app.confirm, Some(ProcessIntent::NiceLower));

    app.confirm = None;
    assert!(app.handle_input(ch(']')).0);
    assert_eq!(app.confirm, Some(ProcessIntent::NiceHigher));
}

#[test]
fn handles_overlay_captures_keys_and_toggles_closed() {
    let mut app = app_with_rows(&[10, 20]);
    app.handles = Some(open_handles());
    let starting_tab = app.tab;

    assert!(!app.handle_input(ch('1')).0);
    assert!(!app.handle_input(ch('2')).0);
    assert_eq!(app.tab, starting_tab);
    assert!(app.handles.is_some());

    assert!(app.handle_input(ch('o')).0);
    assert!(app.handles.is_none());
}

#[test]
fn selection_hydrates_details_without_waiting_for_refresh() {
    let mut app = app_with_rows(&[10, 20]);
    assert_eq!(app.selected, Some(0));

    assert_eq!(app.handle_input(key(KeyCode::Down)), (true, Effect::Hydrate));
    assert_eq!(app.selected_pid(), Some(20));
}

#[test]
fn ctrl_u_clears_active_filter_outside_filter_mode() {
    let mut app = App::new(1_000, Some("codex".into()));
    app.filter_mode = false;

    assert!(app.handle_input(ctrl('u')).0);
    assert!(app.filter.is_empty());
    assert_eq!(
        app.notice.as_ref().map(|notice| notice.text()),
        Some("filter cleared")
    );
}

#[test]
fn refilter_preserves_existing_process_order() {
    let rows = [(1u32, "zeta"), (2, "alpha"), (3, "beta")];
    let filter = Filter::parse("a");
    let no_numbers: Vec<bool> = vec![false; filter.terms().len()];
    let visible: Vec<u32> = rows
        .iter()
        .filter(|(pid, name)| {
            let pid_text = pid.to_string();
            let search = format!("{pid} {name} user command running");
            let subject = FilterSubject {
                search_text: &search,
                name: *name,
                user: "user",
                status: "running",
                command: "command",
                pid: &pid_text,
            };
            filter.matches(&subject, &no_numbers)
        })
        .map(|(pid, _)| *pid)
        .collect();

    let mut app = App::new(1_000, Some("a".into()));
    app.sort_key = SortKey::Name;
    app.sort_desc = false;
    app.show_rows(visible, None);

    assert_eq!(app.visible, vec![1, 2, 3]);
}

#[test]
fn starts_on_the_cpu_view() {
    let app = App::new(750, None);
    assert_eq!(app.tab, Tab::Cpu);
    assert_eq!(app.sort_key, SortKey::Cpu);
    assert!(app.sort_desc && app.show_details && app.overview_visible);
    assert_eq!(app.interval(), 750);
    assert_eq!(app.visible_count(), 0);
    assert_eq!(app.selected_pid(), None);
}

#[test]
fn interval_keys_step_by_250_within_bounds() {
    let mut app = app_with_rows(&[1]);
    assert!(app.handle_input(ch('+')).0);
    assert_eq!(app.interval_ms, 1_250);
    assert_eq!(app.notice.as_ref().unwrap().text(), "refresh interval: 1250 ms");
    app.handle_input(ch('-'));
    assert_eq!(app.interval_ms, 1_000);

    app.interval_ms = 300;
    app.handle_input(ch('-'));
    assert_eq!(app.interval_ms, 250);
    app.interval_ms = 9_900;
    app.handle_input(ch('='));
    assert_eq!(app.interval_ms, 10_000);
    assert_eq!(app.notice.as_ref().unwrap().text(), "refresh interval: 10000 ms");
}

#[test]
fn tab_and_back_tab_undo_each_other() {
    let mut app = app_with_rows(&[1]);
    assert!(app.handle_input(key(KeyCode::Tab)).0);
    assert_eq!(app.tab, Tab::Memory);
    assert!(app.handle_input(key(KeyCode::BackTab)).0);
    assert_eq!(app.tab, Tab::Cpu);
    assert!(app.handle_input(key(KeyCode::BackTab)).0);
    assert_eq!(app.tab, Tab::Movers);
    assert!(!app.handle_input(ch('6')).0);
}

#[test]
fn confirmation_applies_or_cancels() {
    let mut app = app_with_rows(&[10, 20]);
    app.handle_input(key(KeyCode::End));
    app.handle_input(ch('t'));
    assert_eq!(app.handle_input(ch('y')), (true, Effect::Apply(ProcessIntent::Term, 20)));
    assert_eq!(app.confirm, None);

    app.handle_input(ch('f'));
    assert_eq!(app.handle_input(ch('x')), (false, Effect::Nothing));
    assert_eq!(app.confirm, Some(ProcessIntent::Kill));
    assert_eq!(app.handle_input(ch('n')), (true, Effect::Nothing));
    assert_eq!(app.confirm, None);
    assert_eq!(app.notice.as_ref().unwrap().text(), "process signal cancelled");

    app.handle_input(ch(']'));
    app.handle_input(key(KeyCode::Esc));
    assert_eq!(app.notice.as_ref().unwrap().text(), "priority change cancelled");
}

#[test]
fn actions_need_a_selected_process() {
    let mut app = App::new(1_000, None);
    assert_eq!(app.handle_input(ch('t')), (false, Effect::Nothing));
    assert_eq!(app.confirm, None);
    assert_eq!(app.handle_input(ch('o')), (false, Effect::Nothing));
}

#[test]
fn finishing_an_action_reports_it() {
    let mut app = app_with_rows(&[10]);
    assert_eq!(app.finish_action(Ok("sent TERM to pid 10".to_string())), Effect::Refresh);
    assert_eq!(app.notice.as_ref().unwrap().text(), "sent TERM to pid 10");
    assert_eq!(
        app.finish_action(Err(message("permission denied".to_string()))),
        Effect::Nothing
    );
    assert_eq!(app.notice.as_ref().unwrap().text(), "permission denied");
}

#[test]
fn filter_prompt_edits_the_filter() {
    let mut app = app_with_rows(&[1]);
    assert!(app.handle_input(ch('/')).0);
    assert!(app.filter_mode);
    assert_eq!(app.handle_input(ch('n')), (true, Effect::Refilter));
    assert_eq!(app.handle_input(ch('o')), (true, Effect::Refilter));
    assert_eq!(app.filter, "no");
    assert_eq!(app.handle_input(key(KeyCode::Backspace)), (true, Effect::Refilter));
    assert_eq!(app.filter, "n");
    assert_eq!(app.handle_input(ctrl('x')), (false, Effect::Nothing));
    assert_eq!(app.handle_input(ctrl('u')), (true, Effect::Refilter));
    assert_eq!(app.filter, "");
    assert_eq!(app.handle_input(key(KeyCode::Backspace)), (true, Effect::Refilter));
    assert!(app.handle_input(key(KeyCode::Enter)).0);
    assert!(!app.filter_mode);
}

#[test]
fn help_opens_scrolls_and_closes() {
    let mut app = app_with_rows(&[1, 2]);
    assert!(app.handle_input(ch('?')).0);
    assert!(app.show_help);
    assert!(app.handle_input(ch('j')).0);
    assert_eq!(app.help_scroll, 1);
    assert!(app.handle_input(ch('k')).0);
    assert_eq!(app.help_scroll, 0);
    assert!(!app.handle_input(ch('t')).0);
    assert!(!app.handle_input(Input::ScrollDown).0);
    assert_eq!(app.selected, Some(0));
    assert!(app.handle_input(ch('q')).0);
    assert!(!app.show_help);
    assert!(!app.should_quit);
}

#[test]
fn moving_the_selection_stops_at_the_ends() {
    let mut app = app_with_rows(&[1, 2, 3, 4, 5]);
    assert_eq!(app.handle_input(key(KeyCode::PageDown)), (true, Effect::Hydrate));
    assert_eq!(app.selected, Some(4));
    assert_eq!(app.handle_input(key(KeyCode::Down)), (false, Effect::Hydrate));
    assert_eq!(app.handle_input(Input::ScrollUp), (true, Effect::Hydrate));
    assert_eq!(app.selected, Some(1));
    assert_eq!(app.handle_input(key(KeyCode::PageUp)), (true, Effect::Hydrate));
    assert_eq!(app.selected, Some(0));
    assert_eq!(app.handle_input(key(KeyCode::Home)), (false, Effect::Hydrate));
    assert_eq!(app.handle_input(key(KeyCode::End)), (true, Effect::Hydrate));
    assert_eq!(app.selected_position(), Some(5));
    assert_eq!(app.handle_input(Input::Click(TableHit::Row(2))), (true, Effect::Hydrate));
    assert_eq!(app.selected_pid(), Some(3));
    assert_eq!(app.handle_input(Input::Click(TableHit::Row(9))), (false, Effect::Nothing));
}

#[test]
fn empty_table_ignores_movement() {
    let mut app = App::new(1_000, None);
    assert_eq!(app.handle_input(key(KeyCode::Down)), (false, Effect::Nothing));
    assert_eq!(app.handle_input(key(KeyCode::End)), (false, Effect::Nothing));
    assert_eq!(app.selected, None);
}

#[test]
fn header_clicks_sort_descending_then_ascending_then_move_on() {
    let mut app = app_with_rows(&[1]);
    assert_eq!(app.handle_input(Input::Click(TableHit::Header(4))), (true, Effect::Rebuild));
    assert_eq!((app.sort_key, app.sort_desc), (SortKey::Memory, true));
    app.handle_input(Input::Click(TableHit::Header(4)));
    assert_eq!((app.sort_key, app.sort_desc), (SortKey::Memory, false));
    app.handle_input(Input::Click(TableHit::Header(4)));
    assert_eq!((app.sort_key, app.sort_desc), (SortKey::Energy, true));
    assert_eq!(app.handle_input(Input::Click(TableHit::Header(6))), (false, Effect::Nothing));
}

#[test]
fn sort_keys_cycle_and_toggle() {
    let mut app = app_with_rows(&[1]);
    assert_eq!(app.handle_input(ch('s')), (true, Effect::Rebuild));
    assert_eq!((app.sort_key, app.sort_desc), (SortKey::Memory, true));
    app.handle_input(ch('m'));
    assert_eq!((app.sort_key, app.sort_desc), (SortKey::Memory, false));
    app.handle_input(ch('n'));
    assert_eq!((app.sort_key, app.sort_desc), (SortKey::Name, false));
    app.handle_input(ch('S'));
    assert!(app.sort_desc);
    app.handle_input(ch('S'));
    assert!(!app.sort_desc);
}

#[test]
fn view_keys_toggle_panels_and_refresh() {
    let mut app = app_with_rows(&[7]);
    app.handle_input(ch('i'));
    assert!(!app.show_details);
    app.handle_input(key(KeyCode::Enter));
    assert!(app.show_details);
    app.handle_input(ch('O'));
    assert!(!app.overview_visible);
    assert_eq!(app.handle_input(ch('r')), (true, Effect::Refresh));
    assert_eq!(app.handle_input(ctrl('j')), (true, Effect::Nothing));
    assert_eq!(app.inspector_scroll, 1);
    app.handle_input(ctrl('k'));
    app.handle_input(ctrl('k'));
    assert_eq!(app.inspector_scroll, 0);
    assert_eq!(app.handle_input(ch('o')), (true, Effect::OpenHandles(7)));
    app.open_handles(open_handles());
    assert!(app.handles_view().is_some());
    assert!(app.handle_input(key(KeyCode::Esc)).0);
    assert!(app.handles.is_none());
    assert!(!app.should_quit);
    assert!(app.handle_input(key(KeyCode::Esc)).0);
    assert!(app.should_quit);
}

#[test]
fn rows_keep_the_selected_process() {
    let mut app = app_with_rows(&[1, 2, 3]);
    app.handle_input(key(KeyCode::End));
    assert!(app.show_rows(vec![9, 3, 1], Some(3)));
    assert_eq!(app.selected, Some(1));
    assert!(app.show_rows(vec![4, 5], Some(3)));
    assert_eq!(app.selected, Some(1));
    assert!(!app.show_rows(Vec::new(), Some(5)));
    assert_eq!(app.selected, None);

    assert_eq!(reselect(&vec![5, 6, 7], Some(7), Some(0)), Some(2));
    assert_eq!(reselect(&vec![5, 6, 7], Some(8), Some(9)), Some(2));
    assert_eq!(reselect(&vec![5, 6, 7], None, None), Some(0));
    assert_eq!(reselect(&vec![], Some(5), Some(0)), None);
}

#[test]
fn poll_waits_for_the_next_refresh() {
    let app = App::new(1_000, None);
    assert_eq!(app.poll_timeout_ns(250_000_000), 750_000_000);
    assert_eq!(app.poll_timeout_ns(999_600_000), 400_000);
    assert_eq!(app.poll_timeout_ns(5_000_000_000), 0);
    let mut noticed = App::new(10_000, Some("x".into()));
    noticed.handle_input(ctrl('u'));
    assert!(noticed.poll_timeout_ns(0) <= 4_000_000_000);
    assert_eq!(noticed.poll_timeout_after(0, 3_999_999_999), 1);
    assert_eq!(noticed.poll_timeout_after(9_999_999_990, 1_000), 10);
    assert!(!noticed.clear_expired_notice());
    assert!(noticed.notice.is_some());
    assert!(!noticed.clear_notice_after(3_999_999_999));
    assert!(noticed.notice.is_some());
    assert!(noticed.clear_notice_after(4_000_000_000));
    assert!(noticed.notice.is_none());
    assert!(!noticed.clear_notice_after(9_000_000_000));
    assert_eq!(Notice::remaining_after(0), 4_000_000_000);
    assert_eq!(Notice::remaining_after(1), 3_999_999_999);
    assert_eq!(Notice::remaining_after(u128::MAX), 0);
}

#[test]
fn scroll_offsets_stop_at_the_last_page() {
    let mut app = App::new(1_000, None);
    app.help_scroll = 40;
    app.fit_help_scroll(30, 10);
    assert_eq!(app.help_scroll, 20);
    app.fit_help_scroll(5, 10);
    assert_eq!(app.help_scroll, 0);
    app.inspector_scroll = 3;
    app.fit_inspector_scroll(30, 10);
    assert_eq!(app.inspector_scroll, 3);
    assert_eq!(fit_scroll(7, 12, 10), 2);
}

#[test]
fn priority_plans_need_a_visible_process_and_a_readable_priority() {
    assert_eq!(
        plan_priority(42, false, Some(0), 5).unwrap_err().text(),
        "process 42 is no longer visible"
    );
    assert_eq!(
        plan_priority(42, true, None, 5).unwrap_err().text(),
        "priority is unavailable for pid 42"
    );
    assert_eq!(plan_priority(42, true, Some(18), 5).unwrap(), 20);
    assert_eq!(plan_priority(42, true, Some(-18), -5).unwrap(), -20);
    assert_eq!(plan_priority(42, true, Some(3), -5).unwrap(), -2);
}
