use monitr::app::{App, Input, Key, KeyCode, Tab};
use monitr::inspect::SocketEntry;
use monitr::sampler::SelectedProcessDetails;
use monitr::screen::{
    align_chart_values, center_text, confirm_prompt, detail_rows, empty_inspector_lines, filter_label, guide_rows,
    inspector_title, name_width, overflow_hint, process_table_title, right, section_rows,
    socket_peer,
};

fn app_with_rows(pids: &[u32]) -> App {
    let mut app = App::new(1_000, None);
    app.show_rows(pids.to_vec(), None);
    app
}

#[test]
fn right_aligns_by_utf8_bytes() {
    assert_eq!(right("5".to_string(), 3), "  5");
    assert_eq!(right("12345".to_string(), 3), "12345");
    assert_eq!(right("é".to_string(), 4), "  é");
}

#[test]
fn centers_text() {
    assert_eq!(center_text(5, "ab"), " ab  ");
    assert_eq!(center_text(6, "ab"), "  ab  ");
    assert_eq!(center_text(2, "abcd"), "abcd");
    assert_eq!(center_text(0, ""), "");
}

#[test]
fn overflow_hint_points_at_inspect() {
    assert_eq!(overflow_hint(3, 42), "+3 more — run monitr inspect 42");
}

#[test]
fn guide_rows_match_quarter_marks() {
    assert_eq!(guide_rows(0), Vec::<usize>::new());
    assert_eq!(guide_rows(1), Vec::<usize>::new());
    assert_eq!(guide_rows(2), vec![1, 0]);
    assert_eq!(guide_rows(5), vec![3, 2, 1]);
    assert_eq!(guide_rows(8), vec![5, 4, 2]);
    for height in 2..200usize {
        let mut expected: Vec<usize> = Vec::new();
        for ratio in [0.25f64, 0.5, 0.75] {
            let row = ((1.0 - ratio) * (height - 1) as f64).round() as usize;
            if !expected.contains(&row) {
                expected.push(row);
            }
        }
        assert_eq!(guide_rows(height), expected);
    }
}

#[test]
fn handle_panel_sizes() {
    assert_eq!(section_rows(20, false), 6);
    assert_eq!(section_rows(20, true), 5);
    assert_eq!(section_rows(10, true), 3);
    assert_eq!(section_rows(0, false), 3);
    assert_eq!(name_width(100), 82);
    assert_eq!(name_width(10), 12);
    assert_eq!(name_width(500), 120);
}

#[test]
fn socket_peer_prefers_the_remote_end() {
    let mut socket = SocketEntry {
        fd: "3".into(),
        protocol: "TCP".into(),
        local: "127.0.0.1:80".into(),
        remote: Some("10.0.0.1:5000".into()),
        state: Some("ESTABLISHED".into()),
    };
    assert_eq!(socket_peer(&socket), "10.0.0.1:5000");
    socket.remote = None;
    assert_eq!(socket_peer(&socket), "ESTABLISHED");
    socket.state = None;
    assert_eq!(socket_peer(&socket), "-");
}

#[test]
fn table_titles_count_and_select() {
    let app = app_with_rows(&[1, 2, 3]);
    assert_eq!(process_table_title(&app), "CPU | 3 visible | selected 1/3");
    let mut disk = app_with_rows(&[]);
    disk.tab = Tab::Disk;
    assert_eq!(process_table_title(&disk), "Disk activity by process | 0 visible");
    let mut filtered = App::new(1_000, Some("a-very-long-filter-text-that-goes-on".into()));
    filtered.tab = Tab::Movers;
    assert_eq!(
        process_table_title(&filtered),
        "Top movers since last sample | no matches for a-very-long.that-goes-on"
    );
}

#[test]
fn inspector_titles_follow_the_view() {
    let mut app = app_with_rows(&[42]);
    assert_eq!(inspector_title(&app), "Inspector | pid 42");
    app.tab = Tab::Disk;
    assert_eq!(inspector_title(&app), "Inspector | pid 42 + volumes");
    app.tab = Tab::Network;
    assert_eq!(inspector_title(&app), "Inspector | pid 42 + interfaces");
    let mut empty = app_with_rows(&[]);
    assert_eq!(inspector_title(&empty), "Inspector");
    empty.tab = Tab::Network;
    assert_eq!(inspector_title(&empty), "Inspector | interfaces");
}

#[test]
fn title_bar_texts() {
    let mut app = app_with_rows(&[42]);
    assert_eq!(filter_label(&app), "filter: none");
    app.filter = "node".into();
    assert_eq!(filter_label(&app), "filter: node");
    app.filter_mode = true;
    assert_eq!(filter_label(&app), "filter: node_");
    app.filter_mode = false;

    assert_eq!(confirm_prompt(&app), None);
    app.handle_input(Input::Key(Key {
        code: KeyCode::Char('f'),
        ctrl: false,
    }));
    assert_eq!(confirm_prompt(&app), Some("Confirm KILL pid 42: y/n".to_string()));
}

#[test]
fn empty_inspector_explains_itself() {
    let app = app_with_rows(&[]);
    assert_eq!(empty_inspector_lines(&app), vec!["No process selected"]);
    let filtered = App::new(1_000, Some("zzz".into()));
    assert_eq!(
        empty_inspector_lines(&filtered),
        vec![
            "No processes match the current filter",
            "Press Ctrl-U to clear the filter or / to refine it."
        ]
    );
}

#[test]
fn detail_rows_show_what_is_known() {
    let (rows, note) = detail_rows(Some(SelectedProcessDetails {
        thread_count: Some(12),
        open_files: Some(40),
        open_files_limit: Some(256),
        session_id: Some(7),
        priority: Some(-5),
    }));
    assert_eq!(
        rows,
        vec![
            ("Threads".to_string(), "12".to_string()),
            ("Open files".to_string(), "40/256".to_string()),
            ("Session".to_string(), "7".to_string()),
            ("Priority".to_string(), "-5".to_string()),
        ]
    );
    assert_eq!(note, None);

    let (rows, note) = detail_rows(Some(SelectedProcessDetails {
        thread_count: None,
        open_files: Some(3),
        open_files_limit: None,
        session_id: None,
        priority: Some(0),
    }));
    assert_eq!(rows[0].1, "-");
    assert_eq!(rows[1].1, "3");
    assert_eq!(rows[2].1, "-");
    assert_eq!(rows[3].1, "0");
    assert_eq!(
        note,
        Some("Some process details are hidden by macOS permissions.".to_string())
    );

    let (rows, note) = detail_rows(None);
    assert!(rows.iter().all(|(_, value)| value == "-"));
    assert_eq!(
        note,
        Some("Process details are unavailable or the process exited.".to_string())
    );
}

#[test]
fn chart_values_align_to_the_right() {
    assert_eq!(align_chart_values(&[1, 2, 3], 5), vec![None, None, Some(1), Some(2), Some(3)]);
    assert_eq!(align_chart_values(&[1, 2, 3], 2), vec![Some(2), Some(3)]);
    assert_eq!(align_chart_values::<u8>(&[], 2), vec![None, None]);
    assert_eq!(align_chart_values(&[1.5f64], 0), Vec::<Option<f64>>::new());
}

#[test]
fn guide_rows_of_very_tall_charts_round_like_binary64() {
    assert_eq!(
        guide_rows(18_014_398_509_481_991),
        vec![13_510_798_882_111_494, 9_007_199_254_740_996, 4_503_599_627_370_498]
    );
    assert_eq!(
        guide_rows(usize::MAX),
        vec![13_835_058_055_282_163_712, 9_223_372_036_854_775_808, 4_611_686_018_427_387_904]
    );
    assert_eq!(
        guide_rows(9_223_372_036_854_775_813),
        vec![6_917_529_027_641_081_856, 4_611_686_018_427_387_904, 2_305_843_009_213_693_952]
    );
}
