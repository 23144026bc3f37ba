use lazyifconfig::app::{App, SearchMatch};
use lazyifconfig::model::{CommandOutput, CommandSourceId};
use lazyifconfig::raw_view::{highlight_segments, raw_viewer_lines, raw_viewer_status, raw_viewer_tabs};
use lazyifconfig::screen::{TextSpan, Tint};

fn text_of(spans: &[TextSpan]) -> String {
    spans.iter().map(|s| s.text.clone()).collect()
}

fn m(line_index: usize, start_byte: usize, end_byte: usize) -> SearchMatch {
    SearchMatch { line_index, start_byte, end_byte }
}

fn viewer_app() -> App {
    let mut app = App::default();
    app.command_outputs.insert(
        CommandSourceId::Ifconfig,
        CommandOutput {
            command: "ifconfig".to_string(),
            stdout: "en0: up\nlo0: up".to_string(),
            stderr: "warning".to_string(),
            executed_at: std::time::SystemTime::now(),
            exit_code: Some(0),
        },
    );
    app.raw_viewer.active = true;
    app.raw_viewer.sources = vec![CommandSourceId::Ifconfig, CommandSourceId::NetstatRoutes];
    app
}

#[test]
fn highlight_segments_cut_around_matches() {
    let segs = highlight_segments("en0: up up", &[m(0, 5, 7), m(0, 8, 10)]);
    assert_eq!(
        segs,
        vec![
            ("en0: ".to_string(), false),
            ("up".to_string(), true),
            (" ".to_string(), false),
            ("up".to_string(), true),
        ]
    );
    let segs = highlight_segments("é up", &[m(0, 1, 2), m(0, 3, 5)]);
    assert_eq!(segs, vec![("é ".to_string(), false), ("up".to_string(), true)]);
    assert_eq!(highlight_segments("abc", &[m(0, 1, 9)]), vec![("abc".to_string(), false)]);
}

#[test]
fn raw_viewer_page_shows_command_exit_code_and_output() {
    let mut app = viewer_app();
    app.raw_viewer.search_query = "UP".to_string();
    app.update_raw_viewer_search_matches();
    let page = raw_viewer_lines(&app, "2024-01-01 00:00:00");
    assert_eq!(text_of(&page[0]), "$ ifconfig");
    assert_eq!(page[0][0].style.fg, Some(Tint::Prompt));
    assert_eq!(text_of(&page[1]), "Executed: 2024-01-01 00:00:00  |  Exit Code: 0");
    assert!(page[2].is_empty());
    assert_eq!(page.len(), 6);
    assert_eq!(page[3].len(), 2);
    assert_eq!(page[3][1].text, "up");
    assert_eq!(page[3][1].style.bg, Some(Tint::Amber));
    assert_eq!(page[3][0].style.fg, Some(Tint::PaleGreen));
    assert_eq!(text_of(&page[5]), "warning");
}

#[test]
fn raw_viewer_page_without_output_or_source() {
    let mut app = viewer_app();
    app.raw_viewer.selected_index = 1;
    let page = raw_viewer_lines(&app, "t");
    assert_eq!(page.len(), 1);
    assert_eq!(page[0][0].text, "Command execution history not found.");
    assert_eq!(page[0][0].style.fg, Some(Tint::Salmon));

    app.raw_viewer.selected_index = 5;
    assert_eq!(raw_viewer_lines(&app, "t")[0][0].text, "No source selected.");
}

#[test]
fn raw_viewer_status_and_tabs() {
    let mut app = viewer_app();
    assert_eq!(
        text_of(&raw_viewer_status(&app)),
        "Esc/q/o: Close | Tab: Next Src | y: Copy Cmd | Y: Copy Output | /: Search"
    );
    app.raw_viewer.search_active = true;
    app.raw_viewer.search_query = "up".to_string();
    assert_eq!(text_of(&raw_viewer_status(&app)), "Search: up█");
    app.raw_viewer.search_active = false;
    app.update_raw_viewer_search_matches();
    let status = raw_viewer_status(&app);
    assert_eq!(status[1].text, "up (1 / 2)  -  n: Next, N: Prev  |  ");

    let tabs = raw_viewer_tabs(&app, "macos");
    assert_eq!(text_of(&tabs), "Sources:  ifconfig   |   netstat -rn ");
    assert_eq!(tabs[1].style.bg, Some(Tint::Prompt));
    assert_eq!(tabs[3].style.fg, Some(Tint::PaleGreen));
}
