use herdr_sidebar::style::Color;
use herdr_sidebar::usage::{Account, Horizon, Snapshot, Window};
use herdr_sidebar::usage_view::{
    bar_spans, countdown_to, elapsed_position, persisted_activity, usage_input, window_label,
    FetchMsg, LoadState, MouseKind, UsageExit, UsageInput, UsageKey, UsageStep, UsageView,
};
use herdr_sidebar::activity::ActivityBar;
use herdr_sidebar::panes::SidebarView;
use herdr_sidebar::style::Rect;

fn win(used: f64, duration: Option<i64>, resets_at: Option<i64>) -> Window {
    Window {
        label: "Session".into(),
        horizon: Horizon::Session,
        used_bits: used.to_bits(),
        duration_ms: duration,
        resets_at_ms: resets_at,
        model_scoped: false,
    }
}

/// Used cells of a bar, as the drawing layer measures them.
fn filled(w: &Window, width: usize) -> usize {
    let used = f64::from_bits(w.used_bits).clamp(0.0, 1.0);
    ((used * width as f64).round() as usize).min(width)
}

fn bar_text(w: &Window, width: usize, now: i64) -> String {
    let marker = if width == 0 { 0 } else { elapsed_position(w, width, now) };
    bar_spans(width, filled(w, width), marker, Color::Green)
        .iter()
        .map(|s| s.content.to_string())
        .collect()
}

#[test]
fn countdown_formats() {
    let now = 1_000_000_000_000;
    assert_eq!(countdown_to(None, now), "—");
    assert_eq!(countdown_to(Some(now + 43 * 60_000), now), "43m");
    assert_eq!(countdown_to(Some(now + 2 * 3_600_000 + 53 * 60_000), now), "2h 53m");
    assert_eq!(countdown_to(Some(now + 4 * 86_400_000 + 9 * 3_600_000), now), "4d 9h");
    assert_eq!(countdown_to(Some(now - 5_000), now), "0m");
}

#[test]
fn bar_proportions_and_marker() {
    let now = 1_000_000_000_000;
    let mut w = win(0.74, None, None);
    let bar = bar_text(&w, 50, now);
    assert_eq!(bar.chars().filter(|&c| c == '█').count(), 37);
    assert_eq!(bar.chars().filter(|&c| c == '░').count(), 13);
    assert_eq!(elapsed_position(&w, 50, now), 0);

    w.duration_ms = Some(2 * 3_600_000);
    w.resets_at_ms = Some(now + 3_600_000);
    assert_eq!(elapsed_position(&w, 20, now), 10);

    w.resets_at_ms = Some(now + 2 * 3_600_000);
    assert_eq!(elapsed_position(&w, 20, now), 1);
    w.resets_at_ms = Some(now);
    assert_eq!(elapsed_position(&w, 20, now), 20);

    assert_eq!(elapsed_position(&win(0.1, None, Some(now)), 20, now), 0);
    assert_eq!(elapsed_position(&win(0.1, Some(1), None), 20, now), 0);
}

#[test]
fn bar_marker_is_its_own_cell() {
    let now = 1_000_000_000_000;
    let w = win(0.20, Some(2 * 3_600_000), Some(now + 3_600_000));
    let spans = bar_spans(10, filled(&w, 10), elapsed_position(&w, 10, now), Color::Green);
    let bar: String = spans.iter().map(|s| s.content.to_string()).collect();
    assert_eq!(bar, "██░░│░░░░░");
    assert!(spans.iter().any(|s| s.content == "│" && s.style.dim));
}

#[test]
fn bar_runs_merge_equal_cells() {
    let spans = bar_spans(6, 3, 0, Color::Red);
    assert_eq!(spans.len(), 2);
    assert_eq!(spans[0].content, "███");
    assert_eq!(spans[0].style.fg, Some(Color::Red));
    assert_eq!(spans[1].content, "░░░");
    assert!(bar_spans(0, 3, 0, Color::Red).is_empty());
}

#[test]
fn window_label_layout() {
    let now = 1_000_000_000_000;
    let w = Window {
        label: "5h session".into(),
        horizon: Horizon::Session,
        used_bits: 0.74f64.to_bits(),
        duration_ms: None,
        resets_at_ms: Some(now + 2 * 3_600_000 + 53 * 60_000),
        model_scoped: false,
    };
    let percent = format!("{:.0}", f64::from_bits(w.used_bits).clamp(0.0, 1.0) * 100.0);
    let spans = window_label(&w, &percent, now, 46);
    let text: String = spans.iter().map(|s| s.content.to_string()).collect();
    assert_eq!(text.chars().count(), 46);
    assert!(text.starts_with("Session 74%"));
    assert!(text.ends_with("2h 53m"));
}

#[test]
fn row_count_counts_account_blocks() {
    let mut app = UsageView::new();
    assert_eq!(app.row_count(), 1);
    app.receive(FetchMsg::Snapshot(Snapshot {
        server_now_ms: 0,
        accounts: vec![
            Account {
                provider: "acme".into(),
                display_name: "Acme · Kanastra".into(),
                fresh: true,
                windows: vec![win(0.1, None, None), win(0.2, None, None)],
            },
            Account {
                provider: "glm".into(),
                display_name: "GLM".into(),
                fresh: true,
                windows: vec![win(0.3, None, None)],
            },
        ],
    }));
    assert_eq!(app.load_state(), LoadState::Loaded);
    assert_eq!(app.row_count(), 9);
}

#[test]
fn scrolling_stops_at_both_ends() {
    let mut app = UsageView::new();
    app.receive(FetchMsg::Snapshot(Snapshot {
        server_now_ms: 0,
        accounts: vec![Account {
            provider: "glm".into(),
            display_name: "GLM".into(),
            fresh: false,
            windows: vec![win(0.3, None, None), win(0.4, None, None)],
        }],
    }));
    assert_eq!(app.row_count(), 5);
    app.on_scroll(true);
    assert_eq!(app.scroll_offset(), 3);
    app.on_scroll(true);
    assert_eq!(app.scroll_offset(), 4);
    app.on_scroll(false);
    assert_eq!(app.scroll_offset(), 1);
    app.page(false);
    assert_eq!(app.scroll_offset(), 0);
}

#[test]
fn fetch_results_drive_the_state() {
    let mut app = UsageView::new();
    app.receive(FetchMsg::Offline);
    assert_eq!(app.load_state(), LoadState::Error);
    app.receive(FetchMsg::NotPaired);
    assert_eq!(app.load_state(), LoadState::NotPaired);
    assert!(app.current_snapshot().is_none());
    assert!(app.on_key(UsageKey::Char('r'), true));
    assert_eq!(app.load_state(), LoadState::Loading);
    assert!(!app.on_key(UsageKey::Char('r'), false));
}

#[test]
fn usage_keys_and_clicks_pick_the_next_activity() {
    let mut app = UsageView::new();
    let bar = ActivityBar { row: 1, buttons: [(1, 5), (6, 10), (11, 15), (16, 20)], gear: Rect { x: 30, y: 0, width: 4, height: 3 } };
    let mut mouse = None;
    let key = |k, alt| UsageInput::Key { key: k, pressed: true, alt };
    assert_eq!(usage_input(&mut app, &bar, &mut mouse, key(UsageKey::F(9), false)), UsageStep::Exit { exit: UsageExit::To(SidebarView::Explorer), remember: true });
    assert_eq!(usage_input(&mut app, &bar, &mut mouse, key(UsageKey::Char('2'), false)), UsageStep::Exit { exit: UsageExit::Search, remember: true });
    assert_eq!(usage_input(&mut app, &bar, &mut mouse, key(UsageKey::Char('3'), true)), UsageStep::Continue { refresh: false });
    assert_eq!(usage_input(&mut app, &bar, &mut mouse, key(UsageKey::Char('q'), false)), UsageStep::Exit { exit: UsageExit::Quit, remember: false });
    let click = UsageInput::Mouse { column: 12, row: 0, kind: MouseKind::LeftDown };
    assert_eq!(usage_input(&mut app, &bar, &mut mouse, click), UsageStep::Exit { exit: UsageExit::To(SidebarView::SourceControl), remember: true });
    assert_eq!(mouse, Some((12, 0)));
    let gear = UsageInput::Mouse { column: 31, row: 2, kind: MouseKind::LeftDown };
    assert_eq!(usage_input(&mut app, &bar, &mut mouse, gear), UsageStep::Exit { exit: UsageExit::To(SidebarView::Explorer), remember: false });
    let usage_button = UsageInput::Mouse { column: 17, row: 1, kind: MouseKind::LeftDown };
    assert_eq!(usage_input(&mut app, &bar, &mut mouse, usage_button), UsageStep::Continue { refresh: false });
    assert_eq!(persisted_activity(UsageExit::Search), Some((SidebarView::Explorer, true)));
    assert_eq!(persisted_activity(UsageExit::Quit), None);
}

#[test]
fn a_default_view_is_a_fresh_one() {
    let v = UsageView::default();
    assert_eq!(v.load_state(), LoadState::Loading);
    assert!(v.current_snapshot().is_none());
    assert_eq!(v.scroll_offset(), 0);
    assert_eq!(v.row_count(), 1);
}
