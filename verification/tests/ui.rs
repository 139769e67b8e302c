use herdr_sidebar::activity::{checked_layout_activity_bar, layout_activity_bar};
use herdr_sidebar::layout::{
    checked_title_action_spans, hits, hits_collapse_button, hits_activity_button, keep_visible_scroll, title_action_spans, title_actions_visible,
    title_actions_width, wrap_hints, TitleAction, TITLE_ACTIONS_LINGER_SECS,
};
use herdr_sidebar::panes::{sibling_panes, without_bom, PaneInfo, SidebarView};
use herdr_sidebar::style::{Color, Rect, StyledText};
use herdr_sidebar::text::{input_tail, truncate_to, wrap_footer_message};
use herdr_sidebar::theme::{
    activity_button_style, darken_for_light, hover_style_for, icon_style_for, palette,
    palette_for, selection_style_for, ActivePalette, ColorTheme, IconTheme,
};

/// Perceived brightness on a 0..1 scale, the measure `darken_for_light` caps.
fn luma(color: Color) -> f32 {
    match color {
        Color::Rgb(r, g, b) => {
            (0.2126 * f32::from(r) + 0.7152 * f32::from(g) + 0.0722 * f32::from(b)) / 255.0
        }
        other => panic!("expected an RGB color, got {other:?}"),
    }
}

fn width(s: &str) -> usize {
    ratatui::text::Span::raw(s).width()
}

fn line_width(line: &[StyledText]) -> usize {
    line.iter().map(|t| width(&t.content)).sum()
}

#[test]
fn light_palette_foregrounds_stay_dark_and_backgrounds_stay_light() {
    let light = palette_for(ColorTheme::Light);
    for fg in [
        light.modified,
        light.untracked,
        light.added,
        light.renamed,
        light.deleted,
        light.conflict,
        light.keycap_fg,
        light.header_accent,
        light.accent,
        light.muted_button_fg,
        light.button_fg,
        light.sync_fg,
        light.warning,
        light.diff_del_mark,
        light.diff_add_mark,
    ] {
        assert!(luma(fg) < 0.55, "foreground {fg:?} is too pale on white");
    }
    for bg in [
        light.selection_bg,
        light.selection_unfocused_bg,
        light.activity_hover_bg,
        light.hover_bg,
        light.keycap_bg,
        light.text_selection_bg,
        light.diff_del_bg,
        light.diff_add_bg,
        light.diff_del_word_bg,
        light.diff_add_word_bg,
        light.sync_bg,
        light.muted_button_bg,
        light.button_bg,
        light.button_focus_bg,
    ] {
        assert!(luma(bg) > 0.6, "background {bg:?} is too dark for white");
    }
    assert!(luma(light.button_bg) > 0.6 && luma(light.button_focus_bg) > 0.6);
    assert!(luma(light.activity_hover_bg) > luma(light.selection_bg));
    assert!(luma(light.button_fg) < 0.35);
    assert!(
        luma(light.muted_button_bg) > luma(light.button_bg),
        "the inactive repo's button must read weaker than the active one"
    );
}

#[test]
fn light_selection_names_its_own_foreground() {
    let light = palette_for(ColorTheme::Light);
    let focused = selection_style_for(ColorTheme::Light, true);
    assert_eq!(focused.bg, Some(light.selection_bg));
    assert_eq!(focused.fg, Some(light.selection_fg));
    assert!(focused.bold);
    let unfocused = selection_style_for(ColorTheme::Light, false);
    assert_eq!(unfocused.fg, Some(light.selection_unfocused_fg));
    assert_eq!(selection_style_for(ColorTheme::VsCode, true).fg, None);
    assert_eq!(hover_style_for(ColorTheme::Light).fg, None);
}

#[test]
fn activity_buttons_select_hover_and_idle_in_that_order() {
    let pal = ActivePalette::new();
    let active = activity_button_style(&pal, true, true);
    assert!(active.bold);
    assert!(!active.dim);

    let hovered = activity_button_style(&pal, false, true);
    assert_eq!(hovered.bg, Some(palette(&pal).activity_hover_bg));
    assert!(!hovered.dim);

    let idle = activity_button_style(&pal, false, false);
    assert!(idle.dim);
    assert!(idle.bg.is_none());
}

#[test]
fn activity_button_hitbox_matches_all_three_highlight_rows() {
    for row in 4..=6 {
        assert!(hits_activity_button((10, 14), 5, 12, row));
    }
    assert!(!hits_activity_button((10, 14), 5, 9, 5));
    assert!(!hits_activity_button((10, 14), 5, 12, 7));
}

#[test]
fn icon_colors_are_dimmed_only_for_the_light_theme() {
    let js = (0xf1, 0xe0, 0x5a);
    let dimmed = darken_for_light(js);
    assert!(luma(Color::Rgb(dimmed.0, dimmed.1, dimmed.2)) <= 0.43);
    assert!(dimmed.0 > dimmed.2 && dimmed.1 > dimmed.2);
    let ruby = (0x70, 0x15, 0x16);
    assert_eq!(darken_for_light(ruby), ruby);
    assert_eq!(
        icon_style_for(ColorTheme::VsCode, Some(js)).fg,
        Some(Color::Rgb(js.0, js.1, js.2))
    );
    assert_eq!(
        icon_style_for(ColorTheme::Light, Some(js)).fg,
        Some(Color::Rgb(dimmed.0, dimmed.1, dimmed.2))
    );
    assert_eq!(icon_style_for(ColorTheme::Light, None).fg, None);
}

#[test]
fn terminal_palette_uses_terminal_mapped_ansi_colors() {
    let terminal = palette_for(ColorTheme::Terminal);
    let vscode = palette_for(ColorTheme::VsCode);
    assert_eq!(terminal.modified, Color::Yellow);
    assert_eq!(terminal.untracked, Color::Green);
    assert_eq!(terminal.accent, Color::Blue);
    assert_eq!(terminal.selection_bg, Color::DarkGray);
    assert_eq!(vscode.modified, Color::Rgb(0xe2, 0xc0, 0x8d));
    assert_eq!(vscode.accent, Color::Rgb(0x00, 0x78, 0xd4));
    assert_eq!(selection_style_for(ColorTheme::Terminal, true).bg, Some(Color::DarkGray));
    assert_eq!(selection_style_for(ColorTheme::Terminal, true).fg, Some(Color::White));
    // The style model has no reverse-video modifier: a selection is never drawn reversed.
    let hover = hover_style_for(ColorTheme::Terminal);
    assert_eq!(hover.bg, Some(Color::Black));
    assert_eq!(hover.fg, Some(Color::Gray));
    assert_eq!(selection_style_for(ColorTheme::Terminal, false).fg, Some(Color::White));
}

#[test]
fn settings_scroll_keeps_the_selected_row_visible() {
    assert_eq!(keep_visible_scroll(0, 5, 12), 0);
    assert_eq!(keep_visible_scroll(4, 5, 12), 0);
    assert_eq!(keep_visible_scroll(5, 5, 12), 1);
    assert_eq!(keep_visible_scroll(11, 5, 12), 7);
    assert_eq!(keep_visible_scroll(2, 0, 12), 3);
}

#[test]
fn messages_wrap_to_narrow_panes() {
    let lines = wrap_footer_message("Delete 'test' permanently? (y/N)", 26, 4);
    assert!(lines.len() > 1, "must wrap, not clip: {lines:?}");
    for l in &lines {
        assert!(l.starts_with(' '), "leading space kept: {l:?}");
        assert!(width(l.as_str()) <= 22, "line within width-reserve: {l:?}");
    }
    assert_eq!(
        lines.join("").split_whitespace().collect::<Vec<_>>().join(" "),
        "Delete 'test' permanently? (y/N)",
        "no words lost"
    );
    assert_eq!(wrap_footer_message("Delete 'test' permanently? (y/N)", 80, 4).len(), 1);
    let long = wrap_footer_message("Deleted averyveryverylongfilename.extension", 20, 4);
    assert!(long.len() > 1);
    assert_eq!(wrap_footer_message("", 30, 4).len(), 1);
}

#[test]
fn input_tail_keeps_cursor_end_visible() {
    assert_eq!(input_tail("short", 10), "short");
    let tail = input_tail("a-very-long-typed-filename.txt", 12);
    assert!(tail.starts_with('…'), "{tail:?}");
    assert!(tail.ends_with(".txt"), "{tail:?}");
    assert!(width(tail.as_str()) <= 12);
}

#[test]
fn hints_wrap_instead_of_clipping() {
    let pal = ActivePalette::new();
    let hints = [("⏎", "stage"), ("a", "all"), ("u", "none"), ("q", "quit")];
    let wide = wrap_hints(&pal, &hints, 80, 0);
    assert_eq!(wide.len(), 1);
    let narrow = wrap_hints(&pal, &hints, 14, 0);
    assert!(narrow.len() >= 2, "narrow pane stacks hints");
    for line in &narrow {
        assert!(line_width(line) <= 14, "no line exceeds the pane width");
    }
}

#[test]
fn hints_have_no_line_cap() {
    let pal = ActivePalette::new();
    let hints = [
        ("a", "aaa"),
        ("b", "bbb"),
        ("c", "ccc"),
        ("d", "ddd"),
        ("e", "eee"),
        ("f", "fff"),
        ("g", "ggg"),
        ("h", "hhh"),
    ];
    let lines = wrap_hints(&pal, &hints, 10, 0);
    assert_eq!(lines.len(), hints.len());
    for line in &lines {
        assert!(line_width(line) <= 10, "no line exceeds the pane width");
    }
}

#[test]
fn truncation_keeps_width_budget() {
    assert_eq!(truncate_to("short".into(), 10), "short");
    let cut = truncate_to("averylongdirectoryname".into(), 8);
    assert!(cut.ends_with('…'));
    assert!(width(cut.as_str()) <= 8);
    assert_eq!(truncate_to("abc".into(), 1), "");
}

#[test]
fn title_action_zones_are_contiguous_and_match_width() {
    let pal = ActivePalette::new();
    for theme in [IconTheme::Material, IconTheme::Emoji] {
        let actions = [
            TitleAction::NewFile,
            TitleAction::NewFolder,
            TitleAction::Refresh,
            TitleAction::CollapseAll,
        ];
        let (spans, zones) = title_action_spans(&pal, theme, &actions, 10, 0, None);
        assert_eq!(spans.len(), 4);
        let mut x = 10;
        for (rect, _) in &zones {
            assert_eq!(rect.x, x, "chips tile left to right with no gaps");
            x += rect.width;
        }
        let total: u16 = zones.iter().map(|(r, _)| r.width).sum();
        assert_eq!(total, title_actions_width(theme, &actions));
        let (rect, action) = zones[1];
        assert!(hits(rect, rect.x, 0));
        assert_eq!(action, TitleAction::NewFolder);
    }
}

#[test]
fn title_actions_hide_without_recent_mouse() {
    let linger = std::time::Duration::from_secs(TITLE_ACTIONS_LINGER_SECS);
    assert!(!title_actions_visible(None));
    assert!(title_actions_visible(Some(std::time::Instant::now())));
    let old = std::time::Instant::now() - linger - std::time::Duration::from_secs(1);
    assert!(!title_actions_visible(Some(old)));
}

fn pane(id: &str, tab: &str, label: Option<&str>, tokens: &[&str]) -> PaneInfo {
    PaneInfo {
        pane_id: Some(id.to_string()),
        label: label.map(str::to_string),
        tab_id: Some(tab.to_string()),
        tokens: tokens.iter().map(|t| t.to_string()).collect(),
    }
}

#[test]
fn sibling_lookup_matches_label_or_token() {
    let panes = vec![
        pane("w1:p1", "w1:t1", Some("Sidebar"), &[]),
        pane("w1:p2", "w1:t1", Some("Source Control"), &[]),
        pane("w1:p3", "w1:t1", None, &["herdr-sidebar-git"]),
        pane("w1:p9", "w1:t2", Some("Source Control"), &[]),
    ];
    let found = sibling_panes(&panes, "w1:p1", SidebarView::SourceControl);
    assert_eq!(found, ["w1:p2", "w1:p3"], "same tab only, label or token");
}

#[test]
fn sibling_lookup_without_my_pane_finds_nothing() {
    let panes = vec![pane("w1:p2", "w1:t1", Some("Source Control"), &[])];
    assert!(sibling_panes(&panes, "w1:p1", SidebarView::SourceControl).is_empty());
    assert_eq!(sibling_panes(&panes, "w1:p2", SidebarView::SourceControl).len(), 0);
}

#[test]
fn activity_bar_buttons_follow_each_other() {
    let pal = ActivePalette::new();
    let area = Rect { x: 0, y: 0, width: 40, height: 3 };
    let layout = layout_activity_bar(&pal, area, IconTheme::Emoji, 1, Some((7, 1)));
    assert_eq!(layout.bar.row, 1);
    assert_eq!(layout.bar.buttons[0].0, 1);
    for i in 0..3 {
        assert_eq!(layout.bar.buttons[i + 1].0, layout.bar.buttons[i].1 + 1);
    }
    assert_eq!(layout.bar.gear.y, 0);
    assert_eq!(layout.bar.gear.height, 3);
    assert_eq!(layout.bar.gear.x + layout.bar.gear.width, 40);
    let row: usize = layout.runs.iter().map(|t| width(&t.content)).sum();
    assert_eq!(row, 40, "the middle row fills the area");
    // the active button and the hovered one each get two cap rows
    assert!(layout.caps.len() >= 2);
    assert!(layout.caps.iter().all(|c| c.area.y == 0 || c.area.y == 2));
    assert!(checked_layout_activity_bar(&pal, Rect { x: 65530, y: 0, width: 5, height: 3 }, IconTheme::Emoji, 0, None).is_none());
}

#[test]
fn collapse_button_is_the_last_three_cells_of_the_bottom_line() {
    assert!(hits_collapse_button(37, 9, 40, 10));
    assert!(hits_collapse_button(39, 9, 40, 10));
    assert!(!hits_collapse_button(36, 9, 40, 10));
    assert!(!hits_collapse_button(38, 8, 40, 10));
    // a pane narrower than the button: every cell of the bottom line hits
    assert!(hits_collapse_button(0, 0, 2, 1));
}

#[test]
fn checked_activity_bar_is_the_full_layout() {
    let pal = ActivePalette::new();
    let area = Rect { x: 3, y: 2, width: 40, height: 3 };
    let full = layout_activity_bar(&pal, area, IconTheme::Emoji, 2, Some((9, 3)));
    let checked = checked_layout_activity_bar(&pal, area, IconTheme::Emoji, 2, Some((9, 3))).unwrap();
    assert_eq!(checked.bar, full.bar);
    assert_eq!(checked.row_area, Rect { x: 3, y: 3, width: 40, height: 1 });
    let runs = |v: &[StyledText]| v.iter().map(|t| (t.content.clone(), t.style)).collect::<Vec<_>>();
    assert_eq!(runs(&checked.runs), runs(&full.runs));
    assert_eq!(checked.caps.len(), full.caps.len());
    for (a, b) in checked.caps.iter().zip(full.caps.iter()) {
        assert_eq!((a.area, &a.content, a.style), (b.area, &b.content, b.style));
    }
}

#[test]
fn checked_title_actions_are_the_full_row() {
    let pal = ActivePalette::new();
    let actions = [TitleAction::Refresh, TitleAction::CollapseAll];
    let (spans, zones) = checked_title_action_spans(&pal, IconTheme::Emoji, &actions, 10, 0, Some((10, 0))).unwrap();
    let (s2, z2) = title_action_spans(&pal, IconTheme::Emoji, &actions, 10, 0, Some((10, 0)));
    assert_eq!(spans.len(), 2);
    let runs = |v: &[StyledText]| v.iter().map(|t| (t.content.clone(), t.style)).collect::<Vec<_>>();
    assert_eq!(runs(&spans), runs(&s2));
    assert_eq!(zones, z2);
    assert_eq!(zones[0].0.x, 10);
    assert_eq!(zones[1].0.x, 10 + zones[0].0.width);
    assert!(checked_title_action_spans(&pal, IconTheme::Emoji, &actions, 65534, 0, None).is_none());
}

#[test]
fn leading_byte_order_marks_are_trimmed() {
    assert_eq!(without_bom("\u{feff}\u{feff}{\"a\":1}"), "{\"a\":1}");
    assert_eq!(without_bom("{}\u{feff}"), "{}\u{feff}");
    assert_eq!(without_bom(""), "");
}

#[test]
fn rects_are_clamped_to_the_coordinate_space() {
    assert_eq!(Rect::new(65530, 65534, 10, 5), Rect { x: 65530, y: 65534, width: 5, height: 1 });
    assert_eq!(Rect::new(1, 2, 3, 4), Rect { x: 1, y: 2, width: 3, height: 4 });
    assert_eq!(Rect::new(65535, 65535, 1, 1), Rect { x: 65535, y: 65535, width: 0, height: 0 });
}

#[test]
fn title_actions_on_the_last_row_still_draw() {
    let pal = ActivePalette::new();
    let actions = [TitleAction::NewFile, TitleAction::Refresh];
    let (spans, zones) =
        checked_title_action_spans(&pal, IconTheme::Emoji, &actions, 0, u16::MAX, Some((0, u16::MAX))).unwrap();
    assert_eq!(spans.len(), 2);
    assert_eq!(zones[0].0.y, u16::MAX);
    assert_eq!(zones[0].0.height, 0, "no row below the last one to draw in");
    assert_eq!(zones[1].0.x, zones[0].0.width);
}

#[test]
fn activity_bar_fits_on_the_last_three_rows() {
    let pal = ActivePalette::new();
    let area = Rect { x: 0, y: u16::MAX - 2, width: 40, height: 2 };
    let layout = checked_layout_activity_bar(&pal, area, IconTheme::Emoji, 0, None).unwrap();
    assert_eq!(layout.bar.row, u16::MAX - 1);
    assert_eq!(layout.bar.gear.y, u16::MAX - 2);
    assert_eq!(layout.bar.gear.height, 2);
}
