//! Color themes, the three palettes, the active-theme cell and the styles
//! every view derives from them.
use vstd::prelude::*;

use crate::style::{plain_style, spec_rect, Color, Style};

verus! {

/// The glyph set: Nerd Font (material) icons or plain emoji.
#[derive(Clone, Copy, Debug, PartialEq, Eq, Structural)]
pub enum IconTheme {
    Material,
    Emoji,
}

/// The user's color theme choice.
#[derive(Clone, Copy, Debug, PartialEq, Eq, Structural)]
pub enum ColorTheme {
    VsCode,
    Terminal,
    Light,
}

impl ColorTheme {
    /// The theme assumes a light terminal background.
    pub open spec fn spec_is_light(self) -> bool {
        self == ColorTheme::Light
    }

    #[verifier::when_used_as_spec(spec_is_light)]
    pub fn is_light(self) -> (b: bool)
        ensures
            b == self.spec_is_light(),
    {
        match self {
            ColorTheme::Light => true,
            _ => false,
        }
    }
}

/// Keycap chip colors for the footer hints — a subtle "keyboard key" look
/// instead of a wall of dim text.
#[derive(Clone, Copy, Debug, PartialEq, Eq, Structural)]
pub struct Palette {
    pub keycap_bg: Color,
    pub keycap_fg: Color,
    pub modified: Color,
    pub untracked: Color,
    pub added: Color,
    pub renamed: Color,
    pub deleted: Color,
    pub conflict: Color,
    pub ignored: Color,
    pub selection_bg: Color,
    pub selection_unfocused_bg: Color,
    /// Full-size activity-bar hover: visibly related to selection, but weaker.
    pub activity_hover_bg: Color,
    pub hover_bg: Color,
    pub accent: Color,
    pub accent_focus: Color,
    /// Filled buttons (✓ Commit, the section count badge). The dark themes
    /// fill them with the accent; the light theme uses a soft tint with dark
    /// blue text, because a saturated blue block dominates a white pane.
    pub button_bg: Color,
    pub button_focus_bg: Color,
    pub button_fg: Color,
    pub muted_button_bg: Color,
    pub muted_button_fg: Color,
    pub sync_bg: Color,
    pub sync_busy_bg: Color,
    /// Sync Changes' label. It sits on `sync_bg`, NOT on the accent, so it
    /// cannot borrow `button_fg` — white on a light grey button is invisible.
    pub sync_fg: Color,
    pub header_accent: Color,
    /// Row foregrounds that go with the three row backgrounds above.
    /// `Color::Reset` = keep the terminal's own foreground.
    pub selection_fg: Color,
    pub selection_unfocused_fg: Color,
    pub hover_fg: Color,
    /// Mouse text selection in the preview / editor. Unlike the list rows this
    /// sits UNDER syntax-colored spans, so it must not fight their foreground.
    pub text_selection_bg: Color,
    /// Diff row tints (`diffview`), word-level tint, and the +/− gutter marks.
    pub diff_del_bg: Color,
    pub diff_del_word_bg: Color,
    pub diff_add_bg: Color,
    pub diff_add_word_bg: Color,
    pub diff_del_mark: Color,
    pub diff_add_mark: Color,
    /// Advisory text (the editor's "experimental" tag, the font installer's
    /// manual command) — `Yellow` is illegible on a light background.
    pub warning: Color,
}

/// VS Code's dark-theme colors, git decorations included.
pub open spec fn vscode_palette() -> Palette {
    Palette {
        keycap_bg: Color::Rgb(0x32, 0x36, 0x3d),
        keycap_fg: Color::Rgb(0xc9, 0xce, 0xd6),
        modified: Color::Rgb(0xe2, 0xc0, 0x8d),
        untracked: Color::Rgb(0x73, 0xc9, 0x91),
        added: Color::Rgb(0x81, 0xb8, 0x8b),
        renamed: Color::Rgb(0x73, 0xc9, 0x91),
        deleted: Color::Rgb(0xc7, 0x4e, 0x39),
        conflict: Color::Rgb(0xe4, 0x67, 0x6b),
        ignored: Color::Rgb(0x6b, 0x6b, 0x6b),
        selection_bg: Color::DarkGray,
        selection_unfocused_bg: Color::Rgb(0x2a, 0x2d, 0x2e),
        activity_hover_bg: Color::Rgb(0x3c, 0x42, 0x5d),
        hover_bg: Color::Rgb(48, 52, 60),
        accent: Color::Rgb(0x00, 0x78, 0xd4),
        accent_focus: Color::Rgb(0x02, 0x8a, 0xf0),
        button_bg: Color::Rgb(0x00, 0x78, 0xd4),
        button_focus_bg: Color::Rgb(0x02, 0x8a, 0xf0),
        button_fg: Color::White,
        muted_button_bg: Color::Rgb(0x24, 0x45, 0x5c),
        muted_button_fg: Color::Rgb(0x9a, 0xb2, 0xc2),
        sync_bg: Color::Rgb(0x3a, 0x3d, 0x41),
        sync_busy_bg: Color::Rgb(0x2d, 0x2d, 0x33),
        sync_fg: Color::White,
        header_accent: Color::LightBlue,
        selection_fg: Color::Reset,
        selection_unfocused_fg: Color::Reset,
        hover_fg: Color::Reset,
        text_selection_bg: Color::DarkGray,
        diff_del_bg: Color::Rgb(0x42, 0x22, 0x26),
        diff_del_word_bg: Color::Rgb(0x6f, 0x30, 0x36),
        diff_add_bg: Color::Rgb(0x20, 0x39, 0x28),
        diff_add_word_bg: Color::Rgb(0x35, 0x59, 0x3d),
        diff_del_mark: Color::Rgb(0xd1, 0x6d, 0x76),
        diff_add_mark: Color::Rgb(0x8c, 0xc9, 0x8f),
        warning: Color::Yellow,
    }
}

/// The same vocabulary for a light terminal background (VS Code Light+ git
/// decorations, GitHub-light diff tints); every value stays readable on white.
pub open spec fn light_palette() -> Palette {
    Palette {
        keycap_bg: Color::Rgb(0xdd, 0xe1, 0xe6),
        keycap_fg: Color::Rgb(0x24, 0x29, 0x2f),
        modified: Color::Rgb(0x89, 0x55, 0x03),
        untracked: Color::Rgb(0x00, 0x71, 0x00),
        added: Color::Rgb(0x58, 0x7c, 0x0c),
        renamed: Color::Rgb(0x00, 0x71, 0x00),
        deleted: Color::Rgb(0xad, 0x07, 0x07),
        conflict: Color::Rgb(0xb5, 0x20, 0x0d),
        ignored: Color::Rgb(0x8c, 0x8c, 0x8c),
        selection_bg: Color::Rgb(0xcc, 0xe3, 0xf5),
        selection_unfocused_bg: Color::Rgb(0xe4, 0xe6, 0xe8),
        activity_hover_bg: Color::Rgb(0xe3, 0xef, 0xf9),
        hover_bg: Color::Rgb(0xec, 0xec, 0xec),
        accent: Color::Rgb(0x00, 0x78, 0xd4),
        accent_focus: Color::Rgb(0x02, 0x6e, 0xc1),
        button_bg: Color::Rgb(0xd8, 0xea, 0xfc),
        button_focus_bg: Color::Rgb(0xb6, 0xd8, 0xf8),
        button_fg: Color::Rgb(0x0a, 0x4a, 0x86),
        muted_button_bg: Color::Rgb(0xec, 0xef, 0xf2),
        muted_button_fg: Color::Rgb(0x57, 0x61, 0x6b),
        sync_bg: Color::Rgb(0xdc, 0xdf, 0xe3),
        sync_busy_bg: Color::Rgb(0xeb, 0xed, 0xef),
        sync_fg: Color::Rgb(0x24, 0x29, 0x2f),
        header_accent: Color::Rgb(0x00, 0x58, 0xa8),
        selection_fg: Color::Rgb(0x0a, 0x0a, 0x0a),
        selection_unfocused_fg: Color::Rgb(0x1f, 0x1f, 0x1f),
        hover_fg: Color::Reset,
        text_selection_bg: Color::Rgb(0xad, 0xd6, 0xff),
        diff_del_bg: Color::Rgb(0xff, 0xeb, 0xe9),
        diff_del_word_bg: Color::Rgb(0xff, 0xc1, 0xbc),
        diff_add_bg: Color::Rgb(0xe6, 0xff, 0xec),
        diff_add_word_bg: Color::Rgb(0xab, 0xf2, 0xbc),
        diff_del_mark: Color::Rgb(0xb3, 0x1d, 0x28),
        diff_add_mark: Color::Rgb(0x1a, 0x7f, 0x37),
        warning: Color::Rgb(0x9a, 0x67, 0x00),
    }
}

/// The terminal's own ANSI colors, so the user's profile decides the look.
pub open spec fn terminal_palette() -> Palette {
    Palette {
        keycap_bg: Color::DarkGray,
        keycap_fg: Color::White,
        modified: Color::Yellow,
        untracked: Color::Green,
        added: Color::LightGreen,
        renamed: Color::Green,
        deleted: Color::Red,
        conflict: Color::LightRed,
        ignored: Color::DarkGray,
        selection_bg: Color::DarkGray,
        selection_unfocused_bg: Color::Black,
        activity_hover_bg: Color::Rgb(0x3c, 0x42, 0x5d),
        hover_bg: Color::Black,
        accent: Color::Blue,
        accent_focus: Color::LightBlue,
        button_bg: Color::Blue,
        button_focus_bg: Color::LightBlue,
        button_fg: Color::White,
        muted_button_bg: Color::Black,
        muted_button_fg: Color::Gray,
        sync_bg: Color::DarkGray,
        sync_busy_bg: Color::Black,
        sync_fg: Color::White,
        header_accent: Color::LightBlue,
        selection_fg: Color::White,
        selection_unfocused_fg: Color::White,
        hover_fg: Color::Gray,
        text_selection_bg: Color::DarkGray,
        diff_del_bg: Color::Rgb(0x42, 0x22, 0x26),
        diff_del_word_bg: Color::Rgb(0x6f, 0x30, 0x36),
        diff_add_bg: Color::Rgb(0x20, 0x39, 0x28),
        diff_add_word_bg: Color::Rgb(0x35, 0x59, 0x3d),
        diff_del_mark: Color::Rgb(0xd1, 0x6d, 0x76),
        diff_add_mark: Color::Rgb(0x8c, 0xc9, 0x8f),
        warning: Color::Yellow,
    }
}

/// The palette drawn for `theme`.
pub open spec fn spec_palette_for(theme: ColorTheme) -> Palette {
    match theme {
        ColorTheme::VsCode => vscode_palette(),
        ColorTheme::Light => light_palette(),
        ColorTheme::Terminal => terminal_palette(),
    }
}

pub fn palette_for(theme: ColorTheme) -> (p: Palette)
    ensures
        p == spec_palette_for(theme),
{
    match theme {
        ColorTheme::VsCode => Palette {
            keycap_bg: Color::Rgb(0x32, 0x36, 0x3d),
            keycap_fg: Color::Rgb(0xc9, 0xce, 0xd6),
            modified: Color::Rgb(0xe2, 0xc0, 0x8d),
            untracked: Color::Rgb(0x73, 0xc9, 0x91),
            added: Color::Rgb(0x81, 0xb8, 0x8b),
            renamed: Color::Rgb(0x73, 0xc9, 0x91),
            deleted: Color::Rgb(0xc7, 0x4e, 0x39),
            conflict: Color::Rgb(0xe4, 0x67, 0x6b),
            ignored: Color::Rgb(0x6b, 0x6b, 0x6b),
            selection_bg: Color::DarkGray,
            selection_unfocused_bg: Color::Rgb(0x2a, 0x2d, 0x2e),
            activity_hover_bg: Color::Rgb(0x3c, 0x42, 0x5d),
            hover_bg: Color::Rgb(48, 52, 60),
            accent: Color::Rgb(0x00, 0x78, 0xd4),
            accent_focus: Color::Rgb(0x02, 0x8a, 0xf0),
            button_bg: Color::Rgb(0x00, 0x78, 0xd4),
            button_focus_bg: Color::Rgb(0x02, 0x8a, 0xf0),
            button_fg: Color::White,
            muted_button_bg: Color::Rgb(0x24, 0x45, 0x5c),
            muted_button_fg: Color::Rgb(0x9a, 0xb2, 0xc2),
            sync_bg: Color::Rgb(0x3a, 0x3d, 0x41),
            sync_busy_bg: Color::Rgb(0x2d, 0x2d, 0x33),
            sync_fg: Color::White,
            header_accent: Color::LightBlue,
            selection_fg: Color::Reset,
            selection_unfocused_fg: Color::Reset,
            hover_fg: Color::Reset,
            text_selection_bg: Color::DarkGray,
            diff_del_bg: Color::Rgb(0x42, 0x22, 0x26),
            diff_del_word_bg: Color::Rgb(0x6f, 0x30, 0x36),
            diff_add_bg: Color::Rgb(0x20, 0x39, 0x28),
            diff_add_word_bg: Color::Rgb(0x35, 0x59, 0x3d),
            diff_del_mark: Color::Rgb(0xd1, 0x6d, 0x76),
            diff_add_mark: Color::Rgb(0x8c, 0xc9, 0x8f),
            warning: Color::Yellow,
        },
        ColorTheme::Light => Palette {
            keycap_bg: Color::Rgb(0xdd, 0xe1, 0xe6),
            keycap_fg: Color::Rgb(0x24, 0x29, 0x2f),
            modified: Color::Rgb(0x89, 0x55, 0x03),
            untracked: Color::Rgb(0x00, 0x71, 0x00),
            added: Color::Rgb(0x58, 0x7c, 0x0c),
            renamed: Color::Rgb(0x00, 0x71, 0x00),
            deleted: Color::Rgb(0xad, 0x07, 0x07),
            conflict: Color::Rgb(0xb5, 0x20, 0x0d),
            ignored: Color::Rgb(0x8c, 0x8c, 0x8c),
            selection_bg: Color::Rgb(0xcc, 0xe3, 0xf5),
            selection_unfocused_bg: Color::Rgb(0xe4, 0xe6, 0xe8),
            activity_hover_bg: Color::Rgb(0xe3, 0xef, 0xf9),
            hover_bg: Color::Rgb(0xec, 0xec, 0xec),
            accent: Color::Rgb(0x00, 0x78, 0xd4),
            accent_focus: Color::Rgb(0x02, 0x6e, 0xc1),
            button_bg: Color::Rgb(0xd8, 0xea, 0xfc),
            button_focus_bg: Color::Rgb(0xb6, 0xd8, 0xf8),
            button_fg: Color::Rgb(0x0a, 0x4a, 0x86),
            muted_button_bg: Color::Rgb(0xec, 0xef, 0xf2),
            muted_button_fg: Color::Rgb(0x57, 0x61, 0x6b),
            sync_bg: Color::Rgb(0xdc, 0xdf, 0xe3),
            sync_busy_bg: Color::Rgb(0xeb, 0xed, 0xef),
            sync_fg: Color::Rgb(0x24, 0x29, 0x2f),
            header_accent: Color::Rgb(0x00, 0x58, 0xa8),
            selection_fg: Color::Rgb(0x0a, 0x0a, 0x0a),
            selection_unfocused_fg: Color::Rgb(0x1f, 0x1f, 0x1f),
            hover_fg: Color::Reset,
            text_selection_bg: Color::Rgb(0xad, 0xd6, 0xff),
            diff_del_bg: Color::Rgb(0xff, 0xeb, 0xe9),
            diff_del_word_bg: Color::Rgb(0xff, 0xc1, 0xbc),
            diff_add_bg: Color::Rgb(0xe6, 0xff, 0xec),
            diff_add_word_bg: Color::Rgb(0xab, 0xf2, 0xbc),
            diff_del_mark: Color::Rgb(0xb3, 0x1d, 0x28),
            diff_add_mark: Color::Rgb(0x1a, 0x7f, 0x37),
            warning: Color::Rgb(0x9a, 0x67, 0x00),
        },
        ColorTheme::Terminal => Palette {
            keycap_bg: Color::DarkGray,
            keycap_fg: Color::White,
            modified: Color::Yellow,
            untracked: Color::Green,
            added: Color::LightGreen,
            renamed: Color::Green,
            deleted: Color::Red,
            conflict: Color::LightRed,
            ignored: Color::DarkGray,
            selection_bg: Color::DarkGray,
            selection_unfocused_bg: Color::Black,
            activity_hover_bg: Color::Rgb(0x3c, 0x42, 0x5d),
            hover_bg: Color::Black,
            accent: Color::Blue,
            accent_focus: Color::LightBlue,
            button_bg: Color::Blue,
            button_focus_bg: Color::LightBlue,
            button_fg: Color::White,
            muted_button_bg: Color::Black,
            muted_button_fg: Color::Gray,
            sync_bg: Color::DarkGray,
            sync_busy_bg: Color::Black,
            sync_fg: Color::White,
            header_accent: Color::LightBlue,
            selection_fg: Color::White,
            selection_unfocused_fg: Color::White,
            hover_fg: Color::Gray,
            text_selection_bg: Color::DarkGray,
            diff_del_bg: Color::Rgb(0x42, 0x22, 0x26),
            diff_del_word_bg: Color::Rgb(0x6f, 0x30, 0x36),
            diff_add_bg: Color::Rgb(0x20, 0x39, 0x28),
            diff_add_word_bg: Color::Rgb(0x35, 0x59, 0x3d),
            diff_del_mark: Color::Rgb(0xd1, 0x6d, 0x76),
            diff_add_mark: Color::Rgb(0x8c, 0xc9, 0x8f),
            warning: Color::Yellow,
        },
    }
}


/// Which palette the panes draw with, as the small code that a running pane
/// reads: 0 = vscode, 1 = terminal, 2 = light. Any other code reads as vscode.
pub struct ActivePalette {
    code: u8,
}

pub open spec fn spec_theme_code(theme: ColorTheme) -> u8 {
    match theme {
        ColorTheme::VsCode => 0,
        ColorTheme::Terminal => 1,
        ColorTheme::Light => 2,
    }
}

pub open spec fn spec_theme_of_code(code: u8) -> ColorTheme {
    if code == 1 {
        ColorTheme::Terminal
    } else if code == 2 {
        ColorTheme::Light
    } else {
        ColorTheme::VsCode
    }
}

impl View for ActivePalette {
    type V = ColorTheme;

    closed spec fn view(&self) -> ColorTheme {
        spec_theme_of_code(self.code)
    }
}

impl ActivePalette {
    /// A fresh cell holds the vscode theme.
    pub fn new() -> (a: ActivePalette)
        ensures
            a@ == ColorTheme::VsCode,
    {
        ActivePalette { code: 0 }
    }
}

pub fn theme_code(theme: ColorTheme) -> (code: u8)
    ensures
        code == spec_theme_code(theme),
{
    match theme {
        ColorTheme::VsCode => 0,
        ColorTheme::Terminal => 1,
        ColorTheme::Light => 2,
    }
}

/// Make `theme` the active one.
pub fn set_color_theme(active: &mut ActivePalette, theme: ColorTheme)
    ensures
        final(active)@ == theme,
{
    active.code = theme_code(theme);
}

/// The theme the panes currently draw with.
pub fn active_color_theme(active: &ActivePalette) -> (theme: ColorTheme)
    ensures
        theme == active@,
{
    match active.code {
        1 => ColorTheme::Terminal,
        2 => ColorTheme::Light,
        _ => ColorTheme::VsCode,
    }
}

/// Every theme survives the trip through its code: what was set is what
/// a later read finds.
pub proof fn lemma_theme_code_round_trip(theme: ColorTheme)
    ensures
        spec_theme_of_code(spec_theme_code(theme)) == theme,
{
}

/// The active palette.
pub fn palette(active: &ActivePalette) -> (p: Palette)
    ensures
        p == spec_palette_for(active@),
{
    palette_for(active_color_theme(active))
}

/// The active palette assumes a light terminal background.
pub fn is_light(active: &ActivePalette) -> (b: bool)
    ensures
        b == active@.spec_is_light(),
{
    active_color_theme(active).is_light()
}

/// `style` with foreground `fg`, unless `fg` is `Reset` ("leave the
/// terminal's own"), which leaves `style` as it is.
pub open spec fn spec_with_fg(style: Style, fg: Color) -> Style {
    if fg == Color::Reset {
        style
    } else {
        Style { fg: Some(fg), ..style }
    }
}

pub fn with_fg(style: Style, fg: Color) -> (s: Style)
    ensures
        s == spec_with_fg(style, fg),
{
    if fg == Color::Reset {
        style
    } else {
        style.fg(fg)
    }
}

/// The selected row: the selection background and foreground, bold when
/// the list has focus; the weaker unfocused pair otherwise.
pub open spec fn spec_selection_style(theme: ColorTheme, focused: bool) -> Style {
    let p = spec_palette_for(theme);
    if focused {
        Style {
            bold: true,
            ..spec_with_fg(Style { bg: Some(p.selection_bg), ..plain_style() }, p.selection_fg)
        }
    } else {
        spec_with_fg(
            Style { bg: Some(p.selection_unfocused_bg), ..plain_style() },
            p.selection_unfocused_fg,
        )
    }
}

pub fn selection_style_for(theme: ColorTheme, focused: bool) -> (s: Style)
    ensures
        s == spec_selection_style(theme, focused),
{
    let colors = palette_for(theme);
    if focused {
        with_fg(Style::plain().bg(colors.selection_bg), colors.selection_fg).bold()
    } else {
        with_fg(Style::plain().bg(colors.selection_unfocused_bg), colors.selection_unfocused_fg)
    }
}

pub fn selection_style(active: &ActivePalette, focused: bool) -> (s: Style)
    ensures
        s == spec_selection_style(active@, focused),
{
    selection_style_for(active_color_theme(active), focused)
}

/// The row under the mouse.
pub open spec fn spec_hover_style(theme: ColorTheme) -> Style {
    let p = spec_palette_for(theme);
    spec_with_fg(Style { bg: Some(p.hover_bg), ..plain_style() }, p.hover_fg)
}

pub fn hover_style_for(theme: ColorTheme) -> (s: Style)
    ensures
        s == spec_hover_style(theme),
{
    let colors = palette_for(theme);
    with_fg(Style::plain().bg(colors.hover_bg), colors.hover_fg)
}

pub fn hover_style(active: &ActivePalette) -> (s: Style)
    ensures
        s == spec_hover_style(active@),
{
    hover_style_for(active_color_theme(active))
}

/// Compact chrome buttons: a keycap chip under the mouse, dim otherwise.
pub open spec fn spec_chrome_button_style(theme: ColorTheme, hovered: bool) -> Style {
    let p = spec_palette_for(theme);
    if hovered {
        Style { bg: Some(p.keycap_bg), fg: Some(p.keycap_fg), ..plain_style() }
    } else {
        Style { dim: true, ..plain_style() }
    }
}

pub fn chrome_button_style(active: &ActivePalette, hovered: bool) -> (s: Style)
    ensures
        s == spec_chrome_button_style(active@, hovered),
{
    if hovered {
        let p = palette(active);
        Style::plain().bg(p.keycap_bg).fg(p.keycap_fg)
    } else {
        Style::plain().dim()
    }
}

/// Activity-bar buttons: the focused selection when active, the activity
/// hover chip when hovered, dim otherwise, in that order of precedence.
pub open spec fn spec_activity_button_style(theme: ColorTheme, active: bool, hovered: bool) -> Style {
    let p = spec_palette_for(theme);
    if active {
        spec_selection_style(theme, true)
    } else if hovered {
        Style { bg: Some(p.activity_hover_bg), fg: Some(p.keycap_fg), ..plain_style() }
    } else {
        Style { dim: true, ..plain_style() }
    }
}

pub fn activity_button_style_for(theme: ColorTheme, active: bool, hovered: bool) -> (s: Style)
    ensures
        s == spec_activity_button_style(theme, active, hovered),
{
    if active {
        selection_style_for(theme, true)
    } else if hovered {
        let p = palette_for(theme);
        Style::plain().bg(p.activity_hover_bg).fg(p.keycap_fg)
    } else {
        Style::plain().dim()
    }
}

pub fn activity_button_style(active_palette: &ActivePalette, active: bool, hovered: bool) -> (s: Style)
    ensures
        s == spec_activity_button_style(active_palette@, active, hovered),
{
    activity_button_style_for(active_color_theme(active_palette), active, hovered)
}

/// The color of a git status letter (`I` for ignored); anything unknown
/// keeps the terminal's own color.
pub open spec fn spec_status_color(theme: ColorTheme, letter: char) -> Color {
    let p = spec_palette_for(theme);
    if letter == 'M' {
        p.modified
    } else if letter == 'U' {
        p.untracked
    } else if letter == 'A' {
        p.added
    } else if letter == 'R' || letter == 'C' {
        p.renamed
    } else if letter == 'D' {
        p.deleted
    } else if letter == '!' {
        p.conflict
    } else if letter == 'I' {
        p.ignored
    } else {
        Color::Reset
    }
}

pub fn status_color(active: &ActivePalette, letter: char) -> (c: Color)
    ensures
        c == spec_status_color(active@, letter),
{
    let colors = palette(active);
    match letter {
        'M' => colors.modified,
        'U' => colors.untracked,
        'A' => colors.added,
        'R' | 'C' => colors.renamed,
        'D' => colors.deleted,
        '!' => colors.conflict,
        'I' => colors.ignored,
        _ => Color::Reset,
    }
}


/// Relative luminance in units of 1/2_550_000 (Rec. 709 weights in
/// ten-thousandths, channels out of 255): 0 is black, 2_550_000 is white.
pub open spec fn luma_units(r: u8, g: u8, b: u8) -> int {
    2126 * r + 7152 * g + 722 * b
}

/// The luminance cap for colors drawn on a light background: 0.42.
pub const MAX_LIGHT_LUMA_UNITS: u64 = 1_071_000;

/// `c` scaled by `MAX_LIGHT_LUMA_UNITS / luma`, rounded half up.
pub open spec fn spec_dim_channel(c: u8, luma: int) -> int {
    (2 * c * (MAX_LIGHT_LUMA_UNITS as int) + luma) / (2 * luma)
}

/// Scale a color toward black until its relative luminance is at most the
/// cap, preserving hue; colors already dark enough pass through.
pub open spec fn spec_darken_for_light(rgb: (u8, u8, u8)) -> (u8, u8, u8) {
    let luma = luma_units(rgb.0, rgb.1, rgb.2);
    if luma <= MAX_LIGHT_LUMA_UNITS {
        rgb
    } else {
        (
            spec_dim_channel(rgb.0, luma) as u8,
            spec_dim_channel(rgb.1, luma) as u8,
            spec_dim_channel(rgb.2, luma) as u8,
        )
    }
}

/// A scaled channel never exceeds the channel it came from.
pub proof fn lemma_dim_channel_bounded(c: u8, luma: int)
    requires
        luma > MAX_LIGHT_LUMA_UNITS,
    ensures
        0 <= spec_dim_channel(c, luma) <= c,
{
    let k = MAX_LIGHT_LUMA_UNITS as int;
    let ci = c as int;
    assert(2 * ci * k + luma < 2 * luma * (ci + 1)) by (nonlinear_arith)
        requires
            luma > k,
            k >= 0,
            ci >= 0,
    ;
    assert(0 <= (2 * ci * k + luma) / (2 * luma) <= ci) by (nonlinear_arith)
        requires
            2 * ci * k + luma < 2 * luma * (ci + 1),
            luma > 0,
            ci >= 0,
            k >= 0,
    ;
}

/// Scaling keeps the order of two channels, so the hue's channel ranking
/// survives.
pub proof fn lemma_dim_channel_monotone(c1: u8, c2: u8, luma: int)
    requires
        luma > MAX_LIGHT_LUMA_UNITS,
        c1 <= c2,
    ensures
        spec_dim_channel(c1, luma) <= spec_dim_channel(c2, luma),
{
    let k = MAX_LIGHT_LUMA_UNITS as int;
    let a = 2 * (c1 as int) * k + luma;
    let b = 2 * (c2 as int) * k + luma;
    assert(a <= b) by (nonlinear_arith)
        requires
            c1 <= c2,
            k >= 0,
            a == 2 * (c1 as int) * k + luma,
            b == 2 * (c2 as int) * k + luma,
    ;
    vstd::arithmetic::div_mod::lemma_div_is_ordered(a, b, 2 * luma);
}

/// Darkening never brightens a channel and keeps the channels' order.
pub proof fn lemma_darken_keeps_hue(rgb: (u8, u8, u8))
    ensures
        spec_darken_for_light(rgb).0 <= rgb.0,
        spec_darken_for_light(rgb).1 <= rgb.1,
        spec_darken_for_light(rgb).2 <= rgb.2,
        rgb.0 <= rgb.1 ==> spec_darken_for_light(rgb).0 <= spec_darken_for_light(rgb).1,
        rgb.1 <= rgb.0 ==> spec_darken_for_light(rgb).1 <= spec_darken_for_light(rgb).0,
        rgb.0 <= rgb.2 ==> spec_darken_for_light(rgb).0 <= spec_darken_for_light(rgb).2,
        rgb.2 <= rgb.0 ==> spec_darken_for_light(rgb).2 <= spec_darken_for_light(rgb).0,
        rgb.1 <= rgb.2 ==> spec_darken_for_light(rgb).1 <= spec_darken_for_light(rgb).2,
        rgb.2 <= rgb.1 ==> spec_darken_for_light(rgb).2 <= spec_darken_for_light(rgb).1,
{
    let luma = luma_units(rgb.0, rgb.1, rgb.2);
    if luma > MAX_LIGHT_LUMA_UNITS {
        lemma_dim_channel_bounded(rgb.0, luma);
        lemma_dim_channel_bounded(rgb.1, luma);
        lemma_dim_channel_bounded(rgb.2, luma);
        if rgb.0 <= rgb.1 { lemma_dim_channel_monotone(rgb.0, rgb.1, luma); }
        if rgb.1 <= rgb.0 { lemma_dim_channel_monotone(rgb.1, rgb.0, luma); }
        if rgb.0 <= rgb.2 { lemma_dim_channel_monotone(rgb.0, rgb.2, luma); }
        if rgb.2 <= rgb.0 { lemma_dim_channel_monotone(rgb.2, rgb.0, luma); }
        if rgb.1 <= rgb.2 { lemma_dim_channel_monotone(rgb.1, rgb.2, luma); }
        if rgb.2 <= rgb.1 { lemma_dim_channel_monotone(rgb.2, rgb.1, luma); }
    }
}

/// After darkening, the luminance is within half a step per channel of the
/// cap: at most 0.42 + 5000/2_550_000 (under 0.4220).
pub proof fn lemma_darken_caps_luma(rgb: (u8, u8, u8))
    ensures
        ({
            let d = spec_darken_for_light(rgb);
            luma_units(d.0, d.1, d.2) <= MAX_LIGHT_LUMA_UNITS + 5000
        }),
{
    let luma = luma_units(rgb.0, rgb.1, rgb.2);
    if luma > MAX_LIGHT_LUMA_UNITS {
        let k = MAX_LIGHT_LUMA_UNITS as int;
        lemma_dim_channel_bounded(rgb.0, luma);
        lemma_dim_channel_bounded(rgb.1, luma);
        lemma_dim_channel_bounded(rgb.2, luma);
        let (r, g, b) = (rgb.0 as int, rgb.1 as int, rgb.2 as int);
        let dr = spec_dim_channel(rgb.0, luma);
        let dg = spec_dim_channel(rgb.1, luma);
        let db = spec_dim_channel(rgb.2, luma);
        // 2 * luma * d <= 2 * c * k + luma for each channel
        vstd::arithmetic::div_mod::lemma_fundamental_div_mod(2 * r * k + luma, 2 * luma);
        vstd::arithmetic::div_mod::lemma_fundamental_div_mod(2 * g * k + luma, 2 * luma);
        vstd::arithmetic::div_mod::lemma_fundamental_div_mod(2 * b * k + luma, 2 * luma);
        vstd::arithmetic::div_mod::lemma_mod_bound(2 * r * k + luma, 2 * luma);
        vstd::arithmetic::div_mod::lemma_mod_bound(2 * g * k + luma, 2 * luma);
        vstd::arithmetic::div_mod::lemma_mod_bound(2 * b * k + luma, 2 * luma);
        assert(2126 * dr + 7152 * dg + 722 * db <= k + 5000) by (nonlinear_arith)
            requires
                luma == 2126 * r + 7152 * g + 722 * b,
                luma > 0,
                2 * luma * dr <= 2 * r * k + luma,
                2 * luma * dg <= 2 * g * k + luma,
                2 * luma * db <= 2 * b * k + luma,
        ;
    }
}

/// A file-type icon's color, darkened for a light background.
pub fn darken_for_light(rgb: (u8, u8, u8)) -> (d: (u8, u8, u8))
    ensures
        d == spec_darken_for_light(rgb),
{
    let (r, g, b) = rgb;
    let luma: u64 = 2126 * (r as u64) + 7152 * (g as u64) + 722 * (b as u64);
    if luma <= MAX_LIGHT_LUMA_UNITS {
        return rgb;
    }
    proof {
        lemma_dim_channel_bounded(r, luma as int);
        lemma_dim_channel_bounded(g, luma as int);
        lemma_dim_channel_bounded(b, luma as int);
    }
    let dr = (2 * (r as u64) * MAX_LIGHT_LUMA_UNITS + luma) / (2 * luma);
    let dg = (2 * (g as u64) * MAX_LIGHT_LUMA_UNITS + luma) / (2 * luma);
    let db = (2 * (b as u64) * MAX_LIGHT_LUMA_UNITS + luma) / (2 * luma);
    (dr as u8, dg as u8, db as u8)
}

/// An icon's fixed color as a foreground, darkened for the light theme;
/// no color leaves the style plain.
pub open spec fn spec_icon_style(theme: ColorTheme, rgb: Option<(u8, u8, u8)>) -> Style {
    match rgb {
        Some(c) => {
            let d = if theme.spec_is_light() { spec_darken_for_light(c) } else { c };
            Style { fg: Some(Color::Rgb(d.0, d.1, d.2)), ..plain_style() }
        },
        None => plain_style(),
    }
}

pub fn icon_style_for(theme: ColorTheme, rgb: Option<(u8, u8, u8)>) -> (s: Style)
    ensures
        s == spec_icon_style(theme, rgb),
{
    match rgb {
        Some(c) => {
            let (r, g, b) = if theme.is_light() { darken_for_light(c) } else { c };
            Style::plain().fg(Color::Rgb(r, g, b))
        },
        None => Style::plain(),
    }
}

pub fn icon_style(active: &ActivePalette, rgb: Option<(u8, u8, u8)>) -> (s: Style)
    ensures
        s == spec_icon_style(active@, rgb),
{
    icon_style_for(active_color_theme(active), rgb)
}

} // verus!
