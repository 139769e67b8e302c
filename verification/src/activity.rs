//! The activity bar (Explorer, Search, Source Control, Usage, and the gear):
//! button geometry, highlight caps, hover, and the row's styled runs.
use vstd::prelude::*;
use vstd::string::StringExecFns;

use crate::layout::{
    gear_icon, hits, hits_activity_button, rect_in_bounds, sat_sub, spec_hits,
    spec_hits_activity_button, usage_icon, activity_icons,
};
use crate::style::{plain_style, spec_rect, Color, Rect, Style, StyledText, TextBlock};
use crate::text::{display_width, push_char, span_width};
use crate::theme::{
    activity_button_style, palette, spec_activity_button_style, spec_palette_for, ActivePalette,
    ColorTheme, IconTheme,
};

verus! {

/// `n` copies of `c`.
pub open spec fn repeated(c: char, n: nat) -> Seq<char> {
    Seq::new(n, |_i: int| c)
}

pub fn repeat_char(c: char, n: usize) -> (s: String)
    ensures
        s@ == repeated(c, n as nat),
{
    let mut s = String::new();
    for i in 0..n
        invariant
            s@ == repeated(c, i as nat),
    {
        push_char(&mut s, c);
        assert(s@ =~= repeated(c, (i + 1) as nat));
    }
    s
}

/// The half-block rows that extend a button's middle-row fill into the
/// spacer rows above and below it; nothing for an empty column range.
pub open spec fn spec_activity_caps(bounds: (u16, u16), outer_top: u16, outer_bottom: u16, color: Color) -> Seq<
    (Rect, Seq<char>, Style),
> {
    let w = sat_sub(bounds.1 as int, bounds.0 as int);
    if w == 0 {
        Seq::empty()
    } else {
        let style = Style { fg: Some(color), ..plain_style() };
        seq![
            (spec_rect(bounds.0, outer_top, w as u16, 1), repeated('▄', w as nat), style),
            (spec_rect(bounds.0, outer_bottom, w as u16, 1), repeated('▀', w as nat), style),
        ]
    }
}

pub open spec fn blocks_view(v: Seq<TextBlock>) -> Seq<(Rect, Seq<char>, Style)> {
    v.map_values(|b: TextBlock| b@)
}

/// Append the caps of a button spanning `bounds` to `out`.
pub fn activity_caps(out: &mut Vec<TextBlock>, bounds: (u16, u16), outer_top: u16, outer_bottom: u16, color: Color)
    ensures
        blocks_view(final(out)@) == blocks_view(old(out)@) + spec_activity_caps(
            bounds,
            outer_top,
            outer_bottom,
            color,
        ),
{
    let width = bounds.1.saturating_sub(bounds.0);
    if width == 0 {
        assert(blocks_view(out@) == blocks_view(out@) + Seq::<(Rect, Seq<char>, Style)>::empty());
        return;
    }
    let style = Style::plain().fg(color);
    let ghost before = out@;
    out.push(TextBlock { area: Rect::new(bounds.0, outer_top, width, 1), content: repeat_char('▄', width as usize), style });
    out.push(TextBlock { area: Rect::new(bounds.0, outer_bottom, width, 1), content: repeat_char('▀', width as usize), style });
    assert(blocks_view(out@) =~= blocks_view(before) + spec_activity_caps(bounds, outer_top, outer_bottom, color));
}


/// Column ranges of the four activity buttons and the gear's rectangle,
/// from the last draw; clicks are tested against them.
#[derive(Clone, Copy, Debug, Default, PartialEq, Eq)]
pub struct ActivityBar {
    pub row: u16,
    pub buttons: [(u16, u16); 4],
    pub gear: Rect,
}

/// The glyph of activity button `i`: explorer, search, source control,
/// usage.
pub open spec fn activity_glyph(theme: IconTheme, i: int) -> char {
    if theme == IconTheme::Material {
        if i == 0 {
            '\u{f07b}'
        } else if i == 1 {
            '\u{f002}'
        } else if i == 2 {
            '\u{f126}'
        } else {
            '\u{f0e4}'
        }
    } else {
        if i == 0 {
            '📁'
        } else if i == 1 {
            '🔍'
        } else if i == 2 {
            '🔀'
        } else {
            '📊'
        }
    }
}

/// A button's chip: the glyph padded by a space each side, plus a slack
/// cell in the material theme (its glyphs draw two cells wide).
pub open spec fn activity_chip(theme: IconTheme, i: int) -> Seq<char> {
    if theme == IconTheme::Material {
        seq![' ', activity_glyph(theme, i), ' ', ' ']
    } else {
        seq![' ', activity_glyph(theme, i), ' ']
    }
}

pub open spec fn chip_cols(theme: IconTheme, i: int) -> int {
    (display_width(activity_chip(theme, i)) as u16) as int
}

/// The column just after the first `n` buttons (each preceded by a
/// one-column gap), starting from `x`.
pub open spec fn buttons_end(x: int, theme: IconTheme, n: int) -> int
    decreases n,
{
    if n <= 0 {
        x
    } else {
        buttons_end(x, theme, n - 1) + 1 + chip_cols(theme, n - 1)
    }
}

pub open spec fn button_range(x: int, theme: IconTheme, i: int) -> (u16, u16) {
    ((buttons_end(x, theme, i) + 1) as u16, (buttons_end(x, theme, i) + 1 + chip_cols(theme, i)) as u16)
}

pub open spec fn gear_chip(theme: IconTheme) -> Seq<char> {
    seq![' ', if theme == IconTheme::Material { '\u{f013}' } else { '⚙' }, ' ']
}

pub open spec fn gear_cols(theme: IconTheme) -> int {
    (display_width(gear_chip(theme)) as u16) as int
}

/// The gear sits at the right end, spanning all three rows (as far as the
/// coordinate space reaches).
pub open spec fn gear_rect(area: Rect, theme: IconTheme) -> Rect {
    spec_rect((area.x + sat_sub(area.width as int, gear_cols(theme))) as u16, area.y, gear_cols(theme) as u16, 3)
}

pub open spec fn mouse_on_button(range: (u16, u16), row: u16, mouse: Option<(u16, u16)>) -> bool {
    match mouse {
        Some(p) => spec_hits_activity_button(range, row, p.0, p.1),
        None => false,
    }
}

pub open spec fn mouse_on_gear(area: Rect, theme: IconTheme, mouse: Option<(u16, u16)>) -> bool {
    match mouse {
        Some(p) => spec_hits(gear_rect(area, theme), p.0, p.1),
        None => false,
    }
}

pub open spec fn button_hovered(area: Rect, theme: IconTheme, mouse: Option<(u16, u16)>, i: int) -> bool {
    mouse_on_button(button_range(area.x as int, theme, i), (area.y + 1) as u16, mouse)
}

/// Caps of button `i`: the selection fill when active, the hover fill when
/// hovered, none otherwise.
pub open spec fn button_caps(pal: ColorTheme, area: Rect, theme: IconTheme, active: int, mouse: Option<(u16, u16)>, i: int) -> Seq<
    (Rect, Seq<char>, Style),
> {
    let p = spec_palette_for(pal);
    if i == active || button_hovered(area, theme, mouse, i) {
        spec_activity_caps(
            button_range(area.x as int, theme, i),
            area.y,
            (area.y + 2) as u16,
            if i == active { p.selection_bg } else { p.activity_hover_bg },
        )
    } else {
        Seq::empty()
    }
}

pub open spec fn bar_caps(pal: ColorTheme, area: Rect, theme: IconTheme, active: int, mouse: Option<(u16, u16)>) -> Seq<
    (Rect, Seq<char>, Style),
> {
    let g = gear_rect(area, theme);
    button_caps(pal, area, theme, active, mouse, 0) + button_caps(pal, area, theme, active, mouse, 1)
        + button_caps(pal, area, theme, active, mouse, 2) + button_caps(pal, area, theme, active, mouse, 3)
        + if mouse_on_gear(area, theme, mouse) {
        spec_activity_caps((g.x, (g.x + g.width) as u16), area.y, (area.y + 2) as u16, spec_palette_for(pal).activity_hover_bg)
    } else {
        Seq::empty()
    }
}

/// The blank columns between the last button and the gear.
pub open spec fn bar_pad(area: Rect, theme: IconTheme) -> int {
    sat_sub(
        area.width as int,
        4 * display_width(seq![' ']) + display_width(activity_chip(theme, 0)) + display_width(activity_chip(theme, 1))
            + display_width(activity_chip(theme, 2)) + display_width(activity_chip(theme, 3)) + gear_cols(theme),
    )
}

pub open spec fn button_runs(pal: ColorTheme, area: Rect, theme: IconTheme, active: int, mouse: Option<(u16, u16)>, i: int) -> Seq<
    (Seq<char>, Style),
> {
    seq![
        (seq![' '], plain_style()),
        (activity_chip(theme, i), spec_activity_button_style(pal, i == active, button_hovered(area, theme, mouse, i))),
    ]
}

/// The middle row: gap and chip per button, padding, then the gear chip.
pub open spec fn bar_runs(pal: ColorTheme, area: Rect, theme: IconTheme, active: int, mouse: Option<(u16, u16)>) -> Seq<
    (Seq<char>, Style),
> {
    button_runs(pal, area, theme, active, mouse, 0) + button_runs(pal, area, theme, active, mouse, 1)
        + button_runs(pal, area, theme, active, mouse, 2) + button_runs(pal, area, theme, active, mouse, 3)
        + seq![
        (repeated(' ', bar_pad(area, theme) as nat), plain_style()),
        (gear_chip(theme), spec_activity_button_style(pal, false, mouse_on_gear(area, theme, mouse))),
    ]
}

/// The bar's coordinates all stay inside the coordinate space.
pub open spec fn activity_bar_fits(area: Rect, theme: IconTheme) -> bool {
    &&& rect_in_bounds(area)
    &&& area.y + 2 <= u16::MAX
    &&& buttons_end(area.x as int, theme, 4) <= u16::MAX
    &&& area.x + gear_cols(theme) <= u16::MAX
}

/// What a draw of the activity bar puts on screen, and where its buttons
/// are: the bar geometry, the middle row's area and runs, and the cap
/// blocks above and below highlighted buttons.
pub struct ActivityBarLayout {
    pub bar: ActivityBar,
    pub row_area: Rect,
    pub runs: Vec<StyledText>,
    pub caps: Vec<TextBlock>,
}

pub open spec fn runs_of(v: Seq<StyledText>) -> Seq<(Seq<char>, Style)> {
    v.map_values(|t: StyledText| t@)
}

proof fn lemma_buttons_end_monotone(x: int, theme: IconTheme, i: int, j: int)
    requires
        0 <= i <= j,
    ensures
        x <= buttons_end(x, theme, i) <= buttons_end(x, theme, j),
    decreases j,
{
    if j > i {
        lemma_buttons_end_monotone(x, theme, i, j - 1);
    } else if i > 0 {
        lemma_buttons_end_monotone(x, theme, 0, i - 1);
    }
}

/// Lay out one button: its gap and chip runs, its caps, its range.
fn place_button(
    pal: &ActivePalette,
    area: Rect,
    theme: IconTheme,
    active: usize,
    mouse: Option<(u16, u16)>,
    i: usize,
    icon: &str,
    runs: &mut Vec<StyledText>,
    caps: &mut Vec<TextBlock>,
    x: u16,
) -> (out: ((u16, u16), u16, u128))
    requires
        i < 4,
        icon@ == seq![activity_glyph(theme, i as int)],
        activity_bar_fits(area, theme),
        x == buttons_end(area.x as int, theme, i as int),
    ensures
        out.0 == button_range(area.x as int, theme, i as int),
        out.1 == buttons_end(area.x as int, theme, i + 1),
        out.2 == display_width(seq![' ']) + display_width(activity_chip(theme, i as int)),
        runs_of(final(runs)@) == runs_of(old(runs)@) + button_runs(pal@, area, theme, active as int, mouse, i as int),
        blocks_view(final(caps)@) == blocks_view(old(caps)@) + button_caps(pal@, area, theme, active as int, mouse, i as int),
{
    proof {
        lemma_buttons_end_monotone(area.x as int, theme, i + 1, 4);
    }
    let mut gap = String::new();
    push_char(&mut gap, ' ');
    let gap_w = span_width(gap.as_str());
    let ghost runs0 = runs@;
    runs.push(StyledText { content: gap, style: Style::plain() });
    let x = x + 1;
    let mut chip = String::new();
    push_char(&mut chip, ' ');
    chip.append(icon);
    if theme == IconTheme::Material {
        push_char(&mut chip, ' ');
    }
    push_char(&mut chip, ' ');
    assert(chip@ =~= activity_chip(theme, i as int));
    let chip_w = span_width(chip.as_str());
    let w = chip_w as u16;
    let range = (x, x + w);
    let hovered = match mouse {
        Some((mx, my)) => hits_activity_button(range, area.y + 1, mx, my),
        None => false,
    };
    assert(hovered == button_hovered(area, theme, mouse, i as int));
    if i == active || hovered {
        let p = palette(pal);
        let bg = if i == active { p.selection_bg } else { p.activity_hover_bg };
        activity_caps(caps, range, area.y, area.y + 2, bg);
    } else {
        assert(blocks_view(caps@) == blocks_view(caps@) + Seq::<(Rect, Seq<char>, Style)>::empty());
    }
    let style = activity_button_style(pal, i == active, hovered);
    runs.push(StyledText { content: chip, style });
    assert(runs_of(runs@) =~= runs_of(runs0) + button_runs(pal@, area, theme, active as int, mouse, i as int));
    (range, x + w, gap_w as u128 + chip_w as u128)
}

/// Lay out the unified activity bar in a three-row `area`, with button
/// `active` (0..4) highlighted and the button under `mouse` hovered.
#[verifier::rlimit(40)]
pub fn layout_activity_bar(
    pal: &ActivePalette,
    area: Rect,
    theme: IconTheme,
    active: usize,
    mouse: Option<(u16, u16)>,
) -> (out: ActivityBarLayout)
    requires
        activity_bar_fits(area, theme),
    ensures
        out.bar.row == area.y + 1,
        forall|i: int| 0 <= i < 4 ==> #[trigger] out.bar.buttons@[i] == button_range(area.x as int, theme, i),
        out.bar.gear == gear_rect(area, theme),
        out.row_area == (Rect { x: area.x, y: (area.y + 1) as u16, width: area.width, height: 1 }),
        runs_of(out.runs@) == bar_runs(pal@, area, theme, active as int, mouse),
        blocks_view(out.caps@) == bar_caps(pal@, area, theme, active as int, mouse),
{
    let outer_top = area.y;
    let outer_bottom = area.y + 2;
    let row = area.y + 1;
    let (exp, search, git) = activity_icons(theme);
    let usage = usage_icon(theme);
    let mut runs: Vec<StyledText> = Vec::new();
    let mut caps: Vec<TextBlock> = Vec::new();
    let ghost r0 = runs@;
    let ghost c0 = caps@;
    let (b0, x, w0) = place_button(pal, area, theme, active, mouse, 0, exp, &mut runs, &mut caps, area.x);
    let (b1, x, w1) = place_button(pal, area, theme, active, mouse, 1, search, &mut runs, &mut caps, x);
    let (b2, x, w2) = place_button(pal, area, theme, active, mouse, 2, git, &mut runs, &mut caps, x);
    let (b3, x, w3) = place_button(pal, area, theme, active, mouse, 3, usage, &mut runs, &mut caps, x);
    let ghost pa = pal@;
    let ghost ac = active as int;
    assert(runs_of(runs@) =~= button_runs(pa, area, theme, ac, mouse, 0) + button_runs(pa, area, theme, ac, mouse, 1)
        + button_runs(pa, area, theme, ac, mouse, 2) + button_runs(pa, area, theme, ac, mouse, 3));
    assert(blocks_view(caps@) =~= button_caps(pa, area, theme, ac, mouse, 0) + button_caps(pa, area, theme, ac, mouse, 1)
        + button_caps(pa, area, theme, ac, mouse, 2) + button_caps(pa, area, theme, ac, mouse, 3));
    let mut gear_text = String::new();
    push_char(&mut gear_text, ' ');
    gear_text.append(gear_icon(theme));
    push_char(&mut gear_text, ' ');
    assert(gear_text@ =~= gear_chip(theme));
    let gear_w = span_width(gear_text.as_str()) as u16;
    let gear_x = area.x + area.width.saturating_sub(gear_w);
    let gear = Rect::new(gear_x, outer_top, gear_w, 3);
    assert(gear == gear_rect(area, theme));
    let gear_hovered = match mouse {
        Some((mx, my)) => hits(gear, mx, my),
        None => false,
    };
    let ghost c4 = caps@;
    if gear_hovered {
        let p = palette(pal);
        activity_caps(&mut caps, (gear_x, gear_x + gear_w), outer_top, outer_bottom, p.activity_hover_bg);
    } else {
        assert(blocks_view(caps@) == blocks_view(caps@) + Seq::<(Rect, Seq<char>, Style)>::empty());
    }
    let used: u128 = w0 + w1 + w2 + w3 + gear_w as u128;
    let pad: usize = if used < area.width as u128 { (area.width as u128 - used) as usize } else { 0 };
    let ghost r4 = runs@;
    runs.push(StyledText { content: repeat_char(' ', pad), style: Style::plain() });
    runs.push(StyledText { content: gear_text, style: activity_button_style(pal, false, gear_hovered) });
    assert(pad == bar_pad(area, theme));
    assert(runs_of(runs@) =~= runs_of(r4) + seq![
        (repeated(' ', bar_pad(area, theme) as nat), plain_style()),
        (gear_chip(theme), spec_activity_button_style(pa, false, mouse_on_gear(area, theme, mouse))),
    ]);
    assert(runs_of(runs@) =~= bar_runs(pa, area, theme, ac, mouse));
    assert(blocks_view(caps@) =~= bar_caps(pa, area, theme, ac, mouse));
    let bar = ActivityBar { row, buttons: [b0, b1, b2, b3], gear };
    ActivityBarLayout { bar, row_area: Rect::new(area.x, row, area.width, 1), runs, caps }
}


/// Buttons run left to right, one blank column apart, starting one column
/// in from the left edge.
pub proof fn lemma_activity_buttons_in_order(area: Rect, theme: IconTheme)
    requires
        activity_bar_fits(area, theme),
    ensures
        button_range(area.x as int, theme, 0).0 == area.x + 1,
        forall|i: int|
            0 <= i < 3 ==> #[trigger] button_range(area.x as int, theme, i + 1).0 == button_range(area.x as int, theme, i).1 + 1,
        forall|i: int|
            0 <= i < 4 ==> button_range(area.x as int, theme, i).0 <= #[trigger] button_range(area.x as int, theme, i).1,
{
    assert forall|i: int| 0 <= i < 4 implies button_range(area.x as int, theme, i).0 <= #[trigger] button_range(area.x as int, theme, i).1 by {
        lemma_buttons_end_monotone(area.x as int, theme, i + 1, 4);
        lemma_buttons_end_monotone(area.x as int, theme, i, 4);
        assert(buttons_end(area.x as int, theme, i + 1) == buttons_end(area.x as int, theme, i) + 1 + chip_cols(theme, i));
    }
    assert forall|i: int| 0 <= i < 3 implies #[trigger] button_range(area.x as int, theme, i + 1).0 == button_range(area.x as int, theme, i).1 + 1 by {
        lemma_buttons_end_monotone(area.x as int, theme, i + 2, 4);
        lemma_buttons_end_monotone(area.x as int, theme, i + 1, 4);
        lemma_buttons_end_monotone(area.x as int, theme, i, 4);
        assert(buttons_end(area.x as int, theme, i + 1) == buttons_end(area.x as int, theme, i) + 1 + chip_cols(theme, i));
        assert(buttons_end(area.x as int, theme, i + 2) == buttons_end(area.x as int, theme, i + 1) + 1 + chip_cols(theme, i + 1));
    }
    lemma_buttons_end_monotone(area.x as int, theme, 1, 4);
}

/// Each button shows its own view's icon, in the order of the views its
/// clicks and keys select: the middle row's chips hold the folder
/// (Explorer), the magnifier (Search), the branch (Source Control) and the
/// chart (Usage), as `activity_icons` and `usage_icon` name them; the gear
/// chip comes last.
pub proof fn lemma_activity_buttons_show_their_icons(
    pal: ColorTheme,
    area: Rect,
    theme: IconTheme,
    active: int,
    mouse: Option<(u16, u16)>,
)
    ensures
        bar_runs(pal, area, theme, active, mouse).len() == 10,
        bar_runs(pal, area, theme, active, mouse)[1].0[1] == if theme == IconTheme::Material { '\u{f07b}' } else { '📁' },
        bar_runs(pal, area, theme, active, mouse)[3].0[1] == if theme == IconTheme::Material { '\u{f002}' } else { '🔍' },
        bar_runs(pal, area, theme, active, mouse)[5].0[1] == if theme == IconTheme::Material { '\u{f126}' } else { '🔀' },
        bar_runs(pal, area, theme, active, mouse)[7].0[1] == if theme == IconTheme::Material { '\u{f0e4}' } else { '📊' },
        bar_runs(pal, area, theme, active, mouse)[9].0[1] == if theme == IconTheme::Material { '\u{f013}' } else { '⚙' },
{
}

/// Hover and selection share one three-row geometry: a highlighted
/// button's caps sit on the rows just above and below its middle row and
/// span exactly its columns, and a click hits the button exactly on those
/// three rows within those columns (a bottom cap on the last coordinate
/// row has no height left to draw in).
pub proof fn lemma_caps_match_hitbox(range: (u16, u16), top: u16, color: Color, x: u16, y: u16)
    requires
        range.0 < range.1,
        top + 2 <= u16::MAX,
    ensures
        spec_activity_caps(range, top, (top + 2) as u16, color).len() == 2,
        spec_activity_caps(range, top, (top + 2) as u16, color)[0].0 == (Rect { x: range.0, y: top, width: (range.1 - range.0) as u16, height: 1 }),
        spec_activity_caps(range, top, (top + 2) as u16, color)[1].0 == (Rect {
            x: range.0,
            y: (top + 2) as u16,
            width: (range.1 - range.0) as u16,
            height: if top + 2 < u16::MAX { 1u16 } else { 0u16 },
        }),
        spec_hits_activity_button(range, (top + 1) as u16, x, y) <==> (range.0 <= x < range.1 && top <= y <= top + 2),
{
}

/// Lay out the activity bar when its coordinates fit; `None` when they
/// would run past the coordinate space.
pub fn checked_layout_activity_bar(
    pal: &ActivePalette,
    area: Rect,
    theme: IconTheme,
    active: usize,
    mouse: Option<(u16, u16)>,
) -> (out: Option<ActivityBarLayout>)
    ensures
        out is Some <==> activity_bar_fits(area, theme),
        out matches Some(l) ==> {
            &&& l.bar.row == area.y + 1
            &&& forall|i: int| 0 <= i < 4 ==> #[trigger] l.bar.buttons@[i] == button_range(area.x as int, theme, i)
            &&& l.bar.gear == gear_rect(area, theme)
            &&& l.row_area == (Rect { x: area.x, y: (area.y + 1) as u16, width: area.width, height: 1 })
            &&& runs_of(l.runs@) == bar_runs(pal@, area, theme, active as int, mouse)
            &&& blocks_view(l.caps@) == bar_caps(pal@, area, theme, active as int, mouse)
        },
{
    if (area.x as u32) + (area.width as u32) > u16::MAX as u32 || (area.y as u32) + (area.height as u32) > u16::MAX as u32
        || (area.y as u32) + 2 > u16::MAX as u32 {
        return None;
    }
    let (exp, search, git) = activity_icons(theme);
    let icons = [exp, search, git, usage_icon(theme)];
    let mut end: u32 = area.x as u32;
    for i in 0..4
        invariant
            end == buttons_end(area.x as int, theme, i as int),
            end <= u16::MAX,
            forall|j: int| 0 <= j < 4 ==> (#[trigger] icons@[j])@ == seq![activity_glyph(theme, j)],
    {
        let mut chip = String::new();
        push_char(&mut chip, ' ');
        chip.append(icons[i]);
        if theme == IconTheme::Material {
            push_char(&mut chip, ' ');
        }
        push_char(&mut chip, ' ');
        assert(chip@ =~= activity_chip(theme, i as int));
        end = end + 1 + (span_width(chip.as_str()) as u16) as u32;
        if end > u16::MAX as u32 {
            proof {
                lemma_buttons_end_monotone(area.x as int, theme, i + 1, 4);
            }
            return None;
        }
    }
    let mut gear_text = String::new();
    push_char(&mut gear_text, ' ');
    gear_text.append(gear_icon(theme));
    push_char(&mut gear_text, ' ');
    assert(gear_text@ =~= gear_chip(theme));
    if (area.x as u32) + ((span_width(gear_text.as_str()) as u16) as u32) > u16::MAX as u32 {
        return None;
    }
    Some(layout_activity_bar(pal, area, theme, active, mouse))
}

/// What a right-edge scrollbar shows when a list overflows its viewport:
/// the scrollable length and the position; nothing when everything fits
/// or the area is empty.
pub fn scrollbar_plan(area: Rect, total: usize, viewport: usize, pos: usize) -> (plan: Option<(usize, usize)>)
    ensures
        plan == if total <= viewport || area.width == 0 || area.height == 0 {
            None::<(usize, usize)>
        } else {
            Some(((total - viewport) as usize, pos))
        },
{
    if total <= viewport || area.width == 0 || area.height == 0 {
        None
    } else {
        Some((total - viewport, pos))
    }
}

} // verus!
