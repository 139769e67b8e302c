//! Geometry shared by the sidebar views: scroll windows, hit tests, the
//! activity-bar and title-bar glyphs and their click zones.
use vstd::prelude::*;
use vstd::string::StringExecFns;

use crate::style::{plain_style, spec_rect, Rect, Style, StyledText};
use crate::text::{display_width, push_char, span_width};
use crate::theme::{
    chrome_button_style, palette, spec_chrome_button_style, spec_palette_for, ActivePalette,
    ColorTheme, IconTheme,
};

verus! {

pub open spec fn sat_sub(a: int, b: int) -> int {
    if a > b {
        a - b
    } else {
        0
    }
}

pub open spec fn spec_min(a: int, b: int) -> int {
    if a < b {
        a
    } else {
        b
    }
}

/// The first row to draw so that row `selected` stays inside a window of
/// `visible` rows over `content` rows.
pub open spec fn spec_keep_visible_scroll(selected: int, visible: int, content: int) -> int {
    spec_min(sat_sub(selected + 1, visible), sat_sub(content, visible))
}

pub fn keep_visible_scroll(selected: usize, visible: usize, content: usize) -> (scroll: usize)
    ensures
        scroll == spec_keep_visible_scroll(selected as int, visible as int, content as int),
{
    let first = selected.saturating_add(1).saturating_sub(visible);
    let last = content.saturating_sub(visible);
    if first < last {
        first
    } else {
        last
    }
}

/// With a non-empty window and a selected row inside the content, the
/// selected row is inside the window, and the window never scrolls past
/// the end of the content.
pub proof fn lemma_keep_visible_scroll_shows_selection(selected: int, visible: int, content: int)
    requires
        0 <= selected < content,
        0 < visible,
    ensures
        ({
            let scroll = spec_keep_visible_scroll(selected, visible, content);
            &&& 0 <= scroll <= selected < scroll + visible
            &&& (visible <= content ==> scroll + visible <= content)
            &&& (content <= visible ==> scroll == 0)
        }),
{
}

/// True when a click at pane-local (column, row) lands on the `«` collapse
/// button: the 3-cell region at the right end of the bottom line, mirroring
/// herdr's own sidebar collapse control.
pub fn hits_collapse_button(column: u16, row: u16, pane_width: u16, pane_height: u16) -> (b: bool)
    ensures
        b == (row == sat_sub(pane_height as int, 1) && column >= sat_sub(pane_width as int, 3)),
{
    row == pane_height.saturating_sub(1) && column >= pane_width.saturating_sub(3)
}

/// `x` lies in the half-open column range `start..end`.
pub fn within(x: u16, range: (u16, u16)) -> (b: bool)
    ensures
        b == (range.0 <= x < range.1),
{
    let (start, end) = range;
    start <= x && x < end
}

/// A click hits an activity button on its middle row or either of the
/// cap rows around it.
pub open spec fn spec_hits_activity_button(range: (u16, u16), middle_row: u16, x: u16, y: u16) -> bool {
    &&& range.0 <= x < range.1
    &&& sat_sub(middle_row as int, 1) <= y <= spec_min(middle_row + 1, u16::MAX as int)
}

pub fn hits_activity_button(range: (u16, u16), middle_row: u16, x: u16, y: u16) -> (b: bool)
    ensures
        b == spec_hits_activity_button(range, middle_row, x, y),
{
    within(x, range) && middle_row.saturating_sub(1) <= y && y <= middle_row.saturating_add(1)
}

/// The rectangle's cells do not run past the last coordinate.
pub open spec fn rect_in_bounds(r: Rect) -> bool {
    r.x + r.width <= u16::MAX && r.y + r.height <= u16::MAX
}

pub open spec fn spec_hits(rect: Rect, x: u16, y: u16) -> bool {
    rect.x <= x < rect.x + rect.width && rect.y <= y < rect.y + rect.height
}

/// The cell (x, y) lies inside `rect`.
pub fn hits(rect: Rect, x: u16, y: u16) -> (b: bool)
    requires
        rect_in_bounds(rect),
    ensures
        b == spec_hits(rect, x, y),
{
    x >= rect.x && x < rect.x + rect.width && y >= rect.y && y < rect.y + rect.height
}

/// Theme-matched activity-bar icons: (explorer, search, source control).
pub fn activity_icons(theme: IconTheme) -> (icons: (&'static str, &'static str, &'static str))
    ensures
        theme == IconTheme::Material ==> icons.0@ == seq!['\u{f07b}'] && icons.1@ == seq!['\u{f002}']
            && icons.2@ == seq!['\u{f126}'],
        theme == IconTheme::Emoji ==> icons.0@ == seq!['📁'] && icons.1@ == seq!['🔍']
            && icons.2@ == seq!['🔀'],
{
    match theme {
        IconTheme::Material => {
            proof {
                reveal_strlit("\u{f07b}");
                reveal_strlit("\u{f002}");
                reveal_strlit("\u{f126}");
            }
            ("\u{f07b}", "\u{f002}", "\u{f126}")
        },
        IconTheme::Emoji => {
            proof {
                reveal_strlit("📁");
                reveal_strlit("🔍");
                reveal_strlit("🔀");
            }
            ("📁", "🔍", "🔀")
        },
    }
}

/// The Usage view's activity-bar icon (gauge / bar chart).
pub fn usage_icon(theme: IconTheme) -> (icon: &'static str)
    ensures
        icon@ == if theme == IconTheme::Material { seq!['\u{f0e4}'] } else { seq!['📊'] },
{
    match theme {
        IconTheme::Material => {
            proof { reveal_strlit("\u{f0e4}"); }
            "\u{f0e4}"
        },
        IconTheme::Emoji => {
            proof { reveal_strlit("📊"); }
            "📊"
        },
    }
}

/// The settings gear.
pub fn gear_icon(theme: IconTheme) -> (icon: &'static str)
    ensures
        icon@ == if theme == IconTheme::Material { seq!['\u{f013}'] } else { seq!['⚙'] },
{
    match theme {
        IconTheme::Material => {
            proof { reveal_strlit("\u{f013}"); }
            "\u{f013}"
        },
        IconTheme::Emoji => {
            proof { reveal_strlit("⚙"); }
            "⚙"
        },
    }
}

/// Outline sparkles for the suggest button.
pub fn sparkle_icon(theme: IconTheme) -> (icon: &'static str)
    ensures
        icon@ == if theme == IconTheme::Material { seq!['\u{f0674}'] } else { seq!['✧'] },
{
    match theme {
        IconTheme::Material => {
            proof { reveal_strlit("\u{f0674}"); }
            "\u{f0674}"
        },
        IconTheme::Emoji => {
            proof { reveal_strlit("✧"); }
            "✧"
        },
    }
}

/// The branch glyph for repository rows.
pub fn branch_icon(theme: IconTheme) -> (icon: &'static str)
    ensures
        icon@ == if theme == IconTheme::Material { seq!['\u{e725}'] } else { seq!['⎇'] },
{
    match theme {
        IconTheme::Material => {
            proof { reveal_strlit("\u{e725}"); }
            "\u{e725}"
        },
        IconTheme::Emoji => {
            proof { reveal_strlit("⎇"); }
            "⎇"
        },
    }
}


/// One title-bar action button (the hover row at the top right of a
/// panel's title bar).
#[derive(Clone, Copy, PartialEq, Eq, Debug, Structural)]
pub enum TitleAction {
    NewFile,
    NewFolder,
    Refresh,
    CollapseAll,
}

/// The glyph of a title-bar action: codicons in the material theme,
/// presentation-selector-free fallbacks otherwise.
pub open spec fn title_glyph(theme: IconTheme, action: TitleAction) -> char {
    match (theme, action) {
        (IconTheme::Material, TitleAction::NewFile) => '\u{ea7f}',
        (IconTheme::Material, TitleAction::NewFolder) => '\u{ea80}',
        (IconTheme::Material, TitleAction::Refresh) => '\u{eb37}',
        (IconTheme::Material, TitleAction::CollapseAll) => '\u{eac5}',
        (IconTheme::Emoji, TitleAction::NewFile) => '📄',
        (IconTheme::Emoji, TitleAction::NewFolder) => '📁',
        (IconTheme::Emoji, TitleAction::Refresh) => '⟳',
        (IconTheme::Emoji, TitleAction::CollapseAll) => '⊟',
    }
}

pub fn title_action_icon(theme: IconTheme, action: TitleAction) -> (icon: &'static str)
    ensures
        icon@ == seq![title_glyph(theme, action)],
{
    match (theme, action) {
        (IconTheme::Material, TitleAction::NewFile) => {
            proof { reveal_strlit("\u{ea7f}"); }
            "\u{ea7f}"
        },
        (IconTheme::Material, TitleAction::NewFolder) => {
            proof { reveal_strlit("\u{ea80}"); }
            "\u{ea80}"
        },
        (IconTheme::Material, TitleAction::Refresh) => {
            proof { reveal_strlit("\u{eb37}"); }
            "\u{eb37}"
        },
        (IconTheme::Material, TitleAction::CollapseAll) => {
            proof { reveal_strlit("\u{eac5}"); }
            "\u{eac5}"
        },
        (IconTheme::Emoji, TitleAction::NewFile) => {
            proof { reveal_strlit("📄"); }
            "📄"
        },
        (IconTheme::Emoji, TitleAction::NewFolder) => {
            proof { reveal_strlit("📁"); }
            "📁"
        },
        (IconTheme::Emoji, TitleAction::Refresh) => {
            proof { reveal_strlit("⟳"); }
            "⟳"
        },
        (IconTheme::Emoji, TitleAction::CollapseAll) => {
            proof { reveal_strlit("⊟"); }
            "⊟"
        },
    }
}

/// A button's chip: the glyph with one space each side.
pub open spec fn title_chip(theme: IconTheme, action: TitleAction) -> Seq<char> {
    seq![' ', title_glyph(theme, action), ' ']
}

pub fn title_action_chip(theme: IconTheme, action: TitleAction) -> (chip: String)
    ensures
        chip@ == title_chip(theme, action),
{
    let mut chip = String::new();
    push_char(&mut chip, ' ');
    chip.append(title_action_icon(theme, action));
    push_char(&mut chip, ' ');
    assert(Seq::<char>::empty().push(' ') + seq![title_glyph(theme, action)] == seq![' ', title_glyph(theme, action)]);
    chip
}

/// A chip's rendered width, as the column count it occupies.
pub open spec fn title_chip_width(theme: IconTheme, action: TitleAction) -> int {
    (display_width(title_chip(theme, action)) as u16) as int
}

/// The total width of a row of chips.
pub open spec fn title_chips_width(theme: IconTheme, actions: Seq<TitleAction>) -> int
    decreases actions.len(),
{
    if actions.len() == 0 {
        0
    } else {
        title_chips_width(theme, actions.drop_last()) + title_chip_width(theme, actions.last())
    }
}

proof fn lemma_title_chips_width_nonneg(theme: IconTheme, actions: Seq<TitleAction>)
    ensures
        title_chips_width(theme, actions) >= 0,
    decreases actions.len(),
{
    if actions.len() > 0 {
        lemma_title_chips_width_nonneg(theme, actions.drop_last());
    }
}

proof fn lemma_title_chips_width_prefix(theme: IconTheme, actions: Seq<TitleAction>, i: int)
    requires
        0 <= i <= actions.len(),
    ensures
        0 <= title_chips_width(theme, actions.take(i)) <= title_chips_width(theme, actions),
    decreases actions.len(),
{
    lemma_title_chips_width_nonneg(theme, actions.take(i));
    if i < actions.len() {
        assert(actions.drop_last().take(i) == actions.take(i));
        lemma_title_chips_width_prefix(theme, actions.drop_last(), i);
    } else {
        assert(actions.take(i) == actions);
    }
}

/// The width of one chip, measured.
fn title_chip_width_exec(theme: IconTheme, action: TitleAction) -> (w: u16)
    ensures
        w == title_chip_width(theme, action),
{
    let chip = title_action_chip(theme, action);
    span_width(chip.as_str()) as u16
}

/// Total rendered width of the button row, for right-aligning it.
pub fn title_actions_width(theme: IconTheme, actions: &[TitleAction]) -> (w: u16)
    requires
        title_chips_width(theme, actions@) <= u16::MAX,
    ensures
        w == title_chips_width(theme, actions@),
{
    let mut total: u16 = 0;
    for i in 0..actions.len()
        invariant
            total == title_chips_width(theme, actions@.take(i as int)),
            title_chips_width(theme, actions@) <= u16::MAX,
    {
        proof {
            lemma_title_chips_width_prefix(theme, actions@, i + 1);
            assert(actions@.take(i + 1).drop_last() == actions@.take(i as int));
        }
        total = total + title_chip_width_exec(theme, actions[i]);
    }
    assert(actions@.take(actions@.len() as int) == actions@);
    total
}

/// The row's width when it fits in a coordinate; `None` when it does not.
pub fn checked_title_actions_width(theme: IconTheme, actions: &[TitleAction]) -> (w: Option<u16>)
    ensures
        w == if title_chips_width(theme, actions@) <= u16::MAX {
            Some(title_chips_width(theme, actions@) as u16)
        } else {
            None::<u16>
        },
{
    let mut total: u64 = 0;
    for i in 0..actions.len()
        invariant
            total == title_chips_width(theme, actions@.take(i as int)),
            total <= u16::MAX,
    {
        proof {
            assert(actions@.take(i + 1).drop_last() == actions@.take(i as int));
        }
        total = total + title_chip_width_exec(theme, actions[i]) as u64;
        if total > u16::MAX as u64 {
            proof {
                lemma_title_chips_width_prefix_monotone(theme, actions@, i + 1);
            }
            return None;
        }
    }
    assert(actions@.take(actions@.len() as int) == actions@);
    Some(title_actions_width(theme, actions))
}

proof fn lemma_title_chips_width_prefix_monotone(theme: IconTheme, actions: Seq<TitleAction>, i: int)
    requires
        0 <= i <= actions.len(),
    ensures
        title_chips_width(theme, actions.take(i)) <= title_chips_width(theme, actions),
{
    lemma_title_chips_width_prefix(theme, actions, i);
}


/// The click zone of the `i`-th chip of a row whose left edge is `x`.
pub open spec fn title_zone(theme: IconTheme, actions: Seq<TitleAction>, x: u16, y: u16, i: int) -> Rect {
    spec_rect((x + title_chips_width(theme, actions.take(i))) as u16, y, title_chip_width(theme, actions[i]) as u16, 1)
}

pub open spec fn hovered_by(zone: Rect, hover: Option<(u16, u16)>) -> bool {
    match hover {
        Some(p) => spec_hits(zone, p.0, p.1),
        None => false,
    }
}

/// The row fits in the coordinate space: the chips end by the last column.
pub open spec fn title_row_fits(theme: IconTheme, actions: Seq<TitleAction>, x: u16) -> bool {
    x + title_chips_width(theme, actions) <= u16::MAX
}

/// The title-bar buttons as styled chips, left edge at `x` on row `y`,
/// plus their click zones; the chip under `hover` gets the keycap style.
pub fn title_action_spans(
    active: &ActivePalette,
    theme: IconTheme,
    actions: &[TitleAction],
    x: u16,
    y: u16,
    hover: Option<(u16, u16)>,
) -> (out: (Vec<StyledText>, Vec<(Rect, TitleAction)>))
    requires
        title_row_fits(theme, actions@, x),
    ensures
        out.0@.len() == actions@.len(),
        out.1@.len() == actions@.len(),
        forall|i: int|
            0 <= i < actions@.len() ==> #[trigger] out.1@[i] == (
                title_zone(theme, actions@, x, y, i),
                actions@[i],
            ),
        forall|i: int|
            0 <= i < actions@.len() ==> #[trigger] out.0@[i]@ == (
                title_chip(theme, actions@[i]),
                spec_chrome_button_style(
                    active@,
                    hovered_by(title_zone(theme, actions@, x, y, i), hover),
                ),
            ),
{
    let mut spans: Vec<StyledText> = Vec::new();
    let mut zones: Vec<(Rect, TitleAction)> = Vec::new();
    let mut cx: u16 = x;
    for i in 0..actions.len()
        invariant
            title_row_fits(theme, actions@, x),
            cx == x + title_chips_width(theme, actions@.take(i as int)),
            spans@.len() == i,
            zones@.len() == i,
            forall|j: int|
                0 <= j < i ==> #[trigger] zones@[j] == (
                    title_zone(theme, actions@, x, y, j),
                    actions@[j],
                ),
            forall|j: int|
                0 <= j < i ==> #[trigger] spans@[j]@ == (
                    title_chip(theme, actions@[j]),
                    spec_chrome_button_style(
                        active@,
                        hovered_by(title_zone(theme, actions@, x, y, j), hover),
                    ),
                ),
    {
        let action = actions[i];
        proof {
            lemma_title_chips_width_prefix(theme, actions@, i + 1);
            assert(actions@.take(i + 1).drop_last() == actions@.take(i as int));
            lemma_title_chips_width_nonneg(theme, actions@.take(i as int));
        }
        let chip = title_action_chip(theme, action);
        let w = span_width(chip.as_str()) as u16;
        let rect = Rect::new(cx, y, w, 1);
        assert(rect == title_zone(theme, actions@, x, y, i as int));
        let hovered = match hover {
            Some((hx, hy)) => hits(rect, hx, hy),
            None => false,
        };
        let style = chrome_button_style(active, hovered);
        spans.push(StyledText { content: chip, style });
        zones.push((rect, action));
        cx = cx + w;
    }
    (spans, zones)
}

/// The chips tile the row left to right with no gaps, each zone one row
/// high on row `y` and as wide as its chip renders, and together they are
/// exactly as wide as `title_actions_width` says.
pub proof fn lemma_title_zones_tile(theme: IconTheme, actions: Seq<TitleAction>, x: u16, y: u16)
    requires
        x + title_chips_width(theme, actions) <= u16::MAX,
    ensures
        forall|i: int|
            0 <= i < actions.len() ==> {
                &&& #[trigger] title_zone(theme, actions, x, y, i).y == y
                &&& title_zone(theme, actions, x, y, i).height == if y < u16::MAX { 1u16 } else { 0u16 }
                &&& title_zone(theme, actions, x, y, i).width == title_chip_width(theme, actions[i])
            },
        actions.len() > 0 ==> title_zone(theme, actions, x, y, 0).x == x,
        forall|i: int|
            0 <= i < actions.len() - 1 ==> #[trigger] title_zone(theme, actions, x, y, i + 1).x == title_zone(
                theme,
                actions,
                x,
                y,
                i,
            ).x + title_zone(theme, actions, x, y, i).width,
        actions.len() > 0 ==> title_zone(theme, actions, x, y, actions.len() - 1).x + title_zone(
            theme,
            actions,
            x,
            y,
            actions.len() - 1,
        ).width == x + title_chips_width(theme, actions),
{
    if actions.len() > 0 {
        assert(actions.take(0) == Seq::<TitleAction>::empty());
    }
    assert forall|i: int| 0 <= i < actions.len() implies {
        &&& #[trigger] title_zone(theme, actions, x, y, i).y == y
        &&& title_zone(theme, actions, x, y, i).height == if y < u16::MAX { 1u16 } else { 0u16 }
        &&& title_zone(theme, actions, x, y, i).width == title_chip_width(theme, actions[i])
    } by {
        lemma_title_chips_width_prefix(theme, actions, i + 1);
        lemma_title_chips_width_prefix(theme, actions, i);
        assert(actions.take(i + 1).drop_last() == actions.take(i));
        assert(actions.take(i + 1).last() == actions[i]);
    }
    assert forall|i: int| 0 <= i < actions.len() - 1 implies #[trigger] title_zone(theme, actions, x, y, i + 1).x
        == title_zone(theme, actions, x, y, i).x + title_zone(theme, actions, x, y, i).width by {
        lemma_title_chips_width_prefix(theme, actions, i + 1);
        lemma_title_chips_width_prefix(theme, actions, i);
        assert(actions.take(i + 1).drop_last() == actions.take(i));
        assert(actions.take(i + 1).last() == actions[i]);
    }
    if actions.len() > 0 {
        let n = actions.len() - 1;
        lemma_title_chips_width_prefix(theme, actions, n);
        assert(actions.drop_last() == actions.take(n));
    }
}

/// The chips and click zones when the row fits in the coordinate space;
/// `None` when it does not.
pub fn checked_title_action_spans(
    active: &ActivePalette,
    theme: IconTheme,
    actions: &[TitleAction],
    x: u16,
    y: u16,
    hover: Option<(u16, u16)>,
) -> (out: Option<(Vec<StyledText>, Vec<(Rect, TitleAction)>)>)
    ensures
        out is Some <==> title_row_fits(theme, actions@, x),
        out matches Some(o) ==> {
            &&& o.0@.len() == actions@.len()
            &&& o.1@.len() == actions@.len()
            &&& forall|i: int|
                0 <= i < actions@.len() ==> #[trigger] o.1@[i] == (
                    title_zone(theme, actions@, x, y, i),
                    actions@[i],
                )
            &&& forall|i: int|
                0 <= i < actions@.len() ==> #[trigger] o.0@[i]@ == (
                    title_chip(theme, actions@[i]),
                    spec_chrome_button_style(
                        active@,
                        hovered_by(title_zone(theme, actions@, x, y, i), hover),
                    ),
                )
        },
{
    proof {
        lemma_title_chips_width_nonneg(theme, actions@);
    }
    match checked_title_actions_width(theme, actions) {
        Some(w) => {
            if (x as u32) + (w as u32) <= u16::MAX as u32 {
                Some(title_action_spans(active, theme, actions, x, y, hover))
            } else {
                None
            }
        },
        None => {
            None
        },
    }
}


/// The rendered width of one `key label` hint: keycap padding, a gap, and
/// the label.
pub open spec fn spec_hint_width(key: Seq<char>, label: Seq<char>) -> int {
    display_width(key) + 2 + 1 + display_width(label)
}

fn hint_width(key: &str, label: &str) -> (w: u128)
    ensures
        w == spec_hint_width(key@, label@),
{
    span_width(key) as u128 + 2 + 1 + span_width(label) as u128
}

pub open spec fn keycap_style(theme: ColorTheme) -> Style {
    let p = spec_palette_for(theme);
    Style { bg: Some(p.keycap_bg), fg: Some(p.keycap_fg), ..plain_style() }
}

/// One hint's three runs: the gap before it (one space at the start of a
/// line, two after another hint), the key as a keycap chip, the dim label.
pub open spec fn hint_runs(theme: ColorTheme, key: Seq<char>, label: Seq<char>, first: bool) -> Seq<
    (Seq<char>, Style),
> {
    seq![
        (if first { seq![' '] } else { seq![' ', ' '] }, plain_style()),
        (seq![' '] + key + seq![' '], keycap_style(theme)),
        (seq![' '] + label, Style { dim: true, ..plain_style() }),
    ]
}

/// Closed lines, the line being filled, and the columns it uses.
pub type HintState = (Seq<Seq<(Seq<char>, Style)>>, Seq<(Seq<char>, Style)>, int);

/// Place one hint: a non-empty line that cannot take it (with its two-space
/// gap) inside `limit` columns is closed first.
pub open spec fn place_hint(theme: ColorTheme, st: HintState, key: Seq<char>, label: Seq<char>, limit: int) -> HintState {
    let w = spec_hint_width(key, label);
    let (done, cur, used) = if st.1.len() != 0 && st.2 + 2 + w > limit {
        (st.0.push(st.1), Seq::empty(), 1)
    } else {
        st
    };
    let first = cur.len() == 0;
    (done, cur + hint_runs(theme, key, label, first), used + if first { w } else { 2 + w })
}

pub open spec fn place_hints(theme: ColorTheme, hints: Seq<(Seq<char>, Seq<char>)>, limit: int) -> HintState
    decreases hints.len(),
{
    if hints.len() == 0 {
        (Seq::empty(), Seq::empty(), 1)
    } else {
        let h = hints.last();
        place_hint(theme, place_hints(theme, hints.drop_last(), limit), h.0, h.1, limit)
    }
}

/// The columns a hint line may use: the pane width (at least 8) less the
/// reserved corner.
pub open spec fn hint_limit(width: u16, reserve: u16) -> int {
    sat_sub(if width < 8 { 8 } else { width as int }, reserve as int)
}

/// Hotkey hints packed into as many footer lines as they need.
pub open spec fn spec_wrap_hints(theme: ColorTheme, hints: Seq<(Seq<char>, Seq<char>)>, width: u16, reserve: u16) -> Seq<
    Seq<(Seq<char>, Style)>,
> {
    let st = place_hints(theme, hints, hint_limit(width, reserve));
    st.0.push(st.1)
}

pub open spec fn hint_views(hints: Seq<(&str, &str)>) -> Seq<(Seq<char>, Seq<char>)> {
    hints.map_values(|h: (&str, &str)| (h.0@, h.1@))
}

pub open spec fn runs_view(line: Seq<StyledText>) -> Seq<(Seq<char>, Style)> {
    line.map_values(|t: StyledText| t@)
}

fn styled(content: String, style: Style) -> (t: StyledText)
    ensures
        t@ == (content@, style),
{
    StyledText { content, style }
}

/// Pack hotkey hints into footer lines at `width` columns instead of
/// clipping: each hint a keycap chip plus a dim label; `reserve` columns
/// stay free at the right end of each line.
pub fn wrap_hints(active: &ActivePalette, hints: &[(&str, &str)], width: u16, reserve: u16) -> (lines: Vec<Vec<StyledText>>)
    ensures
        lines@.map_values(|l: Vec<StyledText>| runs_view(l@)) == spec_wrap_hints(
            active@,
            hint_views(hints@),
            width,
            reserve,
        ),
{
    let colors = palette(active);
    let w8: usize = if width < 8 { 8 } else { width as usize };
    let limit: u128 = w8.saturating_sub(reserve as usize) as u128;
    let ghost hv = hint_views(hints@);
    let mut done: Vec<Vec<StyledText>> = Vec::new();
    let mut cur: Vec<StyledText> = Vec::new();
    let mut used: u128 = 1;
    for i in 0..hints.len()
        invariant
            hv == hint_views(hints@),
            limit == hint_limit(width, reserve),
            colors == spec_palette_for(active@),
            (done@.map_values(|l: Vec<StyledText>| runs_view(l@)), runs_view(cur@), used as int)
                == place_hints(active@, hv.take(i as int), limit as int),
            used <= limit + 0x3_0000_0000_0000_0000,
            cur@.len() == 0 ==> used == 1,
    {
        let (key, label) = hints[i];
        proof {
            assert(hv.take(i + 1).drop_last() == hv.take(i as int));
            assert(hv.take(i + 1).last() == (key@, label@));
        }
        let w = hint_width(key, label);
        if cur.len() != 0 && used + 2 + w > limit {
            let ghost before = done@;
            let mut fresh: Vec<StyledText> = Vec::new();
            std::mem::swap(&mut cur, &mut fresh);
            done.push(fresh);
            used = 1;
            assert(done@.map_values(|l: Vec<StyledText>| runs_view(l@)) == before.map_values(
                |l: Vec<StyledText>| runs_view(l@),
            ).push(runs_view(fresh@)));
        }
        let first = cur.len() == 0;
        let mut gap = String::new();
        push_char(&mut gap, ' ');
        if !first {
            push_char(&mut gap, ' ');
        }
        let mut chip = String::new();
        push_char(&mut chip, ' ');
        chip.append(key);
        push_char(&mut chip, ' ');
        let mut tag = String::new();
        push_char(&mut tag, ' ');
        tag.append(label);
        let ghost before = cur@;
        cur.push(styled(gap, Style::plain()));
        cur.push(styled(chip, Style::plain().bg(colors.keycap_bg).fg(colors.keycap_fg)));
        cur.push(styled(tag, Style::plain().dim()));
        proof {
            assert(Seq::<char>::empty().push(' ') == seq![' ']);
            assert(seq![' '].push(' ') == seq![' ', ' ']);
            assert(gap@ == if first { seq![' '] } else { seq![' ', ' '] });
            assert(chip@ =~= seq![' '] + key@ + seq![' ']);
            assert(tag@ =~= seq![' '] + label@);
            assert(runs_view(cur@) =~= runs_view(before) + hint_runs(active@, key@, label@, first));
        }
        used = if first { used + w } else { used + 2 + w };
    }
    assert(hv.take(hv.len() as int) == hv);
    let ghost before = done@;
    done.push(cur);
    assert(done@.map_values(|l: Vec<StyledText>| runs_view(l@)) == before.map_values(
        |l: Vec<StyledText>| runs_view(l@),
    ).push(runs_view(cur@)));
    done
}


pub open spec fn hint_runs_ok(theme: ColorTheme, flat: Seq<(Seq<char>, Style)>, hints: Seq<(Seq<char>, Seq<char>)>) -> bool {
    &&& flat.len() == 3 * hints.len()
    &&& forall|k: int|
        0 <= k < hints.len() ==> {
            &&& #[trigger] flat[3 * k + 1] == (seq![' '] + hints[k].0 + seq![' '], keycap_style(theme))
            &&& flat[3 * k + 2] == (seq![' '] + hints[k].1, Style { dim: true, ..plain_style() })
        }
}

proof fn lemma_place_hints(theme: ColorTheme, hints: Seq<(Seq<char>, Seq<char>)>, limit: int)
    ensures
        ({
            let (done, cur, used) = place_hints(theme, hints, limit);
            &&& hint_runs_ok(theme, done.push(cur).flatten(), hints)
            &&& forall|i: int| 0 <= i < done.len() ==> (#[trigger] done[i]).len() > 0 && done[i].len() % 3 == 0
            &&& cur.len() % 3 == 0
            &&& (hints.len() > 0 ==> cur.len() > 0)
        }),
    decreases hints.len(),
{
    if hints.len() == 0 {
        let st = place_hints(theme, hints, limit);
        assert(st.0.push(st.1).flatten() =~= Seq::<(Seq<char>, Style)>::empty()) by {
            reveal_with_fuel(Seq::flatten, 2);
        }
    } else {
        let p = hints.drop_last();
        lemma_place_hints(theme, p, limit);
        let st = place_hints(theme, p, limit);
        let (done, cur, used) = st;
        let h = hints.last();
        let w = spec_hint_width(h.0, h.1);
        let old_flat = done.push(cur).flatten();
        done.lemma_flatten_push(cur);
        let (d1, c1, u1) = if cur.len() != 0 && used + 2 + w > limit {
            (done.push(cur), Seq::<(Seq<char>, Style)>::empty(), 1)
        } else {
            st
        };
        let first = c1.len() == 0;
        let r = hint_runs(theme, h.0, h.1, first);
        if cur.len() != 0 && used + 2 + w > limit {
            done.push(cur).lemma_flatten_push(c1 + r);
            assert(c1 + r == r);
        } else {
            done.lemma_flatten_push(cur + r);
        }
        let new_flat = d1.push(c1 + r).flatten();
        assert(new_flat =~= old_flat + r);
        assert(p.push(h) == hints);
        assert forall|k: int| 0 <= k < hints.len() implies {
            &&& #[trigger] new_flat[3 * k + 1] == (seq![' '] + hints[k].0 + seq![' '], keycap_style(theme))
            &&& new_flat[3 * k + 2] == (seq![' '] + hints[k].1, Style { dim: true, ..plain_style() })
        } by {
            if k < p.len() {
                assert(hints[k] == p[k]);
                assert(new_flat[3 * k + 1] == old_flat[3 * k + 1]);
                assert(new_flat[3 * k + 2] == old_flat[3 * k + 2]);
            } else {
                assert(new_flat[3 * k + 1] == r[1]);
                assert(new_flat[3 * k + 2] == r[2]);
            }
        }
    }
}

/// Hints are never clipped: every hint appears, in order, as its keycap
/// chip and label; every line holds whole hints (three runs each), none is
/// empty unless there are no hints at all, and there is always a line.
pub proof fn lemma_wrap_hints_keeps_every_hint(
    theme: ColorTheme,
    hints: Seq<(Seq<char>, Seq<char>)>,
    width: u16,
    reserve: u16,
)
    ensures
        spec_wrap_hints(theme, hints, width, reserve).len() >= 1,
        hint_runs_ok(theme, spec_wrap_hints(theme, hints, width, reserve).flatten(), hints),
        forall|i: int|
            0 <= i < spec_wrap_hints(theme, hints, width, reserve).len() ==> (#[trigger] spec_wrap_hints(
                theme,
                hints,
                width,
                reserve,
            )[i]).len() % 3 == 0 && (hints.len() > 0 ==> spec_wrap_hints(theme, hints, width, reserve)[i].len() > 0),
{
    let limit = hint_limit(width, reserve);
    lemma_place_hints(theme, hints, limit);
    let (done, cur, used) = place_hints(theme, hints, limit);
    let lines = done.push(cur);
    assert forall|i: int| 0 <= i < lines.len() implies (#[trigger] lines[i]).len() % 3 == 0 && (hints.len() > 0 ==> lines[i].len() > 0) by {
        if i < done.len() {
            assert(lines[i] == done[i]);
        }
    }
}


/// The key a keycap chip ` key ` shows.
pub open spec fn chip_key(chip: Seq<char>) -> Seq<char> {
    chip.subrange(1, chip.len() - 1)
}

/// The label a ` label` run shows.
pub open spec fn tag_label(tag: Seq<char>) -> Seq<char> {
    tag.drop_first()
}

/// The columns a hint line takes, counted from the hints it shows: one
/// leading column, each hint's rendered width, two columns between hints.
pub open spec fn line_cols(line: Seq<(Seq<char>, Style)>) -> int
    decreases line.len(),
{
    if line.len() < 3 {
        1
    } else {
        let n = line.len() as int;
        line_cols(line.take(n - 3)) + (if n == 3 { 0int } else { 2int }) + spec_hint_width(
            chip_key(line[n - 2].0),
            tag_label(line[n - 1].0),
        )
    }
}

/// The rendered width of the first hint a line shows.
pub open spec fn first_hint_cols(line: Seq<(Seq<char>, Style)>) -> int {
    spec_hint_width(chip_key(line[1].0), tag_label(line[2].0))
}

proof fn lemma_line_cols_push(theme: ColorTheme, cur: Seq<(Seq<char>, Style)>, key: Seq<char>, label: Seq<char>, first: bool)
    requires
        cur.len() % 3 == 0,
        first == (cur.len() == 0),
    ensures
        line_cols(cur + hint_runs(theme, key, label, first)) == line_cols(cur) + (if first { 0int } else { 2int })
            + spec_hint_width(key, label),
        (cur + hint_runs(theme, key, label, first)).len() == cur.len() + 3,
        cur.len() > 0 ==> (cur + hint_runs(theme, key, label, first))[1] == cur[1] && (cur + hint_runs(theme, key, label, first))[2] == cur[2],
        first_hint_cols(hint_runs(theme, key, label, true)) == spec_hint_width(key, label),
{
    let l = cur + hint_runs(theme, key, label, first);
    let n = l.len() as int;
    assert(l.take(n - 3) =~= cur);
    assert(chip_key(l[n - 2].0) =~= key);
    assert(tag_label(l[n - 1].0) =~= label);
    let r = hint_runs(theme, key, label, true);
    assert(chip_key(r[1].0) =~= key);
    assert(tag_label(r[2].0) =~= label);
}

proof fn lemma_place_hints_fit(theme: ColorTheme, hints: Seq<(Seq<char>, Seq<char>)>, limit: int)
    ensures
        ({
            let (done, cur, used) = place_hints(theme, hints, limit);
            &&& used == line_cols(cur)
            &&& cur.len() % 3 == 0
            &&& (hints.len() > 0 ==> cur.len() > 0)
            &&& (cur.len() > 3 ==> line_cols(cur) <= limit)
            &&& forall|i: int| 0 <= i < done.len() ==> (#[trigger] done[i]).len() % 3 == 0 && done[i].len() >= 3
            &&& forall|i: int| 0 <= i < done.len() ==> line_cols(#[trigger] done[i]) <= limit || done[i].len() == 3
            &&& forall|i: int| 0 <= i < done.len() ==> line_cols(#[trigger] done[i]) + 2 + first_hint_cols(
                done.push(cur)[i + 1],
            ) > limit
        }),
    decreases hints.len(),
{
    if hints.len() > 0 {
        let p = hints.drop_last();
        lemma_place_hints_fit(theme, p, limit);
        let (done, cur, used) = place_hints(theme, p, limit);
        let h = hints.last();
        let w = spec_hint_width(h.0, h.1);
        let wrap = cur.len() != 0 && used + 2 + w > limit;
        let (d1, c1, u1) = if wrap { (done.push(cur), Seq::<(Seq<char>, Style)>::empty(), 1int) } else { (done, cur, used) };
        let first = c1.len() == 0;
        lemma_line_cols_push(theme, c1, h.0, h.1, first);
        let c2 = c1 + hint_runs(theme, h.0, h.1, first);
        assert(place_hints(theme, hints, limit) == (d1, c2, u1 + if first { w } else { 2 + w }));
        assert forall|i: int| 0 <= i < d1.len() implies line_cols(#[trigger] d1[i]) + 2 + first_hint_cols(d1.push(c2)[i + 1]) > limit by {
            if wrap {
                if i < done.len() {
                    assert(d1[i] == done[i]);
                    if i + 1 < done.len() {
                        assert(d1.push(c2)[i + 1] == done.push(cur)[i + 1]);
                    } else {
                        assert(d1.push(c2)[i + 1] == cur);
                        assert(done.push(cur)[i + 1] == cur);
                    }
                } else {
                    assert(d1[i] == cur);
                    assert(d1.push(c2)[i + 1] == c2);
                }
            } else {
                assert(d1[i] == done[i]);
                if i + 1 < done.len() {
                    assert(d1.push(c2)[i + 1] == done.push(cur)[i + 1]);
                } else {
                    assert(d1.push(c2)[i + 1] == c2);
                    assert(done.push(cur)[i + 1] == cur);
                    assert(c2[1] == cur[1] && c2[2] == cur[2]);
                }
            }
        }
        assert forall|i: int| 0 <= i < d1.len() implies (#[trigger] d1[i]).len() % 3 == 0 && d1[i].len() >= 3 && (line_cols(d1[i]) <= limit || d1[i].len() == 3) by {
            if wrap && i == done.len() {
                assert(d1[i] == cur);
            } else {
                assert(d1[i] == done[i]);
            }
        }
    }
}

/// Hints wrap instead of overrunning the pane: counting each line's
/// columns from the hints it shows (one leading column, each hint's
/// rendered width, two columns between hints), every line that holds more
/// than one hint fits in `max(width, 8) - reserve` columns; and no line is
/// closed early: the first hint of each following line would not have
/// fitted after it.
pub proof fn lemma_wrap_hints_fit_the_pane(theme: ColorTheme, hints: Seq<(Seq<char>, Seq<char>)>, width: u16, reserve: u16)
    ensures
        forall|i: int|
            0 <= i < spec_wrap_hints(theme, hints, width, reserve).len() ==> line_cols(
                #[trigger] spec_wrap_hints(theme, hints, width, reserve)[i],
            ) <= hint_limit(width, reserve) || spec_wrap_hints(theme, hints, width, reserve)[i].len() <= 3,
        forall|i: int|
            0 <= i < spec_wrap_hints(theme, hints, width, reserve).len() - 1 ==> line_cols(
                #[trigger] spec_wrap_hints(theme, hints, width, reserve)[i],
            ) + 2 + first_hint_cols(spec_wrap_hints(theme, hints, width, reserve)[i + 1]) > hint_limit(width, reserve),
{
    let limit = hint_limit(width, reserve);
    lemma_place_hints_fit(theme, hints, limit);
    let (done, cur, used) = place_hints(theme, hints, limit);
    let lines = done.push(cur);
    assert forall|i: int| 0 <= i < lines.len() implies line_cols(#[trigger] lines[i]) <= limit || lines[i].len() <= 3 by {
        if i < done.len() {
            assert(lines[i] == done[i]);
        }
    }
    assert forall|i: int| 0 <= i < lines.len() - 1 implies line_cols(#[trigger] lines[i]) + 2 + first_hint_cols(lines[i + 1]) > limit by {
        assert(lines[i] == done[i]);
    }
}


#[verifier::external_type_specification]
#[verifier::external_body]
pub struct ExInstant(std::time::Instant);

/// How long the title-bar actions stay visible after the last mouse event.
/// Terminals report no "mouse left the pane", so hover is approximated:
/// any mouse activity shows the buttons and they fade after this linger.
pub const TITLE_ACTIONS_LINGER_SECS: u64 = 3;

/// The time since `at`: std's `Instant::elapsed`. It depends on the
/// clock, so nothing is claimed of it.
#[verifier::external_body]
fn elapsed_since(at: &std::time::Instant) -> (d: std::time::Duration) {
    at.elapsed()
}

/// A duration in whole nanoseconds: std's `Duration::as_nanos`. The
/// duration is opaque here, so nothing is claimed of the number.
#[verifier::external_body]
fn whole_nanos(d: &std::time::Duration) -> (ns: u128) {
    d.as_nanos()
}

/// A mouse event `elapsed_ns` ago still keeps the actions showing.
pub open spec fn lingers(elapsed_ns: int) -> bool {
    elapsed_ns < TITLE_ACTIONS_LINGER_SECS * 1_000_000_000
}

pub fn still_lingering(elapsed_ns: u128) -> (b: bool)
    ensures
        b == lingers(elapsed_ns as int),
{
    elapsed_ns < (TITLE_ACTIONS_LINGER_SECS as u128) * 1_000_000_000
}

/// The hover approximation: the actions show while the last mouse event
/// is younger than the linger; never without a mouse event.
pub fn title_actions_visible(last_mouse: Option<std::time::Instant>) -> (b: bool)
    ensures
        b ==> last_mouse is Some,
{
    match last_mouse {
        None => false,
        Some(at) => still_lingering(whole_nanos(&elapsed_since(&at))),
    }
}

} // verus!
