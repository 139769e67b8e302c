//! The Usage view's logic: load state, scrolling, and the rows drawn for
//! each account (header, window label with countdown, usage bar).
use vstd::prelude::*;

use vstd::string::{StrSliceExecFns, StringExecFns};

use crate::activity::{repeat_char, repeated};
use crate::style::{plain_style, spec_rect, Color, Rect, Style, StyledText};
use crate::text::push_char;
use crate::activity::ActivityBar;
use crate::layout::{hits, hits_activity_button, rect_in_bounds, sat_sub, spec_hits, spec_hits_activity_button};
use crate::panes::SidebarView;
use crate::usage::{Account, Horizon, Snapshot, Window};

verus! {

pub open spec fn digit_char(d: int) -> char {
    if d == 0 { '0' } else if d == 1 { '1' } else if d == 2 { '2' } else if d == 3 { '3' } else if d == 4 { '4' }
    else if d == 5 { '5' } else if d == 6 { '6' } else if d == 7 { '7' } else if d == 8 { '8' } else { '9' }
}

/// The decimal digits of `n`, most significant first, no leading zeros.
pub open spec fn spec_decimal(n: nat) -> Seq<char>
    decreases n,
{
    if n < 10 {
        seq![digit_char(n as int)]
    } else {
        spec_decimal(n / 10).push(digit_char((n % 10) as int))
    }
}

fn digit(d: u64) -> (c: char)
    requires
        d < 10,
    ensures
        c == digit_char(d as int),
{
    match d {
        0 => '0',
        1 => '1',
        2 => '2',
        3 => '3',
        4 => '4',
        5 => '5',
        6 => '6',
        7 => '7',
        8 => '8',
        _ => '9',
    }
}

/// Append the decimal digits of `n` to `s`.
pub fn push_decimal(s: &mut String, n: u64)
    ensures
        final(s)@ == old(s)@ + spec_decimal(n as nat),
    decreases n,
{
    if n >= 10 {
        push_decimal(s, n / 10);
    }
    push_char(s, digit(n % 10));
    proof {
        if n >= 10 {
            assert(spec_decimal(n as nat) == spec_decimal((n / 10) as nat).push(digit_char((n % 10) as int)));
        }
    }
}

/// Minutes left until a reset, rendered "43m" / "2h 53m" / "4d 9h"; a
/// reset in the past counts as zero minutes.
pub open spec fn spec_countdown_minutes(mins: nat) -> Seq<char> {
    let days = mins / (60 * 24);
    let hours = (mins / 60) % 24;
    let rem = mins % 60;
    if days > 0 {
        spec_decimal(days) + seq!['d', ' '] + spec_decimal(hours) + seq!['h']
    } else if hours > 0 {
        spec_decimal(hours) + seq!['h', ' '] + spec_decimal(rem) + seq!['m']
    } else {
        spec_decimal(rem) + seq!['m']
    }
}

/// The number a string of decimal digits spells.
pub open spec fn digits_value(s: Seq<char>) -> int
    decreases s.len(),
{
    if s.len() == 0 {
        0
    } else {
        digits_value(s.drop_last()) * 10 + (s.last() as int - '0' as int)
    }
}

pub open spec fn is_digit(c: char) -> bool {
    '0' <= c <= '9'
}

proof fn lemma_digit_char(d: int)
    requires
        0 <= d < 10,
    ensures
        digit_char(d) as int - '0' as int == d,
        is_digit(digit_char(d)),
{
}

/// `spec_decimal(n)` is the decimal numeral of `n`: only digits, no
/// leading zero, and it reads back as `n`.
pub proof fn lemma_decimal_reads_back(n: nat)
    ensures
        spec_decimal(n).len() >= 1,
        forall|i: int| 0 <= i < spec_decimal(n).len() ==> is_digit(#[trigger] spec_decimal(n)[i]),
        spec_decimal(n)[0] == '0' ==> n == 0,
        digits_value(spec_decimal(n)) == n,
    decreases n,
{
    lemma_digit_char((n % 10) as int);
    if n >= 10 {
        lemma_decimal_reads_back(n / 10);
        assert(n == (n / 10) * 10 + n % 10);
        let p = spec_decimal(n / 10);
        let s = spec_decimal(n);
        assert(s.drop_last() == p);
        assert forall|i: int| 0 <= i < s.len() implies is_digit(#[trigger] s[i]) by {
            if i < p.len() {
                assert(s[i] == p[i]);
            }
        }
        assert(s[0] == p[0]);
        assert(s.last() == digit_char((n % 10) as int));
        assert(digits_value(s) == digits_value(p) * 10 + (s.last() as int - '0' as int));
    } else {
        let s = spec_decimal(n);
        assert(s.drop_last() =~= Seq::<char>::empty());
        assert(n % 10 == n);
        assert(s.last() == digit_char(n as int));
        assert(digits_value(s) == digits_value(s.drop_last()) * 10 + (s.last() as int - '0' as int));
    }
}

/// A countdown reads back as the time left, to the precision it shows:
/// at a day or more, "{d}d {h}h" with whole days and hours (under 24)
/// that cover the minutes left to the hour; under a day but at least an
/// hour, "{h}h {m}m" with hours and minutes (under 60) that add up to the
/// minutes left exactly; under an hour, "{m}m" with the minutes left.
pub proof fn lemma_countdown_reads_back(mins: nat)
    ensures
        mins >= 1440 ==> exists|d: nat, h: nat|
            #![trigger spec_decimal(d), spec_decimal(h)]
            spec_countdown_minutes(mins) == spec_decimal(d) + seq!['d', ' '] + spec_decimal(h) + seq!['h'] && d >= 1 && h < 24
                && d * 1440 + h * 60 <= mins < d * 1440 + h * 60 + 60,
        60 <= mins < 1440 ==> exists|h: nat, m: nat|
            #![trigger spec_decimal(h), spec_decimal(m)]
            spec_countdown_minutes(mins) == spec_decimal(h) + seq!['h', ' '] + spec_decimal(m) + seq!['m'] && 1 <= h < 24 && m < 60
                && h * 60 + m == mins,
        mins < 60 ==> spec_countdown_minutes(mins) == spec_decimal(mins) + seq!['m'],
{
    let days = mins / 1440;
    let hours = (mins / 60) % 24;
    let rem = mins % 60;
    assert(mins / 1440 == (mins / 60) / 24) by {
        vstd::arithmetic::div_mod::lemma_div_denominator(mins as int, 60, 24);
    }
    assert(mins == (mins / 60) * 60 + rem) by {
        vstd::arithmetic::div_mod::lemma_fundamental_div_mod(mins as int, 60);
    }
    assert(mins / 60 == ((mins / 60) / 24) * 24 + hours) by {
        vstd::arithmetic::div_mod::lemma_fundamental_div_mod((mins / 60) as int, 24);
    }
    if mins >= 1440 {
        assert(days >= 1);
        assert(spec_countdown_minutes(mins) == spec_decimal(days) + seq!['d', ' '] + spec_decimal(hours) + seq!['h']);
    } else if mins >= 60 {
        assert(days == 0);
        assert(hours == mins / 60);
        assert(spec_countdown_minutes(mins) == spec_decimal(hours) + seq!['h', ' '] + spec_decimal(rem) + seq!['m']);
    } else {
        assert(days == 0 && hours == 0 && rem == mins);
    }
}

/// The countdown to `resets_at_ms` from `now_ms`; `—` when the reset time
/// is unknown.
pub open spec fn spec_countdown_to(resets_at_ms: Option<i64>, now_ms: i64) -> Seq<char> {
    match resets_at_ms {
        None => seq!['—'],
        Some(r) => {
            let left: int = if r - now_ms > 0 { r - now_ms } else { 0 };
            spec_countdown_minutes((left / 60_000) as nat)
        },
    }
}

/// The reset lies within an `i64` millisecond distance of now.
pub open spec fn countdown_in_range(resets_at_ms: Option<i64>, now_ms: i64) -> bool {
    match resets_at_ms {
        Some(r) => i64::MIN <= r - now_ms <= i64::MAX,
        None => true,
    }
}

pub fn countdown_to(resets_at_ms: Option<i64>, now_ms: i64) -> (s: String)
    requires
        countdown_in_range(resets_at_ms, now_ms),
    ensures
        s@ == spec_countdown_to(resets_at_ms, now_ms),
{
    let resets_at = match resets_at_ms {
        None => {
            let mut s = String::new();
            push_char(&mut s, '—');
            assert(s@ =~= seq!['—']);
            return s;
        },
        Some(r) => r,
    };
    let diff = resets_at - now_ms;
    let left: u64 = if diff > 0 { diff as u64 } else { 0 };
    let mins = left / 60_000;
    let days = mins / (60 * 24);
    let hours = (mins / 60) % 24;
    let rem = mins % 60;
    let mut s = String::new();
    if days > 0 {
        push_decimal(&mut s, days);
        push_char(&mut s, 'd');
        push_char(&mut s, ' ');
        push_decimal(&mut s, hours);
        push_char(&mut s, 'h');
    } else if hours > 0 {
        push_decimal(&mut s, hours);
        push_char(&mut s, 'h');
        push_char(&mut s, ' ');
        push_decimal(&mut s, rem);
        push_char(&mut s, 'm');
    } else {
        push_decimal(&mut s, rem);
        push_char(&mut s, 'm');
    }
    assert(s@ =~= spec_countdown_to(resets_at_ms, now_ms));
    s
}


/// The short name of a window: its horizon, or its own label when the
/// horizon is not one of the named three.
pub open spec fn spec_short_label(horizon: Horizon, label: Seq<char>) -> Seq<char> {
    match horizon {
        Horizon::Session => "Session"@,
        Horizon::Weekly => "Weekly"@,
        Horizon::Monthly => "Monthly"@,
        Horizon::Other => label,
    }
}

pub fn short_label(win: &Window) -> (s: String)
    ensures
        s@ == spec_short_label(win.horizon, win.label@),
{
    match win.horizon {
        Horizon::Session => String::from_str("Session"),
        Horizon::Weekly => String::from_str("Weekly"),
        Horizon::Monthly => String::from_str("Monthly"),
        Horizon::Other => win.label.clone(),
    }
}

/// "Session 74%" on the left, the countdown on the right, at least one
/// space between, padded so the whole row is `width` characters when it
/// fits.
pub open spec fn spec_window_label(win_left: Seq<char>, right: Seq<char>, width: int) -> Seq<(Seq<char>, Style)> {
    let gap = {
        let g = width - (win_left.len() + right.len());
        if g < 1 { 1 } else { g }
    };
    seq![(win_left, plain_style()), (repeated(' ', gap as nat), plain_style()), (right, plain_style())]
}

/// The left part of a window's label: short name, then the used share as
/// a whole percentage (`percent`, already rendered).
pub open spec fn label_left(horizon: Horizon, label: Seq<char>, percent: Seq<char>) -> Seq<char> {
    spec_short_label(horizon, label) + seq![' '] + percent + seq!['%']
}

pub open spec fn runs_of(v: Seq<StyledText>) -> Seq<(Seq<char>, Style)> {
    v.map_values(|t: StyledText| t@)
}

pub fn window_label(win: &Window, percent: &str, server_now_ms: i64, width: usize) -> (runs: Vec<StyledText>)
    requires
        countdown_in_range(win.resets_at_ms, server_now_ms),
    ensures
        runs_of(runs@) == spec_window_label(
            label_left(win.horizon, win.label@, percent@),
            spec_countdown_to(win.resets_at_ms, server_now_ms),
            width as int,
        ),
{
    let mut left = short_label(win);
    push_char(&mut left, ' ');
    left.append(percent);
    push_char(&mut left, '%');
    assert(left@ =~= label_left(win.horizon, win.label@, percent@));
    let right = countdown_to(win.resets_at_ms, server_now_ms);
    let used: u128 = left.as_str().unicode_len() as u128 + right.as_str().unicode_len() as u128;
    let gap: usize = if used < width as u128 && (width as u128) - used > 1 { ((width as u128) - used) as usize } else { 1 };
    assert(gap == {
        let g = width - (left@.len() + right@.len());
        if g < 1 { 1 } else { g }
    });
    let mut runs: Vec<StyledText> = Vec::new();
    runs.push(StyledText { content: left, style: Style::plain() });
    runs.push(StyledText { content: repeat_char(' ', gap), style: Style::plain() });
    runs.push(StyledText { content: right, style: Style::plain() });
    assert(runs_of(runs@) =~= spec_window_label(
        label_left(win.horizon, win.label@, percent@),
        spec_countdown_to(win.resets_at_ms, server_now_ms),
        width as int,
    ));
    runs
}

/// A label row whose parts fit is exactly `width` characters long, left
/// part first and countdown last.
pub proof fn lemma_window_label_spans_the_row(left: Seq<char>, right: Seq<char>, width: int)
    requires
        left.len() + right.len() + 1 <= width,
    ensures
        spec_window_label(left, right, width)[0].0.len() + spec_window_label(left, right, width)[1].0.len()
            + spec_window_label(left, right, width)[2].0.len() == width,
{
}

/// One cell of a usage bar: the pace marker (1-based cell `marker`, 0 for
/// none) in dim, a used cell in the fill color, or a dim empty cell.
pub open spec fn bar_cell(i: int, filled: int, marker: int, fill: Color) -> (char, Style) {
    if marker != 0 && i + 1 == marker {
        ('│', Style { dim: true, ..plain_style() })
    } else if i < filled {
        ('█', Style { fg: Some(fill), ..plain_style() })
    } else {
        ('░', Style { dim: true, ..plain_style() })
    }
}

/// Cells grouped into runs: each cell extends the previous run when its
/// character and style match, and starts a new run otherwise.
pub open spec fn group_cells(n: int, filled: int, marker: int, fill: Color) -> Seq<(Seq<char>, Style)>
    decreases n,
{
    if n <= 0 {
        Seq::empty()
    } else {
        let g = group_cells(n - 1, filled, marker, fill);
        let (c, st) = bar_cell(n - 1, filled, marker, fill);
        if g.len() > 0 && g.last().1 == st && g.last().0.last() == c {
            g.update(g.len() - 1, (g.last().0.push(c), st))
        } else {
            g.push((seq![c], st))
        }
    }
}

pub open spec fn cell_char(cell: Option<(char, Style)>) -> char {
    match cell {
        Some(p) => p.0,
        None => ' ',
    }
}

pub open spec fn cell_style(cell: Option<(char, Style)>) -> Style {
    match cell {
        Some(p) => p.1,
        None => plain_style(),
    }
}

/// One bar row of `width` cells: `filled` used cells, the rest empty, and
/// the pace marker over its cell.
pub fn bar_spans(width: usize, filled: usize, marker: usize, fill: Color) -> (runs: Vec<StyledText>)
    ensures
        runs_of(runs@) == group_cells(width as int, filled as int, marker as int, fill),
{
    let mut runs: Vec<StyledText> = Vec::new();
    let mut run = String::new();
    let mut cur: Option<(char, Style)> = None;
    for i in 0..width
        invariant
            cur is None <==> i == 0,
            i > 0 ==> group_cells(i as int, filled as int, marker as int, fill) == runs_of(runs@).push((run@, cell_style(cur))),
            i > 0 ==> run@.len() > 0 && run@.last() == cell_char(cur),
            i == 0 ==> runs@.len() == 0 && run@.len() == 0,
    {
        let (ch, st) = if marker != 0 && i + 1 == marker {
            ('│', Style::plain().dim())
        } else if i < filled {
            ('█', Style::plain().fg(fill))
        } else {
            ('░', Style::plain().dim())
        };
        assert((ch, st) == bar_cell(i as int, filled as int, marker as int, fill));
        let ghost before = runs@;
        match cur {
            Some((c, s)) => {
                if c == ch && s == st {
                    push_char(&mut run, ch);
                    assert(group_cells(i + 1, filled as int, marker as int, fill) =~= runs_of(runs@).push((run@, st)));
                } else {
                    let mut fresh = String::new();
                    std::mem::swap(&mut run, &mut fresh);
                    runs.push(StyledText { content: fresh, style: s });
                    push_char(&mut run, ch);
                    cur = Some((ch, st));
                    assert(runs_of(runs@) =~= runs_of(before).push((fresh@, s)));
                    assert(group_cells(i + 1, filled as int, marker as int, fill) =~= runs_of(runs@).push((run@, st)));
                }
            },
            None => {
                push_char(&mut run, ch);
                cur = Some((ch, st));
                assert(i == 0);
                assert(run@ =~= seq![ch]);
                assert(group_cells(0, filled as int, marker as int, fill) == Seq::<(Seq<char>, Style)>::empty());
                assert(group_cells(i + 1, filled as int, marker as int, fill) =~= runs_of(runs@).push((run@, st)));
            },
        }
    }
    if let Some((_, s)) = cur {
        let ghost before = runs@;
        runs.push(StyledText { content: run, style: s });
        assert(runs_of(runs@) =~= runs_of(before).push((run@, s)));
    }
    runs
}


/// The characters of the first `n` cells.
pub open spec fn bar_chars(n: int, filled: int, marker: int, fill: Color) -> Seq<char> {
    Seq::new(n as nat, |i: int| bar_cell(i, filled, marker, fill).0)
}

pub open spec fn run_texts(runs: Seq<(Seq<char>, Style)>) -> Seq<Seq<char>> {
    runs.map_values(|r: (Seq<char>, Style)| r.0)
}

pub open spec fn uniform_run(r: (Seq<char>, Style)) -> bool {
    r.0.len() > 0 && forall|j: int| 0 <= j < r.0.len() ==> #[trigger] r.0[j] == r.0[0]
}

/// A bar draws exactly its cells, in order, grouped into maximal runs:
/// every run is non-empty and repeats one character in one style, and two
/// neighbouring runs differ in character or style.
pub proof fn lemma_bar_runs_are_the_cells(n: int, filled: int, marker: int, fill: Color)
    requires
        n >= 0,
    ensures
        run_texts(group_cells(n, filled, marker, fill)).flatten() == bar_chars(n, filled, marker, fill),
        forall|k: int| 0 <= k < group_cells(n, filled, marker, fill).len() ==> uniform_run(#[trigger] group_cells(n, filled, marker, fill)[k]),
        forall|k: int|
            0 <= k < group_cells(n, filled, marker, fill).len() - 1 ==> (#[trigger] group_cells(n, filled, marker, fill)[k].0[0],
                group_cells(n, filled, marker, fill)[k].1) != (group_cells(n, filled, marker, fill)[k + 1].0[0], group_cells(n, filled, marker, fill)[k + 1].1),
    decreases n,
{
    let g = group_cells(n, filled, marker, fill);
    if n == 0 {
        assert(run_texts(g) =~= Seq::<Seq<char>>::empty());
        assert(bar_chars(0, filled, marker, fill) =~= Seq::<char>::empty());
    } else {
        lemma_bar_runs_are_the_cells(n - 1, filled, marker, fill);
        let p = group_cells(n - 1, filled, marker, fill);
        let (c, st) = bar_cell(n - 1, filled, marker, fill);
        assert(bar_chars(n, filled, marker, fill) =~= bar_chars(n - 1, filled, marker, fill).push(c));
        if p.len() > 0 && p.last().1 == st && p.last().0.last() == c {
            let last = p.last();
            assert(run_texts(p) =~= run_texts(p.drop_last()).push(last.0));
            run_texts(p.drop_last()).lemma_flatten_push(last.0);
            assert(run_texts(g) =~= run_texts(p.drop_last()).push(last.0.push(c)));
            run_texts(p.drop_last()).lemma_flatten_push(last.0.push(c));
            assert(run_texts(g).flatten() =~= run_texts(p).flatten().push(c));
            assert(uniform_run(p[p.len() - 1]));
            assert forall|k: int| 0 <= k < g.len() implies uniform_run(#[trigger] g[k]) by {
                if k < p.len() - 1 {
                    assert(g[k] == p[k]);
                } else {
                    assert(g[k] == (last.0.push(c), st));
                    assert(last.0[last.0.len() - 1] == last.0[0]);
                }
            }
            assert forall|k: int| 0 <= k < g.len() - 1 implies (#[trigger] g[k].0[0], g[k].1) != (g[k + 1].0[0], g[k + 1].1) by {
                assert(g[k] == p[k]);
                if k + 1 < p.len() - 1 {
                    assert(g[k + 1] == p[k + 1]);
                } else {
                    assert(g[k + 1].0[0] == p[k + 1].0[0]);
                }
            }
        } else {
            assert(run_texts(g) =~= run_texts(p).push(seq![c]));
            run_texts(p).lemma_flatten_push(seq![c]);
            assert forall|k: int| 0 <= k < g.len() implies uniform_run(#[trigger] g[k]) by {
                if k < p.len() {
                    assert(g[k] == p[k]);
                }
            }
            assert forall|k: int| 0 <= k < g.len() - 1 implies (#[trigger] g[k].0[0], g[k].1) != (g[k + 1].0[0], g[k + 1].1) by {
                assert(g[k] == p[k]);
                if k + 1 < p.len() {
                    assert(g[k + 1] == p[k + 1]);
                } else {
                    let last = p.last();
                    assert(uniform_run(last));
                    assert(last.0.last() == last.0[0]);
                }
            }
        }
    }
}


/// The 1-based cell where the window's elapsed share lands (the share
/// `1 - remaining/length`, clamped to 0..=1, times `width`, rounded up,
/// then kept within 1..=width); 0 = no marker, when the length or the
/// reset is unknown or the length is not positive.
pub open spec fn spec_elapsed_position(duration_ms: Option<i64>, resets_at_ms: Option<i64>, width: int, now_ms: i64) -> int {
    match (duration_ms, resets_at_ms) {
        (Some(d), Some(r)) => if d <= 0 {
            0
        } else {
            let done = d - (r - now_ms);
            let clamped = if done < 0 {
                0
            } else if done > d {
                d as int
            } else {
                done
            };
            let pos = (clamped * width + d - 1) / (d as int);
            if pos < 1 {
                1
            } else if pos > width {
                width
            } else {
                pos
            }
        },
        _ => 0,
    }
}

/// The marker can be placed: the reset is within an `i64` distance of now
/// and a measurable window has at least one cell.
pub open spec fn marker_in_range(duration_ms: Option<i64>, resets_at_ms: Option<i64>, width: int, now_ms: i64) -> bool {
    match (duration_ms, resets_at_ms) {
        (Some(d), Some(r)) => d > 0 ==> (i64::MIN <= r - now_ms <= i64::MAX && width >= 1),
        _ => true,
    }
}

pub fn elapsed_position(win: &Window, width: usize, now_ms: i64) -> (pos: usize)
    requires
        marker_in_range(win.duration_ms, win.resets_at_ms, width as int, now_ms),
    ensures
        pos == spec_elapsed_position(win.duration_ms, win.resets_at_ms, width as int, now_ms),
{
    let (duration, resets_at) = match (win.duration_ms, win.resets_at_ms) {
        (Some(d), Some(r)) => (d, r),
        _ => return 0,
    };
    if duration <= 0 {
        return 0;
    }
    let remaining: i128 = (resets_at as i128) - (now_ms as i128);
    let done: i128 = (duration as i128) - remaining;
    let clamped: u128 = if done < 0 { 0 } else if done > duration as i128 { duration as u128 } else { done as u128 };
    let d: u128 = duration as u128;
    assert(clamped * (width as u128) <= (d * (width as u128))) by (nonlinear_arith)
        requires clamped <= d;
    assert(d * (width as u128) < 0x8000_0000_0000_0000_0000_0000_0000_0000) by (nonlinear_arith)
        requires d < 0x8000_0000_0000_0000, width < 0x1_0000_0000_0000_0000;
    let pos: u128 = (clamped * (width as u128) + d - 1) / d;
    if pos < 1 {
        1
    } else if pos > width as u128 {
        width
    } else {
        pos as usize
    }
}


/// What the drawing layer measured of a window's used share for one bar:
/// the share as a rendered whole percentage, the number of used cells, and
/// the fill color its threshold picks.
#[derive(Clone, Debug)]
pub struct Gauge {
    pub percent: String,
    pub filled: usize,
    pub fill: Color,
}

/// The number of windows drawn for an account (model-restricted windows
/// are left out).
pub open spec fn shown_windows(ws: Seq<Window>) -> int
    decreases ws.len(),
{
    if ws.len() == 0 {
        0
    } else {
        shown_windows(ws.drop_last()) + if ws.last().model_scoped { 0int } else { 1int }
    }
}

/// Rows for the accounts: a header and two rows per shown window each.
pub open spec fn account_block_rows(accounts: Seq<Account>) -> int
    decreases accounts.len(),
{
    if accounts.len() == 0 {
        0
    } else {
        account_block_rows(accounts.drop_last()) + 1 + 2 * shown_windows(accounts.last().windows@)
    }
}

/// The view's load state.
#[derive(Clone, Copy, Debug, PartialEq, Eq, Structural)]
pub enum LoadState {
    Loading,
    /// The server sent a snapshot.
    Loaded,
    /// The host was never paired with a usage server.
    NotPaired,
    /// The last fetch failed.
    Error,
}

/// What the background fetch reports.
pub enum FetchMsg {
    Snapshot(Snapshot),
    /// The fetch failed; the view shows a fixed offline line.
    Offline,
    /// No pairing file on this host.
    NotPaired,
}

/// A key the Usage view reacts to.
#[derive(Clone, Copy, Debug, PartialEq, Eq, Structural)]
pub enum UsageKey {
    Char(char),
    /// A function key, by number.
    F(u8),
    Down,
    Up,
    PageDown,
    PageUp,
    Other,
}

/// The Usage view: load state, the last snapshot, and the scroll offset.
pub struct UsageView {
    state: LoadState,
    snapshot: Option<Snapshot>,
    scroll: usize,
}

/// Rendered rows in total: one per account block row plus a blank row
/// between accounts once loaded; one status row otherwise.
pub open spec fn spec_row_count(state: LoadState, snapshot: Option<Snapshot>) -> int {
    match (state, snapshot) {
        (LoadState::Loaded, Some(s)) => account_block_rows(s.accounts@) + sat_sub(s.accounts@.len() as int, 1),
        _ => 1,
    }
}

/// One scroll step over `rows` rows: down stops at the last row, up at 0.
pub open spec fn spec_step(scroll: int, rows: int, down: bool) -> int {
    let last = sat_sub(rows, 1);
    if down {
        if scroll + 1 < last { scroll + 1 } else { last }
    } else {
        sat_sub(scroll, 1)
    }
}

pub open spec fn spec_steps(scroll: int, rows: int, down: bool, k: nat) -> int
    decreases k,
{
    if k == 0 {
        scroll
    } else {
        spec_step(spec_steps(scroll, rows, down, (k - 1) as nat), rows, down)
    }
}

impl UsageView {
    /// Once loaded, the view always holds a snapshot.
    #[verifier::type_invariant]
    spec fn loaded_has_snapshot(&self) -> bool {
        self.state == LoadState::Loaded ==> self.snapshot is Some
    }

    pub closed spec fn state(&self) -> LoadState {
        self.state
    }

    pub closed spec fn snapshot(&self) -> Option<Snapshot> {
        self.snapshot
    }

    pub closed spec fn scroll(&self) -> usize {
        self.scroll
    }

    /// Rows rendered by the current state, capped at the largest count a
    /// `usize` holds.
    pub open spec fn rows(&self) -> int {
        let n = spec_row_count(self.state(), self.snapshot());
        if n < usize::MAX { n } else { usize::MAX as int }
    }

    /// A fresh view: loading, no snapshot, at the top.
    pub fn new() -> (v: UsageView)
        ensures
            v.state() == LoadState::Loading,
            v.snapshot() is None,
            v.scroll() == 0,
    {
        UsageView { state: LoadState::Loading, snapshot: None, scroll: 0 }
    }

}

impl Default for UsageView {
    /// The same fresh view as `new`.
    fn default() -> (v: UsageView)
        ensures
            v.state() == LoadState::Loading,
            v.snapshot() is None,
            v.scroll() == 0,
    {
        UsageView::new()
    }
}

impl UsageView {
    pub fn load_state(&self) -> (s: LoadState)
        ensures
            s == self.state(),
    {
        self.state
    }

    pub fn scroll_offset(&self) -> (s: usize)
        ensures
            s == self.scroll(),
    {
        self.scroll
    }

    pub fn current_snapshot(&self) -> (s: &Option<Snapshot>)
        ensures
            *s == self.snapshot(),
    {
        &self.snapshot
    }

    /// Total rendered rows, for scroll clamping and the scrollbar.
    pub fn row_count(&self) -> (n: usize)
        ensures
            n == self.rows(),
    {
        match (&self.state, &self.snapshot) {
            (LoadState::Loaded, Some(s)) => {
                let mut rows: usize = 0;
                for i in 0..s.accounts.len()
                    invariant
                        rows == if account_block_rows(s.accounts@.take(i as int)) < usize::MAX {
                            account_block_rows(s.accounts@.take(i as int))
                        } else {
                            usize::MAX as int
                        },
                {
                    let a = &s.accounts[i];
                    let mut shown: usize = 0;
                    for j in 0..a.windows.len()
                        invariant
                            shown == shown_windows(a.windows@.take(j as int)),
                            shown <= j,
                    {
                        assert(a.windows@.take(j + 1).drop_last() == a.windows@.take(j as int));
                        if !a.windows[j].model_scoped {
                            shown = shown + 1;
                        }
                    }
                    assert(a.windows@.take(a.windows@.len() as int) == a.windows@);
                    assert(s.accounts@.take(i + 1).drop_last() == s.accounts@.take(i as int));
                    proof {
                        lemma_account_block_rows_nonneg(s.accounts@.take(i as int));
                    }
                    rows = rows.saturating_add(1).saturating_add(shown).saturating_add(shown);
                }
                assert(s.accounts@.take(s.accounts@.len() as int) == s.accounts@);
                rows.saturating_add(s.accounts.len().saturating_sub(1))
            },
            _ => 1,
        }
    }

    fn step(&mut self, down: bool)
        ensures
            final(self).state() == old(self).state(),
            final(self).snapshot() == old(self).snapshot(),
            final(self).scroll() == spec_step(old(self).scroll() as int, old(self).rows(), down),
    {
        proof {
            use_type_invariant(&*self);
        }
        let last = self.row_count().saturating_sub(1);
        self.scroll = if down {
            let next = self.scroll.saturating_add(1);
            if next < last { next } else { last }
        } else {
            self.scroll.saturating_sub(1)
        };
    }

    fn steps(&mut self, down: bool, k: usize)
        ensures
            final(self).state() == old(self).state(),
            final(self).snapshot() == old(self).snapshot(),
            final(self).scroll() == spec_steps(old(self).scroll() as int, old(self).rows(), down, k as nat),
    {
        for i in 0..k
            invariant
                self.state() == old(self).state(),
                self.snapshot() == old(self).snapshot(),
                self.scroll() == spec_steps(old(self).scroll() as int, old(self).rows(), down, i as nat),
        {
            self.step(down);
        }
    }

    /// A wheel notch: three rows.
    pub fn on_scroll(&mut self, down: bool)
        ensures
            final(self).state() == old(self).state(),
            final(self).snapshot() == old(self).snapshot(),
            final(self).scroll() == spec_steps(old(self).scroll() as int, old(self).rows(), down, 3),
    {
        self.steps(down, 3);
    }

    /// A full viewport step (PageUp / PageDown): ten rows.
    pub fn page(&mut self, down: bool)
        ensures
            final(self).state() == old(self).state(),
            final(self).snapshot() == old(self).snapshot(),
            final(self).scroll() == spec_steps(old(self).scroll() as int, old(self).rows(), down, 10),
    {
        self.steps(down, 10);
    }

    /// Take in what the background fetch reported.
    pub fn receive(&mut self, msg: FetchMsg)
        ensures
            final(self).scroll() == old(self).scroll(),
            match msg {
                FetchMsg::Snapshot(s) => final(self).state() == LoadState::Loaded && final(self).snapshot() == Some(s),
                FetchMsg::Offline => final(self).state() == LoadState::Error && final(self).snapshot() == old(self).snapshot(),
                FetchMsg::NotPaired => final(self).state() == LoadState::NotPaired && final(self).snapshot() is None,
            },
    {
        proof {
            use_type_invariant(&*self);
        }
        match msg {
            FetchMsg::Snapshot(s) => {
                self.snapshot = Some(s);
                self.state = LoadState::Loaded;
            },
            FetchMsg::Offline => {
                self.state = LoadState::Error;
            },
            FetchMsg::NotPaired => {
                self.state = LoadState::NotPaired;
                self.snapshot = None;
            },
        }
    }

    /// Re-enter the loading state until the next fetch result lands.
    pub fn refresh_now(&mut self)
        ensures
            final(self).state() == LoadState::Loading,
            final(self).snapshot() == old(self).snapshot(),
            final(self).scroll() == old(self).scroll(),
    {
        self.state = LoadState::Loading;
    }

    /// React to a key: `r` refreshes (true is returned so the caller makes
    /// sure a fetch runs), `j`/Down and `k`/Up scroll a notch, PageDown and
    /// PageUp a page; released keys and other keys change nothing.
    pub fn on_key(&mut self, key: UsageKey, pressed: bool) -> (refresh: bool)
        ensures
            refresh == (pressed && (key == UsageKey::Char('r') || key == UsageKey::Char('R'))),
            final(self).snapshot() == old(self).snapshot(),
            final(self).state() == if refresh { LoadState::Loading } else { old(self).state() },
            final(self).scroll() == if !pressed {
                old(self).scroll() as int
            } else if key == UsageKey::Char('j') || key == UsageKey::Down {
                spec_steps(old(self).scroll() as int, old(self).rows(), true, 3)
            } else if key == UsageKey::Char('k') || key == UsageKey::Up {
                spec_steps(old(self).scroll() as int, old(self).rows(), false, 3)
            } else if key == UsageKey::PageDown {
                spec_steps(old(self).scroll() as int, old(self).rows(), true, 10)
            } else if key == UsageKey::PageUp {
                spec_steps(old(self).scroll() as int, old(self).rows(), false, 10)
            } else {
                old(self).scroll() as int
            },
    {
        if !pressed {
            return false;
        }
        match key {
            UsageKey::Char('r') | UsageKey::Char('R') => {
                self.refresh_now();
                true
            },
            UsageKey::Char('j') | UsageKey::Down => {
                self.on_scroll(true);
                false
            },
            UsageKey::Char('k') | UsageKey::Up => {
                self.on_scroll(false);
                false
            },
            UsageKey::PageDown => {
                self.page(true);
                false
            },
            UsageKey::PageUp => {
                self.page(false);
                false
            },
            _ => false,
        }
    }

    /// Keep the scroll offset within `total` rows drawn `visible` at a time,
    /// and return it as the first row to draw.
    pub fn fit_scroll(&mut self, total: usize, visible: usize) -> (first: usize)
        ensures
            first == final(self).scroll(),
            final(self).state() == old(self).state(),
            final(self).snapshot() == old(self).snapshot(),
            first as int == if (old(self).scroll() as int) < sat_sub(total as int, if visible < 1 { 1 } else { visible as int }) {
                old(self).scroll() as int
            } else {
                sat_sub(total as int, if visible < 1 { 1 } else { visible as int })
            },
    {
        proof {
            use_type_invariant(&*self);
        }
        let v = if visible < 1 { 1 } else { visible };
        let last = total.saturating_sub(v);
        if last < self.scroll {
            self.scroll = last;
        }
        self.scroll
    }
}

proof fn lemma_account_block_rows_nonneg(accounts: Seq<Account>)
    ensures
        account_block_rows(accounts) >= 0,
    decreases accounts.len(),
{
    if accounts.len() > 0 {
        lemma_account_block_rows_nonneg(accounts.drop_last());
        lemma_shown_windows_nonneg(accounts.last().windows@);
    }
}

proof fn lemma_shown_windows_nonneg(ws: Seq<Window>)
    ensures
        0 <= shown_windows(ws) <= ws.len(),
    decreases ws.len(),
{
    if ws.len() > 0 {
        lemma_shown_windows_nonneg(ws.drop_last());
    }
}

/// A view's row count is never negative and fits a `usize` (a loaded
/// snapshot without accounts renders no row at all).
pub proof fn lemma_rows_in_range(v: UsageView)
    ensures
        0 <= v.rows() <= usize::MAX,
{
    match (v.state(), v.snapshot()) {
        (LoadState::Loaded, Some(s)) => {
            lemma_account_block_rows_nonneg(s.accounts@);
        },
        _ => {},
    }
}

/// Scrolling down `k >= 1` steps lands `k` rows further, but never past the
/// last row; scrolling up `k` steps lands `k` rows back, but never above
/// the first.
pub proof fn lemma_scroll_steps(scroll: int, rows: int, k: nat)
    requires
        scroll >= 0,
        rows >= 0,
    ensures
        k >= 1 ==> spec_steps(scroll, rows, true, k) == if scroll + k < sat_sub(rows, 1) { scroll + k } else { sat_sub(rows, 1) },
        spec_steps(scroll, rows, false, k) == sat_sub(scroll, k as int),
    decreases k,
{
    if k > 0 {
        lemma_scroll_steps(scroll, rows, (k - 1) as nat);
        assert(spec_steps(scroll, rows, true, 0) == scroll);
    }
}


pub open spec fn bold_style() -> Style {
    Style { bold: true, ..plain_style() }
}

pub open spec fn dim_style() -> Style {
    Style { dim: true, ..plain_style() }
}

/// An account's header: its name in bold, or dim with " stale" when its
/// data is stale.
pub open spec fn name_line(a: Account) -> Seq<(Seq<char>, Style)> {
    if a.fresh {
        seq![(a.display_name@, bold_style())]
    } else {
        seq![(a.display_name@ + " stale"@, dim_style())]
    }
}

/// The label row and the bar row of a shown window.
pub open spec fn window_rows(w: Window, g: Gauge, now: i64, width: int) -> Seq<Seq<(Seq<char>, Style)>> {
    seq![
        spec_window_label(label_left(w.horizon, w.label@, g.percent@), spec_countdown_to(w.resets_at_ms, now), width),
        group_cells(width, g.filled as int, spec_elapsed_position(w.duration_ms, w.resets_at_ms, width, now), g.fill),
    ]
}

pub open spec fn windows_rows(ws: Seq<Window>, gs: Seq<Gauge>, now: i64, width: int) -> Seq<Seq<(Seq<char>, Style)>>
    decreases ws.len(),
{
    if ws.len() == 0 {
        Seq::empty()
    } else {
        let prev = windows_rows(ws.drop_last(), gs, now, width);
        if ws.last().model_scoped {
            prev
        } else {
            prev + window_rows(ws.last(), gs[ws.len() - 1], now, width)
        }
    }
}

/// An account block: its header, then two rows per window that is not
/// model-restricted.
pub open spec fn spec_account_rows(a: Account, gs: Seq<Gauge>, now: i64, width: int) -> Seq<Seq<(Seq<char>, Style)>> {
    seq![name_line(a)] + windows_rows(a.windows@, gs, now, width)
}

/// The window's countdown and pace marker can be computed.
pub open spec fn window_drawable(w: Window, now: i64, width: int) -> bool {
    w.model_scoped || (countdown_in_range(w.resets_at_ms, now) && (width >= 1 ==> marker_in_range(
        w.duration_ms,
        w.resets_at_ms,
        width,
        now,
    )))
}

/// One measured gauge per window, and every window drawable.
pub open spec fn account_gauges_fit(a: Account, gs: Seq<Gauge>, now: i64, width: int) -> bool {
    &&& gs.len() == a.windows@.len()
    &&& forall|j: int| 0 <= j < a.windows@.len() ==> window_drawable(#[trigger] a.windows@[j], now, width)
}

pub open spec fn gauges_view(gauges: Seq<Vec<Gauge>>) -> Seq<Seq<Gauge>> {
    gauges.map_values(|v: Vec<Gauge>| v@)
}

pub open spec fn lines_view(lines: Seq<Vec<StyledText>>) -> Seq<Seq<(Seq<char>, Style)>> {
    lines.map_values(|l: Vec<StyledText>| runs_of(l@))
}

/// The rows of one account.
pub fn account_rows(account: &Account, gauges: &Vec<Gauge>, server_now_ms: i64, width: usize) -> (rows: Vec<Vec<StyledText>>)
    requires
        account_gauges_fit(*account, gauges@, server_now_ms, width as int),
    ensures
        lines_view(rows@) == spec_account_rows(*account, gauges@, server_now_ms, width as int),
{
    let mut name = account.display_name.clone();
    let mut header: Vec<StyledText> = Vec::new();
    if account.fresh {
        header.push(StyledText { content: name, style: Style::plain().bold() });
    } else {
        name.append(" stale");
        header.push(StyledText { content: name, style: Style::plain().dim() });
    }
    assert(runs_of(header@) =~= name_line(*account));
    let mut rows: Vec<Vec<StyledText>> = Vec::new();
    rows.push(header);
    let ghost ws = account.windows@;
    assert(lines_view(rows@) =~= seq![name_line(*account)] + windows_rows(ws.take(0), gauges@, server_now_ms, width as int));
    for j in 0..account.windows.len()
        invariant
            ws == account.windows@,
            account_gauges_fit(*account, gauges@, server_now_ms, width as int),
            lines_view(rows@) == seq![name_line(*account)] + windows_rows(ws.take(j as int), gauges@, server_now_ms, width as int),
    {
        let win = &account.windows[j];
        assert(ws.take(j + 1).drop_last() == ws.take(j as int));
        assert(ws.take(j + 1).last() == *win);
        assert(window_drawable(ws[j as int], server_now_ms, width as int));
        if !win.model_scoped {
            let g = &gauges[j];
            let label = window_label(win, g.percent.as_str(), server_now_ms, width);
            let marker = if width == 0 { 0 } else { elapsed_position(win, width, server_now_ms) };
            let bar = bar_spans(width, g.filled, marker, g.fill);
            proof {
                if width == 0 {
                    assert(group_cells(0, g.filled as int, marker as int, g.fill) == group_cells(
                        0,
                        g.filled as int,
                        spec_elapsed_position(win.duration_ms, win.resets_at_ms, 0, server_now_ms),
                        g.fill,
                    ));
                }
            }
            let ghost before = rows@;
            rows.push(label);
            rows.push(bar);
            assert(lines_view(rows@) =~= lines_view(before) + window_rows(*win, gauges@[j as int], server_now_ms, width as int));
        }
    }
    assert(ws.take(ws.len() as int) == ws);
    rows
}

/// The rows of all accounts, a blank row between two accounts.
pub open spec fn loaded_rows(accounts: Seq<Account>, gauges: Seq<Seq<Gauge>>, now: i64, width: int) -> Seq<Seq<(Seq<char>, Style)>>
    decreases accounts.len(),
{
    if accounts.len() == 0 {
        Seq::empty()
    } else {
        let prev = loaded_rows(accounts.drop_last(), gauges, now, width);
        let gapped = if accounts.len() > 1 { prev.push(Seq::empty()) } else { prev };
        gapped + spec_account_rows(accounts.last(), gauges[accounts.len() - 1], now, width)
    }
}

/// Every row of the view: the one status line while not loaded, the
/// account blocks once loaded.
pub open spec fn spec_render_rows(state: LoadState, snapshot: Option<Snapshot>, gauges: Seq<Seq<Gauge>>, width: int) -> Seq<
    Seq<(Seq<char>, Style)>,
> {
    match state {
        LoadState::NotPaired => seq![seq![("tg-usage not paired on this host"@, dim_style())]],
        LoadState::Loading => seq![seq![("loading…"@, dim_style())]],
        LoadState::Error => seq![seq![("usage offline · r to retry"@, dim_style())]],
        LoadState::Loaded => match snapshot {
            Some(s) => loaded_rows(s.accounts@, gauges, s.server_now_ms, width),
            None => Seq::empty(),
        },
    }
}

/// The gauges cover every account of a loaded snapshot.
pub open spec fn gauges_fit(state: LoadState, snapshot: Option<Snapshot>, gauges: Seq<Seq<Gauge>>, width: int) -> bool {
    match (state, snapshot) {
        (LoadState::Loaded, Some(s)) => {
            &&& gauges.len() == s.accounts@.len()
            &&& forall|i: int| 0 <= i < s.accounts@.len() ==> account_gauges_fit(#[trigger] s.accounts@[i], gauges[i], s.server_now_ms, width)
        },
        _ => true,
    }
}

fn status_line(text: &str) -> (line: Vec<StyledText>)
    ensures
        runs_of(line@) == seq![(text@, dim_style())],
{
    let mut line: Vec<StyledText> = Vec::new();
    line.push(StyledText { content: String::from_str(text), style: Style::plain().dim() });
    assert(runs_of(line@) =~= seq![(text@, dim_style())]);
    line
}

impl UsageView {
    /// Build every logical row of the view at `width` columns, given one
    /// measured gauge per window of the snapshot.
    pub fn render_rows(&self, width: usize, gauges: &Vec<Vec<Gauge>>) -> (rows: Vec<Vec<StyledText>>)
        requires
            gauges_fit(self.state(), self.snapshot(), gauges_view(gauges@), width as int),
        ensures
            lines_view(rows@) == spec_render_rows(self.state(), self.snapshot(), gauges_view(gauges@), width as int),
            rows@.len() == self.rows(),
    {
        proof {
            use_type_invariant(self);
            lemma_row_count_is_rows_drawn(self.state(), self.snapshot(), gauges_view(gauges@), width as int);
        }
        let rows = match self.state {
            LoadState::NotPaired => {
                let mut rows: Vec<Vec<StyledText>> = Vec::new();
                rows.push(status_line("tg-usage not paired on this host"));
                assert(lines_view(rows@) =~= spec_render_rows(self.state(), self.snapshot(), gauges_view(gauges@), width as int));
                rows
            },
            LoadState::Loading => {
                let mut rows: Vec<Vec<StyledText>> = Vec::new();
                rows.push(status_line("loading…"));
                assert(lines_view(rows@) =~= spec_render_rows(self.state(), self.snapshot(), gauges_view(gauges@), width as int));
                rows
            },
            LoadState::Error => {
                let mut rows: Vec<Vec<StyledText>> = Vec::new();
                rows.push(status_line("usage offline · r to retry"));
                assert(lines_view(rows@) =~= spec_render_rows(self.state(), self.snapshot(), gauges_view(gauges@), width as int));
                rows
            },
            LoadState::Loaded => {
                let s = match &self.snapshot {
                    Some(s) => s,
                    None => {
                        let rows: Vec<Vec<StyledText>> = Vec::new();
                        assert(lines_view(rows@) =~= Seq::<Seq<(Seq<char>, Style)>>::empty());
                        return rows;
                    },
                };
                let ghost acc = s.accounts@;
                let ghost gv = gauges_view(gauges@);
                let mut rows: Vec<Vec<StyledText>> = Vec::new();
                assert(lines_view(rows@) =~= loaded_rows(acc.take(0), gv, s.server_now_ms, width as int));
                for i in 0..s.accounts.len()
                    invariant
                        acc == s.accounts@,
                        gv == gauges_view(gauges@),
                        gauges_fit(LoadState::Loaded, Some(*s), gv, width as int),
                        lines_view(rows@) == loaded_rows(acc.take(i as int), gv, s.server_now_ms, width as int),
                {
                    assert(acc.take(i + 1).drop_last() == acc.take(i as int));
                    assert(acc.take(i + 1).last() == acc[i as int]);
                    let ghost before = rows@;
                    if i > 0 {
                        let empty: Vec<StyledText> = Vec::new();
                        assert(runs_of(empty@) =~= Seq::<(Seq<char>, Style)>::empty());
                        rows.push(empty);
                        assert(lines_view(rows@) =~= lines_view(before).push(Seq::empty()));
                    }
                    let ghost mid = rows@;
                    assert(account_gauges_fit(acc[i as int], gv[i as int], s.server_now_ms, width as int));
                    let block = account_rows(&s.accounts[i], &gauges[i], s.server_now_ms, width);
                    let mut block = block;
                    rows.append(&mut block);
                    assert(lines_view(rows@) =~= lines_view(mid) + spec_account_rows(acc[i as int], gv[i as int], s.server_now_ms, width as int));
                }
                assert(acc.take(acc.len() as int) == acc);
                rows
            },
        };
        assert(lines_view(rows@).len() == rows@.len());
        let n = rows.len();
        assert(n as int == spec_row_count(self.state(), self.snapshot()));
        rows
    }
}

/// The area inside the body's side padding (two columns each side, the
/// scrollbar keeps the full-width edge); nothing for an empty area.
pub fn body_area(area: Rect) -> (inner: Option<Rect>)
    requires
        area.width > 0 && area.height > 0 ==> area.x + 2 <= u16::MAX,
    ensures
        inner == if area.width == 0 || area.height == 0 {
            None::<Rect>
        } else {
            Some(spec_rect((area.x + 2) as u16, area.y, sat_sub(area.width as int, 4) as u16, area.height))
        },
{
    if area.width == 0 || area.height == 0 {
        return None;
    }
    Some(Rect::new(area.x + 2, area.y, area.width.saturating_sub(4), area.height))
}


proof fn lemma_windows_rows_len(ws: Seq<Window>, gs: Seq<Gauge>, now: i64, width: int)
    ensures
        windows_rows(ws, gs, now, width).len() == 2 * shown_windows(ws),
    decreases ws.len(),
{
    if ws.len() > 0 {
        lemma_windows_rows_len(ws.drop_last(), gs, now, width);
    }
}

proof fn lemma_loaded_rows_len(accounts: Seq<Account>, gauges: Seq<Seq<Gauge>>, now: i64, width: int)
    ensures
        loaded_rows(accounts, gauges, now, width).len() == account_block_rows(accounts) + sat_sub(accounts.len() as int, 1),
    decreases accounts.len(),
{
    if accounts.len() > 0 {
        lemma_loaded_rows_len(accounts.drop_last(), gauges, now, width);
        lemma_windows_rows_len(accounts.last().windows@, gauges[accounts.len() - 1], now, width);
    }
}

/// The row count used for scroll clamping and the scrollbar is exactly the
/// number of rows the view draws, in every state a view can be in (a
/// loaded view always holds a snapshot).
pub proof fn lemma_row_count_is_rows_drawn(state: LoadState, snapshot: Option<Snapshot>, gauges: Seq<Seq<Gauge>>, width: int)
    requires
        state == LoadState::Loaded ==> snapshot is Some,
    ensures
        spec_render_rows(state, snapshot, gauges, width).len() == spec_row_count(state, snapshot),
{
    if state == LoadState::Loaded {
        let s = snapshot->0;
        lemma_loaded_rows_len(s.accounts@, gauges, s.server_now_ms, width);
    }
}


/// How the Usage activity ends: quit, back to a view, or to the Search
/// view of the Explorer.
#[derive(Clone, Copy, Debug, PartialEq, Eq, Structural)]
pub enum UsageExit {
    Quit,
    To(SidebarView),
    Search,
}

/// What a mouse event did.
#[derive(Clone, Copy, Debug, PartialEq, Eq, Structural)]
pub enum MouseKind {
    LeftDown,
    ScrollDown,
    ScrollUp,
    Other,
}

/// A terminal event, as the Usage activity reads it.
#[derive(Clone, Copy, Debug, PartialEq, Eq, Structural)]
pub enum UsageInput {
    Key { key: UsageKey, pressed: bool, alt: bool },
    Mouse { column: u16, row: u16, kind: MouseKind },
    Other,
}

/// What the activity loop does next.
#[derive(Clone, Copy, Debug, PartialEq, Eq, Structural)]
pub enum UsageStep {
    /// Leave the activity; `remember` says whether the choice is persisted
    /// as the active view (it is for the view buttons and their keys).
    Exit { exit: UsageExit, remember: bool },
    /// Keep running; `refresh` asks for a fetch to be started.
    Continue { refresh: bool },
}

/// The activity a bar button or its digit leads to: 0 Explorer, 1 Search,
/// 2 Source Control; the Usage button itself (3) leads nowhere.
pub open spec fn spec_pick(i: int) -> Option<UsageExit> {
    if i == 0 {
        Some(UsageExit::To(SidebarView::Explorer))
    } else if i == 1 {
        Some(UsageExit::Search)
    } else if i == 2 {
        Some(UsageExit::To(SidebarView::SourceControl))
    } else {
        None
    }
}

pub fn pick(i: usize) -> (exit: Option<UsageExit>)
    ensures
        exit == spec_pick(i as int),
{
    match i {
        0 => Some(UsageExit::To(SidebarView::Explorer)),
        1 => Some(UsageExit::Search),
        2 => Some(UsageExit::To(SidebarView::SourceControl)),
        _ => None,
    }
}

/// The button a key selects: F9..F11, or the digits 1..3 without Alt.
pub open spec fn spec_key_digit(key: UsageKey, alt: bool) -> Option<int> {
    match key {
        UsageKey::F(n) => if n == 9 {
            Some(0)
        } else if n == 10 {
            Some(1)
        } else if n == 11 {
            Some(2)
        } else {
            None
        },
        UsageKey::Char(c) => if '1' <= c && c <= '3' && !alt {
            Some(c as int - '1' as int)
        } else {
            None
        },
        _ => None,
    }
}

/// The first of the three view buttons a click at (x, y) hits.
pub open spec fn spec_first_hit(bar: ActivityBar, x: u16, y: u16) -> Option<int> {
    if spec_hits_activity_button(bar.buttons@[0], bar.row, x, y) {
        Some(0)
    } else if spec_hits_activity_button(bar.buttons@[1], bar.row, x, y) {
        Some(1)
    } else if spec_hits_activity_button(bar.buttons@[2], bar.row, x, y) {
        Some(2)
    } else {
        None
    }
}

/// The loop's decision for one event; a refresh is asked for by `r` or
/// `R` when the key is no view key and no quit.
pub open spec fn spec_usage_step(bar: ActivityBar, input: UsageInput) -> UsageStep {
    match input {
        UsageInput::Key { key, pressed, alt } => if !pressed {
            UsageStep::Continue { refresh: false }
        } else if spec_key_digit(key, alt) is Some {
            UsageStep::Exit { exit: spec_pick(spec_key_digit(key, alt)->0)->0, remember: true }
        } else if key == UsageKey::Char('q') {
            UsageStep::Exit { exit: UsageExit::Quit, remember: false }
        } else {
            UsageStep::Continue { refresh: key == UsageKey::Char('r') || key == UsageKey::Char('R') }
        },
        UsageInput::Mouse { column, row, kind } => if kind == MouseKind::LeftDown && spec_first_hit(bar, column, row) is Some {
            UsageStep::Exit { exit: spec_pick(spec_first_hit(bar, column, row)->0)->0, remember: true }
        } else if kind == MouseKind::LeftDown && spec_hits(bar.gear, column, row) {
            UsageStep::Exit { exit: UsageExit::To(SidebarView::Explorer), remember: false }
        } else {
            UsageStep::Continue { refresh: false }
        },
        UsageInput::Other => UsageStep::Continue { refresh: false },
    }
}

/// One event of the Usage activity: a view key or a click on a view
/// button exits to that view, remembered as the active one (the gear
/// leads to the Explorer's settings without being remembered),
/// `q` quits, wheel events scroll, other keys go to the view. Every mouse
/// event moves the remembered pointer.
pub fn usage_input(view: &mut UsageView, bar: &ActivityBar, mouse: &mut Option<(u16, u16)>, input: UsageInput) -> (step: UsageStep)
    requires
        rect_in_bounds(bar.gear),
    ensures
        step == spec_usage_step(*bar, input),
        *final(mouse) == match input {
            UsageInput::Mouse { column, row, .. } => Some((column, row)),
            _ => *old(mouse),
        },
        final(view).snapshot() == old(view).snapshot(),
        match input {
            UsageInput::Key { key, pressed, alt } => if pressed && spec_key_digit(key, alt) is None && key != UsageKey::Char('q') {
                &&& final(view).state() == if key == UsageKey::Char('r') || key == UsageKey::Char('R') { LoadState::Loading } else { old(view).state() }
                &&& final(view).scroll() == if key == UsageKey::Char('j') || key == UsageKey::Down {
                    spec_steps(old(view).scroll() as int, old(view).rows(), true, 3)
                } else if key == UsageKey::Char('k') || key == UsageKey::Up {
                    spec_steps(old(view).scroll() as int, old(view).rows(), false, 3)
                } else if key == UsageKey::PageDown {
                    spec_steps(old(view).scroll() as int, old(view).rows(), true, 10)
                } else if key == UsageKey::PageUp {
                    spec_steps(old(view).scroll() as int, old(view).rows(), false, 10)
                } else {
                    old(view).scroll() as int
                }
            } else {
                final(view).state() == old(view).state() && final(view).scroll() == old(view).scroll()
            },
            UsageInput::Mouse { kind, .. } => {
                &&& final(view).state() == old(view).state()
                &&& final(view).scroll() == if kind == MouseKind::ScrollDown {
                    spec_steps(old(view).scroll() as int, old(view).rows(), true, 3)
                } else if kind == MouseKind::ScrollUp {
                    spec_steps(old(view).scroll() as int, old(view).rows(), false, 3)
                } else {
                    old(view).scroll() as int
                }
            },
            UsageInput::Other => final(view).state() == old(view).state() && final(view).scroll() == old(view).scroll(),
        },
{
    match input {
        UsageInput::Key { key, pressed, alt } => {
            if !pressed {
                return UsageStep::Continue { refresh: false };
            }
            let digit: Option<usize> = match key {
                UsageKey::F(9) => Some(0),
                UsageKey::F(10) => Some(1),
                UsageKey::F(11) => Some(2),
                UsageKey::Char(c) => {
                    if '1' <= c && c <= '3' && !alt {
                        Some((c as u32 - '1' as u32) as usize)
                    } else {
                        None
                    }
                },
                _ => None,
            };
            if let Some(d) = digit {
                if let Some(exit) = pick(d) {
                    return UsageStep::Exit { exit, remember: true };
                }
            }
            if key == UsageKey::Char('q') {
                return UsageStep::Exit { exit: UsageExit::Quit, remember: false };
            }
            let refresh = view.on_key(key, true);
            UsageStep::Continue { refresh }
        },
        UsageInput::Mouse { column, row, kind } => {
            *mouse = Some((column, row));
            match kind {
                MouseKind::LeftDown => {
                    let hit: Option<usize> = if hits_activity_button(bar.buttons[0], bar.row, column, row) {
                        Some(0)
                    } else if hits_activity_button(bar.buttons[1], bar.row, column, row) {
                        Some(1)
                    } else if hits_activity_button(bar.buttons[2], bar.row, column, row) {
                        Some(2)
                    } else {
                        None
                    };
                    if let Some(i) = hit {
                        let exit = pick(i);
                        return UsageStep::Exit { exit: exit.unwrap(), remember: true };
                    }
                    if hits(bar.gear, column, row) {
                        return UsageStep::Exit { exit: UsageExit::To(SidebarView::Explorer), remember: false };
                    }
                    UsageStep::Continue { refresh: false }
                },
                MouseKind::ScrollDown => {
                    view.on_scroll(true);
                    UsageStep::Continue { refresh: false }
                },
                MouseKind::ScrollUp => {
                    view.on_scroll(false);
                    UsageStep::Continue { refresh: false }
                },
                MouseKind::Other => UsageStep::Continue { refresh: false },
            }
        },
        UsageInput::Other => UsageStep::Continue { refresh: false },
    }
}

/// A pressed key.
pub open spec fn key_press(key: UsageKey, alt: bool) -> UsageInput {
    UsageInput::Key { key, pressed: true, alt }
}

/// A left click at (x, y).
pub open spec fn left_click(x: u16, y: u16) -> UsageInput {
    UsageInput::Mouse { column: x, row: y, kind: MouseKind::LeftDown }
}

/// The exit that leaves for `exit` and remembers it.
pub open spec fn remembered_exit(exit: UsageExit) -> UsageStep {
    UsageStep::Exit { exit, remember: true }
}

/// The three ways to pick a view agree: the digit key `c` in `1..=3`
/// (without Alt), the function key F(8 + digit) and a click on activity
/// button `c - '1'` all lead to the same exit: button 0 the Explorer,
/// button 1 Search, button 2 Source Control, each remembered. With Alt the
/// digit picks nothing.
pub proof fn lemma_view_keys_match_buttons(bar: ActivityBar, c: char, x: u16, y: u16)
    requires
        '1' <= c <= '3',
    ensures
        spec_usage_step(bar, key_press(UsageKey::Char(c), false)) == spec_usage_step(
            bar,
            key_press(UsageKey::F((c as int - '1' as int + 9) as u8), false),
        ),
        spec_first_hit(bar, x, y) == Some(c as int - '1' as int) ==> spec_usage_step(
            bar,
            key_press(UsageKey::Char(c), false),
        ) == spec_usage_step(bar, left_click(x, y)),
        c == '1' ==> spec_usage_step(bar, key_press(UsageKey::Char(c), false)) == remembered_exit(
            UsageExit::To(SidebarView::Explorer),
        ),
        c == '2' ==> spec_usage_step(bar, key_press(UsageKey::Char(c), false)) == remembered_exit(UsageExit::Search),
        c == '3' ==> spec_usage_step(bar, key_press(UsageKey::Char(c), false)) == remembered_exit(
            UsageExit::To(SidebarView::SourceControl),
        ),
        spec_usage_step(bar, key_press(UsageKey::Char(c), true)) matches UsageStep::Continue { .. },
{
}

/// A click on view button 0, 1 or 2 exits to that button's view: the
/// Explorer, Search, Source Control.
pub proof fn lemma_button_clicks_pick_their_views(bar: ActivityBar, x: u16, y: u16)
    ensures
        spec_first_hit(bar, x, y) == Some(0int) ==> spec_usage_step(bar, left_click(x, y)) == remembered_exit(
            UsageExit::To(SidebarView::Explorer),
        ),
        spec_first_hit(bar, x, y) == Some(1int) ==> spec_usage_step(bar, left_click(x, y)) == remembered_exit(
            UsageExit::Search,
        ),
        spec_first_hit(bar, x, y) == Some(2int) ==> spec_usage_step(bar, left_click(x, y)) == remembered_exit(
            UsageExit::To(SidebarView::SourceControl),
        ),
{
}

/// What leaving the Usage activity persists: the view to come back to,
/// and whether it opens in Search; nothing for a quit.
pub fn persisted_activity(exit: UsageExit) -> (p: Option<(SidebarView, bool)>)
    ensures
        p == match exit {
            UsageExit::To(v) => Some((v, false)),
            UsageExit::Search => Some((SidebarView::Explorer, true)),
            UsageExit::Quit => None::<(SidebarView, bool)>,
        },
{
    match exit {
        UsageExit::To(v) => Some((v, false)),
        UsageExit::Search => Some((SidebarView::Explorer, true)),
        UsageExit::Quit => None,
    }
}

} // verus!
