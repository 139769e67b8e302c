# herdr_sidebar

The layout, text-fitting, theming and Usage-view logic of a terminal
sidebar (file explorer, source control, quota meters), written in Verus
with contracts proved for every function.

- `src/` the verified library: `style` (plain colors, styles, rectangles),
  `theme` (palettes, the active color theme, derived styles, icon color
  darkening), `text` (display widths, word splitting, footer wrapping,
  head/tail truncation), `layout` (scrolling, hit tests, icons, title-bar
  actions, hint wrapping), `activity` (the activity bar and its caps,
  scrollbar plan), `panes` (sibling panes of a tab), `root` (remembered
  project roots), `usage` and `usage_view` (quota data, countdowns, bars,
  the Usage view state machine and its event step).
- `app/` the terminal side: ratatui drawing, crossterm events, the fetch
  thread, float measurements of the quota bars, and JSON pane lists.
- `tests/` the library's tests.
