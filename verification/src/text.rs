//! Fitting text into terminal cells: display widths, whitespace words,
//! footer-message wrapping, and head/tail truncation with an ellipsis.
use vstd::prelude::*;
use vstd::string::{StrSliceExecFns, StringExecFns};

verus! {

broadcast use vstd::seq_lib::group_seq_properties;

/// The number of terminal columns `s` occupies, as the terminal-UI crate
/// measures a span of text (Unicode UAX #11 widths, with emoji and
/// script ligatures counted as one glyph).
pub uninterp spec fn display_width(s: Seq<char>) -> usize;

/// The display width of `s`: ratatui's `Span::width`, which measures the
/// span's content with `unicode_width`. The result is claimed to depend on
/// the characters of `s` alone; nothing more is claimed of it.
#[verifier::external_body]
pub(crate) fn span_width(s: &str) -> (w: usize)
    ensures
        w == display_width(s@),
{
    ratatui::text::Span::raw(s).width()
}

/// Appends `c` to `s` (std's `String::push`).
#[verifier::external_body]
pub(crate) fn push_char(s: &mut String, c: char)
    ensures
        final(s)@ == old(s)@.push(c),
{
    s.push(c);
}

/// The characters of `s`, in order.
pub fn chars_of(s: &str) -> (v: Vec<char>)
    ensures
        v@ == s@,
{
    let mut v: Vec<char> = Vec::new();
    for c in it: s.chars()
        invariant
            v@ == it.seq().take(it.index() as int),
            it.seq() == s@,
    {
        v.push(c);
    }
    v
}

/// Unicode `White_Space`: the characters `char::is_whitespace` and
/// `str::split_whitespace` treat as blanks.
pub open spec fn spec_is_whitespace(c: char) -> bool {
    let u = c as u32;
    (0x09 <= u && u <= 0x0d) || u == 0x20 || u == 0x85 || u == 0xa0 || u == 0x1680 || (0x2000
        <= u && u <= 0x200a) || u == 0x2028 || u == 0x2029 || u == 0x202f || u == 0x205f || u
        == 0x3000
}

pub fn is_whitespace(c: char) -> (b: bool)
    ensures
        b == spec_is_whitespace(c),
{
    let u = c as u32;
    (0x09 <= u && u <= 0x0d) || u == 0x20 || u == 0x85 || u == 0xa0 || u == 0x1680 || (0x2000
        <= u && u <= 0x200a) || u == 0x2028 || u == 0x2029 || u == 0x202f || u == 0x205f || u
        == 0x3000
}

pub open spec fn not_whitespace(c: char) -> bool {
    !spec_is_whitespace(c)
}

/// The visible characters of `s`: everything but whitespace.
pub open spec fn visible(s: Seq<char>) -> Seq<char> {
    s.filter(|c: char| not_whitespace(c))
}

pub open spec fn blank_free(s: Seq<char>) -> bool {
    forall|j: int| 0 <= j < s.len() ==> !spec_is_whitespace(#[trigger] s[j])
}

/// Scanning `s` left to right: the finished words and the word in progress.
pub open spec fn word_scan(s: Seq<char>) -> (Seq<Seq<char>>, Seq<char>)
    decreases s.len(),
{
    if s.len() == 0 {
        (Seq::empty(), Seq::empty())
    } else {
        let (done, cur) = word_scan(s.drop_last());
        if spec_is_whitespace(s.last()) {
            if cur.len() > 0 {
                (done.push(cur), Seq::empty())
            } else {
                (done, Seq::empty())
            }
        } else {
            (done, cur.push(s.last()))
        }
    }
}

/// The maximal runs of non-whitespace characters of `s`, in order
/// (`str::split_whitespace`).
pub open spec fn spec_words(s: Seq<char>) -> Seq<Seq<char>> {
    let (done, cur) = word_scan(s);
    if cur.len() > 0 {
        done.push(cur)
    } else {
        done
    }
}

proof fn lemma_visible_push(s: Seq<char>, c: char)
    ensures
        visible(s.push(c)) == if spec_is_whitespace(c) {
            visible(s)
        } else {
            visible(s).push(c)
        },
{
    reveal(Seq::filter);
    assert(s.push(c).drop_last() == s);
}

proof fn lemma_visible_add(a: Seq<char>, b: Seq<char>)
    ensures
        visible(a + b) == visible(a) + visible(b),
{
    Seq::filter_distributes_over_add(a, b, |c: char| not_whitespace(c));
}

proof fn lemma_visible_blank_free(s: Seq<char>)
    requires
        blank_free(s),
    ensures
        visible(s) == s,
    decreases s.len(),
{
    reveal(Seq::filter);
    if s.len() > 0 {
        lemma_visible_blank_free(s.drop_last());
        lemma_visible_push(s.drop_last(), s.last());
        assert(s.drop_last().push(s.last()) == s);
    }
}

proof fn lemma_visible_space()
    ensures
        visible(seq![' ']) == Seq::<char>::empty(),
{
    lemma_visible_push(Seq::empty(), ' ');
    reveal(Seq::filter);
    assert(Seq::<char>::empty().push(' ') == seq![' ']);
}

proof fn lemma_word_scan(s: Seq<char>)
    ensures
        ({
            let (done, cur) = word_scan(s);
            &&& done.flatten() + cur == visible(s)
            &&& forall|i: int| 0 <= i < done.len() ==> (#[trigger] done[i]).len() > 0 && blank_free(done[i])
            &&& blank_free(cur)
        }),
    decreases s.len(),
{
    if s.len() == 0 {
        reveal(Seq::filter);
    } else {
        let p = s.drop_last();
        lemma_word_scan(p);
        assert(p.push(s.last()) == s);
        lemma_visible_push(p, s.last());
        let (done, cur) = word_scan(p);
        if spec_is_whitespace(s.last()) {
            if cur.len() > 0 {
                done.lemma_flatten_push(cur);
            }
        } else {
            assert(done.flatten() + cur.push(s.last()) == (done.flatten() + cur).push(s.last()));
        }
    }
}

/// Splitting into words loses no visible character and invents none, and
/// every word is a non-empty run without whitespace.
pub proof fn lemma_words_keep_visible_text(s: Seq<char>)
    ensures
        spec_words(s).flatten() == visible(s),
        forall|i: int|
            0 <= i < spec_words(s).len() ==> (#[trigger] spec_words(s)[i]).len() > 0 && blank_free(
                spec_words(s)[i],
            ),
{
    lemma_word_scan(s);
    let (done, cur) = word_scan(s);
    if cur.len() > 0 {
        done.lemma_flatten_push(cur);
    }
}

/// The whitespace-separated words of `text`.
pub fn split_words(text: &str) -> (words: Vec<String>)
    ensures
        words@.map_values(|w: String| w@) == spec_words(text@),
{
    let chars = chars_of(text);
    let mut done: Vec<String> = Vec::new();
    let mut cur = String::new();
    let mut cur_empty = true;
    for i in 0..chars.len()
        invariant
            chars@ == text@,
            (done@.map_values(|w: String| w@), cur@) == word_scan(chars@.take(i as int)),
            cur_empty == (cur@.len() == 0),
    {
        let c = chars[i];
        let ghost before = done@;
        assert(chars@.take(i + 1).drop_last() == chars@.take(i as int));
        if is_whitespace(c) {
            if !cur_empty {
                done.push(cur);
                cur = String::new();
                cur_empty = true;
                assert(done@.map_values(|w: String| w@) == before.map_values(|w: String| w@).push(
                    word_scan(chars@.take(i as int)).1,
                ));
            }
        } else {
            push_char(&mut cur, c);
            cur_empty = false;
        }
    }
    assert(chars@.take(chars@.len() as int) == text@);
    if !cur_empty {
        let ghost before = done@;
        done.push(cur);
        assert(done@.map_values(|w: String| w@) == before.map_values(|w: String| w@).push(
            word_scan(text@).1,
        ));
    }
    done
}


/// `s` followed by `extra` more columns still fits in `max` columns.
pub open spec fn fits(s: Seq<char>, extra: int, max: int) -> bool {
    display_width(s) + extra <= max
}

/// Hard-break the characters of an over-long word into the line in
/// progress, starting a fresh (one-space) line whenever two more columns
/// would not fit.
pub open spec fn break_word(
    lines: Seq<Seq<char>>,
    cur: Seq<char>,
    chars: Seq<char>,
    max: int,
) -> (Seq<Seq<char>>, Seq<char>)
    decreases chars.len(),
{
    if chars.len() == 0 {
        (lines, cur)
    } else {
        let (l, c) = break_word(lines, cur, chars.drop_last(), max);
        if fits(c, 2, max) {
            (l, c.push(chars.last()))
        } else {
            (l.push(c), seq![' ', chars.last()])
        }
    }
}

/// Place one word: a line that cannot take it (with its separating space)
/// is closed first; the word goes in whole when it fits, else hard-breaks.
pub open spec fn place_word(st: (Seq<Seq<char>>, Seq<char>), word: Seq<char>, max: int) -> (
    Seq<Seq<char>>,
    Seq<char>,
) {
    let (lines, cur) = st;
    let sep: int = if cur.len() > 1 {
        1
    } else {
        0
    };
    let (l1, c1) = if !fits(cur, sep + display_width(word), max) && cur.len() > 1 {
        (lines.push(cur), seq![' '])
    } else {
        (lines, cur)
    };
    let c2 = if c1.len() > 1 {
        c1.push(' ')
    } else {
        c1
    };
    if fits(c2, display_width(word) as int, max) {
        (l1, c2 + word)
    } else {
        break_word(l1, c2, word, max)
    }
}

/// The closed lines and the line in progress after placing `words`.
pub open spec fn place_words(words: Seq<Seq<char>>, max: int) -> (Seq<Seq<char>>, Seq<char>)
    decreases words.len(),
{
    if words.len() == 0 {
        (Seq::empty(), seq![' '])
    } else {
        place_word(place_words(words.drop_last(), max), words.last(), max)
    }
}

/// The columns a footer line may use: the pane width (at least 12) less
/// `reserve`, but never under 6.
pub open spec fn spec_footer_max(width: u16, reserve: u16) -> int {
    let w: int = if width < 12 {
        12
    } else {
        width as int
    };
    let m: int = if w > reserve {
        w - reserve
    } else {
        0
    };
    if m < 6 {
        6
    } else {
        m
    }
}

/// The lines of a wrapped footer message: every word placed, the line in
/// progress kept when it holds text or when it would be the only line.
pub open spec fn spec_footer_lines(text: Seq<char>, width: u16, reserve: u16) -> Seq<Seq<char>> {
    let (l, c) = place_words(spec_words(text), spec_footer_max(width, reserve));
    if c.len() > 1 || l.len() == 0 {
        l.push(c)
    } else {
        l
    }
}

pub open spec fn starts_with_space(s: Seq<char>) -> bool {
    s.len() >= 1 && s[0] == ' '
}

pub open spec fn wrap_state_ok(st: (Seq<Seq<char>>, Seq<char>)) -> bool {
    &&& starts_with_space(st.1)
    &&& forall|i: int| 0 <= i < st.0.len() ==> starts_with_space(#[trigger] st.0[i])
}

proof fn lemma_break_word(lines: Seq<Seq<char>>, cur: Seq<char>, chars: Seq<char>, max: int)
    requires
        wrap_state_ok((lines, cur)),
        blank_free(chars),
    ensures
        wrap_state_ok(break_word(lines, cur, chars, max)),
        ({
            let (l, c) = break_word(lines, cur, chars, max);
            visible(l.flatten() + c) == visible(lines.flatten() + cur) + chars
        }),
    decreases chars.len(),
{
    if chars.len() == 0 {
    } else {
        let p = chars.drop_last();
        assert forall|j: int| 0 <= j < p.len() implies !spec_is_whitespace(#[trigger] p[j]) by {
            assert(p[j] == chars[j]);
        }
        lemma_break_word(lines, cur, p, max);
        let (l, c) = break_word(lines, cur, p, max);
        let ch = chars.last();
        assert(!spec_is_whitespace(ch));
        assert(p.push(ch) == chars);
        let base = visible(lines.flatten() + cur);
        if fits(c, 2, max) {
            assert(l.flatten() + c.push(ch) == (l.flatten() + c).push(ch));
            lemma_visible_push(l.flatten() + c, ch);
        } else {
            l.lemma_flatten_push(c);
            assert(l.push(c).flatten() + seq![' ', ch] == ((l.flatten() + c) + seq![' ']).push(
                ch,
            ));
            lemma_visible_push((l.flatten() + c) + seq![' '], ch);
            lemma_visible_add(l.flatten() + c, seq![' ']);
            lemma_visible_space();
            assert(visible(l.flatten() + c) + Seq::<char>::empty() == visible(l.flatten() + c));
        }
    }
}

proof fn lemma_break_word_grows(lines: Seq<Seq<char>>, cur: Seq<char>, chars: Seq<char>, max: int)
    requires
        cur.len() >= 1,
    ensures
        chars.len() > 0 ==> break_word(lines, cur, chars, max).1.len() >= 2,
        break_word(lines, cur, chars, max).1.len() >= 1,
    decreases chars.len(),
{
    if chars.len() > 0 {
        lemma_break_word_grows(lines, cur, chars.drop_last(), max);
    }
}

proof fn lemma_place_word_has_text(st: (Seq<Seq<char>>, Seq<char>), word: Seq<char>, max: int)
    requires
        st.1.len() >= 1,
        word.len() >= 1,
    ensures
        place_word(st, word, max).1.len() >= 2,
{
    let (lines, cur) = st;
    let sep: int = if cur.len() > 1 {
        1
    } else {
        0
    };
    let (l1, c1) = if !fits(cur, sep + display_width(word), max) && cur.len() > 1 {
        (lines.push(cur), seq![' '])
    } else {
        (lines, cur)
    };
    let c2 = if c1.len() > 1 {
        c1.push(' ')
    } else {
        c1
    };
    lemma_break_word_grows(l1, c2, word, max);
}

proof fn lemma_place_word(st: (Seq<Seq<char>>, Seq<char>), word: Seq<char>, max: int)
    requires
        wrap_state_ok(st),
        blank_free(word),
    ensures
        wrap_state_ok(place_word(st, word, max)),
        ({
            let (l, c) = place_word(st, word, max);
            visible(l.flatten() + c) == visible(st.0.flatten() + st.1) + word
        }),
{
    let (lines, cur) = st;
    let sep: int = if cur.len() > 1 {
        1
    } else {
        0
    };
    let (l1, c1) = if !fits(cur, sep + display_width(word), max) && cur.len() > 1 {
        (lines.push(cur), seq![' '])
    } else {
        (lines, cur)
    };
    let base = visible(lines.flatten() + cur);
    lemma_visible_space();
    if !fits(cur, sep + display_width(word), max) && cur.len() > 1 {
        lines.lemma_flatten_push(cur);
        lemma_visible_add(lines.flatten() + cur, seq![' ']);
        assert(base + Seq::<char>::empty() == base);
    }
    assert(visible(l1.flatten() + c1) == base);
    assert(wrap_state_ok((l1, c1)));
    let c2 = if c1.len() > 1 {
        c1.push(' ')
    } else {
        c1
    };
    if c1.len() > 1 {
        assert(l1.flatten() + c1.push(' ') == (l1.flatten() + c1).push(' '));
        lemma_visible_push(l1.flatten() + c1, ' ');
    }
    assert(visible(l1.flatten() + c2) == base);
    assert(c2[0] == ' ');
    if fits(c2, display_width(word) as int, max) {
        assert(l1.flatten() + (c2 + word) == (l1.flatten() + c2) + word);
        lemma_visible_add(l1.flatten() + c2, word);
        lemma_visible_blank_free(word);
        assert((c2 + word)[0] == ' ');
    } else {
        lemma_break_word(l1, c2, word, max);
    }
}

proof fn lemma_place_words(words: Seq<Seq<char>>, max: int)
    requires
        forall|i: int| 0 <= i < words.len() ==> blank_free(#[trigger] words[i]),
    ensures
        wrap_state_ok(place_words(words, max)),
        ({
            let (l, c) = place_words(words, max);
            visible(l.flatten() + c) == words.flatten()
        }),
    decreases words.len(),
{
    if words.len() == 0 {
        reveal(Seq::filter);
        assert(Seq::<Seq<char>>::empty().flatten() + seq![' '] == seq![' ']);
        lemma_visible_space();
    } else {
        let p = words.drop_last();
        assert forall|i: int| 0 <= i < p.len() implies blank_free(#[trigger] p[i]) by {
            assert(p[i] == words[i]);
        }
        lemma_place_words(p, max);
        lemma_place_word(place_words(p, max), words.last(), max);
        assert(p.push(words.last()) == words);
        p.lemma_flatten_push(words.last());
    }
}

/// A wrapped footer is never empty (footers size themselves from its
/// length), every line starts with the one-space indent, and the lines
/// hold exactly the message's visible characters, in order: no word is
/// lost, even one that had to hard-break.
pub proof fn lemma_footer_lines_keep_message(text: Seq<char>, width: u16, reserve: u16)
    ensures
        spec_footer_lines(text, width, reserve).len() >= 1,
        forall|i: int|
            0 <= i < spec_footer_lines(text, width, reserve).len() ==> starts_with_space(
                #[trigger] spec_footer_lines(text, width, reserve)[i],
            ),
        visible(spec_footer_lines(text, width, reserve).flatten()) == visible(text),
{
    let words = spec_words(text);
    let max = spec_footer_max(width, reserve);
    lemma_words_keep_visible_text(text);
    lemma_place_words(words, max);
    let (l, c) = place_words(words, max);
    if c.len() > 1 || l.len() == 0 {
        l.lemma_flatten_push(c);
        let r = l.push(c);
        assert forall|i: int| 0 <= i < r.len() implies starts_with_space(#[trigger] r[i]) by {
            if i < l.len() {
                assert(r[i] == l[i]);
            }
        }
    } else {
        assert(c == seq![' ']);
        lemma_visible_add(l.flatten(), c);
        lemma_visible_space();
        assert(visible(l.flatten()) + Seq::<char>::empty() == visible(l.flatten()));
    }
}

/// `W(s) + extra <= max`, computed without overflow.
fn fits_exec(s: &String, extra: u128, max: usize) -> (b: bool)
    requires
        extra <= 0x1_0000_0000_0000_0000,
    ensures
        b == fits(s@, extra as int, max as int),
{
    let w = span_width(s.as_str());
    (w as u128) + extra <= (max as u128)
}

/// Hard-break `word` into `cur`, closing lines as they fill.
fn break_word_exec(lines: &mut Vec<String>, cur: &mut String, word: &String, max: usize)
    ensures
        (final(lines)@.map_values(|l: String| l@), final(cur)@) == break_word(
            old(lines)@.map_values(|l: String| l@),
            old(cur)@,
            word@,
            max as int,
        ),
{
    let chars = chars_of(word.as_str());
    let ghost l0 = lines@.map_values(|l: String| l@);
    let ghost c0 = cur@;
    for i in 0..chars.len()
        invariant
            chars@ == word@,
            (lines@.map_values(|l: String| l@), cur@) == break_word(
                l0,
                c0,
                chars@.take(i as int),
                max as int,
            ),
    {
        assert(chars@.take(i + 1).drop_last() == chars@.take(i as int));
        assert(chars@.take(i + 1).last() == chars@[i as int]);
        if !fits_exec(cur, 2, max) {
            let ghost before = lines@;
            let mut fresh = String::new();
            push_char(&mut fresh, ' ');
            let mut done = fresh;
            std::mem::swap(cur, &mut done);
            lines.push(done);
            assert(lines@.map_values(|l: String| l@) == before.map_values(|l: String| l@).push(
                done@,
            ));
        }
        push_char(cur, chars[i]);
    }
    assert(chars@.take(chars@.len() as int) == word@);
}

/// Word-wrap a one-style footer message to the pane width: one leading
/// space per line, `reserve` columns kept clear at the right edge, words
/// longer than a line hard-broken. Never returns an empty vector.
pub fn wrap_footer_message(text: &str, width: u16, reserve: u16) -> (lines: Vec<String>)
    ensures
        lines@.map_values(|l: String| l@) == spec_footer_lines(text@, width, reserve),
{
    let w: usize = if width < 12 { 12 } else { width as usize };
    let max: usize = w.saturating_sub(reserve as usize);
    let max: usize = if max < 6 { 6 } else { max };
    let words = split_words(text);
    proof {
        lemma_words_keep_visible_text(text@);
    }
    let ghost wv = words@.map_values(|w: String| w@);
    let mut lines: Vec<String> = Vec::new();
    let mut cur = String::new();
    push_char(&mut cur, ' ');
    let mut has_text = false;
    assert(Seq::<char>::empty().push(' ') == seq![' ']);
    for i in 0..words.len()
        invariant
            wv == words@.map_values(|w: String| w@),
            max as int == spec_footer_max(width, reserve),
            (lines@.map_values(|l: String| l@), cur@) == place_words(
                wv.take(i as int),
                max as int,
            ),
            has_text == (cur@.len() > 1),
            wv == spec_words(text@),
    {
        let word = &words[i];
        proof {
            lemma_words_keep_visible_text(text@);
            assert(wv[i as int] == spec_words(text@)[i as int]);
            assert forall|j: int| 0 <= j < wv.take(i as int).len() implies blank_free(
                #[trigger] wv.take(i as int)[j],
            ) by {
                assert(wv.take(i as int)[j] == spec_words(text@)[j]);
            }
            lemma_place_words(wv.take(i as int), max as int);
            lemma_place_word_has_text(
                (lines@.map_values(|l: String| l@), cur@),
                word@,
                max as int,
            );
        }
        assert(wv.take(i + 1).drop_last() == wv.take(i as int));
        assert(wv.take(i + 1).last() == word@);
        let ww = span_width(word.as_str());
        let sep: u128 = if has_text { 1 } else { 0 };
        if !fits_exec(&cur, sep + ww as u128, max) && has_text {
            let ghost before = lines@;
            let mut fresh = String::new();
            push_char(&mut fresh, ' ');
            let mut done = fresh;
            std::mem::swap(&mut cur, &mut done);
            lines.push(done);
            has_text = false;
            assert(lines@.map_values(|l: String| l@) == before.map_values(|l: String| l@).push(
                done@,
            ));
            assert(cur@ == seq![' ']);
        }
        if has_text {
            push_char(&mut cur, ' ');
        }
        if fits_exec(&cur, ww as u128, max) {
            cur.append(word.as_str());
        } else {
            break_word_exec(&mut lines, &mut cur, word, max);
        }
        has_text = true;
    }
    assert(wv.take(wv.len() as int) == wv);
    assert(wv == spec_words(text@));
    if has_text || lines.len() == 0 {
        let ghost before = lines@;
        lines.push(cur);
        assert(lines@.map_values(|l: String| l@) == before.map_values(|l: String| l@).push(
            cur@,
        ));
    }
    lines
}


/// Scanning from the end of `s`: how many trailing characters to keep
/// when `k` are kept so far. The scan stops at the first character whose
/// addition would leave no column for the leading ellipsis.
pub open spec fn tail_keep_from(s: Seq<char>, max: int, k: nat) -> nat
    decreases s.len() - k,
{
    if k >= s.len() {
        s.len()
    } else if display_width(s.subrange(s.len() - k - 1, s.len() as int)) + 1 > max {
        k
    } else {
        tail_keep_from(s, max, k + 1)
    }
}

/// `input` when it fits in `max` columns; else an ellipsis followed by the
/// longest tail the end-first scan keeps (shell-style: the cursor end
/// stays visible).
pub open spec fn spec_input_tail(input: Seq<char>, max: int) -> Seq<char> {
    if display_width(input) <= max {
        input
    } else {
        let k = tail_keep_from(input, max, 0);
        seq!['…'] + input.subrange(input.len() - k, input.len() as int)
    }
}

proof fn lemma_tail_keep_bounds(s: Seq<char>, max: int, k: nat)
    requires
        k <= s.len(),
    ensures
        k <= tail_keep_from(s, max, k) <= s.len(),
    decreases s.len() - k,
{
    if k < s.len() && display_width(s.subrange(s.len() - k - 1, s.len() as int)) + 1 <= max {
        lemma_tail_keep_bounds(s, max, k + 1);
    }
}

/// Keep the tail of a typed input so the cursor end stays visible when the
/// text outgrows the prompt line.
pub fn input_tail(input: &str, max: usize) -> (out: String)
    ensures
        out@ == spec_input_tail(input@, max as int),
{
    if span_width(input) <= max {
        return String::from_str(input);
    }
    let n = input.unicode_len();
    let mut k: usize = 0;
    while k < n
        invariant
            n == input@.len(),
            k <= n,
            tail_keep_from(input@, max as int, 0) == tail_keep_from(input@, max as int, k as nat),
        ensures
            tail_keep_from(input@, max as int, 0) == k,
        decreases n - k,
    {
        let candidate = input.substring_char(n - k - 1, n);
        let w = span_width(candidate);
        if w >= max {
            break;
        }
        k = k + 1;
    }
    proof {
        lemma_tail_keep_bounds(input@, max as int, k as nat);
    }
    let mut out = String::new();
    push_char(&mut out, '…');
    out.append(input.substring_char(n - k, n));
    assert(seq!['…'] == Seq::<char>::empty().push('…'));
    out
}

/// Scanning from the start of `s`: how many leading characters to keep
/// when `k` are kept so far, leaving one column for the trailing ellipsis.
pub open spec fn head_keep_from(s: Seq<char>, max: int, k: nat) -> nat
    decreases s.len() - k,
{
    if k >= s.len() {
        s.len()
    } else if display_width(s.take((k + 1) as int)) + 1 > max {
        k
    } else {
        head_keep_from(s, max, k + 1)
    }
}

/// `s` when it fits in `max` columns; empty when not even an ellipsis
/// would fit beside a character; else the longest head the start-first
/// scan keeps, ending in `…`.
pub open spec fn spec_truncate_to(s: Seq<char>, max: int) -> Seq<char> {
    if display_width(s) <= max {
        s
    } else if max < 2 {
        Seq::empty()
    } else {
        s.take(head_keep_from(s, max, 0) as int).push('…')
    }
}

proof fn lemma_head_keep_bounds(s: Seq<char>, max: int, k: nat)
    requires
        k <= s.len(),
    ensures
        k <= head_keep_from(s, max, k) <= s.len(),
    decreases s.len() - k,
{
    if k < s.len() && display_width(s.take((k + 1) as int)) + 1 <= max {
        lemma_head_keep_bounds(s, max, k + 1);
    }
}

/// Cut `s` down to at most `max` display columns, ending in `…` when
/// trimmed; empty when even the ellipsis would not fit.
pub fn truncate_to(s: String, max: usize) -> (out: String)
    ensures
        out@ == spec_truncate_to(s@, max as int),
{
    if span_width(s.as_str()) <= max {
        return s;
    }
    if max < 2 {
        return String::new();
    }
    let text = s.as_str();
    let n = text.unicode_len();
    let mut k: usize = 0;
    while k < n
        invariant
            n == s@.len(),
            text@ == s@,
            k <= n,
            head_keep_from(s@, max as int, 0) == head_keep_from(s@, max as int, k as nat),
        ensures
            head_keep_from(s@, max as int, 0) == k,
        decreases n - k,
    {
        let candidate = text.substring_char(0, k + 1);
        assert(s@.subrange(0, k + 1) == s@.take(k + 1));
        let w = span_width(candidate);
        if w >= max {
            break;
        }
        k = k + 1;
    }
    proof {
        lemma_head_keep_bounds(s@, max as int, k as nat);
    }
    let mut out = String::new();
    out.append(text.substring_char(0, k));
    push_char(&mut out, '…');
    assert(s@.subrange(0, k as int) == s@.take(k as int));
    out
}

/// A tail-kept input is the input itself, or an ellipsis followed by a
/// suffix of the input; a non-empty kept suffix leaves a column for the
/// ellipsis.
pub proof fn lemma_input_tail_keeps_the_end(input: Seq<char>, max: int)
    ensures
        spec_input_tail(input, max) == input || ({
            let k = (spec_input_tail(input, max).len() - 1) as int;
            &&& spec_input_tail(input, max)[0] == '…'
            &&& 0 <= k <= input.len()
            &&& spec_input_tail(input, max).drop_first() == input.subrange(
                input.len() - k,
                input.len() as int,
            )
            &&& k > 0 ==> display_width(input.subrange(input.len() - k, input.len() as int)) + 1
                <= max
        }),
{
    if display_width(input) > max {
        lemma_tail_keep_bounds(input, max, 0);
        lemma_tail_keep_last_fits(input, max, 0);
        let k = tail_keep_from(input, max, 0);
        let out = spec_input_tail(input, max);
        assert(out.drop_first() == input.subrange(input.len() - k, input.len() as int));
    }
}

proof fn lemma_tail_keep_last_fits(s: Seq<char>, max: int, k: nat)
    requires
        k <= s.len(),
        k > 0 ==> display_width(s.subrange(s.len() - k, s.len() as int)) + 1 <= max,
    ensures
        tail_keep_from(s, max, k) > 0 ==> display_width(
            s.subrange(s.len() - tail_keep_from(s, max, k), s.len() as int),
        ) + 1 <= max,
    decreases s.len() - k,
{
    if k < s.len() && display_width(s.subrange(s.len() - k - 1, s.len() as int)) + 1 <= max {
        lemma_tail_keep_last_fits(s, max, k + 1);
    }
}

/// A truncated string is the string itself, empty, or a prefix of it
/// followed by `…`; a non-empty kept prefix leaves a column for the
/// ellipsis.
pub proof fn lemma_truncate_keeps_the_start(s: Seq<char>, max: int)
    ensures
        spec_truncate_to(s, max) == s || spec_truncate_to(s, max).len() == 0 || ({
            let k = (spec_truncate_to(s, max).len() - 1) as int;
            &&& spec_truncate_to(s, max).last() == '…'
            &&& 0 <= k <= s.len()
            &&& spec_truncate_to(s, max).drop_last() == s.take(k)
            &&& k > 0 ==> display_width(s.take(k)) + 1 <= max
        }),
{
    if display_width(s) > max && max >= 2 {
        lemma_head_keep_bounds(s, max, 0);
        lemma_head_keep_last_fits(s, max, 0);
    }
}

proof fn lemma_head_keep_last_fits(s: Seq<char>, max: int, k: nat)
    requires
        k <= s.len(),
        k > 0 ==> display_width(s.take(k as int)) + 1 <= max,
    ensures
        head_keep_from(s, max, k) > 0 ==> display_width(s.take(head_keep_from(s, max, k) as int))
            + 1 <= max,
    decreases s.len() - k,
{
    if k < s.len() && display_width(s.take((k + 1) as int)) + 1 <= max {
        lemma_head_keep_last_fits(s, max, k + 1);
    }
}

} // verus!
