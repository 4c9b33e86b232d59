//! OCR results: their data types, and the reading of tesseract's TSV output
//! into lines of words with bounding boxes.

use vstd::prelude::*;
use crate::text::{
    chars_of, join, lines, next_line, parse_i32, parse_i32_range, push_char, split, split_ranges,
    string_from_chars, trim, trim_end, trim_range, trim_start,
};

verus! {

/// The colour of one pixel.
#[derive(Debug, Clone, Copy, Default, PartialEq, Eq, Structural)]
pub struct PixelColor {
    pub r: u8,
    pub g: u8,
    pub b: u8,
}

/// A bounding box in pixels; `right` and `bottom` are exclusive edges.
#[derive(Debug, Clone, PartialEq, Eq, Structural)]
pub struct OcrRect {
    pub left: i32,
    pub top: i32,
    pub right: i32,
    pub bottom: i32,
}

/// Integer division by two rounding towards zero, as `/` does on `i32`.
pub open spec fn half(x: int) -> int {
    if x >= 0 {
        x / 2
    } else {
        -((-x) / 2)
    }
}

/// Whether the edge sums of `rect` fit in `i32`, so that its center can be
/// computed.
pub open spec fn center_fits(rect: OcrRect) -> bool {
    i32::MIN <= rect.left + rect.right <= i32::MAX && i32::MIN <= rect.top + rect.bottom
        <= i32::MAX
}

/// The center of `rect`.
pub open spec fn spec_center(rect: OcrRect) -> (int, int) {
    (half(rect.left + rect.right), half(rect.top + rect.bottom))
}

impl OcrRect {
    /// The center point of the box.
    pub fn center(&self) -> (c: (i32, i32))
        requires
            center_fits(*self),
        ensures
            c.0 == spec_center(*self).0,
            c.1 == spec_center(*self).1,
    {
        ((self.left + self.right) / 2, (self.top + self.bottom) / 2)
    }

    /// Whether the edge sums fit in `i32`, which `center` needs.
    pub fn center_fits(&self) -> (b: bool)
        ensures
            b == center_fits(*self),
    {
        let h = self.left as i64 + self.right as i64;
        let v = self.top as i64 + self.bottom as i64;
        i32::MIN as i64 <= h && h <= i32::MAX as i64 && i32::MIN as i64 <= v && v
            <= i32::MAX as i64
    }
}

/// A word that OCR recognised, with its box.
#[derive(Debug, Clone)]
pub struct OcrWord {
    pub text: String,
    pub rect: OcrRect,
}

/// A line of text: its words joined by spaces, the box around them, and
/// the words themselves.
#[derive(Debug, Clone)]
pub struct OcrLine {
    pub text: String,
    pub rect: OcrRect,
    pub words: Vec<OcrWord>,
}

/// The text OCR found on a screen: its lines, all their text one line per
/// row, and which line looks selected.
#[derive(Debug, Clone)]
pub struct OcrResult {
    pub lines: Vec<OcrLine>,
    pub all_text: String,
    pub selected_index: Option<usize>,
}

/// A word as a mathematical value.
pub struct WordView {
    pub text: Seq<char>,
    pub rect: OcrRect,
}

/// A line as a mathematical value.
pub struct LineView {
    pub text: Seq<char>,
    pub rect: OcrRect,
    pub words: Seq<WordView>,
}

impl View for OcrWord {
    type V = WordView;

    open spec fn view(&self) -> WordView {
        WordView { text: self.text@, rect: self.rect }
    }
}

impl View for OcrLine {
    type V = LineView;

    open spec fn view(&self) -> LineView {
        LineView { text: self.text@, rect: self.rect, words: self.words@.map_values(|w: OcrWord| w@) }
    }
}

/// The observer that observes nothing: connected, with no pixels.
pub struct NullObserver;

impl NullObserver {
    /// Always connected.
    pub fn is_connected(&self) -> (b: bool)
        ensures
            b,
    {
        true
    }

    /// Never any pixel.
    pub fn pixel_at(&self, x: u32, y: u32) -> (p: Option<PixelColor>)
        ensures
            p is None,
    {
        None
    }
}

/// One word row of tesseract's TSV output: the block, paragraph and line
/// numbers that key its line, its box, and its text.
pub struct TsvRecord {
    pub key: (i32, i32, i32),
    pub left: i32,
    pub top: i32,
    pub width: i32,
    pub height: i32,
    pub text: Seq<char>,
}

/// Field `i` read as an `i32`, or `0` when it is not one.
pub open spec fn field_or_zero(parts: Seq<Seq<char>>, i: int) -> i32 {
    match parse_i32(parts[i]) {
        Some(v) => v,
        None => 0,
    }
}

/// The word record of one TSV row, if the row is one: a trimmed row of at
/// least twelve tab-separated fields whose first field (the level) reads as
/// `5`. The text is everything from the twelfth field on.
pub open spec fn tsv_record(row: Seq<char>) -> Option<TsvRecord> {
    let t = trim(row);
    let parts = split(t, '\t');
    if t.len() == 0 || parts.len() < 12 {
        None
    } else if parse_i32(parts[0]) != Some(5i32) {
        None
    } else {
        Some(
            TsvRecord {
                key: (field_or_zero(parts, 2), field_or_zero(parts, 3), field_or_zero(parts, 4)),
                left: field_or_zero(parts, 6),
                top: field_or_zero(parts, 7),
                width: field_or_zero(parts, 8),
                height: field_or_zero(parts, 9),
                text: join(parts.skip(11), seq!['\t']),
            },
        )
    }
}

/// A record read from a row, with its text as characters.
struct ExecRecord {
    key: (i32, i32, i32),
    left: i32,
    top: i32,
    width: i32,
    height: i32,
    text: Vec<char>,
}

fn field_value(v: &Vec<char>, ranges: &Vec<(usize, usize)>, i: usize) -> (r: i32)
    requires
        i < ranges@.len(),
        ranges@[i as int].0 <= ranges@[i as int].1 <= v@.len(),
    ensures
        r == (match parse_i32(v@.subrange(ranges@[i as int].0 as int, ranges@[i as int].1 as int)) {
            Some(x) => x,
            None => 0,
        }),
{
    match parse_i32_range(v, ranges[i].0, ranges[i].1) {
        Some(x) => x,
        None => 0,
    }
}

fn row_record(v: &Vec<char>, lo: usize, hi: usize) -> (r: Option<ExecRecord>)
    requires
        lo <= hi <= v.len(),
    ensures
        match (r, tsv_record(v@.subrange(lo as int, hi as int))) {
            (None, None) => true,
            (Some(e), Some(m)) => e.key == m.key && e.left == m.left && e.top == m.top && e.width
                == m.width && e.height == m.height && e.text@ == m.text,
            _ => false,
        },
{
    let ghost row = v@.subrange(lo as int, hi as int);
    let (a, b) = trim_range(v, lo, hi);
    let ghost t = trim(row);
    assert(v@.subrange(a as int, b as int) == t);
    if a == b {
        return None;
    }
    let ranges = split_ranges(v, a, b, '\t');
    let ghost parts = split(t, '\t');
    if ranges.len() < 12 {
        return None;
    }
    assert(v@.subrange(ranges@[0].0 as int, ranges@[0].1 as int) == parts[0]);
    match parse_i32_range(v, ranges[0].0, ranges[0].1) {
        Some(level) => {
            if level != 5 {
                return None;
            }
        },
        None => {
            return None;
        },
    }
    let k0 = field_value(v, &ranges, 2);
    let k1 = field_value(v, &ranges, 3);
    let k2 = field_value(v, &ranges, 4);
    let left = field_value(v, &ranges, 6);
    let top = field_value(v, &ranges, 7);
    let width = field_value(v, &ranges, 8);
    let height = field_value(v, &ranges, 9);
    assert(v@.subrange(ranges@[2].0 as int, ranges@[2].1 as int) == parts[2]);
    assert(v@.subrange(ranges@[3].0 as int, ranges@[3].1 as int) == parts[3]);
    assert(v@.subrange(ranges@[4].0 as int, ranges@[4].1 as int) == parts[4]);
    assert(v@.subrange(ranges@[6].0 as int, ranges@[6].1 as int) == parts[6]);
    assert(v@.subrange(ranges@[7].0 as int, ranges@[7].1 as int) == parts[7]);
    assert(v@.subrange(ranges@[8].0 as int, ranges@[8].1 as int) == parts[8]);
    assert(v@.subrange(ranges@[9].0 as int, ranges@[9].1 as int) == parts[9]);
    // The text: the fields from the twelfth on, joined by tabs.
    let mut text: Vec<char> = Vec::new();
    let mut i: usize = 11;
    let n = ranges.len();
    while i < n
        invariant
            11 <= i <= n == ranges@.len() == parts.len(),
            forall|j: int|
                0 <= j < n ==> (#[trigger] ranges@[j]).0 <= ranges@[j].1 <= v@.len()
                    && v@.subrange(ranges@[j].0 as int, ranges@[j].1 as int) == parts[j],
            text@ == join(parts.subrange(11, i as int), seq!['\t']),
        decreases n - i,
    {
        let ghost before = text@;
        if i > 11 {
            text.push('\t');
        }
        let (s, e) = ranges[i];
        let mut k = s;
        while k < e
            invariant
                s <= k <= e <= v@.len(),
                text@ == (if i > 11 {
                    before.push('\t')
                } else {
                    before
                }) + v@.subrange(s as int, k as int),
            decreases e - k,
        {
            text.push(v[k]);
            assert(v@.subrange(s as int, k + 1) == v@.subrange(s as int, k as int).push(v@[k as int]));
            k = k + 1;
        }
        proof {
            let ps = parts.subrange(11, i + 1);
            assert(ps.drop_last() == parts.subrange(11, i as int));
            assert(ps.last() == parts[i as int]);
            if i == 11 {
                assert(ps.len() == 1);
                assert(join(parts.subrange(11, 11), seq!['\t']) == Seq::<char>::empty());
                assert(text@ == parts[11]);
            } else {
                assert(text@ == before + seq!['\t'] + parts[i as int]);
            }
        }
        i = i + 1;
    }
    assert(parts.subrange(11, n as int) == parts.skip(11));
    Some(ExecRecord { key: (k0, k1, k2), left, top, width, height, text })
}

/// The smallest of `s` (`0` for none), as `Iterator::min` with a default.
pub open spec fn min_of(s: Seq<i32>) -> i32
    decreases s.len(),
{
    if s.len() == 0 {
        0
    } else if s.len() == 1 {
        s[0]
    } else if s.last() < min_of(s.drop_last()) {
        s.last()
    } else {
        min_of(s.drop_last())
    }
}

/// The largest of `s` (`0` for none), as `Iterator::max` with a default.
pub open spec fn max_of(s: Seq<i32>) -> i32
    decreases s.len(),
{
    if s.len() == 0 {
        0
    } else if s.len() == 1 {
        s[0]
    } else if s.last() > max_of(s.drop_last()) {
        s.last()
    } else {
        max_of(s.drop_last())
    }
}

/// The word of a record: its box runs from `left`/`top` over
/// `width`/`height`.
pub open spec fn record_word(r: TsvRecord) -> WordView {
    WordView {
        text: r.text,
        rect: OcrRect {
            left: r.left,
            top: r.top,
            right: (r.left + r.width) as i32,
            bottom: (r.top + r.height) as i32,
        },
    }
}

/// Whether the far edges of a record's box fit in `i32`.
pub open spec fn record_fits(r: TsvRecord) -> bool {
    i32::MIN <= r.left + r.width <= i32::MAX && i32::MIN <= r.top + r.height <= i32::MAX
}

/// The line made of `ws`: their texts joined by spaces, and the smallest
/// box around them.
pub open spec fn line_of(ws: Seq<WordView>) -> LineView {
    LineView {
        text: join(ws.map_values(|w: WordView| w.text), seq![' ']),
        rect: OcrRect {
            left: min_of(ws.map_values(|w: WordView| w.rect.left)),
            top: min_of(ws.map_values(|w: WordView| w.rect.top)),
            right: max_of(ws.map_values(|w: WordView| w.rect.right)),
            bottom: max_of(ws.map_values(|w: WordView| w.rect.bottom)),
        },
        words: ws,
    }
}

/// Closes the current line: appends the line made of `ws`, if any words.
pub open spec fn flush(lines: Seq<LineView>, ws: Seq<WordView>) -> Seq<LineView> {
    if ws.len() == 0 {
        lines
    } else {
        lines.push(line_of(ws))
    }
}

/// Where reading the rows stands: the finished lines, the words of the
/// current line, and the key of the last word read.
pub struct ParseState {
    pub lines: Seq<LineView>,
    pub words: Seq<WordView>,
    pub prev: Option<(i32, i32, i32)>,
}

/// Reads one row. A word whose key differs from the previous word's closes
/// the current line; a word with blank text is then dropped; any other word
/// joins the current line.
pub open spec fn step(st: ParseState, row: Seq<char>) -> ParseState {
    match tsv_record(row) {
        None => st,
        Some(r) => {
            let new_line = match st.prev {
                Some(p) => p != r.key,
                None => false,
            };
            let lines = if new_line {
                flush(st.lines, st.words)
            } else {
                st.lines
            };
            let words = if new_line {
                Seq::<WordView>::empty()
            } else {
                st.words
            };
            if trim(r.text).len() == 0 {
                ParseState { lines, words, prev: st.prev }
            } else {
                ParseState { lines, words: words.push(record_word(r)), prev: Some(r.key) }
            }
        },
    }
}

/// The state after reading `rows` in order.
pub open spec fn run(rows: Seq<Seq<char>>) -> ParseState
    decreases rows.len(),
{
    if rows.len() == 0 {
        ParseState { lines: Seq::empty(), words: Seq::empty(), prev: None }
    } else {
        step(run(rows.drop_last()), rows.last())
    }
}

/// The rows of a TSV text after its header line.
pub open spec fn tsv_rows(tsv: Seq<char>) -> Seq<Seq<char>> {
    let ls = lines(tsv);
    if ls.len() == 0 {
        ls
    } else {
        ls.drop_first()
    }
}

/// The lines that a TSV text reads as.
pub open spec fn spec_parse_tsv_lines(tsv: Seq<char>) -> Seq<LineView> {
    let st = run(tsv_rows(tsv));
    flush(st.lines, st.words)
}

/// Whether every word kept from `rows` has a box whose far edges fit in
/// `i32`.
pub open spec fn rows_fit(rows: Seq<Seq<char>>) -> bool {
    forall|i: int|
        0 <= i < rows.len() ==> match tsv_record(#[trigger] rows[i]) {
            Some(r) => trim(r.text).len() > 0 ==> record_fits(r),
            None => true,
        }
}

/// Whether every word kept from a TSV text has a box whose far edges fit
/// in `i32`.
pub open spec fn tsv_boxes_fit(tsv: Seq<char>) -> bool {
    rows_fit(tsv_rows(tsv))
}

/// The views of some lines.
pub open spec fn line_views(ls: Seq<OcrLine>) -> Seq<LineView> {
    ls.map_values(|l: OcrLine| l@)
}

/// The views of some words.
pub open spec fn word_views(ws: Seq<OcrWord>) -> Seq<WordView> {
    ws.map_values(|w: OcrWord| w@)
}

fn is_blank(v: &Vec<char>) -> (b: bool)
    ensures
        b == (trim(v@).len() == 0),
{
    let (a, e) = trim_range(v, 0, v.len());
    assert(v@.subrange(0, v@.len() as int) == v@);
    a == e
}

fn line_text(words: &Vec<OcrWord>) -> (s: String)
    ensures
        s@ == join(word_views(words@).map_values(|w: WordView| w.text), seq![' ']),
{
    let ghost texts = word_views(words@).map_values(|w: WordView| w.text);
    let mut s = String::new();
    let n = words.len();
    let mut i: usize = 0;
    while i < n
        invariant
            0 <= i <= n == words@.len() == texts.len(),
            texts == word_views(words@).map_values(|w: WordView| w.text),
            s@ == join(texts.take(i as int), seq![' ']),
        decreases n - i,
    {
        let ghost before = s@;
        if i > 0 {
            push_char(&mut s, ' ');
        }
        crate::text::push_seq(&mut s, words[i].text.as_str());
        proof {
            let t = texts.take(i + 1);
            assert(t.drop_last() == texts.take(i as int));
            assert(t.last() == words@[i as int].text@);
            if i == 0 {
                assert(texts.take(0) == Seq::<Seq<char>>::empty());
                assert(t.len() == 1);
            } else {
                assert(s@ == before + seq![' '] + t.last());
            }
        }
        i = i + 1;
    }
    assert(texts.take(n as int) == texts);
    s
}

/// Which edge of a box a bound is taken over.
#[derive(Clone, Copy)]
enum Edge {
    Left,
    Top,
    Right,
    Bottom,
}

spec fn edge_of(e: Edge, r: OcrRect) -> i32 {
    match e {
        Edge::Left => r.left,
        Edge::Top => r.top,
        Edge::Right => r.right,
        Edge::Bottom => r.bottom,
    }
}

spec fn is_max_edge(e: Edge) -> bool {
    e is Right || e is Bottom
}

fn edge_value(e: Edge, r: &OcrRect) -> (x: i32)
    ensures
        x == edge_of(e, *r),
{
    match e {
        Edge::Left => r.left,
        Edge::Top => r.top,
        Edge::Right => r.right,
        Edge::Bottom => r.bottom,
    }
}

fn edge_bound(words: &Vec<OcrWord>, e: Edge) -> (b: i32)
    ensures
        b == (if is_max_edge(e) {
            max_of(word_views(words@).map_values(|w: WordView| edge_of(e, w.rect)))
        } else {
            min_of(word_views(words@).map_values(|w: WordView| edge_of(e, w.rect)))
        }),
{
    let ghost xs = word_views(words@).map_values(|w: WordView| edge_of(e, w.rect));
    let n = words.len();
    if n == 0 {
        return 0;
    }
    let mut acc = edge_value(e, &words[0].rect);
    assert(xs.take(1).len() == 1);
    let mut i: usize = 1;
    while i < n
        invariant
            1 <= i <= n == words@.len() == xs.len(),
            xs == word_views(words@).map_values(|w: WordView| edge_of(e, w.rect)),
            acc == (if is_max_edge(e) {
                max_of(xs.take(i as int))
            } else {
                min_of(xs.take(i as int))
            }),
        decreases n - i,
    {
        let x = edge_value(e, &words[i].rect);
        assert(xs.take(i + 1).drop_last() == xs.take(i as int));
        assert(xs.take(i + 1).last() == x);
        let is_max = match e {
            Edge::Right | Edge::Bottom => true,
            _ => false,
        };
        if is_max {
            if x > acc {
                acc = x;
            }
        } else if x < acc {
            acc = x;
        }
        i = i + 1;
    }
    assert(xs.take(n as int) == xs);
    acc
}

proof fn lemma_views_push_word(ws: Seq<OcrWord>, w: OcrWord)
    ensures
        word_views(ws.push(w)) == word_views(ws).push(w@),
{
    assert(word_views(ws.push(w)) =~= word_views(ws).push(w@));
}

proof fn lemma_views_push_line(ls: Seq<OcrLine>, l: OcrLine)
    ensures
        line_views(ls.push(l)) == line_views(ls).push(l@),
{
    assert(line_views(ls.push(l)) =~= line_views(ls).push(l@));
}

/// Closes the current line: moves `words` into a new line at the end of
/// `lines`, unless there are none.
fn flush_line(lines: &mut Vec<OcrLine>, words: &mut Vec<OcrWord>)
    ensures
        line_views(final(lines)@) == flush(line_views(old(lines)@), word_views(old(words)@)),
        final(words)@.len() == 0,
{
    if words.len() == 0 {
        return;
    }
    let text = line_text(words);
    let left = edge_bound(words, Edge::Left);
    let top = edge_bound(words, Edge::Top);
    let right = edge_bound(words, Edge::Right);
    let bottom = edge_bound(words, Edge::Bottom);
    let ghost ws = word_views(words@);
    assert(ws.map_values(|w: WordView| edge_of(Edge::Left, w.rect)) == ws.map_values(
        |w: WordView| w.rect.left,
    ));
    assert(ws.map_values(|w: WordView| edge_of(Edge::Top, w.rect)) == ws.map_values(
        |w: WordView| w.rect.top,
    ));
    assert(ws.map_values(|w: WordView| edge_of(Edge::Right, w.rect)) == ws.map_values(
        |w: WordView| w.rect.right,
    ));
    assert(ws.map_values(|w: WordView| edge_of(Edge::Bottom, w.rect)) == ws.map_values(
        |w: WordView| w.rect.bottom,
    ));
    let mut taken: Vec<OcrWord> = Vec::new();
    std::mem::swap(&mut taken, words);
    let line = OcrLine { text, rect: OcrRect { left, top, right, bottom }, words: taken };
    assert(line@.words == ws);
    proof {
        lemma_views_push_line(lines@, line);
    }
    lines.push(line);
}

/// Reads tesseract's TSV output (`get_tsv_text`): after the header row,
/// each word row joins the current line while its block, paragraph and line
/// numbers stay the same, and a change of them starts a new line.
pub fn parse_tsv_lines(tsv: &str) -> (result: Vec<OcrLine>)
    requires
        tsv_boxes_fit(tsv@),
    ensures
        line_views(result@) == spec_parse_tsv_lines(tsv@),
{
    let v = chars_of(tsv);
    let len = v.len();
    let mut done: Vec<OcrLine> = Vec::new();
    let mut words: Vec<OcrWord> = Vec::new();
    let mut prev: Option<(i32, i32, i32)> = None;
    let ghost rows = tsv_rows(v@);
    let ghost mut processed: Seq<Seq<char>> = Seq::empty();
    let mut pos: usize = 0;
    assert(v@.skip(0) == v@);
    if len > 0 {
        let (_a, _b, next) = next_line(&v, 0);
        pos = next;
    } else {
        assert(lines(v@) == Seq::<Seq<char>>::empty());
    }
    assert(rows == processed + lines(v@.skip(pos as int)));
    while pos < len
        invariant
            pos <= len == v@.len(),
            v@ == tsv@,
            rows == tsv_rows(v@),
            rows_fit(rows),
            rows == processed + lines(v@.skip(pos as int)),
            line_views(done@) == run(processed).lines,
            word_views(words@) == run(processed).words,
            prev == run(processed).prev,
        decreases len - pos,
    {
        let (a, b, next) = next_line(&v, pos);
        let ghost row = v@.subrange(a as int, b as int);
        let ghost st = run(processed);
        let ghost after = processed.push(row);
        assert(after.drop_last() == processed);
        assert(rows == after + lines(v@.skip(next as int)));
        assert(rows[processed.len() as int] == row);
        match row_record(&v, a, b) {
            None => {},
            Some(r) => {
                let new_line = match prev {
                    Some(p) => p.0 != r.key.0 || p.1 != r.key.1 || p.2 != r.key.2,
                    None => false,
                };
                if new_line {
                    flush_line(&mut done, &mut words);
                    assert(word_views(words@) == Seq::<WordView>::empty());
                }
                if !is_blank(&r.text) {
                    let w = OcrWord {
                        text: string_from_chars(&r.text),
                        rect: OcrRect {
                            left: r.left,
                            top: r.top,
                            right: r.left + r.width,
                            bottom: r.top + r.height,
                        },
                    };
                    proof {
                        lemma_views_push_word(words@, w);
                    }
                    words.push(w);
                    prev = Some(r.key);
                }
            },
        }
        proof {
            processed = after;
        }
        pos = next;
    }
    assert(v@.skip(len as int).len() == 0);
    assert(lines(v@.skip(len as int)) == Seq::<Seq<char>>::empty());
    assert(rows == processed);
    flush_line(&mut done, &mut words);
    done
}

/// Whether every word kept from a TSV text has a box whose far edges fit
/// in `i32`, as `parse_tsv_lines` needs.
pub fn tsv_fits(tsv: &str) -> (b: bool)
    ensures
        b == tsv_boxes_fit(tsv@),
{
    let v = chars_of(tsv);
    let len = v.len();
    let ghost rows = tsv_rows(v@);
    let ghost mut processed: Seq<Seq<char>> = Seq::empty();
    let mut pos: usize = 0;
    assert(v@.skip(0) == v@);
    if len > 0 {
        let (_a, _b, next) = next_line(&v, 0);
        pos = next;
    } else {
        assert(lines(v@) == Seq::<Seq<char>>::empty());
    }
    assert(rows == processed + lines(v@.skip(pos as int)));
    while pos < len
        invariant
            pos <= len == v@.len(),
            v@ == tsv@,
            rows == tsv_rows(v@),
            rows == processed + lines(v@.skip(pos as int)),
            rows_fit(processed),
        decreases len - pos,
    {
        let (a, b, next) = next_line(&v, pos);
        let ghost row = v@.subrange(a as int, b as int);
        let ghost after = processed.push(row);
        assert(rows == after + lines(v@.skip(next as int)));
        assert(rows[processed.len() as int] == row);
        match row_record(&v, a, b) {
            None => {},
            Some(r) => {
                if !is_blank(&r.text) {
                    let h = r.left as i64 + r.width as i64;
                    let t = r.top as i64 + r.height as i64;
                    if !(i32::MIN as i64 <= h && h <= i32::MAX as i64 && i32::MIN as i64 <= t && t
                        <= i32::MAX as i64) {
                        assert(!rows_fit(rows));
                        return false;
                    }
                }
            },
        }
        assert forall|i: int| 0 <= i < after.len() implies match tsv_record(#[trigger] after[i]) {
            Some(r) => trim(r.text).len() > 0 ==> record_fits(r),
            None => true,
        } by {
            if i < processed.len() {
                assert(after[i] == processed[i]);
            }
        }
        proof {
            processed = after;
        }
        pos = next;
    }
    assert(v@.skip(len as int).len() == 0);
    assert(lines(v@.skip(len as int)) == Seq::<Seq<char>>::empty());
    assert(rows == processed);
    true
}

/// The text of all lines, one per row: each line's text is appended, after
/// a newline unless nothing has been written yet.
pub open spec fn spec_all_text(ls: Seq<LineView>) -> Seq<char>
    decreases ls.len(),
{
    if ls.len() == 0 {
        Seq::empty()
    } else {
        let acc = spec_all_text(ls.drop_last());
        if acc.len() > 0 {
            acc + seq!['\n'] + ls.last().text
        } else {
            acc + ls.last().text
        }
    }
}

/// The text of all `lines`, one per row.
pub fn all_text_of(lines: &Vec<OcrLine>) -> (s: String)
    ensures
        s@ == spec_all_text(line_views(lines@)),
{
    let ghost ls = line_views(lines@);
    let mut s = String::new();
    let n = lines.len();
    let mut i: usize = 0;
    while i < n
        invariant
            0 <= i <= n == lines@.len() == ls.len(),
            ls == line_views(lines@),
            s@ == spec_all_text(ls.take(i as int)),
        decreases n - i,
    {
        assert(ls.take(i + 1).drop_last() == ls.take(i as int));
        assert(ls.take(i + 1).last() == lines@[i as int]@);
        if !s.as_str().is_empty() {
            push_char(&mut s, '\n');
        }
        crate::text::push_seq(&mut s, lines[i].text.as_str());
        i = i + 1;
    }
    assert(ls.take(n as int) == ls);
    s
}

/// The result of reading a screen: `lines`, their text, and the line
/// chosen as selected.
pub fn ocr_result(lines: Vec<OcrLine>, selected_index: Option<usize>) -> (r: OcrResult)
    ensures
        r.lines@ == lines@,
        r.all_text@ == spec_all_text(line_views(lines@)),
        r.selected_index == selected_index,
{
    let all_text = all_text_of(&lines);
    OcrResult { lines, all_text, selected_index }
}

/// Where the brightness of a line is sampled: the center of its box, when
/// that lies inside a `width` by `height` image.
pub open spec fn spec_luminance_probe(rect: OcrRect, width: u32, height: u32) -> Option<(u32, u32)> {
    let (cx, cy) = spec_center(rect);
    if cx < 0 || cy < 0 || cx >= width || cy >= height {
        None
    } else {
        Some((cx as u32, cy as u32))
    }
}

/// The pixel at which the brightness of the line boxed by `rect` is
/// sampled, if inside the image.
pub fn luminance_probe(rect: &OcrRect, width: u32, height: u32) -> (p: Option<(u32, u32)>)
    requires
        center_fits(*rect),
    ensures
        p == spec_luminance_probe(*rect, width, height),
{
    let (cx, cy) = rect.center();
    if cx < 0 || cy < 0 || cx as u32 >= width || cy as u32 >= height {
        None
    } else {
        Some((cx as u32, cy as u32))
    }
}

/// The text of the selected line, when the index names a line.
pub fn selected_line_text(lines: &Vec<OcrLine>, selected: Option<usize>) -> (t: Option<String>)
    ensures
        match selected {
            Some(i) => if i < lines@.len() {
                t matches Some(s) && s@ == lines@[i as int].text@
            } else {
                t is None
            },
            None => t is None,
        },
{
    match selected {
        Some(i) => if i < lines.len() {
            Some(string_from_chars(&chars_of(lines[i].text.as_str())))
        } else {
            None
        },
        None => None,
    }
}

/// A line as reading produces it: at least one word, none of them blank,
/// its text their texts joined by spaces, and its box the smallest box
/// around all of them.
pub open spec fn well_formed_line(l: LineView) -> bool {
    &&& l.words.len() > 0
    &&& forall|i: int| 0 <= i < l.words.len() ==> trim(#[trigger] l.words[i].text).len() > 0
    &&& l.text == join(l.words.map_values(|w: WordView| w.text), seq![' '])
    &&& forall|i: int|
        0 <= i < l.words.len() ==> l.rect.left <= (#[trigger] l.words[i]).rect.left
            && l.rect.top <= l.words[i].rect.top && l.words[i].rect.right <= l.rect.right
            && l.words[i].rect.bottom <= l.rect.bottom
    &&& exists|i: int| 0 <= i < l.words.len() && (#[trigger] l.words[i]).rect.left == l.rect.left
    &&& exists|i: int| 0 <= i < l.words.len() && (#[trigger] l.words[i]).rect.top == l.rect.top
    &&& exists|i: int| 0 <= i < l.words.len() && (#[trigger] l.words[i]).rect.right == l.rect.right
    &&& exists|i: int|
        0 <= i < l.words.len() && (#[trigger] l.words[i]).rect.bottom == l.rect.bottom
}

proof fn lemma_min_of(s: Seq<i32>)
    requires
        s.len() > 0,
    ensures
        forall|i: int| 0 <= i < s.len() ==> min_of(s) <= #[trigger] s[i],
        exists|i: int| 0 <= i < s.len() && min_of(s) == #[trigger] s[i],
    decreases s.len(),
{
    if s.len() > 1 {
        lemma_min_of(s.drop_last());
        let j = choose|j: int| 0 <= j < s.len() - 1 && min_of(s.drop_last()) == #[trigger] s.drop_last()[j];
        assert forall|i: int| 0 <= i < s.len() implies min_of(s) <= #[trigger] s[i] by {
            if i < s.len() - 1 {
                assert(s[i] == s.drop_last()[i]);
            }
        }
        if s.last() < min_of(s.drop_last()) {
            assert(min_of(s) == s[s.len() - 1]);
        } else {
            assert(min_of(s) == s[j]);
        }
    } else {
        assert(min_of(s) == s[0]);
    }
}

proof fn lemma_max_of(s: Seq<i32>)
    requires
        s.len() > 0,
    ensures
        forall|i: int| 0 <= i < s.len() ==> max_of(s) >= #[trigger] s[i],
        exists|i: int| 0 <= i < s.len() && max_of(s) == #[trigger] s[i],
    decreases s.len(),
{
    if s.len() > 1 {
        lemma_max_of(s.drop_last());
        let j = choose|j: int| 0 <= j < s.len() - 1 && max_of(s.drop_last()) == #[trigger] s.drop_last()[j];
        assert forall|i: int| 0 <= i < s.len() implies max_of(s) >= #[trigger] s[i] by {
            if i < s.len() - 1 {
                assert(s[i] == s.drop_last()[i]);
            }
        }
        if s.last() > max_of(s.drop_last()) {
            assert(max_of(s) == s[s.len() - 1]);
        } else {
            assert(max_of(s) == s[j]);
        }
    } else {
        assert(max_of(s) == s[0]);
    }
}

proof fn lemma_line_of_well_formed(ws: Seq<WordView>)
    requires
        ws.len() > 0,
        forall|i: int| 0 <= i < ws.len() ==> trim(#[trigger] ws[i].text).len() > 0,
    ensures
        well_formed_line(line_of(ws)),
{
    let l = line_of(ws);
    let ls = ws.map_values(|w: WordView| w.rect.left);
    let ts = ws.map_values(|w: WordView| w.rect.top);
    let rs = ws.map_values(|w: WordView| w.rect.right);
    let bs = ws.map_values(|w: WordView| w.rect.bottom);
    lemma_min_of(ls);
    lemma_min_of(ts);
    lemma_max_of(rs);
    lemma_max_of(bs);
    assert forall|i: int| 0 <= i < ws.len() implies l.rect.left <= (#[trigger] l.words[i]).rect.left
        && l.rect.top <= l.words[i].rect.top && l.words[i].rect.right <= l.rect.right
        && l.words[i].rect.bottom <= l.rect.bottom by {
        assert(ls[i] == ws[i].rect.left);
        assert(ts[i] == ws[i].rect.top);
        assert(rs[i] == ws[i].rect.right);
        assert(bs[i] == ws[i].rect.bottom);
    }
    let a = choose|i: int| 0 <= i < ls.len() && min_of(ls) == #[trigger] ls[i];
    assert(l.words[a].rect.left == l.rect.left);
    let b = choose|i: int| 0 <= i < ts.len() && min_of(ts) == #[trigger] ts[i];
    assert(l.words[b].rect.top == l.rect.top);
    let c = choose|i: int| 0 <= i < rs.len() && max_of(rs) == #[trigger] rs[i];
    assert(l.words[c].rect.right == l.rect.right);
    let d = choose|i: int| 0 <= i < bs.len() && max_of(bs) == #[trigger] bs[i];
    assert(l.words[d].rect.bottom == l.rect.bottom);
}

/// The reading state keeps finished lines well formed and current words
/// non-blank.
proof fn lemma_run_well_formed(rows: Seq<Seq<char>>)
    ensures
        forall|i: int|
            0 <= i < run(rows).lines.len() ==> well_formed_line(#[trigger] run(rows).lines[i]),
        forall|i: int|
            0 <= i < run(rows).words.len() ==> trim(#[trigger] run(rows).words[i].text).len() > 0,
    decreases rows.len(),
{
    if rows.len() > 0 {
        lemma_run_well_formed(rows.drop_last());
        let st = run(rows.drop_last());
        if st.words.len() > 0 {
            lemma_line_of_well_formed(st.words);
        }
        let st2 = run(rows);
        assert forall|i: int| 0 <= i < st2.lines.len() implies well_formed_line(
            #[trigger] st2.lines[i],
        ) by {
            if i < st.lines.len() {
                assert(st2.lines[i] == st.lines[i]);
            }
        }
        match tsv_record(rows.last()) {
            None => {},
            Some(r) => {
                assert forall|i: int| 0 <= i < st2.words.len() implies trim(
                    #[trigger] st2.words[i].text,
                ).len() > 0 by {
                    if i < st.words.len() && st2.words.len() > i && st2.words[i] == st.words[i] {
                    }
                }
            },
        }
    }
}

/// Every line that reading a TSV text yields has at least one non-blank
/// word, the text of its words joined by spaces, and as its box the
/// smallest box around its words.
pub proof fn parsed_lines_well_formed(tsv: Seq<char>)
    ensures
        forall|i: int|
            0 <= i < spec_parse_tsv_lines(tsv).len() ==> well_formed_line(
                #[trigger] spec_parse_tsv_lines(tsv)[i],
            ),
{
    let st = run(tsv_rows(tsv));
    lemma_run_well_formed(tsv_rows(tsv));
    if st.words.len() > 0 {
        lemma_line_of_well_formed(st.words);
    }
    let out = spec_parse_tsv_lines(tsv);
    assert forall|i: int| 0 <= i < out.len() implies well_formed_line(#[trigger] out[i]) by {
        if i < st.lines.len() {
            assert(out[i] == st.lines[i]);
        }
    }
}

proof fn lemma_join_nonempty(parts: Seq<Seq<char>>, sep: Seq<char>)
    requires
        parts.len() > 0,
        parts.last().len() > 0,
    ensures
        join(parts, sep).len() > 0,
{
}

proof fn lemma_well_formed_text_nonempty(l: LineView)
    requires
        well_formed_line(l),
    ensures
        l.text.len() > 0,
{
    let texts = l.words.map_values(|w: WordView| w.text);
    let last = l.words[l.words.len() - 1];
    assert(trim(last.text).len() > 0);
    if last.text.len() == 0 {
        assert(trim_start(last.text) == last.text);
        assert(trim_end(last.text) == last.text);
    }
    assert(texts.last() == last.text);
    lemma_join_nonempty(texts, seq![' ']);
}

proof fn lemma_all_text_is_join(ls: Seq<LineView>)
    requires
        forall|i: int| 0 <= i < ls.len() ==> (#[trigger] ls[i]).text.len() > 0,
    ensures
        spec_all_text(ls) == join(ls.map_values(|l: LineView| l.text), seq!['\n']),
    decreases ls.len(),
{
    if ls.len() > 0 {
        let rest = ls.drop_last();
        lemma_all_text_is_join(rest);
        let texts = ls.map_values(|l: LineView| l.text);
        assert(texts.drop_last() == rest.map_values(|l: LineView| l.text));
        if rest.len() > 0 {
            assert(rest[rest.len() - 1] == ls[rest.len() - 1]);
            lemma_join_nonempty(rest.map_values(|l: LineView| l.text), seq!['\n']);
        } else {
            assert(spec_all_text(rest) == Seq::<char>::empty());
            assert(Seq::<char>::empty() + ls.last().text == ls.last().text);
        }
    }
}

/// The text of a read screen holds its lines one per row: the line texts
/// joined by newlines.
pub proof fn all_text_is_one_line_per_row(tsv: Seq<char>)
    ensures
        spec_all_text(spec_parse_tsv_lines(tsv)) == join(
            spec_parse_tsv_lines(tsv).map_values(|l: LineView| l.text),
            seq!['\n'],
        ),
{
    let out = spec_parse_tsv_lines(tsv);
    parsed_lines_well_formed(tsv);
    assert forall|i: int| 0 <= i < out.len() implies (#[trigger] out[i]).text.len() > 0 by {
        lemma_well_formed_text_nonempty(out[i]);
    }
    lemma_all_text_is_join(out);
}

/// Field `i` of a TSV row (counting from zero, fields separated by tabs
/// after trimming the row) read as an `i32`, or `0`.
pub open spec fn row_field(row: Seq<char>, i: int) -> i32 {
    field_or_zero(split(trim(row), '\t'), i)
}

/// Where tesseract places a row: its block, paragraph and line numbers,
/// the third, fourth and fifth fields.
pub open spec fn row_place(row: Seq<char>) -> (i32, i32, i32) {
    (row_field(row, 2), row_field(row, 3), row_field(row, 4))
}

/// A word row whose text is not blank.
pub open spec fn is_word_row(row: Seq<char>) -> bool {
    tsv_record(row) matches Some(r) && trim(r.text).len() > 0
}

/// Two word rows read one after the other share a line exactly when
/// tesseract places them in the same block, paragraph and line. If the
/// places differ in any of the three numbers, the first word closes its
/// line and the second starts a new one of its own; if they agree, the
/// second word joins the first's line.
pub proof fn consecutive_words_share_a_line_iff_same_place(
    rows: Seq<Seq<char>>,
    a: Seq<char>,
    b: Seq<char>,
)
    requires
        is_word_row(a),
        is_word_row(b),
    ensures
        ({
            let before = run(rows.push(a));
            let after = run(rows.push(a).push(b));
            &&& before.words.len() > 0
            &&& before.words.last() == record_word(tsv_record(a).unwrap())
            &&& row_place(a) != row_place(b) ==> {
                &&& after.lines == before.lines.push(line_of(before.words))
                &&& after.words == seq![record_word(tsv_record(b).unwrap())]
            }
            &&& row_place(a) == row_place(b) ==> {
                &&& after.lines == before.lines
                &&& after.words == before.words.push(record_word(tsv_record(b).unwrap()))
            }
        }),
{
    assert(rows.push(a).drop_last() == rows);
    assert(rows.push(a).push(b).drop_last() == rows.push(a));
    let ra = tsv_record(a).unwrap();
    let rb = tsv_record(b).unwrap();
    assert(ra.key == row_place(a));
    assert(rb.key == row_place(b));
}

} // verus!
