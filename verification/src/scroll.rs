//! How far a panel that is taller than its area is scrolled.

use vstd::prelude::*;
use vstd::string::*;

verus! {

/// The widest area on which the widths of any line can be summed up in sixteen bits.
pub const MAX_WRAP_WIDTH: u16 = 16384;

/// The length of a line, in characters, whose width can be summed up in sixteen bits on any area. No
/// character is wider than three columns.
pub const MAX_LINE_CHARS: usize = 21845;

/// How many characters the spans of a line hold.
pub open spec fn char_count(spans: Seq<Seq<char>>) -> nat
    decreases spans.len(),
{
    if spans.len() == 0 {
        0
    } else {
        char_count(spans.drop_last()) + spans.last().len()
    }
}

/// Whether the widths of `lines`, wrapped to `width` columns, can be summed up in sixteen bits: the area
/// is narrow enough, or the lines are short enough.
pub open spec fn sums_fit(lines: Seq<Seq<Seq<char>>>, width: u16) -> bool {
    width <= MAX_WRAP_WIDTH || forall|i: int|
        0 <= i < lines.len() ==> char_count(#[trigger] lines[i]) <= MAX_LINE_CHARS
}

/// How many rows lines of spans take when they are wrapped, untrimmed, to `width` columns.
pub uninterp spec fn wrapped_line_count(lines: Seq<Seq<Seq<char>>>, width: u16) -> nat;

/// `ratatui::widgets::Paragraph::line_count`, on a paragraph of `lines` that wraps without trimming:
/// the number of rows depends on the texts of the spans and on the width, and on nothing else. On
/// what is left out, long lines on wide areas, its sums of column widths can exceed sixteen bits.
#[verifier::external_body]
fn paragraph_line_count(lines: &Vec<Vec<String>>, width: u16) -> (count: usize)
    requires
        sums_fit(lines.deep_view(), width),
    ensures
        count == wrapped_line_count(lines.deep_view(), width),
{
    let mut text = ratatui::text::Text::default();
    for spans in lines {
        let spans = spans.iter().map(|s| ratatui::text::Span::from(s.as_str()));
        text.lines.push(ratatui::text::Line::from(spans.collect::<Vec<_>>()));
    }
    let wrap = ratatui::widgets::Wrap { trim: false };
    ratatui::widgets::Paragraph::new(text).wrap(wrap).line_count(width)
}

/// How many rows are scrolled away so that the last of `line_count` rows stay on an area of `height`
/// rows.
pub open spec fn hidden_rows(line_count: nat, height: u16) -> nat {
    if height == 0 || line_count <= height {
        0
    } else if line_count - height <= u16::MAX {
        (line_count - height) as nat
    } else {
        u16::MAX as nat
    }
}

/// How many rows are scrolled away so that the last of `line_count` rows stay on an area of `height`
/// rows.
pub fn scroll_offset(line_count: usize, height: u16) -> (rows: u16)
    ensures
        rows == hidden_rows(line_count as nat, height),
{
    if height == 0 {
        0
    } else {
        let overflow: usize = line_count.saturating_sub(height as usize);
        if overflow <= 65535 {
            overflow as u16
        } else {
            65535
        }
    }
}

proof fn lemma_char_count_grows(spans: Seq<Seq<char>>, j: int)
    requires
        0 <= j <= spans.len(),
    ensures
        char_count(spans.take(j)) <= char_count(spans),
    decreases spans.len(),
{
    if j < spans.len() {
        lemma_char_count_grows(spans.drop_last(), j);
        assert(spans.drop_last().take(j) =~= spans.take(j));
    } else {
        assert(spans.take(j) =~= spans);
    }
}

fn is_short(spans: &Vec<String>) -> (short: bool)
    ensures
        short == (char_count(spans.deep_view()) <= MAX_LINE_CHARS),
{
    let ghost texts = spans.deep_view();
    let mut count: usize = 0;
    let mut j: usize = 0;
    while j < spans.len()
        invariant
            j <= spans@.len(),
            texts == spans.deep_view(),
            texts.len() == spans@.len(),
            count == char_count(texts.take(j as int)),
            count <= MAX_LINE_CHARS,
        decreases spans@.len() - j,
    {
        let len = spans[j].as_str().unicode_len();
        proof {
            assert(texts.take(j + 1).drop_last() =~= texts.take(j as int));
            assert(texts[j as int] == spans@[j as int]@);
            lemma_char_count_grows(texts, j + 1);
        }
        if len > MAX_LINE_CHARS - count {
            return false;
        }
        count += len;
        j += 1;
    }
    assert(texts.take(j as int) =~= texts);
    true
}

/// Whether the widths of `lines`, wrapped to `width` columns, can be summed up in sixteen bits.
pub fn can_wrap(lines: &Vec<Vec<String>>, width: u16) -> (yes: bool)
    ensures
        yes == sums_fit(lines.deep_view(), width),
{
    if width <= MAX_WRAP_WIDTH {
        return true;
    }
    let mut i: usize = 0;
    while i < lines.len()
        invariant
            i <= lines@.len(),
            lines.deep_view().len() == lines@.len(),
            width > MAX_WRAP_WIDTH,
            forall|k: int|
                0 <= k < i ==> char_count(#[trigger] lines.deep_view()[k]) <= MAX_LINE_CHARS,
        decreases lines@.len() - i,
    {
        assert(lines.deep_view()[i as int] == lines@[i as int].deep_view());
        if !is_short(&lines[i]) {
            return false;
        }
        i += 1;
    }
    true
}

/// How many rows of the wrapped `lines` are scrolled away on an area of `width` columns and `height`
/// rows.
pub fn panel_scroll(lines: &Vec<Vec<String>>, width: u16, height: u16) -> (rows: u16)
    requires
        height == 0 || sums_fit(lines.deep_view(), width),
    ensures
        rows == hidden_rows(wrapped_line_count(lines.deep_view(), width), height),
{
    if height == 0 {
        0
    } else {
        scroll_offset(paragraph_line_count(lines, width), height)
    }
}

/// As long as the rows fit, nothing is scrolled away; beyond that, what is left fills the area.
pub proof fn the_last_rows_stay(line_count: nat, height: u16)
    requires
        height > 0,
        line_count <= u16::MAX + height,
    ensures
        line_count <= height ==> hidden_rows(line_count, height) == 0,
        line_count > height ==> line_count - hidden_rows(line_count, height) == height,
{
}

} // verus!
