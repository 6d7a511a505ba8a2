//! Text primitives: white space, trimming, lines, decimal numerals, ordering.

use vstd::prelude::*;
use vstd::string::*;

verus! {

/// The text of an optional string.
pub open spec fn opt_text(text: Option<String>) -> Option<Seq<char>> {
    match text {
        Some(text) => Some(text@),
        None => None,
    }
}

/// The characters that carry the Unicode `White_Space` property.
pub open spec fn is_white_space(c: char) -> bool {
    ||| '\u{9}' <= c <= '\u{d}'
    ||| c == '\u{20}'
    ||| c == '\u{85}'
    ||| c == '\u{a0}'
    ||| c == '\u{1680}'
    ||| '\u{2000}' <= c <= '\u{200a}'
    ||| c == '\u{2028}'
    ||| c == '\u{2029}'
    ||| c == '\u{202f}'
    ||| c == '\u{205f}'
    ||| c == '\u{3000}'
}

/// `char::is_whitespace` tells whether a character has the Unicode `White_Space` property, which
/// `is_white_space` lists.
pub assume_specification[ char::is_whitespace ](c: char) -> (white: bool)
    ensures
        white == is_white_space(c),
;

/// `text` without its leading white space.
pub open spec fn trimmed_start(text: Seq<char>) -> Seq<char>
    decreases text.len(),
{
    if text.len() > 0 && is_white_space(text.first()) {
        trimmed_start(text.drop_first())
    } else {
        text
    }
}

/// `text` without its trailing white space.
pub open spec fn trimmed_end(text: Seq<char>) -> Seq<char>
    decreases text.len(),
{
    if text.len() > 0 && is_white_space(text.last()) {
        trimmed_end(text.drop_last())
    } else {
        text
    }
}

/// `text` without its leading and trailing white space.
pub open spec fn trimmed(text: Seq<char>) -> Seq<char> {
    trimmed_end(trimmed_start(text))
}

/// Whether `text` holds nothing but white space.
pub open spec fn is_blank(text: Seq<char>) -> bool {
    trimmed(text).len() == 0
}

/// The characters of `text`, in order.
pub fn chars_of(text: &str) -> (chars: Vec<char>)
    ensures
        chars@ == text@,
{
    let mut chars: Vec<char> = Vec::new();
    for c in iter: text.chars()
        invariant
            iter.seq() == text@,
            chars@ == text@.take(iter.index() as int),
    {
        chars.push(c);
    }
    chars
}

/// `text` without its leading and trailing white space.
pub fn trim(text: &str) -> (inner: &str)
    ensures
        inner@ == trimmed(text@),
{
    let chars = chars_of(text);
    let mut start: usize = 0;
    assert(text@.skip(0) == text@);
    while start < chars.len() && chars[start].is_whitespace()
        invariant
            start <= chars@.len(),
            chars@ == text@,
            trimmed_start(text@.skip(start as int)) == trimmed_start(text@),
        decreases chars@.len() - start,
    {
        assert(text@.skip(start as int).drop_first() == text@.skip(start + 1));
        start += 1;
    }
    let ghost rest = text@.skip(start as int);
    let mut end: usize = chars.len();
    assert(rest.take(end - start) == rest);
    while end > start && chars[end - 1].is_whitespace()
        invariant
            start <= end <= chars@.len(),
            chars@ == text@,
            rest == text@.skip(start as int),
            trimmed_end(rest.take(end - start)) == trimmed_end(rest),
        decreases end,
    {
        assert(rest.take(end - start).drop_last() == rest.take(end - start - 1));
        end -= 1;
    }
    assert(rest.take(end - start) == text@.subrange(start as int, end as int));
    text.substring_char(start, end)
}

/// How many characters stand before the first newline of `text`, or all of them.
pub open spec fn line_len(text: Seq<char>) -> nat
    decreases text.len(),
{
    if text.len() == 0 || text.first() == '\n' {
        0
    } else {
        1 + line_len(text.drop_first())
    }
}

/// `line` without one trailing carriage return.
pub open spec fn without_carriage_return(line: Seq<char>) -> Seq<char> {
    if line.len() > 0 && line.last() == '\r' {
        line.drop_last()
    } else {
        line
    }
}

/// The lines of `text`: each ends at a newline, or at a carriage return and a newline, and the last
/// one may go without. The terminators are left out.
pub open spec fn lines(text: Seq<char>) -> Seq<Seq<char>>
    decreases text.len(),
{
    let n = line_len(text) as int;
    if text.len() == 0 {
        Seq::empty()
    } else if n < text.len() {
        seq![without_carriage_return(text.take(n))] + lines(text.skip(n + 1))
    } else {
        seq![text]
    }
}

/// The first of `lines` that is not blank.
pub open spec fn first_non_blank(lines: Seq<Seq<char>>) -> Option<Seq<char>>
    decreases lines.len(),
{
    if lines.len() == 0 {
        None
    } else if !is_blank(lines.first()) {
        Some(lines.first())
    } else {
        first_non_blank(lines.drop_first())
    }
}

/// The first line of `text` that is not blank, trimmed; the trimmed text where every line is blank.
pub open spec fn headline(text: Seq<char>) -> Seq<char> {
    match first_non_blank(lines(text)) {
        Some(line) => trimmed(line),
        None => trimmed(text),
    }
}

proof fn lemma_line_len(text: Seq<char>, n: int)
    requires
        0 <= n <= text.len(),
        forall|i: int| 0 <= i < n ==> text[i] != '\n',
        n == text.len() || text[n] == '\n',
    ensures
        line_len(text) == n,
    decreases n,
{
    if n > 0 {
        assert forall|i: int| 0 <= i < n - 1 implies text.drop_first()[i] != '\n' by {
            assert(text.drop_first()[i] == text[i + 1]);
        }
        lemma_line_len(text.drop_first(), n - 1);
    }
}

/// A text is blank exactly when each of its characters is white space.
pub proof fn lemma_blank(text: Seq<char>)
    ensures
        is_blank(text) <==> forall|i: int| 0 <= i < text.len() ==> is_white_space(#[trigger] text[i]),
{
    lemma_trimmed_start(text);
    lemma_trimmed_end(trimmed_start(text));
    let rest = trimmed_start(text);
    if rest.len() > 0 {
        assert(!is_white_space(rest[0]));
    }
}

proof fn lemma_trimmed_start(text: Seq<char>)
    ensures
        trimmed_start(text).len() <= text.len(),
        trimmed_start(text) == text.skip(text.len() - trimmed_start(text).len()),
        trimmed_start(text).len() > 0 ==> !is_white_space(trimmed_start(text)[0]),
        forall|i: int|
            0 <= i < text.len() - trimmed_start(text).len() ==> is_white_space(#[trigger] text[i]),
    decreases text.len(),
{
    if text.len() > 0 && is_white_space(text.first()) {
        let rest = text.drop_first();
        lemma_trimmed_start(rest);
        let kept = trimmed_start(text).len();
        assert(rest.skip(rest.len() - kept) == text.skip(text.len() - kept));
        assert forall|i: int| 0 <= i < text.len() - kept implies is_white_space(
            #[trigger] text[i],
        ) by {
            if i > 0 {
                assert(rest[i - 1] == text[i]);
            }
        }
    } else {
        assert(text.skip(0) == text);
    }
}

proof fn lemma_trimmed_end(text: Seq<char>)
    ensures
        trimmed_end(text).len() == 0 <==> forall|i: int|
            0 <= i < text.len() ==> is_white_space(#[trigger] text[i]),
    decreases text.len(),
{
    if text.len() > 0 && is_white_space(text.last()) {
        lemma_trimmed_end(text.drop_last());
        let rest = text.drop_last();
        if trimmed_end(text).len() == 0 {
            assert forall|i: int| 0 <= i < text.len() implies is_white_space(#[trigger] text[i]) by {
                if i < text.len() - 1 {
                    assert(rest[i] == text[i]);
                }
            }
        }
        if forall|i: int| 0 <= i < text.len() ==> is_white_space(#[trigger] text[i]) {
            assert forall|i: int| 0 <= i < rest.len() implies is_white_space(#[trigger] rest[i]) by {
                assert(rest[i] == text[i]);
            }
        }
    } else if text.len() > 0 {
        assert(!is_white_space(text[text.len() - 1]));
    }
}

/// White space at the end of a text does not change what trimming leaves of it.
proof fn lemma_trimmed_drop_last(text: Seq<char>)
    requires
        text.len() > 0,
        is_white_space(text.last()),
    ensures
        trimmed(text) == trimmed(text.drop_last()),
    decreases text.len(),
{
    if text.len() == 1 {
        assert(trimmed_start(text.drop_first()) == text.drop_first());
        assert(text.drop_first() == text.drop_last());
    } else if is_white_space(text.first()) {
        assert(text.drop_first().drop_last() == text.drop_last().drop_first());
        assert(text.drop_last().first() == text.first());
        lemma_trimmed_drop_last(text.drop_first());
    } else {
        assert(text.drop_last().first() == text.first());
    }
}

/// The first line of `text` that is not blank, trimmed.
pub fn first_line(text: &str) -> (line: &str)
    ensures
        line@ == headline(text@),
{
    let chars = chars_of(text);
    let mut start: usize = 0;
    assert(text@.skip(0) == text@);
    while start < chars.len()
        invariant
            start <= chars@.len(),
            chars@ == text@,
            first_non_blank(lines(text@.skip(start as int))) == first_non_blank(lines(text@)),
        decreases chars@.len() - start,
    {
        let ghost rest = text@.skip(start as int);
        let mut end: usize = start;
        let mut blank = true;
        while end < chars.len() && chars[end] != '\n'
            invariant
                start <= end <= chars@.len(),
                chars@ == text@,
                rest == text@.skip(start as int),
                forall|i: int| start <= i < end ==> chars@[i] != '\n',
                blank <==> forall|i: int| start <= i < end ==> is_white_space(#[trigger] chars@[i]),
            decreases chars@.len() - end,
        {
            if !chars[end].is_whitespace() {
                blank = false;
            }
            end += 1;
        }
        let ghost n = end - start;
        let ghost line = rest.take(n);
        proof {
            lemma_line_len(rest, n);
            lemma_blank(line);
            assert(forall|i: int| 0 <= i < n ==> line[i] == chars@[start + i]);
            assert(blank <==> is_blank(line)) by {
                if is_blank(line) {
                    assert forall|i: int| start <= i < end implies is_white_space(
                        #[trigger] chars@[i],
                    ) by {
                        assert(is_white_space(line[i - start]));
                    }
                }
            }
            if n < rest.len() {
                let piece = without_carriage_return(line);
                if line.len() > 0 && line.last() == '\r' {
                    lemma_trimmed_drop_last(line);
                }
                assert(trimmed(piece) == trimmed(line));
                assert(lines(rest) == seq![piece] + lines(rest.skip(n + 1)));
                assert(lines(rest).first() == piece);
                assert(lines(rest).drop_first() == lines(rest.skip(n + 1)));
                assert(rest.skip(n + 1) == text@.skip(end + 1));
            } else {
                assert(line == rest);
                assert(lines(rest) == seq![rest]);
                assert(lines(rest).drop_first() == Seq::<Seq<char>>::empty());
                assert(lines(text@.skip(end as int)) == Seq::<Seq<char>>::empty());
            }
        }
        if !blank {
            assert(text@.subrange(start as int, end as int) == line);
            return trim(text.substring_char(start, end));
        }
        start = if end < chars.len() { end + 1 } else { end };
    }
    trim(text)
}

/// Whether two texts hold the same characters.
pub fn same_text(left: &str, right: &str) -> (same: bool)
    ensures
        same == (left@ == right@),
{
    left.to_owned() == right.to_owned()
}

/// Whether `text` is blank.
pub fn blank(text: &str) -> (yes: bool)
    ensures
        yes == is_blank(text@),
{
    trim(text).is_empty()
}

/// The first `count` characters of `text`, or all of them where there are fewer.
pub open spec fn prefix(text: Seq<char>, count: nat) -> Seq<char> {
    if count < text.len() {
        text.take(count as int)
    } else {
        text
    }
}

/// The first `count` characters of `text`.
pub fn take_chars(text: &str, count: usize) -> (head: &str)
    ensures
        head@ == prefix(text@, count as nat),
{
    if count < text.unicode_len() {
        assert(text@.subrange(0, count as int) == text@.take(count as int));
        text.substring_char(0, count)
    } else {
        text
    }
}

/// The decimal digit of `d`.
pub open spec fn digit(d: nat) -> char
    recommends
        d < 10,
{
    ('0' as u32 + d) as char
}

/// The decimal numeral of `n`.
pub open spec fn decimal_nat(n: nat) -> Seq<char>
    decreases n,
{
    if n < 10 {
        seq![digit(n)]
    } else {
        decimal_nat(n / 10).push(digit(n % 10))
    }
}

/// The decimal numeral of `n`, with a minus sign where it is negative.
pub open spec fn decimal(n: int) -> Seq<char> {
    if n < 0 {
        seq!['-'] + decimal_nat((-n) as nat)
    } else {
        decimal_nat(n as nat)
    }
}

fn digit_text(d: u64) -> (text: &'static str)
    requires
        d < 10,
    ensures
        text@ == seq![digit(d as nat)],
{
    proof {
        reveal_strlit("0");
        reveal_strlit("1");
        reveal_strlit("2");
        reveal_strlit("3");
        reveal_strlit("4");
        reveal_strlit("5");
        reveal_strlit("6");
        reveal_strlit("7");
        reveal_strlit("8");
        reveal_strlit("9");
    }
    match d {
        0 => "0",
        1 => "1",
        2 => "2",
        3 => "3",
        4 => "4",
        5 => "5",
        6 => "6",
        7 => "7",
        8 => "8",
        _ => "9",
    }
}

/// The decimal numeral of `n`.
pub fn unsigned_text(n: u64) -> (text: String)
    ensures
        text@ == decimal(n as int),
    decreases n,
{
    if n < 10 {
        digit_text(n).to_owned()
    } else {
        let mut text = unsigned_text(n / 10);
        text.append(digit_text(n % 10));
        assert(text@ == decimal_nat(n as nat));
        text
    }
}

/// The decimal numeral of `n`, with a minus sign where it is negative.
pub fn signed_text(n: i32) -> (text: String)
    ensures
        text@ == decimal(n as int),
{
    if n < 0 {
        proof {
            reveal_strlit("-");
        }
        let magnitude: u64 = (-(n as i64)) as u64;
        let mut text = "-".to_owned();
        text.append(unsigned_text(magnitude).as_str());
        text
    } else {
        unsigned_text(n as u64)
    }
}

/// Whether `left` comes before `right` in the order of code points, the first difference deciding
/// and a proper prefix coming first.
pub open spec fn text_before(left: Seq<char>, right: Seq<char>) -> bool
    decreases left.len(),
{
    if right.len() == 0 {
        false
    } else if left.len() == 0 {
        true
    } else if left.first() != right.first() {
        left.first() < right.first()
    } else {
        text_before(left.drop_first(), right.drop_first())
    }
}

/// Of two texts only one comes before the other, and one does unless they are the same.
pub proof fn texts_are_ordered(left: Seq<char>, right: Seq<char>)
    ensures
        text_before(left, right) ==> !text_before(right, left),
        left == right || text_before(left, right) || text_before(right, left),
    decreases left.len(),
{
    if left.len() == 0 || right.len() == 0 {
        if left.len() == right.len() {
            assert(left =~= right);
        }
    } else if left.first() == right.first() {
        texts_are_ordered(left.drop_first(), right.drop_first());
        if left.drop_first() == right.drop_first() {
            assert(left =~= seq![left.first()] + left.drop_first());
            assert(right =~= seq![right.first()] + right.drop_first());
        }
    }
}

/// What comes before a text comes before what that text comes before.
pub proof fn text_order_is_transitive(left: Seq<char>, middle: Seq<char>, right: Seq<char>)
    requires
        text_before(left, middle),
        text_before(middle, right),
    ensures
        text_before(left, right),
    decreases left.len(),
{
    if left.len() > 0 && left.first() == middle.first() && middle.first() == right.first() {
        text_order_is_transitive(left.drop_first(), middle.drop_first(), right.drop_first());
    }
}

/// Whether `left` comes before `right` in the order of code points.
pub fn comes_before(left: &str, right: &str) -> (before: bool)
    ensures
        before == text_before(left@, right@),
{
    let a = chars_of(left);
    let b = chars_of(right);
    let mut i: usize = 0;
    assert(left@.skip(0) == left@);
    assert(right@.skip(0) == right@);
    while i < a.len() && i < b.len() && a[i] == b[i]
        invariant
            a@ == left@,
            b@ == right@,
            i <= a@.len(),
            i <= b@.len(),
            text_before(left@.skip(i as int), right@.skip(i as int)) == text_before(left@, right@),
        decreases a@.len() - i,
    {
        assert(left@.skip(i as int).drop_first() == left@.skip(i + 1));
        assert(right@.skip(i as int).drop_first() == right@.skip(i + 1));
        i += 1;
    }
    if i == b.len() {
        false
    } else if i == a.len() {
        true
    } else {
        a[i] < b[i]
    }
}

proof fn lemma_trimmed_end_keeps(text: Seq<char>)
    ensures
        trimmed_end(text).len() <= text.len(),
        trimmed_end(text) == text.take(trimmed_end(text).len() as int),
        trimmed_end(text).len() > 0 ==> !is_white_space(trimmed_end(text).last()),
    decreases text.len(),
{
    if text.len() > 0 && is_white_space(text.last()) {
        let rest = text.drop_last();
        lemma_trimmed_end_keeps(rest);
        assert(rest.take(trimmed_end(rest).len() as int) =~= text.take(
            trimmed_end(rest).len() as int,
        ));
    } else {
        assert(text.take(text.len() as int) =~= text);
    }
}

/// What trimming leaves neither starts nor ends with white space, is part of the text, and is left by
/// trimming again.
pub proof fn trimming_is_thorough(text: Seq<char>)
    ensures
        trimmed(text).len() > 0 ==> !is_white_space(trimmed(text).first()) && !is_white_space(
            trimmed(text).last(),
        ),
        trimmed(trimmed(text)) == trimmed(text),
        forall|c: char| #[trigger] trimmed(text).contains(c) ==> text.contains(c),
{
    let rest = trimmed_start(text);
    let inner = trimmed(text);
    lemma_trimmed_start(text);
    lemma_trimmed_end_keeps(rest);
    if inner.len() > 0 {
        assert(inner[0] == rest[0]);
    }
    assert forall|c: char| #[trigger] inner.contains(c) implies text.contains(c) by {
        let i = choose|i: int| 0 <= i < inner.len() && inner[i] == c;
        assert(rest[i] == c);
        assert(text[text.len() - rest.len() + i] == c);
    }
}

proof fn lemma_line_len_bound(text: Seq<char>)
    ensures
        line_len(text) <= text.len(),
        forall|i: int| 0 <= i < line_len(text) ==> text[i] != '\n',
    decreases text.len(),
{
    if text.len() > 0 && text.first() != '\n' {
        let rest = text.drop_first();
        lemma_line_len_bound(rest);
        assert forall|i: int| 0 <= i < line_len(text) implies text[i] != '\n' by {
            if i > 0 {
                assert(rest[i - 1] == text[i]);
            }
        }
    }
}

proof fn lemma_lines(text: Seq<char>, k: int)
    requires
        0 <= k < lines(text).len(),
    ensures
        forall|c: char| #[trigger] lines(text)[k].contains(c) ==> text.contains(c) && c != '\n',
    decreases text.len(),
{
    let n = line_len(text) as int;
    lemma_line_len_bound(text);
    let line = lines(text)[k];
    if n < text.len() {
        let rest = text.skip(n + 1);
        if k > 0 {
            lemma_lines(rest, k - 1);
            assert(line == lines(rest)[k - 1]);
        }
        assert forall|c: char| #[trigger] line.contains(c) implies text.contains(c) && c
            != '\n' by {
            if k > 0 {
                let i = choose|i: int| 0 <= i < rest.len() && rest[i] == c;
                assert(text[n + 1 + i] == c);
            } else {
                let i = choose|i: int| 0 <= i < line.len() && line[i] == c;
                assert(text[i] == c);
            }
        }
    } else {
        assert forall|c: char| #[trigger] line.contains(c) implies text.contains(c) && c
            != '\n' by {
            let i = choose|i: int| 0 <= i < text.len() && text[i] == c;
        }
    }
}

proof fn lemma_first_non_blank(lines: Seq<Seq<char>>)
    ensures
        first_non_blank(lines) matches Some(line) ==> !is_blank(line) && exists|k: int|
            0 <= k < lines.len() && #[trigger] lines[k] == line,
        first_non_blank(lines) is None ==> forall|k: int|
            0 <= k < lines.len() ==> is_blank(#[trigger] lines[k]),
    decreases lines.len(),
{
    if lines.len() > 0 {
        let rest = lines.drop_first();
        lemma_first_non_blank(rest);
        if is_blank(lines.first()) {
            match first_non_blank(lines) {
                Some(line) => {
                    let k = choose|k: int| 0 <= k < rest.len() && #[trigger] rest[k] == line;
                    assert(lines[k + 1] == line);
                },
                None => {
                    assert forall|k: int| 0 <= k < lines.len() implies is_blank(
                        #[trigger] lines[k],
                    ) by {
                        if k > 0 {
                            assert(lines[k] == rest[k - 1]);
                        }
                    }
                },
            }
        } else {
            assert(lines[0] == lines.first());
        }
    }
}

proof fn lemma_lines_cover(text: Seq<char>, i: int)
    requires
        0 <= i < text.len(),
        !is_white_space(text[i]),
    ensures
        exists|k: int| 0 <= k < lines(text).len() && !is_blank(#[trigger] lines(text)[k]),
    decreases text.len(),
{
    let n = line_len(text) as int;
    lemma_line_len_bound(text);
    lemma_line_stop(text);
    if n < text.len() {
        let rest = text.skip(n + 1);
        let line = without_carriage_return(text.take(n));
        if i < n {
            assert(line[i] == text[i]) by {
                assert(text[i] != '\r');
            }
            lemma_blank(line);
            assert(!is_white_space(line[i]));
            assert(lines(text)[0] == line);
        } else {
            assert(i != n);
            assert(rest[i - n - 1] == text[i]);
            lemma_lines_cover(rest, i - n - 1);
            let k = choose|k: int| 0 <= k < lines(rest).len() && !is_blank(#[trigger] lines(rest)[k]);
            assert(lines(text)[k + 1] == lines(rest)[k]);
        }
    } else {
        lemma_blank(text);
        assert(lines(text)[0] == text);
    }
}

proof fn lemma_line_stop(text: Seq<char>)
    ensures
        line_len(text) < text.len() ==> text[line_len(text) as int] == '\n',
    decreases text.len(),
{
    if text.len() > 0 && text.first() != '\n' {
        lemma_line_stop(text.drop_first());
    }
}

/// A headline is empty only where the text is blank, and never holds a newline.
pub proof fn a_headline_is_one_line(text: Seq<char>)
    ensures
        headline(text).len() == 0 <==> is_blank(text),
        !headline(text).contains('\n'),
{
    let all = lines(text);
    lemma_first_non_blank(all);
    lemma_blank(text);
    match first_non_blank(all) {
        Some(line) => {
            let k = choose|k: int| 0 <= k < all.len() && #[trigger] all[k] == line;
            lemma_lines(text, k);
            trimming_is_thorough(line);
            lemma_blank(line);
            let i = choose|i: int| 0 <= i < line.len() && !is_white_space(#[trigger] line[i]);
            assert(line.contains(line[i]));
            let j = choose|j: int| 0 <= j < text.len() && text[j] == line[i];
            assert(!is_white_space(text[j]));
        },
        None => {
            if !is_blank(text) {
                let i = choose|i: int| 0 <= i < text.len() && !is_white_space(#[trigger] text[i]);
                lemma_lines_cover(text, i);
            }
        },
    }
}

/// Where what trimming leaves of a text stands in it: all before and behind is white space, and neither
/// end of it is.
pub proof fn lemma_blank_inside(text: Seq<char>) -> (ends: (int, int))
    ensures
        0 <= ends.0 <= ends.1 <= text.len(),
        trimmed(text) == text.subrange(ends.0, ends.1),
        forall|k: int| 0 <= k < ends.0 ==> is_white_space(#[trigger] text[k]),
        forall|k: int| ends.1 <= k < text.len() ==> is_white_space(#[trigger] text[k]),
        ends.0 < ends.1 ==> !is_white_space(text[ends.0]) && !is_white_space(text[ends.1 - 1]),
{
    let rest = trimmed_start(text);
    let inner = trimmed(text);
    lemma_trimmed_start(text);
    lemma_trimmed_end_keeps(rest);
    lemma_trimmed_end_white(rest);
    let i = text.len() - rest.len();
    let j = i + inner.len();
    assert(inner =~= text.subrange(i, j));
    assert forall|k: int| j <= k < text.len() implies is_white_space(#[trigger] text[k]) by {
        assert(rest[k - i] == text[k]);
    }
    if inner.len() > 0 {
        assert(inner[0] == rest[0]);
        assert(inner.last() == text[j - 1]);
    }
    (i, j)
}

proof fn lemma_trimmed_end_white(text: Seq<char>)
    ensures
        forall|k: int|
            trimmed_end(text).len() <= k < text.len() ==> is_white_space(#[trigger] text[k]),
    decreases text.len(),
{
    if text.len() > 0 && is_white_space(text.last()) {
        let rest = text.drop_last();
        lemma_trimmed_end_white(rest);
        assert forall|k: int| trimmed_end(text).len() <= k < text.len() implies is_white_space(
            #[trigger] text[k],
        ) by {
            if k < rest.len() {
                assert(rest[k] == text[k]);
            }
        }
    }
}

/// Where the first line of a text that is not blank stands in it: between newlines or the ends of the text,
/// with nothing but white space before it.
pub proof fn lemma_first_line_at(text: Seq<char>) -> (ends: (int, int))
    requires
        !is_blank(text),
    ensures
        0 <= ends.0 < ends.1 <= text.len(),
        ends.0 == 0 || text[ends.0 - 1] == '\n',
        ends.1 == text.len() || text[ends.1] == '\n',
        forall|k: int| ends.0 <= k < ends.1 ==> #[trigger] text[k] != '\n',
        forall|k: int| 0 <= k < ends.0 ==> is_white_space(#[trigger] text[k]),
        headline(text) == trimmed(text.subrange(ends.0, ends.1)),
    decreases text.len(),
{
    let n = line_len(text) as int;
    let line = text.take(n);
    lemma_line_len_bound(text);
    lemma_line_stop(text);
    lemma_blank(text);
    lemma_blank(line);
    if n < text.len() {
        let piece = without_carriage_return(line);
        if line.len() > 0 && line.last() == '\r' {
            lemma_trimmed_drop_last(line);
        }
        assert(trimmed(piece) == trimmed(line));
        let rest = text.skip(n + 1);
        assert(lines(text).first() == piece);
        assert(lines(text).drop_first() =~= lines(rest));
        if is_blank(line) {
            lemma_blank(rest);
            let i = choose|i: int| 0 <= i < text.len() && !is_white_space(#[trigger] text[i]);
            if i < n {
                assert(line[i] == text[i]);
            }
            assert(rest[i - n - 1] == text[i]);
            let ends = lemma_first_line_at(rest);
            let start = ends.0 + n + 1;
            let end = ends.1 + n + 1;
            assert(text.subrange(start, end) =~= rest.subrange(ends.0, ends.1));
            assert forall|k: int| 0 <= k < start implies is_white_space(#[trigger] text[k]) by {
                if k < n {
                    assert(line[k] == text[k]);
                } else if k > n {
                    assert(rest[k - n - 1] == text[k]);
                }
            }
            assert forall|k: int| start <= k < end implies #[trigger] text[k] != '\n' by {
                assert(rest[k - n - 1] == text[k]);
            }
            if ends.0 > 0 {
                assert(rest[ends.0 - 1] == text[start - 1]);
            }
            assert(first_non_blank(lines(text)) == first_non_blank(lines(rest)));
            lemma_some_line(rest);
            (start, end)
        } else {
            assert(text.subrange(0, n) =~= line);
            (0, n)
        }
    } else {
        assert(line =~= text);
        assert(lines(text).first() == text);
        assert(text.subrange(0, n) =~= text);
        (0, n)
    }
}

proof fn lemma_some_line(text: Seq<char>)
    requires
        !is_blank(text),
    ensures
        first_non_blank(lines(text)) is Some,
{
    lemma_blank(text);
    let i = choose|i: int| 0 <= i < text.len() && !is_white_space(#[trigger] text[i]);
    lemma_lines_cover(text, i);
    lemma_first_non_blank(lines(text));
}

} // verus!
