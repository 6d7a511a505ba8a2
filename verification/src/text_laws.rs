//! What the text primitives do, told by the characters.

use vstd::prelude::*;

use crate::text::{
    a_headline_is_one_line, blank, comes_before, decimal, decimal_nat, first_line, headline,
    is_blank, is_white_space, lemma_blank, lemma_blank_inside, lemma_first_line_at, opt_text,
    same_text, signed_text, take_chars, text_before, trim, trimmed, unsigned_text,
};

verus! {

/// Whether `inner` is `text` from `i` to `j`, where all that stands outside is white space and neither end
/// of `inner` is.
pub open spec fn is_core(text: Seq<char>, inner: Seq<char>, i: int, j: int) -> bool {
    &&& 0 <= i <= j <= text.len()
    &&& inner == text.subrange(i, j)
    &&& forall|k: int| 0 <= k < i ==> is_white_space(#[trigger] text[k])
    &&& forall|k: int| j <= k < text.len() ==> is_white_space(#[trigger] text[k])
    &&& i < j ==> !is_white_space(text[i]) && !is_white_space(text[j - 1])
}

/// Trimming takes the white space off both ends of a text and nothing else.
pub proof fn trimming_takes_off_the_ends(text: &str, inner: &str)
    requires
        call_ensures(trim, (text,), inner),
    ensures
        exists|i: int, j: int| is_core(text@, inner@, i, j),
{
    let (i, j) = lemma_blank_inside(text@);
    assert(is_core(text@, inner@, i, j));
}

/// What trimming leaves of a text is the same however its core is cut out.
pub proof fn a_core_is_what_trimming_leaves(text: Seq<char>, inner: Seq<char>, i: int, j: int)
    requires
        is_core(text, inner, i, j),
    ensures
        trimmed(text) == inner,
{
    let (a, b) = lemma_blank_inside(text);
    if a < b {
        assert(!is_white_space(text[a]));
        assert(i <= a && b <= j);
        assert(!is_white_space(text[b - 1]));
        assert(a <= i && j <= b);
    } else {
        if i < j {
            assert(is_white_space(text[i]));
        }
        assert(inner =~= trimmed(text));
    }
}

/// A text is blank exactly when all of its characters are white space.
pub proof fn a_blank_text_is_white(text: &str, yes: bool)
    requires
        call_ensures(blank, (text,), yes),
    ensures
        yes <==> forall|k: int| 0 <= k < text@.len() ==> is_white_space(#[trigger] text@[k]),
{
    lemma_blank(text@);
}

/// Whether `line` is the core of the first line of `text` that holds more than white space. That line runs
/// from `start` to `end`, between newlines or the ends of the text.
pub open spec fn is_first_line(text: Seq<char>, line: Seq<char>, start: int, end: int) -> bool {
    &&& 0 <= start < end <= text.len()
    &&& start == 0 || text[start - 1] == '\n'
    &&& end == text.len() || text[end] == '\n'
    &&& forall|k: int| start <= k < end ==> #[trigger] text[k] != '\n'
    &&& forall|k: int| 0 <= k < start ==> is_white_space(#[trigger] text[k])
    &&& line.len() > 0
    &&& exists|i: int, j: int| is_core(text.subrange(start, end), line, i, j)
}

/// Whether `line` is the first line of `text` that is not blank, without the white space around it, or
/// empty where there is none.
pub open spec fn heads(text: Seq<char>, line: Seq<char>) -> bool {
    if forall|k: int| 0 <= k < text.len() ==> is_white_space(#[trigger] text[k]) {
        line.len() == 0
    } else {
        exists|start: int, end: int| is_first_line(text, line, start, end)
    }
}

/// The headline of a text heads it.
pub proof fn a_headline_heads(text: Seq<char>)
    ensures
        heads(text, headline(text)),
{
    lemma_blank(text);
    a_headline_is_one_line(text);
    if !is_blank(text) {
        let (start, end) = lemma_first_line_at(text);
        let (i, j) = lemma_blank_inside(text.subrange(start, end));
        assert(is_core(text.subrange(start, end), headline(text), i, j));
        assert(is_first_line(text, headline(text), start, end));
    }
}

/// The first line of a text heads it.
pub proof fn the_first_line_heads(text: &str, line: &str)
    requires
        call_ensures(first_line, (text,), line),
    ensures
        heads(text@, line@),
{
    a_headline_heads(text@);
}

/// The number that decimal digits stand for.
pub open spec fn value_of(digits: Seq<char>) -> int
    decreases digits.len(),
{
    if digits.len() == 0 {
        0
    } else {
        10 * value_of(digits.drop_last()) + (digits.last() as int - '0' as int)
    }
}

/// Whether `text` is a decimal numeral of `n` without a sign and without needless zeros.
pub open spec fn is_numeral(text: Seq<char>, n: int) -> bool {
    &&& text.len() > 0
    &&& forall|k: int| 0 <= k < text.len() ==> '0' <= #[trigger] text[k] <= '9'
    &&& text.len() > 1 ==> text[0] != '0'
    &&& value_of(text) == n
}

proof fn lemma_decimal_nat(n: nat)
    ensures
        is_numeral(decimal_nat(n), n as int),
    decreases n,
{
    if n < 10 {
        assert(decimal_nat(n).drop_last() =~= Seq::empty());
        assert(value_of(Seq::<char>::empty()) == 0);
    } else {
        lemma_decimal_nat(n / 10);
        let front = decimal_nat(n / 10);
        assert(decimal_nat(n).drop_last() =~= front);
        if front.len() == 1 {
            assert(front.drop_last() =~= Seq::empty());
            assert(value_of(Seq::<char>::empty()) == 0);
            assert(value_of(front) == front[0] as int - '0' as int);
        }
        assert forall|k: int| 0 <= k < decimal_nat(n).len() implies '0' <= #[trigger] decimal_nat(
            n,
        )[k] <= '9' by {
            if k < front.len() {
                assert(decimal_nat(n)[k] == front[k]);
            }
        }
        assert(decimal_nat(n)[0] == front[0]);
    }
}

/// The decimal text of a number reads as that number.
pub proof fn decimals_read_back(n: int)
    ensures
        n >= 0 ==> is_numeral(decimal(n), n),
        n < 0 ==> decimal(n).len() > 1 && decimal(n)[0] == '-' && is_numeral(decimal(n).skip(1), -n),
{
    if n >= 0 {
        lemma_decimal_nat(n as nat);
    } else {
        lemma_decimal_nat((-n) as nat);
        assert(decimal(n).skip(1) =~= decimal_nat((-n) as nat));
    }
}

/// Numbers are written as numerals that read as them.
pub proof fn numbers_are_written_in_decimal(n: u64, text: String, m: i32, signed: String)
    requires
        call_ensures(unsigned_text, (n,), text),
        call_ensures(signed_text, (m,), signed),
    ensures
        is_numeral(text@, n as int),
        m >= 0 ==> is_numeral(signed@, m as int),
        m < 0 ==> signed@.len() > 1 && signed@[0] == '-' && is_numeral(signed@.skip(1), -(m as int)),
{
    decimals_read_back(n as int);
    decimals_read_back(m as int);
}

/// The head of a text is as long as was asked for, or all of the text.
pub proof fn a_head_is_cut_off(text: &str, count: usize, head: &str)
    requires
        call_ensures(take_chars, (text, count), head),
    ensures
        head@.len() == if text@.len() <= count { text@.len() as int } else { count as int },
        head@ == text@.take(head@.len() as int),
{
    if text@.len() <= count {
        assert(text@.take(text@.len() as int) =~= text@);
    }
}

/// Whether `left` and `right` are the same up to `k` and `left` ends there, or has the lesser character.
pub open spec fn decides(left: Seq<char>, right: Seq<char>, k: int) -> bool {
    &&& 0 <= k <= left.len()
    &&& k < right.len()
    &&& forall|m: int| 0 <= m < k ==> #[trigger] left[m] == right[m]
    &&& k == left.len() || left[k] < right[k]
}

/// The order of texts is decided by their first difference.
pub proof fn lemma_decides(left: Seq<char>, right: Seq<char>)
    ensures
        text_before(left, right) <==> exists|k: int| decides(left, right, k),
    decreases left.len(),
{
    if right.len() > 0 && left.len() > 0 && left.first() == right.first() {
        let l = left.drop_first();
        let r = right.drop_first();
        lemma_decides(l, r);
        if text_before(left, right) {
            let k = choose|k: int| decides(l, r, k);
            assert forall|m: int| 0 <= m < k + 1 implies #[trigger] left[m] == right[m] by {
                if m > 0 {
                    assert(l[m - 1] == r[m - 1]);
                }
            }
            assert(k < l.len() ==> l[k] == left[k + 1] && r[k] == right[k + 1]);
            assert(decides(left, right, k + 1));
        }
        if exists|k: int| decides(left, right, k) {
            let k = choose|k: int| decides(left, right, k);
            assert(k > 0);
            assert forall|m: int| 0 <= m < k - 1 implies #[trigger] l[m] == r[m] by {
                assert(left[m + 1] == right[m + 1]);
            }
            assert(decides(l, r, k - 1));
        }
    } else if right.len() > 0 {
        if text_before(left, right) {
            assert(decides(left, right, 0));
        }
        if exists|k: int| decides(left, right, k) {
            let k = choose|k: int| decides(left, right, k);
            if k > 0 {
                assert(left[0] == right[0]);
            }
        }
    }
}

/// One text comes before another where the first character in which they differ is the lesser one, or
/// where it is the start of the other.
pub proof fn the_first_difference_decides(left: &str, right: &str, before: bool)
    requires
        call_ensures(comes_before, (left, right), before),
    ensures
        before <==> exists|k: int| decides(left@, right@, k),
{
    lemma_decides(left@, right@);
}

/// Two texts are the same exactly when they have the same characters in the same places.
pub proof fn same_texts_have_the_same_characters(left: &str, right: &str, same: bool)
    requires
        call_ensures(same_text, (left, right), same),
    ensures
        same <==> left@.len() == right@.len() && forall|k: int|
            0 <= k < left@.len() ==> #[trigger] left@[k] == right@[k],
{
    if left@.len() == right@.len() && forall|k: int|
        0 <= k < left@.len() ==> #[trigger] left@[k] == right@[k] {
        assert(left@ =~= right@);
    }
}

/// An optional text is there exactly when the string is, and has its characters.
pub proof fn an_optional_text_is_that_of_its_string(text: Option<String>)
    ensures
        opt_text(text) is Some <==> text is Some,
        text is Some ==> opt_text(text)->0 == text->0@,
{
}

} // verus!
