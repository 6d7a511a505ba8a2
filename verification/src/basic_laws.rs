//! What the smallest pieces do: the clock, identities, maps, styles, sorting.

use vstd::prelude::*;

use crate::clock::Instant;
use crate::display_laws::{lemma_passed, passed};
use crate::panel::{SubagentPanelState, SubagentStatusCell};
use crate::protocol::CollabAgentToolCall;
use crate::registry::SubagentPanelRegistry;
use crate::scroll::{can_wrap, char_count};
use crate::sort::{sort_by_rank, sorted_from, sorting_moves_each_item, Ranked};
use crate::styled::{colored, joined, plain, span, Color, Line, Paint, Span, Style};
use crate::text_map::TextMap;
use crate::thread_id::ThreadId;

verus! {

/// The clock tells how long ago something was, in nanoseconds and in whole seconds, and never less than no
/// time.
pub proof fn the_clock_tells_what_has_passed(now: Instant, earlier: Instant, nanos: u64, secs: u64)
    requires
        call_ensures(Instant::nanos_since, (now, earlier), nanos),
        call_ensures(Instant::secs_since, (now, earlier), secs),
    ensures
        now.nanos >= earlier.nanos ==> earlier.nanos + nanos == now.nanos,
        now.nanos < earlier.nanos ==> nanos == 0,
        passed(earlier, now, secs as int, 1_000_000_000),
{
    lemma_passed(earlier, now, 1_000_000_000);
}

/// A thread is its text: it reads as that, and is the same as another exactly when the texts are.
pub proof fn a_thread_is_its_text(one: ThreadId, two: ThreadId, text: &str, same: bool)
    requires
        call_ensures(ThreadId::as_str, (&one,), text),
        call_ensures(ThreadId::same, (&one, &two), same),
    ensures
        one@ == one.text@,
        text@ == one.text@,
        same <==> one.text@ == two.text@,
{
}

/// A call is addressed to the thread of its first receiver, and to none where that names none.
pub proof fn a_call_is_addressed_to_its_first_receiver(
    call: CollabAgentToolCall,
    thread: Option<&ThreadId>,
)
    requires
        call_ensures(CollabAgentToolCall::first_receiver, (&call,), thread),
    ensures
        thread is Some <==> call.receivers@.len() > 0 && call.receivers@[0].thread_id is Some,
        thread is Some ==> *thread->0 == call.receivers@[0].thread_id->0,
{
}

/// What was put into a map under a text is found under it, and what is found under other texts does not
/// change.
pub proof fn a_map_finds_what_was_put_in<V>(
    map: &mut TextMap<V>,
    before: TextMap<V>,
    after: TextMap<V>,
    key: String,
    value: V,
    other: &str,
    other_before: Option<&V>,
    other_after: Option<&V>,
)
    requires
        before == *old(map),
        after == *final(map),
        call_ensures(TextMap::<V>::insert, (map, key, value), ()),
        call_ensures(TextMap::<V>::get, (&before, other), other_before),
        call_ensures(TextMap::<V>::get, (&after, other), other_after),
    ensures
        other@ == key@ ==> other_after is Some && *other_after->0 == value,
        other@ != key@ ==> (other_after is Some <==> other_before is Some),
        other@ != key@ && other_after is Some ==> *other_after->0 == *other_before->0,
{
}

/// What is taken out of a map is what was found in it, is found no more, and what is found under other texts
/// does not change.
pub proof fn a_map_gives_up_what_is_taken_out<V>(
    map: &mut TextMap<V>,
    before: TextMap<V>,
    after: TextMap<V>,
    key: &str,
    taken: Option<V>,
    other: &str,
    other_before: Option<&V>,
    other_after: Option<&V>,
    holds: bool,
)
    requires
        before == *old(map),
        after == *final(map),
        call_ensures(TextMap::<V>::remove, (map, key), taken),
        call_ensures(TextMap::<V>::get, (&before, other), other_before),
        call_ensures(TextMap::<V>::get, (&after, other), other_after),
        call_ensures(TextMap::<V>::contains_key, (&after, other), holds),
    ensures
        other@ == key@ ==> other_after is None && (taken is Some <==> other_before is Some),
        other@ == key@ && taken is Some ==> taken->0 == *other_before->0,
        other@ != key@ ==> (other_after is Some <==> other_before is Some),
        other@ != key@ && other_after is Some ==> *other_after->0 == *other_before->0,
        holds <==> other_after is Some,
{
}

/// Nothing is found in a new map.
pub proof fn a_new_map_finds_nothing<V>(map: TextMap<V>, key: &str, found: Option<&V>)
    requires
        call_ensures(TextMap::<V>::new, (), map),
        call_ensures(TextMap::<V>::get, (&map, key), found),
    ensures
        found is None,
{
}

/// A registry that nothing was said of tracks nothing, has nothing mounted, and does not say how a panel may
/// move.
pub proof fn a_default_registry_is_empty(registry: SubagentPanelRegistry)
    requires
        call_ensures(<SubagentPanelRegistry as Default>::default, (), registry),
    ensures
        forall|t: Seq<char>| !(#[trigger] registry@.agents.contains_key(t)),
        registry@.order.len() == 0,
        !registry@.mounted,
        registry@.motion_mode is None,
{
}

/// A style starts plain or with a colour, and each modifier changes itself alone.
pub proof fn modifiers_change_themselves_alone(
    bare: Style,
    color: Color,
    tinted: Style,
    style: Style,
    bold: Style,
    dim: Style,
    italic: Style,
)
    requires
        call_ensures(plain, (), bare),
        call_ensures(colored, (color,), tinted),
        call_ensures(Style::bold, (style,), bold),
        call_ensures(Style::dim, (style,), dim),
        call_ensures(Style::italic, (style,), italic),
    ensures
        bare.fg is None && !bare.bold && !bare.dim && !bare.italic,
        tinted.fg == Some(color) && !tinted.bold && !tinted.dim && !tinted.italic,
        bold.bold && bold.fg == style.fg && bold.dim == style.dim && bold.italic == style.italic,
        dim.dim && dim.fg == style.fg && dim.bold == style.bold && dim.italic == style.italic,
        italic.italic && italic.fg == style.fg && italic.bold == style.bold && italic.dim
            == style.dim,
{
}

/// A span holds the text and the style that it was made of, and what is joined stands side by side.
pub proof fn spans_hold_their_text(
    text: &str,
    style: Style,
    made: Span,
    right: &str,
    both: String,
)
    requires
        call_ensures(span, (text, style), made),
        call_ensures(joined, (text, right), both),
    ensures
        made.content@ == text@,
        made.paint == Paint::Styled(style),
        both@.len() == text@.len() + right@.len(),
        both@.take(text@.len() as int) == text@,
        both@.skip(text@.len() as int) == right@,
{
    assert(both@.take(text@.len() as int) =~= text@);
    assert(both@.skip(text@.len() as int) =~= right@);
}

/// The view of a line is that of its spans, each with its text and its paint.
pub proof fn a_line_shows_its_spans(line: Line)
    ensures
        line@.len() == line.spans@.len(),
        forall|k: int|
            0 <= k < line@.len() ==> (#[trigger] line@[k]).text == line.spans@[k].content@
                && line@[k].paint == line.spans@[k].paint,
{
}

/// Sorting puts each item in one place, by rank, and leaves those that tie in their order.
pub proof fn sorting_puts_each_item_in_its_place<A: Ranked>(items: Vec<A>, sorted: Vec<A>)
    requires
        call_ensures(sort_by_rank::<A>, (items,), sorted),
    ensures
        exists|from: Seq<int>| sorted_from(items@, sorted@, from),
{
    let from = sorting_moves_each_item(items@);
    assert(sorted_from(items@, sorted@, from));
}

/// A copy of a panel holds what the panel holds.
pub proof fn a_copy_holds_the_same(
    state: SubagentPanelState,
    state_copy: SubagentPanelState,
    cell: SubagentStatusCell,
    cell_copy: SubagentStatusCell,
)
    requires
        call_ensures(<SubagentPanelState as Clone>::clone, (&state,), state_copy),
        call_ensures(<SubagentStatusCell as Clone>::clone, (&cell,), cell_copy),
    ensures
        state_copy.started_at == state.started_at,
        state_copy.total_agents == state.total_agents,
        state_copy.running_count == state.running_count,
        state_copy.running_agents@ == state.running_agents@,
        cell_copy.state.started_at == cell.state.started_at,
        cell_copy.state.total_agents == cell.state.total_agents,
        cell_copy.state.running_count == cell.state.running_count,
        cell_copy.state.running_agents@ == cell.state.running_agents@,
        cell_copy.motion_mode == cell.motion_mode,
        cell_copy.updates_mounted == cell.updates_mounted,
{
}

proof fn lemma_char_count(spans: Seq<Seq<char>>)
    ensures
        char_count(spans) == spans.flatten().len(),
    decreases spans.len(),
{
    if spans.len() > 0 {
        lemma_char_count(spans.drop_last());
        spans.lemma_flatten_and_flatten_alt_are_equivalent();
        spans.drop_last().lemma_flatten_and_flatten_alt_are_equivalent();
    }
}

/// Lines can be wrapped to any width that is at most a quarter of what sixteen bits hold, and to any width at
/// all where none of them holds more than a third of that many characters.
pub proof fn short_lines_can_always_be_wrapped(lines: Vec<Vec<String>>, width: u16, yes: bool)
    requires
        call_ensures(can_wrap, (&lines, width), yes),
    ensures
        yes <==> width <= 16384 || forall|i: int|
            0 <= i < lines.deep_view().len() ==> (#[trigger] lines.deep_view()[i]).flatten().len()
                * 3 <= 65535,
{
    let texts = lines.deep_view();
    assert forall|i: int| 0 <= i < texts.len() implies char_count(texts[i]) == (
    #[trigger] texts[i]).flatten().len() by {
        lemma_char_count(texts[i]);
    }
}

} // verus!
