//! What holds of every span that guests hand in.
use vstd::prelude::*;

use crate::otel::convert::byte_len;
use crate::otel::convert::clock_answer;
use crate::otel::convert::clock_answers;
use crate::otel::convert::clock_reaches;
use crate::otel::convert::clock_says;
use crate::otel::convert::earlier;
use crate::otel::convert::events_of;
use crate::otel::convert::exported;
use crate::otel::convert::handed_out;
use crate::otel::convert::header_entries;
use crate::otel::convert::invalid;
use crate::otel::convert::lemma_event_error_stays;
use crate::otel::convert::lemma_link_error_stays;
use crate::otel::convert::links_of;
use crate::otel::convert::outer_context;
use crate::otel::convert::parent_id_of;
use crate::otel::convert::proper;
use crate::otel::convert::span_context_of;
use crate::otel::convert::span_outcome;
use crate::otel::convert::time_of;
use crate::otel::json::attributes_of;
use crate::otel::types::key_value_pairs;
use crate::otel::types::AttributeView;
use crate::otel::types::Datetime;
use crate::otel::types::EventView;
use crate::otel::types::ExportedEventView;
use crate::otel::types::ExportedLinkView;
use crate::otel::types::ExportedSpan;
use crate::otel::types::ExportedSpanView;
use crate::otel::types::LinkView;
use crate::otel::types::SpanConversionError;
use crate::otel::types::SpanConversionErrorView;
use crate::otel::types::SpanData;
use crate::otel::types::SpanDataView;
use crate::otel::types::Status;
use crate::otel::types::WitSpanContextView;
use crate::propagation::identifies;
use crate::propagation::lemma_members_fall_apart;
use crate::propagation::pairs;
use crate::propagation::span_id_of;
use crate::propagation::state_header;
use crate::propagation::state_key;
use crate::propagation::state_members;
use crate::propagation::state_texts;
use crate::propagation::state_value;
use crate::propagation::trace_id_of;
use crate::propagation::SpanContextView;
use crate::text::cut_once;
use crate::text::hex_fixed;
use crate::text::hex_numeral;
use crate::text::hex_value;
use crate::text::is_hex;
use crate::text::law_hex_reads_back;
use crate::text::law_hex_rows_stand_for_numbers;
use crate::text::law_join_then_split;
use crate::text::optional_text;
use crate::text::sixteen_to;
use crate::text::split_on;

verus! {

/// The members of a trace state hold its keys and values.
proof fn lemma_members_hold_the_list(list: Seq<(Seq<char>, Seq<char>)>)
    requires
        state_members(list),
    ensures
        header_entries(state_texts(list)) == list,
    decreases list.len(),
{
    let texts = state_texts(list);
    if list.len() > 0 {
        let init = list.drop_last();
        assert(texts.drop_last() =~= state_texts(init));
        assert forall|i: int| 0 <= i < init.len() implies state_key((#[trigger] init[i]).0)
            && state_value(init[i].1) by {
            assert(init[i] == list[i]);
        }
        lemma_members_hold_the_list(init);
        let entry = list[list.len() - 1];
        lemma_members_fall_apart(entry.0, entry.1);
        assert(init.push(entry) =~= list);
    } else {
        assert(header_entries(texts) =~= list);
    }
}

/// The header of a trace state holds its keys and values.
proof fn lemma_headers_hold_the_list(list: Seq<(Seq<char>, Seq<char>)>)
    requires
        state_members(list),
    ensures
        header_entries(split_on(state_header(list), ',')) == list,
{
    let texts = state_texts(list);
    if list.len() == 0 {
        assert(state_header(list) =~= Seq::empty());
        let members = split_on(Seq::empty(), ',');
        assert(members =~= seq![Seq::<char>::empty()]);
        assert(members.drop_last() =~= Seq::empty());
        assert(cut_once(members.last(), '=') is None);
        assert(header_entries(members.drop_last()) =~= list);
    } else {
        assert forall|i: int| 0 <= i < texts.len() implies !(#[trigger] texts[i]).contains(',') by {
            assert(texts[i] == list[i].0 + seq!['='] + list[i].1);
            lemma_members_fall_apart(list[i].0, list[i].1);
        }
        law_join_then_split(texts, ',');
        lemma_members_hold_the_list(list);
    }
}

/// Hexadecimal digits are ASCII characters.
proof fn lemma_hex_is_ascii(n: nat, width: nat)
    ensures
        hex_fixed(n, width).len() == width,
        vstd::utf8::is_ascii_chars(hex_fixed(n, width)),
    decreases width,
{
    if width > 0 {
        lemma_hex_is_ascii(n / 16, (width - 1) as nat);
    }
}

/// Hexadecimal digits have one byte each.
proof fn lemma_hex_bytes(n: nat, width: nat)
    ensures
        byte_len(hex_fixed(n, width)) == width,
{
    lemma_hex_is_ascii(n, width);
    vstd::utf8::is_ascii_chars_encode_utf8(hex_fixed(n, width));
}

/// What is handed to a guest of a context stands for that context: a guest that hands it back
/// means the same span.
pub proof fn law_contexts_come_back(context: SpanContextView)
    requires
        identifies(context),
        state_members(context.trace_state),
    ensures
        span_context_of(handed_out(context)) == Ok::<SpanContextView, SpanConversionErrorView>(context),
{
    assert(sixteen_to(16) == 0x1_0000_0000_0000_0000) by {
        reveal_with_fuel(sixteen_to, 17);
    }
    assert(sixteen_to(32) == 0x1_0000_0000_0000_0000_0000_0000_0000_0000) by {
        reveal_with_fuel(sixteen_to, 17);
    }
    let out = handed_out(context);
    lemma_hex_bytes(context.trace_id as nat, 32);
    lemma_hex_bytes(context.span_id as nat, 16);
    law_hex_reads_back(context.trace_id as nat, 32);
    law_hex_reads_back(context.span_id as nat, 16);
    assert(trace_id_of(out.trace_id) == Some(context.trace_id));
    assert(span_id_of(out.span_id) == Some(context.span_id));
    lemma_headers_hold_the_list(context.trace_state);
}

/// Events that come through keep their number, order, names and times.
proof fn lemma_events_stay(events: Seq<EventView>, held: Seq<bool>)
    requires
        events_of(events, held) is Ok,
    ensures
        events_of(events, held)->Ok_0.len() == events.len(),
        forall|i: int|
            0 <= i < events.len() ==> (#[trigger] events_of(events, held)->Ok_0[i]).name
                == events[i].name && events_of(events, held)->Ok_0[i].timestamp == events[i].time
                && proper(events[i].time),
    decreases events.len(),
{
    if events.len() > 0 {
        lemma_events_stay(events.drop_last(), held);
        let out = events_of(events, held)->Ok_0;
        let before = events_of(events.drop_last(), held)->Ok_0;
        assert forall|i: int| 0 <= i < events.len() implies (#[trigger] out[i]).name
            == events[i].name && out[i].timestamp == events[i].time && proper(events[i].time) by {
            if i < events.len() - 1 {
                assert(out[i] == before[i]);
                assert(events.drop_last()[i] == events[i]);
            }
        }
    }
}

/// Links that come through keep their number, their order and the spans that they lead to.
proof fn lemma_links_stay(links: Seq<LinkView>)
    requires
        links_of(links) is Ok,
    ensures
        links_of(links)->Ok_0.len() == links.len(),
        forall|i: int|
            0 <= i < links.len() ==> span_context_of(links[i].span_context) == Ok::<SpanContextView, SpanConversionErrorView>(
                (#[trigger] links_of(links)->Ok_0[i]).span_context,
            ),
    decreases links.len(),
{
    if links.len() > 0 {
        lemma_links_stay(links.drop_last());
        let out = links_of(links)->Ok_0;
        let before = links_of(links.drop_last())->Ok_0;
        assert forall|i: int| 0 <= i < links.len() implies span_context_of(links[i].span_context)
            == Ok::<SpanContextView, SpanConversionErrorView>((#[trigger] out[i]).span_context) by {
            if i < links.len() - 1 {
                assert(out[i] == before[i]);
                assert(links.drop_last()[i] == links[i]);
            }
        }
    }
}

/// A span that is exported is the span that the guest handed in: its own ids, with an identity;
/// its name, kind, status and times, the end not before the start; its events and links, all of
/// them and in order.
pub proof fn law_exported_spans_keep_their_graph(
    span: SpanDataView,
    outer: Option<SpanContextView>,
    start_held: bool,
    end_held: bool,
    events_held: Seq<bool>,
)
    requires
        exported(span, outer, start_held, end_held, events_held) is Ok,
    ensures
        ({
            let out = exported(span, outer, start_held, end_held, events_held)->Ok_0;
            &&& identifies(out.span_context)
            &&& trace_id_of(span.span_context.trace_id) == Some(out.span_context.trace_id)
            &&& span_id_of(span.span_context.span_id) == Some(out.span_context.span_id)
            &&& out.span_context.trace_state == span.span_context.trace_state
            &&& out.span_context.sampled == span.span_context.sampled
            &&& span.parent_span_id.len() == 0 ==> out.parent_span_id == 0
            &&& span.parent_span_id.len() > 0 ==> span_id_of(span.parent_span_id) == Some(
                out.parent_span_id,
            )
            &&& out.name == span.name
            &&& out.span_kind == span.span_kind
            &&& out.status == span.status
            &&& out.start_time == span.start_time
            &&& out.end_time == span.end_time
            &&& !earlier(out.end_time, out.start_time)
            &&& out.events.len() == span.events.len()
            &&& forall|i: int|
                0 <= i < span.events.len() ==> (#[trigger] out.events[i]).name
                    == span.events[i].name && out.events[i].timestamp == span.events[i].time
            &&& out.links.len() == span.links.len()
            &&& forall|i: int|
                0 <= i < span.links.len() ==> span_context_of(span.links[i].span_context) == Ok::<SpanContextView, SpanConversionErrorView>((#[trigger] out.links[i]).span_context)
        }),
{
    lemma_events_stay(span.events, events_held);
    lemma_links_stay(span.links);
}

/// The parent of an exported span counts as remote exactly where it is the span that was open on
/// the host around the guest.
pub proof fn law_only_the_outer_parent_is_remote(
    span: SpanDataView,
    outer: Option<SpanContextView>,
    start_held: bool,
    end_held: bool,
    events_held: Seq<bool>,
)
    requires
        exported(span, outer, start_held, end_held, events_held) is Ok,
    ensures
        ({
            let out = exported(span, outer, start_held, end_held, events_held)->Ok_0;
            out.parent_span_is_remote == (outer matches Some(host) && identifies(host)
                && host.trace_id == out.span_context.trace_id && host.span_id
                == out.parent_span_id)
        }),
{
}

/// A span whose ids are not numerals of their full length other than zero is never exported.
pub proof fn law_invalid_ids_are_rejected(
    span: SpanDataView,
    outer: Option<SpanContextView>,
    start_held: bool,
    end_held: bool,
    events_held: Seq<bool>,
)
    requires
        byte_len(span.span_context.trace_id) != 32 || trace_id_of(span.span_context.trace_id) is None
            || trace_id_of(span.span_context.trace_id) == Some(0u128) || byte_len(
            span.span_context.span_id,
        ) != 16 || span_id_of(span.span_context.span_id) is None || span_id_of(
            span.span_context.span_id,
        ) == Some(0u64),
    ensures
        match exported(span, outer, start_held, end_held, events_held) {
            Ok(_) => false,
            Err(error) => error == invalid("trace_id"@) || error == invalid("span_id"@),
        },
{
}

/// A span with a time that is not written as times are, or that ends before it starts, is never
/// exported.
pub proof fn law_invalid_times_are_rejected(
    span: SpanDataView,
    outer: Option<SpanContextView>,
    start_held: bool,
    end_held: bool,
    events_held: Seq<bool>,
)
    requires
        !proper(span.start_time) || !proper(span.end_time) || earlier(
            span.end_time,
            span.start_time,
        ) || exists|i: int| 0 <= i < span.events.len() && !proper((#[trigger] span.events[i]).time),
    ensures
        exported(span, outer, start_held, end_held, events_held) is Err,
{
    if exported(span, outer, start_held, end_held, events_held) is Ok {
        lemma_events_stay(span.events, events_held);
        if exists|i: int| 0 <= i < span.events.len() && !proper((#[trigger] span.events[i]).time) {
            let i = choose|i: int|
                0 <= i < span.events.len() && !proper((#[trigger] span.events[i]).time);
            assert(events_of(span.events, events_held)->Ok_0[i].timestamp == span.events[i].time);
        }
    }
}

/// Whether a text is so many hexadecimal digits, not all of them `0`.
pub open spec fn is_id(text: Seq<char>, digits: nat) -> bool {
    &&& text.len() == digits
    &&& forall|i: int| 0 <= i < text.len() ==> is_hex(#[trigger] text[i])
    &&& exists|i: int| 0 <= i < text.len() && #[trigger] text[i] != '0'
}

/// Hexadecimal digits, not all of them `0`, have one byte each and are a numeral other than zero.
proof fn lemma_ids_are_numerals(text: Seq<char>, digits: nat)
    requires
        digits > 0,
        is_id(text, digits),
    ensures
        byte_len(text) == digits,
        hex_numeral(text) == hex_value(text),
        hex_value(text) is Some,
        0 < hex_value(text)->0 < sixteen_to(digits),
{
    law_hex_rows_stand_for_numbers(text);
    assert(is_hex(text[0]));
    assert forall|i: int| 0 <= i < text.len() implies '\0' <= #[trigger] text[i] <= '\u{7f}' by {
        assert(is_hex(text[i]));
    }
    assert(vstd::utf8::is_ascii_chars(text));
    vstd::utf8::is_ascii_chars_encode_utf8(text);
    let i = choose|i: int| 0 <= i < text.len() && #[trigger] text[i] != '0';
    assert(!(forall|j: int| 0 <= j < text.len() ==> #[trigger] text[j] == '0'));
}

/// A guest's context whose ids are hexadecimal digits of their full number, of either case and not
/// all `0`, and whose trace state is well formed, is taken: with the numbers that the digits stand
/// for, and with all else as the guest gave it.
pub proof fn law_well_formed_contexts_are_taken(value: WitSpanContextView)
    requires
        is_id(value.trace_id, 32),
        is_id(value.span_id, 16),
        state_members(value.trace_state),
    ensures
        ({
            let taken = span_context_of(value);
            &&& taken is Ok
            &&& Some(taken->Ok_0.trace_id as nat) == hex_value(value.trace_id)
            &&& Some(taken->Ok_0.span_id as nat) == hex_value(value.span_id)
            &&& taken->Ok_0.sampled == value.sampled
            &&& taken->Ok_0.is_remote == value.is_remote
            &&& taken->Ok_0.trace_state == value.trace_state
        }),
{
    assert(sixteen_to(16) == 0x1_0000_0000_0000_0000) by {
        reveal_with_fuel(sixteen_to, 17);
    }
    assert(sixteen_to(32) == 0x1_0000_0000_0000_0000_0000_0000_0000_0000) by {
        reveal_with_fuel(sixteen_to, 17);
    }
    lemma_ids_are_numerals(value.trace_id, 32);
    lemma_ids_are_numerals(value.span_id, 16);
}

/// A guest's context with one fault is refused, and the fault is named: the trace id, the span id
/// or the trace state.
pub proof fn law_faults_of_contexts_are_named(value: WitSpanContextView)
    ensures
        byte_len(value.trace_id) != 32 ==> span_context_of(value) == Err::<
            SpanContextView,
            SpanConversionErrorView,
        >(SpanConversionErrorView::InvalidField("trace_id"@)),
        is_id(value.span_id, 16) && (trace_id_of(value.trace_id) is None || trace_id_of(
            value.trace_id,
        ) == Some(0u128)) ==> span_context_of(value) == Err::<
            SpanContextView,
            SpanConversionErrorView,
        >(SpanConversionErrorView::InvalidField("trace_id"@)),
        is_id(value.trace_id, 32) && (byte_len(value.span_id) != 16 || span_id_of(
            value.span_id,
        ) is None || span_id_of(value.span_id) == Some(0u64)) ==> span_context_of(value) == Err::<
            SpanContextView,
            SpanConversionErrorView,
        >(SpanConversionErrorView::InvalidField("span_id"@)),
        is_id(value.trace_id, 32) && is_id(value.span_id, 16) && !state_members(value.trace_state)
            ==> span_context_of(value) == Err::<SpanContextView, SpanConversionErrorView>(
            SpanConversionErrorView::InvalidField("trace_state"@),
        ),
{
    assert(sixteen_to(16) == 0x1_0000_0000_0000_0000) by {
        reveal_with_fuel(sixteen_to, 17);
    }
    assert(sixteen_to(32) == 0x1_0000_0000_0000_0000_0000_0000_0000_0000) by {
        reveal_with_fuel(sixteen_to, 17);
    }
    if is_id(value.trace_id, 32) {
        lemma_ids_are_numerals(value.trace_id, 32);
    }
    if is_id(value.span_id, 16) {
        lemma_ids_are_numerals(value.span_id, 16);
    }
}

/// A span names no parent with an empty text, and one with sixteen hexadecimal digits, not all
/// `0`; any other length and any other characters are refused.
pub proof fn law_parents_are_named_in_full(hex: Seq<char>)
    ensures
        hex.len() == 0 ==> parent_id_of(hex) == Ok::<u64, SpanConversionErrorView>(0),
        is_id(hex, 16) ==> parent_id_of(hex) is Ok && Some(parent_id_of(hex)->Ok_0 as nat)
            == hex_value(hex),
        hex.len() > 0 && (byte_len(hex) != 16 || hex_numeral(hex) is None || hex_numeral(hex) == Some(
            0nat,
        )) ==> parent_id_of(hex) == Err::<u64, SpanConversionErrorView>(
            SpanConversionErrorView::InvalidField("parent_span_id"@),
        ),
{
    assert(sixteen_to(16) == 0x1_0000_0000_0000_0000) by {
        reveal_with_fuel(sixteen_to, 17);
    }
    if is_id(hex, 16) {
        lemma_ids_are_numerals(hex, 16);
    }
}

/// A time with less than a second of nanoseconds is held exactly where the machine's clock says
/// so, however large it is, and then it is taken as it is; any other is not held. A time that is
/// not held is refused under the name of its field.
pub proof fn law_times_are_held_as_the_clock_says(time: Datetime, holds: bool, field: Seq<char>)
    requires
        clock_answer(time, holds),
    ensures
        time.nanoseconds < 1_000_000_000 ==> clock_says(time, holds),
        time.nanoseconds < 1_000_000_000 && clock_reaches(time) ==> holds && time_of(
            time,
            holds,
            field,
        ) == Ok::<Datetime, SpanConversionErrorView>(time),
        time.seconds == 0 && time.nanoseconds == 0 ==> holds,
        time.nanoseconds >= 1_000_000_000 ==> !holds,
        holds ==> time_of(time, holds, field) == Ok::<Datetime, SpanConversionErrorView>(time),
        !holds ==> time_of(time, holds, field) == Err::<Datetime, SpanConversionErrorView>(
            SpanConversionErrorView::InvalidField(field),
        ),
{
}

/// Times are compared by how long after the beginning of 1970 they are.
pub proof fn law_earlier_times_come_first(a: Datetime, b: Datetime)
    requires
        a.nanoseconds < 1_000_000_000,
        b.nanoseconds < 1_000_000_000,
    ensures
        earlier(a, b) == (a.seconds * 1_000_000_000 + a.nanoseconds < b.seconds * 1_000_000_000
            + b.nanoseconds),
{
}

/// Events whose times are held and whose attributes come through come through.
proof fn lemma_events_come_through(events: Seq<EventView>, held: Seq<bool>)
    requires
        held.len() >= events.len(),
        forall|i: int|
            0 <= i < events.len() ==> (#[trigger] events[i]).time.nanoseconds < 1_000_000_000
                && held[i] && attributes_of(events[i].attributes) is Ok,
    ensures
        events_of(events, held) is Ok,
    decreases events.len(),
{
    if events.len() > 0 {
        let init = events.drop_last();
        assert forall|i: int| 0 <= i < init.len() implies (
        #[trigger] init[i]).time.nanoseconds < 1_000_000_000 && held[i] && attributes_of(
            init[i].attributes,
        ) is Ok by {
            assert(init[i] == events[i]);
        }
        lemma_events_come_through(init, held);
        assert(events[events.len() - 1] == events.last());
    }
}

/// Links with contexts and attributes that come through come through.
proof fn lemma_links_come_through(links: Seq<LinkView>)
    requires
        forall|i: int|
            0 <= i < links.len() ==> span_context_of((#[trigger] links[i]).span_context) is Ok
                && attributes_of(links[i].attributes) is Ok,
    ensures
        links_of(links) is Ok,
    decreases links.len(),
{
    if links.len() > 0 {
        let init = links.drop_last();
        assert forall|i: int| 0 <= i < init.len() implies span_context_of(
            (#[trigger] init[i]).span_context,
        ) is Ok && attributes_of(init[i].attributes) is Ok by {
            assert(init[i] == links[i]);
        }
        lemma_links_come_through(init);
        assert(links[links.len() - 1] == links.last());
    }
}

/// Whether a guest's context is written as contexts are.
pub open spec fn well_written(value: WitSpanContextView) -> bool {
    is_id(value.trace_id, 32) && is_id(value.span_id, 16) && state_members(value.trace_state)
}

/// Whether a time has less than a second of nanoseconds and the machine's clock holds it.
pub open spec fn in_reach(time: Datetime) -> bool {
    time.nanoseconds < 1_000_000_000 && clock_reaches(time)
}

/// A span is exported where all of its times are written as times are and held by the machine's
/// clock, the end not before the start; where its ids and those of its links are written as ids
/// are; and where all its attributes come through.
pub proof fn law_spans_in_reach_of_the_clock_are_exported(
    span: SpanDataView,
    outer: Option<SpanContextView>,
    start_held: bool,
    end_held: bool,
    events_held: Seq<bool>,
)
    requires
        clock_answers(span, start_held, end_held, events_held),
        in_reach(span.start_time),
        in_reach(span.end_time),
        span.start_time.seconds * 1_000_000_000 + span.start_time.nanoseconds
            <= span.end_time.seconds * 1_000_000_000 + span.end_time.nanoseconds,
        well_written(span.span_context),
        span.parent_span_id.len() == 0 || is_id(span.parent_span_id, 16),
        forall|i: int|
            0 <= i < span.events.len() ==> in_reach((#[trigger] span.events[i]).time)
                && attributes_of(span.events[i].attributes) is Ok,
        forall|i: int|
            0 <= i < span.links.len() ==> well_written((#[trigger] span.links[i]).span_context)
                && attributes_of(span.links[i].attributes) is Ok,
        attributes_of(span.instrumentation_scope.attributes) is Ok,
        attributes_of(span.attributes) is Ok,
    ensures
        exported(span, outer, start_held, end_held, events_held) is Ok,
{
    law_well_formed_contexts_are_taken(span.span_context);
    law_parents_are_named_in_full(span.parent_span_id);
    law_times_are_held_as_the_clock_says(span.start_time, start_held, "start_time"@);
    law_times_are_held_as_the_clock_says(span.end_time, end_held, "end_time"@);
    law_earlier_times_come_first(span.end_time, span.start_time);
    assert forall|i: int| 0 <= i < span.events.len() implies (
    #[trigger] span.events[i]).time.nanoseconds < 1_000_000_000 && events_held[i] && attributes_of(
        span.events[i].attributes,
    ) is Ok by {
        assert(in_reach(span.events[i].time));
        assert(clock_answer(span.events[i].time, events_held[i]));
        law_times_are_held_as_the_clock_says(span.events[i].time, events_held[i], "event_time"@);
    }
    lemma_events_come_through(span.events, events_held);
    assert forall|i: int| 0 <= i < span.links.len() implies span_context_of(
        (#[trigger] span.links[i]).span_context,
    ) is Ok && attributes_of(span.links[i].attributes) is Ok by {
        law_well_formed_contexts_are_taken(span.links[i].span_context);
    }
    lemma_links_come_through(span.links);
}

/// Events that come through keep their attributes, and count none as dropped.
proof fn lemma_events_keep_attributes(events: Seq<EventView>, held: Seq<bool>, i: int)
    requires
        events_of(events, held) is Ok,
        0 <= i < events.len(),
    ensures
        events_of(events, held)->Ok_0.len() == events.len(),
        attributes_of(events[i].attributes) == Ok::<Seq<AttributeView>, SpanConversionErrorView>(
            events_of(events, held)->Ok_0[i].attributes,
        ),
        events_of(events, held)->Ok_0[i].dropped_attributes_count == 0,
        held[i],
    decreases events.len(),
{
    lemma_events_stay(events, held);
    let init = events.drop_last();
    lemma_events_stay(init, held);
    if i < events.len() - 1 {
        lemma_events_keep_attributes(init, held, i);
        assert(init[i] == events[i]);
        assert(events_of(events, held)->Ok_0[i] == events_of(init, held)->Ok_0[i]);
    }
}

/// Links that come through keep their attributes, and count none as dropped.
proof fn lemma_links_keep_attributes(links: Seq<LinkView>, i: int)
    requires
        links_of(links) is Ok,
        0 <= i < links.len(),
    ensures
        links_of(links)->Ok_0.len() == links.len(),
        attributes_of(links[i].attributes) == Ok::<Seq<AttributeView>, SpanConversionErrorView>(
            links_of(links)->Ok_0[i].attributes,
        ),
        links_of(links)->Ok_0[i].dropped_attributes_count == 0,
    decreases links.len(),
{
    lemma_links_stay(links);
    let init = links.drop_last();
    lemma_links_stay(init);
    if i < links.len() - 1 {
        lemma_links_keep_attributes(init, i);
        assert(init[i] == links[i]);
        assert(links_of(links)->Ok_0[i] == links_of(init)->Ok_0[i]);
    }
}

/// A span that is exported keeps its attributes and those of its scope, its events and its links,
/// the name, version and schema of its scope, and what it counts as dropped.
pub proof fn law_exported_spans_keep_their_attributes(
    span: SpanDataView,
    outer: Option<SpanContextView>,
    start_held: bool,
    end_held: bool,
    events_held: Seq<bool>,
)
    requires
        exported(span, outer, start_held, end_held, events_held) is Ok,
    ensures
        ({
            let out = exported(span, outer, start_held, end_held, events_held)->Ok_0;
            &&& out.span_context.is_remote == span.span_context.is_remote
            &&& attributes_of(span.attributes) == Ok::<Seq<AttributeView>, SpanConversionErrorView>(
                out.attributes,
            )
            &&& out.dropped_attributes_count == span.dropped_attributes
            &&& out.dropped_events_count == span.dropped_events
            &&& out.dropped_links_count == span.dropped_links
            &&& out.instrumentation_scope.name == span.instrumentation_scope.name
            &&& out.instrumentation_scope.version == span.instrumentation_scope.version
            &&& out.instrumentation_scope.schema_url == span.instrumentation_scope.schema_url
            &&& attributes_of(span.instrumentation_scope.attributes) == Ok::<
                Seq<AttributeView>,
                SpanConversionErrorView,
            >(out.instrumentation_scope.attributes)
            &&& start_held && end_held
            &&& forall|i: int|
                0 <= i < span.events.len() ==> attributes_of(span.events[i].attributes) == Ok::<
                    Seq<AttributeView>,
                    SpanConversionErrorView,
                >((#[trigger] out.events[i]).attributes) && out.events[i].dropped_attributes_count
                    == 0 && events_held[i]
            &&& forall|i: int|
                0 <= i < span.links.len() ==> attributes_of(span.links[i].attributes) == Ok::<
                    Seq<AttributeView>,
                    SpanConversionErrorView,
                >((#[trigger] out.links[i]).attributes) && out.links[i].dropped_attributes_count
                    == 0
        }),
{
    let out = exported(span, outer, start_held, end_held, events_held)->Ok_0;
    assert forall|i: int| 0 <= i < span.events.len() implies attributes_of(
        span.events[i].attributes,
    ) == Ok::<Seq<AttributeView>, SpanConversionErrorView>((#[trigger] out.events[i]).attributes)
        && out.events[i].dropped_attributes_count == 0 && events_held[i] by {
        lemma_events_keep_attributes(span.events, events_held, i);
    }
    assert forall|i: int| 0 <= i < span.links.len() implies attributes_of(span.links[i].attributes)
        == Ok::<Seq<AttributeView>, SpanConversionErrorView>((#[trigger] out.links[i]).attributes)
        && out.links[i].dropped_attributes_count == 0 by {
        lemma_links_keep_attributes(span.links, i);
    }
}

/// A span that is refused is told what is wrong with it: a fault of its context, its parent, its
/// start, its end, an event, a link, its scope or its attributes, in this order.
pub proof fn law_refused_spans_are_told_the_first_fault(
    span: SpanDataView,
    outer: Option<SpanContextView>,
    start_held: bool,
    end_held: bool,
    events_held: Seq<bool>,
    error: SpanConversionErrorView,
)
    ensures
        ({
            let refused = exported(span, outer, start_held, end_held, events_held) == Err::<
                ExportedSpanView,
                SpanConversionErrorView,
            >(error);
            let context = span_context_of(span.span_context);
            let parent = parent_id_of(span.parent_span_id);
            let identified = context is Ok && parent is Ok;
            let start = start_held && span.start_time.nanoseconds < 1_000_000_000;
            let end = end_held && span.end_time.nanoseconds < 1_000_000_000;
            let timed = identified && start && end && !earlier(span.end_time, span.start_time);
            let events = events_of(span.events, events_held);
            let links = links_of(span.links);
            &&& context is Err && context->Err_0 == error ==> refused
            &&& context is Ok && parent is Err && error == SpanConversionErrorView::InvalidField(
                "parent_span_id"@,
            ) ==> refused
            &&& identified && !start && error == SpanConversionErrorView::InvalidField(
                "start_time"@,
            ) ==> refused
            &&& identified && start && (!end || earlier(span.end_time, span.start_time)) && error
                == SpanConversionErrorView::InvalidField("end_time"@) ==> refused
            &&& timed && events is Err && events->Err_0 == error ==> refused
            &&& timed && events is Ok && links is Err && links->Err_0 == error ==> refused
            &&& timed && events is Ok && links is Ok && attributes_of(
                span.instrumentation_scope.attributes,
            ) == Err::<Seq<AttributeView>, SpanConversionErrorView>(error) ==> refused
            &&& timed && events is Ok && links is Ok && attributes_of(
                span.instrumentation_scope.attributes,
            ) is Ok && attributes_of(span.attributes) == Err::<
                Seq<AttributeView>,
                SpanConversionErrorView,
            >(error) ==> refused
        }),
{
}

/// An event whose time is not held, or is not written as times are, is refused for its time, and
/// one with an attribute that does not come through for that attribute, where all before it come
/// through; and so are all events with it. So it is with links and their contexts.
pub proof fn law_refused_events_and_links_are_told_the_first_fault(
    events: Seq<EventView>,
    held: Seq<bool>,
    links: Seq<LinkView>,
    i: int,
)
    ensures
        0 <= i < events.len() && events_of(events.take(i), held) is Ok && !(
        events[i].time.nanoseconds < 1_000_000_000 && held[i]) ==> events_of(events, held) == Err::<
            Seq<ExportedEventView>,
            SpanConversionErrorView,
        >(SpanConversionErrorView::InvalidField("event_time"@)),
        0 <= i < events.len() && events_of(events.take(i), held) is Ok
            && events[i].time.nanoseconds < 1_000_000_000 && held[i] && attributes_of(
            events[i].attributes,
        ) is Err ==> events_of(events, held) == Err::<
            Seq<ExportedEventView>,
            SpanConversionErrorView,
        >(attributes_of(events[i].attributes)->Err_0),
        0 <= i < links.len() && links_of(links.take(i)) is Ok && span_context_of(
            links[i].span_context,
        ) is Err ==> links_of(links) == Err::<Seq<ExportedLinkView>, SpanConversionErrorView>(
            span_context_of(links[i].span_context)->Err_0,
        ),
        0 <= i < links.len() && links_of(links.take(i)) is Ok && span_context_of(
            links[i].span_context,
        ) is Ok && attributes_of(links[i].attributes) is Err ==> links_of(links) == Err::<
            Seq<ExportedLinkView>,
            SpanConversionErrorView,
        >(attributes_of(links[i].attributes)->Err_0),
{
    if 0 <= i < events.len() && events_of(events.take(i), held) is Ok {
        assert(events.take(i + 1).drop_last() =~= events.take(i));
        if events_of(events.take(i + 1), held) is Err {
            lemma_event_error_stays(events, held, i + 1);
        }
    }
    if 0 <= i < links.len() && links_of(links.take(i)) is Ok {
        assert(links.take(i + 1).drop_last() =~= links.take(i));
        if links_of(links.take(i + 1)) is Err {
            lemma_link_error_stays(links, i + 1);
        }
    }
}

/// A guest is handed the context around it where that has an identity, and else one that is empty.
pub proof fn law_guests_are_handed_what_is_around_them(context: SpanContextView)
    requires
        state_members(context.trace_state),
    ensures
        context.trace_id != 0 && context.span_id != 0 ==> span_context_of(outer_context(context))
            == Ok::<SpanContextView, SpanConversionErrorView>(context),
        context.trace_id == 0 || context.span_id == 0 ==> ({
            let out = outer_context(context);
            &&& out.trace_id.len() == 0
            &&& out.span_id.len() == 0
            &&& !out.sampled
            &&& !out.is_remote
            &&& out.trace_state.len() == 0
        }),
{
    if identifies(context) {
        law_contexts_come_back(context);
    }
}

/// What a span holds is all that the guest gave: its ids, kind, name, times, status, scope and
/// counts, and its attributes, events and links, each in its place.
pub proof fn law_spans_hold_their_parts(span: SpanData, i: int)
    ensures
        span@.span_context.trace_id == span.span_context.trace_id@,
        span@.span_context.span_id == span.span_context.span_id@,
        span@.span_context.sampled == span.span_context.sampled,
        span@.span_context.is_remote == span.span_context.is_remote,
        span@.span_context.trace_state == pairs(span.span_context.trace_state@),
        span@.parent_span_id == span.parent_span_id@,
        span@.span_kind == span.span_kind,
        span@.name == span.name@,
        span@.start_time == span.start_time,
        span@.end_time == span.end_time,
        span@.status is Error == span.status is Error,
        span@.status is Okay == span.status is Okay,
        span.status matches Status::Error(message) ==> span@.status->Error_0 == message@,
        span@.instrumentation_scope.name == span.instrumentation_scope.name@,
        span@.instrumentation_scope.version == optional_text(span.instrumentation_scope.version),
        span@.instrumentation_scope.schema_url == optional_text(
            span.instrumentation_scope.schema_url,
        ),
        span@.instrumentation_scope.attributes == key_value_pairs(
            span.instrumentation_scope.attributes@,
        ),
        span@.dropped_attributes == span.dropped_attributes,
        span@.dropped_events == span.dropped_events,
        span@.dropped_links == span.dropped_links,
        span@.attributes.len() == span.attributes@.len(),
        0 <= i < span.attributes@.len() ==> span@.attributes[i].0 == span.attributes@[i].key@
            && span@.attributes[i].1 == span.attributes@[i].value@,
        span@.events.len() == span.events@.len(),
        0 <= i < span.events@.len() ==> span@.events[i].name == span.events@[i].name@
            && span@.events[i].time == span.events@[i].time && span@.events[i].attributes
            == key_value_pairs(span.events@[i].attributes@),
        span@.links.len() == span.links@.len(),
        0 <= i < span.links@.len() ==> span@.links[i].span_context == span.links@[i].span_context@
            && span@.links[i].attributes == key_value_pairs(span.links@[i].attributes@),
{
}

/// What an exported span holds is all that is exported of it, each part in its place.
pub proof fn law_exported_spans_hold_their_parts(
    span: ExportedSpan,
    result: Result<ExportedSpan, SpanConversionError>,
    i: int,
)
    ensures
        span@.span_context == span.span_context@,
        span@.parent_span_id == span.parent_span_id,
        span@.parent_span_is_remote == span.parent_span_is_remote,
        span@.span_kind == span.span_kind,
        span@.name == span.name@,
        span@.start_time == span.start_time,
        span@.end_time == span.end_time,
        span@.dropped_attributes_count == span.dropped_attributes_count,
        span@.dropped_events_count == span.dropped_events_count,
        span@.dropped_links_count == span.dropped_links_count,
        span@.status is Error == span.status is Error,
        span@.status is Okay == span.status is Okay,
        span.status matches Status::Error(message) ==> span@.status->Error_0 == message@,
        span@.instrumentation_scope.name == span.instrumentation_scope.name@,
        span@.instrumentation_scope.version == optional_text(span.instrumentation_scope.version),
        span@.instrumentation_scope.schema_url == optional_text(
            span.instrumentation_scope.schema_url,
        ),
        span@.attributes.len() == span.attributes@.len(),
        0 <= i < span.attributes@.len() ==> span@.attributes[i].key == span.attributes@[i].key@
            && span@.attributes[i].value == span.attributes@[i].value@,
        span@.events.len() == span.events@.len(),
        0 <= i < span.events@.len() ==> span@.events[i].name == span.events@[i].name@
            && span@.events[i].timestamp == span.events@[i].timestamp
            && span@.events[i].attributes.len() == span.events@[i].attributes@.len()
            && span@.events[i].dropped_attributes_count
            == span.events@[i].dropped_attributes_count,
        span@.links.len() == span.links@.len(),
        0 <= i < span.links@.len() ==> span@.links[i].span_context == span.links@[i].span_context@
            && span@.links[i].attributes.len() == span.links@[i].attributes@.len()
            && span@.links[i].dropped_attributes_count == span.links@[i].dropped_attributes_count,
        result matches Ok(own) ==> span_outcome(result) == Ok::<
            ExportedSpanView,
            SpanConversionErrorView,
        >(own@),
        result matches Err(error) ==> span_outcome(result) == Err::<
            ExportedSpanView,
            SpanConversionErrorView,
        >(error@),
{
}

} // verus!
