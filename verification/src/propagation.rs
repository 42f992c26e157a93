//! Trace contexts across process and guest boundaries.
use vstd::prelude::*;

use opentelemetry::propagation::TextMapPropagator;
use opentelemetry::trace::TraceContextExt;

use crate::text::cut_once;
use crate::text::hex_digit_value;
use crate::text::hex_fixed;
use crate::text::hex_numeral;
use crate::text::hex_value;
use crate::text::join_with;
use crate::text::law_hex_reads_back;
use crate::text::law_join_then_split;
use crate::text::lemma_first_position;
use crate::text::lemma_first_position_is;
use crate::text::lemma_joined_holds_the_pieces;
use crate::text::lemma_pieces_are_of_the_text;
use crate::text::optional_str;
use crate::text::optional_text;
use crate::text::push_hex;
use crate::text::push_text;
use crate::text::sixteen_to;
use crate::text::split_ended;
use crate::text::split_on;
use crate::text::trimmed;

verus! {

/// A trace context as it is propagated: the W3C headers of the same names.
#[derive(Debug, PartialEq, Eq)]
pub struct PropagationContext {
    pub traceparent: String,
    pub tracestate: Option<String>,
}

/// What a carrier of a trace context holds.
pub struct TraceContextView {
    pub traceparent: Seq<char>,
    pub tracestate: Option<Seq<char>>,
}

impl View for PropagationContext {
    type V = TraceContextView;

    open spec fn view(&self) -> TraceContextView {
        TraceContextView {
            traceparent: self.traceparent@,
            tracestate: optional_text(self.tracestate),
        }
    }
}

impl Clone for PropagationContext {
    fn clone(&self) -> (copy: Self)
        ensures
            copy@ == self@,
    {
        PropagationContext {
            traceparent: self.traceparent.clone(),
            tracestate: self.tracestate.clone(),
        }
    }
}

// ---------------------------------------------------------------------------
// Trace state
// ---------------------------------------------------------------------------

/// The keys and values of a list.
pub open spec fn pairs(list: Seq<(String, String)>) -> Seq<(Seq<char>, Seq<char>)> {
    list.map_values(|entry: (String, String)| (entry.0@, entry.1@))
}

/// A small letter or a digit of ASCII.
pub open spec fn small_or_digit(byte: u8) -> bool {
    0x61 <= byte <= 0x7a || 0x30 <= byte <= 0x39
}

/// Whether `key` can stand in a trace state: up to 256 bytes, small letters, digits and
/// `_ - * / @`, the first a letter or a digit; an `@` stands at most once, among the last
/// fourteen bytes, with a letter or a digit behind it, if anything.
pub open spec fn state_key(key: Seq<char>) -> bool {
    let bytes = vstd::utf8::encode_utf8(key);
    &&& bytes.len() <= 256
    &&& bytes.len() > 0 ==> small_or_digit(bytes[0])
    &&& forall|i: int|
        0 <= i < bytes.len() ==> small_or_digit(#[trigger] bytes[i]) || bytes[i] == 0x5f || bytes[i]
            == 0x2d || bytes[i] == 0x2a || bytes[i] == 0x2f || (bytes[i] == 0x40 && bytes.len() <= i
            + 14 && (i + 1 < bytes.len() ==> small_or_digit(bytes[i + 1])))
    &&& forall|i: int, j: int|
        0 <= i < j < bytes.len() ==> !(#[trigger] bytes[i] == 0x40 && #[trigger] bytes[j] == 0x40)
}

/// Whether `value` can stand in a trace state: up to 256 bytes without `,` and `=`.
pub open spec fn state_value(value: Seq<char>) -> bool {
    &&& vstd::utf8::encode_utf8(value).len() <= 256
    &&& !value.contains(',')
    &&& !value.contains('=')
}

/// Whether every key and value of a list can stand in a trace state.
pub open spec fn state_members(list: Seq<(Seq<char>, Seq<char>)>) -> bool {
    forall|i: int|
        0 <= i < list.len() ==> state_key((#[trigger] list[i]).0) && state_value(list[i].1)
}

/// The list members of a trace state, `key=value` each.
pub open spec fn state_texts(list: Seq<(Seq<char>, Seq<char>)>) -> Seq<Seq<char>> {
    list.map_values(|entry: (Seq<char>, Seq<char>)| entry.0 + seq!['='] + entry.1)
}

/// The `tracestate` header of a list: its members, with `,` between them.
pub open spec fn state_header(list: Seq<(Seq<char>, Seq<char>)>) -> Seq<char> {
    join_with(state_texts(list), ',')
}

/// Whether a text stays on one line.
pub open spec fn one_line(text: Seq<char>) -> bool {
    !text.contains('\r') && !text.contains('\n')
}

/// `s` without the `=` that it begins with.
pub open spec fn past_equals(s: Seq<char>) -> Seq<char>
    decreases s.len(),
{
    if s.len() > 0 && s[0] == '=' {
        past_equals(s.drop_first())
    } else {
        s
    }
}

/// The key and the value of a list member: what stands before its first `=`, and what stands
/// behind that and any that follow at once.
pub open spec fn member_entry(member: Seq<char>) -> (Seq<char>, Seq<char>) {
    match cut_once(member, '=') {
        Some((key, rest)) => (key, past_equals(rest)),
        None => (member, Seq::empty()),
    }
}

/// The list that a `tracestate` header stands for, if it is well formed: `,` ends its members,
/// each of them holds a `=`, and every key and value can stand in a trace state.
pub open spec fn state_entries(header: Seq<char>) -> Option<Seq<(Seq<char>, Seq<char>)>> {
    let members = split_ended(header, ',');
    let list = members.map_values(|member: Seq<char>| member_entry(member));
    if (forall|i: int| 0 <= i < members.len() ==> (#[trigger] members[i]).contains('='))
        && state_members(list) {
        Some(list)
    } else {
        None
    }
}

/// `opentelemetry::trace::TraceState::from_key_value`: whether it takes the list, which it does
/// where every key and value can stand in a trace state.
#[verifier::external_body]
pub(crate) fn accepted_entries(list: &Vec<(String, String)>) -> (accepted: bool)
    ensures
        accepted == state_members(pairs(list@)),
{
    let entries = list.iter().map(|entry| (entry.0.as_str(), entry.1.as_str()));
    opentelemetry::trace::TraceState::from_key_value(entries).is_ok()
}

/// `opentelemetry::trace::TraceState::from_str`: the list that a header stands for, if it is well
/// formed.
#[verifier::external_body]
fn read_state(header: &str) -> (list: Option<Vec<(String, String)>>)
    ensures
        state_entries(header@) == (match list {
            Some(list) => Some(pairs(list@)),
            None => None,
        }),
{
    let state: opentelemetry::trace::TraceState = header.parse().ok()?;
    let own = |entry: (&str, &str)| (entry.0.to_string(), entry.1.to_string());
    Some(state.into_iter().map(own).collect())
}

/// An ASCII character of a text is a byte of its encoding.
proof fn lemma_ascii_is_encoded(text: Seq<char>, c: char)
    requires
        text.contains(c),
        c as u32 <= 0x7f,
    ensures
        vstd::utf8::encode_utf8(text).contains(c as u8),
    decreases text.len(),
{
    let bytes = vstd::utf8::encode_utf8(text);
    let head = vstd::utf8::encode_scalar(text[0] as u32);
    let rest = vstd::utf8::encode_utf8(text.drop_first());
    assert(bytes == head + rest);
    if text[0] == c {
        let u = c as u32;
        assert(u as u8 == vstd::utf8::leading_byte_width_1(u)) by (bit_vector)
            requires
                u <= 0x7f,
        ;
        assert(head[0] == c as u8);
        assert(bytes[0] == c as u8);
    } else {
        let at = choose|at: int| 0 <= at < text.len() && text[at] == c;
        assert(text.drop_first()[at - 1] == c);
        lemma_ascii_is_encoded(text.drop_first(), c);
        let i = choose|i: int| 0 <= i < rest.len() && rest[i] == c as u8;
        assert(bytes[head.len() + i] == c as u8);
    }
}

/// A key of a trace state holds neither `,` nor `=`.
proof fn lemma_keys_are_plain(key: Seq<char>)
    requires
        state_key(key),
    ensures
        !key.contains(','),
        !key.contains('='),
{
    let bytes = vstd::utf8::encode_utf8(key);
    if key.contains(',') {
        lemma_ascii_is_encoded(key, ',');
        let i = choose|i: int| 0 <= i < bytes.len() && bytes[i] == 0x2cu8;
        assert(bytes[i] == 0x2c);
    }
    if key.contains('=') {
        lemma_ascii_is_encoded(key, '=');
        let i = choose|i: int| 0 <= i < bytes.len() && bytes[i] == 0x3du8;
        assert(bytes[i] == 0x3d);
    }
}

/// A member of a trace state falls apart into its key and its value.
pub(crate) proof fn lemma_members_fall_apart(key: Seq<char>, value: Seq<char>)
    requires
        state_key(key),
        state_value(value),
    ensures
        !(key + seq!['='] + value).contains(','),
        cut_once(key + seq!['='] + value, '=') == Some((key, value)),
{
    lemma_keys_are_plain(key);
    let member = key + seq!['='] + value;
    let at = key.len() as int;
    if member.contains(',') {
        let i = choose|i: int| 0 <= i < member.len() && member[i] == ',';
        if i < at {
            assert(key[i] == ',');
        } else if i > at {
            assert(value[i - at - 1] == ',');
        }
    }
    assert forall|i: int| 0 <= i < at implies member[i] != '=' by {
        assert(member[i] == key[i]);
        assert(key.contains(key[i]));
    }
    lemma_first_position_is(member, '=', at);
    assert(member.take(at) =~= key);
    assert(member.skip(at + 1) =~= value);
}

/// Skipping `=` loses nothing else.
proof fn lemma_past_equals(s: Seq<char>)
    ensures
        forall|c: char| #[trigger] past_equals(s).contains(c) ==> s.contains(c),
        !s.contains('=') ==> past_equals(s) == s,
    decreases s.len(),
{
    if s.len() > 0 && s[0] == '=' {
        let rest = s.drop_first();
        lemma_past_equals(rest);
        assert forall|c: char| #[trigger] past_equals(s).contains(c) implies s.contains(c) by {
            assert(past_equals(rest).contains(c));
            let i = choose|i: int| 0 <= i < rest.len() && rest[i] == c;
            assert(s[i + 1] == c);
        }
    }
}

/// The key and the value of a member hold only what the member holds.
proof fn lemma_entries_are_of_the_member(member: Seq<char>, c: char)
    ensures
        member_entry(member).0.contains(c) ==> member.contains(c),
        member_entry(member).1.contains(c) ==> member.contains(c),
{
    lemma_first_position(member, '=');
    if let Some((key, rest)) = cut_once(member, '=') {
        lemma_past_equals(rest);
        if key.contains(c) {
            let i = choose|i: int| 0 <= i < key.len() && key[i] == c;
            assert(member[i] == c);
        }
        if rest.contains(c) {
            let i = choose|i: int| 0 <= i < rest.len() && rest[i] == c;
            assert(member[key.len() + 1 + i] == c);
        }
    }
}

/// What a header stands for holds nothing, apart from `,` and `=`, that the header does not hold.
proof fn lemma_lists_are_of_the_header(header: Seq<char>, c: char)
    requires
        state_entries(header) is Some,
        state_header(state_entries(header)->0).contains(c),
        c != ',',
        c != '=',
    ensures
        header.contains(c),
{
    let list = state_entries(header)->0;
    let members = split_ended(header, ',');
    let i = lemma_joined_holds_the_pieces(state_texts(list), ',', c);
    let text = list[i].0 + seq!['='] + list[i].1;
    assert(state_texts(list)[i] == text);
    let k = choose|k: int| 0 <= k < text.len() && text[k] == c;
    if k < list[i].0.len() {
        assert(list[i].0[k] == c);
    } else {
        assert(k != list[i].0.len());
        assert(list[i].1[k - list[i].0.len() - 1] == c);
    }
    assert(list[i] == member_entry(members[i]));
    lemma_entries_are_of_the_member(members[i], c);
    assert(members[i] == split_on(header, ',')[i]);
    lemma_pieces_are_of_the_text(header, ',', i, c);
}

/// A well formed list is read back from its own header.
proof fn lemma_lists_are_read_back(list: Seq<(Seq<char>, Seq<char>)>)
    requires
        state_members(list),
    ensures
        state_entries(state_header(list)) == Some(list),
{
    let header = state_header(list);
    let texts = state_texts(list);
    let members = split_ended(header, ',');
    if list.len() == 0 {
        assert(header =~= Seq::empty());
        assert(split_on(header, ',') =~= seq![Seq::<char>::empty()]);
        assert(members =~= Seq::empty());
    } else {
        assert forall|i: int| 0 <= i < texts.len() implies !(#[trigger] texts[i]).contains(',')
            && texts[i].contains('=') && texts[i].len() > 0 && member_entry(texts[i])
            == list[i] by {
            let text = list[i].0 + seq!['='] + list[i].1;
            assert(texts[i] == text);
            lemma_members_fall_apart(list[i].0, list[i].1);
            assert(text[list[i].0.len() as int] == '=');
            lemma_past_equals(list[i].1);
        }
        law_join_then_split(texts, ',');
        assert(texts[texts.len() - 1].len() > 0);
        assert(members =~= texts);
    }
    assert(members.map_values(|member: Seq<char>| member_entry(member)) =~= list);
}

/// The `tracestate` header of a list.
pub fn write_state(list: &Vec<(String, String)>) -> (header: String)
    ensures
        header@ == state_header(pairs(list@)),
{
    let n: usize = list.len();
    let mut header = String::new();
    let ghost all = state_texts(pairs(list@));
    let mut i: usize = 0;
    while i < n
        invariant
            i <= n,
            n == list@.len(),
            all == state_texts(pairs(list@)),
            header@ == join_with(all.take(i as int), ','),
        decreases n - i,
    {
        let ghost before = header@;
        if i > 0 {
            push_text(&mut header, ",");
        }
        push_text(&mut header, list[i].0.as_str());
        push_text(&mut header, "=");
        push_text(&mut header, list[i].1.as_str());
        proof {
            reveal_strlit(",");
            reveal_strlit("=");
            assert(all[i as int] == list@[i as int].0@ + seq!['='] + list@[i as int].1@);
            assert(all.take(i + 1).drop_last() =~= all.take(i as int));
            assert(","@ =~= seq![',']);
            assert("="@ =~= seq!['=']);
            if i == 0 {
                assert(header@ =~= all[0]);
            } else {
                assert(header@ =~= before + seq![','] + all[i as int]);
            }
        }
        i = i + 1;
    }
    assert(all.take(n as int) =~= all);
    header
}

// ---------------------------------------------------------------------------
// Span contexts
// ---------------------------------------------------------------------------

/// What identifies a span to others. An id of zero is none.
#[derive(Debug, PartialEq, Eq)]
pub struct SpanContext {
    pub trace_id: u128,
    pub span_id: u64,
    pub sampled: bool,
    pub is_remote: bool,
    pub trace_state: Vec<(String, String)>,
}

/// What a [`SpanContext`] holds.
#[verifier::ext_equal]
pub struct SpanContextView {
    pub trace_id: u128,
    pub span_id: u64,
    pub sampled: bool,
    pub is_remote: bool,
    pub trace_state: Seq<(Seq<char>, Seq<char>)>,
}

impl View for SpanContext {
    type V = SpanContextView;

    open spec fn view(&self) -> SpanContextView {
        SpanContextView {
            trace_id: self.trace_id,
            span_id: self.span_id,
            sampled: self.sampled,
            is_remote: self.is_remote,
            trace_state: pairs(self.trace_state@),
        }
    }
}

/// Copies a list of keys and values.
pub fn copy_pairs(list: &Vec<(String, String)>) -> (copy: Vec<(String, String)>)
    ensures
        pairs(copy@) == pairs(list@),
{
    let n: usize = list.len();
    let mut copy: Vec<(String, String)> = Vec::new();
    for i in 0..n
        invariant
            n == list@.len(),
            copy@.len() == i,
            forall|j: int|
                0 <= j < i ==> (#[trigger] copy@[j]).0@ == list@[j].0@ && copy@[j].1@ == list@[j].1@,
    {
        copy.push((list[i].0.clone(), list[i].1.clone()));
    }
    assert(pairs(copy@) =~= pairs(list@));
    copy
}

impl Clone for SpanContext {
    fn clone(&self) -> (copy: Self)
        ensures
            copy@ == self@,
    {
        SpanContext {
            trace_id: self.trace_id,
            span_id: self.span_id,
            sampled: self.sampled,
            is_remote: self.is_remote,
            trace_state: copy_pairs(&self.trace_state),
        }
    }
}

/// Whether a context identifies a span.
pub open spec fn identifies(context: SpanContextView) -> bool {
    context.trace_id != 0 && context.span_id != 0
}

/// The `traceparent` header of a span.
pub open spec fn parent_text(trace_id: u128, span_id: u64, sampled: bool) -> Seq<char> {
    seq!['0', '0', '-'] + hex_fixed(trace_id as nat, 32) + seq!['-'] + hex_fixed(span_id as nat, 16)
        + seq!['-', '0', if sampled {
        '1'
    } else {
        '0'
    }]
}

/// What is propagated of a span: nothing of one that has no identity; else its `traceparent`,
/// and its `tracestate`, if it has any.
pub open spec fn injected(context: SpanContextView) -> TraceContextView {
    if identifies(context) {
        TraceContextView {
            traceparent: parent_text(context.trace_id, context.span_id, context.sampled),
            tracestate: if context.trace_state.len() == 0 {
                None
            } else {
                Some(state_header(context.trace_state))
            },
        }
    } else {
        TraceContextView { traceparent: Seq::empty(), tracestate: None }
    }
}

/// The trace id that a hexadecimal numeral stands for, if it is one that fits.
pub open spec fn trace_id_of(hex: Seq<char>) -> Option<u128> {
    match hex_numeral(hex) {
        Some(n) => if n <= u128::MAX {
            Some(n as u128)
        } else {
            None
        },
        None => None,
    }
}

/// The span id that a hexadecimal numeral stands for, if it is one that fits.
pub open spec fn span_id_of(hex: Seq<char>) -> Option<u64> {
    match hex_numeral(hex) {
        Some(n) => if n <= u64::MAX {
            Some(n as u64)
        } else {
            None
        },
        None => None,
    }
}

/// Whether a text holds no capital letter of ASCII.
pub open spec fn no_capitals(text: Seq<char>) -> bool {
    forall|i: int| 0 <= i < text.len() ==> !('A' <= #[trigger] text[i] <= 'Z')
}

/// The ids and the sampling flag that the parts of a `traceparent` header stand for, if they are
/// well formed: a version of at most 254, of which version 0 has no further parts; a trace id and a
/// span id other than zero; and flags, of which the lowest bit is the sampling flag. All are
/// hexadecimal numerals, those behind the version without capitals.
pub open spec fn ids_of_parts(parts: Seq<Seq<char>>) -> Option<(u128, u64, bool)> {
    match (
        hex_numeral(parts[0]),
        trace_id_of(parts[1]),
        span_id_of(parts[2]),
        hex_numeral(parts[3]),
    ) {
        (Some(version), Some(trace_id), Some(span_id), Some(flags)) => if version <= 254 && (version
            == 0 ==> parts.len() == 4) && no_capitals(parts[1]) && no_capitals(parts[2])
            && no_capitals(parts[3]) && flags <= 255 && trace_id != 0 && span_id != 0 {
            Some((trace_id, span_id, flags % 2 == 1))
        } else {
            None
        },
        _ => None,
    }
}

/// The ids and the sampling flag that a `traceparent` header stands for, if it is well formed: its
/// parts, of which there are at least four, end with `-`.
pub open spec fn parent_ids(traceparent: Seq<char>) -> Option<(u128, u64, bool)> {
    let parts = split_ended(trimmed(traceparent), '-');
    if parts.len() < 4 {
        None
    } else {
        ids_of_parts(parts)
    }
}

/// The `traceparent` of a span with an identity stands for what it was made of.
proof fn lemma_parents_are_read_back(trace_id: u128, span_id: u64, sampled: bool)
    requires
        trace_id != 0,
        span_id != 0,
    ensures
        parent_ids(parent_text(trace_id, span_id, sampled)) == Some((trace_id, span_id, sampled)),
{
    let text = parent_text(trace_id, span_id, sampled);
    let version = seq!['0', '0'];
    let first = hex_fixed(trace_id as nat, 32);
    let second = hex_fixed(span_id as nat, 16);
    let flags = seq!['0', if sampled {
        '1'
    } else {
        '0'
    }];
    assert(sixteen_to(16) == 0x1_0000_0000_0000_0000) by {
        reveal_with_fuel(sixteen_to, 17);
    }
    assert(sixteen_to(32) == 0x1_0000_0000_0000_0000_0000_0000_0000_0000) by {
        reveal_with_fuel(sixteen_to, 17);
    }
    law_hex_reads_back(trace_id as nat, 32);
    law_hex_reads_back(span_id as nat, 16);
    let parts = seq![version, first, second, flags];
    assert(join_with(parts, '-') =~= text) by {
        reveal_with_fuel(join_with, 5);
        assert(parts.drop_last() =~= seq![version, first, second]);
        assert(parts.drop_last().drop_last() =~= seq![version, first]);
        assert(parts.drop_last().drop_last().drop_last() =~= seq![version]);
    }
    assert forall|i: int| 0 <= i < parts.len() implies !(#[trigger] parts[i]).contains('-') by {
        if parts[i].contains('-') {
            let k = choose|k: int| 0 <= k < parts[i].len() && parts[i][k] == '-';
            if i == 1 {
                assert(hex_digit_value(first[k]) is Some);
            } else if i == 2 {
                assert(hex_digit_value(second[k]) is Some);
            }
        }
    }
    law_join_then_split(parts, '-');
    assert(text[0] == '0');
    assert(text.last() == flags[1]);
    assert(trimmed(text) == text);
    assert(split_ended(text, '-') == parts);
    assert(hex_numeral(version) == Some(0nat)) by {
        reveal_with_fuel(hex_value, 3);
    }
    assert(hex_numeral(flags) == Some(if sampled {
        1nat
    } else {
        0nat
    })) by {
        reveal_with_fuel(hex_value, 3);
    }
    assert forall|i: int| 0 <= i < first.len() implies !('A' <= #[trigger] first[i] <= 'Z') by {
        assert(!(0x41 <= first[i] as u32 <= 0x5A));
    }
    assert forall|i: int| 0 <= i < second.len() implies !('A' <= #[trigger] second[i] <= 'Z') by {
        assert(!(0x41 <= second[i] as u32 <= 0x5A));
    }
}

/// The list of an optional `tracestate` header: empty where there is none or it is malformed.
pub open spec fn optional_entries(tracestate: Option<Seq<char>>) -> Seq<(Seq<char>, Seq<char>)> {
    match tracestate {
        Some(header) => match state_entries(header) {
            Some(list) => list,
            None => Seq::empty(),
        },
        None => Seq::empty(),
    }
}

/// `opentelemetry_sdk::propagation::TraceContextPropagator::extract_with_context`, on these two
/// headers and no others: the span context that they stand for, or one without identity. A
/// malformed `tracestate` counts as none.
#[verifier::external_body]
fn extract(traceparent: &str, tracestate: Option<&str>) -> (context: SpanContext)
    ensures
        match parent_ids(traceparent@) {
            Some((trace_id, span_id, sampled)) => context@ == (SpanContextView {
                trace_id,
                span_id,
                sampled,
                is_remote: true,
                trace_state: optional_entries(optional_str(tracestate)),
            }),
            None => !identifies(context@),
        },
{
    let mut carrier = std::collections::HashMap::new();
    carrier.insert("traceparent".to_string(), traceparent.to_string());
    carrier.extend(tracestate.map(|state| ("tracestate".to_string(), state.to_string())));
    let propagator = opentelemetry_sdk::propagation::TraceContextPropagator::new();
    let context = propagator.extract_with_context(&opentelemetry::Context::new(), &carrier);
    let found = context.span().span_context().clone();
    SpanContext {
        trace_id: u128::from_be_bytes(found.trace_id().to_bytes()),
        span_id: u64::from_be_bytes(found.span_id().to_bytes()),
        sampled: found.is_sampled(),
        is_remote: found.is_remote(),
        trace_state: found.trace_state().into_iter().map(|e| (e.0.into(), e.1.into())).collect(),
    }
}

/// Why a propagated context was rejected.
#[derive(Clone, Copy, Debug, PartialEq, Eq, Structural)]
pub enum PropagationError {
    TraceParent,
    TraceState,
}

impl PropagationError {
    /// The words for this error.
    pub fn text(&self) -> (text: &'static str)
        ensures
            text@ == (match self {
                PropagationError::TraceParent => "invalid traceparent"@,
                PropagationError::TraceState => "invalid tracestate"@,
            }),
    {
        match self {
            PropagationError::TraceParent => "invalid traceparent",
            PropagationError::TraceState => "invalid tracestate",
        }
    }
}

/// The span that a propagated context stands for: both headers must be well formed.
pub open spec fn propagated(value: TraceContextView) -> Result<SpanContextView, PropagationError> {
    if value.tracestate matches Some(header) && state_entries(header) is None {
        Err(PropagationError::TraceState)
    } else {
        match parent_ids(value.traceparent) {
            Some((trace_id, span_id, sampled)) => Ok(
                SpanContextView {
                    trace_id,
                    span_id,
                    sampled,
                    is_remote: true,
                    trace_state: optional_entries(value.tracestate),
                },
            ),
            None => Err(PropagationError::TraceParent),
        }
    }
}

/// What a result of a span context holds.
pub open spec fn context_result(result: Result<SpanContext, PropagationError>) -> Result<
    SpanContextView,
    PropagationError,
> {
    match result {
        Ok(context) => Ok(context@),
        Err(error) => Err(error),
    }
}

/// What is made of an extracted context and of whether its `tracestate` was well formed.
pub fn accept_context(context: SpanContext, state_read: bool) -> (result: Result<
    SpanContext,
    PropagationError,
>)
    ensures
        context_result(result) == (if !state_read {
            Err(PropagationError::TraceState)
        } else if !identifies(context@) {
            Err(PropagationError::TraceParent)
        } else {
            Ok::<SpanContextView, PropagationError>(context@)
        }),
{
    if !state_read {
        Err(PropagationError::TraceState)
    } else if context.trace_id == 0 || context.span_id == 0 {
        Err(PropagationError::TraceParent)
    } else {
        Ok(context)
    }
}

/// The span that a propagated context stands for. What [`inject_context`] makes of a span with an
/// identity stands for that span again, as a remote one; a `traceparent` of fewer than four parts
/// stands for none.
pub fn context_from_propagation(value: &PropagationContext) -> (result: Result<
    SpanContext,
    PropagationError,
>)
    ensures
        context_result(result) == propagated(value@),
        result matches Ok(context) ==> identifies(context@) && context.is_remote && state_members(
            context@.trace_state,
        ),
        result matches Ok(context) ==> (value@.tracestate matches Some(header) ==> one_line(header))
            ==> one_line(state_header(context@.trace_state)),
        split_on(trimmed(value@.traceparent), '-').len() < 4 ==> result is Err,
        forall|context: SpanContextView|
            identifies(context) && state_members(context.trace_state) && value@
                == #[trigger] injected(context) ==> context_result(result) == Ok::<
                SpanContextView,
                PropagationError,
            >(SpanContextView { is_remote: true, ..context }),
{
    let mut state_read = true;
    let state: Option<&str> = match &value.tracestate {
        Some(header) => {
            match read_state(header.as_str()) {
                Some(_) => {},
                None => {
                    state_read = false;
                },
            }
            Some(header.as_str())
        },
        None => None,
    };
    let context = extract(value.traceparent.as_str(), state);
    let result = accept_context(context, state_read);
    proof {
        assert(state_header(Seq::empty()) =~= Seq::<char>::empty());
        if let Some(header) = value@.tracestate {
            if state_entries(header) is Some && one_line(header) {
                let written = state_header(state_entries(header)->0);
                if written.contains('\r') {
                    lemma_lists_are_of_the_header(header, '\r');
                }
                if written.contains('\n') {
                    lemma_lists_are_of_the_header(header, '\n');
                }
            }
        }
        assert forall|own: SpanContextView|
            identifies(own) && state_members(own.trace_state) && value@ == #[trigger] injected(
                own,
            ) implies context_result(result) == Ok::<SpanContextView, PropagationError>(
            SpanContextView { is_remote: true, ..own },
        ) by {
            lemma_parents_are_read_back(own.trace_id, own.span_id, own.sampled);
            lemma_lists_are_read_back(own.trace_state);
            if own.trace_state.len() > 0 {
                assert(value@.tracestate == Some(state_header(own.trace_state)));
            } else {
                assert(own.trace_state =~= Seq::empty());
            }
            assert(context@ =~= (SpanContextView { is_remote: true, ..own }));
        }
    }
    result
}

/// What is propagated of a span.
pub fn inject_context(context: &SpanContext) -> (value: PropagationContext)
    ensures
        value@ == injected(context@),
{
    if context.trace_id == 0 || context.span_id == 0 {
        let value = PropagationContext { traceparent: String::new(), tracestate: None };
        assert(value@.traceparent =~= Seq::<char>::empty());
        return value;
    }
    let mut traceparent = String::new();
    push_text(&mut traceparent, "00-");
    push_hex(&mut traceparent, context.trace_id, 32);
    push_text(&mut traceparent, "-");
    push_hex(&mut traceparent, context.span_id as u128, 16);
    push_text(
        &mut traceparent,
        if context.sampled {
            "-01"
        } else {
            "-00"
        },
    );
    proof {
        reveal_strlit("00-");
        reveal_strlit("-");
        reveal_strlit("-01");
        reveal_strlit("-00");
        assert(traceparent@ =~= parent_text(context.trace_id, context.span_id, context.sampled));
    }
    let tracestate = if context.trace_state.len() == 0 {
        None
    } else {
        Some(write_state(&context.trace_state))
    };
    PropagationContext { traceparent, tracestate }
}

/// What is propagated of a span with an identity is a `traceparent` of four parts with `-` between
/// them: `00`, the thirty-two digits of its trace id, the sixteen of its span id, and `01` where it
/// is sampled, else `00`; and its `tracestate`, if it has any. Of a span without identity nothing
/// is propagated.
pub proof fn law_spans_are_propagated_in_four_parts(context: SpanContextView)
    ensures
        context.trace_id != 0 && context.span_id != 0 ==> ({
            let text = injected(context).traceparent;
            &&& text.len() == 55
            &&& text.take(3) == seq!['0', '0', '-']
            &&& hex_value(text.subrange(3, 35)) == Some(context.trace_id as nat)
            &&& text[35] == '-'
            &&& hex_value(text.subrange(36, 52)) == Some(context.span_id as nat)
            &&& text.subrange(52, 54) == seq!['-', '0']
            &&& text[54] == (if context.sampled {
                '1'
            } else {
                '0'
            })
            &&& injected(context).tracestate is Some == (context.trace_state.len() > 0)
            &&& context.trace_state.len() > 0 ==> injected(context).tracestate == Some(
                state_header(context.trace_state),
            )
        }),
        context.trace_id == 0 || context.span_id == 0 ==> injected(context).traceparent.len() == 0
            && injected(context).tracestate is None,
{
    assert(sixteen_to(16) == 0x1_0000_0000_0000_0000) by {
        reveal_with_fuel(sixteen_to, 17);
    }
    assert(sixteen_to(32) == 0x1_0000_0000_0000_0000_0000_0000_0000_0000) by {
        reveal_with_fuel(sixteen_to, 17);
    }
    law_hex_reads_back(context.trace_id as nat, 32);
    law_hex_reads_back(context.span_id as nat, 16);
    if identifies(context) {
        let text = injected(context).traceparent;
        assert(text.take(3) =~= seq!['0', '0', '-']);
        assert(text.subrange(3, 35) =~= hex_fixed(context.trace_id as nat, 32));
        assert(text.subrange(36, 52) =~= hex_fixed(context.span_id as nat, 16));
        assert(text.subrange(52, 54) =~= seq!['-', '0']);
    }
}

/// A span that is propagated and taken up again is the same span, as a remote one.
pub proof fn law_propagated_spans_are_taken_up(context: SpanContextView)
    requires
        context.trace_id != 0,
        context.span_id != 0,
        state_members(context.trace_state),
    ensures
        propagated(injected(context)) == Ok::<SpanContextView, PropagationError>(
            SpanContextView {
                trace_id: context.trace_id,
                span_id: context.span_id,
                sampled: context.sampled,
                is_remote: true,
                trace_state: context.trace_state,
            },
        ),
{
    lemma_parents_are_read_back(context.trace_id, context.span_id, context.sampled);
    lemma_lists_are_read_back(context.trace_state);
    if context.trace_state.len() == 0 {
        assert(context.trace_state =~= Seq::empty());
    }
}

/// A propagated context with a malformed `tracestate` is refused for it, and one with a malformed
/// `traceparent` else for that; where both are well formed, the span has the ids and the flag of the
/// one and the list of the other, and is remote.
pub proof fn law_propagated_contexts_are_taken_whole(value: TraceContextView)
    ensures
        value.tracestate is Some && state_entries(value.tracestate->0) is None ==> propagated(value)
            == Err::<SpanContextView, PropagationError>(PropagationError::TraceState),
        (value.tracestate matches Some(header) ==> state_entries(header) is Some) && parent_ids(
            value.traceparent,
        ) is None ==> propagated(value) == Err::<SpanContextView, PropagationError>(
            PropagationError::TraceParent,
        ),
        (value.tracestate matches Some(header) ==> state_entries(header) is Some) && parent_ids(
            value.traceparent,
        ) is Some ==> (propagated(value) matches Ok(context) && {
            &&& (context.trace_id, context.span_id, context.sampled) == parent_ids(
                value.traceparent,
            )->0
            &&& context.is_remote
            &&& value.tracestate is None ==> context.trace_state.len() == 0
            &&& value.tracestate matches Some(header) ==> Some(context.trace_state)
                == state_entries(header)
        }),
{
}

/// What a context holds is its ids, its flags and the keys and values of its trace state, in order.
pub proof fn law_contexts_hold_their_parts(
    context: SpanContext,
    value: PropagationContext,
    result: Result<SpanContext, PropagationError>,
    i: int,
)
    ensures
        context@.trace_id == context.trace_id,
        context@.span_id == context.span_id,
        context@.sampled == context.sampled,
        context@.is_remote == context.is_remote,
        context@.trace_state.len() == context.trace_state@.len(),
        0 <= i < context.trace_state@.len() ==> context@.trace_state[i].0
            == context.trace_state@[i].0@ && context@.trace_state[i].1
            == context.trace_state@[i].1@,
        value@.traceparent == value.traceparent@,
        value@.tracestate is Some == value.tracestate is Some,
        value.tracestate matches Some(text) ==> value@.tracestate->0 == text@,
        result matches Ok(own) ==> context_result(result) == Ok::<
            SpanContextView,
            PropagationError,
        >(own@),
        result matches Err(error) ==> context_result(result) == Err::<
            SpanContextView,
            PropagationError,
        >(error),
{
}

} // verus!
