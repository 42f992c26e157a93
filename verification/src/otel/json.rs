//! Attributes: JSON in, typed values out.
use vstd::prelude::*;

use crate::otel::types::attribute_views;
use crate::otel::types::key_value_pairs;
use crate::otel::types::Attribute;
use crate::otel::types::AttributeValue;
use crate::otel::types::AttributeValueView;
use crate::otel::types::AttributeView;
use crate::otel::types::KeyValue;
use crate::otel::types::SpanConversionError;
use crate::otel::types::SpanConversionErrorView;
use crate::text::texts;

verus! {

/// A JSON number: as an integer, if it is one that fits; whether it was written as a
/// floating-point number; and its bits as one.
#[derive(Clone, Copy, Debug, PartialEq, Eq, Structural)]
pub struct JsonNumber {
    pub integer: Option<i64>,
    pub is_float: bool,
    pub bits: Option<u64>,
}

/// A JSON value that holds no other values, or one that does, as which it is not looked at.
#[derive(Debug, PartialEq, Eq)]
pub enum JsonScalar {
    Null,
    Flag(bool),
    Number(JsonNumber),
    Text(String),
    Nested,
}

/// What a [`JsonScalar`] holds.
pub enum JsonScalarView {
    Null,
    Flag(bool),
    Number(JsonNumber),
    Text(Seq<char>),
    Nested,
}

impl View for JsonScalar {
    type V = JsonScalarView;

    open spec fn view(&self) -> JsonScalarView {
        match self {
            JsonScalar::Null => JsonScalarView::Null,
            JsonScalar::Flag(flag) => JsonScalarView::Flag(*flag),
            JsonScalar::Number(number) => JsonScalarView::Number(*number),
            JsonScalar::Text(text) => JsonScalarView::Text(text@),
            JsonScalar::Nested => JsonScalarView::Nested,
        }
    }
}

/// A JSON value: a list of values, or anything else.
#[derive(Debug, PartialEq, Eq)]
pub enum JsonValue {
    List(Vec<JsonScalar>),
    Single(JsonScalar),
}

/// What a [`JsonValue`] holds.
pub enum JsonView {
    List(Seq<JsonScalarView>),
    Single(JsonScalarView),
}

/// What the values of a list hold.
pub open spec fn scalars(list: Seq<JsonScalar>) -> Seq<JsonScalarView> {
    list.map_values(|value: JsonScalar| value@)
}

impl View for JsonValue {
    type V = JsonView;

    open spec fn view(&self) -> JsonView {
        match self {
            JsonValue::List(list) => JsonView::List(scalars(list@)),
            JsonValue::Single(value) => JsonView::Single(value@),
        }
    }
}

/// The contents of an optional JSON value.
pub open spec fn optional_json(value: Option<JsonValue>) -> Option<JsonView> {
    match value {
        Some(value) => Some(value@),
        None => None,
    }
}

/// The JSON value that a text stands for, if it is JSON.
pub uninterp spec fn json_content(text: Seq<char>) -> Option<JsonView>;

/// `serde_json::from_str`: the JSON value that a text stands for. Of a number, what
/// `serde_json::Number::as_i64`, `is_f64` and `as_f64` say of it.
#[verifier::external_body]
fn read_json(text: &str) -> (value: Option<JsonValue>)
    ensures
        optional_json(value) == json_content(text@),
{
    let scalar = |value: &serde_json::Value| match value {
        serde_json::Value::Null => JsonScalar::Null,
        serde_json::Value::Bool(flag) => JsonScalar::Flag(*flag),
        serde_json::Value::Number(number) => JsonScalar::Number(JsonNumber {
            integer: number.as_i64(),
            is_float: number.is_f64(),
            bits: number.as_f64().map(|float| float.to_bits()),
        }),
        serde_json::Value::String(text) => JsonScalar::Text(text.clone()),
        serde_json::Value::Array(_) | serde_json::Value::Object(_) => JsonScalar::Nested,
    };
    Some(match serde_json::from_str(text).ok()? {
        serde_json::Value::Array(list) => JsonValue::List(list.iter().map(scalar).collect()),
        other => JsonValue::Single(scalar(&other)),
    })
}

// ---------------------------------------------------------------------------
// Typed values
// ---------------------------------------------------------------------------

/// Whether a value is a text.
pub open spec fn is_text(value: JsonScalarView) -> bool {
    value is Text
}

/// Whether a value is a flag.
pub open spec fn is_flag(value: JsonScalarView) -> bool {
    value is Flag
}

/// Whether a value is an integer that fits.
pub open spec fn is_integer(value: JsonScalarView) -> bool {
    value matches JsonScalarView::Number(number) && number.integer is Some
}

/// Whether a value was written as a floating-point number.
pub open spec fn is_float(value: JsonScalarView) -> bool {
    value matches JsonScalarView::Number(number) && number.is_float && number.bits is Some
}

/// The bits of a floating-point number.
pub open spec fn float_bits(value: JsonScalarView) -> u64 {
    value->Number_0.bits->0
}

/// Whether all values of a list are of one sort.
pub open spec fn all_of(list: Seq<JsonScalarView>, sort: spec_fn(JsonScalarView) -> bool) -> bool {
    forall|i: int| 0 <= i < list.len() ==> sort(#[trigger] list[i])
}

/// The attribute value that a JSON value stands for: texts, flags, integers that fit and
/// floating-point numbers do, and so do lists of values of one of these sorts. An empty list
/// counts as one of texts. Nothing else does.
pub open spec fn typed(value: JsonView) -> Option<AttributeValueView> {
    match value {
        JsonView::Single(single) => if single is Text {
            Some(AttributeValueView::Text(single->Text_0))
        } else if single is Flag {
            Some(AttributeValueView::Flag(single->Flag_0))
        } else if is_integer(single) {
            Some(AttributeValueView::Integer(single->Number_0.integer->0))
        } else if is_float(single) {
            Some(AttributeValueView::Float(float_bits(single)))
        } else {
            None
        },
        JsonView::List(list) => if all_of(list, |v: JsonScalarView| is_text(v)) {
            Some(AttributeValueView::Texts(list.map_values(|v: JsonScalarView| v->Text_0)))
        } else if all_of(list, |v: JsonScalarView| is_flag(v)) {
            Some(AttributeValueView::Flags(list.map_values(|v: JsonScalarView| v->Flag_0)))
        } else if all_of(list, |v: JsonScalarView| is_integer(v)) {
            Some(
                AttributeValueView::Integers(
                    list.map_values(|v: JsonScalarView| v->Number_0.integer->0),
                ),
            )
        } else if all_of(list, |v: JsonScalarView| is_float(v)) {
            Some(AttributeValueView::Floats(list.map_values(|v: JsonScalarView| float_bits(v))))
        } else {
            None
        },
    }
}

/// What an attribute with this key and this value, once read, comes to.
pub open spec fn attribute_value(key: Seq<char>, value: Option<JsonView>) -> Result<
    AttributeValueView,
    SpanConversionErrorView,
> {
    match value {
        Some(value) => match typed(value) {
            Some(value) => Ok(value),
            None => Err(SpanConversionErrorView::UnsupportedAttribute(key)),
        },
        None => Err(SpanConversionErrorView::UnsupportedAttribute(key)),
    }
}

/// What a result of a value holds.
pub open spec fn value_result(result: Result<AttributeValue, SpanConversionError>) -> Result<
    AttributeValueView,
    SpanConversionErrorView,
> {
    match result {
        Ok(value) => Ok(value@),
        Err(error) => Err(error@),
    }
}

fn collect_texts(list: &Vec<JsonScalar>) -> (out: Option<Vec<String>>)
    ensures
        match out {
            Some(texts_) => all_of(scalars(list@), |v: JsonScalarView| is_text(v)) && texts(
                texts_@,
            ) == scalars(list@).map_values(|v: JsonScalarView| v->Text_0),
            None => !all_of(scalars(list@), |v: JsonScalarView| is_text(v)),
        },
{
    let n: usize = list.len();
    let ghost all = scalars(list@);
    let mut out: Vec<String> = Vec::new();
    for i in 0..n
        invariant
            n == list@.len(),
            all == scalars(list@),
            out@.len() == i,
            forall|j: int| 0 <= j < i ==> is_text(#[trigger] all[j]),
            forall|j: int| 0 <= j < i ==> (#[trigger] out@[j])@ == all[j]->Text_0,
    {
        assert(all[i as int] == list@[i as int]@);
        match &list[i] {
            JsonScalar::Text(text) => {
                out.push(text.clone());
            },
            _ => {
                assert(!is_text(all[i as int]));
                return None;
            },
        }
    }
    assert(texts(out@) =~= all.map_values(|v: JsonScalarView| v->Text_0));
    Some(out)
}

fn collect_flags(list: &Vec<JsonScalar>) -> (out: Option<Vec<bool>>)
    ensures
        match out {
            Some(flags) => all_of(scalars(list@), |v: JsonScalarView| is_flag(v)) && flags@
                == scalars(list@).map_values(|v: JsonScalarView| v->Flag_0),
            None => !all_of(scalars(list@), |v: JsonScalarView| is_flag(v)),
        },
{
    let n: usize = list.len();
    let ghost all = scalars(list@);
    let mut out: Vec<bool> = Vec::new();
    for i in 0..n
        invariant
            n == list@.len(),
            all == scalars(list@),
            out@.len() == i,
            forall|j: int| 0 <= j < i ==> is_flag(#[trigger] all[j]),
            forall|j: int| 0 <= j < i ==> #[trigger] out@[j] == all[j]->Flag_0,
    {
        assert(all[i as int] == list@[i as int]@);
        match &list[i] {
            JsonScalar::Flag(flag) => {
                out.push(*flag);
            },
            _ => {
                assert(!is_flag(all[i as int]));
                return None;
            },
        }
    }
    assert(out@ =~= all.map_values(|v: JsonScalarView| v->Flag_0));
    Some(out)
}

fn collect_integers(list: &Vec<JsonScalar>) -> (out: Option<Vec<i64>>)
    ensures
        match out {
            Some(numbers) => all_of(scalars(list@), |v: JsonScalarView| is_integer(v)) && numbers@
                == scalars(list@).map_values(|v: JsonScalarView| v->Number_0.integer->0),
            None => !all_of(scalars(list@), |v: JsonScalarView| is_integer(v)),
        },
{
    let n: usize = list.len();
    let ghost all = scalars(list@);
    let mut out: Vec<i64> = Vec::new();
    for i in 0..n
        invariant
            n == list@.len(),
            all == scalars(list@),
            out@.len() == i,
            forall|j: int| 0 <= j < i ==> is_integer(#[trigger] all[j]),
            forall|j: int| 0 <= j < i ==> #[trigger] out@[j] == all[j]->Number_0.integer->0,
    {
        assert(all[i as int] == list@[i as int]@);
        match &list[i] {
            JsonScalar::Number(JsonNumber { integer: Some(number), .. }) => {
                out.push(*number);
            },
            _ => {
                assert(!is_integer(all[i as int]));
                return None;
            },
        }
    }
    assert(out@ =~= all.map_values(|v: JsonScalarView| v->Number_0.integer->0));
    Some(out)
}

fn collect_floats(list: &Vec<JsonScalar>) -> (out: Option<Vec<u64>>)
    ensures
        match out {
            Some(numbers) => all_of(scalars(list@), |v: JsonScalarView| is_float(v)) && numbers@
                == scalars(list@).map_values(|v: JsonScalarView| float_bits(v)),
            None => !all_of(scalars(list@), |v: JsonScalarView| is_float(v)),
        },
{
    let n: usize = list.len();
    let ghost all = scalars(list@);
    let mut out: Vec<u64> = Vec::new();
    for i in 0..n
        invariant
            n == list@.len(),
            all == scalars(list@),
            out@.len() == i,
            forall|j: int| 0 <= j < i ==> is_float(#[trigger] all[j]),
            forall|j: int| 0 <= j < i ==> #[trigger] out@[j] == float_bits(all[j]),
    {
        assert(all[i as int] == list@[i as int]@);
        match &list[i] {
            JsonScalar::Number(JsonNumber { is_float: true, bits: Some(bits), .. }) => {
                out.push(*bits);
            },
            _ => {
                assert(!is_float(all[i as int]));
                return None;
            },
        }
    }
    assert(out@ =~= all.map_values(|v: JsonScalarView| float_bits(v)));
    Some(out)
}

/// The attribute value that a JSON value stands for.
pub fn typed_value(value: JsonValue) -> (out: Option<AttributeValue>)
    ensures
        match out {
            Some(out) => typed(value@) == Some(out@),
            None => typed(value@) is None,
        },
{
    match value {
        JsonValue::Single(single) => match single {
            JsonScalar::Text(text) => Some(AttributeValue::Text(text)),
            JsonScalar::Flag(flag) => Some(AttributeValue::Flag(flag)),
            JsonScalar::Number(number) => {
                if let Some(integer) = number.integer {
                    Some(AttributeValue::Integer(integer))
                } else if number.is_float {
                    match number.bits {
                        Some(bits) => Some(AttributeValue::Float(bits)),
                        None => None,
                    }
                } else {
                    None
                }
            },
            JsonScalar::Null => None,
            JsonScalar::Nested => None,
        },
        JsonValue::List(list) => {
            if let Some(out) = collect_texts(&list) {
                return Some(AttributeValue::Texts(out));
            }
            if let Some(out) = collect_flags(&list) {
                return Some(AttributeValue::Flags(out));
            }
            if let Some(out) = collect_integers(&list) {
                return Some(AttributeValue::Integers(out));
            }
            if let Some(out) = collect_floats(&list) {
                return Some(AttributeValue::Floats(out));
            }
            None
        },
    }
}

/// What an attribute comes to, once its value was read.
pub fn json_attribute(key: &str, value: Option<JsonValue>) -> (result: Result<
    AttributeValue,
    SpanConversionError,
>)
    ensures
        value_result(result) == attribute_value(key@, optional_json(value)),
{
    if let Some(value) = value {
        if let Some(out) = typed_value(value) {
            return Ok(out);
        }
    }
    Err(SpanConversionError::UnsupportedAttribute(key.to_string()))
}

/// What an attribute comes to.
pub fn json_value(key: &str, raw: &str) -> (result: Result<AttributeValue, SpanConversionError>)
    ensures
        value_result(result) == attribute_value(key@, json_content(raw@)),
{
    json_attribute(key, read_json(raw))
}

// ---------------------------------------------------------------------------
// Lists of attributes
// ---------------------------------------------------------------------------

/// What a list of attributes comes to: each of them, or the error of the first that has none.
pub open spec fn attributes_of(list: Seq<(Seq<char>, Seq<char>)>) -> Result<
    Seq<AttributeView>,
    SpanConversionErrorView,
>
    decreases list.len(),
{
    if list.len() == 0 {
        Ok(Seq::empty())
    } else {
        match attributes_of(list.drop_last()) {
            Err(error) => Err(error),
            Ok(done) => match attribute_value(list.last().0, json_content(list.last().1)) {
                Err(error) => Err(error),
                Ok(value) => Ok(done.push(AttributeView { key: list.last().0, value })),
            },
        }
    }
}

/// The error that a part of a list of attributes has is that of the whole list.
pub proof fn lemma_first_error_stays(list: Seq<(Seq<char>, Seq<char>)>, n: int)
    requires
        0 <= n <= list.len(),
        attributes_of(list.take(n)) is Err,
    ensures
        attributes_of(list) == attributes_of(list.take(n)),
    decreases list.len(),
{
    if n < list.len() {
        assert(list.drop_last().take(n) =~= list.take(n));
        lemma_first_error_stays(list.drop_last(), n);
    } else {
        assert(list.take(n) =~= list);
    }
}

/// What a result of attributes holds.
pub open spec fn attributes_result(result: Result<Vec<Attribute>, SpanConversionError>) -> Result<
    Seq<AttributeView>,
    SpanConversionErrorView,
> {
    match result {
        Ok(list) => Ok(attribute_views(list@)),
        Err(error) => Err(error@),
    }
}

/// What a list of attributes comes to.
pub fn key_values(values: Vec<KeyValue>) -> (result: Result<Vec<Attribute>, SpanConversionError>)
    ensures
        attributes_result(result) == attributes_of(key_value_pairs(values@)),
{
    let n: usize = values.len();
    let ghost all = key_value_pairs(values@);
    let mut out: Vec<Attribute> = Vec::new();
    assert(all.take(0) =~= Seq::empty());
    assert(attribute_views(out@) =~= Seq::empty());
    for i in 0..n
        invariant
            n == values@.len(),
            all == key_value_pairs(values@),
            attributes_of(all.take(i as int)) == Ok::<Seq<AttributeView>, SpanConversionErrorView>(
                attribute_views(out@),
            ),
    {
        let ghost done = attribute_views(out@);
        proof {
            assert(all.take(i + 1).drop_last() =~= all.take(i as int));
            assert(all.take(i + 1).last() == (values@[i as int].key@, values@[i as int].value@));
        }
        match json_value(values[i].key.as_str(), values[i].value.as_str()) {
            Ok(value) => {
                let attribute = Attribute { key: values[i].key.clone(), value };
                out.push(attribute);
                assert(attribute_views(out@) =~= done.push(attribute@));
            },
            Err(error) => {
                proof {
                    lemma_first_error_stays(all, i + 1);
                }
                return Err(error);
            },
        }
    }
    assert(all.take(n as int) =~= all);
    Ok(out)
}

/// Attributes keep their keys and their order: where a list of them comes to anything, it comes to
/// as many, each under its own key.
pub proof fn law_attributes_keep_their_keys(list: Seq<(Seq<char>, Seq<char>)>)
    ensures
        attributes_of(list) matches Ok(out) ==> out.len() == list.len() && forall|i: int|
            0 <= i < list.len() ==> (#[trigger] out[i]).key == list[i].0,
    decreases list.len(),
{
    if list.len() > 0 {
        law_attributes_keep_their_keys(list.drop_last());
    }
}

/// A text, a flag, an integer that fits and a floating-point number are kept as they are; what is
/// none of these is not taken.
pub proof fn law_single_values_are_kept(
    text: Seq<char>,
    flag: bool,
    number: JsonNumber,
)
    ensures
        typed(JsonView::Single(JsonScalarView::Text(text))) == Some(AttributeValueView::Text(text)),
        typed(JsonView::Single(JsonScalarView::Flag(flag))) == Some(AttributeValueView::Flag(flag)),
        number.integer matches Some(integer) ==> typed(
            JsonView::Single(JsonScalarView::Number(number)),
        ) == Some(AttributeValueView::Integer(integer)),
        number.integer is None && number.is_float && number.bits is Some ==> typed(
            JsonView::Single(JsonScalarView::Number(number)),
        ) == Some(AttributeValueView::Float(number.bits->0)),
        number.integer is None && !(number.is_float && number.bits is Some) ==> typed(
            JsonView::Single(JsonScalarView::Number(number)),
        ) is None,
        typed(JsonView::Single(JsonScalarView::Null)) is None,
        typed(JsonView::Single(JsonScalarView::Nested)) is None,
{
}

/// A list of texts, of flags, of integers or of floating-point numbers is kept with all that it
/// holds, in order; an empty list is one of texts.
pub proof fn law_lists_of_one_sort_are_kept(
    words: Seq<Seq<char>>,
    flags: Seq<bool>,
    integers: Seq<i64>,
    floats: Seq<u64>,
    list: Seq<JsonScalarView>,
)
    ensures
        list.len() == words.len() && (forall|i: int|
            0 <= i < words.len() ==> #[trigger] list[i] == JsonScalarView::Text(words[i])) ==> typed(
            JsonView::List(list),
        ) == Some(AttributeValueView::Texts(words)),
        flags.len() > 0 && list.len() == flags.len() && (forall|i: int|
            0 <= i < flags.len() ==> #[trigger] list[i] == JsonScalarView::Flag(flags[i])) ==> typed(
            JsonView::List(list),
        ) == Some(AttributeValueView::Flags(flags)),
        integers.len() > 0 && list.len() == integers.len() && (forall|i: int|
            0 <= i < integers.len() ==> (#[trigger] list[i] matches JsonScalarView::Number(number)
                && number.integer == Some(integers[i]))) ==> typed(JsonView::List(list)) == Some(
            AttributeValueView::Integers(integers),
        ),
        floats.len() > 0 && list.len() == floats.len() && (forall|i: int|
            0 <= i < floats.len() ==> (#[trigger] list[i] matches JsonScalarView::Number(number)
                && number.integer is None && number.is_float && number.bits == Some(floats[i])))
            ==> typed(JsonView::List(list)) == Some(AttributeValueView::Floats(floats)),
{
    if list.len() > 0 {
        let first = list[0];
        assert(all_of(list, |v: JsonScalarView| is_text(v)) ==> is_text(first));
        assert(all_of(list, |v: JsonScalarView| is_flag(v)) ==> is_flag(first));
        assert(all_of(list, |v: JsonScalarView| is_integer(v)) ==> is_integer(first));
    }
    if list.len() == words.len() && (forall|i: int|
        0 <= i < words.len() ==> #[trigger] list[i] == JsonScalarView::Text(words[i])) {
        assert(list.map_values(|v: JsonScalarView| v->Text_0) =~= words);
    }
    if flags.len() > 0 && list.len() == flags.len() && (forall|i: int|
        0 <= i < flags.len() ==> #[trigger] list[i] == JsonScalarView::Flag(flags[i])) {
        assert(list.map_values(|v: JsonScalarView| v->Flag_0) =~= flags);
    }
    if integers.len() > 0 && list.len() == integers.len() && (forall|i: int|
        0 <= i < integers.len() ==> (#[trigger] list[i] matches JsonScalarView::Number(number)
            && number.integer == Some(integers[i]))) {
        assert(list.map_values(|v: JsonScalarView| v->Number_0.integer->0) =~= integers);
    }
    if floats.len() > 0 && list.len() == floats.len() && (forall|i: int|
        0 <= i < floats.len() ==> (#[trigger] list[i] matches JsonScalarView::Number(number)
            && number.integer is None && number.is_float && number.bits == Some(floats[i]))) {
        assert(list.map_values(|v: JsonScalarView| float_bits(v)) =~= floats);
    }
}

/// A list that holds values of two sorts, or one value that is of none of the sorts, is not taken.
pub proof fn law_mixed_lists_are_not_taken(list: Seq<JsonScalarView>, i: int, j: int)
    requires
        0 <= i < list.len(),
        0 <= j < list.len(),
    ensures
        list[i] is Null || list[i] is Nested ==> typed(JsonView::List(list)) is None,
        list[i] is Text && !(list[j] is Text) ==> typed(JsonView::List(list)) is None,
        list[i] is Flag && !(list[j] is Flag) ==> typed(JsonView::List(list)) is None,
        (list[i] matches JsonScalarView::Number(number) && number.integer is None && !(
        number.is_float && number.bits is Some)) ==> typed(JsonView::List(list)) is None,
{
    assert(all_of(list, |v: JsonScalarView| is_text(v)) ==> is_text(list[i]) && is_text(list[j]));
    assert(all_of(list, |v: JsonScalarView| is_flag(v)) ==> is_flag(list[i]) && is_flag(list[j]));
    assert(all_of(list, |v: JsonScalarView| is_integer(v)) ==> is_integer(list[i]) && is_integer(
        list[j],
    ));
    assert(all_of(list, |v: JsonScalarView| is_float(v)) ==> is_float(list[i]) && is_float(list[j]));
}

/// A list of attributes comes through exactly where every value in it is JSON of a sort that is
/// taken. Each attribute then has the value that its JSON stands for; else the first that is not
/// taken is named.
pub proof fn law_attributes_keep_their_values(list: Seq<(Seq<char>, Seq<char>)>)
    ensures
        attributes_of(list) is Ok == (forall|i: int|
            0 <= i < list.len() ==> (json_content((#[trigger] list[i]).1) matches Some(json)
                && typed(json) is Some)),
        attributes_of(list) matches Ok(out) ==> out.len() == list.len() && forall|i: int|
            0 <= i < list.len() ==> (#[trigger] out[i]).key == list[i].0 && json_content(
                list[i].1,
            ) is Some && typed(json_content(list[i].1)->0) == Some(out[i].value),
        attributes_of(list) matches Err(error) ==> exists|i: int|
            0 <= i < list.len() && error == SpanConversionErrorView::UnsupportedAttribute(
                (#[trigger] list[i]).0,
            ) && !(json_content(list[i].1) matches Some(json) && typed(json) is Some) && forall|j:
                int|
                0 <= j < i ==> (json_content((#[trigger] list[j]).1) matches Some(json) && typed(
                    json,
                ) is Some),
    decreases list.len(),
{
    if list.len() > 0 {
        let init = list.drop_last();
        law_attributes_keep_their_values(init);
        let last = list[list.len() - 1];
        assert(forall|i: int| 0 <= i < init.len() ==> #[trigger] init[i] == list[i]);
        if attributes_of(init) is Err {
            let i = choose|i: int|
                0 <= i < init.len() && attributes_of(init)->Err_0
                    == SpanConversionErrorView::UnsupportedAttribute((#[trigger] init[i]).0) && !(
                json_content(init[i].1) matches Some(json) && typed(json) is Some) && forall|j: int|
                    0 <= j < i ==> (json_content((#[trigger] init[j]).1) matches Some(json)
                        && typed(json) is Some);
            assert(list[i] == init[i]);
            assert forall|j: int| 0 <= j < i implies (json_content((#[trigger] list[j]).1) matches Some(
                json,
            ) && typed(json) is Some) by {
                assert(init[j] == list[j]);
            }
        } else {
            assert forall|i: int| 0 <= i < init.len() implies (json_content(
                (#[trigger] list[i]).1,
            ) matches Some(json) && typed(json) is Some) by {
                assert(init[i] == list[i]);
            }
        }
    }
}

} // verus!
