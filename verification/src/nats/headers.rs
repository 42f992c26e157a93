//! The headers of NATS messages.
use vstd::prelude::*;

use crate::propagation::one_line;
use crate::text::characters;
use crate::text::same_text;

verus! {

/// `async_nats::HeaderMap`.
#[verifier::external_type_specification]
#[verifier::external_body]
pub struct ExHeaderMap(async_nats::HeaderMap);

/// `async_nats::HeaderName`.
#[verifier::external_type_specification]
#[verifier::external_body]
pub struct ExHeaderName(async_nats::HeaderName);

/// `async_nats::HeaderValue`.
#[verifier::external_type_specification]
#[verifier::external_body]
pub struct ExHeaderValue(async_nats::HeaderValue);

/// The characters that the name of a header holds.
pub uninterp spec fn name_text(name: async_nats::HeaderName) -> Seq<char>;

/// The characters that the value of a header holds.
pub uninterp spec fn value_text(value: async_nats::HeaderValue) -> Seq<char>;

/// The characters of values.
pub open spec fn value_texts(list: Seq<async_nats::HeaderValue>) -> Seq<Seq<char>> {
    list.map_values(|value: async_nats::HeaderValue| value_text(value))
}

/// The values that a header map holds under each name, in order.
pub uninterp spec fn header_lists(headers: async_nats::HeaderMap) -> Map<Seq<char>, Seq<Seq<char>>>;

/// The values under a name.
pub open spec fn header_values(headers: async_nats::HeaderMap, name: Seq<char>) -> Seq<Seq<char>> {
    if header_lists(headers).contains_key(name) {
        header_lists(headers)[name]
    } else {
        Seq::empty()
    }
}

/// The first value under a name.
pub open spec fn first_value(headers: async_nats::HeaderMap, name: Seq<char>) -> Option<Seq<char>> {
    if header_values(headers, name).len() > 0 {
        Some(header_values(headers, name)[0])
    } else {
        None
    }
}

/// No values under any name.
pub open spec fn no_headers() -> Map<Seq<char>, Seq<Seq<char>>> {
    Map::empty()
}

/// Whether a text can be the name of a header: visible ASCII characters other than `:`.
pub open spec fn header_name(name: Seq<char>) -> bool {
    forall|i: int| 0 <= i < name.len() ==> '!' <= #[trigger] name[i] <= '~' && name[i] != ':'
}

/// `async_nats::HeaderMap::new`: no headers.
#[verifier::external_body]
pub(crate) fn new_headers() -> (headers: async_nats::HeaderMap)
    ensures
        header_lists(headers) == no_headers(),
{
    async_nats::HeaderMap::new()
}

/// `async_nats::HeaderMap::get`, which panics on what cannot be a name: the first value under a
/// name.
#[verifier::external_body]
fn get(headers: &async_nats::HeaderMap, name: &str) -> (value: Option<String>)
    requires
        header_name(name@),
    ensures
        match value {
            Some(text) => header_lists(*headers).contains_key(name@) && header_lists(
                *headers,
            )[name@].len() > 0 && text@ == header_lists(*headers)[name@][0],
            None => !header_lists(*headers).contains_key(name@) || header_lists(
                *headers,
            )[name@].len() == 0,
        },
{
    headers.get(name).map(|value| value.as_str().to_string())
}

/// `async_nats::HeaderMap::insert`, which panics on what cannot be a name or holds a line break:
/// puts a value under a name, in place of those that stood there.
#[verifier::external_body]
fn insert(headers: &mut async_nats::HeaderMap, name: &str, value: &str)
    requires
        header_name(name@),
        one_line(value@),
    ensures
        header_lists(*final(headers)) == header_lists(*old(headers)).insert(name@, seq![value@]),
{
    headers.insert(name, value)
}

/// `async_nats::HeaderMap::append` on a name and a value of the outside types, which it takes as
/// they are: puts the value behind those that stand under the name.
#[verifier::external_body]
fn append(
    headers: &mut async_nats::HeaderMap,
    name: &async_nats::HeaderName,
    value: &async_nats::HeaderValue,
)
    ensures
        header_lists(*final(headers)) == header_lists(*old(headers)).insert(
            name_text(*name),
            if header_lists(*old(headers)).contains_key(name_text(*name)) {
                header_lists(*old(headers))[name_text(*name)].push(value_text(*value))
            } else {
                seq![value_text(*value)]
            },
        ),
{
    headers.append(name.clone(), value.clone())
}

/// `async_nats::HeaderMap::iter`: each name, with its characters and its values, once, in an order
/// that is not fixed.
#[verifier::external_body]
fn entries(headers: &async_nats::HeaderMap) -> (list: Vec<
    (String, async_nats::HeaderName, Vec<async_nats::HeaderValue>),
>)
    ensures
        forall|i: int|
            0 <= i < list@.len() ==> (#[trigger] list@[i]).0@ == name_text(list@[i].1)
                && header_lists(*headers).contains_key(list@[i].0@) && header_lists(
                *headers,
            )[list@[i].0@] == value_texts(list@[i].2@),
        forall|i: int, j: int|
            0 <= i < j < list@.len() ==> (#[trigger] list@[i]).0@ != (#[trigger] list@[j]).0@,
        forall|name: Seq<char>| #[trigger]
            header_lists(*headers).contains_key(name) ==> exists|i: int|
                0 <= i < list@.len() && (#[trigger] list@[i]).0@ == name,
{
    headers.iter().map(|entry| (entry.0.to_string(), entry.0.clone(), entry.1.clone())).collect()
}

/// Whether `text` stays on one line.
pub fn is_one_line(text: &str) -> (yes: bool)
    ensures
        yes == one_line(text@),
{
    let all = characters(text);
    let n: usize = all.len();
    for i in 0..n
        invariant
            n == all@.len(),
            all@ == text@,
            forall|j: int| 0 <= j < i ==> #[trigger] text@[j] != '\r' && text@[j] != '\n',
    {
        if all[i] == '\r' || all[i] == '\n' {
            assert(text@[i as int] == all@[i as int]);
            return false;
        }
    }
    true
}

/// The first value under `name`.
pub fn header(headers: &async_nats::HeaderMap, name: &str) -> (value: Option<String>)
    requires
        header_name(name@),
    ensures
        match value {
            Some(text) => first_value(*headers, name@) == Some(text@),
            None => first_value(*headers, name@) is None,
        },
{
    get(headers, name)
}

/// Puts `value` under `name`, in place of what stood there.
pub fn set_header(headers: &mut async_nats::HeaderMap, name: &str, value: &str)
    requires
        header_name(name@),
        one_line(value@),
    ensures
        forall|other: Seq<char>| #[trigger]
            header_values(*final(headers), other) == (if other == name@ {
                seq![value@]
            } else {
                header_values(*old(headers), other)
            }),
{
    insert(headers, name, value);
}

/// Puts values behind those that stand under a name.
fn append_all(
    headers: &mut async_nats::HeaderMap,
    name: &async_nats::HeaderName,
    values: &Vec<async_nats::HeaderValue>,
)
    ensures
        header_lists(*final(headers)).remove(name_text(*name)) == header_lists(
            *old(headers),
        ).remove(name_text(*name)),
        header_values(*final(headers), name_text(*name)) == header_values(
            *old(headers),
            name_text(*name),
        ) + value_texts(values@),
{
    let n: usize = values.len();
    let ghost before = *headers;
    let ghost key = name_text(*name);
    let ghost all = value_texts(values@);
    assert(header_values(before, key) + all.take(0) =~= header_values(before, key));
    for k in 0..n
        invariant
            n == values@.len(),
            key == name_text(*name),
            all == value_texts(values@),
            header_lists(*headers).remove(key) == header_lists(before).remove(key),
            header_values(*headers, key) == header_values(before, key) + all.take(k as int),
    {
        let ghost midway = *headers;
        append(headers, name, &values[k]);
        proof {
            assert(header_lists(*headers).remove(key) =~= header_lists(midway).remove(key));
            assert(header_values(*headers, key) =~= header_values(midway, key).push(all[k as int]));
            assert(header_values(*headers, key) =~= header_values(before, key) + all.take(k + 1));
        }
    }
    assert(all.take(n as int) =~= all);
}

/// Takes the values under `name` out, and leaves all others as they are.
pub fn remove_header(headers: &mut async_nats::HeaderMap, name: &str)
    ensures
        forall|other: Seq<char>| #[trigger]
            header_values(*final(headers), other) == (if other == name@ {
                Seq::empty()
            } else {
                header_values(*old(headers), other)
            }),
{
    let list = entries(headers);
    let ghost before = *headers;
    let n: usize = list.len();
    let mut carried = new_headers();
    for i in 0..n
        invariant
            n == list@.len(),
            forall|j: int|
                0 <= j < list@.len() ==> (#[trigger] list@[j]).0@ == name_text(list@[j].1)
                    && header_lists(before).contains_key(list@[j].0@) && header_lists(
                    before,
                )[list@[j].0@] == value_texts(list@[j].2@),
            forall|j: int, k: int|
                0 <= j < k < list@.len() ==> (#[trigger] list@[j]).0@ != (#[trigger] list@[k]).0@,
            forall|j: int|
                0 <= j < i && (#[trigger] list@[j]).0@ != name@ ==> header_values(
                    carried,
                    list@[j].0@,
                ) == value_texts(list@[j].2@),
            forall|other: Seq<char>| #[trigger]
                header_lists(carried).contains_key(other) ==> other != name@ && exists|j: int|
                    0 <= j < i && (#[trigger] list@[j]).0@ == other,
    {
        let entry = &list[i];
        let ghost earlier = carried;
        if !same_text(entry.0.as_str(), name) {
            let ghost key = entry.0@;
            assert(!header_lists(carried).contains_key(key));
            append_all(&mut carried, &entry.1, &entry.2);
            proof {
                assert(header_values(earlier, key) + value_texts(entry.2@) =~= value_texts(
                    entry.2@,
                ));
                assert forall|j: int|
                    0 <= j < i + 1 && (#[trigger] list@[j]).0@ != name@ implies header_values(
                    carried,
                    list@[j].0@,
                ) == value_texts(list@[j].2@) by {
                    if j < i {
                        let other = list@[j].0@;
                        assert(other != list@[i as int].0@);
                        lemma_others_stay(earlier, carried, key, other);
                    }
                }
                assert forall|other: Seq<char>| #[trigger]
                    header_lists(carried).contains_key(other) implies other != name@ && exists|
                    j: int,
                |
                    0 <= j < i + 1 && (#[trigger] list@[j]).0@ == other by {
                    if other == key {
                        assert(list@[i as int].0@ == other);
                    } else {
                        lemma_others_stay(earlier, carried, key, other);
                    }
                }
            }
        }
    }
    assert forall|other: Seq<char>| #[trigger]
        header_values(carried, other) == (if other == name@ {
            Seq::empty()
        } else {
            header_values(before, other)
        }) by {
        if other != name@ && header_lists(before).contains_key(other) {
            let j = choose|j: int| 0 <= j < list@.len() && (#[trigger] list@[j]).0@ == other;
            assert(header_values(carried, list@[j].0@) == value_texts(list@[j].2@));
        }
    }
    *headers = carried;
}

/// Where two header maps agree but for one name, they agree on every other.
proof fn lemma_others_stay(
    before: async_nats::HeaderMap,
    after: async_nats::HeaderMap,
    name: Seq<char>,
    other: Seq<char>,
)
    requires
        header_lists(after).remove(name) == header_lists(before).remove(name),
        other != name,
    ensures
        header_lists(after).contains_key(other) == header_lists(before).contains_key(other),
        header_values(after, other) == header_values(before, other),
{
    let rest = header_lists(after).remove(name);
    assert(rest.contains_key(other) == header_lists(after).contains_key(other));
    assert(rest.contains_key(other) == header_lists(before).contains_key(other));
    assert(rest.contains_key(other) ==> rest[other] == header_lists(after)[other] && rest[other]
        == header_lists(before)[other]);
}

} // verus!
