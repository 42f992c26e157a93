//! Subjects, and the patterns that subscriptions are written as.
use vstd::prelude::*;

use crate::text::law_trimmed_texts_stay;
use crate::text::{
    characters, join_with, law_join_then_split, law_split_then_join, lemma_filtered_member,
    optional_str, same_characters, split, split_on, string_of, texts, trim, trimmed,
};

verus! {

/// Whether `token` of a subject is one that the pattern token `wanted` takes.
pub open spec fn token_accepted(wanted: Seq<char>, token: Seq<char>) -> bool {
    wanted == seq!['*'] || wanted == token
}

/// Whether a pattern ends in `>`.
pub open spec fn open_ended(pattern: Seq<Seq<char>>) -> bool {
    pattern.len() > 0 && pattern.last() == seq!['>']
}

/// The tokens of a pattern that each take one token: all but a final `>`.
pub open spec fn fixed_tokens(pattern: Seq<Seq<char>>) -> Seq<Seq<char>> {
    if open_ended(pattern) {
        pattern.drop_last()
    } else {
        pattern
    }
}

/// Whether a subject matches a NATS subscription pattern, both given as their
/// tokens: `*` takes exactly one token, a final `>` takes one or more, any other
/// token takes itself, and a `>` that is not final takes nothing.
pub open spec fn tokens_match(pattern: Seq<Seq<char>>, subject: Seq<Seq<char>>) -> bool {
    let fixed = fixed_tokens(pattern);
    &&& !fixed.contains(seq!['>'])
    &&& if open_ended(pattern) {
        subject.len() > fixed.len()
    } else {
        subject.len() == fixed.len()
    }
    &&& forall|i: int|
        0 <= i < fixed.len() ==> token_accepted(#[trigger] fixed[i], subject[i])
}

/// Whether `subject` matches the NATS subscription `pattern`; tokens are
/// separated by dots.
pub open spec fn subject_match(pattern: Seq<char>, subject: Seq<char>) -> bool {
    tokens_match(split_on(pattern, '.'), split_on(subject, '.'))
}

/// Whether a component with the given subscriptions takes `subject`: any of
/// them matches, or there are none at all.
pub open spec fn subscribed(subscriptions: Seq<Seq<char>>, subject: Seq<char>) -> bool {
    ||| subscriptions.len() == 0
    ||| exists|i: int|
        0 <= i < subscriptions.len() && subject_match(#[trigger] subscriptions[i], subject)
}

/// Returns whether `subject` matches NATS subscription `pattern`, where `*`
/// matches exactly one token and `>` matches one or more trailing tokens.
pub fn subject_matches(pattern: &str, subject: &str) -> (matched: bool)
    ensures
        matched == subject_match(pattern@, subject@),
{
    let pattern_tokens = split(&characters(pattern), '.');
    let subject_tokens = split(&characters(subject), '.');
    let ghost p = split_on(pattern@, '.');
    let ghost s = split_on(subject@, '.');
    let ghost fixed = fixed_tokens(p);
    assert(pattern_tokens@.map_values(|t: Vec<char>| t@) == p);
    assert(subject_tokens@.map_values(|t: Vec<char>| t@) == s);
    assert(forall|k: int| 0 <= k < p.len() ==> pattern_tokens@[k]@ == #[trigger] p[k]);
    assert(forall|k: int| 0 <= k < s.len() ==> subject_tokens@[k]@ == #[trigger] s[k]);
    let any_one: Vec<char> = vec!['*'];
    let any_rest: Vec<char> = vec!['>'];
    assert(any_one@ =~= seq!['*']);
    assert(any_rest@ =~= seq!['>']);
    let n: usize = pattern_tokens.len();
    let m: usize = subject_tokens.len();
    let mut i: usize = 0;
    while i < n
        invariant
            n == pattern_tokens@.len(),
            m == subject_tokens@.len(),
            n == p.len(),
            m == s.len(),
            i <= n,
            i <= m,
            p == split_on(pattern@, '.'),
            s == split_on(subject@, '.'),
            fixed == fixed_tokens(p),
            forall|k: int| 0 <= k < p.len() ==> pattern_tokens@[k]@ == #[trigger] p[k],
            forall|k: int| 0 <= k < s.len() ==> subject_tokens@[k]@ == #[trigger] s[k],
            any_one@ == seq!['*'],
            any_rest@ == seq!['>'],
            forall|k: int| 0 <= k < i ==> #[trigger] p[k] != seq!['>'],
            forall|k: int| 0 <= k < i ==> token_accepted(#[trigger] p[k], s[k]),
        decreases n - i,
    {
        let wanted = &pattern_tokens[i];
        assert(wanted@ == p[i as int]);
        if same_characters(wanted, &any_rest) {
            proof {
                if i + 1 < n {
                    assert(fixed[i as int] == p[i as int]);
                    assert(fixed.contains(seq!['>']));
                } else {
                    assert(open_ended(p));
                    assert forall|k: int| 0 <= k < fixed.len() implies token_accepted(
                        #[trigger] fixed[k],
                        s[k],
                    ) by {
                        assert(fixed[k] == p[k]);
                    }
                    assert(!fixed.contains(seq!['>'])) by {
                        if fixed.contains(seq!['>']) {
                            let k = choose|k: int| 0 <= k < fixed.len() && fixed[k] == seq!['>'];
                            assert(p[k] == seq!['>']);
                        }
                    }
                }
            }
            return i + 1 == n && i < m;
        }
        if i >= m {
            proof {
                if open_ended(p) && i == n - 1 {
                    assert(p[i as int] == p.last());
                }
                assert(fixed.len() > m);
            }
            return false;
        }
        if !(same_characters(wanted, &any_one) || same_characters(wanted, &subject_tokens[i])) {
            proof {
                assert(!token_accepted(p[i as int], s[i as int]));
                assert(i < fixed.len()) by {
                    if open_ended(p) && i == n - 1 {
                        assert(p[i as int] == p.last());
                    }
                }
                assert(fixed[i as int] == p[i as int]);
            }
            return false;
        }
        i = i + 1;
    }
    proof {
        law_split_then_join(pattern@, '.');
        assert(p[n - 1] == p.last());
        assert(!open_ended(p));
        assert(!fixed.contains(seq!['>'])) by {
            if fixed.contains(seq!['>']) {
                let k = choose|k: int| 0 <= k < fixed.len() && fixed[k] == seq!['>'];
                assert(p[k] == seq!['>']);
            }
        }
    }
    i == m
}

/// Whether any of a component's `subscriptions` match `subject`. An empty
/// subscription list matches everything, so that a single handler needs none.
pub fn subscriptions_match(subscriptions: &[String], subject: &str) -> (matched: bool)
    ensures
        matched == subscribed(texts(subscriptions@), subject@),
{
    let n: usize = subscriptions.len();
    if n == 0 {
        return true;
    }
    for i in 0..n
        invariant
            n == subscriptions@.len(),
            forall|k: int|
                0 <= k < i ==> !subject_match(#[trigger] texts(subscriptions@)[k], subject@),
    {
        if subject_matches(subscriptions[i].as_str(), subject) {
            assert(texts(subscriptions@)[i as int] == subscriptions@[i as int]@);
            return true;
        }
        assert(texts(subscriptions@)[i as int] == subscriptions@[i as int]@);
    }
    false
}

/// What a comma-separated configuration value lists: its pieces, trimmed,
/// without the empty ones.
pub open spec fn listed_subjects(raw: Seq<char>) -> Seq<Seq<char>> {
    split_on(raw, ',').map_values(|piece: Seq<char>| trimmed(piece)).filter(
        |piece: Seq<char>| piece.len() > 0,
    )
}

/// The subjects of an optional `subscriptions` config value.
pub open spec fn subscription_list(raw: Option<Seq<char>>) -> Seq<Seq<char>> {
    match raw {
        Some(text) => listed_subjects(text),
        None => Seq::<Seq<char>>::empty(),
    }
}

/// Parses a comma-separated `subscriptions` config value into trimmed,
/// non-empty subjects. Shared by the in-memory and NATS backends so they agree
/// on how a configured subscription string maps to subjects.
pub fn parse_subscriptions(raw: Option<&str>) -> (subjects: Vec<String>)
    ensures
        texts(subjects@) == subscription_list(optional_str(raw)),
{
    let mut subjects: Vec<String> = Vec::new();
    if let Some(text) = raw {
        let pieces = split(&characters(text), ',');
        let ghost all = split_on(text@, ',').map_values(|piece: Seq<char>| trimmed(piece));
        let ghost kept = |piece: Seq<char>| piece.len() > 0;
        assert(pieces@.map_values(|t: Vec<char>| t@) == split_on(text@, ','));
        assert(forall|k: int|
            0 <= k < all.len() ==> trimmed(pieces@[k]@) == #[trigger] all[k]) by {
            assert forall|k: int| 0 <= k < all.len() implies trimmed(pieces@[k]@)
                == #[trigger] all[k] by {
                assert(pieces@.map_values(|t: Vec<char>| t@)[k] == pieces@[k]@);
            }
        }
        let n: usize = pieces.len();
        assert(all.take(0).filter(kept) =~= Seq::<Seq<char>>::empty()) by {
            reveal(Seq::filter);
        }
        for i in 0..n
            invariant
                n == pieces@.len(),
                n == all.len(),
                kept == (|piece: Seq<char>| piece.len() > 0),
                forall|k: int| 0 <= k < all.len() ==> trimmed(pieces@[k]@) == #[trigger] all[k],
                texts(subjects@) == all.take(i as int).filter(kept),
        {
            let piece = trim(&pieces[i]);
            proof {
                let longer = all.take(i + 1);
                reveal(Seq::filter);
                assert(longer.drop_last() =~= all.take(i as int));
                assert(longer.last() == all[i as int]);
            }
            if piece.len() > 0 {
                let subject = string_of(&piece);
                let ghost before = texts(subjects@);
                subjects.push(subject);
                assert(texts(subjects@) =~= before.push(piece@));
            }
        }
        assert(all.take(n as int) =~= all);
    }
    assert(raw is None ==> texts(subjects@) =~= Seq::<Seq<char>>::empty());
    subjects
}

// ---------------------------------------------------------------------------
// Laws
// ---------------------------------------------------------------------------

/// A pattern without wildcard tokens matches exactly the subject that it spells.
pub proof fn law_literal_pattern_matches_itself_only(pattern: Seq<char>, subject: Seq<char>)
    requires
        !split_on(pattern, '.').contains(seq!['*']),
        !split_on(pattern, '.').contains(seq!['>']),
    ensures
        subject_match(pattern, subject) == (pattern == subject),
{
    let p = split_on(pattern, '.');
    let s = split_on(subject, '.');
    law_split_then_join(pattern, '.');
    law_split_then_join(subject, '.');
    assert(p[p.len() - 1] == p.last());
    if subject_match(pattern, subject) {
        assert forall|i: int| 0 <= i < p.len() implies p[i] == s[i] by {
            assert(token_accepted(fixed_tokens(p)[i], s[i]));
            assert(p.contains(p[i]));
        }
        assert(p =~= s);
    }
}

/// `*` takes exactly one token: a pattern of `prefix` followed by `*` matches
/// just the subjects of `prefix` followed by one token.
pub proof fn law_star_takes_one_token(prefix: Seq<char>, token: Seq<char>, subject: Seq<char>)
    requires
        !split_on(prefix, '.').contains(seq!['*']),
        !split_on(prefix, '.').contains(seq!['>']),
        !token.contains('.'),
    ensures
        subject_match(prefix + seq!['.', '*'], prefix + seq!['.'] + token),
        subject_match(prefix + seq!['.', '*'], subject) ==> split_on(subject, '.').len()
            == split_on(prefix, '.').len() + 1 && split_on(subject, '.').drop_last() == split_on(
            prefix,
            '.',
        ),
{
    let p = split_on(prefix, '.');
    law_split_then_join(prefix, '.');
    lemma_split_appended(prefix, seq!['*']);
    lemma_split_appended(prefix, token);
    let pattern = prefix + seq!['.', '*'];
    assert(prefix + seq!['.'] + seq!['*'] =~= pattern);
    let tokens = p.push(seq!['*']);
    assert(split_on(pattern, '.') == tokens);
    assert(seq!['*'][0] != seq!['>'][0]);
    assert(tokens.last() != seq!['>']);
    assert(!tokens.contains(seq!['>'])) by {
        if tokens.contains(seq!['>']) {
            let k = choose|k: int| 0 <= k < tokens.len() && tokens[k] == seq!['>'];
            assert(p[k] == seq!['>']);
        }
    }
    let s = split_on(subject, '.');
    if subject_match(pattern, subject) {
        assert forall|i: int| 0 <= i < p.len() implies p[i] == s[i] by {
            assert(token_accepted(fixed_tokens(tokens)[i], s[i]));
            assert(p.contains(p[i]));
        }
        assert(s.drop_last() =~= p);
    }
    let made = p.push(token);
    assert(split_on(prefix + seq!['.'] + token, '.') == made);
    assert forall|i: int| 0 <= i < tokens.len() implies token_accepted(
        #[trigger] tokens[i],
        made[i],
    ) by {}
}

/// A final `>` takes one or more tokens: a pattern of `prefix` followed by `>`
/// matches just the subjects that go on after `prefix`.
pub proof fn law_rest_takes_one_or_more_tokens(prefix: Seq<char>, subject: Seq<char>)
    requires
        !split_on(prefix, '.').contains(seq!['*']),
        !split_on(prefix, '.').contains(seq!['>']),
    ensures
        subject_match(prefix + seq!['.', '>'], subject) == (split_on(subject, '.').len()
            > split_on(prefix, '.').len() && split_on(subject, '.').take(
            split_on(prefix, '.').len() as int,
        ) == split_on(prefix, '.')),
        !subject_match(prefix + seq!['.', '>'], prefix),
{
    let p = split_on(prefix, '.');
    law_split_then_join(prefix, '.');
    lemma_split_appended(prefix, seq!['>']);
    let pattern = prefix + seq!['.', '>'];
    assert(prefix + seq!['.'] + seq!['>'] =~= pattern);
    let tokens = p.push(seq!['>']);
    assert(split_on(pattern, '.') == tokens);
    assert(tokens.drop_last() =~= p);
    let s = split_on(subject, '.');
    if subject_match(pattern, subject) {
        assert forall|i: int| 0 <= i < p.len() implies p[i] == s[i] by {
            assert(token_accepted(fixed_tokens(tokens)[i], s[i]));
            assert(p.contains(p[i]));
        }
        assert(s.take(p.len() as int) =~= p);
    }
    if s.len() > p.len() && s.take(p.len() as int) == p {
        assert forall|i: int| 0 <= i < p.len() implies token_accepted(#[trigger] p[i], s[i]) by {
            assert(s.take(p.len() as int)[i] == s[i]);
        }
    }
}

/// Splitting `head.tail` gives the tokens of `head` and then `tail`.
proof fn lemma_split_appended(head: Seq<char>, tail: Seq<char>)
    requires
        !tail.contains('.'),
    ensures
        split_on(head + seq!['.'] + tail, '.') == split_on(head, '.').push(tail),
{
    let pieces = split_on(head, '.');
    law_split_then_join(head, '.');
    let longer = pieces.push(tail);
    assert forall|i: int| 0 <= i < longer.len() implies !(#[trigger] longer[i]).contains('.') by {
        if i < pieces.len() {
            assert(longer[i] == pieces[i]);
        }
    }
    law_join_then_split(longer, '.');
    assert(longer.drop_last() =~= pieces);
    assert(join_with(longer, '.') =~= head + seq!['.'] + tail);
}

/// A component without subscriptions takes every subject.
pub proof fn law_no_subscriptions_take_everything(subject: Seq<char>)
    ensures
        subscribed(Seq::<Seq<char>>::empty(), subject),
{
}

/// Listing a subject once more never makes a component miss a message, as long
/// as it had subscriptions at all.
pub proof fn law_more_subscriptions_take_more(
    subscriptions: Seq<Seq<char>>,
    extra: Seq<char>,
    subject: Seq<char>,
)
    requires
        subscriptions.len() > 0,
        subscribed(subscriptions, subject),
    ensures
        subscribed(subscriptions.push(extra), subject),
{
    let i = choose|i: int|
        0 <= i < subscriptions.len() && subject_match(#[trigger] subscriptions[i], subject);
    assert(subscriptions.push(extra)[i] == subscriptions[i]);
}

/// No parsed subject is empty, begins or ends with white space, or holds a comma: each is a piece
/// of the list between commas, trimmed.
pub proof fn law_listed_subjects_are_clean(raw: Seq<char>, i: int)
    requires
        0 <= i < listed_subjects(raw).len(),
    ensures
        listed_subjects(raw)[i].len() > 0,
        trimmed(listed_subjects(raw)[i]) == listed_subjects(raw)[i],
        !listed_subjects(raw)[i].contains(','),
        exists|k: int|
            0 <= k < split_on(raw, ',').len() && listed_subjects(raw)[i] == trimmed(
                #[trigger] split_on(raw, ',')[k],
            ),
{
    let all = split_on(raw, ',').map_values(|piece: Seq<char>| trimmed(piece));
    let kept = |piece: Seq<char>| piece.len() > 0;
    broadcast use vstd::seq_lib::group_filter_ensures;

    let found = all.filter(kept)[i];
    assert(kept(found));
    lemma_filtered_member(all, kept, i);
    let k = choose|k: int| 0 <= k < all.len() && all[k] == found;
    assert(trimmed(split_on(raw, ',')[k]) == found);
    law_split_then_join(raw, ',');
    law_trimmed_texts_stay(split_on(raw, ',')[k]);
}

/// Whether a list can be the tokens of a pattern or of a subject: at least one, and no dots in
/// them.
pub open spec fn dotless(tokens: Seq<Seq<char>>) -> bool {
    &&& tokens.len() >= 1
    &&& forall|i: int| 0 <= i < tokens.len() ==> !(#[trigger] tokens[i]).contains('.')
}

/// A pattern with `*` at any place matches a subject exactly where the pattern that has the
/// subject's own token there does, wherever else it has wildcards, and a subject that has no token
/// there not at all. (A subject's token `>` would be a wildcard in the pattern.)
pub proof fn law_star_takes_the_token_in_its_place(
    pattern: Seq<Seq<char>>,
    subject: Seq<Seq<char>>,
    at: int,
)
    requires
        dotless(pattern),
        dotless(subject),
        0 <= at < pattern.len(),
        pattern[at] == seq!['*'],
        at < subject.len() ==> subject[at] != seq!['>'],
    ensures
        at >= subject.len() ==> !subject_match(join_with(pattern, '.'), join_with(subject, '.')),
        at < subject.len() ==> subject_match(join_with(pattern, '.'), join_with(subject, '.'))
            == subject_match(
            join_with(pattern.update(at, subject[at]), '.'),
            join_with(subject, '.'),
        ),
{
    assert(seq!['*'][0] != seq!['>'][0]);
    law_join_then_split(pattern, '.');
    law_join_then_split(subject, '.');
    if at < subject.len() {
        let other = pattern.update(at, subject[at]);
        assert forall|i: int| 0 <= i < other.len() implies !(#[trigger] other[i]).contains('.') by {
            if i != at {
                assert(other[i] == pattern[i]);
            }
        }
        law_join_then_split(other, '.');
        let fixed = fixed_tokens(pattern);
        let others = fixed_tokens(other);
        assert(fixed.len() == others.len());
        assert forall|i: int| 0 <= i < fixed.len() && i != at implies fixed[i] == others[i] by {}
        assert(at < fixed.len());
        assert(others[at] == subject[at]);
        assert(fixed[at] == pattern[at]);
        if others.contains(seq!['>']) {
            let k = choose|k: int| 0 <= k < others.len() && others[k] == seq!['>'];
            assert(fixed[k] == seq!['>']);
        }
        if fixed.contains(seq!['>']) {
            let k = choose|k: int| 0 <= k < fixed.len() && fixed[k] == seq!['>'];
            assert(others[k] == seq!['>']);
        }
        if tokens_match(pattern, subject) {
            assert forall|i: int| 0 <= i < others.len() implies token_accepted(
                #[trigger] others[i],
                subject[i],
            ) by {
                if i != at {
                    assert(token_accepted(fixed[i], subject[i]));
                }
            }
        }
        if tokens_match(other, subject) {
            assert forall|i: int| 0 <= i < fixed.len() implies token_accepted(
                #[trigger] fixed[i],
                subject[i],
            ) by {
                if i != at {
                    assert(token_accepted(others[i], subject[i]));
                }
            }
        }
    } else {
        let fixed = fixed_tokens(pattern);
        assert(fixed.len() > at);
    }
}

/// Putting `*` in the place of a token that is no wildcard loses no subject: what matched still
/// does.
pub proof fn law_star_takes_more(pattern: Seq<Seq<char>>, subject: Seq<Seq<char>>, at: int)
    requires
        dotless(pattern),
        dotless(subject),
        0 <= at < pattern.len(),
        pattern[at] != seq!['>'],
        subject_match(join_with(pattern, '.'), join_with(subject, '.')),
    ensures
        subject_match(join_with(pattern.update(at, seq!['*']), '.'), join_with(subject, '.')),
{
    assert(seq!['*'][0] != seq!['>'][0]);
    let other = pattern.update(at, seq!['*']);
    assert forall|i: int| 0 <= i < other.len() implies !(#[trigger] other[i]).contains('.') by {
        if i != at {
            assert(other[i] == pattern[i]);
        }
    }
    law_join_then_split(pattern, '.');
    law_join_then_split(subject, '.');
    law_join_then_split(other, '.');
    let fixed = fixed_tokens(pattern);
    let others = fixed_tokens(other);
    assert(fixed.len() == others.len());
    if others.contains(seq!['>']) {
        let k = choose|k: int| 0 <= k < others.len() && others[k] == seq!['>'];
        assert(fixed[k] == seq!['>']);
    }
    assert forall|i: int| 0 <= i < others.len() implies token_accepted(
        #[trigger] others[i],
        subject[i],
    ) by {
        if i != at {
            assert(token_accepted(fixed[i], subject[i]));
        }
    }
}

/// A final `>` takes what is left, if anything is, behind any pattern: such a pattern matches a
/// subject exactly where the pattern before it matches as many of the subject's tokens as it has
/// itself, and at least one more follows. Alone it matches every subject; anywhere else it
/// matches none.
pub proof fn law_rest_takes_what_is_left(pattern: Seq<Seq<char>>, subject: Seq<Seq<char>>, at: int)
    requires
        dotless(pattern),
        dotless(subject),
    ensures
        subject_match(join_with(seq![seq!['>']], '.'), join_with(subject, '.')),
        !pattern.contains(seq!['>']) ==> subject_match(
            join_with(pattern.push(seq!['>']), '.'),
            join_with(subject, '.'),
        ) == (subject.len() > pattern.len() && subject_match(
            join_with(pattern, '.'),
            join_with(subject.take(pattern.len() as int), '.'),
        )),
        0 <= at < pattern.len() - 1 && pattern[at] == seq!['>'] ==> !subject_match(
            join_with(pattern, '.'),
            join_with(subject, '.'),
        ),
{
    let rest = seq!['>'];
    assert(!rest.contains('.'));
    law_join_then_split(pattern, '.');
    law_join_then_split(subject, '.');
    law_join_then_split(seq![rest], '.');
    assert(fixed_tokens(seq![rest]) =~= Seq::empty());
    if !pattern.contains(rest) {
        let longer = pattern.push(rest);
        assert forall|i: int| 0 <= i < longer.len() implies !(
        #[trigger] longer[i]).contains('.') by {
            if i < pattern.len() {
                assert(longer[i] == pattern[i]);
            }
        }
        law_join_then_split(longer, '.');
        assert(fixed_tokens(longer) =~= pattern);
        assert(pattern[pattern.len() - 1] == pattern.last());
        assert(!open_ended(pattern));
        if subject.len() > pattern.len() {
            let head = subject.take(pattern.len() as int);
            assert forall|i: int| 0 <= i < head.len() implies !(
            #[trigger] head[i]).contains('.') by {
                assert(head[i] == subject[i]);
            }
            law_join_then_split(head, '.');
            if tokens_match(pattern, head) {
                assert forall|i: int| 0 <= i < pattern.len() implies token_accepted(
                    #[trigger] pattern[i],
                    subject[i],
                ) by {
                    assert(token_accepted(pattern[i], head[i]));
                }
            }
        }
    }
    if 0 <= at < pattern.len() - 1 && pattern[at] == rest {
        let fixed = fixed_tokens(pattern);
        assert(fixed[at] == rest);
    }
}

/// A component takes what any one of its subscriptions matches, and without subscriptions takes
/// everything.
pub proof fn law_subscriptions_add_up(
    subscriptions: Seq<Seq<char>>,
    extra: Seq<char>,
    subject: Seq<char>,
)
    ensures
        subscribed(Seq::empty(), subject),
        subscribed(seq![extra], subject) == subject_match(extra, subject),
        subscriptions.len() > 0 ==> subscribed(subscriptions.push(extra), subject) == (subscribed(
            subscriptions,
            subject,
        ) || subject_match(extra, subject)),
{
    let one = seq![extra];
    assert(one[0] == extra);
    let more = subscriptions.push(extra);
    assert(more[subscriptions.len() as int] == extra);
    if subscriptions.len() > 0 && subscribed(subscriptions, subject) {
        law_more_subscriptions_take_more(subscriptions, extra, subject);
    }
    if subscriptions.len() > 0 && subscribed(more, subject) {
        let i = choose|i: int| 0 <= i < more.len() && subject_match(#[trigger] more[i], subject);
        if i < subscriptions.len() {
            assert(subscriptions[i] == more[i]);
        }
    }
}

/// Every subject of a list is read, in order: a list that is made of two with a comma in between
/// has the subjects of the first and then those of the second, and what holds no comma is one
/// subject, without the white space around it, or none where nothing else is there.
pub proof fn law_every_listed_subject_is_read(first: Seq<char>, second: Seq<char>)
    ensures
        listed_subjects(first + seq![','] + second) == listed_subjects(first) + listed_subjects(
            second,
        ),
        !first.contains(',') ==> listed_subjects(first) == (if trimmed(first).len() == 0 {
            Seq::empty()
        } else {
            seq![trimmed(first)]
        }),
        subscription_list(None) == Seq::<Seq<char>>::empty(),
        subscription_list(Some(first)) == listed_subjects(first),
{
    let kept = |piece: Seq<char>| piece.len() > 0;
    let a = split_on(first, ',');
    let b = split_on(second, ',');
    law_split_then_join(first, ',');
    law_split_then_join(second, ',');
    let both = a + b;
    assert forall|i: int| 0 <= i < both.len() implies !(#[trigger] both[i]).contains(',') by {
        if i < a.len() {
            assert(both[i] == a[i]);
        } else {
            assert(both[i] == b[i - a.len()]);
        }
    }
    law_join_then_split(both, ',');
    lemma_joined_lists(a, b);
    assert(join_with(both, ',') =~= first + seq![','] + second);
    let ta = a.map_values(|piece: Seq<char>| trimmed(piece));
    let tb = b.map_values(|piece: Seq<char>| trimmed(piece));
    assert(both.map_values(|piece: Seq<char>| trimmed(piece)) =~= ta + tb);
    Seq::filter_distributes_over_add(ta, tb, kept);
    if !first.contains(',') {
        law_join_then_split(seq![first], ',');
        assert(a == seq![first]);
        assert(ta =~= seq![trimmed(first)]);
        reveal(Seq::filter);
        assert(ta.drop_last() =~= Seq::empty());
        assert(Seq::<Seq<char>>::empty().filter(kept) =~= Seq::empty());
        assert(ta.last() == trimmed(first));
        if trimmed(first).len() > 0 {
            assert(ta.filter(kept) =~= seq![trimmed(first)]);
        }
    }
}

/// Joining two lists is joining each, with a comma in between.
proof fn lemma_joined_lists(a: Seq<Seq<char>>, b: Seq<Seq<char>>)
    requires
        a.len() >= 1,
        b.len() >= 1,
    ensures
        join_with(a + b, ',') == join_with(a, ',') + seq![','] + join_with(b, ','),
    decreases b.len(),
{
    let both = a + b;
    assert(both.last() == b.last());
    if b.len() == 1 {
        assert(both.drop_last() =~= a);
        assert(join_with(both, ',') =~= join_with(a, ',') + seq![','] + b[0]);
    } else {
        lemma_joined_lists(a, b.drop_last());
        assert(both.drop_last() =~= a + b.drop_last());
        assert(join_with(both, ',') =~= join_with(a, ',') + seq![','] + join_with(b, ','));
    }
}

/// `*` does not look at the token that it takes: another token in that place of the subject, with
/// no dot in it, matches just as well.
pub proof fn law_star_takes_any_token(
    pattern: Seq<Seq<char>>,
    subject: Seq<Seq<char>>,
    at: int,
    token: Seq<char>,
)
    requires
        dotless(pattern),
        dotless(subject),
        0 <= at < pattern.len(),
        at < subject.len(),
        pattern[at] == seq!['*'],
        !token.contains('.'),
    ensures
        subject_match(join_with(pattern, '.'), join_with(subject.update(at, token), '.'))
            == subject_match(join_with(pattern, '.'), join_with(subject, '.')),
{
    let other = subject.update(at, token);
    assert forall|i: int| 0 <= i < other.len() implies !(#[trigger] other[i]).contains('.') by {
        if i != at {
            assert(other[i] == subject[i]);
        }
    }
    law_join_then_split(pattern, '.');
    law_join_then_split(subject, '.');
    law_join_then_split(other, '.');
    let fixed = fixed_tokens(pattern);
    assert forall|i: int| 0 <= i < fixed.len() implies fixed[i] == pattern[i] by {}
    if tokens_match(pattern, subject) {
        assert forall|i: int| 0 <= i < fixed.len() implies token_accepted(
            #[trigger] fixed[i],
            other[i],
        ) by {
            if i != at {
                assert(token_accepted(fixed[i], subject[i]));
            }
        }
    }
    if tokens_match(pattern, other) {
        assert forall|i: int| 0 <= i < fixed.len() implies token_accepted(
            #[trigger] fixed[i],
            subject[i],
        ) by {
            if i != at {
                assert(token_accepted(fixed[i], other[i]));
            }
        }
    }
}

} // verus!
