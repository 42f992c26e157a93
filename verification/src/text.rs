//! Text: characters, splitting, trimming, decimal and hexadecimal numerals.
use vstd::prelude::*;

verus! {

/// `String::push` appends the given character to the end of the text.
pub assume_specification[ String::push ](s: &mut String, c: char)
    ensures
        final(s)@ == old(s)@.push(c),
;

/// The texts that a list of strings holds.
pub open spec fn texts(list: Seq<String>) -> Seq<Seq<char>> {
    list.map_values(|s: String| s@)
}

/// The text of an optional string.
pub open spec fn optional_text(s: Option<String>) -> Option<Seq<char>> {
    match s {
        Some(text) => Some(text@),
        None => None,
    }
}

/// The text of an optional string slice.
pub open spec fn optional_str(s: Option<&str>) -> Option<Seq<char>> {
    match s {
        Some(text) => Some(text@),
        None => None,
    }
}

/// What a filter keeps was there before.
pub proof fn lemma_filtered_member<A>(s: Seq<A>, keep: spec_fn(A) -> bool, i: int)
    requires
        0 <= i < s.filter(keep).len(),
    ensures
        s.contains(s.filter(keep)[i]),
    decreases s.len(),
{
    reveal(Seq::filter);
    if s.len() > 0 {
        let init = s.drop_last();
        let found = s.filter(keep)[i];
        if i < init.filter(keep).len() {
            lemma_filtered_member(init, keep, i);
            let k = choose|k: int| 0 <= k < init.len() && init[k] == init.filter(keep)[i];
            assert(s[k] == found);
        } else {
            assert(s[s.len() - 1] == found);
        }
    }
}

// ---------------------------------------------------------------------------
// Characters and strings
// ---------------------------------------------------------------------------

/// The characters of `s`, in order.
pub fn characters(s: &str) -> (out: Vec<char>)
    ensures
        out@ == s@,
{
    let mut out: Vec<char> = Vec::new();
    for c in it: s.chars()
        invariant
            it.seq() == s@,
            out@ == s@.take(it.index()),
    {
        out.push(c);
    }
    out
}

/// The string made of `chars`, in order.
pub fn string_of(chars: &Vec<char>) -> (out: String)
    ensures
        out@ == chars@,
{
    let mut out = String::new();
    let n: usize = chars.len();
    for i in 0..n
        invariant
            n == chars@.len(),
            out@ == chars@.take(i as int),
    {
        out.push(chars[i]);
    }
    out
}

/// Appends `tail` to `out`.
pub fn push_text(out: &mut String, tail: &str)
    ensures
        final(out)@ == old(out)@ + tail@,
{
    let ghost before = out@;
    for c in it: tail.chars()
        invariant
            it.seq() == tail@,
            out@ == before + tail@.take(it.index()),
    {
        out.push(c);
    }
}

/// Whether two texts are the same.
pub fn same_text(a: &str, b: &str) -> (same: bool)
    ensures
        same == (a@ == b@),
{
    let left = characters(a);
    let right = characters(b);
    same_characters(&left, &right)
}

/// Whether two lists of characters are the same.
pub fn same_characters(a: &Vec<char>, b: &Vec<char>) -> (same: bool)
    ensures
        same == (a@ == b@),
{
    if a.len() != b.len() {
        return false;
    }
    let n: usize = a.len();
    for i in 0..n
        invariant
            n == a@.len(),
            n == b@.len(),
            forall|j: int| 0 <= j < i ==> a@[j] == b@[j],
    {
        if a[i] != b[i] {
            return false;
        }
    }
    assert(a@ =~= b@);
    true
}

// ---------------------------------------------------------------------------
// Splitting and joining
// ---------------------------------------------------------------------------

/// The pieces of `s` between occurrences of `separator`: always at least one,
/// and one more than there are separators.
pub open spec fn split_on(s: Seq<char>, separator: char) -> Seq<Seq<char>>
    decreases s.len(),
{
    if s.len() == 0 {
        seq![Seq::<char>::empty()]
    } else {
        let before = split_on(s.drop_last(), separator);
        if s.last() == separator {
            before.push(Seq::<char>::empty())
        } else {
            before.drop_last().push(before.last().push(s.last()))
        }
    }
}

/// The pieces written one after another, with `separator` between them.
pub open spec fn join_with(pieces: Seq<Seq<char>>, separator: char) -> Seq<char>
    decreases pieces.len(),
{
    if pieces.len() == 0 {
        Seq::<char>::empty()
    } else if pieces.len() == 1 {
        pieces[0]
    } else {
        join_with(pieces.drop_last(), separator).push(separator) + pieces.last()
    }
}

/// Splitting loses nothing: the pieces hold no separator, and writing them one
/// after another with the separator in between gives the text back.
pub proof fn law_split_then_join(s: Seq<char>, separator: char)
    ensures
        split_on(s, separator).len() >= 1,
        join_with(split_on(s, separator), separator) == s,
        forall|i: int|
            0 <= i < split_on(s, separator).len() ==> !(
            #[trigger] split_on(s, separator)[i]).contains(separator),
    decreases s.len(),
{
    if s.len() == 0 {
        assert(split_on(s, separator)[0] =~= s);
    } else {
        let init = s.drop_last();
        let before = split_on(init, separator);
        law_split_then_join(init, separator);
        let after = split_on(s, separator);
        assert(s =~= init.push(s.last()));
        if s.last() == separator {
            assert(after.drop_last() =~= before);
            assert(after.len() >= 2);
            assert(join_with(after, separator) =~= s);
        } else {
            let piece = before.last().push(s.last());
            assert(after.drop_last() =~= before.drop_last());
            assert(after.last() == piece);
            if before.len() == 1 {
                assert(before[0] == before.last());
                assert(after.len() == 1);
                assert(after[0] =~= s);
            } else {
                assert(after.len() == before.len());
                assert(join_with(after, separator) =~= s);
            }
            assert forall|i: int| 0 <= i < after.len() implies !(
            #[trigger] after[i]).contains(separator) by {
                if i < after.len() - 1 {
                    assert(after[i] == before[i]);
                } else {
                    assert(!before.last().contains(separator));
                    if piece.contains(separator) {
                        let k = choose|k: int| 0 <= k < piece.len() && piece[k] == separator;
                        if k < before.last().len() {
                            assert(before.last()[k] == separator);
                        }
                    }
                }
            }
        }
    }
}

/// Joining and then splitting gives the pieces back, as long as there is at
/// least one and none of them holds the separator.
pub proof fn law_join_then_split(pieces: Seq<Seq<char>>, separator: char)
    requires
        pieces.len() >= 1,
        forall|i: int| 0 <= i < pieces.len() ==> !(#[trigger] pieces[i]).contains(separator),
    ensures
        split_on(join_with(pieces, separator), separator) == pieces,
    decreases pieces.len(),
{
    if pieces.len() == 1 {
        lemma_split_extends(Seq::<char>::empty(), pieces[0], separator);
        assert(Seq::<char>::empty() + pieces[0] =~= pieces[0]);
        let start = split_on(Seq::<char>::empty(), separator);
        assert(start =~= seq![Seq::<char>::empty()]);
        assert(start.last() + pieces[0] =~= pieces[0]);
        assert(split_on(pieces[0], separator) =~= pieces);
    } else {
        let init = pieces.drop_last();
        assert forall|i: int| 0 <= i < init.len() implies !(#[trigger] init[i]).contains(
            separator,
        ) by {
            assert(init[i] == pieces[i]);
        }
        law_join_then_split(init, separator);
        let head = join_with(init, separator);
        let opened = head.push(separator);
        assert(opened.drop_last() =~= head);
        assert(split_on(opened, separator) == init.push(Seq::<char>::empty()));
        assert(!pieces[pieces.len() - 1].contains(separator));
        lemma_split_extends(opened, pieces.last(), separator);
        assert(Seq::<char>::empty() + pieces.last() =~= pieces.last());
        assert(split_on(opened, separator).drop_last() =~= init);
        assert(split_on(opened + pieces.last(), separator) =~= pieces);
    }
}

/// Text without a separator only lengthens the last piece.
proof fn lemma_split_extends(head: Seq<char>, tail: Seq<char>, separator: char)
    requires
        !tail.contains(separator),
    ensures
        split_on(head, separator).len() >= 1,
        split_on(head + tail, separator) == split_on(head, separator).drop_last().push(
            split_on(head, separator).last() + tail,
        ),
    decreases tail.len(),
{
    law_split_then_join(head, separator);
    let start = split_on(head, separator);
    if tail.len() == 0 {
        assert(head + tail =~= head);
        assert(start.last() + tail =~= start.last());
        assert(start =~= start.drop_last().push(start.last()));
    } else {
        let init = tail.drop_last();
        assert forall|c: char| init.contains(c) implies tail.contains(c) by {
            let k = choose|k: int| 0 <= k < init.len() && init[k] == c;
            assert(tail[k] == c);
        }
        lemma_split_extends(head, init, separator);
        let whole = head + tail;
        assert(whole.drop_last() =~= head + init);
        assert(whole.last() == tail.last());
        assert(tail[tail.len() - 1] == tail.last());
        assert(tail.last() != separator);
        let mid = split_on(head + init, separator);
        assert(mid.drop_last() =~= start.drop_last());
        assert((start.last() + init).push(tail.last()) =~= start.last() + tail);
    }
}

/// The pieces of `s` that `separator` ends; what stands behind the last separator is one too,
/// unless it is empty.
pub open spec fn split_ended(s: Seq<char>, separator: char) -> Seq<Seq<char>> {
    let pieces = split_on(s, separator);
    if pieces.last().len() == 0 {
        pieces.drop_last()
    } else {
        pieces
    }
}

/// The pieces of a text hold only what the text holds.
pub proof fn lemma_pieces_are_of_the_text(s: Seq<char>, separator: char, i: int, c: char)
    requires
        0 <= i < split_on(s, separator).len(),
        split_on(s, separator)[i].contains(c),
    ensures
        s.contains(c),
    decreases s.len(),
{
    if s.len() > 0 {
        let init = s.drop_last();
        let before = split_on(init, separator);
        let after = split_on(s, separator);
        law_split_then_join(init, separator);
        if s.last() == c {
            assert(s[s.len() - 1] == c);
        } else {
            if i < before.len() && i < after.len() - 1 {
                assert(after[i] == before[i]);
            } else if s.last() != separator {
                let k = choose|k: int| 0 <= k < after[i].len() && after[i][k] == c;
                assert(before.last()[k] == c);
                assert(before[before.len() - 1].contains(c));
            }
            lemma_pieces_are_of_the_text(init, separator, i, c);
            let k = choose|k: int| 0 <= k < init.len() && init[k] == c;
            assert(s[k] == c);
        }
    }
}

/// What joined pieces hold, apart from the separator, one of them holds.
pub proof fn lemma_joined_holds_the_pieces(pieces: Seq<Seq<char>>, separator: char, c: char) -> (i:
    int)
    requires
        join_with(pieces, separator).contains(c),
        c != separator,
    ensures
        0 <= i < pieces.len(),
        pieces[i].contains(c),
    decreases pieces.len(),
{
    let whole = join_with(pieces, separator);
    let k = choose|k: int| 0 <= k < whole.len() && whole[k] == c;
    if pieces.len() == 1 {
        0
    } else {
        let front = join_with(pieces.drop_last(), separator);
        if k < front.len() {
            assert(front[k] == c);
            lemma_joined_holds_the_pieces(pieces.drop_last(), separator, c)
        } else {
            assert(pieces.last()[k - front.len() - 1] == c);
            pieces.len() - 1
        }
    }
}

/// The pieces of `s` between occurrences of `separator`.
pub fn split(s: &Vec<char>, separator: char) -> (pieces: Vec<Vec<char>>)
    ensures
        pieces@.map_values(|p: Vec<char>| p@) == split_on(s@, separator),
        pieces@.len() >= 1,
{
    let mut pieces: Vec<Vec<char>> = Vec::new();
    let mut current: Vec<char> = Vec::new();
    let n: usize = s.len();
    for i in 0..n
        invariant
            n == s@.len(),
            pieces@.map_values(|p: Vec<char>| p@).push(current@) == split_on(
                s@.take(i as int),
                separator,
            ),
    {
        let ghost prefix = s@.take(i + 1);
        let ghost before = pieces@.map_values(|p: Vec<char>| p@);
        assert(prefix.drop_last() =~= s@.take(i as int));
        assert(prefix.last() == s@[i as int]);
        assert(before.push(current@).drop_last() =~= before);
        let c = s[i];
        if c == separator {
            let ghost kept = current@;
            pieces.push(current);
            assert(pieces@.map_values(|p: Vec<char>| p@) =~= before.push(kept));
            current = Vec::new();
        } else {
            current.push(c);
        }
    }
    let ghost before = pieces@.map_values(|p: Vec<char>| p@);
    let ghost kept = current@;
    assert(s@.take(n as int) =~= s@);
    pieces.push(current);
    assert(pieces@.map_values(|p: Vec<char>| p@) =~= before.push(kept));
    pieces
}

/// Where `c` first occurs in `s`, or the length of `s` if it does not.
pub open spec fn first_position(s: Seq<char>, c: char) -> int
    decreases s.len(),
{
    if s.len() == 0 || s[0] == c {
        0
    } else {
        1 + first_position(s.drop_first(), c)
    }
}

/// The first occurrence is an occurrence, and nothing before it is one.
pub proof fn lemma_first_position(s: Seq<char>, c: char)
    ensures
        0 <= first_position(s, c) <= s.len(),
        first_position(s, c) < s.len() ==> s[first_position(s, c)] == c,
        forall|i: int| 0 <= i < first_position(s, c) ==> s[i] != c,
    decreases s.len(),
{
    if s.len() == 0 || s[0] == c {
    } else {
        lemma_first_position(s.drop_first(), c);
        assert forall|i: int| 0 <= i < first_position(s, c) implies s[i] != c by {
            if i > 0 {
                assert(s.drop_first()[i - 1] == s[i]);
            }
        }
    }
}

/// An occurrence with none before it is the first one.
pub proof fn lemma_first_position_is(s: Seq<char>, c: char, at: int)
    requires
        0 <= at <= s.len(),
        at < s.len() ==> s[at] == c,
        forall|i: int| 0 <= i < at ==> s[i] != c,
    ensures
        first_position(s, c) == at,
{
    lemma_first_position(s, c);
}

/// What stands before and after the first `c`, if there is one.
pub open spec fn cut_once(s: Seq<char>, c: char) -> Option<(Seq<char>, Seq<char>)> {
    let at = first_position(s, c);
    if at < s.len() {
        Some((s.take(at), s.skip(at + 1)))
    } else {
        None
    }
}

/// What stands before and after the first `c`, if there is one.
pub fn split_once(s: &Vec<char>, c: char) -> (out: Option<(Vec<char>, Vec<char>)>)
    ensures
        match out {
            Some(parts) => cut_once(s@, c) == Some((parts.0@, parts.1@)),
            None => cut_once(s@, c) is None,
        },
{
    let n: usize = s.len();
    let mut at: usize = 0;
    while at < n && s[at] != c
        invariant
            at <= n,
            n == s@.len(),
            forall|j: int| 0 <= j < at ==> s@[j] != c,
        decreases n - at,
    {
        at = at + 1;
    }
    proof {
        lemma_first_position_is(s@, c, at as int);
    }
    if at == n {
        None
    } else {
        Some((part(s, 0, at), part(s, at + 1, n)))
    }
}

/// The characters of `s` from `from` up to `to`.
pub fn part(s: &Vec<char>, from: usize, to: usize) -> (out: Vec<char>)
    requires
        from <= to <= s@.len(),
    ensures
        out@ == s@.subrange(from as int, to as int),
{
    let mut out: Vec<char> = Vec::new();
    for i in from..to
        invariant
            from <= to <= s@.len(),
            out@ == s@.subrange(from as int, i as int),
    {
        out.push(s[i]);
    }
    out
}

// ---------------------------------------------------------------------------
// White space and control characters
// ---------------------------------------------------------------------------

/// Unicode's `White_Space` property.
pub open spec fn is_white_space(c: char) -> bool {
    let u = c as u32;
    ||| 0x09 <= u <= 0x0D
    ||| u == 0x20
    ||| u == 0x85
    ||| u == 0xA0
    ||| u == 0x1680
    ||| 0x2000 <= u <= 0x200A
    ||| u == 0x2028
    ||| u == 0x2029
    ||| u == 0x202F
    ||| u == 0x205F
    ||| u == 0x3000
}

/// Whether `c` has Unicode's `White_Space` property.
pub fn white_space(c: char) -> (yes: bool)
    ensures
        yes == is_white_space(c),
{
    let u: u32 = c as u32;
    (0x09 <= u && u <= 0x0D) || u == 0x20 || u == 0x85 || u == 0xA0 || u == 0x1680 || (0x2000 <= u
        && u <= 0x200A) || u == 0x2028 || u == 0x2029 || u == 0x202F || u == 0x205F || u == 0x3000
}

/// Unicode's general category `Cc`.
pub open spec fn is_control(c: char) -> bool {
    let u = c as u32;
    u <= 0x1F || 0x7F <= u <= 0x9F
}

/// Whether `c` is in Unicode's general category `Cc`.
pub fn control(c: char) -> (yes: bool)
    ensures
        yes == is_control(c),
{
    let u: u32 = c as u32;
    u <= 0x1F || (0x7F <= u && u <= 0x9F)
}

/// `s` without the white space that it begins with.
pub open spec fn trim_front(s: Seq<char>) -> Seq<char>
    decreases s.len(),
{
    if s.len() > 0 && is_white_space(s[0]) {
        trim_front(s.drop_first())
    } else {
        s
    }
}

/// `s` without the white space that it ends with.
pub open spec fn trim_back(s: Seq<char>) -> Seq<char>
    decreases s.len(),
{
    if s.len() > 0 && is_white_space(s.last()) {
        trim_back(s.drop_last())
    } else {
        s
    }
}

/// `s` without the white space around it.
pub open spec fn trimmed(s: Seq<char>) -> Seq<char> {
    trim_back(trim_front(s))
}

/// What is left after trimming the front begins with no white space and holds only what was there.
proof fn lemma_trim_front(s: Seq<char>)
    ensures
        trim_front(s).len() > 0 ==> !is_white_space(trim_front(s)[0]),
        forall|c: char| #[trigger] trim_front(s).contains(c) ==> s.contains(c),
    decreases s.len(),
{
    if s.len() > 0 && is_white_space(s[0]) {
        let rest = s.drop_first();
        lemma_trim_front(rest);
        assert forall|c: char| #[trigger] trim_front(s).contains(c) implies s.contains(c) by {
            assert(rest.contains(c));
            let i = choose|i: int| 0 <= i < rest.len() && rest[i] == c;
            assert(s[i + 1] == c);
        }
    }
}

/// What is left after trimming the back ends with no white space, holds only what was there, and
/// begins as it did.
proof fn lemma_trim_back(s: Seq<char>)
    ensures
        trim_back(s).len() > 0 ==> !is_white_space(trim_back(s).last()) && trim_back(s)[0] == s[0],
        forall|c: char| #[trigger] trim_back(s).contains(c) ==> s.contains(c),
    decreases s.len(),
{
    if s.len() > 0 && is_white_space(s.last()) {
        let rest = s.drop_last();
        lemma_trim_back(rest);
        assert forall|c: char| #[trigger] trim_back(s).contains(c) implies s.contains(c) by {
            assert(rest.contains(c));
            let i = choose|i: int| 0 <= i < rest.len() && rest[i] == c;
            assert(s[i] == c);
        }
    }
}

/// Trimming a text twice is trimming it once, and a trimmed text holds only what the text holds.
pub proof fn law_trimmed_texts_stay(s: Seq<char>)
    ensures
        trimmed(trimmed(s)) == trimmed(s),
        trimmed(s).len() > 0 ==> !is_white_space(trimmed(s)[0]) && !is_white_space(
            trimmed(s).last(),
        ),
        forall|c: char| #[trigger] trimmed(s).contains(c) ==> s.contains(c),
{
    lemma_trim_front(s);
    lemma_trim_back(trim_front(s));
}

/// `s` without the white space around it.
pub fn trim(s: &Vec<char>) -> (out: Vec<char>)
    ensures
        out@ == trimmed(s@),
{
    let n: usize = s.len();
    let mut from: usize = 0;
    assert(s@.skip(0) =~= s@);
    while from < n && white_space(s[from])
        invariant
            from <= n,
            n == s@.len(),
            trim_front(s@) == trim_front(s@.skip(from as int)),
        decreases n - from,
    {
        assert(s@.skip(from as int)[0] == s@[from as int]);
        assert(s@.skip(from as int).drop_first() =~= s@.skip(from + 1));
        from = from + 1;
    }
    assert(trim_front(s@) == s@.skip(from as int)) by {
        if from < n {
            assert(s@.skip(from as int)[0] == s@[from as int]);
        }
    }
    let mut to: usize = n;
    assert(s@.subrange(from as int, n as int) =~= s@.skip(from as int));
    while from < to && white_space(s[to - 1])
        invariant
            from <= to <= n,
            n == s@.len(),
            trim_back(s@.skip(from as int)) == trim_back(s@.subrange(from as int, to as int)),
        decreases to - from,
    {
        let ghost rest = s@.subrange(from as int, to as int);
        assert(rest.last() == s@[to - 1]);
        assert(rest.drop_last() =~= s@.subrange(from as int, to - 1));
        to = to - 1;
    }
    assert(trim_back(s@.skip(from as int)) == s@.subrange(from as int, to as int)) by {
        let rest = s@.subrange(from as int, to as int);
        if from < to {
            assert(rest.last() == s@[to - 1]);
        }
    }
    part(s, from, to)
}

// ---------------------------------------------------------------------------
// Numerals
// ---------------------------------------------------------------------------

/// The decimal digit for `d`.
pub open spec fn decimal_digit(d: nat) -> char {
    (('0' as u32) + d) as char
}

/// The decimal numeral of `n`, without leading zeros.
pub open spec fn decimal(n: nat) -> Seq<char>
    decreases n,
{
    if n < 10 {
        seq![decimal_digit(n)]
    } else {
        decimal(n / 10).push(decimal_digit(n % 10))
    }
}

/// The decimal digit for `d`.
fn digit_character(d: u64) -> (c: char)
    requires
        d < 10,
    ensures
        c == decimal_digit(d as nat),
{
    match d {
        0 => '0',
        1 => '1',
        2 => '2',
        3 => '3',
        4 => '4',
        5 => '5',
        6 => '6',
        7 => '7',
        8 => '8',
        _ => '9',
    }
}

/// Appends the decimal numeral of `n` to `out`.
pub fn push_decimal(out: &mut String, n: u64)
    ensures
        final(out)@ == old(out)@ + decimal(n as nat),
    decreases n,
{
    if n >= 10 {
        push_decimal(out, n / 10);
    }
    let ghost before = out@;
    out.push(digit_character(n % 10));
    proof {
        if n >= 10 {
            assert(before.push(decimal_digit((n % 10) as nat)) =~= old(out)@ + decimal(n as nat));
        } else {
            assert(before.push(decimal_digit(n as nat)) =~= old(out)@ + decimal(n as nat));
        }
    }
}

/// The lower-case hexadecimal digit for `d`.
pub open spec fn hex_digit(d: nat) -> char {
    if d < 10 {
        (('0' as u32) + d) as char
    } else {
        (('a' as u32) + (d - 10)) as char
    }
}

/// The last `width` hexadecimal digits of `n`, most significant first, in lower
/// case.
pub open spec fn hex_fixed(n: nat, width: nat) -> Seq<char>
    decreases width,
{
    if width == 0 {
        Seq::<char>::empty()
    } else {
        hex_fixed(n / 16, (width - 1) as nat).push(hex_digit(n % 16))
    }
}

/// The lower-case hexadecimal digit for `d`.
fn hex_character(d: u128) -> (c: char)
    requires
        d < 16,
    ensures
        c == hex_digit(d as nat),
{
    match d {
        0 => '0',
        1 => '1',
        2 => '2',
        3 => '3',
        4 => '4',
        5 => '5',
        6 => '6',
        7 => '7',
        8 => '8',
        9 => '9',
        10 => 'a',
        11 => 'b',
        12 => 'c',
        13 => 'd',
        14 => 'e',
        _ => 'f',
    }
}

/// Appends the last `width` hexadecimal digits of `n` to `out`.
pub fn push_hex(out: &mut String, n: u128, width: usize)
    ensures
        final(out)@ == old(out)@ + hex_fixed(n as nat, width as nat),
    decreases width,
{
    if width == 0 {
        assert(out@ + hex_fixed(n as nat, 0) =~= out@);
        return;
    }
    push_hex(out, n / 16, width - 1);
    let ghost before = out@;
    out.push(hex_character(n % 16));
    assert(before.push(hex_digit((n % 16) as nat)) =~= old(out)@ + hex_fixed(
        n as nat,
        width as nat,
    ));
}

/// What the hexadecimal digit `c` stands for, in either case.
pub open spec fn hex_digit_value(c: char) -> Option<nat> {
    let u = c as u32;
    if 0x30 <= u <= 0x39 {
        Some((u - 0x30) as nat)
    } else if 0x61 <= u <= 0x66 {
        Some((u - 0x61 + 10) as nat)
    } else if 0x41 <= u <= 0x46 {
        Some((u - 0x41 + 10) as nat)
    } else {
        None
    }
}

/// What a row of hexadecimal digits stands for; nothing if some character is
/// not a digit.
pub open spec fn hex_value(digits: Seq<char>) -> Option<nat>
    decreases digits.len(),
{
    if digits.len() == 0 {
        Some(0)
    } else {
        match (hex_value(digits.drop_last()), hex_digit_value(digits.last())) {
            (Some(high), Some(low)) => Some(16 * high + low),
            _ => None,
        }
    }
}

/// What a hexadecimal numeral stands for: an optional `+`, then at least one
/// digit.
pub open spec fn hex_numeral(s: Seq<char>) -> Option<nat> {
    let digits = if s.len() > 0 && s[0] == '+' {
        s.drop_first()
    } else {
        s
    };
    if digits.len() == 0 {
        None
    } else {
        hex_value(digits)
    }
}

/// Sixteen to the power `k`.
pub open spec fn sixteen_to(k: nat) -> nat
    decreases k,
{
    if k == 0 {
        1
    } else {
        16 * sixteen_to((k - 1) as nat)
    }
}

/// Writing a number with enough hexadecimal digits and reading it gives the
/// number back.
pub proof fn law_hex_reads_back(n: nat, width: nat)
    requires
        n < sixteen_to(width),
    ensures
        hex_fixed(n, width).len() == width,
        hex_value(hex_fixed(n, width)) == Some(n),
        width > 0 ==> hex_numeral(hex_fixed(n, width)) == Some(n),
        forall|i: int|
            0 <= i < width ==> hex_digit_value(#[trigger] hex_fixed(n, width)[i]) is Some,
        forall|i: int| 0 <= i < width ==> !(0x41 <= #[trigger] hex_fixed(n, width)[i] as u32 <= 0x5A),
    decreases width,
{
    if width > 0 {
        law_hex_reads_back(n / 16, (width - 1) as nat);
        let written = hex_fixed(n, width);
        let high = hex_fixed(n / 16, (width - 1) as nat);
        assert(written.drop_last() =~= high);
        assert(hex_digit_value(hex_digit(n % 16)) == Some(n % 16));
        assert(hex_value(written) == Some(16 * (n / 16) + n % 16));
        assert forall|i: int| 0 <= i < width implies hex_digit_value(
            #[trigger] written[i],
        ) is Some && !(0x41 <= written[i] as u32 <= 0x5A) by {
            if i < width - 1 {
                assert(written[i] == high[i]);
            }
        }
        assert(written[0] != '+') by {
            assert(hex_digit_value(written[0]) is Some);
        }
    }
}

// ---------------------------------------------------------------------------
// What splitting, trimming and numerals keep
// ---------------------------------------------------------------------------

/// A text is cut where the character first stands: before it is no other, and the two parts with
/// the character between them are the text. A text without the character is not cut.
pub proof fn law_cuts_are_at_the_first(s: Seq<char>, c: char)
    ensures
        cut_once(s, c) is Some == s.contains(c),
        cut_once(s, c) matches Some(parts) ==> !parts.0.contains(c) && parts.0 + seq![c] + parts.1
            == s,
{
    lemma_first_position(s, c);
    let at = first_position(s, c);
    if at < s.len() {
        assert(s[at] == c);
        assert(s.take(at) + seq![c] + s.skip(at + 1) =~= s);
    } else if s.contains(c) {
        let i = choose|i: int| 0 <= i < s.len() && s[i] == c;
        assert(s[i] != c);
    }
}

/// Pieces that each end with the separator are told apart, whether or not the last, unless it is
/// empty, is ended too.
pub proof fn law_ended_pieces_are_told_apart(pieces: Seq<Seq<char>>, separator: char)
    requires
        pieces.len() >= 1,
        forall|i: int| 0 <= i < pieces.len() ==> !(#[trigger] pieces[i]).contains(separator),
    ensures
        pieces.last().len() > 0 ==> split_ended(join_with(pieces, separator), separator) == pieces,
        split_ended(join_with(pieces, separator).push(separator), separator) == pieces,
        split_ended(Seq::empty(), separator) == Seq::<Seq<char>>::empty(),
{
    law_join_then_split(pieces, separator);
    let text = join_with(pieces, separator);
    assert(text.push(separator).drop_last() =~= text);
    assert(split_on(text.push(separator), separator) == pieces.push(Seq::<char>::empty()));
    assert(pieces.push(Seq::<char>::empty()).drop_last() =~= pieces);
    let nothing = split_on(Seq::empty(), separator);
    assert(nothing =~= seq![Seq::<char>::empty()]);
    assert(nothing.drop_last() =~= Seq::<Seq<char>>::empty());
}

/// White space is the tabs, line ends and spaces of ASCII, the next line, the spaces that do not
/// break, the spaces of general punctuation, and the line and paragraph separators.
pub proof fn law_white_space_is_what_separates_words(c: char)
    ensures
        is_white_space(c) == (seq!['\t', '\n', '\u{b}', '\u{c}', '\r', ' '].contains(c) || seq![
            '\u{85}',
            '\u{a0}',
            '\u{1680}',
            '\u{2028}',
            '\u{2029}',
            '\u{202f}',
            '\u{205f}',
            '\u{3000}',
        ].contains(c) || '\u{2000}' <= c <= '\u{200a}'),
{
    let ascii = seq!['\t', '\n', '\u{b}', '\u{c}', '\r', ' '];
    let wide = seq![
        '\u{85}',
        '\u{a0}',
        '\u{1680}',
        '\u{2028}',
        '\u{2029}',
        '\u{202f}',
        '\u{205f}',
        '\u{3000}',
    ];
    assert(ascii[0] == '\t' && ascii[1] == '\n' && ascii[2] == '\u{b}' && ascii[3] == '\u{c}'
        && ascii[4] == '\r' && ascii[5] == ' ');
    assert(wide[0] == '\u{85}' && wide[1] == '\u{a0}' && wide[2] == '\u{1680}' && wide[3]
        == '\u{2028}' && wide[4] == '\u{2029}' && wide[5] == '\u{202f}' && wide[6] == '\u{205f}'
        && wide[7] == '\u{3000}');
}

/// Control characters are those below the space, the delete character, and the next thirty-two.
pub proof fn law_controls_are_not_printed(c: char)
    ensures
        is_control(c) == (c < ' ' || c == '\u{7f}' || '\u{80}' <= c < '\u{a0}'),
{
}

/// Trimming takes away white space, and only what stands at the ends.
pub proof fn law_trimming_takes_the_ends(s: Seq<char>) -> (ends: (int, int))
    ensures
        0 <= ends.0 <= ends.1 <= s.len(),
        trimmed(s) == s.subrange(ends.0, ends.1),
        forall|i: int| 0 <= i < ends.0 ==> is_white_space(#[trigger] s[i]),
        forall|i: int| ends.1 <= i < s.len() ==> is_white_space(#[trigger] s[i]),
        trimmed(s).len() > 0 ==> !is_white_space(trimmed(s)[0]) && !is_white_space(
            trimmed(s).last(),
        ),
{
    law_trimmed_texts_stay(s);
    let front = lemma_front_ends(s);
    let rest = s.skip(front);
    let back = lemma_back_ends(rest);
    assert(rest.take(back) =~= s.subrange(front, front + back));
    assert forall|i: int| front + back <= i < s.len() implies is_white_space(#[trigger] s[i]) by {
        assert(rest[i - front] == s[i]);
    }
    (front, front + back)
}

/// Where the white space at the front ends.
proof fn lemma_front_ends(s: Seq<char>) -> (n: int)
    ensures
        0 <= n <= s.len(),
        trim_front(s) == s.skip(n),
        forall|i: int| 0 <= i < n ==> is_white_space(#[trigger] s[i]),
    decreases s.len(),
{
    if s.len() > 0 && is_white_space(s[0]) {
        let rest = s.drop_first();
        let n = lemma_front_ends(rest);
        assert(rest.skip(n) =~= s.skip(n + 1));
        assert forall|i: int| 0 <= i < n + 1 implies is_white_space(#[trigger] s[i]) by {
            if i > 0 {
                assert(rest[i - 1] == s[i]);
            }
        }
        n + 1
    } else {
        assert(s.skip(0) =~= s);
        0
    }
}

/// Where the white space at the back begins.
proof fn lemma_back_ends(s: Seq<char>) -> (n: int)
    ensures
        0 <= n <= s.len(),
        trim_back(s) == s.take(n),
        forall|i: int| n <= i < s.len() ==> is_white_space(#[trigger] s[i]),
    decreases s.len(),
{
    if s.len() > 0 && is_white_space(s.last()) {
        let rest = s.drop_last();
        let n = lemma_back_ends(rest);
        assert(rest.take(n) =~= s.take(n));
        assert forall|i: int| n <= i < s.len() implies is_white_space(#[trigger] s[i]) by {
            if i < s.len() - 1 {
                assert(rest[i] == s[i]);
            }
        }
        n
    } else {
        assert(s.take(s.len() as int) =~= s);
        s.len() as int
    }
}

/// What a row of decimal digits stands for.
pub open spec fn decimal_value(digits: Seq<char>) -> int
    decreases digits.len(),
{
    if digits.len() == 0 {
        0
    } else {
        10 * decimal_value(digits.drop_last()) + (digits.last() as u32 - '0' as u32)
    }
}

/// A decimal numeral stands for its number; it holds digits only, and begins with a zero only
/// where it is the numeral of zero.
pub proof fn law_decimals_read_back(n: nat)
    ensures
        decimal_value(decimal(n)) == n,
        decimal(n).len() >= 1,
        forall|i: int| 0 <= i < decimal(n).len() ==> '0' <= #[trigger] decimal(n)[i] <= '9',
        decimal(n)[0] == '0' ==> n == 0,
    decreases n,
{
    let text = decimal(n);
    if n < 10 {
        assert(text.drop_last() =~= Seq::empty());
        assert(text.last() as u32 == '0' as u32 + n);
        reveal_with_fuel(decimal_value, 2);
    } else {
        law_decimals_read_back(n / 10);
        assert(text.drop_last() =~= decimal(n / 10));
        assert(text.last() as u32 == '0' as u32 + n % 10);
        assert(text[0] == decimal(n / 10)[0]);
        assert forall|i: int| 0 <= i < text.len() implies '0' <= #[trigger] text[i] <= '9' by {
            if i < text.len() - 1 {
                assert(text[i] == decimal(n / 10)[i]);
            }
        }
    }
}

/// Whether a character is a hexadecimal digit, of either case.
pub open spec fn is_hex(c: char) -> bool {
    '0' <= c <= '9' || 'a' <= c <= 'f' || 'A' <= c <= 'F'
}

/// A hexadecimal digit stands for how far it is from `0`, or ten more than how far it is from `a`
/// or `A`; nothing else stands for a number.
pub proof fn law_hex_digits_stand_for_numbers(c: char)
    ensures
        hex_digit_value(c) is Some == is_hex(c),
        '0' <= c <= '9' ==> hex_digit_value(c)->0 == c as u32 - '0' as u32,
        'a' <= c <= 'f' ==> hex_digit_value(c)->0 == c as u32 - 'a' as u32 + 10,
        'A' <= c <= 'F' ==> hex_digit_value(c)->0 == c as u32 - 'A' as u32 + 10,
{
}

/// A row of hexadecimal digits stands for a number below sixteen to its length, which is zero
/// exactly where all of them are `0`; each digit counts sixteen times what it counts one place
/// further back. A row with anything else in it stands for nothing.
pub proof fn law_hex_rows_stand_for_numbers(digits: Seq<char>)
    ensures
        hex_value(digits) is Some == (forall|i: int|
            0 <= i < digits.len() ==> is_hex(#[trigger] digits[i])),
        hex_value(digits) matches Some(n) ==> n < sixteen_to(digits.len()),
        hex_value(digits) matches Some(n) ==> (n == 0) == (forall|i: int|
            0 <= i < digits.len() ==> #[trigger] digits[i] == '0'),
        forall|c: char|
            hex_value(digits) is Some && is_hex(c) ==> #[trigger] hex_value(digits.push(c)) == Some(
                16 * hex_value(digits)->0 + hex_digit_value(c)->0,
            ),
    decreases digits.len(),
{
    if digits.len() > 0 {
        let init = digits.drop_last();
        law_hex_rows_stand_for_numbers(init);
        law_hex_digits_stand_for_numbers(digits.last());
        assert(forall|i: int| 0 <= i < init.len() ==> #[trigger] init[i] == digits[i]);
        assert(digits[digits.len() - 1] == digits.last());
        if hex_value(digits) is Some {
            assert forall|i: int| 0 <= i < digits.len() implies is_hex(#[trigger] digits[i]) by {
                if i < digits.len() - 1 {
                    assert(is_hex(init[i]));
                }
            }
            if hex_value(digits) == Some(0nat) {
                assert forall|i: int| 0 <= i < digits.len() implies #[trigger] digits[i] == '0' by {
                    if i < digits.len() - 1 {
                        assert(init[i] == '0');
                    }
                }
            }
        }
        if forall|i: int| 0 <= i < digits.len() ==> is_hex(#[trigger] digits[i]) {
            assert forall|i: int| 0 <= i < init.len() implies is_hex(#[trigger] init[i]) by {
                assert(init[i] == digits[i]);
            }
        }
        if forall|i: int| 0 <= i < digits.len() ==> #[trigger] digits[i] == '0' {
            assert forall|i: int| 0 <= i < init.len() implies #[trigger] init[i] == '0' by {
                assert(init[i] == digits[i]);
            }
        }
    }
    assert forall|c: char| hex_value(digits) is Some && is_hex(c) implies #[trigger] hex_value(
        digits.push(c),
    ) == Some(16 * hex_value(digits)->0 + hex_digit_value(c)->0) by {
        assert(digits.push(c).drop_last() =~= digits);
    }
}

/// The texts of a list are those of its strings, each in its place, and an optional string has a
/// text exactly where there is one.
pub proof fn law_lists_hold_their_texts(list: Seq<String>, i: int, s: Option<String>, t: Option<&str>)
    ensures
        texts(list).len() == list.len(),
        0 <= i < list.len() ==> texts(list)[i] == list[i]@,
        optional_text(s) is Some == s is Some,
        s matches Some(text) ==> optional_text(s)->0 == text@,
        optional_str(t) is Some == t is Some,
        t matches Some(text) ==> optional_str(t)->0 == text@,
{
}

} // verus!
