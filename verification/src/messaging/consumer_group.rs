//! Which of the replicas of a component get a message.
use vstd::prelude::*;

use crate::text::characters;
use crate::text::hex_digit;
use crate::text::hex_fixed;
use crate::text::hex_value;
use crate::text::is_white_space;
use crate::text::law_hex_reads_back;
use crate::text::push_hex;
use crate::text::push_text;
use crate::text::same_text;
use crate::text::sixteen_to;
use crate::text::white_space;

verus! {

/// The setting that names a consumer group.
pub const CONSUMER_GROUP_CONFIG: &'static str = "consumer_group";

/// The value of that setting for no group: every replica gets every message.
pub const BROADCAST_CONSUMER_GROUP: &'static str = "broadcast";

/// How long the name of a default group gets at most.
pub const MAX_DEFAULT_CONSUMER_GROUP_LEN: usize = 128;

/// How much of a default group's name is readable at most: the rest is taken by the prefix
/// `wasmcloud.`, a dot and sixteen digits.
pub const MAX_READABLE_LEN: usize = 101;

/// The replicas that share messages: each message goes to one member of a group, and without a
/// group to all.
#[derive(Debug, PartialEq, Eq)]
pub enum ConsumerGroup {
    Grouped(String),
    Broadcast,
}

/// What a [`ConsumerGroup`] holds.
pub enum ConsumerGroupView {
    Grouped(Seq<char>),
    Broadcast,
}

impl View for ConsumerGroup {
    type V = ConsumerGroupView;

    open spec fn view(&self) -> ConsumerGroupView {
        match self {
            ConsumerGroup::Grouped(name) => ConsumerGroupView::Grouped(name@),
            ConsumerGroup::Broadcast => ConsumerGroupView::Broadcast,
        }
    }
}

impl Clone for ConsumerGroup {
    fn clone(&self) -> (copy: Self)
        ensures
            copy@ == self@,
    {
        match self {
            ConsumerGroup::Grouped(name) => ConsumerGroup::Grouped(name.clone()),
            ConsumerGroup::Broadcast => ConsumerGroup::Broadcast,
        }
    }
}

/// Why a consumer group was rejected.
#[derive(Debug, PartialEq, Eq)]
pub enum ConsumerGroupError {
    Empty,
    Unsafe(String),
}

impl ConsumerGroupError {
    /// The words for this error.
    pub open spec fn words(self) -> Seq<char> {
        match self {
            ConsumerGroupError::Empty => {
                "`consumer_group` cannot be empty; omit it for the default group or set it to `broadcast` for broadcast delivery"@
            },
            ConsumerGroupError::Unsafe(value) => {
                "invalid `consumer_group` `"@ + value@
                    + "`: NATS consumer groups cannot contain whitespace, `*`, or `>`"@
            },
        }
    }

    /// The words for this error.
    pub fn text(&self) -> (text: String)
        ensures
            text@ == self.words(),
    {
        match self {
            ConsumerGroupError::Empty => {
                "`consumer_group` cannot be empty; omit it for the default group or set it to `broadcast` for broadcast delivery".to_string()
            },
            ConsumerGroupError::Unsafe(value) => {
                let mut text = "invalid `consumer_group` `".to_string();
                push_text(&mut text, value.as_str());
                push_text(
                    &mut text,
                    "`: NATS consumer groups cannot contain whitespace, `*`, or `>`",
                );
                text
            },
        }
    }
}

/// Whether a character can stand in the name of a group.
pub open spec fn group_char(c: char) -> bool {
    !is_white_space(c) && c != '*' && c != '>'
}

/// Whether a text can be the name of a group.
pub open spec fn group_name(value: Seq<char>) -> bool {
    value.len() > 0 && forall|i: int| 0 <= i < value.len() ==> group_char(#[trigger] value[i])
}

/// Whether `value` can be the name of a group.
pub fn validate_consumer_group(value: &str) -> (result: Result<(), ConsumerGroupError>)
    ensures
        match result {
            Ok(()) => group_name(value@),
            Err(ConsumerGroupError::Empty) => value@.len() == 0,
            Err(ConsumerGroupError::Unsafe(text)) => value@.len() > 0 && !group_name(value@)
                && text@ == value@,
        },
{
    let all = characters(value);
    let n: usize = all.len();
    if n == 0 {
        return Err(ConsumerGroupError::Empty);
    }
    for i in 0..n
        invariant
            n == all@.len(),
            all@ == value@,
            n > 0,
            forall|j: int| 0 <= j < i ==> group_char(#[trigger] value@[j]),
    {
        if white_space(all[i]) || all[i] == '*' || all[i] == '>' {
            assert(!group_char(value@[i as int]));
            return Err(ConsumerGroupError::Unsafe(value.to_string()));
        }
    }
    Ok(())
}

// ---------------------------------------------------------------------------
// Default groups
// ---------------------------------------------------------------------------

/// The 64-bit FNV-1a hash of bytes.
pub open spec fn fnv1a(bytes: Seq<u8>) -> u64
    decreases bytes.len(),
{
    if bytes.len() == 0 {
        0xcbf29ce484222325
    } else {
        (((fnv1a(bytes.drop_last()) ^ (bytes.last() as u64)) * 0x100000001b3) % 0x1_0000_0000_0000_0000)
            as u64
    }
}

/// A character as it stands in a readable name: ASCII letters, digits, `-` and `_` stay, anything
/// else becomes `-`.
pub open spec fn readable_char(c: char) -> char {
    if ('a' <= c <= 'z') || ('A' <= c <= 'Z') || ('0' <= c <= '9') || c == '-' || c == '_' {
        c
    } else {
        '-'
    }
}

/// A part of a component's identity, readable.
pub open spec fn readable(part: Seq<char>) -> Seq<char> {
    part.map_values(|c: char| readable_char(c))
}

/// The identity of a component, readable.
pub open spec fn readable_identity(
    namespace: Seq<char>,
    workload: Seq<char>,
    component: Seq<char>,
) -> Seq<char> {
    readable(namespace) + seq!['.'] + readable(workload) + seq!['.'] + readable(component)
}

/// The first characters of a readable identity, as many as fit.
pub open spec fn cut(text: Seq<char>) -> Seq<char> {
    if text.len() <= MAX_READABLE_LEN {
        text
    } else {
        text.take(MAX_READABLE_LEN as int)
    }
}

/// What the hash in the name of a default group is of.
pub open spec fn identity(
    namespace: Seq<char>,
    workload: Seq<char>,
    component: Seq<char>,
) -> Seq<char> {
    namespace + seq!['\0'] + workload + seq!['\0'] + component
}

/// The name of the default group of a component.
pub open spec fn default_group(
    namespace: Seq<char>,
    workload: Seq<char>,
    component: Seq<char>,
) -> Seq<char> {
    "wasmcloud."@ + cut(readable_identity(namespace, workload, component)) + seq!['.'] + hex_fixed(
        fnv1a(vstd::utf8::encode_utf8(identity(namespace, workload, component))) as nat,
        16,
    )
}

/// The FNV-1a hash of a text's bytes.
fn hash(text: &str) -> (hash: u64)
    ensures
        hash == fnv1a(vstd::utf8::encode_utf8(text@)),
{
    let bytes = text.as_bytes();
    let n: usize = bytes.len();
    let mut hash: u64 = 0xcbf29ce484222325;
    assert(bytes@.take(0) =~= Seq::<u8>::empty());
    for i in 0..n
        invariant
            n == bytes@.len(),
            hash == fnv1a(bytes@.take(i as int)),
    {
        assert(bytes@.take(i + 1).drop_last() =~= bytes@.take(i as int));
        let mixed: u64 = hash ^ (bytes[i] as u64);
        hash = mixed.wrapping_mul(0x100000001b3);
    }
    assert(bytes@.take(n as int) =~= bytes@);
    hash
}

/// Puts a part of an identity, readable, at the end of a text.
fn push_readable(out: &mut String, part: &str)
    ensures
        final(out)@ == old(out)@ + readable(part@),
{
    let ghost before = out@;
    for c in it: part.chars()
        invariant
            it.seq() == part@,
            out@ == before + readable(part@.take(it.index())),
    {
        let ghost i = it.index();
        let shown: char = if ('a' <= c && c <= 'z') || ('A' <= c && c <= 'Z') || ('0' <= c && c
            <= '9') || c == '-' || c == '_' {
            c
        } else {
            '-'
        };
        out.push(shown);
        assert(readable(part@.take(i + 1)) =~= readable(part@.take(i)).push(readable_char(c)));
        assert(out@ =~= before + readable(part@.take(i + 1)));
    }
    assert(part@.take(part@.len() as int) =~= part@);
}

/// A stable name for the group of all replicas of a component that NATS takes. The readable part
/// tells operators whose it is; the hash keeps apart what looks alike there or was cut off.
pub fn default_consumer_group(namespace: &str, workload: &str, component: &str) -> (name: String)
    ensures
        name@ == default_group(namespace@, workload@, component@),
{
    let mut whole = String::new();
    push_text(&mut whole, namespace);
    whole.push('\0');
    push_text(&mut whole, workload);
    whole.push('\0');
    push_text(&mut whole, component);
    assert(whole@ =~= identity(namespace@, workload@, component@));
    let hash: u64 = hash(whole.as_str());
    let mut shown = String::new();
    push_readable(&mut shown, namespace);
    shown.push('.');
    push_readable(&mut shown, workload);
    shown.push('.');
    push_readable(&mut shown, component);
    let ghost full = readable_identity(namespace@, workload@, component@);
    assert(shown@ =~= full);
    let letters = characters(shown.as_str());
    let mut name = String::new();
    push_text(&mut name, "wasmcloud.");
    let limit: usize = if letters.len() < MAX_READABLE_LEN {
        letters.len()
    } else {
        MAX_READABLE_LEN
    };
    let ghost prefix = name@;
    for i in 0..limit
        invariant
            limit <= letters@.len(),
            letters@ == full,
            name@ == prefix + full.take(i as int),
    {
        name.push(letters[i]);
        assert(name@ =~= prefix + full.take(i + 1));
    }
    assert(full.take(limit as int) =~= cut(full));
    name.push('.');
    push_hex(&mut name, hash as u128, 16);
    assert(name@ =~= default_group(namespace@, workload@, component@)) by {
        assert(prefix =~= "wasmcloud."@);
    }
    name
}

impl ConsumerGroup {
    /// The group for a setting: the default group without one, none for `broadcast`, and else the
    /// group that it names, if it can be a name.
    pub fn resolve(
        configured: Option<&str>,
        workload_namespace: &str,
        workload_name: &str,
        component_name: &str,
    ) -> (result: Result<ConsumerGroup, ConsumerGroupError>)
        ensures
            match configured {
                None => result matches Ok(group) && group@ == ConsumerGroupView::Grouped(
                    default_group(workload_namespace@, workload_name@, component_name@),
                ),
                Some(value) => if value@ == BROADCAST_CONSUMER_GROUP@ {
                    result matches Ok(group) && group@ == ConsumerGroupView::Broadcast
                } else {
                    match result {
                        Ok(group) => group_name(value@) && group@ == ConsumerGroupView::Grouped(
                            value@,
                        ),
                        Err(ConsumerGroupError::Empty) => value@.len() == 0,
                        Err(ConsumerGroupError::Unsafe(text)) => value@.len() > 0 && !group_name(
                            value@,
                        ) && text@ == value@,
                    }
                },
            },
    {
        match configured {
            None => Ok(
                ConsumerGroup::Grouped(
                    default_consumer_group(workload_namespace, workload_name, component_name),
                ),
            ),
            Some(value) => {
                if same_text(value, BROADCAST_CONSUMER_GROUP) {
                    return Ok(ConsumerGroup::Broadcast);
                }
                match validate_consumer_group(value) {
                    Ok(()) => Ok(ConsumerGroup::Grouped(value.to_string())),
                    Err(error) => Err(error),
                }
            },
        }
    }

    /// The name of the group, if there is one.
    pub fn name(&self) -> (name: Option<&str>)
        ensures
            match (self@, name) {
                (ConsumerGroupView::Grouped(text), Some(name)) => name@ == text,
                (ConsumerGroupView::Broadcast, None) => true,
                _ => false,
            },
    {
        match self {
            ConsumerGroup::Grouped(name) => Some(name.as_str()),
            ConsumerGroup::Broadcast => None,
        }
    }
}

/// Whether a text is of ASCII characters that can stand in a group's name.
spec fn plain(text: Seq<char>) -> bool {
    forall|i: int| 0 <= i < text.len() ==> group_char(#[trigger] text[i]) && '\0' <= text[i]
        <= '\u{7f}'
}

/// Plain texts make up a plain text.
proof fn lemma_plain_sum(a: Seq<char>, b: Seq<char>)
    requires
        plain(a),
        plain(b),
    ensures
        plain(a + b),
{
    assert forall|i: int| 0 <= i < (a + b).len() implies group_char(#[trigger] (a + b)[i]) && '\0'
        <= (a + b)[i] <= '\u{7f}' by {
        if i < a.len() {
            assert((a + b)[i] == a[i]);
        } else {
            assert((a + b)[i] == b[i - a.len()]);
        }
    }
}

/// A numeral of hexadecimal digits is plain.
proof fn lemma_hex_is_plain(n: nat, width: nat)
    ensures
        hex_fixed(n, width).len() == width,
        plain(hex_fixed(n, width)),
    decreases width,
{
    if width > 0 {
        lemma_hex_is_plain(n / 16, (width - 1) as nat);
        let digit = hex_digit(n % 16);
        assert(group_char(digit) && '\0' <= digit <= '\u{7f}') by {
            let d = n % 16;
            if d < 10 {
                assert(digit as u32 == 0x30 + d);
            } else {
                assert(digit as u32 == 0x61 + d - 10);
            }
        }
    }
}

/// A readable part is plain.
proof fn lemma_readable_is_plain(part: Seq<char>)
    ensures
        plain(readable(part)),
{
    assert forall|i: int| 0 <= i < readable(part).len() implies group_char(
        #[trigger] readable(part)[i],
    ) && '\0' <= readable(part)[i] <= '\u{7f}' by {
        assert(readable(part)[i] == readable_char(part[i]));
    }
}

/// A default group has a name that NATS takes, of at most 128 bytes, whatever the component is
/// called.
pub proof fn law_default_groups_are_safe_and_bounded(
    namespace: Seq<char>,
    workload: Seq<char>,
    component: Seq<char>,
)
    ensures
        vstd::utf8::encode_utf8(default_group(namespace, workload, component)).len()
            <= MAX_DEFAULT_CONSUMER_GROUP_LEN,
        group_name(default_group(namespace, workload, component)),
{
    let name = default_group(namespace, workload, component);
    let dot = seq!['.'];
    let number = fnv1a(vstd::utf8::encode_utf8(identity(namespace, workload, component))) as nat;
    reveal_strlit("wasmcloud.");
    let start = "wasmcloud."@;
    assert(start =~= seq!['w', 'a', 's', 'm', 'c', 'l', 'o', 'u', 'd', '.']);
    assert(plain(start));
    assert(plain(dot));
    lemma_readable_is_plain(namespace);
    lemma_readable_is_plain(workload);
    lemma_readable_is_plain(component);
    lemma_plain_sum(readable(namespace), dot);
    lemma_plain_sum(readable(namespace) + dot, readable(workload));
    lemma_plain_sum(readable(namespace) + dot + readable(workload), dot);
    lemma_plain_sum(readable(namespace) + dot + readable(workload) + dot, readable(component));
    let shown = cut(readable_identity(namespace, workload, component));
    assert(plain(shown));
    lemma_hex_is_plain(number, 16);
    lemma_plain_sum(start, shown);
    lemma_plain_sum(start + shown, dot);
    lemma_plain_sum(start + shown + dot, hex_fixed(number, 16));
    assert forall|i: int| 0 <= i < name.len() implies '\0' <= #[trigger] name[i] <= '\u{7f}' by {
        assert(group_char(name[i]));
    }
    vstd::utf8::is_ascii_chars_encode_utf8(name);
}

/// Multiplying by the prime of the hash loses nothing: it has an inverse.
proof fn lemma_multiplying_is_injective(x: u64, y: u64)
    requires
        (x * 0x100000001b3) % 0x1_0000_0000_0000_0000 == (y * 0x100000001b3)
            % 0x1_0000_0000_0000_0000,
    ensures
        x == y,
{
    let prime: int = 0x100000001b3;
    let inverse: int = 0xce965057aff6957b;
    let whole: int = 0x1_0000_0000_0000_0000;
    let rounds: int = 887285111055;
    let difference = x - y;
    assert(prime * inverse == 1 + rounds * whole) by (nonlinear_arith)
        requires
            prime == 0x100000001b3,
            inverse == 0xce965057aff6957b,
            whole == 0x1_0000_0000_0000_0000,
            rounds == 887285111055,
    ;
    let turns = (x * prime) / whole - (y * prime) / whole;
    assert(difference * prime == turns * whole) by (nonlinear_arith)
        requires
            difference == x - y,
            turns == (x * prime) / whole - (y * prime) / whole,
            (x * prime) % whole == (y * prime) % whole,
            whole > 0,
    ;
    let multiple = turns * inverse - difference * rounds;
    assert(difference == multiple * whole) by (nonlinear_arith)
        requires
            difference * prime == turns * whole,
            prime * inverse == 1 + rounds * whole,
            multiple == turns * inverse - difference * rounds,
    ;
    assert(multiple == 0) by (nonlinear_arith)
        requires
            difference == multiple * whole,
            -whole < difference < whole,
            whole > 0,
    ;
}

/// Bytes that differ in one place, and only there, have different hashes.
proof fn lemma_one_byte_changes_the_hash(a: Seq<u8>, b: Seq<u8>, at: int)
    requires
        a.len() == b.len(),
        0 <= at < a.len(),
        a[at] != b[at],
        forall|i: int| 0 <= i < a.len() && i != at ==> #[trigger] a[i] == b[i],
    ensures
        fnv1a(a) != fnv1a(b),
    decreases a.len(),
{
    let before_a = fnv1a(a.drop_last());
    let before_b = fnv1a(b.drop_last());
    let last_a = a.last() as u64;
    let last_b = b.last() as u64;
    if at == a.len() - 1 {
        assert(a.drop_last() =~= b.drop_last());
        assert(before_a ^ last_a != before_a ^ last_b) by (bit_vector)
            requires
                last_a != last_b,
        ;
    } else {
        assert forall|i: int| 0 <= i < a.drop_last().len() && i != at implies #[trigger] a.drop_last()[i]
            == b.drop_last()[i] by {
            assert(a[i] == b[i]);
        }
        lemma_one_byte_changes_the_hash(a.drop_last(), b.drop_last(), at);
        assert(a[a.len() - 1] == b[a.len() - 1]);
        assert(before_a ^ last_a != before_b ^ last_a) by (bit_vector)
            requires
                before_a != before_b,
        ;
    }
    if fnv1a(a) == fnv1a(b) {
        lemma_multiplying_is_injective(before_a ^ last_a, before_b ^ last_b);
    }
}

/// Components whose identities differ in one byte, and only there, have different default groups,
/// though what tells them apart may not show in the readable part.
pub proof fn law_like_identities_have_groups_of_their_own(
    namespace: Seq<char>,
    workload: Seq<char>,
    component: Seq<char>,
    other_namespace: Seq<char>,
    other_workload: Seq<char>,
    other_component: Seq<char>,
    at: int,
)
    requires
        ({
            let a = vstd::utf8::encode_utf8(identity(namespace, workload, component));
            let b = vstd::utf8::encode_utf8(
                identity(other_namespace, other_workload, other_component),
            );
            &&& a.len() == b.len()
            &&& 0 <= at < a.len()
            &&& a[at] != b[at]
            &&& forall|i: int| 0 <= i < a.len() && i != at ==> #[trigger] a[i] == b[i]
        }),
    ensures
        default_group(namespace, workload, component) != default_group(
            other_namespace,
            other_workload,
            other_component,
        ),
{
    let a = vstd::utf8::encode_utf8(identity(namespace, workload, component));
    let b = vstd::utf8::encode_utf8(identity(other_namespace, other_workload, other_component));
    let first = default_group(namespace, workload, component);
    let second = default_group(other_namespace, other_workload, other_component);
    lemma_one_byte_changes_the_hash(a, b, at);
    assert(sixteen_to(16) == 0x1_0000_0000_0000_0000) by {
        reveal_with_fuel(sixteen_to, 17);
    }
    law_hex_reads_back(fnv1a(a) as nat, 16);
    law_hex_reads_back(fnv1a(b) as nat, 16);
    assert(first.skip(first.len() - 16) =~= hex_fixed(fnv1a(a) as nat, 16));
    assert(second.skip(second.len() - 16) =~= hex_fixed(fnv1a(b) as nat, 16));
}

/// The name of a default group begins with the readable identity of its component, where that is
/// short enough.
pub proof fn law_default_groups_tell_whose_they_are(
    namespace: Seq<char>,
    workload: Seq<char>,
    component: Seq<char>,
)
    requires
        namespace.len() + workload.len() + component.len() + 2 <= MAX_READABLE_LEN,
    ensures
        ("wasmcloud."@ + readable_identity(namespace, workload, component)
            + seq!['.']).is_prefix_of(default_group(namespace, workload, component)),
{
    let start = "wasmcloud."@ + readable_identity(namespace, workload, component) + seq!['.'];
    let name = default_group(namespace, workload, component);
    assert(name.take(start.len() as int) =~= start);
}

/// The hash of no bytes is the offset basis of FNV-1a, and a byte more is mixed into the hash of
/// those before it, which is then multiplied by the prime of FNV-1a.
pub proof fn law_hashes_take_byte_after_byte(bytes: Seq<u8>, byte: u8)
    ensures
        fnv1a(Seq::empty()) == 14695981039346656037,
        fnv1a(bytes.push(byte)) as int == ((fnv1a(bytes) ^ (byte as u64)) * 1099511628211)
            % 18446744073709551616,
{
    assert(bytes.push(byte).drop_last() =~= bytes);
}

/// Letters and digits of ASCII, `-` and `_` are shown as they are, and any other character as `-`,
/// so that a readable part is as long as the part.
pub proof fn law_readable_parts_show_plain_characters(part: Seq<char>, i: int)
    requires
        0 <= i < part.len(),
    ensures
        readable(part).len() == part.len(),
        'a' <= part[i] <= 'z' || 'A' <= part[i] <= 'Z' || '0' <= part[i] <= '9' || part[i] == '-'
            || part[i] == '_' ==> readable(part)[i] == part[i],
        !('a' <= part[i] <= 'z' || 'A' <= part[i] <= 'Z' || '0' <= part[i] <= '9' || part[i] == '-'
            || part[i] == '_') ==> readable(part)[i] == '-',
{
}

/// The name of a default group is the prefix, the parts of the identity with dots between them, a
/// dot, and sixteen hexadecimal digits of the hash of the whole identity. Of a readable identity
/// of more than 101 characters the first 101 are shown, so that the name has 128.
pub proof fn law_default_groups_are_named_after_their_component(
    namespace: Seq<char>,
    workload: Seq<char>,
    component: Seq<char>,
)
    ensures
        ({
            let name = default_group(namespace, workload, component);
            let shown = readable(namespace) + seq!['.'] + readable(workload) + seq!['.'] + readable(
                component,
            );
            let start = seq!['w', 'a', 's', 'm', 'c', 'l', 'o', 'u', 'd', '.'];
            let hash = fnv1a(
                vstd::utf8::encode_utf8(
                    namespace + seq!['\0'] + workload + seq!['\0'] + component,
                ),
            );
            &&& shown.len() <= 101 ==> name.take(name.len() - 16) == start + shown + seq!['.']
            &&& shown.len() > 101 ==> name.len() == 128 && name.take(112) == start + shown.take(101)
                + seq!['.']
            &&& name.len() >= 16
            &&& hex_value(name.skip(name.len() - 16)) == Some(hash as nat)
        }),
{
    reveal_strlit("wasmcloud.");
    let name = default_group(namespace, workload, component);
    let shown = readable_identity(namespace, workload, component);
    let start = seq!['w', 'a', 's', 'm', 'c', 'l', 'o', 'u', 'd', '.'];
    let hash = fnv1a(vstd::utf8::encode_utf8(identity(namespace, workload, component)));
    assert("wasmcloud."@ =~= start);
    assert(sixteen_to(16) == 0x1_0000_0000_0000_0000) by {
        reveal_with_fuel(sixteen_to, 17);
    }
    law_hex_reads_back(hash as nat, 16);
    assert(name.skip(name.len() - 16) =~= hex_fixed(hash as nat, 16));
    assert(name.take(name.len() - 16) =~= start + cut(shown) + seq!['.']);
}

/// The name of a group is at least one character, and none of its characters is white space, `*`
/// or `>`.
pub proof fn law_group_names_are_plain(value: Seq<char>)
    ensures
        group_name(value) == (value.len() > 0 && !value.contains('*') && !value.contains('>')
            && forall|i: int| 0 <= i < value.len() ==> !is_white_space(#[trigger] value[i])),
{
    if group_name(value) {
        if value.contains('*') {
            let i = choose|i: int| 0 <= i < value.len() && value[i] == '*';
            assert(group_char(value[i]));
        }
        if value.contains('>') {
            let i = choose|i: int| 0 <= i < value.len() && value[i] == '>';
            assert(group_char(value[i]));
        }
        assert forall|i: int| 0 <= i < value.len() implies !is_white_space(#[trigger] value[i]) by {
            assert(group_char(value[i]));
        }
    }
    if value.len() > 0 && !value.contains('*') && !value.contains('>') && forall|i: int|
        0 <= i < value.len() ==> !is_white_space(#[trigger] value[i]) {
        assert forall|i: int| 0 <= i < value.len() implies group_char(#[trigger] value[i]) by {
            assert(value.contains(value[i]));
        }
    }
}

/// A component without a setting joins its default group, one with the setting `broadcast` none,
/// and any other the group that its setting names; a setting that can be no name is refused, and an
/// empty one for being empty.
pub proof fn law_settings_choose_the_group(
    configured: Option<&str>,
    namespace: &str,
    workload: &str,
    component: &str,
    result: Result<ConsumerGroup, ConsumerGroupError>,
)
    requires
        call_ensures(
            ConsumerGroup::resolve,
            (configured, namespace, workload, component),
            result,
        ),
    ensures
        configured is None ==> (result matches Ok(group) && group@ == ConsumerGroupView::Grouped(
            default_group(namespace@, workload@, component@),
        )),
        configured matches Some(value) && value@ == "broadcast"@ ==> (result matches Ok(group)
            && group@ == ConsumerGroupView::Broadcast),
        configured matches Some(value) && value@ != "broadcast"@ ==> (if group_name(
            configured->0@,
        ) {
            result matches Ok(group) && group@ == ConsumerGroupView::Grouped(configured->0@)
        } else if configured->0@.len() == 0 {
            result matches Err(ConsumerGroupError::Empty)
        } else {
            result matches Err(ConsumerGroupError::Unsafe(text)) && text@ == configured->0@
        }),
{
}

/// A setting can be the name of a group exactly where it is one; an empty setting is refused for
/// that, and any other with its own text.
pub proof fn law_settings_are_validated(value: &str, result: Result<(), ConsumerGroupError>)
    requires
        call_ensures(validate_consumer_group, (value,), result),
    ensures
        result is Ok <==> group_name(value@),
        value@.len() == 0 ==> result == Err::<(), ConsumerGroupError>(ConsumerGroupError::Empty),
        value@.len() > 0 && !group_name(value@) ==> (result matches Err(
            ConsumerGroupError::Unsafe(text),
        ) && text@ == value@),
{
}

/// The words for a group that can be no name hold the text that was given for it.
pub proof fn law_refused_groups_are_named(value: String)
    ensures
        ({
            let words = ConsumerGroupError::Unsafe(value).words();
            &&& words.len() == 26 + value@.len() + 62
            &&& words.take(26) == "invalid `consumer_group` `"@
            &&& words.subrange(26, 26 + value@.len() as int) == value@
        }),
{
    reveal_strlit("invalid `consumer_group` `");
    reveal_strlit("`: NATS consumer groups cannot contain whitespace, `*`, or `>`");
    let words = ConsumerGroupError::Unsafe(value).words();
    assert(words.take(26) =~= "invalid `consumer_group` `"@);
    assert(words.subrange(26, 26 + value@.len() as int) =~= value@);
}

} // verus!
