//! Interfaces that guests import and export, as WIT names them.
use vstd::prelude::*;

use crate::table::Table;
use crate::text::characters;
use crate::text::cut_once;
use crate::text::join_with;
use crate::text::law_join_then_split;
use crate::text::lemma_first_position_is;
use crate::text::lemma_joined_holds_the_pieces;
use crate::text::optional_text;
use crate::text::same_text;
use crate::text::split;
use crate::text::split_on;
use crate::text::split_once;
use crate::text::string_of;
use crate::text::texts;

verus! {

/// Interfaces of one package, `namespace:package/interface,...@version`, with the settings that
/// a workload gives them.
pub struct WitInterface {
    pub namespace: String,
    pub package: String,
    pub interfaces: Vec<String>,
    pub version: Option<String>,
    pub config: Table<String>,
    pub name: Option<String>,
}

/// What names a [`WitInterface`], which is what its view holds: its settings and its own name are
/// spoken of as fields.
#[verifier::ext_equal]
pub struct InterfaceNames {
    pub namespace: Seq<char>,
    pub package: Seq<char>,
    pub interfaces: Seq<Seq<char>>,
    pub version: Option<Seq<char>>,
}

impl View for WitInterface {
    type V = InterfaceNames;

    open spec fn view(&self) -> InterfaceNames {
        InterfaceNames {
            namespace: self.namespace@,
            package: self.package@,
            interfaces: texts(self.interfaces@),
            version: optional_text(self.version),
        }
    }
}

/// What the text of an interface names: the version stands behind the first `@`, the list of
/// interfaces behind the first `/` before it, the package behind the first `:` before that.
pub open spec fn interface_names(text: Seq<char>) -> InterfaceNames {
    let (main, version) = match cut_once(text, '@') {
        Some((main, version)) => (main, Some(version)),
        None => (text, None),
    };
    let (path, interfaces) = match cut_once(main, '/') {
        Some((path, list)) => (path, split_on(list, ',')),
        None => (main, Seq::<Seq<char>>::empty()),
    };
    let (namespace, package) = match cut_once(path, ':') {
        Some((namespace, package)) => (namespace, package),
        None => (path, Seq::<char>::empty()),
    };
    InterfaceNames { namespace, package, interfaces, version }
}

/// Whether an interface is what a text stands for: what the text names, with no settings and no
/// name of its own.
pub open spec fn written_as(interface: WitInterface, text: Seq<char>) -> bool {
    &&& interface@ == interface_names(text)
    &&& interface.config.wf()
    &&& interface.config@ == Map::<Seq<char>, String>::empty()
    &&& interface.name is None
}

/// Whether `names` covers `wanted`: the same package, each of the wanted interfaces, and the
/// wanted version, where one is wanted.
pub open spec fn covers(names: InterfaceNames, wanted: InterfaceNames) -> bool {
    &&& names.namespace == wanted.namespace
    &&& names.package == wanted.package
    &&& wanted.version is Some ==> names.version == wanted.version
    &&& forall|i: int|
        0 <= i < wanted.interfaces.len() ==> names.interfaces.contains(
            #[trigger] wanted.interfaces[i],
        )
}

/// Whether `list` holds `text`.
pub fn listed(list: &Vec<String>, text: &str) -> (found: bool)
    ensures
        found == texts(list@).contains(text@),
{
    let n: usize = list.len();
    for i in 0..n
        invariant
            n == list@.len(),
            forall|j: int| 0 <= j < i ==> #[trigger] texts(list@)[j] != text@,
    {
        assert(texts(list@)[i as int] == list@[i as int]@);
        if same_text(list[i].as_str(), text) {
            return true;
        }
    }
    false
}

impl WitInterface {
    /// The interfaces that a text of the form `namespace:package/interface,...@version` names.
    pub fn parse(text: &str) -> (interface: WitInterface)
        ensures
            written_as(interface, text@),
    {
        let all = characters(text);
        let (main, version) = match split_once(&all, '@') {
            Some((main, version)) => (main, Some(string_of(&version))),
            None => (all, None),
        };
        let mut interfaces: Vec<String> = Vec::new();
        let path = match split_once(&main, '/') {
            Some((path, list)) => {
                let pieces = split(&list, ',');
                let n: usize = pieces.len();
                for i in 0..n
                    invariant
                        n == pieces@.len(),
                        pieces@.map_values(|p: Vec<char>| p@) == split_on(list@, ','),
                        texts(interfaces@) == split_on(list@, ',').take(i as int),
                {
                    let ghost before = texts(interfaces@);
                    let piece = string_of(&pieces[i]);
                    interfaces.push(piece);
                    proof {
                        assert(texts(interfaces@) =~= before.push(piece@));
                        assert(split_on(list@, ',')[i as int] == pieces@[i as int]@);
                        assert(texts(interfaces@) =~= split_on(list@, ',').take(i + 1));
                    }
                }
                assert(split_on(list@, ',').take(n as int) =~= split_on(list@, ','));
                path
            },
            None => {
                assert(texts(interfaces@) =~= Seq::<Seq<char>>::empty());
                main
            },
        };
        let (namespace, package) = match split_once(&path, ':') {
            Some((namespace, package)) => (string_of(&namespace), string_of(&package)),
            None => (string_of(&path), String::new()),
        };
        let interface = WitInterface {
            namespace,
            package,
            interfaces,
            version,
            config: Table::new(),
            name: None,
        };
        assert(interface@ =~= interface_names(text@));
        interface
    }

    /// Whether these interfaces cover the wanted ones.
    pub fn contains(&self, wanted: &WitInterface) -> (yes: bool)
        ensures
            yes == covers(self@, wanted@),
    {
        if !same_text(self.namespace.as_str(), wanted.namespace.as_str()) {
            return false;
        }
        if !same_text(self.package.as_str(), wanted.package.as_str()) {
            return false;
        }
        match (&self.version, &wanted.version) {
            (Some(own), Some(other)) => {
                if !same_text(own.as_str(), other.as_str()) {
                    return false;
                }
            },
            (None, Some(_)) => {
                return false;
            },
            (_, None) => {},
        }
        let n: usize = wanted.interfaces.len();
        for i in 0..n
            invariant
                n == wanted.interfaces@.len(),
                forall|j: int|
                    0 <= j < i ==> self@.interfaces.contains(#[trigger] wanted@.interfaces[j]),
        {
            assert(wanted@.interfaces[i as int] == wanted.interfaces@[i as int]@);
            if !listed(&self.interfaces, wanted.interfaces[i].as_str()) {
                return false;
            }
        }
        true
    }
}

/// What a guest imports and exports.
pub struct WitWorld {
    pub imports: Vec<WitInterface>,
    pub exports: Vec<WitInterface>,
}

/// Whether some interface of `list` covers `wanted`.
pub open spec fn some_covers(list: Seq<WitInterface>, wanted: InterfaceNames) -> bool {
    exists|i: int| 0 <= i < list.len() && covers(#[trigger] list[i]@, wanted)
}

/// Whether `interface` is of the package.
pub open spec fn of_package(
    interface: InterfaceNames,
    namespace: Seq<char>,
    package: Seq<char>,
) -> bool {
    interface.namespace == namespace && interface.package == package
}

/// The first interface of the package among those that a workload asks a plugin for.
pub fn find_package<'a>(list: &'a [WitInterface], namespace: &str, package: &str) -> (found: Option<
    &'a WitInterface,
>)
    ensures
        match found {
            Some(interface) => exists|i: int|
                {
                    &&& 0 <= i < list@.len()
                    &&& #[trigger] list@[i] == *interface
                    &&& of_package(interface@, namespace@, package@)
                    &&& forall|j: int|
                        0 <= j < i ==> !of_package(
                            (#[trigger] list@[j])@,
                            namespace@,
                            package@,
                        )
                },
            None => forall|i: int|
                0 <= i < list@.len() ==> !of_package((#[trigger] list@[i])@, namespace@, package@),
        },
{
    let n: usize = list.len();
    for i in 0..n
        invariant
            n == list@.len(),
            forall|j: int|
                0 <= j < i ==> !of_package((#[trigger] list@[j])@, namespace@, package@),
    {
        if same_text(list[i].namespace.as_str(), namespace) && same_text(
            list[i].package.as_str(),
            package,
        ) {
            assert(list@[i as int] == list[i as int]);
            return Some(&list[i]);
        }
    }
    None
}

/// A text without a character, then that character, is cut there.
proof fn lemma_cut_at(head: Seq<char>, c: char, tail: Seq<char>)
    requires
        !head.contains(c),
    ensures
        cut_once(head + seq![c] + tail, c) == Some((head, tail)),
{
    let text = head + seq![c] + tail;
    assert forall|i: int| 0 <= i < head.len() implies text[i] != c by {
        assert(head.contains(head[i]));
    }
    lemma_first_position_is(text, c, head.len() as int);
    assert(text.take(head.len() as int) =~= head);
    assert(text.skip(head.len() as int + 1) =~= tail);
}

/// A text without a character is not cut at it.
proof fn lemma_no_cut(text: Seq<char>, c: char)
    requires
        !text.contains(c),
    ensures
        cut_once(text, c) is None,
{
    assert forall|i: int| 0 <= i < text.len() implies text[i] != c by {
        assert(text.contains(text[i]));
    }
    lemma_first_position_is(text, c, text.len() as int);
}

/// What neither of two texts nor the character between them is, they do not hold together.
proof fn lemma_absent(head: Seq<char>, between: char, tail: Seq<char>, c: char)
    requires
        !head.contains(c),
        !tail.contains(c),
        between != c,
    ensures
        !(head + seq![between] + tail).contains(c),
{
    let text = head + seq![between] + tail;
    if text.contains(c) {
        let i = choose|i: int| 0 <= i < text.len() && text[i] == c;
        if i < head.len() {
            assert(head[i] == c);
        } else if i > head.len() {
            assert(tail[i - head.len() - 1] == c);
        }
    }
}

/// The text `namespace:package/interface,...@version` names the namespace, the package, each of the
/// interfaces in order, and the version; without its end it names no version, and without its list
/// no interfaces.
pub proof fn law_written_interfaces_are_read_back(
    namespace: Seq<char>,
    package: Seq<char>,
    interfaces: Seq<Seq<char>>,
    version: Seq<char>,
)
    requires
        !namespace.contains(':') && !namespace.contains('/') && !namespace.contains('@'),
        !package.contains('/') && !package.contains('@'),
        interfaces.len() >= 1,
        forall|i: int|
            0 <= i < interfaces.len() ==> !(#[trigger] interfaces[i]).contains(',')
                && !interfaces[i].contains('@'),
    ensures
        ({
            let path = namespace + seq![':'] + package;
            let main = path + seq!['/'] + join_with(interfaces, ',');
            &&& interface_names(main + seq!['@'] + version) == (InterfaceNames {
                namespace,
                package,
                interfaces,
                version: Some(version),
            })
            &&& interface_names(main) == (InterfaceNames {
                namespace,
                package,
                interfaces,
                version: None,
            })
            &&& interface_names(path + seq!['@'] + version) == (InterfaceNames {
                namespace,
                package,
                interfaces: Seq::empty(),
                version: Some(version),
            })
            &&& interface_names(path) == (InterfaceNames {
                namespace,
                package,
                interfaces: Seq::empty(),
                version: None,
            })
        }),
{
    let path = namespace + seq![':'] + package;
    let list = join_with(interfaces, ',');
    let main = path + seq!['/'] + list;
    lemma_cut_at(namespace, ':', package);
    lemma_absent(namespace, ':', package, '/');
    lemma_absent(namespace, ':', package, '@');
    if list.contains('@') {
        let i = lemma_joined_holds_the_pieces(interfaces, ',', '@');
        assert(!interfaces[i].contains('@'));
    }
    lemma_absent(path, '/', list, '@');
    lemma_cut_at(path, '/', list);
    lemma_cut_at(main, '@', version);
    lemma_cut_at(path, '@', version);
    lemma_no_cut(main, '@');
    lemma_no_cut(path, '@');
    lemma_no_cut(path, '/');
    law_join_then_split(interfaces, ',');
}

/// Interfaces cover themselves and what their own wanted ones cover. They cover a wanted package
/// only where it is theirs, a wanted version only where it is theirs, any version where none is
/// wanted, and one interface more exactly where it is among theirs.
pub proof fn law_covering_is_having_what_is_wanted(
    names: InterfaceNames,
    wanted: InterfaceNames,
    further: InterfaceNames,
    interface: Seq<char>,
    version: Option<Seq<char>>,
)
    ensures
        covers(names, names),
        covers(names, wanted) && covers(wanted, further) ==> covers(names, further),
        covers(names, wanted) ==> names.namespace == wanted.namespace && names.package
            == wanted.package,
        wanted.version is Some && names.version != wanted.version ==> !covers(names, wanted),
        covers(names, InterfaceNames { version: None, ..wanted }) == covers(
            InterfaceNames { version, ..names },
            InterfaceNames { version: None, ..wanted },
        ),
        covers(names, InterfaceNames { version: names.version, ..wanted }) == covers(
            names,
            InterfaceNames { version: None, ..wanted },
        ),
        covers(
            names,
            InterfaceNames { interfaces: wanted.interfaces.push(interface), ..wanted },
        ) == (covers(names, wanted) && names.interfaces.contains(interface)),
        covers(names, InterfaceNames { interfaces: Seq::empty(), ..names }),
{
    assert forall|i: int| 0 <= i < names.interfaces.len() implies names.interfaces.contains(
        #[trigger] names.interfaces[i],
    ) by {}
    if covers(names, wanted) && covers(wanted, further) {
        assert forall|i: int| 0 <= i < further.interfaces.len() implies names.interfaces.contains(
            #[trigger] further.interfaces[i],
        ) by {
            assert(wanted.interfaces.contains(further.interfaces[i]));
            let k = choose|k: int|
                0 <= k < wanted.interfaces.len() && wanted.interfaces[k] == further.interfaces[i];
            assert(names.interfaces.contains(wanted.interfaces[k]));
        }
    }
    let own = InterfaceNames { version: names.version, ..wanted };
    let any = InterfaceNames { version: None, ..wanted };
    assert(covers(names, own) == covers(names, any)) by {
        assert(own.interfaces == any.interfaces);
        if covers(names, own) {
            assert forall|i: int| 0 <= i < any.interfaces.len() implies names.interfaces.contains(
                #[trigger] any.interfaces[i],
            ) by {
                assert(names.interfaces.contains(own.interfaces[i]));
            }
        }
        if covers(names, any) {
            assert forall|i: int| 0 <= i < own.interfaces.len() implies names.interfaces.contains(
                #[trigger] own.interfaces[i],
            ) by {
                assert(names.interfaces.contains(any.interfaces[i]));
            }
        }
    }
    let more = wanted.interfaces.push(interface);
    let longer = InterfaceNames { interfaces: more, ..wanted };
    if covers(names, longer) {
        assert(names.interfaces.contains(longer.interfaces[wanted.interfaces.len() as int]));
        assert forall|i: int| 0 <= i < wanted.interfaces.len() implies names.interfaces.contains(
            #[trigger] wanted.interfaces[i],
        ) by {
            assert(longer.interfaces[i] == wanted.interfaces[i]);
        }
    }
    if covers(names, wanted) && names.interfaces.contains(interface) {
        assert forall|i: int| 0 <= i < longer.interfaces.len() implies names.interfaces.contains(
            #[trigger] longer.interfaces[i],
        ) by {
            if i < wanted.interfaces.len() {
                assert(more[i] == wanted.interfaces[i]);
            }
        }
    }
}

/// An interface is of the package exactly where both names are the same.
pub proof fn law_packages_go_by_both_names(
    interface: InterfaceNames,
    namespace: Seq<char>,
    package: Seq<char>,
)
    ensures
        of_package(interface, namespace, package) <==> interface.namespace == namespace
            && interface.package == package,
{
}

/// An interface that a text stands for has no settings and no name of its own, and what names it is
/// what the text names.
pub proof fn law_written_interfaces_are_bare(interface: WitInterface, text: Seq<char>, key: Seq<char>)
    requires
        written_as(interface, text),
    ensures
        interface.namespace@ == interface_names(text).namespace,
        interface.package@ == interface_names(text).package,
        texts(interface.interfaces@) == interface_names(text).interfaces,
        optional_text(interface.version) == interface_names(text).version,
        interface.config.wf(),
        !interface.config@.contains_key(key),
        interface.name is None,
{
    assert(interface@ == interface_names(text));
}

/// A list covers what is wanted exactly where one of its members does.
pub proof fn law_lists_cover_what_a_member_covers(
    list: Seq<WitInterface>,
    interface: WitInterface,
    wanted: InterfaceNames,
)
    ensures
        !some_covers(Seq::empty(), wanted),
        some_covers(list.push(interface), wanted) == (some_covers(list, wanted) || covers(
            interface@,
            wanted,
        )),
{
    let longer = list.push(interface);
    if some_covers(list, wanted) {
        let i = choose|i: int| 0 <= i < list.len() && covers(#[trigger] list[i]@, wanted);
        assert(longer[i] == list[i]);
    }
    if covers(interface@, wanted) {
        assert(longer[list.len() as int] == interface);
    }
    if some_covers(longer, wanted) {
        let i = choose|i: int| 0 <= i < longer.len() && covers(#[trigger] longer[i]@, wanted);
        if i < list.len() {
            assert(longer[i] == list[i]);
        }
    }
}

} // verus!
