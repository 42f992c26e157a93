use wash_messaging::guest_trace::GuestTraces;
use wash_messaging::table::Table;
use wash_messaging::text::{
    characters, push_decimal, push_hex, same_text, split, split_once, string_of, trim,
};
use wash_messaging::wit::{find_package, WitInterface};

#[test]
fn concurrent_guest_imports_keep_their_ingress_and_release_registrations() {
    let mut traces: GuestTraces<u32, &str> = GuestTraces::new();
    traces.register(1, "first-ingress");
    traces.register(2, "second-ingress");
    // The nearest caller on the stack that is registered decides.
    assert_eq!(traces.nearest(&vec![11, 1]), Some(&"first-ingress"));
    assert_eq!(traces.nearest(&vec![12, 2, 1]), Some(&"second-ingress"));
    assert_eq!(traces.nearest(&vec![13]), None);
    assert_eq!(traces.current(&vec![11, 1], &"host"), &"first-ingress");
    assert_eq!(traces.current(&vec![13], &"host"), &"host");
    assert_eq!(traces.release(&1), Some("first-ingress"));
    assert_eq!(traces.nearest(&vec![11, 1]), None);
    assert_eq!(traces.nearest(&vec![12, 2]), Some(&"second-ingress"));
    assert_eq!(traces.release(&2), Some("second-ingress"));
    assert!(traces.is_empty());
}

#[test]
fn texts_fall_apart_and_come_together() {
    let letters = characters("a,b,,c");
    let pieces: Vec<String> = split(&letters, ',').iter().map(string_of).collect();
    assert_eq!(pieces, vec!["a", "b", "", "c"]);
    assert_eq!(pieces.join(","), "a,b,,c");
    let (key, value) = split_once(&characters("k=v=w"), '=').unwrap();
    assert_eq!((string_of(&key).as_str(), string_of(&value).as_str()), ("k", "v=w"));
    assert!(split_once(&characters("kv"), '=').is_none());
    assert_eq!(string_of(&trim(&characters("\u{a0} a b\t\n"))), "a b");
    assert!(same_text("é", "é"));
    assert!(!same_text("é", "e"));
}

#[test]
fn numbers_are_written_out() {
    let mut text = String::new();
    push_decimal(&mut text, 0);
    push_decimal(&mut text, u64::MAX);
    assert_eq!(text, "018446744073709551615");
    let mut text = String::new();
    push_hex(&mut text, 0xbeef, 6);
    assert_eq!(text, "00beef");
}

#[test]
fn tables_hold_one_value_for_each_key() {
    let mut table: Table<u8> = Table::new();
    table.insert("a".to_string(), 1);
    table.insert("b".to_string(), 2);
    table.insert("a".to_string(), 3);
    assert_eq!(table.len(), 2);
    assert_eq!(table.get("a"), Some(&3));
    *table.get_mut("b").unwrap() = 9;
    assert_eq!(table.remove("b"), Some(9));
    assert!(!table.contains_key("b"));
    assert_eq!(table.keys(), vec!["a".to_string()]);
    assert_eq!(table.into_entries(), vec![("a".to_string(), 3)]);
}

#[test]
fn interfaces_are_named_in_parts() {
    let interface = WitInterface::parse("wasi:http/handler,types@0.3.0");
    assert_eq!(interface.namespace, "wasi");
    assert_eq!(interface.package, "http");
    assert_eq!(interface.interfaces, vec!["handler".to_string(), "types".to_string()]);
    assert_eq!(interface.version.as_deref(), Some("0.3.0"));
    assert!(interface.contains(&WitInterface::parse("wasi:http/handler")));
    assert!(!interface.contains(&WitInterface::parse("wasi:http/handler@0.2.0")));
    assert!(!interface.contains(&WitInterface::parse("wasi:http/other")));
    let list = vec![interface];
    assert!(find_package(&list, "wasi", "http").is_some());
    assert!(find_package(&list, "wasi", "logging").is_none());
}
