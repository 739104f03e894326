use can_pattern::ast::Base;
use can_pattern::collections::{IdentMap, SendMap};
use can_pattern::ident::{Ident, Lowercase};
use can_pattern::num::{finish_parsing_base, finish_parsing_int, MalformedNumber};
use can_pattern::region::Region;
use can_pattern::symbol::Symbol;

fn entry(name: &str, line: u32) -> (Symbol, Region) {
    let region = Region { start_line: line, end_line: line, start_col: 0, end_col: 1 };
    (Symbol::new("p$", name), region)
}

#[test]
fn ident_map_tells_modules_apart() {
    let plain = Ident::Unqualified("x".to_string());
    let ours = Ident::Qualified("Ours".to_string(), "x".to_string());
    let theirs = Ident::Qualified("Theirs".to_string(), "x".to_string());
    let mut map = IdentMap::new();

    assert_eq!(map.insert(plain.clone(), entry("x", 1)), None);
    assert_eq!(map.insert(ours.clone(), entry("x", 2)), None);
    assert_eq!(map.get(&plain), Some(&entry("x", 1)));
    assert_eq!(map.get(&ours), Some(&entry("x", 2)));
    assert_eq!(map.get(&theirs), None);

    assert_eq!(map.insert(plain.clone(), entry("x", 3)), Some(entry("x", 1)));
    assert_eq!(map.get(&plain), Some(&entry("x", 3)));
    assert_eq!(map.remove(&plain), Some(entry("x", 3)));
    assert_eq!(map.remove(&plain), None);
    assert_eq!(map.get(&plain), None);
    assert_eq!(map.get(&ours), Some(&entry("x", 2)));
}

#[test]
fn ident_map_holds_many_names() {
    let ident = |i: u32| Ident::Unqualified(format!("n{}", i));
    let mut map = IdentMap::new();
    for i in 0..2000 {
        assert_eq!(map.insert(ident(i), entry("n", i)), None);
    }
    for i in (0..2000).step_by(2) {
        assert_eq!(map.remove(&ident(i)), Some(entry("n", i)));
    }
    for i in 0..2000 {
        let expected = if i % 2 == 0 { None } else { Some(entry("n", i)) };
        assert_eq!(map.get(&ident(i)).map(|e| (e.0.clone(), e.1)), expected);
    }
}

#[test]
fn identifier_names_leave_out_the_module() {
    assert_eq!(Ident::Unqualified("x".to_string()).name(), "x");
    assert_eq!(Ident::Qualified("M".to_string(), "y".to_string()).name(), "y");
}

#[test]
fn send_map_replaces_values() {
    let mut map: SendMap<Lowercase, u8> = SendMap::new();
    assert!(!map.contains_key(&Lowercase::new("a")));
    map.insert(Lowercase::new("a"), 1);
    map.insert(Lowercase::new("b"), 2);
    map.insert(Lowercase::new("a"), 3);

    assert_eq!(map.get(&Lowercase::new("a")), Some(&3));
    assert_eq!(map.get(&Lowercase::new("b")), Some(&2));
    assert_eq!(map.get(&Lowercase::new("c")), None);
    assert!(map.contains_key(&Lowercase::new("b")));
}

#[test]
fn integers_are_read() {
    assert_eq!(finish_parsing_int("0"), Ok(0));
    assert_eq!(finish_parsing_int("1_2_3"), Ok(123));
    assert_eq!(finish_parsing_int("-_5"), Ok(-5));
    assert_eq!(finish_parsing_int("+7"), Ok(7));
    assert_eq!(finish_parsing_int("9223372036854775807"), Ok(i64::MAX));
    assert_eq!(finish_parsing_int("-9223372036854775808"), Ok(i64::MIN));
    assert_eq!(finish_parsing_int("0000000000000000000000000000001"), Ok(1));
}

#[test]
fn malformed_integers_are_refused() {
    for raw in [
        "",
        "_",
        "-",
        "+",
        "--1",
        "1-",
        "a",
        "1.0",
        " 1",
        "9223372036854775808",
        "-9223372036854775809",
        "99999999999999999999999999999999999999999999",
        "99999999999999999999999999999999999999999x",
    ] {
        assert_eq!(finish_parsing_int(raw), Err(MalformedNumber), "{}", raw);
    }
}

#[test]
fn other_bases_are_read() {
    assert_eq!(finish_parsing_base("dead_BEEF", Base::Hex), Ok(0xdead_beef));
    assert_eq!(finish_parsing_base("777", Base::Octal), Ok(0o777));
    assert_eq!(finish_parsing_base("1010", Base::Binary), Ok(10));
    assert_eq!(finish_parsing_base("7fffffffffffffff", Base::Hex), Ok(i64::MAX));
    assert_eq!(finish_parsing_base("8000000000000000", Base::Hex), Err(MalformedNumber));
    assert_eq!(finish_parsing_base("8", Base::Octal), Err(MalformedNumber));
    assert_eq!(finish_parsing_base("2", Base::Binary), Err(MalformedNumber));
    assert_eq!(finish_parsing_base("g", Base::Hex), Err(MalformedNumber));
}
