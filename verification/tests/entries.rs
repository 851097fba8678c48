use cumin::parser::entries::Entries;
use cumin::parser::typing::Typing;
use cumin::parser::value::Value;

fn entry(name: &str, n: u128) -> (String, Value) {
    (name.to_string(), Value::Nat(n))
}

#[test]
fn entries_keep_their_order() {
    let entries = Entries::new(vec![entry("b", 2), entry("a", 1)]);
    let names: Vec<&str> = entries.iter().map(|item| item.0.as_str()).collect();
    assert_eq!(names, vec!["b", "a"]);
    assert_eq!(Entries::new(vec![]).iter().count(), 0);
}

#[test]
fn entries_are_equal_whatever_the_order_of_their_names() {
    let one = Entries::new(vec![entry("a", 1), entry("b", 2), entry("c", 3)]);
    let other = Entries::new(vec![entry("c", 3), entry("a", 1), entry("b", 2)]);
    assert!(one.equals(&other));
    assert!(other.equals(&one));
    assert!(one.equals(&one));
    assert!(Entries::new(vec![]).equals(&Entries::new(vec![])));
}

#[test]
fn entries_differ_by_value_by_name_and_by_number() {
    let one = Entries::new(vec![entry("a", 1), entry("b", 2)]);
    assert!(!one.equals(&Entries::new(vec![entry("a", 1), entry("b", 3)])));
    assert!(!one.equals(&Entries::new(vec![entry("a", 1), entry("c", 2)])));
    assert!(!one.equals(&Entries::new(vec![entry("a", 1)])));
    assert!(!one.equals(&Entries::new(vec![
        entry("a", 1),
        entry("b", 2),
        entry("b", 2)
    ])));
    assert!(!Entries::new(vec![]).equals(&one));
}

#[test]
fn entries_of_one_name_keep_their_order() {
    let one = Entries::new(vec![entry("a", 1), entry("b", 0), entry("a", 2)]);
    assert!(one.equals(&Entries::new(vec![
        entry("b", 0),
        entry("a", 1),
        entry("a", 2)
    ])));
    assert!(!one.equals(&Entries::new(vec![
        entry("a", 2),
        entry("b", 0),
        entry("a", 1)
    ])));
}

#[test]
fn values_are_equal_by_structure() {
    let a = Value::Array(
        Typing::Int,
        vec![Value::Int(1), Value::Optional(Typing::Nat, Box::new(None))],
    );
    let b = Value::Array(
        Typing::Int,
        vec![Value::Int(1), Value::Optional(Typing::Nat, Box::new(None))],
    );
    let c = Value::Array(
        Typing::Int,
        vec![Value::Int(1), Value::Optional(Typing::Int, Box::new(None))],
    );
    assert!(a.equals(&b));
    assert!(!a.equals(&c));
    assert!(!Value::Nat(1).equals(&Value::Int(1)));
    assert!(Value::Dict(None, vec![entry("a", 1)]).equals(&Value::Dict(None, vec![entry("a", 1)])));
    assert!(!Value::Dict(None, vec![entry("a", 1)])
        .equals(&Value::Dict(Some("P".to_string()), vec![entry("a", 1)])));
}
