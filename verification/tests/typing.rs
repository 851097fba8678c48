use cumin::parser::typing::{typing, Typing};

fn assert_typing(code: &str, expected: Typing) {
    assert_eq!(typing(code), Ok((String::new(), expected)));
}

#[test]
fn test_parse() {
    assert_typing("Any", Typing::Any);
    assert_typing("Nat", Typing::Nat);
    assert_typing("Int", Typing::Int);
    assert_typing("Float", Typing::Float);
    assert_typing("Bool", Typing::Bool);
    assert_typing("String", Typing::String);
    assert_typing("Array<_>", Typing::Array(Box::new(Typing::Any)));
    assert_typing("Array<String>", Typing::Array(Box::new(Typing::String)));
    assert_typing(
        "Array<Array<String>>",
        Typing::Array(Box::new(Typing::Array(Box::new(Typing::String)))),
    );
    assert_typing("(Int, Nat)", Typing::Tuple(vec![Typing::Int, Typing::Nat]));
    assert_typing(
        "(Int, (Option<Nat>, S))",
        Typing::Tuple(vec![
            Typing::Int,
            Typing::Tuple(vec![
                Typing::Option(Box::new(Typing::Nat)),
                Typing::UserTyping("S".to_string()),
            ]),
        ]),
    );
    assert_typing("Option<String>", Typing::Option(Box::new(Typing::String)));
    assert_typing(
        "Option<Array<String>>",
        Typing::Option(Box::new(Typing::Array(Box::new(Typing::String)))),
    );
    assert_typing(
        "Option<Option<Array<Int>>>",
        Typing::Option(Box::new(Typing::Option(Box::new(Typing::Array(Box::new(
            Typing::Int,
        )))))),
    );
    assert_typing("Hoge_type", Typing::UserTyping("Hoge_type".to_string()));
}

#[test]
fn test_unify() {
    assert_eq!(Typing::unify(&Typing::Any, &Typing::Any), Some(Typing::Any));
    assert_eq!(Typing::unify(&Typing::Nat, &Typing::Any), Some(Typing::Nat));
    assert_eq!(Typing::unify(&Typing::Nat, &Typing::Int), Some(Typing::Int));
    assert_eq!(
        Typing::unify(&Typing::Float, &Typing::Int),
        Some(Typing::Float)
    );
    assert_eq!(
        Typing::unify(
            &Typing::Tuple(vec![Typing::Any, Typing::Nat]),
            &Typing::Tuple(vec![Typing::Nat, Typing::Int])
        ),
        Some(Typing::Tuple(vec![Typing::Nat, Typing::Int]))
    );
    assert_eq!(
        Typing::unify(&Typing::Option(Box::new(Typing::Any)), &Typing::Int),
        None
    );
    assert_eq!(
        Typing::unify(
            &Typing::Option(Box::new(Typing::Any)),
            &Typing::Option(Box::new(Typing::Int))
        ),
        Some(Typing::Option(Box::new(Typing::Int)))
    );
}

#[test]
fn any_is_the_identity_of_unify() {
    let samples = vec![
        Typing::Any,
        Typing::Nat,
        Typing::Float,
        Typing::String,
        Typing::Array(Box::new(Typing::Int)),
        Typing::Tuple(vec![Typing::Bool, Typing::UserTyping("P".to_string())]),
        Typing::Option(Box::new(Typing::Any)),
    ];
    for t in samples.iter() {
        assert_eq!(Typing::unify(t, &Typing::Any), Some(t.clone()));
        assert_eq!(Typing::unify(&Typing::Any, t), Some(t.clone()));
        assert_eq!(Typing::unify(t, t), Some(t.clone()));
    }
}

#[test]
fn unify_on_numbers_is_commutative_and_associative() {
    let numbers = [Typing::Nat, Typing::Int, Typing::Float];
    for a in numbers.iter() {
        for b in numbers.iter() {
            assert_eq!(Typing::unify(a, b), Typing::unify(b, a));
            for c in numbers.iter() {
                let left = Typing::unify(&Typing::unify(a, b).unwrap(), c);
                let right = Typing::unify(a, &Typing::unify(b, c).unwrap());
                assert_eq!(left, right);
            }
        }
    }
    assert_eq!(
        Typing::unify(&Typing::Int, &Typing::Float),
        Some(Typing::Float)
    );
    assert_eq!(Typing::unify(&Typing::Nat, &Typing::Float), Some(Typing::Float));
}

#[test]
fn unify_fails_on_unrelated_types() {
    assert_eq!(Typing::unify(&Typing::Nat, &Typing::String), None);
    assert_eq!(Typing::unify(&Typing::Bool, &Typing::Int), None);
    assert_eq!(
        Typing::unify(
            &Typing::Tuple(vec![Typing::Nat]),
            &Typing::Tuple(vec![Typing::Nat, Typing::Nat])
        ),
        None
    );
    assert_eq!(
        Typing::unify(
            &Typing::Tuple(vec![Typing::Nat, Typing::Bool]),
            &Typing::Tuple(vec![Typing::Nat, Typing::Nat])
        ),
        None
    );
    assert_eq!(
        Typing::unify(
            &Typing::UserTyping("A".to_string()),
            &Typing::UserTyping("B".to_string())
        ),
        None
    );
    assert_eq!(
        Typing::unify(
            &Typing::Array(Box::new(Typing::Nat)),
            &Typing::Array(Box::new(Typing::Float))
        ),
        Some(Typing::Array(Box::new(Typing::Float)))
    );
}

#[test]
fn equals_agrees_with_structure() {
    let a = Typing::Tuple(vec![Typing::Nat, Typing::Array(Box::new(Typing::Int))]);
    let b = Typing::Tuple(vec![Typing::Nat, Typing::Array(Box::new(Typing::Int))]);
    let c = Typing::Tuple(vec![Typing::Nat, Typing::Array(Box::new(Typing::Nat))]);
    assert!(a.equals(&b));
    assert!(!a.equals(&c));
    assert!(!Typing::UserTyping("A".to_string()).equals(&Typing::UserTyping("B".to_string())));
}

#[test]
fn type_words_are_matched_as_prefixes() {
    assert_eq!(typing("Natural"), Ok(("ural".to_string(), Typing::Nat)));
    assert_eq!(typing("_x"), Ok(("x".to_string(), Typing::Any)));
    assert_eq!(
        typing("Array_of"),
        Ok((String::new(), Typing::UserTyping("Array_of".to_string())))
    );
    assert_eq!(typing("(Int , Nat)").unwrap_err().rest, "(Int , Nat)");
    assert!(typing("3").is_err());
}
