use cumin::parser::util::{commentable_spaces, identifier, spaces};

fn skipped(code: &str) -> String {
    commentable_spaces(code).unwrap().0
}

#[test]
fn test_comment() {
    assert_eq!(commentable_spaces(""), Ok((String::new(), ())));
    assert_eq!(commentable_spaces(" \t\n"), Ok((String::new(), ())));
    assert_eq!(commentable_spaces("//"), Ok((String::new(), ())));
    assert_eq!(commentable_spaces("// "), Ok((String::new(), ())));
    assert_eq!(commentable_spaces("// hoge"), Ok((String::new(), ())));
    assert_eq!(
        commentable_spaces(
            "//
                // hoge
                //"
        ),
        Ok((String::new(), ()))
    );
    assert_eq!(
        commentable_spaces(
            "// hoge
                // fuga"
        ),
        Ok((String::new(), ()))
    );
    assert_eq!(
        commentable_spaces(
            "// hoge

                let x = 1; // fuga"
        ),
        Ok(("let x = 1; // fuga".to_string(), ()))
    );
}

#[test]
fn test_identifier() {
    assert!(identifier("3").is_err());
    assert!(identifier("3x").is_err());
    assert_eq!(identifier("x").unwrap(), (String::new(), "x".to_string()));
    assert_eq!(identifier("x0").unwrap(), (String::new(), "x0".to_string()));
    assert_eq!(identifier("_x").unwrap(), (String::new(), "_x".to_string()));
}

#[test]
fn identifier_stops_at_the_first_other_character() {
    assert_eq!(
        identifier("ab-c").unwrap(),
        ("-c".to_string(), "ab".to_string())
    );
    assert_eq!(
        identifier("#a@b c").unwrap(),
        (" c".to_string(), "#a@b".to_string())
    );
    assert!(identifier("/x").is_err());
    assert!(identifier("").is_err());
}

#[test]
fn identifier_rejects_reserved_words() {
    for word in [
        "let", "fn", "use", "struct", "enum", "type", "as", "true", "false", "None", "Some",
        "not", "and", "or", "xor",
    ] {
        assert!(identifier(word).is_err(), "{}", word);
    }
    assert_eq!(
        identifier("letter").unwrap(),
        (String::new(), "letter".to_string())
    );
    assert_eq!(identifier("let x").unwrap_err().rest, "let x");
}

#[test]
fn spaces_splits_the_leading_white_space() {
    assert_eq!(
        spaces(" \t\n x ").unwrap(),
        ("x ".to_string(), " \t\n ".to_string())
    );
    assert_eq!(spaces("x").unwrap(), ("x".to_string(), String::new()));
}

#[test]
fn comments_end_with_the_line() {
    assert_eq!(skipped("// a\rb"), "b");
    assert_eq!(skipped("/ x"), "/ x");
    assert_eq!(skipped("  //x\n  //y\n  z"), "z");
}
