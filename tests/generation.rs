use router_rs_macro::emitter::emit;
use router_rs_macro::ident::{has_no_open_delimiter, is_raw};
use router_rs_macro::parser::{acceptance_of, parse, parse_with};
use router_rs_macro::resolver::{constructor_path, module_name, resolve, resolve_all};
use router_rs_macro::routes::{create_routes, create_routes_with};
use router_rs_macro::token::{GenerateError, MalformedList, RawRouteName, RouteName, Token, TokenKind};

fn ident(s: &str, column: usize) -> Token {
    Token { kind: TokenKind::Ident(s.to_string()), line: 1, column }
}

fn comma(column: usize) -> Token {
    Token { kind: TokenKind::Punct(','), line: 1, column }
}

fn literal(s: &str, line: usize, column: usize) -> Token {
    Token { kind: TokenKind::Literal(s.to_string()), line, column }
}

/// `a, b, ...` laid out on one line, one column per character.
fn list(names: &[&str], trailing_comma: bool) -> Vec<Token> {
    let mut toks = Vec::new();
    let mut column = 0;
    for (i, n) in names.iter().enumerate() {
        if i > 0 {
            toks.push(comma(column));
            column += 2;
        }
        toks.push(ident(n, column));
        column += n.len();
    }
    if trailing_comma {
        toks.push(comma(column));
    }
    toks
}

#[test]
fn empty_input_gives_empty_collection() {
    assert_eq!(create_routes(&Vec::new()).unwrap(), "vec![]");
}

#[test]
fn single_route_uses_convention() {
    let out = create_routes(&list(&["foo"], false)).unwrap();
    assert_eq!(out, "vec![Box::new(self::__foo_mod__::foo_handler::new())]");
}

#[test]
fn two_routes_keep_declaration_order() {
    let out = create_routes(&list(&["b", "a"], false)).unwrap();
    assert_eq!(
        out,
        "vec![Box::new(self::__b_mod__::b_handler::new()), Box::new(self::__a_mod__::a_handler::new())]"
    );
    let out = create_routes(&list(&["a", "b"], false)).unwrap();
    assert_eq!(
        out,
        "vec![Box::new(self::__a_mod__::a_handler::new()), Box::new(self::__b_mod__::b_handler::new())]"
    );
}

#[test]
fn element_count_matches_name_count() {
    let names = ["a_route", "another_route", "third", "x"];
    let out = create_routes(&list(&names, false)).unwrap();
    assert_eq!(out.matches("Box::new(").count(), names.len());
    let mut last = 0;
    for n in names {
        let path = format!("self::__{}_mod__::{}_handler::new()", n, n);
        let at = out.find(&path).unwrap();
        assert!(at >= last);
        last = at;
    }
}

#[test]
fn trailing_comma_parses_identically() {
    let with = create_routes(&list(&["a", "b"], true));
    let without = create_routes(&list(&["a", "b"], false));
    assert_eq!(with, without);
    let names = parse(&list(&["a", "b"], true)).unwrap();
    assert_eq!(names.len(), 2);
    assert_eq!(names[0].name, "a");
    assert_eq!(names[1].name, "b");
}

#[test]
fn lone_comma_is_rejected() {
    let r = create_routes(&vec![comma(4)]);
    assert_eq!(r, Err(GenerateError::Malformed(MalformedList { index: 0, line: 1, column: 4 })));
}

#[test]
fn numeric_literal_is_rejected_with_position() {
    let toks = vec![ident("a", 0), comma(1), literal("42", 3, 7)];
    assert_eq!(create_routes(&toks), Err(GenerateError::Malformed(MalformedList { index: 2, line: 3, column: 7 })));
}

#[test]
fn string_literal_is_rejected_with_position() {
    let toks = vec![literal("\"a\"", 2, 9), comma(12), ident("b", 14)];
    assert_eq!(create_routes(&toks), Err(GenerateError::Malformed(MalformedList { index: 0, line: 2, column: 9 })));
}

#[test]
fn other_punctuation_and_groups_are_rejected() {
    let toks = vec![ident("a", 0), Token { kind: TokenKind::Punct(';'), line: 1, column: 1 }];
    assert_eq!(create_routes(&toks), Err(GenerateError::Malformed(MalformedList { index: 1, line: 1, column: 1 })));
    let toks = vec![Token { kind: TokenKind::Group('('), line: 5, column: 2 }];
    assert_eq!(create_routes(&toks), Err(GenerateError::Malformed(MalformedList { index: 0, line: 5, column: 2 })));
}

#[test]
fn path_is_rejected_at_its_separator() {
    let toks = vec![
        ident("a", 0),
        Token { kind: TokenKind::Punct(':'), line: 1, column: 1 },
        Token { kind: TokenKind::Punct(':'), line: 1, column: 2 },
        ident("b", 3),
    ];
    assert_eq!(create_routes(&toks), Err(GenerateError::Malformed(MalformedList { index: 1, line: 1, column: 1 })));
}

#[test]
fn missing_comma_is_rejected() {
    let toks = vec![ident("a", 0), ident("b", 2)];
    assert_eq!(create_routes(&toks), Err(GenerateError::Malformed(MalformedList { index: 1, line: 1, column: 2 })));
}

#[test]
fn double_comma_is_rejected() {
    let toks = vec![ident("a", 0), comma(1), comma(2), ident("b", 4)];
    assert_eq!(create_routes(&toks), Err(GenerateError::Malformed(MalformedList { index: 2, line: 1, column: 2 })));
}

#[test]
fn keywords_and_underscore_are_rejected() {
    let toks = list(&["a", "fn"], false);
    assert_eq!(create_routes(&toks), Err(GenerateError::Malformed(MalformedList { index: 2, line: 1, column: 3 })));
    let toks = list(&["_"], false);
    assert_eq!(create_routes(&toks), Err(GenerateError::Malformed(MalformedList { index: 0, line: 1, column: 0 })));
    let toks = list(&["self"], false);
    assert!(create_routes(&toks).is_err());
}

#[test]
fn raw_identifier_parses_but_gets_no_module() {
    let toks = list(&["a", "r#foo", "r#bar"], false);
    let names = parse(&toks).unwrap();
    assert_eq!(names[1].name, "r#foo");
    assert_eq!(
        create_routes(&toks),
        Err(GenerateError::RawName(RawRouteName { index: 2, line: 1, column: 3 }))
    );
    let toks = vec![ident("r#foo", 0), comma(5), literal("1", 1, 7)];
    assert_eq!(create_routes(&toks), Err(GenerateError::Malformed(MalformedList { index: 2, line: 1, column: 7 })));
}

#[test]
fn generation_is_deterministic() {
    let toks = list(&["users", "posts", "users"], true);
    let first = create_routes(&toks).unwrap();
    let second = create_routes(&toks).unwrap();
    assert_eq!(first.as_bytes(), second.as_bytes());
}

#[test]
fn duplicate_names_are_not_rejected() {
    let out = create_routes(&list(&["a", "a"], false)).unwrap();
    assert_eq!(
        out,
        "vec![Box::new(self::__a_mod__::a_handler::new()), Box::new(self::__a_mod__::a_handler::new())]"
    );
}

#[test]
fn naming_convention() {
    assert_eq!(module_name("a_route"), "__a_route_mod__");
    assert_eq!(constructor_path("a_route"), "__a_route_mod__::a_route_handler");
    let b = resolve(&RouteName { name: "foo".to_string(), line: 3, column: 4 });
    assert_eq!(b.module_name, "__foo_mod__");
    assert_eq!(b.constructor_path, "__foo_mod__::foo_handler");
    assert_eq!(b.source.name, "foo");
    assert_eq!((b.source.line, b.source.column), (3, 4));
}

#[test]
fn emit_renders_bindings_in_order() {
    let names = vec![
        RouteName { name: "x".to_string(), line: 1, column: 0 },
        RouteName { name: "y".to_string(), line: 1, column: 3 },
    ];
    let bindings = resolve_all(&names);
    assert_eq!(bindings.len(), 2);
    assert_eq!(
        emit(&bindings),
        "vec![Box::new(self::__x_mod__::x_handler::new()), Box::new(self::__y_mod__::y_handler::new())]"
    );
    assert_eq!(emit(&Vec::new()), "vec![]");
}

#[test]
fn parse_with_uses_given_acceptance() {
    let toks = list(&["a", "b"], false);
    assert_eq!(parse_with(&toks, &vec![true, false, false]).unwrap_err().index, 2);
    let names = parse_with(&toks, &vec![true, false, true]).unwrap();
    assert_eq!(names[1].name, "b");
    assert_eq!(names[1].column, 3);
    let out = create_routes_with(&toks, &vec![true, false, true]).unwrap();
    assert_eq!(out, create_routes(&toks).unwrap());
    assert!(create_routes_with(&toks, &vec![false, false, true]).is_err());
}

#[test]
fn acceptance_follows_syn() {
    let toks = vec![ident("a", 0), comma(1), ident("match", 2), literal("1", 1, 8), ident("_", 9)];
    assert_eq!(acceptance_of(&toks), vec![true, false, false, false, false]);
}

#[test]
fn raw_spellings() {
    assert!(is_raw("r#type"));
    assert!(!is_raw("r"));
    assert!(!is_raw("route"));
}

#[test]
fn open_delimiters_are_never_identifiers() {
    assert!(has_no_open_delimiter("route"));
    assert!(!has_no_open_delimiter("a(b"));
    assert!(!has_no_open_delimiter("[x"));
    assert!(!has_no_open_delimiter("x{"));
    let toks = vec![ident("a(", 0)];
    assert_eq!(acceptance_of(&toks), vec![false]);
    assert_eq!(create_routes(&toks), Err(GenerateError::Malformed(MalformedList { index: 0, line: 1, column: 0 })));
}

#[test]
fn error_messages_name_what_was_expected() {
    assert_eq!(MalformedList { index: 0, line: 1, column: 0 }.message(), "expected identifier");
    assert_eq!(MalformedList { index: 3, line: 1, column: 0 }.message(), "expected `,`");
    let e = GenerateError::Malformed(MalformedList { index: 3, line: 1, column: 0 });
    assert_eq!((e.index(), e.message()), (3, "expected `,`".to_string()));
    let e = GenerateError::RawName(RawRouteName { index: 4, line: 2, column: 1 });
    assert_eq!((e.index(), e.message()), (4, "expected a route name without `r#`".to_string()));
}
