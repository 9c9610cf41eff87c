use deserter::expand::{expand, ExpandError, ExpandedExpr};
use deserter::emit::render;
use deserter::literal::{parse_body, parse_literal, LiteralNode, ParseIssue};
use deserter::registry::{declared_fields, find_field_type, Registry};
use deserter::tokens::{print_toks, Delim, Tok};
use deserter::{expand_tokens, LoadError};

fn id(s: &str) -> Tok {
    Tok::Ident(s.to_string())
}

fn lit(s: &str) -> Tok {
    Tok::Lit(s.to_string())
}

fn p(c: char) -> Tok {
    Tok::Punct(c, false)
}

fn brace(ts: Vec<Tok>) -> Tok {
    Tok::Group(Delim::Brace, ts)
}

fn schema(fields: &[(&str, &str)]) -> Vec<(String, String)> {
    fields.iter().map(|(a, b)| (a.to_string(), b.to_string())).collect()
}

fn people() -> Registry {
    let mut reg = Registry::new();
    reg.register("ZipCode".to_string(), schema(&[("digits", "u32")]));
    reg.register(
        "Address".to_string(),
        schema(&[("house", "u32"), ("street", "str"), ("city", "str"), ("zip_code", "ZipCode")]),
    );
    reg.register("Person".to_string(), schema(&[("name", "str"), ("age", "u32"), ("address", "Address")]));
    reg
}

fn john() -> Vec<Tok> {
    vec![
        id("Person"),
        brace(vec![
            id("name"), p('='), lit("\"john\""), p(','),
            id("age"), p('='), lit("30"), p(','),
            id("address"), p('='),
            brace(vec![
                id("house"), p('='), lit("101"), p(','),
                id("street"), p('='), lit("\"Main Street\""), p(','),
                id("city"), p('='), lit("\"New York\""), p(','),
                id("zip_code"), p('='), brace(vec![id("digits"), p('='), lit("100200")]),
            ]),
        ]),
    ]
}

#[test]
fn end_to_end_person() {
    let out = expand_tokens(&people(), john()).unwrap();
    assert_eq!(
        out,
        "Person { name: \"john\", age: 30, address: Address { house: 101, street: \"Main Street\", \
         city: \"New York\", zip_code: ZipCode { digits: 100200 } } }"
    );
}

#[test]
fn lookup_after_register_and_reregister() {
    let mut reg = Registry::new();
    assert!(reg.lookup(&"A".to_string()).is_none());
    reg.register("A".to_string(), schema(&[("x", "u8")]));
    assert_eq!(reg.lookup(&"A".to_string()).unwrap(), &schema(&[("x", "u8")]));
    reg.register("B".to_string(), schema(&[("y", "A")]));
    reg.register("A".to_string(), schema(&[("z", "B")]));
    assert_eq!(reg.lookup(&"A".to_string()).unwrap(), &schema(&[("z", "B")]));
    assert_eq!(reg.lookup(&"B".to_string()).unwrap(), &schema(&[("y", "A")]));
}

#[test]
fn field_type_takes_declared_type() {
    let s = schema(&[("a", "X"), ("b", "Y")]);
    assert_eq!(find_field_type(&s, &"b".to_string()), Some("Y".to_string()));
    assert_eq!(find_field_type(&s, &"c".to_string()), None);
}

#[test]
fn structure_mirrors_literal() {
    let (name, l) = parse_literal(john()).unwrap();
    let e = expand(&people(), l, name).unwrap();
    match e {
        ExpandedExpr::Constructor(t, fs) => {
            assert_eq!(t, "Person");
            let names: Vec<&str> = fs.iter().map(|f| f.0.as_str()).collect();
            assert_eq!(names, vec!["name", "age", "address"]);
            match &fs[2].1 {
                ExpandedExpr::Constructor(t2, inner) => {
                    assert_eq!(t2, "Address");
                    assert_eq!(inner.len(), 4);
                    assert!(matches!(&inner[3].1, ExpandedExpr::Constructor(t3, _) if t3 == "ZipCode"));
                    assert!(matches!(&inner[0].1, ExpandedExpr::Leaf(_)));
                }
                _ => panic!("address should be a constructor"),
            }
        }
        _ => panic!("root should be a constructor"),
    }
}

#[test]
fn leaf_tokens_pass_through() {
    let mut reg = Registry::new();
    reg.register("P".to_string(), schema(&[("v", "i64")]));
    let leaf = vec![id("a"), Tok::Punct(':', true), p(':'), id("b"), Tok::Group(Delim::Paren, vec![lit("1"), p(','), lit("2")])];
    assert_eq!(print_toks(&leaf), "a :: b (1 , 2)");
    let mut ts = vec![id("P")];
    let mut body = vec![id("v"), p('=')];
    body.extend(leaf);
    ts.push(brace(body));
    assert_eq!(expand_tokens(&reg, ts).unwrap(), "P { v: a :: b (1 , 2) }");
}

#[test]
fn missing_root_schema() {
    let ts = vec![id("Nope"), brace(vec![id("a"), p('='), lit("1")])];
    match expand_tokens(&people(), ts) {
        Err(LoadError::Expand(ExpandError::SchemaNotFound(t))) => assert_eq!(t, "Nope"),
        other => panic!("unexpected {:?}", other),
    }
}

#[test]
fn missing_nested_schema() {
    let mut reg = Registry::new();
    reg.register("Outer".to_string(), schema(&[("inner", "Inner")]));
    let ts = vec![id("Outer"), brace(vec![id("inner"), p('='), brace(vec![])])];
    match expand_tokens(&reg, ts) {
        Err(LoadError::Expand(ExpandError::SchemaNotFound(t))) => assert_eq!(t, "Inner"),
        other => panic!("unexpected {:?}", other),
    }
}

#[test]
fn unknown_field_for_nested_block() {
    let ts = vec![id("Person"), brace(vec![id("home"), p('='), brace(vec![])])];
    match expand_tokens(&people(), ts) {
        Err(LoadError::Expand(ExpandError::UnknownField(t, f))) => {
            assert_eq!(t, "Person");
            assert_eq!(f, "home");
        }
        other => panic!("unexpected {:?}", other),
    }
}

#[test]
fn leaf_for_unlisted_field_passes() {
    let ts = vec![id("Person"), brace(vec![id("home"), p('='), lit("1")])];
    assert_eq!(expand_tokens(&people(), ts).unwrap(), "Person { home: 1 }");
}

#[test]
fn later_assignment_wins() {
    let body = vec![id("a"), p('='), lit("1"), p(','), id("b"), p('='), lit("2"), p(','), id("a"), p('='), lit("3")];
    let l = parse_body(body).unwrap();
    assert_eq!(l.fields.len(), 2);
    assert_eq!(l.fields[0].0, "a");
    match &l.fields[0].1 {
        LiteralNode::Leaf(ts) => assert_eq!(print_toks(ts), "3"),
        _ => panic!("leaf expected"),
    }
    let mut reg = Registry::new();
    reg.register("T".to_string(), schema(&[("a", "u8"), ("b", "u8")]));
    let ts = vec![
        id("T"),
        brace(vec![id("a"), p('='), lit("1"), p(','), id("b"), p('='), lit("2"), p(','), id("a"), p('='), lit("3")]),
    ];
    assert_eq!(expand_tokens(&reg, ts).unwrap(), "T { a: 3, b: 2 }");
}

#[test]
fn omitted_field_is_absent() {
    let ts = vec![
        id("Address"),
        brace(vec![id("house"), p('='), lit("7"), p(','), id("street"), p('='), lit("\"Elm\"")]),
    ];
    let out = expand_tokens(&people(), ts).unwrap();
    assert_eq!(out, "Address { house: 7, street: \"Elm\" }");
    assert!(!out.contains("city"));
}

#[test]
fn empty_block_and_trailing_comma() {
    let mut reg = Registry::new();
    reg.register("U".to_string(), Vec::new());
    reg.register("V".to_string(), schema(&[("x", "u8")]));
    assert_eq!(expand_tokens(&reg, vec![id("U"), brace(vec![])]).unwrap(), "U {}");
    let ts = vec![id("V"), brace(vec![id("x"), p('='), lit("1"), p(',')])];
    assert_eq!(expand_tokens(&reg, ts).unwrap(), "V { x: 1 }");
}

fn parse_issue(ts: Vec<Tok>) -> ParseIssue {
    match parse_literal(ts) {
        Err(e) => e,
        Ok(_) => panic!("parse should fail"),
    }
}

#[test]
fn parse_errors() {
    assert_eq!(parse_issue(vec![]), ParseIssue::ExpectedTypeName);
    assert_eq!(parse_issue(vec![lit("1"), brace(vec![])]), ParseIssue::ExpectedTypeName);
    assert_eq!(parse_issue(vec![id("T")]), ParseIssue::ExpectedBody);
    assert_eq!(parse_issue(vec![id("T"), Tok::Group(Delim::Paren, vec![])]), ParseIssue::ExpectedBody);
    assert_eq!(parse_issue(vec![id("T"), brace(vec![]), p(',')]), ParseIssue::ExpectedBody);
    assert_eq!(parse_issue(vec![id("T"), brace(vec![lit("1")])]), ParseIssue::ExpectedFieldName);
    assert_eq!(parse_issue(vec![id("T"), brace(vec![id("a"), lit("1")])]), ParseIssue::ExpectedEquals);
    assert_eq!(parse_issue(vec![id("T"), brace(vec![id("a")])]), ParseIssue::ExpectedEquals);
    assert_eq!(parse_issue(vec![id("T"), brace(vec![id("a"), p('=')])]), ParseIssue::ExpectedValue);
    assert_eq!(parse_issue(vec![id("T"), brace(vec![id("a"), p('='), p(',')])]), ParseIssue::ExpectedValue);
    assert_eq!(
        parse_issue(vec![id("T"), brace(vec![id("a"), p('='), brace(vec![]), lit("1")])]),
        ParseIssue::ExpectedComma
    );
    assert_eq!(
        parse_issue(vec![id("T"), brace(vec![id("a"), p('='), lit("1"), p(','), p(',')])]),
        ParseIssue::ExpectedFieldName
    );
    assert_eq!(
        parse_issue(vec![id("T"), brace(vec![id("a"), p('='), lit("1"), id("b"), p('='), lit("2")])]),
        ParseIssue::ExpectedExpression
    );
    assert_eq!(
        parse_issue(vec![id("T"), brace(vec![id("a"), p('='), lit("1"), lit("2"), p(','), id("b"), p('='), lit("3")])]),
        ParseIssue::ExpectedExpression
    );
    assert!(matches!(
        expand_tokens(&Registry::new(), vec![id("T")]),
        Err(LoadError::Parse(ParseIssue::ExpectedBody))
    ));
}

#[test]
fn render_nested_constructor() {
    let e = ExpandedExpr::Constructor(
        "A".to_string(),
        vec![
            ("x".to_string(), ExpandedExpr::Leaf(vec![lit("1")])),
            ("y".to_string(), ExpandedExpr::Constructor("B".to_string(), vec![])),
        ],
    );
    assert_eq!(render(&e), "A { x: 1, y: B {} }");
}

#[test]
fn declared_fields_keep_named_path_fields() {
    let fs = vec![
        (Some("house".to_string()), Some("u32".to_string())),
        (Some("street".to_string()), None),
        (None, Some("u8".to_string())),
        (Some("zip_code".to_string()), Some("ZipCode".to_string())),
    ];
    assert_eq!(declared_fields(fs), schema(&[("house", "u32"), ("zip_code", "ZipCode")]));
}

#[test]
fn missing_comma_is_rejected() {
    let ts = vec![id("Person"), brace(vec![id("a"), p('='), lit("1"), id("b"), p('='), lit("2")])];
    assert!(matches!(
        expand_tokens(&people(), ts),
        Err(LoadError::Parse(ParseIssue::ExpectedExpression))
    ));
}

#[test]
fn leaf_with_top_level_commas() {
    let mut reg = Registry::new();
    reg.register("F".to_string(), schema(&[("v", "Fn"), ("w", "u8"), ("g", "u8")]));
    let closure = vec![p('|'), id("a"), p(','), id("b"), p('|'), id("a"), p('+'), id("b")];
    let call = vec![
        id("f"), Tok::Punct(':', true), Tok::Punct(':', true), p('<'), id("A"), p(','), id("B"), p('>'),
        Tok::Group(Delim::Paren, vec![]),
    ];
    let mut body = vec![id("v"), p('=')];
    body.extend(closure);
    body.extend(vec![p(','), id("w"), p('='), lit("1"), p(','), id("g"), p('=')]);
    body.extend(call);
    let out = expand_tokens(&reg, vec![id("F"), brace(body)]).unwrap();
    assert_eq!(out, "F { v: | a , b | a + b, w: 1, g: f ::< A , B > () }");
}

#[test]
fn invisible_group_prints_in_parentheses() {
    let ts = vec![Tok::Group(Delim::Invisible, vec![lit("1"), p('+'), lit("2")]), p('*'), lit("3")];
    assert_eq!(print_toks(&ts), "(1 + 2) * 3");
}
