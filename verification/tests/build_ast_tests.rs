use ast_builder::{build_ast, AstNode, BuildError, InnerNode};

fn node(n: InnerNode) -> AstNode {
    Box::new(n)
}

fn s(t: &str) -> String {
    t.to_string()
}

#[test]
fn number_document() {
    let ast = build_ast("{\"Number\": 42.0}").unwrap();
    assert_eq!(*ast, InnerNode::Number(s("42.0")));
}

#[test]
fn number_keeps_numeral_text() {
    let ast = build_ast("{\"Number\": -0.5e3}").unwrap();
    assert_eq!(*ast, InnerNode::Number(s("-0.5e3")));
    let as_float: f64 = match *ast {
        InnerNode::Number(ref t) => t.parse().unwrap(),
        _ => unreachable!(),
    };
    assert_eq!(as_float, -500.0);
}

#[test]
fn var_without_initializer() {
    let ast = build_ast("{\"Var\": {\"name\": \"x\"}}").unwrap();
    assert_eq!(*ast, InnerNode::Var { name: s("x"), initializer: None });
}

#[test]
fn var_with_null_initializer_is_absent() {
    let ast = build_ast("{\"Var\": {\"name\": \"x\", \"initializer\": null}}").unwrap();
    assert_eq!(*ast, InnerNode::Var { name: s("x"), initializer: None });
}

#[test]
fn var_with_initializer() {
    let ast = build_ast("{\"Var\": {\"name\": \"x\", \"initializer\": {\"Number\": 1}}}").unwrap();
    assert_eq!(
        *ast,
        InnerNode::Var { name: s("x"), initializer: Some(node(InnerNode::Number(s("1")))) }
    );
}

#[test]
fn binary_plus() {
    let doc = "{\"Binary\": {\"left\": {\"Number\": 1.0}, \"operator\": \"+\", \"right\": {\"Number\": 2.0}}}";
    let ast = build_ast(doc).unwrap();
    assert_eq!(
        *ast,
        InnerNode::Binary {
            left: node(InnerNode::Number(s("1.0"))),
            operator: s("+"),
            right: node(InnerNode::Number(s("2.0"))),
        }
    );
}

#[test]
fn unknown_tag_is_refused() {
    let r = build_ast("{\"Frobnicate\": null}");
    assert_eq!(r, Err(BuildError::UnknownTag(s("Frobnicate"))));
}

#[test]
fn unknown_tag_nested_is_refused() {
    let doc = "{\"Program\": [{\"Var\": {\"name\": \"a\"}}, {\"Frobnicate\": 1}]}";
    let r = build_ast(doc);
    assert_eq!(r, Err(BuildError::UnknownTag(s("Frobnicate"))));
}

#[test]
fn if_without_else() {
    let doc = "{\"If\": {\"condition\": {\"Literal\": \"true\"}, \"then_branch\": {\"Block\": []}}}";
    let ast = build_ast(doc).unwrap();
    assert_eq!(
        *ast,
        InnerNode::If {
            condition: node(InnerNode::Literal(s("true"))),
            then_branch: node(InnerNode::Block(vec![])),
            else_branch: None,
        }
    );
}

#[test]
fn empty_document_is_malformed() {
    assert_eq!(build_ast(""), Err(BuildError::Malformed));
    assert_eq!(build_ast("   \n\t "), Err(BuildError::Malformed));
}

#[test]
fn program_keeps_statement_order() {
    let doc = "{\"Program\": [{\"Variable\": {\"name\": \"a\"}}, {\"Variable\": {\"name\": \"b\"}}, {\"Variable\": {\"name\": \"c\"}}]}";
    let ast = build_ast(doc).unwrap();
    assert_eq!(
        *ast,
        InnerNode::Program(vec![
            node(InnerNode::Variable { name: s("a") }),
            node(InnerNode::Variable { name: s("b") }),
            node(InnerNode::Variable { name: s("c") }),
        ])
    );
}

#[test]
fn parse_twice_gives_equal_trees() {
    let doc = "{\"Block\": [{\"Return\": {}}, {\"Exprstmt\": {\"Number\": 7}}]}";
    let first = build_ast(doc).unwrap();
    let second = build_ast(doc).unwrap();
    assert_eq!(first, second);
}

#[test]
fn const_requires_initializer() {
    let r = build_ast("{\"Const\": {\"name\": \"c\"}}");
    assert_eq!(r, Err(BuildError::MissingAttribute(s("initializer"))));
}

#[test]
fn number_with_string_body_is_wrong_type() {
    let r = build_ast("{\"Number\": \"42\"}");
    assert_eq!(r, Err(BuildError::WrongType(s("Number"))));
}

#[test]
fn duplicate_attribute_is_refused() {
    let r = build_ast("{\"Var\": {\"name\": \"x\", \"name\": \"y\"}}");
    assert_eq!(r, Err(BuildError::DuplicateAttribute(s("name"))));
}

#[test]
fn unknown_attribute_is_ignored() {
    let ast = build_ast("{\"Var\": {\"name\": \"x\", \"note\": [1, 2]}}").unwrap();
    assert_eq!(*ast, InnerNode::Var { name: s("x"), initializer: None });
}

#[test]
fn two_entry_object_is_no_node() {
    let r = build_ast("{\"Var\": {\"name\": \"x\"}, \"Const\": {\"name\": \"y\"}}");
    assert_eq!(r, Err(BuildError::WrongType(s("node"))));
}

#[test]
fn string_escapes_are_decoded() {
    let ast = build_ast("{\"String\": \"a\\n\\t\\\"\\\\\\u0041\"}").unwrap();
    assert_eq!(*ast, InnerNode::String(s("a\n\t\"\\A")));
}

#[test]
fn surrogate_pair_is_one_character() {
    let ast = build_ast("{\"String\": \"\\uD83D\\uDE00\"}").unwrap();
    assert_eq!(*ast, InnerNode::String(s("\u{1F600}")));
}

#[test]
fn lone_surrogate_is_malformed() {
    assert_eq!(build_ast("{\"String\": \"\\uD83D\"}"), Err(BuildError::Malformed));
}

#[test]
fn leading_zero_numeral_is_malformed() {
    assert_eq!(build_ast("{\"Number\": 01}"), Err(BuildError::Malformed));
}

#[test]
fn trailing_text_is_malformed() {
    assert_eq!(build_ast("{\"Number\": 1} x"), Err(BuildError::Malformed));
}

#[test]
fn whitespace_between_tokens_is_allowed() {
    let ast = build_ast(" {\n \"Return\" : { \"value\" : { \"Number\" : 3 } }\r\n} ").unwrap();
    assert_eq!(*ast, InnerNode::Return { value: Some(node(InnerNode::Number(s("3")))) });
}

#[test]
fn func_with_parameters() {
    let doc = "{\"Func\": {\"name\": \"add\", \"parameters\": [\"a\", \"b\"], \"body\": {\"Block\": [{\"Return\": {\"value\": {\"Binary\": {\"left\": {\"Variable\": {\"name\": \"a\"}}, \"operator\": \"+\", \"right\": {\"Variable\": {\"name\": \"b\"}}}}}}]}}}";
    let ast = build_ast(doc).unwrap();
    assert_eq!(
        *ast,
        InnerNode::Func {
            name: s("add"),
            parameters: vec![s("a"), s("b")],
            body: node(InnerNode::Block(vec![node(InnerNode::Return {
                value: Some(node(InnerNode::Binary {
                    left: node(InnerNode::Variable { name: s("a") }),
                    operator: s("+"),
                    right: node(InnerNode::Variable { name: s("b") }),
                })),
            })])),
        }
    );
}

#[test]
fn func_parameters_must_be_strings() {
    let doc = "{\"Func\": {\"name\": \"f\", \"parameters\": [\"a\", 1], \"body\": {\"Block\": []}}}";
    assert_eq!(build_ast(doc), Err(BuildError::WrongType(s("parameters"))));
}

#[test]
fn remaining_variants_decode() {
    let w = build_ast(
        "{\"While\": {\"condition\": {\"Literal\": \"true\"}, \"body\": {\"Block\": []}}}",
    )
    .unwrap();
    assert_eq!(
        *w,
        InnerNode::While {
            condition: node(InnerNode::Literal(s("true"))),
            body: node(InnerNode::Block(vec![])),
        }
    );
    let a = build_ast("{\"Assign\": {\"name\": \"x\", \"value\": {\"Number\": 2}}}").unwrap();
    assert_eq!(*a, InnerNode::Assign { name: s("x"), value: node(InnerNode::Number(s("2"))) });
    let l = build_ast(
        "{\"Logical\": {\"left\": {\"Literal\": \"true\"}, \"operator\": \"&&\", \"right\": {\"Literal\": \"false\"}}}",
    )
    .unwrap();
    assert_eq!(
        *l,
        InnerNode::Logical {
            left: node(InnerNode::Literal(s("true"))),
            operator: s("&&"),
            right: node(InnerNode::Literal(s("false"))),
        }
    );
    let c = build_ast(
        "{\"Call\": {\"callee\": {\"Variable\": {\"name\": \"f\"}}, \"arguments\": [{\"Number\": 1}]}}",
    )
    .unwrap();
    assert_eq!(
        *c,
        InnerNode::Call {
            callee: node(InnerNode::Variable { name: s("f") }),
            arguments: vec![node(InnerNode::Number(s("1")))],
        }
    );
    let g = build_ast("{\"Grouping\": {\"Number\": 5}}").unwrap();
    assert_eq!(*g, InnerNode::Grouping(node(InnerNode::Number(s("5")))));
    let u = build_ast("{\"Unary\": {\"operator\": \"-\", \"right\": {\"Number\": 5}}}").unwrap();
    assert_eq!(*u, InnerNode::Unary { operator: s("-"), right: node(InnerNode::Number(s("5"))) });
    let e = build_ast("{\"Exprstmt\": {\"String\": \"hi\"}}").unwrap();
    assert_eq!(*e, InnerNode::Exprstmt(node(InnerNode::String(s("hi")))));
}
