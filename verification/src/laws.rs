//! What holds of the builder, stated and proved once and for all: the
//! outcome is a function of the text alone; a tag outside the taxonomy is
//! refused; a row of statements is kept whole and in order; an omitted
//! optional child decodes to an absent one.

use vstd::prelude::*;

use crate::node::{ErrV, NodeV};
use crate::syntax::JsonV;
use crate::decode::{decode, decode_list, decode_names, decode_tagged, find_key, known_tag,
    lemma_attr_absent, lemma_attr_once, lemma_find_key, opt_attr, spec_build, text_attr};

verus! {

broadcast use vstd::string::group_string_axioms;

/// Building from the same text twice gives the same outcome, tree or error:
/// nothing besides the text decides it, so two calls of `build_ast` on one
/// document yield structurally equal trees.
pub proof fn lemma_build_deterministic(
    s: Seq<char>,
    r1: Result<NodeV, ErrV>,
    r2: Result<NodeV, ErrV>,
)
    requires
        r1 == spec_build(s),
        r2 == spec_build(s),
    ensures
        r1 == r2,
{
}

/// A node whose tag lies outside the taxonomy is refused, and the error
/// names the tag — whatever its body holds.
pub proof fn lemma_unknown_tag_fails(tag: Seq<char>, body: JsonV)
    requires
        !known_tag(tag),
    ensures
        decode(JsonV::Obj(seq![(tag, body)])) == Result::<NodeV, ErrV>::Err(
            ErrV::UnknownTag(tag),
        ),
{
    let entries = seq![(tag, body)];
    assert(entries.len() == 1);
    assert(entries[0] == (tag, body));
    assert(decode_tagged(tag, body) == Result::<NodeV, ErrV>::Err(ErrV::UnknownTag(tag)));
}

/// A row of node documents decodes exactly when each of its documents does,
/// and then to a row of the same length whose trees stand in the same order:
/// the statements [A, B, C] of a `Program` or `Block` come out as [A, B, C].
pub proof fn lemma_decode_list_props(items: Seq<JsonV>, k: nat)
    requires
        k <= items.len(),
    ensures
        decode_list(items, k) is Ok <==> (forall|l: int|
            k <= l < items.len() ==> decode(#[trigger] items[l]) is Ok),
        decode_list(items, k) matches Ok(vs) ==> vs.len() == items.len() - k && (forall|l: int|
            k <= l < items.len() ==> decode(#[trigger] items[l]) == Result::<NodeV, ErrV>::Ok(
                vs[l - k],
            )),
    decreases items.len() - k,
{
    if k < items.len() {
        lemma_decode_list_props(items, k + 1);
    }
}

/// A `Program` document listing well-formed statements decodes to exactly
/// those statements, in the order listed.
pub proof fn lemma_program_order(items: Seq<JsonV>)
    requires
        forall|l: int| 0 <= l < items.len() ==> decode(#[trigger] items[l]) is Ok,
    ensures
        decode(JsonV::Obj(seq![("Program"@, JsonV::Arr(items))])) matches Ok(v) && v matches
            NodeV::Program(vs) && vs.len() == items.len() && (forall|l: int|
            0 <= l < items.len() ==> decode(#[trigger] items[l]) == Result::<NodeV, ErrV>::Ok(
                vs[l],
            )),
{
    let entries = seq![("Program"@, JsonV::Arr(items))];
    assert(entries[0] == ("Program"@, JsonV::Arr(items)));
    lemma_decode_list_props(items, 0);
}

/// A `Block` document listing well-formed statements decodes to exactly
/// those statements, in the order listed.
pub proof fn lemma_block_order(items: Seq<JsonV>)
    requires
        forall|l: int| 0 <= l < items.len() ==> decode(#[trigger] items[l]) is Ok,
    ensures
        decode(JsonV::Obj(seq![("Block"@, JsonV::Arr(items))])) matches Ok(v) && v matches
            NodeV::Block(vs) && vs.len() == items.len() && (forall|l: int|
            0 <= l < items.len() ==> decode(#[trigger] items[l]) == Result::<NodeV, ErrV>::Ok(
                vs[l],
            )),
{
    let entries = seq![("Block"@, JsonV::Arr(items))];
    assert(entries[0] == ("Block"@, JsonV::Arr(items)));
    lemma_tags();
    lemma_decode_list_props(items, 0);
}

/// A `Var` document that binds `name` once to a string and does not bind
/// `initializer` at all decodes to a `Var` node with that name and an
/// absent initializer.
pub proof fn lemma_var_absent_initializer(fields: Seq<(Seq<char>, JsonV)>, nm: Seq<char>)
    requires
        text_attr(fields, "name"@) == Result::<Seq<char>, ErrV>::Ok(nm),
        forall|k: int| 0 <= k < fields.len() ==> (#[trigger] fields[k]).0 != "initializer"@,
    ensures
        decode(JsonV::Obj(seq![("Var"@, JsonV::Obj(fields))])) == Result::<NodeV, ErrV>::Ok(
            NodeV::Var { name: nm, initializer: Option::None },
        ),
{
    let entries = seq![("Var"@, JsonV::Obj(fields))];
    assert(entries[0] == ("Var"@, JsonV::Obj(fields)));
    lemma_tags();
    lemma_find_key(fields, "initializer"@);
    assert(find_key(fields, "initializer"@) == fields.len());
    assert(opt_attr(fields, "initializer"@) == Result::<Option<Box<NodeV>>, ErrV>::Ok(
        Option::None,
    ));
    assert(decode_tagged("Var"@, JsonV::Obj(fields)) == Result::<NodeV, ErrV>::Ok(
        NodeV::Var { name: nm, initializer: Option::None },
    ));
}

/// The canonical document of a tree: each node one tagged object, its
/// attributes in declared order, absent children omitted.
pub open spec fn doc_of(v: NodeV) -> JsonV
    decreases v,
{
    match v {
        NodeV::Program(vs) => JsonV::Obj(seq![("Program"@, JsonV::Arr(docs_of(vs)))]),
        NodeV::Func { name, parameters, body } => JsonV::Obj(
            seq![
                ("Func"@, JsonV::Obj(
                    seq![
                        ("name"@, JsonV::Str(name)),
                        ("parameters"@, JsonV::Arr(strs_of(parameters))),
                        ("body"@, doc_of(*body)),
                    ],
                )),
            ],
        ),
        NodeV::Var { name, initializer } => match initializer {
            Option::None => JsonV::Obj(
                seq![("Var"@, JsonV::Obj(seq![("name"@, JsonV::Str(name))]))],
            ),
            Option::Some(b) => JsonV::Obj(
                seq![
                    ("Var"@, JsonV::Obj(
                        seq![("name"@, JsonV::Str(name)), ("initializer"@, doc_of(*b))],
                    )),
                ],
            ),
        },
        NodeV::Const { name, initializer } => JsonV::Obj(
            seq![
                ("Const"@, JsonV::Obj(
                    seq![("name"@, JsonV::Str(name)), ("initializer"@, doc_of(*initializer))],
                )),
            ],
        ),
        NodeV::Block(vs) => JsonV::Obj(seq![("Block"@, JsonV::Arr(docs_of(vs)))]),
        NodeV::If { condition, then_branch, else_branch } => match else_branch {
            Option::None => JsonV::Obj(
                seq![
                    ("If"@, JsonV::Obj(
                        seq![
                            ("condition"@, doc_of(*condition)),
                            ("then_branch"@, doc_of(*then_branch)),
                        ],
                    )),
                ],
            ),
            Option::Some(e) => JsonV::Obj(
                seq![
                    ("If"@, JsonV::Obj(
                        seq![
                            ("condition"@, doc_of(*condition)),
                            ("then_branch"@, doc_of(*then_branch)),
                            ("else_branch"@, doc_of(*e)),
                        ],
                    )),
                ],
            ),
        },
        NodeV::While { condition, body } => JsonV::Obj(
            seq![
                ("While"@, JsonV::Obj(
                    seq![("condition"@, doc_of(*condition)), ("body"@, doc_of(*body))],
                )),
            ],
        ),
        NodeV::Return { value } => match value {
            Option::None => JsonV::Obj(
                seq![("Return"@, JsonV::Obj(Seq::<(Seq<char>, JsonV)>::empty()))],
            ),
            Option::Some(b) => JsonV::Obj(
                seq![("Return"@, JsonV::Obj(seq![("value"@, doc_of(*b))]))],
            ),
        },
        NodeV::Exprstmt(inner) => JsonV::Obj(seq![("Exprstmt"@, doc_of(*inner))]),
        NodeV::Assign { name, value } => JsonV::Obj(
            seq![
                ("Assign"@, JsonV::Obj(
                    seq![("name"@, JsonV::Str(name)), ("value"@, doc_of(*value))],
                )),
            ],
        ),
        NodeV::Binary { left, operator, right } => JsonV::Obj(
            seq![
                ("Binary"@, JsonV::Obj(
                    seq![
                        ("left"@, doc_of(*left)),
                        ("operator"@, JsonV::Str(operator)),
                        ("right"@, doc_of(*right)),
                    ],
                )),
            ],
        ),
        NodeV::Logical { left, operator, right } => JsonV::Obj(
            seq![
                ("Logical"@, JsonV::Obj(
                    seq![
                        ("left"@, doc_of(*left)),
                        ("operator"@, JsonV::Str(operator)),
                        ("right"@, doc_of(*right)),
                    ],
                )),
            ],
        ),
        NodeV::Call { callee, arguments } => JsonV::Obj(
            seq![
                ("Call"@, JsonV::Obj(
                    seq![
                        ("callee"@, doc_of(*callee)),
                        ("arguments"@, JsonV::Arr(docs_of(arguments))),
                    ],
                )),
            ],
        ),
        NodeV::Grouping(inner) => JsonV::Obj(seq![("Grouping"@, doc_of(*inner))]),
        NodeV::Unary { operator, right } => JsonV::Obj(
            seq![
                ("Unary"@, JsonV::Obj(
                    seq![("operator"@, JsonV::Str(operator)), ("right"@, doc_of(*right))],
                )),
            ],
        ),
        NodeV::Variable { name } => JsonV::Obj(
            seq![("Variable"@, JsonV::Obj(seq![("name"@, JsonV::Str(name))]))],
        ),
        NodeV::Number(t) => JsonV::Obj(seq![("Number"@, JsonV::Num(t))]),
        NodeV::String(t) => JsonV::Obj(seq![("String"@, JsonV::Str(t))]),
        NodeV::Literal(t) => JsonV::Obj(seq![("Literal"@, JsonV::Str(t))]),
    }
}

/// The canonical documents of a row of trees.
pub open spec fn docs_of(vs: Seq<NodeV>) -> Seq<JsonV>
    decreases vs,
{
    Seq::new(
        vs.len(),
        |k: int| if 0 <= k < vs.len() {
            doc_of(vs[k])
        } else {
            arbitrary()
        },
    )
}

/// A row of names as a row of string documents.
pub open spec fn strs_of(ps: Seq<Seq<char>>) -> Seq<JsonV> {
    Seq::new(ps.len(), |k: int| JsonV::Str(ps[k]))
}

/// The tags, spelt out: their lengths and enough of their characters to
/// tell any two apart.
proof fn lemma_tags()
    ensures
        "Program"@.len() == 7 && "Program"@[0] == 'P',
        "Func"@.len() == 4 && "Func"@[0] == 'F',
        "Var"@.len() == 3 && "Var"@[0] == 'V',
        "Const"@.len() == 5 && "Const"@[0] == 'C',
        "Block"@.len() == 5 && "Block"@[0] == 'B',
        "If"@.len() == 2 && "If"@[0] == 'I',
        "While"@.len() == 5 && "While"@[0] == 'W',
        "Return"@.len() == 6 && "Return"@[0] == 'R',
        "Exprstmt"@.len() == 8 && "Exprstmt"@[0] == 'E',
        "Assign"@.len() == 6 && "Assign"@[0] == 'A',
        "Binary"@.len() == 6 && "Binary"@[0] == 'B',
        "Logical"@.len() == 7 && "Logical"@[0] == 'L' && "Logical"@[1] == 'o',
        "Call"@.len() == 4 && "Call"@[0] == 'C',
        "Grouping"@.len() == 8 && "Grouping"@[0] == 'G',
        "Unary"@.len() == 5 && "Unary"@[0] == 'U',
        "Variable"@.len() == 8 && "Variable"@[0] == 'V',
        "Number"@.len() == 6 && "Number"@[0] == 'N',
        "String"@.len() == 6 && "String"@[0] == 'S',
        "Literal"@.len() == 7 && "Literal"@[0] == 'L' && "Literal"@[1] == 'i',
{
    reveal_strlit("Program");
    reveal_strlit("Func");
    reveal_strlit("Var");
    reveal_strlit("Const");
    reveal_strlit("Block");
    reveal_strlit("If");
    reveal_strlit("While");
    reveal_strlit("Return");
    reveal_strlit("Exprstmt");
    reveal_strlit("Assign");
    reveal_strlit("Binary");
    reveal_strlit("Logical");
    reveal_strlit("Call");
    reveal_strlit("Grouping");
    reveal_strlit("Unary");
    reveal_strlit("Variable");
    reveal_strlit("Number");
    reveal_strlit("String");
    reveal_strlit("Literal");
}

/// The attribute names, spelt out the same way.
proof fn lemma_attrs()
    ensures
        "name"@.len() == 4 && "name"@[0] == 'n',
        "initializer"@.len() == 11 && "initializer"@[0] == 'i',
        "parameters"@.len() == 10,
        "body"@.len() == 4 && "body"@[0] == 'b',
        "condition"@.len() == 9,
        "then_branch"@.len() == 11 && "then_branch"@[0] == 't',
        "else_branch"@.len() == 11 && "else_branch"@[0] == 'e',
        "value"@.len() == 5,
        "left"@.len() == 4,
        "operator"@.len() == 8,
        "right"@.len() == 5,
        "callee"@.len() == 6,
        "arguments"@.len() == 9,
{
    reveal_strlit("name");
    reveal_strlit("initializer");
    reveal_strlit("parameters");
    reveal_strlit("body");
    reveal_strlit("condition");
    reveal_strlit("then_branch");
    reveal_strlit("else_branch");
    reveal_strlit("value");
    reveal_strlit("left");
    reveal_strlit("operator");
    reveal_strlit("right");
    reveal_strlit("callee");
    reveal_strlit("arguments");
}

/// A row of names, sent through [`strs_of`], decodes back to itself.
proof fn lemma_names_round(ps: Seq<Seq<char>>, k: nat, name: Seq<char>)
    requires
        k <= ps.len(),
    ensures
        decode_names(strs_of(ps), k, name) == Result::<Seq<Seq<char>>, ErrV>::Ok(
            ps.skip(k as int),
        ),
    decreases ps.len() - k,
{
    if k == ps.len() {
        assert(ps.skip(k as int) =~= Seq::<Seq<char>>::empty());
    } else {
        lemma_names_round(ps, k + 1, name);
        assert(seq![ps[k as int]] + ps.skip(k as int + 1) =~= ps.skip(k as int));
    }
}

/// One node document: decoding an object with the one given entry is
/// decoding the tagged body.
proof fn lemma_node_doc(tag: Seq<char>, body: JsonV)
    ensures
        decode(JsonV::Obj(seq![(tag, body)])) == decode_tagged(tag, body),
{
    let entries = seq![(tag, body)];
    assert(entries.len() == 1);
    assert(entries[0] == (tag, body));
}

proof fn rt_program(vs: Seq<NodeV>)
    requires
        decode_list(docs_of(vs), 0) == Result::<Seq<NodeV>, ErrV>::Ok(vs),
    ensures
        decode(doc_of(NodeV::Program(vs))) == Result::<NodeV, ErrV>::Ok(NodeV::Program(vs)),
{
    lemma_node_doc("Program"@, JsonV::Arr(docs_of(vs)));
}

proof fn rt_block(vs: Seq<NodeV>)
    requires
        decode_list(docs_of(vs), 0) == Result::<Seq<NodeV>, ErrV>::Ok(vs),
    ensures
        decode(doc_of(NodeV::Block(vs))) == Result::<NodeV, ErrV>::Ok(NodeV::Block(vs)),
{
    lemma_tags();
    lemma_node_doc("Block"@, JsonV::Arr(docs_of(vs)));
}

proof fn rt_func(name: Seq<char>, parameters: Seq<Seq<char>>, body: Box<NodeV>)
    requires
        decode(doc_of(*body)) == Result::<NodeV, ErrV>::Ok(*body),
    ensures
        decode(doc_of(NodeV::Func { name, parameters, body })) == Result::<NodeV, ErrV>::Ok(
            NodeV::Func { name, parameters, body },
        ),
{
    lemma_tags();
    lemma_attrs();
    lemma_names_round(parameters, 0, "parameters"@);
    assert(parameters.skip(0) =~= parameters);
    let row = seq![
        ("name"@, JsonV::Str(name)),
        ("parameters"@, JsonV::Arr(strs_of(parameters))),
        ("body"@, doc_of(*body)),
    ];
    lemma_attr_once(row, "name"@, 0);
    lemma_attr_once(row, "parameters"@, 1);
    lemma_attr_once(row, "body"@, 2);
    lemma_node_doc("Func"@, JsonV::Obj(row));
}

proof fn rt_var(name: Seq<char>, initializer: Option<Box<NodeV>>)
    requires
        initializer matches Some(b) ==> decode(doc_of(*b)) == Result::<NodeV, ErrV>::Ok(*b),
    ensures
        decode(doc_of(NodeV::Var { name, initializer })) == Result::<NodeV, ErrV>::Ok(
            NodeV::Var { name, initializer },
        ),
{
    lemma_tags();
    lemma_attrs();
    match initializer {
        Option::None => {
            let row = seq![("name"@, JsonV::Str(name))];
            lemma_attr_once(row, "name"@, 0);
            lemma_attr_absent(row, "initializer"@);
            lemma_node_doc("Var"@, JsonV::Obj(row));
        },
        Option::Some(b) => {
            let row = seq![("name"@, JsonV::Str(name)), ("initializer"@, doc_of(*b))];
            lemma_attr_once(row, "name"@, 0);
            lemma_attr_once(row, "initializer"@, 1);
            assert(!(doc_of(*b) is Null));
            lemma_node_doc("Var"@, JsonV::Obj(row));
        },
    }
}

proof fn rt_const(name: Seq<char>, initializer: Box<NodeV>)
    requires
        decode(doc_of(*initializer)) == Result::<NodeV, ErrV>::Ok(*initializer),
    ensures
        decode(doc_of(NodeV::Const { name, initializer })) == Result::<NodeV, ErrV>::Ok(
            NodeV::Const { name, initializer },
        ),
{
    lemma_tags();
    lemma_attrs();
    let row = seq![("name"@, JsonV::Str(name)), ("initializer"@, doc_of(*initializer))];
    lemma_attr_once(row, "name"@, 0);
    lemma_attr_once(row, "initializer"@, 1);
    lemma_node_doc("Const"@, JsonV::Obj(row));
}

proof fn rt_if(condition: Box<NodeV>, then_branch: Box<NodeV>, else_branch: Option<Box<NodeV>>)
    requires
        decode(doc_of(*condition)) == Result::<NodeV, ErrV>::Ok(*condition),
        decode(doc_of(*then_branch)) == Result::<NodeV, ErrV>::Ok(*then_branch),
        else_branch matches Some(e) ==> decode(doc_of(*e)) == Result::<NodeV, ErrV>::Ok(*e),
    ensures
        decode(doc_of(NodeV::If { condition, then_branch, else_branch })) == Result::<
            NodeV,
            ErrV,
        >::Ok(NodeV::If { condition, then_branch, else_branch }),
{
    lemma_tags();
    lemma_attrs();
    match else_branch {
        Option::None => {
            let row = seq![
                ("condition"@, doc_of(*condition)),
                ("then_branch"@, doc_of(*then_branch)),
            ];
            lemma_attr_once(row, "condition"@, 0);
            lemma_attr_once(row, "then_branch"@, 1);
            lemma_attr_absent(row, "else_branch"@);
            lemma_node_doc("If"@, JsonV::Obj(row));
        },
        Option::Some(e) => {
            let row = seq![
                ("condition"@, doc_of(*condition)),
                ("then_branch"@, doc_of(*then_branch)),
                ("else_branch"@, doc_of(*e)),
            ];
            lemma_attr_once(row, "condition"@, 0);
            lemma_attr_once(row, "then_branch"@, 1);
            lemma_attr_once(row, "else_branch"@, 2);
            assert(!(doc_of(*e) is Null));
            lemma_node_doc("If"@, JsonV::Obj(row));
        },
    }
}

proof fn rt_while(condition: Box<NodeV>, body: Box<NodeV>)
    requires
        decode(doc_of(*condition)) == Result::<NodeV, ErrV>::Ok(*condition),
        decode(doc_of(*body)) == Result::<NodeV, ErrV>::Ok(*body),
    ensures
        decode(doc_of(NodeV::While { condition, body })) == Result::<NodeV, ErrV>::Ok(
            NodeV::While { condition, body },
        ),
{
    lemma_tags();
    lemma_attrs();
    let row = seq![("condition"@, doc_of(*condition)), ("body"@, doc_of(*body))];
    lemma_attr_once(row, "condition"@, 0);
    lemma_attr_once(row, "body"@, 1);
    lemma_node_doc("While"@, JsonV::Obj(row));
}

proof fn rt_return(value: Option<Box<NodeV>>)
    requires
        value matches Some(b) ==> decode(doc_of(*b)) == Result::<NodeV, ErrV>::Ok(*b),
    ensures
        decode(doc_of(NodeV::Return { value })) == Result::<NodeV, ErrV>::Ok(
            NodeV::Return { value },
        ),
{
    lemma_tags();
    lemma_attrs();
    match value {
        Option::None => {
            lemma_node_doc("Return"@, JsonV::Obj(Seq::<(Seq<char>, JsonV)>::empty()));
        },
        Option::Some(b) => {
            let row = seq![("value"@, doc_of(*b))];
            lemma_attr_once(row, "value"@, 0);
            assert(!(doc_of(*b) is Null));
            lemma_node_doc("Return"@, JsonV::Obj(row));
        },
    }
}

proof fn rt_exprstmt(inner: Box<NodeV>)
    requires
        decode(doc_of(*inner)) == Result::<NodeV, ErrV>::Ok(*inner),
    ensures
        decode(doc_of(NodeV::Exprstmt(inner))) == Result::<NodeV, ErrV>::Ok(
            NodeV::Exprstmt(inner),
        ),
{
    lemma_tags();
    lemma_node_doc("Exprstmt"@, doc_of(*inner));
}

proof fn rt_assign(name: Seq<char>, value: Box<NodeV>)
    requires
        decode(doc_of(*value)) == Result::<NodeV, ErrV>::Ok(*value),
    ensures
        decode(doc_of(NodeV::Assign { name, value })) == Result::<NodeV, ErrV>::Ok(
            NodeV::Assign { name, value },
        ),
{
    lemma_tags();
    lemma_attrs();
    let row = seq![("name"@, JsonV::Str(name)), ("value"@, doc_of(*value))];
    lemma_attr_once(row, "name"@, 0);
    lemma_attr_once(row, "value"@, 1);
    lemma_node_doc("Assign"@, JsonV::Obj(row));
}

proof fn rt_binary(left: Box<NodeV>, operator: Seq<char>, right: Box<NodeV>)
    requires
        decode(doc_of(*left)) == Result::<NodeV, ErrV>::Ok(*left),
        decode(doc_of(*right)) == Result::<NodeV, ErrV>::Ok(*right),
    ensures
        decode(doc_of(NodeV::Binary { left, operator, right })) == Result::<NodeV, ErrV>::Ok(
            NodeV::Binary { left, operator, right },
        ),
{
    lemma_tags();
    lemma_attrs();
    let row = seq![
        ("left"@, doc_of(*left)),
        ("operator"@, JsonV::Str(operator)),
        ("right"@, doc_of(*right)),
    ];
    lemma_attr_once(row, "left"@, 0);
    lemma_attr_once(row, "operator"@, 1);
    lemma_attr_once(row, "right"@, 2);
    lemma_node_doc("Binary"@, JsonV::Obj(row));
}

proof fn rt_logical(left: Box<NodeV>, operator: Seq<char>, right: Box<NodeV>)
    requires
        decode(doc_of(*left)) == Result::<NodeV, ErrV>::Ok(*left),
        decode(doc_of(*right)) == Result::<NodeV, ErrV>::Ok(*right),
    ensures
        decode(doc_of(NodeV::Logical { left, operator, right })) == Result::<NodeV, ErrV>::Ok(
            NodeV::Logical { left, operator, right },
        ),
{
    lemma_tags();
    lemma_attrs();
    let row = seq![
        ("left"@, doc_of(*left)),
        ("operator"@, JsonV::Str(operator)),
        ("right"@, doc_of(*right)),
    ];
    lemma_attr_once(row, "left"@, 0);
    lemma_attr_once(row, "operator"@, 1);
    lemma_attr_once(row, "right"@, 2);
    lemma_node_doc("Logical"@, JsonV::Obj(row));
}

proof fn rt_call(callee: Box<NodeV>, arguments: Seq<NodeV>)
    requires
        decode(doc_of(*callee)) == Result::<NodeV, ErrV>::Ok(*callee),
        decode_list(docs_of(arguments), 0) == Result::<Seq<NodeV>, ErrV>::Ok(arguments),
    ensures
        decode(doc_of(NodeV::Call { callee, arguments })) == Result::<NodeV, ErrV>::Ok(
            NodeV::Call { callee, arguments },
        ),
{
    lemma_tags();
    lemma_attrs();
    let row = seq![
        ("callee"@, doc_of(*callee)),
        ("arguments"@, JsonV::Arr(docs_of(arguments))),
    ];
    lemma_attr_once(row, "callee"@, 0);
    lemma_attr_once(row, "arguments"@, 1);
    lemma_node_doc("Call"@, JsonV::Obj(row));
}

proof fn rt_grouping(inner: Box<NodeV>)
    requires
        decode(doc_of(*inner)) == Result::<NodeV, ErrV>::Ok(*inner),
    ensures
        decode(doc_of(NodeV::Grouping(inner))) == Result::<NodeV, ErrV>::Ok(
            NodeV::Grouping(inner),
        ),
{
    lemma_tags();
    lemma_node_doc("Grouping"@, doc_of(*inner));
}

proof fn rt_unary(operator: Seq<char>, right: Box<NodeV>)
    requires
        decode(doc_of(*right)) == Result::<NodeV, ErrV>::Ok(*right),
    ensures
        decode(doc_of(NodeV::Unary { operator, right })) == Result::<NodeV, ErrV>::Ok(
            NodeV::Unary { operator, right },
        ),
{
    lemma_tags();
    lemma_attrs();
    let row = seq![("operator"@, JsonV::Str(operator)), ("right"@, doc_of(*right))];
    lemma_attr_once(row, "operator"@, 0);
    lemma_attr_once(row, "right"@, 1);
    lemma_node_doc("Unary"@, JsonV::Obj(row));
}

proof fn rt_leaf(v: NodeV)
    requires
        v is Variable || v is Number || v is String || v is Literal,
    ensures
        decode(doc_of(v)) == Result::<NodeV, ErrV>::Ok(v),
{
    lemma_tags();
    lemma_attrs();
    match v {
        NodeV::Variable { name } => {
            let row = seq![("name"@, JsonV::Str(name))];
            lemma_attr_once(row, "name"@, 0);
            lemma_node_doc("Variable"@, JsonV::Obj(row));
        },
        NodeV::Number(t) => {
            lemma_node_doc("Number"@, JsonV::Num(t));
        },
        NodeV::String(t) => {
            lemma_node_doc("String"@, JsonV::Str(t));
        },
        NodeV::Literal(t) => {
            lemma_node_doc("Literal"@, JsonV::Str(t));
        },
        _ => {
        },
    }
}

/// Every tree has a document: decoding the canonical document of any tree
/// succeeds and yields that tree back, variant by variant and field by
/// field — and with it a tree of exactly the document's nodes.
pub proof fn lemma_canonical_round_trip(v: NodeV)
    ensures
        decode(doc_of(v)) == Result::<NodeV, ErrV>::Ok(v),
    decreases v, 0int,
{
    match v {
        NodeV::Program(vs) => {
            lemma_canonical_list(vs, 0);
            assert(vs.skip(0) =~= vs);
            rt_program(vs);
        },
        NodeV::Func { name, parameters, body } => {
            lemma_canonical_round_trip(*body);
            rt_func(name, parameters, body);
        },
        NodeV::Var { name, initializer } => {
            if let Option::Some(b) = initializer {
                lemma_canonical_round_trip(*b);
            }
            rt_var(name, initializer);
        },
        NodeV::Const { name, initializer } => {
            lemma_canonical_round_trip(*initializer);
            rt_const(name, initializer);
        },
        NodeV::Block(vs) => {
            lemma_canonical_list(vs, 0);
            assert(vs.skip(0) =~= vs);
            rt_block(vs);
        },
        NodeV::If { condition, then_branch, else_branch } => {
            lemma_canonical_round_trip(*condition);
            lemma_canonical_round_trip(*then_branch);
            if let Option::Some(e) = else_branch {
                lemma_canonical_round_trip(*e);
            }
            rt_if(condition, then_branch, else_branch);
        },
        NodeV::While { condition, body } => {
            lemma_canonical_round_trip(*condition);
            lemma_canonical_round_trip(*body);
            rt_while(condition, body);
        },
        NodeV::Return { value } => {
            if let Option::Some(b) = value {
                lemma_canonical_round_trip(*b);
            }
            rt_return(value);
        },
        NodeV::Exprstmt(inner) => {
            lemma_canonical_round_trip(*inner);
            rt_exprstmt(inner);
        },
        NodeV::Assign { name, value } => {
            lemma_canonical_round_trip(*value);
            rt_assign(name, value);
        },
        NodeV::Binary { left, operator, right } => {
            lemma_canonical_round_trip(*left);
            lemma_canonical_round_trip(*right);
            rt_binary(left, operator, right);
        },
        NodeV::Logical { left, operator, right } => {
            lemma_canonical_round_trip(*left);
            lemma_canonical_round_trip(*right);
            rt_logical(left, operator, right);
        },
        NodeV::Call { callee, arguments } => {
            lemma_canonical_round_trip(*callee);
            lemma_canonical_list(arguments, 0);
            assert(arguments.skip(0) =~= arguments);
            rt_call(callee, arguments);
        },
        NodeV::Grouping(inner) => {
            lemma_canonical_round_trip(*inner);
            rt_grouping(inner);
        },
        NodeV::Unary { operator, right } => {
            lemma_canonical_round_trip(*right);
            rt_unary(operator, right);
        },
        NodeV::Variable { name } => {
            rt_leaf(NodeV::Variable { name });
            assert(v == NodeV::Variable { name });
        },
        NodeV::Number(t) => {
            rt_leaf(NodeV::Number(t));
            assert(v == NodeV::Number(t));
        },
        NodeV::String(t) => {
            rt_leaf(NodeV::String(t));
            assert(v == NodeV::String(t));
        },
        NodeV::Literal(t) => {
            rt_leaf(NodeV::Literal(t));
            assert(v == NodeV::Literal(t));
        },
    }
}

/// A row of trees, sent through [`docs_of`], decodes back to itself from
/// any starting position.
pub proof fn lemma_canonical_list(vs: Seq<NodeV>, k: nat)
    requires
        k <= vs.len(),
    ensures
        decode_list(docs_of(vs), k) == Result::<Seq<NodeV>, ErrV>::Ok(vs.skip(k as int)),
    decreases vs, vs.len() - k,
{
    if k == vs.len() {
        assert(vs.skip(k as int) =~= Seq::<NodeV>::empty());
    } else {
        lemma_canonical_round_trip(vs[k as int]);
        lemma_canonical_list(vs, k + 1);
        assert(seq![vs[k as int]] + vs.skip(k as int + 1) =~= vs.skip(k as int));
    }
}

} // verus!
