//! From a raw document value to a tree: structural recursive descent keyed
//! by the variant tag.
//!
//! A node document is an object with exactly one entry: the variant tag and
//! the variant's body. Bodies are decoded attribute by attribute against the
//! taxonomy; attributes the taxonomy does not name are ignored; a known
//! attribute bound twice is refused; a missing optional attribute, or one
//! bound to `null`, is an absent child. The meaning is fixed once, by the
//! spec-level [`decode`], and the builder [`build_ast`] is proved to return
//! exactly what it denotes.

use vstd::prelude::*;
use vstd::string::StringExecFns;

use crate::node::{AstNode, BuildError, ErrV, InnerNode, NodeV};
use crate::node::{list_shape, names_shape, opt_shape};
use crate::syntax::{Json, JsonV};
use crate::syntax::{entries_of, shapes_of, sp_document};

verus! {

/// The index of the first entry bound to `name`, or the row's length when
/// none is.
pub open spec fn find_key(fields: Seq<(Seq<char>, JsonV)>, name: Seq<char>) -> nat
    decreases fields.len(),
{
    if fields.len() == 0 {
        0
    } else {
        let r = find_key(fields.drop_last(), name);
        if r < fields.len() - 1 {
            r
        } else if fields.last().0 == name {
            (fields.len() - 1) as nat
        } else {
            fields.len()
        }
    }
}

/// Whether `name` is bound a second time after its first binding.
pub open spec fn dup_key(fields: Seq<(Seq<char>, JsonV)>, name: Seq<char>) -> bool {
    let i0 = find_key(fields, name);
    i0 < fields.len() && find_key(
        fields.subrange(i0 as int + 1, fields.len() as int),
        name,
    ) < fields.len() - i0 - 1
}

/// What [`find_key`] finds: the first binding of the name, and nothing
/// bound to it earlier.
pub proof fn lemma_find_key(fields: Seq<(Seq<char>, JsonV)>, name: Seq<char>)
    ensures
        find_key(fields, name) <= fields.len(),
        find_key(fields, name) < fields.len() ==> fields[find_key(fields, name) as int].0 == name,
        forall|k: int|
            0 <= k < find_key(fields, name) && k < fields.len() ==> (#[trigger] fields[k]).0
                != name,
    decreases fields.len(),
{
    if fields.len() > 0 {
        let pre = fields.drop_last();
        lemma_find_key(pre, name);
        assert(forall|k: int| 0 <= k < fields.len() - 1 ==> (#[trigger] fields[k]) == pre[k]);
        let r = find_key(fields, name);
        if find_key(pre, name) < pre.len() {
            assert(forall|k: int| 0 <= k < r && k < fields.len() ==> (#[trigger] fields[k]).0
                != name);
        } else if fields.last().0 == name {
            assert(fields[fields.len() - 1] == fields.last());
        } else {
            assert(fields[fields.len() - 1] == fields.last());
            assert(forall|k: int| 0 <= k < r && k < fields.len() ==> (#[trigger] fields[k]).0
                != name);
        }
    }
}

/// Where the one binding of `name` stands: nothing earlier or later is
/// bound to it, so the lookup lands exactly there.
pub proof fn lemma_attr_once(fields: Seq<(Seq<char>, JsonV)>, name: Seq<char>, i: int)
    requires
        0 <= i < fields.len(),
        fields[i].0 == name,
        forall|k: int| 0 <= k < fields.len() && k != i ==> (#[trigger] fields[k]).0 != name,
    ensures
        find_key(fields, name) == i,
        !dup_key(fields, name),
{
    lemma_find_key(fields, name);
    let fk = find_key(fields, name) as int;
    if fk < i {
        assert(fields[fk].0 == name);
        assert(false);
    } else if fk > i {
        assert(fields[i].0 != name);
        assert(false);
    }
    let sub = fields.subrange(i + 1, fields.len() as int);
    lemma_find_key(sub, name);
    if find_key(sub, name) < sub.len() {
        let t = find_key(sub, name) as int;
        assert(sub[t] == fields[i + 1 + t]);
        assert(false);
    }
}

/// A name bound nowhere in the row is not found.
pub proof fn lemma_attr_absent(fields: Seq<(Seq<char>, JsonV)>, name: Seq<char>)
    requires
        forall|k: int| 0 <= k < fields.len() ==> (#[trigger] fields[k]).0 != name,
    ensures
        find_key(fields, name) == fields.len(),
{
    lemma_find_key(fields, name);
    if find_key(fields, name) < fields.len() {
        assert(fields[find_key(fields, name) as int].0 == name);
        assert(false);
    }
}

/// The tags of the taxonomy.
pub open spec fn known_tag(t: Seq<char>) -> bool {
    ||| t == "Program"@
    ||| t == "Func"@
    ||| t == "Var"@
    ||| t == "Const"@
    ||| t == "Block"@
    ||| t == "If"@
    ||| t == "While"@
    ||| t == "Return"@
    ||| t == "Exprstmt"@
    ||| t == "Assign"@
    ||| t == "Binary"@
    ||| t == "Logical"@
    ||| t == "Call"@
    ||| t == "Grouping"@
    ||| t == "Unary"@
    ||| t == "Variable"@
    ||| t == "Number"@
    ||| t == "String"@
    ||| t == "Literal"@
}

/// The text bound to `name`, where the schema asks for a string attribute.
pub open spec fn text_attr(fields: Seq<(Seq<char>, JsonV)>, name: Seq<char>) -> Result<
    Seq<char>,
    ErrV,
> {
    let i0 = find_key(fields, name);
    if i0 < fields.len() {
        if dup_key(fields, name) {
            Result::Err(ErrV::DuplicateAttribute(name))
        } else {
            match fields[i0 as int].1 {
                JsonV::Str(t) => Result::Ok(t),
                _ => Result::Err(ErrV::WrongType(name)),
            }
        }
    } else {
        Result::Err(ErrV::MissingAttribute(name))
    }
}

/// What a whole node document means: the tree it encodes, or why it encodes
/// none.
pub open spec fn decode(j: JsonV) -> Result<NodeV, ErrV>
    decreases j, 0int,
{
    match j {
        JsonV::Obj(entries) => {
            if entries.len() == 1 {
                decode_tagged(entries[0].0, entries[0].1)
            } else {
                Result::Err(ErrV::WrongType("node"@))
            }
        },
        _ => Result::Err(ErrV::WrongType("node"@)),
    }
}

/// The trees of a row of node documents, from position `k` on, in order;
/// the first failure is the row's failure.
pub open spec fn decode_list(items: Seq<JsonV>, k: nat) -> Result<Seq<NodeV>, ErrV>
    decreases items, items.len() - k,
{
    if k >= items.len() {
        Result::Ok(Seq::empty())
    } else {
        match decode(items[k as int]) {
            Result::Err(e) => Result::Err(e),
            Result::Ok(v) => match decode_list(items, k + 1) {
                Result::Err(e) => Result::Err(e),
                Result::Ok(rest) => Result::Ok(seq![v] + rest),
            },
        }
    }
}

/// The texts of a row of string documents, from position `k` on; anything
/// that is not a string fails the named attribute.
pub open spec fn decode_names(items: Seq<JsonV>, k: nat, name: Seq<char>) -> Result<
    Seq<Seq<char>>,
    ErrV,
>
    decreases items.len() - k,
{
    if k >= items.len() {
        Result::Ok(Seq::empty())
    } else {
        match items[k as int] {
            JsonV::Str(t) => match decode_names(items, k + 1, name) {
                Result::Err(e) => Result::Err(e),
                Result::Ok(rest) => Result::Ok(seq![t] + rest),
            },
            _ => Result::Err(ErrV::WrongType(name)),
        }
    }
}

/// The child bound to `name`, where the schema asks for one node: the
/// attribute must be there, and must itself decode.
pub open spec fn node_attr(fields: Seq<(Seq<char>, JsonV)>, name: Seq<char>) -> Result<
    Box<NodeV>,
    ErrV,
>
    decreases fields, 0int,
{
    let i0 = find_key(fields, name);
    if i0 < fields.len() {
        if dup_key(fields, name) {
            Result::Err(ErrV::DuplicateAttribute(name))
        } else {
            match decode(fields[i0 as int].1) {
                Result::Err(e) => Result::Err(e),
                Result::Ok(n) => Result::Ok(Box::new(n)),
            }
        }
    } else {
        Result::Err(ErrV::MissingAttribute(name))
    }
}

/// The child bound to `name`, where the schema allows its absence: a missing
/// attribute, or one bound to `null`, is an absent child.
pub open spec fn opt_attr(fields: Seq<(Seq<char>, JsonV)>, name: Seq<char>) -> Result<
    Option<Box<NodeV>>,
    ErrV,
>
    decreases fields, 0int,
{
    let i0 = find_key(fields, name);
    if i0 < fields.len() {
        if dup_key(fields, name) {
            Result::Err(ErrV::DuplicateAttribute(name))
        } else if fields[i0 as int].1 is Null {
            Result::Ok(Option::None)
        } else {
            match decode(fields[i0 as int].1) {
                Result::Err(e) => Result::Err(e),
                Result::Ok(n) => Result::Ok(Option::Some(Box::new(n))),
            }
        }
    } else {
        Result::Ok(Option::None)
    }
}

/// What a tagged body means, tag by tag of the taxonomy; a tag outside it
/// is refused, whatever its body holds.
pub open spec fn decode_tagged(tag: Seq<char>, body: JsonV) -> Result<NodeV, ErrV>
    decreases body, 1int,
{
    if tag == "Program"@ {
        match body {
            JsonV::Arr(items) => match decode_list(items, 0) {
                Result::Err(e) => Result::Err(e),
                Result::Ok(vs) => Result::Ok(NodeV::Program(vs)),
            },
            _ => Result::Err(ErrV::WrongType(tag)),
        }
    } else if tag == "Func"@ {
        match body {
            JsonV::Obj(fields) => match text_attr(fields, "name"@) {
                Result::Err(e) => Result::Err(e),
                Result::Ok(nm) => {
                    let ip = find_key(fields, "parameters"@);
                    if ip < fields.len() {
                        if dup_key(fields, "parameters"@) {
                            Result::Err(ErrV::DuplicateAttribute("parameters"@))
                        } else {
                            match fields[ip as int].1 {
                                JsonV::Arr(ps) => match decode_names(ps, 0, "parameters"@) {
                                    Result::Err(e) => Result::Err(e),
                                    Result::Ok(params) => match node_attr(fields, "body"@) {
                                        Result::Err(e) => Result::Err(e),
                                        Result::Ok(b) => Result::Ok(
                                            NodeV::Func { name: nm, parameters: params, body: b },
                                        ),
                                    },
                                },
                                _ => Result::Err(ErrV::WrongType("parameters"@)),
                            }
                        }
                    } else {
                        Result::Err(ErrV::MissingAttribute("parameters"@))
                    }
                },
            },
            _ => Result::Err(ErrV::WrongType(tag)),
        }
    } else if tag == "Var"@ {
        match body {
            JsonV::Obj(fields) => match text_attr(fields, "name"@) {
                Result::Err(e) => Result::Err(e),
                Result::Ok(nm) => match opt_attr(fields, "initializer"@) {
                    Result::Err(e) => Result::Err(e),
                    Result::Ok(init) => Result::Ok(NodeV::Var { name: nm, initializer: init }),
                },
            },
            _ => Result::Err(ErrV::WrongType(tag)),
        }
    } else if tag == "Const"@ {
        match body {
            JsonV::Obj(fields) => match text_attr(fields, "name"@) {
                Result::Err(e) => Result::Err(e),
                Result::Ok(nm) => match node_attr(fields, "initializer"@) {
                    Result::Err(e) => Result::Err(e),
                    Result::Ok(init) => Result::Ok(NodeV::Const { name: nm, initializer: init }),
                },
            },
            _ => Result::Err(ErrV::WrongType(tag)),
        }
    } else if tag == "Block"@ {
        match body {
            JsonV::Arr(items) => match decode_list(items, 0) {
                Result::Err(e) => Result::Err(e),
                Result::Ok(vs) => Result::Ok(NodeV::Block(vs)),
            },
            _ => Result::Err(ErrV::WrongType(tag)),
        }
    } else if tag == "If"@ {
        match body {
            JsonV::Obj(fields) => match node_attr(fields, "condition"@) {
                Result::Err(e) => Result::Err(e),
                Result::Ok(c) => match node_attr(fields, "then_branch"@) {
                    Result::Err(e) => Result::Err(e),
                    Result::Ok(t) => match opt_attr(fields, "else_branch"@) {
                        Result::Err(e) => Result::Err(e),
                        Result::Ok(els) => Result::Ok(
                            NodeV::If { condition: c, then_branch: t, else_branch: els },
                        ),
                    },
                },
            },
            _ => Result::Err(ErrV::WrongType(tag)),
        }
    } else if tag == "While"@ {
        match body {
            JsonV::Obj(fields) => match node_attr(fields, "condition"@) {
                Result::Err(e) => Result::Err(e),
                Result::Ok(c) => match node_attr(fields, "body"@) {
                    Result::Err(e) => Result::Err(e),
                    Result::Ok(b) => Result::Ok(NodeV::While { condition: c, body: b }),
                },
            },
            _ => Result::Err(ErrV::WrongType(tag)),
        }
    } else if tag == "Return"@ {
        match body {
            JsonV::Obj(fields) => match opt_attr(fields, "value"@) {
                Result::Err(e) => Result::Err(e),
                Result::Ok(v) => Result::Ok(NodeV::Return { value: v }),
            },
            _ => Result::Err(ErrV::WrongType(tag)),
        }
    } else if tag == "Exprstmt"@ {
        match decode(body) {
            Result::Err(e) => Result::Err(e),
            Result::Ok(n) => Result::Ok(NodeV::Exprstmt(Box::new(n))),
        }
    } else if tag == "Assign"@ {
        match body {
            JsonV::Obj(fields) => match text_attr(fields, "name"@) {
                Result::Err(e) => Result::Err(e),
                Result::Ok(nm) => match node_attr(fields, "value"@) {
                    Result::Err(e) => Result::Err(e),
                    Result::Ok(v) => Result::Ok(NodeV::Assign { name: nm, value: v }),
                },
            },
            _ => Result::Err(ErrV::WrongType(tag)),
        }
    } else if tag == "Binary"@ {
        match body {
            JsonV::Obj(fields) => match node_attr(fields, "left"@) {
                Result::Err(e) => Result::Err(e),
                Result::Ok(l) => match text_attr(fields, "operator"@) {
                    Result::Err(e) => Result::Err(e),
                    Result::Ok(op) => match node_attr(fields, "right"@) {
                        Result::Err(e) => Result::Err(e),
                        Result::Ok(rt) => Result::Ok(
                            NodeV::Binary { left: l, operator: op, right: rt },
                        ),
                    },
                },
            },
            _ => Result::Err(ErrV::WrongType(tag)),
        }
    } else if tag == "Logical"@ {
        match body {
            JsonV::Obj(fields) => match node_attr(fields, "left"@) {
                Result::Err(e) => Result::Err(e),
                Result::Ok(l) => match text_attr(fields, "operator"@) {
                    Result::Err(e) => Result::Err(e),
                    Result::Ok(op) => match node_attr(fields, "right"@) {
                        Result::Err(e) => Result::Err(e),
                        Result::Ok(rt) => Result::Ok(
                            NodeV::Logical { left: l, operator: op, right: rt },
                        ),
                    },
                },
            },
            _ => Result::Err(ErrV::WrongType(tag)),
        }
    } else if tag == "Call"@ {
        match body {
            JsonV::Obj(fields) => match node_attr(fields, "callee"@) {
                Result::Err(e) => Result::Err(e),
                Result::Ok(c) => {
                    let ia = find_key(fields, "arguments"@);
                    if ia < fields.len() {
                        if dup_key(fields, "arguments"@) {
                            Result::Err(ErrV::DuplicateAttribute("arguments"@))
                        } else {
                            match fields[ia as int].1 {
                                JsonV::Arr(items) => match decode_list(items, 0) {
                                    Result::Err(e) => Result::Err(e),
                                    Result::Ok(args) => Result::Ok(
                                        NodeV::Call { callee: c, arguments: args },
                                    ),
                                },
                                _ => Result::Err(ErrV::WrongType("arguments"@)),
                            }
                        }
                    } else {
                        Result::Err(ErrV::MissingAttribute("arguments"@))
                    }
                },
            },
            _ => Result::Err(ErrV::WrongType(tag)),
        }
    } else if tag == "Grouping"@ {
        match decode(body) {
            Result::Err(e) => Result::Err(e),
            Result::Ok(n) => Result::Ok(NodeV::Grouping(Box::new(n))),
        }
    } else if tag == "Unary"@ {
        match body {
            JsonV::Obj(fields) => match text_attr(fields, "operator"@) {
                Result::Err(e) => Result::Err(e),
                Result::Ok(op) => match node_attr(fields, "right"@) {
                    Result::Err(e) => Result::Err(e),
                    Result::Ok(rt) => Result::Ok(NodeV::Unary { operator: op, right: rt }),
                },
            },
            _ => Result::Err(ErrV::WrongType(tag)),
        }
    } else if tag == "Variable"@ {
        match body {
            JsonV::Obj(fields) => match text_attr(fields, "name"@) {
                Result::Err(e) => Result::Err(e),
                Result::Ok(nm) => Result::Ok(NodeV::Variable { name: nm }),
            },
            _ => Result::Err(ErrV::WrongType(tag)),
        }
    } else if tag == "Number"@ {
        match body {
            JsonV::Num(t) => Result::Ok(NodeV::Number(t)),
            _ => Result::Err(ErrV::WrongType(tag)),
        }
    } else if tag == "String"@ {
        match body {
            JsonV::Str(t) => Result::Ok(NodeV::String(t)),
            _ => Result::Err(ErrV::WrongType(tag)),
        }
    } else if tag == "Literal"@ {
        match body {
            JsonV::Str(t) => Result::Ok(NodeV::Literal(t)),
            _ => Result::Err(ErrV::WrongType(tag)),
        }
    } else {
        Result::Err(ErrV::UnknownTag(tag))
    }
}

/// What a whole document text yields: the tree of its one node, or the
/// first reason it yields none.
pub open spec fn spec_build(s: Seq<char>) -> Result<NodeV, ErrV> {
    match sp_document(s) {
        Option::None => Result::Err(ErrV::Malformed),
        Option::Some(j) => decode(j),
    }
}

/// Where one attribute lookup can end.
enum AttrHit {
    Missing,
    Dup,
    At(usize),
}

fn tag_is(t: &String, lit: &str) -> (b: bool)
    ensures
        b == (t@ == lit@),
{
    let ls = String::from_str(lit);
    t.eq(&ls)
}

/// First entry bound to the name at or after `start`, scanning in order.
fn first_attr_from(fields: &Vec<(String, Json)>, ns: &String, start: usize) -> (r: Option<usize>)
    requires
        start <= fields@.len(),
    ensures
        r is None ==> forall|t: int|
            start <= t < fields@.len() ==> (#[trigger] fields@[t]).0@ != ns@,
        r matches Some(k) ==> start <= k < fields@.len() && fields@[k as int].0@ == ns@ && (forall|
            t: int,
        | start <= t < k ==> (#[trigger] fields@[t]).0@ != ns@),
{
    let mut k = start;
    while k < fields.len()
        invariant
            start <= k <= fields@.len(),
            forall|t: int| start <= t < k ==> (#[trigger] fields@[t]).0@ != ns@,
        decreases fields@.len() - k,
    {
        if fields[k].0.eq(ns) {
            return Some(k);
        }
        k = k + 1;
    }
    None
}

/// Finds the one binding of an attribute, or reports that it is absent or
/// bound twice.
fn seek_attr(fields: &Vec<(String, Json)>, name: &str) -> (r: AttrHit)
    ensures
        r is Missing ==> find_key(entries_of(fields@), name@) == fields@.len(),
        r matches AttrHit::At(k) ==> k as nat == find_key(entries_of(fields@), name@) && (k as nat)
            < fields@.len() && !dup_key(entries_of(fields@), name@),
        r is Dup ==> find_key(entries_of(fields@), name@) < fields@.len() && dup_key(
            entries_of(fields@),
            name@,
        ),
{
    let ns = String::from_str(name);
    let n = fields.len();
    let ghost ents = entries_of(fields@);
    proof {
        lemma_find_key(ents, name@);
        assert(forall|t: int|
            0 <= t < fields@.len() ==> (#[trigger] ents[t]).0 == fields@[t].0@);
    }
    match first_attr_from(fields, &ns, 0) {
        None => AttrHit::Missing,
        Some(k) => {
            proof {
                let fk = find_key(ents, name@) as int;
                assert(ents[k as int].0 == name@);
                if fk < k as int {
                    assert(ents[fk].0 == name@);
                    assert(ents[fk].0 == fields@[fk].0@);
                    assert(false);
                } else if fk > k as int {
                    assert(ents[k as int].0 != name@);
                    assert(false);
                }
            }
            match first_attr_from(fields, &ns, k + 1) {
                None => {
                    proof {
                        let sub = ents.subrange(k + 1, ents.len() as int);
                        lemma_find_key(sub, name@);
                        assert(forall|t: int|
                            0 <= t < sub.len() ==> (#[trigger] sub[t]) == ents[k + 1 + t]);
                        assert(find_key(sub, name@) == sub.len());
                    }
                    AttrHit::At(k)
                },
                Some(k2) => {
                    proof {
                        let sub = ents.subrange(k + 1, ents.len() as int);
                        lemma_find_key(sub, name@);
                        assert(sub[k2 - k - 1] == ents[k2 as int]);
                        assert(find_key(sub, name@) < sub.len());
                    }
                    AttrHit::Dup
                },
            }
        },
    }
}

/// The text bound to the named string attribute.
fn text_attr_x(fields: &Vec<(String, Json)>, name: &str) -> (r: Result<String, BuildError>)
    ensures
        r matches Ok(t) ==> text_attr(entries_of(fields@), name@) == Ok::<Seq<char>, ErrV>(t@),
        r matches Err(e) ==> text_attr(entries_of(fields@), name@) == Err::<Seq<char>, ErrV>(e@),
{
    match seek_attr(fields, name) {
        AttrHit::Missing => Err(BuildError::MissingAttribute(String::from_str(name))),
        AttrHit::Dup => Err(BuildError::DuplicateAttribute(String::from_str(name))),
        AttrHit::At(k) => match &fields[k].1 {
            Json::Str(t) => Ok(t.clone()),
            _ => Err(BuildError::WrongType(String::from_str(name))),
        },
    }
}

/// Decodes one node document.
pub fn decode_node(j: &Json) -> (r: Result<InnerNode, BuildError>)
    ensures
        r matches Ok(n) ==> decode(j@) == Ok::<NodeV, ErrV>(n@),
        r matches Err(e) ==> decode(j@) == Err::<NodeV, ErrV>(e@),
    decreases j, 0int,
{
    match j {
        Json::Obj(entries) => {
            if entries.len() == 1 {
                let tag = &entries[0].0;
                let body = &entries[0].1;
                proof {
                    assert(entries_of(entries@)[0] == (tag@, body@));
                }
                decode_tagged_x(tag, body)
            } else {
                Err(BuildError::WrongType(String::from_str("node")))
            }
        },
        _ => Err(BuildError::WrongType(String::from_str("node"))),
    }
}

/// Decodes a row of node documents from position `k` on.
fn decode_list_x(items: &Vec<Json>, k: usize) -> (r: Result<Vec<AstNode>, BuildError>)
    requires
        k <= items@.len(),
    ensures
        r matches Ok(v) ==> decode_list(shapes_of(items@), k as nat) == Ok::<Seq<NodeV>, ErrV>(
            list_shape(v),
        ),
        r matches Err(e) ==> decode_list(shapes_of(items@), k as nat) == Err::<Seq<NodeV>, ErrV>(
            e@,
        ),
    decreases items, items@.len() - k,
{
    if k == items.len() {
        let out: Vec<AstNode> = Vec::new();
        proof {
            assert(list_shape(out) =~= Seq::<NodeV>::empty());
        }
        return Ok(out);
    }
    match decode_node(&items[k]) {
        Err(e) => Err(e),
        Ok(n) => match decode_list_x(items, k + 1) {
            Err(e) => Err(e),
            Ok(rest) => {
                let ghost restv = rest;
                let mut out = rest;
                out.insert(0, Box::new(n));
                proof {
                    assert(list_shape(out) =~= seq![n@] + list_shape(restv));
                }
                Ok(out)
            },
        },
    }
}

/// Decodes a row of string documents from position `k` on.
fn decode_names_x(items: &Vec<Json>, k: usize, name: &str) -> (r: Result<Vec<String>, BuildError>)
    requires
        k <= items@.len(),
    ensures
        r matches Ok(v) ==> decode_names(shapes_of(items@), k as nat, name@) == Ok::<
            Seq<Seq<char>>,
            ErrV,
        >(names_shape(v)),
        r matches Err(e) ==> decode_names(shapes_of(items@), k as nat, name@) == Err::<
            Seq<Seq<char>>,
            ErrV,
        >(e@),
    decreases items@.len() - k,
{
    if k == items.len() {
        let out: Vec<String> = Vec::new();
        proof {
            assert(names_shape(out) =~= Seq::<Seq<char>>::empty());
        }
        return Ok(out);
    }
    match &items[k] {
        Json::Str(t) => match decode_names_x(items, k + 1, name) {
            Err(e) => Err(e),
            Ok(rest) => {
                let ghost restv = rest;
                let mut out = rest;
                out.insert(0, t.clone());
                proof {
                    assert(names_shape(out) =~= seq![t@] + names_shape(restv));
                }
                Ok(out)
            },
        },
        _ => Err(BuildError::WrongType(String::from_str(name))),
    }
}

/// Decodes the named required child node.
fn node_attr_x(fields: &Vec<(String, Json)>, name: &str) -> (r: Result<AstNode, BuildError>)
    ensures
        r matches Ok(n) ==> node_attr(entries_of(fields@), name@) == Ok::<Box<NodeV>, ErrV>(
            Box::new(n@),
        ),
        r matches Err(e) ==> node_attr(entries_of(fields@), name@) == Err::<Box<NodeV>, ErrV>(e@),
    decreases fields, 0int,
{
    match seek_attr(fields, name) {
        AttrHit::Missing => Err(BuildError::MissingAttribute(String::from_str(name))),
        AttrHit::Dup => Err(BuildError::DuplicateAttribute(String::from_str(name))),
        AttrHit::At(k) => match decode_node(&fields[k].1) {
            Err(e) => Err(e),
            Ok(n) => Ok(Box::new(n)),
        },
    }
}

/// Decodes the named optional child node.
fn opt_attr_x(fields: &Vec<(String, Json)>, name: &str) -> (r: Result<
    Option<AstNode>,
    BuildError,
>)
    ensures
        r matches Ok(n) ==> opt_attr(entries_of(fields@), name@) == Ok::<
            Option<Box<NodeV>>,
            ErrV,
        >(opt_shape(n)),
        r matches Err(e) ==> opt_attr(entries_of(fields@), name@) == Err::<
            Option<Box<NodeV>>,
            ErrV,
        >(e@),
    decreases fields, 0int,
{
    match seek_attr(fields, name) {
        AttrHit::Missing => Ok(None),
        AttrHit::Dup => Err(BuildError::DuplicateAttribute(String::from_str(name))),
        AttrHit::At(k) => match &fields[k].1 {
            Json::Null => Ok(None),
            other => match decode_node(other) {
                Err(e) => Err(e),
                Ok(n) => Ok(Some(Box::new(n))),
            },
        },
    }
}

/// Decodes a tagged body.
fn decode_tagged_x(tag: &String, body: &Json) -> (r: Result<InnerNode, BuildError>)
    ensures
        r matches Ok(n) ==> decode_tagged(tag@, body@) == Ok::<NodeV, ErrV>(n@),
        r matches Err(e) ==> decode_tagged(tag@, body@) == Err::<NodeV, ErrV>(e@),
    decreases body, 1int,
{
    if tag_is(tag, "Program") {
        match body {
            Json::Arr(items) => match decode_list_x(items, 0) {
                Err(e) => Err(e),
                Ok(vs) => Ok(InnerNode::Program(vs)),
            },
            _ => Err(BuildError::WrongType(tag.clone())),
        }
    } else if tag_is(tag, "Func") {
        match body {
            Json::Obj(fields) => match text_attr_x(fields, "name") {
                Err(e) => Err(e),
                Ok(nm) => match seek_attr(fields, "parameters") {
                    AttrHit::Missing => Err(
                        BuildError::MissingAttribute(String::from_str("parameters")),
                    ),
                    AttrHit::Dup => Err(
                        BuildError::DuplicateAttribute(String::from_str("parameters")),
                    ),
                    AttrHit::At(k) => match &fields[k].1 {
                        Json::Arr(ps) => match decode_names_x(ps, 0, "parameters") {
                            Err(e) => Err(e),
                            Ok(params) => match node_attr_x(fields, "body") {
                                Err(e) => Err(e),
                                Ok(b) => Ok(
                                    InnerNode::Func { name: nm, parameters: params, body: b },
                                ),
                            },
                        },
                        _ => Err(BuildError::WrongType(String::from_str("parameters"))),
                    },
                },
            },
            _ => Err(BuildError::WrongType(tag.clone())),
        }
    } else if tag_is(tag, "Var") {
        match body {
            Json::Obj(fields) => match text_attr_x(fields, "name") {
                Err(e) => Err(e),
                Ok(nm) => match opt_attr_x(fields, "initializer") {
                    Err(e) => Err(e),
                    Ok(init) => Ok(InnerNode::Var { name: nm, initializer: init }),
                },
            },
            _ => Err(BuildError::WrongType(tag.clone())),
        }
    } else if tag_is(tag, "Const") {
        match body {
            Json::Obj(fields) => match text_attr_x(fields, "name") {
                Err(e) => Err(e),
                Ok(nm) => match node_attr_x(fields, "initializer") {
                    Err(e) => Err(e),
                    Ok(init) => Ok(InnerNode::Const { name: nm, initializer: init }),
                },
            },
            _ => Err(BuildError::WrongType(tag.clone())),
        }
    } else if tag_is(tag, "Block") {
        match body {
            Json::Arr(items) => match decode_list_x(items, 0) {
                Err(e) => Err(e),
                Ok(vs) => Ok(InnerNode::Block(vs)),
            },
            _ => Err(BuildError::WrongType(tag.clone())),
        }
    } else if tag_is(tag, "If") {
        match body {
            Json::Obj(fields) => match node_attr_x(fields, "condition") {
                Err(e) => Err(e),
                Ok(c) => match node_attr_x(fields, "then_branch") {
                    Err(e) => Err(e),
                    Ok(t) => match opt_attr_x(fields, "else_branch") {
                        Err(e) => Err(e),
                        Ok(els) => Ok(
                            InnerNode::If { condition: c, then_branch: t, else_branch: els },
                        ),
                    },
                },
            },
            _ => Err(BuildError::WrongType(tag.clone())),
        }
    } else if tag_is(tag, "While") {
        match body {
            Json::Obj(fields) => match node_attr_x(fields, "condition") {
                Err(e) => Err(e),
                Ok(c) => match node_attr_x(fields, "body") {
                    Err(e) => Err(e),
                    Ok(b) => Ok(InnerNode::While { condition: c, body: b }),
                },
            },
            _ => Err(BuildError::WrongType(tag.clone())),
        }
    } else if tag_is(tag, "Return") {
        match body {
            Json::Obj(fields) => match opt_attr_x(fields, "value") {
                Err(e) => Err(e),
                Ok(v) => Ok(InnerNode::Return { value: v }),
            },
            _ => Err(BuildError::WrongType(tag.clone())),
        }
    } else if tag_is(tag, "Exprstmt") {
        match decode_node(body) {
            Err(e) => Err(e),
            Ok(n) => Ok(InnerNode::Exprstmt(Box::new(n))),
        }
    } else if tag_is(tag, "Assign") {
        match body {
            Json::Obj(fields) => match text_attr_x(fields, "name") {
                Err(e) => Err(e),
                Ok(nm) => match node_attr_x(fields, "value") {
                    Err(e) => Err(e),
                    Ok(v) => Ok(InnerNode::Assign { name: nm, value: v }),
                },
            },
            _ => Err(BuildError::WrongType(tag.clone())),
        }
    } else if tag_is(tag, "Binary") {
        match body {
            Json::Obj(fields) => match node_attr_x(fields, "left") {
                Err(e) => Err(e),
                Ok(l) => match text_attr_x(fields, "operator") {
                    Err(e) => Err(e),
                    Ok(op) => match node_attr_x(fields, "right") {
                        Err(e) => Err(e),
                        Ok(rt) => Ok(InnerNode::Binary { left: l, operator: op, right: rt }),
                    },
                },
            },
            _ => Err(BuildError::WrongType(tag.clone())),
        }
    } else if tag_is(tag, "Logical") {
        match body {
            Json::Obj(fields) => match node_attr_x(fields, "left") {
                Err(e) => Err(e),
                Ok(l) => match text_attr_x(fields, "operator") {
                    Err(e) => Err(e),
                    Ok(op) => match node_attr_x(fields, "right") {
                        Err(e) => Err(e),
                        Ok(rt) => Ok(InnerNode::Logical { left: l, operator: op, right: rt }),
                    },
                },
            },
            _ => Err(BuildError::WrongType(tag.clone())),
        }
    } else if tag_is(tag, "Call") {
        match body {
            Json::Obj(fields) => match node_attr_x(fields, "callee") {
                Err(e) => Err(e),
                Ok(c) => match seek_attr(fields, "arguments") {
                    AttrHit::Missing => Err(
                        BuildError::MissingAttribute(String::from_str("arguments")),
                    ),
                    AttrHit::Dup => Err(
                        BuildError::DuplicateAttribute(String::from_str("arguments")),
                    ),
                    AttrHit::At(k) => match &fields[k].1 {
                        Json::Arr(items) => match decode_list_x(items, 0) {
                            Err(e) => Err(e),
                            Ok(args) => Ok(InnerNode::Call { callee: c, arguments: args }),
                        },
                        _ => Err(BuildError::WrongType(String::from_str("arguments"))),
                    },
                },
            },
            _ => Err(BuildError::WrongType(tag.clone())),
        }
    } else if tag_is(tag, "Grouping") {
        match decode_node(body) {
            Err(e) => Err(e),
            Ok(n) => Ok(InnerNode::Grouping(Box::new(n))),
        }
    } else if tag_is(tag, "Unary") {
        match body {
            Json::Obj(fields) => match text_attr_x(fields, "operator") {
                Err(e) => Err(e),
                Ok(op) => match node_attr_x(fields, "right") {
                    Err(e) => Err(e),
                    Ok(rt) => Ok(InnerNode::Unary { operator: op, right: rt }),
                },
            },
            _ => Err(BuildError::WrongType(tag.clone())),
        }
    } else if tag_is(tag, "Variable") {
        match body {
            Json::Obj(fields) => match text_attr_x(fields, "name") {
                Err(e) => Err(e),
                Ok(nm) => Ok(InnerNode::Variable { name: nm }),
            },
            _ => Err(BuildError::WrongType(tag.clone())),
        }
    } else if tag_is(tag, "Number") {
        match body {
            Json::Num(t) => Ok(InnerNode::Number(t.clone())),
            _ => Err(BuildError::WrongType(tag.clone())),
        }
    } else if tag_is(tag, "String") {
        match body {
            Json::Str(t) => Ok(InnerNode::String(t.clone())),
            _ => Err(BuildError::WrongType(tag.clone())),
        }
    } else if tag_is(tag, "Literal") {
        match body {
            Json::Str(t) => Ok(InnerNode::Literal(t.clone())),
            _ => Err(BuildError::WrongType(tag.clone())),
        }
    } else {
        Err(BuildError::UnknownTag(tag.clone()))
    }
}

/// Builds the tree that a document encodes: the one operation of this
/// library. The result is a fully owned tree, or the first reason the
/// document encodes none; never both and never neither, and nothing besides
/// the text decides it.
pub fn build_ast(json: &str) -> (r: Result<AstNode, BuildError>)
    ensures
        r matches Ok(n) ==> spec_build(json@) == Ok::<NodeV, ErrV>(n@),
        r matches Err(e) ==> spec_build(json@) == Err::<NodeV, ErrV>(e@),
{
    match crate::syntax::read_document(json) {
        None => Err(BuildError::Malformed),
        Some(v) => match decode_node(&v) {
            Ok(n) => Ok(Box::new(n)),
            Err(e) => Err(e),
        },
    }
}

} // verus!
