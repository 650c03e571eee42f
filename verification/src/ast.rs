//! The syntax tree: expressions (`ASTValue`) and statements (`AST`), each with
//! its mathematical value.

use vstd::prelude::*;
use vstd::string::*;

verus! {

/// An expression. Float literals carry their decimal text. A clone has the
/// same value.
#[derive(Debug, PartialEq)]
pub enum ASTValue {
    Str(String),
    Int(i32),
    Int64(i64),
    Float32(String),
    Float64(String),
    Bool(bool),
    VarRef(String),
    FuncCall { name: String, args: Vec<ASTValue> },
    LessThan(Box<ASTValue>, Box<ASTValue>),
    GreaterThan(Box<ASTValue>, Box<ASTValue>),
    Equal(Box<ASTValue>, Box<ASTValue>),
    EqualEqual(Box<ASTValue>, Box<ASTValue>),
    NotEqual(Box<ASTValue>, Box<ASTValue>),
    LessEqual(Box<ASTValue>, Box<ASTValue>),
    GreaterEqual(Box<ASTValue>, Box<ASTValue>),
}

/// The mathematical value of an expression.
pub enum ValueView {
    Str(Seq<char>),
    Int(i32),
    Int64(i64),
    Float32(Seq<char>),
    Float64(Seq<char>),
    Bool(bool),
    VarRef(Seq<char>),
    FuncCall { name: Seq<char>, args: Seq<ValueView> },
    LessThan(Box<ValueView>, Box<ValueView>),
    GreaterThan(Box<ValueView>, Box<ValueView>),
    Equal(Box<ValueView>, Box<ValueView>),
    EqualEqual(Box<ValueView>, Box<ValueView>),
    NotEqual(Box<ValueView>, Box<ValueView>),
    LessEqual(Box<ValueView>, Box<ValueView>),
    GreaterEqual(Box<ValueView>, Box<ValueView>),
}

/// A statement. A clone has the same value.
#[derive(Debug, PartialEq)]
pub enum AST {
    Import(String),
    /// Declared type name, binding name, initializer.
    VarDecl(String, String, ASTValue),
    VarRef(String),
    Literal(ASTValue),
    NewLine,
    Call { object: String, method: String, args: Vec<AST> },
    Return(ASTValue),
    /// Parameters are pairs of name and type name.
    FuncDef { name: String, params: Vec<(String, String)>, return_type: Option<String>, body: Vec<AST> },
    If {
        condition: ASTValue,
        then_body: Vec<AST>,
        elif_branches: Vec<(ASTValue, Vec<AST>)>,
        else_body: Option<Vec<AST>>,
    },
}

/// The mathematical value of a statement.
pub enum NodeView {
    Import(Seq<char>),
    VarDecl(Seq<char>, Seq<char>, ValueView),
    VarRef(Seq<char>),
    Literal(ValueView),
    NewLine,
    Call { object: Seq<char>, method: Seq<char>, args: Seq<NodeView> },
    Return(ValueView),
    FuncDef {
        name: Seq<char>,
        params: Seq<(Seq<char>, Seq<char>)>,
        return_type: Option<Seq<char>>,
        body: Seq<NodeView>,
    },
    If {
        condition: ValueView,
        then_body: Seq<NodeView>,
        elif_branches: Seq<(ValueView, Seq<NodeView>)>,
        else_body: Option<Seq<NodeView>>,
    },
}

/// The mathematical value of an expression.
pub open spec fn value_view(v: ASTValue) -> ValueView
    decreases v,
{
    match v {
        ASTValue::Str(s) => ValueView::Str(s@),
        ASTValue::Int(n) => ValueView::Int(n),
        ASTValue::Int64(n) => ValueView::Int64(n),
        ASTValue::Float32(s) => ValueView::Float32(s@),
        ASTValue::Float64(s) => ValueView::Float64(s@),
        ASTValue::Bool(b) => ValueView::Bool(b),
        ASTValue::VarRef(s) => ValueView::VarRef(s@),
        ASTValue::FuncCall { name, args } => ValueView::FuncCall {
            name: name@,
            args: Seq::new(
                args.len() as nat,
                |i: int|
                    if 0 <= i < args.len() {
                        value_view(args[i])
                    } else {
                        arbitrary()
                    },
            ),
        },
        ASTValue::LessThan(a, b) => ValueView::LessThan(
            Box::new(value_view(*a)),
            Box::new(value_view(*b)),
        ),
        ASTValue::GreaterThan(a, b) => ValueView::GreaterThan(
            Box::new(value_view(*a)),
            Box::new(value_view(*b)),
        ),
        ASTValue::Equal(a, b) => ValueView::Equal(
            Box::new(value_view(*a)),
            Box::new(value_view(*b)),
        ),
        ASTValue::EqualEqual(a, b) => ValueView::EqualEqual(
            Box::new(value_view(*a)),
            Box::new(value_view(*b)),
        ),
        ASTValue::NotEqual(a, b) => ValueView::NotEqual(
            Box::new(value_view(*a)),
            Box::new(value_view(*b)),
        ),
        ASTValue::LessEqual(a, b) => ValueView::LessEqual(
            Box::new(value_view(*a)),
            Box::new(value_view(*b)),
        ),
        ASTValue::GreaterEqual(a, b) => ValueView::GreaterEqual(
            Box::new(value_view(*a)),
            Box::new(value_view(*b)),
        ),
    }
}

impl View for ASTValue {
    type V = ValueView;

    open spec fn view(&self) -> ValueView {
        value_view(*self)
    }
}

/// The values of a sequence of expressions.
pub open spec fn view_values(vs: Seq<ASTValue>) -> Seq<ValueView> {
    Seq::new(vs.len(), |i: int| value_view(vs[i]))
}

/// The mathematical value of a statement.
pub open spec fn node_view(n: AST) -> NodeView
    decreases n, 0nat,
{
    match n {
        AST::Import(s) => NodeView::Import(s@),
        AST::VarDecl(ty, name, value) => NodeView::VarDecl(ty@, name@, value_view(value)),
        AST::VarRef(s) => NodeView::VarRef(s@),
        AST::Literal(v) => NodeView::Literal(value_view(v)),
        AST::NewLine => NodeView::NewLine,
        AST::Call { object, method, args } => NodeView::Call {
            object: object@,
            method: method@,
            args: nodes_view(args),
        },
        AST::Return(v) => NodeView::Return(value_view(v)),
        AST::FuncDef { name, params, return_type, body } => NodeView::FuncDef {
            name: name@,
            params: view_params(params@),
            return_type: view_opt_text(return_type),
            body: nodes_view(body),
        },
        AST::If { condition, then_body, elif_branches, else_body } => NodeView::If {
            condition: value_view(condition),
            then_body: nodes_view(then_body),
            elif_branches: Seq::new(
                elif_branches.len() as nat,
                |i: int|
                    if 0 <= i < elif_branches.len() {
                        (value_view(elif_branches[i].0), nodes_view(elif_branches[i].1))
                    } else {
                        arbitrary()
                    },
            ),
            else_body: match else_body {
                Some(b) => Some(nodes_view(b)),
                None => None,
            },
        },
    }
}

/// The values of the statements of a vector.
pub open spec fn nodes_view(v: Vec<AST>) -> Seq<NodeView>
    decreases v, 1nat,
{
    Seq::new(
        v.len() as nat,
        |i: int|
            if 0 <= i < v.len() {
                node_view(v[i])
            } else {
                arbitrary()
            },
    )
}

/// The value of one `elif` clause.
pub open spec fn view_clause(c: (ASTValue, Vec<AST>)) -> (ValueView, Seq<NodeView>) {
    (value_view(c.0), nodes_view(c.1))
}

/// The values of a sequence of `elif` clauses.
pub open spec fn view_clauses(cs: Seq<(ASTValue, Vec<AST>)>) -> Seq<(ValueView, Seq<NodeView>)> {
    Seq::new(cs.len(), |i: int| view_clause(cs[i]))
}

/// The values of a parameter list: pairs of name and type name.
pub open spec fn view_params(ps: Seq<(String, String)>) -> Seq<(Seq<char>, Seq<char>)> {
    Seq::new(ps.len(), |i: int| (ps[i].0@, ps[i].1@))
}

/// The value of a text that may be absent.
pub open spec fn view_opt_text(o: Option<String>) -> Option<Seq<char>> {
    match o {
        Some(s) => Some(s@),
        None => None,
    }
}

/// The value of a body that may be absent.
pub open spec fn view_opt_nodes(o: Option<Vec<AST>>) -> Option<Seq<NodeView>> {
    match o {
        Some(b) => Some(view_nodes(b@)),
        None => None,
    }
}

impl View for AST {
    type V = NodeView;

    open spec fn view(&self) -> NodeView {
        node_view(*self)
    }
}

/// The values of a sequence of statements.
pub open spec fn view_nodes(ns: Seq<AST>) -> Seq<NodeView> {
    Seq::new(ns.len(), |i: int| node_view(ns[i]))
}

/// The value of a vector of statements is the values of its elements.
pub proof fn lemma_nodes_view(v: Vec<AST>)
    ensures
        nodes_view(v) == view_nodes(v@),
{
}

/// The value of a call's arguments is the values of its elements.
pub proof fn lemma_call_view(name: String, args: Vec<ASTValue>)
    ensures
        value_view(ASTValue::FuncCall { name, args }) == (ValueView::FuncCall {
            name: name@,
            args: view_values(args@),
        }),
{
    assert(value_view(ASTValue::FuncCall { name, args })->FuncCall_args =~= view_values(args@));
}

/// The value of a conditional is made of the values of its parts.
pub proof fn lemma_if_view(
    condition: ASTValue,
    then_body: Vec<AST>,
    elif_branches: Vec<(ASTValue, Vec<AST>)>,
    else_body: Option<Vec<AST>>,
)
    ensures
        node_view(AST::If { condition, then_body, elif_branches, else_body }) == (NodeView::If {
            condition: value_view(condition),
            then_body: view_nodes(then_body@),
            elif_branches: view_clauses(elif_branches@),
            else_body: view_opt_nodes(else_body),
        }),
{
    let n = node_view(AST::If { condition, then_body, elif_branches, else_body });
    lemma_nodes_view(then_body);
    match else_body {
        Some(b) => lemma_nodes_view(b),
        None => {},
    }
    assert(n->If_elif_branches =~= view_clauses(elif_branches@));
}

/// The value of a function definition is made of the values of its parts.
pub proof fn lemma_function_view(
    name: String,
    params: Vec<(String, String)>,
    return_type: Option<String>,
    body: Vec<AST>,
)
    ensures
        node_view(AST::FuncDef { name, params, return_type, body }) == (NodeView::FuncDef {
            name: name@,
            params: view_params(params@),
            return_type: view_opt_text(return_type),
            body: view_nodes(body@),
        }),
{
    lemma_nodes_view(body);
}

/// A copy of an expression, with the same value.
#[verifier::loop_isolation(false)]
pub fn clone_value(e: &ASTValue) -> (r: ASTValue)
    ensures
        r@ == e@,
    decreases *e,
{
    match e {
        ASTValue::Str(s) => ASTValue::Str(s.clone()),
        ASTValue::Int(n) => ASTValue::Int(*n),
        ASTValue::Int64(n) => ASTValue::Int64(*n),
        ASTValue::Float32(s) => ASTValue::Float32(s.clone()),
        ASTValue::Float64(s) => ASTValue::Float64(s.clone()),
        ASTValue::Bool(b) => ASTValue::Bool(*b),
        ASTValue::VarRef(s) => ASTValue::VarRef(s.clone()),
        ASTValue::FuncCall { name, args } => {
            let mut copy: Vec<ASTValue> = Vec::new();
            let mut i: usize = 0;
            while i < args.len()
                invariant
                    i <= args.len(),
                    copy.len() == i,
                    forall|k: int| 0 <= k < i ==> value_view(#[trigger] copy[k]) == value_view(args[k]),
                decreases args.len() - i,
            {
                let c = clone_value(&args[i]);
                copy.push(c);
                i += 1;
            }
            proof {
                lemma_call_view(*name, *args);
                lemma_call_view(*name, copy);
                assert(view_values(copy@) =~= view_values(args@));
            }
            ASTValue::FuncCall { name: name.clone(), args: copy }
        },
        ASTValue::LessThan(a, b) => ASTValue::LessThan(
            Box::new(clone_value(a)),
            Box::new(clone_value(b)),
        ),
        ASTValue::GreaterThan(a, b) => ASTValue::GreaterThan(
            Box::new(clone_value(a)),
            Box::new(clone_value(b)),
        ),
        ASTValue::Equal(a, b) => ASTValue::Equal(
            Box::new(clone_value(a)),
            Box::new(clone_value(b)),
        ),
        ASTValue::EqualEqual(a, b) => ASTValue::EqualEqual(
            Box::new(clone_value(a)),
            Box::new(clone_value(b)),
        ),
        ASTValue::NotEqual(a, b) => ASTValue::NotEqual(
            Box::new(clone_value(a)),
            Box::new(clone_value(b)),
        ),
        ASTValue::LessEqual(a, b) => ASTValue::LessEqual(
            Box::new(clone_value(a)),
            Box::new(clone_value(b)),
        ),
        ASTValue::GreaterEqual(a, b) => ASTValue::GreaterEqual(
            Box::new(clone_value(a)),
            Box::new(clone_value(b)),
        ),
    }
}

impl Clone for ASTValue {
    /// A copy with the same value.
    fn clone(&self) -> (r: Self)
        ensures
            r@ == self@,
    {
        clone_value(self)
    }
}

/// A copy of a list of statements, with the same values.
#[verifier::loop_isolation(false)]
pub fn clone_nodes(nodes: &Vec<AST>) -> (r: Vec<AST>)
    ensures
        view_nodes(r@) == view_nodes(nodes@),
    decreases *nodes, 1nat,
{
    let mut copy: Vec<AST> = Vec::new();
    let mut i: usize = 0;
    while i < nodes.len()
        invariant
            i <= nodes.len(),
            copy.len() == i,
            forall|k: int| 0 <= k < i ==> node_view(#[trigger] copy[k]) == node_view(nodes[k]),
        decreases nodes.len() - i,
    {
        let c = clone_node(&nodes[i]);
        copy.push(c);
        i += 1;
    }
    assert(view_nodes(copy@) =~= view_nodes(nodes@));
    copy
}

/// A copy of a statement, with the same value.
#[verifier::loop_isolation(false)]
pub fn clone_node(n: &AST) -> (r: AST)
    ensures
        r@ == n@,
    decreases *n, 0nat,
{
    match n {
        AST::Import(s) => AST::Import(s.clone()),
        AST::VarDecl(ty, name, value) => AST::VarDecl(ty.clone(), name.clone(), clone_value(value)),
        AST::VarRef(s) => AST::VarRef(s.clone()),
        AST::Literal(v) => AST::Literal(clone_value(v)),
        AST::NewLine => AST::NewLine,
        AST::Call { object, method, args } => {
            let copy = clone_nodes(args);
            proof {
                lemma_nodes_view(*args);
                lemma_nodes_view(copy);
            }
            AST::Call { object: object.clone(), method: method.clone(), args: copy }
        },
        AST::Return(v) => AST::Return(clone_value(v)),
        AST::FuncDef { name, params, return_type, body } => {
            let mut ps: Vec<(String, String)> = Vec::new();
            let mut i: usize = 0;
            while i < params.len()
                invariant
                    i <= params.len(),
                    ps.len() == i,
                    forall|k: int|
                        0 <= k < i ==> (#[trigger] ps[k]).0@ == params[k].0@ && ps[k].1@
                            == params[k].1@,
                decreases params.len() - i,
            {
                ps.push((params[i].0.clone(), params[i].1.clone()));
                i += 1;
            }
            let rt = match return_type {
                Some(t) => Some(t.clone()),
                None => None,
            };
            let b = clone_nodes(body);
            proof {
                assert(view_params(ps@) =~= view_params(params@));
                lemma_function_view(*name, *params, *return_type, *body);
                lemma_function_view(*name, ps, rt, b);
            }
            AST::FuncDef { name: name.clone(), params: ps, return_type: rt, body: b }
        },
        AST::If { condition, then_body, elif_branches, else_body } => {
            let c = clone_value(condition);
            let t = clone_nodes(then_body);
            let mut es: Vec<(ASTValue, Vec<AST>)> = Vec::new();
            let mut i: usize = 0;
            while i < elif_branches.len()
                invariant
                    i <= elif_branches.len(),
                    es.len() == i,
                    forall|k: int|
                        0 <= k < i ==> view_clause(#[trigger] es[k]) == view_clause(
                            elif_branches[k],
                        ),
                decreases elif_branches.len() - i,
            {
                let clause = &elif_branches[i];
                let cc = clone_value(&clause.0);
                let cb = clone_nodes(&clause.1);
                proof {
                    lemma_nodes_view(clause.1);
                    lemma_nodes_view(cb);
                }
                es.push((cc, cb));
                i += 1;
            }
            let eb = match else_body {
                Some(body) => Some(clone_nodes(body)),
                None => None,
            };
            proof {
                assert(view_clauses(es@) =~= view_clauses(elif_branches@));
                lemma_if_view(*condition, *then_body, *elif_branches, *else_body);
                lemma_if_view(c, t, es, eb);
            }
            AST::If { condition: c, then_body: t, elif_branches: es, else_body: eb }
        },
    }
}

impl Clone for AST {
    /// A copy with the same value.
    fn clone(&self) -> (r: Self)
        ensures
            r@ == self@,
    {
        clone_node(self)
    }
}

} // verus!
