//! The analyzed value tree: shared, copy-on-write nodes whose identifiers
//! are compared by tag, and its mathematical model.
use std::collections::BTreeMap;
use std::sync::Arc;
use vstd::prelude::*;
use crate::syntax::{self as p, BinaryOp, Expr, ExprValue, Number, SingleOp};

verus! {

broadcast use vstd::std_specs::vec::group_vec_axioms, vstd::seq::group_seq_axioms;

// ---------------------------------------------------------------------------
// Model
// ---------------------------------------------------------------------------

/// What a node is, apart from its children.
pub enum Kind {
    Number(Number),
    Str(Seq<char>),
    Pipe,
    Op1(SingleOp),
    Op2(BinaryOp),
    And,
    Or,
    /// Binds the identifier with this name and tag to the only child.
    Assign(Seq<char>, usize),
    Call,
    List,
    /// Children: condition, then-branch and, where present, else-branch.
    If,
    /// A reference; its only child, where present, is the resolved binding.
    Ident(Seq<char>, usize),
    This,
    Null,
}

/// The model of a tree: a node kind, the ordered children and the start of
/// the source span.
pub struct Tree {
    pub kind: Kind,
    pub children: Seq<Tree>,
    pub location: usize,
}

pub open spec fn leaf(kind: Kind, location: usize) -> Tree {
    Tree { kind, children: Seq::empty(), location }
}

// ---------------------------------------------------------------------------
// Value tree
// ---------------------------------------------------------------------------

/// An identifier occurrence. Two identifiers are equal when their tags are,
/// whatever their names; the name is kept for display.
#[derive(Debug, Clone)]
pub struct Ident {
    pub name: Arc<String>,
    pub id: usize,
    /// The value bound by the nearest enclosing assignment, once resolved.
    pub value: Option<Arc<Value>>,
}

impl PartialEq for Ident {
    fn eq(&self, other: &Ident) -> (r: bool) {
        self.id == other.id
    }
}

impl vstd::std_specs::cmp::PartialEqSpecImpl for Ident {
    open spec fn obeys_eq_spec() -> bool {
        true
    }

    open spec fn eq_spec(&self, other: &Ident) -> bool {
        self.id == other.id
    }
}

impl Eq for Ident {}

/// The order of identifiers: by tag.
pub open spec fn tag_order(a: usize, b: usize) -> Option<core::cmp::Ordering> {
    if a < b {
        Some(core::cmp::Ordering::Less)
    } else if a > b {
        Some(core::cmp::Ordering::Greater)
    } else {
        Some(core::cmp::Ordering::Equal)
    }
}

impl PartialOrd for Ident {
    fn partial_cmp(&self, other: &Ident) -> (r: Option<core::cmp::Ordering>) {
        if self.id < other.id {
            Some(core::cmp::Ordering::Less)
        } else if self.id > other.id {
            Some(core::cmp::Ordering::Greater)
        } else {
            Some(core::cmp::Ordering::Equal)
        }
    }
}

impl vstd::std_specs::cmp::PartialOrdSpecImpl for Ident {
    open spec fn obeys_partial_cmp_spec() -> bool {
        true
    }

    open spec fn partial_cmp_spec(&self, other: &Ident) -> Option<core::cmp::Ordering> {
        tag_order(self.id, other.id)
    }
}

impl Ident {
    pub fn name(&self) -> (r: &str)
        ensures
            r@ == self.name@,
    {
        self.name.as_str()
    }

    pub fn id(&self) -> (r: usize)
        ensures
            r == self.id,
    {
        self.id
    }

    /// The unresolved identifier of a raw-tree occurrence.
    pub fn from_raw(i: &p::Ident) -> (r: Ident)
        ensures
            r.name@ == i.name@,
            r.id == i.id,
            r.value is None,
    {
        Ident { name: i.name.clone(), id: i.id, value: None }
    }
}

#[derive(Debug, Clone, PartialEq, Eq)]
pub struct If {
    pub cond: Arc<Value>,
    pub yes: Arc<Value>,
    pub no: Option<Arc<Value>>,
}

#[derive(Debug, Clone, PartialEq, Eq)]
pub enum ValueData {
    Number(Number),
    String(Arc<String>),
    Pipe(Vec<Arc<Value>>),
    Op1(SingleOp, Arc<Value>),
    Op2(BinaryOp, Arc<Value>, Arc<Value>),
    And(Arc<Value>, Arc<Value>),
    Or(Arc<Value>, Arc<Value>),
    Assign(Ident, Arc<Value>),
    Call(Arc<Value>),
    List(Vec<Arc<Value>>),
    If(If),
    Ident(Ident),
    This,
    Null,
}

#[derive(Debug, Clone, PartialEq, Eq)]
pub struct Value {
    pub data: ValueData,
    pub location: usize,
}

impl Default for ValueData {
    fn default() -> (r: ValueData)
        ensures
            r == ValueData::Null,
    {
        ValueData::Null
    }
}

impl Default for Value {
    fn default() -> (r: Value)
        ensures
            r@ == leaf(Kind::Null, 0),
    {
        Value { data: ValueData::Null, location: 0 }
    }
}

/// One frame of evaluation: values bound by name, and the current subject
/// of the pipe.
#[derive(Debug, Clone)]
struct Scope {
    names: BTreeMap<Arc<String>, Arc<Value>>,
    this: Value,
}

/// The frames of an evaluation, innermost last; the analyzed tree is what an
/// evaluator walks with it.
#[derive(Debug, Clone)]
pub struct Runtime {
    scopes: Vec<Scope>,
}

impl Runtime {
    /// Number of open frames.
    pub closed spec fn depth(&self) -> nat {
        self.scopes@.len()
    }

    /// The subject of the innermost frame.
    pub closed spec fn subject(&self) -> Tree {
        self.scopes@.last().this@
    }

    /// Whether no frame binds a name.
    pub closed spec fn unbound(&self) -> bool {
        forall|i: int| 0 <= i < self.scopes@.len() ==> (#[trigger] self.scopes@[i]).names@.is_empty()
    }
}

impl Default for Runtime {
    /// One frame, binding nothing, whose subject is the empty value.
    fn default() -> (r: Runtime)
        ensures
            r.depth() == 1,
            r.subject() == leaf(Kind::Null, 0),
            r.unbound(),
    {
        let mut scopes: Vec<Scope> = Vec::new();
        scopes.push(Scope { names: BTreeMap::new(), this: Value::default() });
        Runtime { scopes }
    }
}

/// The model of a value node.
pub open spec fn tree_of(v: Value) -> Tree
    decreases v, 0int,
{
    let loc = v.location;
    match v.data {
        ValueData::Number(n) => leaf(Kind::Number(n), loc),
        ValueData::String(s) => leaf(Kind::Str(s@), loc),
        ValueData::Pipe(xs) => Tree { kind: Kind::Pipe, children: trees_of(xs, xs.len() as int), location: loc },
        ValueData::Op1(op, a) => Tree { kind: Kind::Op1(op), children: seq![tree_of(*a)], location: loc },
        ValueData::Op2(op, a, b) => Tree {
            kind: Kind::Op2(op),
            children: seq![tree_of(*a), tree_of(*b)],
            location: loc,
        },
        ValueData::And(a, b) => Tree { kind: Kind::And, children: seq![tree_of(*a), tree_of(*b)], location: loc },
        ValueData::Or(a, b) => Tree { kind: Kind::Or, children: seq![tree_of(*a), tree_of(*b)], location: loc },
        ValueData::Assign(i, a) => Tree {
            kind: Kind::Assign(i.name@, i.id),
            children: seq![tree_of(*a)],
            location: loc,
        },
        ValueData::Call(a) => Tree { kind: Kind::Call, children: seq![tree_of(*a)], location: loc },
        ValueData::List(xs) => Tree { kind: Kind::List, children: trees_of(xs, xs.len() as int), location: loc },
        ValueData::If(x) => Tree {
            kind: Kind::If,
            children: match x.no {
                Some(n) => seq![tree_of(*x.cond), tree_of(*x.yes), tree_of(*n)],
                None => seq![tree_of(*x.cond), tree_of(*x.yes)],
            },
            location: loc,
        },
        ValueData::Ident(i) => Tree {
            kind: Kind::Ident(i.name@, i.id),
            children: match i.value {
                Some(b) => seq![tree_of(*b)],
                None => Seq::empty(),
            },
            location: loc,
        },
        ValueData::This => leaf(Kind::This, loc),
        ValueData::Null => leaf(Kind::Null, loc),
    }
}

/// The models of the first `n` nodes of `xs`.
pub open spec fn trees_of(xs: Vec<Arc<Value>>, n: int) -> Seq<Tree>
    decreases xs, n,
{
    if n <= 0 || n > xs.len() {
        Seq::empty()
    } else {
        trees_of(xs, n - 1).push(tree_of(*xs[n - 1]))
    }
}

impl View for Value {
    type V = Tree;

    open spec fn view(&self) -> Tree {
        tree_of(*self)
    }
}

pub proof fn lemma_trees_of(xs: Vec<Arc<Value>>, n: int)
    requires
        0 <= n <= xs.len(),
    ensures
        trees_of(xs, n).len() == n,
        forall|j: int| 0 <= j < n ==> #[trigger] trees_of(xs, n)[j] == tree_of(*xs[j]),
    decreases n,
{
    if n > 0 {
        lemma_trees_of(xs, n - 1);
    }
}

// ---------------------------------------------------------------------------
// The raw tree's model, and conversion
// ---------------------------------------------------------------------------

/// The model of a raw-tree node; identifiers carry no binding yet.
pub open spec fn expr_tree(e: Expr) -> Tree
    decreases e, 0int,
{
    let loc = e.location.0;
    match *e.value {
        ExprValue::Pipe(xs) => Tree { kind: Kind::Pipe, children: expr_trees(xs, xs.len() as int), location: loc },
        ExprValue::Op1(op, a) => Tree { kind: Kind::Op1(op), children: seq![expr_tree(a)], location: loc },
        ExprValue::Op2(op, a, b) => Tree {
            kind: Kind::Op2(op),
            children: seq![expr_tree(a), expr_tree(b)],
            location: loc,
        },
        ExprValue::And(a, b) => Tree { kind: Kind::And, children: seq![expr_tree(a), expr_tree(b)], location: loc },
        ExprValue::Or(a, b) => Tree { kind: Kind::Or, children: seq![expr_tree(a), expr_tree(b)], location: loc },
        ExprValue::If(x) => Tree {
            kind: Kind::If,
            children: match x.no {
                Some(n) => seq![expr_tree(x.cond), expr_tree(x.yes), expr_tree(n)],
                None => seq![expr_tree(x.cond), expr_tree(x.yes)],
            },
            location: loc,
        },
        ExprValue::Call(a) => Tree { kind: Kind::Call, children: seq![expr_tree(a)], location: loc },
        ExprValue::List(xs) => Tree { kind: Kind::List, children: expr_trees(xs, xs.len() as int), location: loc },
        ExprValue::Literal(p::Literal::String(s)) => leaf(Kind::Str(s@), loc),
        ExprValue::Literal(p::Literal::Number(n)) => leaf(Kind::Number(n), loc),
        ExprValue::Ident(i) => leaf(Kind::Ident(i.name@, i.id), loc),
        ExprValue::Assign(i, a) => Tree {
            kind: Kind::Assign(i.name@, i.id),
            children: seq![expr_tree(a)],
            location: loc,
        },
        ExprValue::This => leaf(Kind::This, loc),
    }
}

/// The models of the first `n` raw nodes of `xs`.
pub open spec fn expr_trees(xs: Vec<Expr>, n: int) -> Seq<Tree>
    decreases xs, n,
{
    if n <= 0 || n > xs.len() {
        Seq::empty()
    } else {
        expr_trees(xs, n - 1).push(expr_tree(xs[n - 1]))
    }
}

impl View for Expr {
    type V = Tree;

    open spec fn view(&self) -> Tree {
        expr_tree(*self)
    }
}

fn shared(e: &Expr) -> (r: Arc<Value>)
    ensures
        (*r)@ == e@,
    decreases e, 1int,
{
    Arc::new(Value::from_expr(e))
}

fn convert_all(xs: &Vec<Expr>) -> (r: Vec<Arc<Value>>)
    ensures
        r.len() == xs.len(),
        trees_of(r, r.len() as int) == expr_trees(*xs, xs.len() as int),
    decreases xs, 2int,
{
    let mut r: Vec<Arc<Value>> = Vec::new();
    let mut i: usize = 0;
    while i < xs.len()
        invariant
            i <= xs.len(),
            r.len() == i,
            trees_of(r, i as int) == expr_trees(*xs, i as int),
        decreases xs.len() - i,
    {
        let ghost before = r;
        let v = shared(&xs[i]);
        r.push(v);
        proof {
            lemma_trees_of(before, i as int);
            lemma_trees_of(r, i as int);
            lemma_trees_of(r, i + 1);
            assert(forall|j: int| 0 <= j < i ==> r@[j] == before@[j]);
            assert(trees_of(r, i as int) =~= trees_of(before, i as int));
        }
        i = i + 1;
    }
    r
}

impl Value {
    /// The value tree of a raw tree: the same shape, identifiers unresolved,
    /// children shared through reference counting.
    pub fn from_expr(e: &Expr) -> (r: Value)
        ensures
            r@ == e@,
        decreases e, 0int,
    {
        let data = match &*e.value {
            ExprValue::Pipe(xs) => ValueData::Pipe(convert_all(xs)),
            ExprValue::Op1(op, a) => ValueData::Op1(*op, shared(a)),
            ExprValue::Op2(op, a, b) => ValueData::Op2(*op, shared(a), shared(b)),
            ExprValue::And(a, b) => ValueData::And(shared(a), shared(b)),
            ExprValue::Or(a, b) => ValueData::Or(shared(a), shared(b)),
            ExprValue::If(x) => {
                let no = match &x.no {
                    Some(n) => Some(shared(n)),
                    None => None,
                };
                ValueData::If(If { cond: shared(&x.cond), yes: shared(&x.yes), no })
            },
            ExprValue::Call(a) => ValueData::Call(shared(a)),
            ExprValue::List(xs) => ValueData::List(convert_all(xs)),
            ExprValue::Literal(p::Literal::String(s)) => ValueData::String(s.clone()),
            ExprValue::Literal(p::Literal::Number(n)) => ValueData::Number(*n),
            ExprValue::Ident(i) => ValueData::Ident(Ident::from_raw(i)),
            ExprValue::Assign(i, a) => ValueData::Assign(Ident::from_raw(i), shared(a)),
            ExprValue::This => ValueData::This,
        };
        Value { data, location: e.location.0 }
    }
}

/// Relies on `Arc::make_mut`: a node held by other owners too is cloned
/// first, a node held once is handed out in place; either way the contents
/// are those of the node (the clone is the derived, field-by-field one).
#[verifier::external_body]
pub fn make_mut(a: &mut Arc<Value>) -> (r: &mut Value)
    ensures
        *r == **old(a),
        **final(a) == *final(r),
{
    Arc::make_mut(a)
}

} // verus!
