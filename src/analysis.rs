//! Scope resolution: binds every identifier reference of a value tree to the
//! value of its nearest enclosing assignment.
use std::collections::BTreeMap;
use std::sync::Arc;
use vstd::prelude::*;
use crate::syntax::append;
use crate::runtime::{If, lemma_trees_of, make_mut, tree_of, trees_of, Ident, Kind, Tree, Value, ValueData};

verus! {

broadcast use vstd::std_specs::vec::group_vec_axioms, vstd::seq::group_seq_axioms,
    vstd::std_specs::btree::group_btree_axioms, vstd::laws_cmp::group_laws_cmp;

// ---------------------------------------------------------------------------
// Model
// ---------------------------------------------------------------------------

/// The model of a failed analysis: the identifier that nothing binds, and the
/// start of its span.
pub struct Undefined {
    pub name: Seq<char>,
    pub id: usize,
    pub location: usize,
}

/// The binding of tag `id` in the innermost frame that has one.
pub open spec fn lookup(frames: Seq<Map<usize, Tree>>, id: usize) -> Option<Tree>
    decreases frames.len(),
{
    if frames.len() == 0 {
        None
    } else if frames.last().contains_key(id) {
        Some(frames.last()[id])
    } else {
        lookup(frames.drop_last(), id)
    }
}

/// The frames after analyzing `t`: an assignment binds its identifier in the
/// innermost frame; every other node leaves the frames as they were.
pub open spec fn bind(frames: Seq<Map<usize, Tree>>, t: Tree) -> Seq<Map<usize, Tree>> {
    match t.kind {
        Kind::Assign(_, id) => if frames.len() > 0 && t.children.len() == 1 {
            frames.update(frames.len() - 1, frames.last().insert(id, t.children[0]))
        } else {
            frames
        },
        _ => frames,
    }
}

/// The result of analyzing `t` under `frames`: `t` with every reference
/// resolved, or the first reference that nothing binds.
pub open spec fn analyzed(frames: Seq<Map<usize, Tree>>, t: Tree) -> Result<Tree, Undefined>
    decreases t, 0int,
{
    match t.kind {
        Kind::Pipe | Kind::List => match sequence(
            frames.push(Map::empty()),
            t.children,
            t.children.len() as int,
        ).1 {
            Ok(cs) => Ok(Tree { kind: t.kind, children: cs, location: t.location }),
            Err(u) => Err(u),
        },
        Kind::Op1(_) | Kind::Op2(_) | Kind::And | Kind::Or | Kind::Call | Kind::If => match isolated(
            frames,
            t.children,
            t.children.len() as int,
        ) {
            Ok(cs) => Ok(Tree { kind: t.kind, children: cs, location: t.location }),
            Err(u) => Err(u),
        },
        Kind::Ident(name, id) => match lookup(frames, id) {
            Some(b) => Ok(Tree { kind: t.kind, children: seq![b], location: t.location }),
            None => Err(Undefined { name, id, location: t.location }),
        },
        _ => Ok(t),
    }
}

/// The first `n` children analyzed in order in one frame, each seeing the
/// bindings of those before it; with the frames that result.
pub open spec fn sequence(frames: Seq<Map<usize, Tree>>, cs: Seq<Tree>, n: int) -> (Seq<
    Map<usize, Tree>,
>, Result<Seq<Tree>, Undefined>)
    decreases cs, n,
{
    if n <= 0 || n > cs.len() {
        (frames, Ok(Seq::empty()))
    } else {
        let (f, r) = sequence(frames, cs, n - 1);
        match r {
            Err(u) => (f, Err(u)),
            Ok(done) => match analyzed(f, cs[n - 1]) {
                Ok(x) => (bind(f, cs[n - 1]), Ok(done.push(x))),
                Err(u) => (f, Err(u)),
            },
        }
    }
}

/// The first `n` children analyzed each in a fresh frame of its own.
pub open spec fn isolated(frames: Seq<Map<usize, Tree>>, cs: Seq<Tree>, n: int) -> Result<
    Seq<Tree>,
    Undefined,
>
    decreases cs, n,
{
    if n <= 0 || n > cs.len() {
        Ok(Seq::empty())
    } else {
        match isolated(frames, cs, n - 1) {
            Err(u) => Err(u),
            Ok(done) => match analyzed(frames.push(Map::empty()), cs[n - 1]) {
                Ok(x) => Ok(done.push(x)),
                Err(u) => Err(u),
            },
        }
    }
}

/// `r` and the tree `after` report the outcome `expected`.
pub open spec fn reports(expected: Result<Tree, Undefined>, r: Result<(), Error>, after: Value) -> bool {
    match expected {
        Ok(t) => r is Ok && after@ == t,
        Err(u) => r matches Err(e) && e@ == u,
    }
}

pub proof fn lemma_bind_frames(frames: Seq<Map<usize, Tree>>, t: Tree)
    requires
        frames.len() > 0,
    ensures
        bind(frames, t).len() == frames.len(),
        bind(frames, t).drop_last() == frames.drop_last(),
{
    assert(bind(frames, t).drop_last() =~= frames.drop_last());
}

/// Once the in-order analysis of some children fails, it fails the same way
/// with more children.
pub proof fn lemma_sequence_err(frames: Seq<Map<usize, Tree>>, cs: Seq<Tree>, k: int, m: int)
    requires
        0 <= k <= m <= cs.len(),
        sequence(frames, cs, k).1 is Err,
    ensures
        sequence(frames, cs, m).1 == sequence(frames, cs, k).1,
    decreases m - k,
{
    if m > k {
        lemma_sequence_err(frames, cs, k, m - 1);
    }
}

/// Once the separate analysis of some children fails, it fails the same way
/// with more children.
pub proof fn lemma_isolated_err(frames: Seq<Map<usize, Tree>>, cs: Seq<Tree>, k: int, m: int)
    requires
        0 <= k <= m <= cs.len(),
        isolated(frames, cs, k) is Err,
    ensures
        isolated(frames, cs, m) == isolated(frames, cs, k),
    decreases m - k,
{
    if m > k {
        lemma_isolated_err(frames, cs, k, m - 1);
    }
}

pub proof fn lemma_isolated_one(frames: Seq<Map<usize, Tree>>, t: Tree)
    ensures
        isolated(frames, seq![t], 1) == match analyzed(frames.push(Map::empty()), t) {
            Ok(x) => Ok(seq![x]),
            Err(u) => Err::<Seq<Tree>, Undefined>(u),
        },
{
    reveal_with_fuel(isolated, 2);
    assert(seq![t][0] == t);
    if let Ok(x) = analyzed(frames.push(Map::empty()), t) {
        assert(Seq::<Tree>::empty().push(x) =~= seq![x]);
    }
}

// ---------------------------------------------------------------------------
// Errors
// ---------------------------------------------------------------------------

#[derive(Debug, Clone)]
pub enum ErrorInfo {
    UndefinedIdent(Ident),
}

/// A failed analysis, with the start of the offending node's span.
#[derive(Debug, Clone)]
pub struct Error {
    pub error: ErrorInfo,
    pub location: usize,
}

impl View for Error {
    type V = Undefined;

    open spec fn view(&self) -> Undefined {
        match self.error {
            ErrorInfo::UndefinedIdent(i) => Undefined { name: i.name@, id: i.id, location: self.location },
        }
    }
}

impl ErrorInfo {
    /// The message shown to a user.
    pub fn message(&self) -> (r: String)
        ensures
            match self {
                ErrorInfo::UndefinedIdent(i) => r@ == "undefined `"@ + i.name@ + "` in scope"@,
            },
    {
        match self {
            ErrorInfo::UndefinedIdent(i) => {
                let mut r = String::new();
                append(&mut r, "undefined `");
                append(&mut r, i.name());
                append(&mut r, "` in scope");
                assert(r@ =~= "undefined `"@ + i.name@ + "` in scope"@);
                r
            },
        }
    }
}

impl Error {
    /// The message shown to a user.
    pub fn message(&self) -> (r: String)
        ensures
            r@ == "undefined `"@ + self@.name + "` in scope"@,
    {
        self.error.message()
    }

    pub fn location(&self) -> (r: usize)
        ensures
            r == self@.location,
    {
        self.location
    }
}

// ---------------------------------------------------------------------------
// The pass
// ---------------------------------------------------------------------------

/// The open scopes of one analysis, innermost last, each mapping identifier
/// tags to the values bound to them.
#[derive(Debug, Clone)]
pub struct AnalysisContext {
    scopes: Vec<BTreeMap<usize, Arc<Value>>>,
}

impl AnalysisContext {
    /// The model of the scope stack.
    pub closed spec fn frames(&self) -> Seq<Map<usize, Tree>> {
        Seq::new(
            self.scopes@.len(),
            |i: int| self.scopes@[i]@.map_values(|a: Arc<Value>| (*a)@),
        )
    }

    /// The scope stack is never empty.
    pub closed spec fn wf(&self) -> bool {
        self.scopes@.len() > 0
    }

    pub fn new() -> (r: AnalysisContext)
        ensures
            r.wf(),
            r.frames() == seq![Map::<usize, Tree>::empty()],
    {
        let mut scopes: Vec<BTreeMap<usize, Arc<Value>>> = Vec::new();
        scopes.push(BTreeMap::new());
        let r = AnalysisContext { scopes };
        assert(r.frames()[0] =~= Map::<usize, Tree>::empty());
        assert(r.frames() =~= seq![Map::<usize, Tree>::empty()]);
        r
    }

    fn push_scope(&mut self)
        requires
            old(self).wf(),
        ensures
            final(self).wf(),
            final(self).frames() == old(self).frames().push(Map::empty()),
    {
        self.scopes.push(BTreeMap::new());
        assert(self.frames()[self.frames().len() - 1] =~= Map::<usize, Tree>::empty());
        assert(self.frames() =~= old(self).frames().push(Map::empty()));
    }

    fn pop_scope(&mut self)
        requires
            old(self).scopes@.len() > 1,
        ensures
            final(self).wf(),
            final(self).frames() == old(self).frames().drop_last(),
    {
        self.scopes.pop();
        assert(self.frames() =~= old(self).frames().drop_last());
    }

    /// The value bound to tag `id` in the innermost scope that binds it.
    fn find(&self, id: usize) -> (r: Option<Arc<Value>>)
        ensures
            match lookup(self.frames(), id) {
                Some(t) => r matches Some(b) && (*b)@ == t,
                None => r is None,
            },
    {
        let mut k: usize = self.scopes.len();
        assert(self.frames().subrange(0, k as int) =~= self.frames());
        while k > 0
            invariant
                k <= self.scopes@.len(),
                lookup(self.frames(), id) == lookup(self.frames().subrange(0, k as int), id),
            decreases k,
        {
            k = k - 1;
            let ghost f = self.frames().subrange(0, k + 1);
            assert(f.drop_last() =~= self.frames().subrange(0, k as int));
            assert(f.last() == self.scopes@[k as int]@.map_values(|a: Arc<Value>| (*a)@));
            match self.scopes[k].get(&id) {
                Some(b) => {
                    return Some(b.clone());
                },
                None => {},
            }
        }
        None
    }

    /// Binds tag `id` to `v` in the innermost scope.
    fn bind_here(&mut self, id: usize, v: Arc<Value>)
        requires
            old(self).wf(),
        ensures
            final(self).wf(),
            final(self).frames() == old(self).frames().update(
                old(self).frames().len() - 1,
                old(self).frames().last().insert(id, (*v)@),
            ),
    {
        let last = self.scopes.len() - 1;
        self.scopes[last].insert(id, v);
        assert(self.frames()[last as int] =~= old(self).frames().last().insert(id, (*v)@));
        assert(self.frames() =~= old(self).frames().update(
            old(self).frames().len() - 1,
            old(self).frames().last().insert(id, (*v)@),
        ));
    }

    /// Analyzes `ast` in a scope of its own, which is closed again on every
    /// path, failure included.
    fn scoped(&mut self, ast: &mut Value) -> (r: Result<(), Error>)
        requires
            old(self).wf(),
        ensures
            final(self).wf(),
            final(self).frames() == old(self).frames(),
            reports(analyzed(old(self).frames().push(Map::empty()), old(ast)@), r, *final(ast)),
        decreases *old(ast), 3int,
    {
        self.push_scope();
        let r = self.analysis(ast);
        proof {
            lemma_bind_frames(old(self).frames().push(Map::empty()), old(ast)@);
        }
        self.pop_scope();
        assert(self.frames() =~= old(self).frames());
        r
    }

    /// Analyzes the nodes of `xs` in order, in one scope of their own, so
    /// that each sees the assignments of those before it.
    fn in_sequence(&mut self, xs: &mut Vec<Arc<Value>>, Ghost(whole): Ghost<Value>) -> (r: Result<
        (),
        Error,
    >)
        requires
            old(self).wf(),
            decreases_to!(whole => *old(xs)),
        ensures
            final(self).wf(),
            final(self).frames() == old(self).frames(),
            match sequence(
                old(self).frames().push(Map::empty()),
                trees_of(*old(xs), old(xs).len() as int),
                old(xs).len() as int,
            ).1 {
                Ok(cs) => r is Ok && trees_of(*final(xs), final(xs).len() as int) == cs,
                Err(u) => r matches Err(e) && e@ == u,
            },
        decreases whole, 1int,
    {
        let ghost old_xs = *xs;
        let n = xs.len();
        let ghost cs = trees_of(old_xs, n as int);
        proof {
            lemma_trees_of(old_xs, n as int);
        }
        self.push_scope();
        let ghost f0 = self.frames();
        let mut i: usize = 0;
        while i < n
            invariant
                self.wf(),
                old(self).wf(),
                old_xs == *old(xs),
                decreases_to!(whole => *old(xs)),
                f0 == old(self).frames().push(Map::empty()),
                self.frames().len() == f0.len(),
                self.frames().drop_last() == f0.drop_last(),
                xs.len() == n,
                n == old_xs.len(),
                i <= n,
                cs == trees_of(old_xs, n as int),
                cs.len() == n,
                forall|j: int| 0 <= j < n ==> #[trigger] cs[j] == tree_of(*old_xs[j]),
                forall|j: int| i <= j < n ==> #[trigger] xs@[j] == old_xs@[j],
                sequence(f0, cs, i as int) == (self.frames(), Ok::<Seq<Tree>, Undefined>(trees_of(*xs, i as int))),
            decreases n - i,
        {
            let ghost before = *xs;
            let ghost frames_before = self.frames();
            let node = make_mut(&mut xs[i]);
            proof {
                assert(decreases_to!(old_xs => old_xs[i as int]));
                assert(decreases_to!(whole => *node));
            }
            let r = self.analysis(node);
            proof {
                lemma_bind_frames(frames_before, cs[i as int]);
                assert(self.frames().len() == f0.len());
            }
            match r {
                Err(e) => {
                    proof {
                        assert(sequence(f0, cs, i as int) == (frames_before, Ok::<Seq<Tree>, Undefined>(trees_of(before, i as int))));
                        assert(analyzed(frames_before, cs[i as int]) == Err::<Tree, Undefined>(e@));
                        assert(sequence(f0, cs, i + 1).1 == Err::<Seq<Tree>, Undefined>(e@));
                        lemma_sequence_err(f0, cs, i + 1, n as int);
                    }
                    self.pop_scope();
                    assert(self.frames() =~= old(self).frames());
                    return Err(e);
                },
                Ok(()) => {},
            }
            proof {
                lemma_trees_of(before, i as int);
                lemma_trees_of(*xs, i as int);
                lemma_trees_of(*xs, i + 1);
                assert(forall|j: int| 0 <= j < i ==> xs@[j] == before@[j]);
                assert(trees_of(*xs, i as int) =~= trees_of(before, i as int));
            }
            i = i + 1;
        }
        self.pop_scope();
        assert(self.frames() =~= old(self).frames());
        Ok(())
    }

    /// Analyzes two operands, each in a scope of its own.
    fn operands(
        &mut self,
        a: &mut Arc<Value>,
        b: &mut Arc<Value>,
        Ghost(whole): Ghost<Value>,
    ) -> (r: Result<(), Error>)
        requires
            old(self).wf(),
            decreases_to!(whole => **old(a)),
            decreases_to!(whole => **old(b)),
        ensures
            final(self).wf(),
            final(self).frames() == old(self).frames(),
            match isolated(old(self).frames(), seq![(**old(a))@, (**old(b))@], 2) {
                Ok(cs) => r is Ok && cs == seq![(**final(a))@, (**final(b))@],
                Err(u) => r matches Err(e) && e@ == u,
            },
        decreases whole, 1int,
    {
        proof {
            reveal_with_fuel(isolated, 3);
        }
        match self.scoped(make_mut(a)) {
            Err(e) => {
                return Err(e);
            },
            Ok(()) => {},
        }
        self.scoped(make_mut(b))
    }

    /// Analyzes the condition and the branches of a conditional, each in a
    /// scope of its own.
    fn branches(&mut self, x: &mut If, Ghost(whole): Ghost<Value>) -> (r: Result<(), Error>)
        requires
            old(self).wf(),
            decreases_to!(whole => *old(x)),
        ensures
            final(self).wf(),
            final(self).frames() == old(self).frames(),
            final(x).no is Some <==> old(x).no is Some,
            match old(x).no {
                Some(n) => match isolated(
                    old(self).frames(),
                    seq![(*old(x).cond)@, (*old(x).yes)@, (*n)@],
                    3,
                ) {
                    Ok(cs) => r is Ok && cs == seq![
                        (*final(x).cond)@,
                        (*final(x).yes)@,
                        (*final(x).no.unwrap())@,
                    ],
                    Err(u) => r matches Err(e) && e@ == u,
                },
                None => match isolated(old(self).frames(), seq![(*old(x).cond)@, (*old(x).yes)@], 2) {
                    Ok(cs) => r is Ok && cs == seq![(*final(x).cond)@, (*final(x).yes)@],
                    Err(u) => r matches Err(e) && e@ == u,
                },
            },
        decreases whole, 1int,
    {
        proof {
            reveal_with_fuel(isolated, 4);
        }
        let ghost cs = match old(x).no {
            Some(n) => seq![(*old(x).cond)@, (*old(x).yes)@, (*n)@],
            None => seq![(*old(x).cond)@, (*old(x).yes)@],
        };
        match self.scoped(make_mut(&mut x.cond)) {
            Err(e) => {
                proof {
                    lemma_isolated_err(old(self).frames(), cs, 1, cs.len() as int);
                }
                return Err(e);
            },
            Ok(()) => {},
        }
        match self.scoped(make_mut(&mut x.yes)) {
            Err(e) => {
                proof {
                    lemma_isolated_err(old(self).frames(), cs, 2, cs.len() as int);
                }
                return Err(e);
            },
            Ok(()) => {},
        }
        match &mut x.no {
            Some(n) => self.scoped(make_mut(n)),
            None => Ok(()),
        }
    }

    /// Resolves every identifier reference of `ast` against the open scopes
    /// and those that `ast` itself opens. Assignments bind in the innermost
    /// open scope; the first reference that nothing binds fails the pass.
    pub fn analysis(&mut self, ast: &mut Value) -> (r: Result<(), Error>)
        requires
            old(self).wf(),
        ensures
            final(self).wf(),
            final(self).frames() == bind(old(self).frames(), old(ast)@),
            reports(analyzed(old(self).frames(), old(ast)@), r, *final(ast)),
        decreases *old(ast), 2int,
    {
        let loc = ast.location;
        let ghost whole = *ast;
        proof {
            reveal_with_fuel(isolated, 4);
            match whole.data {
                ValueData::Pipe(xs) => lemma_trees_of(xs, xs.len() as int),
                ValueData::List(xs) => lemma_trees_of(xs, xs.len() as int),
                ValueData::Op1(_, a) => lemma_isolated_one(old(self).frames(), (*a)@),
                ValueData::Call(a) => lemma_isolated_one(old(self).frames(), (*a)@),
                _ => {},
            }
        }
        match &mut ast.data {
            ValueData::Number(_) | ValueData::String(_) | ValueData::This | ValueData::Null => Ok(()),
            ValueData::Pipe(xs) => self.in_sequence(xs, Ghost(whole)),
            ValueData::List(xs) => self.in_sequence(xs, Ghost(whole)),
            ValueData::Op1(_, a) => self.scoped(make_mut(a)),
            ValueData::Call(a) => self.scoped(make_mut(a)),
            ValueData::Op2(_, a, b) => self.operands(a, b, Ghost(whole)),
            ValueData::And(a, b) => self.operands(a, b, Ghost(whole)),
            ValueData::Or(a, b) => self.operands(a, b, Ghost(whole)),
            ValueData::If(x) => self.branches(x, Ghost(whole)),
            ValueData::Ident(ident) => match self.find(ident.id) {
                Some(b) => {
                    ident.value = Some(b);
                    Ok(())
                },
                None => {
                    let unbound = Ident { name: ident.name.clone(), id: ident.id, value: None };
                    Err(Error { error: ErrorInfo::UndefinedIdent(unbound), location: loc })
                },
            },
            ValueData::Assign(ident, v) => {
                self.bind_here(ident.id, v.clone());
                Ok(())
            },
        }
    }
}

} // verus!
