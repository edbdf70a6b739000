//! Properties of scope resolution and conversion, stated over the models
//! that the functions' contracts use.
use vstd::prelude::*;
use crate::analysis::{analyzed, isolated, lookup, sequence, Undefined};
use crate::runtime::{leaf, Kind, Tree, Value};
use crate::syntax::{BinaryOp, Expr};

verus! {

/// An assignment `name = value`, with identifier tag `id`.
pub open spec fn assign_node(name: Seq<char>, id: usize, value: Tree, location: usize) -> Tree {
    Tree { kind: Kind::Assign(name, id), children: seq![value], location }
}

/// An unresolved reference to the identifier with tag `id`.
pub open spec fn ref_node(name: Seq<char>, id: usize, location: usize) -> Tree {
    leaf(Kind::Ident(name, id), location)
}

/// A reference to the identifier with tag `id`, resolved to `bound`.
pub open spec fn bound_ref(name: Seq<char>, id: usize, bound: Tree, location: usize) -> Tree {
    Tree { kind: Kind::Ident(name, id), children: seq![bound], location }
}

/// The frames of a fresh analysis context: one empty scope.
pub open spec fn fresh() -> Seq<Map<usize, Tree>> {
    seq![Map::empty()]
}

/// Analysis is deterministic: two value trees with the same model (two
/// conversions of one raw tree, say), each analyzed from a fresh context,
/// give the same outcome and the same bindings.
pub proof fn law_deterministic(e: Expr, a: Value, b: Value)
    requires
        a@ == e@,
        b@ == e@,
    ensures
        analyzed(fresh(), a@) == analyzed(fresh(), b@),
{
}

/// Converting one raw tree twice gives value trees with the same model.
pub proof fn law_conversion_idempotent(e: Expr, a: Value, b: Value)
    requires
        a@ == e@,
        b@ == e@,
    ensures
        a@ == b@,
{
}

/// The operands of a binary operator are analyzed in scopes of their own: in
/// `(x = two) OP x`, the right operand's `x` resolves to the binding of an
/// enclosing scope, never to the left operand's assignment.
pub proof fn law_operand_isolation(
    frames: Seq<Map<usize, Tree>>,
    op: BinaryOp,
    name: Seq<char>,
    x: usize,
    outer: Tree,
    two: Tree,
    left_at: usize,
    right_at: usize,
    at: usize,
)
    requires
        lookup(frames, x) == Some(outer),
    ensures
        analyzed(
            frames,
            Tree {
                kind: Kind::Op2(op),
                children: seq![assign_node(name, x, two, left_at), ref_node(name, x, right_at)],
                location: at,
            },
        ) == Ok::<Tree, Undefined>(
            Tree {
                kind: Kind::Op2(op),
                children: seq![assign_node(name, x, two, left_at), bound_ref(name, x, outer, right_at)],
                location: at,
            },
        ),
{
    reveal_with_fuel(isolated, 3);
    let cs = seq![assign_node(name, x, two, left_at), ref_node(name, x, right_at)];
    let f = frames.push(Map::empty());
    assert(f.drop_last() =~= frames);
    assert(lookup(f, x) == Some(outer));
    assert(analyzed(f, cs[0]) == Ok::<Tree, Undefined>(cs[0]));
    assert(analyzed(f, cs[1]) == Ok::<Tree, Undefined>(bound_ref(name, x, outer, right_at)));
    assert(isolated(frames, cs, 1) == Ok::<Seq<Tree>, Undefined>(seq![cs[0]]));
    assert(Seq::<Tree>::empty().push(cs[0]) =~= seq![cs[0]]);
    assert(seq![cs[0]].push(bound_ref(name, x, outer, right_at)) =~= seq![
        assign_node(name, x, two, left_at),
        bound_ref(name, x, outer, right_at),
    ]);
    assert(isolated(frames, cs, 2) == Ok::<Seq<Tree>, Undefined>(seq![
        assign_node(name, x, two, left_at),
        bound_ref(name, x, outer, right_at),
    ]));
}

/// The stages of a pipe see the assignments of earlier stages: in
/// `{ x = one; x }` the second stage's `x` resolves to `one`.
pub proof fn law_sequential_visibility(
    frames: Seq<Map<usize, Tree>>,
    name: Seq<char>,
    x: usize,
    one: Tree,
    assign_at: usize,
    read_at: usize,
    at: usize,
)
    ensures
        analyzed(
            frames,
            Tree {
                kind: Kind::Pipe,
                children: seq![assign_node(name, x, one, assign_at), ref_node(name, x, read_at)],
                location: at,
            },
        ) == Ok::<Tree, Undefined>(
            Tree {
                kind: Kind::Pipe,
                children: seq![assign_node(name, x, one, assign_at), bound_ref(name, x, one, read_at)],
                location: at,
            },
        ),
{
    reveal_with_fuel(sequence, 3);
    let cs = seq![assign_node(name, x, one, assign_at), ref_node(name, x, read_at)];
    let f0 = frames.push(Map::empty());
    let f1 = f0.update(f0.len() - 1, Map::<usize, Tree>::empty().insert(x, one));
    assert(analyzed(f0, cs[0]) == Ok::<Tree, Undefined>(cs[0]));
    assert(sequence(f0, cs, 1) == (f1, Ok::<Seq<Tree>, Undefined>(seq![cs[0]]))) by {
        assert(Seq::<Tree>::empty().push(cs[0]) =~= seq![cs[0]]);
    }
    assert(lookup(f1, x) == Some(one));
    assert(analyzed(f1, cs[1]) == Ok::<Tree, Undefined>(bound_ref(name, x, one, read_at)));
    assert(seq![cs[0]].push(bound_ref(name, x, one, read_at)) =~= seq![
        assign_node(name, x, one, assign_at),
        bound_ref(name, x, one, read_at),
    ]);
}

/// An inner block's assignment shadows an outer one only inside the block:
/// in `{ x = one; { x = two; x }; x }` the inner `x` resolves to `two` and
/// the last `x` to `one`.
pub proof fn law_shadowing(
    frames: Seq<Map<usize, Tree>>,
    name: Seq<char>,
    x: usize,
    one: Tree,
    two: Tree,
    at: Seq<usize>,
)
    requires
        at.len() == 6,
    ensures
        analyzed(
            frames,
            Tree {
                kind: Kind::Pipe,
                children: seq![
                    assign_node(name, x, one, at[0]),
                    Tree {
                        kind: Kind::Pipe,
                        children: seq![assign_node(name, x, two, at[1]), ref_node(name, x, at[2])],
                        location: at[3],
                    },
                    ref_node(name, x, at[4]),
                ],
                location: at[5],
            },
        ) == Ok::<Tree, Undefined>(
            Tree {
                kind: Kind::Pipe,
                children: seq![
                    assign_node(name, x, one, at[0]),
                    Tree {
                        kind: Kind::Pipe,
                        children: seq![assign_node(name, x, two, at[1]), bound_ref(name, x, two, at[2])],
                        location: at[3],
                    },
                    bound_ref(name, x, one, at[4]),
                ],
                location: at[5],
            },
        ),
{
    reveal_with_fuel(sequence, 4);
    let inner = Tree {
        kind: Kind::Pipe,
        children: seq![assign_node(name, x, two, at[1]), ref_node(name, x, at[2])],
        location: at[3],
    };
    let inner_done = Tree {
        kind: Kind::Pipe,
        children: seq![assign_node(name, x, two, at[1]), bound_ref(name, x, two, at[2])],
        location: at[3],
    };
    let cs = seq![assign_node(name, x, one, at[0]), inner, ref_node(name, x, at[4])];
    let f0 = frames.push(Map::empty());
    let f1 = f0.update(f0.len() - 1, Map::<usize, Tree>::empty().insert(x, one));
    assert(analyzed(f0, cs[0]) == Ok::<Tree, Undefined>(cs[0]));
    assert(sequence(f0, cs, 1) == (f1, Ok::<Seq<Tree>, Undefined>(seq![cs[0]]))) by {
        assert(Seq::<Tree>::empty().push(cs[0]) =~= seq![cs[0]]);
    }
    law_sequential_visibility(f1, name, x, two, at[1], at[2], at[3]);
    assert(analyzed(f1, cs[1]) == Ok::<Tree, Undefined>(inner_done));
    assert(sequence(f0, cs, 2) == (f1, Ok::<Seq<Tree>, Undefined>(seq![cs[0], inner_done]))) by {
        assert(seq![cs[0]].push(inner_done) =~= seq![cs[0], inner_done]);
    }
    assert(lookup(f1, x) == Some(one));
    assert(analyzed(f1, cs[2]) == Ok::<Tree, Undefined>(bound_ref(name, x, one, at[4])));
    assert(seq![cs[0], inner_done].push(bound_ref(name, x, one, at[4])) =~= seq![
        cs[0],
        inner_done,
        bound_ref(name, x, one, at[4]),
    ]);
}

/// A reference that no open scope binds fails the analysis, naming the
/// identifier and its place.
pub proof fn law_undefined(frames: Seq<Map<usize, Tree>>, name: Seq<char>, y: usize, at: usize)
    requires
        lookup(frames, y) is None,
    ensures
        analyzed(frames, ref_node(name, y, at)) == Err::<Tree, Undefined>(
            Undefined { name, id: y, location: at },
        ),
{
}

/// A lone reference analyzed from a fresh context fails, naming the identifier.
pub proof fn law_undefined_alone(name: Seq<char>, y: usize, at: usize)
    ensures
        analyzed(fresh(), ref_node(name, y, at)) == Err::<Tree, Undefined>(
            Undefined { name, id: y, location: at },
        ),
{
    let f = fresh();
    assert(f.len() == 1);
    assert(!f.last().contains_key(y));
    assert(f.drop_last().len() == 0);
    assert(lookup(f.drop_last(), y) is None);
    assert(lookup(f, y) is None);
}

} // verus!
