use std::sync::Arc;

use jatom::analysis::{AnalysisContext, ErrorInfo};
use jatom::parse_state::ParseState;
use jatom::runtime::{Value, ValueData};
use jatom::syntax::{BinaryOp, Expr, ExprValue, If, Literal, Number, SingleOp};

fn node(v: ExprValue, at: usize) -> Expr {
    Expr::new(Arc::new(v), (at, at + 1))
}

fn num(x: u64, at: usize) -> Expr {
    node(ExprValue::Literal(Literal::Number(Number::new(x, 0))), at)
}

fn bound_number(v: &Value) -> Option<u64> {
    match &v.data {
        ValueData::Ident(i) => match &i.value {
            Some(b) => match &b.data {
                ValueData::Number(n) => Some(n.mantissa),
                _ => None,
            },
            None => None,
        },
        _ => None,
    }
}

fn stages(v: &Value) -> Vec<Arc<Value>> {
    match &v.data {
        ValueData::Pipe(xs) => xs.clone(),
        ValueData::List(xs) => xs.clone(),
        _ => panic!("not a sequence"),
    }
}

#[test]
fn sequential_stage_sees_assignment() {
    let mut ps = ParseState::new();
    let x1 = ps.ident("x");
    let x2 = x1.clone();
    let raw = node(
        ExprValue::Pipe(vec![node(ExprValue::Assign(x1, num(1, 4)), 2), node(ExprValue::Ident(x2), 7)]),
        0,
    );
    let mut v = Value::from_expr(&raw);
    let mut ctx = AnalysisContext::new();
    assert!(ctx.analysis(&mut v).is_ok());
    assert_eq!(bound_number(&stages(&v)[1]), Some(1));
}

#[test]
fn operand_does_not_see_sibling_assignment() {
    let mut ps = ParseState::new();
    let x_outer = ps.ident("x");
    let x_left = x_outer.clone();
    let x_read = x_outer.clone();
    let op = node(
        ExprValue::Op2(
            BinaryOp::Add,
            node(ExprValue::Assign(x_left, num(2, 12)), 10),
            node(ExprValue::Ident(x_read), 16),
        ),
        10,
    );
    let raw = node(ExprValue::Pipe(vec![node(ExprValue::Assign(x_outer, num(1, 4)), 2), op]), 0);
    let mut v = Value::from_expr(&raw);
    let mut ctx = AnalysisContext::new();
    assert!(ctx.analysis(&mut v).is_ok());
    let second = stages(&v)[1].clone();
    match &second.data {
        ValueData::Op2(BinaryOp::Add, _, right) => assert_eq!(bound_number(right), Some(1)),
        _ => panic!("expected an addition"),
    }
}

#[test]
fn inner_block_shadows_then_outer_binding_returns() {
    let mut ps = ParseState::new();
    let x_outer = ps.ident("x");
    let x_inner = x_outer.clone();
    let x_read_inner = x_outer.clone();
    let x_read_outer = x_outer.clone();
    let inner = node(
        ExprValue::Pipe(vec![
            node(ExprValue::Assign(x_inner, num(2, 14)), 12),
            node(ExprValue::Ident(x_read_inner), 17),
        ]),
        10,
    );
    let raw = node(
        ExprValue::Pipe(vec![
            node(ExprValue::Assign(x_outer, num(1, 4)), 2),
            inner,
            node(ExprValue::Ident(x_read_outer), 22),
        ]),
        0,
    );
    let mut v = Value::from_expr(&raw);
    let mut ctx = AnalysisContext::new();
    assert!(ctx.analysis(&mut v).is_ok());
    let outer = stages(&v);
    assert_eq!(bound_number(&stages(&outer[1])[1]), Some(2));
    assert_eq!(bound_number(&outer[2]), Some(1));
}

#[test]
fn lone_reference_is_undefined() {
    let mut ps = ParseState::new();
    let y = ps.ident("y");
    let raw = node(ExprValue::Ident(y), 3);
    let mut v = Value::from_expr(&raw);
    let mut ctx = AnalysisContext::new();
    let err = ctx.analysis(&mut v).unwrap_err();
    assert_eq!(err.location(), 3);
    assert_eq!(err.message(), "undefined `y` in scope");
    match &err.error {
        ErrorInfo::UndefinedIdent(i) => {
            assert_eq!(i.name(), "y");
            assert_eq!(i.id(), 0);
        },
    }
}

#[test]
fn failure_restores_scope_stack() {
    let mut ps = ParseState::new();
    let y = ps.ident("y");
    let z = ps.ident("z");
    let z_read = z.clone();
    let raw = node(ExprValue::Op1(SingleOp::Neg, node(ExprValue::Ident(y), 1)), 0);
    let mut v = Value::from_expr(&raw);
    let mut ctx = AnalysisContext::new();
    assert!(ctx.analysis(&mut v).is_err());
    // The context is still usable: a later pipe resolves normally.
    let raw = node(
        ExprValue::Pipe(vec![node(ExprValue::Assign(z, num(5, 1)), 0), node(ExprValue::Ident(z_read), 3)]),
        0,
    );
    let mut w = Value::from_expr(&raw);
    assert!(ctx.analysis(&mut w).is_ok());
    assert_eq!(bound_number(&stages(&w)[1]), Some(5));
}

#[test]
fn top_level_assignment_stays_visible_to_later_calls() {
    let mut ps = ParseState::new();
    let a = ps.ident("a");
    let other = ps.ident("a");
    let mut first = Value::from_expr(&node(ExprValue::Assign(a.clone(), num(7, 2)), 0));
    let mut same_tag = Value::from_expr(&node(ExprValue::Ident(a), 0));
    let mut other_tag = Value::from_expr(&node(ExprValue::Ident(other), 0));
    let mut ctx = AnalysisContext::new();
    assert!(ctx.analysis(&mut first).is_ok());
    assert!(ctx.analysis(&mut same_tag).is_ok());
    assert_eq!(bound_number(&same_tag), Some(7));
    // Same spelling, another tag: the read is not bound by the assignment.
    assert!(ctx.analysis(&mut other_tag).is_err());
}

fn end_to_end_tree(ps: &mut ParseState) -> Expr {
    // { a = 1; if a < 2 (a + 1) else (a - 1) }
    let a = ps.ident("a");
    let a_cond = a.clone();
    let a_yes = a.clone();
    let a_no = a.clone();
    let cond = node(ExprValue::Op2(BinaryOp::Lt, node(ExprValue::Ident(a_cond), 12), num(2, 16)), 12);
    let yes = node(ExprValue::Op2(BinaryOp::Add, node(ExprValue::Ident(a_yes), 19), num(1, 23)), 18);
    let no = node(ExprValue::Op2(BinaryOp::Sub, node(ExprValue::Ident(a_no), 32), num(1, 36)), 31);
    let cond_node = node(ExprValue::If(If::new(cond, yes, Some(no))), 9);
    node(ExprValue::Pipe(vec![node(ExprValue::Assign(a, num(1, 6)), 2), cond_node]), 0)
}

fn left_operand(v: &Value) -> Arc<Value> {
    match &v.data {
        ValueData::Op2(_, l, _) => l.clone(),
        _ => panic!("expected a binary operation"),
    }
}

#[test]
fn end_to_end_conditional_reads_block_binding() {
    let mut ps = ParseState::new();
    let raw = end_to_end_tree(&mut ps);
    let mut v = Value::from_expr(&raw);
    let mut ctx = AnalysisContext::new();
    assert!(ctx.analysis(&mut v).is_ok());
    let st = stages(&v);
    match &st[1].data {
        ValueData::If(x) => {
            assert_eq!(bound_number(&left_operand(&x.cond)), Some(1));
            assert_eq!(bound_number(&left_operand(&x.yes)), Some(1));
            assert_eq!(bound_number(&left_operand(x.no.as_ref().unwrap())), Some(1));
        },
        _ => panic!("expected a conditional"),
    }
}

#[test]
fn analysis_is_deterministic() {
    let mut ps = ParseState::new();
    let raw = end_to_end_tree(&mut ps);
    let mut v1 = Value::from_expr(&raw);
    let mut v2 = Value::from_expr(&raw);
    assert!(AnalysisContext::new().analysis(&mut v1).is_ok());
    assert!(AnalysisContext::new().analysis(&mut v2).is_ok());
    assert_eq!(v1, v2);
}

#[test]
fn conversion_twice_gives_equal_trees() {
    let raw = node(
        ExprValue::List(vec![
            node(ExprValue::Literal(Literal::Number(Number::new(15, -1))), 1),
            node(ExprValue::Literal(Literal::escape("a\\tb").unwrap()), 5),
            node(ExprValue::Op1(SingleOp::Not, node(ExprValue::This, 11)), 10),
        ]),
        0,
    );
    let v1 = Value::from_expr(&raw);
    let v2 = Value::from_expr(&raw);
    assert_eq!(v1, v2);
    assert_eq!(v1.location, 0);
    match &v1.data {
        ValueData::List(xs) => {
            assert_eq!(xs.len(), 3);
            assert_eq!(xs[0].data, ValueData::Number(Number::new(15, -1)));
            assert_eq!(xs[1].data, ValueData::String(Arc::new("a\tb".to_string())));
            assert_eq!(xs[2].location, 10);
        },
        _ => panic!("expected a list"),
    }
}

#[test]
fn editing_a_copy_leaves_shared_siblings_alone() {
    let mut ps = ParseState::new();
    let x = ps.ident("x");
    let x_read = x.clone();
    let raw = node(
        ExprValue::List(vec![node(ExprValue::Assign(x, num(3, 3)), 1), node(ExprValue::Ident(x_read), 8)]),
        0,
    );
    let original = Value::from_expr(&raw);
    let mut copy = original.clone();
    let before = stages(&original);
    assert!(Arc::ptr_eq(&before[1], &stages(&copy)[1]));
    assert!(AnalysisContext::new().analysis(&mut copy).is_ok());
    assert_eq!(bound_number(&stages(&copy)[1]), Some(3));
    // The original's reference is untouched, and still unresolved.
    match &stages(&original)[1].data {
        ValueData::Ident(i) => assert!(i.value.is_none()),
        _ => panic!("expected a reference"),
    }
    assert!(Arc::ptr_eq(&before[1], &stages(&original)[1]));
}

#[test]
fn identifiers_compare_by_tag_not_name() {
    let mut ps = ParseState::new();
    let a = ps.ident("same");
    let b = ps.ident("same");
    let ra = jatom::runtime::Ident::from_raw(&a);
    let rb = jatom::runtime::Ident::from_raw(&b);
    assert!(ra != rb);
    assert!(ra < rb);
    assert!(rb > ra);
    assert!(ra == jatom::runtime::Ident::from_raw(&a));
    assert_eq!(ra.id() + 1, rb.id());
    assert!(Arc::ptr_eq(&a.name, &b.name));
}

#[test]
fn pool_keeps_one_copy_per_text() {
    let mut ps = ParseState::new();
    let s1 = ps.str_pool("abc");
    let s2 = ps.str_pool("abc");
    let s3 = ps.str_pool("abd");
    assert!(Arc::ptr_eq(&s1, &s2));
    assert!(!Arc::ptr_eq(&s1, &s3));
    assert_eq!(s3.as_str(), "abd");
}

#[test]
fn defaults_are_empty_values() {
    let v = Value::default();
    assert_eq!(v.data, ValueData::Null);
    assert_eq!(v.location, 0);
    assert_eq!(ValueData::default(), ValueData::Null);
    let r = jatom::runtime::Runtime::default();
    assert_eq!(format!("{:?}", r).matches("Null").count(), 1);
}
