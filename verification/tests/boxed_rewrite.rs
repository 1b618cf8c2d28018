use experiments::accumulator::{Accumulator, Fed, Hashing, Recorder};
use experiments::ast_boxed::{self, Binary, BinOp, Expr, ExprKind, Stmt, StmtKind, VarDecl};
use std::collections::hash_map::DefaultHasher;
use std::hash::Hasher;

fn var(name: &'static str, at: usize) -> Expr<'static> {
    Expr { kind: ExprKind::Variable(name), span: at..at + 1 }
}

fn binary(op: BinOp, left: Expr<'static>, right: Expr<'static>, at: usize) -> Expr<'static> {
    let node = ast_boxed::alloc_node(Binary { left, op, right }, &());
    Expr { kind: ExprKind::Binary(node), span: at..at }
}

fn grouping(inner: Expr<'static>, at: usize) -> Expr<'static> {
    Expr { kind: ExprKind::Grouping(ast_boxed::alloc_node(inner, &())), span: at..at + 2 }
}

fn comma(items: Vec<Expr<'static>>, at: usize) -> Expr<'static> {
    let mut list = ast_boxed::alloc_vec(&());
    for item in items {
        list.push(item);
    }
    Expr { kind: ExprKind::Comma(list), span: at..at + 3 }
}

fn list(items: Vec<Stmt<'static>>, at: usize) -> Stmt<'static> {
    let mut all = ast_boxed::alloc_vec(&());
    for item in items {
        all.push(item);
    }
    Stmt { kind: StmtKind::List(all), span: at..at + 4 }
}

fn decl(name: &'static str, initializer: Option<Expr<'static>>, at: usize) -> Stmt<'static> {
    Stmt {
        kind: StmtKind::VarDecl(ast_boxed::alloc_node(VarDecl { name, initializer }, &())),
        span: at..at + 5,
    }
}

fn expr_stmt(e: Expr<'static>, at: usize) -> Stmt<'static> {
    Stmt { kind: StmtKind::ExprStmt(ast_boxed::alloc_node(e, &())), span: at..at + 6 }
}

fn name(text: &str) -> Fed {
    Fed::Name(text.to_string())
}

#[test]
fn variable_is_fed_and_left_alone() {
    let mut e = var("x", 3);
    let mut log = Recorder::new();
    e.wrangle(&(), &mut log);
    assert_eq!(e, var("x", 3));
    assert_eq!(log.log, vec![name("x")]);
}

#[test]
fn sum_keeps_operator_and_exchanges_operands() {
    let mut e = binary(BinOp::Add, var("l", 1), var("r", 2), 9);
    let mut log = Recorder::new();
    e.wrangle(&(), &mut log);
    assert_eq!(e, binary(BinOp::Add, var("r", 2), var("l", 1), 9));
    assert_eq!(log.log, vec![Fed::Op(BinOp::Add), name("l"), name("r")]);
}

#[test]
fn product_keeps_operator_and_exchanges_operands() {
    let mut e = binary(BinOp::Mul, var("l", 1), var("r", 2), 9);
    e.wrangle(&(), &mut Recorder::new());
    assert_eq!(e, binary(BinOp::Mul, var("r", 2), var("l", 1), 9));
}

#[test]
fn difference_becomes_comma_left_first() {
    let mut e = binary(BinOp::Sub, var("l", 1), var("r", 2), 9);
    let mut log = Recorder::new();
    e.wrangle(&(), &mut log);
    let mut expected = comma(vec![var("l", 1), var("r", 2)], 0);
    expected.span = 9..9;
    assert_eq!(e, expected);
    assert_eq!(log.log, vec![Fed::Op(BinOp::Sub), name("l"), name("r")]);
}

#[test]
fn quotient_becomes_comma_left_first() {
    let mut e = binary(BinOp::Div, var("l", 1), var("r", 2), 9);
    e.wrangle(&(), &mut Recorder::new());
    match &e.kind {
        ExprKind::Comma(items) => {
            assert_eq!(items.len(), 2);
            assert_eq!(items[0], var("l", 1));
            assert_eq!(items[1], var("r", 2));
        }
        other => panic!("expected a comma list, found {:?}", other),
    }
    assert_eq!(e.span, 9..9);
}

#[test]
fn converted_difference_never_returns_to_binary() {
    let mut e = binary(BinOp::Sub, var("l", 1), var("r", 2), 9);
    e.wrangle(&(), &mut Recorder::new());
    e.wrangle(&(), &mut Recorder::new());
    let mut expected = comma(vec![var("r", 2), var("l", 1)], 0);
    expected.span = 9..9;
    assert_eq!(e, expected);
}

#[test]
fn operands_are_rewritten_before_they_move() {
    let mut e = binary(
        BinOp::Add,
        binary(BinOp::Sub, var("a", 1), var("b", 2), 3),
        grouping(var("c", 4), 5),
        6,
    );
    let mut log = Recorder::new();
    e.wrangle(&(), &mut log);
    let mut left = comma(vec![var("a", 1), var("b", 2)], 0);
    left.span = 3..3;
    let mut right = var("c", 4);
    right.span = 5..7;
    assert_eq!(e, binary(BinOp::Add, right, left, 6));
    assert_eq!(
        log.log,
        vec![Fed::Op(BinOp::Add), Fed::Op(BinOp::Sub), name("a"), name("b"), name("c")]
    );
}

#[test]
fn grouping_takes_the_kind_of_its_rewritten_content() {
    let content = || binary(BinOp::Sub, var("l", 1), var("r", 2), 7);
    let mut wrapped = grouping(content(), 20);
    let mut alone = content();
    let mut wrapped_log = Recorder::new();
    let mut alone_log = Recorder::new();
    wrapped.wrangle(&(), &mut wrapped_log);
    alone.wrangle(&(), &mut alone_log);
    assert_eq!(wrapped.kind, alone.kind);
    assert_eq!(wrapped.span, 20..22);
    assert_eq!(wrapped_log, alone_log);
}

#[test]
fn grouping_collapses_one_level_per_pass() {
    let mut e = grouping(grouping(var("x", 1), 2), 3);
    e.wrangle(&(), &mut Recorder::new());
    let mut expected = var("x", 1);
    expected.span = 3..5;
    assert_eq!(e, expected);
}

#[test]
fn grouping_hashes_as_its_content_does() {
    let content = || binary(BinOp::Mul, var("l", 1), var("r", 2), 7);
    let mut wrapped = grouping(content(), 20);
    let mut alone = content();
    let mut wrapped_hash = Hashing::new(DefaultHasher::new());
    let mut alone_hash = Hashing::new(DefaultHasher::new());
    wrapped.wrangle(&(), &mut wrapped_hash);
    alone.wrangle(&(), &mut alone_hash);
    assert_eq!(wrapped_hash.into_hasher().finish(), alone_hash.into_hasher().finish());
}

#[test]
fn comma_list_is_reversed() {
    let mut e = comma(vec![var("a", 1), var("b", 2), var("c", 3), var("d", 4)], 8);
    let mut log = Recorder::new();
    e.wrangle(&(), &mut log);
    assert_eq!(e, comma(vec![var("d", 4), var("c", 3), var("b", 2), var("a", 1)], 8));
    assert_eq!(log.log, vec![name("a"), name("b"), name("c"), name("d")]);
}

#[test]
fn comma_element_at_i_moves_to_n_minus_1_minus_i() {
    let names = ["a", "b", "c", "d", "e"];
    let mut e = comma(names.iter().enumerate().map(|(i, n)| var(n, i)).collect(), 0);
    e.wrangle(&(), &mut Recorder::new());
    match &e.kind {
        ExprKind::Comma(items) => {
            assert_eq!(items.len(), names.len());
            for (i, n) in names.iter().enumerate() {
                assert_eq!(items[names.len() - 1 - i], var(n, i));
            }
        }
        other => panic!("expected a comma list, found {:?}", other),
    }
}

#[test]
fn empty_comma_list_stays_empty() {
    let mut e = comma(vec![], 8);
    let mut log = Recorder::new();
    e.wrangle(&(), &mut log);
    assert_eq!(e, comma(vec![], 8));
    assert_eq!(log.log, vec![]);
}

#[test]
fn comma_elements_are_rewritten_then_reversed() {
    let mut e = comma(
        vec![binary(BinOp::Add, var("a", 1), var("b", 2), 3), grouping(var("c", 4), 5)],
        8,
    );
    e.wrangle(&(), &mut Recorder::new());
    let mut c = var("c", 4);
    c.span = 5..7;
    assert_eq!(e, comma(vec![c, binary(BinOp::Add, var("b", 2), var("a", 1), 3)], 8));
}

#[test]
fn statement_list_is_reversed() {
    let mut s = list(vec![decl("a", None, 1), decl("b", None, 2), decl("c", None, 3)], 8);
    let mut log = Recorder::new();
    s.wrangle(&(), &mut log);
    assert_eq!(s, list(vec![decl("c", None, 3), decl("b", None, 2), decl("a", None, 1)], 8));
    assert_eq!(log.log, vec![name("a"), name("b"), name("c")]);
}

#[test]
fn declaration_keeps_name_and_initializer() {
    let mut with = decl("n", Some(grouping(var("v", 1), 2)), 3);
    let mut without = decl("m", None, 4);
    let mut log = Recorder::new();
    with.wrangle(&(), &mut log);
    without.wrangle(&(), &mut log);
    let mut v = var("v", 1);
    v.span = 2..4;
    assert_eq!(with, decl("n", Some(v), 3));
    assert_eq!(without, decl("m", None, 4));
    assert_eq!(log.log, vec![name("n"), name("v"), name("m")]);
}

#[test]
fn expression_statement_rewrites_its_expression() {
    let mut s = expr_stmt(binary(BinOp::Mul, var("l", 1), var("r", 2), 3), 4);
    s.wrangle(&(), &mut Recorder::new());
    assert_eq!(s, expr_stmt(binary(BinOp::Mul, var("r", 2), var("l", 1), 3), 4));
}

#[test]
fn placeholder_alone_stays_and_feeds_nothing() {
    let mut s = Stmt { kind: StmtKind::NullNode, span: 1..2 };
    let mut log = Recorder::new();
    s.wrangle(&(), &mut log);
    assert_eq!(s, Stmt { kind: StmtKind::NullNode, span: 1..2 });
    assert_eq!(log.log, vec![]);
}

#[test]
fn accumulator_keeps_what_it_was_fed_before() {
    let mut log = Recorder::new();
    log.feed_name("before");
    log.feed_op(BinOp::Div);
    let mut e = var("x", 1);
    e.wrangle(&(), &mut log);
    assert_eq!(log.log, vec![name("before"), Fed::Op(BinOp::Div), name("x")]);
}

#[test]
fn rewriting_one_tree_leaves_another_alone() {
    let make = || list(vec![expr_stmt(binary(BinOp::Sub, var("l", 1), var("r", 2), 3), 4)], 5);
    let mut first = make();
    let second = make();
    first.wrangle(&(), &mut Recorder::new());
    assert_eq!(second, make());
    assert_ne!(first, second);
}

#[test]
fn copy_is_equal_and_shares_nothing() {
    let original = list(
        vec![
            decl("n", Some(comma(vec![var("a", 1), grouping(var("b", 2), 3)], 4)), 5),
            expr_stmt(binary(BinOp::Sub, var("l", 1), var("r", 2), 3), 4),
            Stmt { kind: StmtKind::NullNode, span: 6..7 },
        ],
        8,
    );
    let mut copy = original.clone();
    assert_eq!(copy, original);
    copy.wrangle(&(), &mut Recorder::new());
    assert_ne!(copy, original);
    let again = original.clone();
    assert_eq!(again, original);
}

#[test]
fn copy_of_an_expression_is_rewritten_like_the_expression() {
    let mut e = binary(BinOp::Add, comma(vec![var("a", 1), var("b", 2)], 3), var("c", 4), 5);
    let mut copy = e.clone();
    let mut log = Recorder::new();
    let mut copy_log = Recorder::new();
    e.wrangle(&(), &mut log);
    copy.wrangle(&(), &mut copy_log);
    assert_eq!(copy, e);
    assert_eq!(copy_log, log);
}
