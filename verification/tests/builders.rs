use bumpalo::Bump;
use experiments::accumulator::{Fed, Hashing, Recorder};
use experiments::ast_boxed::{self, Expr, ExprKind, Stmt, StmtKind};
use experiments::ast_bumped;
use experiments::model::{BinOp, ExprChoice};
use rand::SeedableRng;
use std::collections::hash_map::DefaultHasher;
use std::hash::Hasher;

const SOURCE: &str = "source";

/// `name` is a stretch of `source` that ends before its last character.
fn is_slice(name: &str, source: &str) -> bool {
    (0..source.len()).any(|start| (start..source.len()).any(|end| &source[start..end] == name))
}

/// What the builder promises of an expression under the two budgets.
fn expr_fits(e: &Expr, source: &str, depth: usize, width: usize) -> bool {
    if depth == 0 {
        return matches!(&e.kind, ExprKind::Variable(name) if is_slice(name, source));
    }
    match &e.kind {
        ExprKind::Variable(_) => false,
        ExprKind::Binary(b) => {
            width >= 2
                && expr_fits(&b.left, source, depth - 1, width - 2)
                && expr_fits(&b.right, source, depth - 1, width - 2)
        }
        ExprKind::Grouping(inner) => expr_fits(inner, source, depth - 1, width),
        ExprKind::Comma(items) => {
            let n = items.len();
            width >= 2
                && n < width
                && items.iter().all(|item| expr_fits(item, source, depth - 1, width - n))
        }
    }
}

/// What the builder promises of a statement under the two budgets.
fn stmt_fits(s: &Stmt, source: &str, depth: usize, width: usize) -> bool {
    if depth == 0 {
        return match &s.kind {
            StmtKind::VarDecl(d) => {
                is_slice(d.name, source)
                    && d.initializer.as_ref().map_or(true, |e| expr_fits(e, source, 0, width))
            }
            _ => false,
        };
    }
    match &s.kind {
        StmtKind::List(items) => {
            let n = items.len();
            n < width && items.iter().all(|item| stmt_fits(item, source, depth - 1, width - n))
        }
        StmtKind::ExprStmt(e) => expr_fits(e, source, depth - 1, width),
        _ => false,
    }
}

fn has_placeholder(s: &Stmt) -> bool {
    match &s.kind {
        StmtKind::NullNode => true,
        StmtKind::List(items) => items.iter().any(has_placeholder),
        _ => false,
    }
}

fn expr_names<'a>(e: &Expr<'a>, names: &mut Vec<&'a str>) {
    match &e.kind {
        ExprKind::Variable(name) => names.push(name),
        ExprKind::Binary(b) => {
            expr_names(&b.left, names);
            expr_names(&b.right, names);
        }
        ExprKind::Grouping(inner) => expr_names(inner, names),
        ExprKind::Comma(items) => items.iter().for_each(|item| expr_names(item, names)),
    }
}

fn stmt_names<'a>(s: &Stmt<'a>, names: &mut Vec<&'a str>) {
    match &s.kind {
        StmtKind::VarDecl(d) => {
            names.push(d.name);
            if let Some(e) = &d.initializer {
                expr_names(e, names);
            }
        }
        StmtKind::List(items) => items.iter().for_each(|item| stmt_names(item, names)),
        StmtKind::ExprStmt(e) => expr_names(e, names),
        StmtKind::NullNode => {}
    }
}

fn sorted_names(s: &Stmt) -> Vec<String> {
    let mut names = Vec::new();
    stmt_names(s, &mut names);
    let mut names: Vec<String> = names.into_iter().map(String::from).collect();
    names.sort();
    names
}

fn sorted_fed_names(log: &Recorder) -> Vec<String> {
    let mut names: Vec<String> = log
        .log
        .iter()
        .filter_map(|fed| match fed {
            Fed::Name(name) => Some(name.clone()),
            Fed::Op(_) => None,
        })
        .collect();
    names.sort();
    names
}

fn count_kinds(e: &Expr, binary: &mut usize, comma: &mut usize, grouping: &mut usize) {
    match &e.kind {
        ExprKind::Variable(_) => {}
        ExprKind::Binary(b) => {
            *binary += 1;
            count_kinds(&b.left, binary, comma, grouping);
            count_kinds(&b.right, binary, comma, grouping);
        }
        ExprKind::Grouping(inner) => {
            *grouping += 1;
            count_kinds(inner, binary, comma, grouping);
        }
        ExprKind::Comma(items) => {
            *comma += 1;
            items.iter().for_each(|item| count_kinds(item, binary, comma, grouping));
        }
    }
}

fn operators(e: &Expr, seen: &mut Vec<BinOp>) {
    match &e.kind {
        ExprKind::Variable(_) => {}
        ExprKind::Binary(b) => {
            seen.push(b.op);
            operators(&b.left, seen);
            operators(&b.right, seen);
        }
        ExprKind::Grouping(inner) => operators(inner, seen),
        ExprKind::Comma(items) => items.iter().for_each(|item| operators(item, seen)),
    }
}

#[test]
fn no_depth_gives_a_single_declaration() {
    let tree = Stmt::build_random_tree(SOURCE, 1, 0, 0, &());
    match &tree.kind {
        StmtKind::VarDecl(d) => {
            assert!(is_slice(d.name, SOURCE));
            match &d.initializer {
                None => {}
                Some(e) => match &e.kind {
                    ExprKind::Variable(name) => assert!(is_slice(name, SOURCE)),
                    other => panic!("expected a variable, found {:?}", other),
                },
            }
        }
        other => panic!("expected a declaration, found {:?}", other),
    }
}

#[test]
fn no_depth_gives_a_single_declaration_in_the_arena() {
    let bump = Bump::new();
    let tree = ast_bumped::Stmt::build_random_tree(SOURCE, 1, 0, 0, &bump);
    assert_eq!(tree.to_boxed(), Stmt::build_random_tree(SOURCE, 1, 0, 0, &()));
    assert!(stmt_fits(&tree.to_boxed(), SOURCE, 0, 0));
}

#[test]
fn no_depth_gives_both_kinds_of_declaration() {
    let mut with = 0;
    let mut without = 0;
    for seed in 0..64 {
        let tree = Stmt::build_random_tree(SOURCE, seed, 0, 0, &());
        assert!(stmt_fits(&tree, SOURCE, 0, 0));
        match &tree.kind {
            StmtKind::VarDecl(d) if d.initializer.is_some() => with += 1,
            StmtKind::VarDecl(_) => without += 1,
            other => panic!("expected a declaration, found {:?}", other),
        }
    }
    assert!(with > 0);
    assert!(without > 0);
}

#[test]
fn benchmark_configuration_builds_the_same_tree_every_time() {
    let first = Stmt::build_random_tree(SOURCE, 0, 7, 100, &());
    let second = Stmt::build_random_tree(SOURCE, 0, 7, 100, &());
    assert_eq!(first, second);
    assert!(stmt_fits(&first, SOURCE, 7, 100));
}

#[test]
fn benchmark_configuration_builds_the_same_tree_on_every_strategy() {
    let bump = Bump::new();
    let owned = Stmt::build_random_tree(SOURCE, 0, 7, 100, &());
    let in_arena = ast_bumped::Stmt::build_random_tree(SOURCE, 0, 7, 100, &bump);
    assert_eq!(in_arena.to_boxed(), owned);
    let other_bump = Bump::new();
    let again = ast_bumped::Stmt::build_random_tree(SOURCE, 0, 7, 100, &other_bump);
    assert_eq!(again.to_boxed(), owned);
}

#[test]
fn benchmark_configuration_rewrites_alike_on_every_strategy() {
    let bump = Bump::new();
    let mut owned = Stmt::build_random_tree(SOURCE, 0, 7, 100, &());
    let mut in_arena = ast_bumped::Stmt::build_random_tree(SOURCE, 0, 7, 100, &bump);
    let mut owned_hash = Hashing::new(DefaultHasher::new());
    let mut arena_hash = Hashing::new(DefaultHasher::new());
    owned.wrangle(&(), &mut owned_hash);
    in_arena.wrangle(&bump, &mut arena_hash);
    assert_eq!(in_arena.to_boxed(), owned);
    assert_eq!(owned_hash.into_hasher().finish(), arena_hash.into_hasher().finish());
}

#[test]
fn every_seed_builds_the_same_tree_on_both_strategies() {
    for seed in 0..40 {
        for (depth, width) in [(0, 0), (1, 1), (2, 3), (3, 5), (4, 8)] {
            let bump = Bump::new();
            let owned = Stmt::build_random_tree(SOURCE, seed, depth, width, &());
            let in_arena = ast_bumped::Stmt::build_random_tree(SOURCE, seed, depth, width, &bump);
            assert_eq!(in_arena.to_boxed(), owned);
        }
    }
}

#[test]
fn different_seeds_build_different_trees() {
    let first = Stmt::build_random_tree(SOURCE, 0, 7, 100, &());
    let second = Stmt::build_random_tree(SOURCE, 1, 7, 100, &());
    assert_ne!(first, second);
}

#[test]
fn built_trees_keep_to_their_budgets() {
    for seed in 0..60 {
        for (depth, width) in [(0, 0), (0, 9), (1, 1), (1, 2), (2, 2), (3, 4), (5, 6), (6, 20)] {
            let tree = Stmt::build_random_tree(SOURCE, seed, depth, width, &());
            assert!(stmt_fits(&tree, SOURCE, depth, width), "seed {seed}, {depth}, {width}");
            assert!(!has_placeholder(&tree));
        }
    }
}

#[test]
fn built_expressions_keep_to_their_budgets_at_any_width() {
    for seed in 0..60 {
        for (depth, width) in [(0, 0), (1, 0), (3, 0), (3, 1), (2, 2), (4, 3), (5, 7)] {
            let mut rng = rand::rngs::StdRng::seed_from_u64(seed);
            let tree = Expr::build_random_tree_with_rng(SOURCE, depth, width, &mut rng, &());
            assert!(expr_fits(&tree, SOURCE, depth, width), "seed {seed}, {depth}, {width}");
        }
    }
}

#[test]
fn narrow_expressions_are_groupings_down_to_a_variable() {
    for seed in 0..20 {
        let mut rng = rand::rngs::StdRng::seed_from_u64(seed);
        let tree = Expr::build_random_tree_with_rng(SOURCE, 3, 1, &mut rng, &());
        let (mut binary, mut comma, mut grouping) = (0, 0, 0);
        count_kinds(&tree, &mut binary, &mut comma, &mut grouping);
        assert_eq!((binary, comma, grouping), (0, 0, 3));
    }
}

#[test]
fn wide_expressions_come_in_every_kind() {
    let (mut binary, mut comma, mut grouping) = (0, 0, 0);
    for seed in 0..40 {
        let mut rng = rand::rngs::StdRng::seed_from_u64(seed);
        let tree = Expr::build_random_tree_with_rng(SOURCE, 4, 10, &mut rng, &());
        count_kinds(&tree, &mut binary, &mut comma, &mut grouping);
    }
    assert!(binary > 0);
    assert!(comma > 0);
    assert!(grouping > 0);
}

#[test]
fn statements_come_as_lists_and_as_expression_statements() {
    let (mut lists, mut expr_stmts) = (0, 0);
    for seed in 0..40 {
        match Stmt::build_random_tree(SOURCE, seed, 2, 5, &()).kind {
            StmtKind::List(_) => lists += 1,
            StmtKind::ExprStmt(_) => expr_stmts += 1,
            other => panic!("expected a list or an expression statement, found {:?}", other),
        }
    }
    assert!(lists > 0);
    assert!(expr_stmts > 0);
}

#[test]
fn generator_moves_on_between_two_builds() {
    let mut rng = rand::rngs::StdRng::seed_from_u64(7);
    let first = Stmt::build_random_tree_with_rng(SOURCE, 5, 12, &mut rng, &());
    let second = Stmt::build_random_tree_with_rng(SOURCE, 5, 12, &mut rng, &());
    assert_eq!(first, Stmt::build_random_tree(SOURCE, 7, 5, 12, &()));
    assert_ne!(first, second);
}

#[test]
fn slices_lie_within_the_source_and_stop_before_its_end() {
    let mut rng = rand::rngs::StdRng::seed_from_u64(3);
    let mut longest = 0;
    for _ in 0..200 {
        let name = ast_boxed::gen_slice(SOURCE, &mut rng);
        assert!(is_slice(name, SOURCE));
        assert!(name.len() < SOURCE.len());
        assert!(!name.ends_with('e'));
        longest = longest.max(name.len());
    }
    assert_eq!(longest, SOURCE.len() - 1);
}

#[test]
fn slice_of_a_single_character_is_empty() {
    let mut rng = rand::rngs::StdRng::seed_from_u64(3);
    for _ in 0..20 {
        assert_eq!(ast_boxed::gen_slice("x", &mut rng), "");
    }
}

#[test]
fn slices_borrow_from_the_source() {
    let source = String::from("borrowed text");
    let mut rng = rand::rngs::StdRng::seed_from_u64(11);
    let range = source.as_bytes().as_ptr_range();
    for _ in 0..50 {
        let name = ast_bumped::gen_slice(&source, &mut rng);
        assert!(range.contains(&name.as_ptr()) || name.is_empty());
    }
}

#[test]
fn rewrite_keeps_the_names_of_a_built_tree() {
    for seed in 0..30 {
        let mut tree = Stmt::build_random_tree(SOURCE, seed, 5, 10, &());
        let before = sorted_names(&tree);
        let mut log = Recorder::new();
        tree.wrangle(&(), &mut log);
        assert_eq!(sorted_names(&tree), before);
        assert_eq!(sorted_fed_names(&log), before);
        let mut again = Recorder::new();
        tree.wrangle(&(), &mut again);
        assert_eq!(sorted_fed_names(&again), before);
    }
}

#[test]
fn rewrite_leaves_no_placeholder_in_a_built_tree() {
    for seed in 0..30 {
        let mut tree = Stmt::build_random_tree(SOURCE, seed, 6, 12, &());
        tree.wrangle(&(), &mut Recorder::new());
        assert!(!has_placeholder(&tree));
        tree.wrangle(&(), &mut Recorder::new());
        assert!(!has_placeholder(&tree));
    }
}

#[test]
fn two_trees_of_one_seed_share_nothing() {
    let mut first = Stmt::build_random_tree(SOURCE, 5, 6, 12, &());
    let second = Stmt::build_random_tree(SOURCE, 5, 6, 12, &());
    first.wrangle(&(), &mut Recorder::new());
    assert_eq!(second, Stmt::build_random_tree(SOURCE, 5, 6, 12, &()));
}

#[test]
fn two_arena_trees_of_one_seed_share_nothing() {
    let first_arena = Bump::new();
    let second_arena = Bump::new();
    let mut first = ast_bumped::Stmt::build_random_tree(SOURCE, 5, 6, 12, &first_arena);
    let second = ast_bumped::Stmt::build_random_tree(SOURCE, 5, 6, 12, &second_arena);
    first.wrangle(&first_arena, &mut Recorder::new());
    assert_eq!(second.to_boxed(), Stmt::build_random_tree(SOURCE, 5, 6, 12, &()));
}

#[test]
fn draw_below_three_decides_the_kind_of_expression() {
    assert_eq!(ExprChoice::from_draw(0, 2), ExprChoice::Binary);
    assert_eq!(ExprChoice::from_draw(0, 100), ExprChoice::Binary);
    assert_eq!(ExprChoice::from_draw(1, 2), ExprChoice::Comma);
    assert_eq!(ExprChoice::from_draw(2, 2), ExprChoice::Grouping);
    assert_eq!(ExprChoice::from_draw(2, 0), ExprChoice::Grouping);
}

#[test]
fn too_narrow_a_width_falls_back_to_grouping() {
    assert_eq!(ExprChoice::from_draw(0, 1), ExprChoice::Grouping);
    assert_eq!(ExprChoice::from_draw(0, 0), ExprChoice::Grouping);
    assert_eq!(ExprChoice::from_draw(1, 1), ExprChoice::Grouping);
    assert_eq!(ExprChoice::from_draw(1, 0), ExprChoice::Grouping);
}

#[test]
fn built_binary_nodes_come_with_every_operator() {
    let mut seen = Vec::new();
    for seed in 0..60 {
        let mut rng = rand::rngs::StdRng::seed_from_u64(seed);
        operators(&Expr::build_random_tree_with_rng(SOURCE, 5, 12, &mut rng, &()), &mut seen);
    }
    for op in [BinOp::Add, BinOp::Sub, BinOp::Mul, BinOp::Div] {
        assert!(seen.contains(&op), "{:?} never came", op);
    }
}
