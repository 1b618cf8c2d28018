//! What holds of every rewrite, whichever strategy stores the tree.
use crate::model::{
    expr_feed, expr_names, exprs_feed, exprs_names, fed_names, null_free, stmt_feed, stmt_fits,
    stmt_names, stmts_feed, stmts_names, wrangled_expr, wrangled_exprs, wrangled_stmt,
    wrangled_stmts, BinOp, ExprKindModel, ExprModel, Feed, StmtKindModel, StmtModel,
};
use crate::Span;
use crate::{ast_boxed, ast_bumped};
use vstd::multiset::Multiset;
use vstd::prelude::*;

verus! {

// ---------------------------------------------------------------------------
// Strategies
// ---------------------------------------------------------------------------

/// Where a tree of owned nodes and a tree in an arena stand for the same
/// tree, their rewrites leave trees that stand for the same tree, and feed
/// the same things in the same order.
pub proof fn strategies_rewrite_alike(owned: ast_boxed::Stmt, in_arena: ast_bumped::Stmt)
    requires
        owned@ == in_arena@,
    ensures
        wrangled_stmt(owned@) == wrangled_stmt(in_arena@),
        stmt_feed(owned@) == stmt_feed(in_arena@),
{
}

// ---------------------------------------------------------------------------
// Shape
// ---------------------------------------------------------------------------

/// A comma list of n elements comes out as a comma list of n elements, and the
/// rewritten form of the element at `i` stands at n - 1 - `i`.
pub proof fn comma_list_is_reversed(items: Seq<ExprModel>, span: Span, i: int)
    requires
        0 <= i < items.len(),
    ensures
        wrangled_expr(ExprModel { kind: ExprKindModel::Comma(items), span }).span == span,
        wrangled_expr(ExprModel { kind: ExprKindModel::Comma(items), span }).kind is Comma,
        wrangled_expr(
            ExprModel { kind: ExprKindModel::Comma(items), span },
        ).kind->Comma_0.len() == items.len(),
        wrangled_expr(
            ExprModel { kind: ExprKindModel::Comma(items), span },
        ).kind->Comma_0[items.len() - 1 - i] == wrangled_expr(items[i]),
{
    let walked = wrangled_exprs(items);
    assert(walked.reverse().len() == items.len());
    assert(walked.reverse()[items.len() - 1 - i] == walked[i]);
}

/// A statement list of n elements comes out as a list of n elements, and the
/// rewritten form of the element at `i` stands at n - 1 - `i`.
pub proof fn statement_list_is_reversed(items: Seq<StmtModel>, span: Span, i: int)
    requires
        0 <= i < items.len(),
    ensures
        wrangled_stmt(StmtModel { kind: StmtKindModel::List(items), span }).span == span,
        wrangled_stmt(StmtModel { kind: StmtKindModel::List(items), span }).kind is List,
        wrangled_stmt(StmtModel { kind: StmtKindModel::List(items), span }).kind->List_0.len()
            == items.len(),
        wrangled_stmt(
            StmtModel { kind: StmtKindModel::List(items), span },
        ).kind->List_0[items.len() - 1 - i] == wrangled_stmt(items[i]),
{
    let walked = wrangled_stmts(items);
    assert(walked.reverse().len() == items.len());
    assert(walked.reverse()[items.len() - 1 - i] == walked[i]);
}

/// A sum or a product stays a binary node with its operator, and its
/// rewritten operands change places.
pub proof fn sum_and_product_exchange_operands(
    op: BinOp,
    left: ExprModel,
    right: ExprModel,
    span: Span,
)
    requires
        op == BinOp::Add || op == BinOp::Mul,
    ensures
        wrangled_expr(
            ExprModel { kind: ExprKindModel::Binary(op, Box::new(left), Box::new(right)), span },
        ) == (ExprModel {
            kind: ExprKindModel::Binary(
                op,
                Box::new(wrangled_expr(right)),
                Box::new(wrangled_expr(left)),
            ),
            span,
        }),
{
}

/// A difference or a quotient becomes the comma list of its two rewritten
/// operands, the left one first.
pub proof fn difference_and_quotient_become_comma(
    op: BinOp,
    left: ExprModel,
    right: ExprModel,
    span: Span,
)
    requires
        op == BinOp::Sub || op == BinOp::Div,
    ensures
        wrangled_expr(
            ExprModel { kind: ExprKindModel::Binary(op, Box::new(left), Box::new(right)), span },
        ) == (ExprModel {
            kind: ExprKindModel::Comma(seq![wrangled_expr(left), wrangled_expr(right)]),
            span,
        }),
        wrangled_expr(
            ExprModel { kind: ExprKindModel::Binary(op, Box::new(left), Box::new(right)), span },
        ).kind->Comma_0[0] == wrangled_expr(left),
        wrangled_expr(
            ExprModel { kind: ExprKindModel::Binary(op, Box::new(left), Box::new(right)), span },
        ).kind->Comma_0[1] == wrangled_expr(right),
{
}

/// What came of a difference or a quotient is no binary node, so that a
/// second rewrite cannot bring the operator back.
pub proof fn difference_and_quotient_do_not_return(
    op: BinOp,
    left: ExprModel,
    right: ExprModel,
    span: Span,
)
    requires
        op == BinOp::Sub || op == BinOp::Div,
    ensures
        !(wrangled_expr(
            wrangled_expr(
                ExprModel {
                    kind: ExprKindModel::Binary(op, Box::new(left), Box::new(right)),
                    span,
                },
            ),
        ).kind is Binary),
{
}

/// A grouping comes out as its content does when rewritten alone: the same
/// kind, and the same feed. It keeps its own span.
pub proof fn grouping_collapses(inner: ExprModel, span: Span)
    ensures
        wrangled_expr(ExprModel { kind: ExprKindModel::Grouping(Box::new(inner)), span }).kind
            == wrangled_expr(inner).kind,
        wrangled_expr(ExprModel { kind: ExprKindModel::Grouping(Box::new(inner)), span }).span
            == span,
        expr_feed(ExprModel { kind: ExprKindModel::Grouping(Box::new(inner)), span })
            == expr_feed(inner),
{
}

/// A declaration keeps its name, and has an initializer after the rewrite
/// exactly if it had one before.
pub proof fn declaration_keeps_its_initializer(
    name: Seq<char>,
    initializer: Option<ExprModel>,
    span: Span,
)
    ensures
        wrangled_stmt(
            StmtModel { kind: StmtKindModel::VarDecl(name, initializer), span },
        ).kind is VarDecl,
        wrangled_stmt(
            StmtModel { kind: StmtKindModel::VarDecl(name, initializer), span },
        ).kind->VarDecl_0 == name,
        wrangled_stmt(
            StmtModel { kind: StmtKindModel::VarDecl(name, initializer), span },
        ).kind->VarDecl_1 is Some <==> initializer is Some,
{
}

// ---------------------------------------------------------------------------
// The placeholder
// ---------------------------------------------------------------------------

/// No tree that the builder may return holds the placeholder.
pub proof fn built_tree_has_no_placeholder(s: StmtModel, source: Seq<char>, depth: nat, width: nat)
    requires
        stmt_fits(s, source, depth, width),
    ensures
        null_free(s),
    decreases s,
{
    if depth > 0 {
        match s.kind {
            StmtKindModel::List(items) => {
                assert forall|i: int| 0 <= i < items.len() implies null_free(
                    #[trigger] items[i],
                ) by {
                    built_tree_has_no_placeholder(
                        items[i],
                        source,
                        (depth - 1) as nat,
                        (width - items.len()) as nat,
                    );
                }
            },
            _ => {},
        }
    }
}

/// A tree without the placeholder has none after the rewrite.
pub proof fn rewrite_brings_no_placeholder(s: StmtModel)
    requires
        null_free(s),
    ensures
        null_free(wrangled_stmt(s)),
    decreases s,
{
    match s.kind {
        StmtKindModel::List(items) => {
            let out = wrangled_stmts(items).reverse();
            assert forall|i: int| 0 <= i < out.len() implies null_free(#[trigger] out[i]) by {
                let k = items.len() - 1 - i;
                assert(out[i] == wrangled_stmt(items[k]));
                assert(null_free(items[k]));
                rewrite_brings_no_placeholder(items[k]);
            }
        },
        _ => {},
    }
}

// ---------------------------------------------------------------------------
// Leaf names
// ---------------------------------------------------------------------------

proof fn exprs_names_of_one(e: ExprModel)
    ensures
        exprs_names(seq![e]) =~= expr_names(e),
{
    assert(seq![e].drop_last() =~= Seq::<ExprModel>::empty());
    assert(exprs_names(Seq::<ExprModel>::empty()) =~= Multiset::empty());
}

proof fn stmts_names_of_one(s: StmtModel)
    ensures
        stmts_names(seq![s]) =~= stmt_names(s),
{
    assert(seq![s].drop_last() =~= Seq::<StmtModel>::empty());
    assert(stmts_names(Seq::<StmtModel>::empty()) =~= Multiset::empty());
}

proof fn exprs_names_of_concat(a: Seq<ExprModel>, b: Seq<ExprModel>)
    ensures
        exprs_names(a + b) =~= exprs_names(a).add(exprs_names(b)),
    decreases b.len(),
{
    if b.len() == 0 {
        assert(a + b =~= a);
    } else {
        assert((a + b).drop_last() =~= a + b.drop_last());
        assert((a + b).last() == b.last());
        exprs_names_of_concat(a, b.drop_last());
    }
}

proof fn exprs_names_of_reverse(items: Seq<ExprModel>)
    ensures
        exprs_names(items.reverse()) =~= exprs_names(items),
    decreases items.len(),
{
    if items.len() > 0 {
        let head = seq![items.last()];
        assert(items.reverse() =~= head + items.drop_last().reverse());
        exprs_names_of_concat(head, items.drop_last().reverse());
        exprs_names_of_reverse(items.drop_last());
        exprs_names_of_one(items.last());
    }
}

proof fn stmts_names_of_concat(a: Seq<StmtModel>, b: Seq<StmtModel>)
    ensures
        stmts_names(a + b) =~= stmts_names(a).add(stmts_names(b)),
    decreases b.len(),
{
    if b.len() == 0 {
        assert(a + b =~= a);
    } else {
        assert((a + b).drop_last() =~= a + b.drop_last());
        assert((a + b).last() == b.last());
        stmts_names_of_concat(a, b.drop_last());
    }
}

proof fn stmts_names_of_reverse(items: Seq<StmtModel>)
    ensures
        stmts_names(items.reverse()) =~= stmts_names(items),
    decreases items.len(),
{
    if items.len() > 0 {
        let head = seq![items.last()];
        assert(items.reverse() =~= head + items.drop_last().reverse());
        stmts_names_of_concat(head, items.drop_last().reverse());
        stmts_names_of_reverse(items.drop_last());
        stmts_names_of_one(items.last());
    }
}

/// The rewrite keeps the names of an expression: the same names, each as
/// often as before.
pub proof fn rewrite_keeps_expr_names(e: ExprModel)
    ensures
        expr_names(wrangled_expr(e)) == expr_names(e),
    decreases e,
{
    match e.kind {
        ExprKindModel::Variable(_) => {},
        ExprKindModel::Binary(op, left, right) => {
            rewrite_keeps_expr_names(*left);
            rewrite_keeps_expr_names(*right);
            let l = wrangled_expr(*left);
            let r = wrangled_expr(*right);
            if op.commutes() {
                assert(expr_names(r).add(expr_names(l)) =~= expr_names(l).add(expr_names(r)));
            } else {
                let pair = seq![l, r];
                assert(pair.drop_last() =~= seq![l]);
                exprs_names_of_one(l);
                assert(exprs_names(pair) =~= expr_names(l).add(expr_names(r)));
            }
        },
        ExprKindModel::Grouping(inner) => {
            rewrite_keeps_expr_names(*inner);
        },
        ExprKindModel::Comma(items) => {
            rewrite_keeps_exprs_names(items);
            exprs_names_of_reverse(wrangled_exprs(items));
        },
    }
}

proof fn rewrite_keeps_exprs_names(items: Seq<ExprModel>)
    ensures
        exprs_names(wrangled_exprs(items)) == exprs_names(items),
    decreases items,
{
    if items.len() == 0 {
        assert(wrangled_exprs(items) =~= Seq::<ExprModel>::empty());
    } else {
        assert(wrangled_exprs(items).drop_last() =~= wrangled_exprs(items.drop_last()));
        rewrite_keeps_exprs_names(items.drop_last());
        rewrite_keeps_expr_names(items.last());
    }
}

/// The rewrite keeps the names of a statement: the same names, each as often
/// as before.
pub proof fn rewrite_keeps_stmt_names(s: StmtModel)
    ensures
        stmt_names(wrangled_stmt(s)) == stmt_names(s),
    decreases s,
{
    match s.kind {
        StmtKindModel::VarDecl(_, initializer) => {
            match initializer {
                Some(e) => {
                    rewrite_keeps_expr_names(e);
                },
                None => {},
            }
        },
        StmtKindModel::List(items) => {
            rewrite_keeps_stmts_names(items);
            stmts_names_of_reverse(wrangled_stmts(items));
        },
        StmtKindModel::ExprStmt(e) => {
            rewrite_keeps_expr_names(*e);
        },
        StmtKindModel::NullNode => {},
    }
}

proof fn rewrite_keeps_stmts_names(items: Seq<StmtModel>)
    ensures
        stmts_names(wrangled_stmts(items)) == stmts_names(items),
    decreases items,
{
    if items.len() == 0 {
        assert(wrangled_stmts(items) =~= Seq::<StmtModel>::empty());
    } else {
        assert(wrangled_stmts(items).drop_last() =~= wrangled_stmts(items.drop_last()));
        rewrite_keeps_stmts_names(items.drop_last());
        rewrite_keeps_stmt_names(items.last());
    }
}

// ---------------------------------------------------------------------------
// Leaf names in the feed
// ---------------------------------------------------------------------------

proof fn fed_names_of_concat(a: Seq<Feed>, b: Seq<Feed>)
    ensures
        fed_names(a + b) =~= fed_names(a).add(fed_names(b)),
    decreases b.len(),
{
    if b.len() == 0 {
        assert(a + b =~= a);
    } else {
        assert((a + b).drop_last() =~= a + b.drop_last());
        assert((a + b).last() == b.last());
        fed_names_of_concat(a, b.drop_last());
    }
}

proof fn fed_names_of_one(feed: Feed)
    ensures
        fed_names(seq![feed]) =~= match feed {
            Feed::Name(name) => Multiset::singleton(name),
            Feed::Op(_) => Multiset::empty(),
        },
{
    assert(seq![feed].drop_last() =~= Seq::<Feed>::empty());
    assert(fed_names(Seq::<Feed>::empty()) =~= Multiset::empty());
}

/// Rewriting an expression feeds each of its names once, and no other name.
pub proof fn rewrite_feeds_expr_names(e: ExprModel)
    ensures
        fed_names(expr_feed(e)) == expr_names(e),
    decreases e,
{
    match e.kind {
        ExprKindModel::Variable(name) => {
            fed_names_of_one(Feed::Name(name));
        },
        ExprKindModel::Binary(op, left, right) => {
            rewrite_feeds_expr_names(*left);
            rewrite_feeds_expr_names(*right);
            fed_names_of_one(Feed::Op(op));
            fed_names_of_concat(seq![Feed::Op(op)], expr_feed(*left));
            fed_names_of_concat(seq![Feed::Op(op)] + expr_feed(*left), expr_feed(*right));
            assert(fed_names(expr_feed(e)) =~= expr_names(e));
        },
        ExprKindModel::Grouping(inner) => {
            rewrite_feeds_expr_names(*inner);
        },
        ExprKindModel::Comma(items) => {
            rewrite_feeds_exprs_names(items);
        },
    }
}

proof fn rewrite_feeds_exprs_names(items: Seq<ExprModel>)
    ensures
        fed_names(exprs_feed(items)) == exprs_names(items),
    decreases items,
{
    if items.len() > 0 {
        rewrite_feeds_exprs_names(items.drop_last());
        rewrite_feeds_expr_names(items.last());
        fed_names_of_concat(exprs_feed(items.drop_last()), expr_feed(items.last()));
    }
}

/// Rewriting a statement feeds each of its names once, and no other name.
pub proof fn rewrite_feeds_stmt_names(s: StmtModel)
    ensures
        fed_names(stmt_feed(s)) == stmt_names(s),
    decreases s,
{
    match s.kind {
        StmtKindModel::VarDecl(name, initializer) => {
            fed_names_of_one(Feed::Name(name));
            match initializer {
                Some(e) => {
                    rewrite_feeds_expr_names(e);
                    fed_names_of_concat(seq![Feed::Name(name)], expr_feed(e));
                },
                None => {
                    assert(seq![Feed::Name(name)] + Seq::<Feed>::empty() =~= seq![
                        Feed::Name(name),
                    ]);
                },
            }
        },
        StmtKindModel::List(items) => {
            rewrite_feeds_stmts_names(items);
        },
        StmtKindModel::ExprStmt(e) => {
            rewrite_feeds_expr_names(*e);
        },
        StmtKindModel::NullNode => {},
    }
}

proof fn rewrite_feeds_stmts_names(items: Seq<StmtModel>)
    ensures
        fed_names(stmts_feed(items)) == stmts_names(items),
    decreases items,
{
    if items.len() > 0 {
        rewrite_feeds_stmts_names(items.drop_last());
        rewrite_feeds_stmt_names(items.last());
        fed_names_of_concat(stmts_feed(items.drop_last()), stmt_feed(items.last()));
    }
}

/// A second rewrite feeds the names that the first one fed, each as often:
/// the rewrite changes where the names stand, not which they are.
pub proof fn rewritten_tree_feeds_the_same_names(s: StmtModel)
    ensures
        fed_names(stmt_feed(wrangled_stmt(s))) == fed_names(stmt_feed(s)),
{
    rewrite_keeps_stmt_names(s);
    rewrite_feeds_stmt_names(s);
    rewrite_feeds_stmt_names(wrangled_stmt(s));
}

} // verus!
