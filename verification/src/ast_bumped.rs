//! The tree whose nodes live in one bump arena: each is carved from it, none
//! is freed alone, and all go when the arena goes.
use crate::accumulator::Accumulator;
use crate::arena::{BinaryBox, DeclBox, ExprBox, ExprVec, StmtVec};
use crate::arena::{boxed_binary, boxed_decl, boxed_expr, held_exprs, held_stmts};
use crate::laws::{
    built_tree_has_no_placeholder, rewrite_brings_no_placeholder, rewrite_keeps_expr_names,
    rewrite_keeps_stmt_names,
};
use crate::ast_boxed;
use crate::model::{
    expr_feed, expr_fits, expr_names, exprs_feed, null_free, stmt_feed, stmt_fits, stmt_names,
    stmts_feed, wrangled_expr, wrangled_exprs, wrangled_stmt, wrangled_stmts, ExprChoice,
    ExprKindModel, ExprModel, StmtKindModel, StmtModel,
};
use crate::random::{draw_between, draw_bool, draw_choice, draw_word, seeded};
use crate::Span;
use bumpalo::Bump;
use rand::rngs::StdRng;
use vstd::prelude::*;

pub use crate::arena::{alloc_binary, alloc_decl, alloc_expr, alloc_exprs, alloc_stmts};
pub use crate::ast_boxed::gen_slice;
pub use crate::model::BinOp;

verus! {

/// The two operands of a binary node and its operator.
#[derive(Debug, PartialEq)]
pub struct Binary<'a> {
    pub left: Expr<'a>,
    pub op: BinOp,
    pub right: Expr<'a>,
}

/// What an expression is. A name borrows from the source text.
#[derive(Debug, PartialEq)]
pub enum ExprKind<'a> {
    Variable(&'a str),
    Binary(BinaryBox<'a>),
    Grouping(ExprBox<'a>),
    Comma(ExprVec<'a>),
}

/// An expression with its span.
#[derive(Debug, PartialEq)]
pub struct Expr<'a> {
    pub kind: ExprKind<'a>,
    pub span: Span,
}

/// The name of a declaration and its initializer, if it has one.
#[derive(Debug, PartialEq)]
pub struct VarDecl<'a> {
    pub name: &'a str,
    pub initializer: Option<Expr<'a>>,
}

/// What a statement is. `NullNode` is the placeholder that stands in a node
/// while a rewrite has its content out; no builder makes it.
#[derive(Debug, PartialEq)]
pub enum StmtKind<'a> {
    VarDecl(DeclBox<'a>),
    List(StmtVec<'a>),
    ExprStmt(ExprBox<'a>),
    NullNode,
}

/// A statement with its span.
#[derive(Debug, PartialEq)]
pub struct Stmt<'a> {
    pub kind: StmtKind<'a>,
    pub span: Span,
}

impl<'a> View for Expr<'a> {
    type V = ExprModel;

    /// The mathematical tree that the expression stands for.
    open spec fn view(&self) -> ExprModel {
        ExprModel {
            kind: match self.kind {
                ExprKind::Variable(name) => ExprKindModel::Variable(name@),
                ExprKind::Binary(node) => ExprKindModel::Binary(
                    boxed_binary(node).1,
                    Box::new(boxed_binary(node).0),
                    Box::new(boxed_binary(node).2),
                ),
                ExprKind::Grouping(node) => ExprKindModel::Grouping(Box::new(boxed_expr(node))),
                ExprKind::Comma(items) => ExprKindModel::Comma(held_exprs(items)),
            },
            span: self.span,
        }
    }
}

impl<'a> View for Binary<'a> {
    type V = (ExprModel, BinOp, ExprModel);

    /// Left operand, operator, right operand.
    open spec fn view(&self) -> (ExprModel, BinOp, ExprModel) {
        (self.left@, self.op, self.right@)
    }
}

impl<'a> View for VarDecl<'a> {
    type V = (Seq<char>, Option<ExprModel>);

    /// Name and initializer.
    open spec fn view(&self) -> (Seq<char>, Option<ExprModel>) {
        (
            self.name@,
            match self.initializer {
                Some(e) => Some(e@),
                None => None,
            },
        )
    }
}

impl<'a> View for Stmt<'a> {
    type V = StmtModel;

    /// The mathematical tree that the statement stands for.
    open spec fn view(&self) -> StmtModel {
        StmtModel {
            kind: match self.kind {
                StmtKind::VarDecl(node) => StmtKindModel::VarDecl(
                    boxed_decl(node).0,
                    boxed_decl(node).1,
                ),
                StmtKind::List(items) => StmtKindModel::List(held_stmts(items)),
                StmtKind::ExprStmt(node) => StmtKindModel::ExprStmt(Box::new(boxed_expr(node))),
                StmtKind::NullNode => StmtKindModel::NullNode,
            },
            span: self.span,
        }
    }
}

impl<'a> Expr<'a> {
    /// Builds a random expression over `source` from the draws of `rng`, at
    /// most `depth` levels deep, in the arena `ctx`.
    pub fn build_random_tree_with_rng(
        source: &'a str,
        depth: usize,
        max_width: usize,
        rng: &mut StdRng,
        ctx: &'a Bump,
    ) -> (tree: Self)
        requires
            source.is_ascii(),
            source@.len() > 0,
        ensures
            expr_fits(tree@, source@, depth as nat, max_width as nat),
        decreases depth,
    {
        let kind = if depth > 0 {
            match ExprChoice::from_draw(draw_choice(rng, 3), max_width) {
                ExprChoice::Binary => {
                    let left = Expr::build_random_tree_with_rng(
                        source,
                        depth - 1,
                        max_width - 2,
                        rng,
                        ctx,
                    );
                    let right = Expr::build_random_tree_with_rng(
                        source,
                        depth - 1,
                        max_width - 2,
                        rng,
                        ctx,
                    );
                    ExprKind::Binary(
                        alloc_binary(
                            Binary { left, right, op: BinOp::from_index(draw_choice(rng, 4)) },
                            ctx,
                        ),
                    )
                },
                ExprChoice::Comma => {
                    let count = draw_between(rng, 0, max_width);
                    let mut exprs = alloc_exprs(ctx);
                    let mut made: usize = 0;
                    while made < count
                        invariant
                            made <= count < max_width,
                            depth > 0,
                            source.is_ascii(),
                            source@.len() > 0,
                            held_exprs(exprs).len() == made,
                            forall|j: int|
                                0 <= j < made ==> expr_fits(
                                    #[trigger] held_exprs(exprs)[j],
                                    source@,
                                    (depth - 1) as nat,
                                    (max_width - count) as nat,
                                ),
                        decreases count - made,
                    {
                        let item = Expr::build_random_tree_with_rng(
                            source,
                            depth - 1,
                            max_width - count,
                            rng,
                            ctx,
                        );
                        exprs.push(item);
                        made = made + 1;
                    }
                    ExprKind::Comma(exprs)
                },
                ExprChoice::Grouping => ExprKind::Grouping(
                    alloc_expr(
                        Expr::build_random_tree_with_rng(source, depth - 1, max_width, rng, ctx),
                        ctx,
                    ),
                ),
            }
        } else {
            ExprKind::Variable(gen_slice(source, rng))
        };
        let start = draw_word(rng);
        let end = draw_word(rng);
        Expr { kind, span: start..end }
    }

    /// The same expression with nodes that are owned one by one.
    pub fn to_boxed(&self) -> (copy: ast_boxed::Expr<'a>)
        ensures
            copy@ == self@,
        decreases self@,
    {
        let kind = match &self.kind {
            ExprKind::Variable(name) => ast_boxed::ExprKind::Variable(*name),
            ExprKind::Binary(node) => {
                let b = node.get();
                assert(decreases_to!(self@ => b.left@)) by {
                    assert(*self@.kind->Binary_1 == b.left@);
                }
                assert(decreases_to!(self@ => b.right@)) by {
                    assert(*self@.kind->Binary_2 == b.right@);
                }
                let left = b.left.to_boxed();
                let right = b.right.to_boxed();
                ast_boxed::ExprKind::Binary(
                    ast_boxed::alloc_node(ast_boxed::Binary { left, op: b.op, right }, &()),
                )
            },
            ExprKind::Grouping(node) => {
                let inner = node.get();
                assert(decreases_to!(self@ => inner@)) by {
                    assert(*self@.kind->Grouping_0 == inner@);
                }
                ast_boxed::ExprKind::Grouping(ast_boxed::alloc_node(inner.to_boxed(), &()))
            },
            ExprKind::Comma(items) => {
                let n = items.len();
                let mut copies: ast_boxed::Vec<'a, ast_boxed::Expr<'a>> = ast_boxed::alloc_vec(&());
                let mut i: usize = 0;
                while i < n
                    invariant
                        i <= n,
                        n == held_exprs(*items).len(),
                        self@.kind == ExprKindModel::Comma(held_exprs(*items)),
                        copies@.len() == i,
                        forall|j: int|
                            0 <= j < i ==> (#[trigger] copies@[j])@ == held_exprs(*items)[j],
                    decreases n - i,
                {
                    let item = items.get(i);
                    assert(decreases_to!(self@ => held_exprs(*items)[i as int])) by {
                        assert(self@.kind->Comma_0 == held_exprs(*items));
                    }
                    copies.push(item.to_boxed());
                    i = i + 1;
                }
                assert(ast_boxed::exprs_view(copies@) =~= held_exprs(*items));
                ast_boxed::ExprKind::Comma(copies)
            },
        };
        ast_boxed::Expr { kind, span: self.span.start..self.span.end }
    }

    /// Rewrites the expression in place and feeds `state` on the way.
    pub fn wrangle<A: Accumulator>(&mut self, ctx: &'a Bump, state: &mut A)
        ensures
            final(self)@ == wrangled_expr(old(self)@),
            final(state).fed() == old(state).fed() + expr_feed(old(self)@),
            expr_names(final(self)@) == expr_names(old(self)@),
        decreases old(self)@,
    {
        let ghost start = self@;
        proof {
            rewrite_keeps_expr_names(start);
        }
        let ghost fed = state.fed();
        let kind = std::mem::replace(&mut self.kind, ExprKind::Variable(""));
        self.kind = match kind {
            ExprKind::Variable(v) => {
                state.feed_name(v);
                assert(state.fed() =~= fed + expr_feed(start));
                ExprKind::Variable(v)
            },
            ExprKind::Binary(mut v) => {
                let node = v.get_mut();
                let ghost left_before = node.left@;
                let ghost right_before = node.right@;
                state.feed_op(node.op);
                node.left.wrangle(ctx, state);
                node.right.wrangle(ctx, state);
                assert(state.fed() =~= fed + expr_feed(start));
                let left = std::mem::replace(
                    &mut node.left,
                    Expr { span: 0..0, kind: ExprKind::Variable("") },
                );
                let right = std::mem::replace(
                    &mut node.right,
                    Expr { span: 0..0, kind: ExprKind::Variable("") },
                );
                if matches!(node.op, BinOp::Add | BinOp::Mul) {
                    node.right = left;
                    node.left = right;
                    ExprKind::Binary(v)
                } else {
                    let mut c = alloc_exprs(ctx);
                    c.push(left);
                    c.push(right);
                    assert(held_exprs(c) =~= seq![
                        wrangled_expr(left_before),
                        wrangled_expr(right_before),
                    ]);
                    ExprKind::Comma(c)
                }
            },
            ExprKind::Grouping(mut g) => {
                let inner = g.get_mut();
                inner.wrangle(ctx, state);
                std::mem::replace(&mut inner.kind, ExprKind::Variable(""))
            },
            ExprKind::Comma(mut c) => {
                let ghost before = held_exprs(c);
                let n = c.len();
                let mut i: usize = 0;
                assert(before.take(0) =~= Seq::empty());
                assert(state.fed() =~= fed + exprs_feed(before.take(0)));
                while i < n
                    invariant
                        i <= n,
                        n == before.len(),
                        held_exprs(c).len() == n,
                        start == old(self)@,
                        start.kind == ExprKindModel::Comma(before),
                        forall|j: int| 0 <= j < i ==> held_exprs(c)[j] == wrangled_expr(before[j]),
                        forall|j: int| i <= j < n ==> held_exprs(c)[j] == before[j],
                        state.fed() == fed + exprs_feed(before.take(i as int)),
                    decreases n - i,
                {
                    let ghost fed_so_far = state.fed();
                    let item = c.get_mut(i);
                    assert(decreases_to!(start => before[i as int])) by {
                        assert(start.kind->Comma_0 == before);
                    }
                    item.wrangle(ctx, state);
                    assert(state.fed() =~= fed + exprs_feed(before.take(i + 1))) by {
                        assert(before.take(i + 1).drop_last() =~= before.take(i as int));
                        assert(before.take(i + 1).last() == before[i as int]);
                        assert(state.fed() == fed_so_far + expr_feed(before[i as int]));
                    }
                    i = i + 1;
                }
                assert(before.take(n as int) =~= before);
                assert(held_exprs(c) =~= wrangled_exprs(before));
                c.reverse();
                ExprKind::Comma(c)
            },
        };
    }
}

impl<'a> Stmt<'a> {
    /// Builds a random statement over `source` from a generator seeded with
    /// `seed`, at most `depth` levels deep, in the arena `ctx`.
    pub fn build_random_tree(
        source: &'a str,
        seed: u64,
        depth: usize,
        max_width: usize,
        ctx: &'a Bump,
    ) -> (tree: Self)
        requires
            source.is_ascii(),
            source@.len() > 0,
            depth > 0 ==> max_width > 0,
        ensures
            stmt_fits(tree@, source@, depth as nat, max_width as nat),
            null_free(tree@),
    {
        let mut rng = seeded(seed);
        Self::build_random_tree_with_rng(source, depth, max_width, &mut rng, ctx)
    }

    /// Builds a random statement over `source` from the draws of `rng`, at
    /// most `depth` levels deep, in the arena `ctx`.
    pub fn build_random_tree_with_rng(
        source: &'a str,
        depth: usize,
        max_width: usize,
        rng: &mut StdRng,
        ctx: &'a Bump,
    ) -> (tree: Self)
        requires
            source.is_ascii(),
            source@.len() > 0,
            depth > 0 ==> max_width > 0,
        ensures
            stmt_fits(tree@, source@, depth as nat, max_width as nat),
            null_free(tree@),
        decreases depth,
    {
        let kind = if depth > 0 {
            match draw_bool(rng) {
                false => {
                    let count = draw_between(rng, 0, max_width);
                    let mut stmts = alloc_stmts(ctx);
                    let mut made: usize = 0;
                    while made < count
                        invariant
                            made <= count < max_width,
                            depth > 0,
                            source.is_ascii(),
                            source@.len() > 0,
                            held_stmts(stmts).len() == made,
                            forall|j: int|
                                0 <= j < made ==> stmt_fits(
                                    #[trigger] held_stmts(stmts)[j],
                                    source@,
                                    (depth - 1) as nat,
                                    (max_width - count) as nat,
                                ),
                        decreases count - made,
                    {
                        let item = Stmt::build_random_tree_with_rng(
                            source,
                            depth - 1,
                            max_width - count,
                            rng,
                            ctx,
                        );
                        stmts.push(item);
                        made = made + 1;
                    }
                    StmtKind::List(stmts)
                },
                true => StmtKind::ExprStmt(
                    alloc_expr(
                        Expr::build_random_tree_with_rng(source, depth - 1, max_width, rng, ctx),
                        ctx,
                    ),
                ),
            }
        } else {
            let name = gen_slice(source, rng);
            let initializer = if draw_bool(rng) {
                Some(Expr::build_random_tree_with_rng(source, 0, max_width, rng, ctx))
            } else {
                None
            };
            StmtKind::VarDecl(alloc_decl(VarDecl { name, initializer }, ctx))
        };
        let start = draw_word(rng);
        let end = draw_word(rng);
        let tree = Stmt { kind, span: start..end };
        proof {
            built_tree_has_no_placeholder(tree@, source@, depth as nat, max_width as nat);
        }
        tree
    }

    /// The same statement with nodes that are owned one by one.
    pub fn to_boxed(&self) -> (copy: ast_boxed::Stmt<'a>)
        ensures
            copy@ == self@,
        decreases self@,
    {
        let kind = match &self.kind {
            StmtKind::VarDecl(node) => {
                let d = node.get();
                let initializer = match &d.initializer {
                    Some(e) => Some(e.to_boxed()),
                    None => None,
                };
                ast_boxed::StmtKind::VarDecl(
                    ast_boxed::alloc_node(ast_boxed::VarDecl { name: d.name, initializer }, &()),
                )
            },
            StmtKind::List(items) => {
                let n = items.len();
                let mut copies: ast_boxed::Vec<'a, ast_boxed::Stmt<'a>> = ast_boxed::alloc_vec(&());
                let mut i: usize = 0;
                while i < n
                    invariant
                        i <= n,
                        n == held_stmts(*items).len(),
                        self@.kind == StmtKindModel::List(held_stmts(*items)),
                        copies@.len() == i,
                        forall|j: int|
                            0 <= j < i ==> (#[trigger] copies@[j])@ == held_stmts(*items)[j],
                    decreases n - i,
                {
                    let item = items.get(i);
                    assert(decreases_to!(self@ => held_stmts(*items)[i as int])) by {
                        assert(self@.kind->List_0 == held_stmts(*items));
                    }
                    copies.push(item.to_boxed());
                    i = i + 1;
                }
                assert(ast_boxed::stmts_view(copies@) =~= held_stmts(*items));
                ast_boxed::StmtKind::List(copies)
            },
            StmtKind::ExprStmt(node) => ast_boxed::StmtKind::ExprStmt(
                ast_boxed::alloc_node(node.get().to_boxed(), &()),
            ),
            StmtKind::NullNode => ast_boxed::StmtKind::NullNode,
        };
        ast_boxed::Stmt { kind, span: self.span.start..self.span.end }
    }

    /// Rewrites the statement in place and feeds `state` on the way. While
    /// the old content is out, the placeholder stands in its place.
    pub fn wrangle<A: Accumulator>(&mut self, ctx: &'a Bump, state: &mut A)
        ensures
            final(self)@ == wrangled_stmt(old(self)@),
            final(state).fed() == old(state).fed() + stmt_feed(old(self)@),
            stmt_names(final(self)@) == stmt_names(old(self)@),
            null_free(old(self)@) ==> null_free(final(self)@),
        decreases old(self)@,
    {
        let ghost start = self@;
        proof {
            rewrite_keeps_stmt_names(start);
            if null_free(start) {
                rewrite_brings_no_placeholder(start);
            }
        }
        let ghost fed = state.fed();
        let kind = std::mem::replace(&mut self.kind, StmtKind::NullNode);
        self.kind = match kind {
            StmtKind::VarDecl(mut v) => {
                let node = v.get_mut();
                state.feed_name(node.name);
                match &mut node.initializer {
                    Some(e) => {
                        e.wrangle(ctx, state);
                    },
                    None => {},
                }
                assert(state.fed() =~= fed + stmt_feed(start));
                StmtKind::VarDecl(v)
            },
            StmtKind::ExprStmt(mut e) => {
                e.get_mut().wrangle(ctx, state);
                StmtKind::ExprStmt(e)
            },
            StmtKind::List(mut c) => {
                let ghost before = held_stmts(c);
                let n = c.len();
                let mut i: usize = 0;
                assert(before.take(0) =~= Seq::empty());
                assert(state.fed() =~= fed + stmts_feed(before.take(0)));
                while i < n
                    invariant
                        i <= n,
                        n == before.len(),
                        held_stmts(c).len() == n,
                        start == old(self)@,
                        start.kind == StmtKindModel::List(before),
                        forall|j: int| 0 <= j < i ==> held_stmts(c)[j] == wrangled_stmt(before[j]),
                        forall|j: int| i <= j < n ==> held_stmts(c)[j] == before[j],
                        state.fed() == fed + stmts_feed(before.take(i as int)),
                    decreases n - i,
                {
                    let ghost fed_so_far = state.fed();
                    let item = c.get_mut(i);
                    assert(decreases_to!(start => before[i as int])) by {
                        assert(start.kind->List_0 == before);
                    }
                    item.wrangle(ctx, state);
                    assert(state.fed() =~= fed + stmts_feed(before.take(i + 1))) by {
                        assert(before.take(i + 1).drop_last() =~= before.take(i as int));
                        assert(before.take(i + 1).last() == before[i as int]);
                        assert(state.fed() == fed_so_far + stmt_feed(before[i as int]));
                    }
                    i = i + 1;
                }
                assert(before.take(n as int) =~= before);
                assert(held_stmts(c) =~= wrangled_stmts(before));
                c.reverse();
                StmtKind::List(c)
            },
            StmtKind::NullNode => {
                assert(state.fed() =~= fed + stmt_feed(start));
                StmtKind::NullNode
            },
        };
    }
}

} // verus!
