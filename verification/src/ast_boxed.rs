//! The tree whose nodes are owned one by one: each is allocated on its own and
//! freed when its parent is.
use crate::accumulator::Accumulator;
use crate::laws::{
    built_tree_has_no_placeholder, rewrite_brings_no_placeholder, rewrite_keeps_expr_names,
    rewrite_keeps_stmt_names,
};
use crate::model::{
    expr_feed, expr_fits, expr_names, exprs_feed, is_slice_of, null_free, stmt_feed, stmt_fits,
    stmt_names, stmts_feed, wrangled_expr, wrangled_exprs, wrangled_stmt, wrangled_stmts,
    ExprChoice, ExprKindModel, ExprModel, StmtKindModel, StmtModel,
};
use crate::random::{draw_between, draw_bool, draw_choice, draw_word, seeded};
use crate::std_ext::reverse_items;
use crate::Span;
use rand::rngs::StdRng;
use std::marker::PhantomData;
use vstd::prelude::*;
use vstd::string::StrSliceExecFns;

pub use crate::model::BinOp;

verus! {

/// A growable sequence that owns its items and is tied to the lifetime of the
/// strategy context, as the arena's sequences are.
#[derive(Debug, PartialEq)]
pub struct Vec<'a, T> {
    v: std::vec::Vec<T>,
    _pd: PhantomData<&'a ()>,
}

impl<'a, T> View for Vec<'a, T> {
    type V = Seq<T>;

    /// The items, first to last.
    closed spec fn view(&self) -> Seq<T> {
        self.v@
    }
}

impl<'a, T> std::ops::Deref for Vec<'a, T> {
    type Target = std::vec::Vec<T>;

    /// The items, to read.
    fn deref(&self) -> (items: &std::vec::Vec<T>)
        ensures
            items@ == self@,
    {
        &self.v
    }
}

impl<'a, T> std::ops::DerefMut for Vec<'a, T> {
    /// The items, to change.
    fn deref_mut(&mut self) -> (items: &mut std::vec::Vec<T>)
        ensures
            items@ == old(self)@,
            final(self)@ == final(items)@,
    {
        &mut self.v
    }
}

/// The two operands of a binary node and its operator.
#[derive(Debug, PartialEq)]
pub struct Binary<'a> {
    pub left: Expr<'a>,
    pub op: BinOp,
    pub right: Expr<'a>,
}

/// What an expression is. A name borrows from the source text.
#[derive(Debug, PartialEq)]
pub enum ExprKind<'a> {
    Variable(&'a str),
    Binary(Box<Binary<'a>>),
    Grouping(Box<Expr<'a>>),
    Comma(Vec<'a, Expr<'a>>),
}

/// An expression with its span.
#[derive(Debug, PartialEq)]
pub struct Expr<'a> {
    pub kind: ExprKind<'a>,
    pub span: Span,
}

/// The name of a declaration and its initializer, if it has one.
#[derive(Debug, PartialEq)]
pub struct VarDecl<'a> {
    pub name: &'a str,
    pub initializer: Option<Expr<'a>>,
}

/// What a statement is. `NullNode` is the placeholder that stands in a node
/// while a rewrite has its content out; no builder makes it.
#[derive(Debug, PartialEq)]
pub enum StmtKind<'a> {
    VarDecl(Box<VarDecl<'a>>),
    List(Vec<'a, Stmt<'a>>),
    ExprStmt(Box<Expr<'a>>),
    NullNode,
}

/// A statement with its span.
#[derive(Debug, PartialEq)]
pub struct Stmt<'a> {
    pub kind: StmtKind<'a>,
    pub span: Span,
}

/// The mathematical tree that `e` stands for.
pub open spec fn expr_view(e: Expr) -> ExprModel
    decreases e,
{
    ExprModel {
        kind: match e.kind {
            ExprKind::Variable(name) => ExprKindModel::Variable(name@),
            ExprKind::Binary(b) => ExprKindModel::Binary(
                b.op,
                Box::new(expr_view(b.left)),
                Box::new(expr_view(b.right)),
            ),
            ExprKind::Grouping(inner) => ExprKindModel::Grouping(Box::new(expr_view(*inner))),
            ExprKind::Comma(items) => ExprKindModel::Comma(exprs_view(items@)),
        },
        span: e.span,
    }
}

/// The mathematical trees that the expressions of `items` stand for.
pub open spec fn exprs_view(items: Seq<Expr>) -> Seq<ExprModel>
    decreases items,
{
    Seq::new(
        items.len(),
        |i: int|
            if 0 <= i < items.len() {
                expr_view(items[i])
            } else {
                arbitrary()
            },
    )
}

/// The mathematical tree that `s` stands for.
pub open spec fn stmt_view(s: Stmt) -> StmtModel
    decreases s,
{
    StmtModel {
        kind: match s.kind {
            StmtKind::VarDecl(d) => StmtKindModel::VarDecl(
                d.name@,
                match d.initializer {
                    Some(e) => Some(expr_view(e)),
                    None => None,
                },
            ),
            StmtKind::List(items) => StmtKindModel::List(stmts_view(items@)),
            StmtKind::ExprStmt(e) => StmtKindModel::ExprStmt(Box::new(expr_view(*e))),
            StmtKind::NullNode => StmtKindModel::NullNode,
        },
        span: s.span,
    }
}

/// The mathematical trees that the statements of `items` stand for.
pub open spec fn stmts_view(items: Seq<Stmt>) -> Seq<StmtModel>
    decreases items,
{
    Seq::new(
        items.len(),
        |i: int|
            if 0 <= i < items.len() {
                stmt_view(items[i])
            } else {
                arbitrary()
            },
    )
}

impl<'a> View for Expr<'a> {
    type V = ExprModel;

    /// The mathematical tree that the expression stands for.
    open spec fn view(&self) -> ExprModel {
        expr_view(*self)
    }
}

impl<'a> View for Stmt<'a> {
    type V = StmtModel;

    /// The mathematical tree that the statement stands for.
    open spec fn view(&self) -> StmtModel {
        stmt_view(*self)
    }
}

impl<'a> Clone for Expr<'a> {
    /// A copy with nodes of its own.
    fn clone(&self) -> (copy: Self)
        ensures
            copy@ == self@,
    {
        copy_expr(self)
    }
}

impl<'a> Clone for Stmt<'a> {
    /// A copy with nodes of its own.
    fn clone(&self) -> (copy: Self)
        ensures
            copy@ == self@,
    {
        copy_stmt(self)
    }
}

fn copy_expr<'a>(e: &Expr<'a>) -> (copy: Expr<'a>)
    ensures
        copy@ == e@,
    decreases e@,
{
    let kind = match &e.kind {
        ExprKind::Variable(name) => ExprKind::Variable(*name),
        ExprKind::Binary(b) => {
            assert(decreases_to!(e@ => b.left@)) by {
                assert(*e@.kind->Binary_1 == b.left@);
            }
            assert(decreases_to!(e@ => b.right@)) by {
                assert(*e@.kind->Binary_2 == b.right@);
            }
            let left = copy_expr(&b.left);
            let right = copy_expr(&b.right);
            ExprKind::Binary(Box::new(Binary { left, op: b.op, right }))
        },
        ExprKind::Grouping(inner) => {
            assert(decreases_to!(e@ => inner@)) by {
                assert(*e@.kind->Grouping_0 == inner@);
            }
            ExprKind::Grouping(Box::new(copy_expr(inner)))
        },
        ExprKind::Comma(items) => {
            let n = items.len();
            let mut copies: Vec<'a, Expr<'a>> = Vec { v: std::vec::Vec::new(), _pd: PhantomData };
            let mut i: usize = 0;
            while i < n
                invariant
                    i <= n,
                    n == items@.len(),
                    e@.kind == ExprKindModel::Comma(exprs_view(items@)),
                    copies@.len() == i,
                    forall|j: int| 0 <= j < i ==> (#[trigger] copies@[j])@ == items@[j]@,
                decreases n - i,
            {
                assert(decreases_to!(e@ => items@[i as int]@)) by {
                    assert(e@.kind->Comma_0[i as int] == items@[i as int]@);
                }
                copies.push(copy_expr(&items[i]));
                i = i + 1;
            }
            assert(exprs_view(copies@) =~= exprs_view(items@));
            ExprKind::Comma(copies)
        },
    };
    Expr { kind, span: e.span.start..e.span.end }
}

fn copy_stmt<'a>(s: &Stmt<'a>) -> (copy: Stmt<'a>)
    ensures
        copy@ == s@,
    decreases s@,
{
    let kind = match &s.kind {
        StmtKind::VarDecl(d) => {
            let initializer = match &d.initializer {
                Some(e) => Some(copy_expr(e)),
                None => None,
            };
            StmtKind::VarDecl(Box::new(VarDecl { name: d.name, initializer }))
        },
        StmtKind::List(items) => {
            let n = items.len();
            let mut copies: Vec<'a, Stmt<'a>> = Vec { v: std::vec::Vec::new(), _pd: PhantomData };
            let mut i: usize = 0;
            while i < n
                invariant
                    i <= n,
                    n == items@.len(),
                    s@.kind == StmtKindModel::List(stmts_view(items@)),
                    copies@.len() == i,
                    forall|j: int| 0 <= j < i ==> (#[trigger] copies@[j])@ == items@[j]@,
                decreases n - i,
            {
                assert(decreases_to!(s@ => items@[i as int]@)) by {
                    assert(s@.kind->List_0[i as int] == items@[i as int]@);
                }
                copies.push(copy_stmt(&items[i]));
                i = i + 1;
            }
            assert(stmts_view(copies@) =~= stmts_view(items@));
            StmtKind::List(copies)
        },
        StmtKind::ExprStmt(e) => StmtKind::ExprStmt(Box::new(copy_expr(e))),
        StmtKind::NullNode => StmtKind::NullNode,
    };
    Stmt { kind, span: s.span.start..s.span.end }
}

/// Puts `t` in a node of its own. The owned strategy needs nothing of its
/// context.
pub fn alloc_node<T>(t: T, _ctx: &()) -> (node: Box<T>)
    ensures
        *node == t,
{
    Box::new(t)
}

/// An empty sequence. The owned strategy needs nothing of its context.
pub fn alloc_vec<'a, T>(_ctx: &'a ()) -> (items: Vec<'a, T>)
    ensures
        items@ == Seq::<T>::empty(),
{
    Vec { v: std::vec::Vec::new(), _pd: PhantomData }
}

/// Draws a slice of `slice`: a start anywhere in it, then an end between the
/// start and the last character.
pub fn gen_slice<'a>(slice: &'a str, rng: &mut StdRng) -> (name: &'a str)
    requires
        slice.is_ascii(),
        slice@.len() > 0,
    ensures
        is_slice_of(name@, slice@),
{
    proof {
        vstd::string::is_ascii_spec_bytes(slice);
    }
    let len = slice.as_bytes().len();
    let start = draw_between(rng, 0, len);
    let end = draw_between(rng, start, len);
    let name = slice.substring_ascii(start, end);
    assert(name@ == slice@.subrange(start as int, end as int));
    name
}

impl<'a> Expr<'a> {
    /// Builds a random expression over `source` from the draws of `rng`, at
    /// most `depth` levels deep.
    pub fn build_random_tree_with_rng(
        source: &'a str,
        depth: usize,
        max_width: usize,
        rng: &mut StdRng,
        ctx: &'a (),
    ) -> (tree: Self)
        requires
            source.is_ascii(),
            source@.len() > 0,
        ensures
            expr_fits(tree@, source@, depth as nat, max_width as nat),
        decreases depth,
    {
        let kind = if depth > 0 {
            match ExprChoice::from_draw(draw_choice(rng, 3), max_width) {
                ExprChoice::Binary => {
                    let left = Expr::build_random_tree_with_rng(
                        source,
                        depth - 1,
                        max_width - 2,
                        rng,
                        ctx,
                    );
                    let right = Expr::build_random_tree_with_rng(
                        source,
                        depth - 1,
                        max_width - 2,
                        rng,
                        ctx,
                    );
                    ExprKind::Binary(
                        alloc_node(
                            Binary { left, right, op: BinOp::from_index(draw_choice(rng, 4)) },
                            ctx,
                        ),
                    )
                },
                ExprChoice::Comma => {
                    let count = draw_between(rng, 0, max_width);
                    let mut exprs: Vec<'a, Expr<'a>> = alloc_vec(ctx);
                    let mut made: usize = 0;
                    while made < count
                        invariant
                            made <= count < max_width,
                            depth > 0,
                            source.is_ascii(),
                            source@.len() > 0,
                            exprs@.len() == made,
                            forall|j: int|
                                0 <= j < made ==> expr_fits(
                                    (#[trigger] exprs@[j])@,
                                    source@,
                                    (depth - 1) as nat,
                                    (max_width - count) as nat,
                                ),
                        decreases count - made,
                    {
                        let item = Expr::build_random_tree_with_rng(
                            source,
                            depth - 1,
                            max_width - count,
                            rng,
                            ctx,
                        );
                        exprs.push(item);
                        made = made + 1;
                    }
                    proof {
                        let views = exprs_view(exprs@);
                        assert forall|j: int| 0 <= j < views.len() implies expr_fits(
                            #[trigger] views[j],
                            source@,
                            (depth - 1) as nat,
                            (max_width - views.len()) as nat,
                        ) by {
                            assert(views[j] == exprs@[j]@);
                        }
                    }
                    ExprKind::Comma(exprs)
                },
                ExprChoice::Grouping => ExprKind::Grouping(
                    alloc_node(
                        Expr::build_random_tree_with_rng(source, depth - 1, max_width, rng, ctx),
                        ctx,
                    ),
                ),
            }
        } else {
            ExprKind::Variable(gen_slice(source, rng))
        };
        let start = draw_word(rng);
        let end = draw_word(rng);
        Expr { kind, span: start..end }
    }

    /// Rewrites the expression in place and feeds `state` on the way.
    pub fn wrangle<A: Accumulator>(&mut self, ctx: &'a (), state: &mut A)
        ensures
            final(self)@ == wrangled_expr(old(self)@),
            final(state).fed() == old(state).fed() + expr_feed(old(self)@),
            expr_names(final(self)@) == expr_names(old(self)@),
        decreases old(self)@,
    {
        let ghost start = self@;
        proof {
            rewrite_keeps_expr_names(start);
        }
        let ghost fed = state.fed();
        let kind = std::mem::replace(&mut self.kind, ExprKind::Variable(""));
        self.kind = match kind {
            ExprKind::Variable(v) => {
                state.feed_name(v);
                assert(state.fed() =~= fed + expr_feed(start));
                ExprKind::Variable(v)
            },
            ExprKind::Binary(mut v) => {
                let ghost left = v.left@;
                let ghost right = v.right@;
                state.feed_op(v.op);
                v.left.wrangle(ctx, state);
                v.right.wrangle(ctx, state);
                assert(state.fed() =~= fed + expr_feed(start));
                if matches!(v.op, BinOp::Add | BinOp::Mul) {
                    std::mem::swap(&mut v.left, &mut v.right);
                    ExprKind::Binary(v)
                } else {
                    let operands = *v;
                    let mut c = alloc_vec(ctx);
                    c.push(operands.left);
                    c.push(operands.right);
                    assert(exprs_view(c@) =~= seq![wrangled_expr(left), wrangled_expr(right)]);
                    ExprKind::Comma(c)
                }
            },
            ExprKind::Grouping(mut g) => {
                g.wrangle(ctx, state);
                let inner = *g;
                inner.kind
            },
            ExprKind::Comma(mut c) => {
                let ghost before = exprs_view(c@);
                let n = c.len();
                let mut i: usize = 0;
                assert(before.take(0) =~= Seq::empty());
                assert(state.fed() =~= fed + exprs_feed(before.take(0)));
                while i < n
                    invariant
                        i <= n,
                        n == before.len(),
                        c@.len() == n,
                        start == old(self)@,
                        start.kind == ExprKindModel::Comma(before),
                        forall|j: int|
                            0 <= j < i ==> (#[trigger] c@[j])@ == wrangled_expr(before[j]),
                        forall|j: int| i <= j < n ==> (#[trigger] c@[j])@ == before[j],
                        state.fed() == fed + exprs_feed(before.take(i as int)),
                    decreases n - i,
                {
                    let ghost fed_so_far = state.fed();
                    assert(c@[i as int]@ == before[i as int]);
                    assert(decreases_to!(start => before[i as int])) by {
                        assert(start.kind->Comma_0 == before);
                    }
                    c[i].wrangle(ctx, state);
                    assert(state.fed() =~= fed + exprs_feed(before.take(i + 1))) by {
                        assert(before.take(i + 1).drop_last() =~= before.take(i as int));
                        assert(before.take(i + 1).last() == before[i as int]);
                        assert(state.fed() == fed_so_far + expr_feed(before[i as int]));
                    }
                    i = i + 1;
                }
                assert(before.take(n as int) =~= before);
                let ghost walked = c@;
                reverse_items(&mut c);
                assert(exprs_view(c@) =~= wrangled_exprs(before).reverse()) by {
                    assert(c@ == walked.reverse());
                    assert forall|j: int| 0 <= j < n implies exprs_view(c@)[j] == wrangled_exprs(
                        before,
                    ).reverse()[j] by {
                        assert(c@[j] == walked[n - 1 - j]);
                    }
                }
                ExprKind::Comma(c)
            },
        };
    }
}

impl<'a> Stmt<'a> {
    /// Builds a random statement over `source` from a generator seeded with
    /// `seed`, at most `depth` levels deep.
    pub fn build_random_tree(
        source: &'a str,
        seed: u64,
        depth: usize,
        max_width: usize,
        ctx: &'a (),
    ) -> (tree: Self)
        requires
            source.is_ascii(),
            source@.len() > 0,
            depth > 0 ==> max_width > 0,
        ensures
            stmt_fits(tree@, source@, depth as nat, max_width as nat),
            null_free(tree@),
    {
        let mut rng = seeded(seed);
        Self::build_random_tree_with_rng(source, depth, max_width, &mut rng, ctx)
    }

    /// Builds a random statement over `source` from the draws of `rng`, at
    /// most `depth` levels deep.
    pub fn build_random_tree_with_rng(
        source: &'a str,
        depth: usize,
        max_width: usize,
        rng: &mut StdRng,
        ctx: &'a (),
    ) -> (tree: Self)
        requires
            source.is_ascii(),
            source@.len() > 0,
            depth > 0 ==> max_width > 0,
        ensures
            stmt_fits(tree@, source@, depth as nat, max_width as nat),
            null_free(tree@),
        decreases depth,
    {
        let kind = if depth > 0 {
            match draw_bool(rng) {
                false => {
                    let count = draw_between(rng, 0, max_width);
                    let mut stmts: Vec<'a, Stmt<'a>> = alloc_vec(ctx);
                    let mut made: usize = 0;
                    while made < count
                        invariant
                            made <= count < max_width,
                            depth > 0,
                            source.is_ascii(),
                            source@.len() > 0,
                            stmts@.len() == made,
                            forall|j: int|
                                0 <= j < made ==> stmt_fits(
                                    (#[trigger] stmts@[j])@,
                                    source@,
                                    (depth - 1) as nat,
                                    (max_width - count) as nat,
                                ),
                        decreases count - made,
                    {
                        let item = Stmt::build_random_tree_with_rng(
                            source,
                            depth - 1,
                            max_width - count,
                            rng,
                            ctx,
                        );
                        stmts.push(item);
                        made = made + 1;
                    }
                    proof {
                        let views = stmts_view(stmts@);
                        assert forall|j: int| 0 <= j < views.len() implies stmt_fits(
                            #[trigger] views[j],
                            source@,
                            (depth - 1) as nat,
                            (max_width - views.len()) as nat,
                        ) by {
                            assert(views[j] == stmts@[j]@);
                        }
                    }
                    StmtKind::List(stmts)
                },
                true => StmtKind::ExprStmt(
                    alloc_node(
                        Expr::build_random_tree_with_rng(source, depth - 1, max_width, rng, ctx),
                        ctx,
                    ),
                ),
            }
        } else {
            let name = gen_slice(source, rng);
            let initializer = if draw_bool(rng) {
                Some(Expr::build_random_tree_with_rng(source, 0, max_width, rng, ctx))
            } else {
                None
            };
            StmtKind::VarDecl(alloc_node(VarDecl { name, initializer }, ctx))
        };
        let start = draw_word(rng);
        let end = draw_word(rng);
        let tree = Stmt { kind, span: start..end };
        proof {
            built_tree_has_no_placeholder(tree@, source@, depth as nat, max_width as nat);
        }
        tree
    }

    /// Rewrites the statement in place and feeds `state` on the way. While
    /// the old content is out, the placeholder stands in its place.
    pub fn wrangle<A: Accumulator>(&mut self, ctx: &'a (), state: &mut A)
        ensures
            final(self)@ == wrangled_stmt(old(self)@),
            final(state).fed() == old(state).fed() + stmt_feed(old(self)@),
            stmt_names(final(self)@) == stmt_names(old(self)@),
            null_free(old(self)@) ==> null_free(final(self)@),
        decreases old(self)@,
    {
        let ghost start = self@;
        proof {
            rewrite_keeps_stmt_names(start);
            if null_free(start) {
                rewrite_brings_no_placeholder(start);
            }
        }
        let ghost fed = state.fed();
        let kind = std::mem::replace(&mut self.kind, StmtKind::NullNode);
        self.kind = match kind {
            StmtKind::VarDecl(mut v) => {
                state.feed_name(v.name);
                match &mut v.initializer {
                    Some(e) => {
                        e.wrangle(ctx, state);
                    },
                    None => {},
                }
                assert(state.fed() =~= fed + stmt_feed(start));
                StmtKind::VarDecl(v)
            },
            StmtKind::ExprStmt(mut e) => {
                e.wrangle(ctx, state);
                StmtKind::ExprStmt(e)
            },
            StmtKind::List(mut c) => {
                let ghost before = stmts_view(c@);
                let n = c.len();
                let mut i: usize = 0;
                assert(before.take(0) =~= Seq::empty());
                assert(state.fed() =~= fed + stmts_feed(before.take(0)));
                while i < n
                    invariant
                        i <= n,
                        n == before.len(),
                        c@.len() == n,
                        start == old(self)@,
                        start.kind == StmtKindModel::List(before),
                        forall|j: int|
                            0 <= j < i ==> (#[trigger] c@[j])@ == wrangled_stmt(before[j]),
                        forall|j: int| i <= j < n ==> (#[trigger] c@[j])@ == before[j],
                        state.fed() == fed + stmts_feed(before.take(i as int)),
                    decreases n - i,
                {
                    let ghost fed_so_far = state.fed();
                    assert(c@[i as int]@ == before[i as int]);
                    assert(decreases_to!(start => before[i as int])) by {
                        assert(start.kind->List_0 == before);
                    }
                    c[i].wrangle(ctx, state);
                    assert(state.fed() =~= fed + stmts_feed(before.take(i + 1))) by {
                        assert(before.take(i + 1).drop_last() =~= before.take(i as int));
                        assert(before.take(i + 1).last() == before[i as int]);
                        assert(state.fed() == fed_so_far + stmt_feed(before[i as int]));
                    }
                    i = i + 1;
                }
                assert(before.take(n as int) =~= before);
                let ghost walked = c@;
                reverse_items(&mut c);
                assert(stmts_view(c@) =~= wrangled_stmts(before).reverse()) by {
                    assert(c@ == walked.reverse());
                    assert forall|j: int| 0 <= j < n implies stmts_view(c@)[j] == wrangled_stmts(
                        before,
                    ).reverse()[j] by {
                        assert(c@[j] == walked[n - 1 - j]);
                    }
                }
                StmtKind::List(c)
            },
            StmtKind::NullNode => {
                assert(state.fed() =~= fed + stmt_feed(start));
                StmtKind::NullNode
            },
        };
    }
}

} // verus!
