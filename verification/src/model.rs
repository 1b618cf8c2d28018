//! The mathematical tree that both storage strategies are a view of, and what
//! the rewrite and the builder mean on it.
use crate::Span;
use vstd::multiset::Multiset;
use vstd::prelude::*;

verus! {

/// The four binary operators of the toy language.
#[derive(Debug, Clone, Copy, PartialEq, Eq, Structural, Hash)]
pub enum BinOp {
    Add,
    Sub,
    Mul,
    Div,
}

impl BinOp {
    /// The operators whose operands the rewrite exchanges.
    pub open spec fn commutes(self) -> bool {
        self == BinOp::Add || self == BinOp::Mul
    }

    /// The operator that stands at a position among the four.
    pub open spec fn at(index: int) -> BinOp {
        if index == 0 {
            BinOp::Add
        } else if index == 1 {
            BinOp::Sub
        } else if index == 2 {
            BinOp::Mul
        } else {
            BinOp::Div
        }
    }

    /// Maps a number below four to its operator.
    pub fn from_index(index: i32) -> (op: BinOp)
        requires
            0 <= index < 4,
        ensures
            op == BinOp::at(index as int),
    {
        match index {
            0 => BinOp::Add,
            1 => BinOp::Sub,
            2 => BinOp::Mul,
            _ => BinOp::Div,
        }
    }
}

/// Which kind of node the expression builder makes where depth is left.
#[derive(Debug, Clone, Copy, PartialEq, Eq, Structural)]
pub enum ExprChoice {
    Binary,
    Comma,
    Grouping,
}

impl ExprChoice {
    /// The kind for a number drawn below three under the budget `width`: 0
    /// asks for a binary node and 1 for a comma list, which both need a width
    /// of at least 2; everything else gives a grouping.
    pub open spec fn of(pick: int, width: nat) -> ExprChoice {
        if pick == 0 && width >= 2 {
            ExprChoice::Binary
        } else if pick == 1 && width >= 2 {
            ExprChoice::Comma
        } else {
            ExprChoice::Grouping
        }
    }

    /// Decides the kind of node from the number drawn and the width left.
    pub fn from_draw(pick: i32, max_width: usize) -> (choice: ExprChoice)
        ensures
            choice == ExprChoice::of(pick as int, max_width as nat),
    {
        match pick {
            0 if max_width >= 2 => ExprChoice::Binary,
            1 if max_width >= 2 => ExprChoice::Comma,
            _ => ExprChoice::Grouping,
        }
    }
}

/// What an expression node is, with its children.
pub enum ExprKindModel {
    Variable(Seq<char>),
    Binary(BinOp, Box<ExprModel>, Box<ExprModel>),
    Grouping(Box<ExprModel>),
    Comma(Seq<ExprModel>),
}

/// An expression node.
pub struct ExprModel {
    pub kind: ExprKindModel,
    pub span: Span,
}

/// What a statement node is, with its children.
pub enum StmtKindModel {
    VarDecl(Seq<char>, Option<ExprModel>),
    List(Seq<StmtModel>),
    ExprStmt(Box<ExprModel>),
    NullNode,
}

/// A statement node.
pub struct StmtModel {
    pub kind: StmtKindModel,
    pub span: Span,
}

/// One thing handed to a hash accumulator.
pub enum Feed {
    Name(Seq<char>),
    Op(BinOp),
}

// ---------------------------------------------------------------------------
// The rewrite
// ---------------------------------------------------------------------------

/// The expression that the rewrite leaves in place of `e`.
///
/// A variable stays. A sum or product keeps its operator and exchanges its
/// rewritten operands. A difference or quotient becomes the comma list of its
/// rewritten operands, left first. A grouping takes the kind of its rewritten
/// content. A comma list holds its rewritten elements in reverse order. The
/// node's own span stays in every case.
pub open spec fn wrangled_expr(e: ExprModel) -> ExprModel
    decreases e,
{
    match e.kind {
        ExprKindModel::Variable(_) => e,
        ExprKindModel::Binary(op, left, right) => if op.commutes() {
            ExprModel {
                kind: ExprKindModel::Binary(
                    op,
                    Box::new(wrangled_expr(*right)),
                    Box::new(wrangled_expr(*left)),
                ),
                span: e.span,
            }
        } else {
            ExprModel {
                kind: ExprKindModel::Comma(seq![wrangled_expr(*left), wrangled_expr(*right)]),
                span: e.span,
            }
        },
        ExprKindModel::Grouping(inner) => ExprModel {
            kind: wrangled_expr(*inner).kind,
            span: e.span,
        },
        ExprKindModel::Comma(items) => ExprModel {
            kind: ExprKindModel::Comma(wrangled_exprs(items).reverse()),
            span: e.span,
        },
    }
}

/// Each expression of `items` rewritten, in the order of `items`. The test on
/// `i` is there for the recursion: it ends because `items[i]` is part of
/// `items`.
pub open spec fn wrangled_exprs(items: Seq<ExprModel>) -> Seq<ExprModel>
    decreases items,
{
    Seq::new(
        items.len(),
        |i: int|
            if 0 <= i < items.len() {
                wrangled_expr(items[i])
            } else {
                arbitrary()
            },
    )
}

/// The statement that the rewrite leaves in place of `s`.
///
/// A declaration keeps its name and has its initializer, if any, rewritten. A
/// list holds its rewritten elements in reverse order. An expression statement
/// has its expression rewritten. The placeholder stays what it is.
pub open spec fn wrangled_stmt(s: StmtModel) -> StmtModel
    decreases s,
{
    match s.kind {
        StmtKindModel::VarDecl(name, initializer) => StmtModel {
            kind: StmtKindModel::VarDecl(
                name,
                match initializer {
                    Some(e) => Some(wrangled_expr(e)),
                    None => None,
                },
            ),
            span: s.span,
        },
        StmtKindModel::List(items) => StmtModel {
            kind: StmtKindModel::List(wrangled_stmts(items).reverse()),
            span: s.span,
        },
        StmtKindModel::ExprStmt(e) => StmtModel {
            kind: StmtKindModel::ExprStmt(Box::new(wrangled_expr(*e))),
            span: s.span,
        },
        StmtKindModel::NullNode => s,
    }
}

/// Each statement of `items` rewritten, in the order of `items`. The test on
/// `i` is there for the recursion, as in [`wrangled_exprs`].
pub open spec fn wrangled_stmts(items: Seq<StmtModel>) -> Seq<StmtModel>
    decreases items,
{
    Seq::new(
        items.len(),
        |i: int|
            if 0 <= i < items.len() {
                wrangled_stmt(items[i])
            } else {
                arbitrary()
            },
    )
}

// ---------------------------------------------------------------------------
// What the rewrite feeds to the accumulator
// ---------------------------------------------------------------------------

/// What rewriting `e` feeds, in order: a variable its name; a binary node its
/// operator, then what its left operand feeds, then its right; a grouping what
/// its content feeds; a comma list what its elements feed, first to last.
pub open spec fn expr_feed(e: ExprModel) -> Seq<Feed>
    decreases e,
{
    match e.kind {
        ExprKindModel::Variable(name) => seq![Feed::Name(name)],
        ExprKindModel::Binary(op, left, right) => seq![Feed::Op(op)] + expr_feed(*left)
            + expr_feed(*right),
        ExprKindModel::Grouping(inner) => expr_feed(*inner),
        ExprKindModel::Comma(items) => exprs_feed(items),
    }
}

/// What rewriting the expressions of `items` one after the other feeds.
pub open spec fn exprs_feed(items: Seq<ExprModel>) -> Seq<Feed>
    decreases items,
{
    if items.len() == 0 {
        Seq::empty()
    } else {
        exprs_feed(items.drop_last()) + expr_feed(items.last())
    }
}

/// What rewriting `s` feeds, in order: a declaration its name, then what its
/// initializer feeds; a list what its elements feed, first to last; an
/// expression statement what its expression feeds; the placeholder nothing.
pub open spec fn stmt_feed(s: StmtModel) -> Seq<Feed>
    decreases s,
{
    match s.kind {
        StmtKindModel::VarDecl(name, initializer) => seq![Feed::Name(name)] + match initializer {
            Some(e) => expr_feed(e),
            None => Seq::empty(),
        },
        StmtKindModel::List(items) => stmts_feed(items),
        StmtKindModel::ExprStmt(e) => expr_feed(*e),
        StmtKindModel::NullNode => Seq::empty(),
    }
}

/// What rewriting the statements of `items` one after the other feeds.
pub open spec fn stmts_feed(items: Seq<StmtModel>) -> Seq<Feed>
    decreases items,
{
    if items.len() == 0 {
        Seq::empty()
    } else {
        stmts_feed(items.drop_last()) + stmt_feed(items.last())
    }
}

/// The names among `feeds`, each as often as it was fed.
pub open spec fn fed_names(feeds: Seq<Feed>) -> Multiset<Seq<char>>
    decreases feeds.len(),
{
    if feeds.len() == 0 {
        Multiset::empty()
    } else {
        match feeds.last() {
            Feed::Name(name) => fed_names(feeds.drop_last()).insert(name),
            Feed::Op(_) => fed_names(feeds.drop_last()),
        }
    }
}

// ---------------------------------------------------------------------------
// Leaf names
// ---------------------------------------------------------------------------

/// The names of the variables in `e`, each as often as it occurs.
pub open spec fn expr_names(e: ExprModel) -> Multiset<Seq<char>>
    decreases e,
{
    match e.kind {
        ExprKindModel::Variable(name) => Multiset::singleton(name),
        ExprKindModel::Binary(_, left, right) => expr_names(*left).add(expr_names(*right)),
        ExprKindModel::Grouping(inner) => expr_names(*inner),
        ExprKindModel::Comma(items) => exprs_names(items),
    }
}

/// The names of the variables in the expressions of `items`.
pub open spec fn exprs_names(items: Seq<ExprModel>) -> Multiset<Seq<char>>
    decreases items,
{
    if items.len() == 0 {
        Multiset::empty()
    } else {
        exprs_names(items.drop_last()).add(expr_names(items.last()))
    }
}

/// The names declared and used in `s`, each as often as it occurs.
pub open spec fn stmt_names(s: StmtModel) -> Multiset<Seq<char>>
    decreases s,
{
    match s.kind {
        StmtKindModel::VarDecl(name, initializer) => match initializer {
            Some(e) => Multiset::singleton(name).add(expr_names(e)),
            None => Multiset::singleton(name),
        },
        StmtKindModel::List(items) => stmts_names(items),
        StmtKindModel::ExprStmt(e) => expr_names(*e),
        StmtKindModel::NullNode => Multiset::empty(),
    }
}

/// The names declared and used in the statements of `items`.
pub open spec fn stmts_names(items: Seq<StmtModel>) -> Multiset<Seq<char>>
    decreases items,
{
    if items.len() == 0 {
        Multiset::empty()
    } else {
        stmts_names(items.drop_last()).add(stmt_names(items.last()))
    }
}

// ---------------------------------------------------------------------------
// The placeholder
// ---------------------------------------------------------------------------

/// No node of `s` is the placeholder.
pub open spec fn null_free(s: StmtModel) -> bool
    decreases s,
{
    match s.kind {
        StmtKindModel::NullNode => false,
        StmtKindModel::List(items) => forall|i: int|
            0 <= i < items.len() ==> null_free(#[trigger] items[i]),
        _ => true,
    }
}

// ---------------------------------------------------------------------------
// What the builder may return
// ---------------------------------------------------------------------------

/// `name` is a stretch of `source` that ends before the last character of
/// `source`; it may be empty.
pub open spec fn is_slice_of(name: Seq<char>, source: Seq<char>) -> bool {
    exists|start: int, end: int|
        0 <= start <= end < source.len() && name == #[trigger] source.subrange(start, end)
}

/// `e` is an expression that the builder may return for `source` under the
/// budgets `depth` and `width`.
///
/// With no depth left it is a variable named by a slice of `source`. Else it
/// is a binary node, only if `width` is at least 2, with operands built one
/// level down under `width - 2`; or a comma list, only if `width` is at least
/// 2, of fewer than `width` elements, each built one level down under `width`
/// less their number; or a grouping whose content is built one level down
/// under `width`.
pub open spec fn expr_fits(e: ExprModel, source: Seq<char>, depth: nat, width: nat) -> bool
    decreases e,
{
    if depth == 0 {
        e.kind matches ExprKindModel::Variable(name) && is_slice_of(name, source)
    } else {
        match e.kind {
            ExprKindModel::Variable(_) => false,
            ExprKindModel::Binary(_, left, right) => {
                &&& width >= 2
                &&& expr_fits(*left, source, (depth - 1) as nat, (width - 2) as nat)
                &&& expr_fits(*right, source, (depth - 1) as nat, (width - 2) as nat)
            },
            ExprKindModel::Grouping(inner) => expr_fits(
                *inner,
                source,
                (depth - 1) as nat,
                width,
            ),
            ExprKindModel::Comma(items) => {
                &&& width >= 2
                &&& items.len() < width
                &&& forall|i: int|
                    0 <= i < items.len() ==> expr_fits(
                        #[trigger] items[i],
                        source,
                        (depth - 1) as nat,
                        (width - items.len()) as nat,
                    )
            },
        }
    }
}

/// `s` is a statement that the builder may return for `source` under the
/// budgets `depth` and `width`.
///
/// With no depth left it is a declaration named by a slice of `source`, with
/// no initializer or with a variable named by a slice of `source`. Else it is
/// a list of fewer than `width` statements, each built one level down under
/// `width` less their number; or an expression statement whose expression is
/// built one level down under `width`.
pub open spec fn stmt_fits(s: StmtModel, source: Seq<char>, depth: nat, width: nat) -> bool
    decreases s,
{
    if depth == 0 {
        s.kind matches StmtKindModel::VarDecl(name, initializer) && is_slice_of(name, source) && (
        initializer matches Some(e) ==> expr_fits(e, source, 0, width))
    } else {
        match s.kind {
            StmtKindModel::List(items) => {
                &&& items.len() < width
                &&& forall|i: int|
                    0 <= i < items.len() ==> stmt_fits(
                        #[trigger] items[i],
                        source,
                        (depth - 1) as nat,
                        (width - items.len()) as nat,
                    )
            },
            StmtKindModel::ExprStmt(e) => expr_fits(*e, source, (depth - 1) as nat, width),
            _ => false,
        }
    }
}

} // verus!
