//! The handles through which the arena tree reaches its nodes: boxes and
//! growable sequences of the `bumpalo` crate, all carved from one `Bump`.
//!
//! A handle is opaque here. What it holds has a name, and each function below
//! makes one call into `bumpalo` and says what that call does to what is held.
//! A call that allocates panics where the arena cannot reserve the memory, as
//! any allocation does.
use crate::ast_bumped::{Binary, Expr, Stmt, VarDecl};
use crate::model::{BinOp, ExprModel, StmtModel};
use bumpalo::Bump;
use vstd::prelude::*;

verus! {

/// The arena of the `bumpalo` crate. Nothing inside it is visible here.
#[verifier::external_type_specification]
#[verifier::external_body]
pub struct ExBump<const MIN_ALIGN: usize>(bumpalo::Bump<MIN_ALIGN>);

/// An expression in a box of the arena.
#[verifier::external_body]
#[derive(Debug, PartialEq)]
pub struct ExprBox<'a> {
    inner: bumpalo::boxed::Box<'a, Expr<'a>>,
}

/// A binary node in a box of the arena.
#[verifier::external_body]
#[derive(Debug, PartialEq)]
pub struct BinaryBox<'a> {
    inner: bumpalo::boxed::Box<'a, Binary<'a>>,
}

/// A declaration in a box of the arena.
#[verifier::external_body]
#[derive(Debug, PartialEq)]
pub struct DeclBox<'a> {
    inner: bumpalo::boxed::Box<'a, VarDecl<'a>>,
}

/// Expressions in a growable sequence of the arena.
#[verifier::external_body]
#[derive(Debug, PartialEq)]
pub struct ExprVec<'a> {
    inner: bumpalo::collections::Vec<'a, Expr<'a>>,
}

/// Statements in a growable sequence of the arena.
#[verifier::external_body]
#[derive(Debug, PartialEq)]
pub struct StmtVec<'a> {
    inner: bumpalo::collections::Vec<'a, Stmt<'a>>,
}

/// The expression that a box holds.
pub uninterp spec fn boxed_expr(node: ExprBox) -> ExprModel;

/// The binary node that a box holds: left operand, operator, right operand.
pub uninterp spec fn boxed_binary(node: BinaryBox) -> (ExprModel, BinOp, ExprModel);

/// The declaration that a box holds: name and initializer.
pub uninterp spec fn boxed_decl(node: DeclBox) -> (Seq<char>, Option<ExprModel>);

/// The expressions that a sequence holds, first to last.
pub uninterp spec fn held_exprs(items: ExprVec) -> Seq<ExprModel>;

/// The statements that a sequence holds, first to last.
pub uninterp spec fn held_stmts(items: StmtVec) -> Seq<StmtModel>;

// ---------------------------------------------------------------------------
// Boxes
// ---------------------------------------------------------------------------

/// `Box::new_in`: a box of the arena `ctx` that holds `e`.
#[verifier::external_body]
pub fn alloc_expr<'a>(e: Expr<'a>, ctx: &'a Bump) -> (node: ExprBox<'a>)
    ensures
        boxed_expr(node) == e@,
{
    ExprBox { inner: bumpalo::boxed::Box::new_in(e, ctx) }
}

/// `Box::new_in`: a box of the arena `ctx` that holds `b`.
#[verifier::external_body]
pub fn alloc_binary<'a>(b: Binary<'a>, ctx: &'a Bump) -> (node: BinaryBox<'a>)
    ensures
        boxed_binary(node) == b@,
{
    BinaryBox { inner: bumpalo::boxed::Box::new_in(b, ctx) }
}

/// `Box::new_in`: a box of the arena `ctx` that holds `d`.
#[verifier::external_body]
pub fn alloc_decl<'a>(d: VarDecl<'a>, ctx: &'a Bump) -> (node: DeclBox<'a>)
    ensures
        boxed_decl(node) == d@,
{
    DeclBox { inner: bumpalo::boxed::Box::new_in(d, ctx) }
}

impl<'a> ExprBox<'a> {
    /// `Deref` of the box: the expression it holds.
    #[verifier::external_body]
    pub(crate) fn get(&self) -> (e: &Expr<'a>)
        ensures
            e@ == boxed_expr(*self),
    {
        &*self.inner
    }

    /// `DerefMut` of the box: the expression it holds, to change in place.
    /// The box then holds what the caller left there.
    #[verifier::external_body]
    pub(crate) fn get_mut(&mut self) -> (e: &mut Expr<'a>)
        ensures
            e@ == boxed_expr(*old(self)),
            boxed_expr(*final(self)) == final(e)@,
    {
        &mut *self.inner
    }
}

impl<'a> BinaryBox<'a> {
    /// `Deref` of the box: the binary node it holds.
    #[verifier::external_body]
    pub(crate) fn get(&self) -> (b: &Binary<'a>)
        ensures
            b@ == boxed_binary(*self),
    {
        &*self.inner
    }

    /// `DerefMut` of the box: the binary node it holds, to change in place.
    /// The box then holds what the caller left there.
    #[verifier::external_body]
    pub(crate) fn get_mut(&mut self) -> (b: &mut Binary<'a>)
        ensures
            b@ == boxed_binary(*old(self)),
            boxed_binary(*final(self)) == final(b)@,
    {
        &mut *self.inner
    }
}

impl<'a> DeclBox<'a> {
    /// `Deref` of the box: the declaration it holds.
    #[verifier::external_body]
    pub(crate) fn get(&self) -> (d: &VarDecl<'a>)
        ensures
            d@ == boxed_decl(*self),
    {
        &*self.inner
    }

    /// `DerefMut` of the box: the declaration it holds, to change in place.
    /// The box then holds what the caller left there.
    #[verifier::external_body]
    pub(crate) fn get_mut(&mut self) -> (d: &mut VarDecl<'a>)
        ensures
            d@ == boxed_decl(*old(self)),
            boxed_decl(*final(self)) == final(d)@,
    {
        &mut *self.inner
    }
}

// ---------------------------------------------------------------------------
// Sequences
// ---------------------------------------------------------------------------

/// `Vec::new_in`: an empty sequence of expressions in the arena `ctx`.
#[verifier::external_body]
pub fn alloc_exprs<'a>(ctx: &'a Bump) -> (items: ExprVec<'a>)
    ensures
        held_exprs(items) == Seq::<ExprModel>::empty(),
{
    ExprVec { inner: bumpalo::collections::Vec::new_in(ctx) }
}

/// `Vec::new_in`: an empty sequence of statements in the arena `ctx`.
#[verifier::external_body]
pub fn alloc_stmts<'a>(ctx: &'a Bump) -> (items: StmtVec<'a>)
    ensures
        held_stmts(items) == Seq::<StmtModel>::empty(),
{
    StmtVec { inner: bumpalo::collections::Vec::new_in(ctx) }
}

impl<'a> ExprVec<'a> {
    /// `Vec::len`: how many expressions are held.
    #[verifier::external_body]
    pub(crate) fn len(&self) -> (n: usize)
        ensures
            n == held_exprs(*self).len(),
    {
        self.inner.len()
    }

    /// `Vec::push`: `e` comes to stand behind the expressions held so far.
    #[verifier::external_body]
    pub fn push(&mut self, e: Expr<'a>)
        ensures
            held_exprs(*final(self)) == held_exprs(*old(self)).push(e@),
    {
        self.inner.push(e)
    }

    /// Indexing the sequence: the expression at `i`. An index past the end
    /// panics, which `requires` leaves out.
    #[verifier::external_body]
    pub(crate) fn get(&self, i: usize) -> (e: &Expr<'a>)
        requires
            i < held_exprs(*self).len(),
        ensures
            e@ == held_exprs(*self)[i as int],
    {
        &self.inner[i]
    }

    /// Indexing the sequence: the expression at `i`, to change in place. The
    /// sequence then holds at `i` what the caller left there, and the rest as
    /// before. An index past the end panics, which `requires` leaves out.
    #[verifier::external_body]
    pub(crate) fn get_mut(&mut self, i: usize) -> (e: &mut Expr<'a>)
        requires
            i < held_exprs(*old(self)).len(),
        ensures
            e@ == held_exprs(*old(self))[i as int],
            held_exprs(*final(self)) == held_exprs(*old(self)).update(i as int, final(e)@),
    {
        &mut self.inner[i]
    }

    /// The slice method `reverse`: the same expressions, last first.
    #[verifier::external_body]
    pub(crate) fn reverse(&mut self)
        ensures
            held_exprs(*final(self)) == held_exprs(*old(self)).reverse(),
    {
        self.inner.reverse()
    }
}

impl<'a> StmtVec<'a> {
    /// `Vec::len`: how many statements are held.
    #[verifier::external_body]
    pub(crate) fn len(&self) -> (n: usize)
        ensures
            n == held_stmts(*self).len(),
    {
        self.inner.len()
    }

    /// `Vec::push`: `s` comes to stand behind the statements held so far.
    #[verifier::external_body]
    pub fn push(&mut self, s: Stmt<'a>)
        ensures
            held_stmts(*final(self)) == held_stmts(*old(self)).push(s@),
    {
        self.inner.push(s)
    }

    /// Indexing the sequence: the statement at `i`. An index past the end
    /// panics, which `requires` leaves out.
    #[verifier::external_body]
    pub(crate) fn get(&self, i: usize) -> (s: &Stmt<'a>)
        requires
            i < held_stmts(*self).len(),
        ensures
            s@ == held_stmts(*self)[i as int],
    {
        &self.inner[i]
    }

    /// Indexing the sequence: the statement at `i`, to change in place. The
    /// sequence then holds at `i` what the caller left there, and the rest as
    /// before. An index past the end panics, which `requires` leaves out.
    #[verifier::external_body]
    pub(crate) fn get_mut(&mut self, i: usize) -> (s: &mut Stmt<'a>)
        requires
            i < held_stmts(*old(self)).len(),
        ensures
            s@ == held_stmts(*old(self))[i as int],
            held_stmts(*final(self)) == held_stmts(*old(self)).update(i as int, final(s)@),
    {
        &mut self.inner[i]
    }

    /// The slice method `reverse`: the same statements, last first.
    #[verifier::external_body]
    pub(crate) fn reverse(&mut self)
        ensures
            held_stmts(*final(self)) == held_stmts(*old(self)).reverse(),
    {
        self.inner.reverse()
    }
}

} // verus!
