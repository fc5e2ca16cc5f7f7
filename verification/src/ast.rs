//! The surface syntax tree of the supported subset, as the parser builds
//! it. Forms that are recognized but unhandled (references, mutability,
//! compound assignment, generic arguments) are represented so that the
//! lowering pass can reject them deliberately.

use vstd::prelude::*;
use crate::lex::SourceLocation;

verus! {

broadcast use vstd::std_specs::vec::axiom_vec_index_decreases;

/// A unary operator.
#[derive(Clone, Copy, Debug, PartialEq, Eq, Structural)]
pub enum UnOp {
    Neg,
    Not,
}

/// A binary operator of the source language.
#[derive(Clone, Copy, Debug, PartialEq, Eq, Structural)]
pub enum BinOp {
    Add,
    Sub,
    Mul,
    Div,
    Rem,
    And,
    Or,
    BitXor,
    BitAnd,
    BitOr,
    Shl,
    Shr,
    Eq,
    Ne,
    Lt,
    Gt,
    Le,
    Ge,
}

/// A segmented name as it occurred in the source; `generics` records
/// whether any segment carried generic arguments.
#[derive(Debug)]
pub struct PathAst {
    pub segments: Vec<String>,
    pub generics: bool,
}

/// Mathematical view of `PathAst`.
pub struct PathAstV {
    pub segments: Seq<Seq<char>>,
    pub generics: bool,
}

impl View for PathAst {
    type V = PathAstV;

    open spec fn view(&self) -> PathAstV {
        PathAstV { segments: crate::text::strings_view(self.segments), generics: self.generics }
    }
}

/// An expression of the surface language.
#[derive(Debug)]
pub enum AstExpr {
    /// A numeric literal: its digit text, and whether a decimal point occurred.
    Lit { digits: String, is_float: bool },
    /// `true` or `false`.
    BoolLit(bool),
    /// A string literal.
    StrLit(String),
    /// An identifier or path reference.
    Ident(PathAst),
    Unary { op: UnOp, expr: Box<AstExpr> },
    Binary { op: BinOp, lhs: Box<AstExpr>, rhs: Box<AstExpr> },
    /// Field access `base.member`.
    Field { base: Box<AstExpr>, member: String },
    /// A call of a named target.
    CallExpr { callee: PathAst, args: Vec<AstExpr> },
    /// A method call `receiver.method(args)`.
    MethodCall { receiver: Box<AstExpr>, method: String, args: Vec<AstExpr> },
    /// A conditional; both branches must be present.
    IfElse { cond: Box<AstExpr>, then_branch: AstBlock, else_branch: Box<AstExpr> },
    /// A braced block in expression position.
    BlockExpr(AstBlock),
}

/// A statement of the surface language.
#[derive(Debug)]
pub enum AstStmt {
    /// `let name = init;`, with the rejected modifiers recorded.
    LetBind { by_ref: bool, mutable: bool, name: String, init: AstExpr },
    /// `target = value;`
    Assign { target: PathAst, value: AstExpr },
    /// A compound assignment such as `x += e;` (rejected at lowering).
    OpAssign,
    /// An expression statement with a semicolon (rejected at lowering).
    SemiExpr,
    /// A trailing expression without a semicolon: the block's implicit return.
    Tail(AstExpr),
}

/// A braced sequence of statements.
#[derive(Debug)]
pub struct AstBlock {
    pub stmts: Vec<AstStmt>,
}

/// One declared parameter as written; only plain path types occur.
#[derive(Debug)]
pub struct AstParam {
    pub by_ref: bool,
    pub mutable: bool,
    pub name: String,
    pub ty: PathAst,
}

/// One function definition as written.
#[derive(Debug)]
pub struct AstFn {
    pub name: String,
    pub name_loc: SourceLocation,
    pub params: Vec<AstParam>,
    pub ret: Option<PathAst>,
    pub body: AstBlock,
}

/// Mathematical view of `AstExpr`.
pub enum AstExprV {
    Lit { digits: Seq<char>, is_float: bool },
    BoolLit(bool),
    StrLit(Seq<char>),
    Ident(PathAstV),
    Unary { op: UnOp, expr: Box<AstExprV> },
    Binary { op: BinOp, lhs: Box<AstExprV>, rhs: Box<AstExprV> },
    Field { base: Box<AstExprV>, member: Seq<char> },
    CallExpr { callee: PathAstV, args: Seq<AstExprV> },
    MethodCall { receiver: Box<AstExprV>, method: Seq<char>, args: Seq<AstExprV> },
    IfElse { cond: Box<AstExprV>, then_branch: AstBlockV, else_branch: Box<AstExprV> },
    BlockExpr(AstBlockV),
}

/// Mathematical view of `AstStmt`.
pub enum AstStmtV {
    LetBind { by_ref: bool, mutable: bool, name: Seq<char>, init: AstExprV },
    Assign { target: PathAstV, value: AstExprV },
    OpAssign,
    SemiExpr,
    Tail(AstExprV),
}

/// Mathematical view of `AstBlock`.
pub struct AstBlockV {
    pub stmts: Seq<AstStmtV>,
}

/// Mathematical view of `AstParam`.
pub struct AstParamV {
    pub by_ref: bool,
    pub mutable: bool,
    pub name: Seq<char>,
    pub ty: PathAstV,
}

/// Mathematical view of `AstFn`.
pub struct AstFnV {
    pub name: Seq<char>,
    pub name_loc: SourceLocation,
    pub params: Seq<AstParamV>,
    pub ret: Option<PathAstV>,
    pub body: AstBlockV,
}

pub open spec fn ast_expr_view(e: AstExpr) -> AstExprV
    decreases e, 0int, 0int,
{
    match e {
        AstExpr::Lit { digits, is_float } => AstExprV::Lit { digits: digits@, is_float },
        AstExpr::BoolLit(b) => AstExprV::BoolLit(b),
        AstExpr::StrLit(s) => AstExprV::StrLit(s@),
        AstExpr::Ident(p) => AstExprV::Ident(p@),
        AstExpr::Unary { op, expr } => AstExprV::Unary {
            op,
            expr: Box::new(ast_expr_view(*expr)),
        },
        AstExpr::Binary { op, lhs, rhs } => AstExprV::Binary {
            op,
            lhs: Box::new(ast_expr_view(*lhs)),
            rhs: Box::new(ast_expr_view(*rhs)),
        },
        AstExpr::Field { base, member } => AstExprV::Field {
            base: Box::new(ast_expr_view(*base)),
            member: member@,
        },
        AstExpr::CallExpr { callee, args } => AstExprV::CallExpr {
            callee: callee@,
            args: ast_exprs_view_rec(args, 0),
        },
        AstExpr::MethodCall { receiver, method, args } => AstExprV::MethodCall {
            receiver: Box::new(ast_expr_view(*receiver)),
            method: method@,
            args: ast_exprs_view_rec(args, 0),
        },
        AstExpr::IfElse { cond, then_branch, else_branch } => AstExprV::IfElse {
            cond: Box::new(ast_expr_view(*cond)),
            then_branch: ast_block_view(then_branch),
            else_branch: Box::new(ast_expr_view(*else_branch)),
        },
        AstExpr::BlockExpr(b) => AstExprV::BlockExpr(ast_block_view(b)),
    }
}

pub open spec fn ast_exprs_view_rec(v: Vec<AstExpr>, i: int) -> Seq<AstExprV>
    decreases v, 1int, v.len() - i,
{
    if i < 0 || i >= v.len() {
        Seq::empty()
    } else {
        seq![ast_expr_view(v[i])] + ast_exprs_view_rec(v, i + 1)
    }
}

pub open spec fn ast_stmt_view(s: AstStmt) -> AstStmtV
    decreases s, 2int, 0int,
{
    match s {
        AstStmt::LetBind { by_ref, mutable, name, init } => AstStmtV::LetBind {
            by_ref,
            mutable,
            name: name@,
            init: ast_expr_view(init),
        },
        AstStmt::Assign { target, value } => AstStmtV::Assign {
            target: target@,
            value: ast_expr_view(value),
        },
        AstStmt::OpAssign => AstStmtV::OpAssign,
        AstStmt::SemiExpr => AstStmtV::SemiExpr,
        AstStmt::Tail(e) => AstStmtV::Tail(ast_expr_view(e)),
    }
}

pub open spec fn ast_block_view(b: AstBlock) -> AstBlockV
    decreases b, 3int, 0int,
{
    AstBlockV { stmts: ast_stmts_view_rec(b.stmts, 0) }
}

pub open spec fn ast_stmts_view_rec(v: Vec<AstStmt>, i: int) -> Seq<AstStmtV>
    decreases v, 3int, v.len() - i,
{
    if i < 0 || i >= v.len() {
        Seq::empty()
    } else {
        seq![ast_stmt_view(v[i])] + ast_stmts_view_rec(v, i + 1)
    }
}

impl View for AstExpr {
    type V = AstExprV;

    open spec fn view(&self) -> AstExprV {
        ast_expr_view(*self)
    }
}

impl View for AstStmt {
    type V = AstStmtV;

    open spec fn view(&self) -> AstStmtV {
        ast_stmt_view(*self)
    }
}

impl View for AstBlock {
    type V = AstBlockV;

    open spec fn view(&self) -> AstBlockV {
        ast_block_view(*self)
    }
}

impl View for AstParam {
    type V = AstParamV;

    open spec fn view(&self) -> AstParamV {
        AstParamV {
            by_ref: self.by_ref,
            mutable: self.mutable,
            name: self.name@,
            ty: self.ty@,
        }
    }
}

pub open spec fn ast_params_view(v: Vec<AstParam>) -> Seq<AstParamV> {
    v@.map_values(|p: AstParam| p@)
}

impl View for AstFn {
    type V = AstFnV;

    open spec fn view(&self) -> AstFnV {
        AstFnV {
            name: self.name@,
            name_loc: self.name_loc,
            params: ast_params_view(self.params),
            ret: match self.ret {
                Option::Some(t) => Option::Some(t@),
                Option::None => Option::None,
            },
            body: self.body@,
        }
    }
}

/// `ast_stmts_view_rec` from `i` covers the statements from `i` on.
pub proof fn lemma_ast_stmts_view_len(v: Vec<AstStmt>, i: int)
    requires
        0 <= i <= v.len(),
    ensures
        ast_stmts_view_rec(v, i).len() == v.len() - i,
    decreases v.len() - i,
{
    if i < v.len() {
        lemma_ast_stmts_view_len(v, i + 1);
    }
}

/// One statement's view inside `ast_stmts_view_rec`.
pub proof fn lemma_ast_stmts_view_index(v: Vec<AstStmt>, i: int, k: int)
    requires
        0 <= i <= k < v.len(),
    ensures
        ast_stmts_view_rec(v, i).len() == v.len() - i,
        ast_stmts_view_rec(v, i)[k - i] == ast_stmt_view(v[k]),
    decreases v.len() - i,
{
    lemma_ast_stmts_view_len(v, i);
    if i < k {
        lemma_ast_stmts_view_index(v, i + 1, k);
    } else {
        lemma_ast_stmts_view_len(v, i + 1);
    }
}

/// `ast_exprs_view_rec` from `i` covers the expressions from `i` on.
pub proof fn lemma_ast_exprs_view_len(v: Vec<AstExpr>, i: int)
    requires
        0 <= i <= v.len(),
    ensures
        ast_exprs_view_rec(v, i).len() == v.len() - i,
    decreases v.len() - i,
{
    if i < v.len() {
        lemma_ast_exprs_view_len(v, i + 1);
    }
}

/// One expression's view inside `ast_exprs_view_rec`.
pub proof fn lemma_ast_exprs_view_index(v: Vec<AstExpr>, i: int, k: int)
    requires
        0 <= i <= k < v.len(),
    ensures
        ast_exprs_view_rec(v, i).len() == v.len() - i,
        ast_exprs_view_rec(v, i)[k - i] == ast_expr_view(v[k]),
    decreases v.len() - i,
{
    lemma_ast_exprs_view_len(v, i);
    if i < k {
        lemma_ast_exprs_view_index(v, i + 1, k);
    } else {
        lemma_ast_exprs_view_len(v, i + 1);
    }
}


/// Prepending one expression prepends its view.
pub proof fn lemma_ast_exprs_view_cons(v2: Vec<AstExpr>, v1: Vec<AstExpr>, e: AstExpr)
    requires
        v2@ == v1@.insert(0, e),
    ensures
        ast_exprs_view_rec(v2, 0) == seq![ast_expr_view(e)] + ast_exprs_view_rec(v1, 0),
{
    lemma_ast_exprs_view_len(v2, 0);
    lemma_ast_exprs_view_len(v1, 0);
    let lhs = ast_exprs_view_rec(v2, 0);
    let rhs = seq![ast_expr_view(e)] + ast_exprs_view_rec(v1, 0);
    assert forall|k: int| 0 <= k < lhs.len() implies lhs[k] == rhs[k] by {
        lemma_ast_exprs_view_index(v2, 0, k);
        if k == 0 {
            assert(v2[0] == e);
        } else {
            lemma_ast_exprs_view_index(v1, 0, k - 1);
            assert(v2[k] == v1[k - 1]);
        }
    }
    assert(lhs =~= rhs);
}

/// Prepending one statement prepends its view.
pub proof fn lemma_ast_stmts_view_cons(v2: Vec<AstStmt>, v1: Vec<AstStmt>, e: AstStmt)
    requires
        v2@ == v1@.insert(0, e),
    ensures
        ast_stmts_view_rec(v2, 0) == seq![ast_stmt_view(e)] + ast_stmts_view_rec(v1, 0),
{
    lemma_ast_stmts_view_len(v2, 0);
    lemma_ast_stmts_view_len(v1, 0);
    let lhs = ast_stmts_view_rec(v2, 0);
    let rhs = seq![ast_stmt_view(e)] + ast_stmts_view_rec(v1, 0);
    assert forall|k: int| 0 <= k < lhs.len() implies lhs[k] == rhs[k] by {
        lemma_ast_stmts_view_index(v2, 0, k);
        if k == 0 {
            assert(v2[0] == e);
        } else {
            lemma_ast_stmts_view_index(v1, 0, k - 1);
            assert(v2[k] == v1[k - 1]);
        }
    }
    assert(lhs =~= rhs);
}

} // verus!

