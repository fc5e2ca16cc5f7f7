//! Front-end lowering: one function definition of the supported subset is
//! turned into SSA-form IR. A stack of scoped name→variable maps and a
//! per-name version counter make every re-use of a source name a fresh
//! internal variable instead of a mutation of the prior one.

use vstd::prelude::*;
use crate::ast::{AstBlockV, AstExprV, AstFnV, AstStmtV, BinOp, PathAstV, UnOp};
use crate::error::{CompileError, CompileErrorV, Construct};
use crate::ir::{self, Atom, AtomV, Block, BlockV, Expr, ExprV, Func, FuncV, Let, LetV, Path, Primitive, PrimFunc, Var, VarV};
use crate::lex::{Token, TokenV};

verus! {

broadcast use vstd::seq::axiom_seq_index_decreases, vstd::std_specs::vec::axiom_vec_index_decreases;

/// One declared parameter: its renamed variable, its declared type, and
/// whether gradients flow through it.
#[derive(Debug)]
pub struct Parameter {
    pub name: ir::Var,
    pub ty: ir::Type,
    pub requires_gradient: bool,
}

/// Mathematical view of `Parameter`.
pub struct ParameterV {
    pub name: VarV,
    pub ty: ir::TypeV,
    pub requires_gradient: bool,
}

impl View for Parameter {
    type V = ParameterV;

    open spec fn view(&self) -> ParameterV {
        ParameterV { name: self.name@, ty: self.ty@, requires_gradient: self.requires_gradient }
    }
}

/// A lowered function: name token, ordered parameters, SSA body, return type.
#[derive(Debug)]
pub struct Function {
    pub name: Token,
    pub parameters: Vec<Parameter>,
    pub body: ir::Block,
    pub ret: ir::Type,
}

/// Mathematical view of `Function`.
pub struct FunctionV {
    pub name: TokenV,
    pub parameters: Seq<ParameterV>,
    pub body: ir::BlockV,
    pub ret: ir::TypeV,
}

pub open spec fn params_view(v: Vec<Parameter>) -> Seq<ParameterV> {
    v@.map_values(|p: Parameter| p@)
}

impl View for Function {
    type V = FunctionV;

    open spec fn view(&self) -> FunctionV {
        FunctionV {
            name: self.name@,
            parameters: params_view(self.parameters),
            body: self.body@,
            ret: self.ret@,
        }
    }
}


/// A stack of scoped name→variable maps plus a per-name version counter.
pub struct SymbolTable {
    scopes: Vec<Vec<(Path, Var)>>,
    ver: Vec<(Path, usize)>,
}

/// The lowering state: the scope stack, the version counters, and the
/// synthetic-temporary counter.
pub struct LowerStV {
    pub scopes: Seq<Seq<(Seq<Seq<char>>, VarV)>>,
    pub ver: Seq<(Seq<Seq<char>>, nat)>,
    pub var_gen: nat,
}

/// The newest entry for `p` in one scope.
pub open spec fn sp_scope_get(entries: Seq<(Seq<Seq<char>>, VarV)>, p: Seq<Seq<char>>) -> Option<
    VarV,
>
    decreases entries.len(),
{
    if entries.len() == 0 {
        Option::None
    } else if entries.last().0 == p {
        Option::Some(entries.last().1)
    } else {
        sp_scope_get(entries.drop_last(), p)
    }
}

/// The binding for `p`, searching the innermost scope first.
pub open spec fn sp_sym_get(scopes: Seq<Seq<(Seq<Seq<char>>, VarV)>>, p: Seq<Seq<char>>) -> Option<
    VarV,
>
    decreases scopes.len(),
{
    if scopes.len() == 0 {
        Option::None
    } else {
        match sp_scope_get(scopes.last(), p) {
            Option::Some(v) => Option::Some(v),
            Option::None => sp_sym_get(scopes.drop_last(), p),
        }
    }
}

/// The next version for `p`: zero when never used.
pub open spec fn sp_ver_get(ver: Seq<(Seq<Seq<char>>, nat)>, p: Seq<Seq<char>>) -> nat
    decreases ver.len(),
{
    if ver.len() == 0 {
        0
    } else if ver.last().0 == p {
        ver.last().1
    } else {
        sp_ver_get(ver.drop_last(), p)
    }
}

impl SymbolTable {
    /// The scope stack, innermost scope last.
    pub closed spec fn scopes_view(&self) -> Seq<Seq<(Seq<Seq<char>>, VarV)>> {
        self.scopes@.map_values(
            |sc: Vec<(Path, Var)>| sc@.map_values(|e: (Path, Var)| (e.0@, e.1@)),
        )
    }

    /// The per-name version counters.
    pub closed spec fn ver_view(&self) -> Seq<(Seq<Seq<char>>, nat)> {
        self.ver@.map_values(|e: (Path, usize)| (e.0@, e.1 as nat))
    }

    /// A table with one empty scope and no version counters.
    pub fn new() -> (t: Self)
        ensures
            t.scopes_view() == seq![Seq::<(Seq<Seq<char>>, VarV)>::empty()],
            t.ver_view() == Seq::<(Seq<Seq<char>>, nat)>::empty(),
    {
        let mut scopes: Vec<Vec<(Path, Var)>> = Vec::new();
        scopes.push(Vec::new());
        let t = SymbolTable { scopes, ver: Vec::new() };
        proof {
            assert(t.scopes_view() =~~= seq![Seq::<(Seq<Seq<char>>, VarV)>::empty()]);
            assert(t.ver_view() =~= Seq::<(Seq<Seq<char>>, nat)>::empty());
        }
        t
    }

    /// Opens a nested scope.
    pub fn push_scope(&mut self)
        ensures
            final(self).scopes_view() == old(self).scopes_view().push(
                Seq::<(Seq<Seq<char>>, VarV)>::empty(),
            ),
            final(self).ver_view() == old(self).ver_view(),
    {
        self.scopes.push(Vec::new());
        proof {
            assert(self.scopes_view() =~~= old(self).scopes_view().push(
                Seq::<(Seq<Seq<char>>, VarV)>::empty(),
            ));
        }
    }

    /// Closes the innermost scope.
    pub fn pop_scope(&mut self)
        ensures
            final(self).ver_view() == old(self).ver_view(),
            old(self).scopes_view().len() > 0 ==> final(self).scopes_view() == old(
                self,
            ).scopes_view().drop_last(),
            old(self).scopes_view().len() == 0 ==> final(self).scopes_view() == old(
                self,
            ).scopes_view(),
    {
        let _ = self.scopes.pop();
        proof {
            if old(self).scopes_view().len() > 0 {
                assert(self.scopes_view() =~~= old(self).scopes_view().drop_last());
            } else {
                assert(self.scopes_view() =~~= old(self).scopes_view());
            }
        }
    }

    /// Records `path → v` in the innermost scope.
    pub fn add(&mut self, path: Path, v: Var)
        requires
            path@.len() == 1,
            old(self).scopes_view().len() > 0,
        ensures
            final(self).ver_view() == old(self).ver_view(),
            final(self).scopes_view() == old(self).scopes_view().update(
                old(self).scopes_view().len() - 1,
                old(self).scopes_view().last().push((path@, v@)),
            ),
    {
        let n = self.scopes.len();
        proof {
            assert(self.scopes_view().len() == self.scopes@.len());
        }
        let last = &mut self.scopes[n - 1];
        last.push((path, v));
        proof {
            assert(self.scopes_view() =~~= old(self).scopes_view().update(
                old(self).scopes_view().len() - 1,
                old(self).scopes_view().last().push((path@, v@)),
            ));
        }
    }

    fn scope_get(entries: &Vec<(Path, Var)>, path: &Path) -> (r: Option<Var>)
        ensures
            match r {
                Option::Some(v) => sp_scope_get(
                    entries@.map_values(|e: (Path, Var)| (e.0@, e.1@)),
                    path@,
                ) == Option::Some(v@),
                Option::None => sp_scope_get(
                    entries@.map_values(|e: (Path, Var)| (e.0@, e.1@)),
                    path@,
                ) is None,
            },
    {
        let ghost ev = entries@.map_values(|e: (Path, Var)| (e.0@, e.1@));
        let n = entries.len();
        let mut k: usize = n;
        proof {
            assert(ev.subrange(0, n as int) =~= ev);
        }
        while k > 0
            invariant
                k <= n,
                n == entries.len(),
                ev == entries@.map_values(|e: (Path, Var)| (e.0@, e.1@)),
                sp_scope_get(ev, path@) == sp_scope_get(ev.subrange(0, k as int), path@),
            decreases k,
        {
            k = k - 1;
            let hit = ir::path_eq(&entries[k].0, path);
            proof {
                let sub1 = ev.subrange(0, k as int + 1);
                assert(sub1.last() == ev[k as int]);
                assert(ev[k as int] == (entries@[k as int].0@, entries@[k as int].1@));
                assert(sub1.drop_last() =~= ev.subrange(0, k as int));
            }
            if hit {
                return Some(ir::var_dup(&entries[k].1));
            }
        }
        proof {
            assert(ev.subrange(0, 0) =~= Seq::<(Seq<Seq<char>>, VarV)>::empty());
        }
        None
    }

    /// The binding for `path`, innermost scope first.
    pub fn get(&self, path: &Path) -> (r: Option<Var>)
        ensures
            match r {
                Option::Some(v) => sp_sym_get(self.scopes_view(), path@) == Option::Some(v@),
                Option::None => sp_sym_get(self.scopes_view(), path@) is None,
            },
    {
        let ghost sv = self.scopes_view();
        let n = self.scopes.len();
        let mut k: usize = n;
        proof {
            assert(sv.len() == self.scopes@.len());
            assert(sv.subrange(0, n as int) =~~= sv);
        }
        while k > 0
            invariant
                k <= n,
                n == self.scopes.len(),
                sv == self.scopes_view(),
                sv.len() == n,
                sp_sym_get(sv, path@) == sp_sym_get(sv.subrange(0, k as int), path@),
            decreases k,
        {
            k = k - 1;
            proof {
                let sub1 = sv.subrange(0, k as int + 1);
                assert(sub1.last() == sv[k as int]);
                assert(sv[k as int] == self.scopes@[k as int]@.map_values(
                    |e: (Path, Var)| (e.0@, e.1@),
                ));
                assert(sub1.drop_last() =~~= sv.subrange(0, k as int));
            }
            match Self::scope_get(&self.scopes[k], path) {
                Some(v) => {
                    return Some(v);
                },
                None => {},
            }
        }
        proof {
            assert(sv.subrange(0, 0) =~~= Seq::<Seq<(Seq<Seq<char>>, VarV)>>::empty());
        }
        None
    }

    fn ver_get(&self, path: &Path) -> (r: usize)
        ensures
            r as nat == sp_ver_get(self.ver_view(), path@),
    {
        let ghost vv = self.ver_view();
        let n = self.ver.len();
        let mut k: usize = n;
        proof {
            assert(vv.len() == self.ver@.len());
            assert(vv.subrange(0, n as int) =~= vv);
        }
        while k > 0
            invariant
                k <= n,
                n == self.ver.len(),
                vv == self.ver_view(),
                vv.len() == n,
                sp_ver_get(vv, path@) == sp_ver_get(vv.subrange(0, k as int), path@),
            decreases k,
        {
            k = k - 1;
            let hit = ir::path_eq(&self.ver[k].0, path);
            proof {
                let sub1 = vv.subrange(0, k as int + 1);
                assert(sub1.last() == vv[k as int]);
                assert(vv[k as int] == (self.ver@[k as int].0@, self.ver@[k as int].1 as nat));
                assert(sub1.drop_last() =~= vv.subrange(0, k as int));
            }
            if hit {
                return self.ver[k].1;
            }
        }
        proof {
            assert(vv.subrange(0, 0) =~= Seq::<(Seq<Seq<char>>, nat)>::empty());
        }
        0
    }
}

/// The lowering context: the symbol table and the temporary counter.
pub struct ParseContext {
    pub sym: SymbolTable,
    var_gen: usize,
}

/// A fresh synthetic temporary; fails only when the counter is exhausted.
pub open spec fn sp_gen_var(st: LowerStV) -> Result<(VarV, LowerStV), CompileErrorV> {
    if st.var_gen >= usize::MAX {
        Err(CompileErrorV::UnsupportedConstruct(Construct::Oversized))
    } else {
        Ok(
            (
                VarV::Id(st.var_gen),
                LowerStV { scopes: st.scopes, ver: st.ver, var_gen: st.var_gen + 1 },
            ),
        )
    }
}

/// A fresh version of the named variable: the pair (name, next version),
/// recorded in the innermost scope, with the version counter bumped.
pub open spec fn sp_add_named_var(st: LowerStV, p: Seq<Seq<char>>) -> Result<
    (VarV, LowerStV),
    CompileErrorV,
> {
    let ver = sp_ver_get(st.ver, p);
    if ver >= usize::MAX || st.scopes.len() == 0 {
        Err(CompileErrorV::UnsupportedConstruct(Construct::Oversized))
    } else {
        let v = VarV::Named(p, ver);
        Ok(
            (
                v,
                LowerStV {
                    scopes: st.scopes.update(st.scopes.len() - 1, st.scopes.last().push((p, v))),
                    ver: st.ver.push((p, ver + 1)),
                    var_gen: st.var_gen,
                },
            ),
        )
    }
}

impl ParseContext {
    /// The whole lowering state as one view.
    pub closed spec fn st(&self) -> LowerStV {
        LowerStV {
            scopes: self.sym.scopes_view(),
            ver: self.sym.ver_view(),
            var_gen: self.var_gen as nat,
        }
    }

    /// A context with one empty scope and the counter at zero.
    pub fn new() -> (cx: Self)
        ensures
            cx.st() == (LowerStV {
                scopes: seq![Seq::<(Seq<Seq<char>>, VarV)>::empty()],
                ver: Seq::<(Seq<Seq<char>>, nat)>::empty(),
                var_gen: 0,
            }),
    {
        ParseContext { sym: SymbolTable::new(), var_gen: 0 }
    }

    /// Draws a fresh synthetic temporary (see `sp_gen_var`).
    pub fn gen_var(&mut self) -> (r: Result<Var, CompileError>)
        ensures
            match r {
                Ok(v) => sp_gen_var(old(self).st()) == Ok::<_, CompileErrorV>(
                    (v@, final(self).st()),
                ),
                Err(e) => sp_gen_var(old(self).st()) == Err::<(VarV, LowerStV), _>(e@),
            },
    {
        if self.var_gen == usize::MAX {
            Err(CompileError::UnsupportedConstruct(Construct::Oversized))
        } else {
            let i = self.var_gen;
            self.var_gen = i + 1;
            Ok(Var::Id(i))
        }
    }

    /// Resolves a named variable (see `sp_sym_get`); an identifier no scope
    /// defines is an `UndefinedVariable` error.
    pub fn get_named_var(&self, path: &Path) -> (r: Result<Var, CompileError>)
        ensures
            match r {
                Ok(v) => sp_sym_get(self.st().scopes, path@) == Option::Some(v@),
                Err(e) => sp_sym_get(self.st().scopes, path@) is None && e@
                    == CompileErrorV::UndefinedVariable(path@),
            },
    {
        match self.sym.get(path) {
            Some(v) => Ok(v),
            None => Err(CompileError::UndefinedVariable(ir::path_dup(path))),
        }
    }

    /// Binds a fresh version of a source name (see `sp_add_named_var`).
    pub fn add_named_var(&mut self, path: Path) -> (r: Result<Var, CompileError>)
        requires
            path@.len() == 1,
        ensures
            match r {
                Ok(v) => sp_add_named_var(old(self).st(), path@) == Ok::<_, CompileErrorV>(
                    (v@, final(self).st()),
                ),
                Err(e) => sp_add_named_var(old(self).st(), path@) == Err::<(VarV, LowerStV), _>(
                    e@,
                ),
            },
    {
        let ver = self.sym.ver_get(&path);
        if ver == usize::MAX {
            return Err(CompileError::UnsupportedConstruct(Construct::Oversized));
        }
        proof {
            assert(self.sym.scopes_view().len() == old(self).st().scopes.len());
        }
        if self.sym.scopes.len() == 0 {
            proof {
                assert(self.sym.scopes_view().len() == 0);
            }
            return Err(CompileError::UnsupportedConstruct(Construct::Oversized));
        }
        let var = Var::Named(ir::path_dup(&path), ver);
        self.sym.ver.push((ir::path_dup(&path), ver + 1));
        proof {
            assert(self.sym.ver_view() =~= old(self).st().ver.push((path@, ver as nat + 1)));
        }
        self.sym.add(path, ir::var_dup(&var));
        Ok(var)
    }
}


/// The primitive for a supported binary operator; the exclusive-or form is
/// recognized but unhandled.
pub open spec fn sp_binop_prim(op: BinOp) -> Option<PrimFunc> {
    match op {
        BinOp::Add => Option::Some(PrimFunc::Add),
        BinOp::Sub => Option::Some(PrimFunc::Sub),
        BinOp::Mul => Option::Some(PrimFunc::Mul),
        BinOp::Div => Option::Some(PrimFunc::Div),
        BinOp::Rem => Option::Some(PrimFunc::Rem),
        BinOp::And => Option::Some(PrimFunc::And),
        BinOp::Or => Option::Some(PrimFunc::Or),
        BinOp::BitXor => Option::None,
        BinOp::BitAnd => Option::Some(PrimFunc::BitAnd),
        BinOp::BitOr => Option::Some(PrimFunc::BitOr),
        BinOp::Shl => Option::Some(PrimFunc::Shl),
        BinOp::Shr => Option::Some(PrimFunc::Shr),
        BinOp::Eq => Option::Some(PrimFunc::Eq),
        BinOp::Ne => Option::Some(PrimFunc::Ne),
        BinOp::Lt => Option::Some(PrimFunc::Lt),
        BinOp::Gt => Option::Some(PrimFunc::Gt),
        BinOp::Le => Option::Some(PrimFunc::Le),
        BinOp::Ge => Option::Some(PrimFunc::Ge),
    }
}

/// Emits one atom binding into the block and yields its fresh variable.
pub open spec fn sp_emit_atom(st: LowerStV, blk: BlockV, a: AtomV) -> Result<
    (LowerStV, BlockV, VarV),
    CompileErrorV,
> {
    match sp_gen_var(st) {
        Err(e) => Err(e),
        Ok((v, st1)) => Ok(
            (
                st1,
                BlockV {
                    bindings: blk.bindings.push(LetV { var: v, val: ExprV::Atom(a) }),
                    ret: blk.ret,
                },
                v,
            ),
        ),
    }
}

/// Emits one call binding into the block and yields its fresh variable.
pub open spec fn sp_emit_call(st: LowerStV, blk: BlockV, f: FuncV, args: Seq<VarV>) -> Result<
    (LowerStV, BlockV, VarV),
    CompileErrorV,
> {
    match sp_gen_var(st) {
        Err(e) => Err(e),
        Ok((v, st1)) => Ok(
            (
                st1,
                BlockV {
                    bindings: blk.bindings.push(LetV { var: v, val: ExprV::Call(f, args) }),
                    ret: blk.ret,
                },
                v,
            ),
        ),
    }
}

/// Lowers one surface expression into the current block: each syntactic
/// form emits zero or more bindings and yields the one variable holding
/// its result. Unsupported forms are a hard failure, never a silent
/// partial lowering.
pub open spec fn sp_lower_expr(st: LowerStV, e: AstExprV, blk: BlockV) -> Result<
    (LowerStV, BlockV, VarV),
    CompileErrorV,
>
    decreases e, 0int, 0int,
{
    match e {
        AstExprV::Lit { digits, is_float } => sp_emit_atom(
            st,
            blk,
            AtomV::Literal(
                digits,
                if is_float {
                    Primitive::F32
                } else {
                    Primitive::I32
                },
            ),
        ),
        AstExprV::BoolLit(b) => sp_emit_atom(
            st,
            blk,
            AtomV::Literal(
                if b {
                    "true"@
                } else {
                    "false"@
                },
                Primitive::Bool,
            ),
        ),
        AstExprV::StrLit(t) => sp_emit_atom(st, blk, AtomV::String(t)),
        AstExprV::Ident(p) => {
            if p.generics {
                Err(CompileErrorV::UnsupportedConstruct(Construct::Generics))
            } else if p.segments.len() == 1 {
                match sp_sym_get(st.scopes, p.segments) {
                    Option::Some(v) => Ok((st, blk, v)),
                    Option::None => Err(CompileErrorV::UndefinedVariable(p.segments)),
                }
            } else {
                sp_emit_atom(st, blk, AtomV::Identifier { path: p.segments, constant: true })
            }
        },
        AstExprV::Unary { op, expr } => match sp_lower_expr(st, *expr, blk) {
            Err(e1) => Err(e1),
            Ok((st1, blk1, v)) => sp_emit_call(
                st1,
                blk1,
                FuncV::PrimFunc(
                    match op {
                        UnOp::Neg => PrimFunc::Neg,
                        UnOp::Not => PrimFunc::Not,
                    },
                ),
                seq![v],
            ),
        },
        AstExprV::Binary { op, lhs, rhs } => match sp_lower_expr(st, *lhs, blk) {
            Err(e1) => Err(e1),
            Ok((st1, blk1, lv)) => match sp_lower_expr(st1, *rhs, blk1) {
                Err(e2) => Err(e2),
                Ok((st2, blk2, rv)) => match sp_binop_prim(op) {
                    Option::None => Err(CompileErrorV::UnsupportedConstruct(Construct::Operator)),
                    Option::Some(pf) => sp_emit_call(st2, blk2, FuncV::PrimFunc(pf), seq![lv, rv]),
                },
            },
        },
        AstExprV::Field { base, member } => match sp_lower_expr(st, *base, blk) {
            Err(e1) => Err(e1),
            Ok((st1, blk1, bv)) => match sp_emit_atom(st1, blk1, AtomV::String(member)) {
                Err(e2) => Err(e2),
                Ok((st2, blk2, mv)) => sp_emit_call(
                    st2,
                    blk2,
                    FuncV::PrimFunc(PrimFunc::Extract),
                    seq![bv, mv],
                ),
            },
        },
        AstExprV::CallExpr { callee, args } => {
            if callee.generics {
                Err(CompileErrorV::UnsupportedConstruct(Construct::Generics))
            } else {
                match sp_lower_args(st, args, 0, blk, Seq::empty()) {
                    Err(e1) => Err(e1),
                    Ok((st1, blk1, vs)) => sp_emit_call(st1, blk1, FuncV::Named(callee.segments), vs),
                }
            }
        },
        AstExprV::MethodCall { receiver, method, args } => match sp_lower_args(
            st,
            args,
            0,
            blk,
            Seq::empty(),
        ) {
            Err(e1) => Err(e1),
            Ok((st1, blk1, vs)) => match sp_lower_expr(st1, *receiver, blk1) {
                Err(e2) => Err(e2),
                Ok((st2, blk2, rv)) => sp_emit_call(
                    st2,
                    blk2,
                    FuncV::Named(seq![method]),
                    vs.insert(0, rv),
                ),
            },
        },
        AstExprV::IfElse { cond, then_branch, else_branch } => match sp_lower_expr(st, *cond, blk) {
            Err(e1) => Err(e1),
            Ok((st1, blk1, cv)) => match sp_lower_block(
                st1,
                then_branch,
                BlockV { bindings: Seq::empty(), ret: Option::None },
            ) {
                Err(e2) => Err(e2),
                Ok((st2, then_b)) => match sp_lower_expr(
                    st2,
                    *else_branch,
                    BlockV { bindings: Seq::empty(), ret: Option::None },
                ) {
                    Err(e3) => Err(e3),
                    Ok((st3, eb, ev)) => {
                        let else_b = BlockV { bindings: eb.bindings, ret: Option::Some(ev) };
                        match sp_gen_var(st3) {
                            Err(e4) => Err(e4),
                            Ok((v, st4)) => Ok(
                                (
                                    st4,
                                    BlockV {
                                        bindings: blk1.bindings.push(
                                            LetV {
                                                var: v,
                                                val: ExprV::IfThenElse {
                                                    cond: cv,
                                                    then: then_b,
                                                    else_: else_b,
                                                },
                                            },
                                        ),
                                        ret: blk1.ret,
                                    },
                                    v,
                                ),
                            ),
                        }
                    },
                },
            },
        },
        AstExprV::BlockExpr(b) => match sp_lower_block(
            st,
            b,
            BlockV { bindings: Seq::empty(), ret: Option::None },
        ) {
            Err(e1) => Err(e1),
            Ok((st1, nb)) => match nb.ret {
                Option::None => Err(
                    CompileErrorV::UnsupportedConstruct(Construct::BlockFallthrough),
                ),
                Option::Some(v) => Ok(
                    (st1, BlockV { bindings: blk.bindings + nb.bindings, ret: blk.ret }, v),
                ),
            },
        },
    }
}

/// Lowers call arguments left to right, accumulating their variables.
pub open spec fn sp_lower_args(
    st: LowerStV,
    args: Seq<AstExprV>,
    i: int,
    blk: BlockV,
    acc: Seq<VarV>,
) -> Result<(LowerStV, BlockV, Seq<VarV>), CompileErrorV>
    decreases args, 1int, args.len() - i,
{
    if i < 0 || i >= args.len() {
        Ok((st, blk, acc))
    } else {
        match sp_lower_expr(st, args[i], blk) {
            Err(e) => Err(e),
            Ok((st1, blk1, v)) => sp_lower_args(st1, args, i + 1, blk1, acc.push(v)),
        }
    }
}

/// Lowers one statement into the block.
pub open spec fn sp_lower_stmt(st: LowerStV, s: AstStmtV, blk: BlockV) -> Result<
    (LowerStV, BlockV),
    CompileErrorV,
>
    decreases s, 0int, 0int,
{
    match s {
        AstStmtV::LetBind { by_ref, mutable, name, init } => {
            if by_ref {
                Err(CompileErrorV::UnsupportedConstruct(Construct::ByReference))
            } else if mutable {
                Err(CompileErrorV::UnsupportedConstruct(Construct::Mutability))
            } else {
                match sp_lower_expr(st, init, blk) {
                    Err(e) => Err(e),
                    Ok((st1, blk1, iv)) => match sp_add_named_var(st1, seq![name]) {
                        Err(e) => Err(e),
                        Ok((v, st2)) => Ok(
                            (
                                st2,
                                BlockV {
                                    bindings: blk1.bindings.push(
                                        LetV { var: v, val: ExprV::Var(iv) },
                                    ),
                                    ret: blk1.ret,
                                },
                            ),
                        ),
                    },
                }
            }
        },
        AstStmtV::Assign { target, value } => match sp_lower_expr(st, value, blk) {
            Err(e) => Err(e),
            Ok((st1, blk1, rv)) => {
                if target.generics {
                    Err(CompileErrorV::UnsupportedConstruct(Construct::Generics))
                } else if target.segments.len() != 1 {
                    Err(CompileErrorV::UnsupportedConstruct(Construct::Pattern))
                } else {
                    match sp_add_named_var(st1, target.segments) {
                        Err(e) => Err(e),
                        Ok((v, st2)) => Ok(
                            (
                                st2,
                                BlockV {
                                    bindings: blk1.bindings.push(
                                        LetV { var: v, val: ExprV::Var(rv) },
                                    ),
                                    ret: blk1.ret,
                                },
                            ),
                        ),
                    }
                }
            },
        },
        AstStmtV::OpAssign => Err(CompileErrorV::UnsupportedConstruct(Construct::Operator)),
        AstStmtV::SemiExpr => Err(CompileErrorV::UnsupportedConstruct(Construct::Statement)),
        AstStmtV::Tail(e) => match sp_lower_expr(st, e, blk) {
            Err(e1) => Err(e1),
            Ok((st1, blk1, v)) => {
                if blk1.ret is Some {
                    Err(CompileErrorV::UnsupportedConstruct(Construct::MultipleImplicitReturns))
                } else {
                    Ok((st1, BlockV { bindings: blk1.bindings, ret: Option::Some(v) }))
                }
            },
        },
    }
}

/// Lowers the statements of a block in order.
pub open spec fn sp_lower_stmts(st: LowerStV, stmts: Seq<AstStmtV>, i: int, blk: BlockV) -> Result<
    (LowerStV, BlockV),
    CompileErrorV,
>
    decreases stmts, 1int, stmts.len() - i,
{
    if i < 0 || i >= stmts.len() {
        Ok((st, blk))
    } else {
        match sp_lower_stmt(st, stmts[i], blk) {
            Err(e) => Err(e),
            Ok((st_n, blk_n)) => sp_lower_stmts(st_n, stmts, i + 1, blk_n),
        }
    }
}

/// Lowers a block: opens a scope, lowers each statement, closes the scope;
/// the block must resolve its return exactly once.
pub open spec fn sp_lower_block(st: LowerStV, b: AstBlockV, blk: BlockV) -> Result<
    (LowerStV, BlockV),
    CompileErrorV,
>
    decreases b, 2int, 0int,
{
    let st_in = LowerStV {
        scopes: st.scopes.push(Seq::empty()),
        ver: st.ver,
        var_gen: st.var_gen,
    };
    match sp_lower_stmts(st_in, b.stmts, 0, blk) {
        Err(e) => Err(e),
        Ok((st1, blk1)) => {
            let st_out = LowerStV {
                scopes: if st1.scopes.len() > 0 {
                    st1.scopes.drop_last()
                } else {
                    st1.scopes
                },
                ver: st1.ver,
                var_gen: st1.var_gen,
            };
            if blk1.ret is None {
                Err(CompileErrorV::UnsupportedConstruct(Construct::BlockFallthrough))
            } else {
                Ok((st_out, blk1))
            }
        },
    }
}


/// The exec lowering result agrees with the specified one.
pub open spec fn lower_expr_matches(
    st0: LowerStV,
    ev: AstExprV,
    blk0: BlockV,
    st1: LowerStV,
    blk1: BlockV,
    r: Result<Var, CompileError>,
) -> bool {
    match r {
        Ok(v) => sp_lower_expr(st0, ev, blk0) == Ok::<(LowerStV, BlockV, VarV), CompileErrorV>(
            (st1, blk1, v@),
        ),
        Err(e) => sp_lower_expr(st0, ev, blk0) == Err::<(LowerStV, BlockV, VarV), CompileErrorV>(
            e@,
        ),
    }
}

impl ParseContext {
    fn emit_atom(&mut self, block: &mut Block, a: Atom) -> (r: Result<Var, CompileError>)
        ensures
            match r {
                Ok(v) => sp_emit_atom(old(self).st(), old(block)@, a@) == Ok::<_, CompileErrorV>(
                    (final(self).st(), final(block)@, v@),
                ),
                Err(e) => sp_emit_atom(old(self).st(), old(block)@, a@) == Err::<
                    (LowerStV, BlockV, VarV),
                    _,
                >(e@),
            },
    {
        let ghost av = a@;
        let v = match self.gen_var() {
            Ok(v) => v,
            Err(e) => {
                return Err(e);
            },
        };
        block.bindings.push(Let { var: ir::var_dup(&v), val: Expr::Atom(a) });
        proof {
            let l = block.bindings@[block.bindings@.len() - 1];
            assert(block.bindings@ == old(block).bindings@.push(l));
            ir::lemma_lets_view_extend(block.bindings, old(block).bindings, l);
            assert(ir::expr_view(l.val) == ExprV::Atom(av));
            assert(block@.bindings == old(block)@.bindings.push(LetV { var: v@, val: ExprV::Atom(av) }));
            assert(block@.ret == old(block)@.ret);
        }
        Ok(v)
    }

    fn emit_call(&mut self, block: &mut Block, f: Func, args: Vec<Var>) -> (r: Result<
        Var,
        CompileError,
    >)
        ensures
            match r {
                Ok(v) => sp_emit_call(old(self).st(), old(block)@, f@, ir::vars_view(args)) == Ok::<
                    _,
                    CompileErrorV,
                >((final(self).st(), final(block)@, v@)),
                Err(e) => sp_emit_call(old(self).st(), old(block)@, f@, ir::vars_view(args)) == Err::<
                    (LowerStV, BlockV, VarV),
                    _,
                >(e@),
            },
    {
        let ghost fv = f@;
        let ghost argsv = ir::vars_view(args);
        let v = match self.gen_var() {
            Ok(v) => v,
            Err(e) => {
                return Err(e);
            },
        };
        block.bindings.push(Let { var: ir::var_dup(&v), val: Expr::Call(f, args) });
        proof {
            let l = block.bindings@[block.bindings@.len() - 1];
            assert(block.bindings@ == old(block).bindings@.push(l));
            ir::lemma_lets_view_extend(block.bindings, old(block).bindings, l);
            assert(ir::expr_view(l.val) == ExprV::Call(fv, argsv));
            assert(block@.bindings == old(block)@.bindings.push(
                LetV { var: v@, val: ExprV::Call(fv, argsv) },
            ));
            assert(block@.ret == old(block)@.ret);
        }
        Ok(v)
    }

    /// The primitive for a binary operator (see `sp_binop_prim`).
    fn binop_prim(op: BinOp) -> (r: Option<PrimFunc>)
        ensures
            r == sp_binop_prim(op),
    {
        match op {
            BinOp::Add => Some(PrimFunc::Add),
            BinOp::Sub => Some(PrimFunc::Sub),
            BinOp::Mul => Some(PrimFunc::Mul),
            BinOp::Div => Some(PrimFunc::Div),
            BinOp::Rem => Some(PrimFunc::Rem),
            BinOp::And => Some(PrimFunc::And),
            BinOp::Or => Some(PrimFunc::Or),
            BinOp::BitXor => None,
            BinOp::BitAnd => Some(PrimFunc::BitAnd),
            BinOp::BitOr => Some(PrimFunc::BitOr),
            BinOp::Shl => Some(PrimFunc::Shl),
            BinOp::Shr => Some(PrimFunc::Shr),
            BinOp::Eq => Some(PrimFunc::Eq),
            BinOp::Ne => Some(PrimFunc::Ne),
            BinOp::Lt => Some(PrimFunc::Lt),
            BinOp::Gt => Some(PrimFunc::Gt),
            BinOp::Le => Some(PrimFunc::Le),
            BinOp::Ge => Some(PrimFunc::Ge),
        }
    }

    /// Lowers one expression into `block` (see `sp_lower_expr`).
    #[verifier::rlimit(100)]
    pub fn parse_expr(&mut self, e: &crate::ast::AstExpr, block: &mut Block) -> (r: Result<
        Var,
        CompileError,
    >)
        ensures
            lower_expr_matches(old(self).st(), e@, old(block)@, final(self).st(), final(block)@, r),
        decreases *e, 0int, 0int,
    {
        match e {
            crate::ast::AstExpr::Lit { digits, is_float } => {
                let prim = if *is_float {
                    Primitive::F32
                } else {
                    Primitive::I32
                };
                self.emit_atom(block, Atom::Literal(digits.clone(), prim))
            },
            crate::ast::AstExpr::BoolLit(b) => {
                let text = if *b {
                    String::from_str("true")
                } else {
                    String::from_str("false")
                };
                self.emit_atom(block, Atom::Literal(text, Primitive::Bool))
            },
            crate::ast::AstExpr::StrLit(t) => self.emit_atom(block, Atom::String(t.clone())),
            crate::ast::AstExpr::Ident(p) => {
                if p.generics {
                    Err(CompileError::UnsupportedConstruct(Construct::Generics))
                } else if p.segments.len() == 1 {
                    let path = ir::path_from_segments(&p.segments);
                    proof {
                        assert(path@ == p@.segments);
                    }
                    match self.get_named_var(&path) {
                        Ok(v) => Ok(v),
                        Err(e1) => Err(e1),
                    }
                } else {
                    let path = ir::path_from_segments(&p.segments);
                    self.emit_atom(block, Atom::Identifier { path, constant: true })
                }
            },
            crate::ast::AstExpr::Unary { op, expr } => {
                let v = match self.parse_expr(expr, block) {
                    Ok(v) => v,
                    Err(e1) => {
                        return Err(e1);
                    },
                };
                let pf = match op {
                    UnOp::Neg => PrimFunc::Neg,
                    UnOp::Not => PrimFunc::Not,
                };
                let ghost vv = v@;
                let args = vec![v];
                proof {
                    assert(ir::vars_view(args) =~= seq![vv]);
                }
                self.emit_call(block, Func::PrimFunc(pf), args)
            },
            crate::ast::AstExpr::Binary { op, lhs, rhs } => {
                let lv = match self.parse_expr(lhs, block) {
                    Ok(v) => v,
                    Err(e1) => {
                        return Err(e1);
                    },
                };
                let rv = match self.parse_expr(rhs, block) {
                    Ok(v) => v,
                    Err(e2) => {
                        return Err(e2);
                    },
                };
                match Self::binop_prim(*op) {
                    None => Err(CompileError::UnsupportedConstruct(Construct::Operator)),
                    Some(pf) => {
                        let ghost lvv = lv@;
                        let ghost rvv = rv@;
                        let args = vec![lv, rv];
                        proof {
                            assert(ir::vars_view(args) =~= seq![lvv, rvv]);
                        }
                        self.emit_call(block, Func::PrimFunc(pf), args)
                    },
                }
            },
            crate::ast::AstExpr::Field { base, member } => {
                let bv = match self.parse_expr(base, block) {
                    Ok(v) => v,
                    Err(e1) => {
                        return Err(e1);
                    },
                };
                let mv = match self.emit_atom(block, Atom::String(member.clone())) {
                    Ok(v) => v,
                    Err(e2) => {
                        return Err(e2);
                    },
                };
                let ghost bvv = bv@;
                let ghost mvv = mv@;
                let args = vec![bv, mv];
                proof {
                    assert(ir::vars_view(args) =~= seq![bvv, mvv]);
                }
                self.emit_call(block, Func::PrimFunc(PrimFunc::Extract), args)
            },
            crate::ast::AstExpr::CallExpr { callee, args } => {
                if callee.generics {
                    Err(CompileError::UnsupportedConstruct(Construct::Generics))
                } else {
                    let vs = match self.parse_args(args, block) {
                        Ok(vs) => vs,
                        Err(e1) => {
                            return Err(e1);
                        },
                    };
                    let path = ir::path_from_segments(&callee.segments);
                    proof {
                        assert(path@ == callee@.segments);
                    }
                    self.emit_call(block, Func::Named(path), vs)
                }
            },
            crate::ast::AstExpr::MethodCall { receiver, method, args } => {
                let mut vs = match self.parse_args(args, block) {
                    Ok(vs) => vs,
                    Err(e1) => {
                        return Err(e1);
                    },
                };
                let rv = match self.parse_expr(receiver, block) {
                    Ok(v) => v,
                    Err(e2) => {
                        return Err(e2);
                    },
                };
                let ghost rvv = rv@;
                let ghost vsv = ir::vars_view(vs);
                vs.insert(0, rv);
                proof {
                    assert(ir::vars_view(vs) =~= vsv.insert(0, rvv));
                }
                let mut seg: Vec<String> = Vec::new();
                seg.push(method.clone());
                let path = Path(seg);
                proof {
                    assert(path@ =~= seq![method@]);
                }
                self.emit_call(block, Func::Named(path), vs)
            },
            crate::ast::AstExpr::IfElse { cond, then_branch, else_branch } => {
                let cv = match self.parse_expr(cond, block) {
                    Ok(v) => v,
                    Err(e1) => {
                        return Err(e1);
                    },
                };
                let mut then_b = Block::new();
                proof {
                    assert(then_b@ == (BlockV { bindings: Seq::<LetV>::empty(), ret: Option::None }));
                }
                match self.parse_block(then_branch, &mut then_b) {
                    Ok(_) => {},
                    Err(e2) => {
                        return Err(e2);
                    },
                }
                let mut else_b = Block::new();
                proof {
                    assert(else_b@ == (BlockV { bindings: Seq::<LetV>::empty(), ret: Option::None }));
                }
                let ev = match self.parse_expr(else_branch, &mut else_b) {
                    Ok(v) => v,
                    Err(e3) => {
                        return Err(e3);
                    },
                };
                let ghost eb_pre = else_b@;
                else_b.ret = Some(ir::var_dup(&ev));
                proof {
                    assert(else_b@.bindings == eb_pre.bindings);
                    assert(else_b@.ret == Option::Some(ev@));
                }
                let v = match self.gen_var() {
                    Ok(v) => v,
                    Err(e4) => {
                        return Err(e4);
                    },
                };
                let ghost cvv = cv@;
                let ghost then_bv = then_b@;
                let ghost else_bv = else_b@;
                let ghost pre_bindings = block.bindings;
                let ghost pre = block@;
                block.bindings.push(
                    Let {
                        var: ir::var_dup(&v),
                        val: Expr::IfThenElse { cond: cv, then: Box::new(then_b), else_: Box::new(else_b) },
                    },
                );
                proof {
                    let l = block.bindings@[block.bindings@.len() - 1];
                    assert(block.bindings@ == pre_bindings@.push(l));
                    ir::lemma_lets_view_extend(block.bindings, pre_bindings, l);
                    assert(ir::expr_view(l.val) == ExprV::IfThenElse {
                        cond: cvv,
                        then: then_bv,
                        else_: else_bv,
                    });
                    assert(block@.bindings == pre.bindings.push(
                        LetV {
                            var: v@,
                            val: ExprV::IfThenElse { cond: cvv, then: then_bv, else_: else_bv },
                        },
                    ));
                    assert(block@.ret == pre.ret);
                }
                Ok(v)
            },
            crate::ast::AstExpr::BlockExpr(b) => {
                let mut nb = Block::new();
                proof {
                    assert(nb@ == (BlockV { bindings: Seq::<LetV>::empty(), ret: Option::None }));
                }
                match self.parse_block(b, &mut nb) {
                    Ok(_) => {},
                    Err(e1) => {
                        return Err(e1);
                    },
                }
                match &nb.ret {
                    None => Err(CompileError::UnsupportedConstruct(Construct::BlockFallthrough)),
                    Some(v) => {
                        let rv = ir::var_dup(v);
                        let ghost nbv = nb@;
                        let ghost pre_bindings = block.bindings;
                        let ghost nb_bindings = nb.bindings;
                        block.bindings.append(&mut nb.bindings);
                        proof {
                            ir::lemma_lets_view_concat(block.bindings, pre_bindings, nb_bindings);
                            assert(block@.bindings == old(block)@.bindings + nbv.bindings);
                            assert(block@.ret == old(block)@.ret);
                            assert(nbv.ret == Option::Some(rv@));
                        }
                        Ok(rv)
                    },
                }
            },
        }
    }
}


impl ParseContext {
    fn push_var_binding(&self, ir_block: &mut Block, v: Var, x: Var)
        ensures
            final(ir_block)@.bindings == old(ir_block)@.bindings.push(
                LetV { var: v@, val: ExprV::Var(x@) },
            ),
            final(ir_block)@.ret == old(ir_block)@.ret,
    {
        let ghost vv = v@;
        let ghost xv = x@;
        ir_block.bindings.push(Let { var: v, val: Expr::Var(x) });
        proof {
            let l = ir_block.bindings@[ir_block.bindings@.len() - 1];
            ir::lemma_lets_view_extend(ir_block.bindings, old(ir_block).bindings, l);
            assert(ir::expr_view(l.val) == ExprV::Var(xv));
        }
    }

    /// Lowers call arguments left to right (see `sp_lower_args`).
    fn parse_args(&mut self, args: &Vec<crate::ast::AstExpr>, block: &mut Block) -> (r: Result<
        Vec<Var>,
        CompileError,
    >)
        ensures
            match r {
                Ok(vs) => sp_lower_args(
                    old(self).st(),
                    crate::ast::ast_exprs_view_rec(*args, 0),
                    0,
                    old(block)@,
                    Seq::empty(),
                ) == Ok::<_, CompileErrorV>((final(self).st(), final(block)@, ir::vars_view(vs))),
                Err(e) => sp_lower_args(
                    old(self).st(),
                    crate::ast::ast_exprs_view_rec(*args, 0),
                    0,
                    old(block)@,
                    Seq::empty(),
                ) == Err::<(LowerStV, BlockV, Seq<VarV>), _>(e@),
            },
        decreases *args, 1int, 0int,
    {
        let ghost av = crate::ast::ast_exprs_view_rec(*args, 0);
        proof {
            crate::ast::lemma_ast_exprs_view_len(*args, 0);
        }
        let n = args.len();
        let mut out: Vec<Var> = Vec::new();
        let mut i: usize = 0;
        proof {
            assert(ir::vars_view(out) =~= Seq::<VarV>::empty());
        }
        while i < n
            invariant
                i <= n,
                n == args.len(),
                av == crate::ast::ast_exprs_view_rec(*args, 0),
                av.len() == n,
                sp_lower_args(old(self).st(), av, 0, old(block)@, Seq::empty()) == sp_lower_args(
                    self.st(),
                    av,
                    i as int,
                    block@,
                    ir::vars_view(out),
                ),
            decreases n - i,
        {
            proof {
                crate::ast::lemma_ast_exprs_view_index(*args, 0, i as int);
            }
            let ghost st_i = self.st();
            let ghost blk_i = block@;
            let ghost acc_i = ir::vars_view(out);
            let v = match self.parse_expr(&args[i], block) {
                Ok(v) => v,
                Err(e) => {
                    proof {
                        assert(sp_lower_args(st_i, av, i as int, blk_i, acc_i) == Err::<
                            (LowerStV, BlockV, Seq<VarV>),
                            CompileErrorV,
                        >(e@));
                    }
                    return Err(e);
                },
            };
            let ghost vv = v@;
            out.push(v);
            proof {
                assert(ir::vars_view(out) =~= acc_i.push(vv));
                assert(sp_lower_args(st_i, av, i as int, blk_i, acc_i) == sp_lower_args(
                    self.st(),
                    av,
                    i as int + 1,
                    block@,
                    ir::vars_view(out),
                ));
            }
            i = i + 1;
        }
        Ok(out)
    }

    /// Lowers one statement into `ir_block` (see `sp_lower_stmt`).
    #[verifier::rlimit(100)]
    fn parse_stmt(&mut self, stp: &crate::ast::AstStmt, ir_block: &mut Block) -> (r: Result<
        (),
        CompileError,
    >)
        ensures
            match r {
                Ok(_) => sp_lower_stmt(old(self).st(), stp@, old(ir_block)@) == Ok::<
                    _,
                    CompileErrorV,
                >((final(self).st(), final(ir_block)@)),
                Err(e) => sp_lower_stmt(old(self).st(), stp@, old(ir_block)@) == Err::<
                    (LowerStV, BlockV),
                    _,
                >(e@),
            },
        decreases *stp, 0int, 0int,
    {
        match stp {
            crate::ast::AstStmt::LetBind { by_ref, mutable, name, init } => {
                if *by_ref {
                    return Err(CompileError::UnsupportedConstruct(Construct::ByReference));
                }
                if *mutable {
                    return Err(CompileError::UnsupportedConstruct(Construct::Mutability));
                }
                let iv = match self.parse_expr(init, ir_block) {
                    Ok(v) => v,
                    Err(e) => {
                        return Err(e);
                    },
                };
                let mut seg: Vec<String> = Vec::new();
                seg.push(name.clone());
                let path = Path(seg);
                proof {
                    assert(path@ =~= seq![name@]);
                }
                let v = match self.add_named_var(path) {
                    Ok(v) => v,
                    Err(e) => {
                        return Err(e);
                    },
                };
                self.push_var_binding(ir_block, v, iv);
                Ok(())
            },
            crate::ast::AstStmt::Assign { target, value } => {
                let rv = match self.parse_expr(value, ir_block) {
                    Ok(v) => v,
                    Err(e) => {
                        return Err(e);
                    },
                };
                if target.generics {
                    return Err(CompileError::UnsupportedConstruct(Construct::Generics));
                }
                proof {
                    assert(target@.segments.len() == target.segments@.len());
                }
                if target.segments.len() != 1 {
                    return Err(CompileError::UnsupportedConstruct(Construct::Pattern));
                }
                let path = ir::path_from_segments(&target.segments);
                proof {
                    assert(path@ == target@.segments);
                }
                let v = match self.add_named_var(path) {
                    Ok(v) => v,
                    Err(e) => {
                        return Err(e);
                    },
                };
                self.push_var_binding(ir_block, v, rv);
                Ok(())
            },
            crate::ast::AstStmt::OpAssign => Err(
                CompileError::UnsupportedConstruct(Construct::Operator),
            ),
            crate::ast::AstStmt::SemiExpr => Err(
                CompileError::UnsupportedConstruct(Construct::Statement),
            ),
            crate::ast::AstStmt::Tail(e) => {
                let v = match self.parse_expr(e, ir_block) {
                    Ok(v) => v,
                    Err(e1) => {
                        return Err(e1);
                    },
                };
                match &ir_block.ret {
                    Some(_) => Err(
                        CompileError::UnsupportedConstruct(Construct::MultipleImplicitReturns),
                    ),
                    None => {
                        let ghost pre = ir_block@;
                        ir_block.ret = Some(ir::var_dup(&v));
                        proof {
                            assert(ir_block@.bindings == pre.bindings);
                            assert(ir_block@.ret == Option::Some(v@));
                        }
                        Ok(())
                    },
                }
            },
        }
    }

    /// Lowers a block into `ir_block` (see `sp_lower_block`): opens a scope,
    /// lowers each statement, closes the scope; the block must resolve its
    /// return exactly once.
    pub fn parse_block(&mut self, b: &crate::ast::AstBlock, ir_block: &mut Block) -> (r: Result<
        (),
        CompileError,
    >)
        ensures
            match r {
                Ok(_) => sp_lower_block(old(self).st(), b@, old(ir_block)@) == Ok::<
                    _,
                    CompileErrorV,
                >((final(self).st(), final(ir_block)@)),
                Err(e) => sp_lower_block(old(self).st(), b@, old(ir_block)@) == Err::<
                    (LowerStV, BlockV),
                    _,
                >(e@),
            },
        decreases *b, 2int, 0int,
    {
        let ghost sv = b@.stmts;
        proof {
            crate::ast::lemma_ast_stmts_view_len(b.stmts, 0);
        }
        self.sym.push_scope();
        let ghost st_in = self.st();
        let n = b.stmts.len();
        let mut i: usize = 0;
        while i < n
            invariant
                i <= n,
                n == b.stmts.len(),
                sv == b@.stmts,
                sv.len() == n,
                st_in == (LowerStV {
                    scopes: old(self).st().scopes.push(Seq::empty()),
                    ver: old(self).st().ver,
                    var_gen: old(self).st().var_gen,
                }),
                sp_lower_stmts(st_in, sv, 0, old(ir_block)@) == sp_lower_stmts(
                    self.st(),
                    sv,
                    i as int,
                    ir_block@,
                ),
            decreases n - i,
        {
            proof {
                crate::ast::lemma_ast_stmts_view_index(b.stmts, 0, i as int);
            }
            let ghost st_i = self.st();
            let ghost blk_i = ir_block@;
            match self.parse_stmt(&b.stmts[i], ir_block) {
                Ok(_) => {},
                Err(e) => {
                    proof {
                        assert(sp_lower_stmts(st_i, sv, i as int, blk_i) == Err::<
                            (LowerStV, BlockV),
                            CompileErrorV,
                        >(e@));
                        assert(sp_lower_block(old(self).st(), b@, old(ir_block)@) == Err::<
                            (LowerStV, BlockV),
                            CompileErrorV,
                        >(e@));
                    }
                    return Err(e);
                },
            }
            proof {
                assert(sp_lower_stmts(st_i, sv, i as int, blk_i) == sp_lower_stmts(
                    self.st(),
                    sv,
                    i as int + 1,
                    ir_block@,
                ));
            }
            i = i + 1;
        }
        let ghost st1 = self.st();
        proof {
            assert(sp_lower_stmts(st_in, sv, 0, old(ir_block)@) == Ok::<_, CompileErrorV>(
                (st1, ir_block@),
            ));
        }
        self.sym.pop_scope();
        match &ir_block.ret {
            None => Err(CompileError::UnsupportedConstruct(Construct::BlockFallthrough)),
            Some(_) => Ok(()),
        }
    }
}


/// Lowers the declared parameters: rejected modifiers fail, each name is
/// bound as a fresh named variable, every parameter is differentiable.
pub open spec fn sp_lower_params(
    st: LowerStV,
    params: Seq<crate::ast::AstParamV>,
    i: int,
    acc: Seq<ParameterV>,
) -> Result<(LowerStV, Seq<ParameterV>), CompileErrorV>
    decreases params.len() - i,
{
    if i < 0 || i >= params.len() {
        Ok((st, acc))
    } else {
        let p = params[i];
        if p.by_ref {
            Err(CompileErrorV::UnsupportedConstruct(Construct::ByReference))
        } else if p.mutable {
            Err(CompileErrorV::UnsupportedConstruct(Construct::Mutability))
        } else {
            match sp_add_named_var(st, seq![p.name]) {
                Err(e) => Err(e),
                Ok((v, st1)) => sp_lower_params(
                    st1,
                    params,
                    i + 1,
                    acc.push(
                        ParameterV {
                            name: v,
                            ty: ir::TypeV::Path(p.ty.segments),
                            requires_gradient: true,
                        },
                    ),
                ),
            }
        }
    }
}

/// The initial lowering state: one empty scope, no versions, counter at zero.
pub open spec fn sp_init_state() -> LowerStV {
    LowerStV {
        scopes: seq![Seq::<(Seq<Seq<char>>, VarV)>::empty()],
        ver: Seq::<(Seq<Seq<char>>, nat)>::empty(),
        var_gen: 0,
    }
}

/// Lowers a whole function definition: parameters, then the body block,
/// then the declared return type; a function without one is rejected.
pub open spec fn sp_lower_fn(f: AstFnV) -> Result<FunctionV, CompileErrorV> {
    match sp_lower_params(sp_init_state(), f.params, 0, Seq::empty()) {
        Err(e) => Err(e),
        Ok((st1, ps)) => match sp_lower_block(
            st1,
            f.body,
            BlockV { bindings: Seq::empty(), ret: Option::None },
        ) {
            Err(e) => Err(e),
            Ok((st2, body)) => match f.ret {
                Option::None => Err(
                    CompileErrorV::UnsupportedConstruct(Construct::MissingReturnType),
                ),
                Option::Some(t) => Ok(
                    FunctionV {
                        name: TokenV::Identifier { value: f.name, loc: f.name_loc },
                        parameters: ps,
                        body,
                        ret: ir::TypeV::Path(t.segments),
                    },
                ),
            },
        },
    }
}

/// Lowers one function definition to SSA-form IR (see `sp_lower_fn`).
pub fn lower_fn(ast: &crate::ast::AstFn) -> (r: Result<Function, CompileError>)
    ensures
        match r {
            Ok(f) => sp_lower_fn(ast@) == Ok::<_, CompileErrorV>(f@),
            Err(e) => sp_lower_fn(ast@) == Err::<FunctionV, _>(e@),
        },
{
    let mut cx = ParseContext::new();
    proof {
        assert(cx.st() == sp_init_state());
    }
    let ghost pv = crate::ast::ast_params_view(ast.params);
    proof {
        assert(pv.len() == ast.params@.len());
    }
    let n = ast.params.len();
    let mut params: Vec<Parameter> = Vec::new();
    let mut i: usize = 0;
    proof {
        assert(params_view(params) =~= Seq::<ParameterV>::empty());
    }
    while i < n
        invariant
            i <= n,
            n == ast.params.len(),
            pv == crate::ast::ast_params_view(ast.params),
            pv.len() == n,
            sp_lower_params(sp_init_state(), pv, 0, Seq::empty()) == sp_lower_params(
                cx.st(),
                pv,
                i as int,
                params_view(params),
            ),
        decreases n - i,
    {
        let ghost st_i = cx.st();
        let ghost acc_i = params_view(params);
        let p = &ast.params[i];
        proof {
            assert(pv[i as int] == ast.params@[i as int]@);
        }
        if p.by_ref {
            return Err(CompileError::UnsupportedConstruct(Construct::ByReference));
        }
        if p.mutable {
            return Err(CompileError::UnsupportedConstruct(Construct::Mutability));
        }
        let mut seg: Vec<String> = Vec::new();
        seg.push(p.name.clone());
        let path = Path(seg);
        proof {
            assert(path@ =~= seq![p.name@]);
        }
        let v = match cx.add_named_var(path) {
            Ok(v) => v,
            Err(e) => {
                proof {
                    assert(sp_lower_params(st_i, pv, i as int, acc_i) == Err::<
                        (LowerStV, Seq<ParameterV>),
                        CompileErrorV,
                    >(e@));
                }
                return Err(e);
            },
        };
        let ghost vv = v@;
        let ty = ir::Type::Path(ir::path_from_segments(&p.ty.segments));
        let ghost tyv = ty@;
        params.push(Parameter { name: v, ty, requires_gradient: true });
        proof {
            assert(tyv == ir::TypeV::Path(pv[i as int].ty.segments));
            assert(params_view(params) =~= acc_i.push(
                ParameterV { name: vv, ty: tyv, requires_gradient: true },
            ));
            assert(sp_lower_params(st_i, pv, i as int, acc_i) == sp_lower_params(
                cx.st(),
                pv,
                i as int + 1,
                params_view(params),
            ));
        }
        i = i + 1;
    }
    let ghost st1 = cx.st();
    let ghost psv = params_view(params);
    let mut body = ir::Block::new();
    proof {
        assert(body@ == (BlockV { bindings: Seq::<LetV>::empty(), ret: Option::None }));
    }
    match cx.parse_block(&ast.body, &mut body) {
        Ok(_) => {},
        Err(e) => {
            return Err(e);
        },
    }
    match &ast.ret {
        None => Err(CompileError::UnsupportedConstruct(Construct::MissingReturnType)),
        Some(t) => {
            let f = Function {
                name: Token::Identifier { value: ast.name.clone(), loc: ast.name_loc },
                parameters: params,
                body,
                ret: ir::Type::Path(ir::path_from_segments(&t.segments)),
            };
            proof {
                assert(ast@.ret == Option::Some(t@));
                assert(f@.name == (TokenV::Identifier { value: ast@.name, loc: ast@.name_loc }));
                assert(f@.parameters == psv);
                assert(f@.ret == ir::TypeV::Path(t@.segments));
            }
            Ok(f)
        },
    }
}


/// The whole front end over source text: tokenize, parse one function
/// definition (which must be followed by the end of input), then lower.
pub open spec fn sp_parse_str(s: Seq<char>) -> Result<FunctionV, CompileErrorV> {
    match crate::lex::sp_tokens(s, 0) {
        Err(e) => Err(e),
        Ok(toks) => match crate::syntax::sp_parse_fn(toks, 0) {
            Err(e) => Err(e),
            Ok((ast, k)) => if !(0 <= k < toks.len() && toks[k] is EOF) {
                Err(crate::syntax::sp_perr(toks, k))
            } else {
                sp_lower_fn(ast)
            },
        },
    }
}

/// Parses and lowers the source text of one function definition (see
/// `sp_parse_str`). Any failure aborts the compilation unit: no partially
/// lowered function is ever returned.
pub fn parse_str(s: &str) -> (r: Result<Function, CompileError>)
    ensures
        match r {
            Ok(f) => sp_parse_str(s@) == Ok::<_, CompileErrorV>(f@),
            Err(e) => sp_parse_str(s@) == Err::<FunctionV, _>(e@),
        },
{
    let tokens = match crate::lex::tokenize(s) {
        Ok(v) => v,
        Err(e) => {
            return Err(e);
        },
    };
    proof {
        assert(crate::syntax::tv(tokens) == crate::lex::tokens_view(tokens));
    }
    let (ast, k) = match crate::syntax::parse_fn(&tokens, 0) {
        Ok(x) => x,
        Err(e) => {
            return Err(e);
        },
    };
    proof {
        assert(crate::lex::tokens_view(tokens).len() == tokens@.len());
    }
    if !(k < tokens.len() && tokens[k].is_eof()) {
        proof {
            if (k as int) < tokens@.len() {
                assert(crate::lex::tokens_view(tokens)[k as int] == tokens@[k as int]@);
            }
        }
        return Err(crate::syntax::perr_at(&tokens, k));
    }
    proof {
        assert(crate::lex::tokens_view(tokens)[k as int] == tokens@[k as int]@);
    }
    lower_fn(&ast)
}


/// All binding variables of the IR entries `ls[i..m]`, in creation order,
/// including those of nested conditional arms.
pub open spec fn collect_vars(ls: Seq<LetV>, i: int, m: int) -> Seq<VarV>
    decreases ls, 3int, m - i,
{
    if i < 0 || i >= m || m > ls.len() {
        Seq::empty()
    } else {
        seq![ls[i].var] + (match ls[i].val {
            ExprV::IfThenElse { then, else_, .. } => collect_block_vars(then) + collect_block_vars(
                else_,
            ),
            _ => Seq::empty(),
        }) + collect_vars(ls, i + 1, m)
    }
}

/// All binding variables of a block.
pub open spec fn collect_block_vars(b: BlockV) -> Seq<VarV>
    decreases b, 4int, 0int,
{
    collect_vars(b.bindings, 0, b.bindings.len() as int)
}

/// Whether `v` was already issued in state `st`.
pub open spec fn var_fresh(v: VarV, st: LowerStV) -> bool {
    match v {
        VarV::Id(i) => i < st.var_gen,
        VarV::Named(p, g) => g < sp_ver_get(st.ver, p),
    }
}

/// The counters of `b` dominate those of `a`.
pub open spec fn st_le(a: LowerStV, b: LowerStV) -> bool {
    a.var_gen <= b.var_gen && (forall|p: Seq<Seq<char>>|
        #[trigger] sp_ver_get(a.ver, p) <= sp_ver_get(b.ver, p))
}

/// `v` was issued after state `a` and no later than state `b`.
pub open spec fn born(v: VarV, a: LowerStV, b: LowerStV) -> bool {
    var_fresh(v, b) && !var_fresh(v, a)
}

pub open spec fn all_born(vs: Seq<VarV>, a: LowerStV, b: LowerStV) -> bool {
    forall|k: int| 0 <= k < vs.len() ==> born(#[trigger] vs[k], a, b)
}

/// No two entries coincide.
pub open spec fn distinct_vars(vs: Seq<VarV>) -> bool {
    forall|i: int, j: int| 0 <= i < j < vs.len() ==> vs[i] != vs[j]
}

proof fn lemma_st_le_trans(a: LowerStV, b: LowerStV, c: LowerStV)
    requires
        st_le(a, b),
        st_le(b, c),
    ensures
        st_le(a, c),
{
    assert forall|p: Seq<Seq<char>>| #[trigger] sp_ver_get(a.ver, p) <= sp_ver_get(c.ver, p) by {
        assert(sp_ver_get(a.ver, p) <= sp_ver_get(b.ver, p));
        assert(sp_ver_get(b.ver, p) <= sp_ver_get(c.ver, p));
    }
}

proof fn lemma_fresh_mono(v: VarV, a: LowerStV, b: LowerStV)
    requires
        var_fresh(v, a),
        st_le(a, b),
    ensures
        var_fresh(v, b),
{
    match v {
        VarV::Id(_) => {},
        VarV::Named(p, _) => {
            assert(sp_ver_get(a.ver, p) <= sp_ver_get(b.ver, p));
        },
    }
}

proof fn lemma_unfresh_antimono(v: VarV, a: LowerStV, b: LowerStV)
    requires
        !var_fresh(v, b),
        st_le(a, b),
    ensures
        !var_fresh(v, a),
{
    match v {
        VarV::Id(_) => {},
        VarV::Named(p, _) => {
            assert(sp_ver_get(a.ver, p) <= sp_ver_get(b.ver, p));
        },
    }
}

/// Two runs of variables from consecutive issue windows never collide.
proof fn lemma_born_concat(
    a: Seq<VarV>,
    b: Seq<VarV>,
    st0: LowerStV,
    st1: LowerStV,
    st2: LowerStV,
)
    requires
        distinct_vars(a),
        distinct_vars(b),
        all_born(a, st0, st1),
        all_born(b, st1, st2),
        st_le(st0, st1),
        st_le(st1, st2),
    ensures
        distinct_vars(a + b),
        all_born(a + b, st0, st2),
{
    lemma_st_le_trans(st0, st1, st2);
    let c = a + b;
    assert forall|i: int, j: int| 0 <= i < j < c.len() implies c[i] != c[j] by {
        if i < a.len() && j >= a.len() {
            assert(born(a[i], st0, st1));
            assert(born(b[j - a.len()], st1, st2));
            assert(var_fresh(a[i], st1));
            assert(!var_fresh(b[j - a.len()], st1));
        } else if i < a.len() {
            assert(a[i] != a[j]);
        } else {
            assert(b[i - a.len()] != b[j - a.len()]);
        }
    }
    assert forall|k: int| 0 <= k < c.len() implies born(#[trigger] c[k], st0, st2) by {
        if k < a.len() {
            assert(born(a[k], st0, st1));
            lemma_fresh_mono(a[k], st1, st2);
        } else {
            assert(born(b[k - a.len()], st1, st2));
            lemma_unfresh_antimono(b[k - a.len()], st0, st1);
        }
    }
}

/// A fresh variable plus a run of earlier-issued variables never collide.
proof fn lemma_born_cons(
    v: VarV,
    a: Seq<VarV>,
    st0: LowerStV,
    st1: LowerStV,
    st2: LowerStV,
)
    requires
        distinct_vars(a),
        all_born(a, st0, st1),
        born(v, st1, st2),
        st_le(st0, st1),
        st_le(st1, st2),
    ensures
        distinct_vars(seq![v] + a),
        all_born(seq![v] + a, st0, st2),
{
    lemma_st_le_trans(st0, st1, st2);
    let c = seq![v] + a;
    assert forall|i: int, j: int| 0 <= i < j < c.len() implies c[i] != c[j] by {
        if i == 0 {
            assert(born(a[j - 1], st0, st1));
            assert(var_fresh(a[j - 1], st1));
            assert(!var_fresh(v, st1));
        } else {
            assert(a[i - 1] != a[j - 1]);
        }
    }
    assert forall|k: int| 0 <= k < c.len() implies born(#[trigger] c[k], st0, st2) by {
        if k == 0 {
            lemma_unfresh_antimono(v, st0, st1);
        } else {
            assert(born(a[k - 1], st0, st1));
            lemma_fresh_mono(a[k - 1], st1, st2);
        }
    }
}

proof fn lemma_gen_var_born(st: LowerStV)
    requires
        sp_gen_var(st) is Ok,
    ensures
        st_le(st, sp_gen_var(st)->Ok_0.1),
        born(sp_gen_var(st)->Ok_0.0, st, sp_gen_var(st)->Ok_0.1),
{
}

proof fn lemma_add_named_born(st: LowerStV, p: Seq<Seq<char>>)
    requires
        sp_add_named_var(st, p) is Ok,
    ensures
        st_le(st, sp_add_named_var(st, p)->Ok_0.1),
        born(sp_add_named_var(st, p)->Ok_0.0, st, sp_add_named_var(st, p)->Ok_0.1),
{
    let ver = sp_ver_get(st.ver, p);
    let st1 = sp_add_named_var(st, p)->Ok_0.1;
    assert(st1.ver.drop_last() =~= st.ver);
    assert(st1.ver.last() == (p, (ver + 1) as nat));
    assert(sp_ver_get(st1.ver, p) == ver + 1);
    assert forall|q: Seq<Seq<char>>| #[trigger] sp_ver_get(st.ver, q) <= sp_ver_get(st1.ver, q) by {
        if q != p {
            assert(sp_ver_get(st1.ver, q) == sp_ver_get(st.ver, q));
        }
    }
}

/// Opening or closing a scope leaves the issue counters unchanged.
proof fn lemma_scopes_only(a: LowerStV, b: LowerStV)
    requires
        a.ver == b.ver,
        a.var_gen == b.var_gen,
    ensures
        st_le(a, b),
        st_le(b, a),
{
}

/// Splitting a collection run at `m1`.
proof fn lemma_collect_split(ls: Seq<LetV>, i: int, m1: int, m2: int)
    requires
        0 <= i <= m1 <= m2 <= ls.len(),
    ensures
        collect_vars(ls, i, m2) == collect_vars(ls, i, m1) + collect_vars(ls, m1, m2),
    decreases m1 - i,
{
    if i < m1 {
        lemma_collect_split(ls, i + 1, m1, m2);
        let head = seq![ls[i].var] + (match ls[i].val {
            ExprV::IfThenElse { then, else_, .. } => collect_block_vars(then) + collect_block_vars(
                else_,
            ),
            _ => Seq::empty(),
        });
        assert(collect_vars(ls, i, m2) =~= (head + collect_vars(ls, i + 1, m1)) + collect_vars(
            ls,
            m1,
            m2,
        ));
        assert(collect_vars(ls, i, m1) == head + collect_vars(ls, i + 1, m1));
    } else {
        assert(collect_vars(ls, i, m1) =~= Seq::<VarV>::empty());
        assert(collect_vars(ls, i, m2) =~= collect_vars(ls, i, m1) + collect_vars(ls, m1, m2));
    }
}

/// Collection reads only the entries of the range.
proof fn lemma_collect_agree(ls1: Seq<LetV>, ls2: Seq<LetV>, i: int, m: int)
    requires
        0 <= i,
        m <= ls1.len(),
        m <= ls2.len(),
        forall|k: int| i <= k < m ==> ls1[k] == ls2[k],
    ensures
        collect_vars(ls1, i, m) == collect_vars(ls2, i, m),
    decreases m - i,
{
    if i < m {
        lemma_collect_agree(ls1, ls2, i + 1, m);
        assert(ls1[i] == ls2[i]);
    }
}


/// Shifting a collection run out of an appended suffix.
proof fn lemma_collect_shift(a: Seq<LetV>, b: Seq<LetV>, i: int)
    requires
        0 <= i <= b.len(),
    ensures
        collect_vars(a + b, a.len() as int + i, a.len() as int + b.len() as int) == collect_vars(
            b,
            i,
            b.len() as int,
        ),
    decreases b.len() - i,
{
    if i < b.len() {
        lemma_collect_shift(a, b, i + 1);
        assert((a + b)[a.len() as int + i] == b[i]);
    }
}

/// One lowering step only appends bindings, only advances the counters,
/// and the variables of the appended bindings are pairwise distinct and
/// were all issued during the step.
pub open spec fn lower_grows(st: LowerStV, blk: BlockV, st2: LowerStV, blk2: BlockV) -> bool {
    &&& st_le(st, st2)
    &&& blk.bindings.len() <= blk2.bindings.len()
    &&& (forall|k: int| 0 <= k < blk.bindings.len() ==> blk2.bindings[k] == blk.bindings[k])
    &&& distinct_vars(
        collect_vars(blk2.bindings, blk.bindings.len() as int, blk2.bindings.len() as int),
    )
    &&& all_born(
        collect_vars(blk2.bindings, blk.bindings.len() as int, blk2.bindings.len() as int),
        st,
        st2,
    )
}

proof fn lemma_grows_refl(st: LowerStV, blk: BlockV)
    ensures
        lower_grows(st, blk, st, blk),
{
    assert(collect_vars(blk.bindings, blk.bindings.len() as int, blk.bindings.len() as int)
        =~= Seq::<VarV>::empty());
}

proof fn lemma_grows_trans(
    st0: LowerStV,
    blk0: BlockV,
    st1: LowerStV,
    blk1: BlockV,
    st2: LowerStV,
    blk2: BlockV,
)
    requires
        lower_grows(st0, blk0, st1, blk1),
        lower_grows(st1, blk1, st2, blk2),
    ensures
        lower_grows(st0, blk0, st2, blk2),
{
    let n0 = blk0.bindings.len() as int;
    let n1 = blk1.bindings.len() as int;
    let n2 = blk2.bindings.len() as int;
    lemma_st_le_trans(st0, st1, st2);
    lemma_collect_split(blk2.bindings, n0, n1, n2);
    lemma_collect_agree(blk2.bindings, blk1.bindings, n0, n1);
    lemma_born_concat(
        collect_vars(blk1.bindings, n0, n1),
        collect_vars(blk2.bindings, n1, n2),
        st0,
        st1,
        st2,
    );
}

/// Appending one binding whose value holds no nested blocks.
proof fn lemma_grows_push_plain(st: LowerStV, blk: BlockV, st2: LowerStV, v: VarV, val: ExprV)
    requires
        st_le(st, st2),
        born(v, st, st2),
        !(val is IfThenElse),
    ensures
        lower_grows(
            st,
            blk,
            st2,
            BlockV { bindings: blk.bindings.push(LetV { var: v, val }), ret: blk.ret },
        ),
{
    let bs2 = blk.bindings.push(LetV { var: v, val });
    let n0 = blk.bindings.len() as int;
    let nw = collect_vars(bs2, n0, n0 + 1);
    assert(collect_vars(bs2, n0 + 1, n0 + 1) =~= Seq::<VarV>::empty());
    assert(nw =~= seq![v]);
}

proof fn lemma_emit_atom_grows(st: LowerStV, blk: BlockV, a: AtomV)
    requires
        sp_emit_atom(st, blk, a) is Ok,
    ensures
        lower_grows(st, blk, sp_emit_atom(st, blk, a)->Ok_0.0, sp_emit_atom(st, blk, a)->Ok_0.1),
{
    lemma_gen_var_born(st);
    let v = sp_gen_var(st)->Ok_0.0;
    let st2 = sp_gen_var(st)->Ok_0.1;
    lemma_grows_push_plain(st, blk, st2, v, ExprV::Atom(a));
}

proof fn lemma_emit_call_grows(st: LowerStV, blk: BlockV, f: FuncV, args: Seq<VarV>)
    requires
        sp_emit_call(st, blk, f, args) is Ok,
    ensures
        lower_grows(
            st,
            blk,
            sp_emit_call(st, blk, f, args)->Ok_0.0,
            sp_emit_call(st, blk, f, args)->Ok_0.1,
        ),
{
    lemma_gen_var_born(st);
    let v = sp_gen_var(st)->Ok_0.0;
    let st2 = sp_gen_var(st)->Ok_0.1;
    lemma_grows_push_plain(st, blk, st2, v, ExprV::Call(f, args));
}

/// Lowering an expression only appends fresh, pairwise distinct bindings.
proof fn lemma_expr_ssa(st: LowerStV, e: AstExprV, blk: BlockV)
    requires
        sp_lower_expr(st, e, blk) is Ok,
    ensures
        lower_grows(st, blk, sp_lower_expr(st, e, blk)->Ok_0.0, sp_lower_expr(st, e, blk)->Ok_0.1),
    decreases e, 0int, 0int,
{
    match e {
        AstExprV::Lit { digits, is_float } => {
            lemma_emit_atom_grows(
                st,
                blk,
                AtomV::Literal(
                    digits,
                    if is_float {
                        Primitive::F32
                    } else {
                        Primitive::I32
                    },
                ),
            );
        },
        AstExprV::BoolLit(b) => {
            lemma_emit_atom_grows(
                st,
                blk,
                AtomV::Literal(
                    if b {
                        "true"@
                    } else {
                        "false"@
                    },
                    Primitive::Bool,
                ),
            );
        },
        AstExprV::StrLit(t) => {
            lemma_emit_atom_grows(st, blk, AtomV::String(t));
        },
        AstExprV::Ident(p) => {
            if !p.generics && p.segments.len() == 1 {
                lemma_grows_refl(st, blk);
            } else {
                lemma_emit_atom_grows(
                    st,
                    blk,
                    AtomV::Identifier { path: p.segments, constant: true },
                );
            }
        },
        AstExprV::Unary { op, expr } => {
            lemma_expr_ssa(st, *expr, blk);
            let (st1, blk1, v) = sp_lower_expr(st, *expr, blk)->Ok_0;
            let pf = match op {
                UnOp::Neg => PrimFunc::Neg,
                UnOp::Not => PrimFunc::Not,
            };
            lemma_emit_call_grows(st1, blk1, FuncV::PrimFunc(pf), seq![v]);
            let (st2, blk2, _) = sp_emit_call(st1, blk1, FuncV::PrimFunc(pf), seq![v])->Ok_0;
            lemma_grows_trans(st, blk, st1, blk1, st2, blk2);
        },
        AstExprV::Binary { op, lhs, rhs } => {
            lemma_expr_ssa(st, *lhs, blk);
            let (st1, blk1, lv) = sp_lower_expr(st, *lhs, blk)->Ok_0;
            lemma_expr_ssa(st1, *rhs, blk1);
            let (st2, blk2, rv) = sp_lower_expr(st1, *rhs, blk1)->Ok_0;
            lemma_grows_trans(st, blk, st1, blk1, st2, blk2);
            let pf = sp_binop_prim(op)->0;
            lemma_emit_call_grows(st2, blk2, FuncV::PrimFunc(pf), seq![lv, rv]);
            let (st3, blk3, _) = sp_emit_call(st2, blk2, FuncV::PrimFunc(pf), seq![lv, rv])->Ok_0;
            lemma_grows_trans(st, blk, st2, blk2, st3, blk3);
        },
        AstExprV::Field { base, member } => {
            lemma_expr_ssa(st, *base, blk);
            let (st1, blk1, bv) = sp_lower_expr(st, *base, blk)->Ok_0;
            lemma_emit_atom_grows(st1, blk1, AtomV::String(member));
            let (st2, blk2, mv) = sp_emit_atom(st1, blk1, AtomV::String(member))->Ok_0;
            lemma_grows_trans(st, blk, st1, blk1, st2, blk2);
            lemma_emit_call_grows(st2, blk2, FuncV::PrimFunc(PrimFunc::Extract), seq![bv, mv]);
            let (st3, blk3, _) = sp_emit_call(
                st2,
                blk2,
                FuncV::PrimFunc(PrimFunc::Extract),
                seq![bv, mv],
            )->Ok_0;
            lemma_grows_trans(st, blk, st2, blk2, st3, blk3);
        },
        AstExprV::CallExpr { callee, args } => {
            lemma_args_ssa(st, args, 0, blk, Seq::empty());
            let (st1, blk1, vs) = sp_lower_args(st, args, 0, blk, Seq::empty())->Ok_0;
            lemma_emit_call_grows(st1, blk1, FuncV::Named(callee.segments), vs);
            let (st2, blk2, _) = sp_emit_call(st1, blk1, FuncV::Named(callee.segments), vs)->Ok_0;
            lemma_grows_trans(st, blk, st1, blk1, st2, blk2);
        },
        AstExprV::MethodCall { receiver, method, args } => {
            lemma_args_ssa(st, args, 0, blk, Seq::empty());
            let (st1, blk1, vs) = sp_lower_args(st, args, 0, blk, Seq::empty())->Ok_0;
            lemma_expr_ssa(st1, *receiver, blk1);
            let (st2, blk2, rv) = sp_lower_expr(st1, *receiver, blk1)->Ok_0;
            lemma_grows_trans(st, blk, st1, blk1, st2, blk2);
            lemma_emit_call_grows(st2, blk2, FuncV::Named(seq![method]), vs.insert(0, rv));
            let (st3, blk3, _) = sp_emit_call(
                st2,
                blk2,
                FuncV::Named(seq![method]),
                vs.insert(0, rv),
            )->Ok_0;
            lemma_grows_trans(st, blk, st2, blk2, st3, blk3);
        },
        AstExprV::IfElse { cond, then_branch, else_branch } => {
            lemma_expr_ssa(st, *cond, blk);
            let (st1, blk1, cv) = sp_lower_expr(st, *cond, blk)->Ok_0;
            let fresh = BlockV { bindings: Seq::empty(), ret: Option::None };
            lemma_block_ssa(st1, then_branch, fresh);
            let (st2, then_b) = sp_lower_block(st1, then_branch, fresh)->Ok_0;
            lemma_expr_ssa(st2, *else_branch, fresh);
            let (st3, eb, ev) = sp_lower_expr(st2, *else_branch, fresh)->Ok_0;
            let else_b = BlockV { bindings: eb.bindings, ret: Option::Some(ev) };
            lemma_gen_var_born(st3);
            let (v, st4) = sp_gen_var(st3)->Ok_0;
            // the collected variables of each arm are exactly its window
            let cbt = collect_block_vars(then_b);
            let cbe = collect_block_vars(else_b);
            assert(cbt == collect_vars(then_b.bindings, 0, then_b.bindings.len() as int));
            assert(cbe == collect_vars(eb.bindings, 0, eb.bindings.len() as int));
            lemma_born_concat(cbt, cbe, st1, st2, st3);
            lemma_born_cons(v, cbt + cbe, st1, st3, st4);
            let l = LetV {
                var: v,
                val: ExprV::IfThenElse { cond: cv, then: then_b, else_: else_b },
            };
            let bs2 = blk1.bindings.push(l);
            let n1 = blk1.bindings.len() as int;
            let nw = collect_vars(bs2, n1, n1 + 1);
            assert(collect_vars(bs2, n1 + 1, n1 + 1) =~= Seq::<VarV>::empty());
            assert(nw =~= seq![v] + (cbt + cbe));
            let blk2 = BlockV { bindings: bs2, ret: blk1.ret };
            lemma_st_le_trans(st1, st2, st3);
            lemma_st_le_trans(st1, st3, st4);
            assert(lower_grows(st1, blk1, st4, blk2));
            lemma_grows_trans(st, blk, st1, blk1, st4, blk2);
        },
        AstExprV::BlockExpr(b) => {
            let fresh = BlockV { bindings: Seq::empty(), ret: Option::None };
            lemma_block_ssa(st, b, fresh);
            let (st1, nb) = sp_lower_block(st, b, fresh)->Ok_0;
            let bs2 = blk.bindings + nb.bindings;
            let n0 = blk.bindings.len() as int;
            lemma_collect_shift(blk.bindings, nb.bindings, 0);
            assert(collect_vars(bs2, n0, bs2.len() as int) == collect_vars(
                nb.bindings,
                0,
                nb.bindings.len() as int,
            ));
            assert(lower_grows(st, blk, st1, BlockV { bindings: bs2, ret: blk.ret }));
        },
    }
}

proof fn lemma_args_ssa(st: LowerStV, args: Seq<AstExprV>, i: int, blk: BlockV, acc: Seq<VarV>)
    requires
        sp_lower_args(st, args, i, blk, acc) is Ok,
    ensures
        lower_grows(
            st,
            blk,
            sp_lower_args(st, args, i, blk, acc)->Ok_0.0,
            sp_lower_args(st, args, i, blk, acc)->Ok_0.1,
        ),
    decreases args, 1int, args.len() - i,
{
    if i < 0 || i >= args.len() {
        lemma_grows_refl(st, blk);
    } else {
        lemma_expr_ssa(st, args[i], blk);
        let (st1, blk1, v) = sp_lower_expr(st, args[i], blk)->Ok_0;
        lemma_args_ssa(st1, args, i + 1, blk1, acc.push(v));
        let (st2, blk2, _) = sp_lower_args(st1, args, i + 1, blk1, acc.push(v))->Ok_0;
        lemma_grows_trans(st, blk, st1, blk1, st2, blk2);
    }
}

proof fn lemma_stmt_ssa(st: LowerStV, s: AstStmtV, blk: BlockV)
    requires
        sp_lower_stmt(st, s, blk) is Ok,
    ensures
        lower_grows(
            st,
            blk,
            sp_lower_stmt(st, s, blk)->Ok_0.0,
            sp_lower_stmt(st, s, blk)->Ok_0.1,
        ),
    decreases s, 0int, 0int,
{
    match s {
        AstStmtV::LetBind { by_ref, mutable, name, init } => {
            lemma_expr_ssa(st, init, blk);
            let (st1, blk1, iv) = sp_lower_expr(st, init, blk)->Ok_0;
            lemma_add_named_born(st1, seq![name]);
            let (v, st2) = sp_add_named_var(st1, seq![name])->Ok_0;
            lemma_grows_push_plain(st1, blk1, st2, v, ExprV::Var(iv));
            let blk2 = BlockV {
                bindings: blk1.bindings.push(LetV { var: v, val: ExprV::Var(iv) }),
                ret: blk1.ret,
            };
            lemma_grows_trans(st, blk, st1, blk1, st2, blk2);
        },
        AstStmtV::Assign { target, value } => {
            lemma_expr_ssa(st, value, blk);
            let (st1, blk1, rv) = sp_lower_expr(st, value, blk)->Ok_0;
            lemma_add_named_born(st1, target.segments);
            let (v, st2) = sp_add_named_var(st1, target.segments)->Ok_0;
            lemma_grows_push_plain(st1, blk1, st2, v, ExprV::Var(rv));
            let blk2 = BlockV {
                bindings: blk1.bindings.push(LetV { var: v, val: ExprV::Var(rv) }),
                ret: blk1.ret,
            };
            lemma_grows_trans(st, blk, st1, blk1, st2, blk2);
        },
        AstStmtV::OpAssign => {},
        AstStmtV::SemiExpr => {},
        AstStmtV::Tail(e) => {
            lemma_expr_ssa(st, e, blk);
            let (st1, blk1, v) = sp_lower_expr(st, e, blk)->Ok_0;
            let blk2 = BlockV { bindings: blk1.bindings, ret: Option::Some(v) };
            lemma_collect_agree(
                blk2.bindings,
                blk1.bindings,
                blk.bindings.len() as int,
                blk1.bindings.len() as int,
            );
            assert(lower_grows(st, blk, st1, blk2));
        },
    }
}

proof fn lemma_stmts_ssa(st: LowerStV, stmts: Seq<AstStmtV>, i: int, blk: BlockV)
    requires
        sp_lower_stmts(st, stmts, i, blk) is Ok,
    ensures
        lower_grows(
            st,
            blk,
            sp_lower_stmts(st, stmts, i, blk)->Ok_0.0,
            sp_lower_stmts(st, stmts, i, blk)->Ok_0.1,
        ),
    decreases stmts, 1int, stmts.len() - i,
{
    if i < 0 || i >= stmts.len() {
        lemma_grows_refl(st, blk);
    } else {
        lemma_stmt_ssa(st, stmts[i], blk);
        let (st1, blk1) = sp_lower_stmt(st, stmts[i], blk)->Ok_0;
        lemma_stmts_ssa(st1, stmts, i + 1, blk1);
        let (st2, blk2) = sp_lower_stmts(st1, stmts, i + 1, blk1)->Ok_0;
        lemma_grows_trans(st, blk, st1, blk1, st2, blk2);
    }
}

proof fn lemma_block_ssa(st: LowerStV, b: AstBlockV, blk: BlockV)
    requires
        sp_lower_block(st, b, blk) is Ok,
    ensures
        lower_grows(
            st,
            blk,
            sp_lower_block(st, b, blk)->Ok_0.0,
            sp_lower_block(st, b, blk)->Ok_0.1,
        ),
    decreases b, 2int, 0int,
{
    let st_in = LowerStV {
        scopes: st.scopes.push(Seq::empty()),
        ver: st.ver,
        var_gen: st.var_gen,
    };
    lemma_scopes_only(st, st_in);
    lemma_stmts_ssa(st_in, b.stmts, 0, blk);
    let (st1, blk1) = sp_lower_stmts(st_in, b.stmts, 0, blk)->Ok_0;
    let st_out = LowerStV {
        scopes: if st1.scopes.len() > 0 {
            st1.scopes.drop_last()
        } else {
            st1.scopes
        },
        ver: st1.ver,
        var_gen: st1.var_gen,
    };
    lemma_scopes_only(st1, st_out);
    lemma_st_le_trans(st, st_in, st1);
    lemma_st_le_trans(st, st1, st_out);
    let n0 = blk.bindings.len() as int;
    let n1 = blk1.bindings.len() as int;
    let nw = collect_vars(blk1.bindings, n0, n1);
    assert(all_born(nw, st_in, st1));
    assert forall|k: int| 0 <= k < nw.len() implies born(#[trigger] nw[k], st, st_out) by {
        lemma_fresh_mono(nw[k], st1, st_out);
        lemma_unfresh_antimono(nw[k], st, st_in);
    }
}

/// SSA uniqueness: for any accepted input, no two bindings in the lowered
/// IR share a variable identifier — anywhere in the body, nested
/// conditional arms included.
pub proof fn lemma_lower_fn_ssa_unique(f: AstFnV)
    requires
        sp_lower_fn(f) is Ok,
    ensures
        distinct_vars(collect_block_vars(sp_lower_fn(f)->Ok_0.body)),
{
    let (st1, ps) = sp_lower_params(sp_init_state(), f.params, 0, Seq::empty())->Ok_0;
    let fresh = BlockV { bindings: Seq::empty(), ret: Option::None };
    lemma_block_ssa(st1, f.body, fresh);
    let (st2, body) = sp_lower_block(st1, f.body, fresh)->Ok_0;
    assert(collect_block_vars(body) == collect_vars(body.bindings, 0, body.bindings.len() as int));
}

/// SSA uniqueness, stated over source text: whatever the front end
/// accepts, the lowered IR never assigns two bindings the same variable.
pub proof fn lemma_parse_str_ssa_unique(src: Seq<char>)
    requires
        sp_parse_str(src) is Ok,
    ensures
        distinct_vars(collect_block_vars(sp_parse_str(src)->Ok_0.body)),
{
    let toks = crate::lex::sp_tokens(src, 0)->Ok_0;
    let (ast, k) = crate::syntax::sp_parse_fn(toks, 0)->Ok_0;
    lemma_lower_fn_ssa_unique(ast);
}

} // verus!




