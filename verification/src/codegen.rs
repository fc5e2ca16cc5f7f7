//! The analyzer and the code generator. One top-to-bottom pass assigns each
//! binding a constancy flag and records global definition order, recursing
//! into both conditional arms. A second walk then emits the text of the
//! lifted function: a prologue declaring one zero-initialized slot per
//! definition-order entry, a gradient-reset procedure clearing every slot's
//! adjoint in that order, the forward body, and a backpropagation procedure
//! that replays the context's dynamically recorded tape in reverse.
//!
//! Every generator function is specified exactly: its output text is a
//! function of the input alone, so identical input compiles to identical
//! output (see `lemma_gen_forward_deterministic`).

use vstd::prelude::*;
use crate::error::{CompileError, CompileErrorV, LoweringGap};
use crate::ir::{self, Expr, Var, VarV, ExprV, BlockV, LetV, FuncV, AtomV, TypeV, PrimFunc};
use crate::lex::{Token, TokenV, token_text};
use crate::parse::{Function, FunctionV, Parameter, ParameterV};
use crate::text::{dec_str, joined, join_seps, join_strings, strings_view, u64_to_string};

verus! {

broadcast use vstd::seq::axiom_seq_index_decreases, vstd::std_specs::vec::axiom_vec_index_decreases;

/// Analysis record for one variable: whether it is classified constant.
/// Constant-classified variables need no adjoint accumulation.
#[derive(Clone, Copy, Debug, PartialEq, Eq, Structural)]
pub struct VarRecord {
    pub is_const: bool,
}

/// The analyzer/generator state: per-variable records keyed by variable,
/// and the whole-function definition-order list.
pub struct AdCodeGen {
    symbols: Vec<(Var, VarRecord)>,
    def_list: Vec<Var>,
}

/// Mathematical view of the analyzer state.
pub struct AnalysisV {
    pub symbols: Seq<(VarV, bool)>,
    pub defs: Seq<VarV>,
}

/// The record for `v`, scanning the most recent entry first.
pub open spec fn sym_lookup(symbols: Seq<(VarV, bool)>, v: VarV) -> Option<bool>
    decreases symbols.len(),
{
    if symbols.len() == 0 {
        Option::None
    } else if symbols.last().0 == v {
        Option::Some(symbols.last().1)
    } else {
        sym_lookup(symbols.drop_last(), v)
    }
}

/// A binding is constant iff its expression is a literal or string atom, or
/// an identifier reference already flagged constant; every call, variable
/// reference or conditional result is conservatively non-constant.
pub open spec fn sp_is_const(e: ExprV) -> bool {
    match e {
        ExprV::Atom(a) => match a {
            AtomV::Literal(_, _) => true,
            AtomV::String(_) => true,
            AtomV::Identifier { constant, .. } => constant,
        },
        _ => false,
    }
}

/// The analysis pass over `bindings[i..]`: for each binding, first both
/// arms of a conditional value, then the binding itself, appended to the
/// definition-order list; a variable already recorded is an internal
/// SSA-invariant fault.
pub open spec fn sp_add_vars(st: AnalysisV, bindings: Seq<LetV>, i: int) -> Result<
    AnalysisV,
    CompileErrorV,
>
    decreases bindings, 1int, bindings.len() - i,
{
    if i < 0 || i >= bindings.len() {
        Ok(st)
    } else {
        let l = bindings[i];
        let nested = match l.val {
            ExprV::IfThenElse { then, else_, .. } => match sp_add_vars(st, then.bindings, 0) {
                Ok(st_t) => sp_add_vars(st_t, else_.bindings, 0),
                Err(e) => Err(e),
            },
            _ => Ok(st),
        };
        match nested {
            Err(e) => Err(e),
            Ok(st1) => if sym_lookup(st1.symbols, l.var) is Some {
                Err(CompileErrorV::DuplicateDefinition(l.var))
            } else {
                sp_add_vars(
                    AnalysisV {
                        symbols: st1.symbols.push((l.var, sp_is_const(l.val))),
                        defs: st1.defs.push(l.var),
                    },
                    bindings,
                    i + 1,
                )
            },
        }
    }
}

impl AdCodeGen {
    /// The per-variable records, in recording order.
    pub closed spec fn symbols_view(&self) -> Seq<(VarV, bool)> {
        self.symbols@.map_values(|p: (Var, VarRecord)| (p.0@, p.1.is_const))
    }

    /// The definition-order list.
    pub closed spec fn defs_view(&self) -> Seq<VarV> {
        self.def_list@.map_values(|v: Var| v@)
    }

    /// The whole state as one view.
    pub open spec fn st(&self) -> AnalysisV {
        AnalysisV { symbols: self.symbols_view(), defs: self.defs_view() }
    }

    /// An empty analyzer: no records, empty definition order.
    pub fn new() -> (cg: Self)
        ensures
            cg.st() == (AnalysisV { symbols: Seq::<(VarV, bool)>::empty(), defs: Seq::<VarV>::empty() }),
    {
        let cg = AdCodeGen { symbols: Vec::new(), def_list: Vec::new() };
        proof {
            assert(cg.symbols_view() =~= Seq::<(VarV, bool)>::empty());
            assert(cg.defs_view() =~= Seq::<VarV>::empty());
        }
        cg
    }

    /// The recorded constancy flag for `v`, most recent record first.
    fn lookup(&self, v: &Var) -> (r: Option<bool>)
        ensures
            r == sym_lookup(self.symbols_view(), v@),
    {
        let n = self.symbols.len();
        let mut k: usize = n;
        proof {
            assert(self.symbols_view().subrange(0, n as int) =~= self.symbols_view());
        }
        while k > 0
            invariant
                k <= n,
                n == self.symbols.len(),
                sym_lookup(self.symbols_view(), v@) == sym_lookup(
                    self.symbols_view().subrange(0, k as int),
                    v@,
                ),
            decreases k,
        {
            k = k - 1;
            let hit = ir::var_eq(&self.symbols[k].0, v);
            proof {
                let sub1 = self.symbols_view().subrange(0, k as int + 1);
                assert(sub1.last() == (self.symbols@[k as int].0@, self.symbols@[k as int].1.is_const));
                assert(sub1.drop_last() =~= self.symbols_view().subrange(0, k as int));
            }
            if hit {
                return Some(self.symbols[k].1.is_const);
            }
        }
        proof {
            assert(self.symbols_view().subrange(0, 0) =~= Seq::<(VarV, bool)>::empty());
        }
        None
    }

    /// Whether `e` is classified constant (see `sp_is_const`).
    fn is_const_expr(e: &Expr) -> (r: bool)
        ensures
            r == sp_is_const(e@),
    {
        match e {
            Expr::Atom(a) => match a {
                ir::Atom::Literal(_, _) => true,
                ir::Atom::String(_) => true,
                ir::Atom::Identifier { constant, .. } => *constant,
            },
            _ => false,
        }
    }

    /// The analysis pass over one block (see `sp_add_vars`).
    pub fn add_vars(&mut self, block: &ir::Block) -> (r: Result<(), CompileError>)
        ensures
            match r {
                Ok(_) => sp_add_vars(old(self).st(), block@.bindings, 0) == Ok::<_, CompileErrorV>(
                    final(self).st(),
                ),
                Err(e) => sp_add_vars(old(self).st(), block@.bindings, 0) == Err::<
                    AnalysisV,
                    _,
                >(e@),
            },
        decreases *block,
    {
        let ghost bv = block@.bindings;
        let ghost st0 = self.st();
        proof {
            ir::lemma_lets_view_rec_len(block.bindings, 0);
        }
        let n = block.bindings.len();
        let mut i: usize = 0;
        while i < n
            invariant
                i <= n,
                n == block.bindings.len(),
                bv == block@.bindings,
                bv.len() == n,
                st0 == old(self).st(),
                sp_add_vars(st0, bv, 0) == sp_add_vars(self.st(), bv, i as int),
            decreases n - i,
        {
            proof {
                ir::lemma_lets_view_rec_index(block.bindings, 0, i as int);
            }
            let ghost st_i = self.st();
            let l = &block.bindings[i];
            proof {
                assert(bv[i as int] == (LetV { var: l.var@, val: ir::expr_view(l.val) }));
            }
            match &l.val {
                Expr::IfThenElse { then, else_, .. } => {
                    proof {
                        assert(bv[i as int].val == ir::ExprV::IfThenElse {
                            cond: l.val->IfThenElse_cond@,
                            then: (**then)@,
                            else_: (**else_)@,
                        });
                    }
                    match self.add_vars(then) {
                        Ok(_) => {},
                        Err(e) => {
                            proof {
                                assert(sp_add_vars(st_i, bv, i as int) == Err::<
                                    AnalysisV,
                                    CompileErrorV,
                                >(e@));
                                assert(sp_add_vars(st0, bv, 0) == Err::<
                                    AnalysisV,
                                    CompileErrorV,
                                >(e@));
                                assert(sp_add_vars(old(self).st(), block@.bindings, 0) == Err::<
                                    AnalysisV,
                                    CompileErrorV,
                                >(e@));
                            }
                            return Err(e);
                        },
                    }
                    let ghost st_t = self.st();
                    match self.add_vars(else_) {
                        Ok(_) => {},
                        Err(e) => {
                            proof {
                                assert(sp_add_vars(st_i, bv, i as int) == Err::<
                                    AnalysisV,
                                    CompileErrorV,
                                >(e@));
                                assert(sp_add_vars(st0, bv, 0) == Err::<
                                    AnalysisV,
                                    CompileErrorV,
                                >(e@));
                                assert(sp_add_vars(old(self).st(), block@.bindings, 0) == Err::<
                                    AnalysisV,
                                    CompileErrorV,
                                >(e@));
                            }
                            return Err(e);
                        },
                    }
                },
                _ => {},
            }
            let is_const = Self::is_const_expr(&l.val);
            proof {
                assert(is_const == sp_is_const(bv[i as int].val));
            }
            match self.lookup(&l.var) {
                Some(_) => {
                    let err = CompileError::DuplicateDefinition(ir::var_dup(&l.var));
                    proof {
                        assert(sp_add_vars(st_i, bv, i as int) == Err::<AnalysisV, CompileErrorV>(
                            err@,
                        ));
                        assert(sp_add_vars(old(self).st(), block@.bindings, 0) == Err::<
                            AnalysisV,
                            CompileErrorV,
                        >(err@));
                    }
                    return Err(err);
                },
                None => {},
            }
            let ghost st_mid = self.st();
            self.symbols.push((ir::var_dup(&l.var), VarRecord { is_const }));
            self.def_list.push(ir::var_dup(&l.var));
            proof {
                assert(self.symbols_view() =~= st_mid.symbols.push((l.var@, is_const)));
                assert(self.defs_view() =~= st_mid.defs.push(l.var@));
                assert(self.st() == (AnalysisV {
                    symbols: st_mid.symbols.push((l.var@, is_const)),
                    defs: st_mid.defs.push(l.var@),
                }));
                assert(sp_add_vars(st_i, bv, i as int) == sp_add_vars(self.st(), bv, i + 1));
            }
            i = i + 1;
        }
        proof {
            assert(sp_add_vars(self.st(), bv, n as int) == Ok::<_, CompileErrorV>(self.st()));
        }
        Ok(())
    }
}


/// The printed form of a variable: synthetic temporaries as `t<i>`, named
/// single-segment variables as `_<name><generation>`, longer paths joined.
pub open spec fn sp_gen_var(v: VarV) -> Seq<char> {
    match v {
        VarV::Id(i) => "t"@ + dec_str(i),
        VarV::Named(p, g) => if p.len() == 1 {
            "_"@ + p[0] + dec_str(g)
        } else {
            joined(p, "::"@)
        },
    }
}

/// The printed form of an atom: a literal becomes a fresh dual slot, a
/// string passes through, an identifier reference prints as its path.
pub open spec fn sp_gen_atom(a: AtomV) -> Seq<char> {
    match a {
        AtomV::Literal(s, _) => "Dual::new(ctx, "@ + s + ")"@,
        AtomV::String(s) => s,
        AtomV::Identifier { path, .. } => joined(path, "::"@),
    }
}

/// Call operands print as primal reads of their slots.
pub open spec fn sp_args_text(args: Seq<VarV>) -> Seq<Seq<char>> {
    args.map_values(|v: VarV| "*"@ + sp_gen_var(v) + ".get()"@)
}

pub open spec fn sp_una(a: Seq<Seq<char>>, op: Seq<char>, f: PrimFunc) -> Result<
    Seq<char>,
    CompileErrorV,
> {
    if a.len() == 1 {
        Ok(op + a[0])
    } else {
        Err(CompileErrorV::UnsupportedLowering(LoweringGap::Arity(f)))
    }
}

pub open spec fn sp_bin(a: Seq<Seq<char>>, op: Seq<char>, f: PrimFunc) -> Result<
    Seq<char>,
    CompileErrorV,
> {
    if a.len() == 2 {
        Ok(a[0] + op + a[1])
    } else {
        Err(CompileErrorV::UnsupportedLowering(LoweringGap::Arity(f)))
    }
}

/// The primitive translation table: one entry per tag. Tags without an
/// entry (memory forms) are a hard generation-time failure.
pub open spec fn sp_prim_text(f: PrimFunc, a: Seq<Seq<char>>) -> Result<Seq<char>, CompileErrorV> {
    match f {
        PrimFunc::Neg => sp_una(a, "-"@, f),
        PrimFunc::Not => sp_una(a, "!"@, f),
        PrimFunc::Add => sp_bin(a, " + "@, f),
        PrimFunc::Sub => sp_bin(a, " - "@, f),
        PrimFunc::Mul => sp_bin(a, " * "@, f),
        PrimFunc::Div => sp_bin(a, " / "@, f),
        PrimFunc::Rem => sp_bin(a, " % "@, f),
        PrimFunc::And => sp_bin(a, " && "@, f),
        PrimFunc::Or => sp_bin(a, " || "@, f),
        PrimFunc::BitAnd => sp_bin(a, " & "@, f),
        PrimFunc::BitOr => sp_bin(a, " | "@, f),
        PrimFunc::Shl => sp_bin(a, " << "@, f),
        PrimFunc::Shr => sp_bin(a, " >> "@, f),
        PrimFunc::Eq => sp_bin(a, " == "@, f),
        PrimFunc::Ne => sp_bin(a, " != "@, f),
        PrimFunc::Lt => sp_bin(a, " < "@, f),
        PrimFunc::Gt => sp_bin(a, " > "@, f),
        PrimFunc::Le => sp_bin(a, " <= "@, f),
        PrimFunc::Ge => sp_bin(a, " >= "@, f),
        PrimFunc::Load => Err(CompileErrorV::UnsupportedLowering(LoweringGap::Primitive(f))),
        PrimFunc::Extract => Err(CompileErrorV::UnsupportedLowering(LoweringGap::Primitive(f))),
        PrimFunc::Insert => Err(CompileErrorV::UnsupportedLowering(LoweringGap::Primitive(f))),
    }
}

/// The exec result agrees with the specified text result.
pub open spec fn text_result_matches(
    sp: Result<Seq<char>, CompileErrorV>,
    r: Result<String, CompileError>,
) -> bool {
    match r {
        Ok(s) => sp == Ok::<Seq<char>, CompileErrorV>(s@),
        Err(e) => sp == Err::<Seq<char>, CompileErrorV>(e@),
    }
}

/// The printed forward text of an expression (see the table above);
/// a conditional prints as an if-expression over both arm blocks.
pub open spec fn sp_gen_expr(e: ExprV) -> Result<Seq<char>, CompileErrorV>
    decreases e, 0int, 0int,
{
    match e {
        ExprV::Atom(a) => Ok(sp_gen_atom(a)),
        ExprV::Var(v) => Ok(sp_gen_var(v)),
        ExprV::Call(FuncV::PrimFunc(f), args) => sp_prim_text(f, sp_args_text(args)),
        ExprV::Call(FuncV::Named(p), args) => Ok(
            joined(p, "::"@) + "("@ + joined(sp_args_text(args), ","@) + ")"@,
        ),
        ExprV::IfThenElse { cond, then, else_ } => match sp_gen_block_forward(then) {
            Err(e1) => Err(e1),
            Ok(tt) => match sp_gen_block_forward(else_) {
                Err(e2) => Err(e2),
                Ok(et) => Ok("if *"@ + sp_gen_var(cond) + ".get() "@ + tt + " else "@ + et),
            },
        },
    }
}

/// One forward statement per binding, assigning its slot.
pub open spec fn sp_gen_stmts(bindings: Seq<LetV>, i: int) -> Result<Seq<char>, CompileErrorV>
    decreases bindings, 1int, bindings.len() - i,
{
    if i < 0 || i >= bindings.len() {
        Ok(Seq::empty())
    } else {
        match sp_gen_expr(bindings[i].val) {
            Err(e) => Err(e),
            Ok(vt) => match sp_gen_stmts(bindings, i + 1) {
                Err(e) => Err(e),
                Ok(rest) => Ok(sp_gen_var(bindings[i].var) + ".assign("@ + vt + ");\n"@ + rest),
            },
        }
    }
}

/// The printed forward text of a block: its statements brace-wrapped, the
/// resolved return variable as the block value. A block without a resolved
/// return is an unsupported IR shape.
pub open spec fn sp_gen_block_forward(b: BlockV) -> Result<Seq<char>, CompileErrorV>
    decreases b, 2int, 0int,
{
    match sp_gen_stmts(b.bindings, 0) {
        Err(e) => Err(e),
        Ok(stmts) => match b.ret {
            Option::None => Err(CompileErrorV::UnsupportedLowering(LoweringGap::Return)),
            Option::Some(rv) => Ok("{\n"@ + stmts + sp_gen_var(rv) + "\n}\n"@),
        },
    }
}

fn una_text(a: &Vec<String>, op: &str, f: PrimFunc) -> (r: Result<String, CompileError>)
    ensures
        text_result_matches(sp_una(strings_view(*a), op@, f), r),
{
    if a.len() == 1 {
        let mut s = String::from_str(op);
        s.append(a[0].as_str());
        proof {
            assert(strings_view(*a)[0] == a@[0]@);
            assert(s@ =~= op@ + strings_view(*a)[0]);
        }
        Ok(s)
    } else {
        proof {
            assert(strings_view(*a).len() == a@.len());
        }
        Err(CompileError::UnsupportedLowering(LoweringGap::Arity(f)))
    }
}

fn bin_text(a: &Vec<String>, op: &str, f: PrimFunc) -> (r: Result<String, CompileError>)
    ensures
        text_result_matches(sp_bin(strings_view(*a), op@, f), r),
{
    if a.len() == 2 {
        let mut s = a[0].clone();
        s.append(op);
        s.append(a[1].as_str());
        proof {
            assert(strings_view(*a)[0] == a@[0]@);
            assert(strings_view(*a)[1] == a@[1]@);
            assert(s@ =~= strings_view(*a)[0] + op@ + strings_view(*a)[1]);
        }
        Ok(s)
    } else {
        proof {
            assert(strings_view(*a).len() == a@.len());
        }
        Err(CompileError::UnsupportedLowering(LoweringGap::Arity(f)))
    }
}

fn prim_text(a: &Vec<String>, f: PrimFunc) -> (r: Result<String, CompileError>)
    ensures
        text_result_matches(sp_prim_text(f, strings_view(*a)), r),
{
    match f {
        PrimFunc::Neg => una_text(a, "-", f),
        PrimFunc::Not => una_text(a, "!", f),
        PrimFunc::Add => bin_text(a, " + ", f),
        PrimFunc::Sub => bin_text(a, " - ", f),
        PrimFunc::Mul => bin_text(a, " * ", f),
        PrimFunc::Div => bin_text(a, " / ", f),
        PrimFunc::Rem => bin_text(a, " % ", f),
        PrimFunc::And => bin_text(a, " && ", f),
        PrimFunc::Or => bin_text(a, " || ", f),
        PrimFunc::BitAnd => bin_text(a, " & ", f),
        PrimFunc::BitOr => bin_text(a, " | ", f),
        PrimFunc::Shl => bin_text(a, " << ", f),
        PrimFunc::Shr => bin_text(a, " >> ", f),
        PrimFunc::Eq => bin_text(a, " == ", f),
        PrimFunc::Ne => bin_text(a, " != ", f),
        PrimFunc::Lt => bin_text(a, " < ", f),
        PrimFunc::Gt => bin_text(a, " > ", f),
        PrimFunc::Le => bin_text(a, " <= ", f),
        PrimFunc::Ge => bin_text(a, " >= ", f),
        PrimFunc::Load => Err(CompileError::UnsupportedLowering(LoweringGap::Primitive(f))),
        PrimFunc::Extract => Err(CompileError::UnsupportedLowering(LoweringGap::Primitive(f))),
        PrimFunc::Insert => Err(CompileError::UnsupportedLowering(LoweringGap::Primitive(f))),
    }
}

impl AdCodeGen {
    /// Prints one variable (see `sp_gen_var`).
    pub fn gen_var(&self, var: &Var) -> (s: String)
        ensures
            s@ == sp_gen_var(var@),
    {
        match var {
            Var::Id(i) => {
                let mut s = String::from_str("t");
                let d = u64_to_string(*i as u64);
                s.append(d.as_str());
                proof {
                    assert(s@ =~= sp_gen_var(var@));
                }
                s
            },
            Var::Named(p, g) => {
                proof {
                    assert(p@.len() == p.0@.len());
                }
                if p.0.len() == 1 {
                    let mut s = String::from_str("_");
                    s.append(p.0[0].as_str());
                    let d = u64_to_string(*g as u64);
                    s.append(d.as_str());
                    proof {
                        assert(p@[0] == p.0@[0]@);
                        assert(s@ =~= sp_gen_var(var@));
                    }
                    s
                } else {
                    let s = join_strings(&p.0, "::");
                    s
                }
            },
        }
    }

    /// Prints every operand as a primal read of its slot.
    fn gen_args(&self, args: &Vec<Var>) -> (r: Vec<String>)
        ensures
            strings_view(r) == sp_args_text(ir::vars_view(*args)),
    {
        let mut out: Vec<String> = Vec::new();
        let n = args.len();
        let mut i: usize = 0;
        while i < n
            invariant
                i <= n,
                n == args.len(),
                out@.len() == i,
                forall|j: int|
                    0 <= j < i ==> out@[j]@ == sp_args_text(ir::vars_view(*args))[j],
            decreases n - i,
        {
            let mut s = String::from_str("*");
            let gv = self.gen_var(&args[i]);
            s.append(gv.as_str());
            s.append(".get()");
            proof {
                assert(ir::vars_view(*args)[i as int] == args@[i as int]@);
                assert(s@ =~= sp_args_text(ir::vars_view(*args))[i as int]);
            }
            out.push(s);
            i = i + 1;
        }
        proof {
            assert(strings_view(out) =~= sp_args_text(ir::vars_view(*args)));
        }
        out
    }

    /// Prints the forward text of one expression (see `sp_gen_expr`).
    pub fn gen_expr(&self, e: &Expr) -> (r: Result<String, CompileError>)
        ensures
            text_result_matches(sp_gen_expr(e@), r),
        decreases *e, 0int, 0int,
    {
        match e {
            Expr::Atom(a) => match a {
                ir::Atom::Literal(s, _) => {
                    let mut t = String::from_str("Dual::new(ctx, ");
                    t.append(s.as_str());
                    t.append(")");
                    proof {
                        assert(t@ =~= sp_gen_atom(a@));
                    }
                    Ok(t)
                },
                ir::Atom::String(s) => Ok(s.clone()),
                ir::Atom::Identifier { path, .. } => Ok(join_strings(&path.0, "::")),
            },
            Expr::Var(v) => Ok(self.gen_var(v)),
            Expr::Call(fc, args) => {
                let at = self.gen_args(args);
                match fc {
                    ir::Func::PrimFunc(pf) => prim_text(&at, *pf),
                    ir::Func::Named(p) => {
                        let mut t = join_strings(&p.0, "::");
                        t.append("(");
                        let j = join_strings(&at, ",");
                        t.append(j.as_str());
                        t.append(")");
                        proof {
                            assert(t@ =~= joined(p@, "::"@) + "("@ + joined(
                                sp_args_text(ir::vars_view(*args)),
                                ","@,
                            ) + ")"@);
                        }
                        Ok(t)
                    },
                }
            },
            Expr::IfThenElse { cond, then, else_ } => {
                let mut t = String::from_str("if *");
                let cv = self.gen_var(cond);
                t.append(cv.as_str());
                t.append(".get() ");
                let ghost head = t@;
                match self.gen_block_forward(then, &mut t) {
                    Ok(_) => {},
                    Err(e1) => {
                        return Err(e1);
                    },
                }
                t.append(" else ");
                match self.gen_block_forward(else_, &mut t) {
                    Ok(_) => {},
                    Err(e2) => {
                        return Err(e2);
                    },
                }
                proof {
                    let tt = sp_gen_block_forward((**then)@)->Ok_0;
                    let et = sp_gen_block_forward((**else_)@)->Ok_0;
                    assert(t@ =~= "if *"@ + sp_gen_var(cond@) + ".get() "@ + tt + " else "@ + et);
                }
                Ok(t)
            },
        }
    }

    /// Appends the forward text of a block to `out` (see `sp_gen_block_forward`).
    fn gen_block_forward(&self, block: &ir::Block, out: &mut String) -> (r: Result<
        (),
        CompileError,
    >)
        ensures
            match r {
                Ok(_) => sp_gen_block_forward(block@) is Ok && final(out)@ == old(out)@
                    + sp_gen_block_forward(block@)->Ok_0,
                Err(e) => sp_gen_block_forward(block@) == Err::<Seq<char>, CompileErrorV>(e@),
            },
        decreases *block, 1int, 0int,
    {
        let ghost bv = block@.bindings;
        proof {
            ir::lemma_lets_view_rec_len(block.bindings, 0);
        }
        out.append("{\n");
        let ghost out1 = out@;
        let n = block.bindings.len();
        let mut i: usize = 0;
        let ghost mut acc: Seq<char> = Seq::empty();
        proof {
            assert(acc + sp_gen_stmts(bv, 0)->Ok_0 =~= sp_gen_stmts(bv, 0)->Ok_0);
        }
        while i < n
            invariant
                i <= n,
                n == block.bindings.len(),
                bv == block@.bindings,
                bv.len() == n,
                out1 == old(out)@ + "{\n"@,
                out@ == out1 + acc,
                sp_gen_stmts(bv, 0) == match sp_gen_stmts(bv, i as int) {
                    Ok(rest) => Ok::<Seq<char>, CompileErrorV>(acc + rest),
                    Err(e) => Err(e),
                },
            decreases n - i,
        {
            proof {
                ir::lemma_lets_view_rec_index(block.bindings, 0, i as int);
            }
            let l = &block.bindings[i];
            proof {
                assert(bv[i as int] == (LetV { var: l.var@, val: ir::expr_view(l.val) }));
            }
            let vt = match self.gen_expr(&l.val) {
                Ok(s) => s,
                Err(e) => {
                    proof {
                        assert(sp_gen_stmts(bv, i as int) == Err::<Seq<char>, CompileErrorV>(e@));
                        assert(sp_gen_block_forward(block@) == Err::<Seq<char>, CompileErrorV>(e@));
                    }
                    return Err(e);
                },
            };
            let gv = self.gen_var(&l.var);
            out.append(gv.as_str());
            out.append(".assign(");
            out.append(vt.as_str());
            out.append(");\n");
            proof {
                let stmt = sp_gen_var(bv[i as int].var) + ".assign("@ + vt@ + ");\n"@;
                let accn = acc + stmt;
                assert(out@ =~= out1 + accn);
                if sp_gen_stmts(bv, i + 1) is Ok {
                    let rest = sp_gen_stmts(bv, i + 1)->Ok_0;
                    assert(acc + (stmt + rest) =~= accn + rest);
                }
                acc = accn;
            }
            i = i + 1;
        }
        proof {
            assert(sp_gen_stmts(bv, n as int) == Ok::<Seq<char>, CompileErrorV>(Seq::empty()));
            assert(acc + Seq::<char>::empty() =~= acc);
        }
        match &block.ret {
            None => {
                proof {
                    assert(block@.ret is None);
                }
                Err(CompileError::UnsupportedLowering(LoweringGap::Return))
            },
            Some(rv) => {
                let gv = self.gen_var(rv);
                out.append(gv.as_str());
                out.append("\n}\n");
                proof {
                    assert(block@.ret == Option::Some(rv@));
                    assert(out@ =~= old(out)@ + ("{\n"@ + acc + sp_gen_var(rv@) + "\n}\n"@));
                }
                Ok(())
            },
        }
    }
}


/// The lifted type of a parameter or result: only plain path types lift,
/// to the differentiable-number type over that path.
pub open spec fn sp_lift_type(t: TypeV) -> Result<Seq<char>, CompileErrorV> {
    match t {
        TypeV::Path(p) => Ok("akari_ad::runtime::Dual<"@ + joined(p, "::"@) + ">"@),
        _ => Err(CompileErrorV::UnsupportedLowering(LoweringGap::Lift)),
    }
}

/// One prologue line per definition-order entry, so slots referenced
/// inside a not-yet-taken conditional branch still exist.
pub open spec fn sp_prolog_lines(defs: Seq<VarV>, i: int) -> Seq<char>
    decreases defs.len() - i,
{
    if i < 0 || i >= defs.len() {
        Seq::empty()
    } else {
        "let "@ + sp_gen_var(defs[i]) + ": Dual<_> = Dual::zero(ctx);\n"@ + sp_prolog_lines(
            defs,
            i + 1,
        )
    }
}

pub open spec fn sp_reset_lines(defs: Seq<VarV>, i: int) -> Seq<char>
    decreases defs.len() - i,
{
    if i < 0 || i >= defs.len() {
        Seq::empty()
    } else {
        sp_gen_var(defs[i]) + ".reset_grad();\n"@ + sp_reset_lines(defs, i + 1)
    }
}

/// The gradient-reset procedure: clears every slot's adjoint in
/// definition order.
pub open spec fn sp_gen_reset_grad(defs: Seq<VarV>) -> Seq<char> {
    "let reset_grad = move || { unsafe {\n"@ + sp_reset_lines(defs, 0) + "} };\n"@
}

/// The prologue: slot declarations in definition order, then the reset
/// procedure.
pub open spec fn sp_gen_prolog(defs: Seq<VarV>) -> Seq<char> {
    sp_prolog_lines(defs, 0) + sp_gen_reset_grad(defs) + "\n"@
}

/// One lifted parameter per original parameter, comma-separated.
pub open spec fn sp_params_text(params: Seq<ParameterV>, i: int) -> Result<
    Seq<char>,
    CompileErrorV,
>
    decreases params.len() - i,
{
    if i < 0 || i >= params.len() {
        Ok(Seq::empty())
    } else {
        match sp_lift_type(params[i].ty) {
            Err(e) => Err(e),
            Ok(t) => match sp_params_text(params, i + 1) {
                Err(e) => Err(e),
                Ok(rest) => {
                    let sep: Seq<char> = if i + 1 < params.len() {
                        ","@
                    } else {
                        Seq::empty()
                    };
                    Ok(sp_gen_var(params[i].name) + ": "@ + t + sep + rest)
                },
            },
        }
    }
}

/// The whole generated function: analysis, then the lifted signature, the
/// prologue with the reset procedure, the backpropagation procedure that
/// replays the context's tape in reverse, the forward body, and the
/// (result, reset, backprop) triple.
pub open spec fn sp_gen_forward(st: AnalysisV, fv: crate::parse::FunctionV) -> Result<
    (AnalysisV, Seq<char>),
    CompileErrorV,
> {
    match sp_add_vars(st, fv.body.bindings, 0) {
        Err(e) => Err(e),
        Ok(st1) => if !(fv.name is Identifier) {
            Err(CompileErrorV::UnsupportedLowering(LoweringGap::Name))
        } else {
            match sp_params_text(fv.parameters, 0) {
                Err(e) => Err(e),
                Ok(ps) => match sp_lift_type(fv.ret) {
                    Err(e) => Err(e),
                    Ok(rt) => match sp_gen_block_forward(fv.body) {
                        Err(e) => Err(e),
                        Ok(bt) => Ok(
                            (
                                st1,
                                "pub fn "@ + token_text(fv.name) + "_ad"@
                                    + "(ctx:&mut akari_ad::runtime::AdContext, "@ + ps + ") -> ("@
                                    + rt + ", impl Fn(), impl Fn()) {\n "@
                                    + "use akari_ad::runtime::*;use akari_ad::traits::*;\n"@
                                    + " unsafe { "@ + sp_gen_prolog(st1.defs)
                                    + "let back_propagator = move || { unsafe { ctx.backward(); } };\n"@
                                    + "let ret = "@ + bt + ";\n"@
                                    + "(ret, reset_grad, back_propagator)} }\n"@,
                            ),
                        ),
                    },
                },
            }
        },
    }
}

/// Determinism: the generator is a function of its input alone, so
/// identical analyzed state and identical source function give
/// syntactically identical output (or the identical error).
pub proof fn lemma_gen_forward_deterministic(
    st: AnalysisV,
    fv: crate::parse::FunctionV,
    r1: Result<(AnalysisV, Seq<char>), CompileErrorV>,
    r2: Result<(AnalysisV, Seq<char>), CompileErrorV>,
)
    requires
        r1 == sp_gen_forward(st, fv),
        r2 == sp_gen_forward(st, fv),
    ensures
        r1 == r2,
{
}

impl AdCodeGen {
    /// Lifts a declared type (see `sp_lift_type`).
    fn lift_type(&self, ty: &ir::Type) -> (r: Result<String, CompileError>)
        ensures
            text_result_matches(sp_lift_type(ty@), r),
    {
        match ty {
            ir::Type::Path(p) => {
                let mut s = String::from_str("akari_ad::runtime::Dual<");
                let j = join_strings(&p.0, "::");
                s.append(j.as_str());
                s.append(">");
                proof {
                    assert(s@ =~= "akari_ad::runtime::Dual<"@ + joined(p@, "::"@) + ">"@);
                }
                Ok(s)
            },
            _ => Err(CompileError::UnsupportedLowering(LoweringGap::Lift)),
        }
    }

    /// The name of the lifted function: the original name with `_ad`.
    fn lift_func_name(&self, p: &Token) -> (r: String)
        requires
            p@ is Identifier,
        ensures
            r@ == token_text(p@) + "_ad"@,
    {
        match p {
            Token::Identifier { value, .. } => {
                let mut s = value.clone();
                s.append("_ad");
                s
            },
            _ => {
                proof {
                    assert(false);
                }
                String::new()
            },
        }
    }

    fn prolog_lines(&self, i: usize) -> (s: String)
        ensures
            s@ == sp_prolog_lines(self.defs_view(), i as int),
        decreases self.def_list.len() - i,
    {
        proof {
            assert(self.defs_view().len() == self.def_list@.len());
        }
        if i >= self.def_list.len() {
            String::new()
        } else {
            let mut s = String::from_str("let ");
            let gv = self.gen_var(&self.def_list[i]);
            s.append(gv.as_str());
            s.append(": Dual<_> = Dual::zero(ctx);\n");
            let rest = self.prolog_lines(i + 1);
            let out = s.concat(rest.as_str());
            proof {
                assert(self.defs_view()[i as int] == self.def_list@[i as int]@);
                assert(out@ =~= sp_prolog_lines(self.defs_view(), i as int));
            }
            out
        }
    }

    fn reset_lines(&self, i: usize) -> (s: String)
        ensures
            s@ == sp_reset_lines(self.defs_view(), i as int),
        decreases self.def_list.len() - i,
    {
        proof {
            assert(self.defs_view().len() == self.def_list@.len());
        }
        if i >= self.def_list.len() {
            String::new()
        } else {
            let mut s = self.gen_var(&self.def_list[i]);
            s.append(".reset_grad();\n");
            let rest = self.reset_lines(i + 1);
            let out = s.concat(rest.as_str());
            proof {
                assert(self.defs_view()[i as int] == self.def_list@[i as int]@);
                assert(out@ =~= sp_reset_lines(self.defs_view(), i as int));
            }
            out
        }
    }

    /// Prints the gradient-reset procedure (see `sp_gen_reset_grad`).
    fn gen_reset_grad(&mut self) -> (s: String)
        ensures
            s@ == sp_gen_reset_grad(old(self).defs_view()),
            final(self).st() == old(self).st(),
            final(self).defs_view() == old(self).defs_view(),
    {
        let mut s = String::from_str("let reset_grad = move || { unsafe {\n");
        let lines = self.reset_lines(0);
        s.append(lines.as_str());
        s.append("} };\n");
        proof {
            assert(s@ =~= sp_gen_reset_grad(self.defs_view()));
        }
        s
    }

    /// Prints the prologue (see `sp_gen_prolog`).
    fn gen_prolog(&mut self) -> (s: String)
        ensures
            s@ == sp_gen_prolog(old(self).defs_view()),
            final(self).st() == old(self).st(),
            final(self).defs_view() == old(self).defs_view(),
    {
        let mut s = self.prolog_lines(0);
        let rg = self.gen_reset_grad();
        s.append(rg.as_str());
        s.append("\n");
        proof {
            assert(s@ =~= sp_gen_prolog(self.defs_view()));
        }
        s
    }

    fn params_text(&self, params: &Vec<Parameter>, i: usize) -> (r: Result<String, CompileError>)
        ensures
            text_result_matches(sp_params_text(crate::parse::params_view(*params), i as int), r),
        decreases params.len() - i,
    {
        let ghost pv = crate::parse::params_view(*params);
        proof {
            assert(pv.len() == params@.len());
        }
        if i >= params.len() {
            Ok(String::new())
        } else {
            proof {
                assert(pv[i as int] == params@[i as int]@);
            }
            let t = match self.lift_type(&params[i].ty) {
                Ok(t) => t,
                Err(e) => {
                    return Err(e);
                },
            };
            let rest = match self.params_text(params, i + 1) {
                Ok(rest) => rest,
                Err(e) => {
                    return Err(e);
                },
            };
            let mut s = self.gen_var(&params[i].name);
            s.append(": ");
            s.append(t.as_str());
            if i + 1 < params.len() {
                s.append(",");
            }
            let out = s.concat(rest.as_str());
            proof {
                assert(out@ =~= sp_params_text(pv, i as int)->Ok_0);
            }
            Ok(out)
        }
    }

    /// Analyzes `f` and prints the whole lifted function (see
    /// `sp_gen_forward`).
    pub fn gen_forward(&mut self, f: &Function) -> (r: Result<String, CompileError>)
        ensures
            match r {
                Ok(s) => sp_gen_forward(old(self).st(), f@) == Ok::<_, CompileErrorV>(
                    (final(self).st(), s@),
                ),
                Err(e) => sp_gen_forward(old(self).st(), f@) == Err::<
                    (AnalysisV, Seq<char>),
                    _,
                >(e@),
            },
    {
        match self.add_vars(&f.body) {
            Ok(_) => {},
            Err(e) => {
                return Err(e);
            },
        }
        let name = match f.name.as_identifier() {
            Some(_) => self.lift_func_name(&f.name),
            None => {
                return Err(CompileError::UnsupportedLowering(LoweringGap::Name));
            },
        };
        let ps = match self.params_text(&f.parameters, 0) {
            Ok(ps) => ps,
            Err(e) => {
                return Err(e);
            },
        };
        let rt = match self.lift_type(&f.ret) {
            Ok(rt) => rt,
            Err(e) => {
                return Err(e);
            },
        };
        let mut out = String::from_str("pub fn ");
        out.append(name.as_str());
        out.append("(ctx:&mut akari_ad::runtime::AdContext, ");
        out.append(ps.as_str());
        out.append(") -> (");
        out.append(rt.as_str());
        out.append(", impl Fn(), impl Fn()) {\n ");
        out.append("use akari_ad::runtime::*;use akari_ad::traits::*;\n");
        out.append(" unsafe { ");
        let pr = self.gen_prolog();
        out.append(pr.as_str());
        out.append("let back_propagator = move || { unsafe { ctx.backward(); } };\n");
        out.append("let ret = ");
        let ghost st1 = self.st();
        match self.gen_block_forward(&f.body, &mut out) {
            Ok(_) => {},
            Err(e) => {
                return Err(e);
            },
        }
        out.append(";\n");
        out.append("(ret, reset_grad, back_propagator)} }\n");
        proof {
            let bt = sp_gen_block_forward(f@.body)->Ok_0;
            assert(out@ =~= "pub fn "@ + token_text(f@.name) + "_ad"@
                + "(ctx:&mut akari_ad::runtime::AdContext, "@ + sp_params_text(
                crate::parse::params_view(f.parameters),
                0,
            )->Ok_0 + ") -> ("@ + sp_lift_type(f@.ret)->Ok_0 + ", impl Fn(), impl Fn()) {\n "@
                + "use akari_ad::runtime::*;use akari_ad::traits::*;\n"@ + " unsafe { "@
                + sp_gen_prolog(st1.defs)
                + "let back_propagator = move || { unsafe { ctx.backward(); } };\n"@ + "let ret = "@
                + bt + ";\n"@ + "(ret, reset_grad, back_propagator)} }\n"@);
        }
        Ok(out)
    }
}


/// The whole compiler over source text: the front end, then the analyzer
/// and generator starting from an empty analysis state.
pub open spec fn sp_compile(src: Seq<char>) -> Result<Seq<char>, CompileErrorV> {
    match crate::parse::sp_parse_str(src) {
        Err(e) => Err(e),
        Ok(f) => match sp_gen_forward(
            AnalysisV { symbols: Seq::empty(), defs: Seq::empty() },
            f,
        ) {
            Err(e) => Err(e),
            Ok((_, text)) => Ok(text),
        },
    }
}

/// Compiles the source text of one function definition into the text of
/// its lifted, differentiable form (see `sp_compile`).
pub fn compile_str(src: &str) -> (r: Result<String, CompileError>)
    ensures
        text_result_matches(sp_compile(src@), r),
{
    let f = match crate::parse::parse_str(src) {
        Ok(f) => f,
        Err(e) => {
            return Err(e);
        },
    };
    let mut cg = AdCodeGen::new();
    match cg.gen_forward(&f) {
        Ok(text) => Ok(text),
        Err(e) => Err(e),
    }
}

/// Determinism of the whole compiler: identical source text compiles to
/// syntactically identical output across runs — or to the identical error.
pub proof fn lemma_compile_deterministic(
    src: Seq<char>,
    r1: Result<Seq<char>, CompileErrorV>,
    r2: Result<Seq<char>, CompileErrorV>,
)
    requires
        r1 == sp_compile(src),
        r2 == sp_compile(src),
    ensures
        r1 == r2,
{
}

} // verus!



