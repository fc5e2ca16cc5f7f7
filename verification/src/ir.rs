//! The intermediate representation: SSA-style blocks of single-assignment
//! bindings. Expressions never nest; every sub-result is materialized as a
//! new binding before use. Each executable type has a mathematical view
//! (`…V`) over `Seq` and `nat`, which the compiler passes' contracts speak of.

use vstd::prelude::*;

verus! {

broadcast use vstd::std_specs::vec::axiom_vec_index_decreases;

/// Scalar primitive tag carried by a literal atom.
#[derive(Clone, Copy, Debug, PartialEq, Eq, Structural)]
pub enum Primitive {
    I32,
    F32,
    Bool,
}

/// Segmented name for a free identifier, field, or call target.
#[derive(Clone, Debug)]
pub struct Path(pub Vec<String>);

impl View for Path {
    type V = Seq<Seq<char>>;

    open spec fn view(&self) -> Seq<Seq<char>> {
        crate::text::strings_view(self.0)
    }
}

/// Fixed-length array type: element type and length.
#[derive(Debug)]
pub struct Array(pub Box<Type>, pub usize);

/// Slice type: element type of unknown count.
#[derive(Debug)]
pub struct Slice(pub Box<Type>);

/// Tuple type: ordered element types.
#[derive(Debug)]
pub struct Tuple(pub Vec<Type>);

/// A declared type in the supported subset.
#[derive(Debug)]
pub enum Type {
    Path(Path),
    Tuple(Tuple),
    Slice(Slice),
    Inferred,
}

/// Mathematical view of `Type`.
pub enum TypeV {
    Path(Seq<Seq<char>>),
    Tuple(Seq<TypeV>),
    Slice(Box<TypeV>),
    Inferred,
}

pub open spec fn type_view(t: Type) -> TypeV
    decreases t, 0int, 0int,
{
    match t {
        Type::Path(p) => TypeV::Path(p@),
        Type::Tuple(tu) => TypeV::Tuple(types_view_rec(tu.0, 0)),
        Type::Slice(s) => TypeV::Slice(Box::new(type_view(*s.0))),
        Type::Inferred => TypeV::Inferred,
    }
}

pub open spec fn types_view_rec(v: Vec<Type>, i: int) -> Seq<TypeV>
    decreases v, 1int, v.len() - i,
{
    if i < 0 || i >= v.len() {
        Seq::empty()
    } else {
        seq![type_view(v[i])] + types_view_rec(v, i + 1)
    }
}

impl View for Type {
    type V = TypeV;

    open spec fn view(&self) -> TypeV {
        type_view(*self)
    }
}

/// An atomic operand: a literal with its primitive tag, a string literal,
/// or a reference to a free identifier flagged constant or non-constant.
#[derive(Clone, Debug)]
pub enum Atom {
    Literal(String, Primitive),
    String(String),
    Identifier { path: Path, constant: bool },
}

/// Mathematical view of `Atom`.
pub enum AtomV {
    Literal(Seq<char>, Primitive),
    String(Seq<char>),
    Identifier { path: Seq<Seq<char>>, constant: bool },
}

impl View for Atom {
    type V = AtomV;

    open spec fn view(&self) -> AtomV {
        match self {
            Atom::Literal(s, p) => AtomV::Literal(s@, *p),
            Atom::String(s) => AtomV::String(s@),
            Atom::Identifier { path, constant } => AtomV::Identifier {
                path: path@,
                constant: *constant,
            },
        }
    }
}

/// Primitive operations, one per supported operator or built-in form.
#[derive(Clone, Copy, Debug, PartialEq, Eq, Structural)]
pub enum PrimFunc {
    Neg,
    Not,
    Add,
    Sub,
    Mul,
    Div,
    Rem,
    And,
    Or,
    BitAnd,
    BitOr,
    Shl,
    Shr,
    Eq,
    Ne,
    Lt,
    Gt,
    Le,
    Ge,
    Load,
    Extract,
    Insert,
}

/// A call target: a primitive operation or a named function.
#[derive(Clone, Debug)]
pub enum Func {
    PrimFunc(PrimFunc),
    Named(Path),
}

/// Mathematical view of `Func`.
pub enum FuncV {
    PrimFunc(PrimFunc),
    Named(Seq<Seq<char>>),
}

impl View for Func {
    type V = FuncV;

    open spec fn view(&self) -> FuncV {
        match self {
            Func::PrimFunc(p) => FuncV::PrimFunc(*p),
            Func::Named(p) => FuncV::Named(p@),
        }
    }
}

/// A variable: a synthetic temporary from a monotonic counter, or a named
/// variable as a (name, generation) pair from version renaming.
#[derive(Clone, Debug)]
pub enum Var {
    Id(usize),
    Named(Path, usize),
}

/// Mathematical view of `Var`.
pub enum VarV {
    Id(nat),
    Named(Seq<Seq<char>>, nat),
}

impl View for Var {
    type V = VarV;

    open spec fn view(&self) -> VarV {
        match self {
            Var::Id(i) => VarV::Id(*i as nat),
            Var::Named(p, g) => VarV::Named(p@, *g as nat),
        }
    }
}

/// An expression bound by a `Let`. Sub-results are always variables:
/// expressions never nest, except for the two blocks of a conditional.
#[derive(Debug)]
pub enum Expr {
    Atom(Atom),
    Var(Var),
    Call(Func, Vec<Var>),
    IfThenElse { cond: Var, then: Box<Block>, else_: Box<Block> },
}

/// Exactly one variable bound to exactly one expression.
#[derive(Debug)]
pub struct Let {
    pub var: Var,
    pub val: Expr,
}

/// Ordered bindings plus an optional trailing return variable.
#[derive(Debug)]
pub struct Block {
    pub bindings: Vec<Let>,
    pub ret: Option<Var>,
}

/// Mathematical view of `Expr`.
pub enum ExprV {
    Atom(AtomV),
    Var(VarV),
    Call(FuncV, Seq<VarV>),
    IfThenElse { cond: VarV, then: BlockV, else_: BlockV },
}

/// Mathematical view of `Let`.
pub struct LetV {
    pub var: VarV,
    pub val: ExprV,
}

/// Mathematical view of `Block`.
pub struct BlockV {
    pub bindings: Seq<LetV>,
    pub ret: Option<VarV>,
}

pub open spec fn vars_view(v: Vec<Var>) -> Seq<VarV> {
    v@.map_values(|x: Var| x@)
}

pub open spec fn expr_view(e: Expr) -> ExprV
    decreases e, 0int, 0int,
{
    match e {
        Expr::Atom(a) => ExprV::Atom(a@),
        Expr::Var(v) => ExprV::Var(v@),
        Expr::Call(f, args) => ExprV::Call(f@, vars_view(args)),
        Expr::IfThenElse { cond, then, else_ } => ExprV::IfThenElse {
            cond: cond@,
            then: block_view(*then),
            else_: block_view(*else_),
        },
    }
}

pub open spec fn block_view(b: Block) -> BlockV
    decreases b, 2int, 0int,
{
    BlockV { bindings: lets_view_rec(b.bindings, 0), ret: match b.ret {
        Option::Some(v) => Option::Some(v@),
        Option::None => Option::None,
    } }
}

pub open spec fn lets_view_rec(v: Vec<Let>, i: int) -> Seq<LetV>
    decreases v, 1int, v.len() - i,
{
    if i < 0 || i >= v.len() {
        Seq::empty()
    } else {
        seq![LetV { var: v[i].var@, val: expr_view(v[i].val) }] + lets_view_rec(v, i + 1)
    }
}

impl View for Expr {
    type V = ExprV;

    open spec fn view(&self) -> ExprV {
        expr_view(*self)
    }
}

impl View for Let {
    type V = LetV;

    open spec fn view(&self) -> LetV {
        LetV { var: self.var@, val: self.val@ }
    }
}

impl View for Block {
    type V = BlockV;

    open spec fn view(&self) -> BlockV {
        block_view(*self)
    }
}

impl Block {
    /// An empty block: no bindings, return not yet resolved.
    pub fn new() -> (b: Self)
        ensures
            b@.bindings == Seq::<LetV>::empty(),
            b@.ret is None,
    {
        Self { bindings: vec![], ret: None }
    }
}

/// `lets_view_rec` from `i` covers the bindings from `i` on.
pub proof fn lemma_lets_view_rec_len(v: Vec<Let>, i: int)
    requires
        0 <= i <= v.len(),
    ensures
        lets_view_rec(v, i).len() == v.len() - i,
    decreases v.len() - i,
{
    if i < v.len() {
        lemma_lets_view_rec_len(v, i + 1);
    }
}

/// `lets_view_rec` indexed from `i` is one binding's view followed by the rest.
pub proof fn lemma_lets_view_rec_index(v: Vec<Let>, i: int, k: int)
    requires
        0 <= i <= k < v.len(),
    ensures
        lets_view_rec(v, i).len() == v.len() - i,
        lets_view_rec(v, i)[k - i] == (LetV { var: v[k].var@, val: expr_view(v[k].val) }),
    decreases v.len() - i,
{
    lemma_lets_view_rec_len(v, i);
    if i < k {
        lemma_lets_view_rec_index(v, i + 1, k);
    } else {
        lemma_lets_view_rec_len(v, i + 1);
    }
}


/// Character-wise equality of two paths.
pub fn path_eq(a: &Path, b: &Path) -> (r: bool)
    ensures
        r == (a@ == b@),
{
    proof {
        assert(a@.len() == a.0@.len());
        assert(b@.len() == b.0@.len());
    }
    if a.0.len() != b.0.len() {
        return false;
    }
    let n = a.0.len();
    let mut i: usize = 0;
    while i < n
        invariant
            i <= n,
            n == a.0.len(),
            n == b.0.len(),
            forall|j: int| 0 <= j < i ==> a@[j] == b@[j],
        decreases n - i,
    {
        if !(a.0[i] == b.0[i]) {
            proof {
                assert(a@[i as int] == a.0@[i as int]@);
                assert(b@[i as int] == b.0@[i as int]@);
            }
            return false;
        }
        proof {
            assert(a@[i as int] == a.0@[i as int]@);
            assert(b@[i as int] == b.0@[i as int]@);
        }
        i = i + 1;
    }
    proof {
        assert(a@ =~= b@);
    }
    true
}

/// Structural equality of two variables.
pub fn var_eq(a: &Var, b: &Var) -> (r: bool)
    ensures
        r == (a@ == b@),
{
    match (a, b) {
        (Var::Id(x), Var::Id(y)) => x == y,
        (Var::Named(p, g), Var::Named(q, h)) => {
            let same = path_eq(p, q);
            same && g == h
        },
        _ => false,
    }
}

/// A copy of a path, equal in view.
pub fn path_dup(p: &Path) -> (r: Path)
    ensures
        r@ == p@,
{
    let n = p.0.len();
    let mut v: Vec<String> = Vec::new();
    let mut i: usize = 0;
    while i < n
        invariant
            i <= n,
            n == p.0.len(),
            v@.len() == i,
            forall|j: int| 0 <= j < i ==> v@[j] == p.0@[j],
        decreases n - i,
    {
        v.push(p.0[i].clone());
        i = i + 1;
    }
    let r = Path(v);
    proof {
        assert(r@ =~= p@);
    }
    r
}

/// A copy of a variable, equal in view.
pub fn var_dup(v: &Var) -> (r: Var)
    ensures
        r@ == v@,
{
    match v {
        Var::Id(i) => Var::Id(*i),
        Var::Named(p, g) => Var::Named(path_dup(p), *g),
    }
}


/// Appending one binding appends its view.
pub proof fn lemma_lets_view_extend(v2: Vec<Let>, v1: Vec<Let>, l: Let)
    requires
        v2@ == v1@.push(l),
    ensures
        lets_view_rec(v2, 0) == lets_view_rec(v1, 0).push(
            LetV { var: l.var@, val: expr_view(l.val) },
        ),
{
    lemma_lets_view_rec_len(v2, 0);
    lemma_lets_view_rec_len(v1, 0);
    let lhs = lets_view_rec(v2, 0);
    let rhs = lets_view_rec(v1, 0).push(LetV { var: l.var@, val: expr_view(l.val) });
    assert forall|k: int| 0 <= k < lhs.len() implies lhs[k] == rhs[k] by {
        lemma_lets_view_rec_index(v2, 0, k);
        if k < v1.len() {
            lemma_lets_view_rec_index(v1, 0, k);
            assert(v2[k] == v1[k]);
        } else {
            assert(v2[k] == l);
        }
    }
    assert(lhs =~= rhs);
}

/// Concatenating binding vectors concatenates their views.
pub proof fn lemma_lets_view_concat(w: Vec<Let>, a: Vec<Let>, b: Vec<Let>)
    requires
        w@ == a@ + b@,
    ensures
        lets_view_rec(w, 0) == lets_view_rec(a, 0) + lets_view_rec(b, 0),
{
    lemma_lets_view_rec_len(w, 0);
    lemma_lets_view_rec_len(a, 0);
    lemma_lets_view_rec_len(b, 0);
    let lhs = lets_view_rec(w, 0);
    let rhs = lets_view_rec(a, 0) + lets_view_rec(b, 0);
    assert forall|k: int| 0 <= k < lhs.len() implies lhs[k] == rhs[k] by {
        lemma_lets_view_rec_index(w, 0, k);
        if k < a.len() {
            lemma_lets_view_rec_index(a, 0, k);
            assert(w[k] == a[k]);
        } else {
            lemma_lets_view_rec_index(b, 0, k - a.len());
            assert(w[k] == b[k - a.len()]);
        }
    }
    assert(lhs =~= rhs);
}


/// A path built from cloned segments.
pub fn path_from_segments(v: &Vec<String>) -> (r: Path)
    ensures
        r@ == crate::text::strings_view(*v),
{
    let n = v.len();
    let mut out: Vec<String> = Vec::new();
    let mut i: usize = 0;
    while i < n
        invariant
            i <= n,
            n == v.len(),
            out@.len() == i,
            forall|j: int| 0 <= j < i ==> out@[j] == v@[j],
        decreases n - i,
    {
        out.push(v[i].clone());
        i = i + 1;
    }
    let r = Path(out);
    proof {
        assert(r@ =~= crate::text::strings_view(*v));
    }
    r
}

} // verus!



